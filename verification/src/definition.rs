//! The flight plan as it is handed to the planner: plain records, read and
//! never changed.

use vstd::prelude::*;

verus! {

/// Who flies, and what.
#[derive(Debug, Default)]
pub struct Detail {
    pub tail: Option<String>,
    pub pic: Option<String>,
    pub call_sign: Option<String>,
}

/// Up to three lines that the pilot wants to have in view.
#[derive(Debug, Default)]
pub struct Important {
    pub lines: [Option<String>; 3],
}

/// A whole plan: routes, diversion tables and holds.
#[derive(Debug, Default)]
pub struct Plan {
    pub detail: Detail,
    pub important: Important,
    pub diversions: Vec<Diversion>,
    pub routes: Vec<Route>,
    pub holds: Vec<Hold>,
}

/// A speed in whole knots and the direction it is reported for, in whole
/// degrees.
#[derive(Debug, Default)]
pub struct Velocity {
    pub angle: i64,
    pub speed: i64,
}

/// What a diversion table is drawn for.
#[derive(Debug, Default)]
pub struct Diversion {
    pub wind: Velocity,
    pub aircraft_speed: i64,
    pub variation: i64,
}

/// What a holding pattern is drawn for.
#[derive(Debug, Default)]
pub struct Hold {
    pub description: String,
    pub right_hand: bool,
    pub in_bound_track: i64,
    pub aircraft_speed: i64,
    pub variation: i64,
    pub wind: Velocity,
}

/// One line of notes, with the style it is printed in.
#[derive(Debug)]
pub enum FontType {
    Bold(String),
    Normal(String),
    Italics(String),
    Blank,
}

/// Whether a character is white space, as Unicode defines it.
pub open spec fn is_white_space(c: char) -> bool {
    let code = c as u32;
    ||| 0x09 <= code <= 0x0D
    ||| code == 0x20
    ||| code == 0x85
    ||| code == 0xA0
    ||| code == 0x1680
    ||| 0x2000 <= code <= 0x200A
    ||| code == 0x2028
    ||| code == 0x2029
    ||| code == 0x202F
    ||| code == 0x205F
    ||| code == 0x3000
}

/// Whether a text holds nothing but white space.
pub open spec fn is_blank(text: Seq<char>) -> bool {
    forall|i: int| 0 <= i < text.len() ==> is_white_space(#[trigger] text[i])
}

/// Whether a character is white space, as Unicode defines it.
pub fn white_space(c: char) -> (r: bool)
    ensures
        r == is_white_space(c),
{
    let code: u32 = c as u32;
    (0x09 <= code && code <= 0x0D) || code == 0x20 || code == 0x85 || code == 0xA0 || code
        == 0x1680 || (0x2000 <= code && code <= 0x200A) || code == 0x2028 || code == 0x2029
        || code == 0x202F || code == 0x205F || code == 0x3000
}

/// Whether a text holds nothing but white space.
pub fn blank(text: &str) -> (r: bool)
    ensures
        r == is_blank(text@),
{
    let mut all: bool = true;
    for c in it: text.chars()
        invariant
            it.seq() == text@,
            all == is_blank(text@.take(it.index() as int)),
    {
        let ghost k = it.index() as int;
        let white: bool = white_space(c);
        proof {
            let head = text@.take(k);
            let more = text@.take(k + 1);
            assert(forall|i: int| 0 <= i < k ==> head[i] == more[i]);
            assert(more[k] == c);
            if all && white {
                assert(is_blank(more));
            } else if !white {
                assert(!is_white_space(more[k]));
            } else {
                let i = choose|i: int| 0 <= i < head.len() && !is_white_space(#[trigger] head[i]);
                assert(!is_white_space(more[i]));
            }
        }
        all = all && white;
    }
    proof {
        assert(text@.take(text@.len() as int) =~= text@);
    }
    all
}

impl FontType {
    /// The text of the line, if it has any.
    pub open spec fn text(self) -> Option<Seq<char>> {
        match self {
            FontType::Bold(value) => Some(value@),
            FontType::Italics(value) => Some(value@),
            FontType::Normal(value) => Some(value@),
            FontType::Blank => None,
        }
    }

    /// The line with its text replaced by `value`: the style stays, and a
    /// blank line becomes a normal one unless `value` is blank too.
    pub open spec fn with_text(self, value: Seq<char>, r: FontType) -> bool {
        match self {
            FontType::Bold(_) => r is Bold && r.text() == Some(value),
            FontType::Italics(_) => r is Italics && r.text() == Some(value),
            FontType::Normal(_) => r is Normal && r.text() == Some(value),
            FontType::Blank => if is_blank(value) {
                r is Blank
            } else {
                r is Normal && r.text() == Some(value)
            },
        }
    }

    /// The text of the line, if it has any.
    pub fn string_value(&self) -> (r: Option<&str>)
        ensures
            r.is_some() == self.text().is_some(),
            r.is_some() ==> r.unwrap()@ == self.text().unwrap(),
    {
        match self {
            FontType::Bold(value) => Some(value.as_str()),
            FontType::Italics(value) => Some(value.as_str()),
            FontType::Normal(value) => Some(value.as_str()),
            FontType::Blank => None,
        }
    }

    /// The line with its text replaced by `value`: the style stays, and a
    /// blank line becomes a normal one unless `value` is blank too.
    pub fn set_value(&self, value: String) -> (r: FontType)
        ensures
            self.with_text(value@, r),
    {
        match self {
            FontType::Bold(_) => FontType::Bold(value),
            FontType::Italics(_) => FontType::Italics(value),
            FontType::Normal(_) => FontType::Normal(value),
            FontType::Blank => {
                if blank(value.as_str()) {
                    FontType::Blank
                } else {
                    FontType::Normal(value)
                }
            },
        }
    }
}

/// A route: its legs in the order they are flown, and the notes for it.
#[derive(Debug, Default)]
pub struct Route {
    pub legs: Vec<Leg>,
    pub notes: Vec<FontType>,
}

/// One leg of a route, as planned.
#[derive(Debug, Default)]
pub struct Leg {
    pub from: String,
    pub to: String,
    pub safe: String,
    pub planned: String,
    pub speed: i64,
    pub course: i64,
    pub distance: i64,
    pub variation: i64,
    pub wind_direction: i64,
    pub wind_speed: i64,
}

} // verus!
