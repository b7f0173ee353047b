//! The log of a route: one row for each leg, with the heading to fly and the
//! time it takes, and room for what is noted in flight.

use crate::calc::{
    calc_aircraft, heading_of, heading_text, normalize, reciprocal_of, Degree, Triangle,
    Velocity, VelocityModel, WindTriangle, WindTriangleModel,
};
use crate::definition::{Detail, FontType, Leg as PlanLeg};
use crate::draw_utils::{
    disclaimer, disclaimer_ops, horizontal_line, line_ops, vertical_line, write_ops, Font,
};
use crate::fixed::{div_round, from_int, round, round_div, rounded, Coord, Fixed, ONE};
use crate::pdf::builder::PDFPageBuilder;
use crate::pdf::content::{
    drew, drew_both, init_ops, init_page, length, page_mm, placed, point_ok, ContentBuilder,
};
use crate::pdf::object::{font_name, point, FontStyle, OpView, Point};
use crate::text::{clamp_i32, clamped_i32, int_text, int_to_text, push_char, push_int};
use vstd::prelude::*;

verus! {

/// One leg of a route as it is logged, with its solved wind triangle.
pub struct Leg {
    pub name: (String, String),
    pub safe: String,
    pub planned: String,
    pub speed: i64,
    pub course: Degree,
    pub distance: i64,
    pub variation: Degree,
    pub wind_direction: Degree,
    pub wind_speed: i64,
    pub triangle: Triangle,
}

/// What is worked out for a leg that can be flown.
pub struct LegCalc {
    pub ground_speed: Fixed,
    pub heading: Degree,
    pub heading_magnetic: Degree,
    /// Minutes for the leg; none when the aircraft does not move.
    pub time: Option<Fixed>,
    /// Minutes since the start of the route; none when the time of this leg
    /// or of one before it is not known.
    pub total: Option<Fixed>,
}

/// What a leg stands for: its texts as characters, its numbers as numbers.
pub struct LegModel {
    pub from: Seq<char>,
    pub to: Seq<char>,
    pub safe: Seq<char>,
    pub planned: Seq<char>,
    pub speed: int,
    pub course: int,
    pub distance: int,
    pub variation: int,
    pub wind_direction: int,
    pub wind_speed: int,
    pub triangle: Triangle,
}

impl View for Leg {
    type V = LegModel;

    open spec fn view(&self) -> LegModel {
        LegModel {
            from: self.name.0@,
            to: self.name.1@,
            safe: self.safe@,
            planned: self.planned@,
            speed: self.speed as int,
            course: self.course@,
            distance: self.distance as int,
            variation: self.variation@,
            wind_direction: self.wind_direction@,
            wind_speed: self.wind_speed as int,
            triangle: self.triangle,
        }
    }
}

/// What each leg of a list stands for.
pub open spec fn legs_view(legs: Seq<Leg>) -> Seq<LegModel> {
    Seq::new(legs.len(), |i: int| legs[i]@)
}

/// What a leg of a plan stands for as it is logged, with the solved wind
/// triangle that is kept with it.
pub open spec fn converted(json_leg: PlanLeg, triangle: Triangle) -> LegModel {
    LegModel {
        from: json_leg.from@,
        to: json_leg.to@,
        safe: json_leg.safe@,
        planned: json_leg.planned@,
        speed: json_leg.speed as int,
        course: normalize(json_leg.course * ONE),
        distance: json_leg.distance as int,
        variation: normalize(json_leg.variation * ONE),
        wind_direction: normalize(json_leg.wind_direction * ONE),
        wind_speed: json_leg.wind_speed as int,
        triangle,
    }
}

/// What a leg stands for when it is flown the other way: from and to change
/// places, the course turns about, and the triangle solved for that course
/// takes the place of the leg's own.
pub open spec fn reversed(leg: LegModel, triangle: Triangle) -> LegModel {
    LegModel {
        from: leg.to,
        to: leg.from,
        course: reciprocal_of(leg.course),
        triangle,
        ..leg
    }
}

/// The figures of a leg that can be flown, as numbers.
pub struct LegFigures {
    pub ground_speed: int,
    pub heading: int,
    pub heading_magnetic: int,
    pub time: Option<int>,
    pub total: Option<int>,
}

impl View for LegCalc {
    type V = LegFigures;

    open spec fn view(&self) -> LegFigures {
        LegFigures {
            ground_speed: self.ground_speed as int,
            heading: self.heading@,
            heading_magnetic: self.heading_magnetic@,
            time: match self.time {
                Some(t) => Some(t as int),
                None => None,
            },
            total: match self.total {
                Some(t) => Some(t as int),
                None => None,
            },
        }
    }
}

/// The leg of a plan as it is logged: the course, the variation and the wind
/// direction become bearings, and the solved triangle is kept with the leg.
pub fn convert_leg(json_leg: &PlanLeg, triangle: Triangle) -> (leg: Leg)
    ensures
        leg@ == converted(*json_leg, triangle),
{
    Leg {
        name: (json_leg.from.clone(), json_leg.to.clone()),
        safe: json_leg.safe.clone(),
        planned: json_leg.planned.clone(),
        speed: json_leg.speed,
        course: Degree::new(from_int(json_leg.course)),
        distance: json_leg.distance,
        variation: Degree::new(from_int(json_leg.variation)),
        wind_direction: Degree::new(from_int(json_leg.wind_direction)),
        wind_speed: json_leg.wind_speed,
        triangle,
    }
}

/// The wind triangle of a leg of a plan: the wind blows towards the
/// direction opposite to the one it is reported from.
pub open spec fn triangle_of(json_leg: PlanLeg) -> WindTriangleModel {
    WindTriangleModel {
        air_speed: json_leg.speed as int,
        track: normalize(json_leg.course * ONE),
        wind: VelocityModel {
            speed: json_leg.wind_speed as int,
            bearing: reciprocal_of(normalize(json_leg.wind_direction * ONE)),
        },
    }
}

/// The wind triangle of a leg of a plan when it is flown the other way.
pub open spec fn reverse_triangle_of(json_leg: PlanLeg) -> WindTriangleModel {
    WindTriangleModel {
        track: reciprocal_of(normalize(json_leg.course * ONE)),
        ..triangle_of(json_leg)
    }
}

/// The wind triangle of a leg of a plan.
pub fn leg_triangle(json_leg: &PlanLeg) -> (t: WindTriangle)
    ensures
        t@ == triangle_of(*json_leg),
{
    WindTriangle {
        air_speed: json_leg.speed,
        track: Degree::new(from_int(json_leg.course)),
        wind: Velocity {
            speed: json_leg.wind_speed,
            bearing: Degree::new(from_int(json_leg.wind_direction)).reciprocal(),
        },
    }
}

/// The wind triangle of a leg of a plan when it is flown the other way.
pub fn reverse_leg_triangle(json_leg: &PlanLeg) -> (t: WindTriangle)
    ensures
        t@ == reverse_triangle_of(*json_leg),
{
    WindTriangle {
        air_speed: json_leg.speed,
        track: Degree::new(from_int(json_leg.course)).reciprocal(),
        wind: Velocity {
            speed: json_leg.wind_speed,
            bearing: Degree::new(from_int(json_leg.wind_direction)).reciprocal(),
        },
    }
}

/// A leg flown the other way: from and to change places, the course turns
/// about, and the triangle solved for that course takes the place of the
/// leg's own.
pub fn rev_leg(leg: Leg, triangle: Triangle) -> (r: Leg)
    ensures
        r@ == reversed(leg@, triangle),
{
    let Leg {
        name,
        safe,
        planned,
        speed,
        course,
        distance,
        variation,
        wind_direction,
        wind_speed,
        triangle: _,
    } = leg;
    let (from, to) = name;
    Leg {
        name: (to, from),
        safe,
        planned,
        speed,
        course: course.reciprocal(),
        distance,
        variation,
        wind_direction,
        wind_speed,
        triangle,
    }
}

/// Minutes for a distance in nautical miles at a ground speed in
/// ten-millionths of a knot: 60 times the distance over the speed. There is
/// no time when the aircraft does not move.
pub open spec fn leg_time(distance: int, ground_speed: int) -> Option<int> {
    if ground_speed > 0 {
        Some(round_div(60 * distance * ONE * ONE, ground_speed))
    } else {
        None
    }
}

/// Whether a leg can be flown: its triangle closes, and the aircraft is not
/// blown backwards along its track.
pub open spec fn flyable(leg: LegModel) -> bool {
    leg.triangle matches Triangle::Solved { ground_speed, .. } && ground_speed >= 0
}

/// The minutes of a leg, if it can be flown and the aircraft moves.
pub open spec fn time_of(leg: LegModel) -> Option<int> {
    match leg.triangle {
        Triangle::Solved { ground_speed, .. } => if ground_speed >= 0 {
            leg_time(leg.distance, ground_speed as int)
        } else {
            None
        },
        Triangle::Unsolvable => None,
    }
}

/// The minutes from the start of the route to the end of the first `n` legs:
/// the sum of their times, as long as each is known and the sum can be held.
pub open spec fn total_after(legs: Seq<LegModel>, n: int) -> Option<int>
    decreases n,
{
    if n <= 0 || n > legs.len() {
        Some(0)
    } else {
        match (total_after(legs, n - 1), time_of(legs[n - 1])) {
            (Some(before), Some(time)) => if i128::MIN <= before + time <= i128::MAX {
                Some(before + time)
            } else {
                None
            },
            _ => None,
        }
    }
}

/// The figures of the leg at place `i` of a route, if it can be flown.
pub open spec fn figures_of(legs: Seq<LegModel>, i: int) -> Option<LegFigures> {
    let leg = legs[i];
    match leg.triangle {
        Triangle::Solved { ground_speed, correction } => if ground_speed >= 0 {
            let h = heading_of(
                leg.course,
                leg.variation,
                ground_speed as int,
                correction as int,
            );
            Some(
                LegFigures {
                    ground_speed: ground_speed as int,
                    heading: h.3,
                    heading_magnetic: h.4,
                    time: time_of(leg),
                    total: total_after(legs, i + 1),
                },
            )
        } else {
            None
        },
        Triangle::Unsolvable => None,
    }
}

/// What a computed figure stands for.
pub open spec fn calc_view(calc: Option<LegCalc>) -> Option<LegFigures> {
    match calc {
        Some(c) => Some(c@),
        None => None,
    }
}

/// Minutes for a distance at a ground speed.
pub fn time_for(distance: i64, ground_speed: Fixed) -> (t: Option<Fixed>)
    ensures
        match t {
            Some(minutes) => leg_time(distance as int, ground_speed as int) == Some(
                minutes as int,
            ),
            None => leg_time(distance as int, ground_speed as int).is_none(),
        },
{
    if ground_speed > 0 {
        let wide: i128 = distance as i128;
        assert(-600_000_000_000_000_000_000 <= 60 * wide <= 600_000_000_000_000_000_000);
        let scaled: i128 = 60 * wide * ONE * ONE;
        proof {
            crate::fixed::round_div_is_near(scaled as int, ground_speed as int);
            quotient_is_no_larger(scaled as int, ground_speed as int);
        }
        Some(div_round(scaled, ground_speed))
    } else {
        None
    }
}

/// A rounded quotient by a positive whole number is no larger than the
/// dividend.
pub proof fn quotient_is_no_larger(n: int, d: int)
    requires
        1 <= d,
    ensures
        n >= 0 ==> 0 <= round_div(n, d) <= n,
        n <= 0 ==> n <= round_div(n, d) <= 0,
{
    let m = crate::fixed::magnitude(n);
    let dn = d as nat;
    assert(m / dn <= m && 0 <= m % dn < dn && m == (m / dn) * dn + m % dn) by (nonlinear_arith)
        requires
            1 <= dn,
    ;
    if 2 * (m % dn) >= dn {
        assert((m / dn) + 1 <= m) by (nonlinear_arith)
            requires
                m == (m / dn) * dn + m % dn,
                2 * (m % dn) >= dn,
                1 <= dn,
                m % dn < dn,
        ;
    }
}

/// Works out each leg of a route in turn: ground speed, headings, time, and
/// the time since the start. A leg that cannot be flown has no figures.
pub fn calc_legs(legs: &[Leg]) -> (result: Vec<(&Leg, Option<LegCalc>)>)
    ensures
        result@.len() == legs@.len(),
        forall|i: int|
            0 <= i < legs@.len() ==> *(#[trigger] result@[i]).0 == legs@[i] && calc_view(
                result@[i].1,
            ) == figures_of(legs_view(legs@), i),
{
    let mut result: Vec<(&Leg, Option<LegCalc>)> = Vec::new();
    let mut total: Option<Fixed> = Some(0);
    let mut n: usize = 0;
    while n < legs.len()
        invariant
            n <= legs.len(),
            result@.len() == n,
            match total {
                Some(t) => total_after(legs_view(legs@), n as int) == Some(t as int),
                None => total_after(legs_view(legs@), n as int).is_none(),
            },
            forall|i: int|
                0 <= i < n ==> *(#[trigger] result@[i]).0 == legs@[i] && calc_view(result@[i].1)
                    == figures_of(legs_view(legs@), i),
        decreases legs.len() - n,
    {
        let leg = &legs[n];
        let heading = calc_aircraft(leg.course, leg.variation, &leg.triangle);
        let calc = match heading {
            Some(h) => {
                if h.speed_overground >= 0 {
                    let time = time_for(leg.distance, h.speed_overground);
                    total = sum_of(total, time);
                    Some(
                        LegCalc {
                            ground_speed: h.speed_overground,
                            heading: h.heading,
                            heading_magnetic: h.heading_magnetic,
                            time,
                            total,
                        },
                    )
                } else {
                    total = None;
                    None
                }
            },
            None => {
                total = None;
                None
            },
        };
        result.push((leg, calc));
        n += 1;
    }
    result
}

/// The sum of two times, if both are known and the sum can be held.
pub fn sum_of(a: Option<Fixed>, b: Option<Fixed>) -> (r: Option<Fixed>)
    ensures
        r == match (a, b) {
            (Some(x), Some(y)) => if i128::MIN <= x + y <= i128::MAX {
                Some((x + y) as i128)
            } else {
                None
            },
            _ => None,
        },
{
    match (a, b) {
        (Some(x), Some(y)) => {
            if (y >= 0 && x <= i128::MAX - y) || (y < 0 && x >= i128::MIN - y) {
                Some(x + y)
            } else {
                None
            }
        },
        _ => None,
    }
}

/// The margin at both sides of the log, in millimetres.
pub const MARGIN_SIDE: Fixed = 2_5000000;

/// The size that the rows are set in.
pub const FONT_SIZE: Fixed = 10_0000000;

/// The size that the notes are set in.
pub const FONT_NOTES_SIZE: Fixed = 9_0000000;

/// The size that the column titles are set in.
pub const FONT_HEADER_SIZE: Fixed = 7_0000000;

/// What stands in a cell where there is no figure to show.
pub open spec fn placeholder() -> Seq<char> {
    "---"@
}

/// A whole number as the log shows it: brought into the range of 32 bits.
pub open spec fn whole_text(v: int) -> Seq<char> {
    int_text(clamped_i32(v))
}

/// A fixed-point number as the log shows it: rounded to a whole number.
pub open spec fn figure_text(x: int) -> Seq<char> {
    whole_text(rounded(x))
}

/// The wind of a leg as the log shows it: the direction it comes from, an
/// at sign, and its speed.
pub open spec fn wind_text(leg: LegModel) -> Seq<char> {
    heading_text(leg.wind_direction) + seq!['@'] + int_text(leg.wind_speed)
}

/// How many columns the log has.
pub const COLUMNS: usize = 14;

/// The width of a column of the log, in millimetres.
pub open spec fn column_width(k: int) -> int {
    if k == 0 {
        25_0000000
    } else if 1 <= k <= 5 {
        7_0000000
    } else if k == 6 {
        15_0000000
    } else if k == 7 {
        7_0000000
    } else if k == 8 {
        8_0000000
    } else if k == 9 {
        0_5000000
    } else if k == 10 {
        9_0000000
    } else if k == 11 {
        7_0000000
    } else if k == 12 || k == 13 {
        14_0000000
    } else {
        0
    }
}

/// The title of a column of the log; the narrow column that sets the times
/// apart has none.
pub open spec fn column_title(k: int) -> Option<Seq<char>> {
    if k == 0 {
        Some("Safe"@)
    } else if k == 1 {
        Some("Plan"@)
    } else if k == 2 {
        Some("Spd"@)
    } else if k == 3 {
        Some("Track"@)
    } else if k == 4 {
        Some("Dist"@)
    } else if k == 5 {
        Some("Wind"@)
    } else if k == 6 {
        Some("G/S"@)
    } else if k == 7 {
        Some("HD(T)"@)
    } else if k == 8 {
        Some("HD(M)"@)
    } else if k == 10 {
        Some("Time"@)
    } else if k == 11 {
        Some("S/C"@)
    } else if k == 12 {
        Some("ETA"@)
    } else if k == 13 {
        Some("ATA"@)
    } else {
        None
    }
}

/// The widths of the first `count` columns together: where the last of
/// them ends, and where its values and its title start.
pub open spec fn columns_end(count: nat) -> int
    decreases count,
{
    if count == 0 {
        0
    } else {
        columns_end((count - 1) as nat) + column_width(count - 1)
    }
}

/// No column is wider than 25 mm, so `count` columns end within that many
/// times 25 mm.
pub proof fn columns_end_is_bounded(count: nat)
    ensures
        0 <= columns_end(count) <= 25_0000000 * count,
    decreases count,
{
    if count > 0 {
        columns_end_is_bounded((count - 1) as nat);
    }
}

/// The width of a column of the log.
pub fn col_width(k: usize) -> (w: Fixed)
    ensures
        w == column_width(k as int),
{
    if k == 0 {
        25_0000000
    } else if k <= 5 {
        7_0000000
    } else if k == 6 {
        15_0000000
    } else if k == 7 {
        7_0000000
    } else if k == 8 {
        8_0000000
    } else if k == 9 {
        0_5000000
    } else if k == 10 {
        9_0000000
    } else if k == 11 {
        7_0000000
    } else if k == 12 || k == 13 {
        14_0000000
    } else {
        0
    }
}

/// The title of a column of the log.
pub fn col_title(k: usize) -> (t: Option<&'static str>)
    ensures
        match t {
            Some(title) => column_title(k as int) == Some(title@),
            None => column_title(k as int).is_none(),
        },
{
    if k == 0 {
        Some("Safe")
    } else if k == 1 {
        Some("Plan")
    } else if k == 2 {
        Some("Spd")
    } else if k == 3 {
        Some("Track")
    } else if k == 4 {
        Some("Dist")
    } else if k == 5 {
        Some("Wind")
    } else if k == 6 {
        Some("G/S")
    } else if k == 7 {
        Some("HD(T)")
    } else if k == 8 {
        Some("HD(M)")
    } else if k == 10 {
        Some("Time")
    } else if k == 11 {
        Some("S/C")
    } else if k == 12 {
        Some("ETA")
    } else if k == 13 {
        Some("ATA")
    } else {
        None
    }
}

/// One value of a row: its text, how far right of its column's start it is
/// set, and the face it is set in.
pub struct Cell {
    pub text: String,
    pub adjust: Fixed,
    pub style: FontStyle,
}

/// What a value of a row stands for.
pub struct CellModel {
    pub text: Seq<char>,
    pub adjust: int,
    pub style: FontStyle,
}

impl View for Cell {
    type V = CellModel;

    open spec fn view(&self) -> CellModel {
        CellModel { text: self.text@, adjust: self.adjust as int, style: self.style }
    }
}

/// What each value of a row stands for.
pub open spec fn cells_view(cells: Seq<Cell>) -> Seq<CellModel> {
    Seq::new(cells.len(), |i: int| cells[i]@)
}

/// The values of a leg's row, column by column: what was planned, the wind,
/// and the figures, or the placeholder where the leg cannot be flown or its
/// time is not known.
pub open spec fn leg_cells(leg: LegModel, figures: Option<LegFigures>) -> Seq<CellModel> {
    let plain = |text: Seq<char>| CellModel { text, adjust: 0, style: FontStyle::Normal };
    seq![
        plain(leg.safe),
        plain(leg.planned),
        plain(whole_text(leg.speed)),
        plain(heading_text(leg.course)),
        plain(whole_text(leg.distance)),
        plain(wind_text(leg)),
        plain(
            match figures {
                Some(f) => figure_text(f.ground_speed),
                None => placeholder(),
            },
        ),
        CellModel {
            text: match figures {
                Some(f) => heading_text(f.heading),
                None => placeholder(),
            },
            adjust: 0_5000000,
            style: FontStyle::Normal,
        },
        CellModel {
            text: match figures {
                Some(f) => heading_text(f.heading_magnetic),
                None => placeholder(),
            },
            adjust: 1_0000000,
            style: FontStyle::Bold,
        },
        plain(Seq::empty()),
        CellModel {
            text: match figures {
                Some(f) => match f.time {
                    Some(t) => figure_text(t),
                    None => placeholder(),
                },
                None => placeholder(),
            },
            adjust: 0_5000000,
            style: FontStyle::Bold,
        },
    ]
}

/// Where a leg cannot be flown, its row shows the placeholder, and no
/// number, for the ground speed, both headings and the time.
pub proof fn row_without_solution_is_placeholder(legs: Seq<LegModel>, i: int)
    requires
        0 <= i < legs.len(),
        !flyable(legs[i]),
    ensures
        figures_of(legs, i).is_none(),
        ({
            let cells = leg_cells(legs[i], figures_of(legs, i));
            &&& cells[6].text == "---"@
            &&& cells[7].text == "---"@
            &&& cells[8].text == "---"@
            &&& cells[10].text == "---"@
        }),
{
}

/// A whole number as the log shows it.
pub fn whole_to_text(v: i128) -> (s: String)
    ensures
        s@ == whole_text(v as int),
{
    int_to_text(clamp_i32(v) as i128)
}

/// A fixed-point number as the log shows it.
pub fn figure_to_text(x: Fixed) -> (s: String)
    ensures
        s@ == figure_text(x as int),
{
    whole_to_text(round(x))
}

/// The wind of a leg as the log shows it.
pub fn wind_to_text(leg: &Leg) -> (s: String)
    ensures
        s@ == wind_text(leg@),
{
    let mut s = leg.wind_direction.as_heading();
    push_char(&mut s, '@');
    push_int(&mut s, leg.wind_speed as i128);
    assert(s@ =~= wind_text(leg@));
    s
}

/// A value of a row in the normal face, set at its column's start.
fn plain_cell(text: String) -> (c: Cell)
    ensures
        c@ == (CellModel { text: text@, adjust: 0, style: FontStyle::Normal }),
{
    Cell { text, adjust: 0, style: FontStyle::Normal }
}

/// The values of a leg's row, column by column.
pub fn leg_values(leg: &Leg, calc: &Option<LegCalc>) -> (cells: Vec<Cell>)
    ensures
        cells_view(cells@) == leg_cells(leg@, calc_view(*calc)),
{
    let mut cells: Vec<Cell> = Vec::new();
    cells.push(plain_cell(leg.safe.clone()));
    cells.push(plain_cell(leg.planned.clone()));
    cells.push(plain_cell(whole_to_text(leg.speed as i128)));
    cells.push(plain_cell(leg.course.as_heading()));
    cells.push(plain_cell(whole_to_text(leg.distance as i128)));
    cells.push(plain_cell(wind_to_text(leg)));
    let (speed, heading, magnetic, time) = match calc {
        Some(c) => (
            figure_to_text(c.ground_speed),
            c.heading.as_heading(),
            c.heading_magnetic.as_heading(),
            match c.time {
                Some(t) => figure_to_text(t),
                None => "---".to_owned(),
            },
        ),
        None => ("---".to_owned(), "---".to_owned(), "---".to_owned(), "---".to_owned()),
    };
    cells.push(plain_cell(speed));
    cells.push(Cell { text: heading, adjust: 0_5000000, style: FontStyle::Normal });
    cells.push(Cell { text: magnetic, adjust: 1_0000000, style: FontStyle::Bold });
    cells.push(plain_cell(String::new()));
    cells.push(Cell { text: time, adjust: 0_5000000, style: FontStyle::Bold });
    assert(cells_view(cells@) =~= leg_cells(leg@, calc_view(*calc)));
    cells
}

/// The width of the page in millimetres.
pub open spec fn width_mm(page: Point) -> int {
    page_mm(page).0
}

/// How far down the page the row of the leg at place `i` starts.
pub open spec fn row_y(i: int) -> int {
    20_0000000 + i * 10_0000000
}

/// How far down the page the row of the leg at place `i` starts.
pub fn row_top(i: usize) -> (y: Fixed)
    ensures
        y == row_y(i as int),
        20_0000000 <= y <= 2_000_000_000_000_000_000_000_000_000,
{
    let wide: i128 = i as i128;
    wide * 10_0000000 + 20_0000000
}

/// The operators for the value at column `k` of a row: the value is shown
/// where the column starts, moved right by its adjustment; nothing is shown
/// in a column without a title.
pub open spec fn cell_ops(cells: Seq<CellModel>, y: int, page: Point, k: int) -> Seq<OpView> {
    if column_title(k) is Some {
        write_ops(
            cells[k].text,
            (columns_end((k + 1) as nat) + cells[k].adjust, y),
            cells[k].style,
            FONT_SIZE as int,
            page,
        )
    } else {
        Seq::empty()
    }
}

/// The operators for the first `count` values of a row.
pub open spec fn cells_ops(cells: Seq<CellModel>, y: int, page: Point, count: nat) -> Seq<OpView>
    decreases count,
{
    if count == 0 {
        Seq::empty()
    } else {
        cells_ops(cells, y, page, (count - 1) as nat) + cell_ops(cells, y, page, count - 1)
    }
}

/// How many values of a row are shown: one for each column, at most.
pub open spec fn shown(cells: Seq<CellModel>) -> nat {
    if cells.len() <= COLUMNS {
        cells.len()
    } else {
        COLUMNS as nat
    }
}

/// The largest distance from the top of the page that a row is drawn at.
pub const DEPTH_LIMIT: i128 = 10_000_000_000_000_000_000_000_000_000;

/// The largest distance from the left edge of the page that the fuel log is
/// drawn at.
pub const REACH_LIMIT: i128 = 500_000_000_000_000_000_000_000_000_000;

/// Shows the values of a row, each in its column, at the height `y`.
fn draw_cells(layer: &mut ContentBuilder, cells: &Vec<Cell>, y: Fixed)
    requires
        old(layer).wf(),
        0 <= y <= DEPTH_LIMIT,
        forall|k: int| 0 <= k < cells@.len() ==> 0 <= (#[trigger] cells@[k]).adjust <= ONE,
    ensures
        drew(
            *old(layer),
            *final(layer),
            cells_ops(cells_view(cells@), y as int, old(layer).size(), shown(cells_view(cells@))),
        ),
{
    let ghost page = layer.size();
    let ghost models = cells_view(cells@);
    let mut x: Fixed = 0;
    let mut k: usize = 0;
    assert(layer@ =~= old(layer)@ + cells_ops(models, y as int, page, 0));
    while k < cells.len() && k < COLUMNS
        invariant
            k <= cells.len(),
            k <= COLUMNS,
            models == cells_view(cells@),
            page == old(layer).size(),
            layer.wf(),
            0 <= y <= DEPTH_LIMIT,
            forall|j: int| 0 <= j < cells@.len() ==> 0 <= (#[trigger] cells@[j]).adjust <= ONE,
            x == columns_end(k as nat),
            drew(*old(layer), *layer, cells_ops(models, y as int, page, k as nat)),
        decreases cells.len() - k,
    {
        proof {
            columns_end_is_bounded(k as nat);
            columns_end_is_bounded((k + 1) as nat);
        }
        x = x + col_width(k);
        let ghost before = *layer;
        if col_title(k).is_some() {
            let font: Font = (cells[k].style, FONT_SIZE);
            crate::draw_utils::write(
                layer,
                cells[k].text.as_str(),
                (x + cells[k].adjust, y),
                &font,
            );
        }
        proof {
            assert(drew(before, *layer, cell_ops(models, y as int, page, k as int))) by {
                if column_title(k as int) is None {
                    assert(layer@ =~= before@ + Seq::<OpView>::empty());
                }
            }
            drew_both(
                *old(layer),
                before,
                *layer,
                cells_ops(models, y as int, page, k as nat),
                cell_ops(models, y as int, page, k as int),
            );
        }
        k += 1;
    }
}

/// The names of the two ends of a leg, one above the other at the left of
/// its row.
pub open spec fn names_ops(from: Seq<char>, to: Seq<char>, y: int, page: Point) -> Seq<OpView> {
    seq![
        OpView::BT,
        OpView::Tf { font: font_name(FontStyle::Normal), size: FONT_SIZE as int },
        OpView::TL(length(4_5000000)),
        OpView::Td(placed((MARGIN_SIDE as int, y + 4_0000000), page)),
        OpView::Tj(from),
        OpView::TStar,
        OpView::Tj(to),
        OpView::ET,
    ]
}

/// The row of the leg at place `i`: the line above it, the names of its
/// ends, and its values.
pub open spec fn row_ops(leg: LegModel, figures: Option<LegFigures>, i: int, page: Point) -> Seq<
    OpView,
> {
    let y = row_y(i);
    line_ops((MARGIN_SIDE as int, y), (width_mm(page) - MARGINS, y), page) + names_ops(
        leg.from,
        leg.to,
        y,
        page,
    ) + cells_ops(leg_cells(leg, figures), y + 6_5000000, page, 11)
}

/// Draws the row of the leg at place `i`.
fn draw_row(layer: &mut ContentBuilder, leg: &Leg, calc: &Option<LegCalc>, i: usize)
    requires
        old(layer).wf(),
    ensures
        drew(
            *old(layer),
            *final(layer),
            row_ops(leg@, calc_view(*calc), i as int, old(layer).size()),
        ),
{
    let ghost page = layer.size();
    let x: Fixed = MARGIN_SIDE;
    let y: Fixed = row_top(i);
    let (page_width, _) = layer.page_size();
    layer.begin_subpath((x, y));
    layer.line((page_width - MARGINS, y));
    layer.stroke_path();
    let ghost lined = *layer;
    assert(drew(
        *old(layer),
        lined,
        line_ops((MARGIN_SIDE as int, y as int), (width_mm(page) - MARGINS, y as int), page),
    )) by {
        assert(lined@ =~= old(layer)@ + line_ops(
            (MARGIN_SIDE as int, y as int),
            (width_mm(page) - MARGINS, y as int),
            page,
        ));
    }

    let y_top_text: Fixed = y + 4_0000000;
    layer.start_text_block();
    layer.set_font(FontStyle::Normal, FONT_SIZE);
    layer.set_leading(4_5000000);
    layer.print_at(leg.name.0.as_str(), (x, y_top_text));
    layer.next_line();
    layer.print(leg.name.1.clone());
    layer.end_text_block();
    let ghost named = *layer;
    assert(drew(lined, named, names_ops(leg.name.0@, leg.name.1@, y as int, page))) by {
        assert(named@ =~= lined@ + names_ops(leg.name.0@, leg.name.1@, y as int, page));
    }

    let cells = leg_values(leg, calc);
    assert(cells_view(cells@).len() == 11);
    assert forall|k: int| 0 <= k < cells@.len() implies 0 <= (#[trigger] cells@[k]).adjust
        <= ONE by {
        assert(cells_view(cells@)[k] == cells@[k]@);
    }
    draw_cells(layer, &cells, y + 6_5000000);
    proof {
        drew_both(
            *old(layer),
            lined,
            named,
            line_ops(
                (MARGIN_SIDE as int, y as int),
                (width_mm(page) - MARGINS, y as int),
                page,
            ),
            names_ops(leg.name.0@, leg.name.1@, y as int, page),
        );
        drew_both(
            *old(layer),
            named,
            *layer,
            line_ops(
                (MARGIN_SIDE as int, y as int),
                (width_mm(page) - MARGINS, y as int),
                page,
            ) + names_ops(leg.name.0@, leg.name.1@, y as int, page),
            cells_ops(leg_cells(leg@, calc_view(*calc)), y + 6_5000000, page, 11),
        );
    }
}

/// What to do when lost: the emergency frequency and transponder code.
pub open spec fn lost_ops(page: Point) -> Seq<OpView> {
    seq![
        OpView::BT,
        OpView::Tf { font: font_name(FontStyle::Normal), size: FONT_SIZE as int },
        OpView::TL(length(4_0000000)),
        OpView::Td(placed((MARGIN_SIDE as int, 6_0000000), page)),
        OpView::Tj("LOST"@),
        OpView::TStar,
        OpView::Tj("121.5"@),
        OpView::TStar,
        OpView::Tj("0030"@),
        OpView::ET,
    ]
}

/// Shows what to do when lost.
fn draw_lost(layer: &mut ContentBuilder)
    requires
        old(layer).wf(),
    ensures
        drew(*old(layer), *final(layer), lost_ops(old(layer).size())),
{
    layer.start_text_block();
    layer.set_font(FontStyle::Normal, FONT_SIZE);
    layer.set_leading(4_0000000);
    layer.print_at("LOST", (MARGIN_SIDE, 6_0000000));
    layer.next_line();
    layer.print("121.5".to_owned());
    layer.next_line();
    layer.print("0030".to_owned());
    layer.end_text_block();
    assert(layer@ =~= old(layer)@ + lost_ops(old(layer).size()));
}

/// One line of an identity, if it is given.
pub open spec fn given(line: Option<String>) -> Seq<Seq<char>> {
    match line {
        Some(text) => seq![text@],
        None => Seq::empty(),
    }
}

/// The lines that say who flies what: registration, call sign and pilot,
/// those that are given.
pub open spec fn identity(detail: Detail) -> Seq<Seq<char>> {
    given(detail.tail) + given(detail.call_sign) + given(detail.pic)
}

/// Lines of text one below the other: the first is shown at `at`, each
/// other one on the next line.
pub open spec fn lines_ops(texts: Seq<Seq<char>>, at: Point, page: Point) -> Seq<OpView>
    decreases texts.len(),
{
    if texts.len() == 0 {
        Seq::empty()
    } else if texts.len() == 1 {
        seq![OpView::Td(placed(at, page)), OpView::Tj(texts.last())]
    } else {
        lines_ops(texts.drop_last(), at, page) + seq![OpView::TStar, OpView::Tj(texts.last())]
    }
}

/// Who flies what, at the top right of the log.
pub open spec fn identity_ops(detail: Detail, page: Point) -> Seq<OpView> {
    seq![
        OpView::BT,
        OpView::Tf { font: font_name(FontStyle::Normal), size: FONT_SIZE as int },
        OpView::TL(length(4_0000000)),
    ] + lines_ops(identity(detail), (width_mm(page) - 25_0000000, 6_0000000), page) + seq![
        OpView::ET,
    ]
}

/// What each text of a list stands for.
pub open spec fn texts_view(texts: Seq<&str>) -> Seq<Seq<char>> {
    Seq::new(texts.len(), |i: int| texts[i]@)
}

/// The lines that say who flies what.
fn identity_lines(detail: &Detail) -> (ids: Vec<&str>)
    ensures
        texts_view(ids@) == identity(*detail),
{
    let mut ids: Vec<&str> = Vec::new();
    match &detail.tail {
        Some(text) => ids.push(text.as_str()),
        None => {},
    }
    match &detail.call_sign {
        Some(text) => ids.push(text.as_str()),
        None => {},
    }
    match &detail.pic {
        Some(text) => ids.push(text.as_str()),
        None => {},
    }
    assert(texts_view(ids@) =~= identity(*detail));
    ids
}

/// Shows who flies what.
fn draw_identity(layer: &mut ContentBuilder, detail: &Detail)
    requires
        old(layer).wf(),
    ensures
        drew(*old(layer), *final(layer), identity_ops(*detail, old(layer).size())),
{
    let ghost page = layer.size();
    let (page_width, _) = layer.page_size();
    let at: Coord = (page_width - 25_0000000, 6_0000000);
    layer.start_text_block();
    layer.set_font(FontStyle::Normal, FONT_SIZE);
    layer.set_leading(4_0000000);
    let ghost opened = *layer;
    let ids = identity_lines(detail);
    let ghost texts = texts_view(ids@);
    let mut n: usize = 0;
    assert(layer@ =~= opened@ + lines_ops(texts.take(0), point(at), page));
    while n < ids.len()
        invariant
            n <= ids.len(),
            texts == texts_view(ids@),
            layer.wf(),
            page == layer.size(),
            point_ok(point(at)),
            drew(opened, *layer, lines_ops(texts.take(n as int), point(at), page)),
        decreases ids.len() - n,
    {
        proof {
            assert(texts.take(n + 1).drop_last() =~= texts.take(n as int));
        }
        if n == 0 {
            layer.print_at(ids[n], at);
        } else {
            layer.next_line();
            layer.print(ids[n].to_owned());
        }
        n += 1;
        assert(layer@ =~= opened@ + lines_ops(texts.take(n as int), point(at), page));
    }
    assert(texts.take(ids.len() as int) =~= texts);
    layer.end_text_block();
    assert(layer@ =~= old(layer)@ + identity_ops(*detail, page));
}

/// The head of column `k`: its title, if it has one, and the line that
/// closes it at the right, from the first row down to `bottom`.
pub open spec fn head_ops(k: int, bottom: int, page: Point) -> Seq<OpView> {
    let x = columns_end((k + 1) as nat);
    (match column_title(k) {
        Some(title) => seq![
            OpView::BT,
            OpView::Tf { font: font_name(FontStyle::Bold), size: FONT_HEADER_SIZE as int },
            OpView::Td(placed((x, 19_0000000), page)),
            OpView::Tj(title),
            OpView::ET,
        ],
        None => Seq::empty(),
    }) + line_ops((x - 0_5000000, 20_0000000), (x - 0_5000000, bottom), page)
}

/// The heads of the first `count` columns.
pub open spec fn heads_ops(bottom: int, page: Point, count: nat) -> Seq<OpView>
    decreases count,
{
    if count == 0 {
        Seq::empty()
    } else {
        heads_ops(bottom, page, (count - 1) as nat) + head_ops(count - 1, bottom, page)
    }
}

/// Draws the head of column `k`, which starts at `x`.
fn draw_head(layer: &mut ContentBuilder, k: usize, x: Fixed, bottom: Fixed)
    requires
        old(layer).wf(),
        x == columns_end((k + 1) as nat),
        k < COLUMNS,
        20_0000000 <= bottom <= DEPTH_LIMIT,
    ensures
        drew(*old(layer), *final(layer), head_ops(k as int, bottom as int, old(layer).size())),
{
    proof {
        columns_end_is_bounded((k + 1) as nat);
    }
    match col_title(k) {
        Some(head) => {
            layer.start_text_block();
            layer.set_font(FontStyle::Bold, FONT_HEADER_SIZE);
            layer.print_at(head, (x, 19_0000000));
            layer.end_text_block();
        },
        None => {},
    }
    vertical_line(layer, (x - 0_5000000, 20_0000000), -(20_0000000 - bottom));
    assert(layer@ =~= old(layer)@ + head_ops(k as int, bottom as int, old(layer).size()));
}

/// Draws the heads of all columns.
fn draw_heads(layer: &mut ContentBuilder, bottom: Fixed)
    requires
        old(layer).wf(),
        20_0000000 <= bottom <= DEPTH_LIMIT,
    ensures
        drew(
            *old(layer),
            *final(layer),
            heads_ops(bottom as int, old(layer).size(), COLUMNS as nat),
        ),
{
    let ghost page = layer.size();
    let mut divider_x: Fixed = 0;
    let mut k: usize = 0;
    assert(layer@ =~= old(layer)@ + heads_ops(bottom as int, page, 0));
    while k < COLUMNS
        invariant
            k <= COLUMNS,
            layer.wf(),
            page == old(layer).size(),
            20_0000000 <= bottom <= DEPTH_LIMIT,
            divider_x == columns_end(k as nat),
            drew(*old(layer), *layer, heads_ops(bottom as int, page, k as nat)),
        decreases COLUMNS - k,
    {
        proof {
            columns_end_is_bounded(k as nat);
            columns_end_is_bounded((k + 1) as nat);
        }
        divider_x = divider_x + col_width(k);
        let ghost before = *layer;
        draw_head(layer, k, divider_x, bottom);
        proof {
            drew_both(
                *old(layer),
                before,
                *layer,
                heads_ops(bottom as int, page, k as nat),
                head_ops(k as int, bottom as int, page),
            );
        }
        k += 1;
    }
}

/// What stands below the rows: the line that closes them, a line one row
/// further down, and between the two the things to note before and after
/// the flight.
pub open spec fn foot_ops(bottom: int, page: Point) -> Seq<OpView> {
    let x = MARGIN_SIDE as int;
    let across = width_mm(page) - MARGINS;
    let y = bottom + 10_0000000;
    let normal = FontStyle::Normal;
    let size = FONT_SIZE as int;
    line_ops((x, bottom), (x + across, bottom), page) + line_ops((x, y), (x + across, y), page)
        + write_ops("Oil:"@, (x, y - 4_0000000), normal, size, page) + write_ops(
        "Fuel:"@,
        (x + 15_0000000, y - 4_0000000),
        normal,
        size,
        page,
    ) + write_ops("B/Off:"@, (x + 40_0000000, y - 4_0000000), normal, size, page) + write_ops(
        "T/Off:"@,
        (x + 65_0000000, y - 4_0000000),
        normal,
        size,
        page,
    ) + write_ops("Lnd:"@, (x + 90_0000000, y - 4_0000000), normal, size, page) + write_ops(
        "B/On:"@,
        (x + 115_0000000, y - 4_0000000),
        normal,
        size,
        page,
    )
}

/// Draws what stands below the rows.
fn draw_foot(layer: &mut ContentBuilder, bottom: Fixed)
    requires
        old(layer).wf(),
        20_0000000 <= bottom <= DEPTH_LIMIT,
    ensures
        drew(*old(layer), *final(layer), foot_ops(bottom as int, old(layer).size())),
{
    let ghost page = layer.size();
    let x: Fixed = MARGIN_SIDE;
    let (page_width, _) = layer.page_size();
    horizontal_line(layer, (x, bottom), page_width - MARGINS);
    let y: Fixed = bottom + 10_0000000;
    horizontal_line(layer, (x, y), page_width - MARGINS);

    let y_txt: Fixed = y - 4_0000000;
    let mut x_txt: Fixed = x;
    let font: Font = (FontStyle::Normal, FONT_SIZE);
    crate::draw_utils::write(layer, "Oil:", (x_txt, y_txt), &font);
    x_txt = x_txt + 15_0000000;
    crate::draw_utils::write(layer, "Fuel:", (x_txt, y_txt), &font);
    x_txt = x_txt + 25_0000000;
    crate::draw_utils::write(layer, "B/Off:", (x_txt, y_txt), &font);
    x_txt = x_txt + 25_0000000;
    crate::draw_utils::write(layer, "T/Off:", (x_txt, y_txt), &font);
    x_txt = x_txt + 25_0000000;
    crate::draw_utils::write(layer, "Lnd:", (x_txt, y_txt), &font);
    x_txt = x_txt + 25_0000000;
    crate::draw_utils::write(layer, "B/On:", (x_txt, y_txt), &font);
    assert(layer@ =~= old(layer)@ + foot_ops(bottom as int, page));
}

/// The width of the fuel log, in millimetres.
pub const FUEL_WIDTH: Fixed = 50_0000000;

/// The height of one row of the fuel log.
pub const FUEL_ROW: Fixed = 9_0000000;

/// The width of the first column of the fuel log.
pub const FUEL_FIRST: Fixed = 15_0000000;

/// The width of each of the three columns for the tanks: a third of what
/// the first column leaves.
pub const FUEL_GAP: Fixed = 11_6666667;

/// The height of the four rows of the fuel log together.
pub const FUEL_HEIGHT: Fixed = 36_0000000;

/// The margins at both sides of the log together.
pub const MARGINS: Fixed = 5_0000000;

/// One row of the fuel log: the line above it and the letters for the left
/// and the right tank.
pub open spec fn fuel_row_ops(x: int, y: int, page: Point) -> Seq<OpView> {
    line_ops((x, y), (x + FUEL_WIDTH, y), page) + seq![
        OpView::BT,
        OpView::Tf { font: font_name(FontStyle::Bold), size: FONT_SIZE as int },
        OpView::Td(placed((x + 3_0000000, y + 6_0000000), page)),
        OpView::Tj("L    R"@),
        OpView::ET,
    ]
}

/// The first `count` rows of the fuel log.
pub open spec fn fuel_rows_ops(x: int, y: int, page: Point, count: nat) -> Seq<OpView>
    decreases count,
{
    if count == 0 {
        Seq::empty()
    } else {
        fuel_rows_ops(x, y, page, (count - 1) as nat) + fuel_row_ops(
            x,
            y + (count - 1) * 9_0000000,
            page,
        )
    }
}

/// The fuel log: four rows, the line that closes them, and the five lines
/// that part its columns.
pub open spec fn fuel_ops(start: Point, page: Point) -> Seq<OpView> {
    let (x, y) = start;
    let bottom = y + FUEL_HEIGHT;
    fuel_rows_ops(x, y, page, 4) + line_ops((x, bottom), (x + FUEL_WIDTH, bottom), page)
        + line_ops((x, y), (x, bottom), page) + line_ops(
        (x + FUEL_FIRST, y),
        (x + FUEL_FIRST, bottom),
        page,
    ) + line_ops((x + FUEL_FIRST + FUEL_GAP, y), (x + FUEL_FIRST + FUEL_GAP, bottom), page)
        + line_ops(
        (x + FUEL_FIRST + FUEL_GAP + FUEL_GAP, y),
        (x + FUEL_FIRST + FUEL_GAP + FUEL_GAP, bottom),
        page,
    ) + line_ops((x + FUEL_WIDTH, y), (x + FUEL_WIDTH, bottom), page)
}

/// Draws one row of the fuel log.
fn draw_fuel_row(layer: &mut ContentBuilder, x: Fixed, y: Fixed)
    requires
        old(layer).wf(),
        -REACH_LIMIT <= x <= REACH_LIMIT,
        -2 * DEPTH_LIMIT <= y <= 2 * DEPTH_LIMIT,
    ensures
        drew(*old(layer), *final(layer), fuel_row_ops(x as int, y as int, old(layer).size())),
{
    horizontal_line(layer, (x, y), FUEL_WIDTH);
    layer.start_text_block();
    layer.set_font(FontStyle::Bold, FONT_SIZE);
    layer.print_at("L    R", (x + 3_0000000, y + 6_0000000));
    layer.end_text_block();
    assert(layer@ =~= old(layer)@ + fuel_row_ops(x as int, y as int, old(layer).size()));
}

/// Draws the lines that part the columns of the fuel log.
fn draw_fuel_columns(layer: &mut ContentBuilder, start: Coord, bottom: Fixed)
    requires
        old(layer).wf(),
        -REACH_LIMIT <= start.0 <= REACH_LIMIT,
        -DEPTH_LIMIT <= start.1 <= DEPTH_LIMIT,
        bottom == start.1 + FUEL_HEIGHT,
    ensures
        drew(
            *old(layer),
            *final(layer),
            line_ops(point(start), (start.0 as int, bottom as int), old(layer).size()) + line_ops(
                (start.0 + FUEL_FIRST, start.1 as int),
                (start.0 + FUEL_FIRST, bottom as int),
                old(layer).size(),
            ) + line_ops(
                (start.0 + FUEL_FIRST + FUEL_GAP, start.1 as int),
                (start.0 + FUEL_FIRST + FUEL_GAP, bottom as int),
                old(layer).size(),
            ) + line_ops(
                (start.0 + FUEL_FIRST + FUEL_GAP + FUEL_GAP, start.1 as int),
                (start.0 + FUEL_FIRST + FUEL_GAP + FUEL_GAP, bottom as int),
                old(layer).size(),
            ) + line_ops(
                (start.0 + FUEL_WIDTH, start.1 as int),
                (start.0 + FUEL_WIDTH, bottom as int),
                old(layer).size(),
            ),
        ),
{
    let ghost page = layer.size();
    let (box_x, box_y) = start;
    vertical_line(layer, (box_x, box_y), bottom - box_y);
    vertical_line(layer, (box_x + FUEL_FIRST, box_y), bottom - box_y);
    vertical_line(layer, (box_x + FUEL_FIRST + FUEL_GAP, box_y), bottom - box_y);
    vertical_line(layer, (box_x + FUEL_FIRST + FUEL_GAP + FUEL_GAP, box_y), bottom - box_y);
    vertical_line(layer, (box_x + FUEL_WIDTH, box_y), bottom - box_y);
    assert(layer@ =~= old(layer)@ + (line_ops(point(start), (start.0 as int, bottom as int), page)
        + line_ops(
        (start.0 + FUEL_FIRST, start.1 as int),
        (start.0 + FUEL_FIRST, bottom as int),
        page,
    ) + line_ops(
        (start.0 + FUEL_FIRST + FUEL_GAP, start.1 as int),
        (start.0 + FUEL_FIRST + FUEL_GAP, bottom as int),
        page,
    ) + line_ops(
        (start.0 + FUEL_FIRST + FUEL_GAP + FUEL_GAP, start.1 as int),
        (start.0 + FUEL_FIRST + FUEL_GAP + FUEL_GAP, bottom as int),
        page,
    ) + line_ops(
        (start.0 + FUEL_WIDTH, start.1 as int),
        (start.0 + FUEL_WIDTH, bottom as int),
        page,
    )));
}

/// Draws the fuel log with its top left corner at `start` and gives how far
/// down the page it ends.
pub fn create_fuel(start: Coord, layer: &mut ContentBuilder) -> (bottom: Fixed)
    requires
        old(layer).wf(),
        -REACH_LIMIT <= start.0 <= REACH_LIMIT,
        -DEPTH_LIMIT <= start.1 <= DEPTH_LIMIT,
    ensures
        bottom == start.1 + FUEL_HEIGHT,
        drew(*old(layer), *final(layer), fuel_ops(point(start), old(layer).size())),
{
    let ghost page = layer.size();
    let (x, top) = start;
    let mut y: Fixed = top;
    let mut n: usize = 0;
    assert(layer@ =~= old(layer)@ + fuel_rows_ops(x as int, top as int, page, 0));
    while n < 4
        invariant
            n <= 4,
            layer.wf(),
            page == old(layer).size(),
            -REACH_LIMIT <= x <= REACH_LIMIT,
            -DEPTH_LIMIT <= top <= DEPTH_LIMIT,
            y == top + n * 9_0000000,
            drew(*old(layer), *layer, fuel_rows_ops(x as int, top as int, page, n as nat)),
        decreases 4 - n,
    {
        let ghost before = *layer;
        draw_fuel_row(layer, x, y);
        proof {
            drew_both(
                *old(layer),
                before,
                *layer,
                fuel_rows_ops(x as int, top as int, page, n as nat),
                fuel_row_ops(x as int, y as int, page),
            );
        }
        y = y + FUEL_ROW;
        n += 1;
    }
    horizontal_line(layer, (x, y), FUEL_WIDTH);
    draw_fuel_columns(layer, start, y);
    proof {
        assert(layer@ =~= old(layer)@ + fuel_ops(point(start), page));
    }
    y
}

/// The face that a line of notes is set in.
pub open spec fn note_style(note: FontType) -> FontStyle {
    match note {
        FontType::Normal(_) => FontStyle::Normal,
        FontType::Bold(_) => FontStyle::Bold,
        FontType::Italics(_) => FontStyle::Italics,
        FontType::Blank => FontStyle::Normal,
    }
}

/// The text of a line of notes; a blank line has none.
pub open spec fn note_text(note: FontType) -> Seq<char> {
    match note.text() {
        Some(text) => text,
        None => Seq::empty(),
    }
}

/// The lines of the notes: each in its face, the first at `at`, each other
/// one on the next line.
pub open spec fn notes_lines(notes: Seq<FontType>, at: Point, page: Point) -> Seq<OpView>
    decreases notes.len(),
{
    if notes.len() == 0 {
        Seq::empty()
    } else {
        let font = OpView::Tf {
            font: font_name(note_style(notes.last())),
            size: FONT_NOTES_SIZE as int,
        };
        let text = OpView::Tj(note_text(notes.last()));
        if notes.len() == 1 {
            seq![font, OpView::Td(placed(at, page)), text]
        } else {
            notes_lines(notes.drop_last(), at, page) + seq![font, OpView::TStar, text]
        }
    }
}

/// The notes of a route, from `start` downwards.
pub open spec fn notes_ops(start: Point, notes: Seq<FontType>, page: Point) -> Seq<OpView> {
    seq![OpView::BT, OpView::TL(length(3_5000000))] + notes_lines(notes, start, page) + seq![
        OpView::ET,
    ]
}

/// Shows the notes of a route, from `start` downwards.
pub fn write_notes(start: Coord, notes: &[FontType], layer: &mut ContentBuilder)
    requires
        old(layer).wf(),
        point_ok(point(start)),
    ensures
        drew(*old(layer), *final(layer), notes_ops(point(start), notes@, old(layer).size())),
{
    let ghost page = layer.size();
    layer.start_text_block();
    layer.set_leading(3_5000000);
    let ghost opened = *layer;
    let mut n: usize = 0;
    assert(layer@ =~= opened@ + notes_lines(notes@.take(0), point(start), page));
    while n < notes.len()
        invariant
            n <= notes.len(),
            layer.wf(),
            page == layer.size(),
            point_ok(point(start)),
            drew(opened, *layer, notes_lines(notes@.take(n as int), point(start), page)),
        decreases notes.len() - n,
    {
        proof {
            assert(notes@.take(n + 1).drop_last() =~= notes@.take(n as int));
        }
        let note = &notes[n];
        let font = match note {
            FontType::Normal(_) => FontStyle::Normal,
            FontType::Bold(_) => FontStyle::Bold,
            FontType::Italics(_) => FontStyle::Italics,
            FontType::Blank => FontStyle::Normal,
        };
        let txt: &str = match note.string_value() {
            Some(text) => text,
            None => "",
        };
        proof {
            reveal_strlit("");
            assert(txt@ =~= note_text(*note));
        }
        layer.set_font(font, FONT_NOTES_SIZE);
        if n == 0 {
            layer.print_at(txt, start);
        } else {
            layer.next_line();
            layer.print(txt.to_owned());
        }
        n += 1;
        assert(layer@ =~= opened@ + notes_lines(notes@.take(n as int), point(start), page));
    }
    assert(notes@.take(notes.len() as int) =~= notes@);
    layer.end_text_block();
    assert(layer@ =~= old(layer)@ + notes_ops(point(start), notes@, page));
}

/// The rows of the first `count` legs of a route.
pub open spec fn rows_ops(legs: Seq<LegModel>, page: Point, count: nat) -> Seq<OpView>
    decreases count,
{
    if count == 0 {
        Seq::empty()
    } else {
        rows_ops(legs, page, (count - 1) as nat) + row_ops(
            legs[count - 1],
            figures_of(legs, count - 1),
            count - 1,
            page,
        )
    }
}

/// The log of a route, as the operators of its page: the notice, the rows of
/// the legs, what to do when lost, who flies what, the heads of the
/// columns, the foot, the fuel log and the notes.
#[verifier::opaque]
pub open spec fn plog_ops(legs: Seq<LegModel>, notes: Seq<FontType>, detail: Detail, page: Point)
    -> Seq<OpView> {
    let bottom = row_y(legs.len() as int);
    let right = width_mm(page) - 52_5000000;
    let below = bottom + 10_0000000;
    init_ops() + disclaimer_ops(page) + seq![OpView::q, OpView::w(length(0_2500000))] + rows_ops(
        legs,
        page,
        legs.len(),
    ) + lost_ops(page) + identity_ops(detail, page) + heads_ops(bottom, page, COLUMNS as nat)
        + foot_ops(bottom, page) + fuel_ops((right, below), page) + notes_ops(
        (right, below + FUEL_HEIGHT + 5_0000000),
        notes,
        page,
    )
}

/// Draws the rows of all legs.
fn draw_rows(layer: &mut ContentBuilder, legs: &[Leg])
    requires
        old(layer).wf(),
    ensures
        drew(*old(layer), *final(layer), rows_ops(legs_view(legs@), old(layer).size(), legs@.len())),
{
    let ghost page = layer.size();
    let calcs = calc_legs(legs);
    let mut i: usize = 0;
    assert(layer@ =~= old(layer)@ + rows_ops(legs_view(legs@), page, 0));
    while i < calcs.len()
        invariant
            i <= calcs.len(),
            calcs@.len() == legs@.len(),
            forall|j: int|
                0 <= j < legs@.len() ==> *(#[trigger] calcs@[j]).0 == legs@[j] && calc_view(
                    calcs@[j].1,
                ) == figures_of(legs_view(legs@), j),
            layer.wf(),
            page == old(layer).size(),
            drew(*old(layer), *layer, rows_ops(legs_view(legs@), page, i as nat)),
        decreases calcs.len() - i,
    {
        let ghost before = *layer;
        let leg: &Leg = calcs[i].0;
        draw_row(layer, leg, &calcs[i].1, i);
        proof {
            drew_both(
                *old(layer),
                before,
                *layer,
                rows_ops(legs_view(legs@), page, i as nat),
                row_ops(legs@[i as int]@, figures_of(legs_view(legs@), i as int), i as int, page),
            );
        }
        i += 1;
    }
}

/// Draws the log of a route on a page.
pub fn create_plog(legs: &[Leg], notes: &[FontType], detail: &Detail, page: &mut PDFPageBuilder)
    requires
        old(page).layer.wf(),
    ensures
        final(page).page_dict == old(page).page_dict,
        drew(
            old(page).layer,
            final(page).layer,
            plog_ops(legs_view(legs@), notes@, *detail, old(page).layer.size()),
        ),
{
    let ghost size = page.layer.size();
    let layer = page.content_builder();
    let ghost start = *layer;
    draw_opening(layer);
    let ghost opened = *layer;
    let ghost part1 = init_ops() + disclaimer_ops(size) + seq![
        OpView::q,
        OpView::w(length(0_2500000)),
    ];

    let (page_width, _) = layer.page_size();
    draw_rows(layer, legs);
    let ghost rowed = *layer;
    let ghost part2 = part1 + rows_ops(legs_view(legs@), size, legs@.len());
    proof {
        drew_both(start, opened, rowed, part1, rows_ops(legs_view(legs@), size, legs@.len()));
    }
    let y: Fixed = row_top(legs.len());
    draw_lost(layer);
    let ghost lost = *layer;
    let ghost part3 = part2 + lost_ops(size);
    proof {
        drew_both(start, rowed, lost, part2, lost_ops(size));
    }
    draw_identity(layer, detail);
    let ghost named = *layer;
    let ghost part4 = part3 + identity_ops(*detail, size);
    proof {
        drew_both(start, lost, named, part3, identity_ops(*detail, size));
    }
    draw_heads(layer, y);
    let ghost headed = *layer;
    let ghost part5 = part4 + heads_ops(y as int, size, COLUMNS as nat);
    proof {
        drew_both(start, named, headed, part4, heads_ops(y as int, size, COLUMNS as nat));
    }
    draw_foot(layer, y);
    let ghost footed = *layer;
    let ghost part6 = part5 + foot_ops(y as int, size);
    proof {
        drew_both(start, headed, footed, part5, foot_ops(y as int, size));
    }
    let below: Fixed = y + 10_0000000;
    let right: Fixed = page_width - 52_5000000;
    let fuel_y = create_fuel((right, below), layer);
    let ghost fuelled = *layer;
    let ghost part7 = part6 + fuel_ops((right as int, below as int), size);
    proof {
        drew_both(start, footed, fuelled, part6, fuel_ops((right as int, below as int), size));
    }
    write_notes((right, fuel_y + 5_0000000), notes, layer);
    proof {
        reveal(plog_ops);
        drew_both(
            start,
            fuelled,
            *layer,
            part7,
            notes_ops((right as int, fuel_y + 5_0000000), notes@, size),
        );
    }
}

/// Begins the log: the page's first operators, the notice, and the width of
/// the lines.
fn draw_opening(layer: &mut ContentBuilder)
    requires
        old(layer).wf(),
    ensures
        drew(
            *old(layer),
            *final(layer),
            init_ops() + disclaimer_ops(old(layer).size()) + seq![
                OpView::q,
                OpView::w(length(0_2500000)),
            ],
        ),
{
    init_page(layer);
    disclaimer(layer);
    layer.save_graphics_state();
    layer.line_width(0_2500000);
    assert(layer@ =~= old(layer)@ + (init_ops() + disclaimer_ops(old(layer).size()) + seq![
        OpView::q,
        OpView::w(length(0_2500000)),
    ]));
}

} // verus!
