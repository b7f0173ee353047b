//! Building the content of a page: the caller works in millimetres from the
//! top left corner of the page, the page is written in points from its
//! bottom left corner.

use crate::fixed::{
    div_round, in_range, round_div_is_near, round_div, trim_coord, trim_fraction, trimmed,
    Coord, Fixed, LIMIT,
};
use crate::pdf::object::{font_name, ops_view, point, FontStyle, Op, OpView, Point};
use vstd::prelude::*;

verus! {

/// The size of an A5 page, in points.
pub const A5: Coord = (4_209_448_819, 5_952_755_906);

/// Largest width or height, in points, of a page that can be drawn on.
pub const PAGE_LIMIT: i128 = 100_000_000_000_000_000_000_000_000_000;

/// A length in points, from the length in millimetres: 72 points make an
/// inch, and 25.4 millimetres do.
pub open spec fn inch(x: int) -> int {
    round_div(x * 360, 127)
}

/// A length in millimetres, rounded to four decimal places, from the length
/// in points.
pub open spec fn millimetre(x: int) -> int {
    trimmed(round_div(x * 127, 360))
}

/// A length as the page has it: in points, rounded to four decimal places.
pub open spec fn length(x: int) -> int {
    trimmed(inch(x))
}

/// A point as the page has it: in points from the bottom left corner,
/// rounded to four decimal places.
pub open spec fn placed(p: Point, page: Point) -> Point {
    (trimmed(inch(p.0)), trimmed(page.1 - inch(p.1)))
}

/// The size of a page in millimetres, from its size in points.
pub open spec fn page_mm(page: Point) -> Point {
    (millimetre(page.0), millimetre(page.1))
}

/// Whether a page of this size can be drawn on.
pub open spec fn page_ok(page: Point) -> bool {
    &&& 0 <= page.0 <= PAGE_LIMIT
    &&& 0 <= page.1 <= PAGE_LIMIT
}

/// Whether both parts of a point are small enough for the page arithmetic.
pub open spec fn point_ok(p: Point) -> bool {
    in_range(p.0) && in_range(p.1)
}

/// A length in points is at most three times the number in millimetres.
pub proof fn inch_is_bounded(x: int)
    ensures
        x >= 0 ==> 0 <= inch(x) <= 3 * x + 1,
        x <= 0 ==> 3 * x - 1 <= inch(x) <= 0,
{
    round_div_is_near(x * 360, 127);
}

/// A length in millimetres is no longer than the number in points, but for
/// the rounding.
pub proof fn millimetre_is_bounded(x: int)
    ensures
        x >= 0 ==> 0 <= millimetre(x) <= x + 1000,
        x <= 0 ==> x - 1000 <= millimetre(x) <= 0,
{
    round_div_is_near(x * 127, 360);
    round_div_is_near(round_div(x * 127, 360), 1000);
}

/// Lengths in millimetres that can be turned into lengths in points.
pub trait To72inch: Sized {
    /// Whether the length is small enough to be converted.
    spec fn convertible(self) -> bool;

    /// The length in points.
    spec fn as_inch(self) -> Self;

    /// The length in points.
    fn to_inch(self) -> (r: Self)
        requires
            self.convertible(),
        ensures
            r == self.as_inch(),
    ;
}

/// Lengths in points that can be turned into lengths in millimetres.
pub trait ToMM: Sized {
    /// Whether the length is small enough to be converted.
    spec fn measurable(self) -> bool;

    /// The length in millimetres, rounded to four decimal places.
    spec fn as_mm(self) -> Self;

    /// The length in millimetres, rounded to four decimal places.
    fn to_mm(self) -> (r: Self)
        requires
            self.measurable(),
        ensures
            r == self.as_mm(),
    ;
}

impl To72inch for Fixed {
    open spec fn convertible(self) -> bool {
        in_range(self as int)
    }

    open spec fn as_inch(self) -> Fixed {
        inch(self as int) as Fixed
    }

    fn to_inch(self) -> (r: Fixed)
        ensures
            r == inch(self as int),
    {
        proof {
            inch_is_bounded(self as int);
        }
        div_round(self * 360, 127)
    }
}

impl ToMM for Fixed {
    open spec fn measurable(self) -> bool {
        in_range(self as int)
    }

    open spec fn as_mm(self) -> Fixed {
        millimetre(self as int) as Fixed
    }

    fn to_mm(self) -> (r: Fixed)
        ensures
            r == millimetre(self as int),
    {
        proof {
            millimetre_is_bounded(self as int);
            round_div_is_near(self * 127, 360);
        }
        trim_fraction(div_round(self * 127, 360))
    }
}

impl To72inch for Coord {
    open spec fn convertible(self) -> bool {
        self.0.convertible() && self.1.convertible()
    }

    open spec fn as_inch(self) -> Coord {
        (self.0.as_inch(), self.1.as_inch())
    }

    fn to_inch(self) -> (r: Coord)
        ensures
            r.0 == inch(self.0 as int),
            r.1 == inch(self.1 as int),
    {
        let (x, y) = self;
        (x.to_inch(), y.to_inch())
    }
}

impl ToMM for Coord {
    open spec fn measurable(self) -> bool {
        self.0.measurable() && self.1.measurable()
    }

    open spec fn as_mm(self) -> Coord {
        (self.0.as_mm(), self.1.as_mm())
    }

    fn to_mm(self) -> (r: Coord)
        ensures
            r.0 == millimetre(self.0 as int),
            r.1 == millimetre(self.1 as int),
    {
        let (x, y) = self;
        (x.to_mm(), y.to_mm())
    }
}

/// A point measured from the top of the page, as measured from its bottom.
pub fn flip_y(p: Coord, page: Coord) -> (r: Coord)
    requires
        -4 * LIMIT <= p.1 <= 4 * LIMIT,
        in_range(page.1 as int),
    ensures
        r.0 == p.0,
        r.1 == page.1 - p.1,
{
    let (x, y) = p;
    let (_, y_page) = page;
    (x, y_page - y)
}

/// A length in millimetres as the page has it.
pub fn to_length(x: Fixed) -> (r: Fixed)
    requires
        in_range(x as int),
    ensures
        r == length(x as int),
        -4 * LIMIT <= r <= 4 * LIMIT,
{
    proof {
        inch_is_bounded(x as int);
    }
    trim_fraction(x.to_inch())
}

/// A point in millimetres from the top left corner as the page has it.
pub fn to_place(p: Coord, page: Coord) -> (r: Coord)
    requires
        point_ok(point(p)),
        page_ok(point(page)),
    ensures
        point(r) == placed(point(p), point(page)),
{
    proof {
        inch_is_bounded(p.0 as int);
        inch_is_bounded(p.1 as int);
    }
    trim_coord(flip_y(p.to_inch(), page))
}

/// The content of one page while it is drawn: the operators so far and the
/// size of the page.
pub struct ContentBuilder {
    content: Vec<Op>,
    page_size: Coord,
}

impl View for ContentBuilder {
    type V = Seq<OpView>;

    /// The operators so far, in the order they paint.
    closed spec fn view(&self) -> Seq<OpView> {
        ops_view(self.content@)
    }
}

/// Whether drawing took the builder from `before` to `after` by adding the
/// operators `ops` behind those that were there, on the same page.
pub open spec fn drew(before: ContentBuilder, after: ContentBuilder, ops: Seq<OpView>) -> bool {
    &&& after.size() == before.size()
    &&& after@ == before@ + ops
}

impl ContentBuilder {
    /// The size of the page, in points.
    pub closed spec fn size(&self) -> Point {
        point(self.page_size)
    }

    /// Whether the page can be drawn on.
    pub open spec fn wf(&self) -> bool {
        page_ok(self.size())
    }

    /// The size of the page in millimetres.
    pub open spec fn size_mm(&self) -> Point {
        page_mm(self.size())
    }

    /// A builder that goes on from `content` on a page of the given size in
    /// points.
    pub fn new(page_size: Coord, content: Vec<Op>) -> (b: Self)
        ensures
            b.size() == point(page_size),
            b@ == ops_view(content@),
    {
        Self { content, page_size }
    }

    /// The operators that were drawn.
    pub fn into_content(self) -> (content: Vec<Op>)
        ensures
            ops_view(content@) == self@,
    {
        self.content
    }

    /// The operators drawn so far, to be added to by hand.
    pub fn contents(&mut self) -> (content: &mut Vec<Op>)
        ensures
            ops_view(content@) == old(self)@,
            final(self)@ == ops_view(final(content)@),
            final(self).size() == old(self).size(),
    {
        &mut self.content
    }

    /// The operators drawn so far.
    pub fn content(&self) -> (content: &Vec<Op>)
        ensures
            ops_view(content@) == self@,
    {
        &self.content
    }

    /// The size of the page in millimetres.
    pub fn page_size(&self) -> (r: Coord)
        requires
            self.wf(),
        ensures
            point(r) == self.size_mm(),
            0 <= r.0 <= PAGE_LIMIT + 1000,
            0 <= r.1 <= PAGE_LIMIT + 1000,
    {
        proof {
            millimetre_is_bounded(self.page_size.0 as int);
            millimetre_is_bounded(self.page_size.1 as int);
        }
        self.page_size.to_mm()
    }

    /// Adds one operator behind those that are there.
    fn push(&mut self, op: Op)
        ensures
            drew(*old(self), *final(self), seq![op@]),
    {
        self.content.push(op);
        assert(self@ =~= old(self)@ + seq![op@]);
    }

    /// Begins a block of text.
    pub fn start_text_block(&mut self)
        ensures
            drew(*old(self), *final(self), seq![OpView::BT]),
    {
        self.push(Op::BT);
    }

    /// Fills the path.
    pub fn fill(&mut self)
        ensures
            drew(*old(self), *final(self), seq![OpView::f]),
    {
        self.push(Op::f);
    }

    /// Selects the face and size that text is set in.
    pub fn set_font(&mut self, style: FontStyle, size: Fixed)
        ensures
            drew(
                *old(self),
                *final(self),
                seq![OpView::Tf { font: font_name(style), size: size as int }],
            ),
    {
        let op = Op::Tf { font: style.get_font_name().to_owned(), size };
        self.push(op);
    }

    /// Saves the graphics state.
    pub fn save_graphics_state(&mut self)
        ensures
            drew(*old(self), *final(self), seq![OpView::q]),
    {
        self.push(Op::q);
    }

    /// Restores the graphics state saved last.
    pub fn restore_graphics_state(&mut self)
        ensures
            drew(*old(self), *final(self), seq![OpView::Q]),
    {
        self.push(Op::Q);
    }

    /// Strokes the path.
    pub fn stroke_path(&mut self)
        ensures
            drew(*old(self), *final(self), seq![OpView::S]),
    {
        self.push(Op::S);
    }

    /// Sets the distance between two lines of text, given in millimetres.
    pub fn set_leading(&mut self, leading: Fixed)
        requires
            in_range(leading as int),
        ensures
            drew(*old(self), *final(self), seq![OpView::TL(length(leading as int))]),
    {
        self.push(Op::TL(to_length(leading)));
    }

    /// Sets the colour that paths are stroked in.
    pub fn set_colour(&mut self, r: Fixed, g: Fixed, b: Fixed)
        ensures
            drew(*old(self), *final(self), seq![OpView::RG(r as int, g as int, b as int)]),
    {
        self.push(Op::RG(r, g, b));
    }

    /// Sets the colour that paths are filled and text is shown in.
    pub fn set_colour_non_stroking(&mut self, r: Fixed, g: Fixed, b: Fixed)
        ensures
            drew(*old(self), *final(self), seq![OpView::rg(r as int, g as int, b as int)]),
    {
        self.push(Op::rg(r, g, b));
    }

    /// Moves to where the next text starts.
    pub fn set_text_position(&mut self, p: Coord)
        requires
            old(self).wf(),
            point_ok(point(p)),
        ensures
            drew(*old(self), *final(self), seq![OpView::Td(placed(point(p), old(self).size()))]),
    {
        let at = to_place(p, self.page_size);
        self.push(Op::Td(at));
    }

    /// Shows a text.
    pub fn print(&mut self, text: String)
        ensures
            drew(*old(self), *final(self), seq![OpView::Tj(text@)]),
    {
        self.push(Op::Tj(text));
    }

    /// Shows a text at a position.
    pub fn print_at(&mut self, text: &str, position: Coord)
        requires
            old(self).wf(),
            point_ok(point(position)),
        ensures
            drew(
                *old(self),
                *final(self),
                seq![
                    OpView::Td(placed(point(position), old(self).size())),
                    OpView::Tj(text@),
                ],
            ),
    {
        self.set_text_position(position);
        self.print(text.to_owned());
        assert(self@ =~= old(self)@ + seq![
            OpView::Td(placed(point(position), old(self).size())),
            OpView::Tj(text@),
        ]);
    }

    /// Moves to the start of the next line of text.
    pub fn next_line(&mut self)
        ensures
            drew(*old(self), *final(self), seq![OpView::TStar]),
    {
        self.push(Op::TStar);
    }

    /// Ends a block of text.
    pub fn end_text_block(&mut self)
        ensures
            drew(*old(self), *final(self), seq![OpView::ET]),
    {
        self.push(Op::ET);
    }

    /// Adds a straight line to the path.
    pub fn line(&mut self, to: Coord)
        requires
            old(self).wf(),
            point_ok(point(to)),
        ensures
            drew(*old(self), *final(self), seq![OpView::l(placed(point(to), old(self).size()))]),
    {
        let at = to_place(to, self.page_size);
        self.push(Op::l(at));
    }

    /// Adds a rectangle to the path: its top left corner, its width to the
    /// right and its height downwards.
    pub fn rectangle(&mut self, p: Coord, width: Fixed, height: Fixed)
        requires
            old(self).wf(),
            point_ok(point(p)),
            in_range(width as int),
            in_range(height as int),
        ensures
            drew(
                *old(self),
                *final(self),
                seq![
                    OpView::re {
                        point: placed(point(p), old(self).size()),
                        width: length(width as int),
                        height: -length(height as int),
                    },
                ],
            ),
    {
        let at = to_place(p, self.page_size);
        let height = -to_length(height);
        let width = to_length(width);
        self.push(Op::re { point: at, width, height });
    }

    /// Closes the path.
    pub fn close_path(&mut self)
        ensures
            drew(*old(self), *final(self), seq![OpView::h]),
    {
        self.push(Op::h);
    }

    /// Sets the width that paths are stroked in, given in millimetres.
    pub fn line_width(&mut self, width: Fixed)
        requires
            in_range(width as int),
        ensures
            drew(*old(self), *final(self), seq![OpView::w(length(width as int))]),
    {
        self.push(Op::w(to_length(width)));
    }

    /// Begins a new part of the path.
    pub fn begin_subpath(&mut self, p: Coord)
        requires
            old(self).wf(),
            point_ok(point(p)),
        ensures
            drew(*old(self), *final(self), seq![OpView::m(placed(point(p), old(self).size()))]),
    {
        let at = to_place(p, self.page_size);
        self.push(Op::m(at));
    }

    /// Adds a cubic curve to the path.
    pub fn curve_to(&mut self, ctrl1: Coord, ctrl2: Coord, end: Coord)
        requires
            old(self).wf(),
            point_ok(point(ctrl1)),
            point_ok(point(ctrl2)),
            point_ok(point(end)),
        ensures
            drew(
                *old(self),
                *final(self),
                seq![
                    OpView::c {
                        ctrl1: placed(point(ctrl1), old(self).size()),
                        ctrl2: placed(point(ctrl2), old(self).size()),
                        end: placed(point(end), old(self).size()),
                    },
                ],
            ),
    {
        let ctrl1 = to_place(ctrl1, self.page_size);
        let ctrl2 = to_place(ctrl2, self.page_size);
        let end = to_place(end, self.page_size);
        self.push(Op::c { ctrl1, ctrl2, end });
    }
}

/// The operators that every page begins with.
pub open spec fn init_ops() -> Seq<OpView> {
    seq![OpView::q, OpView::RG(0, 0, 0), OpView::rg(0, 0, 0), OpView::S, OpView::q]
}

/// Begins a page: black for strokes and for fills, inside a saved state.
pub fn init_page(content: &mut ContentBuilder)
    ensures
        drew(*old(content), *final(content), init_ops()),
{
    content.save_graphics_state();
    content.set_colour(0, 0, 0);
    content.set_colour_non_stroking(0, 0, 0);
    content.stroke_path();
    content.save_graphics_state();
    assert(content@ =~= old(content)@ + init_ops());
}

/// Drawing one thing after another draws both, in that order.
pub proof fn drew_both(
    a: ContentBuilder,
    b: ContentBuilder,
    c: ContentBuilder,
    first: Seq<OpView>,
    second: Seq<OpView>,
)
    requires
        drew(a, b, first),
        drew(b, c, second),
    ensures
        drew(a, c, first + second),
{
    assert(c@ =~= a@ + (first + second));
}

} // verus!
