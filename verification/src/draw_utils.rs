//! Small pieces that every sheet is drawn from.

use crate::fixed::{in_range, Coord, Fixed};
use crate::pdf::content::{drew, length, page_mm, placed, point_ok, ContentBuilder};
use crate::pdf::object::{font_name, point, FontStyle, OpView, Point};
use vstd::prelude::*;

verus! {

/// A face and the size it is set in.
pub type Font = (FontStyle, Fixed);

/// The operators that show one text at a place: a text block that selects
/// the font, moves to the place and shows the text.
pub open spec fn write_ops(msg: Seq<char>, at: Point, style: FontStyle, size: int, page: Point)
    -> Seq<OpView> {
    seq![
        OpView::BT,
        OpView::Tf { font: font_name(style), size },
        OpView::Td(placed(at, page)),
        OpView::Tj(msg),
        OpView::ET,
    ]
}

/// The operators that stroke a straight line from one place to another.
pub open spec fn line_ops(from: Point, to: Point, page: Point) -> Seq<OpView> {
    seq![OpView::m(placed(from, page)), OpView::l(placed(to, page)), OpView::S]
}

/// Where the notice at the top of every sheet starts: 20 mm left of the
/// middle of the page, 3 mm from its top.
pub open spec fn disclaimer_place(page_mm: Point) -> Point {
    (page_mm.0 / 2 - 20_0000000, 3_0000000)
}

/// The notice at the top of every sheet.
pub open spec fn disclaimer_ops(page: Point) -> Seq<OpView> {
    seq![
        OpView::BT,
        OpView::TL(length(2_0000000)),
        OpView::Tf { font: font_name(FontStyle::Italics), size: 6_0000000 },
        OpView::Td(placed(disclaimer_place(page_mm(page)), page)),
        OpView::Tj("Do not use! For illustrative purposes only."@),
        OpView::TStar,
        OpView::Tj("Any reliance you place on this document"@),
        OpView::TStar,
        OpView::Tj("is strictly at your own risk."@),
        OpView::TStar,
        OpView::Tj("License: Apache-2.0"@),
        OpView::ET,
    ]
}

/// Shows one text at a place.
pub fn write(builder: &mut ContentBuilder, msg: &str, location: Coord, font: &Font)
    requires
        old(builder).wf(),
        point_ok(point(location)),
    ensures
        drew(
            *old(builder),
            *final(builder),
            write_ops(msg@, point(location), font.0, font.1 as int, old(builder).size()),
        ),
{
    let (style, font_size) = *font;
    builder.start_text_block();
    builder.set_font(style, font_size);
    builder.print_at(msg, location);
    builder.end_text_block();
    assert(builder@ =~= old(builder)@ + write_ops(
        msg@,
        point(location),
        font.0,
        font.1 as int,
        old(builder).size(),
    ));
}

/// Strokes a line from a place to the right.
pub fn horizontal_line(layer: &mut ContentBuilder, from: Coord, length: Fixed)
    requires
        old(layer).wf(),
        point_ok(point(from)),
        in_range(from.0 + length),
    ensures
        drew(
            *old(layer),
            *final(layer),
            line_ops(point(from), (from.0 + length, from.1 as int), old(layer).size()),
        ),
{
    layer.begin_subpath(from);
    let (x, y) = from;
    layer.line((x + length, y));
    layer.stroke_path();
    assert(layer@ =~= old(layer)@ + line_ops(
        point(from),
        (from.0 + length, from.1 as int),
        old(layer).size(),
    ));
}

/// Strokes a line from a place downwards.
pub fn vertical_line(layer: &mut ContentBuilder, from: Coord, length: Fixed)
    requires
        old(layer).wf(),
        point_ok(point(from)),
        in_range(from.1 + length),
    ensures
        drew(
            *old(layer),
            *final(layer),
            line_ops(point(from), (from.0 as int, from.1 + length), old(layer).size()),
        ),
{
    layer.begin_subpath(from);
    let (x, y) = from;
    layer.line((x, y + length));
    layer.stroke_path();
    assert(layer@ =~= old(layer)@ + line_ops(
        point(from),
        (from.0 as int, from.1 + length),
        old(layer).size(),
    ));
}

/// Shows the notice at the top of a sheet.
pub fn disclaimer(builder: &mut ContentBuilder)
    requires
        old(builder).wf(),
    ensures
        drew(
            *old(builder),
            *final(builder),
            disclaimer_ops(old(builder).size()),
        ),
{
    let font = FontStyle::Italics;
    let font_size: Fixed = 6_0000000;
    let (page_size_x, _) = builder.page_size();
    let location: Coord = ((page_size_x / 2) - 20_0000000, 3_0000000);

    builder.start_text_block();
    builder.set_leading(2_0000000);
    builder.set_font(font, font_size);
    builder.print_at("Do not use! For illustrative purposes only.", location);
    builder.next_line();
    builder.print("Any reliance you place on this document".to_owned());
    builder.next_line();
    builder.print("is strictly at your own risk.".to_owned());
    builder.next_line();
    builder.print("License: Apache-2.0".to_owned());
    builder.end_text_block();
    assert(builder@ =~= old(builder)@ + disclaimer_ops(old(builder).size()));
}

} // verus!
