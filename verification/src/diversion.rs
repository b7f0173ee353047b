//! The diversion sheet: for one wind, the heading to fly and the ground speed
//! along tracks all round the compass, and a table of times for distances at
//! ground speeds.

use crate::calc::{
    calc_aircraft, heading_of, heading_text, normalize, reciprocal_of, triangles_view, Degree,
    Triangle,
    Velocity, VelocityModel, WindTriangle, WindTriangleModel,
};
use crate::draw_utils::{disclaimer, disclaimer_ops, write_ops, Font};
use crate::fixed::{div_round, magnitude, round, round_div, rounded, Coord, Fixed, ONE};
use crate::pdf::builder::PDFPageBuilder;
use crate::pdf::content::{
    drew, drew_both, init_ops, init_page, length, page_mm, placed, ContentBuilder,
};
use crate::pdf::object::{FontStyle, OpView, Point};
use crate::text::{int_text, int_to_text, push_char, push_int, push_text};
use vstd::prelude::*;

verus! {

/// The margin at both sides of the sheet, in millimetres.
pub const MARGIN_SIDE: Fixed = 5_0000000;

/// How far down the page the first row of headings starts.
pub const MARGIN_TOP: Fixed = 30_0000000;

/// The size that the headings are set in.
pub const FONT_SIZE: Fixed = 11_0000000;

/// The width that lines are stroked in.
pub const LINE_WIDTH: Fixed = 0_2500000;

/// How far right of a track the next one in the same row stands.
pub const SHIFT: Fixed = 36_1000000;

/// One entry of the diversion sheet: a track, the magnetic heading to fly
/// along it, and the ground speed made good.
#[derive(Debug, PartialEq, Eq)]
pub struct Diversion {
    pub course: String,
    pub heading: String,
    pub ground_speed: String,
}

/// What an entry of the diversion sheet stands for.
pub struct DiversionModel {
    pub course: Seq<char>,
    pub heading: Seq<char>,
    pub ground_speed: Seq<char>,
}

impl View for Diversion {
    type V = DiversionModel;

    open spec fn view(&self) -> DiversionModel {
        DiversionModel {
            course: self.course@,
            heading: self.heading@,
            ground_speed: self.ground_speed@,
        }
    }
}

impl Diversion {
    /// The entry with the given texts.
    pub fn new(course: String, heading: String, ground_speed: String) -> (d: Self)
        ensures
            d@ == (DiversionModel {
                course: course@,
                heading: heading@,
                ground_speed: ground_speed@,
            }),
    {
        Diversion { course, heading, ground_speed }
    }
}

/// What stands in an entry that has no solution.
pub open spec fn placeholder() -> Seq<char> {
    "---"@
}

/// `v` moved to the nearest number that a 64-bit signed integer holds.
pub open spec fn clamped_i64(v: int) -> int {
    if v < i64::MIN {
        i64::MIN as int
    } else if v > i64::MAX {
        i64::MAX as int
    } else {
        v
    }
}

/// The entry for a track: the track and the magnetic heading as they are
/// read out, and the ground speed rounded to a whole number. Where the
/// triangle has no solution, or the aircraft would be blown backwards, the
/// placeholder stands in all three places.
pub open spec fn diversion_of(course: int, variation: int, triangle: Triangle) -> DiversionModel {
    match triangle {
        Triangle::Solved { ground_speed, correction } => if ground_speed >= 0 {
            let h = heading_of(normalize(course), variation, ground_speed as int, correction as int);
            DiversionModel {
                course: heading_text(h.0),
                heading: heading_text(h.4),
                ground_speed: int_text(clamped_i64(rounded(ground_speed as int))),
            }
        } else {
            DiversionModel {
                course: placeholder(),
                heading: placeholder(),
                ground_speed: placeholder(),
            }
        },
        Triangle::Unsolvable => DiversionModel {
            course: placeholder(),
            heading: placeholder(),
            ground_speed: placeholder(),
        },
    }
}

/// Whether a solved triangle can be flown: it closes, and the aircraft is
/// not blown backwards along its track.
pub open spec fn flyable(triangle: Triangle) -> bool {
    triangle matches Triangle::Solved { ground_speed, .. } && ground_speed >= 0
}

/// Where a triangle cannot be flown, its entry shows the placeholder and no
/// number, whatever the track and the variation.
pub proof fn entry_without_solution_is_placeholder(course: int, variation: int, triangle: Triangle)
    requires
        !flyable(triangle),
    ensures
        diversion_of(course, variation, triangle) == (DiversionModel {
            course: "---"@,
            heading: "---"@,
            ground_speed: "---"@,
        }),
{
}

/// Moves a number to the nearest one that a 64-bit signed integer holds.
pub fn clamp_i64(v: i128) -> (r: i64)
    ensures
        r == clamped_i64(v as int),
{
    if v < -9223372036854775808 {
        -9223372036854775808
    } else if v > 9223372036854775807 {
        9223372036854775807
    } else {
        v as i64
    }
}

/// The entry of the diversion sheet for one track.
pub fn calc_diversion(course: Fixed, variation: Degree, triangle: &Triangle) -> (d: Diversion)
    ensures
        d@ == diversion_of(course as int, variation@, *triangle),
{
    let destination_bearing = Degree::new(course);
    let diversion = calc_aircraft(destination_bearing, variation, triangle);
    match diversion {
        Some(h) => {
            if h.speed_overground >= 0 {
                let course = h.destination_bearing.as_heading();
                let heading = h.heading_magnetic.as_heading();
                let ground_speed = int_to_text(clamp_i64(round(h.speed_overground)) as i128);
                Diversion::new(course, heading, ground_speed)
            } else {
                Diversion::new("---".to_owned(), "---".to_owned(), "---".to_owned())
            }
        },
        None => Diversion::new("---".to_owned(), "---".to_owned(), "---".to_owned()),
    }
}

/// How many rows of tracks the sheet has: tracks are 5 degrees apart, and a
/// row holds one track of each quarter of the compass.
pub const ROWS: usize = 18;

/// The track of the entry in a row and a quarter of the compass, in
/// ten-millionths of a degree.
pub open spec fn track_of(row: int, quarter: int) -> int {
    (row * 5 + quarter * 90) * ONE
}

/// The track of the entry in a row and a quarter of the compass.
pub fn track_at(row: usize, quarter: usize) -> (t: Fixed)
    requires
        quarter < 4,
    ensures
        t == track_of(row as int, quarter as int),
{
    let r: i128 = row as i128;
    let q: i128 = quarter as i128;
    (r * 5 + q * 90) * ONE
}

/// The wind triangles of a diversion sheet, row by row and in each row
/// quarter by quarter: all for the same speed through the air and the same
/// wind, for tracks 5 degrees apart.
pub open spec fn sheet_triangles(air_speed: int, wind: VelocityModel) -> Seq<WindTriangleModel> {
    Seq::new(
        4 * ROWS as nat,
        |i: int| WindTriangleModel { air_speed, track: normalize(track_of(i / 4, i % 4)), wind },
    )
}

/// The wind triangles of a diversion sheet, row by row and in each row
/// quarter by quarter.
pub fn diversion_triangles(air_speed: i64, wind: &Velocity) -> (queries: Vec<WindTriangle>)
    ensures
        triangles_view(queries@) == sheet_triangles(air_speed as int, wind@),
{
    let mut queries: Vec<WindTriangle> = Vec::new();
    let ghost all = sheet_triangles(air_speed as int, wind@);
    let mut row: usize = 0;
    while row < ROWS
        invariant
            row <= ROWS,
            all == sheet_triangles(air_speed as int, wind@),
            triangles_view(queries@) == all.take(4 * row),
        decreases ROWS - row,
    {
        let mut quarter: usize = 0;
        while quarter < 4
            invariant
                quarter <= 4,
                row < ROWS,
                all == sheet_triangles(air_speed as int, wind@),
                triangles_view(queries@) == all.take(4 * row + quarter),
            decreases 4 - quarter,
        {
            let ghost before = queries@;
            let query = WindTriangle {
                air_speed,
                track: Degree::new(track_at(row, quarter)),
                wind: *wind,
            };
            queries.push(query);
            proof {
                let i = 4 * row + quarter;
                assert(i / 4 == row as int && i % 4 == quarter as int);
                assert(all.len() == 72);
                assert(all.take(i).len() == i);
                assert(triangles_view(before).len() == before.len());
                assert(before.len() == i);
                assert(queries@.len() == i + 1);
                assert(queries@[i] == query);
                assert(query@ == all[i]);
                assert forall|j: int| 0 <= j < i + 1 implies triangles_view(queries@)[j]
                    == all.take(i + 1)[j] by {
                    if j < i {
                        assert(queries@[j] == before[j]);
                        assert(triangles_view(before)[j] == all.take(i)[j]);
                    }
                }
                assert(triangles_view(queries@) =~= all.take(i + 1));
            }
            quarter += 1;
        }
        row += 1;
    }
    assert(all.take(4 * ROWS) =~= all);
    queries
}

/// What each entry of a row stands for.
pub open spec fn row_view(row: [Diversion; 4]) -> Seq<DiversionModel> {
    Seq::new(4, |k: int| row@[k]@)
}

/// The entries of the row at place `row`, for the solved triangles of the
/// sheet.
pub open spec fn row_of(variation: int, solved: Seq<Triangle>, row: int) -> Seq<DiversionModel> {
    Seq::new(4, |k: int| diversion_of(track_of(row, k), variation, solved[4 * row + k]))
}

/// The entries of the diversion sheet, from the solutions of its wind
/// triangles in the order of `diversion_triangles`: 18 rows of four.
pub fn calc_diversions(variation: Degree, solved: &[Triangle]) -> (rows: Vec<[Diversion; 4]>)
    requires
        solved@.len() == 4 * ROWS,
    ensures
        rows@.len() == ROWS,
        forall|n: int|
            0 <= n < ROWS ==> row_view(#[trigger] rows@[n]) == row_of(variation@, solved@, n),
{
    let mut rows: Vec<[Diversion; 4]> = Vec::new();
    let mut n: usize = 0;
    while n < ROWS
        invariant
            n <= ROWS,
            solved@.len() == 4 * ROWS,
            rows@.len() == n,
            forall|i: int|
                0 <= i < n ==> row_view(#[trigger] rows@[i]) == row_of(variation@, solved@, i),
        decreases ROWS - n,
    {
        let h1 = calc_diversion(track_at(n, 0), variation, &solved[4 * n]);
        let h2 = calc_diversion(track_at(n, 1), variation, &solved[4 * n + 1]);
        let h3 = calc_diversion(track_at(n, 2), variation, &solved[4 * n + 2]);
        let h4 = calc_diversion(track_at(n, 3), variation, &solved[4 * n + 3]);
        let row = [h1, h2, h3, h4];
        assert(row_view(row) =~= row_of(variation@, solved@, n as int));
        rows.push(row);
        n += 1;
    }
    rows
}

/// The largest distance from the top of the page that anything is drawn at.
pub const DEPTH_LIMIT: i128 = 10_000_000_000_000_000_000_000_000_000;

/// The quotient of two whole numbers, rounded towards zero.
pub open spec fn truncated_div(a: int, b: int) -> int {
    let q = magnitude(a) / magnitude(b);
    if (a < 0) == (b < 0) {
        q as int
    } else {
        -(q as int)
    }
}

/// Minutes, cut to a whole number, for a distance in nautical miles at a
/// speed in knots.
pub open spec fn minutes_for(speed: int, distance: int) -> int {
    truncated_div(60 * distance, speed)
}

/// Minutes, cut to a whole number, for a distance at a speed.
pub fn calc_time(speed: i32, distance: i32) -> (minutes: i32)
    requires
        speed != 0,
        i32::MIN <= 60 * distance <= i32::MAX,
    ensures
        minutes == minutes_for(speed as int, distance as int),
{
    let n: i64 = 60 * (distance as i64);
    let m: u64 = if n >= 0 {
        n as u64
    } else {
        (-n) as u64
    };
    let d: u64 = if speed >= 0 {
        speed as u64
    } else {
        (-(speed as i64)) as u64
    };
    let q: u64 = m / d;
    assert(q <= m) by (nonlinear_arith)
        requires
            q == m / d,
            d >= 1,
    ;
    if (n < 0) == (speed < 0) {
        q as i32
    } else {
        -(q as i64) as i32
    }
}

/// The speeds that the table of times has a row for.
pub open spec fn table_speeds() -> Seq<i32> {
    seq![60i32, 70i32, 80i32, 90i32, 100i32, 110i32, 120i32, 130i32, 140i32]
}

/// The distances that the table of times has a column for.
pub open spec fn table_distances() -> Seq<i32> {
    seq![
        5i32,
        10i32,
        15i32,
        20i32,
        25i32,
        30i32,
        35i32,
        40i32,
        45i32,
        50i32,
        55i32,
        60i32,
        65i32,
        70i32,
    ]
}

/// The speeds that the table of times has a row for.
pub fn speeds_of_table() -> (v: Vec<i32>)
    ensures
        v@ == table_speeds(),
{
    let mut v: Vec<i32> = Vec::new();
    let mut speed: i32 = 60;
    while speed <= 140
        invariant
            60 <= speed <= 150,
            speed % 10 == 0,
            v@ == table_speeds().take((speed - 60) / 10),
        decreases 150 - speed,
    {
        v.push(speed);
        assert(v@ =~= table_speeds().take((speed - 50) / 10));
        speed = speed + 10;
    }
    assert(v@ =~= table_speeds());
    v
}

/// The distances that the table of times has a column for.
pub fn distances_of_table() -> (v: Vec<i32>)
    ensures
        v@ == table_distances(),
{
    let mut v: Vec<i32> = Vec::new();
    let mut distance: i32 = 5;
    while distance <= 70
        invariant
            5 <= distance <= 75,
            distance % 5 == 0,
            v@ == table_distances().take((distance - 5) / 5),
        decreases 75 - distance,
    {
        v.push(distance);
        assert(v@ =~= table_distances().take(distance / 5));
        distance = distance + 5;
    }
    assert(v@ =~= table_distances());
    v
}

/// The width of the page in millimetres.
pub open spec fn width_mm(page: Point) -> int {
    page_mm(page).0
}

/// The width of a column of the table of times: what the margins leave of
/// the page, shared between the columns and the one in front of them.
pub open spec fn column_step(page: Point, columns: nat) -> int {
    round_div(width_mm(page) - 10_0000000, (columns + 1) as int)
}

/// Where the column at place `idx` of the table of times starts.
pub open spec fn column_place(step: int, idx: int) -> int {
    step + MARGIN_SIDE + idx * step
}

/// How far down the page the table of times starts.
pub const TABLE_TOP: Fixed = 171_0000000;

/// How far down the page the row at place `r` of the table of times is set.
pub open spec fn time_row_y(r: int) -> int {
    TABLE_TOP + r * 4_0000000 + 3_8000000
}

/// The light grey that every other row is shaded in.
pub const SHADE: Fixed = 0_9000000;

/// The frame of the table of times.
pub open spec fn frame_ops(rows: nat, page: Point) -> Seq<OpView> {
    seq![
        OpView::q,
        OpView::RG(0, 0, 0),
        OpView::w(length(LINE_WIDTH as int)),
        OpView::re {
            point: placed((4_0000000, 167_0000000), page),
            width: length(width_mm(page) - 10_0000000),
            height: -length((rows * 4_6000000) as int),
        },
        OpView::S,
        OpView::Q,
    ]
}

/// A number of the table of times, at a place.
pub open spec fn number_ops(v: int, at: Point, size: int, page: Point) -> Seq<OpView> {
    write_ops(int_text(v), at, FontStyle::Bold, size, page)
}

/// The titles of the first `count` columns of the table of times: the
/// distances.
pub open spec fn titles_ops(distances: Seq<i32>, step: int, page: Point, count: nat) -> Seq<
    OpView,
>
    decreases count,
{
    if count == 0 {
        Seq::empty()
    } else {
        titles_ops(distances, step, page, (count - 1) as nat) + number_ops(
            distances[count - 1] as int,
            (column_place(step, count - 1), TABLE_TOP as int),
            11_0000000,
            page,
        )
    }
}

/// The times in the first `count` columns of the row for `speed`.
pub open spec fn times_ops(
    speed: int,
    distances: Seq<i32>,
    step: int,
    y: int,
    page: Point,
    count: nat,
) -> Seq<OpView>
    decreases count,
{
    if count == 0 {
        Seq::empty()
    } else {
        times_ops(speed, distances, step, y, page, (count - 1) as nat) + number_ops(
            minutes_for(speed, distances[count - 1] as int),
            (column_place(step, count - 1), y),
            9_0000000,
            page,
        )
    }
}

/// The shading behind a row of the table of times.
pub open spec fn time_shade_ops(y: int, page: Point) -> Seq<OpView> {
    seq![
        OpView::q,
        OpView::rg(SHADE as int, SHADE as int, SHADE as int),
        OpView::re {
            point: placed((MARGIN_SIDE as int, y - 3_0000000), page),
            width: length(width_mm(page) - 12_0000000),
            height: -length(4_0000000),
        },
        OpView::f,
        OpView::Q,
    ]
}

/// The row at place `r` of the table of times: shaded if `r` is even, the
/// speed in front, then the time for each distance.
pub open spec fn time_row_ops(speeds: Seq<i32>, distances: Seq<i32>, r: int, page: Point) -> Seq<
    OpView,
> {
    let y = time_row_y(r);
    let step = column_step(page, distances.len());
    (if r % 2 == 0 {
        time_shade_ops(y, page)
    } else {
        Seq::empty()
    }) + number_ops(speeds[r] as int, (MARGIN_SIDE as int, y), 9_0000000, page) + times_ops(
        speeds[r] as int,
        distances,
        step,
        y,
        page,
        distances.len(),
    )
}

/// The first `count` rows of the table of times.
pub open spec fn time_rows_ops(speeds: Seq<i32>, distances: Seq<i32>, page: Point, count: nat)
    -> Seq<OpView>
    decreases count,
{
    if count == 0 {
        Seq::empty()
    } else {
        time_rows_ops(speeds, distances, page, (count - 1) as nat) + time_row_ops(
            speeds,
            distances,
            count - 1,
            page,
        )
    }
}

/// The table of times: its frame, the distances as titles of the columns,
/// and a row for each speed.
pub open spec fn dist_time_ops(speeds: Seq<i32>, distances: Seq<i32>, page: Point) -> Seq<OpView> {
    frame_ops(speeds.len(), page) + titles_ops(
        distances,
        column_step(page, distances.len()),
        page,
        distances.len(),
    ) + time_rows_ops(speeds, distances, page, speeds.len())
}

/// Whether a table of times can be worked out for these speeds and
/// distances: no speed is zero, and sixty times each distance is a number of
/// 32 bits.
pub open spec fn table_ok(speeds: Seq<i32>, distances: Seq<i32>) -> bool {
    &&& forall|r: int| 0 <= r < speeds.len() ==> #[trigger] speeds[r] != 0
    &&& forall|c: int|
        0 <= c < distances.len() ==> i32::MIN <= 60 * #[trigger] distances[c] <= i32::MAX
}

/// The table of times can be worked out for the speeds and distances of the
/// sheet.
pub proof fn table_of_sheet_is_ok()
    ensures
        table_ok(table_speeds(), table_distances()),
{
    let speeds = table_speeds();
    let distances = table_distances();
    assert forall|r: int| 0 <= r < speeds.len() implies #[trigger] speeds[r] != 0 by {
        assert(speeds[0] == 60 && speeds[1] == 70 && speeds[2] == 80 && speeds[3] == 90
            && speeds[4] == 100 && speeds[5] == 110 && speeds[6] == 120 && speeds[7] == 130
            && speeds[8] == 140);
    }
    assert forall|c: int| 0 <= c < distances.len() implies i32::MIN <= 60
        * #[trigger] distances[c] <= i32::MAX by {
        assert(distances[0] == 5 && distances[1] == 10 && distances[2] == 15 && distances[3]
            == 20 && distances[4] == 25 && distances[5] == 30 && distances[6] == 35);
        assert(distances[7] == 40 && distances[8] == 45 && distances[9] == 50 && distances[10]
            == 55 && distances[11] == 60 && distances[12] == 65 && distances[13] == 70);
    }
}

/// A step, taken up to as many times as there are columns and one more,
/// stays within what was shared out.
pub proof fn steps_stay_within(w: int, n: int, k: int)
    requires
        1 <= n,
        0 <= k <= n,
    ensures
        -(magnitude(w) + n) <= k * round_div(w, n) <= magnitude(w) + n,
{
    let m = magnitude(w);
    let nn = n as nat;
    let q = m / nn;
    assert(q * nn <= m && 0 <= q) by (nonlinear_arith)
        requires
            q == m / nn,
            1 <= nn,
    ;
    assert(k * q <= nn * q) by (nonlinear_arith)
        requires
            0 <= k <= nn,
            0 <= q,
    ;
    assert(k * (q + 1) == k * q + k) by (nonlinear_arith);
    assert(k * (-(q as int)) == -(k * q)) by (nonlinear_arith);
    assert(k * (-((q + 1) as int)) == -(k * q) - k) by (nonlinear_arith);
    assert(nn * q == q * nn) by (nonlinear_arith);
}

/// Where the column at place `idx` of the table of times starts.
fn column_at(step: Fixed, idx: usize, Ghost(w): Ghost<int>, Ghost(n): Ghost<int>) -> (x: Fixed)
    requires
        1 <= n <= usize::MAX + 1,
        idx < n,
        step == round_div(w, n),
        -200_000_000_000_000_000_000_000_000_000 <= w <= 200_000_000_000_000_000_000_000_000_000,
    ensures
        x == column_place(step as int, idx as int),
        -500_000_000_000_000_000_000_000_000_000 <= x <= 500_000_000_000_000_000_000_000_000_000,
{
    proof {
        steps_stay_within(w, n, idx as int);
        steps_stay_within(w, n, 1);
        assert(1 * round_div(w, n) == round_div(w, n)) by (nonlinear_arith);
    }
    let wide: i128 = idx as i128;
    step + MARGIN_SIDE + wide * step
}

/// Shows a number of the table of times.
fn draw_number(layer: &mut ContentBuilder, v: i32, at: Coord, size: Fixed)
    requires
        old(layer).wf(),
        crate::pdf::content::point_ok(crate::pdf::object::point(at)),
    ensures
        drew(
            *old(layer),
            *final(layer),
            number_ops(v as int, crate::pdf::object::point(at), size as int, old(layer).size()),
        ),
{
    let font: Font = (FontStyle::Bold, size);
    let text = int_to_text(v as i128);
    crate::draw_utils::write(layer, text.as_str(), at, &font);
}

/// Draws the frame of the table of times.
fn draw_frame(layer: &mut ContentBuilder, rows: usize)
    requires
        old(layer).wf(),
    ensures
        drew(*old(layer), *final(layer), frame_ops(rows as nat, old(layer).size())),
{
    let (page_width, _) = layer.page_size();
    layer.save_graphics_state();
    layer.set_colour(0, 0, 0);
    layer.line_width(LINE_WIDTH);
    let point: Coord = (MARGIN_SIDE - 1_0000000, TABLE_TOP - 4_0000000);
    let width: Fixed = page_width - 10_0000000;
    let h: Fixed = (rows as i128) * 4_6000000;
    layer.rectangle(point, width, h);
    layer.stroke_path();
    layer.restore_graphics_state();
    assert(layer@ =~= old(layer)@ + frame_ops(rows as nat, old(layer).size()));
}

/// Shows the distances as titles of the columns of the table of times.
fn draw_titles(layer: &mut ContentBuilder, distances: &[i32])
    requires
        old(layer).wf(),
    ensures
        drew(
            *old(layer),
            *final(layer),
            titles_ops(
                distances@,
                column_step(old(layer).size(), distances@.len()),
                old(layer).size(),
                distances@.len(),
            ),
        ),
{
    let ghost page = layer.size();
    let (page_width, _) = layer.page_size();
    let columns: i128 = distances.len() as i128 + 1;
    let step: Fixed = div_round(page_width - 10_0000000, columns);
    let mut idx: usize = 0;
    assert(layer@ =~= old(layer)@ + titles_ops(distances@, step as int, page, 0));
    while idx < distances.len()
        invariant
            idx <= distances.len(),
            layer.wf(),
            page == old(layer).size(),
            columns == distances@.len() + 1,
            step == round_div(page_width - 10_0000000, columns as int),
            step == column_step(page, distances@.len()),
            0 <= page_width <= 100_000_000_000_000_000_000_000_000_000 + 1000,
            drew(*old(layer), *layer, titles_ops(distances@, step as int, page, idx as nat)),
        decreases distances.len() - idx,
    {
        let ghost before = *layer;
        let x_pos = column_at(step, idx, Ghost(page_width - 10_0000000), Ghost(columns as int));
        draw_number(layer, distances[idx], (x_pos, TABLE_TOP), 11_0000000);
        proof {
            drew_both(
                *old(layer),
                before,
                *layer,
                titles_ops(distances@, step as int, page, idx as nat),
                number_ops(
                    distances@[idx as int] as int,
                    (column_place(step as int, idx as int), TABLE_TOP as int),
                    11_0000000,
                    page,
                ),
            );
        }
        idx += 1;
    }
}

/// Shows the times of one row of the table of times.
fn draw_times(layer: &mut ContentBuilder, speed: i32, distances: &[i32], y: Fixed)
    requires
        old(layer).wf(),
        speed != 0,
        forall|c: int|
            0 <= c < distances@.len() ==> i32::MIN <= 60 * #[trigger] distances@[c] <= i32::MAX,
        0 <= y <= DEPTH_LIMIT,
    ensures
        drew(
            *old(layer),
            *final(layer),
            times_ops(
                speed as int,
                distances@,
                column_step(old(layer).size(), distances@.len()),
                y as int,
                old(layer).size(),
                distances@.len(),
            ),
        ),
{
    let ghost page = layer.size();
    let (page_width, _) = layer.page_size();
    let columns: i128 = distances.len() as i128 + 1;
    let step: Fixed = div_round(page_width - 10_0000000, columns);
    let mut idx: usize = 0;
    assert(layer@ =~= old(layer)@ + times_ops(speed as int, distances@, step as int, y as int, page, 0));
    while idx < distances.len()
        invariant
            idx <= distances.len(),
            layer.wf(),
            page == old(layer).size(),
            speed != 0,
            forall|c: int|
                0 <= c < distances@.len() ==> i32::MIN <= 60 * #[trigger] distances@[c]
                    <= i32::MAX,
            0 <= y <= DEPTH_LIMIT,
            columns == distances@.len() + 1,
            step == round_div(page_width - 10_0000000, columns as int),
            step == column_step(page, distances@.len()),
            0 <= page_width <= 100_000_000_000_000_000_000_000_000_000 + 1000,
            drew(
                *old(layer),
                *layer,
                times_ops(speed as int, distances@, step as int, y as int, page, idx as nat),
            ),
        decreases distances.len() - idx,
    {
        let ghost before = *layer;
        let x_pos = column_at(step, idx, Ghost(page_width - 10_0000000), Ghost(columns as int));
        let cross_wind = calc_time(speed, distances[idx]);
        draw_number(layer, cross_wind, (x_pos, y), 9_0000000);
        proof {
            drew_both(
                *old(layer),
                before,
                *layer,
                times_ops(speed as int, distances@, step as int, y as int, page, idx as nat),
                number_ops(
                    minutes_for(speed as int, distances@[idx as int] as int),
                    (column_place(step as int, idx as int), y as int),
                    9_0000000,
                    page,
                ),
            );
        }
        idx += 1;
    }
}

/// Draws the shading behind a row of the table of times.
fn draw_time_shade(layer: &mut ContentBuilder, y: Fixed)
    requires
        old(layer).wf(),
        0 <= y <= DEPTH_LIMIT,
    ensures
        drew(*old(layer), *final(layer), time_shade_ops(y as int, old(layer).size())),
{
    let (page_width, _) = layer.page_size();
    let point: Coord = (MARGIN_SIDE, y - 3_0000000);
    let width: Fixed = page_width - 10_0000000 - 2_0000000;
    layer.save_graphics_state();
    layer.set_colour_non_stroking(SHADE, SHADE, SHADE);
    layer.rectangle(point, width, 4_0000000);
    layer.fill();
    layer.restore_graphics_state();
    assert(layer@ =~= old(layer)@ + time_shade_ops(y as int, old(layer).size()));
}

/// Draws the row at place `r` of the table of times.
fn draw_time_row(layer: &mut ContentBuilder, speeds: &[i32], distances: &[i32], r: usize)
    requires
        old(layer).wf(),
        r < speeds@.len(),
        table_ok(speeds@, distances@),
    ensures
        drew(
            *old(layer),
            *final(layer),
            time_row_ops(speeds@, distances@, r as int, old(layer).size()),
        ),
{
    let ghost page = layer.size();
    let height: Fixed = TABLE_TOP + (r as i128) * 4_0000000 + 3_8000000;
    if r % 2 == 0 {
        draw_time_shade(layer, height);
    }
    let ghost shaded = *layer;
    let ghost shade = if r % 2 == 0 {
        time_shade_ops(height as int, page)
    } else {
        Seq::<OpView>::empty()
    };
    assert(drew(*old(layer), shaded, shade)) by {
        assert(shaded@ =~= old(layer)@ + shade);
    }
    draw_number(layer, speeds[r], (MARGIN_SIDE, height), 9_0000000);
    let ghost numbered = *layer;
    draw_times(layer, speeds[r], distances, height);
    proof {
        let number = number_ops(
            speeds@[r as int] as int,
            (MARGIN_SIDE as int, height as int),
            9_0000000,
            page,
        );
        drew_both(*old(layer), shaded, numbered, shade, number);
        drew_both(
            *old(layer),
            numbered,
            *layer,
            shade + number,
            times_ops(
                speeds@[r as int] as int,
                distances@,
                column_step(page, distances@.len()),
                height as int,
                page,
                distances@.len(),
            ),
        );
    }
}

/// Draws the table of times for distances at ground speeds: a row for each
/// speed, a column for each distance.
pub fn dist_time(layer: &mut ContentBuilder, speeds: &[i32], distances: &[i32])
    requires
        old(layer).wf(),
        table_ok(speeds@, distances@),
    ensures
        drew(*old(layer), *final(layer), dist_time_ops(speeds@, distances@, old(layer).size())),
{
    let ghost page = layer.size();
    draw_frame(layer, speeds.len());
    let ghost framed = *layer;
    draw_titles(layer, distances);
    let ghost titled = *layer;
    let ghost head = frame_ops(speeds@.len(), page) + titles_ops(
        distances@,
        column_step(page, distances@.len()),
        page,
        distances@.len(),
    );
    proof {
        drew_both(
            *old(layer),
            framed,
            titled,
            frame_ops(speeds@.len(), page),
            titles_ops(
                distances@,
                column_step(page, distances@.len()),
                page,
                distances@.len(),
            ),
        );
    }
    let mut r: usize = 0;
    assert(layer@ =~= titled@ + time_rows_ops(speeds@, distances@, page, 0));
    while r < speeds.len()
        invariant
            r <= speeds.len(),
            layer.wf(),
            page == old(layer).size(),
            page == titled.size(),
            table_ok(speeds@, distances@),
            drew(titled, *layer, time_rows_ops(speeds@, distances@, page, r as nat)),
        decreases speeds.len() - r,
    {
        let ghost before = *layer;
        draw_time_row(layer, speeds, distances, r);
        proof {
            drew_both(
                titled,
                before,
                *layer,
                time_rows_ops(speeds@, distances@, page, r as nat),
                time_row_ops(speeds@, distances@, r as int, page),
            );
        }
        r += 1;
    }
    proof {
        drew_both(
            *old(layer),
            titled,
            *layer,
            head,
            time_rows_ops(speeds@, distances@, page, speeds@.len()),
        );
    }
}

/// The sign for degrees.
pub open spec fn degree_sign() -> char {
    '\u{00b0}'
}

/// The line that says what the sheet is for: the speed through the air, and
/// the direction and the speed of the wind as they were reported.
pub open spec fn details_text(air_speed: int, wind: VelocityModel) -> Seq<char> {
    "Speed:"@ + int_text(air_speed) + ", Wind:"@ + heading_text(reciprocal_of(wind.bearing))
        + seq![degree_sign()] + " / "@ + int_text(wind.speed)
}

/// The line that says what the sheet is for.
pub fn details_of(air_speed: i64, wind: &Velocity) -> (s: String)
    ensures
        s@ == details_text(air_speed as int, wind@),
{
    let wind_bearing = wind.bearing.reciprocal().as_heading();
    let mut s = String::new();
    push_text(&mut s, "Speed:");
    push_int(&mut s, air_speed as i128);
    push_text(&mut s, ", Wind:");
    push_text(&mut s, wind_bearing.as_str());
    push_char(&mut s, '\u{00b0}');
    push_text(&mut s, " / ");
    push_int(&mut s, wind.speed as i128);
    assert(s@ =~= details_text(air_speed as int, wind@));
    s
}

/// One entry of the sheet at a place: the track in bold, then the heading
/// and the ground speed.
pub open spec fn entry_ops(d: DiversionModel, x: int, y: int, page: Point) -> Seq<OpView> {
    write_ops(
        d.course + seq![degree_sign()],
        (x, y + 2_5000000),
        FontStyle::Bold,
        FONT_SIZE as int,
        page,
    ) + write_ops(
        d.heading + seq![degree_sign()],
        (x + 10_0000000, y + 2_5000000),
        FontStyle::Normal,
        FONT_SIZE as int,
        page,
    ) + write_ops(
        d.ground_speed + "kt"@,
        (x + 20_0000000, y + 2_5000000),
        FontStyle::Normal,
        FONT_SIZE as int,
        page,
    )
}

/// The shading behind a row of entries.
pub open spec fn shade_ops(y: int, page: Point) -> Seq<OpView> {
    seq![
        OpView::q,
        OpView::rg(SHADE as int, SHADE as int, SHADE as int),
        OpView::RG(0, 0, 0),
        OpView::w(length(LINE_WIDTH as int)),
        OpView::re {
            point: placed((MARGIN_SIDE as int, y - 1_0000000), page),
            width: length(width_mm(page) - 10_0000000),
            height: -length(4_0000000),
        },
        OpView::f,
        OpView::Q,
    ]
}

/// How far down the page the row of entries at place `n` starts.
pub open spec fn entry_row_y(n: int) -> int {
    MARGIN_TOP + n * 7_0000000
}

/// The four entries of a row, side by side.
pub open spec fn entries_ops(row: Seq<DiversionModel>, y: int, page: Point) -> Seq<OpView> {
    entry_ops(row[0], MARGIN_SIDE as int, y, page) + entry_ops(
        row[1],
        MARGIN_SIDE + SHIFT,
        y,
        page,
    ) + entry_ops(row[2], MARGIN_SIDE + SHIFT + SHIFT, y, page) + entry_ops(
        row[3],
        MARGIN_SIDE + SHIFT + SHIFT + SHIFT,
        y,
        page,
    )
}

/// The row of entries at place `n`: shaded if `n` is even, and its four
/// entries.
pub open spec fn entry_row_ops(row: Seq<DiversionModel>, n: int, page: Point) -> Seq<OpView> {
    let y = entry_row_y(n);
    (if n % 2 == 0 {
        shade_ops(y, page)
    } else {
        Seq::empty()
    }) + entries_ops(row, y, page)
}

/// The first `count` rows of entries.
pub open spec fn entry_rows_ops(variation: int, solved: Seq<Triangle>, page: Point, count: nat)
    -> Seq<OpView>
    decreases count,
{
    if count == 0 {
        Seq::empty()
    } else {
        entry_rows_ops(variation, solved, page, (count - 1) as nat) + entry_row_ops(
            row_of(variation, solved, count - 1),
            count - 1,
            page,
        )
    }
}

/// The diversion sheet, as the operators of its page: the notice, the line
/// that says what the sheet is for, the 18 rows of entries, and below them,
/// once, the table of times.
#[verifier::opaque]
pub open spec fn wind_table_ops(
    air_speed: int,
    variation: int,
    wind: VelocityModel,
    solved: Seq<Triangle>,
    page: Point,
) -> Seq<OpView> {
    init_ops() + disclaimer_ops(page) + write_ops(
        details_text(air_speed, wind),
        (MARGIN_SIDE as int, 20_0000000),
        FontStyle::Bold,
        FONT_SIZE as int,
        page,
    ) + entry_rows_ops(variation, solved, page, ROWS as nat) + dist_time_ops(
        table_speeds(),
        table_distances(),
        page,
    )
}

/// Shows one entry of the sheet.
fn column_line(text: &mut ContentBuilder, y: Fixed, x_offset: Fixed, d: &Diversion)
    requires
        old(text).wf(),
        0 <= y <= DEPTH_LIMIT,
        0 <= x_offset <= 1000_0000000,
    ensures
        drew(
            *old(text),
            *final(text),
            entry_ops(d@, x_offset as int, y as int, old(text).size()),
        ),
{
    let font: Font = (FontStyle::Normal, FONT_SIZE);
    let font_bold: Font = (FontStyle::Bold, FONT_SIZE);
    let x: Fixed = x_offset;
    let name_height: Fixed = 2_5000000;

    let mut track = d.course.clone();
    push_char(&mut track, '\u{00b0}');
    assert(track@ =~= d@.course + seq![degree_sign()]);
    crate::draw_utils::write(text, track.as_str(), (x, y + name_height), &font_bold);

    let mut fly_heading = d.heading.clone();
    push_char(&mut fly_heading, '\u{00b0}');
    assert(fly_heading@ =~= d@.heading + seq![degree_sign()]);
    crate::draw_utils::write(
        text,
        fly_heading.as_str(),
        (x + 10_0000000, y + name_height),
        &font,
    );

    let mut ground_speed = d.ground_speed.clone();
    push_text(&mut ground_speed, "kt");
    crate::draw_utils::write(
        text,
        ground_speed.as_str(),
        (x + 10_0000000 + 10_0000000, y + name_height),
        &font,
    );
    assert(text@ =~= old(text)@ + entry_ops(d@, x_offset as int, y as int, old(text).size()));
}

/// Draws the shading behind a row of entries.
fn draw_shade(layer: &mut ContentBuilder, y: Fixed)
    requires
        old(layer).wf(),
        0 <= y <= DEPTH_LIMIT,
    ensures
        drew(*old(layer), *final(layer), shade_ops(y as int, old(layer).size())),
{
    let (page_width, _) = layer.page_size();
    layer.save_graphics_state();
    layer.set_colour_non_stroking(SHADE, SHADE, SHADE);
    layer.set_colour(0, 0, 0);
    layer.line_width(LINE_WIDTH);
    layer.rectangle((MARGIN_SIDE, y - 1_0000000), page_width - 10_0000000, 4_0000000);
    layer.fill();
    layer.restore_graphics_state();
    assert(layer@ =~= old(layer)@ + shade_ops(y as int, old(layer).size()));
}

/// Shows the four entries of a row.
fn draw_entries(layer: &mut ContentBuilder, row: &[Diversion; 4], y: Fixed)
    requires
        old(layer).wf(),
        0 <= y <= DEPTH_LIMIT,
    ensures
        drew(*old(layer), *final(layer), entries_ops(row_view(*row), y as int, old(layer).size())),
{
    let ghost page = layer.size();
    let left_start: Fixed = MARGIN_SIDE;
    column_line(layer, y, left_start, &row[0]);
    column_line(layer, y, left_start + SHIFT, &row[1]);
    column_line(layer, y, left_start + SHIFT + SHIFT, &row[2]);
    column_line(layer, y, left_start + SHIFT + SHIFT + SHIFT, &row[3]);
    assert(layer@ =~= old(layer)@ + entries_ops(row_view(*row), y as int, page));
}

/// Draws the row of entries at place `n`.
fn draw_entry_row(layer: &mut ContentBuilder, row: &[Diversion; 4], n: usize)
    requires
        old(layer).wf(),
    ensures
        drew(
            *old(layer),
            *final(layer),
            entry_row_ops(row_view(*row), n as int, old(layer).size()),
        ),
{
    let ghost page = layer.size();
    let y: Fixed = MARGIN_TOP + (n as i128) * 7_0000000;
    if n % 2 == 0 {
        draw_shade(layer, y);
    }
    let ghost shaded = *layer;
    let ghost shade = if n % 2 == 0 {
        shade_ops(y as int, page)
    } else {
        Seq::<OpView>::empty()
    };
    assert(drew(*old(layer), shaded, shade)) by {
        assert(shaded@ =~= old(layer)@ + shade);
    }
    draw_entries(layer, row, y);
    proof {
        drew_both(*old(layer), shaded, *layer, shade, entries_ops(row_view(*row), y as int, page));
    }
}

/// Begins the sheet: the page's first operators, the notice, and the line
/// that says what the sheet is for.
fn draw_opening(layer: &mut ContentBuilder, air_speed: i64, wind: &Velocity)
    requires
        old(layer).wf(),
    ensures
        drew(
            *old(layer),
            *final(layer),
            init_ops() + disclaimer_ops(old(layer).size()) + write_ops(
                details_text(air_speed as int, wind@),
                (MARGIN_SIDE as int, 20_0000000),
                FontStyle::Bold,
                FONT_SIZE as int,
                old(layer).size(),
            ),
        ),
{
    let ghost page = layer.size();
    init_page(layer);
    disclaimer(layer);
    let details = details_of(air_speed, wind);
    let font: Font = (FontStyle::Bold, FONT_SIZE);
    crate::draw_utils::write(layer, details.as_str(), (MARGIN_SIDE, 20_0000000), &font);
    assert(layer@ =~= old(layer)@ + (init_ops() + disclaimer_ops(page) + write_ops(
        details_text(air_speed as int, wind@),
        (MARGIN_SIDE as int, 20_0000000),
        FontStyle::Bold,
        FONT_SIZE as int,
        page,
    )));
}

/// Draws the diversion sheet for one wind on a page, from the solutions of
/// its wind triangles in the order of `diversion_triangles`.
pub fn create_wind_table(
    builder: &mut PDFPageBuilder,
    air_speed: i64,
    variation: Degree,
    wind: &Velocity,
    solved: &[Triangle],
)
    requires
        old(builder).layer.wf(),
        solved@.len() == 4 * ROWS,
    ensures
        final(builder).page_dict == old(builder).page_dict,
        drew(
            old(builder).layer,
            final(builder).layer,
            wind_table_ops(
                air_speed as int,
                variation@,
                wind@,
                solved@,
                old(builder).layer.size(),
            ),
        ),
{
    let ghost page = builder.layer.size();
    let rows = calc_diversions(variation, solved);
    let layer = builder.content_builder();
    let ghost start = *layer;
    draw_opening(layer, air_speed, wind);
    let ghost opened = *layer;
    let ghost head = init_ops() + disclaimer_ops(page) + write_ops(
        details_text(air_speed as int, wind@),
        (MARGIN_SIDE as int, 20_0000000),
        FontStyle::Bold,
        FONT_SIZE as int,
        page,
    );
    let mut count: usize = 0;
    assert(layer@ =~= opened@ + entry_rows_ops(variation@, solved@, page, 0));
    while count < rows.len()
        invariant
            count <= rows.len(),
            rows@.len() == ROWS,
            forall|n: int|
                0 <= n < ROWS ==> row_view(#[trigger] rows@[n]) == row_of(
                    variation@,
                    solved@,
                    n,
                ),
            layer.wf(),
            page == opened.size(),
            page == layer.size(),
            drew(opened, *layer, entry_rows_ops(variation@, solved@, page, count as nat)),
        decreases rows.len() - count,
    {
        let ghost before = *layer;
        draw_entry_row(layer, &rows[count], count);
        proof {
            drew_both(
                opened,
                before,
                *layer,
                entry_rows_ops(variation@, solved@, page, count as nat),
                entry_row_ops(row_of(variation@, solved@, count as int), count as int, page),
            );
        }
        count += 1;
    }
    let ghost rowed = *layer;
    let speeds = speeds_of_table();
    let distances = distances_of_table();
    proof {
        table_of_sheet_is_ok();
        drew_both(start, opened, rowed, head, entry_rows_ops(variation@, solved@, page, ROWS as nat));
    }
    dist_time(layer, speeds.as_slice(), distances.as_slice());
    proof {
        reveal(wind_table_ops);
        drew_both(
            start,
            rowed,
            *layer,
            head + entry_rows_ops(variation@, solved@, page, ROWS as nat),
            dist_time_ops(table_speeds(), table_distances(), page),
        );
    }
}

} // verus!
