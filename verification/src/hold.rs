//! The sheet for a holding pattern: the racetrack round the beacon, the
//! sectors of entry, and the headings and times to fly.

use crate::calc::{
    calc_aircraft, convert_velocity, heading_of, heading_text, normalize, reciprocal_of,
    reciprocal_twice_is_normalize, triangles_view, wind_of, Degree, Triangle, Velocity,
    WindTriangle, WindTriangleModel,
};
use crate::definition::Hold as HoldDef;
use crate::diversion::{clamp_i64, clamped_i64, truncated_div};
use crate::draw_utils::{disclaimer, disclaimer_ops, write_ops, Font};
use crate::fixed::{abs_u128, from_int, magnitude, round, rounded, Coord, Fixed, ONE};
use crate::pdf::builder::PDFPageBuilder;
use crate::pdf::content::{
    drew, drew_both, init_ops, init_page, length, placed, ContentBuilder,
};
use crate::pdf::object::{point, FontStyle, OpView, Point};
use crate::text::{decimal, int_text, padded, push_char, push_decimal, push_int, push_padded, push_text};
use vstd::prelude::*;

verus! {

/// The radius of the turns, in millimetres before the sheet is scaled.
pub const SCALE: Fixed = 10_0000000;

/// The length of the straight legs.
pub const LINE_LENGTH: Fixed = 34_0000000;

/// Where a quarter of a circle of the turns' radius ends, measured along
/// the axis it ends on.
pub const A: Fixed = 10_0005519;

/// The shorter offset of the control points of a quarter of a circle.
pub const B: Fixed = 5_5342686;

/// The longer offset of the control points of a quarter of a circle.
pub const C_K: Fixed = 9_9873585;

/// Where the beacon stands on the page, from the left edge.
pub const BX: Fixed = 40_0000000;

/// Where the beacon stands on the page, from the top edge.
pub const BY: Fixed = 110_0000000;

/// The width that lines are stroked in: half a point.
pub const LW: Fixed = 0_1763889;

/// Largest coordinate round the beacon that is put on the page.
pub const LOCAL_LIMIT: Fixed = 1000_0000000;

/// A place on the page from a place round the beacon: the sheet shows the
/// pattern twice as large, with the beacon's north up the page.
pub open spec fn local(lx: int, ly: int) -> Point {
    (BX + lx * 2, BY - ly * 2)
}

/// A place on the page from a place round the beacon.
pub fn lp(lx: Fixed, ly: Fixed) -> (p: Coord)
    requires
        -LOCAL_LIMIT <= lx <= LOCAL_LIMIT,
        -LOCAL_LIMIT <= ly <= LOCAL_LIMIT,
    ensures
        point(p) == local(lx as int, ly as int),
        crate::pdf::content::point_ok(point(p)),
{
    (BX + lx * 2, BY - ly * 2)
}

/// A place round the beacon as the page has it.
pub open spec fn at(lx: int, ly: int, page: Point) -> Point {
    placed(local(lx, ly), page)
}

/// The racetrack: two half circles, each of two quarters drawn as cubic
/// curves, joined by two straight legs. `oy` says on which side of the
/// inbound track the pattern lies.
pub open spec fn racetrack_ops(oy: int, page: Point) -> Seq<OpView> {
    let ox = LINE_LENGTH as int;
    seq![
        OpView::q,
        OpView::w(length(LW as int)),
        OpView::m(at(ox, A + oy, page)),
        OpView::c {
            ctrl1: at(B + ox, C_K + oy, page),
            ctrl2: at(C_K + ox, B + oy, page),
            end: at(A + ox, oy, page),
        },
        OpView::c {
            ctrl1: at(C_K + ox, -B + oy, page),
            ctrl2: at(B + ox, -C_K + oy, page),
            end: at(ox, -A + oy, page),
        },
        OpView::l(at(0, -A + oy, page)),
        OpView::c {
            ctrl1: at(-B, -A + oy, page),
            ctrl2: at(-C_K, -B + oy, page),
            end: at(-A, oy, page),
        },
        OpView::c {
            ctrl1: at(-A, B + oy, page),
            ctrl2: at(-B, C_K + oy, page),
            end: at(0, A + oy, page),
        },
        OpView::l(at(ox, A + oy, page)),
        OpView::h,
        OpView::S,
        OpView::Q,
    ]
}

/// Draws the racetrack.
fn draw_racetrack(layer: &mut ContentBuilder, oy: Fixed)
    requires
        old(layer).wf(),
        oy == SCALE || oy == -SCALE,
    ensures
        drew(*old(layer), *final(layer), racetrack_ops(oy as int, old(layer).size())),
{
    let ox: Fixed = LINE_LENGTH;
    layer.save_graphics_state();
    layer.line_width(LW);
    layer.begin_subpath(lp(ox, A + oy));
    layer.curve_to(lp(B + ox, C_K + oy), lp(C_K + ox, B + oy), lp(A + ox, oy));
    layer.curve_to(lp(C_K + ox, -B + oy), lp(B + ox, -C_K + oy), lp(ox, -A + oy));
    layer.line(lp(0, -A + oy));
    layer.curve_to(lp(-B, -A + oy), lp(-C_K, -B + oy), lp(-A, oy));
    layer.curve_to(lp(-A, B + oy), lp(-B, C_K + oy), lp(0, A + oy));
    layer.line(lp(ox, A + oy));
    layer.close_path();
    layer.stroke_path();
    layer.restore_graphics_state();
    assert(layer@ =~= old(layer)@ + racetrack_ops(oy as int, old(layer).size()));
}

/// Half the side of the square that marks the beacon.
pub const BEACON: Fixed = 1_2500000;

/// The beacon: a small square round the place it stands at.
pub open spec fn beacon_ops(page: Point) -> Seq<OpView> {
    seq![
        OpView::q,
        OpView::w(length(LW as int)),
        OpView::m(at(BEACON as int, BEACON as int, page)),
        OpView::l(at(BEACON as int, -BEACON, page)),
        OpView::l(at(-BEACON, -BEACON, page)),
        OpView::l(at(-BEACON, BEACON as int, page)),
        OpView::h,
        OpView::S,
        OpView::Q,
    ]
}

/// Draws the beacon.
fn draw_beacon(layer: &mut ContentBuilder)
    requires
        old(layer).wf(),
    ensures
        drew(*old(layer), *final(layer), beacon_ops(old(layer).size())),
{
    layer.save_graphics_state();
    layer.line_width(LW);
    layer.begin_subpath(lp(BEACON, BEACON));
    layer.line(lp(BEACON, -BEACON));
    layer.line(lp(-BEACON, -BEACON));
    layer.line(lp(-BEACON, BEACON));
    layer.close_path();
    layer.stroke_path();
    layer.restore_graphics_state();
    assert(layer@ =~= old(layer)@ + beacon_ops(old(layer).size()));
}

/// A stroked line between two places round the beacon.
pub open spec fn stroke_ops(from: Point, to: Point, page: Point) -> Seq<OpView> {
    seq![
        OpView::q,
        OpView::w(length(LW as int)),
        OpView::m(at(from.0, from.1, page)),
        OpView::l(at(to.0, to.1, page)),
        OpView::S,
        OpView::Q,
    ]
}

/// Strokes a line between two places round the beacon.
fn draw_stroke(layer: &mut ContentBuilder, from: Coord, to: Coord)
    requires
        old(layer).wf(),
        -LOCAL_LIMIT <= from.0 <= LOCAL_LIMIT,
        -LOCAL_LIMIT <= from.1 <= LOCAL_LIMIT,
        -LOCAL_LIMIT <= to.0 <= LOCAL_LIMIT,
        -LOCAL_LIMIT <= to.1 <= LOCAL_LIMIT,
    ensures
        drew(*old(layer), *final(layer), stroke_ops(point(from), point(to), old(layer).size())),
{
    layer.save_graphics_state();
    layer.line_width(LW);
    layer.begin_subpath(lp(from.0, from.1));
    layer.line(lp(to.0, to.1));
    layer.stroke_path();
    layer.restore_graphics_state();
    assert(layer@ =~= old(layer)@ + stroke_ops(point(from), point(to), old(layer).size()));
}

/// The inbound track: a line through the beacon, from 15 mm behind it to
/// one and a half leg lengths ahead.
pub open spec fn inbound_line_ops(page: Point) -> Seq<OpView> {
    stroke_ops((-15_0000000, 0), (51_0000000, 0), page)
}

/// The two ends of the line that parts the sector of offset entries from
/// the sector of parallel entries.
pub open spec fn divide_ends(right_hand: bool) -> (Point, Point) {
    if right_hand {
        ((-6_8000000, -18_7000000), (11_3333333, 31_1666667))
    } else {
        ((11_3333333, -31_1666667), (-6_8000000, 18_7000000))
    }
}

/// The far end of the line for gate entries, 30 degrees off the
/// inbound track.
pub open spec fn gate_end(right_hand: bool) -> Point {
    if right_hand {
        (40_8000000, 23_5416000)
    } else {
        (40_8000000, -23_5416000)
    }
}

/// The two ends of the tick 10 degrees off the inbound track.
pub open spec fn tick_ends(right_hand: bool) -> (Point, Point) {
    if right_hand {
        ((42_5000000, 7_4800000), (44_8800000, 7_8988800))
    } else {
        ((42_5000000, -7_4800000), (44_8800000, -7_8988800))
    }
}

/// The drawing of the pattern: racetrack, beacon, inbound track, and the
/// lines that part the sectors of entry.
pub open spec fn pattern_ops(right_hand: bool, page: Point) -> Seq<OpView> {
    let oy = if right_hand {
        SCALE as int
    } else {
        -SCALE
    };
    racetrack_ops(oy, page) + beacon_ops(page) + inbound_line_ops(page) + stroke_ops(
        divide_ends(right_hand).0,
        divide_ends(right_hand).1,
        page,
    ) + stroke_ops((0, 0), gate_end(right_hand), page) + stroke_ops(
        tick_ends(right_hand).0,
        tick_ends(right_hand).1,
        page,
    )
}

/// Draws the inbound track.
fn draw_inbound_line(layer: &mut ContentBuilder)
    requires
        old(layer).wf(),
    ensures
        drew(*old(layer), *final(layer), inbound_line_ops(old(layer).size())),
{
    draw_stroke(layer, (-15_0000000, 0), (51_0000000, 0));
}

/// Draws the line that parts the sector of offset entries from the sector
/// of parallel entries.
fn draw_divide_line(layer: &mut ContentBuilder, right_hand: bool)
    requires
        old(layer).wf(),
    ensures
        drew(
            *old(layer),
            *final(layer),
            stroke_ops(divide_ends(right_hand).0, divide_ends(right_hand).1, old(layer).size()),
        ),
{
    if right_hand {
        draw_stroke(layer, (-6_8000000, -18_7000000), (11_3333333, 31_1666667));
    } else {
        draw_stroke(layer, (11_3333333, -31_1666667), (-6_8000000, 18_7000000));
    }
}

/// Draws the line for gate entries.
fn draw_gate_line(layer: &mut ContentBuilder, right_hand: bool)
    requires
        old(layer).wf(),
    ensures
        drew(
            *old(layer),
            *final(layer),
            stroke_ops((0, 0), gate_end(right_hand), old(layer).size()),
        ),
{
    let flip: Fixed = if right_hand {
        1
    } else {
        -1
    };
    draw_stroke(layer, (0, 0), (40_8000000, flip * 23_5416000));
}

/// Draws the tick 10 degrees off the inbound track.
fn draw_ten_deg_tick(layer: &mut ContentBuilder, right_hand: bool)
    requires
        old(layer).wf(),
    ensures
        drew(
            *old(layer),
            *final(layer),
            stroke_ops(tick_ends(right_hand).0, tick_ends(right_hand).1, old(layer).size()),
        ),
{
    let flip: Fixed = if right_hand {
        1
    } else {
        -1
    };
    draw_stroke(layer, (42_5000000, flip * 7_4800000), (44_8800000, flip * 7_8988800));
}

/// Draws the pattern.
fn draw_pattern(layer: &mut ContentBuilder, right_hand: bool)
    requires
        old(layer).wf(),
    ensures
        drew(*old(layer), *final(layer), pattern_ops(right_hand, old(layer).size())),
{
    let oy: Fixed = if right_hand {
        SCALE
    } else {
        -SCALE
    };
    let ghost page = layer.size();
    let ghost start = *layer;
    draw_racetrack(layer, oy);
    let ghost s1 = *layer;
    let ghost part1 = racetrack_ops(oy as int, page);
    draw_beacon(layer);
    let ghost s2 = *layer;
    let ghost part2 = part1 + beacon_ops(page);
    proof {
        drew_both(start, s1, s2, part1, beacon_ops(page));
    }
    draw_inbound_line(layer);
    let ghost s3 = *layer;
    let ghost part3 = part2 + inbound_line_ops(page);
    proof {
        drew_both(start, s2, s3, part2, inbound_line_ops(page));
    }
    draw_divide_line(layer, right_hand);
    let ghost s4 = *layer;
    let ghost divide = stroke_ops(divide_ends(right_hand).0, divide_ends(right_hand).1, page);
    let ghost part4 = part3 + divide;
    proof {
        drew_both(start, s3, s4, part3, divide);
    }
    draw_gate_line(layer, right_hand);
    let ghost s5 = *layer;
    let ghost gate = stroke_ops((0, 0), gate_end(right_hand), page);
    let ghost part5 = part4 + gate;
    proof {
        drew_both(start, s4, s5, part4, gate);
    }
    draw_ten_deg_tick(layer, right_hand);
    proof {
        drew_both(
            start,
            s5,
            *layer,
            part5,
            stroke_ops(tick_ends(right_hand).0, tick_ends(right_hand).1, page),
        );
    }
}

/// The solved wind triangles of a hold: along the inbound track, along the
/// outbound track, and along the track of a gate entry.
#[derive(Clone, Copy, Debug)]
pub struct HoldTriangles {
    pub inbound: Triangle,
    pub outbound: Triangle,
    pub gate: Triangle,
}

/// What stands in a label where there is no figure to show.
pub open spec fn placeholder() -> Seq<char> {
    "---"@
}

/// A time in seconds as minutes and seconds, the seconds in two digits.
pub open spec fn time_text(secs: int) -> Seq<char> {
    let s = magnitude(secs);
    decimal(s / 60) + seq![':'] + padded(decimal(s % 60), 2)
}

/// A time in seconds as minutes and seconds.
pub fn to_time(secs: i64) -> (text: String)
    ensures
        text@ == time_text(secs as int),
{
    let s: u128 = abs_u128(secs as i128);
    let mut text = String::new();
    push_decimal(&mut text, s / 60);
    push_char(&mut text, ':');
    push_padded(&mut text, s % 60, 2);
    assert(text@ =~= time_text(secs as int));
    text
}

/// The time for one leg of the pattern at a ground speed in ten-millionths
/// of a knot: sixty times the speed through the air over the ground speed,
/// cut to a whole number that 64 bits hold.
pub open spec fn leg_seconds(air_speed: int, ground_speed: int) -> int {
    clamped_i64(truncated_div(60 * air_speed * ONE, ground_speed))
}

/// The time for one leg of the pattern.
pub fn seconds_for(air_speed: i64, ground_speed: Fixed) -> (secs: i64)
    requires
        ground_speed > 0,
    ensures
        secs == leg_seconds(air_speed as int, ground_speed as int),
{
    let wide: i128 = air_speed as i128;
    assert(-600_000_000_000_000_000_000 <= 60 * wide <= 600_000_000_000_000_000_000);
    let n: i128 = 60 * wide * ONE;
    let m: u128 = abs_u128(n);
    let d: u128 = ground_speed as u128;
    let q: u128 = m / d;
    assert(q <= m) by (nonlinear_arith)
        requires
            q == m / d,
            d >= 1,
    ;
    if n >= 0 {
        clamp_i64(q as i128)
    } else {
        clamp_i64(-(q as i128))
    }
}

/// A label of the pattern: the track, the heading to fly in parentheses,
/// the ground speed in knots, and the time of the leg in brackets.
pub open spec fn label_text(
    track: int,
    heading: Seq<char>,
    speed: Seq<char>,
    time: Seq<char>,
) -> Seq<char> {
    heading_text(track) + " ("@ + heading + ") "@ + speed + "kt ["@ + time + "]"@
}

/// The ground speed and the time of a leg flown at a solved triangle's
/// ground speed, as a label shows them.
pub open spec fn speed_and_time(air_speed: int, ground_speed: int) -> (Seq<char>, Seq<char>) {
    (
        int_text(clamped_i64(rounded(ground_speed))),
        if ground_speed > 0 {
            time_text(leg_seconds(air_speed, ground_speed))
        } else {
            placeholder()
        },
    )
}

/// The label of a leg flown with the correction angle that its triangle
/// gives. Where the triangle has no solution the placeholder stands for
/// the heading, the ground speed and the time.
pub open spec fn inbound_label(air_speed: int, track: int, variation: int, t: Triangle) -> Seq<
    char,
> {
    match t {
        Triangle::Solved { ground_speed, correction } => if ground_speed >= 0 {
            let h = heading_of(track, variation, ground_speed as int, correction as int);
            let (speed, time) = speed_and_time(air_speed, ground_speed as int);
            label_text(track, heading_text(h.4), speed, time)
        } else {
            label_text(track, placeholder(), placeholder(), placeholder())
        },
        Triangle::Unsolvable => label_text(track, placeholder(), placeholder(), placeholder()),
    }
}

/// The magnetic heading of the outbound leg: the track turned by three
/// times the correction angle, and by the variation.
pub open spec fn outbound_heading(track: int, variation: int, correction: int) -> int {
    normalize(normalize(track + normalize(3 * normalize(correction))) + variation)
}

/// The label of the outbound leg, which is flown with three times the
/// correction angle that its triangle gives.
pub open spec fn outbound_label(air_speed: int, track: int, variation: int, t: Triangle) -> Seq<
    char,
> {
    match t {
        Triangle::Solved { ground_speed, correction } => if ground_speed >= 0 {
            let (speed, time) = speed_and_time(air_speed, ground_speed as int);
            label_text(
                track,
                heading_text(outbound_heading(track, variation, correction as int)),
                speed,
                time,
            )
        } else {
            label_text(track, placeholder(), placeholder(), placeholder())
        },
        Triangle::Unsolvable => label_text(track, placeholder(), placeholder(), placeholder()),
    }
}

/// Puts a label together.
fn label(track: Degree, heading: &str, speed: &str, time: &str) -> (text: String)
    ensures
        text@ == label_text(track@, heading@, speed@, time@),
{
    let mut text = track.as_heading();
    push_text(&mut text, " (");
    push_text(&mut text, heading);
    push_text(&mut text, ") ");
    push_text(&mut text, speed);
    push_text(&mut text, "kt [");
    push_text(&mut text, time);
    push_text(&mut text, "]");
    assert(text@ =~= label_text(track@, heading@, speed@, time@));
    text
}

/// The ground speed and the time of a leg as a label shows them.
fn speed_and_time_of(air_speed: i64, ground_speed: Fixed) -> (r: (String, String))
    requires
        ground_speed >= 0,
    ensures
        (r.0@, r.1@) == speed_and_time(air_speed as int, ground_speed as int),
{
    let mut speed = String::new();
    push_int(&mut speed, clamp_i64(round(ground_speed)) as i128);
    assert(speed@ =~= int_text(clamped_i64(rounded(ground_speed as int))));
    let time = if ground_speed > 0 {
        to_time(seconds_for(air_speed, ground_speed))
    } else {
        "---".to_owned()
    };
    (speed, time)
}

/// The label of a leg flown with the correction angle that its triangle
/// gives.
pub fn calc_inbound(air_speed: i64, track: Degree, variation: Degree, triangle: &Triangle) -> (text:
    String)
    ensures
        text@ == inbound_label(air_speed as int, track@, variation@, *triangle),
{
    match calc_aircraft(track, variation, triangle) {
        Some(result) => {
            if result.speed_overground >= 0 {
                let (speed, time) = speed_and_time_of(air_speed, result.speed_overground);
                let heading = result.heading_magnetic.as_heading();
                label(track, heading.as_str(), speed.as_str(), time.as_str())
            } else {
                label(track, "---", "---", "---")
            }
        },
        None => label(track, "---", "---", "---"),
    }
}

/// The label of the outbound leg.
pub fn calc_outbound(air_speed: i64, track: Degree, variation: Degree, triangle: &Triangle) -> (text:
    String)
    ensures
        text@ == outbound_label(air_speed as int, track@, variation@, *triangle),
{
    match calc_aircraft(track, variation, triangle) {
        Some(result) => {
            if result.speed_overground >= 0 {
                let (speed, time) = speed_and_time_of(air_speed, result.speed_overground);
                let triple_wca = Degree::new(result.correction_angle.degrees() * 3);
                let hdg_magnetic = track + triple_wca + variation;
                let heading = hdg_magnetic.as_heading();
                label(track, heading.as_str(), speed.as_str(), time.as_str())
            } else {
                label(track, "---", "---", "---")
            }
        },
        None => label(track, "---", "---", "---"),
    }
}

/// The wind of a hold: it blows towards the direction opposite to the one
/// it is reported from.
pub fn hold_wind(hold: &HoldDef) -> (wind: Velocity)
    ensures
        wind@ == wind_of(hold.wind),
{
    convert_velocity(&hold.wind)
}

/// The bearing of the inbound track of a hold.
pub open spec fn inbound_of(hold: HoldDef) -> int {
    normalize(hold.in_bound_track * ONE)
}

/// The track of a gate entry: 30 degrees off the inbound
/// track, on the side of the pattern, flown away from the beacon.
pub open spec fn gate_track_of(hold: HoldDef) -> int {
    if hold.right_hand {
        reciprocal_of(normalize(inbound_of(hold) - 30_0000000))
    } else {
        reciprocal_of(normalize(inbound_of(hold) + 30_0000000))
    }
}

/// The track of a gate entry.
pub fn gate_track(hold: &HoldDef) -> (track: Degree)
    ensures
        track@ == gate_track_of(*hold),
{
    let in_bound_track = Degree::new(from_int(hold.in_bound_track));
    if hold.right_hand {
        Degree::new(in_bound_track.degrees() - 30_0000000).reciprocal()
    } else {
        Degree::new(in_bound_track.degrees() + 30_0000000).reciprocal()
    }
}

/// The wind triangles of a hold: along the inbound track, along the
/// outbound track, and along the track of a gate entry.
pub open spec fn triangles_of(hold: HoldDef) -> Seq<WindTriangleModel> {
    let air_speed = hold.aircraft_speed as int;
    let wind = wind_of(hold.wind);
    seq![
        WindTriangleModel { air_speed, track: inbound_of(hold), wind },
        WindTriangleModel { air_speed, track: reciprocal_of(inbound_of(hold)), wind },
        WindTriangleModel { air_speed, track: gate_track_of(hold), wind },
    ]
}

/// The wind triangles of a hold: along the inbound track, along the
/// outbound track, and along the track of a gate entry.
pub fn hold_triangles(hold: &HoldDef) -> (queries: Vec<WindTriangle>)
    ensures
        triangles_view(queries@) == triangles_of(*hold),
{
    let wind = hold_wind(hold);
    let in_bound_track = Degree::new(from_int(hold.in_bound_track));
    let air_speed = hold.aircraft_speed;
    let mut queries: Vec<WindTriangle> = Vec::new();
    queries.push(WindTriangle { air_speed, track: in_bound_track, wind });
    queries.push(WindTriangle { air_speed, track: in_bound_track.reciprocal(), wind });
    queries.push(WindTriangle { air_speed, track: gate_track(hold), wind });
    assert(triangles_view(queries@) =~= triangles_of(*hold));
    queries
}

/// The size that the labels of the pattern are set in.
pub const LABEL_SIZE: Fixed = 7_0000000;

/// The size that the head of the sheet is set in.
pub const HEAD_SIZE: Fixed = 12_0000000;

/// The first line of the sheet: the wind as it was reported, and the speed
/// through the air.
pub open spec fn wind_line(hold: HoldDef) -> Seq<char> {
    "Wind: "@ + heading_text(normalize(hold.wind.angle * ONE)) + seq!['@'] + int_text(hold.wind.speed as int) + "kt  Speed: "@ + int_text(
        hold.aircraft_speed as int,
    ) + "kt"@
}

/// A label of the pattern, at a place round the beacon.
pub open spec fn label_ops(text: Seq<char>, lx: int, ly: int, page: Point) -> Seq<OpView> {
    write_ops(text, local(lx, ly), FontStyle::Normal, LABEL_SIZE as int, page)
}

/// A line of the head of the sheet.
pub open spec fn head_line_ops(text: Seq<char>, y: int, page: Point) -> Seq<OpView> {
    write_ops(text, (5_0000000, y), FontStyle::Normal, HEAD_SIZE as int, page)
}

/// The one of two numbers that belongs to the side of the pattern.
pub open spec fn side(right_hand: bool, right: int, left: int) -> int {
    if right_hand {
        right
    } else {
        left
    }
}

/// The head of the sheet and the labels of the three legs: inbound,
/// outbound, and gate entry.
pub open spec fn legs_ops(hold: HoldDef, solved: HoldTriangles, page: Point) -> Seq<OpView> {
    let track = inbound_of(hold);
    let variation = normalize(hold.variation * ONE);
    let air_speed = hold.aircraft_speed as int;
    let rh = hold.right_hand;
    head_line_ops(wind_line(hold), 25_0000000, page) + head_line_ops(
        hold.description@,
        35_0000000,
        page,
    ) + label_ops(
        inbound_label(air_speed, track, variation, solved.inbound),
        8_9473684,
        1_0000000,
        page,
    ) + label_ops(
        outbound_label(air_speed, reciprocal_of(track), variation, solved.outbound),
        8_9473684,
        side(rh, 21_0000000, -22_5000000),
        page,
    ) + label_ops(
        inbound_label(air_speed, gate_track_of(hold), variation, solved.gate),
        27_2000000,
        side(rh, 26_0000000, -26_5000000),
        page,
    )
}

/// The bearings that bound the sectors of entry, and the names of the
/// sectors.
pub open spec fn sectors_ops(hold: HoldDef, page: Point) -> Seq<OpView> {
    let track = inbound_of(hold);
    let rh = hold.right_hand;
    let ten = normalize(track + side(rh, -60_0000000, 60_0000000));
    let divide = normalize(track + side(rh, -70_0000000, 70_0000000));
    label_ops(heading_text(ten), 45_9000000, side(rh, 7_0000000, -8_5000000), page) + label_ops(
        heading_text(reciprocal_of(track)),
        -15_0000000,
        1_0000000,
        page,
    ) + label_ops(
        heading_text(reciprocal_of(divide)),
        -10_0000000,
        side(rh, -21_0000000, 20_0000000),
        page,
    ) + label_ops(heading_text(divide), 10_0000000, side(rh, 32_0000000, -35_0000000), page)
        + label_ops("OE"@, -15_0000000, side(rh, -10_0000000, 10_0000000), page) + label_ops(
        "PE"@,
        -15_0000000,
        side(rh, 20_0000000, -20_0000000),
        page,
    ) + label_ops("DE"@, 34_0000000, side(rh, 30_0000000, -30_0000000), page) + label_ops(
        "DE"@,
        17_0000000,
        side(rh, -15_0000000, 15_0000000),
        page,
    )
}

/// The sheet for a holding pattern, as the operators of its page.
#[verifier::opaque]
pub open spec fn hold_ops(hold: HoldDef, solved: HoldTriangles, page: Point) -> Seq<OpView> {
    init_ops() + disclaimer_ops(page) + pattern_ops(hold.right_hand, page) + legs_ops(
        hold,
        solved,
        page,
    ) + sectors_ops(hold, page)
}

/// The first line of the sheet.
fn wind_line_of(hold: &HoldDef) -> (text: String)
    ensures
        text@ == wind_line(*hold),
{
    let wind = hold_wind(hold);
    let wind_dir = wind.bearing.reciprocal();
    let mut text = String::new();
    push_text(&mut text, "Wind: ");
    let heading = wind_dir.as_heading();
    push_text(&mut text, heading.as_str());
    push_char(&mut text, '@');
    push_int(&mut text, hold.wind.speed as i128);
    push_text(&mut text, "kt  Speed: ");
    push_int(&mut text, hold.aircraft_speed as i128);
    push_text(&mut text, "kt");
    proof {
        reciprocal_twice_is_normalize(normalize(hold.wind.angle * ONE));
    }
    assert(text@ =~= wind_line(*hold));
    text
}

/// Shows a label of the pattern at a place round the beacon.
fn draw_label(layer: &mut ContentBuilder, text: &str, lx: Fixed, ly: Fixed)
    requires
        old(layer).wf(),
        -LOCAL_LIMIT <= lx <= LOCAL_LIMIT,
        -LOCAL_LIMIT <= ly <= LOCAL_LIMIT,
    ensures
        drew(
            *old(layer),
            *final(layer),
            label_ops(text@, lx as int, ly as int, old(layer).size()),
        ),
{
    let font: Font = (FontStyle::Normal, LABEL_SIZE);
    crate::draw_utils::write(layer, text, lp(lx, ly), &font);
}

/// Shows a line of the head of the sheet.
fn draw_head_line(layer: &mut ContentBuilder, text: &str, y: Fixed)
    requires
        old(layer).wf(),
        0 <= y <= LOCAL_LIMIT,
    ensures
        drew(*old(layer), *final(layer), head_line_ops(text@, y as int, old(layer).size())),
{
    let font: Font = (FontStyle::Normal, HEAD_SIZE);
    crate::draw_utils::write(layer, text, (5_0000000, y), &font);
}

/// The one of two numbers that belongs to the side of the pattern.
fn side_of(right_hand: bool, right: Fixed, left: Fixed) -> (r: Fixed)
    ensures
        r == side(right_hand, right as int, left as int),
{
    if right_hand {
        right
    } else {
        left
    }
}

/// Shows the head of the sheet and the labels of the three legs.
fn draw_legs(layer: &mut ContentBuilder, hold: &HoldDef, solved: &HoldTriangles)
    requires
        old(layer).wf(),
    ensures
        drew(*old(layer), *final(layer), legs_ops(*hold, *solved, old(layer).size())),
{
    let ghost page = layer.size();
    let ghost start = *layer;
    let rh = hold.right_hand;
    let in_bound_track = Degree::new(from_int(hold.in_bound_track));
    let variation = Degree::new(from_int(hold.variation));
    let air_speed = hold.aircraft_speed;

    let text = wind_line_of(hold);
    draw_head_line(layer, text.as_str(), 25_0000000);
    let ghost s1 = *layer;
    let ghost part1 = head_line_ops(wind_line(*hold), 25_0000000, page);

    draw_head_line(layer, hold.description.as_str(), 35_0000000);
    let ghost s2 = *layer;
    let ghost d2 = head_line_ops(hold.description@, 35_0000000, page);
    proof {
        drew_both(start, s1, s2, part1, d2);
    }

    let text = calc_inbound(air_speed, in_bound_track, variation, &solved.inbound);
    draw_label(layer, text.as_str(), 8_9473684, 1_0000000);
    let ghost s3 = *layer;
    let ghost d3 = label_ops(text@, 8_9473684, 1_0000000, page);
    proof {
        drew_both(start, s2, s3, part1 + d2, d3);
    }

    let out_track = in_bound_track.reciprocal();
    let text = calc_outbound(air_speed, out_track, variation, &solved.outbound);
    let local_y = side_of(rh, 21_0000000, -22_5000000);
    draw_label(layer, text.as_str(), 8_9473684, local_y);
    let ghost s4 = *layer;
    let ghost d4 = label_ops(text@, 8_9473684, local_y as int, page);
    proof {
        drew_both(start, s3, s4, part1 + d2 + d3, d4);
    }

    let text = calc_inbound(air_speed, gate_track(hold), variation, &solved.gate);
    let local_y = side_of(rh, 26_0000000, -26_5000000);
    draw_label(layer, text.as_str(), 27_2000000, local_y);
    proof {
        drew_both(
            start,
            s4,
            *layer,
            part1 + d2 + d3 + d4,
            label_ops(text@, 27_2000000, local_y as int, page),
        );
    }
}

/// Shows the bearings that bound the sectors of entry.
fn draw_bounds(layer: &mut ContentBuilder, hold: &HoldDef)
    requires
        old(layer).wf(),
    ensures
        drew(
            *old(layer),
            *final(layer),
            ({
                let track = inbound_of(*hold);
                let rh = hold.right_hand;
                let page = old(layer).size();
                let ten = normalize(track + side(rh, -60_0000000, 60_0000000));
                let divide = normalize(track + side(rh, -70_0000000, 70_0000000));
                label_ops(heading_text(ten), 45_9000000, side(rh, 7_0000000, -8_5000000), page)
                    + label_ops(heading_text(reciprocal_of(track)), -15_0000000, 1_0000000, page)
                    + label_ops(
                    heading_text(reciprocal_of(divide)),
                    -10_0000000,
                    side(rh, -21_0000000, 20_0000000),
                    page,
                ) + label_ops(
                    heading_text(divide),
                    10_0000000,
                    side(rh, 32_0000000, -35_0000000),
                    page,
                )
            }),
        ),
{
    let ghost page = layer.size();
    let ghost start = *layer;
    let rh = hold.right_hand;
    let in_bound_track = Degree::new(from_int(hold.in_bound_track));

    let ten_deg = Degree::new(in_bound_track.degrees() + side_of(rh, -60_0000000, 60_0000000));
    let text = ten_deg.as_heading();
    let local_y = side_of(rh, 7_0000000, -8_5000000);
    draw_label(layer, text.as_str(), 45_9000000, local_y);
    let ghost s1 = *layer;
    let ghost part1 = label_ops(text@, 45_9000000, local_y as int, page);

    let out_bound = in_bound_track.reciprocal();
    let text = out_bound.as_heading();
    draw_label(layer, text.as_str(), -15_0000000, 1_0000000);
    let ghost s2 = *layer;
    let ghost d2 = label_ops(text@, -15_0000000, 1_0000000, page);
    proof {
        drew_both(start, s1, s2, part1, d2);
    }

    let adjust = side_of(rh, -70_0000000, 70_0000000);
    let div2 = Degree::new(in_bound_track.degrees() + adjust);
    let div1 = div2.reciprocal();
    let text = div1.as_heading();
    let ly1 = side_of(rh, -21_0000000, 20_0000000);
    draw_label(layer, text.as_str(), -10_0000000, ly1);
    let ghost s3 = *layer;
    let ghost d3 = label_ops(text@, -10_0000000, ly1 as int, page);
    proof {
        drew_both(start, s2, s3, part1 + d2, d3);
    }

    let text = div2.as_heading();
    let ly2 = side_of(rh, 32_0000000, -35_0000000);
    draw_label(layer, text.as_str(), 10_0000000, ly2);
    proof {
        drew_both(start, s3, *layer, part1 + d2 + d3, label_ops(text@, 10_0000000, ly2 as int, page));
    }
}

/// Shows the names of the sectors of entry.
fn draw_names(layer: &mut ContentBuilder, right_hand: bool)
    requires
        old(layer).wf(),
    ensures
        drew(
            *old(layer),
            *final(layer),
            ({
                let rh = right_hand;
                let page = old(layer).size();
                label_ops("OE"@, -15_0000000, side(rh, -10_0000000, 10_0000000), page) + label_ops(
                    "PE"@,
                    -15_0000000,
                    side(rh, 20_0000000, -20_0000000),
                    page,
                ) + label_ops("DE"@, 34_0000000, side(rh, 30_0000000, -30_0000000), page)
                    + label_ops("DE"@, 17_0000000, side(rh, -15_0000000, 15_0000000), page)
            }),
        ),
{
    let ghost page = layer.size();
    let ghost start = *layer;
    let rh = right_hand;
    let oe_ly = side_of(rh, -10_0000000, 10_0000000);
    let pe_ly = side_of(rh, 20_0000000, -20_0000000);
    let de1_ly = side_of(rh, 30_0000000, -30_0000000);
    let de2_ly = side_of(rh, -15_0000000, 15_0000000);
    draw_label(layer, "OE", -15_0000000, oe_ly);
    let ghost s1 = *layer;
    let ghost part1 = label_ops("OE"@, -15_0000000, oe_ly as int, page);
    draw_label(layer, "PE", -15_0000000, pe_ly);
    let ghost s2 = *layer;
    let ghost d2 = label_ops("PE"@, -15_0000000, pe_ly as int, page);
    proof {
        drew_both(start, s1, s2, part1, d2);
    }
    draw_label(layer, "DE", LINE_LENGTH, de1_ly);
    let ghost s3 = *layer;
    let ghost d3 = label_ops("DE"@, 34_0000000, de1_ly as int, page);
    proof {
        drew_both(start, s2, s3, part1 + d2, d3);
    }
    draw_label(layer, "DE", 17_0000000, de2_ly);
    proof {
        drew_both(start, s3, *layer, part1 + d2 + d3, label_ops("DE"@, 17_0000000, de2_ly as int, page));
    }
}

/// Shows the bearings that bound the sectors of entry, and the names of the
/// sectors.
fn draw_sectors(layer: &mut ContentBuilder, hold: &HoldDef)
    requires
        old(layer).wf(),
    ensures
        drew(*old(layer), *final(layer), sectors_ops(*hold, old(layer).size())),
{
    let ghost start = *layer;
    draw_bounds(layer, hold);
    draw_names(layer, hold.right_hand);
    assert(layer@ =~= start@ + sectors_ops(*hold, start.size()));
}

/// Shows the head of the sheet and all labels of the pattern.
fn draw_labels(layer: &mut ContentBuilder, hold: &HoldDef, solved: &HoldTriangles)
    requires
        old(layer).wf(),
    ensures
        drew(
            *old(layer),
            *final(layer),
            legs_ops(*hold, *solved, old(layer).size()) + sectors_ops(*hold, old(layer).size()),
        ),
{
    let ghost start = *layer;
    let ghost page = layer.size();
    draw_legs(layer, hold, solved);
    let ghost legged = *layer;
    draw_sectors(layer, hold);
    proof {
        drew_both(start, legged, *layer, legs_ops(*hold, *solved, page), sectors_ops(*hold, page));
    }
}

/// Draws the sheet for a holding pattern on a page.
pub fn create_hold(builder: &mut PDFPageBuilder, hold: &HoldDef, solved: &HoldTriangles)
    requires
        old(builder).layer.wf(),
    ensures
        final(builder).page_dict == old(builder).page_dict,
        drew(
            old(builder).layer,
            final(builder).layer,
            hold_ops(*hold, *solved, old(builder).layer.size()),
        ),
{
    let ghost page = builder.layer.size();
    let layer = builder.content_builder();
    let ghost start = *layer;
    init_page(layer);
    let ghost s1 = *layer;
    disclaimer(layer);
    let ghost s2 = *layer;
    proof {
        drew_both(start, s1, s2, init_ops(), disclaimer_ops(page));
    }
    draw_pattern(layer, hold.right_hand);
    let ghost s3 = *layer;
    proof {
        drew_both(
            start,
            s2,
            s3,
            init_ops() + disclaimer_ops(page),
            pattern_ops(hold.right_hand, page),
        );
    }
    draw_labels(layer, hold, solved);
    proof {
        reveal(hold_ops);
        let head = init_ops() + disclaimer_ops(page) + pattern_ops(hold.right_hand, page);
        let legs = legs_ops(*hold, *solved, page);
        let sectors = sectors_ops(*hold, page);
        drew_both(start, s3, *layer, head, legs + sectors);
        assert(head + (legs + sectors) =~= head + legs + sectors);
    }
}

} // verus!
