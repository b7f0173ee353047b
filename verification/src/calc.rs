//! Bearings, velocities and the heading that answers a wind triangle.

use crate::definition::Velocity as PlanVelocity;
use crate::fixed::{from_int, round, rounded, Fixed, ONE};
use crate::text::{decimal, padded, padded_text};
use vstd::prelude::*;

verus! {

/// The count of a full turn, 360 degrees.
pub const FULL_TURN: i128 = 3_600_000_000;

/// The count of half a turn, 180 degrees.
pub const HALF_TURN: i128 = 1_800_000_000;

/// The bearing in `[0, 360)` degrees that points the same way as `x`.
pub open spec fn normalize(x: int) -> int {
    x % (FULL_TURN as int)
}

/// The bearing that points the opposite way.
pub open spec fn reciprocal_of(x: int) -> int {
    normalize(x + HALF_TURN)
}

/// A bearing as it is read out: the nearest whole degree, in three digits.
pub open spec fn heading_text(x: int) -> Seq<char> {
    padded(decimal(rounded(x) as nat), 3)
}

/// Brings any angle into `[0, 360)` degrees.
pub fn rationalise_degree(degree: Fixed) -> (r: Fixed)
    ensures
        r == normalize(degree as int),
        0 <= r < FULL_TURN,
{
    let clamped: i128 = degree % FULL_TURN;
    if clamped < 0 {
        FULL_TURN + clamped
    } else {
        clamped
    }
}

/// A bearing, always at least 0 and below 360 degrees.
#[derive(Clone, Copy, Debug, PartialEq, Eq, Structural)]
pub struct Degree {
    degrees: Fixed,
}

impl View for Degree {
    type V = int;

    /// The bearing as a count of ten-millionths of a degree.
    closed spec fn view(&self) -> int {
        self.degrees as int
    }
}

impl Degree {
    #[verifier::type_invariant]
    spec fn within_turn(self) -> bool {
        0 <= self.degrees < FULL_TURN
    }

    /// The bearing that points the same way as the given angle.
    pub fn new(degrees: Fixed) -> (d: Self)
        ensures
            d@ == normalize(degrees as int),
    {
        Degree { degrees: rationalise_degree(degrees) }
    }

    /// The bearing as a count of ten-millionths of a degree.
    pub fn degrees(&self) -> (r: Fixed)
        ensures
            r == self@,
            0 <= r < FULL_TURN,
    {
        proof {
            use_type_invariant(self);
        }
        self.degrees
    }

    /// The bearing that points the opposite way.
    pub fn reciprocal(&self) -> (d: Self)
        ensures
            d@ == reciprocal_of(self@),
    {
        proof {
            use_type_invariant(self);
        }
        Degree::new(self.degrees + HALF_TURN)
    }

    /// Turns this bearing further by `rhs`.
    pub fn add_assign(&mut self, rhs: Degree)
        ensures
            final(self)@ == normalize(old(self)@ + rhs@),
    {
        let sum = *self + rhs;
        *self = sum;
    }

    /// The bearing as it is read out: rounded to the nearest whole degree and
    /// written in three digits.
    pub fn as_heading(&self) -> (s: String)
        ensures
            s@ == heading_text(self@),
            s@.len() == 3,
    {
        proof {
            use_type_invariant(self);
            heading_text_has_three_characters(self@);
        }
        let whole: i128 = round(self.degrees);
        padded_text(whole as u128, 3)
    }
}

impl core::ops::Add for Degree {
    type Output = Degree;

    /// The bearing turned further by `rhs`.
    fn add(self, rhs: Degree) -> (d: Degree)
        ensures
            d@ == normalize(self@ + rhs@),
    {
        proof {
            use_type_invariant(self);
            use_type_invariant(rhs);
        }
        Degree::new(self.degrees + rhs.degrees)
    }
}

impl vstd::std_specs::ops::AddSpecImpl for Degree {
    open spec fn obeys_add_spec() -> bool {
        true
    }

    open spec fn add_req(self, rhs: Degree) -> bool {
        true
    }

    closed spec fn add_spec(self, rhs: Degree) -> Degree {
        Degree { degrees: normalize(self@ + rhs@) as i128 }
    }
}

impl core::ops::Sub for Degree {
    type Output = Degree;

    /// The bearing turned back by `rhs`.
    fn sub(self, rhs: Degree) -> (d: Degree)
        ensures
            d@ == normalize(self@ - rhs@),
    {
        proof {
            use_type_invariant(self);
            use_type_invariant(rhs);
        }
        Degree::new(self.degrees - rhs.degrees)
    }
}

impl vstd::std_specs::ops::SubSpecImpl for Degree {
    open spec fn obeys_sub_spec() -> bool {
        true
    }

    open spec fn sub_req(self, rhs: Degree) -> bool {
        true
    }

    closed spec fn sub_spec(self, rhs: Degree) -> Degree {
        Degree { degrees: normalize(self@ - rhs@) as i128 }
    }
}

/// A speed along a bearing. For wind, the bearing is the one that the air
/// moves towards.
#[derive(Clone, Copy, Debug)]
pub struct Velocity {
    pub speed: i64,
    pub bearing: Degree,
}

/// What a velocity stands for: its speed and its bearing as numbers.
pub struct VelocityModel {
    pub speed: int,
    pub bearing: int,
}

impl View for Velocity {
    type V = VelocityModel;

    open spec fn view(&self) -> VelocityModel {
        VelocityModel { speed: self.speed as int, bearing: self.bearing@ }
    }
}

/// The wind as the planner uses it, from the wind as it is reported: the
/// reported direction is the one that the wind comes from.
pub open spec fn wind_of(velocity: PlanVelocity) -> VelocityModel {
    VelocityModel {
        speed: velocity.speed as int,
        bearing: reciprocal_of(normalize(velocity.angle * ONE)),
    }
}

/// The wind as the planner uses it, from the wind as it is reported: the
/// reported direction is the one that the wind comes from.
pub fn convert_velocity(velocity: &PlanVelocity) -> (v: Velocity)
    ensures
        v@ == wind_of(*velocity),
{
    let bearing = Degree::new(from_int(velocity.angle)).reciprocal();
    Velocity { bearing, speed: velocity.speed }
}

/// A wind triangle to be solved: the speed through the air, the track to be
/// made good over the ground, and the wind.
#[derive(Clone, Copy, Debug)]
pub struct WindTriangle {
    pub air_speed: i64,
    pub track: Degree,
    pub wind: Velocity,
}

/// What a wind triangle stands for, as numbers.
pub struct WindTriangleModel {
    pub air_speed: int,
    pub track: int,
    pub wind: VelocityModel,
}

impl View for WindTriangle {
    type V = WindTriangleModel;

    open spec fn view(&self) -> WindTriangleModel {
        WindTriangleModel {
            air_speed: self.air_speed as int,
            track: self.track@,
            wind: self.wind@,
        }
    }
}

/// What each wind triangle of a list stands for.
pub open spec fn triangles_view(triangles: Seq<WindTriangle>) -> Seq<WindTriangleModel> {
    Seq::new(triangles.len(), |i: int| triangles[i]@)
}

/// What solving a wind triangle gave.
#[derive(Clone, Copy, Debug, PartialEq, Eq, Structural)]
pub enum Triangle {
    /// The triangle closes: the speed over the ground, in ten-millionths of a
    /// knot, and the angle to turn into the wind, in ten-millionths of a
    /// degree.
    Solved { ground_speed: Fixed, correction: Fixed },
    /// The wind across the track is stronger than the aircraft is fast.
    Unsolvable,
}

/// The heading to fly along one track.
#[derive(Clone, Copy, Debug)]
pub struct Heading {
    pub destination_bearing: Degree,
    pub speed_overground: Fixed,
    pub correction_angle: Degree,
    pub heading: Degree,
    pub heading_magnetic: Degree,
}

/// The heading that a solved triangle gives along `track` with the given
/// magnetic variation.
pub open spec fn heading_of(track: int, variation: int, ground_speed: int, correction: int) -> (
    int,
    int,
    int,
    int,
    int,
) {
    let turn = normalize(correction);
    let heading = normalize(turn + track);
    (track, ground_speed, turn, heading, normalize(heading + variation))
}

/// The parts of a heading, in the order of its fields.
pub open spec fn heading_parts(h: Heading) -> (int, int, int, int, int) {
    (
        h.destination_bearing@,
        h.speed_overground as int,
        h.correction_angle@,
        h.heading@,
        h.heading_magnetic@,
    )
}

/// The heading to fly: the track turned by the correction angle gives the
/// true heading, and that turned by the variation gives the magnetic one.
/// There is none where the triangle has no solution.
pub fn calc_aircraft(destination_bearing: Degree, variation: Degree, triangle: &Triangle) -> (r:
    Option<Heading>)
    ensures
        match *triangle {
            Triangle::Solved { ground_speed, correction } => r.is_some() && heading_parts(
                r.unwrap(),
            ) == heading_of(
                destination_bearing@,
                variation@,
                ground_speed as int,
                correction as int,
            ),
            Triangle::Unsolvable => r.is_none(),
        },
{
    match *triangle {
        Triangle::Solved { ground_speed, correction } => {
            let correction_angle = Degree::new(correction);
            let heading = correction_angle + destination_bearing;
            let heading_magnetic = heading + variation;
            Some(
                Heading {
                    destination_bearing,
                    speed_overground: ground_speed,
                    correction_angle,
                    heading,
                    heading_magnetic,
                },
            )
        },
        Triangle::Unsolvable => None,
    }
}

/// Every angle has a bearing in `[0, 360)`, and a bearing is its own bearing.
pub proof fn normalize_is_idempotent(x: int)
    ensures
        0 <= normalize(x) < FULL_TURN,
        normalize(normalize(x)) == normalize(x),
{
}

/// Turning about twice gives back the bearing of the angle one started from.
pub proof fn reciprocal_twice_is_normalize(x: int)
    ensures
        reciprocal_of(reciprocal_of(x)) == normalize(x),
{
    let t = FULL_TURN as int;
    let a = x + HALF_TURN;
    assert((a % t + HALF_TURN) % t == x % t) by {
        vstd::arithmetic::div_mod::lemma_fundamental_div_mod(a, t);
        let q = a / t;
        assert(a % t + HALF_TURN == x + t - t * q);
        vstd::arithmetic::div_mod::lemma_mod_multiples_vanish(1 - q, x, t);
        assert(t * (1 - q) + x == x + t - t * q) by (nonlinear_arith);
    }
}

/// A bearing is read out in exactly three characters.
pub proof fn heading_text_has_three_characters(x: int)
    requires
        0 <= x < FULL_TURN,
    ensures
        heading_text(x).len() == 3,
{
    let n = rounded(x) as nat;
    assert(0 <= rounded(x) <= 360);
    reveal_with_fuel(decimal, 3);
    assert(decimal(n).len() <= 3);
}

} // verus!
