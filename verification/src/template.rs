//! A filled-in plan to start from.

use crate::definition::{Detail, Diversion, FontType, Important, Leg, Plan, Route, Velocity};
use vstd::prelude::*;

verus! {

/// Whether a leg has the given names, heights and numbers.
pub open spec fn leg_is(
    leg: Leg,
    names: (Seq<char>, Seq<char>),
    heights: (Seq<char>, Seq<char>),
    speed: int,
    course: int,
    distance: int,
    variation: int,
    wind: (int, int),
) -> bool {
    &&& leg.from@ == names.0
    &&& leg.to@ == names.1
    &&& leg.safe@ == heights.0
    &&& leg.planned@ == heights.1
    &&& leg.speed == speed
    &&& leg.course == course
    &&& leg.distance == distance
    &&& leg.variation == variation
    &&& leg.wind_direction == wind.0
    &&& leg.wind_speed == wind.1
}

/// Whether a diversion has the given numbers.
pub open spec fn diversion_is(
    diversion: Diversion,
    wind: (int, int),
    aircraft_speed: int,
    variation: int,
) -> bool {
    &&& diversion.wind.angle == wind.0
    &&& diversion.wind.speed == wind.1
    &&& diversion.aircraft_speed == aircraft_speed
    &&& diversion.variation == variation
}

/// Whether a leg is the one that a new leg starts as.
pub open spec fn is_template_leg(leg: Leg) -> bool {
    leg_is(leg, ("From"@, "To"@), ("1.8"@, "2.2"@), 100, 0, 10, 0, (270, 20))
}

/// Whether a diversion is the one that a new diversion starts as.
pub open spec fn is_template_diversion(diversion: Diversion) -> bool {
    diversion_is(diversion, (190, 20), 100, 1)
}

/// Whether a route is the one that a new route starts as: two legs, and a
/// line of notes in each style.
pub open spec fn is_template_route(route: Route) -> bool {
    &&& route.legs@.len() == 2
    &&& leg_is(
        route.legs@[0],
        ("Place 1"@, "Place 2"@),
        ("1.8"@, "2.2"@),
        100,
        60,
        15,
        1,
        (270, 20),
    )
    &&& leg_is(
        route.legs@[1],
        ("Place 2"@, "Place 3"@),
        ("1.8"@, "2.2"@),
        100,
        70,
        10,
        -1,
        (265, 25),
    )
    &&& route.notes@.len() == 4
    &&& route.notes@[0] is Normal
    &&& route.notes@[0].text() == Some("Normal note"@)
    &&& route.notes@[1] is Bold
    &&& route.notes@[1].text() == Some("Bold note"@)
    &&& route.notes@[2] is Italics
    &&& route.notes@[2].text() == Some("Italic note"@)
    &&& route.notes@[3] is Blank
}

/// Whether a plan is the one that a new plan starts as: who flies what, two
/// diversions, and one route.
pub open spec fn is_template_plan(plan: Plan) -> bool {
    &&& plan.detail.tail matches Some(tail) && tail@ == "Registation"@
    &&& plan.detail.pic matches Some(pic) && pic@ == "PIC name"@
    &&& plan.detail.call_sign matches Some(call_sign) && call_sign@ == "Call sign"@
    &&& forall|i: int| 0 <= i < 3 ==> plan.important.lines@[i] is None
    &&& plan.diversions@.len() == 2
    &&& diversion_is(plan.diversions@[0], (190, 20), 100, 1)
    &&& diversion_is(plan.diversions@[1], (260, 10), 90, 1)
    &&& plan.routes@.len() == 1
    &&& is_template_route(plan.routes@[0])
    &&& plan.holds@.len() == 0
}

/// A leg with the given names, heights and numbers.
fn leg_of(
    names: (&str, &str),
    heights: (&str, &str),
    speed: i64,
    course: i64,
    distance: i64,
    variation: i64,
    wind: (i64, i64),
) -> (leg: Leg)
    ensures
        leg_is(
            leg,
            (names.0@, names.1@),
            (heights.0@, heights.1@),
            speed as int,
            course as int,
            distance as int,
            variation as int,
            (wind.0 as int, wind.1 as int),
        ),
{
    Leg {
        from: names.0.to_owned(),
        to: names.1.to_owned(),
        safe: heights.0.to_owned(),
        planned: heights.1.to_owned(),
        speed,
        course,
        distance,
        variation,
        wind_direction: wind.0,
        wind_speed: wind.1,
    }
}

/// The plan that a new plan starts as.
pub fn create_template_plan() -> (plan: Plan)
    ensures
        is_template_plan(plan),
{
    let detail = Detail {
        tail: Some("Registation".to_owned()),
        pic: Some("PIC name".to_owned()),
        call_sign: Some("Call sign".to_owned()),
    };
    let important = Important { lines: [None, None, None] };
    let mut diversions: Vec<Diversion> = Vec::new();
    diversions.push(create_template_diversion());
    diversions.push(
        Diversion { wind: Velocity { angle: 260, speed: 10 }, aircraft_speed: 90, variation: 1 },
    );
    let mut routes: Vec<Route> = Vec::new();
    routes.push(create_template_route());
    Plan { detail, important, diversions, routes, holds: Vec::new() }
}

/// The route that a new route starts as.
pub fn create_template_route() -> (route: Route)
    ensures
        is_template_route(route),
{
    let mut legs: Vec<Leg> = Vec::new();
    legs.push(leg_of(("Place 1", "Place 2"), ("1.8", "2.2"), 100, 60, 15, 1, (270, 20)));
    legs.push(leg_of(("Place 2", "Place 3"), ("1.8", "2.2"), 100, 70, 10, -1, (265, 25)));
    let mut notes: Vec<FontType> = Vec::new();
    notes.push(FontType::Normal("Normal note".to_owned()));
    notes.push(FontType::Bold("Bold note".to_owned()));
    notes.push(FontType::Italics("Italic note".to_owned()));
    notes.push(FontType::Blank);
    Route { legs, notes }
}

/// The leg that a new leg starts as.
pub fn create_template_leg() -> (leg: Leg)
    ensures
        is_template_leg(leg),
{
    leg_of(("From", "To"), ("1.8", "2.2"), 100, 0, 10, 0, (270, 20))
}

/// The diversion that a new diversion starts as.
pub fn create_template_diversion() -> (diversion: Diversion)
    ensures
        is_template_diversion(diversion),
{
    Diversion { wind: Velocity { angle: 190, speed: 20 }, aircraft_speed: 100, variation: 1 }
}

} // verus!
