use kneeboard::calc::{
    calc_aircraft, convert_velocity, Degree, Triangle, Velocity, WindTriangle,
};
use kneeboard::definition::Velocity as PlanVelocity;
use kneeboard::diversion::{
    calc_diversion, calc_diversions, calc_time, diversion_triangles, Diversion,
};
use kneeboard::fixed::ONE;
use kneeboard::hold::{calc_inbound, calc_outbound, to_time};
use kneeboard::route::{calc_legs, leg_values, Leg};

fn to_fixed(x: f64) -> i128 {
    (x * ONE as f64).round() as i128
}

fn to_float(x: i128) -> f64 {
    x as f64 / ONE as f64
}

fn normalize(x: f64) -> f64 {
    let clamped = x % 360.;
    if clamped < 0. {
        360. + clamped
    } else {
        clamped
    }
}

/// The wind triangle in floating point: law of cosines for the ground speed,
/// law of sines for the correction angle.
fn solve(air_speed: f64, track: f64, wind_speed: f64, wind_bearing: f64) -> Triangle {
    let angle = normalize(wind_bearing - track);
    let b = (-2.0) * wind_speed * angle.to_radians().cos();
    let c = (wind_speed * wind_speed) - (air_speed * air_speed);
    let inner_sqrt = ((b * b) - (4.0 * c)).sqrt();
    let x1 = ((-b) + inner_sqrt) / 2.0;
    let x2 = ((-b) - inner_sqrt) / 2.0;
    let ground_speed = x1.max(x2);

    let sigma = normalize(track - wind_bearing);
    let correction = (sigma.to_radians().sin() * (wind_speed / air_speed)).asin().to_degrees();

    if ground_speed.is_finite() && correction.is_finite() {
        Triangle::Solved { ground_speed: to_fixed(ground_speed), correction: to_fixed(correction) }
    } else {
        Triangle::Unsolvable
    }
}

fn solve_query(query: &WindTriangle) -> Triangle {
    solve(
        query.air_speed as f64,
        to_float(query.track.degrees()),
        query.wind.speed as f64,
        to_float(query.wind.bearing.degrees()),
    )
}

fn diversion(course: &str, heading: &str, ground_speed: &str) -> Diversion {
    Diversion::new(course.to_owned(), heading.to_owned(), ground_speed.to_owned())
}

#[test]
fn test_heading1() {
    let air_speed = 100.;
    let destination_bearing = Degree::new(45 * ONE);

    let wind = Velocity { speed: 30, bearing: Degree::new((180 + 10) * ONE) };

    let variation = Degree::new(0);
    let triangle = solve(air_speed, 45., wind.speed as f64, to_float(wind.bearing.degrees()));
    let heading = calc_aircraft(destination_bearing, variation, &triangle).unwrap();

    assert_eq!(heading.speed_overground, to_fixed(73.9338599585306));
    assert_eq!(heading.heading, Degree::new(to_fixed(35.091634438291294)));
}

#[test]
fn test_heading2() {
    let air_speed = 80.;
    let destination_bearing = Degree::new(303 * ONE);

    let wind = Velocity { speed: 38, bearing: Degree::new((180 + 1) * ONE) };
    let variation = Degree::new(0);
    let triangle = solve(air_speed, 303., wind.speed as f64, to_float(wind.bearing.degrees()));
    let heading = calc_aircraft(destination_bearing, variation, &triangle).unwrap();

    assert_eq!(heading.speed_overground, to_fixed(53.08530523729222));
    assert_eq!(heading.heading, Degree::new(to_fixed(326.75476721509176)));
}

#[test]
fn heading_is_track_turned_by_correction_and_variation() {
    let triangle = Triangle::Solved { ground_speed: 90 * ONE, correction: -10 * ONE };
    let heading =
        calc_aircraft(Degree::new(5 * ONE), Degree::new(357 * ONE), &triangle).unwrap();
    assert_eq!(heading.destination_bearing, Degree::new(5 * ONE));
    assert_eq!(heading.speed_overground, 90 * ONE);
    assert_eq!(heading.correction_angle, Degree::new(350 * ONE));
    assert_eq!(heading.heading, Degree::new(355 * ONE));
    assert_eq!(heading.heading_magnetic, Degree::new(352 * ONE));
}

#[test]
fn no_heading_without_a_solution() {
    assert!(calc_aircraft(Degree::new(0), Degree::new(0), &Triangle::Unsolvable).is_none());
}

#[test]
fn reported_wind_blows_the_other_way() {
    let wind = convert_velocity(&PlanVelocity { angle: 310, speed: 20 });
    assert_eq!(wind.speed, 20);
    assert_eq!(wind.bearing, Degree::new(130 * ONE));
    let wind = convert_velocity(&PlanVelocity { angle: -10, speed: 7 });
    assert_eq!(wind.bearing, Degree::new(170 * ONE));
}

#[test]
fn regression() {
    let air_speed = 100;
    let variation = Degree::new(1 * ONE);

    let wind_bearing = Degree::new(310 * ONE);
    let wind = Velocity { speed: 20, bearing: wind_bearing.reciprocal() };

    let queries = diversion_triangles(air_speed, &wind);
    assert_eq!(queries.len(), 72);
    let solved: Vec<Triangle> = queries.iter().map(solve_query).collect();
    let actual = calc_diversions(variation, &solved);

    let expected = vec![
        [
            diversion("000", "352", "86"),
            diversion("090", "084", "114"),
            diversion("180", "190", "112"),
            diversion("270", "278", "84"),
        ],
        [
            diversion("005", "357", "87"),
            diversion("095", "089", "116"),
            diversion("185", "195", "110"),
            diversion("275", "283", "83"),
        ],
        [
            diversion("010", "001", "88"),
            diversion("100", "095", "117"),
            diversion("190", "201", "108"),
            diversion("280", "287", "82"),
        ],
        [
            diversion("015", "006", "90"),
            diversion("105", "101", "118"),
            diversion("195", "206", "107"),
            diversion("285", "291", "82"),
        ],
        [
            diversion("020", "010", "91"),
            diversion("110", "107", "119"),
            diversion("200", "212", "105"),
            diversion("290", "295", "81"),
        ],
        [
            diversion("025", "015", "93"),
            diversion("115", "113", "119"),
            diversion("205", "217", "103"),
            diversion("295", "299", "81"),
        ],
        [
            diversion("030", "020", "95"),
            diversion("120", "119", "120"),
            diversion("210", "222", "102"),
            diversion("300", "303", "80"),
        ],
        [
            diversion("035", "025", "96"),
            diversion("125", "125", "120"),
            diversion("215", "227", "100"),
            diversion("305", "307", "80"),
        ],
        [
            diversion("040", "029", "98"),
            diversion("130", "131", "120"),
            diversion("220", "233", "98"),
            diversion("310", "311", "80"),
        ],
        [
            diversion("045", "035", "100"),
            diversion("135", "137", "120"),
            diversion("225", "237", "96"),
            diversion("315", "315", "80"),
        ],
        [
            diversion("050", "040", "102"),
            diversion("140", "143", "120"),
            diversion("230", "242", "95"),
            diversion("320", "319", "80"),
        ],
        [
            diversion("055", "045", "103"),
            diversion("145", "149", "119"),
            diversion("235", "247", "93"),
            diversion("325", "323", "81"),
        ],
        [
            diversion("060", "050", "105"),
            diversion("150", "155", "119"),
            diversion("240", "252", "91"),
            diversion("330", "327", "81"),
        ],
        [
            diversion("065", "056", "107"),
            diversion("155", "161", "118"),
            diversion("245", "256", "90"),
            diversion("335", "331", "82"),
        ],
        [
            diversion("070", "061", "108"),
            diversion("160", "167", "117"),
            diversion("250", "261", "88"),
            diversion("340", "335", "82"),
        ],
        [
            diversion("075", "067", "110"),
            diversion("165", "173", "116"),
            diversion("255", "265", "87"),
            diversion("345", "339", "83"),
        ],
        [
            diversion("080", "072", "112"),
            diversion("170", "178", "114"),
            diversion("260", "270", "86"),
            diversion("350", "344", "84"),
        ],
        [
            diversion("085", "078", "113"),
            diversion("175", "184", "113"),
            diversion("265", "274", "85"),
            diversion("355", "348", "85"),
        ],
    ];

    assert_eq!(expected, actual);
}

#[test]
fn diversion_triangles_go_round_the_compass() {
    let wind = Velocity { speed: 20, bearing: Degree::new(130 * ONE) };
    let queries = diversion_triangles(100, &wind);
    assert_eq!(queries.len(), 72);
    assert_eq!(queries[0].track, Degree::new(0));
    assert_eq!(queries[1].track, Degree::new(90 * ONE));
    assert_eq!(queries[2].track, Degree::new(180 * ONE));
    assert_eq!(queries[3].track, Degree::new(270 * ONE));
    assert_eq!(queries[4].track, Degree::new(5 * ONE));
    assert_eq!(queries[71].track, Degree::new(355 * ONE));
    for query in &queries {
        assert_eq!(query.air_speed, 100);
        assert_eq!(query.wind.speed, 20);
        assert_eq!(query.wind.bearing, Degree::new(130 * ONE));
    }
}

#[test]
fn diversion_without_solution_shows_placeholders() {
    let wind = Velocity { speed: 150, bearing: Degree::new(90 * ONE) };
    let query = WindTriangle { air_speed: 100, track: Degree::new(0), wind };
    let triangle = solve_query(&query);
    assert_eq!(triangle, Triangle::Unsolvable);
    let entry = calc_diversion(0, Degree::new(ONE), &triangle);
    assert_eq!(entry, diversion("---", "---", "---"));
}

#[test]
fn diversion_blown_backwards_shows_placeholders() {
    let triangle = Triangle::Solved { ground_speed: -1, correction: 0 };
    let entry = calc_diversion(10 * ONE, Degree::new(0), &triangle);
    assert_eq!(entry, diversion("---", "---", "---"));
    let triangle = Triangle::Solved { ground_speed: 0, correction: 0 };
    let entry = calc_diversion(10 * ONE, Degree::new(0), &triangle);
    assert_eq!(entry, diversion("010", "010", "0"));
}

#[test]
fn diversions_have_eighteen_rows_of_four() {
    let mut solved = vec![Triangle::Solved { ground_speed: 100 * ONE, correction: 0 }; 72];
    solved[4 * 17 + 3] = Triangle::Solved { ground_speed: 90 * ONE, correction: 2 * ONE };
    solved[4 * 5 + 1] = Triangle::Unsolvable;
    let rows = calc_diversions(Degree::new(0), &solved);
    assert_eq!(rows.len(), 18);
    assert_eq!(rows[0][0], diversion("000", "000", "100"));
    assert_eq!(rows[1][3], diversion("275", "275", "100"));
    assert_eq!(rows[5][1], diversion("---", "---", "---"));
    assert_eq!(rows[17][2], diversion("265", "265", "100"));
    assert_eq!(rows[17][3], diversion("355", "357", "90"));
}

#[test]
fn calc_time_truncates_minutes() {
    assert_eq!(calc_time(60, 5), 5);
    assert_eq!(calc_time(70, 5), 4);
    assert_eq!(calc_time(140, 70), 30);
    assert_eq!(calc_time(90, 65), 43);
    assert_eq!(calc_time(-90, 65), -43);
    assert_eq!(calc_time(90, -65), -43);
    assert_eq!(calc_time(-7, -1), 8);
}

fn leg(speed: i64, course: i128, distance: i64, triangle: Triangle) -> Leg {
    Leg {
        name: ("A".to_owned(), "B".to_owned()),
        safe: "1.8".to_owned(),
        planned: "2.2".to_owned(),
        speed,
        course: Degree::new(course * ONE),
        distance,
        variation: Degree::new(ONE),
        wind_direction: Degree::new(270 * ONE),
        wind_speed: 20,
        triangle,
    }
}

#[test]
fn leg_time_is_sixty_times_distance_over_ground_speed() {
    let legs = vec![
        leg(100, 60, 15, Triangle::Solved { ground_speed: 120 * ONE, correction: 5 * ONE }),
        leg(100, 70, 10, Triangle::Solved { ground_speed: 80 * ONE, correction: -5 * ONE }),
    ];
    let calcs = calc_legs(&legs);
    assert_eq!(calcs.len(), 2);
    let first = calcs[0].1.as_ref().unwrap();
    assert_eq!(first.ground_speed, 120 * ONE);
    assert_eq!(first.heading, Degree::new(65 * ONE));
    assert_eq!(first.heading_magnetic, Degree::new(66 * ONE));
    assert_eq!(first.time, Some(7 * ONE + ONE / 2));
    assert_eq!(first.total, Some(7 * ONE + ONE / 2));
    let second = calcs[1].1.as_ref().unwrap();
    assert_eq!(second.heading, Degree::new(65 * ONE));
    assert_eq!(second.time, Some(7 * ONE + ONE / 2));
    assert_eq!(second.total, Some(15 * ONE));
}

#[test]
fn leg_without_solution_has_no_figures() {
    let legs = vec![
        leg(100, 60, 15, Triangle::Solved { ground_speed: 120 * ONE, correction: 0 }),
        leg(100, 60, 15, Triangle::Unsolvable),
        leg(100, 60, 15, Triangle::Solved { ground_speed: 0, correction: 0 }),
        leg(100, 60, 15, Triangle::Solved { ground_speed: -ONE, correction: 0 }),
        leg(100, 60, 15, Triangle::Solved { ground_speed: 90 * ONE, correction: 0 }),
    ];
    let calcs = calc_legs(&legs);
    assert!(calcs[0].1.is_some());
    assert!(calcs[1].1.is_none());
    let still = calcs[2].1.as_ref().unwrap();
    assert_eq!(still.time, None);
    assert_eq!(still.total, None);
    assert!(calcs[3].1.is_none());
    let last = calcs[4].1.as_ref().unwrap();
    assert_eq!(last.time, Some(10 * ONE));
    assert_eq!(last.total, None);
}

fn texts(leg: &Leg) -> Vec<String> {
    let legs = std::slice::from_ref(leg);
    let calcs = calc_legs(legs);
    leg_values(leg, &calcs[0].1).into_iter().map(|cell| cell.text).collect()
}

#[test]
fn leg_row_shows_rounded_figures() {
    let flown = leg(
        100,
        60,
        15,
        Triangle::Solved { ground_speed: 1_174_567_890, correction: 45_000_000 },
    );
    assert_eq!(
        texts(&flown),
        vec!["1.8", "2.2", "100", "060", "15", "270@20", "117", "065", "066", "", "8"]
    );
}

#[test]
fn leg_row_without_solution_shows_placeholders() {
    let lost = leg(100, 60, 15, Triangle::Unsolvable);
    assert_eq!(
        texts(&lost),
        vec!["1.8", "2.2", "100", "060", "15", "270@20", "---", "---", "---", "", "---"]
    );
    let still = leg(100, 60, 15, Triangle::Solved { ground_speed: 0, correction: 0 });
    assert_eq!(
        texts(&still),
        vec!["1.8", "2.2", "100", "060", "15", "270@20", "0", "060", "061", "", "---"]
    );
}

#[test]
fn hold_times_are_minutes_and_seconds() {
    assert_eq!(to_time(0), "0:00");
    assert_eq!(to_time(59), "0:59");
    assert_eq!(to_time(60), "1:00");
    assert_eq!(to_time(125), "2:05");
    assert_eq!(to_time(-125), "2:05");
    assert_eq!(to_time(i64::MIN), "153722867280912930:08");
}

#[test]
fn hold_labels_show_track_heading_speed_and_time() {
    let triangle = Triangle::Solved { ground_speed: 80 * ONE, correction: 5 * ONE };
    let inbound = calc_inbound(100, Degree::new(90 * ONE), Degree::new(ONE), &triangle);
    assert_eq!(inbound, "090 (096) 80kt [1:15]");
    let outbound = calc_outbound(100, Degree::new(270 * ONE), Degree::new(ONE), &triangle);
    assert_eq!(outbound, "270 (286) 80kt [1:15]");
    let against = Triangle::Solved { ground_speed: 80 * ONE, correction: -5 * ONE };
    let outbound = calc_outbound(100, Degree::new(270 * ONE), Degree::new(ONE), &against);
    assert_eq!(outbound, "270 (256) 80kt [1:15]");
}

#[test]
fn hold_labels_without_solution_show_placeholders() {
    let inbound = calc_inbound(100, Degree::new(90 * ONE), Degree::new(0), &Triangle::Unsolvable);
    assert_eq!(inbound, "090 (---) ---kt [---]");
    let still = Triangle::Solved { ground_speed: 0, correction: 0 };
    let outbound = calc_outbound(100, Degree::new(90 * ONE), Degree::new(0), &still);
    assert_eq!(outbound, "090 (090) 0kt [---]");
}
