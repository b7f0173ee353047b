use kneeboard::calc::{Degree, Triangle, Velocity, WindTriangle};
use kneeboard::definition::{
    Detail, Diversion, FontType, Hold, Important, Plan, Route, Velocity as PlanVelocity,
};
use kneeboard::diversion::{create_wind_table, dist_time};
use kneeboard::draw_utils::{disclaimer, horizontal_line, vertical_line};
use kneeboard::fixed::ONE;
use kneeboard::hold::{create_hold, hold_triangles, HoldTriangles};
use kneeboard::pdf::builder::PDFDocumentBuilder;
use kneeboard::pdf::content::{ContentBuilder, A5};
use kneeboard::pdf::object::{FontStyle, Op};
use kneeboard::pdf::write::PDFWritable;
use kneeboard::planner::{create_planning, planning_queries, route_triangles};
use kneeboard::route::{
    convert_leg, create_fuel, create_plog, leg_triangle, rev_leg, reverse_leg_triangle,
    write_notes, Leg,
};
use kneeboard::template::{
    create_template_diversion, create_template_leg, create_template_plan, create_template_route,
};

fn to_fixed(x: f64) -> i128 {
    (x * ONE as f64).round() as i128
}

fn to_float(x: i128) -> f64 {
    x as f64 / ONE as f64
}

fn normalize(x: f64) -> f64 {
    let clamped = x % 360.;
    if clamped < 0. {
        360. + clamped
    } else {
        clamped
    }
}

fn solve_query(query: &WindTriangle) -> Triangle {
    let air_speed = query.air_speed as f64;
    let track = to_float(query.track.degrees());
    let wind_speed = query.wind.speed as f64;
    let wind_bearing = to_float(query.wind.bearing.degrees());

    let angle = normalize(wind_bearing - track);
    let b = (-2.0) * wind_speed * angle.to_radians().cos();
    let c = (wind_speed * wind_speed) - (air_speed * air_speed);
    let inner_sqrt = ((b * b) - (4.0 * c)).sqrt();
    let ground_speed = (((-b) + inner_sqrt) / 2.0).max(((-b) - inner_sqrt) / 2.0);
    let sigma = normalize(track - wind_bearing);
    let correction = (sigma.to_radians().sin() * (wind_speed / air_speed)).asin().to_degrees();

    if ground_speed.is_finite() && correction.is_finite() {
        Triangle::Solved { ground_speed: to_fixed(ground_speed), correction: to_fixed(correction) }
    } else {
        Triangle::Unsolvable
    }
}

fn written(op: &Op) -> String {
    let mut out: Vec<u8> = Vec::new();
    op.write(&mut out);
    String::from_utf8(out).unwrap()
}

fn shown(ops: &[Op]) -> Vec<String> {
    ops.iter()
        .filter_map(|op| match op {
            Op::Tj(text) => Some(text.clone()),
            _ => None,
        })
        .collect()
}

fn lines(ops: &[Op]) -> Vec<String> {
    ops.iter().map(written).collect()
}

fn hold() -> Hold {
    Hold {
        description: "ALPHA".to_owned(),
        right_hand: true,
        in_bound_track: 90,
        aircraft_speed: 100,
        variation: 1,
        wind: PlanVelocity { angle: 270, speed: 20 },
    }
}

#[test]
fn disclaimer_stands_at_the_top_of_the_page() {
    let mut layer = ContentBuilder::new(A5, Vec::new());
    disclaimer(&mut layer);
    assert_eq!(
        lines(layer.content()),
        vec![
            "BT",
            "5.6693 TL",
            "/Helvetica-Oblique 6 Tf",
            "153.7795 586.7717 Td",
            "(Do not use! For illustrative purposes only.) Tj",
            "T*",
            "(Any reliance you place on this document) Tj",
            "T*",
            "(is strictly at your own risk.) Tj",
            "T*",
            "(License: Apache-2.0) Tj",
            "ET",
        ]
    );
}

#[test]
fn text_is_shown_in_a_block_of_its_own() {
    let mut layer = ContentBuilder::new(A5, Vec::new());
    let font = (FontStyle::Bold, 11 * ONE);
    kneeboard::draw_utils::write(&mut layer, "Oil:", (25_000_000, 26 * ONE), &font);
    assert_eq!(
        lines(layer.content()),
        vec!["BT", "/Helvetica-Bold 11 Tf", "7.0866 521.5748 Td", "(Oil:) Tj", "ET"]
    );
}

#[test]
fn lines_are_stroked_right_and_down() {
    let mut layer = ContentBuilder::new(A5, Vec::new());
    horizontal_line(&mut layer, (25_000_000, 20 * ONE), 1_435_000_000);
    vertical_line(&mut layer, (25_000_000, 20 * ONE), 10 * ONE);
    assert_eq!(
        lines(layer.content()),
        vec![
            "7.0866 538.5827 m",
            "413.8583 538.5827 l",
            "S",
            "7.0866 538.5827 m",
            "7.0866 510.2362 l",
            "S",
        ]
    );
}

#[test]
fn template_is_filled_in() {
    let plan = create_template_plan();
    assert_eq!(plan.detail.tail.as_deref(), Some("Registation"));
    assert_eq!(plan.detail.pic.as_deref(), Some("PIC name"));
    assert_eq!(plan.detail.call_sign.as_deref(), Some("Call sign"));
    assert_eq!(plan.diversions.len(), 2);
    assert_eq!(plan.diversions[0].wind.angle, 190);
    assert_eq!(plan.diversions[0].wind.speed, 20);
    assert_eq!(plan.diversions[0].aircraft_speed, 100);
    assert_eq!(plan.diversions[1].wind.angle, 260);
    assert_eq!(plan.diversions[1].wind.speed, 10);
    assert_eq!(plan.diversions[1].aircraft_speed, 90);
    assert_eq!(plan.diversions[1].variation, 1);
    assert_eq!(plan.routes.len(), 1);
    assert!(plan.holds.is_empty());

    let route = create_template_route();
    assert_eq!(route.legs.len(), 2);
    assert_eq!(route.legs[0].from, "Place 1");
    assert_eq!(route.legs[0].to, "Place 2");
    assert_eq!(route.legs[0].course, 60);
    assert_eq!(route.legs[0].distance, 15);
    assert_eq!(route.legs[1].variation, -1);
    assert_eq!(route.legs[1].wind_direction, 265);
    assert_eq!(route.legs[1].wind_speed, 25);
    assert_eq!(route.notes.len(), 4);
    assert!(matches!(&route.notes[0], FontType::Normal(text) if text == "Normal note"));
    assert!(matches!(&route.notes[1], FontType::Bold(text) if text == "Bold note"));
    assert!(matches!(&route.notes[2], FontType::Italics(text) if text == "Italic note"));
    assert!(matches!(&route.notes[3], FontType::Blank));

    let leg = create_template_leg();
    assert_eq!(leg.from, "From");
    assert_eq!(leg.to, "To");
    assert_eq!(leg.safe, "1.8");
    assert_eq!(leg.planned, "2.2");
    assert_eq!((leg.speed, leg.course, leg.distance, leg.variation), (100, 0, 10, 0));
    assert_eq!((leg.wind_direction, leg.wind_speed), (270, 20));

    let diversion = create_template_diversion();
    assert_eq!((diversion.wind.angle, diversion.wind.speed), (190, 20));
    assert_eq!((diversion.aircraft_speed, diversion.variation), (100, 1));
}

#[test]
fn note_keeps_its_style_when_its_text_changes() {
    let bold = FontType::Bold("old".to_owned());
    assert_eq!(bold.string_value(), Some("old"));
    assert!(matches!(bold.set_value("new".to_owned()), FontType::Bold(text) if text == "new"));
    let italics = FontType::Italics("old".to_owned());
    assert!(matches!(italics.set_value("".to_owned()), FontType::Italics(text) if text.is_empty()));
    let normal = FontType::Normal("old".to_owned());
    assert_eq!(normal.string_value(), Some("old"));
    assert!(matches!(normal.set_value(" ".to_owned()), FontType::Normal(text) if text == " "));
}

#[test]
fn blank_note_becomes_normal_when_it_gets_text() {
    let blank = FontType::Blank;
    assert_eq!(blank.string_value(), None);
    assert!(matches!(blank.set_value("text".to_owned()), FontType::Normal(text) if text == "text"));
    assert!(matches!(blank.set_value("".to_owned()), FontType::Blank));
    assert!(matches!(blank.set_value(" \t\n\u{a0}\u{3000}".to_owned()), FontType::Blank));
    assert!(matches!(blank.set_value(" x ".to_owned()), FontType::Normal(text) if text == " x "));
    assert!(
        matches!(blank.set_value("\u{200b}".to_owned()), FontType::Normal(text) if text == "\u{200b}")
    );
}

#[test]
fn leg_is_logged_with_bearings() {
    let mut json = create_template_leg();
    json.course = 370;
    json.variation = -1;
    let triangle = Triangle::Solved { ground_speed: 90 * ONE, correction: ONE };
    let leg = convert_leg(&json, triangle);
    assert_eq!(leg.name, ("From".to_owned(), "To".to_owned()));
    assert_eq!(leg.course, Degree::new(10 * ONE));
    assert_eq!(leg.variation, Degree::new(359 * ONE));
    assert_eq!(leg.wind_direction, Degree::new(270 * ONE));
    assert_eq!((leg.speed, leg.distance, leg.wind_speed), (100, 10, 20));
    assert_eq!(leg.triangle, triangle);

    let back = rev_leg(leg, Triangle::Unsolvable);
    assert_eq!(back.name, ("To".to_owned(), "From".to_owned()));
    assert_eq!(back.course, Degree::new(190 * ONE));
    assert_eq!(back.variation, Degree::new(359 * ONE));
    assert_eq!(back.triangle, Triangle::Unsolvable);
}

#[test]
fn leg_triangles_turn_the_wind_about() {
    let json = create_template_leg();
    let there = leg_triangle(&json);
    assert_eq!(there.air_speed, 100);
    assert_eq!(there.track, Degree::new(0));
    assert_eq!(there.wind.speed, 20);
    assert_eq!(there.wind.bearing, Degree::new(90 * ONE));
    let back = reverse_leg_triangle(&json);
    assert_eq!(back.track, Degree::new(180 * ONE));
    assert_eq!(back.wind.bearing, Degree::new(90 * ONE));
}

fn solved_legs(route: &Route) -> Vec<Leg> {
    route.legs.iter().map(|leg| convert_leg(leg, solve_query(&leg_triangle(leg)))).collect()
}

#[test]
fn route_log_shows_each_leg_in_a_row() {
    let route = create_template_route();
    let plan = create_template_plan();
    let legs = solved_legs(&route);
    let mut builder = PDFDocumentBuilder::new();
    let page = builder.create_page(A5);
    create_plog(&legs, &route.notes, &plan.detail, page);
    let ops = page.layer.content();
    let texts = shown(ops);
    assert_eq!(
        &texts[4..16],
        &[
            "Place 1", "Place 2", "1.8", "2.2", "100", "060", "15", "270@20", "117", "054",
            "055", "8"
        ]
    );
    assert_eq!(
        &texts[16..28],
        &[
            "Place 2", "Place 3", "1.8", "2.2", "100", "070", "10", "265@25", "124", "066",
            "065", "5"
        ]
    );
    assert_eq!(&texts[28..31], &["LOST", "121.5", "0030"]);
    assert_eq!(&texts[31..34], &["Registation", "Call sign", "PIC name"]);
    assert_eq!(
        &texts[34..47],
        &[
            "Safe", "Plan", "Spd", "Track", "Dist", "Wind", "G/S", "HD(T)", "HD(M)", "Time",
            "S/C", "ETA", "ATA"
        ]
    );
    assert_eq!(&texts[47..53], &["Oil:", "Fuel:", "B/Off:", "T/Off:", "Lnd:", "B/On:"]);
    assert_eq!(&texts[53..57], &["L    R", "L    R", "L    R", "L    R"]);
    assert_eq!(&texts[57..], &["Normal note", "Bold note", "Italic note", ""]);

    let all = lines(ops);
    assert_eq!(&all[..5], &["q", "0 0 0 RG", "0 0 0 rg", "S", "q"]);
    assert_eq!(&all[17..19], &["q", "0.7087 w"]);
    assert_eq!(&all[19..22], &["7.0866 538.5827 m", "406.7717 538.5827 l", "S"]);
    assert_eq!(
        &all[22..30],
        &[
            "BT",
            "/Helvetica 10 Tf",
            "12.7559 TL",
            "7.0866 527.2441 Td",
            "(Place 1) Tj",
            "T*",
            "(Place 2) Tj",
            "ET"
        ]
    );
    assert_eq!(
        &all[30..35],
        &["BT", "/Helvetica 10 Tf", "70.8661 520.1575 Td", "(1.8) Tj", "ET"]
    );
    assert_eq!(all[all.len() - 1], "ET");
}

#[test]
fn route_log_without_legs_still_has_its_frame() {
    let mut builder = PDFDocumentBuilder::new();
    let page = builder.create_page(A5);
    create_plog(&[], &[], &Detail::default(), page);
    let texts = shown(page.layer.content());
    assert_eq!(&texts[4..7], &["LOST", "121.5", "0030"]);
    assert_eq!(texts[7], "Safe");
    assert_eq!(texts.len(), 4 + 3 + 13 + 6 + 4);
}

#[test]
fn route_log_shows_placeholders_where_a_leg_cannot_be_flown() {
    let mut json = create_template_leg();
    json.wind_speed = 150;
    json.wind_direction = 90;
    let triangle = solve_query(&leg_triangle(&json));
    assert_eq!(triangle, Triangle::Unsolvable);
    let legs = vec![convert_leg(&json, triangle)];
    let mut builder = PDFDocumentBuilder::new();
    let page = builder.create_page(A5);
    create_plog(&legs, &[], &Detail::default(), page);
    let texts = shown(page.layer.content());
    assert_eq!(
        &texts[4..16],
        &["From", "To", "1.8", "2.2", "100", "000", "10", "090@150", "---", "---", "---", "---"]
    );
}

#[test]
fn notes_are_set_in_their_styles() {
    let notes = vec![
        FontType::Bold("First".to_owned()),
        FontType::Blank,
        FontType::Italics("Third".to_owned()),
    ];
    let mut layer = ContentBuilder::new(A5, Vec::new());
    write_notes((96 * ONE, 81 * ONE), &notes, &mut layer);
    assert_eq!(
        lines(layer.content()),
        vec![
            "BT",
            "9.9213 TL",
            "/Helvetica-Bold 9 Tf",
            "272.126 365.6693 Td",
            "(First) Tj",
            "/Helvetica 9 Tf",
            "T*",
            "() Tj",
            "/Helvetica-Oblique 9 Tf",
            "T*",
            "(Third) Tj",
            "ET",
        ]
    );
}

#[test]
fn fuel_log_has_four_rows_and_five_dividers() {
    let mut layer = ContentBuilder::new(A5, Vec::new());
    let bottom = create_fuel((96 * ONE, 50 * ONE), &mut layer);
    assert_eq!(bottom, 86 * ONE);
    let all = lines(layer.content());
    assert_eq!(all.len(), 4 * 8 + 3 + 5 * 3);
    assert_eq!(&all[..3], &["272.126 453.5433 m", "413.8583 453.5433 l", "S"]);
    assert_eq!(all.iter().filter(|line| *line == "(L    R) Tj").count(), 4);
    assert_eq!(&all[35..38], &["272.126 453.5433 m", "272.126 351.4961 l", "S"]);
    assert_eq!(&all[41..44], &["347.7165 453.5433 m", "347.7165 351.4961 l", "S"]);
}

#[test]
fn diversion_sheet_shows_its_wind_and_entries() {
    let diversion = create_template_diversion();
    let wind = kneeboard::calc::convert_velocity(&diversion.wind);
    let variation = Degree::new(diversion.variation as i128 * ONE);
    let queries = kneeboard::diversion::diversion_triangles(diversion.aircraft_speed, &wind);
    let solved: Vec<Triangle> = queries.iter().map(solve_query).collect();
    let mut builder = PDFDocumentBuilder::new();
    let page = builder.create_page(A5);
    create_wind_table(page, diversion.aircraft_speed, variation, &wind, &solved);
    let texts = shown(page.layer.content());
    assert_eq!(texts[4], "Speed:100, Wind:190\u{b0} / 20");
    assert_eq!(&texts[5..8], &["000\u{b0}", "359\u{b0}", "120kt"]);
    assert_eq!(&texts[8..11], &["090\u{b0}", "102\u{b0}", "102kt"]);
    let table = 14 + 9 * 15;
    let rows = 5 + 18 * 12;
    assert_eq!(texts.len(), rows + table);
    assert_eq!(&texts[rows - 3..rows], &["355\u{b0}", "353\u{b0}", "119kt"]);
    assert_eq!(&texts[rows..rows + 14], &[
        "5", "10", "15", "20", "25", "30", "35", "40", "45", "50", "55", "60", "65", "70"
    ]);
    assert_eq!(&texts[rows + 14..rows + 17], &["60", "5", "10"]);
    assert_eq!(&texts[texts.len() - 3..], &["25", "27", "30"]);
    assert_eq!(texts.iter().filter(|text| *text == "140").count(), 1);
    let all = lines(page.layer.content());
    assert_eq!(
        &all[22..29],
        &[
            "q",
            "0.9 0.9 0.9 rg",
            "0 0 0 RG",
            "0.7087 w",
            "14.1732 513.0709 392.5984 -11.3386 re",
            "f",
            "Q",
        ]
    );
}

#[test]
fn diversion_sheet_shows_placeholders_where_the_wind_is_too_strong() {
    let wind = Velocity { speed: 150, bearing: Degree::new(90 * ONE) };
    let queries = kneeboard::diversion::diversion_triangles(100, &wind);
    let solved: Vec<Triangle> = queries.iter().map(solve_query).collect();
    assert!(solved.contains(&Triangle::Unsolvable));
    let mut builder = PDFDocumentBuilder::new();
    let page = builder.create_page(A5);
    create_wind_table(page, 100, Degree::new(0), &wind, &solved);
    let texts = shown(page.layer.content());
    assert_eq!(&texts[5..8], &["---\u{b0}", "---\u{b0}", "---kt"]);
    assert!(texts.iter().all(|text| !text.contains("NaN") && !text.contains("inf")));
}

#[test]
fn table_of_times_has_a_row_for_each_speed() {
    let mut layer = ContentBuilder::new(A5, Vec::new());
    dist_time(&mut layer, &[60, 120], &[5, 10, 60]);
    let texts = shown(layer.content());
    assert_eq!(texts, vec!["5", "10", "60", "60", "5", "10", "60", "120", "2", "5", "30"]);
    let all = lines(layer.content());
    assert_eq!(
        &all[..6],
        &["q", "0 0 0 RG", "0.7087 w", "11.3386 121.8898 392.5984 -26.0787 re", "S", "Q"]
    );
    assert_eq!(&all[6..9], &["BT", "/Helvetica-Bold 11 Tf", "112.3228 110.5512 Td"]);
}

#[test]
fn hold_sheet_shows_the_pattern_and_its_labels() {
    let hold = hold();
    let queries = hold_triangles(&hold);
    assert_eq!(queries.len(), 3);
    assert_eq!(queries[0].track, Degree::new(90 * ONE));
    assert_eq!(queries[1].track, Degree::new(270 * ONE));
    assert_eq!(queries[2].track, Degree::new(240 * ONE));
    assert_eq!(queries[0].wind.bearing, Degree::new(90 * ONE));
    let solved = HoldTriangles {
        inbound: solve_query(&queries[0]),
        outbound: solve_query(&queries[1]),
        gate: solve_query(&queries[2]),
    };
    let mut builder = PDFDocumentBuilder::new();
    let page = builder.create_page(A5);
    create_hold(page, &hold, &solved);
    let texts = shown(page.layer.content());
    assert_eq!(
        &texts[4..],
        &[
            "Wind: 270@20kt  Speed: 100kt",
            "ALPHA",
            "090 (091) 120kt [0:50]",
            "270 (271) 80kt [1:15]",
            "240 (247) 82kt [1:13]",
            "030",
            "270",
            "200",
            "020",
            "OE",
            "PE",
            "DE",
            "DE",
        ]
    );
    let all = lines(page.layer.content());
    assert_eq!(
        &all[17..22],
        &[
            "q",
            "0.5 w",
            "306.1417 396.8535 m",
            "337.5171 396.7787 362.763 371.5329 362.8378 340.1575 c",
            "362.763 308.7821 337.5171 283.5362 306.1417 283.4614 c",
        ]
    );
}

#[test]
fn left_hand_hold_lies_on_the_other_side() {
    let mut hold = hold();
    hold.right_hand = false;
    let queries = hold_triangles(&hold);
    assert_eq!(queries[2].track, Degree::new(300 * ONE));
    let solved = HoldTriangles {
        inbound: Triangle::Unsolvable,
        outbound: Triangle::Unsolvable,
        gate: Triangle::Unsolvable,
    };
    let mut builder = PDFDocumentBuilder::new();
    let page = builder.create_page(A5);
    create_hold(page, &hold, &solved);
    let texts = shown(page.layer.content());
    assert_eq!(
        &texts[6..13],
        &[
            "090 (---) ---kt [---]",
            "270 (---) ---kt [---]",
            "300 (---) ---kt [---]",
            "150",
            "270",
            "340",
            "160",
        ]
    );
}

fn plan_with_hold() -> Plan {
    let mut plan = create_template_plan();
    plan.holds.push(hold());
    plan
}

#[test]
fn plan_asks_for_its_triangles_in_order() {
    let plan = plan_with_hold();
    let route = route_triangles(&plan.routes[0]);
    assert_eq!(route.len(), 4);
    assert_eq!(route[0].track, Degree::new(60 * ONE));
    assert_eq!(route[1].track, Degree::new(70 * ONE));
    assert_eq!(route[2].track, Degree::new(250 * ONE));
    assert_eq!(route[3].track, Degree::new(240 * ONE));
    let queries = planning_queries(&plan);
    assert_eq!(queries.len(), 4 + 2 * 72 + 3);
    assert_eq!(queries[3].track, Degree::new(240 * ONE));
    assert_eq!(queries[4].track, Degree::new(0));
    assert_eq!(queries[4].wind.bearing, Degree::new(10 * ONE));
    assert_eq!(queries[4 + 72].air_speed, 90);
    assert_eq!(queries[4 + 144].track, Degree::new(90 * ONE));
    assert!(planning_queries(&Plan::default()).is_empty());
}

#[test]
fn plan_becomes_a_document_with_a_page_for_each_sheet() {
    let plan = plan_with_hold();
    let queries = planning_queries(&plan);
    let solved: Vec<Triangle> = queries.iter().map(solve_query).collect();
    let doc = create_planning(&plan, &solved).unwrap();
    assert_eq!(doc.object_count(), 8 + 2 * 5);
    let mut out: Vec<u8> = Vec::new();
    let n = doc.write(&mut out);
    assert_eq!(n, out.len());
    let text = String::from_utf8(out).unwrap();
    assert!(text.starts_with("%PDF-1.5\n"));
    assert!(text.ends_with("%%EOF\n"));
    assert!(text.contains(
        "7 0 obj\n<</Count 5\n/Kids [10 0 R 12 0 R 14 0 R 16 0 R 18 0 R]\n/Type /Pages\n>>"
    ));
    assert!(text.contains("/Size 19\n"));
    assert!(text.contains("/Root 8 0 R\n"));
    let first = text.find("(Place 1) Tj\nT*\n(Place 2) Tj").unwrap();
    let back = text.find("(Place 3) Tj\nT*\n(Place 2) Tj").unwrap();
    let wind = text.find("(Speed:100, Wind:190\\260 / 20) Tj").unwrap();
    let second = text.find("(Speed:90, Wind:260\\260 / 10) Tj").unwrap();
    let held = text.find("(Wind: 270@20kt  Speed: 100kt) Tj").unwrap();
    assert!(first < back && back < wind && wind < second && second < held);
    assert!(text.contains("(250) Tj"));
    assert!(text.contains("(240) Tj"));
}

#[test]
fn plan_without_anything_is_a_document_without_pages() {
    let doc = create_planning(&Plan::default(), &[]).unwrap();
    assert_eq!(doc.object_count(), 8);
}

#[test]
fn plan_needs_a_solution_for_each_triangle() {
    let plan = plan_with_hold();
    let queries = planning_queries(&plan);
    let solved: Vec<Triangle> = queries.iter().map(solve_query).collect();
    assert!(create_planning(&plan, &solved[1..]).is_none());
    assert!(create_planning(&plan, &[]).is_none());
    let mut more = solved.clone();
    more.push(Triangle::Unsolvable);
    assert!(create_planning(&plan, &more).is_none());
    assert!(create_planning(&Plan::default(), &more).is_none());
}

#[test]
fn plan_with_wind_stronger_than_the_aircraft_still_renders() {
    let mut plan = Plan {
        detail: Detail::default(),
        important: Important::default(),
        diversions: vec![Diversion {
            wind: PlanVelocity { angle: 90, speed: 200 },
            aircraft_speed: 100,
            variation: 0,
        }],
        routes: vec![create_template_route()],
        holds: vec![hold()],
    };
    plan.routes[0].legs[0].wind_speed = 500;
    plan.holds[0].wind.speed = 300;
    plan.holds[0].wind.angle = 0;
    let queries = planning_queries(&plan);
    let solved: Vec<Triangle> = queries.iter().map(solve_query).collect();
    assert!(solved.contains(&Triangle::Unsolvable));
    let doc = create_planning(&plan, &solved).unwrap();
    let mut out: Vec<u8> = Vec::new();
    doc.write(&mut out);
    let text = String::from_utf8(out).unwrap();
    assert!(text.contains("(---) Tj"));
    assert!(text.contains("(---\\260) Tj"));
    assert!(text.contains("(---kt) Tj"));
    assert!(text.contains("(090 \\(---\\) ---kt [---]) Tj"));
    assert!(!text.contains("NaN"));
    assert!(!text.contains("inf"));
}
