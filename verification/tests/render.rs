use ruter::render::{
    delay_marker, duration_human, mode_label, pad, place_name, relative, timeline, trip_summary, Badge, Rgb,
    Step, Style,
};
use ruter::render::board::{header, near_board, situation_footnotes, trip_board};
use ruter::entur::trip::{Leg, Line, Place, Presentation, Quay, Situation, TranslatedString, TripPattern};
use ruter::entur::nearest::{EstimatedCall, NearbyStop, StopPlace};
use ruter::entur::Coord;
use ruter::location::{Origin, Source};
use ruter::time::{hhmm, Time};

/// 2026-07-31 at `h:m:s`, in Oslo summer time.
fn at(h: i64, m: i64, s: i64) -> Time {
    Time { secs: 1785448800 + h * 3600 + m * 60 + s, nanos: 0, offset: 7200 }
}

fn place(name: &str, platform: Option<&str>) -> Place {
    Place {
        name: Some(name.to_string()),
        quay: platform.map(|p| Quay { public_code: Some(p.to_string()) }),
    }
}

fn walk(from: &str, to: &str, start: Time, secs: i64) -> Leg {
    Leg {
        mode: "foot".to_string(),
        distance_cm: 30000,
        duration: secs,
        aimed_start_time: start,
        expected_start_time: start,
        expected_end_time: Time { secs: start.secs + secs, ..start },
        realtime: false,
        from_place: place(from, None),
        to_place: place(to, None),
        line: None,
        situations: Vec::new(),
    }
}

fn ride(mode: &str, code: &str, from: &str, platform: Option<&str>, to: &str, aimed: Time, expected: Time, secs: i64) -> Leg {
    Leg {
        mode: mode.to_string(),
        distance_cm: 400000,
        duration: secs,
        aimed_start_time: aimed,
        expected_start_time: expected,
        expected_end_time: Time { secs: expected.secs + secs, ..expected },
        realtime: true,
        from_place: place(from, platform),
        to_place: place(to, None),
        line: Some(Line {
            public_code: Some(code.to_string()),
            name: None,
            presentation: Some(Presentation {
                colour: Some("EC700C".to_string()),
                text_colour: Some("FFFFFF".to_string()),
            }),
        }),
        situations: Vec::new(),
    }
}

/// Walk to Jernbanetorget, metro line 1 from platform 2 to Gaustad, walk on.
fn metro_journey() -> TripPattern {
    TripPattern {
        expected_start_time: at(14, 10, 0),
        expected_end_time: at(14, 36, 51),
        duration: 1611,
        walk_distance_cm: 111356,
        legs: vec![
            walk("Origin", "Jernbanetorget", at(14, 10, 0), 300),
            ride("metro", "1", "Jernbanetorget", Some("2"), "Gaustad", at(14, 7, 0), at(14, 20, 19), 720),
            walk("Gaustad", "Destination", at(14, 32, 19), 272),
        ],
    }
}

fn places(steps: &[Step]) -> Vec<String> {
    steps
        .iter()
        .filter_map(|s| match s {
            Step::Point { place, .. } => Some(place.clone()),
            Step::Walk { .. } => None,
        })
        .collect()
}

fn origin(source: Source) -> Origin {
    Origin {
        coord: Coord { lat_bits: 59.9139f64.to_bits(), lon_bits: 10.7522f64.to_bits() },
        name: "Storgata".to_string(),
        source,
    }
}

#[test]
fn parses_entur_colour_without_hash() {
    assert_eq!(Rgb::from_hex("EC700C"), Some(Rgb { r: 0xEC, g: 0x70, b: 0x0C }));
    assert_eq!(Rgb::from_hex("#EC700C"), Some(Rgb { r: 0xEC, g: 0x70, b: 0x0C }));
}

#[test]
fn malformed_colours_never_panic() {
    assert_eq!(Rgb::from_hex(""), None);
    assert_eq!(Rgb::from_hex("ECC"), None);
    assert_eq!(Rgb::from_hex("zzzzzz"), None);
    assert_eq!(Rgb::from_hex("EC700C11"), None);
}

#[test]
fn unreadable_declared_text_colour_is_overridden() {
    let bg = Rgb { r: 0xFF, g: 0xE0, b: 0x33 };
    let white = Rgb { r: 255, g: 255, b: 255 };
    assert_eq!(bg.readable_text(Some(white)), Rgb { r: 0, g: 0, b: 0 });
}

#[test]
fn legible_declared_text_colour_is_kept() {
    let bg = Rgb::from_hex("EC700C").unwrap();
    let white = Rgb { r: 255, g: 255, b: 255 };
    assert_eq!(bg.readable_text(Some(white)), white);
}

#[test]
fn plain_style_emits_no_escapes() {
    let s = Style::plain();
    assert_eq!(s.badge("11", Rgb::from_hex("EC700C"), None), "[11 ]");
    assert_eq!(s.red("late"), "late");
    assert!(!s.dim("x").contains('\x1b'));
}

#[test]
fn badges_are_a_fixed_width_regardless_of_line_code() {
    let s = Style::plain();
    let widths: Vec<usize> =
        ["1", "18", "34X"].iter().map(|c| s.badge(c, None, None).chars().count()).collect();
    assert_eq!(widths, vec![5, 5, 5]);
}

#[test]
fn coloured_badge_uses_truecolor_background() {
    let s = Style { colour: true };
    let out = s.badge("11", Rgb::from_hex("EC700C"), None);
    assert!(out.contains("48;2;236;112;12"));
    assert!(out.ends_with("\x1b[0m"));
}

#[test]
fn badge_honours_the_operators_declared_text_colour() {
    let s = Style { colour: true };
    let out = s.badge("18", Rgb::from_hex("0B91EF"), Rgb::from_hex("FFFFFF"));
    assert!(out.contains("38;2;255;255;255"), "expected white text, got: {out:?}");
}

#[test]
fn relative_time_reads_naturally() {
    let now = at(14, 0, 0);
    assert_eq!(relative(&at(14, 0, 10), &now), "nå");
    assert_eq!(relative(&at(14, 4, 0), &now), "om 4 min");
    assert_eq!(relative(&at(15, 5, 0), &now), "om 1 t 5 min");
    assert_eq!(relative(&at(15, 0, 0), &now), "om 1 t");
    assert_eq!(relative(&at(13, 57, 0), &now), "for 3 min siden");
}

#[test]
fn durations_switch_to_hours_past_sixty_minutes() {
    assert_eq!(duration_human(1611), "27 min");
    assert_eq!(duration_human(60), "1 min");
    assert_eq!(duration_human(3900), "1 t 5 min");
    assert_eq!(duration_human(3600), "1 t");
}

#[test]
fn sub_minute_delays_are_suppressed() {
    let s = Style::plain();
    assert_eq!(delay_marker(0, s), "   ");
    assert_eq!(delay_marker(1, s), "+1 ");
    assert_eq!(delay_marker(5, s), "+5 ");
    assert_eq!(delay_marker(-2, s), "-2 ");
}

#[test]
fn large_delays_keep_the_column_three_wide() {
    let s = Style::plain();
    assert_eq!(delay_marker(99, s), "+99");
    assert_eq!(delay_marker(100, s), "+99");
    assert_eq!(delay_marker(-250, s), "-99");
    assert_eq!(delay_marker(i64::MIN, s), "-99");
    assert_eq!(delay_marker(i64::MAX, s).chars().count(), 3);
}

#[test]
fn substitutes_enturs_endpoint_placeholders() {
    assert_eq!(place_name(Some("Origin"), "Storgata", "Hjemme"), "Storgata");
    assert_eq!(place_name(Some("Destination"), "Storgata", "Hjemme"), "Hjemme");
    assert_eq!(place_name(Some("Jernbanetorget"), "Storgata", "Hjemme"), "Jernbanetorget");
    assert_eq!(place_name(None, "Storgata", "Hjemme"), "\u{2014}");
}

#[test]
fn translates_transport_modes() {
    assert_eq!(mode_label("metro"), "T-bane");
    assert_eq!(mode_label("foot"), "gå");
    assert_eq!(mode_label("funicular"), "funicular");
}

#[test]
fn a_journey_reads_start_boarding_end() {
    let steps = timeline(&metro_journey(), "Storgata", "Hjemme");
    assert_eq!(places(&steps), ["Storgata", "Jernbanetorget spor 2", "Hjemme"]);
    assert!(matches!(steps[1], Step::Walk { .. }));
    assert!(matches!(steps[3], Step::Walk { .. }));
}

#[test]
fn a_walk_names_no_place() {
    for step in timeline(&metro_journey(), "Storgata", "Hjemme") {
        if let Step::Walk { mode, seconds } = step {
            assert_eq!(mode, "gå");
            assert!(seconds > 0);
        }
    }
}

#[test]
fn the_boarding_point_carries_the_signposted_platform() {
    let steps = timeline(&metro_journey(), "Storgata", "Hjemme");
    assert!(places(&steps).contains(&"Jernbanetorget spor 2".to_string()));
}

#[test]
fn the_ride_is_attached_to_the_stop_you_board_it_at() {
    let steps = timeline(&metro_journey(), "Storgata", "Hjemme");
    let Step::Point { place, ride: Some(ride), .. } = &steps[2] else {
        panic!("expected a boarding point, got {:?}", steps[2]);
    };
    assert_eq!(place, "Jernbanetorget spor 2");
    assert_eq!(ride.badge.text, "1");
    assert_eq!(ride.mode, "T-bane");
    assert_eq!(ride.to, "Gaustad");
    assert_eq!(ride.delay_minutes, 13);
}

#[test]
fn the_endpoints_carry_the_trip_times_and_no_ride() {
    let pattern = metro_journey();
    let steps = timeline(&pattern, "Storgata", "Hjemme");
    let Step::Point { time, ride: None, .. } = steps.first().unwrap() else { panic!("start should be plain") };
    assert_eq!(*time, pattern.expected_start_time);
    let Step::Point { time, ride: None, .. } = steps.last().unwrap() else { panic!("end should be plain") };
    assert_eq!(*time, pattern.expected_end_time);
}

#[test]
fn enturs_endpoint_placeholders_never_survive() {
    let steps = timeline(&metro_journey(), "Storgata", "Hjemme");
    for place in places(&steps) {
        assert!(place != "Origin" && place != "Destination", "leaked: {place}");
    }
}

#[test]
fn boarding_immediately_produces_no_duplicate_start_row() {
    let mut bus = ride("bus", "5", "Storgata", None, "Hjemme", at(14, 0, 0), at(14, 0, 0), 1200);
    bus.line.as_mut().unwrap().presentation = None;
    let pattern = TripPattern {
        expected_start_time: at(14, 0, 0),
        expected_end_time: at(14, 20, 0),
        duration: 1200,
        walk_distance_cm: 0,
        legs: vec![bus],
    };
    let steps = timeline(&pattern, "Storgata", "Hjemme");
    assert_eq!(places(&steps), ["Storgata", "Hjemme"], "expected no repeated start row");
    assert!(matches!(steps[0], Step::Point { ride: Some(_), .. }), "the ride opens the trip");
}

#[test]
fn the_summary_counts_changes_and_rounds_the_walk() {
    let mut p = metro_journey();
    assert_eq!(trip_summary(&p), "direkte · 1,1 km til fots");
    p.walk_distance_cm = 56813;
    assert_eq!(trip_summary(&p), "direkte · 570 m til fots");
    p.walk_distance_cm = 0;
    assert_eq!(trip_summary(&p), "direkte");
    let second = ride("tram", "18", "Storo", None, "Gaustad", at(14, 40, 0), at(14, 40, 0), 300);
    p.legs.push(second.clone());
    assert_eq!(trip_summary(&p), "1 bytte");
    p.legs.push(second);
    p.walk_distance_cm = 99_949;
    assert_eq!(trip_summary(&p), "2 bytter · 1,0 km til fots");
}

#[test]
fn renders_a_plain_trip_board() {
    let out = trip_board(&[metro_journey()], &origin(Source::Gps), "Hjemme", &at(13, 50, 0), Style::plain());
    assert!(out.contains("Storgata"));
    assert!(out.contains("Hjemme"));
    assert!(out.contains('['), "expected an ASCII line badge:\n{out}");
    assert!(out.contains("gå"));
    assert!(!out.contains('\x1b'), "plain output must not contain ANSI escapes");
    assert!(out.contains("· direkte · 1,1 km til fots"), "{out}");
}

#[test]
fn warns_when_position_came_from_ip() {
    let out = trip_board(&[metro_journey()], &origin(Source::Ip), "Hjemme", &at(13, 50, 0), Style::plain());
    assert!(out.contains("kan bomme med flere kilometer"));
}

#[test]
fn does_not_warn_for_gps() {
    let out = trip_board(&[metro_journey()], &origin(Source::Gps), "Hjemme", &at(13, 50, 0), Style::plain());
    assert!(!out.contains("kan bomme"));
}

#[test]
fn empty_results_render_a_message_not_a_crash() {
    let out = trip_board(&[], &origin(Source::Gps), "Hjemme", &at(13, 50, 0), Style::plain());
    assert!(out.contains("Fant ingen reiser"));
}

#[test]
fn the_header_names_both_ends_and_the_time() {
    let out = header(&origin(Source::Gps), "Hjemme", &at(13, 50, 0), Style::plain());
    assert!(out.starts_with("\n  Storgata  \u{2192}  Hjemme"));
    assert!(out.contains("13:50\n"));
    assert_eq!(hhmm(&at(13, 50, 0)), "13:50");
}

fn call(code: &str, front: &str, aimed: Time, expected: Time, cancelled: bool) -> EstimatedCall {
    EstimatedCall {
        realtime: true,
        aimed_departure_time: aimed,
        expected_departure_time: expected,
        cancellation: cancelled,
        destination_display: Some(ruter::entur::nearest::DestinationDisplay { front_text: Some(front.to_string()) }),
        quay: Some(Quay { public_code: Some("E".to_string()) }),
        service_journey: Some(ruter::entur::nearest::ServiceJourney {
            line: Some(ruter::entur::nearest::DepartureLine {
                public_code: Some(code.to_string()),
                name: None,
                transport_mode: Some("tram".to_string()),
                presentation: None,
                authority: None,
            }),
        }),
    }
}

#[test]
fn renders_a_departure_board() {
    let stop = StopPlace {
        id: "NSR:StopPlace:58366".to_string(),
        name: Some("Jernbanetorget".to_string()),
        estimated_calls: vec![
            call("18", "Storo-Grefsen st.", at(13, 57, 0), at(14, 0, 17), false),
            call("17", "Rikshospitalet", at(14, 1, 0), at(14, 1, 0), true),
        ],
    };
    let nearby = NearbyStop {
        id: stop.id.clone(),
        name: "Jernbanetorget".to_string(),
        distance_m: 255,
        modes: vec!["tram".to_string(), "bus".to_string()],
    };
    let out = near_board(&[(nearby, Some(stop))], &origin(Source::Gps), &at(13, 50, 0), Style::plain());
    assert!(out.contains("Jernbanetorget"));
    assert!(out.contains("255 m · tram, bus"));
    assert!(out.contains("spor E"));
    assert!(out.contains("+3 "));
    assert!(out.contains("AVLYST"));
    assert!(!out.contains('\x1b'));
}

#[test]
fn stop_with_no_departures_says_so() {
    let nearby = NearbyStop {
        id: "NSR:StopPlace:1".to_string(),
        name: "Tomt".to_string(),
        distance_m: 10,
        modes: vec!["bus".to_string()],
    };
    let out = near_board(&[(nearby, None)], &origin(Source::Gps), &at(13, 50, 0), Style::plain());
    assert!(out.contains("ingen avganger"));
}

#[test]
fn a_notice_on_several_journeys_is_one_footnote_with_a_count() {
    let notice = |text: &str| Situation { summary: vec![TranslatedString { value: text.to_string() }] };
    let mut a = metro_journey();
    a.legs[1].situations = vec![notice("  Heisen er ute av drift "), notice("Heisen er ute av drift"), notice("   ")];
    let mut b = metro_journey();
    b.legs[1].situations = vec![notice("Sporarbeid"), notice("Heisen er ute av drift")];
    let notes = situation_footnotes(&[a.clone(), b]);
    assert_eq!(notes, vec![("Heisen er ute av drift".to_string(), 2), ("Sporarbeid".to_string(), 1)]);
    let out = trip_board(&[a.clone(), a], &origin(Source::Gps), "Hjemme", &at(13, 50, 0), Style::plain());
    assert!(out.contains("\u{26a0} Heisen er ute av drift (2 reiser)"), "{out}");
}

#[test]
fn badges_for_legs_and_calls() {
    let leg = ride("metro", "1", "A", None, "B", at(14, 0, 0), at(14, 0, 0), 60);
    let b = Badge::for_leg(&leg);
    assert_eq!(b.text, "1");
    assert_eq!(b.bg, Some(Rgb { r: 0xEC, g: 0x70, b: 0x0C }));
    let mut c = call("", "X", at(14, 0, 0), at(14, 0, 0), false);
    c.service_journey.as_mut().unwrap().line.as_mut().unwrap().public_code = None;
    assert_eq!(Badge::for_call(&c).text, "tram");
    assert_eq!(pad("ab", 4), "ab  ");
}

/// A raised `--max-walk` buys shorter journeys by sending you further on
/// foot, and the board has to make that visible.
#[test]
fn the_summary_row_reports_the_walk() {
    let mut short = metro_journey();
    short.walk_distance_cm = 56813;
    let long = metro_journey();
    let out = trip_board(&[short, long], &origin(Source::Gps), "Hjemme", &at(13, 50, 0), Style::plain());
    assert!(out.contains("· direkte · 570 m til fots"), "{out}");
    assert!(out.contains("· direkte · 1,1 km til fots"), "{out}");
}

#[test]
fn a_walk_free_journey_says_only_how_many_transfers() {
    let mut pattern = metro_journey();
    pattern.walk_distance_cm = 0;
    let out = trip_board(&[pattern], &origin(Source::Gps), "Hjemme", &at(13, 50, 0), Style::plain());
    assert!(out.contains("· direkte"));
    assert!(!out.contains("til fots"), "{out}");
}

#[test]
fn any_duration_short_of_the_rounding_limit_is_drawn() {
    assert_eq!(duration_human(-120), "-1 min");
    assert!(duration_human(i64::MAX - 30).ends_with(" min"));
    let mut journey = metro_journey();
    journey.duration = 100_000_000_000_000;
    journey.legs[0].duration = 100_000_000_000_000;
    journey.legs[2].duration = -60;
    let steps = timeline(&journey, "Storgata", "Hjemme");
    let walks: Vec<i64> = steps
        .iter()
        .filter_map(|s| match s {
            Step::Walk { seconds, .. } => Some(*seconds),
            _ => None,
        })
        .collect();
    assert_eq!(walks, vec![100_000_000_000_000, -60]);
}
