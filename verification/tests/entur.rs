use ruter::entur::{check_status, graphql_outcome, transport_modes_arg, validate_modes, Coord};
use ruter::entur::geocode::{
    geocode_result, geocode_url, into_matches, reverse_url, stop_result, stop_search_url, stops_only, urlencode,
    Feature,
};
use ruter::entur::nearest::{collect_stops, departures_query, nearest_query, EstimatedCall, NearestEdge, PlaceNode};
use ruter::entur::trip::{build_trip_query, via_arg, CoordText, Leg, Line, Place, TripPattern, TripQuery};
use ruter::config::Config;
use ruter::time::Time;

fn modes(list: &[&str]) -> Vec<String> {
    list.iter().map(|s| s.to_string()).collect()
}

fn at(h: i64, m: i64, s: i64) -> Time {
    Time { secs: 1785448800 + h * 3600 + m * 60 + s, nanos: 0, offset: 7200 }
}

#[test]
fn encodes_spaces_and_norwegian_characters() {
    assert_eq!(urlencode("Oslo S"), "Oslo%20S");
    assert_eq!(urlencode("\u{00e5}"), "%C3%A5");
    assert_eq!(urlencode("abc-123_x.y~z"), "abc-123_x.y~z");
    assert_eq!(urlencode("a/b?c&d"), "a%2Fb%3Fc%26d");
    assert_eq!(urlencode("Røa"), "R%C3%B8a");
}

#[test]
fn builds_transport_modes_argument() {
    let modes = vec!["bus".to_string(), "tram".to_string()];
    assert_eq!(transport_modes_arg(&modes), "[{transportMode:bus},{transportMode:tram}]");
}

#[test]
fn empty_modes_produce_empty_list() {
    assert_eq!(transport_modes_arg(&[]), "[]");
}

#[test]
fn the_shipped_defaults_are_all_valid_modes() {
    assert!(validate_modes(&Config::default().modes).is_ok());
}

#[test]
fn unknown_modes_are_rejected_with_the_valid_set() {
    let err = validate_modes(&modes(&["bus", "buss"])).unwrap_err().message();
    assert!(err.contains("buss"), "{err}");
    assert!(err.contains("tram"), "expected the valid values to be listed: {err}");
    assert!(err.starts_with("ukjent transportmiddel: buss.\n"), "{err}");
}

#[test]
fn an_empty_mode_list_is_not_an_error() {
    assert!(validate_modes(&[]).is_ok());
}

#[test]
fn rate_limiting_gets_an_actionable_hint() {
    assert!(check_status(200, "Entur").is_ok());
    assert!(check_status(429, "Entur").unwrap_err().contains("client_name"));
    assert_eq!(check_status(503, "Entur").unwrap_err(), "Entur svarte HTTP 503");
}

#[test]
fn graphql_errors_win_over_data() {
    assert_eq!(graphql_outcome(Some(1), &[]), Ok(1));
    assert!(graphql_outcome(Some(1), &["boom".to_string()]).unwrap_err().contains("boom"));
    assert!(graphql_outcome::<u32>(None, &[]).is_err());
}

fn feature(lon: f64, lat: f64, label: Option<&str>, name: Option<&str>, layer: Option<&str>) -> Feature {
    Feature {
        coordinates: [lon.to_bits(), lat.to_bits()],
        label: label.map(str::to_string),
        name: name.map(str::to_string),
        layer: layer.map(str::to_string),
        id: None,
    }
}

#[test]
fn parses_geojson_lon_lat_order() {
    let matches = into_matches(&vec![feature(10.742684, 59.920331, Some("Ullevålsveien 15, Oslo"), None, Some("address"))]);
    assert_eq!(matches.len(), 1);
    assert_eq!(f64::from_bits(matches[0].coord.lat_bits), 59.920331);
    assert_eq!(f64::from_bits(matches[0].coord.lon_bits), 10.742684);
    assert_eq!(matches[0].label, "Ullevålsveien 15, Oslo");
    assert_eq!(matches[0].layer.as_deref(), Some("address"));
}

#[test]
fn falls_back_to_name_when_label_missing() {
    let matches = into_matches(&vec![feature(10.0, 59.0, None, Some("Storgata"), None)]);
    assert_eq!(matches[0].label, "Storgata");
}

#[test]
fn empty_collection_yields_no_matches() {
    assert!(into_matches(&Vec::new()).is_empty());
    assert_eq!(geocode_result(&Vec::new(), "Ingensteds").unwrap_err(), "fant ingen treff for \"Ingensteds\"");
    assert!(into_matches(&vec![feature(1.0, 2.0, None, None, None)]).is_empty());
}

#[test]
fn geocoder_urls_carry_the_encoded_query() {
    assert_eq!(
        geocode_url("Oslo S", 8),
        "https://api.entur.io/geocoder/v1/autocomplete?text=Oslo%20S&size=8&lang=no"
    );
    let at = CoordText { lat: "59.9".to_string(), lon: "10.7".to_string() };
    assert_eq!(reverse_url(&at), "https://api.entur.io/geocoder/v1/reverse?point.lat=59.9&point.lon=10.7&size=1&lang=no");
}

#[test]
fn skips_edges_without_a_place() {
    assert!(collect_stops(&vec![NearestEdge { distance_m: 10, place: None }]).is_empty());
    let stops = collect_stops(&vec![
        NearestEdge { distance_m: 10, place: None },
        NearestEdge {
            distance_m: 44,
            place: Some(PlaceNode { id: "NSR:StopPlace:61444".to_string(), name: None, transport_mode: modes(&["bus", "tram"]) }),
        },
    ]);
    assert_eq!(stops.len(), 1);
    assert_eq!(stops[0].name, "Ukjent stopp");
    assert_eq!(stops[0].distance_m, 44);
    assert_eq!(stops[0].modes, modes(&["bus", "tram"]));
}

#[test]
fn missing_destination_display_falls_back() {
    let call = EstimatedCall {
        realtime: false,
        aimed_departure_time: at(13, 53, 0),
        expected_departure_time: at(13, 53, 0),
        cancellation: false,
        destination_display: None,
        quay: None,
        service_journey: None,
    };
    assert_eq!(call.destination(), "—");
    assert!(call.line().is_none());
    assert_eq!(call.delay_minutes(), 0);
}

#[test]
fn computes_departure_delay() {
    let mut call = EstimatedCall {
        realtime: true,
        aimed_departure_time: at(13, 57, 0),
        expected_departure_time: at(14, 0, 17),
        cancellation: false,
        destination_display: None,
        quay: None,
        service_journey: None,
    };
    assert_eq!(call.delay_minutes(), 3);
    call.aimed_departure_time = at(13, 52, 0);
    call.expected_departure_time = at(14, 0, 57);
    assert_eq!(call.delay_minutes(), 8);
    call.expected_departure_time = at(13, 51, 30);
    assert_eq!(call.delay_minutes(), 0);
}

fn leg(mode: &str, code: Option<&str>, aimed: Time, expected: Time) -> Leg {
    Leg {
        mode: mode.to_string(),
        distance_cm: 0,
        duration: 60,
        aimed_start_time: aimed,
        expected_start_time: expected,
        expected_end_time: expected,
        realtime: code.is_some(),
        from_place: Place { name: Some("Jernbanetorget".to_string()), quay: None },
        to_place: Place { name: None, quay: None },
        line: code.map(|c| Line { public_code: Some(c.to_string()), name: None, presentation: None }),
        situations: Vec::new(),
    }
}

fn pattern() -> TripPattern {
    TripPattern {
        expected_start_time: at(14, 0, 0),
        expected_end_time: at(14, 30, 0),
        duration: 1800,
        walk_distance_cm: 0,
        legs: vec![
            leg("foot", None, at(14, 0, 0), at(14, 0, 0)),
            leg("metro", Some("1"), at(14, 7, 0), at(14, 20, 19)),
            leg("foot", None, at(14, 25, 0), at(14, 25, 0)),
        ],
    }
}

#[test]
fn first_boarding_skips_the_walk_to_the_stop() {
    let p = pattern();
    let boarding = p.first_boarding().unwrap();
    assert_eq!(boarding.mode, "metro");
    assert_eq!(boarding.line.as_ref().unwrap().public_code.as_deref(), Some("1"));
    assert!(TripPattern { legs: vec![p.legs[0].clone()], ..p.clone() }.first_boarding().is_none());
}

#[test]
fn counts_only_transit_legs() {
    assert_eq!(pattern().transit_legs().len(), 1);
}

#[test]
fn computes_delay_from_aimed_versus_expected() {
    let p = pattern();
    assert_eq!(p.legs[1].delay_minutes(), 13);
    assert_eq!(p.legs[0].delay_minutes(), 0);
    assert_eq!(leg("tram", Some("18"), at(14, 9, 0), at(14, 10, 45)).delay_minutes(), 1);
    assert_eq!(leg("tram", Some("18"), at(14, 10, 45), at(14, 9, 0)).delay_minutes(), -1);
}

#[test]
fn detects_realtime_patterns() {
    assert!(pattern().has_realtime());
    let walk_only = TripPattern { legs: vec![pattern().legs[0].clone()], ..pattern() };
    assert!(!walk_only.has_realtime());
}

fn query(via: &[&str]) -> TripQuery {
    TripQuery { via: modes(via), num_patterns: 3, max_walk_minutes: 12, modes: modes(&["bus"]) }
}

fn coord_text(lat: f64, lon: f64) -> CoordText {
    CoordText { lat: format!("{lat}"), lon: format!("{lon}") }
}

#[test]
fn query_embeds_coordinates_and_modes() {
    let q = build_trip_query(&coord_text(59.9139, 10.7522), &coord_text(59.9430, 10.7180), &query(&[]));
    assert!(q.contains("latitude: 59.9139"));
    assert!(q.contains("longitude: 10.718"));
    assert!(q.contains("numTripPatterns: 3"));
    assert!(q.contains(r#"duration: "PT12M""#));
    assert!(q.contains("[{transportMode:bus}]"));
}

#[test]
fn no_waypoints_means_no_via_argument() {
    assert_eq!(via_arg(&[]), "");
    let q = build_trip_query(&coord_text(59.9, 10.7), &coord_text(59.9, 10.7), &query(&[]));
    assert!(!q.contains("via"));
}

#[test]
fn waypoints_are_listed_in_order() {
    let q = build_trip_query(
        &coord_text(59.9, 10.7),
        &coord_text(60.0, 10.6),
        &query(&["NSR:StopPlace:58273", "NSR:StopPlace:59520"]),
    );
    assert!(q.contains(r#"{visit: {stopLocationIds: ["NSR:StopPlace:58273"]}}"#));
    assert!(q.contains(r#"{visit: {stopLocationIds: ["NSR:StopPlace:59520"]}}"#));
    assert!(q.find("58273").unwrap() < q.find("59520").unwrap());
}

#[test]
fn departure_and_nearest_queries_name_their_arguments() {
    let q = departures_query("NSR:StopPlace:58366", 5);
    assert!(q.contains("stopPlace(id: \"NSR:StopPlace:58366\")"));
    assert!(q.contains("numberOfDepartures: 5"));
    let n = nearest_query(&coord_text(59.9, 10.7), 600, 3);
    assert!(n.contains("maximumDistance: 600"));
    assert!(n.contains("maximumResults: 3"));
    let _ = Coord { lat_bits: 0, lon_bits: 0 };
}

#[test]
fn a_stop_search_keeps_only_hits_with_a_stop_id() {
    assert_eq!(
        stop_search_url("Smestad", 8),
        "https://api.entur.io/geocoder/v1/autocomplete?text=Smestad&size=8&lang=no&layers=venue"
    );
    let mut stop = feature(10.7, 59.9, Some("Smestad, Oslo"), None, Some("venue"));
    stop.id = Some("NSR:StopPlace:58273".to_string());
    let other = feature(10.7, 59.9, Some("Smestadveien 1"), None, Some("address"));
    let kept = stops_only(into_matches(&vec![other, stop]));
    assert_eq!(kept.len(), 1);
    assert_eq!(kept[0].label, "Smestad, Oslo");
    assert_eq!(kept[0].id.as_deref(), Some("NSR:StopPlace:58273"));
    let address = feature(10.7, 59.9, Some("Smestadveien 1"), None, Some("address"));
    assert_eq!(stop_result(&vec![address], "Smestad").unwrap_err(), "fant ingen treff for \"Smestad\"");
}

#[test]
fn a_stop_search_keeps_the_named_hits_with_a_stop_id_in_order() {
    let mut smestad = feature(10.67, 59.93, Some("Smestad, Oslo"), None, Some("venue"));
    smestad.id = Some("NSR:StopPlace:58273".to_string());
    let address = feature(10.7, 59.9, Some("Smestadveien 1"), None, Some("address"));
    let mut unnamed = feature(10.6, 59.8, None, None, Some("venue"));
    unnamed.id = Some("NSR:StopPlace:1".to_string());
    let mut roa = feature(10.63, 59.95, None, Some("Røa"), Some("venue"));
    roa.id = Some("NSR:StopPlace:59520".to_string());
    let hits = stop_result(&vec![smestad, address, unnamed.clone(), roa], "s").unwrap();
    let labels: Vec<&str> = hits.iter().map(|m| m.label.as_str()).collect();
    assert_eq!(labels, vec!["Smestad, Oslo", "Røa"]);
    assert_eq!(hits[1].id.as_deref(), Some("NSR:StopPlace:59520"));
    assert_eq!(stop_result(&vec![unnamed], "x").unwrap_err(), "fant ingen treff for \"x\"");
}
