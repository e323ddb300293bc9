use ruter::cli::Common;
use ruter::commands::{
    check_place_name, check_route_name, known_place, choice_menu, choice_prompt, needs_choice, new_route, parse_choice,
    place_list, place_of_match, place_query, place_saved_message, plan_trip, remove_place, remove_route,
    removed_message, results_wanted, route_list, route_saved_message, save_place, save_route, where_report,
    EndPlan, StartPlan,
};
use ruter::config::{Config, Place, Waypoint};
use ruter::entur::geocode::GeoMatch;
use ruter::entur::Coord;
use ruter::location::{Origin, Source};
use ruter::render::Style;

fn common() -> Common {
    Common { from: None, watch: false, json: false, count: None, modes: None, no_gps: false, no_ip: false, color: None }
}

fn place(label: &str, lat: u64) -> Place {
    Place { label: label.to_string(), lat_bits: lat, lon_bits: lat + 1 }
}

fn with_route() -> Config {
    let mut c = Config::default();
    save_place(&mut c, "hjem".to_string(), place("Dronningens gate 40, Oslo", 10));
    let route = new_route(
        Some(place("Brekkelia 3D, Oslo", 20)),
        place("Stubberud, Oslo", 30),
        vec![
            Waypoint { label: "Smestad, Oslo".to_string(), id: "NSR:StopPlace:58273".to_string() },
            Waypoint { label: "Røa, Oslo".to_string(), id: "NSR:StopPlace:59520".to_string() },
        ],
    );
    save_route(&mut c, "sorkedalen".to_string(), route);
    c
}

#[test]
fn a_missing_destination_is_explained() {
    let err = plan_trip(&Config::default(), &common(), None).unwrap_err();
    assert!(err.starts_with("ingen destinasjon oppgitt.\nBruk `ruter <sted>`"), "{err}");
}

#[test]
fn a_saved_route_wins_and_keeps_its_waypoints_in_order() {
    let plan = plan_trip(&with_route(), &common(), Some("Sorkedalen".to_string())).unwrap();
    assert!(matches!(&plan.start, StartPlan::Known { origin } if origin.name == "Brekkelia 3D, Oslo" && origin.source == Source::SavedPlace));
    assert!(matches!(&plan.end, EndPlan::Known { origin } if origin.name == "Stubberud, Oslo"));
    assert_eq!(plan.query.via, vec!["NSR:StopPlace:58273", "NSR:StopPlace:59520"]);
    assert_eq!(plan.query.num_patterns, 5);
    assert_eq!(plan.query.max_walk_minutes, 15);
}

#[test]
fn an_explicit_start_overrides_the_routes() {
    let mut c = common();
    c.from = Some("jobb".to_string());
    c.count = Some(2);
    c.modes = Some(vec!["tram".to_string()]);
    let plan = plan_trip(&with_route(), &c, Some("sorkedalen".to_string())).unwrap();
    assert!(matches!(&plan.start, StartPlan::Named { raw, source: Source::Explicit } if raw == "jobb"));
    assert_eq!(plan.query.num_patterns, 2);
    assert_eq!(plan.query.modes, vec!["tram"]);
}

#[test]
fn without_a_route_the_destination_is_looked_up_by_name() {
    let mut cfg = Config::default();
    cfg.default_destination = Some("hjem".to_string());
    let mut c = common();
    c.no_ip = true;
    let plan = plan_trip(&cfg, &c, None).unwrap();
    assert!(matches!(&plan.start, StartPlan::Locate { opts } if opts.no_ip && !opts.no_gps));
    assert!(matches!(&plan.end, EndPlan::Named { raw, source: Source::Explicit } if raw == "hjem"));
    assert!(plan.query.via.is_empty());
    assert_eq!(results_wanted(Some(9), &cfg), 9);
}

#[test]
fn the_user_picks_by_number_or_enter() {
    assert!(!needs_choice(1, false));
    assert!(!needs_choice(4, true));
    assert!(needs_choice(4, false));
    assert_eq!(parse_choice("\n", 3), Ok(0));
    assert_eq!(parse_choice(" 2 \n", 3), Ok(1));
    assert_eq!(parse_choice("+3", 3), Ok(2));
    assert_eq!(parse_choice("4", 3), Err("ugyldig valg".to_string()));
    assert_eq!(parse_choice("0", 3), Err("ugyldig valg".to_string()));
    assert_eq!(parse_choice("to", 3), Err("ugyldig valg".to_string()));
    let m = |label: &str, layer: Option<&str>| GeoMatch {
        label: label.to_string(),
        coord: Coord { lat_bits: 0, lon_bits: 0 },
        layer: layer.map(str::to_string),
        id: None,
    };
    assert_eq!(
        choice_menu("Oslo", &vec![m("Oslo S", Some("venue")), m("Oslo", None)]),
        "Treff for \"Oslo\":\n  1. Oslo S  venue\n  2. Oslo  \n"
    );
    assert_eq!(choice_prompt(2), "Velg [1-2] (Enter = 1): ");
}

#[test]
fn routes_are_listed_with_their_stops() {
    assert!(route_list(&Config::default()).starts_with("Ingen lagrede reiseveier ennå."));
    let out = route_list(&with_route());
    assert_eq!(
        out,
        format!(
            "{:<12} Brekkelia 3D, Oslo → Stubberud, Oslo\n{:<12} Brekkelia 3D, Oslo → Smestad, Oslo → Røa, Oslo → Stubberud, Oslo\n",
            "sorkedalen", ""
        )
    );
    let here = new_route(None, place("Jobben", 1), Vec::new());
    assert_eq!(here.label, "der du er nå → Jobben");
}

#[test]
fn names_are_not_shared_between_places_and_routes() {
    let c = with_route();
    assert!(check_route_name(&c, "HJEM").unwrap_err().starts_with("\"HJEM\" er allerede et lagret sted."));
    assert!(check_route_name(&c, "skolen").is_ok());
    assert!(check_place_name(&c, "sorkedalen").unwrap_err().contains("er allerede en lagret reisevei"));
    assert!(check_place_name(&c, "jobb").is_ok());
}

#[test]
fn unknown_modes_are_refused_before_the_query() {
    let mut c = common();
    c.modes = Some(vec!["buss".to_string()]);
    let err = plan_trip(&with_route(), &c, Some("sorkedalen".to_string())).unwrap_err();
    assert!(err.starts_with("ukjent transportmiddel: buss."), "{err}");
    let mut cfg = with_route();
    cfg.modes = vec!["bus".to_string(), "trikk".to_string()];
    let err = plan_trip(&cfg, &common(), Some("sorkedalen".to_string())).unwrap_err();
    assert!(err.starts_with("ukjent transportmiddel: trikk."), "{err}");
    c.modes = Some(vec!["bus".to_string(), "tram".to_string()]);
    assert!(plan_trip(&cfg, &c, Some("sorkedalen".to_string())).is_ok());
}

#[test]
fn editing_places_and_routes_leaves_the_other_settings() {
    let mut c = with_route();
    c.client_name = "kari-ruter".to_string();
    c.default_origin = Some("hjem".to_string());
    c.default_destination = Some("sorkedalen".to_string());
    c.num_results = 7;
    c.max_walk_minutes = 12;
    c.modes = vec!["bus".to_string()];
    c.watch_interval_secs = 45;
    assert_eq!(remove_route(&mut c, "sorkedalen"), Ok(()));
    assert_eq!(remove_place(&mut c, "hjem"), Ok(()));
    save_place(&mut c, "jobb".to_string(), place("Akersgata 1, Oslo", 40));
    assert_eq!(c.client_name, "kari-ruter");
    assert_eq!(c.default_origin, Some("hjem".to_string()));
    assert_eq!(c.default_destination, Some("sorkedalen".to_string()));
    assert_eq!(c.num_results, 7);
    assert_eq!(c.max_walk_minutes, 12);
    assert_eq!(c.modes, vec!["bus".to_string()]);
    assert_eq!(c.watch_interval_secs, 45);
}

#[test]
fn removing_needs_an_exact_name() {
    let mut c = with_route();
    assert_eq!(remove_route(&mut c, "SORKEDALEN"), Err("fant ingen lagret reisevei som heter \"SORKEDALEN\"".to_string()));
    assert_eq!(remove_route(&mut c, "sorkedalen"), Ok(()));
    assert!(c.routes.is_empty());
    assert_eq!(remove_place(&mut c, "jobb"), Err("fant ikke noe lagret sted som heter \"jobb\"".to_string()));
    assert_eq!(remove_place(&mut c, "hjem"), Ok(()));
    assert_eq!(removed_message("hjem", "~/.config/ruter/config.toml"), "Fjernet \"hjem\" fra ~/.config/ruter/config.toml");
}

#[test]
fn places_are_added_from_a_looked_up_address() {
    assert_eq!(place_query(&vec!["Brekkelia".to_string(), "3D".to_string()]), Ok("Brekkelia 3D".to_string()));
    assert!(place_query(&vec![" ".to_string()]).is_err());
    assert!(place_query(&Vec::new()).is_err());
    let m = GeoMatch { label: "Brekkelia 3D, Oslo".to_string(), coord: Coord { lat_bits: 5, lon_bits: 6 }, layer: None, id: None };
    let p = place_of_match(&m);
    assert_eq!((p.label.as_str(), p.lat_bits, p.lon_bits), ("Brekkelia 3D, Oslo", 5, 6));
    assert_eq!(
        place_saved_message("hjem", "Brekkelia 3D, Oslo", "59.96091, 10.76669", "/cfg"),
        "Lagret \"hjem\" → Brekkelia 3D, Oslo (59.96091, 10.76669)\n/cfg\n"
    );
    let mut c = Config::default();
    assert!(place_list(&c, &Vec::new()).starts_with("Ingen lagrede steder ennå."));
    save_place(&mut c, "hjem".to_string(), p);
    assert_eq!(place_list(&c, &vec!["59.96091, 10.76669".to_string()]), format!("{:<12} Brekkelia 3D, Oslo  (59.96091, 10.76669)\n", "hjem"));
}

#[test]
fn a_saved_route_says_how_to_run_it() {
    let c = with_route();
    let r = c.route("sorkedalen").unwrap();
    assert_eq!(
        route_saved_message("sorkedalen", r, "/cfg"),
        "Lagret reiseveien \"sorkedalen\": Brekkelia 3D, Oslo → Stubberud, Oslo\nVia: Smestad, Oslo → Røa, Oslo\n/cfg\nKjør den med: ruter sorkedalen\n"
    );
    let bare = new_route(None, place("Jobben", 1), Vec::new());
    assert_eq!(route_saved_message("jobb", &bare, "/cfg"), "Lagret reiseveien \"jobb\": der du er nå → Jobben\n/cfg\nKjør den med: ruter jobb\n");
}

#[test]
fn where_reports_the_position_and_its_source() {
    let rows = vec![("Stedstjenester".to_string(), "støttes bare på macOS".to_string())];
    let origin = Origin { coord: Coord { lat_bits: 0, lon_bits: 0 }, name: "Storgata".to_string(), source: Source::Ip };
    let out = where_report(&rows, &Ok((origin, "59.91390, 10.75220".to_string())), Style::plain());
    assert_eq!(
        out,
        format!(
            "\n  {:<28} støttes bare på macOS\n  {:<28} Storgata\n  {:<28} 59.91390, 10.75220\n  {:<28} IP (unøyaktig)\n\n  ⚠ Dette er et IP-oppslag og kan bomme med flere kilometer.\n\n",
            "Stedstjenester:", "Posisjon:", "Koordinater:", "Kilde:"
        )
    );
    let failed = where_report(&Vec::new(), &Err("fant ikke posisjonen din.".to_string()), Style::plain());
    assert_eq!(failed, format!("\n  {:<28} fant ikke posisjonen din.\n\n", "Posisjon:"));
}

#[test]
fn a_route_end_is_known_from_a_saved_place_or_a_coordinate() {
    let c = with_route();
    let p = known_place(&c, "Hjem", None).unwrap();
    assert_eq!((p.label.as_str(), p.lat_bits, p.lon_bits), ("Dronningens gate 40, Oslo", 10, 11));
    let p = known_place(&c, "59.9,10.7", Some(Coord { lat_bits: 3, lon_bits: 4 })).unwrap();
    assert_eq!((p.label.as_str(), p.lat_bits, p.lon_bits), ("59.9,10.7", 3, 4));
    assert!(known_place(&c, "Stubberud", None).is_none());
}
