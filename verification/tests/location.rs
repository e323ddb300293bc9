use ruter::commands::save_place;
use ruter::config::{Config, Place};
use ruter::entur::Coord;
use ruter::location::{
    cl_error_text, core_location_rows, gps_diagnostics, keep_asking, keep_waiting, must_ask_first, no_origin_message,
    origin_attempts, refused_after_asking, refused_up_front, saved_origin, saved_place_source, wait_outcome,
    Attempt, GpsEnd, NamedStep, Options, Source,
};
use ruter::location::named_step;

#[test]
fn only_ip_is_flagged_as_coarse() {
    assert!(Source::Ip.is_coarse());
    assert!(!Source::Gps.is_coarse());
    assert!(!Source::SavedPlace.is_coarse());
    assert!(!Source::Explicit.is_coarse());
}

#[test]
fn sources_are_labelled_for_the_user() {
    assert_eq!(Source::Ip.label(), "IP (unøyaktig)");
    assert_eq!(Source::Gps.label(), "GPS");
    assert_eq!(Source::ConfigDefault.label(), "standard fra config");
}

#[test]
fn an_explicit_start_is_the_only_attempt() {
    let a = origin_attempts(Some("jobb"), Options::default(), Some("hjem"));
    assert_eq!(a.len(), 1);
    assert!(matches!(&a[0], Attempt::Named { raw, source: Source::Explicit } if raw == "jobb"));
}

#[test]
fn sources_are_tried_gps_then_ip_then_the_default() {
    let a = origin_attempts(None, Options::default(), Some("hjem"));
    assert!(matches!(a[0], Attempt::Gps));
    assert!(matches!(a[1], Attempt::Ip));
    assert!(matches!(&a[2], Attempt::Named { raw, source: Source::ConfigDefault } if raw == "hjem"));
    let b = origin_attempts(None, Options { no_gps: true, no_ip: true }, None);
    assert!(b.is_empty());
    assert!(no_origin_message().starts_with("fant ikke posisjonen din.\n"));
}

#[test]
fn a_saved_place_named_explicitly_counts_as_saved() {
    assert_eq!(saved_place_source(Source::Explicit), Source::SavedPlace);
    assert_eq!(saved_place_source(Source::ConfigDefault), Source::ConfigDefault);
    let place = Place { label: "Hjemme".to_string(), lat_bits: 1, lon_bits: 2 };
    let o = saved_origin(&place, Source::Explicit);
    assert_eq!(o.name, "Hjemme");
    assert_eq!(o.source, Source::SavedPlace);
    assert_eq!((o.coord.lat_bits, o.coord.lon_bits), (1, 2));
}

#[test]
fn core_location_errors_are_translated() {
    assert_eq!(cl_error_text(1), "tilgang avslått (kCLErrorDenied)");
    assert_eq!(cl_error_text(2), "nettverksfeil (kCLErrorNetwork)");
    assert_eq!(cl_error_text(17), "Core Location-feil 17");
    assert_eq!(cl_error_text(-3), "Core Location-feil -3");
}

#[test]
fn a_refused_grant_fails_before_waiting() {
    assert!(matches!(refused_up_front(2), Some(GpsEnd::Failed { .. })));
    assert!(matches!(refused_up_front(1), Some(GpsEnd::Failed { .. })));
    assert!(refused_up_front(0).is_none());
    assert!(refused_up_front(3).is_none());
    assert!(must_ask_first(0));
    assert!(!must_ask_first(4));
    match refused_after_asking(0) {
        Some(GpsEnd::Failed { note, error }) => {
            assert_eq!(note, "tilgangsdialogen ble ikke besvart");
            assert!(error.starts_with("ingen svar på tilgangsdialogen."));
        },
        other => panic!("unexpected {other:?}"),
    }
    assert!(refused_after_asking(4).is_none());
}

#[test]
fn only_a_denial_stops_the_wait_early() {
    assert!(keep_waiting(0, false, false, i64::MIN));
    assert!(keep_waiting(9999, false, false, 0));
    assert!(!keep_waiting(10000, false, false, i64::MIN));
    assert!(!keep_waiting(0, false, false, 1));
    assert!(!keep_waiting(0, true, false, i64::MIN));
    assert!(!keep_waiting(0, false, true, i64::MIN));
    assert!(keep_asking(59999, 0));
    assert!(!keep_asking(60000, 0));
    assert!(!keep_asking(0, 3));
}

#[test]
fn the_wait_ends_with_a_fix_an_error_or_a_timeout() {
    match wait_outcome(Some(true), i64::MIN, 10) {
        GpsEnd::Fix { note } => assert_eq!(note, "fikk posisjon fra systemets mellomlagrede måling"),
        other => panic!("unexpected {other:?}"),
    }
    match wait_outcome(None, 2, 10) {
        GpsEnd::Failed { note, error } => {
            assert_eq!(note, "nettverksfeil (kCLErrorNetwork)");
            assert_eq!(error, "nettverksfeil (kCLErrorNetwork). Bruk `--no-gps` for å hoppe over GPS.");
        },
        other => panic!("unexpected {other:?}"),
    }
    match wait_outcome(None, i64::MIN, 10) {
        GpsEnd::NoFix { note } => assert_eq!(note, "tidsavbrudd etter 10 sekunder uten svar fra Core Location"),
        other => panic!("unexpected {other:?}"),
    }
}

#[test]
fn core_location_rows_report_the_observed_state() {
    let rows = core_location_rows(2, true, false, Some("du avslo tilgangsdialogen"), true);
    assert_eq!(rows.len(), 5);
    assert_eq!(rows[0], ("Stedstjenester på maskinen".to_string(), "på".to_string()));
    assert_eq!(rows[1], ("Tilgang for ruter".to_string(), "avslått".to_string()));
    assert_eq!(rows[3].1, "du avslo tilgangsdialogen");
    assert_eq!(rows[4].0, "Merk");
    let odd = core_location_rows(9, true, true, None, false);
    assert_eq!(odd, vec![("Stedstjenester".to_string(), "ukjent status 9".to_string())]);
    assert_eq!(gps_diagnostics()[0].1, "støttes bare på macOS");
}

#[test]
fn a_name_is_a_saved_place_then_coordinates_then_an_address() {
    let mut config = Config::default();
    save_place(&mut config, "hjem".to_string(), Place { label: "Dronningens gate 40, Oslo".to_string(), lat_bits: 10, lon_bits: 11 });
    let here = Coord { lat_bits: 5, lon_bits: 6 };
    match named_step(&config, "HJEM", Some(here), Source::Explicit) {
        NamedStep::Saved(o) => {
            assert_eq!(o.name, "Dronningens gate 40, Oslo");
            assert_eq!((o.coord.lat_bits, o.coord.lon_bits), (10, 11));
            assert_eq!(o.source, Source::SavedPlace);
        }
        _ => panic!("a saved place comes first"),
    }
    match named_step(&config, "59.9,10.7", Some(here), Source::Explicit) {
        NamedStep::Coordinates(c) => assert_eq!((c.lat_bits, c.lon_bits), (5, 6)),
        _ => panic!("a coordinate pair comes next"),
    }
    assert!(matches!(named_step(&config, "Oslo S", None, Source::ConfigDefault), NamedStep::Lookup));
}
