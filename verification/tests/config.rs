use ruter::config::{eq_ignore_case, Config, NameMap, Place};

fn place(label: &str) -> Place {
    Place { label: label.to_string(), lat_bits: 59.9f64.to_bits(), lon_bits: 10.7f64.to_bits() }
}

#[test]
fn place_lookup_is_case_insensitive() {
    let mut cfg = Config::default();
    cfg.places.insert("home".to_string(), place("Hjemme"));
    assert!(cfg.place("home").is_some());
    assert!(cfg.place("HOME").is_some());
    assert!(cfg.place("Home").is_some());
    assert!(cfg.place("work").is_none());
}

#[test]
fn empty_config_uses_defaults() {
    let cfg = Config::default();
    assert_eq!(cfg.num_results, 5);
    assert_eq!(cfg.client_name, "ruter-cli");
    assert_eq!(cfg.max_walk_minutes, 15);
    assert_eq!(cfg.watch_interval_secs, 30);
    assert_eq!(cfg.modes, vec!["bus", "tram", "metro", "rail", "water"]);
    assert!(cfg.places.is_empty());
    assert!(cfg.routes.is_empty());
}

#[test]
fn names_stay_sorted_and_unique() {
    let mut m: NameMap<u32> = NameMap::new();
    m.insert("jobb".to_string(), 1);
    m.insert("hjem".to_string(), 2);
    m.insert("jobb".to_string(), 3);
    assert_eq!(m.len(), 2);
    assert_eq!(m.entry(0), ("hjem", &2));
    assert_eq!(m.entry(1), ("jobb", &3));
    assert_eq!(m.get("jobb"), Some(&3));
    assert_eq!(m.get("JOBB"), None);
    assert_eq!(m.lookup("JOBB"), Some(&3));
    assert_eq!(m.remove("hjem"), Some(2));
    assert_eq!(m.remove("hjem"), None);
    assert_eq!(m.len(), 1);
}

#[test]
fn an_exact_name_wins_over_a_case_variant() {
    let mut m: NameMap<u32> = NameMap::new();
    m.insert("Hjem".to_string(), 1);
    m.insert("hjem".to_string(), 2);
    assert_eq!(m.lookup("hjem"), Some(&2));
    assert_eq!(m.lookup("Hjem"), Some(&1));
    assert_eq!(m.lookup("HJEM"), Some(&1));
    assert!(eq_ignore_case("Ærlig", "Ærlig"));
    assert!(!eq_ignore_case("æ", "Æ"));
}
