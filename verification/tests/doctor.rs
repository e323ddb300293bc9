use ruter::config::{Config, Place};
use ruter::doctor::{
    doctor_output, doctor_output_with, env_text, probe_text, redact, redact_with, replace_text, set_or_not,
    text_contains, yes_no, DoctorFacts, Report,
};
use ruter::location::Source;

/// Columns are measured in characters, not bytes.
fn value_column(line: &str, value: &str) -> usize {
    line[..line.find(value).expect("value should be on the line")].chars().count()
}

#[test]
fn rows_are_aligned_and_one_per_line() {
    let mut r = Report::default();
    r.head("Seksjon");
    r.row("kort", "a");
    r.row("et_ganske_langt_navn", "b");
    let lines: Vec<&str> = r.text.lines().collect();
    assert_eq!(lines[0], "== Seksjon");
    assert_eq!(lines[1].find('a'), lines[2].find('b'));
}

#[test]
fn the_widest_diagnostic_key_still_aligns() {
    let mut r = Report::default();
    r.row("stedstjenester på maskinen", "VERDI");
    r.row("kort", "VERDI");
    let lines: Vec<&str> = r.text.lines().collect();
    assert_eq!(value_column(lines[0], "VERDI"), value_column(lines[1], "VERDI"));
    assert!(lines[0].contains(" VERDI"), "the long key ate its separator: {:?}", lines[0]);
}

#[test]
fn a_multi_line_value_indents_under_the_value_column() {
    let mut r = Report::default();
    let value = "FEIL: ugyldig konfigurasjon\n  |\n2 | bogus = 1";
    r.row("lesing", value);
    let lines: Vec<&str> = r.text.lines().collect();
    assert_eq!(lines.len(), 3, "each source line keeps its own row");
    let indent = " ".repeat(value_column(lines[0], "FEIL"));
    for (rendered, source) in lines[1..].iter().zip(value.lines().skip(1)) {
        assert_eq!(*rendered, format!("{indent}{source}"));
    }
}

#[test]
fn values_split_into_lines_as_str_lines_does() {
    let mut r = Report::default();
    r.row("a", "");
    r.row("b", "x\r\ny\n");
    r.row("c", "\n");
    let pad = " ".repeat(27);
    assert_eq!(r.text, format!("a{}\nb{}x\n{pad}y\nc{}\n", " ".repeat(26), " ".repeat(26), " ".repeat(26)));
    r.head("Neste");
    assert!(r.text.ends_with("\n\n== Neste\n"));
}

#[test]
fn the_home_directory_never_reaches_the_report() {
    let home = dirs::home_dir().expect("a home directory");
    let path = home.join(".config/ruter/config.toml");
    let out = redact(&path.display().to_string());
    assert!(out.starts_with("~/"), "expected a tilde path, got {out}");
    assert!(!out.contains(&home.display().to_string()), "the home directory survived redaction: {out}");
}

#[test]
fn redaction_replaces_every_occurrence() {
    let home = Some("/home/kari".to_string());
    assert_eq!(redact_with("/home/kari/a:/home/kari/b", &home), "~/a:~/b");
    assert_eq!(redact_with("/home/kari/a", &None), "/home/kari/a");
    assert_eq!(replace_text("aaa", "aa", "~"), "~a");
    assert_eq!(replace_text("ab", "", "~"), "~a~b~");
    assert!(text_contains("/Applications/ruter.app/Contents/MacOS/ruter", ".app/Contents/MacOS/"));
    assert!(!text_contains("/usr/local/bin/ruter", ".app/Contents/MacOS/"));
}

#[test]
fn small_values_read_as_words() {
    assert_eq!(yes_no(true), "ja");
    assert_eq!(yes_no(false), "nei");
    assert_eq!(set_or_not(true), "satt");
    assert_eq!(set_or_not(false), "ikke satt");
    let home = Some("/home/kari".to_string());
    assert_eq!(probe_text(&Ok(()), 42, &home), "OK (42 ms)");
    assert_eq!(probe_text(&Err("fant ikke /home/kari/x".to_string()), 7, &home), "FEIL etter 7 ms: fant ikke ~/x");
    assert_eq!(env_text(&Some(String::new()), &home), "ikke satt");
    assert_eq!(env_text(&None, &home), "ikke satt");
    assert_eq!(env_text(&Some("/home/kari/.config".to_string()), &home), "~/.config");
}

fn row(key: &str, value: &str) -> String {
    format!("{key:<27}{value}\n")
}

fn facts(config: Config) -> DoctorFacts {
    DoctorFacts {
        version: "0.6.0".to_string(),
        platform: "linux x86_64".to_string(),
        macos: "ikke macOS".to_string(),
        exe: Ok("/home/kari/.local/bin/ruter".to_string()),
        lookup: Some(Source::Ip),
        gps_rows: vec![("Stedstjenester".to_string(), "støttes bare på macOS".to_string())],
        config_path: Ok(("/home/kari/.config/ruter/config.toml".to_string(), true)),
        loaded: Ok(()),
        config,
        journey_probe: (Ok(()), 120),
        geocoder_probe: (Err("tidsavbrudd".to_string()), 20000),
        env: vec![("TERM".to_string(), Some("xterm".to_string())), ("NO_COLOR".to_string(), None)],
        colour: false,
    }
}

#[test]
fn saved_places_are_reported_as_counts_not_contents() {
    let mut config = Config::default();
    config.places.insert(
        "hjem".to_string(),
        Place { label: "Dronningens gate 40, Oslo".to_string(), lat_bits: 59.912517f64.to_bits(), lon_bits: 10.74882f64.to_bits() },
    );
    config.default_origin = Some("hjem".to_string());
    let mut r = Report::default();
    r.row("lagrede steder", "1");
    r.row("default_origin", &set_or_not(config.default_origin.is_some()));
    assert!(r.text.contains('1'));
    assert!(r.text.contains("satt"));
    let out = doctor_output_with(&facts(config), &Some("/home/kari".to_string()));
    assert!(out.contains(&row("lagrede steder", "1")), "{out}");
    assert!(out.contains(&row("default_origin", "satt")), "{out}");
    assert!(!out.contains("Dronningens"), "an address leaked: {out}");
    assert!(!out.contains("59.91"), "a coordinate leaked: {out}");
    assert!(!out.contains("/home/kari"), "the home directory leaked: {out}");
}

#[test]
fn a_failed_lookup_is_reported_without_its_query() {
    let mut config = Config::default();
    config.default_origin = Some("Dronningens gate 40".to_string());
    let mut f = facts(config);
    f.lookup = None;
    let out = doctor_output_with(&f, &Some("/home/kari".to_string()));
    assert!(out.contains(&row("oppslag", "FEIL: fant ingen posisjon")), "{out}");
    assert!(!out.contains("Dronningens"), "the origin leaked: {out}");
}

#[test]
fn the_report_is_fenced_and_sectioned() {
    let out = doctor_output_with(&facts(Config::default()), &Some("/home/kari".to_string()));
    assert!(out.starts_with("\nLim inn alt under i issuen."));
    assert!(out.contains(&format!("```\n== ruter doctor\n{}", row("ruter", "0.6.0"))), "{out}");
    assert!(out.contains(&row("app-bundle", "nei (~/.local/bin/ruter)")), "{out}");
    assert!(out.contains(&format!("\n\n== Posisjon\n{}stedstjenester", row("oppslag", "OK, kilde: IP (unøyaktig)"))), "{out}");
    assert!(out.contains(&format!("{}{}", row("sti", "~/.config/ruter/config.toml"), row("finnes", "ja"))), "{out}");
    assert!(out.contains(&row("geocoder", "FEIL etter 20000 ms: tidsavbrudd")), "{out}");
    assert!(
        out.contains(&format!("{}{}{}```\n", row("term", "xterm"), row("no_color", "ikke satt"), row("farger", "nei"))),
        "{out}"
    );
    assert!(doctor_output(&facts(Config::default())).contains("== Terminal"));
}
