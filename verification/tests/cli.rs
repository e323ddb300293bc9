use ruter::cli::{Cli, Common};

fn common(color: Option<&str>) -> Common {
    Common {
        from: None,
        watch: false,
        json: false,
        count: None,
        modes: None,
        no_gps: false,
        no_ip: false,
        color: color.map(str::to_string),
    }
}

#[test]
fn colour_can_be_forced_either_way() {
    assert_eq!(common(Some("always")).colour_override(), Some(true));
    assert_eq!(common(Some("never")).colour_override(), Some(false));
    assert_eq!(common(Some("auto")).colour_override(), None);
    assert_eq!(common(None).colour_override(), None);
}

#[test]
fn destination_words_are_joined_back() {
    let cli = |words: &[&str]| Cli {
        destination: words.iter().map(|w| w.to_string()).collect(),
        common: common(None),
        command: None,
    };
    assert_eq!(cli(&["Brekkelia", "3D"]).destination_text().as_deref(), Some("Brekkelia 3D"));
    assert_eq!(cli(&["hjem"]).destination_text().as_deref(), Some("hjem"));
    assert_eq!(cli(&[]).destination_text(), None);
}
