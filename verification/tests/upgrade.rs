use ruter::upgrade::{is_newer, parts, release_tag, upgrade_action, upgrade_report, version_of_tag, UpgradeAction};

#[test]
fn detects_newer_versions() {
    assert!(is_newer("0.3.0", "0.2.0"));
    assert!(is_newer("0.2.1", "0.2.0"));
    assert!(is_newer("1.0.0", "0.99.99"));
}

#[test]
fn same_or_older_is_not_newer() {
    assert!(!is_newer("0.2.0", "0.2.0"));
    assert!(!is_newer("0.1.9", "0.2.0"));
}

#[test]
fn a_malformed_tag_never_looks_newer() {
    assert!(!is_newer("latest", "0.2.0"));
    assert!(!is_newer("", "0.2.0"));
}

#[test]
fn prerelease_suffixes_are_ignored() {
    assert_eq!(parts("0.3.0-rc.1"), (0, 3, 0));
    assert_eq!(parts("1.2.3+build.7"), (1, 2, 3));
    assert_eq!(parts("4.x.6"), (4, 0, 6));
}

#[test]
fn the_tag_is_read_from_the_redirect_target() {
    assert_eq!(
        release_tag("https://github.com/mortennordbye/ruter-cli/releases/tag/v0.7.0").as_deref(),
        Some("v0.7.0")
    );
    assert_eq!(release_tag("https://github.com/x/releases/tag/"), None);
    assert_eq!(release_tag("https://github.com/x/releases"), None);
    assert_eq!(version_of_tag("vv0.7.0"), "0.7.0");
}

#[test]
fn the_action_follows_the_comparison() {
    assert_eq!(upgrade_action("0.6.0", "0.6.0", false), UpgradeAction::AlreadyNewest);
    assert_eq!(upgrade_action("0.7.0", "0.6.0", true), UpgradeAction::Announce);
    assert_eq!(upgrade_action("0.7.0", "0.6.0", false), UpgradeAction::Install);
    assert_eq!(
        upgrade_report("0.7.0", "0.6.0", UpgradeAction::Install),
        "Installert versjon: 0.6.0\nNyeste versjon:     0.7.0\n\n==> Oppgraderer til 0.7.0\n"
    );
    assert!(upgrade_report("0.6.0", "0.6.0", UpgradeAction::AlreadyNewest).ends_with("\nDu har allerede nyeste versjon.\n"));
}
