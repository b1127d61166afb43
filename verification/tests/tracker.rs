use rust_changelogs::changelog::ReleaseError;
use rust_changelogs::tracker::{
    is_stabilization_title, lower_title_announces, stabilization_query, MilestoneLedger,
};
use rust_changelogs::version::Version;
use rust_changelogs::Config;

#[test]
fn stabilization_titles_begin_with_the_term() {
    assert!(is_stabilization_title("Stabilize let chains", "stabilize"));
    assert!(is_stabilization_title("stabilize let chains", "stabilize"));
    assert!(is_stabilization_title("STABILIZATION of x", "stabilization"));
    assert!(is_stabilization_title("Partial stabilize x", "stabilize"));
    assert!(is_stabilization_title("Partially Stabilise x", "stabilise"));
    assert!(is_stabilization_title("stabilize", "stabilize"));
    assert!(is_stabilization_title("anything", ""));
    assert!(!is_stabilization_title("Do not stabilize x", "stabilize"));
    assert!(!is_stabilization_title("Partly stabilize x", "stabilize"));
    assert!(!is_stabilization_title("Partial  stabilize x", "stabilize"));
    assert!(!is_stabilization_title("stabiliz", "stabilize"));
    assert!(!is_stabilization_title("partial ", "stabilize"));
    assert!(!is_stabilization_title("", "stabilize"));
    assert!(!is_stabilization_title("Stabilize x", "Stabilize"));
}

#[test]
fn stabilization_query_names_the_repository() {
    let config = Config::new();
    assert_eq!(
        stabilization_query(
            &config.repo_owner,
            &config.repo_name,
            &config.stabilization_search_terms[1]
        ),
        "is:pr is:open in:title repo:rust-lang/rust stabilize"
    );
    assert_eq!(stabilization_query("", "", ""), "is:pr is:open in:title repo:/ ");
}

#[test]
fn ledger_keeps_the_first_milestone_of_a_version() {
    let mut ledger = MilestoneLedger::new(2);
    assert!(!ledger.observe("1.72.0", 104));
    assert!(!ledger.observe("1.72.0", 999));
    assert!(!ledger.observe("not a version", 1));
    assert!(!ledger.observe("1.72", 2));
    assert!(!ledger.observe("1.71.0", 103));
    assert_eq!(ledger.found.len(), 2);
    assert!(ledger.observe("1.70.0", 102));
    assert!(ledger.observe("1.70.0", 102));
    assert!(!ledger.observe("soon", 102));
    assert!(ledger.observe("1.69.0", 101));
    let found: Vec<(String, i64)> =
        ledger.found.iter().map(|m| (m.version.text(), m.number)).collect();
    assert_eq!(
        found,
        [
            ("1.72.0".to_string(), 104),
            ("1.71.0".to_string(), 103),
            ("1.70.0".to_string(), 102),
            ("1.69.0".to_string(), 101)
        ]
    );
    assert!(ledger.tracks(&Version::parse("1.70.0").unwrap()));
    assert!(!ledger.tracks(&Version::parse("1.68.0").unwrap()));
}

#[test]
fn ledger_without_room_stops_at_the_first_version() {
    let mut ledger = MilestoneLedger::new(0);
    assert!(!ledger.observe("later", 1));
    assert!(ledger.observe("1.72.0", 104));
    assert_eq!(ledger.limit, 0);
}

#[test]
fn config_names_the_site() {
    let config = Config::new();
    assert_eq!(config.num_versions, 5);
    assert_eq!(
        config.rust_releases_url,
        "https://raw.githubusercontent.com/rust-lang/rust/stable/RELEASES.md"
    );
    assert_eq!(config.repo_owner, "rust-lang");
    assert_eq!(config.repo_name, "rust");
    assert_eq!(config.hugo_template_dir, "hugo/rust-changelogs/template");
    assert_eq!(config.hugo_content_dir, "hugo/rust-changelogs/content");
    assert_eq!(config.hugo_public_dir, "hugo/rust-changelogs/public");
    assert_eq!(
        config.stabilization_search_terms,
        ["stabilise", "stabilize", "stabilisation", "stabilization"]
    );
    assert_eq!(
        config.version_page_path(&Version::parse("1.70.0").unwrap()),
        "hugo/rust-changelogs/content/docs/1.70.0.md"
    );
    assert_eq!(config.index_path(), "hugo/rust-changelogs/content/_index.md");
}

#[test]
fn titles_in_lower_case_are_taken_as_they_are() {
    assert!(lower_title_announces("stabilize x", "stabilize"));
    assert!(lower_title_announces("partially stabilize x", "stabilize"));
    assert!(lower_title_announces("partial stabilize", "stabilize"));
    assert!(!lower_title_announces("Stabilize x", "stabilize"));
    assert!(!lower_title_announces("partially", "stabilize"));
    assert!(lower_title_announces("Stabilize x", "Stabilize"));
}

#[test]
fn ledger_notes_versions() {
    let mut ledger = MilestoneLedger::new(1);
    assert!(!ledger.note(Version::parse("1.2.0").unwrap(), 7));
    assert!(!ledger.note(Version::parse("1.2.0").unwrap(), 8));
    assert!(ledger.note(Version::parse("1.2.0-rc.1").unwrap(), 9));
    assert_eq!(ledger.found.len(), 2);
    assert_eq!(ledger.found[0].number, 7);
    assert_eq!(ledger.found[1].number, 9);
    assert_eq!(ledger.found[1].clone().version, Version::parse("1.2.0-rc.1").unwrap());
}

#[test]
fn errors_say_what_failed() {
    assert_eq!(ReleaseError::Marker.message(), "The section marker is no pattern");
    assert_eq!(
        ReleaseError::Date { text: "2022-13-19".to_string() }.message(),
        "No release date in '2022-13-19'"
    );
    assert_eq!(
        ReleaseError::Version { token: "1.x".to_string() }.message(),
        "Lenient version parsing failed for '1.x'"
    );
    assert_eq!(ReleaseError::NoRelease.message(), "No version of the changelog is released");
    assert_eq!(
        ReleaseError::MinorLimit.message(),
        "The minor number of the stable version is too large"
    );
}
