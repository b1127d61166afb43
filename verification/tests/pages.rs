use chrono::NaiveDate;
use rust_changelogs::changelog_generator::{
    index_head, push_index_foot, push_issue_line, push_label_line, push_request, push_train_link,
    released_page, unreleased_head,
};
use rust_changelogs::date::{Date, Timestamp};
use rust_changelogs::records::{is_listed, Issue, Label, MilestoneRef, PullRequest};
use rust_changelogs::version::Version;
use rust_changelogs::{ChangelogGenerator, Config, VersionManager};

fn generator() -> ChangelogGenerator {
    ChangelogGenerator::new(VersionManager::new(Config::new()))
}

fn day(text: &str) -> Date {
    Date::parse(text).unwrap()
}

fn version(text: &str) -> Version {
    Version::parse(text).unwrap()
}

fn instant(year: i32, month: u32, day: u32, hour: u32) -> Timestamp {
    let at = NaiveDate::from_ymd_opt(year, month, day).unwrap().and_hms_opt(hour, 0, 0).unwrap();
    Timestamp { seconds: at.and_utc().timestamp(), nanos: 0 }
}

fn issue(title: &str, closed: Option<&str>) -> Issue {
    Issue {
        title: title.to_string(),
        html_url: format!("https://github.com/rust-lang/rust/issues/{title}"),
        closed_at: closed.map(day),
    }
}

fn milestone(text: &str, number: i64) -> MilestoneRef {
    MilestoneRef { version: version(text), number }
}

fn request(title: &str, number: u64, created_at: Timestamp, labels: Vec<Label>) -> PullRequest {
    PullRequest {
        title: title.to_string(),
        number,
        html_url: format!("https://github.com/rust-lang/rust/pull/{number}"),
        created_at,
        labels,
    }
}

const FOOT: &str = "\n\n## About releases.rs\n\n- [Github Repo](https://github.com/releases-rs/releases-rs/)\n- Generated at <span class=\"utc-timestamp\" data-utc=\"2023-06-10T12:00:00+00:00\">...</span>\n\n";

#[test]
fn released_page_of_a_minor_release() {
    let page = generator()
        .generate_released_version_content(
            &version("1.70.0"),
            "\n- Language\n  stuff\n\n",
            &day("2023-06-01"),
        )
        .unwrap();
    assert_eq!(
        page,
        "---\nweight: 18446744073692756479\n\n---\n\n1.70.0\n=========\n\n{{% hint info %}}\n- Released on: _1 June, 2023_\n- Branched from master on: _14 April, 2023_\n{{% /hint %}}\n\nChanges\n-------\n- Language\n  stuff\n"
    );
}

#[test]
fn released_page_of_a_patch_release() {
    let page = generator()
        .generate_released_version_content(
            &version("1.70.1"),
            "  Language\n--------\n- this\t\n",
            &day("2023-06-12"),
        )
        .unwrap();
    assert_eq!(
        page,
        "---\nweight: 18446744073692756478\n\n---\n\n1.70.1\n=========\n\n{{% hint info %}}\n- Released on: _12 June, 2023_\n- This is a patch release\n{{% /hint %}}\n\nLanguage\n--------\n- this\n"
    );
}

#[test]
fn released_page_without_notes() {
    let page = generator()
        .generate_released_version_content(&version("1.71.0"), " \n\t ", &day("2023-07-13"))
        .unwrap();
    assert_eq!(
        page,
        "---\nweight: 18446744073692756223\n\n---\n\n1.71.0\n=========\n\n{{% hint info %}}\n- Released on: _13 July, 2023_\n- Branched from master on: _26 May, 2023_\n{{% /hint %}}\n\n\n"
    );
}

#[test]
fn released_page_is_refused_beyond_the_limits() {
    let generator = generator();
    assert!(generator
        .generate_released_version_content(&version("1099511627776.0.0"), "", &day("2023-06-01"))
        .is_none());
    assert!(generator
        .generate_released_version_content(&version("1.2.0"), "", &Date::from_day_number(i32::MIN))
        .is_none());
    assert!(generator
        .generate_released_version_content(&version("1.2.0"), "", &Date::from_day_number(i32::MAX))
        .is_none());
    assert!(generator
        .generate_released_version_content(&version("1.2.1"), "", &Date::from_day_number(i32::MAX))
        .is_none());
    assert!(generator
        .generate_released_version_content(&version("1.2.1"), "", &day("2023-06-01"))
        .is_some());
}

#[test]
fn released_page_from_its_parts() {
    let page = released_page(7, &version("1.2.3-rc.1"), "today", Some("yesterday"), "-");
    assert_eq!(
        page,
        "---\nweight: 7\n\n---\n\n1.2.3-rc.1\n=========\n\n{{% hint info %}}\n- Released on: _today_\n- Branched from master on: _yesterday_\n{{% /hint %}}\n\nChanges\n-------\n-\n"
    );
    let page = released_page(0, &version("1.2.3"), "", None, "a - b");
    assert_eq!(
        page,
        "---\nweight: 0\n\n---\n\n1.2.3\n=========\n\n{{% hint info %}}\n- Released on: __\n- This is a patch release\n{{% /hint %}}\n\na - b\n"
    );
}

#[test]
fn unreleased_page_of_the_nightly_version() {
    let issues = vec![
        issue("A", Some("2023-06-08")),
        issue("B", Some("2023-06-09")),
        issue("C", None),
        issue("D", Some("2023-06-08")),
        issue("E", Some("2023-06-10")),
        issue("F", Some("2023-06-11")),
    ];
    let page = generator()
        .generate_unreleased_version_content(
            &version("1.72.0"),
            104,
            &version("1.70.0"),
            &issues,
            day("2023-06-10"),
        )
        .unwrap();
    assert_eq!(
        page,
        "---\nweight: 18446744073692755967\n\n---\n\n1.72.0 nightly\n=========\n\n{{% hint warning %}}\n**Unreleased**\n\n- Will be stable on: _24 August, 2023_\n- Will branch from master on: _7 July, 2023_\n{{% /hint %}}\n\n\
- [F](https://github.com/rust-lang/rust/issues/F) _(merged -1 days ago)_\n\
- [E](https://github.com/rust-lang/rust/issues/E) _(merged 0 days ago)_\n\
- [B](https://github.com/rust-lang/rust/issues/B) _(merged 1 day ago)_\n\
- [A](https://github.com/rust-lang/rust/issues/A) _(merged 2 days ago)_\n\
- [D](https://github.com/rust-lang/rust/issues/D) _(merged 2 days ago)_\n"
    );
}

#[test]
fn unreleased_page_of_the_beta_version() {
    let page = generator()
        .generate_unreleased_version_content(
            &version("1.71.0"),
            103,
            &version("1.70.0"),
            &Vec::new(),
            day("2023-06-10"),
        )
        .unwrap();
    assert_eq!(
        page,
        "---\nweight: 18446744073692756223\n\n---\n\n1.71.0 beta\n=========\n\n{{% hint warning %}}\n**Unreleased, branched from master**\n\n- Will be stable on: _13 July, 2023_\n- Branched from master on: _26 May, 2023_\n{{% /hint %}}\n\n"
    );
}

#[test]
fn unreleased_page_on_the_day_of_the_branch() {
    let page = generator()
        .generate_unreleased_version_content(
            &version("1.71.0"),
            103,
            &version("1.70.0"),
            &Vec::new(),
            day("2023-06-01"),
        )
        .unwrap();
    assert!(page.contains("**Unreleased, branched from master**"));
    let page = generator()
        .generate_unreleased_version_content(
            &version("1.72.0"),
            103,
            &version("1.70.0"),
            &Vec::new(),
            day("2023-07-07"),
        )
        .unwrap();
    assert!(page.contains("**Unreleased**\n"));
    assert!(page.contains("- Will branch from master on: _7 July, 2023_"));
    let page = generator()
        .generate_unreleased_version_content(
            &version("1.72.0"),
            103,
            &version("1.70.0"),
            &Vec::new(),
            day("2023-07-08"),
        )
        .unwrap();
    assert!(page.contains("- Branched from master on: _7 July, 2023_"));
}

#[test]
fn unreleased_page_of_other_versions() {
    let far = generator()
        .generate_unreleased_version_content(
            &version("1.75.0"),
            1,
            &version("1.70.0"),
            &Vec::new(),
            day("2023-06-10"),
        )
        .unwrap();
    assert!(far.contains("\n\n1.75.0 \n=========\n"));
    assert!(far.contains("- Will be stable on: _28 December, 2023_"));
    let old = generator()
        .generate_unreleased_version_content(
            &version("1.69.0"),
            1,
            &version("1.70.0"),
            &Vec::new(),
            day("2023-06-10"),
        )
        .unwrap();
    assert!(old.contains("\n\n1.69.0 \n=========\n"));
    assert!(old.contains("- Will be stable on: _20 April, 2023_"));
    assert!(old.contains("- Branched from master on: _3 March, 2023_"));
    let major = generator()
        .generate_unreleased_version_content(
            &version("2.1.0"),
            1,
            &version("1.0.0"),
            &Vec::new(),
            day("2023-06-10"),
        )
        .unwrap();
    assert!(major.contains("\n\n2.1.0 beta\n=========\n"));
}

#[test]
fn unreleased_page_is_refused_beyond_the_limits() {
    let generator = generator();
    let none = Vec::new();
    let today = day("2023-06-10");
    assert!(generator
        .generate_unreleased_version_content(
            &version("1.18446744073709551615.0"),
            1,
            &version("1.70.0"),
            &none,
            today
        )
        .is_none());
    assert!(generator
        .generate_unreleased_version_content(
            &version("1.0.0"),
            1,
            &version("1.18446744073709551615.0"),
            &none,
            today
        )
        .is_none());
    assert!(generator
        .generate_unreleased_version_content(
            &version("1099511627776.71.0"),
            1,
            &version("1.70.0"),
            &none,
            today
        )
        .is_none());
    assert!(generator
        .generate_unreleased_version_content(
            &version("1.71.0"),
            1,
            &version("1.70.0"),
            &none,
            Date::from_day_number(i32::MAX)
        )
        .is_none());
}

#[test]
fn unreleased_head_from_its_parts() {
    let head = unreleased_head(9, &version("1.3.0"), &version("1.1.0"), true, "soon", "then");
    assert_eq!(
        head,
        "---\nweight: 9\n\n---\n\n1.3.0 nightly\n=========\n\n{{% hint warning %}}\n**Unreleased, branched from master**\n\n- Will be stable on: _soon_\n- Branched from master on: _then_\n{{% /hint %}}\n\n"
    );
    let head = unreleased_head(9, &version("1.1.0"), &version("1.3.0"), false, "soon", "then");
    assert_eq!(
        head,
        "---\nweight: 9\n\n---\n\n1.1.0 \n=========\n\n{{% hint warning %}}\n**Unreleased**\n\n- Will be stable on: _soon_\n- Will branch from master on: _then_\n{{% /hint %}}\n\n"
    );
    let top = unreleased_head(
        9,
        &version("1.1.0"),
        &version("1.18446744073709551615.0"),
        false,
        "",
        "",
    );
    assert!(top.contains("\n1.1.0 \n"));
}

#[test]
fn issue_line_from_its_parts() {
    let mut page = "above\n".to_string();
    push_issue_line(&mut page, &issue("T", None), "3 days");
    assert_eq!(
        page,
        "above\n- [T](https://github.com/rust-lang/rust/issues/T) _(merged 3 days ago)_\n"
    );
}

fn two_requests() -> Vec<PullRequest> {
    vec![
        request(
            "Stabilize \"foo\"",
            1,
            instant(2023, 6, 1, 0),
            vec![
                Label {
                    name: "T-lang".to_string(),
                    description: Some("Relevant to the language team".to_string()),
                },
                Label { name: "S-waiting".to_string(), description: None },
            ],
        ),
        request("Partially stabilize bar", 2, instant(2023, 6, 9, 13), Vec::new()),
    ]
}

const REQUESTS: &str = "\n\n## Ongoing Stabilization PRs\n\n\
{{% details \"Partially stabilize bar (0 days old)\" %}}\n\n[Open PR #2](https://github.com/rust-lang/rust/pull/2)\n\n{{% /details %}}\n\
{{% details \"Stabilize \\\"foo\\\" (9 days old)\" %}}\n* _T-lang_ - Relevant to the language team\n* _S-waiting_\n\n[Open PR #1](https://github.com/rust-lang/rust/pull/1)\n\n{{% /details %}}\n";

const HEAD: &str = "---\ntitle: Rust Versions\ntype: docs\n---\n\n## Rust Versions\n\n- Stable: [1.70.0](/docs/1.70.0)\n";

#[test]
fn index_with_both_trains() {
    let unreleased = vec![milestone("1.72.0", 104), milestone("1.71.0", 103)];
    let page = generator()
        .generate_index_content(
            &version("1.70.0"),
            &version("1.71.0"),
            &version("1.72.0"),
            &unreleased,
            &two_requests(),
            instant(2023, 6, 10, 12),
        )
        .unwrap();
    let links = "- Beta: [1.71.0](/docs/1.71.0) (13 July, 2023, 33 days left)\n- Nightly: [1.72.0](/docs/1.72.0) (24 August, 2023, 75 days left)\n";
    assert_eq!(page, format!("{HEAD}{links}{REQUESTS}{FOOT}"));
}

#[test]
fn index_with_the_beta_train_alone() {
    let unreleased = vec![milestone("1.73.0", 105), milestone("1.71.0", 103)];
    let page = generator()
        .generate_index_content(
            &version("1.70.0"),
            &version("1.71.0"),
            &version("1.72.0"),
            &unreleased,
            &two_requests(),
            instant(2023, 6, 10, 12),
        )
        .unwrap();
    let links = "- Beta: [1.71.0](/docs/1.71.0) (13 July, 2023, 33 days left)\n";
    assert_eq!(page, format!("{HEAD}{links}{REQUESTS}{FOOT}"));
    assert!(!page.contains("- Nightly: "));
}

#[test]
fn index_with_the_nightly_train_alone() {
    let unreleased = vec![milestone("1.72.0", 104)];
    let page = generator()
        .generate_index_content(
            &version("1.70.0"),
            &version("1.71.0"),
            &version("1.72.0"),
            &unreleased,
            &Vec::new(),
            instant(2023, 6, 10, 12),
        )
        .unwrap();
    let links = "- Nightly: [1.72.0](/docs/1.72.0) (24 August, 2023, 75 days left)\n";
    assert_eq!(
        page,
        format!("{HEAD}{links}\n\n## Ongoing Stabilization PRs\n\n{FOOT}")
    );
    assert!(!page.contains("- Beta: "));
}

#[test]
fn index_without_trains() {
    let page = generator()
        .generate_index_content(
            &version("1.70.0"),
            &version("1.71.0"),
            &version("1.72.0"),
            &vec![milestone("1.71.0-beta.1", 1), milestone("1.72.1", 2)],
            &Vec::new(),
            instant(2023, 6, 10, 12),
        )
        .unwrap();
    assert_eq!(page, format!("{HEAD}\n\n## Ongoing Stabilization PRs\n\n{FOOT}"));
    assert!(!page.contains("- Beta: "));
    assert!(!page.contains("- Nightly: "));
}

#[test]
fn index_counts_one_day() {
    let unreleased = vec![milestone("1.71.0", 103)];
    let page = generator()
        .generate_index_content(
            &version("1.70.0"),
            &version("1.71.0"),
            &version("1.72.0"),
            &unreleased,
            &vec![request("stabilize", 7, instant(2023, 7, 11, 0), Vec::new())],
            instant(2023, 7, 12, 23),
        )
        .unwrap();
    assert!(page.contains("- Beta: [1.71.0](/docs/1.71.0) (13 July, 2023, 1 day left)\n"));
    assert!(page.contains("{{% details \"stabilize (1 day old)\" %}}\n"));
}

#[test]
fn index_shows_requests_of_one_instant_last_given_first() {
    let at = instant(2023, 6, 1, 0);
    let requests = vec![
        request("first", 1, at, Vec::new()),
        request("newest", 2, Timestamp { seconds: at.seconds, nanos: 1 }, Vec::new()),
        request("second", 3, at, Vec::new()),
        request("oldest", 4, Timestamp { seconds: at.seconds - 1, nanos: 999_999_999 }, Vec::new()),
        request("third", 5, at, Vec::new()),
    ];
    let page = generator()
        .generate_index_content(
            &version("1.70.0"),
            &version("1.71.0"),
            &version("1.72.0"),
            &Vec::new(),
            &requests,
            instant(2023, 6, 10, 12),
        )
        .unwrap();
    let place = |title: &str| page.find(&format!("\"{title} (")).unwrap();
    assert!(place("newest") < place("third"));
    assert!(place("third") < place("second"));
    assert!(place("second") < place("first"));
    assert!(place("first") < place("oldest"));
}

#[test]
fn index_is_refused_beyond_the_limits() {
    let generator = generator();
    let stable = version("1.70.0");
    let beta = version("1.71.0");
    let nightly = version("1.72.0");
    let none = Vec::new();
    let no_requests = Vec::new();
    let listed = vec![milestone("1.71.0", 103)];
    let end = Timestamp { seconds: i64::MAX, nanos: 0 };
    assert!(generator
        .generate_index_content(&stable, &beta, &nightly, &none, &no_requests, end)
        .is_none());
    let leap = Timestamp { seconds: 0, nanos: 2_000_000_000 };
    assert!(generator
        .generate_index_content(&stable, &beta, &nightly, &none, &no_requests, leap)
        .is_none());
    // The last instant that chrono knows: the next release has no date.
    let last_day = NaiveDate::MAX.and_hms_opt(0, 0, 0).unwrap().and_utc().timestamp();
    let last = Timestamp { seconds: last_day, nanos: 0 };
    assert!(generator
        .generate_index_content(&stable, &beta, &nightly, &none, &no_requests, last)
        .is_some());
    assert!(generator
        .generate_index_content(&stable, &beta, &nightly, &listed, &no_requests, last)
        .is_none());
}

#[test]
fn index_parts() {
    assert_eq!(
        index_head(&version("1.2.3-rc.1")),
        "---\ntitle: Rust Versions\ntype: docs\n---\n\n## Rust Versions\n\n- Stable: [1.2.3-rc.1](/docs/1.2.3-rc.1)\n"
    );
    let mut page = String::new();
    push_train_link(&mut page, "Beta", &version("1.3.0"), "a day", "some days");
    assert_eq!(page, "- Beta: [1.3.0](/docs/1.3.0) (a day, some days left)\n");
    let mut page = "x".to_string();
    push_label_line(&mut page, &Label { name: "n".to_string(), description: Some("d".to_string()) });
    push_label_line(&mut page, &Label { name: "m".to_string(), description: None });
    push_label_line(&mut page, &Label { name: "".to_string(), description: Some("".to_string()) });
    assert_eq!(page, "x* _n_ - d\n* _m_\n* __ - \n");
    let mut page = String::new();
    push_request(
        &mut page,
        &request("say \"\"", 18446744073709551615, instant(2023, 6, 1, 0), Vec::new()),
        "ages",
    );
    assert_eq!(
        page,
        "{{% details \"say \\\"\\\" (ages old)\" %}}\n\n[Open PR #18446744073709551615](https://github.com/rust-lang/rust/pull/18446744073709551615)\n\n{{% /details %}}\n"
    );
    let mut page = "x".to_string();
    push_index_foot(&mut page, "now");
    assert_eq!(
        page,
        "x\n\n## About releases.rs\n\n- [Github Repo](https://github.com/releases-rs/releases-rs/)\n- Generated at <span class=\"utc-timestamp\" data-utc=\"now\">...</span>\n\n"
    );
}

#[test]
fn listed_versions_are_found_by_all_their_parts() {
    let unreleased = vec![milestone("1.72.0", 104), milestone("1.71.0-beta.1", 103)];
    assert!(is_listed(&unreleased, &version("1.72.0")));
    assert!(is_listed(&unreleased, &version("1.71.0-beta.1")));
    assert!(!is_listed(&unreleased, &version("1.71.0")));
    assert!(!is_listed(&unreleased, &version("1.72.0+build")));
    assert!(!is_listed(&Vec::new(), &version("1.72.0")));
}
