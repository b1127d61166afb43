//! The pages of the site: one for each released version, one for each
//! version that is still to come, and the index.

use crate::date::{
    chrono_format_date, chrono_rfc3339, day_number_of, whole_days_between, Date, Timestamp,
};
use crate::order::{index_views, key_views, order_by_key, stable_order};
use crate::phrase::{count_phrase, counted};
use crate::records::{
    has_milestone, is_listed, issue_views, milestone_views, pull_request_views, Issue, IssueView,
    Label, LabelView, MilestoneRef, MilestoneView, PullRequest, PullRequestView,
};
use crate::text::{
    decimal, escape_quotes, push_chars, push_decimal, push_escaped, to_chars, trim_bounds, trimmed,
};
use crate::version::{Version, VersionView};
use crate::version_manager::{
    branch_day, cadence_fits, release_day, weight, weight_fits, VersionManager,
};
use vstd::prelude::*;

verus! {

/// The strftime pattern of the dates on the pages: the day of the month
/// without padding, the name of the month, and the year.
pub open spec fn long_date_pattern() -> Seq<char> {
    seq!['%', '-', 'd', ' ', '%', 'B', ',', ' ', '%', 'C', '%', 'y']
}

/// A day as the pages write it, where `chrono` can write it.
pub open spec fn long_date(day: int) -> Option<Seq<char>> {
    chrono_format_date(day, long_date_pattern())
}

/// The view of a text that may be missing.
pub open spec fn view_of(text: Option<String>) -> Option<Seq<char>> {
    match text {
        Some(t) => Some(t@),
        None => None,
    }
}

/// Writes a day as the pages write it.
pub fn write_long_date(day: Date) -> (text: Option<String>)
    ensures
        view_of(text) == long_date(day@),
{
    let pattern = "%-d %B, %C%y";
    proof {
        reveal_strlit("%-d %B, %C%y");
        assert(pattern@ =~= long_date_pattern());
    }
    day.format(pattern)
}

/// The notes of a release as its page shows them: without white space at
/// their ends, and under a heading of their own where they begin with a
/// list item.
pub open spec fn notes_text(body: Seq<char>) -> Seq<char> {
    let notes = trimmed(body);
    if notes.len() > 0 && notes[0] == '-' {
        "Changes\n-------\n"@ + notes
    } else {
        notes
    }
}

/// The line that says when a release was branched: `branch` is the day as
/// text, missing for a patch release, which has no branch of its own.
pub open spec fn branch_note_text(branch: Option<Seq<char>>) -> Seq<char> {
    match branch {
        Some(day) => "- Branched from master on: _"@ + day + "_"@,
        None => "- This is a patch release"@,
    }
}

/// The page of a released version.
pub open spec fn released_page_text(
    weight: nat,
    version: Seq<char>,
    released: Seq<char>,
    branch: Option<Seq<char>>,
    body: Seq<char>,
) -> Seq<char> {
    "---\nweight: "@ + decimal(weight) + "\n\n---\n\n"@ + version
        + "\n=========\n\n{{% hint info %}}\n- Released on: _"@ + released + "_\n"@
        + branch_note_text(branch) + "\n{{% /hint %}}\n\n"@ + notes_text(body) + "\n"@
}

/// The day on which a version released on day `released` was branched:
/// the branch day of the release that was next on the day before.
pub open spec fn branch_of_release(epoch: int, released: int) -> int {
    branch_day(epoch, released - 1, 1)
}

/// Whether the page of a released version can be written: its weight can
/// be held, and so can its days, each of which `chrono` can write.
pub open spec fn released_ready(epoch: int, v: VersionView, released: int) -> bool {
    &&& weight_fits(v)
    &&& long_date(released) is Some
    &&& v.patch == 0 ==> {
        &&& i32::MIN <= released - 1
        &&& cadence_fits(epoch, released - 1, 1)
        &&& long_date(branch_of_release(epoch, released)) is Some
    }
}

/// The page of a version released on day `released` with the notes
/// `body`.
pub open spec fn released_content(epoch: int, v: VersionView, body: Seq<char>, released: int) -> Seq<
    char,
> {
    released_page_text(
        weight(v) as nat,
        v.text(),
        long_date(released).unwrap(),
        if v.patch == 0 {
            long_date(branch_of_release(epoch, released))
        } else {
            None
        },
        body,
    )
}

/// The name of the train that a version rides while `stable` is the
/// stable version: nightly two minor versions ahead, beta one ahead,
/// none elsewhere.
pub open spec fn train_name(v: VersionView, stable: VersionView) -> Seq<char> {
    if v.minor == stable.minor + 2 {
        "nightly"@
    } else if v.minor == stable.minor + 1 {
        "beta"@
    } else {
        Seq::empty()
    }
}

/// The head of the page of a version that is still to come. `branched`
/// says whether its branch has been cut.
pub open spec fn unreleased_head_text(
    weight: nat,
    version: Seq<char>,
    train: Seq<char>,
    branched: bool,
    stable_on: Seq<char>,
    branch_on: Seq<char>,
) -> Seq<char> {
    "---\nweight: "@ + decimal(weight) + "\n\n---\n\n"@ + version + " "@ + train
        + "\n=========\n\n{{% hint warning %}}\n**Unreleased"@ + (if branched {
        ", branched from master"@
    } else {
        Seq::empty()
    }) + "**\n\n- Will be stable on: _"@ + stable_on + "_\n- "@ + (if branched {
        "Branched"@
    } else {
        "Will branch"@
    }) + " from master on: _"@ + branch_on + "_\n{{% /hint %}}\n\n"@
}

/// The line of one merged issue. `age` says how long ago it was merged.
pub open spec fn issue_line_text(title: Seq<char>, url: Seq<char>, age: Seq<char>) -> Seq<char> {
    "- ["@ + title + "]("@ + url + ") _(merged "@ + age + " ago)_\n"@
}

/// A closed issue and the days since it was closed.
pub struct Merged {
    pub days: int,
    pub title: Seq<char>,
    pub html_url: Seq<char>,
}

/// The issues that are closed, in the order given, each with the days
/// from its closing to day `today`.
pub open spec fn merged(issues: Seq<IssueView>, today: int) -> Seq<Merged>
    decreases issues.len(),
{
    if issues.len() == 0 {
        Seq::empty()
    } else {
        let earlier = merged(issues.drop_last(), today);
        match issues.last().closed_at {
            Some(day) => earlier.push(
                Merged { days: today - day, title: issues.last().title, html_url: issues.last().html_url },
            ),
            None => earlier,
        }
    }
}

/// The days of the merged issues.
pub open spec fn merged_days(issues: Seq<Merged>) -> Seq<int> {
    Seq::new(issues.len(), |i: int| issues[i].days)
}

/// The lines of the first `upto` issues of `order`. `words[k]` is the
/// word for "day" behind the count on line `k`.
pub open spec fn issue_lines_text(
    issues: Seq<Merged>,
    order: Seq<int>,
    words: Seq<Seq<char>>,
    upto: int,
) -> Seq<char>
    decreases upto,
{
    if upto <= 0 {
        Seq::empty()
    } else {
        let issue = issues[order[upto - 1]];
        issue_lines_text(issues, order, words, upto - 1) + issue_line_text(
            issue.title,
            issue.html_url,
            counted(issue.days, words[upto - 1]),
        )
    }
}

/// The lines depend on the words of their own places alone.
pub proof fn lemma_issue_lines_words(
    issues: Seq<Merged>,
    order: Seq<int>,
    words: Seq<Seq<char>>,
    other: Seq<Seq<char>>,
    upto: int,
)
    requires
        forall|k: int| 0 <= k < upto ==> words[k] == other[k],
    ensures
        issue_lines_text(issues, order, words, upto) == issue_lines_text(issues, order, other, upto),
    decreases upto,
{
    if upto > 0 {
        lemma_issue_lines_words(issues, order, words, other, upto - 1);
    }
}

/// How many minor versions `v` is ahead of `stable`.
pub open spec fn minor_lead(v: VersionView, stable: VersionView) -> int {
    v.minor - stable.minor
}

/// Whether the page of a version that is still to come can be written on
/// day `today`: its weight can be held, and so can the days of its
/// release, each of which `chrono` can write.
pub open spec fn unreleased_ready(epoch: int, v: VersionView, stable: VersionView, today: int) -> bool {
    &&& weight_fits(v)
    &&& cadence_fits(epoch, today, minor_lead(v, stable))
    &&& long_date(release_day(epoch, today, minor_lead(v, stable))) is Some
    &&& long_date(branch_day(epoch, today, minor_lead(v, stable))) is Some
}

/// The head of the page of version `v` on day `today`.
pub open spec fn unreleased_head_on(epoch: int, v: VersionView, stable: VersionView, today: int) -> Seq<
    char,
> {
    let lead = minor_lead(v, stable);
    unreleased_head_text(
        weight(v) as nat,
        v.text(),
        train_name(v, stable),
        today > branch_day(epoch, today, lead),
        long_date(release_day(epoch, today, lead)).unwrap(),
        long_date(branch_day(epoch, today, lead)).unwrap(),
    )
}

/// Whether `page` is the page of version `v` on day `today`: the head,
/// then the closed issues, the one merged last coming first, and those
/// merged on the same day in the order given.
pub open spec fn is_unreleased_page(
    page: Seq<char>,
    epoch: int,
    v: VersionView,
    stable: VersionView,
    issues: Seq<IssueView>,
    today: int,
) -> bool {
    exists|order: Seq<int>, words: Seq<Seq<char>>|
        {
            &&& #[trigger] stable_order(merged_days(merged(issues, today)), order)
            &&& #[trigger] words.len() == order.len()
            &&& page == unreleased_head_on(epoch, v, stable, today) + issue_lines_text(
                merged(issues, today),
                order,
                words,
                order.len() as int,
            )
        }
}

/// The head of the index, with the link to the stable version.
pub open spec fn index_head_text(stable: Seq<char>) -> Seq<char> {
    "---\ntitle: Rust Versions\ntype: docs\n---\n\n## Rust Versions\n\n- Stable: ["@ + stable
        + "](/docs/"@ + stable + ")\n"@
}

/// The link to a version that is still to come: the name of its train,
/// the day of its release and how far away that is.
pub open spec fn train_link_text(
    train: Seq<char>,
    version: Seq<char>,
    release_on: Seq<char>,
    left: Seq<char>,
) -> Seq<char> {
    "- "@ + train + ": ["@ + version + "](/docs/"@ + version + ") ("@ + release_on + ", "@ + left
        + " left)\n"@
}

/// The heading above the pull requests.
pub open spec fn requests_heading_text() -> Seq<char> {
    "\n\n## Ongoing Stabilization PRs\n\n"@
}

/// The line of one label.
pub open spec fn label_line_text(label: LabelView) -> Seq<char> {
    "* _"@ + label.name + "_"@ + (match label.description {
        Some(text) => " - "@ + text,
        None => Seq::empty(),
    }) + "\n"@
}

/// The lines of the first `upto` labels.
pub open spec fn label_lines_text(labels: Seq<LabelView>, upto: int) -> Seq<char>
    decreases upto,
{
    if upto <= 0 {
        Seq::empty()
    } else {
        label_lines_text(labels, upto - 1) + label_line_text(labels[upto - 1])
    }
}

/// The section of one pull request. `age` says how old it is.
pub open spec fn request_text(request: PullRequestView, age: Seq<char>) -> Seq<char> {
    "{{% details \""@ + escape_quotes(request.title) + " ("@ + age + " old)\" %}}\n"@
        + label_lines_text(request.labels, request.labels.len() as int) + "\n[Open PR #"@
        + decimal(request.number) + "]("@ + request.html_url + ")\n\n{{% /details %}}\n"@
}

/// The foot of the index. `stamp` is the instant at which it was made.
pub open spec fn index_foot_text(stamp: Seq<char>) -> Seq<char> {
    "\n\n## About releases.rs\n\n- [Github Repo](https://github.com/releases-rs/releases-rs/)\n- Generated at <span class=\"utc-timestamp\" data-utc=\""@
        + stamp + "\">...</span>\n\n"@
}

/// The key by which instants are ordered: seconds first, then
/// nanoseconds.
pub open spec fn instant_key(at: Timestamp) -> int {
    at.seconds * 0x1_0000_0000 + at.nanos
}

/// The keys of the pull requests: the instants of their creation.
pub open spec fn creation_keys(requests: Seq<PullRequestView>) -> Seq<int> {
    Seq::new(requests.len(), |i: int| instant_key(requests[i].created_at))
}

/// The sections of the first `upto` pull requests that are shown: the
/// last of `order` is shown first. `words[k]` is the word for "day"
/// behind the count in section `k`.
pub open spec fn request_sections_text(
    requests: Seq<PullRequestView>,
    now: Timestamp,
    order: Seq<int>,
    words: Seq<Seq<char>>,
    upto: int,
) -> Seq<char>
    decreases upto,
{
    if upto <= 0 {
        Seq::empty()
    } else {
        let request = requests[order[order.len() - upto]];
        request_sections_text(requests, now, order, words, upto - 1) + request_text(
            request,
            counted(whole_days_between(request.created_at, now), words[upto - 1]),
        )
    }
}

/// The sections depend on the words of their own places alone.
pub proof fn lemma_request_sections_words(
    requests: Seq<PullRequestView>,
    now: Timestamp,
    order: Seq<int>,
    words: Seq<Seq<char>>,
    other: Seq<Seq<char>>,
    upto: int,
)
    requires
        forall|k: int| 0 <= k < upto ==> words[k] == other[k],
    ensures
        request_sections_text(requests, now, order, words, upto) == request_sections_text(
            requests,
            now,
            order,
            other,
            upto,
        ),
    decreases upto,
{
    if upto > 0 {
        lemma_request_sections_words(requests, now, order, words, other, upto - 1);
    }
}

/// Whether the link to the version `step` releases ahead can be written
/// on day `today`.
pub open spec fn train_link_ready(epoch: int, today: int, step: int) -> bool {
    cadence_fits(epoch, today, step) && long_date(release_day(epoch, today, step)) is Some
}

/// The link to version `v`, `step` releases ahead, if it has an open
/// milestone; nothing if it has none. `word` is the word for "day" behind
/// the count of the days left.
pub open spec fn train_link(
    epoch: int,
    today: int,
    step: int,
    train: Seq<char>,
    v: VersionView,
    milestones: Seq<MilestoneView>,
    word: Seq<char>,
) -> Seq<char> {
    if has_milestone(milestones, v) {
        train_link_text(
            train,
            v.text(),
            long_date(release_day(epoch, today, step)).unwrap(),
            counted(release_day(epoch, today, step) - today, word),
        )
    } else {
        Seq::empty()
    }
}

/// Whether the index can be written at instant `now`: the day of `now`
/// has a number of 32 bits, the links that are due can be written, and
/// `chrono` can write the instant.
pub open spec fn index_ready(
    epoch: int,
    beta: VersionView,
    nightly: VersionView,
    milestones: Seq<MilestoneView>,
    now: Timestamp,
) -> bool {
    let today = day_number_of(now.seconds as int);
    &&& i32::MIN <= today <= i32::MAX
    &&& has_milestone(milestones, beta) ==> train_link_ready(epoch, today, 1)
    &&& has_milestone(milestones, nightly) ==> train_link_ready(epoch, today, 2)
    &&& chrono_rfc3339(now.seconds as int, now.nanos as int) is Some
}

/// Whether `page` is the index at instant `now`: the head with the stable
/// version, the links to the beta and nightly versions that have an open
/// milestone, the pull requests, the one created last coming first, and
/// the foot.
pub open spec fn is_index_page(
    page: Seq<char>,
    epoch: int,
    stable: VersionView,
    beta: VersionView,
    nightly: VersionView,
    milestones: Seq<MilestoneView>,
    requests: Seq<PullRequestView>,
    now: Timestamp,
) -> bool {
    let today = day_number_of(now.seconds as int);
    exists|order: Seq<int>, words: Seq<Seq<char>>, beta_word: Seq<char>, nightly_word: Seq<char>|
        {
            &&& #[trigger] stable_order(creation_keys(requests), order)
            &&& #[trigger] words.len() == order.len()
            &&& page == index_head_text(stable.text()) + #[trigger] train_link(
                epoch,
                today,
                1,
                "Beta"@,
                beta,
                milestones,
                beta_word,
            ) + #[trigger] train_link(epoch, today, 2, "Nightly"@, nightly, milestones, nightly_word)
                + requests_heading_text() + request_sections_text(
                requests,
                now,
                order,
                words,
                order.len() as int,
            ) + index_foot_text(chrono_rfc3339(now.seconds as int, now.nanos as int).unwrap())
        }
}

/// Wherever a train link stands, its version has an open milestone, and
/// the other way round: of the beta and nightly versions the index links
/// exactly those that have one.
pub proof fn lemma_train_link_follows_milestone(
    epoch: int,
    today: int,
    step: int,
    train: Seq<char>,
    v: VersionView,
    milestones: Seq<MilestoneView>,
    word: Seq<char>,
)
    ensures
        train_link(epoch, today, step, train, v, milestones, word).len() > 0 <==> has_milestone(
            milestones,
            v,
        ),
{
    reveal_strlit("- ");
}

/// The pages of one site.
#[derive(Debug)]
pub struct ChangelogGenerator {
    version_manager: VersionManager,
}

impl ChangelogGenerator {
    /// The pages of the site whose release train `version_manager` is.
    pub fn new(version_manager: VersionManager) -> (generator: ChangelogGenerator)
        ensures
            generator.epoch() == version_manager.epoch(),
    {
        ChangelogGenerator { version_manager }
    }

    /// The number of the day from which the cadence is counted.
    pub closed spec fn epoch(&self) -> int {
        self.version_manager.epoch()
    }

    /// The page of a version released on `release_date` with the notes
    /// `changelog`; `None` where the page cannot be written.
    pub fn generate_released_version_content(
        &self,
        version: &Version,
        changelog: &str,
        release_date: &Date,
    ) -> (page: Option<String>)
        ensures
            page is Some <==> released_ready(self.epoch(), version@, release_date@),
            page matches Some(p) ==> p@ == released_content(
                self.epoch(),
                version@,
                changelog@,
                release_date@,
            ),
    {
        if !self.version_manager.weight_fits(version) {
            return None;
        }
        let weight = self.version_manager.determine_weight(version);
        let released = match write_long_date(*release_date) {
            Some(text) => text,
            None => {
                return None;
            },
        };
        if version.patch() != 0 {
            return Some(released_page(weight, version, released.as_str(), None, changelog));
        }
        let day_before = match release_date.plus_days(-1) {
            Some(day) => day,
            None => {
                return None;
            },
        };
        if !self.version_manager.cadence_fits(day_before, 1) {
            return None;
        }
        let days = self.version_manager.calculate_release_date(day_before, 1);
        let branch = match write_long_date(days.branch_date) {
            Some(text) => text,
            None => {
                return None;
            },
        };
        Some(released_page(weight, version, released.as_str(), Some(branch.as_str()), changelog))
    }

    /// The page of a version that is still to come, on day `today`, with
    /// the issues of its milestone; `None` where the page cannot be
    /// written.
    pub fn generate_unreleased_version_content(
        &self,
        unreleased_version: &Version,
        _milestone_id: i64,
        stable_version: &Version,
        issues: &Vec<Issue>,
        today: Date,
    ) -> (page: Option<String>)
        ensures
            page is Some <==> unreleased_ready(
                self.epoch(),
                unreleased_version@,
                stable_version@,
                today@,
            ),
            page matches Some(p) ==> is_unreleased_page(
                p@,
                self.epoch(),
                unreleased_version@,
                stable_version@,
                issue_views(issues@),
                today@,
            ),
    {
        if !self.version_manager.weight_fits(unreleased_version) {
            return None;
        }
        let weight = self.version_manager.determine_weight(unreleased_version);
        let lead: i128 = unreleased_version.minor() as i128 - stable_version.minor() as i128;
        if lead < i64::MIN as i128 || lead > i64::MAX as i128 {
            return None;
        }
        if !self.version_manager.cadence_fits(today, lead as i64) {
            return None;
        }
        let days = self.version_manager.calculate_release_date(today, lead as i64);
        let stable_on = match write_long_date(days.release_date) {
            Some(text) => text,
            None => {
                return None;
            },
        };
        let branch_on = match write_long_date(days.branch_date) {
            Some(text) => text,
            None => {
                return None;
            },
        };
        let branched = today.day_number > days.branch_date.day_number;
        let mut page = unreleased_head(
            weight,
            unreleased_version,
            stable_version,
            branched,
            stable_on.as_str(),
            branch_on.as_str(),
        );
        let ghost head = page@;
        let ghost all = issue_views(issues@);
        let ghost closed = merged(all, today@);
        let mut keys: Vec<i128> = Vec::new();
        let mut source: Vec<usize> = Vec::new();
        let mut i: usize = 0;
        assert(all.take(0) =~= Seq::<IssueView>::empty());
        while i < issues.len()
            invariant
                i <= issues.len(),
                all == issue_views(issues@),
                keys@.len() == merged(all.take(i as int), today@).len(),
                source@.len() == keys@.len(),
                forall|k: int|
                    0 <= k < keys@.len() ==> {
                        let m = merged(all.take(i as int), today@)[k];
                        &&& #[trigger] keys@[k] == m.days
                        &&& -0x1_0000_0000 < keys@[k] < 0x1_0000_0000
                        &&& source@[k] < i
                        &&& all[source@[k] as int].title == m.title
                        &&& all[source@[k] as int].html_url == m.html_url
                    },
            decreases issues.len() - i,
        {
            assert(all.take(i as int + 1).drop_last() =~= all.take(i as int));
            assert(all.take(i as int + 1).last() == issues@[i as int]@);
            match issues[i].closed_at {
                Some(day) => {
                    keys.push(today.days_since(day) as i128);
                    source.push(i);
                },
                None => {},
            }
            i += 1;
        }
        assert(all.take(issues.len() as int) =~= all);
        let order = order_by_key(&keys);
        let ghost listed = index_views(order@);
        assert(key_views(keys@) =~= merged_days(closed));
        let ghost mut words: Seq<Seq<char>> = Seq::empty();
        let mut k: usize = 0;
        assert(page@ =~= head + issue_lines_text(closed, listed, words, 0));
        while k < order.len()
            invariant
                k <= order.len(),
                all == issue_views(issues@),
                closed == merged(all, today@),
                listed == index_views(order@),
                stable_order(merged_days(closed), listed),
                keys@.len() == closed.len(),
                source@.len() == keys@.len(),
                forall|j: int|
                    0 <= j < keys@.len() ==> {
                        &&& #[trigger] keys@[j] == closed[j].days
                        &&& -0x1_0000_0000 < keys@[j] < 0x1_0000_0000
                        &&& source@[j] < issues@.len()
                        &&& all[source@[j] as int].title == closed[j].title
                        &&& all[source@[j] as int].html_url == closed[j].html_url
                    },
                words.len() == k,
                page@ == head + issue_lines_text(closed, listed, words, k as int),
            decreases order.len() - k,
        {
            let at = order[k];
            assert(listed[k as int] == at);
            assert(0 <= listed[k as int] < merged_days(closed).len());
            assert(keys@[at as int] == closed[at as int].days);
            let issue = &issues[source[at]];
            assert(all[source@[at as int] as int] == issue@);
            let age = count_phrase(keys[at] as i64, "day");
            let ghost word = choose|word: Seq<char>| age@ == counted(keys@[at as int] as int, word);
            let ghost grown = words.push(word);
            proof {
                lemma_issue_lines_words(closed, listed, words, grown, k as int);
            }
            push_issue_line(&mut page, issue, age.as_str());
            proof {
                words = grown;
            }
            assert(page@ =~= head + issue_lines_text(closed, listed, words, k as int + 1));
            k += 1;
        }
        assert(is_unreleased_page(
            page@,
            self.epoch(),
            unreleased_version@,
            stable_version@,
            all,
            today@,
        )) by {
            assert(stable_order(merged_days(merged(all, today@)), listed));
            assert(words.len() == listed.len());
        }
        Some(page)
    }

    /// Appends the link to `version`, which is `step` releases ahead, if
    /// it has an open milestone. Gives `false` where the link is due and
    /// cannot be written.
    fn push_train(
        &self,
        page: &mut String,
        train: &str,
        version: &Version,
        milestones: &Vec<MilestoneRef>,
        today: Date,
        step: i64,
    ) -> (done: bool)
        ensures
            done <==> (has_milestone(milestone_views(milestones@), version@) ==> train_link_ready(
                self.epoch(),
                today@,
                step as int,
            )),
            done ==> exists|word: Seq<char>|
                final(page)@ == old(page)@ + #[trigger] train_link(
                    self.epoch(),
                    today@,
                    step as int,
                    train@,
                    version@,
                    milestone_views(milestones@),
                    word,
                ),
    {
        if !is_listed(milestones, version) {
            assert(page@ =~= old(page)@ + train_link(
                self.epoch(),
                today@,
                step as int,
                train@,
                version@,
                milestone_views(milestones@),
                Seq::empty(),
            ));
            return true;
        }
        if !self.version_manager.cadence_fits(today, step) {
            return false;
        }
        let days = self.version_manager.calculate_release_date(today, step);
        let release_on = match write_long_date(days.release_date) {
            Some(text) => text,
            None => {
                return false;
            },
        };
        let left = days.release_date.days_since(today);
        let phrase = count_phrase(left, "day");
        let ghost word = choose|word: Seq<char>| phrase@ == counted(left as int, word);
        push_train_link(page, train, version, release_on.as_str(), phrase.as_str());
        assert(page@ == old(page)@ + train_link(
            self.epoch(),
            today@,
            step as int,
            train@,
            version@,
            milestone_views(milestones@),
            word,
        ));
        true
    }

    /// The index at instant `now`; `None` where it cannot be written.
    pub fn generate_index_content(
        &self,
        stable_version: &Version,
        beta_version: &Version,
        nightly_version: &Version,
        unreleased_versions: &Vec<MilestoneRef>,
        stabilization_prs: &Vec<PullRequest>,
        now: Timestamp,
    ) -> (page: Option<String>)
        ensures
            page is Some <==> index_ready(
                self.epoch(),
                beta_version@,
                nightly_version@,
                milestone_views(unreleased_versions@),
                now,
            ),
            page matches Some(p) ==> is_index_page(
                p@,
                self.epoch(),
                stable_version@,
                beta_version@,
                nightly_version@,
                milestone_views(unreleased_versions@),
                pull_request_views(stabilization_prs@),
                now,
            ),
    {
        let today = match now.date() {
            Some(day) => day,
            None => {
                return None;
            },
        };
        let stamp = match now.rfc3339() {
            Some(text) => text,
            None => {
                return None;
            },
        };
        let ghost milestones = milestone_views(unreleased_versions@);
        let ghost requests = pull_request_views(stabilization_prs@);
        let mut page = index_head(stable_version);
        let ghost head = page@;
        if !self.push_train(&mut page, "Beta", beta_version, unreleased_versions, today, 1) {
            return None;
        }
        let ghost beta_word = choose|word: Seq<char>|
            page@ == head + #[trigger] train_link(
                self.epoch(),
                today@,
                1,
                "Beta"@,
                beta_version@,
                milestones,
                word,
            );
        let ghost with_beta = page@;
        if !self.push_train(&mut page, "Nightly", nightly_version, unreleased_versions, today, 2) {
            return None;
        }
        let ghost nightly_word = choose|word: Seq<char>|
            page@ == with_beta + #[trigger] train_link(
                self.epoch(),
                today@,
                2,
                "Nightly"@,
                nightly_version@,
                milestones,
                word,
            );
        page.append("

## Ongoing Stabilization PRs

");
        let ghost above = page@;
        let mut keys: Vec<i128> = Vec::new();
        let mut i: usize = 0;
        while i < stabilization_prs.len()
            invariant
                i <= stabilization_prs.len(),
                requests == pull_request_views(stabilization_prs@),
                keys@.len() == i,
                forall|j: int| 0 <= j < i ==> #[trigger] keys@[j] == instant_key(requests[j].created_at),
            decreases stabilization_prs.len() - i,
        {
            let at = stabilization_prs[i].created_at;
            assert(requests[i as int].created_at == at);
            keys.push(at.seconds as i128 * 0x1_0000_0000 + at.nanos as i128);
            i += 1;
        }
        let order = order_by_key(&keys);
        let ghost listed = index_views(order@);
        assert(key_views(keys@) =~= creation_keys(requests));
        let ghost mut words: Seq<Seq<char>> = Seq::empty();
        let mut k: usize = 0;
        assert(page@ =~= above + request_sections_text(requests, now, listed, words, 0));
        while k < order.len()
            invariant
                k <= order.len(),
                requests == pull_request_views(stabilization_prs@),
                listed == index_views(order@),
                stable_order(creation_keys(requests), listed),
                words.len() == k,
                page@ == above + request_sections_text(requests, now, listed, words, k as int),
            decreases order.len() - k,
        {
            let at = order[order.len() - 1 - k];
            assert(listed[listed.len() - 1 - k] == at);
            assert(0 <= listed[listed.len() - 1 - k] < creation_keys(requests).len());
            let request = &stabilization_prs[at];
            assert(requests[at as int] == request@);
            let days = now.whole_days_since(request.created_at);
            let age = count_phrase(days, "day");
            let ghost word = choose|word: Seq<char>| age@ == counted(days as int, word);
            let ghost grown = words.push(word);
            proof {
                lemma_request_sections_words(requests, now, listed, words, grown, k as int);
            }
            push_request(&mut page, request, age.as_str());
            proof {
                words = grown;
            }
            assert(page@ =~= above + request_sections_text(
                requests,
                now,
                listed,
                words,
                k as int + 1,
            ));
            k += 1;
        }
        push_index_foot(&mut page, stamp.as_str());
        assert(is_index_page(
            page@,
            self.epoch(),
            stable_version@,
            beta_version@,
            nightly_version@,
            milestones,
            requests,
            now,
        )) by {
            assert(stable_order(creation_keys(requests), listed));
            assert(words.len() == listed.len());
            assert(page@ == index_head_text(stable_version@.text()) + train_link(
                self.epoch(),
                today@,
                1,
                "Beta"@,
                beta_version@,
                milestones,
                beta_word,
            ) + train_link(
                self.epoch(),
                today@,
                2,
                "Nightly"@,
                nightly_version@,
                milestones,
                nightly_word,
            ) + requests_heading_text() + request_sections_text(
                requests,
                now,
                listed,
                words,
                listed.len() as int,
            ) + index_foot_text(chrono_rfc3339(now.seconds as int, now.nanos as int).unwrap()));
        }
        Some(page)
    }
}

/// The view of a text that may be missing.
pub open spec fn text_view(text: Option<&str>) -> Option<Seq<char>> {
    match text {
        Some(t) => Some(t@),
        None => None,
    }
}

/// Writes the page of a released version from its parts: the weight, the
/// day of the release and the day of the branch as texts, the latter
/// missing for a patch release, and the notes.
pub fn released_page(
    weight: u64,
    version: &Version,
    released: &str,
    branch: Option<&str>,
    body: &str,
) -> (page: String)
    ensures
        page@ == released_page_text(
            weight as nat,
            version@.text(),
            released@,
            text_view(branch),
            body@,
        ),
{
    let mut page = String::from_str("---\nweight: ");
    push_decimal(&mut page, weight);
    page.append("\n\n---\n\n");
    version.push_text(&mut page);
    page.append("\n=========\n\n{{% hint info %}}\n- Released on: _");
    page.append(released);
    page.append("_\n");
    let ghost before_note = page@;
    match branch {
        Some(day) => {
            page.append("- Branched from master on: _");
            page.append(day);
            page.append("_");
            assert(page@ =~= before_note + branch_note_text(text_view(branch)));
        },
        None => {
            page.append("- This is a patch release");
        },
    }
    page.append("\n{{% /hint %}}\n\n");
    let ghost before_notes = page@;
    let chars = to_chars(body);
    let (from, to) = trim_bounds(&chars);
    if from < to && chars[from] == '-' {
        page.append("Changes\n-------\n");
    }
    push_chars(&mut page, &chars, from, to);
    assert(page@ =~= before_notes + notes_text(body@)) by {
        let notes = trimmed(body@);
        assert(notes == chars@.subrange(from as int, to as int));
        if from < to {
            assert(notes[0] == chars@[from as int]);
        }
    }
    page.append("\n");
    page
}

/// Writes the head of the page of a version that is still to come.
pub fn unreleased_head(
    weight: u64,
    version: &Version,
    stable: &Version,
    branched: bool,
    stable_on: &str,
    branch_on: &str,
) -> (page: String)
    ensures
        page@ == unreleased_head_text(
            weight as nat,
            version@.text(),
            train_name(version@, stable@),
            branched,
            stable_on@,
            branch_on@,
        ),
{
    let mut page = String::from_str("---\nweight: ");
    push_decimal(&mut page, weight);
    page.append("\n\n---\n\n");
    version.push_text(&mut page);
    page.append(" ");
    let ghost before_train = page@;
    let lead: u64 = if version.minor() >= stable.minor() {
        version.minor() - stable.minor()
    } else {
        0
    };
    if lead == 2 {
        page.append("nightly");
    } else if lead == 1 {
        page.append("beta");
    } else {
        assert(page@ =~= before_train + Seq::<char>::empty());
    }
    assert(page@ == before_train + train_name(version@, stable@));
    page.append("\n=========\n\n{{% hint warning %}}\n**Unreleased");
    let ghost before_suffix = page@;
    if branched {
        page.append(", branched from master");
    }
    assert(page@ =~= before_suffix + (if branched {
        ", branched from master"@
    } else {
        Seq::empty()
    }));
    page.append("**\n\n- Will be stable on: _");
    page.append(stable_on);
    page.append("_\n- ");
    if branched {
        page.append("Branched");
    } else {
        page.append("Will branch");
    }
    page.append(" from master on: _");
    page.append(branch_on);
    page.append("_\n{{% /hint %}}\n\n");
    page
}

/// Appends the line of one merged issue.
pub fn push_issue_line(page: &mut String, issue: &Issue, age: &str)
    ensures
        final(page)@ == old(page)@ + issue_line_text(issue@.title, issue@.html_url, age@),
{
    let mut line = String::from_str("- [");
    line.append(issue.title.as_str());
    line.append("](");
    line.append(issue.html_url.as_str());
    line.append(") _(merged ");
    line.append(age);
    line.append(" ago)_\n");
    page.append(line.as_str());
}

/// Writes the head of the index.
pub fn index_head(stable: &Version) -> (page: String)
    ensures
        page@ == index_head_text(stable@.text()),
{
    let mut page = String::from_str(
        "---\ntitle: Rust Versions\ntype: docs\n---\n\n## Rust Versions\n\n- Stable: [",
    );
    stable.push_text(&mut page);
    page.append("](/docs/");
    stable.push_text(&mut page);
    page.append(")\n");
    page
}

/// Appends the link to a version that is still to come.
pub fn push_train_link(
    page: &mut String,
    train: &str,
    version: &Version,
    release_on: &str,
    left: &str,
)
    ensures
        final(page)@ == old(page)@ + train_link_text(train@, version@.text(), release_on@, left@),
{
    let mut line = String::from_str("- ");
    line.append(train);
    line.append(": [");
    version.push_text(&mut line);
    line.append("](/docs/");
    version.push_text(&mut line);
    line.append(") (");
    line.append(release_on);
    line.append(", ");
    line.append(left);
    line.append(" left)\n");
    page.append(line.as_str());
}

/// Appends the line of one label.
pub fn push_label_line(page: &mut String, label: &Label)
    ensures
        final(page)@ == old(page)@ + label_line_text(label@),
{
    let mut line = String::from_str("* _");
    line.append(label.name.as_str());
    line.append("_");
    let ghost before = line@;
    match &label.description {
        Some(text) => {
            line.append(" - ");
            line.append(text.as_str());
            assert(line@ =~= before + (" - "@ + text@));
        },
        None => {
            assert(line@ =~= before + Seq::<char>::empty());
        },
    }
    line.append("\n");
    page.append(line.as_str());
}

/// Appends the section of one pull request.
pub fn push_request(page: &mut String, request: &PullRequest, age: &str)
    ensures
        final(page)@ == old(page)@ + request_text(request@, age@),
{
    let mut section = String::from_str("{{% details \"");
    push_escaped(&mut section, request.title.as_str());
    section.append(" (");
    section.append(age);
    section.append(" old)\" %}}\n");
    let ghost before = section@;
    let mut i: usize = 0;
    assert(section@ =~= before + label_lines_text(request@.labels, 0));
    while i < request.labels.len()
        invariant
            i <= request.labels.len(),
            section@ == before + label_lines_text(request@.labels, i as int),
        decreases request.labels.len() - i,
    {
        assert(request@.labels[i as int] == request.labels@[i as int]@);
        let ghost earlier = section@;
        push_label_line(&mut section, &request.labels[i]);
        assert(section@ =~= before + label_lines_text(request@.labels, i as int + 1)) by {
            assert(section@ == earlier + label_line_text(request@.labels[i as int]));
        }
        i += 1;
    }
    assert(request@.labels.len() == request.labels.len());
    section.append("\n[Open PR #");
    push_decimal(&mut section, request.number);
    section.append("](");
    section.append(request.html_url.as_str());
    section.append(")\n\n{{% /details %}}\n");
    page.append(section.as_str());
}

/// Appends the foot of the index.
pub fn push_index_foot(page: &mut String, stamp: &str)
    ensures
        final(page)@ == old(page)@ + index_foot_text(stamp@),
{
    let mut foot = String::from_str(
        "\n\n## About releases.rs\n\n- [Github Repo](https://github.com/releases-rs/releases-rs/)\n- Generated at <span class=\"utc-timestamp\" data-utc=\"",
    );
    foot.append(stamp);
    foot.append("\">...</span>\n\n");
    page.append(foot.as_str());
}

} // verus!
