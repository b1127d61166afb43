//! What is decided while the issue tracker is read: which milestones
//! count, when enough of them are known, and which pull requests
//! stabilize a feature.

use crate::records::{has_milestone, is_listed, milestone_views, MilestoneRef, MilestoneView};
use crate::text::{starts_with, to_chars};
use crate::version::{semver_parse, Version, VersionView};
use vstd::prelude::*;

verus! {

/// The text in lower case, as `str::to_lowercase` of std gives it.
pub uninterp spec fn lowercase(s: Seq<char>) -> Seq<char>;

/// `str::to_lowercase` of std: its result is given the name `lowercase`.
pub assume_specification[ str::to_lowercase ](s: &str) -> (lower: String)
    ensures
        lower@ == lowercase(s@),
;

/// Whether a text begins with the word `term`, or with `partial` or
/// `partially` and the word.
pub open spec fn begins_with_term(text: Seq<char>, term: Seq<char>) -> bool {
    term.is_prefix_of(text) || ("partial "@ + term).is_prefix_of(text) || ("partially "@
        + term).is_prefix_of(text)
}

/// Whether a title announces a stabilization by the word `term`: in lower
/// case it begins with the word, or with `partial` or `partially` and the
/// word.
pub open spec fn announces(title: Seq<char>, term: Seq<char>) -> bool {
    begins_with_term(lowercase(title), term)
}

/// Whether a title that is in lower case already announces a
/// stabilization by the word `term`.
pub fn lower_title_announces(lower: &str, term: &str) -> (found: bool)
    ensures
        found == begins_with_term(lower@, term@),
{
    let text = to_chars(lower);
    let plain = to_chars(term);
    if starts_with(&text, &plain) {
        return true;
    }
    let mut partial = String::from_str("partial ");
    partial.append(term);
    if starts_with(&text, &to_chars(partial.as_str())) {
        return true;
    }
    let mut partially = String::from_str("partially ");
    partially.append(term);
    starts_with(&text, &to_chars(partially.as_str()))
}

/// Whether the title of a pull request announces a stabilization by the
/// word `term`.
pub fn is_stabilization_title(title: &str, term: &str) -> (found: bool)
    ensures
        found == announces(title@, term@),
{
    lower_title_announces(title.to_lowercase().as_str(), term)
}

/// The query for the open pull requests of a repository with `term` in
/// their title.
pub open spec fn stabilization_query_text(owner: Seq<char>, name: Seq<char>, term: Seq<char>) -> Seq<
    char,
> {
    "is:pr is:open in:title repo:"@ + owner + "/"@ + name + " "@ + term
}

/// Writes the query for the open pull requests of a repository with
/// `term` in their title.
pub fn stabilization_query(owner: &str, name: &str, term: &str) -> (query: String)
    ensures
        query@ == stabilization_query_text(owner@, name@, term@),
{
    let mut query = String::from_str("is:pr is:open in:title repo:");
    query.append(owner);
    query.append("/");
    query.append(name);
    query.append(" ");
    query.append(term);
    query
}

/// The milestones once one for version `v` has been seen: it is added
/// where none of them is for that version.
pub open spec fn noted(found: Seq<MilestoneView>, v: VersionView, number: int) -> Seq<
    MilestoneView,
> {
    if has_milestone(found, v) {
        found
    } else {
        found.push(MilestoneView { version: v, number })
    }
}

/// The milestones once one with the given title and number has been seen:
/// it is added where its title is a version that none of them is for.
pub open spec fn seen(found: Seq<MilestoneView>, title: Seq<char>, number: int) -> Seq<
    MilestoneView,
> {
    match semver_parse(title) {
        Some(v) => noted(found, v, number),
        None => found,
    }
}

/// The milestones found while the issues are read, the first one found
/// for each version, and the number of versions that is looked for.
#[derive(Debug)]
pub struct MilestoneLedger {
    pub limit: usize,
    pub found: Vec<MilestoneRef>,
}

impl View for MilestoneLedger {
    type V = Seq<MilestoneView>;

    open spec fn view(&self) -> Seq<MilestoneView> {
        milestone_views(self.found@)
    }
}

impl MilestoneLedger {
    /// A ledger without milestones that looks for `limit` versions.
    pub fn new(limit: usize) -> (ledger: MilestoneLedger)
        ensures
            ledger@ == Seq::<MilestoneView>::empty(),
            ledger.limit == limit,
    {
        let ledger = MilestoneLedger { limit, found: Vec::new() };
        assert(ledger@ =~= Seq::<MilestoneView>::empty());
        ledger
    }

    /// Whether one of the milestones found is for `version`.
    pub fn tracks(&self, version: &Version) -> (found: bool)
        ensures
            found == has_milestone(self@, version@),
    {
        is_listed(&self.found, version)
    }

    /// Takes note of a milestone for `version`, the first for it that is
    /// seen. Gives `true` when more versions are known than are looked
    /// for.
    pub fn note(&mut self, version: Version, number: i64) -> (enough: bool)
        ensures
            final(self)@ == noted(old(self)@, version@, number as int),
            final(self).limit == old(self).limit,
            enough == (final(self)@.len() > old(self).limit),
    {
        if !self.tracks(&version) {
            self.found.push(MilestoneRef { version, number });
            assert(self@ =~= noted(old(self)@, version@, number as int));
        }
        self.found.len() > self.limit
    }

    /// Takes note of the milestone of an issue. Gives `true` when the
    /// reading can stop: the title is a version, and with it more
    /// versions are known than are looked for.
    pub fn observe(&mut self, title: &str, number: i64) -> (enough: bool)
        ensures
            final(self)@ == seen(old(self)@, title@, number as int),
            final(self).limit == old(self).limit,
            enough == (semver_parse(title@) is Some && final(self)@.len() > old(self).limit),
    {
        match Version::parse(title) {
            Some(version) => self.note(version, number),
            None => false,
        }
    }
}

/// Seeing a milestone never drops one, and no version comes to have two.
pub proof fn lemma_seen_keeps_first(found: Seq<MilestoneView>, title: Seq<char>, number: int)
    ensures
        found.is_prefix_of(seen(found, title, number)),
        seen(found, title, number).len() <= found.len() + 1,
        forall|v: VersionView|
            has_milestone(found, v) ==> #[trigger] has_milestone(seen(found, title, number), v),
{
    let after = seen(found, title, number);
    assert forall|v: VersionView| has_milestone(found, v) implies #[trigger] has_milestone(
        after,
        v,
    ) by {
        let i = choose|i: int| 0 <= i < found.len() && (#[trigger] found[i]).version == v;
        assert(after[i].version == v);
    }
}

} // verus!
