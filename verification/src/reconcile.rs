//! Which versions are out, which are still to come, and which of those
//! get a page of their own.

use crate::changelog::{has_version, Changelog, EntryView, Fault, ReleaseError};
use crate::date::Date;
use crate::records::{milestone_views, MilestoneRef, MilestoneView};
use crate::version::{Version, VersionView};
use crate::version_manager::{current_versions, VersionManager};
use vstd::prelude::*;

verus! {

/// Whether a version has an entry in the changelog that is dated on or
/// before day `today`.
pub open spec fn is_released(log: Seq<EntryView>, today: int, v: VersionView) -> bool {
    exists|i: int| 0 <= i < log.len() && (#[trigger] log[i]).version == v && log[i].date <= today
}

/// The versions of the first `upto` entries that are dated on or before
/// day `today`, in the order of the changelog.
pub open spec fn released_versions(log: Seq<EntryView>, today: int, upto: int) -> Seq<VersionView>
    decreases upto,
{
    if upto <= 0 {
        Seq::empty()
    } else {
        let earlier = released_versions(log, today, upto - 1);
        if log[upto - 1].date <= today {
            earlier.push(log[upto - 1].version)
        } else {
            earlier
        }
    }
}

/// Those of the first `upto` milestones whose version is not released.
pub open spec fn unreleased_milestones(
    milestones: Seq<MilestoneView>,
    log: Seq<EntryView>,
    today: int,
    upto: int,
) -> Seq<MilestoneView>
    decreases upto,
{
    if upto <= 0 {
        Seq::empty()
    } else {
        let earlier = unreleased_milestones(milestones, log, today, upto - 1);
        if is_released(log, today, milestones[upto - 1].version) {
            earlier
        } else {
            earlier.push(milestones[upto - 1])
        }
    }
}

/// Those of the first `upto` milestones whose version has no entry in the
/// changelog: the versions that get a page of their own as versions to
/// come.
pub open spec fn pending_milestones(
    milestones: Seq<MilestoneView>,
    log: Seq<EntryView>,
    upto: int,
) -> Seq<MilestoneView>
    decreases upto,
{
    if upto <= 0 {
        Seq::empty()
    } else {
        let earlier = pending_milestones(milestones, log, upto - 1);
        if has_version(log, milestones[upto - 1].version) {
            earlier
        } else {
            earlier.push(milestones[upto - 1])
        }
    }
}

/// The state of the releases on one day.
#[derive(Debug)]
pub struct Reconciliation {
    /// The versions of the changelog that are out.
    pub released: Vec<Version>,
    /// The versions with an open milestone that are not out.
    pub unreleased: Vec<MilestoneRef>,
    /// Those of `unreleased` that the changelog does not know: they get a
    /// page as versions to come.
    pub pending: Vec<MilestoneRef>,
    pub stable: Version,
    pub beta: Version,
    pub nightly: Version,
}

/// The versions by their views.
pub open spec fn version_views(versions: Seq<Version>) -> Seq<VersionView> {
    Seq::new(versions.len(), |i: int| versions[i]@)
}

/// Whether `found` is the state of the releases on day `today`.
pub open spec fn reconciles(
    found: Reconciliation,
    log: Seq<EntryView>,
    milestones: Seq<MilestoneView>,
    today: int,
) -> bool {
    &&& version_views(found.released@) == released_versions(log, today, log.len() as int)
    &&& milestone_views(found.unreleased@) == unreleased_milestones(
        milestones,
        log,
        today,
        milestones.len() as int,
    )
    &&& milestone_views(found.pending@) == pending_milestones(
        milestones,
        log,
        milestones.len() as int,
    )
    &&& current_versions(log, today) == Ok::<(VersionView, VersionView, VersionView), Fault>(
        (found.stable@, found.beta@, found.nightly@),
    )
}

/// Whether the changelog has an entry for `version` that is dated on or
/// before `today`.
pub fn released_by(changelog: &Changelog, version: &Version, today: Date) -> (out: bool)
    ensures
        out == is_released(changelog@, today@, version@),
{
    let mut i: usize = 0;
    while i < changelog.entries.len()
        invariant
            i <= changelog.entries.len(),
            forall|k: int|
                0 <= k < i ==> !((#[trigger] changelog@[k]).version == version@ && changelog@[k].date
                    <= today@),
        decreases changelog.entries.len() - i,
    {
        let entry = &changelog.entries[i];
        assert(changelog@[i as int] == entry@);
        if entry.date.day_number <= today.day_number && entry.version.same_as(version) {
            return true;
        }
        i += 1;
    }
    false
}

/// Sorts the versions of the changelog and of the open milestones on day
/// `today`. A version is released when the changelog dates it on or
/// before that day, and unreleased when it has an open milestone and is
/// not released. The stable version is the newest released one.
pub fn reconcile(
    manager: &VersionManager,
    changelog: &Changelog,
    milestones: &Vec<MilestoneRef>,
    today: Date,
) -> (found: Result<Reconciliation, ReleaseError>)
    ensures
        match found {
            Ok(state) => reconciles(state, changelog@, milestone_views(milestones@), today@),
            Err(e) => current_versions(changelog@, today@) == Err::<
                (VersionView, VersionView, VersionView),
                Fault,
            >(e@),
        },
{
    let (stable, beta, nightly) = match manager.get_current_versions(changelog, today) {
        Ok(current) => current,
        Err(e) => {
            return Err(e);
        },
    };
    let ghost log = changelog@;
    let ghost known = milestone_views(milestones@);
    let mut released: Vec<Version> = Vec::new();
    let mut i: usize = 0;
    assert(version_views(released@) =~= released_versions(log, today@, 0));
    while i < changelog.entries.len()
        invariant
            i <= changelog.entries.len(),
            log == changelog@,
            version_views(released@) == released_versions(log, today@, i as int),
        decreases changelog.entries.len() - i,
    {
        let entry = &changelog.entries[i];
        assert(log[i as int] == entry@);
        if entry.date.day_number <= today.day_number {
            let ghost before = version_views(released@);
            released.push(entry.version.clone());
            assert(version_views(released@) =~= before.push(entry@.version));
        }
        i += 1;
    }
    let mut unreleased: Vec<MilestoneRef> = Vec::new();
    let mut pending: Vec<MilestoneRef> = Vec::new();
    let mut k: usize = 0;
    assert(milestone_views(unreleased@) =~= unreleased_milestones(known, log, today@, 0));
    assert(milestone_views(pending@) =~= pending_milestones(known, log, 0));
    while k < milestones.len()
        invariant
            k <= milestones.len(),
            log == changelog@,
            known == milestone_views(milestones@),
            milestone_views(unreleased@) == unreleased_milestones(known, log, today@, k as int),
            milestone_views(pending@) == pending_milestones(known, log, k as int),
        decreases milestones.len() - k,
    {
        let milestone = &milestones[k];
        assert(known[k as int] == milestone@);
        if !released_by(changelog, &milestone.version, today) {
            let ghost before = milestone_views(unreleased@);
            unreleased.push(milestone.clone());
            assert(milestone_views(unreleased@) =~= before.push(milestone@));
        }
        if !changelog.contains(&milestone.version) {
            let ghost before = milestone_views(pending@);
            pending.push(milestone.clone());
            assert(milestone_views(pending@) =~= before.push(milestone@));
        }
        k += 1;
    }
    Ok(Reconciliation { released, unreleased, pending, stable, beta, nightly })
}

/// A version that the changelog knows gets no page as a version to come,
/// whatever its date: the entry of the changelog comes first.
pub proof fn lemma_changelog_comes_first(
    milestones: Seq<MilestoneView>,
    log: Seq<EntryView>,
    upto: int,
)
    requires
        0 <= upto <= milestones.len(),
    ensures
        forall|k: int|
            0 <= k < pending_milestones(milestones, log, upto).len() ==> !has_version(
                log,
                (#[trigger] pending_milestones(milestones, log, upto)[k]).version,
            ),
    decreases upto,
{
    if upto > 0 {
        lemma_changelog_comes_first(milestones, log, upto - 1);
        let earlier = pending_milestones(milestones, log, upto - 1);
        let now = pending_milestones(milestones, log, upto);
        assert forall|k: int| 0 <= k < now.len() implies !has_version(
            log,
            (#[trigger] now[k]).version,
        ) by {
            if k < earlier.len() {
                assert(now[k] == earlier[k]);
            }
        }
    }
}

/// No unreleased version is released, and each has an open milestone.
pub proof fn lemma_unreleased_are_not_released(
    milestones: Seq<MilestoneView>,
    log: Seq<EntryView>,
    today: int,
    upto: int,
)
    requires
        0 <= upto <= milestones.len(),
    ensures
        forall|k: int|
            0 <= k < unreleased_milestones(milestones, log, today, upto).len() ==> {
                let m = #[trigger] unreleased_milestones(milestones, log, today, upto)[k];
                &&& !is_released(log, today, m.version)
                &&& exists|j: int| 0 <= j < upto && milestones[j] == m
            },
    decreases upto,
{
    if upto > 0 {
        lemma_unreleased_are_not_released(milestones, log, today, upto - 1);
        let earlier = unreleased_milestones(milestones, log, today, upto - 1);
        let now = unreleased_milestones(milestones, log, today, upto);
        assert forall|k: int| 0 <= k < now.len() implies {
            let m = #[trigger] now[k];
            &&& !is_released(log, today, m.version)
            &&& exists|j: int| 0 <= j < upto && milestones[j] == m
        } by {
            if k < earlier.len() {
                let m = earlier[k];
                let j = choose|j: int| 0 <= j < upto - 1 && milestones[j] == m;
                assert(0 <= j < upto && milestones[j] == m);
            } else {
                assert(milestones[upto - 1] == now[k]);
            }
        }
    }
}

} // verus!
