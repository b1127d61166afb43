//! The release train: the days on which versions are released and
//! branched, the weight by which their pages are ordered, the changelog,
//! and the versions that are current on a given day.

use crate::changelog::{
    changelog_of, read_changelog, Changelog, EntryView, Fault, ReleaseError,
};
use crate::config::Config;
use crate::date::{quotient_towards_zero, Date};
use crate::precedence::{lemma_release_order_transitive, release_order, version_order};
use crate::text::to_chars;
use crate::version::{Version, VersionView};
use vstd::prelude::*;

verus! {

/// The days of one release: the day it is released on and the day its
/// branch is cut.
#[derive(Debug, Clone, Copy)]
pub struct ReleaseDate {
    pub release_date: Date,
    pub branch_date: Date,
}

/// The days from one release to the next.
pub const CYCLE_DAYS: i64 = 42;

/// How many release cycles have been completed on day `as_of`, counted
/// from day `epoch`: the whole weeks between the two, six to a cycle.
pub open spec fn elapsed_cycles(epoch: int, as_of: int) -> int {
    quotient_towards_zero(as_of - epoch, 7) / 6
}

/// The day of the release that is `step` cycles after the last one
/// completed on day `as_of`.
pub open spec fn release_day(epoch: int, as_of: int, step: int) -> int {
    epoch + 42 * (elapsed_cycles(epoch, as_of) + step)
}

/// The day on which the branch of that release is cut: six days before
/// the release that precedes it.
pub open spec fn branch_day(epoch: int, as_of: int, step: int) -> int {
    epoch + 42 * (elapsed_cycles(epoch, as_of) + step - 1) - 6
}

/// Whether both days of that release have numbers of 32 bits.
pub open spec fn cadence_fits(epoch: int, as_of: int, step: int) -> bool {
    i32::MIN <= branch_day(epoch, as_of, step) && release_day(epoch, as_of, step) <= i32::MAX
}

/// The sum of the code points of a text.
pub open spec fn char_sum(s: Seq<char>) -> nat
    decreases s.len(),
{
    if s.len() == 0 {
        0
    } else {
        char_sum(s.drop_last()) + s.last() as nat
    }
}

/// The weight of a version by its numbers alone: the greater the version,
/// the smaller the weight.
pub open spec fn base_weight(v: VersionView) -> int {
    u64::MAX - v.major * 0x100_0000 - v.minor * 0x100 - v.patch
}

/// Whether the weight of a version can be held: its numbers do not use up
/// more than 64 bits.
pub open spec fn weight_fits(v: VersionView) -> bool {
    base_weight(v) >= 0
}

/// What a pre-release label adds to the weight.
pub open spec fn label_offset(pre: Seq<char>) -> int {
    (char_sum(pre) % 100) as int
}

/// The weight of a version: that of its numbers, and for a pre-release
/// the offset of its label on top, as far as 64 bits go.
pub open spec fn weight(v: VersionView) -> int {
    if v.pre.len() == 0 {
        base_weight(v)
    } else if base_weight(v) + label_offset(v.pre) > u64::MAX {
        u64::MAX as int
    } else {
        base_weight(v) + label_offset(v.pre)
    }
}

/// The index of the newest version among the first `upto` entries that
/// are released on day `today`; of two that rank alike the later one.
pub open spec fn newest_released(log: Seq<EntryView>, today: int, upto: int) -> Option<int>
    decreases upto,
{
    if upto <= 0 {
        None
    } else {
        let earlier = newest_released(log, today, upto - 1);
        let i = upto - 1;
        if log[i].date <= today && (earlier is None || version_order(
            log[earlier.unwrap()].version,
            log[i].version,
        ) <= 0) {
            Some(i)
        } else {
            earlier
        }
    }
}

/// The stable, beta and nightly versions of day `today`: the newest
/// released version and the two minor versions after it.
pub open spec fn current_versions(log: Seq<EntryView>, today: int) -> Result<
    (VersionView, VersionView, VersionView),
    Fault,
> {
    match newest_released(log, today, log.len() as int) {
        None => Err(Fault::NoRelease),
        Some(i) => {
            let stable = log[i].version;
            if stable.minor + 2 > u64::MAX {
                Err(Fault::MinorLimit)
            } else {
                Ok((stable, stable.minor_ahead(1), stable.minor_ahead(2)))
            }
        },
    }
}

/// The newest released version is an entry that is released, and no
/// released entry has greater numbers.
pub proof fn lemma_newest_released(log: Seq<EntryView>, today: int, upto: int)
    requires
        0 <= upto <= log.len(),
    ensures
        match newest_released(log, today, upto) {
            Some(i) => 0 <= i < upto && log[i].date <= today && forall|j: int|
                0 <= j < upto && (#[trigger] log[j]).date <= today ==> release_order(
                    log[j].version,
                    log[i].version,
                ) <= 0,
            None => forall|j: int| 0 <= j < upto ==> (#[trigger] log[j]).date > today,
        },
    decreases upto,
{
    if upto > 0 {
        lemma_newest_released(log, today, upto - 1);
        let earlier = newest_released(log, today, upto - 1);
        let last = upto - 1;
        if let Some(i) = newest_released(log, today, upto) {
            assert forall|j: int| 0 <= j < upto && (#[trigger] log[j]).date <= today implies release_order(
                log[j].version,
                log[i].version,
            ) <= 0 by {
                if i == last && j < last {
                    let e = earlier.unwrap();
                    lemma_release_order_transitive(
                        log[j].version,
                        log[e].version,
                        log[last].version,
                    );
                }
            }
        }
    }
}

fn code_point(c: char) -> (code: u32)
    ensures
        code == c as nat,
{
    c as u32
}

/// The release train of one site.
#[derive(Debug, Clone)]
pub struct VersionManager {
    config: Config,
}

impl VersionManager {
    /// The release train that is counted from the epoch of `config`.
    pub fn new(config: Config) -> (manager: VersionManager)
        ensures
            manager.epoch() == config.epoch_date@,
    {
        VersionManager { config }
    }

    /// The number of the day from which the cadence is counted.
    pub closed spec fn epoch(&self) -> int {
        self.config.epoch_date@
    }

    /// The day from which the cadence is counted.
    pub fn epoch_date(&self) -> (day: Date)
        ensures
            day@ == self.epoch(),
    {
        self.config.epoch_date
    }

    /// Whether `calculate_release_date` can be asked for these arguments:
    /// both days it gives have numbers of 32 bits.
    pub fn cadence_fits(&self, now_date: Date, incr: i64) -> (fits: bool)
        ensures
            fits == cadence_fits(self.epoch(), now_date@, incr as int),
    {
        let days: i128 = now_date.day_number as i128 - self.config.epoch_date.day_number as i128;
        let weeks: i128 = if days >= 0 {
            days / 7
        } else {
            -((-days) / 7)
        };
        let cycles: i128 = if weeks >= 0 {
            weeks / 6
        } else {
            -1 - ((-(weeks + 1)) / 6)
        };
        assert(cycles == elapsed_cycles(self.epoch(), now_date@));
        let release: i128 = self.config.epoch_date.day_number as i128 + 42 * (cycles
            + incr as i128);
        let branch: i128 = release - 48;
        i32::MIN as i128 <= branch && release <= i32::MAX as i128
    }

    /// The days of the release that is `incr` cycles after the last one
    /// completed on `now_date`: 1 for the next release, 2 for the one
    /// after it, 0 and below for those that have been.
    pub fn calculate_release_date(&self, now_date: Date, incr: i64) -> (days: ReleaseDate)
        requires
            cadence_fits(self.epoch(), now_date@, incr as int),
        ensures
            days.release_date@ == release_day(self.epoch(), now_date@, incr as int),
            days.branch_date@ == branch_day(self.epoch(), now_date@, incr as int),
    {
        let days: i128 = now_date.day_number as i128 - self.config.epoch_date.day_number as i128;
        let weeks: i128 = if days >= 0 {
            days / 7
        } else {
            -((-days) / 7)
        };
        let cycles: i128 = if weeks >= 0 {
            weeks / 6
        } else {
            -1 - ((-(weeks + 1)) / 6)
        };
        assert(cycles == elapsed_cycles(self.epoch(), now_date@));
        let release: i128 = self.config.epoch_date.day_number as i128 + 42 * (cycles
            + incr as i128);
        let branch: i128 = release - 48;
        ReleaseDate {
            release_date: Date::from_day_number(release as i32),
            branch_date: Date::from_day_number(branch as i32),
        }
    }

    /// Whether `determine_weight` can be asked for this version.
    pub fn weight_fits(&self, version: &Version) -> (fits: bool)
        ensures
            fits == weight_fits(version@),
    {
        let used: u128 = version.major() as u128 * 0x100_0000 + version.minor() as u128 * 0x100
            + version.patch() as u128;
        used <= u64::MAX as u128
    }

    /// The weight of the page of a version.
    pub fn determine_weight(&self, version: &Version) -> (w: u64)
        requires
            weight_fits(version@),
        ensures
            w == weight(version@),
    {
        let base: u64 = u64::MAX - version.major() * 0x100_0000 - version.minor() * 0x100
            - version.patch();
        if version.pre().is_empty() {
            return base;
        }
        let label = to_chars(version.pre());
        let mut offset: u64 = 0;
        let mut i: usize = 0;
        assert(label@.take(0) =~= Seq::<char>::empty());
        while i < label.len()
            invariant
                i <= label.len(),
                offset == char_sum(label@.take(i as int)) % 100,
            decreases label.len() - i,
        {
            assert(label@.take(i as int + 1).drop_last() =~= label@.take(i as int));
            let code: u32 = code_point(label[i]);
            assert(label[i as int] == label@.take(i as int + 1).last());
            offset = (offset + (code % 100) as u64) % 100;
            i += 1;
        }
        assert(label@.take(label.len() as int) =~= label@);
        base.saturating_add(offset)
    }

    /// Reads the changelog document.
    pub fn parse_changelogs(&self, body: &str) -> (found: Result<Changelog, ReleaseError>)
        ensures
            match found {
                Ok(log) => changelog_of(body@) == Ok::<Seq<EntryView>, Fault>(log@)
                    && log.well_formed(),
                Err(e) => changelog_of(body@) == Err::<Seq<EntryView>, Fault>(e@),
            },
    {
        read_changelog(body)
    }

    /// The stable, beta and nightly versions of day `today`. The stable
    /// version is the newest of the changelog that is released on that
    /// day; the beta and nightly versions are one and two minor versions
    /// after it.
    pub fn get_current_versions(&self, changelogs: &Changelog, today: Date) -> (found: Result<
        (Version, Version, Version),
        ReleaseError,
    >)
        ensures
            match found {
                Ok((stable, beta, nightly)) => current_versions(changelogs@, today@) == Ok::<
                    (VersionView, VersionView, VersionView),
                    Fault,
                >((stable@, beta@, nightly@)) && forall|j: int|
                    0 <= j < changelogs@.len() && (#[trigger] changelogs@[j]).date <= today@
                        ==> release_order(changelogs@[j].version, stable@) <= 0,
                Err(e) => current_versions(changelogs@, today@) == Err::<
                    (VersionView, VersionView, VersionView),
                    Fault,
                >(e@),
            },
    {
        let mut best: Option<usize> = None;
        let mut i: usize = 0;
        while i < changelogs.entries.len()
            invariant
                i <= changelogs.entries.len(),
                match best {
                    Some(b) => newest_released(changelogs@, today@, i as int) == Some(b as int)
                        && b < i,
                    None => newest_released(changelogs@, today@, i as int) is None,
                },
            decreases changelogs.entries.len() - i,
        {
            let entry = &changelogs.entries[i];
            assert(changelogs@[i as int] == entry@);
            if entry.date.day_number <= today.day_number {
                match best {
                    None => {
                        best = Some(i);
                    },
                    Some(b) => {
                        assert(changelogs@[b as int] == changelogs.entries[b as int]@);
                        if changelogs.entries[b].version.rank(&entry.version) <= 0 {
                            best = Some(i);
                        }
                    },
                }
            }
            i += 1;
        }
        proof {
            lemma_newest_released(changelogs@, today@, changelogs@.len() as int);
        }
        match best {
            None => Err(ReleaseError::NoRelease),
            Some(b) => {
                let stable = changelogs.entries[b].version.clone();
                assert(changelogs@[b as int] == changelogs.entries[b as int]@);
                if !stable.can_advance(2) {
                    return Err(ReleaseError::MinorLimit);
                }
                let beta = stable.minor_ahead(1);
                let nightly = stable.minor_ahead(2);
                Ok((stable, beta, nightly))
            },
        }
    }
}

/// The stable version is a version of the changelog that is released, no
/// released version has greater numbers, and the beta and nightly
/// versions are the first and second minor version after it.
pub proof fn lemma_current_versions(log: Seq<EntryView>, today: int)
    ensures
        match current_versions(log, today) {
            Ok((stable, beta, nightly)) => {
                &&& exists|i: int|
                    0 <= i < log.len() && (#[trigger] log[i]).version == stable && log[i].date
                        <= today
                &&& forall|j: int|
                    0 <= j < log.len() && (#[trigger] log[j]).date <= today ==> release_order(
                        log[j].version,
                        stable,
                    ) <= 0
                &&& beta == stable.minor_ahead(1)
                &&& nightly == stable.minor_ahead(2)
            },
            Err(fault) => fault == Fault::MinorLimit || (fault == Fault::NoRelease && forall|j: int|
                0 <= j < log.len() ==> (#[trigger] log[j]).date > today),
        },
{
    lemma_newest_released(log, today, log.len() as int);
}

/// On the day from which the cadence is counted, the next release is six
/// weeks away and its branch was cut six days before.
pub proof fn lemma_cadence_at_epoch(epoch: int)
    ensures
        release_day(epoch, epoch, 1) == epoch + 42,
        branch_day(epoch, epoch, 1) == epoch - 6,
{
}

/// Releases follow each other at six weeks, and the branch of a release
/// is cut six days before the release that precedes it.
pub proof fn lemma_cadence_steps(epoch: int, as_of: int, step: int)
    ensures
        release_day(epoch, as_of, step + 1) == release_day(epoch, as_of, step) + 42,
        branch_day(epoch, as_of, step + 1) == release_day(epoch, as_of, step) - 6,
{
}

/// The next release is after the day it is asked on, by six weeks at
/// most, on every day from the epoch on.
pub proof fn lemma_next_release_is_ahead(epoch: int, as_of: int)
    requires
        epoch <= as_of,
    ensures
        as_of < release_day(epoch, as_of, 1) <= as_of + 42,
{
}

/// Among releases whose minor number is below 2^16 and whose patch number
/// is below 2^8, the greater version has the smaller weight: pages in
/// ascending order of weight are in descending order of version.
pub proof fn lemma_weight_orders_releases(a: VersionView, b: VersionView)
    requires
        a.pre.len() == 0,
        b.pre.len() == 0,
        weight_fits(a),
        weight_fits(b),
        a.minor < 0x1_0000,
        b.minor < 0x1_0000,
        a.patch < 0x100,
        b.patch < 0x100,
    ensures
        release_order(a, b) < 0 <==> weight(a) > weight(b),
        release_order(a, b) == 0 <==> weight(a) == weight(b),
{
}

/// A pre-release weighs no less than the release of the same numbers, and
/// less than a hundred more.
pub proof fn lemma_prerelease_weighs_more(v: VersionView)
    requires
        weight_fits(v),
    ensures
        base_weight(v) <= weight(v) < base_weight(v) + 100,
        weight(v) <= u64::MAX,
{
}

} // verus!
