//! The order of versions: by the three numbers, then by the labels as
//! semantic versioning ranks them.

use crate::version::{build_label, prerelease_label, Version, VersionView};
use semver::{BuildMetadata, Prerelease};
use std::cmp::Ordering;
use vstd::prelude::*;

verus! {

/// How `semver` ranks two pre-release labels: -1 where the first comes
/// before the second, 0 where neither comes first, 1 where it comes after.
pub uninterp spec fn semver_prerelease_order(a: Seq<char>, b: Seq<char>) -> int;

/// How `semver` ranks two build labels: -1, 0 or 1 as above.
pub uninterp spec fn semver_build_order(a: Seq<char>, b: Seq<char>) -> int;

/// Calls `Ord::cmp` of `semver::Prerelease` on the two labels. A version
/// without a label is a release and ranks above every pre-release of the
/// same numbers; two versions without one rank alike.
#[verifier::external_body]
fn rank_prerelease(a: &str, b: &str) -> (rank: i8)
    requires
        prerelease_label(a@),
        prerelease_label(b@),
    ensures
        rank == semver_prerelease_order(a@, b@),
        -1 <= rank <= 1,
        a@.len() == 0 && b@.len() == 0 ==> rank == 0,
        a@.len() == 0 && b@.len() > 0 ==> rank == 1,
        a@.len() > 0 && b@.len() == 0 ==> rank == -1,
{
    match Prerelease::new(a).unwrap().cmp(&Prerelease::new(b).unwrap()) {
        Ordering::Less => -1,
        Ordering::Equal => 0,
        Ordering::Greater => 1,
    }
}

/// Calls `Ord::cmp` of `semver::BuildMetadata` on the two labels.
#[verifier::external_body]
fn rank_build(a: &str, b: &str) -> (rank: i8)
    requires
        build_label(a@),
        build_label(b@),
    ensures
        rank == semver_build_order(a@, b@),
        -1 <= rank <= 1,
{
    match BuildMetadata::new(a).unwrap().cmp(&BuildMetadata::new(b).unwrap()) {
        Ordering::Less => -1,
        Ordering::Equal => 0,
        Ordering::Greater => 1,
    }
}

/// How two numbers rank: -1, 0 or 1.
pub open spec fn number_order(a: nat, b: nat) -> int {
    if a < b {
        -1
    } else if a == b {
        0
    } else {
        1
    }
}

/// How two versions rank by their three numbers alone.
pub open spec fn release_order(a: VersionView, b: VersionView) -> int {
    if a.major != b.major {
        number_order(a.major, b.major)
    } else if a.minor != b.minor {
        number_order(a.minor, b.minor)
    } else {
        number_order(a.patch, b.patch)
    }
}

/// How two versions rank: by major, minor and patch number, then by
/// pre-release label, then by build label.
pub open spec fn version_order(a: VersionView, b: VersionView) -> int {
    if release_order(a, b) != 0 {
        release_order(a, b)
    } else if semver_prerelease_order(a.pre, b.pre) != 0 {
        semver_prerelease_order(a.pre, b.pre)
    } else {
        semver_build_order(a.build, b.build)
    }
}

fn rank_numbers(a: u64, b: u64) -> (rank: i8)
    ensures
        rank == number_order(a as nat, b as nat),
{
    if a < b {
        -1
    } else if a == b {
        0
    } else {
        1
    }
}

impl Version {
    /// How this version ranks against `other` by the three numbers alone.
    pub fn rank_release(&self, other: &Version) -> (rank: i8)
        ensures
            rank == release_order(self@, other@),
    {
        if self.major() != other.major() {
            rank_numbers(self.major(), other.major())
        } else if self.minor() != other.minor() {
            rank_numbers(self.minor(), other.minor())
        } else {
            rank_numbers(self.patch(), other.patch())
        }
    }

    /// How this version ranks against `other`.
    pub fn rank(&self, other: &Version) -> (rank: i8)
        ensures
            rank == version_order(self@, other@),
            -1 <= rank <= 1,
    {
        let by_numbers = self.rank_release(other);
        if by_numbers != 0 {
            return by_numbers;
        }
        let by_pre = rank_prerelease(self.pre(), other.pre());
        if by_pre != 0 {
            return by_pre;
        }
        rank_build(self.build(), other.build())
    }
}

/// The order by numbers is the order of the triples of numbers: it is
/// transitive.
pub proof fn lemma_release_order_transitive(a: VersionView, b: VersionView, c: VersionView)
    requires
        release_order(a, b) <= 0,
        release_order(b, c) <= 0,
    ensures
        release_order(a, c) <= 0,
        release_order(a, b) < 0 || release_order(b, c) < 0 ==> release_order(a, c) < 0,
{
}

/// A version never ranks above one with greater numbers.
pub proof fn lemma_version_order_follows_numbers(a: VersionView, b: VersionView)
    ensures
        release_order(a, b) < 0 ==> version_order(a, b) < 0,
        release_order(a, b) > 0 ==> version_order(a, b) > 0,
{
}

} // verus!
