//! What the issue tracker reports, as far as the pages need it.

use crate::date::{Date, Timestamp};
use crate::version::{Version, VersionView};
use vstd::prelude::*;

verus! {

/// A version with an open milestone, and the number of that milestone.
#[derive(Debug)]
pub struct MilestoneRef {
    pub version: Version,
    pub number: i64,
}

impl Clone for MilestoneRef {
    fn clone(&self) -> (copy: MilestoneRef)
        ensures
            copy@ == self@,
    {
        MilestoneRef { version: self.version.clone(), number: self.number }
    }
}

/// A `MilestoneRef` by the view of its version.
pub struct MilestoneView {
    pub version: VersionView,
    pub number: int,
}

impl View for MilestoneRef {
    type V = MilestoneView;

    open spec fn view(&self) -> MilestoneView {
        MilestoneView { version: self.version@, number: self.number as int }
    }
}

/// The milestones by their views.
pub open spec fn milestone_views(milestones: Seq<MilestoneRef>) -> Seq<MilestoneView> {
    Seq::new(milestones.len(), |i: int| milestones[i]@)
}

/// Whether one of the milestones is for version `v`.
pub open spec fn has_milestone(milestones: Seq<MilestoneView>, v: VersionView) -> bool {
    exists|i: int| 0 <= i < milestones.len() && (#[trigger] milestones[i]).version == v
}

/// Whether one of the milestones is for `version`, labels included.
pub fn is_listed(milestones: &Vec<MilestoneRef>, version: &Version) -> (listed: bool)
    ensures
        listed == has_milestone(milestone_views(milestones@), version@),
{
    let mut i: usize = 0;
    while i < milestones.len()
        invariant
            i <= milestones.len(),
            forall|k: int| 0 <= k < i ==> (#[trigger] milestone_views(milestones@)[k]).version != version@,
        decreases milestones.len() - i,
    {
        if milestones[i].version.same_as(version) {
            assert(milestone_views(milestones@)[i as int].version == version@);
            return true;
        }
        i += 1;
    }
    false
}

/// An issue of a milestone: its title, its address, and the day it was
/// closed on, if it is closed.
#[derive(Debug)]
pub struct Issue {
    pub title: String,
    pub html_url: String,
    pub closed_at: Option<Date>,
}

/// An `Issue` by the views of its parts.
pub struct IssueView {
    pub title: Seq<char>,
    pub html_url: Seq<char>,
    pub closed_at: Option<int>,
}

impl View for Issue {
    type V = IssueView;

    open spec fn view(&self) -> IssueView {
        IssueView {
            title: self.title@,
            html_url: self.html_url@,
            closed_at: match self.closed_at {
                Some(day) => Some(day@),
                None => None,
            },
        }
    }
}

/// The issues by their views.
pub open spec fn issue_views(issues: Seq<Issue>) -> Seq<IssueView> {
    Seq::new(issues.len(), |i: int| issues[i]@)
}

/// A label of a pull request.
#[derive(Debug)]
pub struct Label {
    pub name: String,
    pub description: Option<String>,
}

/// A `Label` by the views of its parts.
pub struct LabelView {
    pub name: Seq<char>,
    pub description: Option<Seq<char>>,
}

impl View for Label {
    type V = LabelView;

    open spec fn view(&self) -> LabelView {
        LabelView {
            name: self.name@,
            description: match self.description {
                Some(text) => Some(text@),
                None => None,
            },
        }
    }
}

/// The labels by their views.
pub open spec fn label_views(labels: Seq<Label>) -> Seq<LabelView> {
    Seq::new(labels.len(), |i: int| labels[i]@)
}

/// A pull request that stabilizes a feature.
#[derive(Debug)]
pub struct PullRequest {
    pub title: String,
    pub number: u64,
    pub html_url: String,
    pub created_at: Timestamp,
    pub labels: Vec<Label>,
}

/// A `PullRequest` by the views of its parts.
pub struct PullRequestView {
    pub title: Seq<char>,
    pub number: nat,
    pub html_url: Seq<char>,
    pub created_at: Timestamp,
    pub labels: Seq<LabelView>,
}

impl View for PullRequest {
    type V = PullRequestView;

    open spec fn view(&self) -> PullRequestView {
        PullRequestView {
            title: self.title@,
            number: self.number as nat,
            html_url: self.html_url@,
            created_at: self.created_at,
            labels: label_views(self.labels@),
        }
    }
}

/// The pull requests by their views.
pub open spec fn pull_request_views(requests: Seq<PullRequest>) -> Seq<PullRequestView> {
    Seq::new(requests.len(), |i: int| requests[i]@)
}

} // verus!
