//! Sample statistics over the issues and merged pull requests of a snapshot:
//! exact integer totals, from which averages and rates are quotients.

use vstd::prelude::*;
use crate::clock::{parse_hours_between, rfc3339_hours_between};
use crate::snapshot::{IssueCandidate, PullRequestFact};
use crate::text::{contains, contains_text, lowercase, lowercase_of};

verus! {

/// Totals over the measured first responses, as mathematical integers.
pub ghost struct ResponseTotals {
    pub count: int,
    pub hours: int,
    pub under_24h: int,
}

/// Totals over the measured first responses of a snapshot's issues.
#[derive(Debug, Clone, Copy, PartialEq, Eq)]
pub struct ResponseStats {
    /// How many issues had a measurable first response.
    pub count: usize,
    /// Sum of the whole hours from creation to first comment.
    pub total_hours: i128,
    /// How many of them were answered in less than 24 hours.
    pub under_24h: usize,
}

/// No response measured yet.
pub open spec fn no_responses() -> ResponseTotals {
    ResponseTotals { count: 0, hours: 0, under_24h: 0 }
}

/// The totals `t` with one more response, which took `hours`.
pub open spec fn with_response(t: ResponseTotals, hours: i64) -> ResponseTotals {
    ResponseTotals {
        count: t.count + 1,
        hours: t.hours + hours,
        under_24h: t.under_24h + if hours < 24 { 1int } else { 0int },
    }
}

/// The hours from an issue's creation to its first comment. Measured only
/// for an issue without assignee whose two timestamps are both readable.
pub open spec fn response_hours(issue: IssueCandidate) -> Option<i64> {
    if issue.assignee_count > 0 {
        None
    } else {
        match (issue.created_at, issue.first_comment_at) {
            (Some(created), Some(answered)) => rfc3339_hours_between(created@, answered@),
            _ => None,
        }
    }
}

/// The totals over all measured responses among `issues`.
pub open spec fn response_totals(issues: Seq<IssueCandidate>) -> ResponseTotals
    decreases issues.len(),
{
    if issues.len() == 0 {
        no_responses()
    } else {
        let before = response_totals(issues.drop_last());
        match response_hours(issues.last()) {
            Some(hours) => with_response(before, hours),
            None => before,
        }
    }
}

impl ResponseStats {
    pub open spec fn view(&self) -> ResponseTotals {
        ResponseTotals {
            count: self.count as int,
            hours: self.total_hours as int,
            under_24h: self.under_24h as int,
        }
    }

    /// The counters agree with each other and the sum is within what
    /// `count` samples of 64 bits can reach.
    pub open spec fn wf(&self) -> bool {
        &&& self.under_24h <= self.count
        &&& -(self.count as int) * 0x8000_0000_0000_0000 <= self.total_hours
        &&& self.total_hours <= (self.count as int) * 0x8000_0000_0000_0000
    }

    pub fn new() -> (r: Self)
        ensures
            r@ == no_responses(),
            r.wf(),
    {
        ResponseStats { count: 0, total_hours: 0, under_24h: 0 }
    }

    /// Adds one response that took `hours`.
    pub fn record(&mut self, hours: i64)
        requires
            old(self).wf(),
            old(self).count < usize::MAX,
        ensures
            final(self)@ == with_response(old(self)@, hours),
            final(self).wf(),
    {
        self.count = self.count + 1;
        self.total_hours = self.total_hours + (hours as i128);
        if hours < 24 {
            self.under_24h = self.under_24h + 1;
        }
    }
}

/// Of every list of issues: the responses under 24 hours are a part of the
/// measured ones, so their share lies between 0 and 100 percent; and where
/// no issue has a first comment, nothing is measured.
pub proof fn lemma_response_rate_bounds(issues: Seq<IssueCandidate>)
    ensures
        0 <= response_totals(issues).under_24h <= response_totals(issues).count,
        0 <= 100 * response_totals(issues).under_24h <= 100 * response_totals(issues).count,
        (forall|i: int| 0 <= i < issues.len() ==> issues[i].first_comment_at is None)
            ==> response_totals(issues) == no_responses(),
        response_totals(issues).count <= issues.len(),
    decreases issues.len(),
{
    if issues.len() > 0 {
        lemma_response_rate_bounds(issues.drop_last());
        if forall|i: int| 0 <= i < issues.len() ==> issues[i].first_comment_at is None {
            assert(issues.last().first_comment_at is None);
            assert(forall|i: int|
                0 <= i < issues.drop_last().len() ==> issues.drop_last()[i] == issues[i]);
        }
    }
}

/// The hours that the first response to `issue` took, where it is measured.
pub fn measure_response(issue: &IssueCandidate) -> (r: Option<i64>)
    ensures
        r == response_hours(*issue),
{
    if issue.assignee_count > 0 {
        return None;
    }
    match &issue.created_at {
        Some(created) => match &issue.first_comment_at {
            Some(answered) => parse_hours_between(created.as_str(), answered.as_str()),
            None => None,
        },
        None => None,
    }
}

/// The totals over the measured first responses among `issues`.
pub fn response_stats(issues: &Vec<IssueCandidate>) -> (r: ResponseStats)
    ensures
        r@ == response_totals(issues@),
        r.wf(),
{
    let mut stats = ResponseStats::new();
    let mut i: usize = 0;
    while i < issues.len()
        invariant
            i <= issues.len(),
            stats.wf(),
            stats.count <= i,
            stats@ == response_totals(issues@.take(i as int)),
        decreases issues.len() - i,
    {
        proof {
            assert(issues@.take(i + 1).drop_last() =~= issues@.take(i as int));
        }
        match measure_response(&issues[i]) {
            Some(hours) => {
                stats.record(hours);
            },
            None => {},
        }
        i += 1;
    }
    proof {
        assert(issues@.take(i as int) =~= issues@);
    }
    stats
}

/// Totals over the qualifying merged pull requests, as mathematical integers.
pub ghost struct MergeTotals {
    pub count: int,
    pub hours: int,
    pub lines: int,
    pub files: int,
    pub comments: int,
    pub quick_wins: int,
    pub gfi_conversions: int,
}

/// Totals over the merged pull requests of a snapshot that have both a
/// creation and a merge time.
#[derive(Debug, Clone, Copy, PartialEq, Eq)]
pub struct MergeStats {
    /// How many pull requests qualified.
    pub count: usize,
    /// Sum of the whole hours from creation to merge.
    pub total_hours: i128,
    /// Sum of the lines added and deleted.
    pub total_lines: u128,
    /// Sum of the changed-file counts.
    pub total_files: u128,
    /// Sum of the comment counts.
    pub total_comments: u128,
    /// How many were merged in less than 48 hours.
    pub quick_wins: usize,
    /// How many carried a label that mentions "good first issue".
    pub gfi_conversions: usize,
}

/// No pull request counted yet.
pub open spec fn no_merges() -> MergeTotals {
    MergeTotals {
        count: 0,
        hours: 0,
        lines: 0,
        files: 0,
        comments: 0,
        quick_wins: 0,
        gfi_conversions: 0,
    }
}

/// The totals `t` with one more pull request, merged after `hours`.
pub open spec fn with_merge(t: MergeTotals, hours: i64, pr: PullRequestFact, gfi: bool)
    -> MergeTotals {
    MergeTotals {
        count: t.count + 1,
        hours: t.hours + hours,
        lines: t.lines + pr.additions + pr.deletions,
        files: t.files + pr.changed_files,
        comments: t.comments + pr.comment_count,
        quick_wins: t.quick_wins + if hours < 48 { 1int } else { 0int },
        gfi_conversions: t.gfi_conversions + if gfi { 1int } else { 0int },
    }
}

/// The hours from a pull request's creation to its merge; `None` for one
/// that does not qualify.
pub open spec fn merge_hours(pr: PullRequestFact) -> Option<i64> {
    match (pr.created_at, pr.merged_at) {
        (Some(created), Some(merged)) => rfc3339_hours_between(created@, merged@),
        _ => None,
    }
}

/// The label's lower-case form holds the words "good first issue".
pub open spec fn mentions_good_first_issue(label: Seq<char>) -> bool {
    contains_text(lowercase_of(label), "good first issue"@)
}

/// One of the labels mentions "good first issue".
pub open spec fn has_gfi_label(labels: Seq<String>) -> bool {
    exists|k: int| 0 <= k < labels.len() && mentions_good_first_issue(#[trigger] labels[k]@)
}

/// The totals over all qualifying pull requests among `prs`.
pub open spec fn merge_totals(prs: Seq<PullRequestFact>) -> MergeTotals
    decreases prs.len(),
{
    if prs.len() == 0 {
        no_merges()
    } else {
        let before = merge_totals(prs.drop_last());
        match merge_hours(prs.last()) {
            Some(hours) => with_merge(before, hours, prs.last(), has_gfi_label(prs.last().labels@)),
            None => before,
        }
    }
}

impl MergeStats {
    pub open spec fn view(&self) -> MergeTotals {
        MergeTotals {
            count: self.count as int,
            hours: self.total_hours as int,
            lines: self.total_lines as int,
            files: self.total_files as int,
            comments: self.total_comments as int,
            quick_wins: self.quick_wins as int,
            gfi_conversions: self.gfi_conversions as int,
        }
    }

    /// The counters agree with each other and each sum is within what
    /// `count` samples can reach.
    pub open spec fn wf(&self) -> bool {
        &&& self.quick_wins <= self.count
        &&& self.gfi_conversions <= self.count
        &&& -(self.count as int) * 0x8000_0000_0000_0000 <= self.total_hours
        &&& self.total_hours <= (self.count as int) * 0x8000_0000_0000_0000
        &&& self.total_lines <= (self.count as int) * 0x2_0000_0000
        &&& self.total_files <= (self.count as int) * 0x1_0000_0000
        &&& self.total_comments <= (self.count as int) * 0x1_0000_0000
    }

    pub fn new() -> (r: Self)
        ensures
            r@ == no_merges(),
            r.wf(),
    {
        MergeStats {
            count: 0,
            total_hours: 0,
            total_lines: 0,
            total_files: 0,
            total_comments: 0,
            quick_wins: 0,
            gfi_conversions: 0,
        }
    }

    /// Adds one pull request that was merged after `hours`; `gfi` says
    /// whether it carried a "good first issue" label.
    pub fn record(&mut self, hours: i64, pr: &PullRequestFact, gfi: bool)
        requires
            old(self).wf(),
            old(self).count < usize::MAX,
        ensures
            final(self)@ == with_merge(old(self)@, hours, *pr, gfi),
            final(self).wf(),
    {
        self.count = self.count + 1;
        self.total_hours = self.total_hours + (hours as i128);
        self.total_lines = self.total_lines + (pr.additions as u128) + (pr.deletions as u128);
        self.total_files = self.total_files + (pr.changed_files as u128);
        self.total_comments = self.total_comments + (pr.comment_count as u128);
        if hours < 48 {
            self.quick_wins = self.quick_wins + 1;
        }
        if gfi {
            self.gfi_conversions = self.gfi_conversions + 1;
        }
    }
}

/// Whether one of the labels mentions "good first issue", in any case of
/// letters.
pub fn any_gfi_label(labels: &Vec<String>) -> (r: bool)
    ensures
        r == has_gfi_label(labels@),
{
    let mut k: usize = 0;
    while k < labels.len()
        invariant
            k <= labels.len(),
            forall|j: int| 0 <= j < k ==> !mentions_good_first_issue(#[trigger] labels@[j]@),
        decreases labels.len() - k,
    {
        let lowered = lowercase(labels[k].as_str());
        if contains(lowered.as_str(), "good first issue") {
            return true;
        }
        k += 1;
    }
    false
}

/// The hours that `pr` took from creation to merge, where it qualifies.
pub fn measure_merge(pr: &PullRequestFact) -> (r: Option<i64>)
    ensures
        r == merge_hours(*pr),
{
    match &pr.created_at {
        Some(created) => match &pr.merged_at {
            Some(merged) => parse_hours_between(created.as_str(), merged.as_str()),
            None => None,
        },
        None => None,
    }
}

/// The totals over the qualifying pull requests among `prs`.
pub fn merge_stats(prs: &Vec<PullRequestFact>) -> (r: MergeStats)
    ensures
        r@ == merge_totals(prs@),
        r.wf(),
{
    let mut stats = MergeStats::new();
    let mut i: usize = 0;
    while i < prs.len()
        invariant
            i <= prs.len(),
            stats.wf(),
            stats.count <= i,
            stats@ == merge_totals(prs@.take(i as int)),
        decreases prs.len() - i,
    {
        proof {
            assert(prs@.take(i + 1).drop_last() =~= prs@.take(i as int));
        }
        match measure_merge(&prs[i]) {
            Some(hours) => {
                let gfi = any_gfi_label(&prs[i].labels);
                stats.record(hours, &prs[i], gfi);
            },
            None => {},
        }
        i += 1;
    }
    proof {
        assert(prs@.take(i as int) =~= prs@);
    }
    stats
}

} // verus!
