//! Deriving the records to persist from one repository snapshot.
//!
//! Scores are kept exact: a difficulty is the integer totals that it is
//! computed from, and a health score is either the neutral default or such
//! a difficulty. Turning totals into a decimal number is left to the caller.

use vstd::prelude::*;
use crate::clock::{parse_micros, rfc3339_micros};
use crate::histogram::{extension_histogram, is_histogram_of, lines, tally, ExtensionCount};
use crate::snapshot::{IssueCandidate, RepositorySnapshot};
use crate::stats::{
    merge_stats, merge_totals, response_stats, response_totals, MergeStats, ResponseStats,
};

verus! {

/// A repository with fewer stars than this is not persisted.
pub const MIN_STARS: i64 = 10;

/// A repository with fewer mentionable users than this has a solo maintainer.
pub const SOLO_MAINTAINER_BELOW: i64 = 3;

/// How hard the recent merged pull requests were, as the totals over the
/// `pr_count > 0` pull requests that qualified. The difficulty value is
/// ten times the weighted sum of `ln(average + 1)` over the average lines
/// (weight 0.4), files (0.3), comments (0.2) and merge days (0.1), each
/// average being the total divided by `pr_count`, a day being 24 hours.
#[derive(Debug, Clone, Copy, PartialEq, Eq)]
pub struct Difficulty {
    pub pr_count: usize,
    pub total_lines: u128,
    pub total_files: u128,
    pub total_comments: u128,
    pub total_merge_hours: i128,
}

/// A repository's health score.
#[derive(Debug, Clone, Copy, PartialEq, Eq)]
pub enum HealthScore {
    /// Exactly 50: no merged pull request qualified, so nothing was derived.
    Neutral,
    /// 100 minus the value of the difficulty; not limited from below.
    Derived(Difficulty),
}

/// The aggregate that is stored with a repository.
#[derive(Debug, Clone, PartialEq, Eq)]
pub struct HealthBreakdown {
    pub commits_30d: i64,
    pub responses: ResponseStats,
    pub merges: MergeStats,
    pub solo_maintainer: bool,
    pub has_ownership_file: bool,
    pub source_extensions: Vec<ExtensionCount>,
}

/// The repository record to persist.
#[derive(Debug, Clone, PartialEq, Eq)]
pub struct ScoredRepository {
    pub full_name: String,
    pub name: String,
    pub stars: i64,
    pub forks: i64,
    pub category: String,
    /// Unix time of the last push in microseconds; `None` where the snapshot
    /// gives no readable time, and the record is stamped when it is stored.
    pub last_active: Option<i64>,
    pub health_score: HealthScore,
    pub breakdown: HealthBreakdown,
}

/// One issue record to persist.
#[derive(Debug, Clone, PartialEq, Eq)]
pub struct ScoredIssue {
    pub url: String,
    /// The full name of the repository that the issue belongs to.
    pub repo_id: String,
    pub title: String,
    /// The repository's difficulty, the same on each of its issues.
    pub difficulty: Option<Difficulty>,
    pub tags: Vec<String>,
    pub has_project_overhead: bool,
    /// Unix time of creation in microseconds; `None` where the snapshot gives
    /// no readable time, and the record is stamped when it is stored.
    pub created_at: Option<i64>,
}

/// What scoring an accepted snapshot yields.
#[derive(Debug, Clone, PartialEq, Eq)]
pub struct Scored {
    pub repository: ScoredRepository,
    pub issues: Vec<ScoredIssue>,
}

/// The instant that an optional timestamp text denotes.
pub open spec fn instant_of(text: Option<String>) -> Option<i64> {
    match text {
        Some(t) => rfc3339_micros(t@),
        None => None,
    }
}

/// The difficulty that the merge totals `m` give: absent exactly when no
/// pull request qualified.
pub open spec fn difficulty_of(m: MergeStats) -> Option<Difficulty> {
    if m.count == 0 {
        None
    } else {
        Some(
            Difficulty {
                pr_count: m.count,
                total_lines: m.total_lines,
                total_files: m.total_files,
                total_comments: m.total_comments,
                total_merge_hours: m.total_hours,
            },
        )
    }
}

/// The health score that goes with a difficulty.
pub open spec fn health_of(difficulty: Option<Difficulty>) -> HealthScore {
    match difficulty {
        Some(d) => HealthScore::Derived(d),
        None => HealthScore::Neutral,
    }
}

/// An issue is persisted when nobody is assigned to it and it has an address.
pub open spec fn persistable(issue: IssueCandidate) -> bool {
    issue.assignee_count <= 0 && issue.url is Some && issue.url->0@.len() > 0
}

/// The persistable issues among `issues`, in their order.
pub open spec fn persistable_issues(issues: Seq<IssueCandidate>) -> Seq<IssueCandidate>
    decreases issues.len(),
{
    if issues.len() == 0 {
        Seq::empty()
    } else if persistable(issues.last()) {
        persistable_issues(issues.drop_last()).push(issues.last())
    } else {
        persistable_issues(issues.drop_last())
    }
}

/// `record` is what is persisted of `issue` in the repository `repo_id`
/// with the given difficulty.
pub open spec fn is_record_of(
    record: ScoredIssue,
    issue: IssueCandidate,
    repo_id: Seq<char>,
    difficulty: Option<Difficulty>,
) -> bool {
    &&& issue.url is Some
    &&& record.url@ == issue.url->0@
    &&& record.repo_id@ == repo_id
    &&& record.title@ == match issue.title {
        Some(t) => t@,
        None => "Untitled"@,
    }
    &&& record.difficulty == difficulty
    &&& record.tags@ == issue.labels@
    &&& record.has_project_overhead == (issue.project_count >= 1)
    &&& record.created_at == instant_of(issue.created_at)
}

/// `records` are the records of the persistable issues among `issues`, one
/// each and in their order.
pub open spec fn are_records_of(
    records: Seq<ScoredIssue>,
    issues: Seq<IssueCandidate>,
    repo_id: Seq<char>,
    difficulty: Option<Difficulty>,
) -> bool {
    &&& records.len() == persistable_issues(issues).len()
    &&& forall|k: int|
        0 <= k < records.len() ==> is_record_of(
            #[trigger] records[k],
            persistable_issues(issues)[k],
            repo_id,
            difficulty,
        )
}

/// A snapshot is accepted when it is there and has at least `MIN_STARS` stars.
pub open spec fn accepted(snapshot: Option<RepositorySnapshot>) -> bool {
    snapshot is Some && snapshot->0.stars >= MIN_STARS
}

/// `out` is what scoring `snapshot` for `category` yields.
pub open spec fn is_scoring_of(out: Scored, snapshot: RepositorySnapshot, category: Seq<char>)
    -> bool {
    let repo = out.repository;
    let health = repo.breakdown;
    &&& repo.full_name@ == snapshot.full_name@
    &&& repo.name@ == snapshot.name@
    &&& repo.stars == snapshot.stars
    &&& repo.forks == snapshot.forks
    &&& repo.category@ == category
    &&& repo.last_active == instant_of(snapshot.pushed_at)
    &&& health.commits_30d == snapshot.commits_30d
    &&& health.responses@ == response_totals(snapshot.issues@)
    &&& health.merges@ == merge_totals(snapshot.pull_requests@)
    &&& health.solo_maintainer == (snapshot.mentionable_users < SOLO_MAINTAINER_BELOW)
    &&& health.has_ownership_file == (snapshot.ownership_file_size > 0)
    &&& lines(health.source_extensions@) == tally(snapshot.source_extensions@)
    &&& is_histogram_of(health.source_extensions@, snapshot.source_extensions@)
    &&& repo.health_score == health_of(difficulty_of(health.merges))
    &&& are_records_of(
        out.issues@,
        snapshot.issues@,
        snapshot.full_name@,
        difficulty_of(health.merges),
    )
}

/// The two issue records hold the same values.
pub open spec fn same_issue_record(a: ScoredIssue, b: ScoredIssue) -> bool {
    &&& a.url@ == b.url@
    &&& a.repo_id@ == b.repo_id@
    &&& a.title@ == b.title@
    &&& a.difficulty == b.difficulty
    &&& a.tags@ == b.tags@
    &&& a.has_project_overhead == b.has_project_overhead
    &&& a.created_at == b.created_at
}

/// The two results hold the same repository record and the same issue
/// records, in the same order.
pub open spec fn same_records(a: Scored, b: Scored) -> bool {
    &&& a.repository.full_name@ == b.repository.full_name@
    &&& a.repository.name@ == b.repository.name@
    &&& a.repository.stars == b.repository.stars
    &&& a.repository.forks == b.repository.forks
    &&& a.repository.category@ == b.repository.category@
    &&& a.repository.last_active == b.repository.last_active
    &&& a.repository.health_score == b.repository.health_score
    &&& a.repository.breakdown.commits_30d == b.repository.breakdown.commits_30d
    &&& a.repository.breakdown.responses == b.repository.breakdown.responses
    &&& a.repository.breakdown.merges == b.repository.breakdown.merges
    &&& a.repository.breakdown.solo_maintainer == b.repository.breakdown.solo_maintainer
    &&& a.repository.breakdown.has_ownership_file == b.repository.breakdown.has_ownership_file
    &&& lines(a.repository.breakdown.source_extensions@) == lines(
        b.repository.breakdown.source_extensions@,
    )
    &&& a.issues@.len() == b.issues@.len()
    &&& forall|k: int|
        0 <= k < a.issues@.len() ==> same_issue_record(#[trigger] a.issues@[k], b.issues@[k])
}

/// Scoring is a function of the snapshot and the category: whatever two
/// results there are for the same input, they hold the same records.
pub proof fn lemma_scoring_is_repeatable(
    a: Scored,
    b: Scored,
    snapshot: RepositorySnapshot,
    category: Seq<char>,
)
    requires
        is_scoring_of(a, snapshot, category),
        is_scoring_of(b, snapshot, category),
    ensures
        same_records(a, b),
{
    let ra = a.repository.breakdown.responses;
    let rb = b.repository.breakdown.responses;
    assert(ra@ == rb@);
    assert(ra.count == rb.count && ra.total_hours == rb.total_hours && ra.under_24h
        == rb.under_24h);
    let ma = a.repository.breakdown.merges;
    let mb = b.repository.breakdown.merges;
    assert(ma@ == mb@);
    assert(ma.count == mb.count && ma.total_hours == mb.total_hours && ma.total_lines
        == mb.total_lines && ma.total_files == mb.total_files && ma.total_comments
        == mb.total_comments && ma.quick_wins == mb.quick_wins && ma.gfi_conversions
        == mb.gfi_conversions);
    assert(ma == mb);
    assert forall|k: int| 0 <= k < a.issues@.len() implies same_issue_record(
        #[trigger] a.issues@[k],
        b.issues@[k],
    ) by {
        assert(is_record_of(
            b.issues@[k],
            persistable_issues(snapshot.issues@)[k],
            snapshot.full_name@,
            difficulty_of(mb),
        ));
    }
}

/// The difficulty that the merge totals give, absent where no pull request
/// qualified.
pub fn difficulty_from(merges: &MergeStats) -> (r: Option<Difficulty>)
    ensures
        r == difficulty_of(*merges),
        r is None <==> merges.count == 0,
{
    if merges.count == 0 {
        None
    } else {
        Some(
            Difficulty {
                pr_count: merges.count,
                total_lines: merges.total_lines,
                total_files: merges.total_files,
                total_comments: merges.total_comments,
                total_merge_hours: merges.total_hours,
            },
        )
    }
}

/// The health score that goes with a difficulty: neutral where it is absent.
pub fn health_from(difficulty: Option<Difficulty>) -> (r: HealthScore)
    ensures
        r == health_of(difficulty),
        difficulty is None <==> r == HealthScore::Neutral,
{
    match difficulty {
        Some(d) => HealthScore::Derived(d),
        None => HealthScore::Neutral,
    }
}

/// The instant that an optional timestamp text denotes, if it is readable.
pub fn read_instant(text: &Option<String>) -> (r: Option<i64>)
    ensures
        r == instant_of(*text),
{
    match text {
        Some(t) => parse_micros(t.as_str()),
        None => None,
    }
}

/// A copy of a list of labels.
pub fn copy_labels(labels: &Vec<String>) -> (r: Vec<String>)
    ensures
        r@ == labels@,
{
    let mut out: Vec<String> = Vec::new();
    let mut k: usize = 0;
    while k < labels.len()
        invariant
            k <= labels.len(),
            out@ == labels@.take(k as int),
        decreases labels.len() - k,
    {
        out.push(labels[k].clone());
        proof {
            assert(out@ =~= labels@.take(k + 1));
        }
        k += 1;
    }
    proof {
        assert(labels@.take(k as int) =~= labels@);
    }
    out
}

/// The record of one issue, if the issue is persistable.
pub fn issue_record(issue: &IssueCandidate, repo_id: &str, difficulty: Option<Difficulty>) -> (r:
    Option<ScoredIssue>)
    ensures
        r is Some <==> persistable(*issue),
        r matches Some(record) ==> is_record_of(record, *issue, repo_id@, difficulty),
{
    if issue.assignee_count > 0 {
        return None;
    }
    match &issue.url {
        Some(url) => {
            if url.as_str().unicode_len() == 0 {
                return None;
            }
            let title = match &issue.title {
                Some(t) => t.clone(),
                None => "Untitled".to_owned(),
            };
            Some(
                ScoredIssue {
                    url: url.clone(),
                    repo_id: repo_id.to_owned(),
                    title,
                    difficulty,
                    tags: copy_labels(&issue.labels),
                    has_project_overhead: issue.project_count >= 1,
                    created_at: read_instant(&issue.created_at),
                },
            )
        },
        None => None,
    }
}

/// The records of the persistable issues among `issues`, each carrying the
/// repository's difficulty.
pub fn issue_records(issues: &Vec<IssueCandidate>, repo_id: &str, difficulty: Option<Difficulty>)
    -> (r: Vec<ScoredIssue>)
    ensures
        are_records_of(r@, issues@, repo_id@, difficulty),
{
    let mut out: Vec<ScoredIssue> = Vec::new();
    let mut i: usize = 0;
    while i < issues.len()
        invariant
            i <= issues.len(),
            are_records_of(out@, issues@.take(i as int), repo_id@, difficulty),
        decreases issues.len() - i,
    {
        proof {
            assert(issues@.take(i + 1).drop_last() =~= issues@.take(i as int));
        }
        match issue_record(&issues[i], repo_id, difficulty) {
            Some(record) => {
                out.push(record);
            },
            None => {},
        }
        i += 1;
    }
    proof {
        assert(issues@.take(i as int) =~= issues@);
    }
    out
}

/// Scores one snapshot for the category it was discovered under. A missing
/// snapshot and one with fewer than `MIN_STARS` stars are rejected: nothing
/// is to be persisted. Otherwise the result holds the repository record and
/// the records of its persistable issues.
pub fn score(snapshot: &Option<RepositorySnapshot>, category: &str) -> (r: Option<Scored>)
    ensures
        r is Some <==> accepted(*snapshot),
        r matches Some(out) ==> is_scoring_of(out, snapshot->0, category@),
        r matches Some(out) ==> (merge_totals(snapshot->0.pull_requests@).count == 0 ==> {
            &&& out.repository.health_score == HealthScore::Neutral
            &&& forall|k: int| 0 <= k < out.issues@.len() ==> out.issues@[k].difficulty is None
        }),
        r matches Some(out) ==> (merge_totals(snapshot->0.pull_requests@).count > 0 ==> {
            &&& out.repository.health_score is Derived
            &&& forall|k: int|
                0 <= k < out.issues@.len() ==> out.issues@[k].difficulty == Some(
                    out.repository.health_score->Derived_0,
                )
        }),
{
    match snapshot {
        None => None,
        Some(snap) => {
            if snap.stars < MIN_STARS {
                return None;
            }
            let responses = response_stats(&snap.issues);
            let merges = merge_stats(&snap.pull_requests);
            let difficulty = difficulty_from(&merges);
            let issues = issue_records(&snap.issues, snap.full_name.as_str(), difficulty);
            let repository = ScoredRepository {
                full_name: snap.full_name.clone(),
                name: snap.name.clone(),
                stars: snap.stars,
                forks: snap.forks,
                category: category.to_owned(),
                last_active: read_instant(&snap.pushed_at),
                health_score: health_from(difficulty),
                breakdown: HealthBreakdown {
                    commits_30d: snap.commits_30d,
                    responses,
                    merges,
                    solo_maintainer: snap.mentionable_users < SOLO_MAINTAINER_BELOW,
                    has_ownership_file: snap.ownership_file_size > 0,
                    source_extensions: extension_histogram(&snap.source_extensions),
                },
            };
            Some(Scored { repository, issues })
        },
    }
}

} // verus!
