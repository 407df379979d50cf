//! Bounded retention: which rows leave the store so that it keeps only the
//! newest issues and the most recently active repositories.

use vstd::prelude::*;

verus! {

/// The store keeps at most this many issues.
pub const MAX_ISSUES: usize = 2000;

/// The store keeps at most this many repositories.
pub const MAX_REPOSITORIES: usize = 200;

/// What retention reads of a stored issue.
#[derive(Debug, Clone, PartialEq, Eq)]
pub struct IssueRow {
    pub url: String,
    /// The full name of the repository that the issue belongs to.
    pub repo_id: String,
    /// Unix time of creation in microseconds.
    pub created_at: i64,
}

/// What retention reads of a stored repository.
#[derive(Debug, Clone, PartialEq, Eq)]
pub struct RepositoryRow {
    pub full_name: String,
    /// Unix time of the last activity in microseconds.
    pub last_active: i64,
}

/// The rows of a table, by their positions, parted into those that stay
/// and those that leave.
#[derive(Debug, Clone, PartialEq, Eq)]
pub struct Selection {
    pub kept: Vec<usize>,
    pub pruned: Vec<usize>,
}

/// `selection` keeps the `cap` newest of the rows with the given time
/// stamps, all of them where there are no more than `cap`: each row is
/// either kept or pruned, and no pruned row is newer than a kept one. The
/// kept rows stand in the order of the table, the pruned ones oldest first.
pub open spec fn keeps_newest(selection: Selection, stamps: Seq<i64>, cap: int) -> bool {
    let kept = selection.kept@;
    let pruned = selection.pruned@;
    &&& kept.no_duplicates()
    &&& pruned.no_duplicates()
    &&& forall|a: int| 0 <= a < kept.len() ==> (#[trigger] kept[a]) < stamps.len()
    &&& forall|a: int| 0 <= a < pruned.len() ==> (#[trigger] pruned[a]) < stamps.len()
    &&& forall|k: usize| k < stamps.len() ==> (kept.contains(k) != pruned.contains(k))
    &&& kept.len() + pruned.len() == stamps.len()
    &&& kept.len() == if stamps.len() <= cap {
        stamps.len() as int
    } else {
        cap
    }
    &&& forall|a: int, b: int|
        0 <= a < pruned.len() && 0 <= b < kept.len() ==> stamps[(#[trigger] pruned[a]) as int]
            <= stamps[(#[trigger] kept[b]) as int]
    &&& forall|a: int, b: int| 0 <= a < b < kept.len() ==> #[trigger] kept[a] < #[trigger] kept[b]
    &&& forall|a: int, b: int|
        0 <= a < b < pruned.len() ==> stamps[(#[trigger] pruned[a]) as int] <= stamps[(
        #[trigger] pruned[b]) as int]
}

/// The place in `live` of a row with the oldest time stamp among them.
pub fn oldest_position(live: &Vec<usize>, stamps: &Vec<i64>) -> (r: usize)
    requires
        live@.len() > 0,
        forall|a: int| 0 <= a < live@.len() ==> (#[trigger] live@[a]) < stamps@.len(),
    ensures
        r < live@.len(),
        forall|a: int|
            0 <= a < live@.len() ==> stamps@[live@[r as int] as int] <= stamps@[(
            #[trigger] live@[a]) as int],
{
    let mut best: usize = 0;
    let mut a: usize = 1;
    while a < live.len()
        invariant
            1 <= a <= live@.len(),
            best < a,
            forall|c: int| 0 <= c < live@.len() ==> (#[trigger] live@[c]) < stamps@.len(),
            forall|c: int|
                0 <= c < a ==> stamps@[live@[best as int] as int] <= stamps@[(
                #[trigger] live@[c]) as int],
        decreases live@.len() - a,
    {
        if stamps[live[a]] < stamps[live[best]] {
            best = a;
        }
        a += 1;
    }
    best
}

/// Keeps the `cap` newest rows, going by their time stamps, and prunes the
/// others, oldest first.
pub fn select_newest(stamps: &Vec<i64>, cap: usize) -> (r: Selection)
    ensures
        keeps_newest(r, stamps@, cap as int),
{
    let n: usize = stamps.len();
    let mut kept: Vec<usize> = Vec::new();
    let mut i: usize = 0;
    while i < n
        invariant
            i <= n,
            kept@.len() == i,
            forall|a: int| 0 <= a < i ==> kept@[a] == a,
        decreases n - i,
    {
        kept.push(i);
        i += 1;
    }
    let mut pruned: Vec<usize> = Vec::new();
    proof {
        assert forall|k: usize| k < n implies kept@.contains(k) by {
            assert(kept@[k as int] == k);
        }
    }
    while kept.len() > cap
        invariant
            n == stamps@.len(),
            kept@.no_duplicates(),
            pruned@.no_duplicates(),
            forall|a: int| 0 <= a < kept@.len() ==> (#[trigger] kept@[a]) < n,
            forall|a: int| 0 <= a < pruned@.len() ==> (#[trigger] pruned@[a]) < n,
            forall|k: usize| k < n ==> (kept@.contains(k) != pruned@.contains(k)),
            kept@.len() + pruned@.len() == n,
            n <= cap ==> kept@.len() == n,
            n > cap ==> kept@.len() >= cap,
            forall|a: int, b: int|
                0 <= a < pruned@.len() && 0 <= b < kept@.len() ==> stamps@[(
                #[trigger] pruned@[a]) as int] <= stamps@[(#[trigger] kept@[b]) as int],
            forall|a: int, b: int|
                0 <= a < b < kept@.len() ==> #[trigger] kept@[a] < #[trigger] kept@[b],
            forall|a: int, b: int|
                0 <= a < b < pruned@.len() ==> stamps@[(#[trigger] pruned@[a]) as int]
                    <= stamps@[(#[trigger] pruned@[b]) as int],
        decreases kept@.len(),
    {
        let ghost live = kept@;
        let ghost gone = pruned@;
        let p: usize = oldest_position(&kept, stamps);
        let x: usize = kept.remove(p);
        pruned.push(x);
        proof {
            assert(live[p as int] == x);
            assert(live.contains(x));
            assert(!gone.contains(x));
            assert forall|a: int| 0 <= a < kept@.len() implies #[trigger] kept@[a] == live[if a
                < p {
                a
            } else {
                a + 1
            }] by {}
            assert forall|a: int| 0 <= a < kept@.len() implies (#[trigger] kept@[a]) < n
                && kept@[a] != x by {
                let src = if a < p {
                    a
                } else {
                    a + 1
                };
                assert(kept@[a] == live[src]);
            }
            assert forall|a: int, b: int|
                0 <= a < kept@.len() && 0 <= b < kept@.len() && a != b implies kept@[a]
                != kept@[b] by {
                let sa = if a < p {
                    a
                } else {
                    a + 1
                };
                let sb = if b < p {
                    b
                } else {
                    b + 1
                };
                assert(kept@[a] == live[sa] && kept@[b] == live[sb]);
            }
            assert forall|a: int, b: int|
                0 <= a < pruned@.len() && 0 <= b < pruned@.len() && a != b implies pruned@[a]
                != pruned@[b] by {
                if a < gone.len() {
                    assert(gone.contains(pruned@[a]));
                }
                if b < gone.len() {
                    assert(gone.contains(pruned@[b]));
                }
            }
            assert forall|k: usize| k < n implies (kept@.contains(k) != pruned@.contains(k)) by {
                if k == x {
                    assert(pruned@[gone.len() as int] == x);
                    assert(pruned@.contains(k));
                    assert(!kept@.contains(k));
                } else {
                    if live.contains(k) {
                        let at = choose|at: int| 0 <= at < live.len() && live[at] == k;
                        let to = if at < p {
                            at
                        } else {
                            at - 1
                        };
                        assert(kept@[to] == k);
                        assert(kept@.contains(k));
                        if pruned@.contains(k) {
                            let q = choose|q: int| 0 <= q < pruned@.len() && pruned@[q] == k;
                            assert(gone[q] == k);
                            assert(gone.contains(k));
                        }
                    } else {
                        assert(gone.contains(k));
                        let q = choose|q: int| 0 <= q < gone.len() && gone[q] == k;
                        assert(pruned@[q] == k);
                        assert(pruned@.contains(k));
                        if kept@.contains(k) {
                            let at = choose|at: int| 0 <= at < kept@.len() && kept@[at] == k;
                            let src = if at < p {
                                at
                            } else {
                                at + 1
                            };
                            assert(live[src] == k);
                        }
                    }
                }
            }
            assert forall|a: int, b: int| 0 <= a < b < kept@.len() implies #[trigger] kept@[a]
                < #[trigger] kept@[b] by {
                let sa = if a < p {
                    a
                } else {
                    a + 1
                };
                let sb = if b < p {
                    b
                } else {
                    b + 1
                };
                assert(kept@[a] == live[sa] && kept@[b] == live[sb]);
            }
            assert forall|a: int, b: int| 0 <= a < b < pruned@.len() implies stamps@[(
            #[trigger] pruned@[a]) as int] <= stamps@[(#[trigger] pruned@[b]) as int] by {
                assert(pruned@[a] == gone[a]);
                if b < gone.len() {
                    assert(pruned@[b] == gone[b]);
                } else {
                    assert(pruned@[b] == live[p as int]);
                }
            }
            assert forall|a: int, b: int|
                0 <= a < pruned@.len() && 0 <= b < kept@.len() implies stamps@[(
            #[trigger] pruned@[a]) as int] <= stamps@[(#[trigger] kept@[b]) as int] by {
                let sb = if b < p {
                    b
                } else {
                    b + 1
                };
                assert(kept@[b] == live[sb]);
                if a < gone.len() {
                    assert(pruned@[a] == gone[a]);
                } else {
                    assert(pruned@[a] == live[p as int]);
                }
            }
        }
    }
    Selection { kept, pruned }
}

/// What one retention pass decides.
#[derive(Debug, Clone, PartialEq, Eq)]
pub struct RetentionPlan {
    /// The issues by position: kept are the newest `MAX_ISSUES`, pruned the
    /// others, which leave first.
    pub issues: Selection,
    /// The repositories by position: kept are the `MAX_REPOSITORIES` most
    /// recently active, pruned the others, which leave with their issues.
    pub repositories: Selection,
    /// The positions of the issues that are left after the pass.
    pub remaining_issues: Vec<usize>,
}

/// The issue belongs to one of the repositories that leave.
pub open spec fn owner_evicted(
    issue: IssueRow,
    repositories: Seq<RepositoryRow>,
    evicted: Seq<usize>,
) -> bool {
    exists|e: int|
        0 <= e < evicted.len() && repositories[(#[trigger] evicted[e]) as int].full_name@
            == issue.repo_id@
}

/// The creation times of the issues, row by row.
pub open spec fn issue_stamps(issues: Seq<IssueRow>) -> Seq<i64> {
    issues.map_values(|row: IssueRow| row.created_at)
}

/// The activity times of the repositories, row by row.
pub open spec fn repository_stamps(repositories: Seq<RepositoryRow>) -> Seq<i64> {
    repositories.map_values(|row: RepositoryRow| row.last_active)
}

/// `plan` is a retention pass over the two tables: the newest issues and
/// the most recently active repositories are kept, and of the kept issues
/// those remain whose repository does not leave.
pub open spec fn is_retention_of(
    plan: RetentionPlan,
    issues: Seq<IssueRow>,
    repositories: Seq<RepositoryRow>,
) -> bool {
    &&& keeps_newest(plan.issues, issue_stamps(issues), MAX_ISSUES as int)
    &&& keeps_newest(plan.repositories, repository_stamps(repositories), MAX_REPOSITORIES as int)
    &&& plan.remaining_issues@.no_duplicates()
    &&& plan.remaining_issues@.len() <= plan.issues.kept@.len()
    &&& forall|i: usize|
        plan.remaining_issues@.contains(i) <==> plan.issues.kept@.contains(i) && !owner_evicted(
            issues[i as int],
            repositories,
            plan.repositories.pruned@,
        )
}

/// Whether the issue belongs to one of the repositories at the positions
/// `evicted`.
pub fn belongs_to_evicted(
    issue: &IssueRow,
    repositories: &Vec<RepositoryRow>,
    evicted: &Vec<usize>,
) -> (r: bool)
    requires
        forall|e: int| 0 <= e < evicted@.len() ==> (#[trigger] evicted@[e]) < repositories@.len(),
    ensures
        r == owner_evicted(*issue, repositories@, evicted@),
{
    let mut e: usize = 0;
    while e < evicted.len()
        invariant
            e <= evicted@.len(),
            forall|c: int|
                0 <= c < evicted@.len() ==> (#[trigger] evicted@[c]) < repositories@.len(),
            forall|c: int|
                0 <= c < e ==> repositories@[(#[trigger] evicted@[c]) as int].full_name@
                    != issue.repo_id@,
        decreases evicted@.len() - e,
    {
        if repositories[evicted[e]].full_name == issue.repo_id {
            return true;
        }
        e += 1;
    }
    false
}

/// The creation time of each issue.
pub fn created_stamps(issues: &Vec<IssueRow>) -> (r: Vec<i64>)
    ensures
        r@ == issue_stamps(issues@),
{
    let mut out: Vec<i64> = Vec::new();
    let mut i: usize = 0;
    while i < issues.len()
        invariant
            i <= issues@.len(),
            out@.len() == i,
            forall|a: int| 0 <= a < i ==> out@[a] == issues@[a].created_at,
        decreases issues@.len() - i,
    {
        out.push(issues[i].created_at);
        i += 1;
    }
    proof {
        assert(out@ =~= issue_stamps(issues@));
    }
    out
}

/// The activity time of each repository.
pub fn activity_stamps(repositories: &Vec<RepositoryRow>) -> (r: Vec<i64>)
    ensures
        r@ == repository_stamps(repositories@),
{
    let mut out: Vec<i64> = Vec::new();
    let mut i: usize = 0;
    while i < repositories.len()
        invariant
            i <= repositories@.len(),
            out@.len() == i,
            forall|a: int| 0 <= a < i ==> out@[a] == repositories@[a].last_active,
        decreases repositories@.len() - i,
    {
        out.push(repositories[i].last_active);
        i += 1;
    }
    proof {
        assert(out@ =~= repository_stamps(repositories@));
    }
    out
}

/// One retention pass over the rows of the store. Afterwards at most
/// `MAX_ISSUES` issues and `MAX_REPOSITORIES` repositories are left, and an
/// issue that is left and belonged to a stored repository belongs to one
/// that is left.
pub fn enforce(issues: &Vec<IssueRow>, repositories: &Vec<RepositoryRow>) -> (r: RetentionPlan)
    ensures
        is_retention_of(r, issues@, repositories@),
        r.remaining_issues@.len() <= MAX_ISSUES,
        r.repositories.kept@.len() <= MAX_REPOSITORIES,
        forall|i: usize, owner: usize|
            r.remaining_issues@.contains(i) && owner < repositories@.len()
                && repositories@[owner as int].full_name@ == issues@[i as int].repo_id@
                ==> r.repositories.kept@.contains(owner),
{
    let issue_selection = select_newest(&created_stamps(issues), MAX_ISSUES);
    let repository_selection = select_newest(&activity_stamps(repositories), MAX_REPOSITORIES);
    let mut remaining: Vec<usize> = Vec::new();
    let mut q: usize = 0;
    while q < issue_selection.kept.len()
        invariant
            q <= issue_selection.kept@.len(),
            keeps_newest(issue_selection, issue_stamps(issues@), MAX_ISSUES as int),
            keeps_newest(
                repository_selection,
                repository_stamps(repositories@),
                MAX_REPOSITORIES as int,
            ),
            remaining@.len() <= q,
            remaining@.no_duplicates(),
            forall|i: usize|
                remaining@.contains(i) <==> (exists|a: int|
                    0 <= a < q && issue_selection.kept@[a] == i) && !owner_evicted(
                    issues@[i as int],
                    repositories@,
                    repository_selection.pruned@,
                ),
        decreases issue_selection.kept@.len() - q,
    {
        let ghost before = remaining@;
        let i: usize = issue_selection.kept[q];
        if !belongs_to_evicted(&issues[i], repositories, &repository_selection.pruned) {
            proof {
                if before.contains(i) {
                    let a = choose|a: int| 0 <= a < q && issue_selection.kept@[a] == i;
                    assert(issue_selection.kept@[a] == issue_selection.kept@[q as int]);
                }
            }
            remaining.push(i);
            proof {
                assert(remaining@[before.len() as int] == i);
                assert forall|j: usize| remaining@.contains(j) <==> before.contains(j) || j
                    == i by {
                    if before.contains(j) {
                        let w = choose|w: int| 0 <= w < before.len() && before[w] == j;
                        assert(remaining@[w] == j);
                    }
                    if remaining@.contains(j) {
                        let w = choose|w: int| 0 <= w < remaining@.len() && remaining@[w] == j;
                        if w < before.len() {
                            assert(before[w] == j);
                        }
                    }
                }
                assert forall|a: int, b: int|
                    0 <= a < remaining@.len() && 0 <= b < remaining@.len() && a
                        != b implies remaining@[a] != remaining@[b] by {
                    if a < before.len() {
                        assert(before.contains(remaining@[a]));
                    }
                    if b < before.len() {
                        assert(before.contains(remaining@[b]));
                    }
                }
            }
        }
        proof {
            assert forall|j: usize|
                remaining@.contains(j) <==> (exists|a: int|
                    0 <= a < q + 1 && issue_selection.kept@[a] == j) && !owner_evicted(
                    issues@[j as int],
                    repositories@,
                    repository_selection.pruned@,
                ) by {
                let kept = issue_selection.kept@;
                let before_q = exists|a: int| 0 <= a < q && kept[a] == j;
                let upto_q = exists|a: int| 0 <= a < q + 1 && kept[a] == j;
                if before_q {
                    let a = choose|a: int| 0 <= a < q && kept[a] == j;
                    assert(0 <= a < q + 1 && kept[a] == j);
                }
                if j == i {
                    assert(0 <= q < q + 1 && kept[q as int] == j);
                    assert(upto_q);
                } else if upto_q {
                    let a = choose|a: int| 0 <= a < q + 1 && kept[a] == j;
                    assert(0 <= a < q && kept[a] == j);
                }
                assert(j != i ==> (before_q <==> upto_q));
                assert(j != i ==> (remaining@.contains(j) <==> before.contains(j)));
            }
        }
        q += 1;
    }
    let plan = RetentionPlan {
        issues: issue_selection,
        repositories: repository_selection,
        remaining_issues: remaining,
    };
    proof {
        assert forall|i: usize, owner: usize|
            plan.remaining_issues@.contains(i) && owner < repositories@.len()
                && repositories@[owner as int].full_name@
                == issues@[i as int].repo_id@ implies plan.repositories.kept@.contains(owner) by {
            if plan.repositories.pruned@.contains(owner) {
                let e = choose|e: int|
                    0 <= e < plan.repositories.pruned@.len() && plan.repositories.pruned@[e]
                        == owner;
                assert(owner_evicted(issues@[i as int], repositories@, plan.repositories.pruned@));
            }
        }
    }
    plan
}

} // verus!
