use github_scraper::histogram::extension_histogram;
use github_scraper::score::{score, Difficulty, HealthScore, Scored};
use github_scraper::snapshot::{IssueCandidate, PullRequestFact, RepositorySnapshot};
use github_scraper::stats::{any_gfi_label, merge_stats, response_stats, MergeStats, ResponseStats};

fn text(s: &str) -> Option<String> {
    Some(s.to_string())
}

fn issue(url: &str, created: &str, first_comment: Option<&str>) -> IssueCandidate {
    IssueCandidate {
        title: text("An issue"),
        url: text(url),
        created_at: text(created),
        assignee_count: 0,
        labels: vec!["good first issue".to_string(), "bug".to_string()],
        project_count: 0,
        first_comment_at: first_comment.map(|c| c.to_string()),
    }
}

fn pull_request(created: &str, merged: &str, additions: u32, deletions: u32, files: u32, comments: u32) -> PullRequestFact {
    PullRequestFact {
        created_at: text(created),
        merged_at: text(merged),
        additions,
        deletions,
        changed_files: files,
        comment_count: comments,
        labels: Vec::new(),
    }
}

fn snapshot(stars: i64) -> RepositorySnapshot {
    RepositorySnapshot {
        full_name: "octo/widgets".to_string(),
        name: "widgets".to_string(),
        stars,
        forks: 7,
        pushed_at: text("2024-03-01T12:00:00Z"),
        commits_30d: 42,
        mentionable_users: 2,
        ownership_file_size: 120,
        source_extensions: Vec::new(),
        issues: Vec::new(),
        pull_requests: Vec::new(),
    }
}

fn difficulty_value(d: &Difficulty) -> f64 {
    let n = d.pr_count as f64;
    let lines = (d.total_lines as f64 / n + 1.0).ln();
    let files = (d.total_files as f64 / n + 1.0).ln();
    let comments = (d.total_comments as f64 / n + 1.0).ln();
    let days = (d.total_merge_hours as f64 / n / 24.0 + 1.0).ln();
    (lines * 0.4 + files * 0.3 + comments * 0.2 + days * 0.1) * 10.0
}

fn health_value(h: &HealthScore) -> f64 {
    match h {
        HealthScore::Neutral => 50.0,
        HealthScore::Derived(d) => 100.0 - difficulty_value(d),
    }
}

fn accepted(snap: RepositorySnapshot) -> Scored {
    score(&Some(snap), "Rust").expect("the snapshot is accepted")
}

#[test]
fn five_stars_are_rejected() {
    assert!(score(&Some(snapshot(5)), "Rust").is_none());
}

#[test]
fn nine_stars_are_rejected_and_ten_accepted() {
    assert!(score(&Some(snapshot(9)), "Rust").is_none());
    assert!(score(&Some(snapshot(10)), "Rust").is_some());
    assert!(score(&Some(snapshot(-3)), "Rust").is_none());
}

#[test]
fn missing_snapshot_is_rejected() {
    assert!(score(&None, "Rust").is_none());
}

#[test]
fn rejected_snapshot_yields_no_issue_records() {
    let mut snap = snapshot(5);
    snap.issues.push(issue("https://example.test/i/1", "2024-01-01T00:00:00Z", None));
    assert!(score(&Some(snap), "Rust").is_none());
}

#[test]
fn no_qualifying_pull_request_gives_neutral_health() {
    let mut snap = snapshot(50);
    snap.issues.push(issue("https://example.test/i/1", "2024-01-01T00:00:00Z", None));
    snap.pull_requests.push(PullRequestFact {
        created_at: text("2024-01-01T00:00:00Z"),
        merged_at: None,
        additions: 3,
        deletions: 4,
        changed_files: 1,
        comment_count: 1,
        labels: Vec::new(),
    });
    snap.pull_requests.push(pull_request("yesterday", "2024-01-01T00:00:00Z", 1, 1, 1, 1));
    let out = accepted(snap);
    assert_eq!(out.repository.health_score, HealthScore::Neutral);
    assert_eq!(health_value(&out.repository.health_score), 50.0);
    assert_eq!(out.repository.breakdown.merges.count, 0);
    assert_eq!(out.issues.len(), 1);
    assert_eq!(out.issues[0].difficulty, None);
}

#[test]
fn one_small_pull_request_is_scored() {
    let mut snap = snapshot(50);
    snap.issues.push(issue("https://example.test/i/1", "2024-01-01T00:00:00Z", None));
    snap.pull_requests.push(pull_request("2024-02-01T08:00:00Z", "2024-02-01T08:00:00Z", 10, 0, 1, 0));
    let out = accepted(snap);
    let expected = Difficulty {
        pr_count: 1,
        total_lines: 10,
        total_files: 1,
        total_comments: 0,
        total_merge_hours: 0,
    };
    assert_eq!(out.repository.health_score, HealthScore::Derived(expected));
    assert_eq!(out.issues[0].difficulty, Some(expected));
    let difficulty = difficulty_value(&expected);
    assert!((difficulty - 11.67).abs() < 0.01, "difficulty {}", difficulty);
    let health = health_value(&out.repository.health_score);
    assert!((health - 88.33).abs() < 0.01, "health {}", health);
    assert_eq!(out.repository.breakdown.merges.quick_wins, 1);
}

#[test]
fn health_is_not_limited_from_below() {
    let huge = Difficulty {
        pr_count: 1,
        total_lines: u128::MAX,
        total_files: u128::MAX,
        total_comments: u128::MAX,
        total_merge_hours: i128::MAX,
    };
    assert!(health_value(&HealthScore::Derived(huge)) < 0.0);
}

#[test]
fn first_comment_after_ten_hours() {
    let issues = vec![issue("https://example.test/i/1", "2024-01-01T00:00:00Z", Some("2024-01-01T10:00:00Z"))];
    let stats = response_stats(&issues);
    assert_eq!(stats, ResponseStats { count: 1, total_hours: 10, under_24h: 1 });
    let average = stats.total_hours as f64 / stats.count as f64;
    let rate = stats.under_24h as f64 / stats.count as f64 * 100.0;
    assert_eq!(average, 10.0);
    assert_eq!(rate, 100.0);
}

#[test]
fn no_first_comment_measures_nothing() {
    let issues = vec![
        issue("https://example.test/i/1", "2024-01-01T00:00:00Z", None),
        issue("https://example.test/i/2", "2024-01-02T00:00:00Z", None),
    ];
    assert_eq!(response_stats(&issues), ResponseStats { count: 0, total_hours: 0, under_24h: 0 });
    assert_eq!(response_stats(&Vec::new()), ResponseStats { count: 0, total_hours: 0, under_24h: 0 });
}

#[test]
fn response_totals_over_several_issues() {
    let mut assigned = issue("https://example.test/i/3", "2024-01-01T00:00:00Z", Some("2024-01-01T01:00:00Z"));
    assigned.assignee_count = 1;
    let issues = vec![
        issue("https://example.test/i/1", "2024-01-01T00:00:00Z", Some("2024-01-01T23:59:59Z")),
        issue("https://example.test/i/2", "2024-01-01T00:00:00Z", Some("2024-01-02T00:00:00Z")),
        assigned,
        issue("https://example.test/i/4", "not a time", Some("2024-01-02T00:00:00Z")),
        issue("https://example.test/i/5", "2024-01-03T00:00:00+02:00", Some("2024-01-02T20:00:00Z")),
    ];
    let stats = response_stats(&issues);
    assert_eq!(stats, ResponseStats { count: 3, total_hours: 23 + 24 - 2, under_24h: 2 });
    assert!(stats.under_24h <= stats.count);
}

#[test]
fn merge_totals_over_several_pull_requests() {
    let mut labelled = pull_request("2024-01-01T00:00:00Z", "2024-01-03T00:00:00Z", 100, 20, 4, 6);
    labelled.labels = vec!["docs".to_string(), "Good First Issue".to_string()];
    let prs = vec![
        pull_request("2024-01-01T00:00:00Z", "2024-01-02T23:30:00Z", 10, 5, 2, 3),
        labelled,
        pull_request("2024-01-01T00:00:00Z", "soon", 1000, 1000, 1000, 1000),
    ];
    let stats = merge_stats(&prs);
    assert_eq!(
        stats,
        MergeStats {
            count: 2,
            total_hours: 47 + 48,
            total_lines: 135,
            total_files: 6,
            total_comments: 9,
            quick_wins: 1,
            gfi_conversions: 1,
        }
    );
}

#[test]
fn good_first_issue_labels_are_found_in_any_case() {
    assert!(any_gfi_label(&vec!["GOOD FIRST ISSUE".to_string()]));
    assert!(any_gfi_label(&vec!["bug".to_string(), "a Good First Issue!".to_string()]));
    assert!(!any_gfi_label(&vec!["good-first-issue".to_string(), "good first".to_string()]));
    assert!(!any_gfi_label(&Vec::new()));
}

#[test]
fn issue_records_carry_the_repository_fields() {
    let mut snap = snapshot(50);
    let mut with_board = issue("https://example.test/i/1", "1970-01-01T00:00:01Z", None);
    with_board.project_count = 1;
    with_board.title = None;
    let mut assigned = issue("https://example.test/i/2", "2024-01-01T00:00:00Z", None);
    assigned.assignee_count = 2;
    let mut no_url = issue("", "2024-01-01T00:00:00Z", None);
    no_url.title = text("No address");
    let mut absent_url = issue("x", "2024-01-01T00:00:00Z", None);
    absent_url.url = None;
    let mut unreadable = issue("https://example.test/i/5", "last week", None);
    unreadable.labels = Vec::new();
    snap.issues = vec![with_board, assigned, no_url, absent_url, unreadable];
    let out = accepted(snap);
    assert_eq!(out.issues.len(), 2);
    let first = &out.issues[0];
    assert_eq!(first.url, "https://example.test/i/1");
    assert_eq!(first.repo_id, "octo/widgets");
    assert_eq!(first.title, "Untitled");
    assert_eq!(first.tags, vec!["good first issue".to_string(), "bug".to_string()]);
    assert!(first.has_project_overhead);
    assert_eq!(first.created_at, Some(1_000_000));
    let second = &out.issues[1];
    assert_eq!(second.url, "https://example.test/i/5");
    assert_eq!(second.title, "An issue");
    assert!(second.tags.is_empty());
    assert!(!second.has_project_overhead);
    assert_eq!(second.created_at, None);
}

#[test]
fn repository_record_carries_the_snapshot_fields() {
    let mut snap = snapshot(50);
    snap.source_extensions = vec![".rs".to_string(), "".to_string(), ".rs".to_string(), ".toml".to_string()];
    let out = accepted(snap);
    let repo = &out.repository;
    assert_eq!(repo.full_name, "octo/widgets");
    assert_eq!(repo.name, "widgets");
    assert_eq!(repo.stars, 50);
    assert_eq!(repo.forks, 7);
    assert_eq!(repo.category, "Rust");
    assert_eq!(repo.last_active, Some(1_709_294_400_000_000));
    assert_eq!(repo.breakdown.commits_30d, 42);
    assert!(repo.breakdown.solo_maintainer);
    assert!(repo.breakdown.has_ownership_file);
    assert_eq!(repo.breakdown.source_extensions.len(), 2);
    assert_eq!(repo.breakdown.source_extensions[0].extension, ".rs");
    assert_eq!(repo.breakdown.source_extensions[0].count, 2);
    assert_eq!(repo.breakdown.source_extensions[1].extension, ".toml");
    assert_eq!(repo.breakdown.source_extensions[1].count, 1);
}

#[test]
fn maintainer_flags_at_their_limits() {
    let mut snap = snapshot(50);
    snap.mentionable_users = 3;
    snap.ownership_file_size = 0;
    snap.pushed_at = None;
    let out = accepted(snap);
    assert!(!out.repository.breakdown.solo_maintainer);
    assert!(!out.repository.breakdown.has_ownership_file);
    assert_eq!(out.repository.last_active, None);
}

#[test]
fn scoring_twice_gives_the_same_records() {
    let mut snap = snapshot(50);
    snap.issues.push(issue("https://example.test/i/1", "2024-01-01T00:00:00Z", Some("2024-01-01T10:00:00Z")));
    snap.pull_requests.push(pull_request("2024-02-01T08:00:00Z", "2024-02-03T09:00:00Z", 10, 2, 1, 4));
    snap.source_extensions = vec![".rs".to_string(), ".md".to_string()];
    let input = Some(snap);
    assert_eq!(score(&input, "Rust"), score(&input, "Rust"));
}

#[test]
fn histogram_ignores_entries_without_extension() {
    let entries = vec!["".to_string(), "".to_string()];
    assert!(extension_histogram(&entries).is_empty());
    assert!(extension_histogram(&Vec::new()).is_empty());
}
