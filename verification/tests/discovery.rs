use github_scraper::discover::{
    repository_identifier, split_identifier, Discoverer, PageOutcome, PAGE_SIZE,
    TARGET_PER_CATEGORY,
};
use github_scraper::text::{contains, find_from, occurs_here};

fn address(id: &str) -> String {
    format!("https://api.example.test/repos/{}", id)
}

fn page(ids: &[&str]) -> PageOutcome {
    PageOutcome::Items(ids.iter().map(|id| address(id)).collect())
}

#[test]
fn identifier_follows_the_marker() {
    assert_eq!(repository_identifier("https://api.example.test/repos/octo/widgets"), "octo/widgets");
    assert_eq!(repository_identifier("https://api.example.test/users/octo"), "");
    assert_eq!(repository_identifier(""), "");
    assert_eq!(repository_identifier("x/repos/"), "");
    assert_eq!(repository_identifier("x/repos/a/b/repos/c/d"), "a/b");
    assert_eq!(repository_identifier("/repos/é/ü"), "é/ü");
}

#[test]
fn identifier_splits_into_owner_and_name() {
    assert_eq!(split_identifier("octo/widgets"), Some(("octo".to_string(), "widgets".to_string())));
    assert_eq!(split_identifier("octo"), None);
    assert_eq!(split_identifier("a/b/c"), None);
    assert_eq!(split_identifier("/b"), Some(("".to_string(), "b".to_string())));
    assert_eq!(split_identifier(""), None);
}

#[test]
fn search_finds_the_first_occurrence() {
    assert_eq!(find_from("abcabc", "bc", 0), 1);
    assert_eq!(find_from("abcabc", "bc", 2), 4);
    assert_eq!(find_from("abcabc", "bc", 5), 6);
    assert_eq!(find_from("abcabc", "x", 0), 6);
    assert_eq!(find_from("abc", "bc", 9), 3);
    assert!(occurs_here("abc", "bc", 1));
    assert!(!occurs_here("abc", "bc", 2));
    assert!(contains("a good first issue", "good first issue"));
    assert!(!contains("good", "good first issue"));
}

#[test]
fn constants_of_the_search() {
    assert_eq!(PAGE_SIZE, 30);
    assert_eq!(TARGET_PER_CATEGORY, 20);
}

#[test]
fn a_repository_is_yielded_once() {
    let mut discovery = Discoverer::new(TARGET_PER_CATEGORY);
    assert_eq!(discovery.next_page(), Some(1));
    let first = discovery.accept(&page(&["a/one", "b/two", "a/one"]));
    assert_eq!(first, vec!["a/one".to_string(), "b/two".to_string()]);
    assert_eq!(discovery.next_page(), Some(2));
    let second = discovery.accept(&page(&["b/two", "c/three"]));
    assert_eq!(second, vec!["c/three".to_string()]);
    assert_eq!(discovery.seen, vec!["a/one".to_string(), "b/two".to_string(), "c/three".to_string()]);
    assert_eq!(discovery.next_page(), Some(3));
}

#[test]
fn items_without_identifier_are_skipped() {
    let mut discovery = Discoverer::new(5);
    let outcome = PageOutcome::Items(vec!["https://api.example.test/users/octo".to_string(), address("a/one")]);
    assert_eq!(discovery.accept(&outcome), vec!["a/one".to_string()]);
}

#[test]
fn discovery_stops_at_the_target() {
    let mut discovery = Discoverer::new(2);
    let got = discovery.accept(&page(&["a/one", "b/two", "c/three"]));
    assert_eq!(got, vec!["a/one".to_string(), "b/two".to_string()]);
    assert_eq!(discovery.next_page(), None);
    assert!(discovery.accept(&page(&["d/four"])).is_empty());
    assert_eq!(discovery.seen.len(), 2);
}

#[test]
fn an_empty_page_ends_the_discovery() {
    let mut discovery = Discoverer::new(5);
    discovery.accept(&page(&["a/one"]));
    assert!(discovery.accept(&PageOutcome::Items(Vec::new())).is_empty());
    assert!(discovery.finished);
    assert_eq!(discovery.next_page(), None);
    assert_eq!(discovery.page, 2);
}

#[test]
fn a_failed_page_ends_the_discovery() {
    let mut discovery = Discoverer::new(5);
    assert!(discovery.accept(&PageOutcome::Failed).is_empty());
    assert!(discovery.finished);
    assert_eq!(discovery.next_page(), None);
}

#[test]
fn a_target_of_zero_asks_for_nothing() {
    let discovery = Discoverer::new(0);
    assert_eq!(discovery.next_page(), None);
}

#[test]
fn two_categories_discover_the_same_repository() {
    let mut rust = Discoverer::new(TARGET_PER_CATEGORY);
    let mut go = Discoverer::new(TARGET_PER_CATEGORY);
    let from_rust = rust.accept(&page(&["octo/widgets"]));
    let from_go = go.accept(&page(&["octo/widgets"]));
    assert_eq!(from_rust, vec!["octo/widgets".to_string()]);
    assert_eq!(from_go, from_rust);
}
