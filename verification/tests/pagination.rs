use repo_stats::FetchStep;
use repo_stats::PageResponse;
use repo_stats::Record;
use repo_stats::decide;
use repo_stats::run_fetch;

fn rec(login: &str) -> Record {
    Record { login: Some(String::from(login)), user_login: None, url: None }
}

fn page(status: u16, logins: &[&str], has_next: bool) -> PageResponse {
    PageResponse {
        status,
        body: Some(logins.iter().map(|l| rec(l)).collect()),
        has_next,
    }
}

fn logins_of(records: &[Record]) -> Vec<String> {
    records.iter().filter_map(|r| r.login.clone()).collect()
}

#[test]
fn full_page_without_next_marker_terminates() {
    // A single full page of 100 records with no "next" marker yields
    // exactly those 100 records, even though the server might have more.
    let names: Vec<String> = (0..100).map(|i| format!("user{}", i)).collect();
    let refs: Vec<&str> = names.iter().map(|s| s.as_str()).collect();
    let out = run_fetch(vec![page(200, &refs, false)]);
    assert!(out.completed);
    assert_eq!(out.requests, 1);
    assert_eq!(out.sleeps, 0);
    assert_eq!(out.records.len(), 100);
    assert_eq!(logins_of(&out.records), names);
    assert_eq!(out.pages, vec![1]);
}

#[test]
fn empty_page_terminates() {
    let out = run_fetch(vec![page(200, &[], true), page(200, &["late"], true)]);
    assert!(out.completed);
    assert_eq!(out.requests, 1);
    assert_eq!(out.records.len(), 0);
}

#[test]
fn page_without_marker_stops_before_later_pages() {
    let out = run_fetch(vec![
        page(200, &["a", "b"], false),
        page(200, &["c"], true),
    ]);
    assert!(out.completed);
    assert_eq!(out.requests, 1);
    assert_eq!(logins_of(&out.records), vec!["a", "b"]);
}

#[test]
fn rate_limit_retries_same_page_three_requests_two_sleeps() {
    // Response sequence 403, 403, 200: three requests, two full backoff
    // sleeps, and the result equals the final 200 response's records.
    let out = run_fetch(vec![
        page(403, &[], false),
        page(403, &[], false),
        page(200, &["a", "b"], false),
    ]);
    assert!(out.completed);
    assert_eq!(out.requests, 3);
    assert_eq!(out.sleeps, 2);
    assert_eq!(logins_of(&out.records), vec!["a", "b"]);
    assert_eq!(out.pages, vec![1, 1, 1]);
}

#[test]
fn failure_keeps_pages_already_fetched() {
    let out = run_fetch(vec![
        page(200, &["a"], true),
        page(500, &[], false),
    ]);
    assert!(out.completed);
    assert_eq!(out.requests, 2);
    assert_eq!(out.sleeps, 0);
    assert_eq!(logins_of(&out.records), vec!["a"]);
    assert_eq!(out.pages, vec![1, 2]);
}

#[test]
fn undecodable_body_keeps_pages_already_fetched() {
    let bad = PageResponse { status: 200, body: None, has_next: true };
    let out = run_fetch(vec![page(200, &["a"], true), bad]);
    assert!(out.completed);
    assert_eq!(out.requests, 2);
    assert_eq!(logins_of(&out.records), vec!["a"]);
}

#[test]
fn continuation_advances_the_cursor() {
    let out = run_fetch(vec![
        page(200, &["a"], true),
        page(200, &["b"], true),
        page(200, &[], false),
    ]);
    assert!(out.completed);
    assert_eq!(out.pages, vec![1, 2, 3]);
    assert_eq!(logins_of(&out.records), vec!["a", "b"]);
}

#[test]
fn exhausted_responses_leave_session_incomplete() {
    let out = run_fetch(vec![page(403, &[], false)]);
    assert!(!out.completed);
    assert_eq!(out.requests, 1);
    assert_eq!(out.sleeps, 1);
    assert_eq!(out.records.len(), 0);
    assert_eq!(out.pages, vec![1]);
}

#[test]
fn decision_for_each_response_shape() {
    assert_eq!(decide(&page(403, &["x"], true)), FetchStep::Backoff);
    assert_eq!(decide(&page(500, &["x"], true)), FetchStep::Finish);
    assert_eq!(decide(&page(404, &[], false)), FetchStep::Finish);
    assert_eq!(decide(&page(200, &[], true)), FetchStep::Finish);
    assert_eq!(
        decide(&PageResponse { status: 200, body: None, has_next: true }),
        FetchStep::Finish
    );
    assert_eq!(decide(&page(200, &["x"], true)), FetchStep::AppendContinue);
    assert_eq!(decide(&page(200, &["x"], false)), FetchStep::AppendFinish);
    assert_eq!(decide(&page(299, &["x"], false)), FetchStep::AppendFinish);
    assert_eq!(decide(&page(300, &["x"], true)), FetchStep::Finish);
}
