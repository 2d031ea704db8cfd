use repo_stats::EndpointKind;
use repo_stats::Record;
use repo_stats::contains_substr;
use repo_stats::endpoint_url;
use repo_stats::fork_contributor_urls;
use repo_stats::link_signals_next;
use repo_stats::query_for;

#[test]
fn endpoint_urls_follow_the_repo_spec() {
    assert_eq!(
        endpoint_url("owner/name", EndpointKind::Stargazers),
        "https://api.github.com/repos/owner/name/stargazers"
    );
    assert_eq!(
        endpoint_url("owner/name", EndpointKind::Contributors),
        "https://api.github.com/repos/owner/name/contributors"
    );
    assert_eq!(
        endpoint_url("owner/name", EndpointKind::Forks),
        "https://api.github.com/repos/owner/name/forks"
    );
    assert_eq!(
        endpoint_url("owner/name", EndpointKind::Subscribers),
        "https://api.github.com/repos/owner/name/subscribers"
    );
    assert_eq!(
        endpoint_url("owner/name", EndpointKind::Issues),
        "https://api.github.com/repos/owner/name/issues"
    );
}

#[test]
fn query_fixes_page_size_at_100_and_filters_issues() {
    let q = query_for(EndpointKind::Stargazers, 7);
    assert_eq!(q.page, 7);
    assert_eq!(q.per_page, 100);
    assert!(!q.state_all);
    let q = query_for(EndpointKind::Issues, 1);
    assert!(q.state_all);
    assert_eq!(q.per_page, 100);
}

#[test]
fn fork_urls_derive_from_the_fork_record() {
    let forks = vec![
        Record {
            login: None,
            user_login: None,
            url: Some(String::from("https://api.github.com/repos/x/f1")),
        },
        Record { login: None, user_login: None, url: None },
        Record {
            login: None,
            user_login: None,
            url: Some(String::from("https://api.github.com/repos/y/f2")),
        },
    ];
    let urls = fork_contributor_urls(&forks);
    assert_eq!(
        urls,
        vec![
            String::from("https://api.github.com/repos/x/f1/contributors"),
            String::from("https://api.github.com/repos/y/f2/contributors"),
        ]
    );
}

#[test]
fn link_header_next_marker_detection() {
    let header = "<https://api.github.com/repos/o/r/stargazers?page=2>; rel=\"next\", \
                  <https://api.github.com/repos/o/r/stargazers?page=9>; rel=\"last\"";
    assert!(link_signals_next(Some(header)));
    assert!(!link_signals_next(Some("<https://x>; rel=\"prev\"")));
    assert!(!link_signals_next(Some("")));
    assert!(!link_signals_next(None));
}

#[test]
fn substring_search_finds_only_real_occurrences() {
    assert!(contains_substr("abcdef", "cde"));
    assert!(contains_substr("abcdef", ""));
    assert!(contains_substr("abcdef", "abcdef"));
    assert!(!contains_substr("abcdef", "abcdefg"));
    assert!(!contains_substr("abcdef", "ce"));
    assert!(!contains_substr("", "a"));
    assert!(contains_substr("aab", "ab"));
}
