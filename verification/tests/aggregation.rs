use repo_stats::IdentitySet;
use repo_stats::PageResponse;
use repo_stats::Record;
use repo_stats::RepoPages;
use repo_stats::RepoStats;
use repo_stats::collect_stats;
use repo_stats::extend_with_logins;
use repo_stats::extend_with_issue_authors;
use repo_stats::merge_results;
use repo_stats::run_fetch;

fn rec(login: &str) -> Record {
    Record { login: Some(String::from(login)), user_login: None, url: None }
}

fn issue(author: &str) -> Record {
    Record { login: None, user_login: Some(String::from(author)), url: None }
}

fn recs(logins: &[&str]) -> Vec<Record> {
    logins.iter().map(|l| rec(l)).collect()
}

fn has(set: &IdentitySet, login: &str) -> bool {
    set.contains(&String::from(login))
}

#[test]
fn dedup_across_endpoints() {
    // stargazers {a,b}, contributors {b,c}, subscribers {}, issue authors
    // {a}  =>  totalUsers {a,b,c}, contributorLogins {b,c}.
    let pages = RepoPages {
        stargazers: recs(&["a", "b"]),
        contributors: recs(&["b", "c"]),
        fork_contributors: vec![],
        subscribers: recs(&[]),
        issues: vec![issue("a")],
    };
    let stats = collect_stats(&pages);
    assert_eq!(stats.total_users.len(), 3);
    assert!(has(&stats.total_users, "a"));
    assert!(has(&stats.total_users, "b"));
    assert!(has(&stats.total_users, "c"));
    assert_eq!(stats.contributor_logins.len(), 2);
    assert!(has(&stats.contributor_logins, "b"));
    assert!(has(&stats.contributor_logins, "c"));
    assert!(!has(&stats.contributor_logins, "a"));
}

#[test]
fn fork_contributors_merge_into_contributor_set() {
    // direct contributors {p}, fork A {x}, fork B {y}
    //   =>  contributorLogins {p,x,y}.
    let pages = RepoPages {
        stargazers: recs(&[]),
        contributors: recs(&["p"]),
        fork_contributors: vec![recs(&["x"]), recs(&["y"])],
        subscribers: recs(&[]),
        issues: vec![],
    };
    let stats = collect_stats(&pages);
    assert_eq!(stats.contributor_logins.len(), 3);
    assert!(has(&stats.contributor_logins, "p"));
    assert!(has(&stats.contributor_logins, "x"));
    assert!(has(&stats.contributor_logins, "y"));
    assert_eq!(stats.total_users.len(), 3);
}

#[test]
fn record_without_login_is_skipped_not_an_error() {
    // One record without a login and one with login "z" yield exactly {z}.
    let page = vec![
        Record { login: None, user_login: None, url: Some(String::from("u")) },
        rec("z"),
    ];
    let mut acc = IdentitySet::new();
    extend_with_logins(&mut acc, &page);
    assert_eq!(acc.len(), 1);
    assert!(has(&acc, "z"));
}

#[test]
fn issue_author_read_from_nested_field_only() {
    let page = vec![issue("n"), rec("m")];
    let mut acc = IdentitySet::new();
    extend_with_issue_authors(&mut acc, &page);
    assert_eq!(acc.len(), 1);
    assert!(has(&acc, "n"));
    assert!(!has(&acc, "m"));
}

#[test]
fn subscriber_failure_mid_pagination_keeps_other_endpoints() {
    // The subscribers endpoint fails with a 500 on its second page; the
    // totals still include everything gathered elsewhere, plus the
    // subscribers page fetched before the failure.
    let subscribers = run_fetch(vec![
        PageResponse { status: 200, body: Some(recs(&["s1"])), has_next: true },
        PageResponse { status: 500, body: None, has_next: false },
    ]);
    assert!(subscribers.completed);
    let pages = RepoPages {
        stargazers: recs(&["a"]),
        contributors: recs(&["b"]),
        fork_contributors: vec![recs(&["f"])],
        subscribers: subscribers.records,
        issues: vec![issue("i")],
    };
    let stats = collect_stats(&pages);
    assert_eq!(stats.total_users.len(), 5);
    for login in ["a", "b", "f", "s1", "i"] {
        assert!(has(&stats.total_users, login));
    }
}

#[test]
fn global_merge_unions_all_repositories() {
    let first = collect_stats(&RepoPages {
        stargazers: recs(&["a", "b"]),
        contributors: recs(&["c"]),
        fork_contributors: vec![],
        subscribers: recs(&[]),
        issues: vec![],
    });
    let second = collect_stats(&RepoPages {
        stargazers: recs(&["b", "d"]),
        contributors: recs(&["c", "e"]),
        fork_contributors: vec![],
        subscribers: recs(&[]),
        issues: vec![],
    });
    let (users, contributors) = merge_results(&vec![first, second]);
    assert_eq!(users.len(), 5);
    assert_eq!(contributors.len(), 2);
    assert!(has(&contributors, "c"));
    assert!(has(&contributors, "e"));
}

fn stats_pair() -> (RepoStats, RepoStats) {
    let one = collect_stats(&RepoPages {
        stargazers: recs(&["a"]),
        contributors: recs(&["b"]),
        fork_contributors: vec![],
        subscribers: recs(&[]),
        issues: vec![],
    });
    let two = collect_stats(&RepoPages {
        stargazers: recs(&["c"]),
        contributors: recs(&["b", "d"]),
        fork_contributors: vec![],
        subscribers: recs(&[]),
        issues: vec![],
    });
    (one, two)
}

#[test]
fn merge_is_independent_of_completion_order() {
    // The same per-repository results, merged in either arrival order,
    // give identical global sets.
    let (one, two) = stats_pair();
    let (users_ab, contribs_ab) = merge_results(&vec![one, two]);
    let (one, two) = stats_pair();
    let (users_ba, contribs_ba) = merge_results(&vec![two, one]);
    assert_eq!(users_ab.len(), users_ba.len());
    assert_eq!(contribs_ab.len(), contribs_ba.len());
    for login in ["a", "b", "c", "d"] {
        assert_eq!(has(&users_ab, login), has(&users_ba, login));
        assert_eq!(has(&contribs_ab, login), has(&contribs_ba, login));
    }
}

#[test]
fn fork_merge_is_independent_of_completion_order() {
    // The same fork contributor lists, arriving in either order, give the
    // same contributor set.
    let make = |order: [&[&str]; 2]| {
        collect_stats(&RepoPages {
            stargazers: recs(&[]),
            contributors: recs(&["p"]),
            fork_contributors: vec![recs(order[0]), recs(order[1])],
            subscribers: recs(&[]),
            issues: vec![],
        })
    };
    let ab = make([&["x", "y"], &["y", "z"]]);
    let ba = make([&["y", "z"], &["x", "y"]]);
    assert_eq!(ab.contributor_logins.len(), ba.contributor_logins.len());
    for login in ["p", "x", "y", "z"] {
        assert_eq!(
            has(&ab.contributor_logins, login),
            has(&ba.contributor_logins, login)
        );
    }
}

#[test]
fn identity_set_walks_logins_in_first_insertion_order() {
    let mut s = IdentitySet::new();
    s.insert(String::from("b"));
    s.insert(String::from("a"));
    s.insert(String::from("b"));
    assert_eq!(s.as_vec(), &vec![String::from("b"), String::from("a")]);
}

#[test]
fn identity_set_deduplicates_inserts() {
    let mut s = IdentitySet::new();
    s.insert(String::from("a"));
    s.insert(String::from("a"));
    s.insert(String::from("b"));
    assert_eq!(s.len(), 2);
    assert!(has(&s, "a"));
    assert!(has(&s, "b"));
    assert!(!has(&s, "c"));
}

#[test]
fn identity_set_union_is_idempotent() {
    let mut s = IdentitySet::new();
    s.insert(String::from("a"));
    let mut t = IdentitySet::new();
    t.insert(String::from("a"));
    t.insert(String::from("b"));
    s.union_with(&t);
    s.union_with(&t);
    assert_eq!(s.len(), 2);
}

#[test]
fn empty_inputs_give_empty_totals() {
    let stats = collect_stats(&RepoPages {
        stargazers: vec![],
        contributors: vec![],
        fork_contributors: vec![],
        subscribers: vec![],
        issues: vec![],
    });
    assert_eq!(stats.total_users.len(), 0);
    assert_eq!(stats.contributor_logins.len(), 0);
    let (users, contributors) = merge_results(&vec![]);
    assert_eq!(users.len(), 0);
    assert_eq!(contributors.len(), 0);
}
