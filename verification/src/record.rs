use vstd::prelude::*;
use crate::identity::IdentitySet;

verus! {

/// One item of an API page, reduced to the three fields the aggregation
/// reads. A record is transient: once a login is extracted it is discarded.
///
/// Every field is optional; a record missing an expected field yields no
/// identity and is silently skipped, never an error.
pub struct Record {
    /// The record's own `login` field.
    pub login: Option<String>,
    /// The nested `user.login` field, the author of an issue.
    pub user_login: Option<String>,
    /// The record's self-referencing `url` field.
    pub url: Option<String>,
}

/// The `login` field as a character sequence, when present.
pub open spec fn login_view(r: Record) -> Option<Seq<char>> {
    match r.login {
        Some(s) => Some(s@),
        None => None,
    }
}

/// The `user.login` field as a character sequence, when present.
pub open spec fn user_login_view(r: Record) -> Option<Seq<char>> {
    match r.user_login {
        Some(s) => Some(s@),
        None => None,
    }
}

/// The `url` field as a character sequence, when present.
pub open spec fn url_view(r: Record) -> Option<Seq<char>> {
    match r.url {
        Some(s) => Some(s@),
        None => None,
    }
}

/// The set of logins present in a page: one identity per record that has a
/// `login` field, records without it contributing nothing.
pub open spec fn page_logins(page: Seq<Record>) -> Set<Seq<char>> {
    Set::new(
        |x: Seq<char>| exists|i: int| 0 <= i < page.len() && login_view(page[i]) == Some(x),
    )
}

/// The set of issue-author logins present in a page, read from the nested
/// `user.login` field.
pub open spec fn page_issue_authors(page: Seq<Record>) -> Set<Seq<char>> {
    Set::new(
        |x: Seq<char>| exists|i: int|
            0 <= i < page.len() && user_login_view(page[i]) == Some(x),
    )
}

proof fn lemma_page_logins_take_step(page: Seq<Record>, i: int)
    requires
        0 <= i < page.len(),
    ensures
        page_logins(page.take(i + 1)) == (match login_view(page[i]) {
            Some(x) => page_logins(page.take(i)).insert(x),
            None => page_logins(page.take(i)),
        }),
{
    let a = page.take(i + 1);
    let b = page.take(i);
    assert forall|y: Seq<char>| page_logins(a).contains(y) implies (match login_view(page[i]) {
        Some(x) => page_logins(b).insert(x).contains(y),
        None => page_logins(b).contains(y),
    }) by {
        let j = choose|j: int| 0 <= j < a.len() && login_view(a[j]) == Some(y);
        if j < i {
            assert(b[j] == page[j]);
            assert(page_logins(b).contains(y));
        } else {
            assert(a[j] == page[i]);
        }
    }
    assert forall|y: Seq<char>|
        (match login_view(page[i]) {
            Some(x) => page_logins(b).insert(x).contains(y),
            None => page_logins(b).contains(y),
        }) implies page_logins(a).contains(y) by {
        if page_logins(b).contains(y) {
            let j = choose|j: int| 0 <= j < b.len() && login_view(b[j]) == Some(y);
            assert(a[j] == page[j]);
            assert(page_logins(a).contains(y));
        } else {
            assert(login_view(page[i]) == Some(y));
            assert(a[i] == page[i]);
            assert(page_logins(a).contains(y));
        }
    }
    match login_view(page[i]) {
        Some(x) => {
            assert(page_logins(a) =~= page_logins(b).insert(x));
        },
        None => {
            assert(page_logins(a) =~= page_logins(b));
        },
    }
}

proof fn lemma_page_issue_authors_take_step(page: Seq<Record>, i: int)
    requires
        0 <= i < page.len(),
    ensures
        page_issue_authors(page.take(i + 1)) == (match user_login_view(page[i]) {
            Some(x) => page_issue_authors(page.take(i)).insert(x),
            None => page_issue_authors(page.take(i)),
        }),
{
    let a = page.take(i + 1);
    let b = page.take(i);
    assert forall|y: Seq<char>| page_issue_authors(a).contains(y) implies (match user_login_view(
        page[i],
    ) {
        Some(x) => page_issue_authors(b).insert(x).contains(y),
        None => page_issue_authors(b).contains(y),
    }) by {
        let j = choose|j: int| 0 <= j < a.len() && user_login_view(a[j]) == Some(y);
        if j < i {
            assert(b[j] == page[j]);
            assert(page_issue_authors(b).contains(y));
        } else {
            assert(a[j] == page[i]);
        }
    }
    assert forall|y: Seq<char>|
        (match user_login_view(page[i]) {
            Some(x) => page_issue_authors(b).insert(x).contains(y),
            None => page_issue_authors(b).contains(y),
        }) implies page_issue_authors(a).contains(y) by {
        if page_issue_authors(b).contains(y) {
            let j = choose|j: int| 0 <= j < b.len() && user_login_view(b[j]) == Some(y);
            assert(a[j] == page[j]);
            assert(page_issue_authors(a).contains(y));
        } else {
            assert(user_login_view(page[i]) == Some(y));
            assert(a[i] == page[i]);
            assert(page_issue_authors(a).contains(y));
        }
    }
    match user_login_view(page[i]) {
        Some(x) => {
            assert(page_issue_authors(a) =~= page_issue_authors(b).insert(x));
        },
        None => {
            assert(page_issue_authors(a) =~= page_issue_authors(b));
        },
    }
}

/// Unions into `acc` the login of every record of `page` that carries one;
/// a record without the field is skipped, never an error.
pub fn extend_with_logins(acc: &mut IdentitySet, page: &Vec<Record>)
    requires
        old(acc).wf(),
    ensures
        final(acc).wf(),
        final(acc)@ == old(acc)@ + page_logins(page@),
{
    let mut i: usize = 0;
    while i < page.len()
        invariant
            0 <= i <= page@.len(),
            acc.wf(),
            acc@ == old(acc)@ + page_logins(page@.take(i as int)),
        decreases page@.len() - i,
    {
        proof {
            lemma_page_logins_take_step(page@, i as int);
        }
        match &page[i].login {
            Some(login) => {
                let l = login.clone();
                proof {
                    assert(login_view(page@[i as int]) == Some(l@));
                }
                acc.insert(l);
                proof {
                    assert(acc@ =~= old(acc)@ + page_logins(page@.take(i as int + 1)));
                }
            },
            None => {
                proof {
                    assert(login_view(page@[i as int]) is None);
                }
            },
        }
        i += 1;
    }
    proof {
        assert(page@.take(page@.len() as int) =~= page@);
    }
}

/// Unions into `acc` the issue-author login (`user.login`) of every record
/// of `page` that carries one.
pub fn extend_with_issue_authors(acc: &mut IdentitySet, page: &Vec<Record>)
    requires
        old(acc).wf(),
    ensures
        final(acc).wf(),
        final(acc)@ == old(acc)@ + page_issue_authors(page@),
{
    let mut i: usize = 0;
    while i < page.len()
        invariant
            0 <= i <= page@.len(),
            acc.wf(),
            acc@ == old(acc)@ + page_issue_authors(page@.take(i as int)),
        decreases page@.len() - i,
    {
        proof {
            lemma_page_issue_authors_take_step(page@, i as int);
        }
        match &page[i].user_login {
            Some(login) => {
                let l = login.clone();
                proof {
                    assert(user_login_view(page@[i as int]) == Some(l@));
                }
                acc.insert(l);
                proof {
                    assert(acc@ =~= old(acc)@ + page_issue_authors(page@.take(i as int + 1)));
                }
            },
            None => {
                proof {
                    assert(user_login_view(page@[i as int]) is None);
                }
            },
        }
        i += 1;
    }
    proof {
        assert(page@.take(page@.len() as int) =~= page@);
    }
}

} // verus!
