use vstd::prelude::*;
use vstd::string::StringExecFns;
use crate::record::Record;
use crate::record::url_view;

verus! {

/// The five per-repository endpoints the collection pipeline consumes.
#[derive(PartialEq, Eq, Structural, Debug, Clone, Copy)]
pub enum EndpointKind {
    Stargazers,
    Contributors,
    Forks,
    Subscribers,
    Issues,
}

/// The fixed base URL of the remote API.
pub open spec fn api_base() -> Seq<char> {
    "https://api.github.com"@
}

/// The path suffix of each endpoint kind.
pub open spec fn endpoint_suffix(k: EndpointKind) -> Seq<char> {
    match k {
        EndpointKind::Stargazers => "/stargazers"@,
        EndpointKind::Contributors => "/contributors"@,
        EndpointKind::Forks => "/forks"@,
        EndpointKind::Subscribers => "/subscribers"@,
        EndpointKind::Issues => "/issues"@,
    }
}

/// The query of one page request: the pagination cursor, the fixed
/// per-page size of 100, and the `state=all` filter that only the issues
/// endpoint carries.
pub struct Query {
    pub page: usize,
    pub per_page: usize,
    pub state_all: bool,
}

/// Builds the query for one page of one endpoint.
pub fn query_for(kind: EndpointKind, page: usize) -> (q: Query)
    ensures
        q.page == page,
        q.per_page == 100,
        q.state_all == (kind == EndpointKind::Issues),
{
    let state_all = match kind {
        EndpointKind::Issues => true,
        _ => false,
    };
    Query { page, per_page: 100, state_all }
}

/// The URL of a repository endpoint: the API base, `/repos/`, the
/// `owner/name` repository spec, and the endpoint's suffix.
pub fn endpoint_url(repo: &str, kind: EndpointKind) -> (r: String)
    ensures
        r@ == api_base() + "/repos/"@ + repo@ + endpoint_suffix(kind),
{
    let mut s = String::new();
    s.append("https://api.github.com");
    s.append("/repos/");
    s.append(repo);
    match kind {
        EndpointKind::Stargazers => s.append("/stargazers"),
        EndpointKind::Contributors => s.append("/contributors"),
        EndpointKind::Forks => s.append("/forks"),
        EndpointKind::Subscribers => s.append("/subscribers"),
        EndpointKind::Issues => s.append("/issues"),
    }
    s
}

/// The contributors-endpoint URLs of a list of forks, in order: each
/// fork's own self-referencing `url` with `/contributors` appended; a fork
/// without a `url` field launches no fetch and contributes nothing.
pub open spec fn fork_contrib_urls(forks: Seq<Record>) -> Seq<Seq<char>>
    decreases forks.len(),
{
    if forks.len() == 0 {
        Seq::empty()
    } else {
        let rest = fork_contrib_urls(forks.drop_first());
        match url_view(forks[0]) {
            Some(u) => seq![u + "/contributors"@] + rest,
            None => rest,
        }
    }
}

proof fn lemma_fork_contrib_urls_take_step(forks: Seq<Record>, i: int)
    requires
        0 <= i < forks.len(),
    ensures
        fork_contrib_urls(forks.take(i + 1)) == (match url_view(forks[i]) {
            Some(u) => fork_contrib_urls(forks.take(i)).push(u + "/contributors"@),
            None => fork_contrib_urls(forks.take(i)),
        }),
    decreases i,
{
    let a = forks.take(i + 1);
    let b = forks.take(i);
    if i == 0 {
        assert(a.drop_first() =~= Seq::<Record>::empty());
        assert(b =~= Seq::<Record>::empty());
        assert(a[0] == forks[0]);
        match url_view(forks[0]) {
            Some(u) => {
                assert(fork_contrib_urls(a.drop_first()) =~= Seq::<Seq<char>>::empty());
                assert(fork_contrib_urls(b) =~= Seq::<Seq<char>>::empty());
                assert(fork_contrib_urls(a) =~= fork_contrib_urls(b).push(u + "/contributors"@));
            },
            None => {
                assert(fork_contrib_urls(a) =~= fork_contrib_urls(b));
            },
        }
    } else {
        assert(a.drop_first() =~= forks.drop_first().take(i));
        assert(b.drop_first() =~= forks.drop_first().take(i - 1));
        assert(forks.drop_first()[i - 1] == forks[i]);
        lemma_fork_contrib_urls_take_step(forks.drop_first(), i - 1);
        assert(a[0] == forks[0]);
        assert(b[0] == forks[0]);
        match url_view(forks[i]) {
            Some(u) => {
                match url_view(forks[0]) {
                    Some(u0) => {
                        assert(fork_contrib_urls(a) == seq![u0 + "/contributors"@]
                            + fork_contrib_urls(forks.drop_first().take(i)));
                        assert(seq![u0 + "/contributors"@] + fork_contrib_urls(
                            forks.drop_first().take(i - 1),
                        ).push(u + "/contributors"@) =~= (seq![u0 + "/contributors"@]
                            + fork_contrib_urls(forks.drop_first().take(i - 1))).push(
                            u + "/contributors"@,
                        ));
                    },
                    None => {
                    },
                }
            },
            None => {
            },
        }
    }
}

/// Derives the contributors-endpoint URL of every fork that carries a
/// self-referencing `url`, in the forks' order.
pub fn fork_contributor_urls(forks: &Vec<Record>) -> (r: Vec<String>)
    ensures
        r@.map_values(|s: String| s@) == fork_contrib_urls(forks@),
{
    let mut r: Vec<String> = Vec::new();
    proof {
        assert(r@.map_values(|s: String| s@) =~= fork_contrib_urls(forks@.take(0)));
    }
    let mut i: usize = 0;
    while i < forks.len()
        invariant
            0 <= i <= forks@.len(),
            r@.map_values(|s: String| s@) == fork_contrib_urls(forks@.take(i as int)),
        decreases forks@.len() - i,
    {
        let ghost rm = r@.map_values(|s: String| s@);
        proof {
            lemma_fork_contrib_urls_take_step(forks@, i as int);
        }
        match &forks[i].url {
            Some(u) => {
                let mut full = u.clone();
                full.append("/contributors");
                proof {
                    assert(url_view(forks@[i as int]) == Some(u@));
                    assert(full@ == u@ + "/contributors"@);
                }
                r.push(full);
                proof {
                    assert(r@.map_values(|s: String| s@) =~= rm.push(u@ + "/contributors"@));
                }
            },
            None => {
                proof {
                    assert(url_view(forks@[i as int]) is None);
                }
            },
        }
        i += 1;
    }
    proof {
        assert(forks@.take(forks@.len() as int) =~= forks@);
    }
    r
}

} // verus!
