use vstd::prelude::*;
use crate::identity::IdentitySet;
use crate::record::Record;
use crate::record::extend_with_logins;
use crate::record::extend_with_issue_authors;
use crate::record::page_logins;
use crate::record::page_issue_authors;

verus! {

/// Everything fetched for one repository, already decoded into records:
/// one list per endpoint, and one contributor list per fork fetch.
pub struct RepoPages {
    pub stargazers: Vec<Record>,
    pub contributors: Vec<Record>,
    /// One record list per fork whose contributors endpoint was fetched.
    pub fork_contributors: Vec<Vec<Record>>,
    pub subscribers: Vec<Record>,
    pub issues: Vec<Record>,
}

/// The two identity sets one repository contributes.
pub struct RepoStats {
    /// Stargazers, contributors of the repository and its forks,
    /// subscribers and issue authors, all unioned.
    pub total_users: IdentitySet,
    /// Contributors of the repository and of every fetched fork.
    pub contributor_logins: IdentitySet,
}

/// The logins found across all fork contributor lists.
pub open spec fn all_fork_logins(fs: Seq<Vec<Record>>) -> Set<Seq<char>>
    decreases fs.len(),
{
    if fs.len() == 0 {
        Set::empty()
    } else {
        page_logins(fs[0]@) + all_fork_logins(fs.drop_first())
    }
}

/// The contributor set of one repository: its direct contributors unioned
/// with the contributors of every fetched fork.
pub open spec fn contributors_spec(p: RepoPages) -> Set<Seq<char>> {
    page_logins(p.contributors@) + all_fork_logins(p.fork_contributors@)
}

/// The total-user set of one repository: stargazers, contributors of the
/// repository and its forks, subscribers, and issue authors, unioned.
pub open spec fn total_users_spec(p: RepoPages) -> Set<Seq<char>> {
    page_logins(p.stargazers@) + contributors_spec(p) + page_logins(p.subscribers@)
        + page_issue_authors(p.issues@)
}

proof fn lemma_all_fork_logins_take_step(fs: Seq<Vec<Record>>, i: int)
    requires
        0 <= i < fs.len(),
    ensures
        all_fork_logins(fs.take(i + 1)) == all_fork_logins(fs.take(i)) + page_logins(fs[i]@),
    decreases i,
{
    let a = fs.take(i + 1);
    let b = fs.take(i);
    if i == 0 {
        assert(a.drop_first() =~= Seq::<Vec<Record>>::empty());
        assert(b =~= Seq::<Vec<Record>>::empty());
        assert(a[0] == fs[0]);
        assert(all_fork_logins(a.drop_first()) =~= Set::<Seq<char>>::empty());
        assert(all_fork_logins(b) =~= Set::<Seq<char>>::empty());
        assert(all_fork_logins(a) =~= all_fork_logins(b) + page_logins(fs[0]@));
    } else {
        assert(a.drop_first() =~= fs.drop_first().take(i));
        assert(b.drop_first() =~= fs.drop_first().take(i - 1));
        assert(fs.drop_first()[i - 1] == fs[i]);
        lemma_all_fork_logins_take_step(fs.drop_first(), i - 1);
        assert(a[0] == fs[0]);
        assert(b[0] == fs[0]);
        assert(page_logins(fs[0]@) + (all_fork_logins(fs.drop_first().take(i - 1)) + page_logins(
            fs[i]@,
        )) =~= (page_logins(fs[0]@) + all_fork_logins(fs.drop_first().take(i - 1))) + page_logins(
            fs[i]@,
        ));
    }
}

proof fn lemma_fork_logins_index(fs: Seq<Vec<Record>>, i: int, x: Seq<char>)
    requires
        0 <= i < fs.len(),
        page_logins(fs[i]@).contains(x),
    ensures
        all_fork_logins(fs).contains(x),
    decreases fs.len(),
{
    if i > 0 {
        assert(fs.drop_first()[i - 1] == fs[i]);
        lemma_fork_logins_index(fs.drop_first(), i - 1, x);
    }
}

proof fn lemma_fork_logins_witness(fs: Seq<Vec<Record>>, x: Seq<char>) -> (i: int)
    requires
        all_fork_logins(fs).contains(x),
    ensures
        0 <= i < fs.len(),
        page_logins(fs[i]@).contains(x),
    decreases fs.len(),
{
    assert(fs.len() != 0);
    if page_logins(fs[0]@).contains(x) {
        0
    } else {
        let j = lemma_fork_logins_witness(fs.drop_first(), x);
        assert(fs.drop_first()[j] == fs[j + 1]);
        j + 1
    }
}

/// Union commutativity at the fork level: concurrent fork fetches may
/// complete in any order, and the merged fork-contributor set is the same
/// for any two arrival orders of the same contributor lists.
pub proof fn lemma_fork_merge_order_independent(a: Seq<Vec<Record>>, b: Seq<Vec<Record>>)
    requires
        a.to_multiset() == b.to_multiset(),
    ensures
        all_fork_logins(a) == all_fork_logins(b),
{
    broadcast use vstd::seq_lib::group_to_multiset_ensures;

    assert forall|x: Seq<char>| all_fork_logins(a).contains(x) implies all_fork_logins(b).contains(
        x,
    ) by {
        let i = lemma_fork_logins_witness(a, x);
        assert(a.contains(a[i]));
        assert(b.to_multiset().count(a[i]) > 0);
        assert(b.contains(a[i]));
        let j = choose|j: int| 0 <= j < b.len() && b[j] == a[i];
        lemma_fork_logins_index(b, j, x);
    }
    assert forall|x: Seq<char>| all_fork_logins(b).contains(x) implies all_fork_logins(a).contains(
        x,
    ) by {
        let i = lemma_fork_logins_witness(b, x);
        assert(b.contains(b[i]));
        assert(a.to_multiset().count(b[i]) > 0);
        assert(a.contains(b[i]));
        let j = choose|j: int| 0 <= j < a.len() && a[j] == b[i];
        lemma_fork_logins_index(a, j, x);
    }
    assert(all_fork_logins(a) =~= all_fork_logins(b));
}

/// Unions into `acc` the logins of every fork contributor list.
pub fn extend_with_fork_logins(acc: &mut IdentitySet, fork_pages: &Vec<Vec<Record>>)
    requires
        old(acc).wf(),
    ensures
        final(acc).wf(),
        final(acc)@ == old(acc)@ + all_fork_logins(fork_pages@),
{
    proof {
        assert(all_fork_logins(fork_pages@.take(0)) =~= Set::<Seq<char>>::empty());
        assert(acc@ =~= old(acc)@ + all_fork_logins(fork_pages@.take(0)));
    }
    let mut i: usize = 0;
    while i < fork_pages.len()
        invariant
            0 <= i <= fork_pages@.len(),
            acc.wf(),
            acc@ == old(acc)@ + all_fork_logins(fork_pages@.take(i as int)),
        decreases fork_pages@.len() - i,
    {
        proof {
            lemma_all_fork_logins_take_step(fork_pages@, i as int);
        }
        extend_with_logins(acc, &fork_pages[i]);
        proof {
            assert(acc@ =~= old(acc)@ + all_fork_logins(fork_pages@.take(i as int + 1)));
        }
        i += 1;
    }
    proof {
        assert(fork_pages@.take(fork_pages@.len() as int) =~= fork_pages@);
    }
}

/// Combines everything fetched for one repository into its two identity
/// sets. Identities are deduplicated by union at every step, so a login
/// appearing on several endpoints is counted once; a record missing its
/// login field contributes nothing.
pub fn collect_stats(pages: &RepoPages) -> (r: RepoStats)
    ensures
        r.total_users.wf(),
        r.contributor_logins.wf(),
        r.total_users@ == total_users_spec(*pages),
        r.contributor_logins@ == contributors_spec(*pages),
{
    let mut contributors = IdentitySet::new();
    extend_with_logins(&mut contributors, &pages.contributors);
    extend_with_fork_logins(&mut contributors, &pages.fork_contributors);
    proof {
        assert(contributors@ =~= contributors_spec(*pages));
    }

    let mut total = IdentitySet::new();
    extend_with_logins(&mut total, &pages.stargazers);
    total.union_with(&contributors);
    extend_with_logins(&mut total, &pages.subscribers);
    extend_with_issue_authors(&mut total, &pages.issues);
    proof {
        assert(total@ =~= total_users_spec(*pages));
    }

    RepoStats { total_users: total, contributor_logins: contributors }
}

} // verus!
