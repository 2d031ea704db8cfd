use vstd::prelude::*;
use vstd::seq_lib::group_to_multiset_ensures;
use crate::identity::IdentitySet;
use crate::collect::RepoStats;

verus! {

/// The global user set: the union, over every completed repository
/// result, of its total users.
pub open spec fn union_users(rs: Seq<RepoStats>) -> Set<Seq<char>>
    decreases rs.len(),
{
    if rs.len() == 0 {
        Set::empty()
    } else {
        rs[0].total_users@ + union_users(rs.drop_first())
    }
}

/// The global contributor set: the union, over every completed repository
/// result, of its contributor logins.
pub open spec fn union_contributors(rs: Seq<RepoStats>) -> Set<Seq<char>>
    decreases rs.len(),
{
    if rs.len() == 0 {
        Set::empty()
    } else {
        rs[0].contributor_logins@ + union_contributors(rs.drop_first())
    }
}

proof fn lemma_union_users_index(rs: Seq<RepoStats>, i: int, x: Seq<char>)
    requires
        0 <= i < rs.len(),
        rs[i].total_users@.contains(x),
    ensures
        union_users(rs).contains(x),
    decreases rs.len(),
{
    if i > 0 {
        assert(rs.drop_first()[i - 1] == rs[i]);
        lemma_union_users_index(rs.drop_first(), i - 1, x);
    }
}

proof fn lemma_union_users_witness(rs: Seq<RepoStats>, x: Seq<char>) -> (i: int)
    requires
        union_users(rs).contains(x),
    ensures
        0 <= i < rs.len(),
        rs[i].total_users@.contains(x),
    decreases rs.len(),
{
    assert(rs.len() != 0);
    if rs[0].total_users@.contains(x) {
        0
    } else {
        let j = lemma_union_users_witness(rs.drop_first(), x);
        assert(rs.drop_first()[j] == rs[j + 1]);
        j + 1
    }
}

proof fn lemma_union_contributors_index(rs: Seq<RepoStats>, i: int, x: Seq<char>)
    requires
        0 <= i < rs.len(),
        rs[i].contributor_logins@.contains(x),
    ensures
        union_contributors(rs).contains(x),
    decreases rs.len(),
{
    if i > 0 {
        assert(rs.drop_first()[i - 1] == rs[i]);
        lemma_union_contributors_index(rs.drop_first(), i - 1, x);
    }
}

proof fn lemma_union_contributors_witness(rs: Seq<RepoStats>, x: Seq<char>) -> (i: int)
    requires
        union_contributors(rs).contains(x),
    ensures
        0 <= i < rs.len(),
        rs[i].contributor_logins@.contains(x),
    decreases rs.len(),
{
    assert(rs.len() != 0);
    if rs[0].contributor_logins@.contains(x) {
        0
    } else {
        let j = lemma_union_contributors_witness(rs.drop_first(), x);
        assert(rs.drop_first()[j] == rs[j + 1]);
        j + 1
    }
}

/// Union commutativity: because the only merge operator is set union, the
/// global sets do not depend on the order in which per-repository results
/// complete — any two arrival orders of the same results yield identical
/// global user and contributor sets.
pub proof fn lemma_merge_order_independent(a: Seq<RepoStats>, b: Seq<RepoStats>)
    requires
        a.to_multiset() == b.to_multiset(),
    ensures
        union_users(a) == union_users(b),
        union_contributors(a) == union_contributors(b),
{
    broadcast use group_to_multiset_ensures;

    assert forall|x: Seq<char>| union_users(a).contains(x) implies union_users(b).contains(x) by {
        let i = lemma_union_users_witness(a, x);
        assert(a.contains(a[i]));
        assert(b.to_multiset().count(a[i]) > 0);
        assert(b.contains(a[i]));
        let j = choose|j: int| 0 <= j < b.len() && b[j] == a[i];
        lemma_union_users_index(b, j, x);
    }
    assert forall|x: Seq<char>| union_users(b).contains(x) implies union_users(a).contains(x) by {
        let i = lemma_union_users_witness(b, x);
        assert(b.contains(b[i]));
        assert(a.to_multiset().count(b[i]) > 0);
        assert(a.contains(b[i]));
        let j = choose|j: int| 0 <= j < a.len() && a[j] == b[i];
        lemma_union_users_index(a, j, x);
    }
    assert(union_users(a) =~= union_users(b));
    assert forall|x: Seq<char>| union_contributors(a).contains(x) implies union_contributors(
        b,
    ).contains(x) by {
        let i = lemma_union_contributors_witness(a, x);
        assert(a.contains(a[i]));
        assert(b.to_multiset().count(a[i]) > 0);
        assert(b.contains(a[i]));
        let j = choose|j: int| 0 <= j < b.len() && b[j] == a[i];
        lemma_union_contributors_index(b, j, x);
    }
    assert forall|x: Seq<char>| union_contributors(b).contains(x) implies union_contributors(
        a,
    ).contains(x) by {
        let i = lemma_union_contributors_witness(b, x);
        assert(b.contains(b[i]));
        assert(a.to_multiset().count(b[i]) > 0);
        assert(a.contains(b[i]));
        let j = choose|j: int| 0 <= j < a.len() && a[j] == b[i];
        lemma_union_contributors_index(a, j, x);
    }
    assert(union_contributors(a) =~= union_contributors(b));
}

proof fn lemma_union_take_step(rs: Seq<RepoStats>, i: int)
    requires
        0 <= i < rs.len(),
    ensures
        union_users(rs.take(i + 1)) == union_users(rs.take(i)) + rs[i].total_users@,
        union_contributors(rs.take(i + 1)) == union_contributors(rs.take(i))
            + rs[i].contributor_logins@,
{
    let a = rs.take(i + 1);
    let b = rs.take(i);
    assert forall|x: Seq<char>| union_users(a).contains(x) implies (union_users(b)
        + rs[i].total_users@).contains(x) by {
        let j = lemma_union_users_witness(a, x);
        if j < i {
            assert(b[j] == a[j]);
            lemma_union_users_index(b, j, x);
        } else {
            assert(a[j] == rs[i]);
        }
    }
    assert forall|x: Seq<char>| (union_users(b) + rs[i].total_users@).contains(x)
        implies union_users(a).contains(x) by {
        if union_users(b).contains(x) {
            let j = lemma_union_users_witness(b, x);
            assert(a[j] == b[j]);
            lemma_union_users_index(a, j, x);
        } else {
            assert(a[i] == rs[i]);
            lemma_union_users_index(a, i, x);
        }
    }
    assert(union_users(a) =~= union_users(b) + rs[i].total_users@);
    assert forall|x: Seq<char>| union_contributors(a).contains(x) implies (union_contributors(b)
        + rs[i].contributor_logins@).contains(x) by {
        let j = lemma_union_contributors_witness(a, x);
        if j < i {
            assert(b[j] == a[j]);
            lemma_union_contributors_index(b, j, x);
        } else {
            assert(a[j] == rs[i]);
        }
    }
    assert forall|x: Seq<char>| (union_contributors(b) + rs[i].contributor_logins@).contains(x)
        implies union_contributors(a).contains(x) by {
        if union_contributors(b).contains(x) {
            let j = lemma_union_contributors_witness(b, x);
            assert(a[j] == b[j]);
            lemma_union_contributors_index(a, j, x);
        } else {
            assert(a[i] == rs[i]);
            lemma_union_contributors_index(a, i, x);
        }
    }
    assert(union_contributors(a) =~= union_contributors(b) + rs[i].contributor_logins@);
}

/// Unions all completed per-repository results into the two global sets.
/// A repository whose unit of work failed simply has no entry here and
/// contributes nothing.
pub fn merge_results(results: &Vec<RepoStats>) -> (r: (IdentitySet, IdentitySet))
    ensures
        r.0.wf(),
        r.1.wf(),
        r.0@ == union_users(results@),
        r.1@ == union_contributors(results@),
{
    let mut users = IdentitySet::new();
    let mut contributors = IdentitySet::new();
    proof {
        assert(union_users(results@.take(0)) =~= Set::<Seq<char>>::empty());
        assert(union_contributors(results@.take(0)) =~= Set::<Seq<char>>::empty());
    }
    let mut i: usize = 0;
    while i < results.len()
        invariant
            0 <= i <= results@.len(),
            users.wf(),
            contributors.wf(),
            users@ == union_users(results@.take(i as int)),
            contributors@ == union_contributors(results@.take(i as int)),
        decreases results@.len() - i,
    {
        proof {
            lemma_union_take_step(results@, i as int);
        }
        users.union_with(&results[i].total_users);
        contributors.union_with(&results[i].contributor_logins);
        i += 1;
    }
    proof {
        assert(results@.take(results@.len() as int) =~= results@);
    }
    (users, contributors)
}

} // verus!
