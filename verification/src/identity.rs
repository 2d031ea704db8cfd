use vstd::prelude::*;

verus! {

/// A deduplicated collection of user logins, the identity sets that every
/// aggregation step unions together.
///
/// The executable representation is a vector of pairwise-distinct strings;
/// the mathematical view is the finite set of their character sequences.
pub struct IdentitySet {
    items: Vec<String>,
}

impl IdentitySet {
    /// The logins as a sequence of character sequences, in insertion order.
    pub closed spec fn logins(&self) -> Seq<Seq<char>> {
        self.items@.map_values(|s: String| s@)
    }

    /// The representation holds no login twice.
    pub closed spec fn wf(&self) -> bool {
        self.logins().no_duplicates()
    }

    pub fn new() -> (r: IdentitySet)
        ensures
            r.wf(),
            r@ == Set::<Seq<char>>::empty(),
    {
        let r = IdentitySet { items: Vec::new() };
        proof {
            assert(r@ =~= Set::<Seq<char>>::empty());
        }
        r
    }

    pub fn contains(&self, login: &String) -> (b: bool)
        ensures
            b == self@.contains(login@),
    {
        let ghost m = self.logins();
        let mut i: usize = 0;
        while i < self.items.len()
            invariant
                0 <= i <= self.items@.len(),
                m == self.logins(),
                forall|k: int| 0 <= k < i ==> m[k] != login@,
            decreases self.items@.len() - i,
        {
            if self.items[i] == *login {
                proof {
                    assert(m[i as int] == login@);
                    assert(m.contains(login@));
                }
                return true;
            }
            i += 1;
        }
        proof {
            assert(forall|k: int| 0 <= k < m.len() ==> m[k] != login@);
            assert(!m.contains(login@));
        }
        false
    }

    pub fn insert(&mut self, login: String)
        requires
            old(self).wf(),
        ensures
            final(self).wf(),
            final(self)@ == old(self)@.insert(login@),
    {
        let ghost oldm = self.logins();
        let already = self.contains(&login);
        if !already {
            let ghost l = login@;
            self.items.push(login);
            proof {
                assert(self.logins() =~= oldm + seq![l]);
                Seq::lemma_to_set_insert_commutes(oldm, l);
                assert(self@ =~= old(self)@.insert(l));
                assert(forall|k: int| 0 <= k < oldm.len() ==> oldm[k] != l);
                assert forall|i: int, j: int|
                    0 <= i < j < self.logins().len() implies self.logins()[i]
                    != self.logins()[j] by {
                    if j < oldm.len() {
                        assert(oldm[i] != oldm[j]);
                    } else {
                        assert(self.logins()[i] == oldm[i]);
                        assert(self.logins()[j] == l);
                    }
                }
            }
        } else {
            proof {
                assert(self@.contains(login@));
                assert(self@ =~= old(self)@.insert(login@));
            }
        }
    }

    /// Unions every login of `other` into `self`; the merge operator used at
    /// every aggregation level.
    pub fn union_with(&mut self, other: &IdentitySet)
        requires
            old(self).wf(),
        ensures
            final(self).wf(),
            final(self)@ == old(self)@ + other@,
    {
        let ghost om = other.logins();
        let mut i: usize = 0;
        while i < other.items.len()
            invariant
                0 <= i <= other.items@.len(),
                om == other.logins(),
                self.wf(),
                self@ == old(self)@ + om.take(i as int).to_set(),
            decreases other.items@.len() - i,
        {
            let login = other.items[i].clone();
            proof {
                assert(login@ == om[i as int]);
            }
            self.insert(login);
            proof {
                assert(om.take(i as int + 1) =~= om.take(i as int) + seq![om[i as int]]);
                Seq::lemma_to_set_insert_commutes(om.take(i as int), om[i as int]);
                assert(self@ =~= old(self)@ + om.take(i as int + 1).to_set());
            }
            i += 1;
        }
        proof {
            assert(om.take(om.len() as int) =~= om);
            assert(self@ =~= old(self)@ + other@);
        }
    }

    /// The number of distinct logins gathered.
    pub fn len(&self) -> (n: usize)
        requires
            self.wf(),
        ensures
            n == self@.len(),
    {
        proof {
            self.logins().unique_seq_to_set();
        }
        self.items.len()
    }

    /// The logins in insertion order, for callers that need to walk them.
    pub fn as_vec(&self) -> (r: &Vec<String>)
        ensures
            r@.map_values(|s: String| s@) == self.logins(),
    {
        &self.items
    }
}

impl View for IdentitySet {
    type V = Set<Seq<char>>;

    closed spec fn view(&self) -> Set<Seq<char>> {
        self.logins().to_set()
    }
}

} // verus!
