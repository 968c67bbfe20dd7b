//! An insertion-ordered mapping from string keys to values.
//!
//! Class and component maps of the intermediate representation require
//! deterministic, insertion-order iteration, which is part of their
//! contract.  The map is a pair of parallel vectors with distinct keys:
//! `insert` of a present key replaces the value in place, `insert` of an
//! absent key appends, and `swap_remove` moves the last entry into the
//! removed slot.

use vstd::prelude::*;

verus! {

/// First index of `k` in `s`, or `-1` when `k` does not occur.
pub open spec fn seq_index_of(s: Seq<Seq<char>>, k: Seq<char>) -> int
    decreases s,
{
    if s.len() == 0 {
        -1
    } else if s[0] == k {
        0
    } else {
        let r = seq_index_of(s.subrange(1, s.len() as int), k);
        if r < 0 {
            -1
        } else {
            r + 1
        }
    }
}

pub proof fn lemma_seq_index_of(s: Seq<Seq<char>>, k: Seq<char>)
    ensures
        seq_index_of(s, k) == -1 ==> forall|i: int| 0 <= i < s.len() ==> s[i] != k,
        seq_index_of(s, k) != -1 ==> 0 <= seq_index_of(s, k) < s.len() && s[seq_index_of(s, k)]
            == k,
        seq_index_of(s, k) != -1 ==> forall|i: int| 0 <= i < seq_index_of(s, k) ==> s[i] != k,
    decreases s,
{
    if s.len() > 0 && s[0] != k {
        let sub = s.subrange(1, s.len() as int);
        lemma_seq_index_of(sub, k);
        assert forall|i: int| 1 <= i < s.len() implies s[i] == sub[i - 1] by {}
    }
}

/// `seq_index_of` returns the first matching index.
pub proof fn lemma_seq_index_of_found(s: Seq<Seq<char>>, k: Seq<char>, i: int)
    requires
        0 <= i < s.len(),
        s[i] == k,
        forall|j: int| 0 <= j < i ==> s[j] != k,
    ensures
        seq_index_of(s, k) == i,
    decreases s,
{
    if i > 0 {
        let sub = s.subrange(1, s.len() as int);
        assert forall|j: int| 0 <= j < i - 1 implies sub[j] != k by {
            assert(sub[j] == s[j + 1]);
        }
        lemma_seq_index_of_found(sub, k, i - 1);
    }
}

/// `seq_index_of` misses exactly when no element matches.
pub proof fn lemma_seq_index_of_absent(s: Seq<Seq<char>>, k: Seq<char>)
    requires
        forall|i: int| 0 <= i < s.len() ==> s[i] != k,
    ensures
        seq_index_of(s, k) == -1,
    decreases s,
{
    if s.len() > 0 {
        let sub = s.subrange(1, s.len() as int);
        assert forall|i: int| 0 <= i < sub.len() implies sub[i] != k by {
            assert(sub[i] == s[i + 1]);
        }
        lemma_seq_index_of_absent(sub, k);
    }
}

/// An insertion-ordered map from `String` keys to `V` values.
#[derive(Debug, PartialEq, Eq)]
pub struct OrderedMap<V> {
    pub keys: Vec<String>,
    pub vals: Vec<V>,
}

impl<V> OrderedMap<V> {
    /// Keys in insertion order, as sequences of characters.
    pub open spec fn key_seq(&self) -> Seq<Seq<char>> {
        Seq::new(self.keys@.len(), |i: int| self.keys@[i]@)
    }

    /// Values in insertion order.
    pub open spec fn val_seq(&self) -> Seq<V> {
        self.vals@
    }

    /// Well-formed: parallel vectors of equal length, keys distinct.
    pub open spec fn wf(&self) -> bool {
        &&& self.keys@.len() == self.vals@.len()
        &&& forall|i: int, j: int|
            0 <= i < j < self.key_seq().len() ==> self.key_seq()[i] != self.key_seq()[j]
    }

    pub open spec fn spec_len(&self) -> nat {
        self.key_seq().len()
    }

    pub open spec fn spec_index_of(&self, k: Seq<char>) -> int {
        seq_index_of(self.key_seq(), k)
    }

    pub open spec fn spec_contains_key(&self, k: Seq<char>) -> bool {
        self.spec_index_of(k) != -1
    }

    /// The value stored under key `k`, when present.
    pub open spec fn spec_get(&self, k: Seq<char>) -> Option<V> {
        if self.spec_contains_key(k) {
            Some(self.val_seq()[self.spec_index_of(k)])
        } else {
            None
        }
    }

    pub fn new() -> (r: Self)
        ensures
            r.wf(),
            r.key_seq() == Seq::<Seq<char>>::empty(),
            r.val_seq() == Seq::<V>::empty(),
    {
        let r = OrderedMap { keys: Vec::new(), vals: Vec::new() };
        proof {
            assert(r.key_seq() =~= Seq::<Seq<char>>::empty());
        }
        r
    }

    pub fn len(&self) -> (r: usize)
        requires
            self.wf(),
        ensures
            r == self.spec_len(),
    {
        self.keys.len()
    }

    pub fn index_of(&self, k: &String) -> (r: Option<usize>)
        ensures
            match r {
                Some(i) => self.spec_index_of(k@) == i,
                None => self.spec_index_of(k@) == -1,
            },
    {
        let n = self.keys.len();
        let mut i: usize = 0;
        while i < n
            invariant
                n == self.keys@.len(),
                0 <= i <= n,
                forall|j: int| 0 <= j < i ==> self.key_seq()[j] != k@,
            decreases n - i,
        {
            if self.keys[i].eq(k) {
                proof {
                    lemma_seq_index_of_found(self.key_seq(), k@, i as int);
                }
                return Some(i);
            }
            i += 1;
        }
        proof {
            lemma_seq_index_of_absent(self.key_seq(), k@);
        }
        None
    }

    pub fn contains_key(&self, k: &String) -> (r: bool)
        ensures
            r == self.spec_contains_key(k@),
    {
        self.index_of(k).is_some()
    }

    pub fn get(&self, k: &String) -> (r: Option<&V>)
        requires
            self.wf(),
        ensures
            match r {
                Some(v) => self.spec_get(k@) == Some(*v),
                None => self.spec_get(k@) == None::<V>,
            },
    {
        proof {
            lemma_seq_index_of(self.key_seq(), k@);
        }
        match self.index_of(k) {
            Some(i) => Some(&self.vals[i]),
            None => None,
        }
    }

    /// Inserts `v` under `k`.  A present key keeps its position and gets
    /// the new value; an absent key is appended at the end.
    pub fn insert(&mut self, k: String, v: V)
        requires
            old(self).wf(),
        ensures
            final(self).wf(),
            old(self).spec_contains_key(k@) ==> {
                &&& final(self).key_seq() == old(self).key_seq()
                &&& final(self).val_seq() == old(self).val_seq().update(
                    old(self).spec_index_of(k@),
                    v,
                )
            },
            !old(self).spec_contains_key(k@) ==> {
                &&& final(self).key_seq() == old(self).key_seq().push(k@)
                &&& final(self).val_seq() == old(self).val_seq().push(v)
            },
    {
        proof {
            lemma_seq_index_of(self.key_seq(), k@);
        }
        match self.index_of(&k) {
            Some(i) => {
                self.vals[i] = v;
                proof {
                    assert(self.key_seq() =~= old(self).key_seq());
                }
            },
            None => {
                self.keys.push(k);
                self.vals.push(v);
                proof {
                    assert(self.key_seq() =~= old(self).key_seq().push(k@));
                }
            },
        }
    }

    /// Removes the entry under `k` by swapping the last entry into its
    /// slot, and returns its value.
    pub fn swap_remove(&mut self, k: &String) -> (r: Option<V>)
        requires
            old(self).wf(),
        ensures
            final(self).wf(),
            match r {
                Some(v) => {
                    let i = old(self).spec_index_of(k@);
                    &&& old(self).spec_contains_key(k@)
                    &&& v == old(self).val_seq()[i]
                    &&& final(self).key_seq() == old(self).key_seq().update(
                        i,
                        old(self).key_seq().last(),
                    ).drop_last()
                    &&& final(self).val_seq() == old(self).val_seq().update(
                        i,
                        old(self).val_seq().last(),
                    ).drop_last()
                },
                None => {
                    &&& !old(self).spec_contains_key(k@)
                    &&& *final(self) == *old(self)
                },
            },
    {
        proof {
            lemma_seq_index_of(self.key_seq(), k@);
        }
        match self.index_of(k) {
            Some(i) => {
                let kv = self.keys.swap_remove(i);
                let v = self.vals.swap_remove(i);
                proof {
                    assert(self.key_seq() =~= old(self).key_seq().update(
                        i as int,
                        old(self).key_seq().last(),
                    ).drop_last());
                    assert(self.val_seq() =~= old(self).val_seq().update(
                        i as int,
                        old(self).val_seq().last(),
                    ).drop_last());
                }
                Some(v)
            },
            None => None,
        }
    }

    pub fn key_at(&self, i: usize) -> (r: &String)
        requires
            self.wf(),
            i < self.spec_len(),
        ensures
            r@ == self.key_seq()[i as int],
    {
        &self.keys[i]
    }

    pub fn val_at(&self, i: usize) -> (r: &V)
        requires
            self.wf(),
            i < self.spec_len(),
        ensures
            *r == self.val_seq()[i as int],
    {
        &self.vals[i]
    }
}

} // verus!
