//! A verified record store keyed by byte-string identifiers.
//!
//! The durable ledger of the deployed protocol offers per-identifier
//! create / load / mutate with unique keys.  This model keeps the entries
//! in a vector with pairwise-distinct keys and is viewed as a `Map` from
//! key bytes to records, so that every operation's contract is a plain
//! map equation.

use vstd::prelude::*;

use crate::bytes::bytes_eq;

verus! {

/// The entry under key `k`, or `None` when the map has no such key.
pub open spec fn spec_get<R>(m: Map<Seq<u8>, R>, k: Seq<u8>) -> Option<R> {
    if m.contains_key(k) {
        Some(m[k])
    } else {
        None
    }
}

/// Pairwise-distinct key views.
pub open spec fn distinct_keys<R>(s: Seq<(Vec<u8>, R)>) -> bool {
    forall|i: int, j: int| 0 <= i < j < s.len() ==> s[i].0@ != s[j].0@
}

/// The map described by an association sequence; later entries shadow
/// earlier ones, though well-formed tables never have duplicate keys.
pub closed spec fn as_map<R>(s: Seq<(Vec<u8>, R)>) -> Map<Seq<u8>, R>
    decreases s.len(),
{
    if s.len() == 0 {
        Map::empty()
    } else {
        as_map(s.drop_last()).insert(s.last().0@, s.last().1)
    }
}

proof fn lemma_as_map_dom<R>(s: Seq<(Vec<u8>, R)>, k: Seq<u8>)
    ensures
        as_map(s).contains_key(k) <==> (exists|i: int| 0 <= i < s.len() && s[i].0@ == k),
    decreases s.len(),
{
    if s.len() == 0 {
    } else {
        lemma_as_map_dom(s.drop_last(), k);
        if as_map(s).contains_key(k) {
            if s.last().0@ == k {
                assert(s[s.len() - 1].0@ == k);
            } else {
                let i = choose|i: int| 0 <= i < s.drop_last().len() && s.drop_last()[i].0@ == k;
                assert(s[i].0@ == k);
            }
        }
        if exists|i: int| 0 <= i < s.len() && s[i].0@ == k {
            let i = choose|i: int| 0 <= i < s.len() && s[i].0@ == k;
            if i < s.len() - 1 {
                assert(s.drop_last()[i].0@ == k);
            }
        }
    }
}

proof fn lemma_as_map_index<R>(s: Seq<(Vec<u8>, R)>, i: int)
    requires
        distinct_keys(s),
        0 <= i < s.len(),
    ensures
        as_map(s).contains_key(s[i].0@),
        as_map(s)[s[i].0@] == s[i].1,
    decreases s.len(),
{
    if i == s.len() - 1 {
    } else {
        assert(distinct_keys(s.drop_last()));
        assert(s.drop_last()[i] == s[i]);
        lemma_as_map_index(s.drop_last(), i);
        assert(s[i].0@ != s.last().0@);
    }
}

proof fn lemma_as_map_remove<R>(s: Seq<(Vec<u8>, R)>, i: int)
    requires
        distinct_keys(s),
        0 <= i < s.len(),
    ensures
        as_map(s.remove(i)) == as_map(s).remove(s[i].0@),
    decreases s.len(),
{
    let k = s[i].0@;
    if i == s.len() - 1 {
        assert(s.remove(i) =~= s.drop_last());
        lemma_as_map_dom(s.drop_last(), k);
        assert(forall|j: int| 0 <= j < s.drop_last().len() ==> s.drop_last()[j].0@ != k);
        assert(!as_map(s.drop_last()).contains_key(k));
        assert(as_map(s.drop_last()).insert(k, s.last().1).remove(k) =~= as_map(s.drop_last()));
    } else {
        assert(distinct_keys(s.drop_last()));
        assert(s.drop_last()[i] == s[i]);
        lemma_as_map_remove(s.drop_last(), i);
        assert(s.remove(i).drop_last() =~= s.drop_last().remove(i));
        assert(s.remove(i).last() == s.last());
        assert(k != s.last().0@);
        assert(as_map(s.drop_last()).remove(k).insert(s.last().0@, s.last().1) =~= as_map(
            s.drop_last(),
        ).insert(s.last().0@, s.last().1).remove(k));
    }
}

/// A record table with unique byte-string keys.
pub struct Table<R> {
    pairs: Vec<(Vec<u8>, R)>,
}

impl<R> View for Table<R> {
    type V = Map<Seq<u8>, R>;

    closed spec fn view(&self) -> Map<Seq<u8>, R> {
        as_map(self.pairs@)
    }
}

impl<R> Table<R> {
    /// Keys are pairwise distinct, so every lookup is unambiguous.
    pub closed spec fn wf(self) -> bool {
        distinct_keys(self.pairs@)
    }

    /// An empty table.
    pub fn new() -> (r: Table<R>)
        ensures
            r.wf(),
            r@ == Map::<Seq<u8>, R>::empty(),
    {
        Table { pairs: Vec::new() }
    }

    fn find_index(&self, id: &Vec<u8>) -> (r: Option<usize>)
        ensures
            match r {
                Some(i) => i < self.pairs@.len() && self.pairs@[i as int].0@ == id@,
                None => forall|i: int| 0 <= i < self.pairs@.len() ==> self.pairs@[i].0@ != id@,
            },
    {
        let n = self.pairs.len();
        let mut i: usize = 0;
        while i < n
            invariant
                n == self.pairs@.len(),
                i <= n,
                forall|j: int| 0 <= j < i ==> self.pairs@[j].0@ != id@,
            decreases n - i,
        {
            if bytes_eq(&self.pairs[i].0, id) {
                return Some(i);
            }
            i = i + 1;
        }
        None
    }

    /// Whether a record exists under `id`.
    pub fn contains(&self, id: &Vec<u8>) -> (r: bool)
        ensures
            r == self@.contains_key(id@),
    {
        proof {
            lemma_as_map_dom(self.pairs@, id@);
        }
        self.find_index(id).is_some()
    }

    /// Borrows the record under `id`.
    pub fn get(&self, id: &Vec<u8>) -> (r: Option<&R>)
        requires
            self.wf(),
        ensures
            match r {
                Some(rec) => self@.contains_key(id@) && *rec == self@[id@],
                None => !self@.contains_key(id@),
            },
    {
        proof {
            lemma_as_map_dom(self.pairs@, id@);
        }
        match self.find_index(id) {
            Some(i) => {
                proof {
                    lemma_as_map_index(self.pairs@, i as int);
                }
                Some(&self.pairs[i].1)
            },
            None => None,
        }
    }

    /// Creates the record under a fresh key.
    pub fn insert_new(&mut self, id: Vec<u8>, rec: R)
        requires
            old(self).wf(),
            !old(self)@.contains_key(id@),
        ensures
            final(self).wf(),
            final(self)@ == old(self)@.insert(id@, rec),
    {
        proof {
            lemma_as_map_dom(self.pairs@, id@);
        }
        self.pairs.push((id, rec));
        proof {
            assert(self.pairs@.drop_last() =~= old(self).pairs@);
            assert(forall|j: int|
                0 <= j < old(self).pairs@.len() ==> old(self).pairs@[j].0@ != id@);
        }
    }

    /// Takes the record (and its stored key) out of the table.
    pub fn remove_entry(&mut self, id: &Vec<u8>) -> (r: (Vec<u8>, R))
        requires
            old(self).wf(),
            old(self)@.contains_key(id@),
        ensures
            final(self).wf(),
            final(self)@ == old(self)@.remove(id@),
            r.0@ == id@,
            r.1 == old(self)@[id@],
    {
        proof {
            lemma_as_map_dom(self.pairs@, id@);
        }
        let i = match self.find_index(id) {
            Some(i) => i,
            None => unreached(),
        };
        proof {
            lemma_as_map_index(self.pairs@, i as int);
            lemma_as_map_remove(self.pairs@, i as int);
        }
        let pair = self.pairs.remove(i);
        proof {
            assert(distinct_keys(self.pairs@)) by {
                assert(forall|a: int, b: int|
                    0 <= a < b < self.pairs@.len() ==> self.pairs@[a].0@ != self.pairs@[b].0@) by {
                    assert(forall|a: int|
                        0 <= a < self.pairs@.len() ==> self.pairs@[a] == (if a < i {
                            old(self).pairs@[a]
                        } else {
                            old(self).pairs@[a + 1]
                        }));
                }
            }
        }
        pair
    }
}

/// Removing a key and inserting it again is one insertion.
pub proof fn lemma_remove_insert<R>(m: Map<Seq<u8>, R>, k: Seq<u8>, r: R)
    ensures
        m.remove(k).insert(k, r) == m.insert(k, r),
{
    assert(m.remove(k).insert(k, r) =~= m.insert(k, r));
}

} // verus!
