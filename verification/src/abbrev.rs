use vstd::prelude::*;
use crate::assoc::{assoc_map, lemma_assoc_contains, lemma_assoc_update, lemma_assoc_value,
    unique_keys};
use crate::strutil::str_eq;

verus! {

/// A glossary of abbreviation expansions: each short-form key maps to one
/// long-form value, and keys are unique.
pub struct AbbrMap {
    entries: Vec<(String, String)>,
}

impl AbbrMap {
    /// The entries in insertion order.
    pub closed spec fn seq_view(&self) -> Seq<(Seq<char>, Seq<char>)> {
        self.entries@.map_values(|e: (String, String)| (e.0@, e.1@))
    }

    /// Keys are unique: established by the constructor and preserved by
    /// every method.
    pub open spec fn wf(&self) -> bool {
        unique_keys(self.seq_view())
    }
}

impl View for AbbrMap {
    type V = Map<Seq<char>, Seq<char>>;

    open spec fn view(&self) -> Map<Seq<char>, Seq<char>> {
        assoc_map(self.seq_view())
    }
}

impl AbbrMap {
    pub fn new() -> (r: AbbrMap)
        ensures
            r@ == Map::<Seq<char>, Seq<char>>::empty(),
            r.seq_view() == Seq::<(Seq<char>, Seq<char>)>::empty(),
            r.wf(),
    {
        let r = AbbrMap { entries: Vec::new() };
        proof {
            assert(r.seq_view() =~= Seq::<(Seq<char>, Seq<char>)>::empty());
        }
        r
    }

    /// The index of the entry that holds this key, if one does.
    fn find(&self, key: &str) -> (r: Option<usize>)
        ensures
            match r {
                Some(i) => i < self.seq_view().len() && self.seq_view()[i as int].0 == key@,
                None => forall|i: int|
                    0 <= i < self.seq_view().len() ==> self.seq_view()[i].0 != key@,
            },
    {
        let len = self.entries.len();
        let mut i: usize = 0;
        while i < len
            invariant
                len == self.entries@.len(),
                len == self.seq_view().len(),
                i <= len,
                forall|j: int| 0 <= j < i ==> self.seq_view()[j].0 != key@,
            decreases len - i,
        {
            if str_eq(self.entries[i].0.as_str(), key) {
                proof {
                    assert(self.seq_view()[i as int].0 == key@);
                }
                return Some(i);
            }
            proof {
                assert(self.seq_view()[i as int].0 == self.entries@[i as int].0@);
            }
            i += 1;
        }
        None
    }

    pub fn len(&self) -> (r: usize)
        ensures
            r == self.seq_view().len(),
    {
        self.entries.len()
    }

    pub fn key_at(&self, i: usize) -> (r: &String)
        requires
            self.wf(),
            i < self.seq_view().len(),
        ensures
            r@ == self.seq_view()[i as int].0,
            self@.contains_key(r@),
            self@[r@] == self.seq_view()[i as int].1,
    {
        proof {
            lemma_assoc_value(self.seq_view(), i as int);
        }
        &self.entries[i].0
    }

    pub fn value_at(&self, i: usize) -> (r: &String)
        requires
            i < self.seq_view().len(),
        ensures
            r@ == self.seq_view()[i as int].1,
    {
        &self.entries[i].1
    }

    pub fn get(&self, key: &str) -> (r: Option<&String>)
        requires
            self.wf(),
        ensures
            match r {
                Some(v) => self@.contains_key(key@) && v@ == self@[key@],
                None => !self@.contains_key(key@),
            },
    {
        proof {
            lemma_assoc_contains(self.seq_view(), key@);
        }
        match self.find(key) {
            Some(i) => {
                proof {
                    lemma_assoc_value(self.seq_view(), i as int);
                }
                Some(&self.entries[i].1)
            },
            None => None,
        }
    }

    /// Record an expansion, overwriting any earlier value under this key.
    pub fn insert(&mut self, key: String, value: String)
        requires
            old(self).wf(),
        ensures
            final(self).wf(),
            final(self)@ == old(self)@.insert(key@, value@),
    {
        match self.find(key.as_str()) {
            Some(i) => {
                proof {
                    lemma_assoc_update(self.seq_view(), i as int, value@);
                }
                self.entries[i] = (key, value);
                proof {
                    assert(self.seq_view() =~=
                        old(self).seq_view().update(i as int, (key@, value@)));
                    assert((old(self).seq_view()[i as int].0, value@) == (key@, value@));
                    assert forall|p: int, q: int|
                        0 <= p < q < self.seq_view().len() implies
                        self.seq_view()[p].0 != self.seq_view()[q].0 by {
                        assert(old(self).seq_view()[p].0 == self.seq_view()[p].0);
                        assert(old(self).seq_view()[q].0 == self.seq_view()[q].0);
                    }
                }
            },
            None => {
                self.entries.push((key, value));
                proof {
                    assert(self.seq_view() =~= old(self).seq_view().push((key@, value@)));
                    assert(self.seq_view().drop_last() =~= old(self).seq_view());
                    assert forall|p: int, q: int|
                        0 <= p < q < self.seq_view().len() implies
                        self.seq_view()[p].0 != self.seq_view()[q].0 by {
                        if q < self.seq_view().len() - 1 {
                            assert(old(self).seq_view()[p].0 != old(self).seq_view()[q].0);
                        } else {
                            assert(self.seq_view()[p].0 == old(self).seq_view()[p].0);
                            assert(self.seq_view()[q].0 == key@);
                        }
                    }
                }
            },
        }
    }

    /// Record an expansion under the aggregator's merge policy: a value
    /// under an already-known key is concatenated onto the existing one
    /// rather than overwriting it.
    pub fn append_or_insert(&mut self, key: String, value: String)
        requires
            old(self).wf(),
        ensures
            final(self).wf(),
            final(self)@ == old(self)@.insert(
                key@,
                if old(self)@.contains_key(key@) { old(self)@[key@] + value@ } else { value@ },
            ),
    {
        proof {
            lemma_assoc_contains(self.seq_view(), key@);
        }
        match self.find(key.as_str()) {
            Some(i) => {
                proof {
                    lemma_assoc_value(self.seq_view(), i as int);
                }
                let joined = self.entries[i].1.clone().concat(value.as_str());
                proof {
                    lemma_assoc_update(self.seq_view(), i as int, joined@);
                }
                self.entries[i] = (key, joined);
                proof {
                    assert(self.seq_view() =~=
                        old(self).seq_view().update(i as int, (key@, joined@)));
                    assert((old(self).seq_view()[i as int].0, joined@) == (key@, joined@));
                    assert forall|p: int, q: int|
                        0 <= p < q < self.seq_view().len() implies
                        self.seq_view()[p].0 != self.seq_view()[q].0 by {
                        assert(old(self).seq_view()[p].0 == self.seq_view()[p].0);
                        assert(old(self).seq_view()[q].0 == self.seq_view()[q].0);
                    }
                }
            },
            None => {
                self.entries.push((key, value));
                proof {
                    assert(self.seq_view() =~= old(self).seq_view().push((key@, value@)));
                    assert(self.seq_view().drop_last() =~= old(self).seq_view());
                    assert forall|p: int, q: int|
                        0 <= p < q < self.seq_view().len() implies
                        self.seq_view()[p].0 != self.seq_view()[q].0 by {
                        if q < self.seq_view().len() - 1 {
                            assert(old(self).seq_view()[p].0 != old(self).seq_view()[q].0);
                        } else {
                            assert(self.seq_view()[p].0 == old(self).seq_view()[p].0);
                            assert(self.seq_view()[q].0 == key@);
                        }
                    }
                }
            },
        }
    }
}

} // verus!
