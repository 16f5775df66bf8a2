use vstd::prelude::*;
use crate::strutil::str_eq;

verus! {

/// A small collection of section or tag names, viewed as a set of
/// character sequences.  It serves both as the classifier's allow-list
/// and as the event reader's exclusion list.
pub struct NameList {
    items: Vec<String>,
}

impl View for NameList {
    type V = Set<Seq<char>>;

    closed spec fn view(&self) -> Set<Seq<char>> {
        Set::new(|s: Seq<char>| exists|i: int| 0 <= i < self.items@.len() && self.items@[i]@ == s)
    }
}

impl NameList {
    pub fn new() -> (r: NameList)
        ensures
            r@ == Set::<Seq<char>>::empty(),
    {
        let r = NameList { items: Vec::new() };
        proof {
            assert(r@ =~= Set::<Seq<char>>::empty());
        }
        r
    }

    pub fn push(&mut self, name: String)
        ensures
            final(self)@ == old(self)@.insert(name@),
    {
        self.items.push(name);
        proof {
            assert forall|s: Seq<char>|
                self@.contains(s) <==> old(self)@.insert(name@).contains(s) by {
                let n = old(self).items@.len() as int;
                if self@.contains(s) {
                    let i = choose|i: int|
                        0 <= i < self.items@.len() && self.items@[i]@ == s;
                    if i < n {
                        assert(old(self).items@[i]@ == s);
                    }
                } else {
                    if old(self)@.contains(s) {
                        let i = choose|i: int|
                            0 <= i < old(self).items@.len() && old(self).items@[i]@ == s;
                        assert(self.items@[i]@ == s);
                    }
                    if s == name@ {
                        assert(self.items@[n]@ == s);
                    }
                }
            }
            assert(self@ =~= old(self)@.insert(name@));
        }
    }

    pub fn is_empty(&self) -> (r: bool)
        ensures
            r == (self@ == Set::<Seq<char>>::empty()),
    {
        let r = self.items.len() == 0;
        proof {
            if self.items@.len() == 0 {
                assert(self@ =~= Set::<Seq<char>>::empty());
            } else {
                assert(self@.contains(self.items@[0]@));
            }
        }
        r
    }

    pub fn contains(&self, name: &str) -> (r: bool)
        ensures
            r == self@.contains(name@),
    {
        let len = self.items.len();
        let mut i: usize = 0;
        while i < len
            invariant
                len == self.items@.len(),
                i <= len,
                forall|j: int| 0 <= j < i ==> self.items@[j]@ != name@,
            decreases len - i,
        {
            if str_eq(self.items[i].as_str(), name) {
                proof {
                    assert(self.items@[i as int]@ == name@);
                }
                return true;
            }
            i += 1;
        }
        false
    }
}

} // verus!
