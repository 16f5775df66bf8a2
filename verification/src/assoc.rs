use vstd::prelude::*;

verus! {

/// The mapping that a sequence of key/value entries denotes: entries are
/// folded in order, so on a repeated key the later entry wins.
pub open spec fn assoc_map<V>(s: Seq<(Seq<char>, V)>) -> Map<Seq<char>, V>
    decreases s.len(),
{
    if s.len() == 0 {
        Map::<Seq<char>, V>::empty()
    } else {
        assoc_map(s.drop_last()).insert(s.last().0, s.last().1)
    }
}

/// No two entries share a key.
pub open spec fn unique_keys<V>(s: Seq<(Seq<char>, V)>) -> bool {
    forall|i: int, j: int| 0 <= i < j < s.len() ==> s[i].0 != s[j].0
}

pub proof fn lemma_unique_keys_drop_last<V>(s: Seq<(Seq<char>, V)>)
    requires
        unique_keys(s),
        s.len() > 0,
    ensures
        unique_keys(s.drop_last()),
{
    assert forall|i: int, j: int|
        0 <= i < j < s.drop_last().len() implies s.drop_last()[i].0 != s.drop_last()[j].0 by {
        assert(s[i].0 != s[j].0);
    }
}

/// A key stands in the denoted mapping exactly when some entry carries it.
pub proof fn lemma_assoc_contains<V>(s: Seq<(Seq<char>, V)>, k: Seq<char>)
    ensures
        assoc_map(s).contains_key(k) <==> (exists|i: int| 0 <= i < s.len() && s[i].0 == k),
    decreases s.len(),
{
    if s.len() > 0 {
        let s0 = s.drop_last();
        lemma_assoc_contains(s0, k);
        let n = s.len() - 1;
        if s[n].0 == k {
            assert(assoc_map(s).contains_key(k));
        } else if assoc_map(s).contains_key(k) {
            let i = choose|i: int| 0 <= i < s0.len() && s0[i].0 == k;
            assert(s[i].0 == k);
        } else {
            assert forall|i: int| 0 <= i < s.len() implies s[i].0 != k by {
                if i < n {
                    assert(s0[i].0 == s[i].0);
                }
            }
        }
    }
}

/// Under unique keys, each entry is found in the denoted mapping.
pub proof fn lemma_assoc_value<V>(s: Seq<(Seq<char>, V)>, i: int)
    requires
        unique_keys(s),
        0 <= i < s.len(),
    ensures
        assoc_map(s).contains_key(s[i].0),
        assoc_map(s)[s[i].0] == s[i].1,
    decreases s.len(),
{
    let n = s.len() - 1;
    if i < n {
        lemma_unique_keys_drop_last(s);
        lemma_assoc_value(s.drop_last(), i);
        assert(s.drop_last()[i] == s[i]);
        assert(s[i].0 != s[n].0);
    }
}

/// Replacing the value of the entry that holds a key denotes the same
/// mapping as inserting that key anew.
pub proof fn lemma_assoc_update<V>(s: Seq<(Seq<char>, V)>, i: int, v: V)
    requires
        unique_keys(s),
        0 <= i < s.len(),
    ensures
        assoc_map(s.update(i, (s[i].0, v))) == assoc_map(s).insert(s[i].0, v),
    decreases s.len(),
{
    let n = s.len() - 1;
    let t = s.update(i, (s[i].0, v));
    if i == n {
        assert(t.drop_last() =~= s.drop_last());
        assert(t.last() == (s[i].0, v));
        assert(assoc_map(t) =~= assoc_map(s).insert(s[i].0, v));
    } else {
        let s0 = s.drop_last();
        lemma_unique_keys_drop_last(s);
        assert(s0[i] == s[i]);
        lemma_assoc_update(s0, i, v);
        assert(t.drop_last() =~= s0.update(i, (s0[i].0, v)));
        assert(t.last() == s.last());
        assert(s[i].0 != s[n].0);
        assert(assoc_map(t) =~= assoc_map(s).insert(s[i].0, v));
    }
}

} // verus!
