use vstd::prelude::*;
use crate::abbrev::AbbrMap;
use crate::assoc::{assoc_map, lemma_assoc_contains, lemma_assoc_update, lemma_assoc_value,
    unique_keys};
use crate::extract::{ArticleView, OutputArticle};
use crate::strutil::str_eq;

verus! {

/// The aggregator's merge policy for glossaries: every key of `add` is
/// present afterwards; on a colliding key the incoming value is
/// concatenated onto the existing one rather than overwriting it; keys
/// absent from `add` are untouched.
pub open spec fn merge_concat(
    table: Map<Seq<char>, Seq<char>>,
    add: Map<Seq<char>, Seq<char>>,
) -> Map<Seq<char>, Seq<char>> {
    Map::new(
        |k: Seq<char>| table.contains_key(k) || add.contains_key(k),
        |k: Seq<char>|
            if add.contains_key(k) {
                if table.contains_key(k) {
                    table[k] + add[k]
                } else {
                    add[k]
                }
            } else {
                table[k]
            },
    )
}

/// Folding one more binding (whose key `add` does not hold yet) into the
/// merge is one append-or-insert step on the merged table.
proof fn lemma_merge_concat_step(
    table: Map<Seq<char>, Seq<char>>,
    add: Map<Seq<char>, Seq<char>>,
    k: Seq<char>,
    v: Seq<char>,
)
    requires
        !add.contains_key(k),
    ensures
        merge_concat(table, add.insert(k, v)) == ({
            let cur = merge_concat(table, add);
            cur.insert(k, if cur.contains_key(k) { cur[k] + v } else { v })
        }),
{
    let cur = merge_concat(table, add);
    let lhs = merge_concat(table, add.insert(k, v));
    let rhs = cur.insert(k, if cur.contains_key(k) { cur[k] + v } else { v });
    assert(lhs =~= rhs);
}

/// Merge one document's glossary into the shared abbreviation table.
pub fn add_abbreviations(table: &mut AbbrMap, article: OutputArticle)
    requires
        old(table).wf(),
        article.wf(),
    ensures
        final(table).wf(),
        final(table)@ == merge_concat(old(table)@, article@.abbreviations),
{
    let src = article.abbreviations;
    let ghost s = src.seq_view();
    let n = src.len();
    let mut i: usize = 0;
    proof {
        assert(s.take(0) =~= Seq::<(Seq<char>, Seq<char>)>::empty());
        assert(table@ =~= merge_concat(old(table)@, assoc_map(s.take(0))));
    }
    while i < n
        invariant
            n == s.len(),
            i <= n,
            unique_keys(s),
            s == src.seq_view(),
            table.wf(),
            table@ == merge_concat(old(table)@, assoc_map(s.take(i as int))),
        decreases n - i,
    {
        let key = src.key_at(i).clone();
        let value = src.value_at(i).clone();
        proof {
            assert(s.take(i + 1).drop_last() =~= s.take(i as int));
            assert(s.take(i + 1).last() == s[i as int]);
            assert forall|j: int| 0 <= j < i implies s.take(i as int)[j].0 != key@ by {
                assert(s[j].0 != s[i as int].0);
            }
            lemma_assoc_contains(s.take(i as int), key@);
            lemma_merge_concat_step(old(table)@, assoc_map(s.take(i as int)), key@, value@);
        }
        table.append_or_insert(key, value);
        i += 1;
    }
    proof {
        assert(s.take(n as int) =~= s);
    }
}

/// The final aggregated result: a mapping from recovered document
/// identifier to that document's article.  Keys are unique; on an
/// identifier collision the later insert wins.
pub struct OutputChunk {
    entries: Vec<(String, OutputArticle)>,
}

impl OutputChunk {
    /// The articles in insertion order, each under its key.
    pub closed spec fn seq_view(&self) -> Seq<(Seq<char>, ArticleView)> {
        self.entries@.map_values(|e: (String, OutputArticle)| (e.0@, e.1@))
    }

    /// Keys are unique: established by the constructor and preserved by
    /// every method.
    pub open spec fn wf(&self) -> bool {
        unique_keys(self.seq_view())
    }
}

impl View for OutputChunk {
    type V = Map<Seq<char>, ArticleView>;

    open spec fn view(&self) -> Map<Seq<char>, ArticleView> {
        assoc_map(self.seq_view())
    }
}

impl OutputChunk {
    pub fn new() -> (r: OutputChunk)
        ensures
            r@ == Map::<Seq<char>, ArticleView>::empty(),
            r.seq_view() == Seq::<(Seq<char>, ArticleView)>::empty(),
            r.wf(),
    {
        let r = OutputChunk { entries: Vec::new() };
        proof {
            assert(r.seq_view() =~= Seq::<(Seq<char>, ArticleView)>::empty());
        }
        r
    }

    fn find(&self, key: &str) -> (r: Option<usize>)
        ensures
            match r {
                Some(i) => i < self.seq_view().len() && self.seq_view()[i as int].0 == key@,
                None => forall|i: int|
                    0 <= i < self.seq_view().len() ==> self.seq_view()[i].0 != key@,
            },
    {
        let len = self.entries.len();
        let mut i: usize = 0;
        while i < len
            invariant
                len == self.entries@.len(),
                len == self.seq_view().len(),
                i <= len,
                forall|j: int| 0 <= j < i ==> self.seq_view()[j].0 != key@,
            decreases len - i,
        {
            if str_eq(self.entries[i].0.as_str(), key) {
                proof {
                    assert(self.seq_view()[i as int].0 == key@);
                }
                return Some(i);
            }
            proof {
                assert(self.seq_view()[i as int].0 == self.entries@[i as int].0@);
            }
            i += 1;
        }
        None
    }

    pub fn len(&self) -> (r: usize)
        ensures
            r == self.seq_view().len(),
    {
        self.entries.len()
    }

    pub fn key_at(&self, i: usize) -> (r: &String)
        requires
            i < self.seq_view().len(),
        ensures
            r@ == self.seq_view()[i as int].0,
    {
        &self.entries[i].0
    }

    pub fn article_at(&self, i: usize) -> (r: &OutputArticle)
        requires
            self.wf(),
            i < self.seq_view().len(),
        ensures
            r@ == self.seq_view()[i as int].1,
            self@.contains_key(self.seq_view()[i as int].0),
            self@[self.seq_view()[i as int].0] == r@,
    {
        proof {
            lemma_assoc_value(self.seq_view(), i as int);
        }
        &self.entries[i].1
    }

    pub fn get(&self, key: &str) -> (r: Option<&OutputArticle>)
        requires
            self.wf(),
        ensures
            match r {
                Some(a) => self@.contains_key(key@) && a@ == self@[key@],
                None => !self@.contains_key(key@),
            },
    {
        proof {
            lemma_assoc_contains(self.seq_view(), key@);
        }
        match self.find(key) {
            Some(i) => {
                proof {
                    lemma_assoc_value(self.seq_view(), i as int);
                }
                Some(&self.entries[i].1)
            },
            None => None,
        }
    }

    /// File an article under a key, overwriting any article already
    /// standing under it: the later writer wins an identifier collision.
    pub fn insert(&mut self, key: String, article: OutputArticle)
        requires
            old(self).wf(),
        ensures
            final(self).wf(),
            final(self)@ == old(self)@.insert(key@, article@),
    {
        match self.find(key.as_str()) {
            Some(i) => {
                proof {
                    lemma_assoc_update(self.seq_view(), i as int, article@);
                }
                self.entries[i] = (key, article);
                proof {
                    assert(self.seq_view() =~=
                        old(self).seq_view().update(i as int, (key@, article@)));
                    assert((old(self).seq_view()[i as int].0, article@) == (key@, article@));
                    assert forall|p: int, q: int|
                        0 <= p < q < self.seq_view().len() implies
                        self.seq_view()[p].0 != self.seq_view()[q].0 by {
                        assert(old(self).seq_view()[p].0 == self.seq_view()[p].0);
                        assert(old(self).seq_view()[q].0 == self.seq_view()[q].0);
                    }
                }
            },
            None => {
                self.entries.push((key, article));
                proof {
                    assert(self.seq_view() =~= old(self).seq_view().push((key@, article@)));
                    assert(self.seq_view().drop_last() =~= old(self).seq_view());
                    assert forall|p: int, q: int|
                        0 <= p < q < self.seq_view().len() implies
                        self.seq_view()[p].0 != self.seq_view()[q].0 by {
                        if q < self.seq_view().len() - 1 {
                            assert(old(self).seq_view()[p].0 != old(self).seq_view()[q].0);
                        } else {
                            assert(self.seq_view()[p].0 == old(self).seq_view()[p].0);
                            assert(self.seq_view()[q].0 == key@);
                        }
                    }
                }
            },
        }
    }
}

/// File one document's article into the shared collection under its
/// recovered identifier.
pub fn insert_article(chunk: &mut OutputChunk, article: OutputArticle)
    requires
        old(chunk).wf(),
    ensures
        final(chunk).wf(),
        final(chunk)@ == old(chunk)@.insert(article.pmid@, article@),
{
    let key = article.pmid.clone();
    chunk.insert(key, article);
}

/// The merge policy drops no value: when two glossaries both define a
/// short form, the table built by merging them in dispatch order holds,
/// under that key, the first long form with the second concatenated on.
pub proof fn lemma_merge_keeps_both(
    m1: Map<Seq<char>, Seq<char>>,
    m2: Map<Seq<char>, Seq<char>>,
    k: Seq<char>,
)
    requires
        m1.contains_key(k),
        m2.contains_key(k),
    ensures
        merge_concat(merge_concat(Map::<Seq<char>, Seq<char>>::empty(), m1), m2).contains_key(k),
        merge_concat(merge_concat(Map::<Seq<char>, Seq<char>>::empty(), m1), m2)[k]
            == m1[k] + m2[k],
        merge_concat(merge_concat(Map::<Seq<char>, Seq<char>>::empty(), m1), m2).dom()
            == m1.dom() + m2.dom(),
{
    assert(merge_concat(merge_concat(Map::<Seq<char>, Seq<char>>::empty(), m1), m2).dom()
        =~= m1.dom() + m2.dom());
}

/// Two documents that share a recovered identifier leave exactly one
/// entry under it: the later insert wins, and no other key is touched.
pub proof fn lemma_identifier_collision_last_wins(
    chunk: Map<Seq<char>, ArticleView>,
    k: Seq<char>,
    first: ArticleView,
    second: ArticleView,
)
    ensures
        chunk.insert(k, first).insert(k, second) == chunk.insert(k, second),
        chunk.insert(k, first).insert(k, second)[k] == second,
        chunk.insert(k, first).insert(k, second).dom() == chunk.dom().insert(k),
{
    assert(chunk.insert(k, first).insert(k, second) =~= chunk.insert(k, second));
}

} // verus!
