use vstd::prelude::*;
use crate::abbrev::AbbrMap;
use crate::classify::{classify, spec_retained};
use crate::names::NameList;
use crate::pairing::{spec_pair_run, spec_pair_step, PairState};
use crate::split::{sentences_of, split_sentences};
use crate::strutil::str_eq;

verus! {

/// One text-bearing unit of a document, fully materialized from decoded
/// input.  Only the metadata the engine consumes is held; a key missing
/// from the source's metadata map is `None` here.
pub struct Passage {
    pub offset: u32,
    pub section_type: Option<String>,
    pub par_type: Option<String>,
    pub year: Option<String>,
    pub pmid: Option<String>,
    pub text: String,
}

#[verifier::ext_equal]
pub ghost struct PassageView {
    pub offset: u32,
    pub section_type: Option<Seq<char>>,
    pub par_type: Option<Seq<char>>,
    pub year: Option<Seq<char>>,
    pub pmid: Option<Seq<char>>,
    pub text: Seq<char>,
}

impl View for Passage {
    type V = PassageView;

    open spec fn view(&self) -> PassageView {
        PassageView {
            offset: self.offset,
            section_type: self.section_type.deep_view(),
            par_type: self.par_type.deep_view(),
            year: self.year.deep_view(),
            pmid: self.pmid.deep_view(),
            text: self.text@,
        }
    }
}

/// An ordered sequence of passages under one declared identifier.
pub struct Document {
    pub id: String,
    pub passages: Vec<Passage>,
}

/// A classified output paragraph: the originating passage's section type
/// plus the emitted text.
pub struct OutputParagraph {
    pub par_type: String,
    pub text: String,
}

#[verifier::ext_equal]
pub ghost struct ParagraphView {
    pub par_type: Seq<char>,
    pub text: Seq<char>,
}

impl View for OutputParagraph {
    type V = ParagraphView;

    open spec fn view(&self) -> ParagraphView {
        ParagraphView { par_type: self.par_type@, text: self.text@ }
    }
}

/// The per-document result: the ordered output paragraphs, the
/// document-local abbreviation glossary, and the recovered metadata,
/// each metadata field keeping the sentinel "UNK" when absent.
pub struct OutputArticle {
    pub paragraphs: Vec<OutputParagraph>,
    pub abbreviations: AbbrMap,
    pub year: String,
    pub pmid: String,
    pub title: String,
}

#[verifier::ext_equal]
pub ghost struct ArticleView {
    pub paragraphs: Seq<ParagraphView>,
    pub abbreviations: Map<Seq<char>, Seq<char>>,
    pub year: Seq<char>,
    pub pmid: Seq<char>,
    pub title: Seq<char>,
}

impl View for OutputArticle {
    type V = ArticleView;

    open spec fn view(&self) -> ArticleView {
        ArticleView {
            paragraphs: self.paragraphs@.map_values(|q: OutputParagraph| q@),
            abbreviations: self.abbreviations@,
            year: self.year@,
            pmid: self.pmid@,
            title: self.title@,
        }
    }
}

impl OutputArticle {
    pub open spec fn wf(&self) -> bool {
        self.abbreviations.wf()
    }
}

/// Explicit configuration for one extraction run: the caller's allow-list
/// (empty means the default policy) and whether passage texts are split
/// into one output paragraph per sentence.
pub struct ExtractConfig {
    pub allowed: NameList,
    pub split_sentences: bool,
}

/// The extractor's whole state after some prefix of the passage sequence.
#[verifier::ext_equal]
pub ghost struct ExtractState {
    pub paragraphs: Seq<ParagraphView>,
    pub glossary: Map<Seq<char>, Seq<char>>,
    pub pending: Option<Seq<char>>,
    pub front_seen: bool,
    pub year: Seq<char>,
    pub pmid: Seq<char>,
    pub title: Seq<char>,
}

pub open spec fn initial_state() -> ExtractState {
    ExtractState {
        paragraphs: Seq::<ParagraphView>::empty(),
        glossary: Map::<Seq<char>, Seq<char>>::empty(),
        pending: None,
        front_seen: false,
        year: "UNK"@,
        pmid: "UNK"@,
        title: "UNK"@,
    }
}

/// The paragraphs owed for one retained paragraph or abstract passage:
/// the passage itself, or one paragraph per segmented sentence.
pub open spec fn emitted_paragraphs(
    section_type: Seq<char>,
    text: Seq<char>,
    split: bool,
) -> Seq<ParagraphView> {
    if split {
        sentences_of(text).map_values(|t: Seq<char>| ParagraphView { par_type: section_type, text: t })
    } else {
        seq![ParagraphView { par_type: section_type, text }]
    }
}

/// Front-matter metadata recovery: the first passage with structural type
/// "front" at offset zero supplies year and identifier where present, and
/// its text becomes the title.
pub open spec fn front_update(s: ExtractState, p: PassageView) -> ExtractState {
    if !s.front_seen && p.par_type == Some("front"@) && p.offset == 0 {
        ExtractState {
            front_seen: true,
            year: match p.year {
                Some(y) => y,
                None => s.year,
            },
            pmid: match p.pmid {
                Some(m) => m,
                None => s.pmid,
            },
            title: p.text,
            ..s
        }
    } else {
        s
    }
}

/// One extractor step on one passage.
///
/// A passage without a section type changes nothing here (it is counted
/// as a data-quality warning instead).  Otherwise front matter is checked
/// first; an "ABBR" passage then feeds the pairing machine when its
/// structural type is "paragraph" and is never emitted as a paragraph;
/// any other retained passage of structural type "paragraph" or
/// "abstract" appends its output paragraphs.
pub open spec fn extract_step(
    s: ExtractState,
    p: PassageView,
    allowed: Set<Seq<char>>,
    split: bool,
) -> ExtractState {
    match p.section_type {
        None => s,
        Some(st) => {
            let s1 = front_update(s, p);
            if st == "ABBR"@ {
                if p.par_type == Some("paragraph"@) {
                    let stepped = spec_pair_step(s1.pending, s1.glossary, p.text);
                    ExtractState { pending: stepped.0, glossary: stepped.1, ..s1 }
                } else {
                    s1
                }
            } else if spec_retained(st, allowed)
                && (p.par_type == Some("paragraph"@) || p.par_type == Some("abstract"@)) {
                ExtractState { paragraphs: s1.paragraphs + emitted_paragraphs(st, p.text, split), ..s1 }
            } else {
                s1
            }
        },
    }
}

/// The extractor run over a passage sequence, in order.
pub open spec fn run_extract(
    ps: Seq<PassageView>,
    allowed: Set<Seq<char>>,
    split: bool,
) -> ExtractState
    decreases ps.len(),
{
    if ps.len() == 0 {
        initial_state()
    } else {
        extract_step(run_extract(ps.drop_last(), allowed, split), ps.last(), allowed, split)
    }
}

/// The article owed for this passage sequence: the final state's output,
/// with any short form still pending at document end discarded.
pub open spec fn extract_spec(
    ps: Seq<PassageView>,
    allowed: Set<Seq<char>>,
    split: bool,
) -> ArticleView {
    let s = run_extract(ps, allowed, split);
    ArticleView {
        paragraphs: s.paragraphs,
        abbreviations: s.glossary,
        year: s.year,
        pmid: s.pmid,
        title: s.title,
    }
}

/// The indices of the passages that carry no section type at all: each is
/// excluded from output and owes exactly one data-quality warning.
pub open spec fn missing_section_indices(ps: Seq<PassageView>) -> Seq<int>
    decreases ps.len(),
{
    if ps.len() == 0 {
        Seq::<int>::empty()
    } else {
        let prev = missing_section_indices(ps.drop_last());
        if ps.last().section_type is None {
            prev.push(ps.len() - 1)
        } else {
            prev
        }
    }
}

pub open spec fn passage_views(ps: Seq<Passage>) -> Seq<PassageView> {
    ps.map_values(|p: Passage| p@)
}

/// Append one output paragraph per segmented sentence of the text, each
/// tagged with the passage's section type, in sentence order.
fn push_sentences(out: &mut Vec<OutputParagraph>, section_type: &String, text: &String)
    ensures
        final(out)@.map_values(|q: OutputParagraph| q@)
            == old(out)@.map_values(|q: OutputParagraph| q@)
                + emitted_paragraphs(section_type@, text@, true),
{
    let ghost base = out@.map_values(|q: OutputParagraph| q@);
    let sentences = split_sentences(text.as_str());
    let n = sentences.len();
    let mut k: usize = 0;
    while k < n
        invariant
            n == sentences@.len(),
            k <= n,
            sentences.deep_view() == sentences_of(text@),
            out@.map_values(|q: OutputParagraph| q@)
                == base + sentences_of(text@).take(k as int).map_values(
                    |t: Seq<char>| ParagraphView { par_type: section_type@, text: t },
                ),
        decreases n - k,
    {
        let ghost out0 = out@;
        let sent = sentences[k].clone();
        out.push(OutputParagraph { par_type: section_type.clone(), text: sent });
        proof {
            let f = |t: Seq<char>| ParagraphView { par_type: section_type@, text: t };
            let g = |q: OutputParagraph| q@;
            let all = sentences_of(text@);
            assert(sentences.deep_view()[k as int] == sentences@[k as int]@);
            assert(all[k as int] == sent@);
            assert(out@.map_values(g) =~= out0.map_values(g).push(f(all[k as int])));
            assert(all.take(k + 1) =~= all.take(k as int).push(all[k as int]));
            assert(all.take(k + 1).map_values(f)
                =~= all.take(k as int).map_values(f).push(f(all[k as int])));
            assert(base + all.take(k + 1).map_values(f)
                =~= (base + all.take(k as int).map_values(f)).push(f(all[k as int])));
        }
        k += 1;
    }
    proof {
        assert(sentences_of(text@).take(n as int) =~= sentences_of(text@));
    }
}

/// A passage tagged "ABBR" never becomes an output paragraph, whatever
/// its structural type: it belongs to the pairing machine alone.
pub proof fn lemma_abbr_never_emits(
    s: ExtractState,
    p: PassageView,
    allowed: Set<Seq<char>>,
    split: bool,
)
    requires
        p.section_type == Some("ABBR"@),
    ensures
        extract_step(s, p, allowed, split).paragraphs == s.paragraphs,
{
}

/// The texts of the ABBR/paragraph passages of a sequence, in document
/// order: exactly what the pairing machine consumes.
pub open spec fn abbr_texts(ps: Seq<PassageView>) -> Seq<Seq<char>>
    decreases ps.len(),
{
    if ps.len() == 0 {
        Seq::<Seq<char>>::empty()
    } else {
        let prev = abbr_texts(ps.drop_last());
        let p = ps.last();
        if p.section_type == Some("ABBR"@) && p.par_type == Some("paragraph"@) {
            prev.push(p.text)
        } else {
            prev
        }
    }
}

/// The extractor drives the pairing machine exactly as the machine runs
/// by itself over the document's ABBR/paragraph texts: the run's pending
/// state and glossary are those of that machine run, whatever the
/// allow-list and the splitting mode.
pub proof fn lemma_extractor_runs_machine(
    ps: Seq<PassageView>,
    allowed: Set<Seq<char>>,
    split: bool,
)
    ensures
        (run_extract(ps, allowed, split).pending, run_extract(ps, allowed, split).glossary)
            == spec_pair_run(abbr_texts(ps)),
    decreases ps.len(),
{
    if ps.len() > 0 {
        lemma_extractor_runs_machine(ps.drop_last(), allowed, split);
        let p = ps.last();
        let prev = abbr_texts(ps.drop_last());
        if p.section_type == Some("ABBR"@) && p.par_type == Some("paragraph"@) {
            assert(abbr_texts(ps) == prev.push(p.text));
            assert(prev.push(p.text).drop_last() =~= prev);
            assert(prev.push(p.text).last() == p.text);
            assert(spec_pair_run(abbr_texts(ps))
                == spec_pair_step(spec_pair_run(prev).0, spec_pair_run(prev).1, p.text));
        } else {
            assert(abbr_texts(ps) == prev);
        }
    }
}

/// The extractor's working state, advanced one passage at a time in
/// document order.
pub struct Extractor {
    paragraphs: Vec<OutputParagraph>,
    glossary: AbbrMap,
    pair: PairState,
    front_seen: bool,
    year: String,
    pmid: String,
    title: String,
}

impl View for Extractor {
    type V = ExtractState;

    closed spec fn view(&self) -> ExtractState {
        ExtractState {
            paragraphs: self.paragraphs@.map_values(|q: OutputParagraph| q@),
            glossary: self.glossary@,
            pending: self.pair@,
            front_seen: self.front_seen,
            year: self.year@,
            pmid: self.pmid@,
            title: self.title@,
        }
    }
}

impl Extractor {
    pub closed spec fn wf(&self) -> bool {
        self.glossary.wf()
    }

    pub fn new() -> (r: Extractor)
        ensures
            r@ == initial_state(),
            r.wf(),
    {
        let r = Extractor {
            paragraphs: Vec::new(),
            glossary: AbbrMap::new(),
            pair: PairState::new(),
            front_seen: false,
            year: String::from_str("UNK"),
            pmid: String::from_str("UNK"),
            title: String::from_str("UNK"),
        };
        proof {
            assert(r@ =~= initial_state());
        }
        r
    }

    /// Advance the state over one passage.  The result says whether the
    /// passage lacked a section type, which owes the caller exactly one
    /// data-quality warning.
    pub fn feed(&mut self, p: &Passage, config: &ExtractConfig) -> (missing: bool)
        requires
            old(self).wf(),
        ensures
            final(self).wf(),
            final(self)@ == extract_step(
                old(self)@,
                p@,
                config.allowed@,
                config.split_sentences,
            ),
            missing == (p@.section_type is None),
    {
        let st = match &p.section_type {
            None => {
                return true;
            },
            Some(st) => st,
        };
        let is_front = match &p.par_type {
            Some(pt) => str_eq(pt.as_str(), "front"),
            None => false,
        };
        if !self.front_seen && is_front && p.offset == 0 {
            self.front_seen = true;
            if let Some(y) = &p.year {
                self.year = y.clone();
            }
            if let Some(m) = &p.pmid {
                self.pmid = m.clone();
            }
            self.title = p.text.clone();
        }
        let ghost s1 = front_update(old(self)@, p@);
        proof {
            assert(self@ =~= s1);
        }
        if str_eq(st.as_str(), "ABBR") {
            let is_paragraph = match &p.par_type {
                Some(pt) => str_eq(pt.as_str(), "paragraph"),
                None => false,
            };
            if is_paragraph {
                self.pair.step(p.text.clone(), &mut self.glossary);
                proof {
                    let stepped = spec_pair_step(s1.pending, s1.glossary, p@.text);
                    assert(self@ =~= (ExtractState {
                        pending: stepped.0,
                        glossary: stepped.1,
                        ..s1
                    }));
                }
            }
            proof {
                assert(self@ =~= extract_step(
                    old(self)@,
                    p@,
                    config.allowed@,
                    config.split_sentences,
                ));
            }
            return false;
        }
        let retained = classify(st.as_str(), &config.allowed);
        let is_par_or_abstract = match &p.par_type {
            Some(pt) => str_eq(pt.as_str(), "paragraph") || str_eq(pt.as_str(), "abstract"),
            None => false,
        };
        if retained && is_par_or_abstract {
            if config.split_sentences {
                push_sentences(&mut self.paragraphs, st, &p.text);
            } else {
                let ghost paras0 = self.paragraphs@.map_values(|q: OutputParagraph| q@);
                self.paragraphs.push(OutputParagraph {
                    par_type: st.clone(),
                    text: p.text.clone(),
                });
                proof {
                    let q = ParagraphView { par_type: st@, text: p@.text };
                    assert(self.paragraphs@.map_values(|q: OutputParagraph| q@)
                        =~= paras0.push(q));
                    assert(paras0.push(q) =~= paras0 + seq![q]);
                }
            }
            proof {
                assert(self@.paragraphs
                    =~= s1.paragraphs + emitted_paragraphs(st@, p@.text, config.split_sentences));
                assert(self@ =~= (ExtractState {
                    paragraphs: s1.paragraphs
                        + emitted_paragraphs(st@, p@.text, config.split_sentences),
                    ..s1
                }));
            }
        }
        proof {
            assert(self@ =~= extract_step(
                old(self)@,
                p@,
                config.allowed@,
                config.split_sentences,
            ));
        }
        false
    }

    /// Close the pass: any short form still pending is discarded, and the
    /// accumulated output becomes the article.
    pub fn finish(self) -> (r: OutputArticle)
        requires
            self.wf(),
        ensures
            r.wf(),
            r@ == (ArticleView {
                paragraphs: self@.paragraphs,
                abbreviations: self@.glossary,
                year: self@.year,
                pmid: self@.pmid,
                title: self@.title,
            }),
    {
        OutputArticle {
            paragraphs: self.paragraphs,
            abbreviations: self.glossary,
            year: self.year,
            pmid: self.pmid,
            title: self.title,
        }
    }
}

/// The outcome of one document's extraction: the article, and the indices
/// of the passages that lacked a section type (one warning each).
pub struct Extraction {
    pub article: OutputArticle,
    pub missing_section: Vec<usize>,
}

/// Walk one document's passage sequence once and build its article.
pub fn extract_article(doc: &Document, config: &ExtractConfig) -> (r: Extraction)
    ensures
        r.article.wf(),
        r.article@ == extract_spec(
            passage_views(doc.passages@),
            config.allowed@,
            config.split_sentences,
        ),
        r.missing_section@.map_values(|x: usize| x as int)
            == missing_section_indices(passage_views(doc.passages@)),
{
    let ghost views = passage_views(doc.passages@);
    let mut ex = Extractor::new();
    let mut missing: Vec<usize> = Vec::new();
    let n = doc.passages.len();
    let mut i: usize = 0;
    proof {
        assert(views.take(0) =~= Seq::<PassageView>::empty());
        assert(missing@.map_values(|x: usize| x as int) =~= Seq::<int>::empty());
    }
    while i < n
        invariant
            n == doc.passages@.len(),
            views == passage_views(doc.passages@),
            views.len() == n,
            i <= n,
            ex.wf(),
            ex@ == run_extract(views.take(i as int), config.allowed@, config.split_sentences),
            missing@.map_values(|x: usize| x as int)
                == missing_section_indices(views.take(i as int)),
        decreases n - i,
    {
        let ghost missing0 = missing@.map_values(|x: usize| x as int);
        let m = ex.feed(&doc.passages[i], config);
        if m {
            missing.push(i);
        }
        proof {
            assert(views[i as int] == doc.passages@[i as int]@);
            assert(views.take(i + 1).drop_last() =~= views.take(i as int));
            assert(views.take(i + 1).last() == views[i as int]);
            if m {
                assert(missing@.map_values(|x: usize| x as int)
                    =~= missing0.push(i as int));
            }
        }
        i += 1;
    }
    proof {
        assert(views.take(n as int) =~= views);
    }
    Extraction { article: ex.finish(), missing_section: missing }
}

/// A passage without a section type leaves the extractor's state exactly
/// as it was: it reaches neither the pairing machine nor the output.
pub proof fn lemma_missing_section_type_excluded(
    s: ExtractState,
    p: PassageView,
    allowed: Set<Seq<char>>,
    split: bool,
)
    requires
        p.section_type is None,
    ensures
        extract_step(s, p, allowed, split) == s,
{
}

/// An "ABBR" passage of structural type "paragraph" always advances the
/// pairing machine, whatever the allow-list holds: delivery to the
/// machine never consults the classifier's decision.
pub proof fn lemma_abbr_reaches_machine(
    s: ExtractState,
    p: PassageView,
    allowed: Set<Seq<char>>,
    split: bool,
)
    requires
        p.section_type == Some("ABBR"@),
        p.par_type == Some("paragraph"@),
    ensures
        ({
            let s1 = front_update(s, p);
            let stepped = spec_pair_step(s1.pending, s1.glossary, p.text);
            extract_step(s, p, allowed, split)
                == (ExtractState { pending: stepped.0, glossary: stepped.1, ..s1 })
        }),
{
}

} // verus!
