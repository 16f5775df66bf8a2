use vstd::prelude::*;

verus! {

/// The sentences that the external segmenter recovers from a text, in
/// order.  The segmentation depends on the text alone.
pub uninterp spec fn sentences_of(text: Seq<char>) -> Seq<Seq<char>>;

/// Relies on cutters::cut with the English rule set: a pure segmentation
/// of the text into an ordered list of sentences.
#[verifier::external_body]
pub(crate) fn split_sentences(text: &str) -> (r: Vec<String>)
    ensures
        r.deep_view() == sentences_of(text@),
{
    cutters::cut(text, cutters::Language::English)
        .into_iter()
        .map(|s| s.str.to_string())
        .collect()
}

} // verus!
