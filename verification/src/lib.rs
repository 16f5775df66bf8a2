//! Structural extraction of classified paragraphs and abbreviation glossaries
//! from biomedical-literature documents.
//!
//! The library walks a document's passage sequence once, classifies each
//! passage by its section type against an allow-list, recovers alternating
//! (short form, long form) abbreviation pairs from "ABBR" sections with a
//! two-state machine, and merges per-document results into a single keyed
//! collection with a deterministic collision policy.  A depth-tracked reader
//! over a tag event stream serves as the front end for streamed XML input.

mod abbrev;
mod aggregate;
mod assoc;
mod classify;
mod extract;
mod names;
mod pairing;
mod reader;
mod split;
mod strutil;

pub use abbrev::AbbrMap;
pub use aggregate::{add_abbreviations, insert_article, lemma_identifier_collision_last_wins,
    lemma_merge_keeps_both, merge_concat, OutputChunk};
pub use assoc::{assoc_map, unique_keys};
pub use classify::{classify, default_excluded, lemma_abbr_always_retained, spec_retained};
pub use extract::{abbr_texts, emitted_paragraphs, extract_article, extract_spec, extract_step, front_update,
    initial_state, lemma_abbr_never_emits, lemma_abbr_reaches_machine, lemma_extractor_runs_machine, lemma_missing_section_type_excluded,
    missing_section_indices, passage_views, run_extract, ArticleView, Document, ExtractConfig,
    ExtractState, Extraction, Extractor, OutputArticle, OutputParagraph, ParagraphView, Passage,
    PassageView};
pub use names::NameList;
pub use pairing::{lemma_length_gate, lemma_odd_run_discards_tail, spec_pair_run, spec_pair_step,
    PairState, SHORT_FORM_LIMIT};
pub use reader::{collect_spec, collect_until_close, event_views, seek, seek_spec, Collected,
    EventView, XmlEvent};
pub use split::sentences_of;
pub use strutil::str_eq;
