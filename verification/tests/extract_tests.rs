use bioc_extract::{extract_article, Document, ExtractConfig, NameList, Passage};

fn passage(section_type: Option<&str>, par_type: Option<&str>, offset: u32, text: &str) -> Passage {
    Passage {
        offset,
        section_type: section_type.map(|s| s.to_string()),
        par_type: par_type.map(|s| s.to_string()),
        year: None,
        pmid: None,
        text: text.to_string(),
    }
}

fn default_config() -> ExtractConfig {
    ExtractConfig { allowed: NameList::new(), split_sentences: false }
}

#[test]
fn round_trip_single_paragraph() {
    let doc = Document {
        id: "d1".to_string(),
        passages: vec![passage(Some("RESULTS"), Some("paragraph"), 0, "Example.")],
    };
    let outcome = extract_article(&doc, &default_config());
    let article = outcome.article;
    assert_eq!(article.paragraphs.len(), 1);
    assert_eq!(article.paragraphs[0].par_type, "RESULTS");
    assert_eq!(article.paragraphs[0].text, "Example.");
    assert_eq!(article.abbreviations.len(), 0);
    assert_eq!(article.year, "UNK");
    assert_eq!(article.pmid, "UNK");
    assert_eq!(article.title, "UNK");
    assert!(outcome.missing_section.is_empty());
}

#[test]
fn missing_section_type_warns_once_per_passage() {
    let doc = Document {
        id: "d1".to_string(),
        passages: vec![
            passage(None, Some("paragraph"), 0, "lost one"),
            passage(Some("RESULTS"), Some("paragraph"), 10, "kept"),
            passage(None, Some("paragraph"), 20, "lost two"),
        ],
    };
    let outcome = extract_article(&doc, &default_config());
    assert_eq!(outcome.missing_section, vec![0, 2]);
    assert_eq!(outcome.article.paragraphs.len(), 1);
    assert_eq!(outcome.article.paragraphs[0].text, "kept");
}

#[test]
fn abbr_feeds_machine_despite_allow_list() {
    let mut allowed = NameList::new();
    allowed.push("RESULTS".to_string());
    let config = ExtractConfig { allowed, split_sentences: false };
    let doc = Document {
        id: "d1".to_string(),
        passages: vec![
            passage(Some("ABBR"), Some("paragraph"), 0, "MS"),
            passage(Some("ABBR"), Some("paragraph"), 5, "multiple sclerosis"),
            passage(Some("DISCUSS"), Some("paragraph"), 10, "dropped by the allow-list"),
        ],
    };
    let article = extract_article(&doc, &config).article;
    assert_eq!(article.paragraphs.len(), 0);
    assert_eq!(article.abbreviations.get("MS"), Some(&"multiple sclerosis".to_string()));
}

#[test]
fn abbr_passage_never_becomes_a_paragraph() {
    let doc = Document {
        id: "d1".to_string(),
        passages: vec![
            passage(Some("ABBR"), Some("paragraph"), 0, "MS"),
            passage(Some("ABBR"), Some("paragraph"), 5, "multiple sclerosis"),
        ],
    };
    let article = extract_article(&doc, &default_config()).article;
    assert_eq!(article.paragraphs.len(), 0);
    assert_eq!(article.abbreviations.len(), 1);
}

#[test]
fn abbr_with_wrong_structural_type_is_ignored() {
    let doc = Document {
        id: "d1".to_string(),
        passages: vec![
            passage(Some("ABBR"), Some("title"), 0, "Abbreviations"),
            passage(Some("ABBR"), Some("paragraph"), 5, "MS"),
            passage(Some("ABBR"), Some("paragraph"), 10, "multiple sclerosis"),
        ],
    };
    let article = extract_article(&doc, &default_config()).article;
    assert_eq!(article.paragraphs.len(), 0);
    assert_eq!(article.abbreviations.len(), 1);
    assert_eq!(article.abbreviations.get("MS"), Some(&"multiple sclerosis".to_string()));
}

#[test]
fn excluded_sections_are_dropped_by_default() {
    let doc = Document {
        id: "d1".to_string(),
        passages: vec![
            passage(Some("REF"), Some("paragraph"), 0, "a reference"),
            passage(Some("FIG"), Some("paragraph"), 10, "a figure caption"),
            passage(Some("RESULTS"), Some("paragraph"), 20, "a result"),
        ],
    };
    let article = extract_article(&doc, &default_config()).article;
    assert_eq!(article.paragraphs.len(), 1);
    assert_eq!(article.paragraphs[0].par_type, "RESULTS");
}

#[test]
fn abstract_structural_type_is_emitted() {
    let doc = Document {
        id: "d1".to_string(),
        passages: vec![
            passage(Some("ABSTRACT"), Some("abstract"), 0, "An abstract."),
            passage(Some("ABSTRACT"), Some("title"), 10, "not a paragraph"),
        ],
    };
    let article = extract_article(&doc, &default_config()).article;
    assert_eq!(article.paragraphs.len(), 1);
    assert_eq!(article.paragraphs[0].text, "An abstract.");
}

#[test]
fn front_matter_supplies_metadata() {
    let mut front = passage(Some("TITLE"), Some("front"), 0, "A Study of Things");
    front.year = Some("1999".to_string());
    front.pmid = Some("PMC12345".to_string());
    let doc = Document {
        id: "d1".to_string(),
        passages: vec![front, passage(Some("RESULTS"), Some("paragraph"), 10, "body")],
    };
    let article = extract_article(&doc, &default_config()).article;
    assert_eq!(article.year, "1999");
    assert_eq!(article.pmid, "PMC12345");
    assert_eq!(article.title, "A Study of Things");
}

#[test]
fn only_first_front_passage_supplies_metadata() {
    let mut first = passage(Some("TITLE"), Some("front"), 0, "First Title");
    first.pmid = Some("PMC1".to_string());
    let mut second = passage(Some("TITLE"), Some("front"), 0, "Second Title");
    second.pmid = Some("PMC2".to_string());
    let doc = Document { id: "d1".to_string(), passages: vec![first, second] };
    let article = extract_article(&doc, &default_config()).article;
    assert_eq!(article.pmid, "PMC1");
    assert_eq!(article.title, "First Title");
}

#[test]
fn front_matter_at_nonzero_offset_is_not_metadata() {
    let mut front = passage(Some("TITLE"), Some("front"), 42, "Late Title");
    front.pmid = Some("PMC9".to_string());
    let doc = Document { id: "d1".to_string(), passages: vec![front] };
    let article = extract_article(&doc, &default_config()).article;
    assert_eq!(article.pmid, "UNK");
    assert_eq!(article.title, "UNK");
}

#[test]
fn sentence_splitting_emits_one_paragraph_per_sentence() {
    let config = ExtractConfig { allowed: NameList::new(), split_sentences: true };
    let doc = Document {
        id: "d1".to_string(),
        passages: vec![passage(
            Some("RESULTS"),
            Some("paragraph"),
            0,
            "This is some example text. It contains two sentences.",
        )],
    };
    let article = extract_article(&doc, &config).article;
    assert_eq!(article.paragraphs.len(), 2);
    assert_eq!(article.paragraphs[0].par_type, "RESULTS");
    assert_eq!(article.paragraphs[0].text, "This is some example text.");
    assert_eq!(article.paragraphs[1].par_type, "RESULTS");
    assert_eq!(article.paragraphs[1].text, "It contains two sentences.");
}
