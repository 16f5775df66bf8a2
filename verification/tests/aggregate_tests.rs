use bioc_extract::{add_abbreviations, insert_article, AbbrMap, OutputArticle, OutputChunk};

fn article_with_abbr(pmid: &str, title: &str, short: &str, long: &str) -> OutputArticle {
    let mut abbreviations = AbbrMap::new();
    abbreviations.insert(short.to_string(), long.to_string());
    OutputArticle {
        paragraphs: vec![],
        abbreviations,
        year: "UNK".to_string(),
        pmid: pmid.to_string(),
        title: title.to_string(),
    }
}

#[test]
fn merge_concatenates_colliding_short_forms() {
    let mut table = AbbrMap::new();
    add_abbreviations(&mut table, article_with_abbr("1", "a", "MS", "multiple sclerosis"));
    add_abbreviations(&mut table, article_with_abbr("2", "b", "MS", "mass spectrometry"));
    assert_eq!(table.len(), 1);
    assert_eq!(table.get("MS"), Some(&"multiple sclerosismass spectrometry".to_string()));
}

#[test]
fn merge_keeps_distinct_short_forms_apart() {
    let mut table = AbbrMap::new();
    add_abbreviations(&mut table, article_with_abbr("1", "a", "MS", "multiple sclerosis"));
    add_abbreviations(&mut table, article_with_abbr("2", "b", "CT", "computed tomography"));
    assert_eq!(table.len(), 2);
    assert_eq!(table.get("MS"), Some(&"multiple sclerosis".to_string()));
    assert_eq!(table.get("CT"), Some(&"computed tomography".to_string()));
}

#[test]
fn identifier_collision_keeps_one_entry_last_writer_wins() {
    let mut chunk = OutputChunk::new();
    insert_article(&mut chunk, article_with_abbr("PMC7", "first", "A", "alpha"));
    insert_article(&mut chunk, article_with_abbr("PMC7", "second", "B", "beta"));
    assert_eq!(chunk.len(), 1);
    let kept = chunk.get("PMC7").expect("the identifier must be present");
    assert_eq!(kept.title, "second");
}

#[test]
fn distinct_identifiers_keep_their_own_entries() {
    let mut chunk = OutputChunk::new();
    insert_article(&mut chunk, article_with_abbr("PMC1", "one", "A", "alpha"));
    insert_article(&mut chunk, article_with_abbr("PMC2", "two", "B", "beta"));
    assert_eq!(chunk.len(), 2);
    assert_eq!(chunk.get("PMC1").unwrap().title, "one");
    assert_eq!(chunk.get("PMC2").unwrap().title, "two");
}
