use bioc_extract::{AbbrMap, PairState};

#[test]
fn alternating_pair_is_recorded() {
    let mut glossary = AbbrMap::new();
    let mut machine = PairState::new();
    machine.step("MS".to_string(), &mut glossary);
    machine.step("multiple sclerosis".to_string(), &mut glossary);
    assert_eq!(glossary.len(), 1);
    assert_eq!(glossary.get("MS"), Some(&"multiple sclerosis".to_string()));
}

#[test]
fn odd_sequence_yields_one_entry_and_discards_tail() {
    let mut glossary = AbbrMap::new();
    let mut machine = PairState::new();
    machine.step("short_A".to_string(), &mut glossary);
    machine.step("long_A".to_string(), &mut glossary);
    machine.step("short_B".to_string(), &mut glossary);
    assert_eq!(glossary.len(), 1);
    assert_eq!(glossary.get("short_A"), Some(&"long_A".to_string()));
    assert_eq!(glossary.get("short_B"), None);
}

#[test]
fn length_gate_blocks_long_first_element() {
    let mut glossary = AbbrMap::new();
    let mut machine = PairState::new();
    machine.step("toolongforashortformxxxx".to_string(), &mut glossary);
    machine.step("real definition".to_string(), &mut glossary);
    assert_eq!(glossary.len(), 0);
}

#[test]
fn nine_character_short_form_passes_the_gate() {
    let mut glossary = AbbrMap::new();
    let mut machine = PairState::new();
    machine.step("ABCDEFGHI".to_string(), &mut glossary);
    machine.step("a definition".to_string(), &mut glossary);
    assert_eq!(glossary.get("ABCDEFGHI"), Some(&"a definition".to_string()));
}

#[test]
fn ten_character_text_is_not_a_short_form() {
    let mut glossary = AbbrMap::new();
    let mut machine = PairState::new();
    machine.step("ABCDEFGHIJ".to_string(), &mut glossary);
    machine.step("a definition".to_string(), &mut glossary);
    assert_eq!(glossary.len(), 0);
}

#[test]
fn repeated_short_form_overwrites_within_document() {
    let mut glossary = AbbrMap::new();
    let mut machine = PairState::new();
    machine.step("MS".to_string(), &mut glossary);
    machine.step("first".to_string(), &mut glossary);
    machine.step("MS".to_string(), &mut glossary);
    machine.step("second".to_string(), &mut glossary);
    assert_eq!(glossary.len(), 1);
    assert_eq!(glossary.get("MS"), Some(&"second".to_string()));
}
