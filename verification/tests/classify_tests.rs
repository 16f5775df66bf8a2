use bioc_extract::{classify, NameList};

#[test]
fn default_policy_excludes_fixed_sections() {
    let empty = NameList::new();
    for st in [
        "REF", "FIG", "TABLE", "APPENDIX", "COMP_INT", "CASE", "AUTH_CONT", "ACK_FUND",
        "SUPPL", "REVIEW_INFO",
    ] {
        assert!(!classify(st, &empty), "{} should be excluded", st);
    }
}

#[test]
fn default_policy_retains_other_sections() {
    let empty = NameList::new();
    for st in ["ABSTRACT", "INTRO", "RESULTS", "DISCUSS", "METHODS", "ABBR", "UNHEARD_OF"] {
        assert!(classify(st, &empty), "{} should be retained", st);
    }
}

#[test]
fn allow_list_retains_only_members() {
    let mut allowed = NameList::new();
    allowed.push("RESULTS".to_string());
    assert!(classify("RESULTS", &allowed));
    assert!(!classify("DISCUSS", &allowed));
    assert!(!classify("REF", &allowed));
}

#[test]
fn allow_list_always_admits_abbr() {
    let mut allowed = NameList::new();
    allowed.push("RESULTS".to_string());
    assert!(classify("ABBR", &allowed));
}
