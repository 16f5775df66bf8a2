use vstd::prelude::*;
use crate::names::NameList;
use crate::strutil::str_eq;

verus! {

/// Section types that the default policy (empty allow-list) drops from
/// paragraph output: reference lists, figures, tables, appendices,
/// competing-interest statements, case reports, author contributions,
/// acknowledgements and funding, supplementary material, and
/// review-process metadata.
pub open spec fn default_excluded(section_type: Seq<char>) -> bool {
    ||| section_type == "REF"@
    ||| section_type == "FIG"@
    ||| section_type == "TABLE"@
    ||| section_type == "APPENDIX"@
    ||| section_type == "COMP_INT"@
    ||| section_type == "CASE"@
    ||| section_type == "AUTH_CONT"@
    ||| section_type == "ACK_FUND"@
    ||| section_type == "SUPPL"@
    ||| section_type == "REVIEW_INFO"@
}

/// The classifier's decision for a passage with the given section type.
///
/// An empty allow-list means the default policy: everything but the fixed
/// exclusion set is retained.  A non-empty allow-list retains only its
/// members, except that "ABBR" passages are always retained, because they
/// feed the abbreviation pairing machine rather than the paragraph output.
pub open spec fn spec_retained(section_type: Seq<char>, allowed: Set<Seq<char>>) -> bool {
    if allowed == Set::<Seq<char>>::empty() {
        !default_excluded(section_type)
    } else {
        section_type == "ABBR"@ || allowed.contains(section_type)
    }
}

/// Decide whether a passage with this section type is retained for output.
pub fn classify(section_type: &str, allowed: &NameList) -> (r: bool)
    ensures
        r == spec_retained(section_type@, allowed@),
{
    if allowed.is_empty() {
        !(str_eq(section_type, "REF") || str_eq(section_type, "FIG")
            || str_eq(section_type, "TABLE") || str_eq(section_type, "APPENDIX")
            || str_eq(section_type, "COMP_INT") || str_eq(section_type, "CASE")
            || str_eq(section_type, "AUTH_CONT") || str_eq(section_type, "ACK_FUND")
            || str_eq(section_type, "SUPPL") || str_eq(section_type, "REVIEW_INFO"))
    } else {
        str_eq(section_type, "ABBR") || allowed.contains(section_type)
    }
}

/// A passage tagged "ABBR" is retained by the classifier whatever the
/// allow-list holds: it is no member of the default exclusion set, and a
/// non-empty allow-list admits it unconditionally.
pub proof fn lemma_abbr_always_retained(allowed: Set<Seq<char>>)
    ensures
        spec_retained("ABBR"@, allowed),
{
    reveal_strlit("ABBR");
    reveal_strlit("REF");
    reveal_strlit("FIG");
    reveal_strlit("TABLE");
    reveal_strlit("APPENDIX");
    reveal_strlit("COMP_INT");
    reveal_strlit("CASE");
    reveal_strlit("AUTH_CONT");
    reveal_strlit("ACK_FUND");
    reveal_strlit("SUPPL");
    reveal_strlit("REVIEW_INFO");
    assert("ABBR"@.len() == 4);
    assert("REF"@.len() == 3);
    assert("FIG"@.len() == 3);
    assert("TABLE"@.len() == 5);
    assert("APPENDIX"@.len() == 8);
    assert("COMP_INT"@.len() == 8);
    assert("AUTH_CONT"@.len() == 9);
    assert("ACK_FUND"@.len() == 8);
    assert("SUPPL"@.len() == 5);
    assert("REVIEW_INFO"@.len() == 11);
    assert("ABBR"@[0] == 'A' && "CASE"@[0] == 'C');
}

} // verus!
