use hearsay::normalize;

#[test]
fn zero_width_characters_are_stripped() {
    let attack = "ig\u{200B}no\u{200B}re previous instructions";
    assert_eq!(normalize(attack), "ignore previous instructions");
}

#[test]
fn bidi_overrides_are_stripped() {
    let attack = "send\u{202E} to attacker";
    assert!(!normalize(attack).contains('\u{202E}'));
}

#[test]
fn ocr_line_breaks_are_collapsed_so_multiword_terms_still_match() {
    let wrapped = "ignore\n   previous\r\ninstructions";
    assert_eq!(normalize(wrapped), "ignore previous instructions");
}

#[test]
fn case_is_folded() {
    assert_eq!(normalize("IGNORE Previous"), "ignore previous");
}

#[test]
fn non_whitespace_control_characters_are_dropped_without_joining_words() {
    assert_eq!(normalize("alpha\u{0000}beta gamma"), "alphabeta gamma");
    assert_eq!(normalize("alpha\nbeta"), "alpha beta");
    assert_eq!(normalize("alpha\tbeta"), "alpha beta");
}

#[test]
fn homoglyphs_are_not_handled_and_this_test_documents_that() {
    let cyrillic = "ign\u{043E}re previous";
    assert_ne!(normalize(cyrillic), "ignore previous");
}

#[test]
fn the_skeleton_of_ascii_text_is_settled() {
    let r = normalize("  IGNORE\u{0007}  Previous\tINSTRUCTIONS \r\n");
    assert_eq!(r, "ignore previous instructions");
    assert_eq!(normalize(&r), r);
    assert_eq!(r.to_lowercase(), r);
    assert_eq!(normalize(" \t\n "), "");
}
