use pyspector::text::{chars_of, is_white_char, same_text, strip_all_prefix_of};

#[test]
fn white_space_agrees_with_std() {
    for c in (0u32..=0x10FFFF).filter_map(char::from_u32) {
        assert_eq!(is_white_char(c), c.is_whitespace(), "{:?}", c);
    }
}

#[test]
fn text_equality() {
    assert!(same_text("Cargo.toml", "Cargo.toml"));
    assert!(!same_text("Cargo.toml", "cargo.toml"));
    assert!(!same_text("a", "ab"));
    assert!(same_text("", ""));
}

#[test]
fn repeated_prefixes_are_stripped() {
    assert_eq!(strip_all_prefix_of("====1", &vec!['=', '=']), "1");
    assert_eq!(strip_all_prefix_of("===1", &vec!['=', '=']), "=1");
    assert_eq!(strip_all_prefix_of("^^~1", &vec!['^']), "~1");
    assert_eq!(strip_all_prefix_of("1", &vec![]), "1");
}

#[test]
fn characters_in_order() {
    assert_eq!(chars_of("añb"), vec!['a', 'ñ', 'b']);
}
