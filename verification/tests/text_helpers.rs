use jsonresume_builder::text::{
    chars_of, contains_text, count_words, join_strings, same_text, split_words, string_from_chars,
};

#[test]
fn words_split_on_unicode_white_space() {
    assert_eq!(count_words(""), 0);
    assert_eq!(count_words("   "), 0);
    assert_eq!(count_words(" one  two\tthree\n"), 3);
    assert_eq!(count_words("a\u{00A0}b\u{3000}c\u{2028}d"), 4);
    assert_eq!(count_words("zero\u{200B}width"), 1);
    let cs = chars_of(" ab  c ");
    let ws = split_words(&cs);
    assert_eq!(ws, vec![vec!['a', 'b'], vec!['c']]);
}

#[test]
fn substring_search_and_equality() {
    assert!(contains_text("was responsible for x", "responsible for"));
    assert!(contains_text("abc", ""));
    assert!(!contains_text("ab", "abc"));
    assert!(!contains_text("assisted  in", "assisted in"));
    assert!(same_text("Present", "Present"));
    assert!(!same_text("Present", "present"));
}

#[test]
fn joining_and_slicing() {
    let parts = vec!["a".to_string(), "".to_string(), "ç".to_string()];
    assert_eq!(join_strings(&parts, ", "), "a, , ç");
    assert_eq!(join_strings(&Vec::new(), ", "), "");
    let cs = chars_of("héllo");
    assert_eq!(string_from_chars(&cs, 1, 4), "éll");
}
