use rinha::text::{byte_length, chain, contains_char, decimal, join_with, split_on};

fn strings(items: &[&str]) -> Vec<String> {
    items.iter().map(|s| s.to_string()).collect()
}

#[test]
fn join_puts_the_separator_between_neighbours() {
    assert_eq!(join_with(&strings(&[]), ' '), "");
    assert_eq!(join_with(&strings(&["rust"]), ' '), "rust");
    assert_eq!(join_with(&strings(&["rust", "go"]), ' '), "rust go");
    assert_eq!(join_with(&strings(&["a", "", "b"]), ','), "a,,b");
}

#[test]
fn split_cuts_at_every_separator() {
    assert_eq!(split_on("rust go", ' '), strings(&["rust", "go"]));
    assert_eq!(split_on("rust", ' '), strings(&["rust"]));
    assert_eq!(split_on("", ' '), strings(&[""]));
    assert_eq!(split_on(" ", ' '), strings(&["", ""]));
    assert_eq!(split_on("a  b ", ' '), strings(&["a", "", "b", ""]));
}

#[test]
fn split_agrees_with_the_standard_library() {
    for text in ["", " ", "a", "a b", " a b ", "é ü  ñ", "rust go c++"] {
        let expected: Vec<String> = text.split(' ').map(|s| s.to_string()).collect();
        assert_eq!(split_on(text, ' '), expected);
    }
}

#[test]
fn split_undoes_join_for_tags_without_spaces() {
    let tags = strings(&["rust", "go", "", "c#"]);
    assert_eq!(split_on(&join_with(&tags, ' '), ' '), tags);
}

#[test]
fn contains_char_finds_a_character() {
    assert!(contains_char("visual basic", ' '));
    assert!(!contains_char("rust", ' '));
    assert!(!contains_char("", ' '));
    assert!(contains_char("é", 'é'));
}

#[test]
fn byte_length_counts_utf8_bytes() {
    assert_eq!(byte_length(""), 0);
    assert_eq!(byte_length("ana"), 3);
    assert_eq!(byte_length("é"), 2);
    assert_eq!(byte_length("日本"), 6);
}

#[test]
fn decimal_writes_numbers() {
    assert_eq!(decimal(0), "0");
    assert_eq!(decimal(7), "7");
    assert_eq!(decimal(10), "10");
    assert_eq!(decimal(12345), "12345");
    assert_eq!(decimal(u64::MAX), "18446744073709551615");
}

#[test]
fn concat_and_owned_copy_text() {
    assert_eq!(chain("/pessoas/", "abc"), "/pessoas/abc");
    assert_eq!(chain("", ""), "");
    assert_eq!(chain("a", ""), "a");
}
