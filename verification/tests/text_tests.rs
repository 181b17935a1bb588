use typing_game::text::split_words;

fn strs(v: &[String]) -> Vec<&str> {
    v.iter().map(|s| s.as_str()).collect()
}

#[test]
fn split_words_plain() {
    let w = split_words("apple banana cherry");
    assert_eq!(strs(&w), vec!["apple", "banana", "cherry"]);
}

#[test]
fn split_words_lines_and_runs_of_space() {
    let w = split_words("  one\ttwo\n\nthree  \r\nfour ");
    assert_eq!(strs(&w), vec!["one", "two", "three", "four"]);
}

#[test]
fn split_words_empty_and_blank() {
    assert!(split_words("").is_empty());
    assert!(split_words(" \n\t  ").is_empty());
}

#[test]
fn split_words_unicode_space_and_letters() {
    // U+3000 IDEOGRAPHIC SPACE is whitespace; é is not.
    let w = split_words("café\u{3000}naïve");
    assert_eq!(strs(&w), vec!["café", "naïve"]);
}

#[test]
fn split_words_agrees_with_std() {
    let text = "the quick\u{a0}brown\u{2003}fox\n jumps\rover";
    let expected: Vec<&str> = text.split_whitespace().collect();
    assert_eq!(strs(&split_words(text)), expected);
}
