use sonica::subtitle::{ends_with_sentence_punct, split_words_into_lines, wrap_text};

#[test]
fn wrap_short_text() {
    let lines = wrap_text("Hello world", 42);
    assert_eq!(lines, vec!["Hello world"]);
}

#[test]
fn wrap_long_text() {
    let lines = wrap_text("This is a somewhat longer sentence that should wrap", 20);
    assert!(lines.len() >= 2);
    for line in &lines {
        assert!(line.len() <= 25);
    }
}

#[test]
fn wrap_packs_words_greedily() {
    let lines = wrap_text("This is a somewhat longer sentence that should wrap", 20);
    assert_eq!(lines, vec!["This is a somewhat", "longer sentence that", "should wrap"]);
}

#[test]
fn wrap_collapses_whitespace_between_words() {
    let lines = wrap_text("  alpha \t beta\n gamma  ", 10);
    assert_eq!(lines, vec!["alpha beta", "gamma"]);
}

#[test]
fn wrap_keeps_overlong_word_on_its_own_line() {
    let lines = wrap_text("a extraordinarily b", 5);
    assert_eq!(lines, vec!["a", "extraordinarily", "b"]);
}

#[test]
fn wrap_counts_bytes_not_characters() {
    // "ééé" is three characters but six bytes.
    let lines = wrap_text("ééé ab", 6);
    assert_eq!(lines, vec!["ééé", "ab"]);
}

#[test]
fn wrap_empty_text_is_one_empty_line() {
    assert_eq!(wrap_text("", 3), vec![""]);
}

#[test]
fn wrap_only_whitespace_longer_than_limit_gives_no_lines() {
    assert!(wrap_text("      ", 2).is_empty());
}

fn words(v: &[&str]) -> Vec<String> {
    v.iter().map(|s| s.to_string()).collect()
}

#[test]
fn split_words_into_lines_respects_max_chars() {
    let lines = split_words_into_lines(&words(&["Hello", "world", "this", "is", "test"]), 12);
    assert!(lines.len() >= 2);
    for line in &lines {
        let text: String = line.iter().map(|w| w.as_str()).collect::<Vec<_>>().join(" ");
        assert!(text.len() <= 14); // slight slack for word boundaries
    }
}

#[test]
fn split_words_groups_greedily() {
    let lines = split_words_into_lines(&words(&["Hello", "world", "this", "is", "test"]), 12);
    assert_eq!(lines, vec![words(&["Hello", "world"]), words(&["this", "is", "test"])]);
    let long = split_words_into_lines(&words(&["a", "enormously", "b"]), 4);
    assert_eq!(long, vec![words(&["a"]), words(&["enormously"]), words(&["b"])]);
    assert!(split_words_into_lines(&Vec::new(), 10).is_empty());
}

#[test]
fn sentence_ends() {
    assert!(ends_with_sentence_punct("Hello world.  "));
    assert!(ends_with_sentence_punct("Really?"));
    assert!(ends_with_sentence_punct("Wow!"));
    assert!(ends_with_sentence_punct("終わり。"));
    assert!(ends_with_sentence_punct("本当？"));
    assert!(!ends_with_sentence_punct("Hello world"));
    assert!(!ends_with_sentence_punct("   "));
    assert!(!ends_with_sentence_punct(""));
}
