use wordle::words::{contains_word, load_words};

fn list(words: &[&str]) -> Vec<String> {
    words.iter().map(|w| w.to_string()).collect()
}

#[test]
fn load_words_keeps_entries_of_the_asked_length() {
    let text = "apple\npear\ncrane\n\nbanana\ntrace";
    assert_eq!(load_words(text, 5), list(&["apple", "crane", "trace"]));
    assert_eq!(load_words(text, 4), list(&["pear"]));
    assert_eq!(load_words(text, 6), list(&["banana"]));
    assert_eq!(load_words(text, 7), list(&[]));
}

#[test]
fn load_words_keeps_order_and_repeats() {
    assert_eq!(load_words("bb\naa\nbb\ncc", 2), list(&["bb", "aa", "bb", "cc"]));
}

#[test]
fn load_words_of_an_empty_text() {
    assert_eq!(load_words("", 5), list(&[]));
    assert_eq!(load_words("", 0), list(&[""]));
}

#[test]
fn load_words_counts_empty_entries_for_length_zero() {
    assert_eq!(load_words("\n", 0), list(&["", ""]));
    assert_eq!(load_words("ab\n\ncd\n", 0), list(&["", ""]));
}

#[test]
fn load_words_with_and_without_a_final_newline() {
    assert_eq!(load_words("apple\ncrane\n", 5), list(&["apple", "crane"]));
    assert_eq!(load_words("apple\ncrane", 5), list(&["apple", "crane"]));
}

#[test]
fn load_words_takes_a_carriage_return_for_a_character() {
    assert_eq!(load_words("apple\r\ncrane", 5), list(&["crane"]));
    assert_eq!(load_words("appl\r\ncrane", 5), list(&["appl\r", "crane"]));
}

#[test]
fn load_words_counts_characters() {
    assert_eq!(load_words("héllo\nhello", 5), list(&["héllo", "hello"]));
}

#[test]
fn contains_word_finds_exact_matches_only() {
    let words = list(&["apple", "crane", "trace"]);
    assert!(contains_word(&words, &"apple".to_string()));
    assert!(contains_word(&words, &"trace".to_string()));
    assert!(!contains_word(&words, &"APPLE".to_string()));
    assert!(!contains_word(&words, &"appl".to_string()));
    assert!(!contains_word(&words, &"".to_string()));
    assert!(!contains_word(&Vec::new(), &"apple".to_string()));
}
