use audio_device::text::{chars_of, join_text, text_contains};

#[test]
fn contains_substrings() {
    assert!(text_contains("Built-in Microphone", "Micro"));
    assert!(text_contains("abc", ""));
    assert!(text_contains("", ""));
    assert!(text_contains("abc", "abc"));
    assert!(!text_contains("abc", "abcd"));
    assert!(!text_contains("abc", "ac"));
    assert!(text_contains("aaab", "aab"));
    assert!(text_contains("Lautsprecher (Ä)", "(Ä)"));
    assert!(!text_contains("", "a"));
}

#[test]
fn chars_and_join() {
    assert_eq!(chars_of("hé"), vec!['h', 'é']);
    assert_eq!(join_text("ab", "cd"), "abcd");
    assert_eq!(join_text("", ""), "");
}
