use ai_translator::chunking::{char_count, hard_split_chars, split_text_into_chunks};
use ai_translator::text::{decimal_string, eq_ignore_ascii_case, str_equals, trim_text};

fn strings(v: &[&str]) -> Vec<String> {
    v.iter().map(|s| s.to_string()).collect()
}

#[test]
fn empty_text_has_no_chunks() {
    assert_eq!(split_text_into_chunks("", 10), Vec::<String>::new());
}

#[test]
fn short_text_is_one_chunk() {
    assert_eq!(split_text_into_chunks("Hello world", 100), strings(&["Hello world"]));
    assert_eq!(split_text_into_chunks("exactly10!", 10), strings(&["exactly10!"]));
}

#[test]
fn paragraphs_then_words() {
    let text = "First paragraph.\n\nSecond paragraph here.";
    assert_eq!(
        split_text_into_chunks(text, 20),
        strings(&["First paragraph.\n\n", "Second paragraph ", "here."])
    );
}

#[test]
fn sentences_split_at_period_space() {
    assert_eq!(
        split_text_into_chunks("Hello world. Bye now.", 12),
        strings(&["Hello ", "world. ", "Bye now."])
    );
}

#[test]
fn long_words_are_cut_hard() {
    assert_eq!(
        split_text_into_chunks("abcdefghij", 3),
        strings(&["abc", "def", "ghi", "j"])
    );
}

#[test]
fn chunk_size_zero_acts_as_one() {
    assert_eq!(split_text_into_chunks("abc", 0), strings(&["a", "b", "c"]));
}

#[test]
fn sizes_count_characters_not_bytes() {
    assert_eq!(split_text_into_chunks("가나다라", 2), strings(&["가나", "다라"]));
    assert_eq!(char_count("héllo"), 5);
    assert_eq!(char_count(""), 0);
}

#[test]
fn chunks_reassemble_and_respect_the_size() {
    let text = "One line here.\nAnother line! A question? Yes.\n\nNew paragraph with some words and a verylongwordthatmustbecut at the end.";
    for max in [1usize, 3, 7, 15, 40, 500] {
        let chunks = split_text_into_chunks(text, max);
        assert_eq!(chunks.concat(), text);
        for c in &chunks {
            let n = c.chars().count();
            assert!(n >= 1 && n <= max, "chunk {:?} for max {}", c, max);
        }
    }
}

#[test]
fn hard_split_cuts_every_max_chars() {
    assert_eq!(hard_split_chars("abcde", 2), strings(&["ab", "cd", "e"]));
    assert_eq!(hard_split_chars("abcd", 2), strings(&["ab", "cd"]));
    assert_eq!(hard_split_chars("", 3), Vec::<String>::new());
}

#[test]
fn hard_split_with_size_zero() {
    assert_eq!(hard_split_chars("ab", 0), strings(&["", "a", "b"]));
}

#[test]
fn trimming_follows_unicode_white_space() {
    assert_eq!(trim_text("  \t hello world \n"), "hello world");
    assert_eq!(trim_text("\u{3000}x\u{00A0}"), "x");
    assert_eq!(trim_text("   "), "");
}

#[test]
fn comparisons() {
    assert!(str_equals("abc", "abc"));
    assert!(!str_equals("abc", "abd"));
    assert!(eq_ignore_ascii_case("Ollama Cloud", "ollama cloud"));
    assert!(!eq_ignore_ascii_case("Ollama", "Ollama Cloud"));
    assert!(!eq_ignore_ascii_case("é", "É"));
}

#[test]
fn decimal_notation() {
    assert_eq!(decimal_string(0), "0");
    assert_eq!(decimal_string(1234567), "1234567");
}

