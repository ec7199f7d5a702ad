use agmem::text::chars::{is_blank, is_white, to_chars};
use agmem::text::number::{to_decimal, to_decimal_wide, to_signed_decimal};
use agmem::text::order::comes_before;
use agmem::text::pad::{pad_end, pad_start};
use agmem::text::path::join_path;
use agmem::text::search::{has_prefix, holds, same};
use agmem::text::words::{join_texts, split_words, trim};

#[test]
fn whitespace_is_what_the_standard_library_says_it_is() {
    for c in '\0'..=char::MAX {
        assert_eq!(is_white(c), c.is_whitespace(), "{c:?}");
    }
}

#[test]
fn words_and_trims_agree_with_the_standard_library() {
    for text in ["", "  a  b\t\nc ", "a", "\u{2003}x y\u{3000}", "   "] {
        let chars = to_chars(text);
        let words: Vec<String> = split_words(&chars)
            .iter()
            .map(|word| word.iter().collect())
            .collect();
        let expected: Vec<String> = text.split_whitespace().map(str::to_owned).collect();
        assert_eq!(words, expected, "{text:?}");
        let trimmed: String = trim(&chars).iter().collect();
        assert_eq!(trimmed, text.trim(), "{text:?}");
        assert_eq!(is_blank(text), text.trim().is_empty(), "{text:?}");
        assert_eq!(join_texts(&expected, ", "), expected.join(", "));
    }
}

#[test]
fn decimals_agree_with_the_standard_library() {
    for n in [0u64, 9, 10, 12345, u64::MAX] {
        assert_eq!(to_decimal(n), n.to_string());
    }
    assert_eq!(to_decimal_wide(u128::MAX), u128::MAX.to_string());
    for n in [0i128, -1, 42, i128::MIN, i128::MAX] {
        assert_eq!(to_signed_decimal(n), n.to_string());
    }
}

#[test]
fn columns_agree_with_the_standard_library() {
    for text in ["", "plan", "a long enough text", "é"] {
        assert_eq!(pad_end(text, 10), format!("{text:<10}"));
        assert_eq!(pad_start(text, 7), format!("{text:>7}"));
    }
}

#[test]
fn order_agrees_with_the_standard_library() {
    for (a, b) in [("", "a"), ("a", "b"), ("ab", "a"), ("é", "z"), ("x", "x")] {
        assert_eq!(comes_before(a, b), a < b, "{a:?} {b:?}");
    }
}

#[test]
fn searching_agrees_with_the_standard_library() {
    assert!(has_prefix("gitdir: x", "gitdir:"));
    assert!(!has_prefix("git", "gitdir:"));
    assert!(holds("a git push b", "git push"));
    assert!(!holds("ab", "abc"));
    assert!(same("é", "é") && !same("a", "A"));
}

#[test]
fn paths_join_as_on_unix() {
    assert_eq!(join_path("/data", "agmem.db"), "/data/agmem.db");
    assert_eq!(join_path("/data/", "x"), "/data/x");
    assert_eq!(join_path("/data", "/abs"), "/abs");
    assert_eq!(join_path("", "x"), "x");
}
