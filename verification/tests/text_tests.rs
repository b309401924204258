use rust_learning::basics::{add_numbers, calculate_length_and_return,
    calculate_length_take_ownership, get_element};
use rust_learning::replace::find_and_replace;
use rust_learning::textstats::text_statistics;

#[test]
fn test_add_numbers() {
    assert_eq!(add_numbers(5, 7), 12);
    assert_eq!(add_numbers(-3, 3), 0);
}

#[test]
fn test_calculate_length_take_ownership() {
    assert_eq!(calculate_length_take_ownership(String::from("Hello, Rust!")), 12);
    assert_eq!(calculate_length_take_ownership(String::new()), 0);
}

#[test]
fn test_calculate_length_and_return() {
    let (s, len) = calculate_length_and_return(String::from("ownership"));
    assert_eq!(s, "ownership");
    assert_eq!(len, 9);
}

#[test]
fn test_get_element() {
    let numbers = vec![1, 2, 3, 4, 5];
    assert_eq!(get_element(&numbers, 2), Some(&3));
    assert_eq!(get_element(&numbers, 10), None);
}

#[test]
fn test_text_statistics_basic() {
    let stats = text_statistics("hello world\nfoo  bar\n");
    assert_eq!(stats.chars, 21);
    assert_eq!(stats.bytes, 21);
    assert_eq!(stats.words, 4);
    assert_eq!(stats.lines, 2);
    assert_eq!(stats.non_space_chars, 16);
}

#[test]
fn test_text_statistics_empty() {
    let stats = text_statistics("");
    assert_eq!(stats.chars, 0);
    assert_eq!(stats.bytes, 0);
    assert_eq!(stats.words, 0);
    assert_eq!(stats.lines, 0);
    assert_eq!(stats.non_space_chars, 0);
}

#[test]
fn test_text_statistics_unterminated_last_line() {
    let stats = text_statistics("a\n\nb");
    assert_eq!(stats.lines, 3);
    assert_eq!(stats.words, 2);
    assert_eq!(stats.chars, 4);
}

#[test]
fn test_text_statistics_multibyte() {
    let stats = text_statistics("你好 世界");
    assert_eq!(stats.chars, 5);
    assert_eq!(stats.bytes, 13);
    assert_eq!(stats.words, 2);
    assert_eq!(stats.lines, 1);
    assert_eq!(stats.non_space_chars, 4);
}

#[test]
fn test_find_and_replace_counts_occurrences() {
    let (out, n) = find_and_replace("hello world hello", "hello", "hi");
    assert_eq!(out, "hi world hi");
    assert_eq!(n, 2);
}

#[test]
fn test_find_and_replace_no_match() {
    let (out, n) = find_and_replace("hello world", "xyz", "abc");
    assert_eq!(out, "hello world");
    assert_eq!(n, 0);
}

#[test]
fn test_find_and_replace_non_overlapping() {
    let (out, n) = find_and_replace("aaa", "aa", "b");
    assert_eq!(out, "ba");
    assert_eq!(n, 1);
}

#[test]
fn test_find_and_replace_every_char() {
    let (out, n) = find_and_replace("aaa", "a", "bb");
    assert_eq!(out, "bbbbbb");
    assert_eq!(n, 3);
}

#[test]
fn test_find_and_replace_empty_pattern_interleaves() {
    // The empty pattern matches at every character boundary, as
    // str::replace and str::matches treat it.
    let (out, n) = find_and_replace("abc", "", "-");
    assert_eq!(out, "abc".replace("", "-"));
    assert_eq!(out, "-a-b-c-");
    assert_eq!(n, "abc".matches("").count());
    assert_eq!(n, 4);
    let (out, n) = find_and_replace("", "", "-");
    assert_eq!(out, "-");
    assert_eq!(n, 1);
}
