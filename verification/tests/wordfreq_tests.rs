use rust_learning::wordfreq::{normalize_word, top_word_frequencies, word_frequencies};

#[test]
fn test_normalize_word_lowercases_and_trims_punctuation() {
    assert_eq!(normalize_word("Hello,"), "hello");
    assert_eq!(normalize_word("WORLD!!!"), "world");
    assert_eq!(normalize_word("(Rust)"), "rust");
    assert_eq!(normalize_word("don't"), "don't");
    assert_eq!(normalize_word("!!!"), "");
    assert_eq!(normalize_word("mixed-CASE."), "mixed-case");
}

#[test]
fn test_word_frequencies_counts() {
    let freqs = word_frequencies("the quick the lazy The dog, dog!");
    let lookup = |key: &str| {
        freqs
            .iter()
            .find(|(w, _)| w == key)
            .map(|(_, c)| *c)
            .unwrap_or(0)
    };
    assert_eq!(lookup("the"), 3);
    assert_eq!(lookup("dog"), 2);
    assert_eq!(lookup("quick"), 1);
    assert_eq!(lookup("lazy"), 1);
    assert_eq!(freqs.len(), 4);
}

#[test]
fn test_word_frequencies_skips_pure_punctuation() {
    let freqs = word_frequencies("a --- b !!! a");
    assert_eq!(freqs.len(), 2);
    let lookup = |key: &str| {
        freqs
            .iter()
            .find(|(w, _)| w == key)
            .map(|(_, c)| *c)
            .unwrap_or(0)
    };
    assert_eq!(lookup("a"), 2);
    assert_eq!(lookup("b"), 1);
}

#[test]
fn test_top_word_frequencies_picks_most_frequent() {
    let text = "apple apple apple banana banana cherry";
    let top = top_word_frequencies(text, 2);
    assert_eq!(top.len(), 2);
    assert_eq!(top[0], (String::from("apple"), 3));
    assert_eq!(top[1], (String::from("banana"), 2));
}

#[test]
fn test_top_word_frequencies_with_large_k_returns_all() {
    let top = top_word_frequencies("x y x", 10);
    assert_eq!(top.len(), 2);
    assert_eq!(top[0], (String::from("x"), 2));
    assert_eq!(top[1], (String::from("y"), 1));
}

#[test]
fn test_top_word_frequencies_empty_text() {
    assert!(top_word_frequencies("", 5).is_empty());
    assert!(top_word_frequencies("   \t \n ", 5).is_empty());
}
