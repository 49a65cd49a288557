use pezzottify::levenshtein::levenshtein_distance;
use pezzottify::vocabulary::Vocabulary;

#[test]
fn test_levenshtein_distance() {
    // Same strings
    assert_eq!(levenshtein_distance("hello", "hello"), 0);

    // One character different
    assert_eq!(levenshtein_distance("hello", "hallo"), 1);
    assert_eq!(levenshtein_distance("hello", "jello"), 1);

    // Insertions/deletions
    assert_eq!(levenshtein_distance("hello", "hell"), 1);
    assert_eq!(levenshtein_distance("hello", "helloo"), 1);

    // Multiple edits
    assert_eq!(levenshtein_distance("kitten", "sitting"), 3);

    // Empty strings
    assert_eq!(levenshtein_distance("", "hello"), 5);
    assert_eq!(levenshtein_distance("hello", ""), 5);
    assert_eq!(levenshtein_distance("", ""), 0);

    // Common typos
    assert_eq!(levenshtein_distance("beatles", "beatels"), 2); // transposition
    assert_eq!(levenshtein_distance("metallica", "metalica"), 1); // missing letter
}

#[test]
fn test_vocabulary_basic() {
    let mut vocab = Vocabulary::new();
    vocab.add_word("beatles");
    vocab.add_word("metallica");
    vocab.add_word("nirvana");

    assert_eq!(vocab.len(), 3);

    // Exact match
    assert_eq!(vocab.find_best_match("beatles", 2), Some("beatles"));

    // Typo correction
    assert_eq!(vocab.find_best_match("beatels", 2), Some("beatles"));
    assert_eq!(vocab.find_best_match("metalica", 2), Some("metallica"));
    assert_eq!(vocab.find_best_match("nirvna", 2), Some("nirvana"));

    // No match within distance
    assert_eq!(vocab.find_best_match("xyz", 1), None);
}

#[test]
fn test_vocabulary_from_text() {
    let mut vocab = Vocabulary::new();
    vocab.add_text("The Beatles Abbey Road");
    vocab.add_text("Led Zeppelin Houses of the Holy");

    // Should have unique words (lowercase)
    assert!(vocab.find_best_match("beatles", 0).is_some());
    assert!(vocab.find_best_match("zeppelin", 0).is_some());
    assert!(vocab.find_best_match("abbey", 0).is_some());
}

#[test]
fn test_correct_query() {
    let mut vocab = Vocabulary::new();
    vocab.add_text("The Beatles Abbey Road Come Together");

    // Correct a query with typos
    let corrected = vocab.correct_query("beatels abey road", 2);
    assert_eq!(corrected, "beatles abbey road");

    // Query with no typos
    let corrected = vocab.correct_query("beatles abbey", 2);
    assert_eq!(corrected, "beatles abbey");

    // Query with unknown words (kept as-is)
    let corrected = vocab.correct_query("beatels xyz", 2);
    assert_eq!(corrected, "beatles xyz");
}

#[test]
fn test_vocabulary_case_insensitive() {
    let mut vocab = Vocabulary::new();
    vocab.add_word("Beatles");
    vocab.add_word("METALLICA");

    assert_eq!(vocab.find_best_match("beatles", 0), Some("beatles"));
    assert_eq!(vocab.find_best_match("BEATLES", 0), Some("beatles"));
    assert_eq!(vocab.find_best_match("metallica", 0), Some("metallica"));
}

#[test]
fn test_lucio_dalla_typo_correction() {
    let mut vocab = Vocabulary::new();
    vocab.add_text("Lucio Dalla");

    // Verify words are in vocabulary
    assert_eq!(vocab.find_best_match("lucio", 0), Some("lucio"));
    assert_eq!(vocab.find_best_match("dalla", 0), Some("dalla"));

    // "fucio" -> "lucio" (distance 1: f->l)
    assert_eq!(vocab.find_best_match("fucio", 2), Some("lucio"));
    // "palla" -> "dalla" (distance 1: p->d)
    assert_eq!(vocab.find_best_match("palla", 2), Some("dalla"));

    // Full query correction
    let corrected = vocab.correct_query("fucio palla", 2);
    assert_eq!(corrected, "lucio dalla");
}

#[test]
fn test_lucio_dalla_correction_after_large_same_length_bucket() {
    let mut vocab = Vocabulary::new();

    for i in 0..6_000 {
        vocab.add_word(&format!("x{:04}", i));
    }
    vocab.add_text("Lucio Dalla");

    assert_eq!(vocab.find_best_match("fucio", 2), Some("lucio"));
    assert_eq!(vocab.correct_query("fucio dalla", 2), "lucio dalla");
}

#[test]
fn test_find_best_matches_includes_exact_and_fuzzy_alternatives() {
    let mut vocab = Vocabulary::new();
    vocab.add_text("Lucio Dalla Palla Alla");

    assert_eq!(
        vocab.find_best_matches("palla", 2, 3),
        vec!["palla", "dalla", "alla"]
    );
    assert_eq!(
        vocab.find_best_matches("alla", 2, 3),
        vec!["alla", "dalla", "palla"]
    );
}

#[test]
fn test_tie_breaking_prefers_same_length() {
    let mut vocab = Vocabulary::new();
    // Add both "alla" (length 4) and "dalla" (length 5)
    vocab.add_word("alla");
    vocab.add_word("dalla");

    // "palla" should match "dalla" (same length), not "alla"
    assert_eq!(vocab.find_best_match("palla", 2), Some("dalla"));
}

#[test]
fn test_short_words_not_corrected() {
    let mut vocab = Vocabulary::new();
    vocab.add_text("Elio e le Storie Tese");
    vocab.add_text("some random words like le la de");

    assert_eq!(
        vocab.find_best_match("e", 2),
        None,
        "Single char 'e' should not be corrected"
    );
    assert_eq!(
        vocab.find_best_match("a", 2),
        None,
        "Single char 'a' should not be corrected"
    );
    assert_eq!(
        vocab.find_best_match("xy", 2),
        None,
        "Two char 'xy' should not be corrected"
    );

    // But 3+ char words should still be corrected if close match exists
    assert_eq!(vocab.find_best_match("elio", 2), Some("elio"));
    assert_eq!(vocab.find_best_match("eloi", 2), Some("elio")); // typo corrected
}

#[test]
fn test_elio_e_le_storie_tese_query() {
    let mut vocab = Vocabulary::new();
    vocab.add_text("Elio e le Storie Tese");
    vocab.add_text("The Beatles Abbey Road");
    vocab.add_text("some la de words");

    let corrected = vocab.correct_query("elio e le storie tese", 2);
    assert_eq!(
        corrected, "elio e le storie tese",
        "Short words 'e' and 'le' should not be modified"
    );

    let corrected = vocab.correct_query("eloi e le storei tesi", 2);
    assert_eq!(
        corrected, "elio e le storie tese",
        "Typos in longer words corrected, but short words preserved"
    );
}

#[test]
fn add_text_splits_on_non_ascii_punctuation() {
    let mut vocab = Vocabulary::new();
    vocab.add_text("rock\u{2014}roll, live");
    assert_eq!(vocab.len(), 3);
    assert_eq!(vocab.find_best_match("rock", 0), Some("rock"));
    assert_eq!(vocab.find_best_match("roll", 0), Some("roll"));
    assert_eq!(vocab.find_best_match("live", 0), Some("live"));
}

#[test]
fn cloned_vocabulary_keeps_its_words() {
    let mut vocab = Vocabulary::new();
    vocab.add_text("Abbey Road abbey");
    let copy = vocab.clone();
    assert_eq!(copy.len(), 2);
    assert_eq!(copy.find_best_match("abbey", 0), Some("abbey"));
    assert_eq!(copy.find_best_match("rood", 1), Some("road"));
}

#[test]
fn add_text_keeps_accented_words_whole() {
    let mut vocab = Vocabulary::new();
    vocab.add_text("naïve résumé «live»");
    assert_eq!(vocab.len(), 3);
    assert_eq!(vocab.find_best_match("naïve", 0), Some("naïve"));
    assert_eq!(vocab.find_best_match("résumé", 0), Some("résumé"));
    assert_eq!(vocab.find_best_match("live", 0), Some("live"));
}

#[test]
fn first_ranked_match_is_the_best_match() {
    let mut vocab = Vocabulary::new();
    vocab.add_text("beatles beetles battles abbey road");
    let matches = vocab.find_best_matches("beatels", 2, 3);
    assert_eq!(matches.first().copied(), vocab.find_best_match("beatels", 2));
    assert!(vocab.find_best_matches("zzzzzz", 1, 3).is_empty());
    assert_eq!(vocab.find_best_match("zzzzzz", 1), None);
}

#[test]
fn correcting_twice_is_correcting_once() {
    let mut vocab = Vocabulary::new();
    vocab.add_text("The Beatles Abbey Road Come Together");
    let once = vocab.correct_query("beatels abey rod xyz", 2);
    assert_eq!(vocab.correct_query(&once, 2), once);
}

#[test]
fn edit_distance_obeys_the_triangle_inequality() {
    let d = |a: &str, b: &str| levenshtein_distance(a, b);
    assert_eq!(d("kitten", "sitting"), 3);
    assert!(d("kitten", "sitting") <= d("kitten", "mitten") + d("mitten", "sitting"));
    assert!(d("kitten", "sitting") <= 7);
}
