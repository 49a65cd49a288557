use std::collections::HashMap;

use pezzottify::expansion::extend_with_variants;
use pezzottify::expansion::search_expanded;
use pezzottify::expansion::search_expanded_with_availability;
use pezzottify::expansion::SearchVault;
use pezzottify::indexer::SearchIndexItem;
use pezzottify::resolve::HashedItemType;
use pezzottify::search_text::correct_with_vocabulary;
use pezzottify::search_text::expanded_query_variants;
use pezzottify::streaming::SearchResult;
use pezzottify::vocabulary::Vocabulary;

fn hit(item_type: HashedItemType, id: &str) -> SearchResult {
    SearchResult {
        item_type,
        item_id: id.to_string(),
        score: 1,
        adjusted_score: 1,
        matchable_text: id.to_string(),
    }
}

fn ids(results: &[SearchResult]) -> Vec<String> {
    results.iter().map(|r| r.item_id.clone()).collect()
}

/// Answers each query with a fixed list of hits; "unavailable" hits are left out of
/// searches over available content.
struct FakeVault {
    enriched: bool,
    answers: HashMap<String, Vec<SearchResult>>,
}

impl SearchVault for FakeVault {
    fn is_enriched(&self) -> bool {
        self.enriched
    }

    fn search(&self, query: &str, max_results: usize, _filter: Option<Vec<HashedItemType>>) -> Vec<SearchResult> {
        self.answers.get(query).cloned().unwrap_or_default().into_iter().take(max_results).collect()
    }

    fn search_with_availability(
        &self,
        query: &str,
        max_results: usize,
        filter: Option<Vec<HashedItemType>>,
        available_only: bool,
    ) -> Vec<SearchResult> {
        self.search(query, max_results, filter)
            .into_iter()
            .filter(|r| !available_only || r.item_id != "unavailable")
            .collect()
    }

    fn upsert_items(&self, _items: &[SearchIndexItem]) -> Result<(), String> {
        Ok(())
    }
}

fn lucio_vocabulary() -> Vocabulary {
    let mut vocabulary = Vocabulary::new();
    vocabulary.add_text("Lucio Dalla lucia");
    vocabulary
}

/// A vault where the query finds `a1` and `t1`, the corrected query finds `never`, and
/// every other variant finds `t1`, `al1`, `t1` again, `unavailable` and `t2`.
fn lucio_vault(enriched: bool) -> FakeVault {
    let vocabulary = lucio_vocabulary();
    let corrected = correct_with_vocabulary(&vocabulary, "lucio dala", 2);
    let mut answers = HashMap::new();
    for variant in expanded_query_variants(&vocabulary, "lucio dala", 2) {
        answers.insert(
            variant,
            vec![
                hit(HashedItemType::Track, "t1"),
                hit(HashedItemType::Album, "al1"),
                hit(HashedItemType::Track, "t1"),
                hit(HashedItemType::Artist, "unavailable"),
                hit(HashedItemType::Track, "t2"),
            ],
        );
    }
    answers.insert(corrected, vec![hit(HashedItemType::Artist, "never")]);
    answers.insert(
        "lucio dala".to_string(),
        vec![hit(HashedItemType::Artist, "a1"), hit(HashedItemType::Track, "t1")],
    );
    FakeVault { enriched, answers }
}

#[test]
fn expansion_adds_only_new_hits_up_to_the_limit() {
    let vocabulary = lucio_vocabulary();
    let variants = expanded_query_variants(&vocabulary, "lucio dala", 2);
    let corrected = correct_with_vocabulary(&vocabulary, "lucio dala", 2);
    assert!(variants.iter().any(|v| v.to_lowercase() != corrected.to_lowercase()));
    let vault = lucio_vault(false);
    let found = search_expanded(&vault, &vocabulary, 2, "lucio dala", 10, None);
    assert_eq!(ids(&found), vec!["a1", "t1", "al1", "unavailable", "t2"]);
    let capped = search_expanded(&vault, &vocabulary, 2, "lucio dala", 3, None);
    assert_eq!(ids(&capped), vec!["a1", "t1", "al1"]);
}

#[test]
fn the_corrected_query_counts_as_tried() {
    let vocabulary = lucio_vocabulary();
    let found = search_expanded(&lucio_vault(false), &vocabulary, 2, "lucio dala", 10, None);
    assert!(!ids(&found).contains(&"never".to_string()));
}

#[test]
fn expansion_over_available_content_uses_the_availability_search() {
    let vocabulary = lucio_vocabulary();
    let found = search_expanded_with_availability(&lucio_vault(false), &vocabulary, 2, "lucio dala", 10, None, true);
    assert_eq!(ids(&found), vec!["a1", "t1", "al1", "t2"]);
}

#[test]
fn an_enriched_index_is_searched_as_is() {
    let vocabulary = lucio_vocabulary();
    let found = search_expanded(&lucio_vault(true), &vocabulary, 2, "lucio dala", 10, None);
    assert_eq!(ids(&found), vec!["a1", "t1"]);
}

#[test]
fn enough_first_hits_are_kept_as_they_are() {
    let vocabulary = lucio_vocabulary();
    let first = vec![hit(HashedItemType::Track, "x"), hit(HashedItemType::Track, "x")];
    let found = extend_with_variants(&lucio_vault(false), &vocabulary, 2, "lucio dala", 2, None, None, first);
    assert_eq!(ids(&found), vec!["x", "x"]);
}

#[test]
fn the_same_id_of_another_kind_is_a_new_hit() {
    let vocabulary = lucio_vocabulary();
    let first = vec![hit(HashedItemType::Artist, "t1")];
    let found = extend_with_variants(&lucio_vault(false), &vocabulary, 2, "lucio dala", 3, None, None, first);
    assert_eq!(ids(&found), vec!["t1", "t1", "al1"]);
    assert_eq!(found[1].item_type, HashedItemType::Track);
}
