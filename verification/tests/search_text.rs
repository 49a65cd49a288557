use pezzottify::resolve::HashedItemType;
use pezzottify::search_text::correct_with_vocabulary;
use pezzottify::search_text::metadata_document_parts;
use pezzottify::search_text::normalize_text;
use pezzottify::search_text::str_to_item_type;
use pezzottify::search_text::item_type_to_str;
use pezzottify::vocabulary::Vocabulary;

#[test]
fn normalization_folds_accents_and_collapses_separators() {
    assert_eq!(normalize_text("Beyoncé"), "beyonce");
    assert_eq!(normalize_text("  Sigur Rós -- Ágætis byrjun!! "), "sigur ros agætis byrjun");
    assert_eq!(normalize_text("AC/DC"), "ac dc");
    assert_eq!(normalize_text("Łódź"), "lodz");
    assert_eq!(normalize_text("...!"), "");
    assert_eq!(normalize_text("Motörhead 1979"), "motorhead 1979");
}

#[test]
fn additional_texts_go_to_their_fields() {
    let additional = vec![
        "artist:Prince".to_string(),
        "album:Purple Rain".to_string(),
        "artist:The Revolution".to_string(),
        "extra:Live".to_string(),
        "Remastered".to_string(),
    ];
    let (name, artists, albums, extras) = metadata_document_parts("When Doves Cry", &additional);
    assert_eq!(name, "when doves cry");
    assert_eq!(artists, "prince the revolution");
    assert_eq!(albums, "purple rain");
    assert_eq!(extras, "live remastered");
}

#[test]
fn item_types_are_stored_by_name() {
    assert_eq!(item_type_to_str(HashedItemType::Album), "album");
    assert_eq!(str_to_item_type("track"), Some(HashedItemType::Track));
    assert_eq!(str_to_item_type("Track"), None);
}

#[test]
fn queries_are_corrected_only_against_a_vocabulary() {
    let empty = Vocabulary::new();
    assert_eq!(correct_with_vocabulary(&empty, "lucio dala", 2), "lucio dala");
    let mut vocabulary = Vocabulary::new();
    vocabulary.add_text("Lucio Dalla");
    assert_eq!(correct_with_vocabulary(&vocabulary, "lucio dala", 2), "lucio dalla");
}

use pezzottify::search_text::build_query_variants;
use pezzottify::search_text::expanded_query_variants;

#[test]
fn variants_are_combinations_in_order_and_capped() {
    let lists = vec![
        vec!["a".to_string(), "b".to_string()],
        vec!["x".to_string(), "y".to_string()],
    ];
    let mut current = Vec::new();
    let mut variants = Vec::new();
    build_query_variants(&lists, 0, &mut current, &mut variants);
    assert_eq!(variants, vec!["a x", "a y", "b x", "b y"]);
    assert!(current.is_empty());

    let wide: Vec<Vec<String>> = (0..5)
        .map(|i| (0..3).map(|j| format!("w{i}{j}")).collect())
        .collect();
    let mut variants = Vec::new();
    build_query_variants(&wide, 0, &mut Vec::new(), &mut variants);
    assert_eq!(variants.len(), 16);
    assert_eq!(variants[0], "w00 w10 w20 w30 w40");
    assert_eq!(variants[3], "w00 w10 w20 w31 w40");
}

#[test]
fn queries_are_expanded_with_their_corrections() {
    let mut vocabulary = Vocabulary::new();
    vocabulary.add_text("Lucio Dalla lucia");
    let variants = expanded_query_variants(&vocabulary, "lucio dala", 2);
    assert!(variants.contains(&"lucio dalla".to_string()));
    assert!(expanded_query_variants(&vocabulary, "", 2).is_empty());
    assert!(expanded_query_variants(&vocabulary, "a b c d e f", 2).is_empty());
    assert!(expanded_query_variants(&Vocabulary::new(), "lucio", 2).is_empty());
}

use pezzottify::search_text::impression_device_key;
use pezzottify::search_text::impression_within_budget;

#[test]
fn impressions_have_daily_budgets() {
    assert!(impression_within_budget(499, 199));
    assert!(!impression_within_budget(500, 0));
    assert!(!impression_within_budget(0, 200));
    assert_eq!(impression_device_key(Some(12)), 12);
    assert_eq!(impression_device_key(None), -1);
}
