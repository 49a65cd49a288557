use pezzottify::lexical::candidate_limit;
use pezzottify::lexical::fts_phrase;
use pezzottify::lexical::lexical_channels;
use pezzottify::lexical::quoted_phrase;
use pezzottify::lexical::typo_expression;
use pezzottify::lexical::LexicalChannel;
use pezzottify::vocabulary::Vocabulary;

#[test]
fn a_quoted_query_is_recognized_once_trimmed() {
    assert_eq!(quoted_phrase("  \"purple rain\" "), Some("purple rain"));
    assert_eq!(quoted_phrase("\"\""), Some(""));
    assert_eq!(quoted_phrase("\""), None);
    assert_eq!(quoted_phrase("purple \"rain\""), None);
    assert_eq!(quoted_phrase("\"purple rain"), None);
}

#[test]
fn phrases_double_their_quotes() {
    assert_eq!(fts_phrase("purple rain"), "\"purple rain\"");
    assert_eq!(fts_phrase("say \"hi\""), "\"say \"\"hi\"\"\"");
    assert_eq!(fts_phrase(""), "\"\"");
}

#[test]
fn channels_fetch_four_candidates_per_hit_up_to_four_hundred() {
    assert_eq!(candidate_limit(0), 0);
    assert_eq!(candidate_limit(10), 40);
    assert_eq!(candidate_limit(100), 400);
    assert_eq!(candidate_limit(150), 400);
}

#[test]
fn typo_variants_skip_empty_and_unchanged_ones() {
    let variants = vec!["Lucio Dalla".to_string(), "!!".to_string(), "lucio dala".to_string()];
    assert_eq!(
        typo_expression("lucio dala", &variants, "Lucia  Dalla"),
        "\"lucio dalla\" OR \"lucia dalla\""
    );
    assert_eq!(typo_expression("lucio dala", &vec![], "lucio dala"), "");
}

#[test]
fn typo_variants_are_capped() {
    let variants: Vec<String> = (0..20).map(|i| format!("w{i}")).collect();
    let expression = typo_expression("q", &variants, "c");
    assert_eq!(expression.matches(" OR ").count(), 15);
    assert!(expression.starts_with("\"w0\" OR \"w1\""));
    assert!(!expression.contains("\"c\""));
}

#[test]
fn a_quoted_phrase_is_searched_alone() {
    let channels = lexical_channels(&Vocabulary::new(), 2, " \"Purple  Rain\" ");
    assert_eq!(channels.len(), 1);
    assert_eq!(channels[0].channel, LexicalChannel::Phrase);
    assert_eq!(channels[0].expression, "\"purple rain\"");
}

#[test]
fn a_plain_query_is_searched_by_phrase_and_words() {
    let channels = lexical_channels(&Vocabulary::new(), 2, "Purple Rain!");
    assert_eq!(channels.len(), 3);
    assert_eq!(channels[0].channel, LexicalChannel::PrimaryPhrase);
    assert_eq!(channels[0].expression, "primary_name : \"purple rain\"");
    assert_eq!(channels[1].channel, LexicalChannel::AllTokens);
    assert_eq!(channels[1].expression, "\"purple\" AND \"rain\"");
    assert_eq!(channels[2].channel, LexicalChannel::AnyToken);
    assert_eq!(channels[2].expression, "\"purple\" OR \"rain\"");
}

#[test]
fn a_query_with_corrections_also_gets_a_typo_channel() {
    let mut vocabulary = Vocabulary::new();
    vocabulary.add_text("Lucio Dalla lucia");
    let channels = lexical_channels(&vocabulary, 2, "lucio dala");
    assert_eq!(channels.len(), 4);
    assert_eq!(channels[3].channel, LexicalChannel::Typo);
    assert!(channels[3].expression.contains("\"lucio dalla\""));
    assert!(!channels[3].expression.contains("\"lucio dala\""));
}

#[test]
fn a_query_of_nothing_searchable_has_no_channel() {
    assert!(lexical_channels(&Vocabulary::new(), 2, " ?! ").is_empty());
    assert!(lexical_channels(&Vocabulary::new(), 2, "\"  \"").is_empty());
}

#[test]
fn channels_have_provider_ids() {
    assert_eq!(LexicalChannel::Phrase.provider_id(), "lexical.phrase");
    assert_eq!(LexicalChannel::PrimaryPhrase.provider_id(), "lexical.primary_phrase");
    assert_eq!(LexicalChannel::AllTokens.provider_id(), "lexical.all_tokens");
    assert_eq!(LexicalChannel::AnyToken.provider_id(), "lexical.any_token");
    assert_eq!(LexicalChannel::Typo.provider_id(), "lexical.typo");
}
