use pezzottify::index_state::build_start;
use pezzottify::index_state::check_build_options;
use pezzottify::index_state::needs_rebuild;
use pezzottify::index_state::startup_state;
use pezzottify::index_state::state_after_start;
use pezzottify::index_state::BuildOptionsError;
use pezzottify::index_state::BuildStart;
use pezzottify::index_state::IndexState;
use pezzottify::index_state::SearchBuildOptions;
use pezzottify::index_state::StoredIndexFacts;
use pezzottify::index_state::DEFAULT_INDEX_BATCH_SIZE;

fn facts(in_progress: Option<&str>, offset: Option<&str>, total: Option<&str>, count: usize, schema: Option<&str>, enriched: bool) -> StoredIndexFacts {
    StoredIndexFacts {
        build_in_progress: in_progress.map(|s| s.to_string()),
        build_offset: offset.map(|s| s.to_string()),
        build_total: total.map(|s| s.to_string()),
        index_count: count,
        active_schema_version: schema.map(|s| s.to_string()),
        active_index_enriched: enriched,
    }
}

#[test]
fn default_build_options_are_valid() {
    let options = SearchBuildOptions::default();
    assert_eq!(options.batch_size, DEFAULT_INDEX_BATCH_SIZE);
    assert_eq!(options.preparation_threads, 1);
    assert!(!options.sparse_availability);
    assert!(options.replay_mutations);
    assert!(options.verify_fts_integrity);
    assert_eq!(check_build_options(&options), Ok(()));
}

#[test]
fn build_options_need_a_batch_size_and_threads() {
    let zero_batch = SearchBuildOptions { batch_size: 0, preparation_threads: 0, ..SearchBuildOptions::default() };
    assert_eq!(check_build_options(&zero_batch), Err(BuildOptionsError::ZeroBatchSize));
    let zero_threads = SearchBuildOptions { preparation_threads: 0, ..SearchBuildOptions::default() };
    assert_eq!(check_build_options(&zero_threads), Err(BuildOptionsError::ZeroPreparationThreads));
    assert_eq!(
        BuildOptionsError::ZeroBatchSize.message(),
        "search build batch size must be greater than zero"
    );
    assert_eq!(
        BuildOptionsError::ZeroPreparationThreads.message(),
        "search build preparation thread count must be greater than zero"
    );
}

#[test]
fn an_interrupted_build_resumes_from_its_offset() {
    let s = startup_state(&facts(Some("true"), Some("150"), Some("400"), 150, None, false));
    assert!(matches!(s.state, IndexState::Building { processed: 150, total: Some(400) }));
    assert!(s.load_vocabulary);
    let s = startup_state(&facts(Some("true"), Some("junk"), None, 0, None, false));
    assert!(matches!(s.state, IndexState::Building { processed: 0, total: None }));
    assert!(!s.load_vocabulary);
}

#[test]
fn a_current_enriched_index_opens_ready() {
    let s = startup_state(&facts(None, None, None, 10, Some("2"), true));
    assert!(matches!(s.state, IndexState::Ready));
    assert!(s.load_vocabulary);
    let s = startup_state(&facts(Some("false"), None, None, 10, Some("+2"), true));
    assert!(matches!(s.state, IndexState::Ready));
}

#[test]
fn a_legacy_or_empty_index_opens_empty() {
    let s = startup_state(&facts(None, None, None, 10, Some("1"), true));
    assert!(matches!(s.state, IndexState::Empty));
    assert!(s.load_vocabulary);
    let s = startup_state(&facts(None, None, None, 10, Some("2"), false));
    assert!(matches!(s.state, IndexState::Empty));
    let s = startup_state(&facts(None, None, None, 0, Some("2"), true));
    assert!(matches!(s.state, IndexState::Empty));
    assert!(!s.load_vocabulary);
}

#[test]
fn rebuilds_are_needed_for_old_or_unenriched_indexes() {
    assert!(!needs_rebuild(&Some("2".to_string()), true));
    assert!(needs_rebuild(&Some("1".to_string()), true));
    assert!(needs_rebuild(&Some("-2".to_string()), true));
    assert!(needs_rebuild(&None, true));
    assert!(needs_rebuild(&Some("2".to_string()), false));
}

#[test]
fn background_builds_start_where_the_index_stands() {
    let building = IndexState::Building { processed: 7, total: Some(9) };
    assert_eq!(build_start(&building, 7, false), BuildStart::ResumeFrom(7));
    assert_eq!(build_start(&IndexState::Ready, 5, true), BuildStart::AlreadyBuilt);
    assert_eq!(build_start(&IndexState::Ready, 5, false), BuildStart::BuildAvailableIndex);
    assert_eq!(build_start(&IndexState::Ready, 0, true), BuildStart::FullBuild);
    assert_eq!(build_start(&IndexState::Empty, 5, true), BuildStart::FullBuild);
    let failed = IndexState::Failed { error: "disk full".to_string() };
    assert_eq!(build_start(&failed, 5, true), BuildStart::FullBuild);
}

#[test]
fn a_fresh_build_starts_from_nothing() {
    assert!(matches!(
        state_after_start(IndexState::Empty, BuildStart::FullBuild),
        IndexState::Building { processed: 0, total: None }
    ));
    assert!(matches!(
        state_after_start(IndexState::Ready, BuildStart::BuildAvailableIndex),
        IndexState::Building { processed: 0, total: None }
    ));
    assert!(matches!(state_after_start(IndexState::Ready, BuildStart::AlreadyBuilt), IndexState::Ready));
    assert!(matches!(
        state_after_start(IndexState::Building { processed: 3, total: None }, BuildStart::ResumeFrom(3)),
        IndexState::Building { processed: 3, total: None }
    ));
}

#[test]
fn test_resumable_build_detects_partial_state() {
    // Two items indexed, with the metadata of a partial build.
    let stored = facts(Some("true"), Some("2"), Some("5"), 2, None, false);
    let startup = startup_state(&stored);
    assert_eq!(stored.index_count, 2);
    assert!(
        matches!(startup.state, IndexState::Building { processed: 2, total: Some(5) }),
        "Expected Building state with processed=2, total=Some(5), got {:?}",
        startup.state
    );
    assert!(startup.load_vocabulary);
}
