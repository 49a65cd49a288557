use pezzottify::index_build::availability_row_kept;
use pezzottify::index_build::build_start;
use pezzottify::index_build::build_step;
use pezzottify::index_build::feeds_vocabulary;
use pezzottify::index_build::phase_name;
use pezzottify::index_build::replay_actions;
use pezzottify::index_build::resume_phase;
use pezzottify::index_build::start_offset;
use pezzottify::index_build::stored_rowid;
use pezzottify::index_build::validate_index_counts;
use pezzottify::index_build::BuildAction;
use pezzottify::index_build::BuildEvent;
use pezzottify::index_build::BuildProgress;
use pezzottify::index_build::SearchIndexCounts;
use pezzottify::index_build::MAX_VOCABULARY_SOURCE_ROWS;

#[test]
fn phases_run_artists_albums_tracks() {
    assert_eq!(phase_name(0), "artist");
    assert_eq!(phase_name(1), "album");
    assert_eq!(phase_name(2), "track");
    assert_eq!(resume_phase(Some("album")), 1);
    assert_eq!(resume_phase(Some("track")), 2);
    assert_eq!(resume_phase(Some("playlist")), 0);
    assert_eq!(resume_phase(None), 0);
}

#[test]
fn stored_rowid_parses_like_i64() {
    assert_eq!(stored_rowid(Some("42")), 42);
    assert_eq!(stored_rowid(Some("+5")), 5);
    assert_eq!(stored_rowid(Some("-7")), -7);
    assert_eq!(stored_rowid(Some("-+5")), 0);
    assert_eq!(stored_rowid(Some("abc")), 0);
    assert_eq!(stored_rowid(Some("")), 0);
    assert_eq!(stored_rowid(Some("9223372036854775807")), i64::MAX);
    assert_eq!(stored_rowid(Some("9223372036854775808")), 0);
    assert_eq!(stored_rowid(Some("-9223372036854775808")), i64::MIN);
    assert_eq!(stored_rowid(None), 0);
}

#[test]
fn missing_side_tables_restart_the_build() {
    assert_eq!(start_offset(Some(500), true), 500);
    assert_eq!(start_offset(Some(500), false), 0);
    assert_eq!(start_offset(Some(0), true), 0);
    assert_eq!(start_offset(None, true), 0);
}

#[test]
fn interrupted_build_resumes_where_it_stood() {
    let mut s = build_start(0, Some("artist"), Some("0"));
    assert_eq!(s, BuildProgress { phase: 0, after_rowid: 0, processed: 0 });
    let (next, action) = build_step(s, BuildEvent::Page { len: 10, last_rowid: 17 });
    assert_eq!(action, BuildAction::StorePage { phase: 0, after_rowid: 17, offset: 10 });
    s = next;
    let (next, action) = build_step(s, BuildEvent::Exhausted);
    assert_eq!(action, BuildAction::NextPhase { phase: 1 });
    assert_eq!(next, BuildProgress { phase: 1, after_rowid: 0, processed: 10 });
    s = next;
    let (next, action) = build_step(s, BuildEvent::Page { len: 5, last_rowid: 99 });
    assert_eq!(action, BuildAction::StorePage { phase: 1, after_rowid: 99, offset: 15 });
    // The recorded progress gives the same state back.
    let resumed = build_start(15, Some(phase_name(1)), Some(&99.to_string()));
    assert_eq!(resumed, next);
    s = next;
    let (next, _) = build_step(s, BuildEvent::Exhausted);
    let (last, action) = build_step(next, BuildEvent::Exhausted);
    assert_eq!(action, BuildAction::Validate);
    assert_eq!(last.phase, 3);
    assert_eq!(last.processed, 15);
}

#[test]
fn availability_and_vocabulary_rules() {
    assert!(availability_row_kept(false, false));
    assert!(availability_row_kept(true, true));
    assert!(!availability_row_kept(true, false));
    assert!(feeds_vocabulary(0));
    assert!(feeds_vocabulary(MAX_VOCABULARY_SOURCE_ROWS - 1));
    assert!(!feeds_vocabulary(MAX_VOCABULARY_SOURCE_ROWS));
}

#[test]
fn validation_reports_the_first_mismatch() {
    let expected = SearchIndexCounts { artists: 2, albums: 3, tracks: 4 };
    assert_eq!(expected.total(), 9);
    assert_eq!(validate_index_counts(expected, expected, 9), Ok(()));
    assert_eq!(
        validate_index_counts(expected, SearchIndexCounts { artists: 1, albums: 0, tracks: 4 }, 5),
        Err("search index artist count mismatch: expected 2, got 1".to_string())
    );
    assert_eq!(
        validate_index_counts(expected, SearchIndexCounts { artists: 2, albums: 0, tracks: 4 }, 6),
        Err("search index album count mismatch: expected 3, got 0".to_string())
    );
    assert_eq!(
        validate_index_counts(expected, SearchIndexCounts { artists: 2, albums: 3, tracks: 7 }, 12),
        Err("search index track count mismatch: expected 4, got 7".to_string())
    );
    assert_eq!(
        validate_index_counts(expected, expected, 10),
        Err("search index total count mismatch: expected 9, got 10".to_string())
    );
}

#[test]
fn counts_total_saturates() {
    let counts = SearchIndexCounts { artists: usize::MAX, albums: 1, tracks: 1 };
    assert_eq!(counts.total(), usize::MAX);
}

#[test]
fn replay_deletes_then_inserts_upserts() {
    let upsert = replay_actions("upsert", true);
    assert!(upsert.delete_from_index && upsert.delete_from_available);
    assert!(upsert.insert_into_index && upsert.insert_into_available);
    let hidden = replay_actions("upsert", false);
    assert!(hidden.insert_into_index && !hidden.insert_into_available);
    let delete = replay_actions("delete", true);
    assert!(delete.delete_from_index && delete.delete_from_available);
    assert!(!delete.insert_into_index && !delete.insert_into_available);
}

#[test]
fn recorded_progress_round_trips_any_rowid() {
    let s = BuildProgress { phase: 2, after_rowid: 0, processed: 7 };
    let (next, action) = build_step(s, BuildEvent::Page { len: 3, last_rowid: -3 });
    assert_eq!(action, BuildAction::StorePage { phase: 2, after_rowid: -3, offset: 10 });
    let resumed = build_start(10, Some(phase_name(2)), Some(&(-3i64).to_string()));
    assert_eq!(resumed, next);
}
