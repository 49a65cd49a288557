use std::collections::HashSet;

use pezzottify::catalog::album_summary_basic;
use pezzottify::catalog::track_summary_with_image;
use pezzottify::catalog::Album;
use pezzottify::catalog::AlbumAvailability;
use pezzottify::catalog::AlbumSummary;
use pezzottify::catalog::AlbumType;
use pezzottify::catalog::Artist;
use pezzottify::catalog::ArtistRole;
use pezzottify::catalog::ArtistSummary;
use pezzottify::catalog::Disc;
use pezzottify::catalog::MatchType;
use pezzottify::catalog::ResolvedAlbum;
use pezzottify::catalog::ResolvedArtist;
use pezzottify::catalog::ResolvedTrack;
use pezzottify::catalog::Track;
use pezzottify::catalog::TrackArtist;
use pezzottify::catalog::TrackAvailability;
use pezzottify::catalog::TrackSummary;
use pezzottify::indexer::IndexTask;
use pezzottify::indexer::IndexTracker;
use pezzottify::indexer::IndexedItemId;
use pezzottify::indexer::SearchIndexItem;
use pezzottify::resolve::HashedItemType;

fn make_artist(id: &str, name: &str) -> Artist {
    Artist {
        id: id.to_string(),
        name: name.to_string(),
        genres: vec![],
        followers_total: 0,
        popularity: 0,
        available: false,
    }
}

fn make_album(id: &str, name: &str) -> Album {
    Album {
        id: id.to_string(),
        name: name.to_string(),
        album_type: AlbumType::Album,
        label: None,
        release_date: Some("1984-01-01".to_string()),
        release_date_precision: Some("day".to_string()),
        external_id_upc: None,
        popularity: 0,
        album_availability: AlbumAvailability::default(),
    }
}

fn make_track(id: &str, name: &str, album_id: &str) -> Track {
    Track {
        id: id.to_string(),
        name: name.to_string(),
        album_id: album_id.to_string(),
        disc_number: 1,
        track_number: 1,
        duration_ms: 240000,
        explicit: false,
        popularity: 0,
        language: None,
        external_id_isrc: None,
        audio_uri: None,
        availability: TrackAvailability::default(),
    }
}

#[test]
fn test_resolved_track_to_summary() {
    let artist = make_artist("artist_1", "Prince");
    let album = make_album("album_1", "Purple Rain");
    let track = make_track("track_1", "When Doves Cry", "album_1");

    let resolved = ResolvedTrack {
        track,
        album,
        artists: vec![TrackArtist {
            artist,
            role: ArtistRole::MainArtist,
        }],
    };

    let summary = TrackSummary::from(&resolved);

    assert_eq!(summary.id, "track_1");
    assert_eq!(summary.name, "When Doves Cry");
    assert_eq!(summary.duration_ms, 240000);
    assert_eq!(summary.track_number, Some(1));
    assert_eq!(summary.album_id, "album_1");
    assert_eq!(summary.album_name, "Purple Rain");
    assert_eq!(summary.artist_names, vec!["Prince"]);
    assert_eq!(summary.image_id, Some("album_1".to_string()));
}

#[test]
fn test_track_summary_with_image() {
    let artist = make_artist("artist_1", "Prince");
    let album = make_album("album_1", "Purple Rain");
    let track = make_track("track_1", "When Doves Cry", "album_1");

    let resolved = ResolvedTrack {
        track,
        album,
        artists: vec![TrackArtist {
            artist,
            role: ArtistRole::MainArtist,
        }],
    };

    let summary = track_summary_with_image(&resolved, Some("custom_img"));

    assert_eq!(summary.image_id, Some("custom_img".to_string()));
}

#[test]
fn test_resolved_album_to_summary() {
    let artist = make_artist("artist_1", "Prince");
    let album = make_album("album_1", "Purple Rain");
    let track1 = make_track("track_1", "When Doves Cry", "album_1");
    let track2 = make_track("track_2", "Purple Rain", "album_1");

    let resolved = ResolvedAlbum {
        album,
        artists: vec![artist],
        discs: vec![Disc {
            number: 1,
            tracks: vec![track1, track2],
        }],
    };

    let summary = AlbumSummary::from(&resolved);

    assert_eq!(summary.id, "album_1");
    assert_eq!(summary.name, "Purple Rain");
    assert_eq!(summary.release_year, Some(1984));
    assert_eq!(summary.track_count, 2);
    assert_eq!(summary.image_id, Some("album_1".to_string()));
    assert_eq!(summary.artist_names, vec!["Prince"]);
    assert_eq!(summary.availability, "missing");
}

#[test]
fn test_album_summary_basic() {
    let album = make_album("album_1", "Purple Rain");
    let summary = album_summary_basic(&album, vec!["Prince".to_string()]);

    assert_eq!(summary.id, "album_1");
    assert_eq!(summary.name, "Purple Rain");
    assert_eq!(summary.release_year, Some(1984));
    assert_eq!(summary.track_count, 0);
    assert_eq!(summary.image_id, Some("album_1".to_string()));
    assert_eq!(summary.artist_names, vec!["Prince"]);
    assert_eq!(summary.availability, "missing");
}

#[test]
fn test_resolved_artist_to_summary() {
    let artist = make_artist("artist_1", "Prince");

    let resolved = ResolvedArtist {
        artist,
        related_artists: vec![],
    };

    let summary = ArtistSummary::from(&resolved);

    assert_eq!(summary.id, "artist_1");
    assert_eq!(summary.name, "Prince");
    assert_eq!(summary.image_id, Some("artist_1".to_string()));
}

#[test]
fn test_artist_to_summary() {
    let artist = make_artist("artist_1", "Prince");
    let summary = ArtistSummary::from(&artist);

    assert_eq!(summary.id, "artist_1");
    assert_eq!(summary.name, "Prince");
    assert_eq!(summary.image_id, Some("artist_1".to_string()));
}

#[test]
fn test_multiple_artists_on_track() {
    let artist1 = make_artist("artist_1", "Prince");
    let artist2 = make_artist("artist_2", "The Revolution");
    let album = make_album("album_1", "Purple Rain");
    let track = make_track("track_1", "When Doves Cry", "album_1");

    let resolved = ResolvedTrack {
        track,
        album,
        artists: vec![
            TrackArtist {
                artist: artist1,
                role: ArtistRole::MainArtist,
            },
            TrackArtist {
                artist: artist2,
                role: ArtistRole::FeaturedArtist,
            },
        ],
    };

    let summary = TrackSummary::from(&resolved);

    assert_eq!(summary.artist_names, vec!["Prince", "The Revolution"]);
}

#[test]
fn test_match_type_for_artist() {
    assert_eq!(MatchType::Artist, MatchType::Artist);
}

#[test]
fn test_match_type_for_album() {
    assert_eq!(MatchType::Album, MatchType::Album);
}

#[test]
fn test_match_type_for_track() {
    assert_eq!(MatchType::Track, MatchType::Track);
}

#[test]
fn test_indexed_item_id_hash() {
    let id1 = IndexedItemId {
        id: "abc123".to_string(),
        item_type: HashedItemType::Artist,
    };
    let id2 = IndexedItemId {
        id: "abc123".to_string(),
        item_type: HashedItemType::Album,
    };
    let id3 = IndexedItemId {
        id: "abc123".to_string(),
        item_type: HashedItemType::Artist,
    };

    // Same ID but different type = different
    assert_ne!(id1, id2);
    // Same ID and type = equal
    assert_eq!(id1, id3);

    let mut set = HashSet::new();
    set.insert(id1.clone());
    assert!(set.contains(&id1));
    assert!(!set.contains(&id2));
    assert!(set.contains(&id3));
}

#[test]
fn index_task_reports_its_id_and_kind() {
    let task = IndexTask::Album("al1".to_string());
    assert_eq!(task.id(), "al1");
    assert_eq!(task.kind_name(), "album");
    assert_eq!(IndexTask::Artist("a".to_string()).kind_name(), "artist");
    assert_eq!(IndexTask::Track("t".to_string()).kind_name(), "track");
}

fn batch_ids(batch: &[SearchIndexItem]) -> Vec<(HashedItemType, String)> {
    batch.iter().map(|item| (item.item_type, item.id.clone())).collect()
}

#[test]
fn expanding_a_track_indexes_it_with_its_album_and_artists_once() {
    let mut tracker = IndexTracker::new();
    let mut batch = Vec::new();
    let resolved = ResolvedTrack {
        track: make_track("t1", "When Doves Cry", "al1"),
        album: make_album("al1", "Purple Rain"),
        artists: vec![
            TrackArtist { artist: make_artist("a1", "Prince"), role: ArtistRole::MainArtist },
            TrackArtist { artist: make_artist("a1", "Prince"), role: ArtistRole::Composer },
        ],
    };
    tracker.expand_track_with(&mut batch, "t1", Some(resolved.clone()));
    assert_eq!(
        batch_ids(&batch),
        vec![
            (HashedItemType::Track, "t1".to_string()),
            (HashedItemType::Album, "al1".to_string()),
            (HashedItemType::Artist, "a1".to_string()),
        ]
    );
    assert!(tracker.is_indexed("al1", HashedItemType::Album));
    assert!(!tracker.is_indexed("al1", HashedItemType::Artist));

    // A second touch adds nothing.
    tracker.expand_track_with(&mut batch, "t1", Some(resolved));
    assert_eq!(batch.len(), 3);
}

#[test]
fn expanding_an_album_skips_what_is_already_indexed() {
    let mut tracker = IndexTracker::new();
    let mut batch = Vec::new();
    tracker.mark_indexed("t2", HashedItemType::Track);
    let resolved = ResolvedAlbum {
        album: make_album("al1", "Purple Rain"),
        artists: vec![make_artist("a1", "Prince")],
        discs: vec![
            Disc { number: 1, tracks: vec![make_track("t1", "One", "al1"), make_track("t2", "Two", "al1")] },
            Disc { number: 2, tracks: vec![make_track("t3", "Three", "al1")] },
        ],
    };
    tracker.expand_album_with(&mut batch, "al1", Some(resolved));
    assert_eq!(
        batch_ids(&batch),
        vec![
            (HashedItemType::Album, "al1".to_string()),
            (HashedItemType::Artist, "a1".to_string()),
            (HashedItemType::Track, "t1".to_string()),
            (HashedItemType::Track, "t3".to_string()),
        ]
    );
}

#[test]
fn expanding_an_artist_covers_related_artists_and_discography() {
    let mut tracker = IndexTracker::new();
    let mut batch = Vec::new();
    let resolved = ResolvedArtist {
        artist: make_artist("a1", "Prince"),
        related_artists: vec![make_artist("a2", "The Revolution")],
    };
    tracker.expand_artist_with(
        &mut batch,
        "a1",
        Some(resolved),
        Some(vec![make_album("al1", "Purple Rain")]),
    );
    assert_eq!(
        batch_ids(&batch),
        vec![
            (HashedItemType::Artist, "a1".to_string()),
            (HashedItemType::Artist, "a2".to_string()),
            (HashedItemType::Album, "al1".to_string()),
        ]
    );
    assert_eq!(batch[1].name, "The Revolution");

    // An unknown artist adds nothing.
    tracker.expand_artist_with(&mut batch, "zz", None, None);
    assert_eq!(batch.len(), 3);
}
