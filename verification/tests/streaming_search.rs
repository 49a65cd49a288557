use std::collections::HashMap;

use pezzottify::catalog::Album;
use pezzottify::catalog::AlbumAvailability;
use pezzottify::catalog::AlbumType;
use pezzottify::catalog::Artist;
use pezzottify::catalog::ArtistRole;
use pezzottify::catalog::Disc;
use pezzottify::catalog::MatchType;
use pezzottify::catalog::ResolvedAlbum;
use pezzottify::catalog::ResolvedArtist;
use pezzottify::catalog::ResolvedTrack;
use pezzottify::catalog::Track;
use pezzottify::catalog::TrackArtist;
use pezzottify::catalog::TrackAvailability;
use pezzottify::resolve::CatalogStore;
use pezzottify::resolve::CatalogStoreError;
use pezzottify::resolve::HashedItemType;
use pezzottify::resolve::ResolvedSearchResult;
use pezzottify::streaming::is_exact_match;
use pezzottify::streaming::match_type_of;
use pezzottify::streaming::results_of_type;
use pezzottify::streaming::IdentifiedTarget;
use pezzottify::streaming::PerTypeTargets;
use pezzottify::streaming::PopularTracksSource;
use pezzottify::streaming::SearchResult;
use pezzottify::streaming::SearchSection;
use pezzottify::streaming::SectionLimits;
use pezzottify::streaming::StreamingSearchPipeline;
use pezzottify::streaming::TargetIdentifier;

fn artist(id: &str, name: &str) -> Artist {
    Artist {
        id: id.to_string(),
        name: name.to_string(),
        genres: vec![],
        followers_total: 0,
        popularity: 0,
        available: true,
    }
}

fn album(id: &str, name: &str) -> Album {
    Album {
        id: id.to_string(),
        name: name.to_string(),
        album_type: AlbumType::Album,
        label: None,
        release_date: Some("1984-06-25".to_string()),
        release_date_precision: Some("day".to_string()),
        external_id_upc: None,
        popularity: 0,
        album_availability: AlbumAvailability::default(),
    }
}

fn track(id: &str, name: &str, album_id: &str, number: i32) -> Track {
    Track {
        id: id.to_string(),
        name: name.to_string(),
        album_id: album_id.to_string(),
        disc_number: 1,
        track_number: number,
        duration_ms: 200000,
        explicit: false,
        popularity: 0,
        language: None,
        external_id_isrc: None,
        audio_uri: None,
        availability: TrackAvailability::Available,
    }
}

fn hit(item_type: HashedItemType, id: &str, score: u32, text: &str) -> SearchResult {
    SearchResult {
        item_type,
        item_id: id.to_string(),
        score,
        adjusted_score: score as i64,
        matchable_text: text.to_string(),
    }
}

/// A catalog of one artist (`a1`, related to `a2`), one album `al1` with two tracks, and
/// a second artist `a2`.
struct FakeCatalog {
    artists: HashMap<String, ResolvedArtist>,
    albums: HashMap<String, ResolvedAlbum>,
    tracks: HashMap<String, ResolvedTrack>,
}

impl FakeCatalog {
    fn new() -> Self {
        let a1 = artist("a1", "Prince");
        let a2 = artist("a2", "The Revolution");
        let al1 = album("al1", "Purple Rain");
        let t1 = track("t1", "When Doves Cry", "al1", 1);
        let t2 = track("t2", "Purple Rain", "al1", 2);
        let mut artists = HashMap::new();
        artists.insert(
            "a1".to_string(),
            ResolvedArtist { artist: a1.clone(), related_artists: vec![a2.clone()] },
        );
        artists.insert(
            "a2".to_string(),
            ResolvedArtist { artist: a2.clone(), related_artists: vec![a1.clone()] },
        );
        let mut albums = HashMap::new();
        albums.insert(
            "al1".to_string(),
            ResolvedAlbum {
                album: al1.clone(),
                artists: vec![a1.clone()],
                discs: vec![Disc { number: 1, tracks: vec![t1.clone(), t2.clone()] }],
            },
        );
        let mut tracks = HashMap::new();
        for t in [t1, t2] {
            tracks.insert(
                t.id.clone(),
                ResolvedTrack {
                    track: t,
                    album: al1.clone(),
                    artists: vec![TrackArtist { artist: a1.clone(), role: ArtistRole::MainArtist }],
                },
            );
        }
        FakeCatalog { artists, albums, tracks }
    }
}

impl CatalogStore for FakeCatalog {
    fn get_resolved_artist(&self, id: &str) -> Result<Option<ResolvedArtist>, CatalogStoreError> {
        Ok(self.artists.get(id).cloned())
    }

    fn get_resolved_album(&self, id: &str) -> Result<Option<ResolvedAlbum>, CatalogStoreError> {
        Ok(self.albums.get(id).cloned())
    }

    fn get_resolved_track(&self, id: &str) -> Result<Option<ResolvedTrack>, CatalogStoreError> {
        Ok(self.tracks.get(id).cloned())
    }

    fn get_discography(&self, artist_id: &str, _limit: usize, _offset: usize) -> Result<Option<Vec<Album>>, CatalogStoreError> {
        if artist_id == "a1" {
            Ok(Some(vec![self.albums["al1"].album.clone()]))
        } else {
            Ok(None)
        }
    }
}

struct FakePopularity;

impl PopularTracksSource for FakePopularity {
    fn get_popular_tracks_by_artist(&self, artist_id: &str, limit: usize) -> Result<Vec<String>, CatalogStoreError> {
        if artist_id == "a1" {
            Ok(vec!["t2".to_string(), "t1".to_string()].into_iter().take(limit).collect())
        } else {
            Err(CatalogStoreError { message: "no statistics".to_string() })
        }
    }
}

/// Picks the first hit whose matchable text is exactly the query, with confidence 100.
struct ExactFirst;

impl TargetIdentifier for ExactFirst {
    type Confidence = u32;

    fn identify_target(&self, query: &str, results: &[SearchResult]) -> Option<IdentifiedTarget<u32>> {
        let first = results.first()?;
        if is_exact_match(query, &first.matchable_text) {
            Some(IdentifiedTarget { result: first.clone(), confidence: 100, match_type: match_type_of(first.item_type) })
        } else {
            None
        }
    }
}

fn limits(other: usize) -> SectionLimits {
    SectionLimits {
        popular_tracks_limit: 5,
        albums_limit: 5,
        related_artists_limit: 5,
        other_results_limit: other,
    }
}

fn remaining_ids(items: &[ResolvedSearchResult]) -> Vec<String> {
    items
        .iter()
        .map(|x| match x {
            ResolvedSearchResult::Artist(a) => a.id.clone(),
            ResolvedSearchResult::Album(a) => a.id.clone(),
            ResolvedSearchResult::Track(t) => t.id.clone(),
        })
        .collect()
}

#[test]
fn exact_match_ignores_case_and_surrounding_space() {
    assert!(is_exact_match("Prince", "prince"));
    assert!(is_exact_match("  Purple Rain ", "purple rain"));
    assert!(is_exact_match("ÉMILIE", "émilie"));
    assert!(!is_exact_match("Prince", "Princess"));
    assert!(!is_exact_match("Purple  Rain", "Purple Rain"));
}

#[test]
fn hits_of_one_kind_keep_their_order() {
    let hits = vec![
        hit(HashedItemType::Track, "t1", 10, "x"),
        hit(HashedItemType::Artist, "a1", 9, "y"),
        hit(HashedItemType::Track, "t2", 8, "z"),
    ];
    let tracks = results_of_type(&hits, HashedItemType::Track);
    assert_eq!(tracks.iter().map(|h| h.item_id.as_str()).collect::<Vec<_>>(), vec!["t1", "t2"]);
    assert_eq!(results_of_type(&hits, HashedItemType::Album).len(), 0);
}

#[test]
fn hit_kinds_map_to_section_kinds() {
    assert_eq!(match_type_of(HashedItemType::Artist), MatchType::Artist);
    assert_eq!(match_type_of(HashedItemType::Album), MatchType::Album);
    assert_eq!(match_type_of(HashedItemType::Track), MatchType::Track);
}

#[test]
fn targets_are_chosen_within_each_kind() {
    let hits = vec![
        hit(HashedItemType::Track, "t2", 10, "Purple Rain"),
        hit(HashedItemType::Album, "al1", 9, "Purple Rain"),
        hit(HashedItemType::Artist, "a1", 8, "Prince"),
    ];
    let targets = ExactFirst.identify_targets_by_type("purple rain", &hits);
    assert_eq!(targets.album.map(|t| t.result.item_id), Some("al1".to_string()));
    assert_eq!(targets.track.map(|t| t.result.item_id), Some("t2".to_string()));
    assert!(targets.artist.is_none());
}

#[test]
fn without_a_target_the_hits_come_as_plain_results_then_done() {
    let catalog = FakeCatalog::new();
    let pipeline = StreamingSearchPipeline::new(&catalog, &FakePopularity, ExactFirst, limits(10));
    let hits = vec![hit(HashedItemType::Artist, "a2", 9, "The Revolution"), hit(HashedItemType::Track, "t1", 8, "When Doves Cry")];
    let sections = pipeline.execute("doves", hits);
    assert_eq!(sections.len(), 2);
    match &sections[0] {
        SearchSection::Results { items } => assert_eq!(remaining_ids(items), vec!["a2", "t1"]),
        other => panic!("unexpected section {:?}", other),
    }
    assert!(matches!(sections[1], SearchSection::Done { .. }));
}

#[test]
fn an_artist_target_is_enriched_and_left_out_of_the_remaining_hits() {
    let catalog = FakeCatalog::new();
    let pipeline = StreamingSearchPipeline::new(&catalog, &FakePopularity, ExactFirst, limits(10));
    let hits = vec![
        hit(HashedItemType::Artist, "a1", 9, "Prince"),
        hit(HashedItemType::Track, "t1", 8, "When Doves Cry"),
        hit(HashedItemType::Artist, "a2", 7, "The Revolution"),
        hit(HashedItemType::Artist, "missing", 6, "Nobody"),
    ];
    let sections = pipeline.execute("prince", hits);
    assert_eq!(sections.len(), 5);
    match &sections[0] {
        SearchSection::PrimaryArtist { item: ResolvedSearchResult::Artist(a), confidence } => {
            assert_eq!(a.id, "a1");
            assert_eq!(*confidence, 100);
        },
        other => panic!("unexpected section {:?}", other),
    }
    match &sections[1] {
        SearchSection::PopularBy { target_id, target_type, items } => {
            assert_eq!(target_id, "a1");
            assert_eq!(*target_type, MatchType::Artist);
            assert_eq!(items.iter().map(|t| t.id.as_str()).collect::<Vec<_>>(), vec!["t2", "t1"]);
            assert_eq!(items[0].image_id.as_deref(), Some("al1"));
        },
        other => panic!("unexpected section {:?}", other),
    }
    match &sections[2] {
        SearchSection::AlbumsBy { target_id, items } => {
            assert_eq!(target_id, "a1");
            assert_eq!(items.len(), 1);
            assert_eq!(items[0].track_count, 2);
        },
        other => panic!("unexpected section {:?}", other),
    }
    match &sections[3] {
        SearchSection::RelatedArtists { target_id, items } => {
            assert_eq!(target_id, "a1");
            assert_eq!(items.iter().map(|a| a.id.as_str()).collect::<Vec<_>>(), vec!["a2"]);
        },
        other => panic!("unexpected section {:?}", other),
    }
    // Every hit was already listed (a1, t1 as popular, a2 as related) or does not resolve.
    assert!(matches!(sections[4], SearchSection::Done { .. }));
}

#[test]
fn an_album_target_lists_its_tracks_and_related_artists() {
    let catalog = FakeCatalog::new();
    let pipeline = StreamingSearchPipeline::new(&catalog, &FakePopularity, ExactFirst, limits(10));
    let hits = vec![hit(HashedItemType::Album, "al1", 9, "Purple Rain"), hit(HashedItemType::Artist, "a1", 5, "Prince")];
    let sections = pipeline.execute("Purple Rain", hits);
    assert_eq!(sections.len(), 5);
    assert!(matches!(sections[0], SearchSection::PrimaryAlbum { confidence: 100, .. }));
    match &sections[1] {
        SearchSection::TracksFrom { target_id, items } => {
            assert_eq!(target_id, "al1");
            assert_eq!(items.iter().map(|t| t.id.as_str()).collect::<Vec<_>>(), vec!["t1", "t2"]);
        },
        other => panic!("unexpected section {:?}", other),
    }
    match &sections[2] {
        SearchSection::RelatedArtists { target_id, items } => {
            assert_eq!(target_id, "a1");
            assert_eq!(items.iter().map(|a| a.id.as_str()).collect::<Vec<_>>(), vec!["a2"]);
        },
        other => panic!("unexpected section {:?}", other),
    }
    match &sections[3] {
        SearchSection::MoreResults { items } => assert_eq!(remaining_ids(items), vec!["a1"]),
        other => panic!("unexpected section {:?}", other),
    }
    assert!(matches!(sections[4], SearchSection::Done { .. }));
}

#[test]
fn remaining_hits_stop_at_the_limit() {
    let catalog = FakeCatalog::new();
    let pipeline = StreamingSearchPipeline::new(&catalog, &FakePopularity, ExactFirst, limits(2));
    let hits = vec![
        hit(HashedItemType::Track, "t1", 9, "When Doves Cry"),
        hit(HashedItemType::Track, "gone", 8, "Gone"),
        hit(HashedItemType::Track, "t2", 7, "Purple Rain"),
        hit(HashedItemType::Artist, "a1", 6, "Prince"),
    ];
    let sections = pipeline.sections_for_targets(&hits, &PerTypeTargets { artist: None, album: None, track: None });
    assert_eq!(sections.len(), 1);
    match &sections[0] {
        SearchSection::Results { items } => assert_eq!(remaining_ids(items), vec!["t1", "t2"]),
        other => panic!("unexpected section {:?}", other),
    }
}
