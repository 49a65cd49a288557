use std::cell::RefCell;
use std::collections::HashMap;

use pezzottify::catalog::Album;
use pezzottify::catalog::AlbumAvailability;
use pezzottify::catalog::AlbumType;
use pezzottify::catalog::Artist;
use pezzottify::catalog::ResolvedAlbum;
use pezzottify::catalog::ResolvedArtist;
use pezzottify::catalog::ResolvedTrack;
use pezzottify::expansion::SearchVault;
use pezzottify::indexer::flush_batch;
use pezzottify::indexer::IndexTask;
use pezzottify::indexer::IndexWorker;
use pezzottify::indexer::SearchIndexItem;
use pezzottify::indexer::WorkerEvent;
use pezzottify::indexer::BATCH_SIZE;
use pezzottify::indexer::QUEUE_CAPACITY;
use pezzottify::resolve::CatalogStore;
use pezzottify::resolve::CatalogStoreError;
use pezzottify::resolve::HashedItemType;
use pezzottify::streaming::SearchResult;

fn artist(id: &str) -> Artist {
    Artist {
        id: id.to_string(),
        name: format!("Artist {id}"),
        genres: vec![],
        followers_total: 0,
        popularity: 0,
        available: true,
    }
}

fn album(id: &str) -> Album {
    Album {
        id: id.to_string(),
        name: format!("Album {id}"),
        album_type: AlbumType::Album,
        label: None,
        release_date: None,
        release_date_precision: None,
        external_id_upc: None,
        popularity: 0,
        album_availability: AlbumAvailability::default(),
    }
}

/// Artists `a0`..`a{n-1}`, each related to the next one, and each with one album.
struct Catalog {
    artists: HashMap<String, ResolvedArtist>,
}

impl Catalog {
    fn chain(n: usize) -> Self {
        let mut artists = HashMap::new();
        for i in 0..n {
            let id = format!("a{i}");
            artists.insert(
                id.clone(),
                ResolvedArtist { artist: artist(&id), related_artists: vec![artist(&format!("a{}", i + 1))] },
            );
        }
        Catalog { artists }
    }
}

impl CatalogStore for Catalog {
    fn get_resolved_artist(&self, id: &str) -> Result<Option<ResolvedArtist>, CatalogStoreError> {
        Ok(self.artists.get(id).cloned())
    }

    fn get_resolved_album(&self, _id: &str) -> Result<Option<ResolvedAlbum>, CatalogStoreError> {
        Ok(None)
    }

    fn get_resolved_track(&self, _id: &str) -> Result<Option<ResolvedTrack>, CatalogStoreError> {
        Ok(None)
    }

    fn get_discography(&self, artist_id: &str, _limit: usize, _offset: usize) -> Result<Option<Vec<Album>>, CatalogStoreError> {
        Ok(Some(vec![album(&format!("{artist_id}-album"))]))
    }
}

/// Records every batch it is handed.
#[derive(Default)]
struct RecordingVault {
    batches: RefCell<Vec<Vec<(HashedItemType, String)>>>,
}

impl SearchVault for RecordingVault {
    fn is_enriched(&self) -> bool {
        false
    }

    fn search(&self, _query: &str, _max_results: usize, _filter: Option<Vec<HashedItemType>>) -> Vec<SearchResult> {
        Vec::new()
    }

    fn search_with_availability(
        &self,
        _query: &str,
        _max_results: usize,
        _filter: Option<Vec<HashedItemType>>,
        _available_only: bool,
    ) -> Vec<SearchResult> {
        Vec::new()
    }

    fn upsert_items(&self, items: &[SearchIndexItem]) -> Result<(), String> {
        self.batches.borrow_mut().push(items.iter().map(|i| (i.item_type, i.id.clone())).collect());
        Ok(())
    }
}

#[test]
fn a_task_fills_the_batch_and_idleness_hands_it_over() {
    let catalog = Catalog::chain(3);
    let vault = RecordingVault::default();
    let mut worker = IndexWorker::new();
    assert!(worker.step(WorkerEvent::Task(IndexTask::Artist("a0".to_string())), &catalog, &vault));
    assert_eq!(worker.pending_count(), 3);
    assert!(worker.is_indexed("a1", HashedItemType::Artist));
    assert!(worker.is_indexed("a0-album", HashedItemType::Album));
    assert!(vault.batches.borrow().is_empty());
    assert!(worker.step(WorkerEvent::Idle, &catalog, &vault));
    assert_eq!(worker.pending_count(), 0);
    assert_eq!(
        vault.batches.borrow()[0],
        vec![
            (HashedItemType::Artist, "a0".to_string()),
            (HashedItemType::Artist, "a1".to_string()),
            (HashedItemType::Album, "a0-album".to_string()),
        ]
    );
}

#[test]
fn an_idle_worker_with_nothing_waiting_hands_nothing_over() {
    let vault = RecordingVault::default();
    let mut worker = IndexWorker::new();
    assert!(worker.step(WorkerEvent::Idle, &Catalog::chain(0), &vault));
    assert!(vault.batches.borrow().is_empty());
}

#[test]
fn a_full_batch_is_handed_over_at_once_and_nothing_twice() {
    let catalog = Catalog::chain(200);
    let vault = RecordingVault::default();
    let mut worker = IndexWorker::new();
    for i in 0..200 {
        assert!(worker.step(WorkerEvent::Task(IndexTask::Artist(format!("a{i}"))), &catalog, &vault));
        assert!(worker.pending_count() < BATCH_SIZE);
    }
    assert!(!vault.batches.borrow().is_empty());
    assert!(vault.batches.borrow().iter().all(|b| b.len() >= BATCH_SIZE));
    assert!(!worker.step(WorkerEvent::Stopped, &catalog, &vault));
    assert_eq!(worker.pending_count(), 0);
    let mut all: Vec<(HashedItemType, String)> = vault.batches.borrow().iter().flatten().cloned().collect();
    let handed = all.len();
    all.sort();
    all.dedup();
    assert_eq!(all.len(), handed);
    // Each task expanded only where the artist was not already indexed as a related one.
    assert!(handed > 0);
    assert!(worker.is_indexed("a199", HashedItemType::Artist));
}

#[test]
fn a_closed_queue_stops_the_worker_after_handing_over() {
    let catalog = Catalog::chain(1);
    let vault = RecordingVault::default();
    let mut worker = IndexWorker::new();
    worker.step(WorkerEvent::Task(IndexTask::Artist("a0".to_string())), &catalog, &vault);
    assert!(!worker.step(WorkerEvent::Closed, &catalog, &vault));
    assert_eq!(vault.batches.borrow().len(), 1);
    assert_eq!(worker.pending_count(), 0);
}

#[test]
fn an_indexed_item_is_not_expanded_again() {
    let catalog = Catalog::chain(2);
    let vault = RecordingVault::default();
    let mut worker = IndexWorker::new();
    worker.step(WorkerEvent::Task(IndexTask::Artist("a0".to_string())), &catalog, &vault);
    let waiting = worker.pending_count();
    worker.step(WorkerEvent::Task(IndexTask::Artist("a1".to_string())), &catalog, &vault);
    assert_eq!(worker.pending_count(), waiting);
}

#[test]
fn flushing_empties_the_batch() {
    let vault = RecordingVault::default();
    let mut batch = vec![SearchIndexItem { id: "x".to_string(), name: "X".to_string(), item_type: HashedItemType::Track }];
    flush_batch(&vault, &mut batch);
    assert!(batch.is_empty());
    assert_eq!(vault.batches.borrow().len(), 1);
    flush_batch(&vault, &mut batch);
    assert_eq!(vault.batches.borrow().len(), 1);
    assert_eq!(QUEUE_CAPACITY, 10_000);
}
