//! Organic index growth: what to index when a catalog item is touched.

use vstd::prelude::*;

use vstd::hash_set::StringHashSet;

use crate::catalog::Album;
use crate::catalog::Artist;
use crate::catalog::Disc;
use crate::catalog::ResolvedAlbum;
use crate::catalog::ResolvedArtist;
use crate::catalog::ResolvedTrack;
use crate::catalog::Track;
use crate::catalog::TrackArtist;
use crate::expansion::SearchVault;
use crate::resolve::CatalogStore;
use crate::resolve::CatalogStoreError;
use crate::resolve::HashedItemType;

verus! {

/// A catalog item to index, with the expansion its kind calls for.
#[derive(Clone, Debug, PartialEq, Eq, Hash)]
pub enum IndexTask {
    Artist(String),
    Album(String),
    Track(String),
}

impl IndexTask {
    pub open spec fn id_spec(&self) -> Seq<char> {
        match self {
            IndexTask::Artist(id) => id@,
            IndexTask::Album(id) => id@,
            IndexTask::Track(id) => id@,
        }
    }

    pub open spec fn kind_name_spec(&self) -> Seq<char> {
        match self {
            IndexTask::Artist(_) => seq!['a', 'r', 't', 'i', 's', 't'],
            IndexTask::Album(_) => seq!['a', 'l', 'b', 'u', 'm'],
            IndexTask::Track(_) => seq!['t', 'r', 'a', 'c', 'k'],
        }
    }

    /// The id of the item.
    pub fn id(&self) -> (r: &str)
        ensures
            r@ == self.id_spec(),
    {
        match self {
            IndexTask::Artist(id) => id.as_str(),
            IndexTask::Album(id) => id.as_str(),
            IndexTask::Track(id) => id.as_str(),
        }
    }

    /// The kind of the item: `artist`, `album` or `track`.
    pub fn kind_name(&self) -> (r: &'static str)
        ensures
            r@ == self.kind_name_spec(),
    {
        proof {
            reveal_strlit("artist");
            reveal_strlit("album");
            reveal_strlit("track");
        }
        match self {
            IndexTask::Artist(_) => "artist",
            IndexTask::Album(_) => "album",
            IndexTask::Track(_) => "track",
        }
    }
}

/// An item tracked as indexed: its id and kind. The same id under two kinds names two
/// items.
#[derive(Clone, Debug, PartialEq, Eq, Hash)]
pub struct IndexedItemId {
    pub id: String,
    pub item_type: HashedItemType,
}

/// An item handed to the search index.
#[derive(Clone, Debug)]
pub struct SearchIndexItem {
    pub id: String,
    pub name: String,
    pub item_type: HashedItemType,
}

/// An item as the contracts see it: kind, id, name.
pub type ItemView = (HashedItemType, Seq<char>, Seq<char>);

pub open spec fn item_view(item: SearchIndexItem) -> ItemView {
    (item.item_type, item.id@, item.name@)
}

pub open spec fn batch_view(batch: Seq<SearchIndexItem>) -> Seq<ItemView> {
    batch.map_values(|item: SearchIndexItem| item_view(item))
}

/// What the indexer has tracked, and the batch it is filling.
pub type IndexState = (Set<(HashedItemType, Seq<char>)>, Seq<ItemView>);

/// Offering one item: it joins the batch and the tracked set unless it is tracked
/// already.
pub open spec fn offer(state: IndexState, item: ItemView) -> IndexState {
    if state.0.contains((item.0, item.1)) {
        state
    } else {
        (state.0.insert((item.0, item.1)), state.1.push(item))
    }
}

/// Offering the items of `items` one after another.
pub open spec fn offer_all(state: IndexState, items: Seq<ItemView>) -> IndexState
    decreases items.len(),
{
    if items.len() == 0 {
        state
    } else {
        offer(offer_all(state, items.drop_last()), items.last())
    }
}

pub open spec fn artist_items(artists: Seq<Artist>) -> Seq<ItemView> {
    artists.map_values(|a: Artist| (HashedItemType::Artist, a.id@, a.name@))
}

pub open spec fn album_items(albums: Seq<Album>) -> Seq<ItemView> {
    albums.map_values(|a: Album| (HashedItemType::Album, a.id@, a.name@))
}

pub open spec fn track_items(tracks: Seq<Track>) -> Seq<ItemView> {
    tracks.map_values(|t: Track| (HashedItemType::Track, t.id@, t.name@))
}

pub open spec fn track_artist_items(artists: Seq<TrackArtist>) -> Seq<ItemView> {
    artists.map_values(|a: TrackArtist| (HashedItemType::Artist, a.artist.id@, a.artist.name@))
}

/// Offering the tracks of each disc, disc after disc.
pub open spec fn offer_discs(state: IndexState, discs: Seq<Disc>) -> IndexState
    decreases discs.len(),
{
    if discs.len() == 0 {
        state
    } else {
        offer_all(offer_discs(state, discs.drop_last()), track_items(discs.last().tracks@))
    }
}

/// The items the organic indexer has tracked as indexed, by kind. Every item it hands to
/// the search index is tracked at once, so that no item is handed over twice.
pub struct IndexTracker {
    artists: StringHashSet,
    albums: StringHashSet,
    tracks: StringHashSet,
}

impl View for IndexTracker {
    type V = Set<(HashedItemType, Seq<char>)>;

    closed spec fn view(&self) -> Set<(HashedItemType, Seq<char>)> {
        Set::new(
            |k: (HashedItemType, Seq<char>)|
                match k.0 {
                    HashedItemType::Artist => self.artists@.contains(k.1),
                    HashedItemType::Album => self.albums@.contains(k.1),
                    HashedItemType::Track => self.tracks@.contains(k.1),
                },
        )
    }
}

impl IndexTracker {
    /// Nothing tracked.
    pub fn new() -> (r: IndexTracker)
        ensures
            r@ == Set::<(HashedItemType, Seq<char>)>::empty(),
    {
        let r = IndexTracker {
            artists: StringHashSet::new(),
            albums: StringHashSet::new(),
            tracks: StringHashSet::new(),
        };
        assert(r@ =~= Set::<(HashedItemType, Seq<char>)>::empty());
        r
    }

    /// Whether the item `id` of kind `item_type` is tracked.
    pub fn is_indexed(&self, id: &str, item_type: HashedItemType) -> (r: bool)
        ensures
            r == self@.contains((item_type, id@)),
    {
        match item_type {
            HashedItemType::Artist => self.artists.contains(id),
            HashedItemType::Album => self.albums.contains(id),
            HashedItemType::Track => self.tracks.contains(id),
        }
    }

    /// Tracks the item `id` of kind `item_type`.
    pub fn mark_indexed(&mut self, id: &str, item_type: HashedItemType)
        ensures
            final(self)@ == old(self)@.insert((item_type, id@)),
    {
        let key = id.to_string();
        match item_type {
            HashedItemType::Artist => {
                self.artists.insert(key);
            },
            HashedItemType::Album => {
                self.albums.insert(key);
            },
            HashedItemType::Track => {
                self.tracks.insert(key);
            },
        }
        assert(self@ =~= old(self)@.insert((item_type, id@)));
    }

    /// Offers one item: where it is not tracked, it joins `batch` and is tracked.
    pub fn add_to_batch(&mut self, batch: &mut Vec<SearchIndexItem>, id: &str, name: &str, item_type: HashedItemType)
        ensures
            (final(self)@, batch_view(final(batch)@)) == offer(
                (old(self)@, batch_view(old(batch)@)),
                (item_type, id@, name@),
            ),
    {
        if self.is_indexed(id, item_type) {
            return;
        }
        let ghost before = old(batch)@;
        batch.push(SearchIndexItem { id: id.to_string(), name: name.to_string(), item_type });
        assert(batch_view(batch@) =~= batch_view(before).push((item_type, id@, name@)));
        self.mark_indexed(id, item_type);
    }

    fn offer_artists(&mut self, batch: &mut Vec<SearchIndexItem>, artists: &Vec<Artist>)
        ensures
            (final(self)@, batch_view(final(batch)@)) == offer_all(
                (old(self)@, batch_view(old(batch)@)),
                artist_items(artists@),
            ),
    {
        let ghost start = (self@, batch_view(batch@));
        let mut i: usize = 0;
        while i < artists.len()
            invariant
                i <= artists@.len(),
                (self@, batch_view(batch@)) == offer_all(start, artist_items(artists@).take(i as int)),
            decreases artists@.len() - i,
        {
            assert(artist_items(artists@).take(i + 1).drop_last() =~= artist_items(artists@).take(i as int));
            self.add_to_batch(batch, artists[i].id.as_str(), artists[i].name.as_str(), HashedItemType::Artist);
            i = i + 1;
        }
        assert(artist_items(artists@).take(artists@.len() as int) =~= artist_items(artists@));
    }

    fn offer_albums(&mut self, batch: &mut Vec<SearchIndexItem>, albums: &Vec<Album>)
        ensures
            (final(self)@, batch_view(final(batch)@)) == offer_all(
                (old(self)@, batch_view(old(batch)@)),
                album_items(albums@),
            ),
    {
        let ghost start = (self@, batch_view(batch@));
        let mut i: usize = 0;
        while i < albums.len()
            invariant
                i <= albums@.len(),
                (self@, batch_view(batch@)) == offer_all(start, album_items(albums@).take(i as int)),
            decreases albums@.len() - i,
        {
            assert(album_items(albums@).take(i + 1).drop_last() =~= album_items(albums@).take(i as int));
            self.add_to_batch(batch, albums[i].id.as_str(), albums[i].name.as_str(), HashedItemType::Album);
            i = i + 1;
        }
        assert(album_items(albums@).take(albums@.len() as int) =~= album_items(albums@));
    }

    fn offer_tracks(&mut self, batch: &mut Vec<SearchIndexItem>, tracks: &Vec<Track>)
        ensures
            (final(self)@, batch_view(final(batch)@)) == offer_all(
                (old(self)@, batch_view(old(batch)@)),
                track_items(tracks@),
            ),
    {
        let ghost start = (self@, batch_view(batch@));
        let mut i: usize = 0;
        while i < tracks.len()
            invariant
                i <= tracks@.len(),
                (self@, batch_view(batch@)) == offer_all(start, track_items(tracks@).take(i as int)),
            decreases tracks@.len() - i,
        {
            assert(track_items(tracks@).take(i + 1).drop_last() =~= track_items(tracks@).take(i as int));
            self.add_to_batch(batch, tracks[i].id.as_str(), tracks[i].name.as_str(), HashedItemType::Track);
            i = i + 1;
        }
        assert(track_items(tracks@).take(tracks@.len() as int) =~= track_items(tracks@));
    }

    fn offer_track_artists(&mut self, batch: &mut Vec<SearchIndexItem>, artists: &Vec<TrackArtist>)
        ensures
            (final(self)@, batch_view(final(batch)@)) == offer_all(
                (old(self)@, batch_view(old(batch)@)),
                track_artist_items(artists@),
            ),
    {
        let ghost start = (self@, batch_view(batch@));
        let mut i: usize = 0;
        while i < artists.len()
            invariant
                i <= artists@.len(),
                (self@, batch_view(batch@)) == offer_all(start, track_artist_items(artists@).take(i as int)),
            decreases artists@.len() - i,
        {
            assert(track_artist_items(artists@).take(i + 1).drop_last() =~= track_artist_items(artists@).take(i as int));
            self.add_to_batch(
                batch,
                artists[i].artist.id.as_str(),
                artists[i].artist.name.as_str(),
                HashedItemType::Artist,
            );
            i = i + 1;
        }
        assert(track_artist_items(artists@).take(artists@.len() as int) =~= track_artist_items(artists@));
    }

    fn offer_disc_tracks(&mut self, batch: &mut Vec<SearchIndexItem>, discs: &Vec<Disc>)
        ensures
            (final(self)@, batch_view(final(batch)@)) == offer_discs(
                (old(self)@, batch_view(old(batch)@)),
                discs@,
            ),
    {
        let ghost start = (self@, batch_view(batch@));
        let mut i: usize = 0;
        while i < discs.len()
            invariant
                i <= discs@.len(),
                (self@, batch_view(batch@)) == offer_discs(start, discs@.take(i as int)),
            decreases discs@.len() - i,
        {
            assert(discs@.take(i + 1).drop_last() =~= discs@.take(i as int));
            self.offer_tracks(batch, &discs[i].tracks);
            i = i + 1;
        }
        assert(discs@.take(discs@.len() as int) =~= discs@);
    }
}

/// Albums of a discography looked at when an artist is expanded.
pub const DISCOGRAPHY_INDEX_LIMIT: usize = 1000;

/// Expanding an artist: where it is not tracked and was found, the artist, then its
/// related artists, then the albums of its discography (where that was found).
pub open spec fn artist_expansion(state: IndexState, artist_id: Seq<char>, resolved: Option<ResolvedArtist>, discography: Option<Vec<Album>>) -> IndexState {
    if state.0.contains((HashedItemType::Artist, artist_id)) {
        state
    } else {
        match resolved {
            None => state,
            Some(ra) => {
                let s1 = offer(state, (HashedItemType::Artist, ra.artist.id@, ra.artist.name@));
                let s2 = offer_all(s1, artist_items(ra.related_artists@));
                match discography {
                    Some(albums) => offer_all(s2, album_items(albums@)),
                    None => s2,
                }
            },
        }
    }
}

/// Expanding an album: where it is not tracked and was found, the album, then its
/// artists, then the tracks of each disc.
pub open spec fn album_expansion(state: IndexState, album_id: Seq<char>, resolved: Option<ResolvedAlbum>) -> IndexState {
    if state.0.contains((HashedItemType::Album, album_id)) {
        state
    } else {
        match resolved {
            None => state,
            Some(ra) => {
                let s1 = offer(state, (HashedItemType::Album, ra.album.id@, ra.album.name@));
                let s2 = offer_all(s1, artist_items(ra.artists@));
                offer_discs(s2, ra.discs@)
            },
        }
    }
}

/// Expanding a track: where it is not tracked and was found, the track, then its album,
/// then its artists.
pub open spec fn track_expansion(state: IndexState, track_id: Seq<char>, resolved: Option<ResolvedTrack>) -> IndexState {
    if state.0.contains((HashedItemType::Track, track_id)) {
        state
    } else {
        match resolved {
            None => state,
            Some(rt) => {
                let s1 = offer(state, (HashedItemType::Track, rt.track.id@, rt.track.name@));
                let s2 = offer(s1, (HashedItemType::Album, rt.album.id@, rt.album.name@));
                offer_all(s2, track_artist_items(rt.artists@))
            },
        }
    }
}

impl IndexTracker {
    /// Expands the artist `artist_id` given what the catalog returned for it.
    pub fn expand_artist_with(
        &mut self,
        batch: &mut Vec<SearchIndexItem>,
        artist_id: &str,
        resolved: Option<ResolvedArtist>,
        discography: Option<Vec<Album>>,
    )
        ensures
            (final(self)@, batch_view(final(batch)@)) == artist_expansion(
                (old(self)@, batch_view(old(batch)@)),
                artist_id@,
                resolved,
                discography,
            ),
    {
        if self.is_indexed(artist_id, HashedItemType::Artist) {
            return;
        }
        match resolved {
            None => {},
            Some(ra) => {
                self.add_to_batch(batch, ra.artist.id.as_str(), ra.artist.name.as_str(), HashedItemType::Artist);
                self.offer_artists(batch, &ra.related_artists);
                match discography {
                    Some(albums) => self.offer_albums(batch, &albums),
                    None => {},
                }
            },
        }
    }

    /// Expands the album `album_id` given what the catalog returned for it.
    pub fn expand_album_with(&mut self, batch: &mut Vec<SearchIndexItem>, album_id: &str, resolved: Option<ResolvedAlbum>)
        ensures
            (final(self)@, batch_view(final(batch)@)) == album_expansion(
                (old(self)@, batch_view(old(batch)@)),
                album_id@,
                resolved,
            ),
    {
        if self.is_indexed(album_id, HashedItemType::Album) {
            return;
        }
        match resolved {
            None => {},
            Some(ra) => {
                self.add_to_batch(batch, ra.album.id.as_str(), ra.album.name.as_str(), HashedItemType::Album);
                self.offer_artists(batch, &ra.artists);
                self.offer_disc_tracks(batch, &ra.discs);
            },
        }
    }

    /// Expands the track `track_id` given what the catalog returned for it.
    pub fn expand_track_with(&mut self, batch: &mut Vec<SearchIndexItem>, track_id: &str, resolved: Option<ResolvedTrack>)
        ensures
            (final(self)@, batch_view(final(batch)@)) == track_expansion(
                (old(self)@, batch_view(old(batch)@)),
                track_id@,
                resolved,
            ),
    {
        if self.is_indexed(track_id, HashedItemType::Track) {
            return;
        }
        match resolved {
            None => {},
            Some(rt) => {
                self.add_to_batch(batch, rt.track.id.as_str(), rt.track.name.as_str(), HashedItemType::Track);
                self.add_to_batch(batch, rt.album.id.as_str(), rt.album.name.as_str(), HashedItemType::Album);
                self.offer_track_artists(batch, &rt.artists);
            },
        }
    }

    /// Runs one task against the catalog: looks the item up (and, for an artist, its
    /// discography) and expands it. A failed lookup counts as not found.
    pub fn process_task<S: CatalogStore + ?Sized>(&mut self, task: &IndexTask, catalog_store: &S, batch: &mut Vec<SearchIndexItem>)
        ensures
            exists|ra: Option<ResolvedArtist>, d: Option<Vec<Album>>, rb: Option<ResolvedAlbum>, rt: Option<ResolvedTrack>|
                lookups_answered(catalog_store, old(self)@, *task, ra, d, rb, rt) && (final(self)@, batch_view(
                    final(batch)@,
                )) == #[trigger] task_expansion((old(self)@, batch_view(old(batch)@)), *task, ra, d, rb, rt),
    {
        match task {
            IndexTask::Artist(id) => {
                if self.is_indexed(id.as_str(), HashedItemType::Artist) {
                    assert(lookups_answered(catalog_store, self@, *task, None, None, None, None));
                    assert(task_expansion((self@, batch_view(batch@)), *task, None, None, None, None)
                        == (self@, batch_view(batch@)));
                    return;
                }
                let raw = catalog_store.get_resolved_artist(id.as_str());
                let ghost raw0 = raw;
                let resolved = match raw {
                    Ok(found) => found,
                    Err(_) => None,
                };
                let ghost mut draw0: Result<Option<Vec<Album>>, CatalogStoreError> = Ok(None);
                let discography = match resolved {
                    Some(_) => {
                        let draw = catalog_store.get_discography(id.as_str(), DISCOGRAPHY_INDEX_LIMIT, 0);
                        proof {
                            draw0 = draw;
                        }
                        match draw {
                            Ok(found) => found,
                            Err(_) => None,
                        }
                    },
                    None => None,
                };
                let ghost r0 = resolved;
                let ghost d0 = discography;
                assert(catalog_store.artist_answer(id@, raw0) && r0 == answer_value(raw0));
                assert(r0 is Some ==> catalog_store.discography_answer(id@, DISCOGRAPHY_INDEX_LIMIT, 0, draw0) && d0
                    == answer_value(draw0));
                assert(lookups_answered(catalog_store, old(self)@, *task, r0, d0, None, None));
                self.expand_artist_with(batch, id.as_str(), resolved, discography);
                assert(task_expansion((old(self)@, batch_view(old(batch)@)), *task, r0, d0, None, None)
                    == (self@, batch_view(batch@)));
            },
            IndexTask::Album(id) => {
                if self.is_indexed(id.as_str(), HashedItemType::Album) {
                    assert(lookups_answered(catalog_store, self@, *task, None, None, None, None));
                    assert(task_expansion((self@, batch_view(batch@)), *task, None, None, None, None)
                        == (self@, batch_view(batch@)));
                    return;
                }
                let raw = catalog_store.get_resolved_album(id.as_str());
                let ghost raw0 = raw;
                let resolved = match raw {
                    Ok(found) => found,
                    Err(_) => None,
                };
                let ghost r0 = resolved;
                assert(catalog_store.album_answer(id@, raw0) && r0 == answer_value(raw0));
                assert(lookups_answered(catalog_store, old(self)@, *task, None, None, r0, None));
                self.expand_album_with(batch, id.as_str(), resolved);
                assert(task_expansion((old(self)@, batch_view(old(batch)@)), *task, None, None, r0, None)
                    == (self@, batch_view(batch@)));
            },
            IndexTask::Track(id) => {
                if self.is_indexed(id.as_str(), HashedItemType::Track) {
                    assert(lookups_answered(catalog_store, self@, *task, None, None, None, None));
                    assert(task_expansion((self@, batch_view(batch@)), *task, None, None, None, None)
                        == (self@, batch_view(batch@)));
                    return;
                }
                let raw = catalog_store.get_resolved_track(id.as_str());
                let ghost raw0 = raw;
                let resolved = match raw {
                    Ok(found) => found,
                    Err(_) => None,
                };
                let ghost r0 = resolved;
                assert(catalog_store.track_answer(id@, raw0) && r0 == answer_value(raw0));
                assert(lookups_answered(catalog_store, old(self)@, *task, None, None, None, r0));
                self.expand_track_with(batch, id.as_str(), resolved);
                assert(task_expansion((old(self)@, batch_view(old(batch)@)), *task, None, None, None, r0)
                    == (self@, batch_view(batch@)));
            },
        }
    }
}

/// What an answer of the catalog amounts to: the item it found, a failure counting as
/// not found.
pub open spec fn answer_value<T>(r: Result<Option<T>, CatalogStoreError>) -> Option<T> {
    match r {
        Ok(found) => found,
        Err(_) => None,
    }
}

/// Whether the lookups `artist`, `discography`, `album` and `track` are what running `task`
/// asks of `store` while the keys `known` are tracked: nothing when the item is tracked already;
/// else the item looked up by its id (and, for an artist that was found, its discography,
/// up to [`DISCOGRAPHY_INDEX_LIMIT`] albums from the start), the other kinds not asked.
pub open spec fn lookups_answered<S: CatalogStore + ?Sized>(
    store: &S,
    known: Set<(HashedItemType, Seq<char>)>,
    task: IndexTask,
    artist: Option<ResolvedArtist>,
    discography: Option<Vec<Album>>,
    album: Option<ResolvedAlbum>,
    track: Option<ResolvedTrack>,
) -> bool {
    match task {
        IndexTask::Artist(id) => album is None && track is None && (known.contains((HashedItemType::Artist, id@))
            || (exists|a: Result<Option<ResolvedArtist>, CatalogStoreError>|
            #[trigger] store.artist_answer(id@, a) && artist == answer_value(a)) && match artist {
            Some(_) => exists|b: Result<Option<Vec<Album>>, CatalogStoreError>|
                #[trigger] store.discography_answer(id@, DISCOGRAPHY_INDEX_LIMIT, 0, b) && discography == answer_value(b),
            None => discography is None,
        }),
        IndexTask::Album(id) => artist is None && discography is None && track is None && (known.contains(
            (HashedItemType::Album, id@),
        ) || exists|a: Result<Option<ResolvedAlbum>, CatalogStoreError>|
            #[trigger] store.album_answer(id@, a) && album == answer_value(a)),
        IndexTask::Track(id) => artist is None && discography is None && album is None && (known.contains(
            (HashedItemType::Track, id@),
        ) || exists|a: Result<Option<ResolvedTrack>, CatalogStoreError>|
            #[trigger] store.track_answer(id@, a) && track == answer_value(a)),
    }
}

/// Running `task` given what the catalog returned for each kind of lookup.
pub open spec fn task_expansion(
    state: IndexState,
    task: IndexTask,
    artist: Option<ResolvedArtist>,
    discography: Option<Vec<Album>>,
    album: Option<ResolvedAlbum>,
    track: Option<ResolvedTrack>,
) -> IndexState {
    match task {
        IndexTask::Artist(id) => artist_expansion(state, id@, artist, discography),
        IndexTask::Album(id) => album_expansion(state, id@, album),
        IndexTask::Track(id) => track_expansion(state, id@, track),
    }
}

/// Every item of the batch is tracked, and no item is in it twice.
pub open spec fn batch_consistent(state: IndexState) -> bool {
    &&& forall|i: int| 0 <= i < state.1.len() ==> state.0.contains(
        (#[trigger] state.1[i].0, state.1[i].1),
    )
    &&& forall|i: int, j: int|
        0 <= i < j < state.1.len() ==> (#[trigger] state.1[i].0, state.1[i].1) != (
            #[trigger] state.1[j].0,
            state.1[j].1,
        )
}

/// Offering an item keeps a consistent batch consistent, only adds to what is tracked,
/// and leaves the item tracked.
pub proof fn lemma_offer_keeps_batch_consistent(state: IndexState, item: ItemView)
    requires
        batch_consistent(state),
    ensures
        batch_consistent(offer(state, item)),
        state.0.subset_of(offer(state, item).0),
        offer(state, item).0.contains((item.0, item.1)),
        offer(state, item).1.take(state.1.len() as int) == state.1,
{
    let next = offer(state, item);
    if !state.0.contains((item.0, item.1)) {
        assert(next.1.take(state.1.len() as int) =~= state.1);
        assert forall|i: int, j: int| 0 <= i < j < next.1.len() implies (
            #[trigger] next.1[i].0,
            next.1[i].1,
        ) != (#[trigger] next.1[j].0, next.1[j].1) by {
            if j == next.1.len() - 1 {
                assert(state.0.contains((state.1[i].0, state.1[i].1)));
            }
        }
    } else {
        assert(next.1.take(state.1.len() as int) =~= state.1);
    }
}

/// However many items are offered, the batch stays consistent: every item the indexer
/// hands to the search index is handed over once, and every offered item ends up
/// tracked.
pub proof fn lemma_offer_all_keeps_batch_consistent(state: IndexState, items: Seq<ItemView>)
    requires
        batch_consistent(state),
    ensures
        batch_consistent(offer_all(state, items)),
        state.0.subset_of(offer_all(state, items).0),
        forall|i: int| 0 <= i < items.len() ==> offer_all(state, items).0.contains(
            (#[trigger] items[i].0, items[i].1),
        ),
    decreases items.len(),
{
    if items.len() > 0 {
        let rest = items.drop_last();
        lemma_offer_all_keeps_batch_consistent(state, rest);
        let mid = offer_all(state, rest);
        lemma_offer_keeps_batch_consistent(mid, items.last());
        assert forall|i: int| 0 <= i < items.len() implies offer_all(state, items).0.contains(
            (#[trigger] items[i].0, items[i].1),
        ) by {
            if i < items.len() - 1 {
                assert(items[i] == rest[i]);
                assert(mid.0.contains((rest[i].0, rest[i].1)));
            }
        }
    }
}

} // verus!

verus! {

/// The key of an item: its kind and id.
pub open spec fn item_key(item: ItemView) -> (HashedItemType, Seq<char>) {
    (item.0, item.1)
}

/// `s2` grew out of `s`: what `s` tracks stays tracked, its batch stays a prefix, and each
/// item added to the batch was not tracked in `s`, is tracked in `s2`, and was added once.
pub open spec fn extends(s: IndexState, s2: IndexState) -> bool {
    &&& s.0.subset_of(s2.0)
    &&& s.1.len() <= s2.1.len()
    &&& s2.1.take(s.1.len() as int) == s.1
    &&& forall|k: int| s.1.len() <= k < s2.1.len() ==> !s.0.contains(#[trigger] item_key(s2.1[k])) && s2.0.contains(item_key(s2.1[k]))
    &&& forall|k: int, l: int| s.1.len() <= k < l < s2.1.len() ==> item_key(#[trigger] s2.1[k]) != item_key(#[trigger] s2.1[l])
}

proof fn lemma_extends_refl(s: IndexState)
    ensures
        extends(s, s),
{
    assert(s.1.take(s.1.len() as int) =~= s.1);
}

proof fn lemma_extends_trans(s: IndexState, s2: IndexState, s3: IndexState)
    requires
        extends(s, s2),
        extends(s2, s3),
    ensures
        extends(s, s3),
{
    assert(s3.1.take(s.1.len() as int) =~= s2.1.take(s.1.len() as int)) by {
        assert forall|k: int| 0 <= k < s.1.len() implies s3.1[k] == s2.1[k] by {
            assert(s3.1.take(s2.1.len() as int)[k] == s3.1[k]);
        }
    }
    assert forall|k: int| s.1.len() <= k < s3.1.len() implies !s.0.contains(#[trigger] item_key(s3.1[k]))
        && s3.0.contains(item_key(s3.1[k])) by {
        if k < s2.1.len() {
            assert(s3.1.take(s2.1.len() as int)[k] == s3.1[k]);
            assert(s2.1[k] == s3.1[k]);
            assert(!s.0.contains(item_key(s2.1[k])));
        }
    }
    assert forall|k: int, l: int| s.1.len() <= k < l < s3.1.len() implies item_key(#[trigger] s3.1[k]) != item_key(
        #[trigger] s3.1[l],
    ) by {
        if l < s2.1.len() {
            assert(s3.1.take(s2.1.len() as int)[k] == s3.1[k]);
            assert(s3.1.take(s2.1.len() as int)[l] == s3.1[l]);
            assert(item_key(s2.1[k]) != item_key(s2.1[l]));
        } else if k < s2.1.len() {
            assert(s3.1.take(s2.1.len() as int)[k] == s3.1[k]);
            assert(s2.0.contains(item_key(s2.1[k])));
            assert(!s2.0.contains(item_key(s3.1[l])));
        }
    }
}

proof fn lemma_offer_extends(s: IndexState, item: ItemView)
    ensures
        extends(s, offer(s, item)),
{
    let s2 = offer(s, item);
    assert(s2.1.take(s.1.len() as int) =~= s.1);
}

proof fn lemma_offer_all_extends(s: IndexState, items: Seq<ItemView>)
    ensures
        extends(s, offer_all(s, items)),
    decreases items.len(),
{
    if items.len() == 0 {
        lemma_extends_refl(s);
    } else {
        lemma_offer_all_extends(s, items.drop_last());
        lemma_offer_extends(offer_all(s, items.drop_last()), items.last());
        lemma_extends_trans(s, offer_all(s, items.drop_last()), offer_all(s, items));
    }
}

/// What offering a list of items adds to the batch comes from that list; the batch before
/// stays in front.
proof fn lemma_offer_all_adds_from(s: IndexState, items: Seq<ItemView>)
    ensures
        s.1.len() <= offer_all(s, items).1.len(),
        offer_all(s, items).1.take(s.1.len() as int) == s.1,
        forall|k: int|
            s.1.len() <= k < offer_all(s, items).1.len() ==> items.contains(
                #[trigger] offer_all(s, items).1[k],
            ),
    decreases items.len(),
{
    lemma_offer_all_extends(s, items);
    if items.len() > 0 {
        let p = items.drop_last();
        lemma_offer_all_adds_from(s, p);
        let m = offer_all(s, p);
        let r = offer_all(s, items);
        assert(r == offer(m, items.last()));
        assert forall|k: int| s.1.len() <= k < r.1.len() implies items.contains(#[trigger] r.1[k]) by {
            if k < m.1.len() {
                assert(r.1[k] == m.1[k]);
                assert(p.contains(m.1[k]));
                let j = choose|j: int| 0 <= j < p.len() && p[j] == m.1[k];
                assert(items[j] == r.1[k]);
            } else {
                assert(r.1[k] == items.last());
                assert(items[items.len() - 1] == r.1[k]);
            }
        }
    }
}

/// Every item that expanding a found track adds to the batch is a catalog entity under its
/// own kind, id and name: the track itself, the track's album, or one of the track's
/// artists. What the batch held before stays in front, unchanged.
pub proof fn lemma_track_expansion_items(state: IndexState, track_id: Seq<char>, rt: ResolvedTrack)
    ensures
        track_expansion(state, track_id, Some(rt)).1.take(state.1.len() as int) == state.1,
        forall|k: int|
            state.1.len() <= k < track_expansion(state, track_id, Some(rt)).1.len() ==> {
                let item = #[trigger] track_expansion(state, track_id, Some(rt)).1[k];
                ||| item == (HashedItemType::Track, rt.track.id@, rt.track.name@)
                ||| item == (HashedItemType::Album, rt.album.id@, rt.album.name@)
                ||| exists|a: int|
                    0 <= a < rt.artists@.len() && item == (
                        HashedItemType::Artist,
                        rt.artists@[a].artist.id@,
                        rt.artists@[a].artist.name@,
                    )
            },
{
    let r = track_expansion(state, track_id, Some(rt));
    if state.0.contains((HashedItemType::Track, track_id)) {
        assert(state.1.take(state.1.len() as int) =~= state.1);
    } else {
        let ti = (HashedItemType::Track, rt.track.id@, rt.track.name@);
        let ai = (HashedItemType::Album, rt.album.id@, rt.album.name@);
        let arts = track_artist_items(rt.artists@);
        let s1 = offer(state, ti);
        let s2 = offer(s1, ai);
        assert(r == offer_all(s2, arts));
        lemma_offer_all_adds_from(s2, arts);
        lemma_offer_extends(state, ti);
        lemma_offer_extends(s1, ai);
        lemma_extends_trans(state, s1, s2);
        assert forall|k: int| state.1.len() <= k < r.1.len() implies {
            let item = #[trigger] r.1[k];
            ||| item == ti
            ||| item == ai
            ||| exists|a: int|
                0 <= a < rt.artists@.len() && item == (
                    HashedItemType::Artist,
                    rt.artists@[a].artist.id@,
                    rt.artists@[a].artist.name@,
                )
        } by {
            if k < s2.1.len() {
                assert(r.1.take(s2.1.len() as int)[k] == r.1[k]);
                if k < s1.1.len() {
                    assert(s2.1.take(s1.1.len() as int)[k] == s2.1[k]);
                    assert(s1.1[k] == ti);
                } else {
                    assert(s2.1[k] == ai);
                }
            } else {
                assert(arts.contains(r.1[k]));
                let a = choose|a: int| 0 <= a < arts.len() && arts[a] == r.1[k];
                assert(arts[a] == (
                    HashedItemType::Artist,
                    rt.artists@[a].artist.id@,
                    rt.artists@[a].artist.name@,
                ));
            }
        }
        assert(r.1.take(state.1.len() as int) =~= state.1) by {
            assert forall|k: int| 0 <= k < state.1.len() implies r.1.take(state.1.len() as int)[k]
                == state.1[k] by {
                assert(r.1.take(s2.1.len() as int)[k] == r.1[k]);
                assert(s2.1.take(state.1.len() as int)[k] == s2.1[k]);
            }
        }
    }
}

proof fn lemma_kept_in_front(a: Seq<ItemView>, b: Seq<ItemView>, k: int)
    requires
        a.len() <= b.len(),
        b.take(a.len() as int) == a,
        0 <= k < a.len(),
    ensures
        b[k] == a[k],
{
    assert(b.take(a.len() as int)[k] == b[k]);
}

/// What offering the tracks of discs adds to the batch are tracks of those discs, each
/// under its own id and name; the batch before stays in front.
proof fn lemma_offer_discs_adds_from(s: IndexState, discs: Seq<Disc>)
    ensures
        s.1.len() <= offer_discs(s, discs).1.len(),
        offer_discs(s, discs).1.take(s.1.len() as int) == s.1,
        forall|k: int|
            s.1.len() <= k < offer_discs(s, discs).1.len() ==> exists|d: int, t: int|
                #![trigger discs[d].tracks@[t]]
                0 <= d < discs.len() && 0 <= t < discs[d].tracks@.len() && #[trigger] offer_discs(
                    s,
                    discs,
                ).1[k] == (HashedItemType::Track, discs[d].tracks@[t].id@, discs[d].tracks@[t].name@),
    decreases discs.len(),
{
    lemma_offer_discs_extends(s, discs);
    if discs.len() > 0 {
        let p = discs.drop_last();
        lemma_offer_discs_adds_from(s, p);
        let mid = offer_discs(s, p);
        let items = track_items(discs.last().tracks@);
        let r = offer_discs(s, discs);
        assert(r == offer_all(mid, items));
        lemma_offer_all_adds_from(mid, items);
        assert forall|k: int| s.1.len() <= k < r.1.len() implies exists|d: int, t: int|
            #![trigger discs[d].tracks@[t]]
            0 <= d < discs.len() && 0 <= t < discs[d].tracks@.len() && #[trigger] r.1[k] == (
                HashedItemType::Track,
                discs[d].tracks@[t].id@,
                discs[d].tracks@[t].name@,
            ) by {
            if k < mid.1.len() {
                lemma_kept_in_front(mid.1, r.1, k);
                assert(mid.1[k] == offer_discs(s, p).1[k]);
                let (d, t) = choose|d: int, t: int|
                    #![trigger p[d].tracks@[t]]
                    0 <= d < p.len() && 0 <= t < p[d].tracks@.len() && offer_discs(s, p).1[k] == (
                        HashedItemType::Track,
                        p[d].tracks@[t].id@,
                        p[d].tracks@[t].name@,
                    );
                assert(discs[d] == p[d]);
                assert(discs[d].tracks@[t] == p[d].tracks@[t]);
            } else {
                assert(items.contains(r.1[k]));
                let t = choose|t: int| 0 <= t < items.len() && items[t] == r.1[k];
                let d = discs.len() - 1;
                assert(discs[d].tracks@[t] == discs.last().tracks@[t]);
            }
        }
    }
}

/// Every item that expanding a found album adds to the batch is a catalog entity under its
/// own kind, id and name: the album itself, one of its artists, or a track of one of its
/// discs. What the batch held before stays in front, unchanged.
pub proof fn lemma_album_expansion_items(state: IndexState, album_id: Seq<char>, ra: ResolvedAlbum)
    ensures
        album_expansion(state, album_id, Some(ra)).1.take(state.1.len() as int) == state.1,
        forall|k: int|
            state.1.len() <= k < album_expansion(state, album_id, Some(ra)).1.len() ==> {
                let item = #[trigger] album_expansion(state, album_id, Some(ra)).1[k];
                ||| item == (HashedItemType::Album, ra.album.id@, ra.album.name@)
                ||| exists|a: int|
                    0 <= a < ra.artists@.len() && item == (
                        HashedItemType::Artist,
                        ra.artists@[a].id@,
                        ra.artists@[a].name@,
                    )
                ||| exists|d: int, t: int|
                    #![trigger ra.discs@[d].tracks@[t]]
                    0 <= d < ra.discs@.len() && 0 <= t < ra.discs@[d].tracks@.len() && item == (
                        HashedItemType::Track,
                        ra.discs@[d].tracks@[t].id@,
                        ra.discs@[d].tracks@[t].name@,
                    )
            },
{
    let r = album_expansion(state, album_id, Some(ra));
    if state.0.contains((HashedItemType::Album, album_id)) {
        assert(state.1.take(state.1.len() as int) =~= state.1);
    } else {
        let ai = (HashedItemType::Album, ra.album.id@, ra.album.name@);
        let arts = artist_items(ra.artists@);
        let s1 = offer(state, ai);
        let s2 = offer_all(s1, arts);
        assert(r == offer_discs(s2, ra.discs@));
        lemma_offer_extends(state, ai);
        lemma_offer_all_adds_from(s1, arts);
        lemma_offer_discs_adds_from(s2, ra.discs@);
        assert forall|k: int| state.1.len() <= k < r.1.len() implies {
            let item = #[trigger] r.1[k];
            ||| item == ai
            ||| exists|a: int|
                0 <= a < ra.artists@.len() && item == (
                    HashedItemType::Artist,
                    ra.artists@[a].id@,
                    ra.artists@[a].name@,
                )
            ||| exists|d: int, t: int|
                #![trigger ra.discs@[d].tracks@[t]]
                0 <= d < ra.discs@.len() && 0 <= t < ra.discs@[d].tracks@.len() && item == (
                    HashedItemType::Track,
                    ra.discs@[d].tracks@[t].id@,
                    ra.discs@[d].tracks@[t].name@,
                )
        } by {
            if k < s2.1.len() {
                lemma_kept_in_front(s2.1, r.1, k);
                if k < s1.1.len() {
                    lemma_kept_in_front(s1.1, s2.1, k);
                } else {
                    assert(arts.contains(s2.1[k]));
                    let a = choose|a: int| 0 <= a < arts.len() && arts[a] == s2.1[k];
                    assert(arts[a] == (HashedItemType::Artist, ra.artists@[a].id@, ra.artists@[a].name@));
                }
            }
        }
        assert(r.1.take(state.1.len() as int) =~= state.1) by {
            assert forall|k: int| 0 <= k < state.1.len() implies r.1.take(state.1.len() as int)[k]
                == state.1[k] by {
                lemma_kept_in_front(s2.1, r.1, k);
                lemma_kept_in_front(s1.1, s2.1, k);
                lemma_kept_in_front(state.1, s1.1, k);
            }
        }
    }
}

/// Every item that expanding a found artist adds to the batch is a catalog entity under its
/// own kind, id and name: the artist itself, one of its related artists, or an album of
/// its discography. What the batch held before stays in front, unchanged.
pub proof fn lemma_artist_expansion_items(
    state: IndexState,
    artist_id: Seq<char>,
    ra: ResolvedArtist,
    discography: Option<Vec<Album>>,
)
    ensures
        artist_expansion(state, artist_id, Some(ra), discography).1.take(state.1.len() as int)
            == state.1,
        forall|k: int|
            state.1.len() <= k < artist_expansion(state, artist_id, Some(ra), discography).1.len()
                ==> {
                let item = #[trigger] artist_expansion(state, artist_id, Some(ra), discography).1[k];
                ||| item == (HashedItemType::Artist, ra.artist.id@, ra.artist.name@)
                ||| exists|a: int|
                    0 <= a < ra.related_artists@.len() && item == (
                        HashedItemType::Artist,
                        ra.related_artists@[a].id@,
                        ra.related_artists@[a].name@,
                    )
                ||| exists|b: int|
                    discography is Some && 0 <= b < discography.unwrap()@.len() && item == (
                        HashedItemType::Album,
                        (#[trigger] discography.unwrap()@[b]).id@,
                        discography.unwrap()@[b].name@,
                    )
            },
{
    let r = artist_expansion(state, artist_id, Some(ra), discography);
    if state.0.contains((HashedItemType::Artist, artist_id)) {
        assert(state.1.take(state.1.len() as int) =~= state.1);
    } else {
        let ri = (HashedItemType::Artist, ra.artist.id@, ra.artist.name@);
        let rel = artist_items(ra.related_artists@);
        let s1 = offer(state, ri);
        let s2 = offer_all(s1, rel);
        lemma_offer_extends(state, ri);
        lemma_offer_all_adds_from(s1, rel);
        match discography {
            Some(albums) => {
                lemma_offer_all_adds_from(s2, album_items(albums@));
                assert(r == offer_all(s2, album_items(albums@)));
            },
            None => {
                assert(r == s2);
                assert(s2.1.take(s2.1.len() as int) =~= s2.1);
            },
        }
        assert forall|k: int| state.1.len() <= k < r.1.len() implies {
            let item = #[trigger] r.1[k];
            ||| item == ri
            ||| exists|a: int|
                0 <= a < ra.related_artists@.len() && item == (
                    HashedItemType::Artist,
                    ra.related_artists@[a].id@,
                    ra.related_artists@[a].name@,
                )
            ||| exists|b: int|
                discography is Some && 0 <= b < discography.unwrap()@.len() && item == (
                    HashedItemType::Album,
                    (#[trigger] discography.unwrap()@[b]).id@,
                    discography.unwrap()@[b].name@,
                )
        } by {
            if k < s2.1.len() {
                lemma_kept_in_front(s2.1, r.1, k);
                if k < s1.1.len() {
                    lemma_kept_in_front(s1.1, s2.1, k);
                } else {
                    assert(rel.contains(s2.1[k]));
                    let a = choose|a: int| 0 <= a < rel.len() && rel[a] == s2.1[k];
                    assert(rel[a] == (
                        HashedItemType::Artist,
                        ra.related_artists@[a].id@,
                        ra.related_artists@[a].name@,
                    ));
                }
            } else {
                let albums = discography.unwrap();
                let items = album_items(albums@);
                assert(items.contains(r.1[k]));
                let b = choose|b: int| 0 <= b < items.len() && items[b] == r.1[k];
                assert(items[b] == (HashedItemType::Album, albums@[b].id@, albums@[b].name@));
            }
        }
        assert(r.1.take(state.1.len() as int) =~= state.1) by {
            assert forall|k: int| 0 <= k < state.1.len() implies r.1.take(state.1.len() as int)[k]
                == state.1[k] by {
                lemma_kept_in_front(s2.1, r.1, k);
                lemma_kept_in_front(s1.1, s2.1, k);
                lemma_kept_in_front(state.1, s1.1, k);
            }
        }
    }
}

/// After offering a list of items, each of them is tracked, as is all that was before.
proof fn lemma_offer_all_tracks_all(s: IndexState, items: Seq<ItemView>)
    ensures
        s.0.subset_of(offer_all(s, items).0),
        forall|j: int| 0 <= j < items.len() ==> offer_all(s, items).0.contains(item_key(#[trigger] items[j])),
    decreases items.len(),
{
    lemma_offer_all_extends(s, items);
    if items.len() > 0 {
        let p = items.drop_last();
        lemma_offer_all_tracks_all(s, p);
        assert forall|j: int| 0 <= j < items.len() implies offer_all(s, items).0.contains(
            item_key(#[trigger] items[j]),
        ) by {
            if j < p.len() {
                assert(p[j] == items[j]);
            }
        }
    }
}

/// Expanding a found track that was not tracked tracks the track, its album and each of
/// its artists.
pub proof fn lemma_track_expansion_tracks_all(state: IndexState, track_id: Seq<char>, rt: ResolvedTrack)
    requires
        !state.0.contains((HashedItemType::Track, track_id)),
    ensures
        track_expansion(state, track_id, Some(rt)).0.contains((HashedItemType::Track, rt.track.id@)),
        track_expansion(state, track_id, Some(rt)).0.contains((HashedItemType::Album, rt.album.id@)),
        forall|a: int|
            0 <= a < rt.artists@.len() ==> track_expansion(state, track_id, Some(rt)).0.contains(
                (HashedItemType::Artist, #[trigger] rt.artists@[a].artist.id@),
            ),
{
    let ti = (HashedItemType::Track, rt.track.id@, rt.track.name@);
    let ai = (HashedItemType::Album, rt.album.id@, rt.album.name@);
    let arts = track_artist_items(rt.artists@);
    let s1 = offer(state, ti);
    let s2 = offer(s1, ai);
    lemma_offer_all_tracks_all(s2, arts);
    assert forall|a: int| 0 <= a < rt.artists@.len() implies track_expansion(state, track_id, Some(rt)).0.contains(
        (HashedItemType::Artist, #[trigger] rt.artists@[a].artist.id@),
    ) by {
        assert(item_key(arts[a]) == (HashedItemType::Artist, rt.artists@[a].artist.id@));
    }
}

proof fn lemma_offer_discs_extends(s: IndexState, discs: Seq<Disc>)
    ensures
        extends(s, offer_discs(s, discs)),
    decreases discs.len(),
{
    if discs.len() == 0 {
        lemma_extends_refl(s);
    } else {
        lemma_offer_discs_extends(s, discs.drop_last());
        let mid = offer_discs(s, discs.drop_last());
        lemma_offer_all_extends(mid, track_items(discs.last().tracks@));
        lemma_extends_trans(s, mid, offer_discs(s, discs));
    }
}

/// Whatever the catalog returned, running a task only extends the indexer's state.
pub proof fn lemma_task_expansion_extends(
    s: IndexState,
    task: IndexTask,
    ra: Option<ResolvedArtist>,
    d: Option<Vec<Album>>,
    rb: Option<ResolvedAlbum>,
    rt: Option<ResolvedTrack>,
)
    ensures
        extends(s, task_expansion(s, task, ra, d, rb, rt)),
{
    lemma_extends_refl(s);
    match task {
        IndexTask::Artist(id) => {
            if !s.0.contains((HashedItemType::Artist, id@)) {
                if let Some(a) = ra {
                    let s1 = offer(s, (HashedItemType::Artist, a.artist.id@, a.artist.name@));
                    let s2 = offer_all(s1, artist_items(a.related_artists@));
                    lemma_offer_extends(s, (HashedItemType::Artist, a.artist.id@, a.artist.name@));
                    lemma_offer_all_extends(s1, artist_items(a.related_artists@));
                    lemma_extends_trans(s, s1, s2);
                    if let Some(albums) = d {
                        lemma_offer_all_extends(s2, album_items(albums@));
                        lemma_extends_trans(s, s2, offer_all(s2, album_items(albums@)));
                    }
                }
            }
        },
        IndexTask::Album(id) => {
            if !s.0.contains((HashedItemType::Album, id@)) {
                if let Some(a) = rb {
                    let s1 = offer(s, (HashedItemType::Album, a.album.id@, a.album.name@));
                    let s2 = offer_all(s1, artist_items(a.artists@));
                    lemma_offer_extends(s, (HashedItemType::Album, a.album.id@, a.album.name@));
                    lemma_offer_all_extends(s1, artist_items(a.artists@));
                    lemma_extends_trans(s, s1, s2);
                    lemma_offer_discs_extends(s2, a.discs@);
                    lemma_extends_trans(s, s2, offer_discs(s2, a.discs@));
                }
            }
        },
        IndexTask::Track(id) => {
            if !s.0.contains((HashedItemType::Track, id@)) {
                if let Some(t) = rt {
                    let s1 = offer(s, (HashedItemType::Track, t.track.id@, t.track.name@));
                    let s2 = offer(s1, (HashedItemType::Album, t.album.id@, t.album.name@));
                    lemma_offer_extends(s, (HashedItemType::Track, t.track.id@, t.track.name@));
                    lemma_offer_extends(s1, (HashedItemType::Album, t.album.id@, t.album.name@));
                    lemma_extends_trans(s, s1, s2);
                    lemma_offer_all_extends(s2, track_artist_items(t.artists@));
                    lemma_extends_trans(s, s2, offer_all(s2, track_artist_items(t.artists@)));
                }
            }
        },
    }
}

} // verus!

verus! {

/// Items handed to the search index at once.
pub const BATCH_SIZE: usize = 100;

/// Tasks the indexing queue holds before new ones are dropped.
pub const QUEUE_CAPACITY: usize = 10_000;

/// Hands the batch to the search index, when it holds anything, and empties it. A failed
/// upsert is not retried: its items stay tracked.
pub fn flush_batch<V: SearchVault + ?Sized>(vault: &V, batch: &mut Vec<SearchIndexItem>)
    ensures
        final(batch)@.len() == 0,
        old(batch)@.len() > 0 ==> exists|answer: Result<(), String>| #[trigger] vault.upsert_answer(old(batch)@, answer),
{
    if batch.len() == 0 {
        return;
    }
    let answer = vault.upsert_items(batch.as_slice());
    assert(vault.upsert_answer(old(batch)@, answer));
    batch.clear();
}

/// What the indexing worker learns while it waits for work.
pub enum WorkerEvent {
    /// A touched item to index.
    Task(IndexTask),
    /// No task came for a while.
    Idle,
    /// The queue was closed.
    Closed,
    /// A shutdown was requested.
    Stopped,
}

/// No two items of `s` have the same key.
pub open spec fn no_repeats(s: Seq<ItemView>) -> bool {
    forall|i: int, j: int| 0 <= i < j < s.len() ==> item_key(#[trigger] s[i]) != item_key(#[trigger] s[j])
}

/// Every item of `s` has its key in `keys`.
pub open spec fn all_keyed(s: Seq<ItemView>, keys: Set<(HashedItemType, Seq<char>)>) -> bool {
    forall|k: int| 0 <= k < s.len() ==> keys.contains(#[trigger] item_key(s[k]))
}

/// Extending the state keeps the handed-over items followed by the batch free of repeats
/// and indexed.
proof fn lemma_extends_keeps_no_repeats(handed: Seq<ItemView>, s: IndexState, s2: IndexState)
    requires
        no_repeats(handed + s.1),
        all_keyed(handed + s.1, s.0),
        extends(s, s2),
    ensures
        no_repeats(handed + s2.1),
        all_keyed(handed + s2.1, s2.0),
{
    let a = handed + s.1;
    let b = handed + s2.1;
    let h = handed.len() as int;
    assert forall|k: int| 0 <= k < h + s.1.len() implies b[k] == a[k] by {
        if k >= h {
            assert(s2.1.take(s.1.len() as int)[k - h] == s2.1[k - h]);
        }
    }
    assert forall|i: int, j: int| 0 <= i < j < b.len() implies item_key(#[trigger] b[i]) != item_key(#[trigger] b[j]) by {
        if j < h + s.1.len() {
            assert(item_key(a[i]) != item_key(a[j]));
        } else if i < h + s.1.len() {
            assert(s.0.contains(item_key(a[i])));
            assert(!s.0.contains(item_key(s2.1[j - h])));
        } else {
            assert(item_key(s2.1[i - h]) != item_key(s2.1[j - h]));
        }
    }
    assert forall|k: int| 0 <= k < b.len() implies s2.0.contains(#[trigger] item_key(b[k])) by {
        if k < h + s.1.len() {
            assert(s.0.contains(item_key(a[k])));
        } else {
            assert(s2.0.contains(item_key(s2.1[k - h])));
        }
    }
}

/// The indexing worker between events: what it tracks as indexed, the items it has not
/// handed to the search index yet, and (as a proof record) those it has handed over.
pub struct IndexWorker {
    tracker: IndexTracker,
    batch: Vec<SearchIndexItem>,
    handed: Ghost<Seq<ItemView>>,
}

impl IndexWorker {
    /// The items tracked as indexed.
    pub closed spec fn indexed_items(&self) -> Set<(HashedItemType, Seq<char>)> {
        self.tracker@
    }

    /// The items waiting to be handed over, in order.
    pub closed spec fn pending(&self) -> Seq<ItemView> {
        batch_view(self.batch@)
    }

    /// The items handed to the search index so far, in order.
    pub closed spec fn handed_over(&self) -> Seq<ItemView> {
        self.handed@
    }

    /// Between events: fewer than `BATCH_SIZE` items wait; no item was handed over, or
    /// waits, twice; and all of them are tracked as indexed.
    pub open spec fn wf(&self) -> bool {
        &&& self.pending().len() < BATCH_SIZE
        &&& no_repeats(self.handed_over() + self.pending())
        &&& all_keyed(self.handed_over() + self.pending(), self.indexed_items())
    }

    /// A worker that tracks nothing and has handed nothing over.
    pub fn new() -> (r: Self)
        ensures
            r.indexed_items() == Set::<(HashedItemType, Seq<char>)>::empty(),
            r.pending() == Seq::<ItemView>::empty(),
            r.handed_over() == Seq::<ItemView>::empty(),
            r.wf(),
    {
        let r = IndexWorker { tracker: IndexTracker::new(), batch: Vec::new(), handed: Ghost(Seq::empty()) };
        assert(batch_view(r.batch@) =~= Seq::<ItemView>::empty());
        assert(r.handed_over() + r.pending() =~= Seq::<ItemView>::empty());
        r
    }

    /// Whether the item `id` of kind `item_type` is tracked: touching it again queues
    /// nothing.
    pub fn is_indexed(&self, id: &str, item_type: HashedItemType) -> (r: bool)
        ensures
            r == self.indexed_items().contains((item_type, id@)),
    {
        self.tracker.is_indexed(id, item_type)
    }

    /// How many items wait to be handed over.
    pub fn pending_count(&self) -> (r: usize)
        ensures
            r == self.pending().len(),
    {
        self.batch.len()
    }

    /// Hands the waiting items over and records them.
    fn flush(&mut self, vault: &(impl SearchVault + ?Sized))
        requires
            no_repeats(old(self).handed_over() + old(self).pending()),
            all_keyed(old(self).handed_over() + old(self).pending(), old(self).indexed_items()),
        ensures
            final(self).wf(),
            final(self).pending().len() == 0,
            final(self).indexed_items() == old(self).indexed_items(),
            final(self).handed_over() == old(self).handed_over() + old(self).pending(),
    {
        self.handed = Ghost(self.handed@ + batch_view(self.batch@));
        flush_batch(vault, &mut self.batch);
        assert(self.handed_over() + self.pending() =~= self.handed_over());
    }

    /// Handles one event, and says whether the worker keeps running. A task is expanded
    /// into the batch, which is handed over once it holds `BATCH_SIZE` items; when idle,
    /// and when the queue closes or a shutdown is requested, whatever waits is handed
    /// over; the worker stops on the last two.
    pub fn step<S: CatalogStore + ?Sized, V: SearchVault + ?Sized>(
        &mut self,
        event: WorkerEvent,
        catalog_store: &S,
        vault: &V,
    ) -> (running: bool)
        requires
            old(self).wf(),
        ensures
            final(self).wf(),
            running == (event is Task || event is Idle),
            !(event is Task) ==> final(self).pending().len() == 0 && final(self).indexed_items() == old(self).indexed_items()
                && final(self).handed_over() == old(self).handed_over() + old(self).pending(),
            event matches WorkerEvent::Task(task) ==> exists|
                ra: Option<ResolvedArtist>,
                d: Option<Vec<Album>>,
                rb: Option<ResolvedAlbum>,
                rt: Option<ResolvedTrack>,
            |
                {
                    let e = #[trigger] task_expansion((old(self).indexed_items(), old(self).pending()), task, ra, d, rb, rt);
                    &&& final(self).indexed_items() == e.0
                    &&& e.1.len() >= BATCH_SIZE ==> final(self).pending().len() == 0 && final(self).handed_over()
                        == old(self).handed_over() + e.1
                    &&& e.1.len() < BATCH_SIZE ==> final(self).pending() == e.1 && final(self).handed_over()
                        == old(self).handed_over()
                },
    {
        match event {
            WorkerEvent::Task(task) => {
                let ghost s0 = (self.tracker@, batch_view(self.batch@));
                self.tracker.process_task(&task, catalog_store, &mut self.batch);
                proof {
                    let (ra, d, rb, rt) = choose|
                        ra: Option<ResolvedArtist>,
                        d: Option<Vec<Album>>,
                        rb: Option<ResolvedAlbum>,
                        rt: Option<ResolvedTrack>,
                    |
                        (self.tracker@, batch_view(self.batch@)) == #[trigger] task_expansion(s0, task, ra, d, rb, rt);
                    lemma_task_expansion_extends(s0, task, ra, d, rb, rt);
                    lemma_extends_keeps_no_repeats(self.handed@, s0, (self.tracker@, batch_view(self.batch@)));
                }
                if self.batch.len() >= BATCH_SIZE {
                    self.flush(vault);
                }
                true
            },
            WorkerEvent::Idle => {
                self.flush(vault);
                true
            },
            WorkerEvent::Closed => {
                self.flush(vault);
                false
            },
            WorkerEvent::Stopped => {
                self.flush(vault);
                false
            },
        }
    }
}

/// Whatever tasks it ran and however its batches were handed over, a well-formed
/// indexing worker never handed the same item to the search index twice.
pub proof fn lemma_no_item_handed_over_twice(worker: &IndexWorker)
    requires
        worker.wf(),
    ensures
        no_repeats(worker.handed_over()),
{
    let all = worker.handed_over() + worker.pending();
    assert forall|i: int, j: int| 0 <= i < j < worker.handed_over().len() implies item_key(
        #[trigger] worker.handed_over()[i],
    ) != item_key(#[trigger] worker.handed_over()[j]) by {
        assert(all[i] == worker.handed_over()[i]);
        assert(all[j] == worker.handed_over()[j]);
    }
}

} // verus!
