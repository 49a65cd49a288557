//! Resolution of search hits (artist, album and track ids) to their search representation.

use vstd::prelude::*;

use crate::catalog::opt_view;
use crate::catalog::Album;
use crate::catalog::Artist;
use crate::catalog::ResolvedAlbum;
use crate::catalog::ResolvedArtist;
use crate::catalog::ResolvedTrack;
use crate::catalog::TrackArtist;
use crate::numeric::leading_number;
use crate::numeric::parse_leading_number;

verus! {

/// The kind of an indexed search item.
#[derive(Clone, Copy, Debug, PartialEq, Eq, PartialOrd, Ord, Hash, Structural)]
pub enum HashedItemType {
    Artist,
    Album,
    Track,
}

#[derive(Clone, Debug)]
pub struct SearchedArtist {
    pub id: String,
    pub name: String,
    pub image_id: Option<String>,
    pub available: bool,
}

#[derive(Clone, Debug)]
pub struct SearchedAlbum {
    pub id: String,
    pub name: String,
    pub artists_ids_names: Vec<(String, String)>,
    pub image_id: Option<String>,
    pub year: Option<i64>,
    pub availability: String,
}

#[derive(Clone, Debug)]
pub struct SearchedTrack {
    pub id: String,
    pub name: String,
    pub duration: u32,
    pub artists_ids_names: Vec<(String, String)>,
    pub image_id: Option<String>,
    pub album_id: String,
    pub availability: String,
}

/// A search hit resolved to what a client displays.
#[derive(Clone, Debug)]
pub enum ResolvedSearchResult {
    Artist(SearchedArtist),
    Album(SearchedAlbum),
    Track(SearchedTrack),
}

/// Why a catalog lookup failed.
#[derive(Clone, Debug)]
pub struct CatalogStoreError {
    pub message: String,
}

/// The catalog lookups that search resolution needs. Each lookup comes with a relation
/// that the implementation defines: which answers it may give for which request (any
/// answer, unless the implementation narrows it). The relation promises nothing of its
/// own; it names what came back, so that callers can state what they make of it.
pub trait CatalogStore {
    /// Whether `r` is an answer the store may give when asked for artist `id`.
    open spec fn artist_answer(&self, id: Seq<char>, r: Result<Option<ResolvedArtist>, CatalogStoreError>) -> bool {
        true
    }

    /// Whether `r` is an answer the store may give when asked for album `id`.
    open spec fn album_answer(&self, id: Seq<char>, r: Result<Option<ResolvedAlbum>, CatalogStoreError>) -> bool {
        true
    }

    /// Whether `r` is an answer the store may give when asked for track `id`.
    open spec fn track_answer(&self, id: Seq<char>, r: Result<Option<ResolvedTrack>, CatalogStoreError>) -> bool {
        true
    }

    /// Whether `r` is an answer the store may give when asked for the discography of
    /// `artist_id` with this limit and offset.
    open spec fn discography_answer(
        &self,
        artist_id: Seq<char>,
        limit: usize,
        offset: usize,
        r: Result<Option<Vec<Album>>, CatalogStoreError>,
    ) -> bool {
        true
    }

    fn get_resolved_artist(&self, id: &str) -> (r: Result<Option<ResolvedArtist>, CatalogStoreError>)
        ensures
            self.artist_answer(id@, r),
    ;

    fn get_resolved_album(&self, id: &str) -> (r: Result<Option<ResolvedAlbum>, CatalogStoreError>)
        ensures
            self.album_answer(id@, r),
    ;

    fn get_resolved_track(&self, id: &str) -> (r: Result<Option<ResolvedTrack>, CatalogStoreError>)
        ensures
            self.track_answer(id@, r),
    ;

    /// Up to `limit` albums of an artist's discography, most popular first, skipping
    /// `offset`; `None` where the artist is unknown.
    fn get_discography(&self, artist_id: &str, limit: usize, offset: usize) -> (r: Result<Option<Vec<Album>>, CatalogStoreError>)
        ensures
            self.discography_answer(artist_id@, limit, offset, r),
    ;
}

/// `(id, name)` pairs of a list of artists, as character sequences.
pub open spec fn pairs_view(v: Seq<(String, String)>) -> Seq<(Seq<char>, Seq<char>)> {
    v.map_values(|p: (String, String)| (p.0@, p.1@))
}

pub open spec fn artist_pairs(artists: Seq<Artist>) -> Seq<(Seq<char>, Seq<char>)> {
    artists.map_values(|a: Artist| (a.id@, a.name@))
}

pub open spec fn track_artist_pairs(artists: Seq<TrackArtist>) -> Seq<(Seq<char>, Seq<char>)> {
    artists.map_values(|a: TrackArtist| (a.artist.id@, a.artist.name@))
}

/// The album year shown in search: the leading field of the release date as an `i64`.
pub open spec fn album_year(album: Album) -> Option<i64> {
    match album.release_date {
        Some(d) => match leading_number(d@, i64::MAX as nat) {
            Some(y) => Some(y as i64),
            None => None,
        },
        None => None,
    }
}

/// Milliseconds to whole seconds, rounded toward zero, then kept to 32 bits.
pub open spec fn duration_seconds(duration_ms: i64) -> u32 {
    let secs: int = if duration_ms >= 0 {
        duration_ms / 1000
    } else {
        -((-duration_ms) / 1000)
    };
    secs as u32
}

fn seconds_from_millis(duration_ms: i64) -> (r: u32)
    ensures
        r == duration_seconds(duration_ms),
{
    if duration_ms >= 0 {
        (duration_ms / 1000) as u32
    } else {
        let magnitude: i128 = (0i128 - duration_ms as i128) / 1000;
        (0i128 - magnitude) as u32
    }
}

/// A searched duration is the track's length in whole seconds: for a non-negative length
/// of fewer than 2^32 seconds, `d` seconds cover it to within the last second,
/// `d * 1000 <= duration_ms < (d + 1) * 1000`.
pub proof fn lemma_duration_is_whole_seconds(duration_ms: i64)
    requires
        0 <= duration_ms < 1000 * 0x1_0000_0000,
    ensures
        duration_seconds(duration_ms) as int * 1000 <= duration_ms,
        duration_ms < (duration_seconds(duration_ms) as int + 1) * 1000,
{
    let secs: int = duration_ms / 1000;
    assert(0 <= secs < 0x1_0000_0000);
    assert(secs as u32 == secs);
}

/// `a` is the search representation of `ra`.
pub open spec fn is_searched_artist(a: SearchedArtist, ra: ResolvedArtist) -> bool {
    &&& a.id@ == ra.artist.id@
    &&& a.name@ == ra.artist.name@
    &&& opt_view(a.image_id) == Some(ra.artist.id@)
    &&& a.available == ra.artist.available
}

/// `a` is the search representation of `ra`.
pub open spec fn is_searched_album(a: SearchedAlbum, ra: ResolvedAlbum) -> bool {
    &&& a.id@ == ra.album.id@
    &&& a.name@ == ra.album.name@
    &&& pairs_view(a.artists_ids_names@) == artist_pairs(ra.artists@)
    &&& opt_view(a.image_id) == Some(ra.album.id@)
    &&& a.year == album_year(ra.album)
    &&& a.availability@ == ra.album.album_availability.db_str()
}

/// `t` is the search representation of `rt`.
pub open spec fn is_searched_track(t: SearchedTrack, rt: ResolvedTrack) -> bool {
    &&& t.id@ == rt.track.id@
    &&& t.name@ == rt.track.name@
    &&& t.duration == duration_seconds(rt.track.duration_ms)
    &&& pairs_view(t.artists_ids_names@) == track_artist_pairs(rt.artists@)
    &&& opt_view(t.image_id) == Some(rt.album.id@)
    &&& t.album_id@ == rt.album.id@
    &&& t.availability@ == rt.track.availability.name()
}

/// The duration of a searched track is its catalog length in milliseconds turned into whole
/// seconds, for any non-negative length of fewer than 2^32 seconds.
pub proof fn lemma_searched_track_duration(t: SearchedTrack, rt: ResolvedTrack)
    requires
        is_searched_track(t, rt),
        0 <= rt.track.duration_ms < 1000 * 0x1_0000_0000,
    ensures
        t.duration as int * 1000 <= rt.track.duration_ms,
        rt.track.duration_ms < (t.duration as int + 1) * 1000,
{
    lemma_duration_is_whole_seconds(rt.track.duration_ms);
}

/// What a lookup answer resolves to: a found artist gives its search representation; a
/// missing one or a failed lookup gives nothing.
pub open spec fn resolves_artist(ans: Result<Option<ResolvedArtist>, CatalogStoreError>, r: Option<SearchedArtist>) -> bool {
    match ans {
        Ok(Some(ra)) => r matches Some(a) && is_searched_artist(a, ra),
        _ => r is None,
    }
}

/// What a lookup answer resolves to (see [`resolves_artist`]).
pub open spec fn resolves_album(ans: Result<Option<ResolvedAlbum>, CatalogStoreError>, r: Option<SearchedAlbum>) -> bool {
    match ans {
        Ok(Some(ra)) => r matches Some(a) && is_searched_album(a, ra),
        _ => r is None,
    }
}

/// What a lookup answer resolves to (see [`resolves_artist`]).
pub open spec fn resolves_track(ans: Result<Option<ResolvedTrack>, CatalogStoreError>, r: Option<SearchedTrack>) -> bool {
    match ans {
        Ok(Some(rt)) => r matches Some(t) && is_searched_track(t, rt),
        _ => r is None,
    }
}

/// The search representation of a resolved artist; its id stands in as its image.
pub fn searched_artist(resolved: ResolvedArtist) -> (r: SearchedArtist)
    ensures
        r.id@ == resolved.artist.id@,
        r.name@ == resolved.artist.name@,
        opt_view(r.image_id) == Some(resolved.artist.id@),
        r.available == resolved.artist.available,
{
    SearchedArtist {
        id: resolved.artist.id.clone(),
        name: resolved.artist.name,
        image_id: Some(resolved.artist.id),
        available: resolved.artist.available,
    }
}

/// The search representation of a resolved album; its id stands in as its image.
pub fn searched_album(resolved: ResolvedAlbum) -> (r: SearchedAlbum)
    ensures
        r.id@ == resolved.album.id@,
        r.name@ == resolved.album.name@,
        pairs_view(r.artists_ids_names@) == artist_pairs(resolved.artists@),
        opt_view(r.image_id) == Some(resolved.album.id@),
        r.year == album_year(resolved.album),
        r.availability@ == resolved.album.album_availability.db_str(),
{
    let year = match &resolved.album.release_date {
        Some(d) => match parse_leading_number(d.as_str(), 0x7fff_ffff_ffff_ffff) {
            Some(y) => Some(y as i64),
            None => None,
        },
        None => None,
    };
    let mut pairs: Vec<(String, String)> = Vec::new();
    let mut i: usize = 0;
    while i < resolved.artists.len()
        invariant
            i <= resolved.artists@.len(),
            pairs@.len() == i,
            forall|k: int| 0 <= k < i ==> (#[trigger] pairs@[k]).0@ == resolved.artists@[k].id@
                && pairs@[k].1@ == resolved.artists@[k].name@,
        decreases resolved.artists@.len() - i,
    {
        pairs.push((resolved.artists[i].id.clone(), resolved.artists[i].name.clone()));
        i = i + 1;
    }
    assert(pairs_view(pairs@) =~= artist_pairs(resolved.artists@));
    let availability = resolved.album.album_availability.to_db_str().to_owned();
    SearchedAlbum {
        id: resolved.album.id.clone(),
        name: resolved.album.name,
        artists_ids_names: pairs,
        image_id: Some(resolved.album.id),
        year,
        availability,
    }
}

/// The search representation of a resolved track; its album id stands in as its image.
pub fn searched_track(resolved: ResolvedTrack) -> (r: SearchedTrack)
    ensures
        r.id@ == resolved.track.id@,
        r.name@ == resolved.track.name@,
        r.duration == duration_seconds(resolved.track.duration_ms),
        pairs_view(r.artists_ids_names@) == track_artist_pairs(resolved.artists@),
        opt_view(r.image_id) == Some(resolved.album.id@),
        r.album_id@ == resolved.album.id@,
        r.availability@ == resolved.track.availability.name(),
{
    let mut pairs: Vec<(String, String)> = Vec::new();
    let mut i: usize = 0;
    while i < resolved.artists.len()
        invariant
            i <= resolved.artists@.len(),
            pairs@.len() == i,
            forall|k: int| 0 <= k < i ==> (#[trigger] pairs@[k]).0@ == resolved.artists@[k].artist.id@
                && pairs@[k].1@ == resolved.artists@[k].artist.name@,
        decreases resolved.artists@.len() - i,
    {
        pairs.push((resolved.artists[i].artist.id.clone(), resolved.artists[i].artist.name.clone()));
        i = i + 1;
    }
    assert(pairs_view(pairs@) =~= track_artist_pairs(resolved.artists@));
    SearchedTrack {
        id: resolved.track.id.clone(),
        name: resolved.track.name,
        duration: seconds_from_millis(resolved.track.duration_ms),
        artists_ids_names: pairs,
        image_id: Some(resolved.album.id.clone()),
        album_id: resolved.album.id,
        availability: resolved.track.availability.as_str().to_owned(),
    }
}

/// Resolves an artist id through the catalog: asks the store for `id` once, and gives the
/// [`searched_artist`] representation of a found artist, `None` for a missing one or a
/// failed lookup.
pub fn resolve_artist<S: CatalogStore + ?Sized>(catalog_store: &S, id: &str) -> (r: Option<SearchedArtist>)
    ensures
        exists|ans| #[trigger] catalog_store.artist_answer(id@, ans) && resolves_artist(ans, r),
{
    let ans = catalog_store.get_resolved_artist(id);
    let ghost g = ans;
    let r = match ans {
        Ok(Some(resolved)) => Some(searched_artist(resolved)),
        _ => None,
    };
    assert(resolves_artist(g, r));
    r
}

/// Resolves an album id through the catalog: asks the store for `id` once, and gives the
/// [`searched_album`] representation of a found album, `None` for a missing one or a
/// failed lookup.
pub fn resolve_album<S: CatalogStore + ?Sized>(catalog_store: &S, id: &str) -> (r: Option<SearchedAlbum>)
    ensures
        exists|ans| #[trigger] catalog_store.album_answer(id@, ans) && resolves_album(ans, r),
{
    let ans = catalog_store.get_resolved_album(id);
    let ghost g = ans;
    let r = match ans {
        Ok(Some(resolved)) => Some(searched_album(resolved)),
        _ => None,
    };
    assert(resolves_album(g, r));
    r
}

/// Resolves a track id through the catalog: asks the store for `id` once, and gives the
/// [`searched_track`] representation of a found track, `None` for a missing one or a
/// failed lookup.
pub fn resolve_track<S: CatalogStore + ?Sized>(catalog_store: &S, id: &str) -> (r: Option<SearchedTrack>)
    ensures
        exists|ans| #[trigger] catalog_store.track_answer(id@, ans) && resolves_track(ans, r),
{
    let ans = catalog_store.get_resolved_track(id);
    let ghost g = ans;
    let r = match ans {
        Ok(Some(resolved)) => Some(searched_track(resolved)),
        _ => None,
    };
    assert(resolves_track(g, r));
    r
}

/// What resolving hit `id` of kind `item_type` may give: the lookup of that kind only,
/// for `id`, resolved as [`resolves_artist`] says, in the variant of that kind.
pub open spec fn resolves_hit<S: CatalogStore + ?Sized>(
    catalog_store: &S,
    id: Seq<char>,
    item_type: HashedItemType,
    r: Option<ResolvedSearchResult>,
) -> bool {
    match item_type {
        HashedItemType::Artist => exists|ans| #[trigger] catalog_store.artist_answer(id, ans) && (match r {
            Some(ResolvedSearchResult::Artist(a)) => resolves_artist(ans, Some(a)),
            Some(_) => false,
            None => resolves_artist(ans, None),
        }),
        HashedItemType::Album => exists|ans| #[trigger] catalog_store.album_answer(id, ans) && (match r {
            Some(ResolvedSearchResult::Album(a)) => resolves_album(ans, Some(a)),
            Some(_) => false,
            None => resolves_album(ans, None),
        }),
        HashedItemType::Track => exists|ans| #[trigger] catalog_store.track_answer(id, ans) && (match r {
            Some(ResolvedSearchResult::Track(t)) => resolves_track(ans, Some(t)),
            Some(_) => false,
            None => resolves_track(ans, None),
        }),
    }
}

/// The artist a dispatched resolution gave, if any.
pub open spec fn as_artist(r: Option<ResolvedSearchResult>) -> Option<SearchedArtist> {
    match r {
        Some(ResolvedSearchResult::Artist(a)) => Some(a),
        _ => None,
    }
}

/// The album a dispatched resolution gave, if any.
pub open spec fn as_album(r: Option<ResolvedSearchResult>) -> Option<SearchedAlbum> {
    match r {
        Some(ResolvedSearchResult::Album(a)) => Some(a),
        _ => None,
    }
}

/// The track a dispatched resolution gave, if any.
pub open spec fn as_track(r: Option<ResolvedSearchResult>) -> Option<SearchedTrack> {
    match r {
        Some(ResolvedSearchResult::Track(t)) => Some(t),
        _ => None,
    }
}

/// Resolving a hit dispatches on its kind: the result is of that kind, and it is what
/// resolving an artist, album or track gives for an answer the store may give for the id
/// under that kind's lookup (the only lookup asked).
pub proof fn lemma_resolve_dispatch<S: CatalogStore + ?Sized>(
    store: &S,
    id: Seq<char>,
    kind: HashedItemType,
    r: Option<ResolvedSearchResult>,
)
    requires
        resolves_hit(store, id, kind, r),
    ensures
        r matches Some(x) ==> (match kind {
            HashedItemType::Artist => x is Artist,
            HashedItemType::Album => x is Album,
            HashedItemType::Track => x is Track,
        }),
        kind == HashedItemType::Artist ==> exists|ans| #[trigger] store.artist_answer(id, ans) && resolves_artist(ans, as_artist(r)),
        kind == HashedItemType::Album ==> exists|ans| #[trigger] store.album_answer(id, ans) && resolves_album(ans, as_album(r)),
        kind == HashedItemType::Track ==> exists|ans| #[trigger] store.track_answer(id, ans) && resolves_track(ans, as_track(r)),
{
}

/// Resolves a search hit of the given kind; the variant of the result matches the kind.
pub fn resolve_to_result<S: CatalogStore + ?Sized>(
    catalog_store: &S,
    id: &str,
    item_type: HashedItemType,
) -> (r: Option<ResolvedSearchResult>)
    ensures
        r matches Some(x) ==> match item_type {
            HashedItemType::Artist => x is Artist,
            HashedItemType::Album => x is Album,
            HashedItemType::Track => x is Track,
        },
        resolves_hit(catalog_store, id@, item_type, r),
{
    match item_type {
        HashedItemType::Artist => match resolve_artist(catalog_store, id) {
            Some(a) => Some(ResolvedSearchResult::Artist(a)),
            None => None,
        },
        HashedItemType::Album => match resolve_album(catalog_store, id) {
            Some(a) => Some(ResolvedSearchResult::Album(a)),
            None => None,
        },
        HashedItemType::Track => match resolve_track(catalog_store, id) {
            Some(t) => Some(ResolvedSearchResult::Track(t)),
            None => None,
        },
    }
}

} // verus!
