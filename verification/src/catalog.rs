//! Catalog entities, the summaries shown in search results, and their conversions.

use vstd::prelude::*;

use crate::numeric::leading_number;
use crate::numeric::parse_leading_number;

verus! {

/// How complete the audio of an album is in the catalog.
#[derive(Clone, Copy, Debug, PartialEq, Eq, Structural)]
pub enum AlbumAvailability {
    Complete,
    Partial,
    Missing,
}

impl AlbumAvailability {
    pub open spec fn db_str(self) -> Seq<char> {
        match self {
            AlbumAvailability::Complete => seq!['c', 'o', 'm', 'p', 'l', 'e', 't', 'e'],
            AlbumAvailability::Partial => seq!['p', 'a', 'r', 't', 'i', 'a', 'l'],
            AlbumAvailability::Missing => seq!['m', 'i', 's', 's', 'i', 'n', 'g'],
        }
    }

    /// The name stored in the database: `complete`, `partial` or `missing`.
    pub fn to_db_str(self) -> (r: &'static str)
        ensures
            r@ == self.db_str(),
    {
        proof {
            reveal_strlit("complete");
            reveal_strlit("partial");
            reveal_strlit("missing");
        }
        match self {
            AlbumAvailability::Complete => "complete",
            AlbumAvailability::Partial => "partial",
            AlbumAvailability::Missing => "missing",
        }
    }
}

impl Default for AlbumAvailability {
    fn default() -> (r: Self)
        ensures
            r == AlbumAvailability::Missing,
    {
        AlbumAvailability::Missing
    }
}

/// Whether the audio of a track can be played.
#[derive(Clone, Copy, Debug, PartialEq, Eq, Structural)]
pub enum TrackAvailability {
    Available,
    Unavailable,
    Fetching,
    FetchError,
}

impl TrackAvailability {
    pub open spec fn name(self) -> Seq<char> {
        match self {
            TrackAvailability::Available => seq!['a', 'v', 'a', 'i', 'l', 'a', 'b', 'l', 'e'],
            TrackAvailability::Unavailable => seq!['u', 'n', 'a', 'v', 'a', 'i', 'l', 'a', 'b', 'l', 'e'],
            TrackAvailability::Fetching => seq!['f', 'e', 't', 'c', 'h', 'i', 'n', 'g'],
            TrackAvailability::FetchError => seq!['f', 'e', 't', 'c', 'h', '_', 'e', 'r', 'r', 'o', 'r'],
        }
    }

    /// The stored name of the state.
    pub fn as_str(self) -> (r: &'static str)
        ensures
            r@ == self.name(),
    {
        proof {
            reveal_strlit("available");
            reveal_strlit("unavailable");
            reveal_strlit("fetching");
            reveal_strlit("fetch_error");
        }
        match self {
            TrackAvailability::Available => "available",
            TrackAvailability::Unavailable => "unavailable",
            TrackAvailability::Fetching => "fetching",
            TrackAvailability::FetchError => "fetch_error",
        }
    }
}

impl Default for TrackAvailability {
    fn default() -> (r: Self)
        ensures
            r == TrackAvailability::Unavailable,
    {
        TrackAvailability::Unavailable
    }
}

#[derive(Clone, Copy, Debug, PartialEq, Eq, Structural)]
pub enum AlbumType {
    Album,
    Single,
    Ep,
    Compilation,
}

#[derive(Clone, Copy, Debug, PartialEq, Eq, Structural)]
pub enum ArtistRole {
    MainArtist,
    FeaturedArtist,
    Remixer,
    Composer,
    Conductor,
    Orchestra,
    Actor,
    Unknown,
}

#[derive(Clone, Debug)]
pub struct Artist {
    pub id: String,
    pub name: String,
    pub genres: Vec<String>,
    pub followers_total: i64,
    pub popularity: i32,
    pub available: bool,
}

#[derive(Clone, Debug)]
pub struct Album {
    pub id: String,
    pub name: String,
    pub album_type: AlbumType,
    pub label: Option<String>,
    pub release_date: Option<String>,
    pub release_date_precision: Option<String>,
    pub external_id_upc: Option<String>,
    pub popularity: i32,
    pub album_availability: AlbumAvailability,
}

#[derive(Clone, Debug)]
pub struct Track {
    pub id: String,
    pub name: String,
    pub album_id: String,
    pub disc_number: i32,
    pub track_number: i32,
    pub duration_ms: i64,
    pub explicit: bool,
    pub popularity: i32,
    pub language: Option<String>,
    pub external_id_isrc: Option<String>,
    pub audio_uri: Option<String>,
    pub availability: TrackAvailability,
}

#[derive(Clone, Debug)]
pub struct TrackArtist {
    pub artist: Artist,
    pub role: ArtistRole,
}

#[derive(Clone, Debug)]
pub struct Disc {
    pub number: i32,
    pub tracks: Vec<Track>,
}

/// A track with its album and artists.
#[derive(Clone, Debug)]
pub struct ResolvedTrack {
    pub track: Track,
    pub album: Album,
    pub artists: Vec<TrackArtist>,
}

/// An album with its artists and discs.
#[derive(Clone, Debug)]
pub struct ResolvedAlbum {
    pub album: Album,
    pub artists: Vec<Artist>,
    pub discs: Vec<Disc>,
}

/// An artist with the artists related to it.
#[derive(Clone, Debug)]
pub struct ResolvedArtist {
    pub artist: Artist,
    pub related_artists: Vec<Artist>,
}

/// A track as listed in streaming search enrichment sections.
#[derive(Clone, Debug)]
pub struct TrackSummary {
    pub id: String,
    pub name: String,
    pub duration_ms: u64,
    pub track_number: Option<u32>,
    pub album_id: String,
    pub album_name: String,
    pub artist_names: Vec<String>,
    pub image_id: Option<String>,
    pub available: bool,
}

/// An album as listed in streaming search enrichment sections.
#[derive(Clone, Debug)]
pub struct AlbumSummary {
    pub id: String,
    pub name: String,
    pub release_year: Option<i32>,
    pub track_count: u32,
    pub image_id: Option<String>,
    pub artist_names: Vec<String>,
    pub availability: String,
}

/// An artist as listed in streaming search enrichment sections.
#[derive(Clone, Debug)]
pub struct ArtistSummary {
    pub id: String,
    pub name: String,
    pub image_id: Option<String>,
    pub available: bool,
}

/// The kinds of content that a streaming search section can be about.
#[derive(Clone, Copy, Debug, PartialEq, Eq, Structural)]
pub enum MatchType {
    Artist,
    Album,
    Track,
}

pub open spec fn opt_view(o: Option<String>) -> Option<Seq<char>> {
    match o {
        Some(s) => Some(s@),
        None => None,
    }
}

pub open spec fn names_view(v: Seq<String>) -> Seq<Seq<char>> {
    v.map_values(|s: String| s@)
}

/// The release year of an album: the leading field of its release date, when it parses
/// as an `i32`.
pub open spec fn release_year_spec(album: Album) -> Option<i32> {
    match album.release_date {
        Some(d) => match leading_number(d@, i32::MAX as nat) {
            Some(y) => Some(y as i32),
            None => None,
        },
        None => None,
    }
}

/// The leading field of an optional date parsed as a number of at most `max`.
fn release_year_of(date: &Option<String>, max: u64) -> (r: Option<u64>)
    ensures
        match date {
            Some(d) => match leading_number(d@, max as nat) {
                Some(v) => r == Some(v as u64),
                None => r is None,
            },
            None => r is None,
        },
{
    match date {
        Some(d) => parse_leading_number(d.as_str(), max),
        None => None,
    }
}

/// Total number of tracks over all discs.
pub open spec fn total_tracks(discs: Seq<Disc>) -> nat
    decreases discs.len(),
{
    if discs.len() == 0 {
        0
    } else {
        total_tracks(discs.drop_last()) + discs.last().tracks@.len()
    }
}

/// The names of the artists of a track, in order.
pub open spec fn track_artist_names(artists: Seq<TrackArtist>) -> Seq<Seq<char>> {
    artists.map_values(|a: TrackArtist| a.artist.name@)
}

/// The names of a list of artists, in order.
pub open spec fn artist_names(artists: Seq<Artist>) -> Seq<Seq<char>> {
    artists.map_values(|a: Artist| a.name@)
}

fn collect_track_artist_names(artists: &Vec<TrackArtist>) -> (r: Vec<String>)
    ensures
        names_view(r@) == track_artist_names(artists@),
{
    let mut out: Vec<String> = Vec::new();
    let mut i: usize = 0;
    while i < artists.len()
        invariant
            i <= artists@.len(),
            out@.len() == i,
            forall|k: int| 0 <= k < i ==> #[trigger] out@[k]@ == artists@[k].artist.name@,
        decreases artists@.len() - i,
    {
        out.push(artists[i].artist.name.clone());
        i = i + 1;
    }
    assert(names_view(out@) =~= track_artist_names(artists@));
    out
}

fn collect_artist_names(artists: &Vec<Artist>) -> (r: Vec<String>)
    ensures
        names_view(r@) == artist_names(artists@),
{
    let mut out: Vec<String> = Vec::new();
    let mut i: usize = 0;
    while i < artists.len()
        invariant
            i <= artists@.len(),
            out@.len() == i,
            forall|k: int| 0 <= k < i ==> #[trigger] out@[k]@ == artists@[k].name@,
        decreases artists@.len() - i,
    {
        out.push(artists[i].name.clone());
        i = i + 1;
    }
    assert(names_view(out@) =~= artist_names(artists@));
    out
}

impl TrackSummary {
    /// The summary of a resolved track: the album id stands in as its image.
    pub fn from(resolved: &ResolvedTrack) -> (r: Self)
        ensures
            r.id@ == resolved.track.id@,
            r.name@ == resolved.track.name@,
            r.duration_ms == resolved.track.duration_ms as u64,
            r.track_number == Some(resolved.track.track_number as u32),
            r.album_id@ == resolved.album.id@,
            r.album_name@ == resolved.album.name@,
            names_view(r.artist_names@) == track_artist_names(resolved.artists@),
            opt_view(r.image_id) == Some(resolved.album.id@),
            r.available == (resolved.track.availability == TrackAvailability::Available),
    {
        let artist_names = collect_track_artist_names(&resolved.artists);
        TrackSummary {
            id: resolved.track.id.clone(),
            name: resolved.track.name.clone(),
            duration_ms: resolved.track.duration_ms as u64,
            track_number: Some(resolved.track.track_number as u32),
            album_id: resolved.album.id.clone(),
            album_name: resolved.album.name.clone(),
            artist_names,
            image_id: Some(resolved.album.id.clone()),
            available: resolved.track.availability == TrackAvailability::Available,
        }
    }
}

/// The summary of a resolved track, with `image_id` as its image.
pub fn track_summary_with_image(resolved: &ResolvedTrack, image_id: Option<&str>) -> (r: TrackSummary)
    ensures
        r.id@ == resolved.track.id@,
        r.name@ == resolved.track.name@,
        r.duration_ms == resolved.track.duration_ms as u64,
        r.track_number == Some(resolved.track.track_number as u32),
        r.album_id@ == resolved.album.id@,
        r.album_name@ == resolved.album.name@,
        names_view(r.artist_names@) == track_artist_names(resolved.artists@),
        opt_view(r.image_id) == (match image_id {
            Some(s) => Some(s@),
            None => None,
        }),
        r.available == (resolved.track.availability == TrackAvailability::Available),
{
    let mut summary = TrackSummary::from(resolved);
    summary.image_id = match image_id {
        Some(s) => Some(s.to_owned()),
        None => None,
    };
    summary
}

impl AlbumSummary {
    /// The summary of a resolved album: its release year, the number of tracks over all
    /// discs, and the album id as its image.
    pub fn from(resolved: &ResolvedAlbum) -> (r: Self)
        requires
            total_tracks(resolved.discs@) <= u32::MAX,
        ensures
            r.id@ == resolved.album.id@,
            r.name@ == resolved.album.name@,
            r.release_year == release_year_spec(resolved.album),
            r.track_count == total_tracks(resolved.discs@),
            opt_view(r.image_id) == Some(resolved.album.id@),
            names_view(r.artist_names@) == artist_names(resolved.artists@),
            r.availability@ == resolved.album.album_availability.db_str(),
    {
        let release_year = match release_year_of(&resolved.album.release_date, 0x7fff_ffff) {
            Some(y) => Some(y as i32),
            None => None,
        };
        let mut track_count: u32 = 0;
        let mut i: usize = 0;
        while i < resolved.discs.len()
            invariant
                i <= resolved.discs@.len(),
                total_tracks(resolved.discs@) <= u32::MAX,
                track_count == total_tracks(resolved.discs@.take(i as int)),
            decreases resolved.discs@.len() - i,
        {
            proof {
                lemma_total_tracks_prefix(resolved.discs@, i as int + 1);
                assert(resolved.discs@.take(i + 1).drop_last() =~= resolved.discs@.take(i as int));
            }
            track_count = track_count + resolved.discs[i].tracks.len() as u32;
            i = i + 1;
        }
        assert(resolved.discs@.take(resolved.discs@.len() as int) =~= resolved.discs@);
        let artist_names = collect_artist_names(&resolved.artists);
        AlbumSummary {
            id: resolved.album.id.clone(),
            name: resolved.album.name.clone(),
            release_year,
            track_count,
            image_id: Some(resolved.album.id.clone()),
            artist_names,
            availability: resolved.album.album_availability.to_db_str().to_owned(),
        }
    }
}

/// A prefix of the discs never holds more tracks than all of them.
pub proof fn lemma_total_tracks_prefix(discs: Seq<Disc>, i: int)
    requires
        0 <= i <= discs.len(),
    ensures
        total_tracks(discs.take(i)) <= total_tracks(discs),
    decreases discs.len() - i,
{
    if i < discs.len() {
        lemma_total_tracks_prefix(discs, i + 1);
        assert(discs.take(i + 1).drop_last() =~= discs.take(i));
    } else {
        assert(discs.take(i) =~= discs);
    }
}

/// The summary of an album known without its discs: no tracks counted, availability
/// `missing` (nothing about its tracks is known), `artist_names` as given, and the album
/// id as its image.
pub fn album_summary_basic(album: &Album, artist_names: Vec<String>) -> (r: AlbumSummary)
    ensures
        r.id@ == album.id@,
        r.name@ == album.name@,
        r.release_year == release_year_spec(*album),
        r.track_count == 0,
        opt_view(r.image_id) == Some(album.id@),
        r.artist_names == artist_names,
        r.availability@ == "missing"@,
{
    let release_year = match release_year_of(&album.release_date, 0x7fff_ffff) {
        Some(y) => Some(y as i32),
        None => None,
    };
    AlbumSummary {
        id: album.id.clone(),
        name: album.name.clone(),
        release_year,
        track_count: 0,
        image_id: Some(album.id.clone()),
        artist_names,
        availability: "missing".to_owned(),
    }
}

impl<'a> From<&'a Artist> for ArtistSummary {
    /// The summary of an artist: the artist id stands in as its image.
    fn from(artist: &'a Artist) -> (r: Self) {
        ArtistSummary {
            id: artist.id.clone(),
            name: artist.name.clone(),
            image_id: Some(artist.id.clone()),
            available: artist.available,
        }
    }
}

impl<'a> vstd::std_specs::convert::FromSpecImpl<&'a Artist> for ArtistSummary {
    open spec fn obeys_from_spec() -> bool {
        true
    }

    open spec fn from_spec(artist: &'a Artist) -> Self {
        ArtistSummary {
            id: artist.id,
            name: artist.name,
            image_id: Some(artist.id),
            available: artist.available,
        }
    }
}

impl<'a> From<&'a ResolvedArtist> for ArtistSummary {
    /// The summary of a resolved artist: that of its artist.
    fn from(resolved: &'a ResolvedArtist) -> (r: Self) {
        ArtistSummary {
            id: resolved.artist.id.clone(),
            name: resolved.artist.name.clone(),
            image_id: Some(resolved.artist.id.clone()),
            available: resolved.artist.available,
        }
    }
}

impl<'a> vstd::std_specs::convert::FromSpecImpl<&'a ResolvedArtist> for ArtistSummary {
    open spec fn obeys_from_spec() -> bool {
        true
    }

    open spec fn from_spec(resolved: &'a ResolvedArtist) -> Self {
        ArtistSummary {
            id: resolved.artist.id,
            name: resolved.artist.name,
            image_id: Some(resolved.artist.id),
            available: resolved.artist.available,
        }
    }
}

} // verus!
