//! Streaming search: picking the hit a query most likely meant, and laying out the
//! sections of an answer (primary matches, their enrichment, the remaining hits).

use vstd::prelude::*;

use vstd::hash_set::StringHashSet;

use crate::catalog::total_tracks;
use crate::catalog::AlbumSummary;
use crate::catalog::ArtistSummary;
use crate::catalog::Disc;
use crate::catalog::MatchType;
use crate::catalog::TrackSummary;
use crate::resolve::resolve_to_result;
use crate::resolve::resolves_hit;
use crate::resolve::CatalogStore;
use crate::resolve::CatalogStoreError;
use crate::resolve::HashedItemType;
use crate::resolve::ResolvedSearchResult;
use crate::text::chars_of;
use crate::text::lowercase;
use crate::text::to_lowercase;
use crate::text::trim_bounds;
use crate::text::trimmed;

verus! {

/// One ranked hit of an organic search.
#[derive(Debug)]
pub struct SearchResult {
    pub item_type: HashedItemType,
    pub item_id: String,
    pub score: u32,
    pub adjusted_score: i64,
    pub matchable_text: String,
}

impl Clone for SearchResult {
    /// A field-by-field copy.
    fn clone(&self) -> (r: Self)
        ensures
            r == *self,
    {
        SearchResult {
            item_type: self.item_type,
            item_id: self.item_id.clone(),
            score: self.score,
            adjusted_score: self.adjusted_score,
            matchable_text: self.matchable_text.clone(),
        }
    }
}

/// The section kind under which a hit of the given kind is shown.
pub open spec fn match_type_spec(t: HashedItemType) -> MatchType {
    match t {
        HashedItemType::Artist => MatchType::Artist,
        HashedItemType::Album => MatchType::Album,
        HashedItemType::Track => MatchType::Track,
    }
}

/// The section kind under which a hit of the given kind is shown.
pub fn match_type_of(t: HashedItemType) -> (r: MatchType)
    ensures
        r == match_type_spec(t),
{
    match t {
        HashedItemType::Artist => MatchType::Artist,
        HashedItemType::Album => MatchType::Album,
        HashedItemType::Track => MatchType::Track,
    }
}

/// What an exact-match comparison goes by: the text lower-cased, then trimmed.
pub open spec fn match_key(s: Seq<char>) -> Seq<char> {
    trimmed(lowercase(s))
}

/// Whether `query` names `text` exactly, up to letter case and surrounding white space.
pub fn is_exact_match(query: &str, text: &str) -> (r: bool)
    ensures
        r == (match_key(query@) == match_key(text@)),
{
    let q_lower = to_lowercase(query);
    let t_lower = to_lowercase(text);
    let q = chars_of(q_lower.as_str());
    let t = chars_of(t_lower.as_str());
    let (qa, qb) = trim_bounds(&q, 0, q.len());
    let (ta, tb) = trim_bounds(&t, 0, t.len());
    assert(q@.subrange(0, q@.len() as int) =~= q@);
    assert(t@.subrange(0, t@.len() as int) =~= t@);
    let ghost qk = q@.subrange(qa as int, qb as int);
    let ghost tk = t@.subrange(ta as int, tb as int);
    if qb - qa != tb - ta {
        assert(qk.len() != tk.len());
        return false;
    }
    let n = qb - qa;
    let mut i: usize = 0;
    while i < n
        invariant
            qa <= qb <= q@.len(),
            ta <= tb <= t@.len(),
            n == qb - qa,
            n == tb - ta,
            i <= n,
            qk == q@.subrange(qa as int, qb as int),
            tk == t@.subrange(ta as int, tb as int),
            qk == match_key(query@),
            tk == match_key(text@),
            forall|k: int| 0 <= k < i ==> qk[k] == tk[k],
        decreases n - i,
    {
        if q[qa + i] != t[ta + i] {
            assert(qk[i as int] != tk[i as int]);
            return false;
        }
        i = i + 1;
    }
    assert(qk =~= tk);
    true
}

/// The hits of `results` of kind `t`, in their order.
pub open spec fn of_type(results: Seq<SearchResult>, t: HashedItemType) -> Seq<SearchResult>
    decreases results.len(),
{
    if results.len() == 0 {
        Seq::empty()
    } else {
        let rest = of_type(results.drop_last(), t);
        if results.last().item_type == t {
            rest.push(results.last())
        } else {
            rest
        }
    }
}

/// The hits of kind `t` are hits of `results`, and of kind `t`.
pub proof fn lemma_of_type_members(results: Seq<SearchResult>, t: HashedItemType)
    ensures
        forall|x: SearchResult| #[trigger] of_type(results, t).contains(x) ==> results.contains(x) && x.item_type == t,
    decreases results.len(),
{
    if results.len() > 0 {
        lemma_of_type_members(results.drop_last(), t);
        assert forall|x: SearchResult| of_type(results, t).contains(x) implies results.contains(x) && x.item_type == t by {
            let rest = of_type(results.drop_last(), t);
            if rest.contains(x) {
                assert(results.drop_last().contains(x) && x.item_type == t);
                let i = choose|i: int| 0 <= i < results.drop_last().len() && results.drop_last()[i] == x;
                assert(results[i] == x);
            } else {
                assert(x == results.last());
                assert(results[results.len() - 1] == x);
            }
        }
    }
}

/// The hits of `results` of kind `t`, in their order.
pub fn results_of_type(results: &[SearchResult], t: HashedItemType) -> (r: Vec<SearchResult>)
    ensures
        r@ == of_type(results@, t),
{
    let mut out: Vec<SearchResult> = Vec::new();
    let mut i: usize = 0;
    while i < results.len()
        invariant
            i <= results@.len(),
            out@ == of_type(results@.take(i as int), t),
        decreases results@.len() - i,
    {
        assert(results@.take(i + 1).drop_last() =~= results@.take(i as int));
        if results[i].item_type == t {
            out.push(results[i].clone());
        }
        i = i + 1;
    }
    assert(results@.take(results@.len() as int) =~= results@);
    out
}

} // verus!

verus! {

/// A hit chosen as the one a query most likely meant, with a confidence whose type is the
/// identifying strategy's own.
#[derive(Clone, Debug)]
pub struct IdentifiedTarget<C> {
    pub result: SearchResult,
    pub confidence: C,
    pub match_type: MatchType,
}

/// The target chosen within each content kind, where one stands out.
#[derive(Clone, Debug)]
pub struct PerTypeTargets<C> {
    pub artist: Option<IdentifiedTarget<C>>,
    pub album: Option<IdentifiedTarget<C>>,
    pub track: Option<IdentifiedTarget<C>>,
}

/// Whether a target was found in any content kind.
pub open spec fn has_any_target<C>(t: PerTypeTargets<C>) -> bool {
    t.artist is Some || t.album is Some || t.track is Some
}

/// The targets a strategy gives per kind: its answer for the query over the hits of each
/// kind alone.
pub open spec fn identified_per_type<T: TargetIdentifier + ?Sized>(
    identifier: &T,
    query: Seq<char>,
    results: Seq<SearchResult>,
    t: PerTypeTargets<T::Confidence>,
) -> bool {
    &&& identifier.target_answer(query, of_type(results, HashedItemType::Artist), t.artist)
    &&& identifier.target_answer(query, of_type(results, HashedItemType::Album), t.album)
    &&& identifier.target_answer(query, of_type(results, HashedItemType::Track), t.track)
}

/// A strategy that decides whether ranked hits have a clear winner.
pub trait TargetIdentifier {
    /// How sure the strategy is of a target.
    type Confidence: Copy;

    /// Whether `r` is an answer the strategy may give for `query` over the ranked `results`
    /// (any answer, unless the strategy narrows it; it names what came back).
    open spec fn target_answer(&self, query: Seq<char>, results: Seq<SearchResult>, r: Option<IdentifiedTarget<Self::Confidence>>) -> bool {
        true
    }

    /// The hit among `results` that the query most likely meant, if one stands out. A
    /// strategy names one of the hits it was given, or none.
    fn identify_target(&self, query: &str, results: &[SearchResult]) -> (r: Option<IdentifiedTarget<Self::Confidence>>)
        ensures
            r matches Some(t) ==> results@.contains(t.result),
            self.target_answer(query@, results@, r),
    ;

    /// The target within each content kind, each chosen among the hits of that kind alone:
    /// the strategy's answer for the query over the hits of that kind, in their order, so
    /// that whatever is found for a kind is one of the hits, and of that kind.
    fn identify_targets_by_type(&self, query: &str, results: &[SearchResult]) -> (r: PerTypeTargets<Self::Confidence>)
        ensures
            r.artist matches Some(t) ==> results@.contains(t.result) && t.result.item_type == HashedItemType::Artist,
            r.album matches Some(t) ==> results@.contains(t.result) && t.result.item_type == HashedItemType::Album,
            r.track matches Some(t) ==> results@.contains(t.result) && t.result.item_type == HashedItemType::Track,
            self.target_answer(query@, of_type(results@, HashedItemType::Artist), r.artist),
            self.target_answer(query@, of_type(results@, HashedItemType::Album), r.album),
            self.target_answer(query@, of_type(results@, HashedItemType::Track), r.track),
    {
        let artists = results_of_type(results, HashedItemType::Artist);
        let albums = results_of_type(results, HashedItemType::Album);
        let tracks = results_of_type(results, HashedItemType::Track);
        let artist = self.identify_target(query, artists.as_slice());
        let album = self.identify_target(query, albums.as_slice());
        let track = self.identify_target(query, tracks.as_slice());
        proof {
            lemma_of_type_members(results@, HashedItemType::Artist);
            lemma_of_type_members(results@, HashedItemType::Album);
            lemma_of_type_members(results@, HashedItemType::Track);
            if artist is Some {
                assert(of_type(results@, HashedItemType::Artist).contains(artist->0.result));
            }
            if album is Some {
                assert(of_type(results@, HashedItemType::Album).contains(album->0.result));
            }
            if track is Some {
                assert(of_type(results@, HashedItemType::Track).contains(track->0.result));
            }
        }
        PerTypeTargets { artist, album, track }
    }
}

/// One section of a streaming search answer.
#[derive(Clone, Debug)]
pub enum SearchSection<C> {
    PrimaryArtist { item: ResolvedSearchResult, confidence: C },
    PrimaryAlbum { item: ResolvedSearchResult, confidence: C },
    PrimaryTrack { item: ResolvedSearchResult, confidence: C },
    PopularBy { target_id: String, target_type: MatchType, items: Vec<TrackSummary> },
    AlbumsBy { target_id: String, items: Vec<AlbumSummary> },
    RelatedArtists { target_id: String, items: Vec<ArtistSummary> },
    TracksFrom { target_id: String, items: Vec<TrackSummary> },
    MoreResults { items: Vec<ResolvedSearchResult> },
    Results { items: Vec<ResolvedSearchResult> },
    Done { total_time_ms: u64 },
}

/// How many items each kind of section may list.
#[derive(Clone, Copy, Debug)]
pub struct SectionLimits {
    pub popular_tracks_limit: usize,
    pub albums_limit: usize,
    pub related_artists_limit: usize,
    pub other_results_limit: usize,
}

/// The listening statistics that enrichment draws on.
pub trait PopularTracksSource {
    /// Ids of an artist's most played tracks, at most `limit` of them, most played first.
    fn get_popular_tracks_by_artist(&self, artist_id: &str, limit: usize) -> Result<Vec<String>, CatalogStoreError>;
}

/// The content kind of a resolved hit.
pub open spec fn resolved_kind(x: ResolvedSearchResult) -> HashedItemType {
    match x {
        ResolvedSearchResult::Artist(_) => HashedItemType::Artist,
        ResolvedSearchResult::Album(_) => HashedItemType::Album,
        ResolvedSearchResult::Track(_) => HashedItemType::Track,
    }
}

/// `idx` lists, in increasing order, the hits that `items` were resolved from: none of
/// them has an id in `avoid`, and each item is of its hit's kind.
pub open spec fn picks(
    idx: Seq<int>,
    items: Seq<ResolvedSearchResult>,
    hits: Seq<SearchResult>,
    avoid: Set<Seq<char>>,
) -> bool {
    &&& idx.len() == items.len()
    &&& forall|k: int| 0 <= k < idx.len() ==> 0 <= #[trigger] idx[k] < hits.len()
    &&& forall|k: int, l: int| 0 <= k < l < idx.len() ==> idx[k] < idx[l]
    &&& forall|k: int| 0 <= k < idx.len() ==> !avoid.contains(#[trigger] hits[idx[k]].item_id@)
    &&& forall|k: int| 0 <= k < idx.len() ==> resolved_kind(#[trigger] items[k]) == hits[idx[k]].item_type
}

/// Whether `idx` picks the `items` as a pass over `hits` through `store` gives them: each
/// item is what its hit resolved to, and every hit whose id is not in `avoid` and that was
/// passed over failed to resolve, for every hit while fewer than `limit` items were picked,
/// and for the hits before the last one picked otherwise.
pub open spec fn fills<S: CatalogStore + ?Sized>(
    store: &S,
    idx: Seq<int>,
    items: Seq<ResolvedSearchResult>,
    hits: Seq<SearchResult>,
    avoid: Set<Seq<char>>,
    limit: usize,
) -> bool {
    &&& forall|k: int|
        0 <= k < idx.len() ==> resolves_hit(store, hits[idx[k]].item_id@, hits[idx[k]].item_type, Some(#[trigger] items[k]))
    &&& forall|j: int|
        0 <= j < hits.len() && !avoid.contains(#[trigger] hits[j].item_id@) && !idx.contains(j) && (items.len() < limit
            || (idx.len() > 0 && j < idx.last())) ==> resolves_hit(store, hits[j].item_id@, hits[j].item_type, None)
}

/// `items` are the hits, in ranking order, that are not in `avoid` and resolve through
/// `store`, taken until `limit` of them are found.
pub open spec fn resolved_in_order<S: CatalogStore + ?Sized>(
    store: &S,
    items: Seq<ResolvedSearchResult>,
    hits: Seq<SearchResult>,
    avoid: Set<Seq<char>>,
    limit: usize,
) -> bool {
    exists|idx: Seq<int>| #[trigger] picks(idx, items, hits, avoid) && fills(store, idx, items, hits, avoid, limit)
}

/// Whether the album's discs hold few enough tracks to be counted in 32 bits.
fn track_count_fits(discs: &Vec<Disc>) -> (r: bool)
    ensures
        r == (total_tracks(discs@) <= u32::MAX),
{
    let mut acc: u64 = 0;
    let mut i: usize = 0;
    while i < discs.len()
        invariant
            i <= discs@.len(),
            acc == total_tracks(discs@.take(i as int)),
            acc <= u32::MAX,
        decreases discs@.len() - i,
    {
        assert(discs@.take(i + 1).drop_last() =~= discs@.take(i as int));
        let n = discs[i].tracks.len();
        if n as u64 > 0xffff_ffffu64 - acc {
            proof {
                crate::catalog::lemma_total_tracks_prefix(discs@, i + 1);
            }
            return false;
        }
        acc = acc + n as u64;
        i = i + 1;
    }
    assert(discs@.take(discs@.len() as int) =~= discs@);
    true
}

/// Calls `Instant::now`. Nothing is claimed of the instant: it is read from the clock.
#[verifier::external_body]
fn now() -> std::time::Instant {
    std::time::Instant::now()
}

/// Calls `Instant::elapsed`. Nothing is claimed of the duration: it is read from the clock.
#[verifier::external_body]
fn elapsed(start: &std::time::Instant) -> core::time::Duration {
    start.elapsed()
}

/// Calls `Duration::as_millis`. Nothing is claimed of the count.
#[verifier::external_body]
fn as_millis(d: &core::time::Duration) -> u128 {
    d.as_millis()
}

#[verifier::external_type_specification]
#[verifier::external_body]
pub struct ExInstant(std::time::Instant);

} // verus!

verus! {

/// Whether a section lists the hits left over once the targets have been shown.
pub open spec fn lists_remaining<C>(s: SearchSection<C>) -> bool {
    s is MoreResults || s is Results
}

/// Whether a section is one of those that enrich an artist target.
pub open spec fn enriches_artist<C>(s: SearchSection<C>, artist_id: Seq<char>, limits: SectionLimits) -> bool {
    match s {
        SearchSection::PopularBy { target_id, target_type, items } => target_id@ == artist_id && target_type
            == MatchType::Artist && items@.len() > 0,
        SearchSection::AlbumsBy { target_id, items } => target_id@ == artist_id && items@.len() > 0,
        SearchSection::RelatedArtists { target_id, items } => target_id@ == artist_id && 0 < items@.len()
            <= limits.related_artists_limit,
        _ => false,
    }
}

/// Where an artist enrichment section stands among its kind: popular tracks, albums, then
/// related artists.
pub open spec fn artist_enrichment_rank<C>(s: SearchSection<C>) -> int {
    match s {
        SearchSection::PopularBy { .. } => 0,
        SearchSection::AlbumsBy { .. } => 1,
        _ => 2,
    }
}

/// Whether a section is one of those that enrich an album target.
pub open spec fn enriches_album<C>(s: SearchSection<C>, album_id: Seq<char>, limits: SectionLimits) -> bool {
    match s {
        SearchSection::TracksFrom { target_id, items } => target_id@ == album_id && items@.len() > 0,
        SearchSection::RelatedArtists { target_id, items } => 0 < items@.len() <= limits.related_artists_limit,
        _ => false,
    }
}

/// `added` holds sections satisfying `ok`, in strictly increasing `rank`.
pub open spec fn ranked_sections<C>(
    added: Seq<SearchSection<C>>,
    ok: spec_fn(SearchSection<C>) -> bool,
    rank: spec_fn(SearchSection<C>) -> int,
) -> bool {
    &&& forall|k: int| 0 <= k < added.len() ==> ok(#[trigger] added[k])
    &&& forall|k: int, l: int| 0 <= k < l < added.len() ==> rank(#[trigger] added[k]) < rank(#[trigger] added[l])
}

/// Streaming search over one catalog: lays out the answer to a query from its ranked hits.
pub struct StreamingSearchPipeline<'a, S: CatalogStore + ?Sized, U: PopularTracksSource + ?Sized, T: TargetIdentifier> {
    catalog_store: &'a S,
    user_manager: &'a U,
    target_identifier: T,
    config: SectionLimits,
}

impl<'a, S: CatalogStore + ?Sized, U: PopularTracksSource + ?Sized, T: TargetIdentifier> StreamingSearchPipeline<'a, S, U, T> {
    /// The section limits the pipeline works with.
    pub closed spec fn limits(&self) -> SectionLimits {
        self.config
    }

    /// The catalog the pipeline resolves hits through.
    pub closed spec fn store(&self) -> &'a S {
        self.catalog_store
    }

    /// The strategy that picks the targets.
    pub closed spec fn identifier(&self) -> T {
        self.target_identifier
    }

    /// A pipeline over the given catalog and listening statistics.
    pub fn new(catalog_store: &'a S, user_manager: &'a U, target_identifier: T, config: SectionLimits) -> (r: Self)
        ensures
            r.limits() == config,
    {
        StreamingSearchPipeline { catalog_store, user_manager, target_identifier, config }
    }

    /// The hits left once `emitted` ids are shown: in ranking order, skipping emitted ids
    /// and hits that do not resolve, at most `other_results_limit` of them; `None` when
    /// there is none.
    fn build_remaining_results(&self, search_results: &[SearchResult], emitted: &StringHashSet) -> (r: Option<Vec<ResolvedSearchResult>>)
        ensures
            r matches Some(items) ==> 0 < items@.len() <= self.limits().other_results_limit && resolved_in_order(
                self.store(),
                items@,
                search_results@,
                emitted@,
                self.limits().other_results_limit,
            ),
            r is None ==> resolved_in_order(
                self.store(),
                Seq::empty(),
                search_results@,
                emitted@,
                self.limits().other_results_limit,
            ),
    {
        let mut items: Vec<ResolvedSearchResult> = Vec::new();
        let ghost mut idx: Seq<int> = Seq::empty();
        let ghost limit = self.config.other_results_limit;
        let mut i: usize = 0;
        while i < search_results.len()
            invariant_except_break
                i <= search_results@.len(),
                items@.len() <= limit,
                limit == self.config.other_results_limit,
                picks(idx, items@, search_results@, emitted@),
                forall|k: int| 0 <= k < idx.len() ==> idx[k] < i,
                forall|k: int|
                    0 <= k < idx.len() ==> resolves_hit(
                        self.catalog_store,
                        search_results@[idx[k]].item_id@,
                        search_results@[idx[k]].item_type,
                        Some(#[trigger] items@[k]),
                    ),
                forall|j: int|
                    0 <= j < i && !emitted@.contains(#[trigger] search_results@[j].item_id@) && !idx.contains(j)
                        ==> resolves_hit(self.catalog_store, search_results@[j].item_id@, search_results@[j].item_type, None),
            ensures
                items@.len() <= limit,
                picks(idx, items@, search_results@, emitted@),
                fills(self.catalog_store, idx, items@, search_results@, emitted@, limit),
            decreases search_results@.len() - i,
        {
            let result = &search_results[i];
            if emitted.contains(result.item_id.as_str()) {
                i = i + 1;
                continue;
            }
            if items.len() >= self.config.other_results_limit {
                assert forall|j: int|
                    0 <= j < search_results@.len() && !emitted@.contains(#[trigger] search_results@[j].item_id@)
                        && !idx.contains(j) && (items@.len() < limit || (idx.len() > 0 && j < idx.last()))
                        implies resolves_hit(self.catalog_store, search_results@[j].item_id@, search_results@[j].item_type, None) by {
                    if idx.len() > 0 {
                        assert(idx.last() < i);
                    }
                }
                break;
            }
            match resolve_to_result(self.catalog_store, result.item_id.as_str(), result.item_type) {
                Some(resolved) => {
                    let ghost before = items@;
                    let ghost before_idx = idx;
                    assert(resolved_kind(resolved) == result.item_type);
                    proof {
                        idx = idx.push(i as int);
                    }
                    items.push(resolved);
                    assert forall|k: int| 0 <= k < idx.len() implies resolved_kind(#[trigger] items@[k])
                        == search_results@[idx[k]].item_type by {
                        if k < before.len() {
                            assert(items@[k] == before[k]);
                            assert(idx[k] == before_idx[k]);
                        }
                    }
                    assert forall|k: int| 0 <= k < idx.len() implies 0 <= #[trigger] idx[k] < search_results@.len()
                        && !emitted@.contains(search_results@[idx[k]].item_id@) by {
                        if k < before_idx.len() {
                            assert(idx[k] == before_idx[k]);
                        }
                    }
                    assert forall|k: int, l: int| 0 <= k < l < idx.len() implies idx[k] < idx[l] by {
                        if l < before_idx.len() {
                            assert(idx[k] == before_idx[k]);
                            assert(idx[l] == before_idx[l]);
                        } else {
                            assert(idx[k] == before_idx[k]);
                        }
                    }
                    assert(picks(idx, items@, search_results@, emitted@));
                    assert forall|k: int| 0 <= k < idx.len() implies resolves_hit(
                        self.catalog_store,
                        search_results@[idx[k]].item_id@,
                        search_results@[idx[k]].item_type,
                        Some(#[trigger] items@[k]),
                    ) by {
                        if k < before.len() {
                            assert(items@[k] == before[k]);
                            assert(idx[k] == before_idx[k]);
                        }
                    }
                    assert forall|j: int|
                        0 <= j < i + 1 && !emitted@.contains(#[trigger] search_results@[j].item_id@) && !idx.contains(j)
                            implies resolves_hit(self.catalog_store, search_results@[j].item_id@, search_results@[j].item_type, None) by {
                        assert(j != i) by {
                            if j == i {
                                assert(idx[idx.len() - 1] == i);
                            }
                        }
                        if before_idx.contains(j) {
                            let k = choose|k: int| 0 <= k < before_idx.len() && before_idx[k] == j;
                            assert(idx[k] == j);
                        }
                    }
                },
                None => {
                    assert forall|j: int|
                        0 <= j < i + 1 && !emitted@.contains(#[trigger] search_results@[j].item_id@) && !idx.contains(j)
                            implies resolves_hit(self.catalog_store, search_results@[j].item_id@, search_results@[j].item_type, None) by {
                    }
                },
            }
            i = i + 1;
        }
        proof {
            assert(idx.len() == items@.len());
        }
        if items.len() == 0 {
            assert(items@ =~= Seq::<ResolvedSearchResult>::empty());
            None
        } else {
            Some(items)
        }
    }

    /// The primary section of a target, when its hit resolves; its id is then emitted.
    fn build_primary(
        &self,
        target: &IdentifiedTarget<T::Confidence>,
        kind: HashedItemType,
        emitted: &mut StringHashSet,
    ) -> (r: Option<SearchSection<T::Confidence>>)
        ensures
            r matches Some(s) ==> match kind {
                HashedItemType::Artist => s matches SearchSection::PrimaryArtist { confidence, .. } && confidence
                    == target.confidence,
                HashedItemType::Album => s matches SearchSection::PrimaryAlbum { confidence, .. } && confidence
                    == target.confidence,
                HashedItemType::Track => s matches SearchSection::PrimaryTrack { confidence, .. } && confidence
                    == target.confidence,
            },
            r is Some ==> final(emitted)@ == old(emitted)@.insert(target.result.item_id@),
            r is None ==> final(emitted)@ == old(emitted)@,
    {
        match resolve_to_result(self.catalog_store, target.result.item_id.as_str(), target.result.item_type) {
            Some(item) => {
                emitted.insert(target.result.item_id.clone());
                let confidence = target.confidence;
                Some(
                    match kind {
                        HashedItemType::Artist => SearchSection::PrimaryArtist { item, confidence },
                        HashedItemType::Album => SearchSection::PrimaryAlbum { item, confidence },
                        HashedItemType::Track => SearchSection::PrimaryTrack { item, confidence },
                    },
                )
            },
            None => None,
        }
    }

    /// Appends the sections that enrich an artist target: its popular tracks, its albums
    /// and its related artists, each only when it lists something. The id of every listed
    /// track, album and related artist is emitted.
    fn add_artist_enrichment(
        &self,
        artist_id: &str,
        sections: &mut Vec<SearchSection<T::Confidence>>,
        emitted: &mut StringHashSet,
    )
        ensures
            final(sections)@.len() >= old(sections)@.len(),
            final(sections)@.subrange(0, old(sections)@.len() as int) == old(sections)@,
            ranked_sections(
                final(sections)@.skip(old(sections)@.len() as int),
                |s: SearchSection<T::Confidence>| enriches_artist(s, artist_id@, self.limits()),
                |s: SearchSection<T::Confidence>| artist_enrichment_rank(s),
            ),
            final(emitted)@ == old(emitted)@.union(listed_ids(final(sections)@.skip(old(sections)@.len() as int))),
    {
        let ghost start = sections@.len();
        let ghost initial = emitted@;
        let ghost mut pop_ids: Set<Seq<char>> = Set::empty();
        match self.user_manager.get_popular_tracks_by_artist(artist_id, self.config.popular_tracks_limit) {
            Ok(track_ids_found) => {
                let mut tracks: Vec<TrackSummary> = Vec::new();
                let mut i: usize = 0;
                assert(track_ids(tracks@) =~= Set::<Seq<char>>::empty());
                while i < track_ids_found.len()
                    invariant
                        i <= track_ids_found@.len(),
                        emitted@ == initial.union(track_ids(tracks@)),
                    decreases track_ids_found@.len() - i,
                {
                    let track_id = &track_ids_found[i];
                    match self.catalog_store.get_resolved_track(track_id.as_str()) {
                        Ok(Some(resolved)) => {
                            let summary = crate::catalog::track_summary_with_image(&resolved, Some(resolved.album.id.as_str()));
                            let ghost before = tracks@;
                            emitted.insert(summary.id.clone());
                            tracks.push(summary);
                            assert(track_ids(tracks@) =~= track_ids(before).insert(tracks@.last().id@)) by {
                                assert forall|id: Seq<char>| #[trigger] track_ids(tracks@).contains(id) implies track_ids(before).insert(tracks@.last().id@).contains(id) by {
                                    let k = choose|k: int| 0 <= k < tracks@.len() && (#[trigger] tracks@[k]).id@ == id;
                                    if k < before.len() {
                                        assert(tracks@[k] == before[k]);
                                    }
                                }
                                assert forall|id: Seq<char>| #[trigger] track_ids(before).contains(id) implies track_ids(tracks@).contains(id) by {
                                    let k = choose|k: int| 0 <= k < before.len() && (#[trigger] before[k]).id@ == id;
                                    assert(tracks@[k] == before[k]);
                                }
                                assert(tracks@[tracks@.len() - 1] == tracks@.last());
                            }
                            assert(emitted@ =~= initial.union(track_ids(tracks@)));
                        },
                        _ => {},
                    }
                    i = i + 1;
                }
                proof {
                    pop_ids = track_ids(tracks@);
                }
                if tracks.len() > 0 {
                    let ghost tv = tracks@;
                    sections.push(
                        SearchSection::PopularBy {
                            target_id: artist_id.to_owned(),
                            target_type: MatchType::Artist,
                            items: tracks,
                        },
                    );
                    assert(sections@.last() matches SearchSection::PopularBy { items, .. } && items@ == tv);
                } else {
                    assert(pop_ids =~= Set::<Seq<char>>::empty());
                }
            },
            Err(_) => {},
        }
        let ghost after_popular = sections@.len();
        let ghost e1 = emitted@;
        assert(e1 == initial.union(pop_ids));
        let ghost mut alb_ids: Set<Seq<char>> = Set::empty();
        match self.catalog_store.get_discography(artist_id, self.config.albums_limit, 0) {
            Ok(Some(discography)) => {
                let mut albums: Vec<AlbumSummary> = Vec::new();
                let mut i: usize = 0;
                assert(album_ids(albums@) =~= Set::<Seq<char>>::empty());
                while i < discography.len()
                    invariant
                        i <= discography@.len(),
                        emitted@ == e1.union(album_ids(albums@)),
                    decreases discography@.len() - i,
                {
                    let album = &discography[i];
                    match self.catalog_store.get_resolved_album(album.id.as_str()) {
                        Ok(Some(resolved)) => {
                            if track_count_fits(&resolved.discs) {
                                let summary = AlbumSummary::from(&resolved);
                                let ghost before = albums@;
                                emitted.insert(summary.id.clone());
                                albums.push(summary);
                                assert(album_ids(albums@) =~= album_ids(before).insert(albums@.last().id@)) by {
                                    assert forall|id: Seq<char>| #[trigger] album_ids(albums@).contains(id) implies album_ids(before).insert(albums@.last().id@).contains(id) by {
                                        let k = choose|k: int| 0 <= k < albums@.len() && (#[trigger] albums@[k]).id@ == id;
                                        if k < before.len() {
                                            assert(albums@[k] == before[k]);
                                        }
                                    }
                                    assert forall|id: Seq<char>| #[trigger] album_ids(before).contains(id) implies album_ids(albums@).contains(id) by {
                                        let k = choose|k: int| 0 <= k < before.len() && (#[trigger] before[k]).id@ == id;
                                        assert(albums@[k] == before[k]);
                                    }
                                    assert(albums@[albums@.len() - 1] == albums@.last());
                                }
                                assert(emitted@ =~= e1.union(album_ids(albums@)));
                            }
                        },
                        _ => {},
                    }
                    i = i + 1;
                }
                proof {
                    alb_ids = album_ids(albums@);
                }
                if albums.len() > 0 {
                    let ghost av = albums@;
                    sections.push(SearchSection::AlbumsBy { target_id: artist_id.to_owned(), items: albums });
                    assert(sections@.last() matches SearchSection::AlbumsBy { items, .. } && items@ == av);
                } else {
                    assert(alb_ids =~= Set::<Seq<char>>::empty());
                }
            },
            _ => {},
        }
        let ghost after_albums = sections@.len();
        let ghost e2 = emitted@;
        assert(e2 == e1.union(alb_ids));
        let ghost mut rel_ids: Set<Seq<char>> = Set::empty();
        match self.catalog_store.get_resolved_artist(artist_id) {
            Ok(Some(resolved)) => {
                let n = if resolved.related_artists.len() < self.config.related_artists_limit {
                    resolved.related_artists.len()
                } else {
                    self.config.related_artists_limit
                };
                let mut related: Vec<ArtistSummary> = Vec::new();
                let mut i: usize = 0;
                assert(artist_ids(related@) =~= Set::<Seq<char>>::empty());
                while i < n
                    invariant
                        i <= n <= resolved.related_artists@.len(),
                        n <= self.config.related_artists_limit,
                        related@.len() == i,
                        emitted@ == e2.union(artist_ids(related@)),
                    decreases n - i,
                {
                    let artist = &resolved.related_artists[i];
                    let summary = match self.catalog_store.get_resolved_artist(artist.id.as_str()) {
                        Ok(Some(resolved_related)) => ArtistSummary::from(&resolved_related),
                        _ => ArtistSummary::from(artist),
                    };
                    let ghost before = related@;
                    emitted.insert(summary.id.clone());
                    related.push(summary);
                    assert(artist_ids(related@) =~= artist_ids(before).insert(related@.last().id@)) by {
                        assert forall|id: Seq<char>| #[trigger] artist_ids(related@).contains(id) implies artist_ids(before).insert(related@.last().id@).contains(id) by {
                            let k = choose|k: int| 0 <= k < related@.len() && (#[trigger] related@[k]).id@ == id;
                            if k < before.len() {
                                assert(related@[k] == before[k]);
                            }
                        }
                        assert forall|id: Seq<char>| #[trigger] artist_ids(before).contains(id) implies artist_ids(related@).contains(id) by {
                            let k = choose|k: int| 0 <= k < before.len() && (#[trigger] before[k]).id@ == id;
                            assert(related@[k] == before[k]);
                        }
                        assert(related@[related@.len() - 1] == related@.last());
                    }
                    assert(emitted@ =~= e2.union(artist_ids(related@)));
                    i = i + 1;
                }
                proof {
                    rel_ids = artist_ids(related@);
                }
                if related.len() > 0 {
                    let ghost rv = related@;
                    sections.push(SearchSection::RelatedArtists { target_id: artist_id.to_owned(), items: related });
                    assert(sections@.last() matches SearchSection::RelatedArtists { items, .. } && items@ == rv);
                } else {
                    assert(rel_ids =~= Set::<Seq<char>>::empty());
                }
            },
            _ => {},
        }
        proof {
            let added = sections@.skip(start as int);
            assert(sections@.subrange(0, start as int) =~= old(sections)@);
            assert forall|k: int| 0 <= k < added.len() implies enriches_artist(
                #[trigger] added[k],
                artist_id@,
                self.limits(),
            ) && (k < after_popular - start ==> added[k] is PopularBy) && (after_popular - start <= k
                < after_albums - start ==> added[k] is AlbumsBy) && (after_albums - start <= k
                ==> added[k] is RelatedArtists) by {}
            let ids = pop_ids.union(alb_ids).union(rel_ids);
            assert forall|id: Seq<char>| ids.contains(id) <==> exists|k: int| 0 <= k < added.len() && section_lists(#[trigger] added[k], id) by {
                if pop_ids.contains(id) {
                    assert(section_lists(added[0], id));
                }
                if alb_ids.contains(id) {
                    assert(section_lists(added[after_popular - start], id));
                }
                if rel_ids.contains(id) {
                    assert(section_lists(added[after_albums - start], id));
                }
            }
            lemma_listed_ids_of_added(added, ids);
            assert(emitted@ =~= initial.union(ids));
        }
    }

    /// Appends the sections that enrich an album target: its tracks, then the artists
    /// related to its first artist, each only when it lists something. The id of every
    /// listed track and related artist is emitted.
    fn add_album_enrichment(
        &self,
        album_id: &str,
        sections: &mut Vec<SearchSection<T::Confidence>>,
        emitted: &mut StringHashSet,
    )
        ensures
            final(sections)@.len() >= old(sections)@.len(),
            final(sections)@.subrange(0, old(sections)@.len() as int) == old(sections)@,
            ranked_sections(
                final(sections)@.skip(old(sections)@.len() as int),
                |s: SearchSection<T::Confidence>| enriches_album(s, album_id@, self.limits()),
                |s: SearchSection<T::Confidence>| if s is TracksFrom { 0int } else { 1int },
            ),
            final(emitted)@ == old(emitted)@.union(listed_ids(final(sections)@.skip(old(sections)@.len() as int))),
    {
        let ghost start = sections@.len();
        let ghost initial = emitted@;
        let ghost mut after_tracks = start;
        let ghost mut trk_ids: Set<Seq<char>> = Set::empty();
        let ghost mut rel_ids: Set<Seq<char>> = Set::empty();
        match self.catalog_store.get_resolved_album(album_id) {
            Ok(Some(resolved)) => {
                let mut tracks: Vec<TrackSummary> = Vec::new();
                let mut d: usize = 0;
                assert(track_ids(tracks@) =~= Set::<Seq<char>>::empty());
                while d < resolved.discs.len()
                    invariant
                        d <= resolved.discs@.len(),
                        emitted@ == initial.union(track_ids(tracks@)),
                    decreases resolved.discs@.len() - d,
                {
                    let disc = &resolved.discs[d];
                    let mut i: usize = 0;
                    while i < disc.tracks.len()
                        invariant
                            i <= disc.tracks@.len(),
                            emitted@ == initial.union(track_ids(tracks@)),
                        decreases disc.tracks@.len() - i,
                    {
                        let track = &disc.tracks[i];
                        match self.catalog_store.get_resolved_track(track.id.as_str()) {
                            Ok(Some(resolved_track)) => {
                                let summary = crate::catalog::track_summary_with_image(&resolved_track, Some(resolved.album.id.as_str()));
                                let ghost before = tracks@;
                                emitted.insert(summary.id.clone());
                                tracks.push(summary);
                                assert(track_ids(tracks@) =~= track_ids(before).insert(tracks@.last().id@)) by {
                                    assert forall|id: Seq<char>| #[trigger] track_ids(tracks@).contains(id) implies track_ids(before).insert(tracks@.last().id@).contains(id) by {
                                        let k = choose|k: int| 0 <= k < tracks@.len() && (#[trigger] tracks@[k]).id@ == id;
                                        if k < before.len() {
                                            assert(tracks@[k] == before[k]);
                                        }
                                    }
                                    assert forall|id: Seq<char>| #[trigger] track_ids(before).contains(id) implies track_ids(tracks@).contains(id) by {
                                        let k = choose|k: int| 0 <= k < before.len() && (#[trigger] before[k]).id@ == id;
                                        assert(tracks@[k] == before[k]);
                                    }
                                    assert(tracks@[tracks@.len() - 1] == tracks@.last());
                                }
                                assert(emitted@ =~= initial.union(track_ids(tracks@)));
                            },
                            _ => {},
                        }
                        i = i + 1;
                    }
                    d = d + 1;
                }
                proof {
                    trk_ids = track_ids(tracks@);
                }
                if tracks.len() > 0 {
                    let ghost tv = tracks@;
                    sections.push(SearchSection::TracksFrom { target_id: album_id.to_owned(), items: tracks });
                    assert(sections@.last() matches SearchSection::TracksFrom { items, .. } && items@ == tv);
                } else {
                    assert(trk_ids =~= Set::<Seq<char>>::empty());
                }
                proof {
                    after_tracks = sections@.len();
                }
                let ghost e1 = emitted@;
                assert(e1 == initial.union(trk_ids));
                if resolved.artists.len() > 0 {
                    let first_artist = &resolved.artists[0];
                    match self.catalog_store.get_resolved_artist(first_artist.id.as_str()) {
                        Ok(Some(artist_resolved)) => {
                            let n = if artist_resolved.related_artists.len() < self.config.related_artists_limit {
                                artist_resolved.related_artists.len()
                            } else {
                                self.config.related_artists_limit
                            };
                            let mut related: Vec<ArtistSummary> = Vec::new();
                            let mut i: usize = 0;
                            assert(artist_ids(related@) =~= Set::<Seq<char>>::empty());
                            while i < n
                                invariant
                                    i <= n <= artist_resolved.related_artists@.len(),
                                    n <= self.config.related_artists_limit,
                                    related@.len() == i,
                                    emitted@ == e1.union(artist_ids(related@)),
                                decreases n - i,
                            {
                                let a = &artist_resolved.related_artists[i];
                                let summary = ArtistSummary::from(a);
                                let ghost before = related@;
                                emitted.insert(summary.id.clone());
                                related.push(summary);
                                assert(artist_ids(related@) =~= artist_ids(before).insert(related@.last().id@)) by {
                                    assert forall|id: Seq<char>| #[trigger] artist_ids(related@).contains(id) implies artist_ids(before).insert(related@.last().id@).contains(id) by {
                                        let k = choose|k: int| 0 <= k < related@.len() && (#[trigger] related@[k]).id@ == id;
                                        if k < before.len() {
                                            assert(related@[k] == before[k]);
                                        }
                                    }
                                    assert forall|id: Seq<char>| #[trigger] artist_ids(before).contains(id) implies artist_ids(related@).contains(id) by {
                                        let k = choose|k: int| 0 <= k < before.len() && (#[trigger] before[k]).id@ == id;
                                        assert(related@[k] == before[k]);
                                    }
                                    assert(related@[related@.len() - 1] == related@.last());
                                }
                                assert(emitted@ =~= e1.union(artist_ids(related@)));
                                i = i + 1;
                            }
                            proof {
                                rel_ids = artist_ids(related@);
                            }
                            if related.len() > 0 {
                                let ghost rv = related@;
                                sections.push(
                                    SearchSection::RelatedArtists { target_id: first_artist.id.clone(), items: related },
                                );
                                assert(sections@.last() matches SearchSection::RelatedArtists { items, .. } && items@ == rv);
                            } else {
                                assert(rel_ids =~= Set::<Seq<char>>::empty());
                            }
                        },
                        _ => {},
                    }
                }
            },
            _ => {},
        }
        proof {
            let added = sections@.skip(start as int);
            assert(sections@.subrange(0, start as int) =~= old(sections)@);
            assert forall|k: int| 0 <= k < added.len() implies enriches_album(
                #[trigger] added[k],
                album_id@,
                self.limits(),
            ) && (k < after_tracks - start ==> added[k] is TracksFrom) && (after_tracks - start <= k
                ==> added[k] is RelatedArtists) by {}
            let ids = trk_ids.union(rel_ids);
            assert forall|id: Seq<char>| ids.contains(id) <==> exists|k: int| 0 <= k < added.len() && section_lists(#[trigger] added[k], id) by {
                if trk_ids.contains(id) {
                    assert(section_lists(added[0], id));
                }
                if rel_ids.contains(id) {
                    assert(section_lists(added[after_tracks - start], id));
                }
            }
            lemma_listed_ids_of_added(added, ids);
            assert(emitted@ =~= initial.union(ids));
        }
    }
}

} // verus!

verus! {

/// Whether `s` is the primary section for hits of kind `kind`.
pub open spec fn is_primary_of<C>(s: SearchSection<C>, kind: HashedItemType) -> bool {
    match kind {
        HashedItemType::Artist => s is PrimaryArtist,
        HashedItemType::Album => s is PrimaryAlbum,
        HashedItemType::Track => s is PrimaryTrack,
    }
}

/// Whether the sections show a primary match of kind `kind`.
pub open spec fn shows_primary<C>(r: Seq<SearchSection<C>>, kind: HashedItemType) -> bool {
    exists|k: int| 0 <= k < r.len() && is_primary_of(#[trigger] r[k], kind)
}

/// Whether `target` is present with id `id` and shown by a primary section of kind `kind`.
pub open spec fn target_shown<C>(
    r: Seq<SearchSection<C>>,
    target: Option<IdentifiedTarget<C>>,
    kind: HashedItemType,
    id: Seq<char>,
) -> bool {
    target matches Some(x) && x.result.item_id@ == id && shows_primary(r, kind)
}

/// The ids of the targets that the sections show as primary matches.
pub open spec fn shown_target_ids<C>(r: Seq<SearchSection<C>>, t: PerTypeTargets<C>) -> Set<Seq<char>> {
    Set::new(
        |id: Seq<char>|
            target_shown(r, t.artist, HashedItemType::Artist, id) || target_shown(
                r,
                t.album,
                HashedItemType::Album,
                id,
            ) || target_shown(r, t.track, HashedItemType::Track, id),
    )
}

/// Whether a section other than the remaining hits fits the targets: a primary match
/// carries its target's confidence, and enrichment belongs to a target that is present.
pub open spec fn placed<C>(s: SearchSection<C>, t: PerTypeTargets<C>, limits: SectionLimits) -> bool {
    match s {
        SearchSection::PrimaryArtist { confidence, .. } => t.artist matches Some(x) && x.confidence == confidence,
        SearchSection::PrimaryAlbum { confidence, .. } => t.album matches Some(x) && x.confidence == confidence,
        SearchSection::PrimaryTrack { confidence, .. } => t.track matches Some(x) && x.confidence == confidence,
        SearchSection::PopularBy { .. } => t.artist matches Some(x) && enriches_artist(s, x.result.item_id@, limits),
        SearchSection::AlbumsBy { .. } => t.artist matches Some(x) && enriches_artist(s, x.result.item_id@, limits),
        SearchSection::RelatedArtists { .. } => (t.artist matches Some(x) && enriches_artist(
            s,
            x.result.item_id@,
            limits,
        )) || (t.album matches Some(x) && enriches_album(s, x.result.item_id@, limits)),
        SearchSection::TracksFrom { .. } => t.album matches Some(x) && enriches_album(s, x.result.item_id@, limits),
        _ => false,
    }
}

/// Whether a closing section of remaining hits fits: "more results" after a target,
/// plain "results" otherwise, never empty, within the limit, and the hits, in ranking
/// order, that were not emitted by an earlier section and that resolve through `store`,
/// taken until the limit is reached.
pub open spec fn remaining_fits<C, S: CatalogStore + ?Sized>(
    s: SearchSection<C>,
    hits: Seq<SearchResult>,
    t: PerTypeTargets<C>,
    limits: SectionLimits,
    emitted: Set<Seq<char>>,
    store: &S,
) -> bool {
    match s {
        SearchSection::MoreResults { items } => has_any_target(t) && 0 < items@.len() <= limits.other_results_limit
            && resolved_in_order(store, items@, hits, emitted, limits.other_results_limit),
        SearchSection::Results { items } => !has_any_target(t) && 0 < items@.len() <= limits.other_results_limit
            && resolved_in_order(store, items@, hits, emitted, limits.other_results_limit),
        _ => false,
    }
}

/// The layout of an answer before its closing `Done`: sections that fit the targets, then
/// at most one section of remaining hits, last; with none, no hit that was not emitted
/// resolves.
pub open spec fn well_laid_out<C, S: CatalogStore + ?Sized>(
    r: Seq<SearchSection<C>>,
    hits: Seq<SearchResult>,
    t: PerTypeTargets<C>,
    limits: SectionLimits,
    store: &S,
) -> bool {
    &&& forall|k: int|
        0 <= k < r.len() && !(k == r.len() - 1 && lists_remaining(r[k])) ==> placed(#[trigger] r[k], t, limits)
    &&& r.len() > 0 && lists_remaining(r.last()) ==> remaining_fits(
        r.last(),
        hits,
        t,
        limits,
        emitted_ids(r, t),
        store,
    )
    &&& !(r.len() > 0 && lists_remaining(r.last())) ==> resolved_in_order(
        store,
        Seq::empty(),
        hits,
        emitted_ids(r, t),
        limits.other_results_limit,
    )
}

/// Appending sections that are no primary match shows no further primary match.
proof fn lemma_shows_primary_extend<C>(r: Seq<SearchSection<C>>, n: int, kind: HashedItemType)
    requires
        0 <= n <= r.len(),
        forall|k: int| n <= k < r.len() ==> !is_primary_of(#[trigger] r[k], kind),
    ensures
        shows_primary(r, kind) == shows_primary(r.subrange(0, n), kind),
{
    if shows_primary(r, kind) {
        let k = choose|k: int| 0 <= k < r.len() && is_primary_of(#[trigger] r[k], kind);
        assert(r.subrange(0, n)[k] == r[k]);
    }
    if shows_primary(r.subrange(0, n), kind) {
        let k = choose|k: int| 0 <= k < n && is_primary_of(#[trigger] r.subrange(0, n)[k], kind);
        assert(r.subrange(0, n)[k] == r[k]);
    }
}

/// Appending sections that are no primary match leaves the shown target ids as they were.
proof fn lemma_shown_ids_extend<C>(r: Seq<SearchSection<C>>, n: int, t: PerTypeTargets<C>)
    requires
        0 <= n <= r.len(),
        forall|k: int|
            n <= k < r.len() ==> !(#[trigger] r[k] is PrimaryArtist) && !(r[k] is PrimaryAlbum) && !(
            r[k] is PrimaryTrack),
    ensures
        shown_target_ids(r, t) == shown_target_ids(r.subrange(0, n), t),
{
    lemma_shows_primary_extend(r, n, HashedItemType::Artist);
    lemma_shows_primary_extend(r, n, HashedItemType::Album);
    lemma_shows_primary_extend(r, n, HashedItemType::Track);
    assert(shown_target_ids(r, t) =~= shown_target_ids(r.subrange(0, n), t));
}

/// Whether an enrichment section lists an item with id `id`.
pub open spec fn section_lists<C>(s: SearchSection<C>, id: Seq<char>) -> bool {
    match s {
        SearchSection::PopularBy { items, .. } => track_ids(items@).contains(id),
        SearchSection::AlbumsBy { items, .. } => album_ids(items@).contains(id),
        SearchSection::RelatedArtists { items, .. } => artist_ids(items@).contains(id),
        SearchSection::TracksFrom { items, .. } => track_ids(items@).contains(id),
        _ => false,
    }
}

/// The ids of the tracks listed.
pub open spec fn track_ids(items: Seq<TrackSummary>) -> Set<Seq<char>> {
    Set::new(|id: Seq<char>| exists|k: int| 0 <= k < items.len() && (#[trigger] items[k]).id@ == id)
}

/// The ids of the albums listed.
pub open spec fn album_ids(items: Seq<AlbumSummary>) -> Set<Seq<char>> {
    Set::new(|id: Seq<char>| exists|k: int| 0 <= k < items.len() && (#[trigger] items[k]).id@ == id)
}

/// The ids of the artists listed.
pub open spec fn artist_ids(items: Seq<ArtistSummary>) -> Set<Seq<char>> {
    Set::new(|id: Seq<char>| exists|k: int| 0 <= k < items.len() && (#[trigger] items[k]).id@ == id)
}

/// The ids of the items that the enrichment sections among `r` list.
pub open spec fn listed_ids<C>(r: Seq<SearchSection<C>>) -> Set<Seq<char>> {
    Set::new(|id: Seq<char>| exists|k: int| 0 <= k < r.len() && section_lists(#[trigger] r[k], id))
}

/// The ids an answer's earlier sections emitted: those of the targets shown as primary
/// matches and those of the items listed by enrichment.
pub open spec fn emitted_ids<C>(r: Seq<SearchSection<C>>, t: PerTypeTargets<C>) -> Set<Seq<char>> {
    shown_target_ids(r, t).union(listed_ids(r))
}

/// The listed ids of sections are those of a prefix and those of the rest.
proof fn lemma_listed_ids_split<C>(r: Seq<SearchSection<C>>, n: int)
    requires
        0 <= n <= r.len(),
    ensures
        listed_ids(r) == listed_ids(r.subrange(0, n)).union(listed_ids(r.skip(n))),
{
    assert forall|id: Seq<char>| listed_ids(r).contains(id) <==> (listed_ids(r.subrange(0, n)).contains(id)
        || listed_ids(r.skip(n)).contains(id)) by {
        if listed_ids(r).contains(id) {
            let k = choose|k: int| 0 <= k < r.len() && section_lists(#[trigger] r[k], id);
            if k < n {
                assert(r.subrange(0, n)[k] == r[k]);
            } else {
                assert(r.skip(n)[k - n] == r[k]);
            }
        }
        if listed_ids(r.subrange(0, n)).contains(id) {
            let k = choose|k: int| 0 <= k < n && section_lists(#[trigger] r.subrange(0, n)[k], id);
            assert(r.subrange(0, n)[k] == r[k]);
        }
        if listed_ids(r.skip(n)).contains(id) {
            let k = choose|k: int| 0 <= k < r.len() - n && section_lists(#[trigger] r.skip(n)[k], id);
            assert(r.skip(n)[k] == r[k + n]);
        }
    }
    assert(listed_ids(r) =~= listed_ids(r.subrange(0, n)).union(listed_ids(r.skip(n))));
}

/// Sections that list nothing add no listed id.
proof fn lemma_listed_ids_unlisting<C>(r: Seq<SearchSection<C>>, n: int)
    requires
        0 <= n <= r.len(),
        forall|k: int, id: Seq<char>| n <= k < r.len() ==> !#[trigger] section_lists(r[k], id),
    ensures
        listed_ids(r) == listed_ids(r.subrange(0, n)),
{
    lemma_listed_ids_split(r, n);
    assert(listed_ids(r.skip(n)) =~= Set::<Seq<char>>::empty()) by {
        assert forall|id: Seq<char>| !listed_ids(r.skip(n)).contains(id) by {
            if listed_ids(r.skip(n)).contains(id) {
                let k = choose|k: int| 0 <= k < r.len() - n && section_lists(#[trigger] r.skip(n)[k], id);
                assert(r.skip(n)[k] == r[k + n]);
            }
        }
    }
    assert(listed_ids(r) =~= listed_ids(r.subrange(0, n)));
}

/// The listed ids of up to three enrichment sections, each pushed only when it lists
/// something, are the ids they list.
proof fn lemma_listed_ids_of_added<C>(added: Seq<SearchSection<C>>, ids: Set<Seq<char>>)
    requires
        forall|id: Seq<char>| ids.contains(id) <==> exists|k: int| 0 <= k < added.len() && section_lists(#[trigger] added[k], id),
    ensures
        listed_ids(added) == ids,
{
    assert(listed_ids(added) =~= ids);
}

/// What holds of the sections while they are laid out: each fits the targets, and the
/// emitted ids are exactly those of the targets shown so far and of the items listed.
spec fn layout_inv<C>(r: Seq<SearchSection<C>>, emitted: Set<Seq<char>>, t: PerTypeTargets<C>, limits: SectionLimits) -> bool {
    &&& forall|k: int| 0 <= k < r.len() ==> placed(#[trigger] r[k], t, limits)
    &&& emitted == emitted_ids(r, t)
}

/// The target of kind `kind`.
pub open spec fn target_of<C>(t: PerTypeTargets<C>, kind: HashedItemType) -> Option<IdentifiedTarget<C>> {
    match kind {
        HashedItemType::Artist => t.artist,
        HashedItemType::Album => t.album,
        HashedItemType::Track => t.track,
    }
}

/// Pushing the primary section of a present target, with its id emitted, keeps the layout.
proof fn lemma_push_primary<C>(
    r: Seq<SearchSection<C>>,
    s: SearchSection<C>,
    emitted: Set<Seq<char>>,
    t: PerTypeTargets<C>,
    limits: SectionLimits,
    kind: HashedItemType,
)
    requires
        layout_inv(r, emitted, t, limits),
        placed(s, t, limits),
        is_primary_of(s, kind),
        target_of(t, kind) is Some,
    ensures
        layout_inv(r.push(s), emitted.insert(target_of(t, kind)->0.result.item_id@), t, limits),
{
    let r2 = r.push(s);
    let e2 = emitted.insert(target_of(t, kind)->0.result.item_id@);
    assert(r2.subrange(0, r.len() as int) =~= r);
    if kind != HashedItemType::Artist {
        lemma_shows_primary_extend(r2, r.len() as int, HashedItemType::Artist);
    }
    if kind != HashedItemType::Album {
        lemma_shows_primary_extend(r2, r.len() as int, HashedItemType::Album);
    }
    if kind != HashedItemType::Track {
        lemma_shows_primary_extend(r2, r.len() as int, HashedItemType::Track);
    }
    assert(r2[r.len() as int] == s);
    assert(shows_primary(r2, kind));
    assert forall|id: Seq<char>| shown_target_ids(r2, t).contains(id) <==> (shown_target_ids(r, t).contains(id) || id
        == target_of(t, kind)->0.result.item_id@) by {
        if shows_primary(r, kind) {
            let k = choose|k: int| 0 <= k < r.len() && is_primary_of(#[trigger] r[k], kind);
            assert(r2[k] == r[k]);
        }
    }
    lemma_listed_ids_unlisting(r2, r.len() as int);
    assert(e2 =~= emitted_ids(r2, t));
    assert forall|k: int| 0 <= k < r2.len() implies placed(#[trigger] r2[k], t, limits) by {
        if k < r.len() {
            assert(r2[k] == r[k]);
        }
    }
}

/// Appending sections that fit the targets and are no primary match, while the ids they
/// list are added to the emitted ones, keeps the layout.
proof fn lemma_append_unshown<C>(
    r: Seq<SearchSection<C>>,
    r2: Seq<SearchSection<C>>,
    emitted: Set<Seq<char>>,
    emitted2: Set<Seq<char>>,
    t: PerTypeTargets<C>,
    limits: SectionLimits,
)
    requires
        layout_inv(r, emitted, t, limits),
        r.len() <= r2.len(),
        r2.subrange(0, r.len() as int) == r,
        forall|k: int| r.len() <= k < r2.len() ==> placed(#[trigger] r2[k], t, limits),
        forall|k: int|
            r.len() <= k < r2.len() ==> !(#[trigger] r2[k] is PrimaryArtist) && !(r2[k] is PrimaryAlbum) && !(
            r2[k] is PrimaryTrack),
        emitted2 == emitted.union(listed_ids(r2.skip(r.len() as int))),
    ensures
        layout_inv(r2, emitted2, t, limits),
{
    lemma_shown_ids_extend(r2, r.len() as int, t);
    lemma_listed_ids_split(r2, r.len() as int);
    assert(emitted2 =~= emitted_ids(r2, t));
    assert forall|k: int| 0 <= k < r2.len() implies placed(#[trigger] r2[k], t, limits) by {
        if k < r.len() {
            assert(r2.subrange(0, r.len() as int)[k] == r2[k]);
        }
    }
}

/// Whether `s` belongs to the artist part of an answer: the primary artist, or a section
/// that enriches the artist target.
pub open spec fn artist_part<C>(s: SearchSection<C>, t: PerTypeTargets<C>, limits: SectionLimits) -> bool {
    s is PrimaryArtist || (t.artist matches Some(x) && enriches_artist(s, x.result.item_id@, limits))
}

/// Whether `s` belongs to the album part of an answer: the primary album, or a section
/// that enriches the album target.
pub open spec fn album_part<C>(s: SearchSection<C>, t: PerTypeTargets<C>, limits: SectionLimits) -> bool {
    s is PrimaryAlbum || (t.album matches Some(x) && enriches_album(s, x.result.item_id@, limits))
}

/// The sections cut at `a`, `b` and `c`: first the artist part (its primary match, if
/// any, leading), then the album part (likewise), then at most the primary track, then at
/// most one more section.
pub open spec fn cut_in_order<C>(r: Seq<SearchSection<C>>, t: PerTypeTargets<C>, limits: SectionLimits, a: int, b: int, c: int) -> bool {
    &&& 0 <= a <= b <= c <= r.len()
    &&& r.len() <= c + 1
    &&& forall|k: int| 0 <= k < a ==> artist_part(#[trigger] r[k], t, limits) && (r[k] is PrimaryArtist ==> k == 0)
    &&& forall|k: int| a <= k < b ==> album_part(#[trigger] r[k], t, limits) && (r[k] is PrimaryAlbum ==> k == a)
    &&& forall|k: int| b <= k < c ==> k == b && (#[trigger] r[k]) is PrimaryTrack
}

/// The sections come in the order artist part, album part, primary track, the rest.
pub open spec fn in_order<C>(r: Seq<SearchSection<C>>, t: PerTypeTargets<C>, limits: SectionLimits) -> bool {
    exists|a: int, b: int, c: int| #[trigger] cut_in_order(r, t, limits, a, b, c)
}

/// Whether `s` enriches the target of kind `kind`, whose id is `id`.
pub open spec fn enriches<C>(s: SearchSection<C>, kind: HashedItemType, id: Seq<char>, limits: SectionLimits) -> bool {
    if kind == HashedItemType::Artist {
        enriches_artist(s, id, limits)
    } else {
        enriches_album(s, id, limits)
    }
}

/// The sections an enrichment step added, when they all enrich the same target, fit the
/// targets and are no primary match.
proof fn lemma_enrichment_placed<C>(
    r: Seq<SearchSection<C>>,
    n: int,
    t: PerTypeTargets<C>,
    limits: SectionLimits,
    kind: HashedItemType,
)
    requires
        0 <= n <= r.len(),
        kind != HashedItemType::Track,
        target_of(t, kind) is Some,
        forall|k: int|
            0 <= k < r.skip(n).len() ==> enriches(#[trigger] r.skip(n)[k], kind, target_of(t, kind)->0.result.item_id@, limits),
    ensures
        forall|k: int| n <= k < r.len() ==> placed(#[trigger] r[k], t, limits),
        forall|k: int|
            n <= k < r.len() ==> !(#[trigger] r[k] is PrimaryArtist) && !(r[k] is PrimaryAlbum) && !(
            r[k] is PrimaryTrack),
{
    assert forall|k: int| n <= k < r.len() implies placed(#[trigger] r[k], t, limits) && !(r[k] is PrimaryArtist)
        && !(r[k] is PrimaryAlbum) && !(r[k] is PrimaryTrack) by {
        assert(r.skip(n)[k - n] == r[k]);
    }
}

} // verus!

verus! {

impl<'a, S: CatalogStore + ?Sized, U: PopularTracksSource + ?Sized, T: TargetIdentifier> StreamingSearchPipeline<'a, S, U, T> {
    /// Pushes the primary section of the target of kind `kind`, when it resolves.
    fn push_primary(
        &self,
        target: &IdentifiedTarget<T::Confidence>,
        kind: HashedItemType,
        sections: &mut Vec<SearchSection<T::Confidence>>,
        emitted: &mut StringHashSet,
        Ghost(t): Ghost<PerTypeTargets<T::Confidence>>,
    )
        requires
            target_of(t, kind) == Some(*target),
            layout_inv(old(sections)@, old(emitted)@, t, self.limits()),
        ensures
            layout_inv(final(sections)@, final(emitted)@, t, self.limits()),
            final(sections)@.len() == old(sections)@.len() ==> final(sections)@ == old(sections)@ && final(emitted)@
                == old(emitted)@,
            final(sections)@.len() != old(sections)@.len() ==> {
                &&& final(sections)@.len() == old(sections)@.len() + 1
                &&& final(sections)@.drop_last() == old(sections)@
                &&& is_primary_of(final(sections)@.last(), kind)
                &&& placed(final(sections)@.last(), t, self.limits())
                &&& final(emitted)@ == old(emitted)@.insert(target.result.item_id@)
            },
    {
        let ghost e0 = emitted@;
        match self.build_primary(target, kind, emitted) {
            Some(section) => {
                proof {
                    lemma_push_primary(sections@, section, e0, t, self.limits(), kind);
                }
                sections.push(section);
                assert(sections@.drop_last() =~= old(sections)@);
            },
            None => {},
        }
    }

    /// The sections for the given targets, before the closing `Done`: for each kind that
    /// has a target, in the order artist, album, track, its primary match (when it
    /// resolves) and its enrichment (artists and albums only); then the remaining hits,
    /// those whose ids were not already listed.
    pub fn sections_for_targets(
        &self,
        search_results: &[SearchResult],
        targets: &PerTypeTargets<T::Confidence>,
    ) -> (r: Vec<SearchSection<T::Confidence>>)
        ensures
            well_laid_out(r@, search_results@, *targets, self.limits(), self.store()),
            in_order(r@, *targets, self.limits()),
    {
        let mut emitted = StringHashSet::new();
        let mut sections: Vec<SearchSection<T::Confidence>> = Vec::new();
        let has_any_primary = targets.artist.is_some() || targets.album.is_some() || targets.track.is_some();
        let ghost t = *targets;
        let ghost limits = self.limits();
        assert(shown_target_ids(sections@, t) =~= Set::empty());
        assert(listed_ids(sections@) =~= Set::empty());
        assert(emitted@ =~= emitted_ids(sections@, t));

        match &targets.artist {
            Some(artist_target) => {
                self.push_primary(artist_target, HashedItemType::Artist, &mut sections, &mut emitted, Ghost(t));
                let ghost r0 = sections@;
                let ghost e0 = emitted@;
                self.add_artist_enrichment(artist_target.result.item_id.as_str(), &mut sections, &mut emitted);
                proof {
                    lemma_enrichment_placed(sections@, r0.len() as int, t, limits, HashedItemType::Artist);
                    lemma_append_unshown(r0, sections@, e0, emitted@, t, limits);
                    let added = sections@.skip(r0.len() as int);
                    assert forall|k: int| 0 <= k < sections@.len() implies artist_part(#[trigger] sections@[k], t, limits)
                        && (sections@[k] is PrimaryArtist ==> k == 0) by {
                        if k < r0.len() {
                            assert(sections@.subrange(0, r0.len() as int)[k] == sections@[k]);
                        } else {
                            assert(added[k - r0.len()] == sections@[k]);
                        }
                    }
                }
            },
            None => {},
        }
        let ghost ra = sections@;
        assert(cut_in_order(ra, t, limits, ra.len() as int, ra.len() as int, ra.len() as int));
        match &targets.album {
            Some(album_target) => {
                self.push_primary(album_target, HashedItemType::Album, &mut sections, &mut emitted, Ghost(t));
                let ghost r0 = sections@;
                let ghost e0 = emitted@;
                self.add_album_enrichment(album_target.result.item_id.as_str(), &mut sections, &mut emitted);
                proof {
                    lemma_enrichment_placed(sections@, r0.len() as int, t, limits, HashedItemType::Album);
                    lemma_append_unshown(r0, sections@, e0, emitted@, t, limits);
                    let added = sections@.skip(r0.len() as int);
                    assert forall|k: int| 0 <= k < sections@.len() implies (k < ra.len() ==> sections@[k] == ra[k])
                        && (ra.len() <= k ==> album_part(#[trigger] sections@[k], t, limits)
                        && (sections@[k] is PrimaryAlbum ==> k == ra.len())) by {
                        if k < r0.len() {
                            assert(sections@.subrange(0, r0.len() as int)[k] == sections@[k]);
                            if k < ra.len() && r0.len() != ra.len() {
                                assert(r0.drop_last()[k] == r0[k]);
                            }
                        } else {
                            assert(added[k - r0.len()] == sections@[k]);
                        }
                    }
                }
            },
            None => {},
        }
        let ghost rb = sections@;
        assert(cut_in_order(rb, t, limits, ra.len() as int, rb.len() as int, rb.len() as int)) by {
            assert forall|k: int| 0 <= k < ra.len() implies rb[k] == ra[k] by {}
        }
        match &targets.track {
            Some(track_target) => {
                self.push_primary(track_target, HashedItemType::Track, &mut sections, &mut emitted, Ghost(t));
                proof {
                    if sections@.len() != rb.len() {
                        assert forall|k: int| 0 <= k < rb.len() implies sections@[k] == rb[k] by {
                            assert(sections@.drop_last()[k] == sections@[k]);
                        }
                        assert(sections@[rb.len() as int] == sections@.last());
                    }
                    let r3 = sections@;
                    assert forall|k: int| 0 <= k < ra.len() implies artist_part(#[trigger] r3[k], t, limits) && (
                    r3[k] is PrimaryArtist ==> k == 0) by {
                        assert(r3[k] == rb[k]);
                        assert(artist_part(rb[k], t, limits));
                    }
                    assert forall|k: int| ra.len() <= k < rb.len() implies album_part(#[trigger] r3[k], t, limits) && (
                    r3[k] is PrimaryAlbum ==> k == ra.len()) by {
                        assert(r3[k] == rb[k]);
                        assert(album_part(rb[k], t, limits));
                    }
                    assert(cut_in_order(r3, t, limits, ra.len() as int, rb.len() as int, r3.len() as int));
                }
            },
            None => {},
        }
        let ghost r0 = sections@;
        assert(cut_in_order(r0, t, limits, ra.len() as int, rb.len() as int, r0.len() as int));
        match self.build_remaining_results(search_results, &emitted) {
            Some(items) => {
                if has_any_primary {
                    sections.push(SearchSection::MoreResults { items });
                } else {
                    sections.push(SearchSection::Results { items });
                }
                proof {
                    assert(sections@.subrange(0, r0.len() as int) =~= r0);
                    lemma_shown_ids_extend(sections@, r0.len() as int, t);
                    lemma_listed_ids_unlisting(sections@, r0.len() as int);
                    assert(emitted_ids(sections@, t) =~= emitted@);
                    assert forall|k: int| 0 <= k < sections@.len() - 1 implies placed(#[trigger] sections@[k], t, limits) by {
                        assert(sections@[k] == r0[k]);
                    }
                    assert forall|k: int| 0 <= k < r0.len() implies sections@[k] == r0[k] by {}
                    assert(cut_in_order(sections@, t, limits, ra.len() as int, rb.len() as int, r0.len() as int));
                }
            },
            None => {},
        }
        sections
    }

    /// The streaming answer to `query` from its ranked hits: the targets that the
    /// identifier finds, the sections for them, and a closing `Done` with the time taken.
    pub fn execute(&self, query: &str, search_results: Vec<SearchResult>) -> (r: Vec<SearchSection<T::Confidence>>)
        ensures
            r@.len() >= 1,
            r@.last() is Done,
            exists|t: PerTypeTargets<T::Confidence>| #[trigger] identified_per_type(&self.identifier(), query@, search_results@, t)
                && well_laid_out(r@.drop_last(), search_results@, t, self.limits(), self.store()) && in_order(
                r@.drop_last(),
                t,
                self.limits(),
            ),
    {
        let start = now();
        let targets = self.target_identifier.identify_targets_by_type(query, search_results.as_slice());
        let mut sections = self.sections_for_targets(search_results.as_slice(), &targets);
        let ghost laid = sections@;
        let millis = as_millis(&elapsed(&start));
        sections.push(SearchSection::Done { total_time_ms: millis as u64 });
        assert(sections@.drop_last() =~= laid);
        assert(identified_per_type(&self.identifier(), query@, search_results@, targets));
        sections
    }
}

} // verus!
