//! Expanded search: a query is searched as it is and, while hits are wanted, as each of
//! its typo-corrected variants, adding only hits not already found.

use vstd::prelude::*;

use vstd::hash_set::StringHashSet;

use crate::indexer::SearchIndexItem;
use crate::resolve::HashedItemType;
use crate::search_text::correct_with_vocabulary;
use crate::search_text::corrected_spec;
use crate::search_text::expanded_query_variants;
use crate::search_text::is_expansion;
use crate::search_text::string_views;
use crate::streaming::SearchResult;
use crate::text::lowercase;
use crate::text::to_lowercase;
use crate::vocabulary::Vocabulary;

verus! {

/// The kinds a search is restricted to, as values.
pub open spec fn filter_view(filter: Option<Vec<HashedItemType>>) -> Option<Seq<HashedItemType>> {
    match filter {
        Some(v) => Some(v@),
        None => None,
    }
}

/// The operations of a search index that the library builds on. Each comes with a relation
/// that the implementation defines: which answers it may give for which request (any
/// answer, unless the implementation narrows it). The relation promises nothing of its
/// own; it names what came back.
pub trait SearchVault {
    /// Whether `r` is an answer the index may give when asked whether it is the enriched one.
    open spec fn enriched_answer(&self, r: bool) -> bool {
        true
    }

    /// Whether `r` is an answer the index may give to a plain search.
    open spec fn search_answer(&self, query: Seq<char>, max_results: usize, filter: Option<Seq<HashedItemType>>, r: Seq<SearchResult>) -> bool {
        true
    }

    /// Whether `r` is an answer the index may give to a search that may be restricted to
    /// available content.
    open spec fn availability_search_answer(
        &self,
        query: Seq<char>,
        max_results: usize,
        filter: Option<Seq<HashedItemType>>,
        available_only: bool,
        r: Seq<SearchResult>,
    ) -> bool {
        true
    }

    /// Whether `r` is an answer the index may give when handed `items` to add.
    open spec fn upsert_answer(&self, items: Seq<SearchIndexItem>, r: Result<(), String>) -> bool {
        true
    }

    /// Whether the active index is the enriched one, whose search expands queries itself.
    fn is_enriched(&self) -> (r: bool)
        ensures
            self.enriched_answer(r),
    ;

    /// Up to `max_results` hits for `query`, best first, of the kinds in `filter` if given.
    fn search(&self, query: &str, max_results: usize, filter: Option<Vec<HashedItemType>>) -> (r: Vec<SearchResult>)
        ensures
            self.search_answer(query@, max_results, filter_view(filter), r@),
    ;

    /// As [`SearchVault::search`], over available content only when `available_only`.
    fn search_with_availability(
        &self,
        query: &str,
        max_results: usize,
        filter: Option<Vec<HashedItemType>>,
        available_only: bool,
    ) -> (r: Vec<SearchResult>)
        ensures
            self.availability_search_answer(query@, max_results, filter_view(filter), available_only, r@),
    ;

    /// Adds the items to the index, or replaces those already in it.
    fn upsert_items(&self, items: &[SearchIndexItem]) -> (r: Result<(), String>)
        ensures
            self.upsert_answer(items@, r),
    ;
}

/// Whether `r` is an answer to searching `query`: with the plain search when `available`
/// is `None`, else with the availability search (over available content only when it is
/// `Some(true)`).
pub open spec fn searched_with<V: SearchVault + ?Sized>(
    vault: &V,
    query: Seq<char>,
    max_results: usize,
    filter: Option<Seq<HashedItemType>>,
    available: Option<bool>,
    r: Seq<SearchResult>,
) -> bool {
    match available {
        Some(a) => vault.availability_search_answer(query, max_results, filter, a, r),
        None => vault.search_answer(query, max_results, filter, r),
    }
}

/// Whether a hit with the key of `x` is among `r`.
pub open spec fn has_hit(r: Seq<SearchResult>, x: SearchResult) -> bool {
    exists|i: int| 0 <= i < r.len() && hit_key(#[trigger] r[i]) == hit_key(x)
}

/// The hits of `found` merged into `r`: in their order, each hit whose key is not there
/// yet is added, until `r` holds `max_results` hits.
pub open spec fn merge_hits(r: Seq<SearchResult>, found: Seq<SearchResult>, max_results: nat) -> Seq<SearchResult>
    decreases found.len(),
{
    if found.len() == 0 || r.len() >= max_results {
        r
    } else if has_hit(r, found[0]) {
        merge_hits(r, found.drop_first(), max_results)
    } else {
        merge_hits(r.push(found[0]), found.drop_first(), max_results)
    }
}

/// Whether `r` is what expanding from the hits `acc` gives over the variants `vs`: while
/// fewer than `max_results` hits are held, each variant whose lower-cased form is not in
/// `tried` is searched, its hits merged in (see [`merge_hits`]) and its lower-cased form
/// added to `tried`; variants already tried are skipped.
pub open spec fn expansion_outcome<V: SearchVault + ?Sized>(
    vault: &V,
    acc: Seq<SearchResult>,
    vs: Seq<Seq<char>>,
    tried: Set<Seq<char>>,
    max_results: usize,
    filter: Option<Seq<HashedItemType>>,
    available: Option<bool>,
    r: Seq<SearchResult>,
) -> bool
    decreases vs.len(),
{
    if acc.len() >= max_results || vs.len() == 0 {
        r == acc
    } else if tried.contains(lowercase(vs[0])) {
        expansion_outcome(vault, acc, vs.drop_first(), tried, max_results, filter, available, r)
    } else {
        exists|found: Seq<SearchResult>|
            #[trigger] searched_with(vault, vs[0], max_results, filter, available, found) && expansion_outcome(
                vault,
                merge_hits(acc, found, max_results as nat),
                vs.drop_first(),
                tried.insert(lowercase(vs[0])),
                max_results,
                filter,
                available,
                r,
            )
    }
}

/// What identifies a hit: its id and its kind.
pub open spec fn hit_key(r: SearchResult) -> (Seq<char>, HashedItemType) {
    (r.item_id@, r.item_type)
}

/// Past the first `n` hits, each hit is one not found before it; and if any was added, the
/// hits stay within `max_results`.
pub open spec fn adds_only_new_hits(r: Seq<SearchResult>, n: int, max_results: nat) -> bool {
    &&& 0 <= n <= r.len()
    &&& n < r.len() ==> r.len() <= max_results
    &&& forall|i: int, j: int| 0 <= i < j < r.len() && n <= j ==> hit_key(#[trigger] r[i]) != hit_key(#[trigger] r[j])
}

/// The keys of the hits, as the three per-kind id sets hold them.
pub open spec fn keys_in(
    r: Seq<SearchResult>,
    artists: Set<Seq<char>>,
    albums: Set<Seq<char>>,
    tracks: Set<Seq<char>>,
) -> bool {
    forall|key: (Seq<char>, HashedItemType)|
        #![trigger key_in_sets(key, artists, albums, tracks)]
        key_in_sets(key, artists, albums, tracks) <==> exists|i: int| 0 <= i < r.len() && hit_key(#[trigger] r[i]) == key
}

/// Whether the id set of the key's kind holds the key's id.
pub open spec fn key_in_sets(
    key: (Seq<char>, HashedItemType),
    artists: Set<Seq<char>>,
    albums: Set<Seq<char>>,
    tracks: Set<Seq<char>>,
) -> bool {
    match key.1 {
        HashedItemType::Artist => artists.contains(key.0),
        HashedItemType::Album => albums.contains(key.0),
        HashedItemType::Track => tracks.contains(key.0),
    }
}

/// The ids already found, one set per kind.
struct SeenHits {
    artists: StringHashSet,
    albums: StringHashSet,
    tracks: StringHashSet,
}

impl SeenHits {
    spec fn holds(&self, r: Seq<SearchResult>) -> bool {
        keys_in(r, self.artists@, self.albums@, self.tracks@)
    }

    fn new() -> (s: Self)
        ensures
            s.holds(Seq::empty()),
    {
        SeenHits { artists: StringHashSet::new(), albums: StringHashSet::new(), tracks: StringHashSet::new() }
    }

    /// Records the hit; whether it was new.
    fn insert(&mut self, hit: &SearchResult, Ghost(r): Ghost<Seq<SearchResult>>) -> (fresh: bool)
        requires
            old(self).holds(r),
        ensures
            final(self).holds(r.push(*hit)),
            !fresh ==> final(self).holds(r),
            fresh == !(exists|i: int| 0 <= i < r.len() && hit_key(#[trigger] r[i]) == hit_key(*hit)),
    {
        let ghost (a0, b0, c0) = (self.artists@, self.albums@, self.tracks@);
        let fresh = match hit.item_type {
            HashedItemType::Artist => self.artists.insert(hit.item_id.clone()),
            HashedItemType::Album => self.albums.insert(hit.item_id.clone()),
            HashedItemType::Track => self.tracks.insert(hit.item_id.clone()),
        };
        proof {
            let r2 = r.push(*hit);
            assert(key_in_sets(hit_key(*hit), a0, b0, c0) == !fresh);
            if !fresh {
                assert(self.artists@ =~= a0);
                assert(self.albums@ =~= b0);
                assert(self.tracks@ =~= c0);
            }
            assert forall|key: (Seq<char>, HashedItemType)|
                #![trigger key_in_sets(key, self.artists@, self.albums@, self.tracks@)]
                key_in_sets(key, self.artists@, self.albums@, self.tracks@) <==> exists|i: int|
                    0 <= i < r2.len() && hit_key(#[trigger] r2[i]) == key by {
                if key_in_sets(key, self.artists@, self.albums@, self.tracks@) {
                    if key == hit_key(*hit) {
                        assert(hit_key(r2[r.len() as int]) == key);
                    } else {
                        assert(key_in_sets(key, a0, b0, c0));
                        let i = choose|i: int| 0 <= i < r.len() && hit_key(#[trigger] r[i]) == key;
                        assert(r2[i] == r[i]);
                    }
                }
                if exists|i: int| 0 <= i < r2.len() && hit_key(#[trigger] r2[i]) == key {
                    let i = choose|i: int| 0 <= i < r2.len() && hit_key(#[trigger] r2[i]) == key;
                    if i < r.len() {
                        assert(r2[i] == r[i]);
                        assert(key_in_sets(key, a0, b0, c0));
                    }
                }
            }
        }
        fresh
    }
}

/// A copy of the kinds a search is restricted to.
fn copy_filter(filter: &Option<Vec<HashedItemType>>) -> (r: Option<Vec<HashedItemType>>)
    ensures
        filter_view(r) == filter_view(*filter),
{
    match filter {
        Some(kinds) => {
            let mut out: Vec<HashedItemType> = Vec::new();
            let mut i: usize = 0;
            while i < kinds.len()
                invariant
                    i <= kinds@.len(),
                    out@ == kinds@.take(i as int),
                decreases kinds@.len() - i,
            {
                out.push(kinds[i]);
                i = i + 1;
                assert(out@ =~= kinds@.take(i as int));
            }
            assert(kinds@.take(kinds@.len() as int) =~= kinds@);
            Some(out)
        },
        None => None,
    }
}

/// Searches `query` through `vault`, over available content only when `available` is
/// `Some(true)`, with the plain search when it is `None`.
fn search_once<V: SearchVault + ?Sized>(
    vault: &V,
    query: &str,
    max_results: usize,
    filter: &Option<Vec<HashedItemType>>,
    available: Option<bool>,
) -> (r: Vec<SearchResult>)
    ensures
        searched_with(vault, query@, max_results, filter_view(*filter), available, r@),
{
    match available {
        Some(available_only) => vault.search_with_availability(query, max_results, copy_filter(filter), available_only),
        None => vault.search(query, max_results, copy_filter(filter)),
    }
}

/// Whether `r` is what expanding the hits `first` of `query` gives: `first` itself once it
/// holds `max_results` hits, else the outcome over the query's typo-corrected variants `vs`
/// (see [`is_expansion`]), the corrected query counting as tried.
pub open spec fn expanded_from<V: SearchVault + ?Sized>(
    vault: &V,
    words: Seq<Seq<char>>,
    query: Seq<char>,
    max_distance: nat,
    max_results: usize,
    filter: Option<Seq<HashedItemType>>,
    available: Option<bool>,
    first: Seq<SearchResult>,
    r: Seq<SearchResult>,
) -> bool {
    &&& first.len() >= max_results ==> r == first
    &&& first.len() < max_results ==> exists|vs: Seq<Seq<char>>|
        #[trigger] is_expansion(words, query, max_distance, vs) && expansion_outcome(
            vault,
            first,
            vs,
            Set::empty().insert(lowercase(corrected_spec(words, query, max_distance))),
            max_results,
            filter,
            available,
            r,
        )
}

/// The hits `first` of a query, then, while fewer than `max_results`, those of each of
/// its typo-corrected variants not tried before (compared lower-cased, the corrected query
/// counting as tried), searched through `vault` (over available content only when
/// `available` is `Some(true)`, with the plain search when it is `None`), each adding only
/// hits not found yet.
pub fn extend_with_variants<V: SearchVault + ?Sized>(
    vault: &V,
    vocabulary: &Vocabulary,
    max_distance: usize,
    query: &str,
    max_results: usize,
    filter: Option<Vec<HashedItemType>>,
    available: Option<bool>,
    first: Vec<SearchResult>,
) -> (r: Vec<SearchResult>)
    requires
        vocabulary.wf(),
        max_distance <= isize::MAX,
    ensures
        expanded_from(vault, vocabulary@, query@, max_distance as nat, max_results, filter_view(filter), available, first@, r@),
        first@.len() >= max_results ==> r@ == first@,
        first@.len() < max_results ==> r@.take(first@.len() as int) == first@ && adds_only_new_hits(
            r@,
            first@.len() as int,
            max_results as nat,
        ),
{
    let mut results = first;
    let n = results.len();
    if results.len() >= max_results {
        return results;
    }
    let mut seen = SeenHits::new();
    let mut i: usize = 0;
    while i < n
        invariant
            n == results@.len(),
            results@ == first@,
            n < max_results,
            i <= n,
            seen.holds(results@.take(i as int)),
        decreases n - i,
    {
        assert(results@.take(i as int).push(results@[i as int]) =~= results@.take(i + 1));
        seen.insert(&results[i], Ghost(results@.take(i as int)));
        i = i + 1;
    }
    assert(results@.take(n as int) =~= results@);
    assert(adds_only_new_hits(results@, n as int, max_results as nat));
    let mut tried = StringHashSet::new();
    tried.insert(to_lowercase(correct_with_vocabulary(vocabulary, query, max_distance).as_str()));
    let ghost tried0 = tried@;
    let ghost fv = filter_view(filter);
    let variants = expanded_query_variants(vocabulary, query, max_distance);
    let ghost vsv = string_views(variants@);
    let mut v: usize = 0;
    assert(vsv.skip(0) =~= vsv);
    while v < variants.len()
        invariant_except_break
            n <= results@.len() <= max_results,
            seen.holds(results@),
            adds_only_new_hits(results@, n as int, max_results as nat),
            results@.take(n as int) == first@,
            v <= variants@.len(),
            vsv == string_views(variants@),
            fv == filter_view(filter),
            forall|out: Seq<SearchResult>|
                expansion_outcome(vault, results@, vsv.skip(v as int), tried@, max_results, fv, available, out)
                    ==> #[trigger] expansion_outcome(vault, first@, vsv, tried0, max_results, fv, available, out),
        ensures
            n <= results@.len() <= max_results,
            seen.holds(results@),
            adds_only_new_hits(results@, n as int, max_results as nat),
            results@.take(n as int) == first@,
            expansion_outcome(vault, first@, vsv, tried0, max_results, fv, available, results@),
        decreases variants@.len() - v,
    {
        if results.len() >= max_results {
            assert(expansion_outcome(vault, results@, vsv.skip(v as int), tried@, max_results, fv, available, results@));
            break;
        }
        let ghost acc = results@;
        let ghost tried_before = tried@;
        let ghost rest = vsv.skip(v as int);
        let variant = &variants[v];
        assert(rest[0] == variant@);
        assert(rest.drop_first() =~= vsv.skip(v + 1));
        v = v + 1;
        if !tried.insert(to_lowercase(variant.as_str())) {
            proof {
                assert(tried@ =~= tried_before);
                assert forall|out: Seq<SearchResult>|
                    expansion_outcome(vault, results@, vsv.skip(v as int), tried@, max_results, fv, available, out)
                        implies #[trigger] expansion_outcome(vault, first@, vsv, tried0, max_results, fv, available, out) by {
                    assert(expansion_outcome(vault, acc, rest, tried_before, max_results, fv, available, out));
                }
            }
            continue;
        }
        let found = search_once(vault, variant.as_str(), max_results, &filter, available);
        let mut j: usize = 0;
        assert(found@.skip(0) =~= found@);
        while j < found.len()
            invariant_except_break
                n <= results@.len() < max_results,
                seen.holds(results@),
                adds_only_new_hits(results@, n as int, max_results as nat),
                results@.take(n as int) == first@,
                j <= found@.len(),
                merge_hits(results@, found@.skip(j as int), max_results as nat) == merge_hits(acc, found@, max_results as nat),
            ensures
                n <= results@.len() <= max_results,
                seen.holds(results@),
                adds_only_new_hits(results@, n as int, max_results as nat),
                results@.take(n as int) == first@,
                results@ == merge_hits(acc, found@, max_results as nat),
            decreases found@.len() - j,
        {
            let ghost before = results@;
            assert(found@.skip(j as int)[0] == found@[j as int]);
            assert(found@.skip(j as int).drop_first() =~= found@.skip(j + 1));
            if seen.insert(&found[j], Ghost(results@)) {
                results.push(found[j].clone());
                proof {
                    assert(results@.take(n as int) =~= before.take(n as int));
                    assert forall|a: int, b: int| 0 <= a < b < results@.len() && n <= b implies hit_key(
                        #[trigger] results@[a],
                    ) != hit_key(#[trigger] results@[b]) by {
                        if b == before.len() {
                            assert(results@[a] == before[a]);
                        } else {
                            assert(results@[a] == before[a]);
                            assert(results@[b] == before[b]);
                        }
                    }
                    assert(!has_hit(before, found@[j as int]));
                    assert(merge_hits(before, found@.skip(j as int), max_results as nat) == merge_hits(
                        results@,
                        found@.skip(j + 1),
                        max_results as nat,
                    ));
                }
                if results.len() >= max_results {
                    break;
                }
            } else {
                proof {
                    assert(has_hit(before, found@[j as int]));
                }
            }
            j = j + 1;
        }
        proof {
            assert forall|out: Seq<SearchResult>|
                expansion_outcome(vault, results@, vsv.skip(v as int), tried@, max_results, fv, available, out)
                    implies #[trigger] expansion_outcome(vault, first@, vsv, tried0, max_results, fv, available, out) by {
                assert(searched_with(vault, rest[0], max_results, fv, available, found@));
                assert(expansion_outcome(vault, acc, rest, tried_before, max_results, fv, available, out));
            }
        }
    }
    results
}

/// Expanded search: on the enriched index, its plain search; otherwise the hits of the
/// query, then of its typo-corrected variants while fewer than `max_results` were found,
/// each variant adding only hits not found yet.
pub fn search_expanded<V: SearchVault + ?Sized>(
    vault: &V,
    vocabulary: &Vocabulary,
    max_distance: usize,
    query: &str,
    max_results: usize,
    filter: Option<Vec<HashedItemType>>,
) -> (r: Vec<SearchResult>)
    requires
        vocabulary.wf(),
        max_distance <= isize::MAX,
    ensures
        exists|enriched: bool|
            #[trigger] vault.enriched_answer(enriched) && (enriched ==> vault.search_answer(
                query@,
                max_results,
                filter_view(filter),
                r@,
            )) && (!enriched ==> exists|first: Seq<SearchResult>|
                #[trigger] vault.search_answer(query@, max_results, filter_view(filter), first) && expanded_from(
                    vault,
                    vocabulary@,
                    query@,
                    max_distance as nat,
                    max_results,
                    filter_view(filter),
                    None,
                    first,
                    r@,
                )),
{
    if vault.is_enriched() {
        return vault.search(query, max_results, filter);
    }
    let first = vault.search(query, max_results, copy_filter(&filter));
    extend_with_variants(vault, vocabulary, max_distance, query, max_results, filter, None, first)
}

/// Expanded search over available content only when `available_only`, as
/// [`search_expanded`] does it.
pub fn search_expanded_with_availability<V: SearchVault + ?Sized>(
    vault: &V,
    vocabulary: &Vocabulary,
    max_distance: usize,
    query: &str,
    max_results: usize,
    filter: Option<Vec<HashedItemType>>,
    available_only: bool,
) -> (r: Vec<SearchResult>)
    requires
        vocabulary.wf(),
        max_distance <= isize::MAX,
    ensures
        exists|enriched: bool|
            #[trigger] vault.enriched_answer(enriched) && (enriched ==> vault.availability_search_answer(
                query@,
                max_results,
                filter_view(filter),
                available_only,
                r@,
            )) && (!enriched ==> exists|first: Seq<SearchResult>|
                #[trigger] vault.availability_search_answer(query@, max_results, filter_view(filter), available_only, first)
                    && expanded_from(
                    vault,
                    vocabulary@,
                    query@,
                    max_distance as nat,
                    max_results,
                    filter_view(filter),
                    Some(available_only),
                    first,
                    r@,
                )),
{
    if vault.is_enriched() {
        return vault.search_with_availability(query, max_results, filter, available_only);
    }
    let first = vault.search_with_availability(query, max_results, copy_filter(&filter), available_only);
    extend_with_variants(vault, vocabulary, max_distance, query, max_results, filter, Some(available_only), first)
}

} // verus!
