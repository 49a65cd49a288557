//! A vocabulary of catalog words with typo-tolerant lookup.

use std::collections::HashMap;

use vstd::prelude::*;

use vstd::hash_set::StringHashSet;

use crate::levenshtein::edit_distance;
use crate::levenshtein::lemma_edit_distance_zero_iff_equal;
use crate::levenshtein::levenshtein_distance;
use crate::match_order::abs_diff;
use crate::match_order::common_suffix;
use crate::match_order::lemma_common_suffix_is_longest;
use crate::match_order::lemma_common_suffix_self;
use crate::match_order::lemma_longer_suffix_ranks_first;
use crate::match_order::key_precedes;
use crate::match_order::lemma_key_precedes_strict;
use crate::match_order::lemma_key_precedes_transitive;
use crate::match_order::match_key;
use crate::match_order::MatchCandidate;
use crate::match_order::MatchKey;
use crate::text::byte_len;
use crate::text::join;
use crate::text::join_with_space;
use crate::text::lemma_chars_le_bytes;
use crate::text::lowercase;
use crate::text::is_separator_spec;
use crate::text::is_whitespace_spec;
use crate::text::lemma_tokens_of_join;
use crate::text::lemma_tokens_plain;
use crate::text::split_tokens;
use crate::text::str_eq;
use crate::text::to_lowercase;
use crate::text::tokens;
use crate::text::Separators;

verus! {

broadcast use vstd::std_specs::hash::group_hash_axioms;

/// The bucket key under which a word is indexed by length.
pub open spec fn length_key(w: Seq<char>) -> usize {
    byte_len(w) as usize
}

/// The bucket key under which a word is indexed by its first character.
pub open spec fn first_char_key(w: Seq<char>) -> u32 {
    w[0] as u32
}

/// `b` lists, in increasing order, positions below `n`.
pub open spec fn increasing_below(b: Seq<usize>, n: nat) -> bool {
    &&& forall|t: int| 0 <= t < b.len() ==> (#[trigger] b[t] as int) < n
    &&& forall|s: int, t: int| 0 <= s < t < b.len() ==> #[trigger] b[s] < #[trigger] b[t]
}

pub open spec fn length_index_wf(m: Map<usize, Vec<usize>>, ws: Seq<Seq<char>>) -> bool {
    &&& forall|k: usize| #[trigger] m.contains_key(k) ==> increasing_below(m[k]@, ws.len())
    &&& forall|k: usize, t: int|
        m.contains_key(k) && 0 <= t < m[k]@.len() ==> length_key(ws[#[trigger] m[k]@[t] as int]) == k
    &&& forall|i: int|
        0 <= i < ws.len() ==> m.contains_key(#[trigger] length_key(ws[i])) && m[length_key(
            ws[i],
        )]@.contains(i as usize)
}

pub open spec fn first_char_index_wf(m: Map<u32, Vec<usize>>, ws: Seq<Seq<char>>) -> bool {
    &&& forall|k: u32| #[trigger] m.contains_key(k) ==> increasing_below(m[k]@, ws.len())
    &&& forall|k: u32, t: int|
        m.contains_key(k) && 0 <= t < m[k]@.len() ==> first_char_key(ws[#[trigger] m[k]@[t] as int])
            == k
    &&& forall|i: int|
        0 <= i < ws.len() ==> m.contains_key(#[trigger] first_char_key(ws[i])) && m[first_char_key(
            ws[i],
        )]@.contains(i as usize)
}

/// The words of a vocabulary after `w` is offered to it (`w` already lower-cased).
pub open spec fn add_word_spec(ws: Seq<Seq<char>>, w: Seq<char>) -> Seq<Seq<char>> {
    if byte_len(w) < 2 || ws.contains(w) {
        ws
    } else {
        ws.push(w)
    }
}

/// The words of a vocabulary after each of `ts`, lower-cased, is offered to it in order.
pub open spec fn add_words_spec(ws: Seq<Seq<char>>, ts: Seq<Seq<char>>) -> Seq<Seq<char>>
    decreases ts.len(),
{
    if ts.len() == 0 {
        ws
    } else {
        add_word_spec(add_words_spec(ws, ts.drop_last()), lowercase(ts.last()))
    }
}

/// Word `i` of `ws` may correct `q`: its byte length and its edit distance are both within
/// `max_distance` of the query's.
pub open spec fn is_candidate(ws: Seq<Seq<char>>, q: Seq<char>, max_distance: nat, i: int) -> bool {
    &&& 0 <= i < ws.len()
    &&& abs_diff(byte_len(ws[i]), byte_len(q)) <= max_distance
    &&& edit_distance(q, ws[i]) <= max_distance
}

pub open spec fn candidate_key(ws: Seq<Seq<char>>, q: Seq<char>, i: int) -> MatchKey {
    match_key(q, ws[i], i as nat, edit_distance(q, ws[i]))
}

/// Word `i` is the candidate that ranks before every other candidate.
pub open spec fn is_best_candidate(ws: Seq<Seq<char>>, q: Seq<char>, max_distance: nat, i: int) -> bool {
    &&& is_candidate(ws, q, max_distance, i)
    &&& forall|j: int|
        #![trigger is_candidate(ws, q, max_distance, j)]
        is_candidate(ws, q, max_distance, j) && j != i ==> key_precedes(
            candidate_key(ws, q, i),
            candidate_key(ws, q, j),
        )
}

/// What a lookup of the lower-cased query `q` answers: nothing for queries under three
/// bytes, the word itself when the vocabulary holds it, else the best-ranked candidate.
pub open spec fn best_match(ws: Seq<Seq<char>>, q: Seq<char>, max_distance: nat) -> Option<Seq<char>> {
    if byte_len(q) < 3 {
        None
    } else if ws.contains(q) {
        Some(q)
    } else if exists|i: int| is_best_candidate(ws, q, max_distance, i) {
        Some(ws[choose|i: int| is_best_candidate(ws, q, max_distance, i)])
    } else {
        None
    }
}

/// Offering a word twice leaves the vocabulary as offering it once.
pub proof fn lemma_add_word_idempotent(ws: Seq<Seq<char>>, w: Seq<char>)
    ensures
        add_word_spec(add_word_spec(ws, w), w) == add_word_spec(ws, w),
{
    if !(byte_len(w) < 2 || ws.contains(w)) {
        assert(ws.push(w)[ws.len() as int] == w);
        assert(ws.push(w).contains(w));
    }
}

/// What a lookup answers is a word of the vocabulary within `max_distance` edits of the
/// query; a query of three bytes or more that the vocabulary holds answers itself.
pub proof fn lemma_best_match_is_close(ws: Seq<Seq<char>>, q: Seq<char>, max_distance: nat)
    ensures
        best_match(ws, q, max_distance) matches Some(w) ==> ws.contains(w) && edit_distance(q, w)
            <= max_distance,
        byte_len(q) >= 3 && ws.contains(q) ==> best_match(ws, q, max_distance) == Some(q),
{
    if byte_len(q) >= 3 && ws.contains(q) {
        lemma_edit_distance_zero_iff_equal(q, q);
    } else if byte_len(q) >= 3 && exists|i: int| is_best_candidate(ws, q, max_distance, i) {
        let i = choose|i: int| is_best_candidate(ws, q, max_distance, i);
        assert(ws.contains(ws[i]));
    }
}

/// Of two candidates of a lookup that are equally many edits away from the query and whose
/// byte lengths differ equally from its, the one sharing the shorter suffix with the query
/// is never the answer.
pub proof fn lemma_lookup_prefers_longer_suffix(
    ws: Seq<Seq<char>>,
    q: Seq<char>,
    max_distance: nat,
    i: int,
    j: int,
)
    requires
        is_candidate(ws, q, max_distance, i),
        is_candidate(ws, q, max_distance, j),
        edit_distance(q, ws[i]) == edit_distance(q, ws[j]),
        abs_diff(byte_len(ws[i]), byte_len(q)) == abs_diff(byte_len(ws[j]), byte_len(q)),
        common_suffix(q, ws[i]) > common_suffix(q, ws[j]),
    ensures
        best_match(ws, q, max_distance) != Some(ws[j]),
{
    if byte_len(q) < 3 {
    } else if ws.contains(q) {
        lemma_common_suffix_self(q);
        lemma_common_suffix_is_longest(q, ws[i]);
    } else if exists|k: int| is_best_candidate(ws, q, max_distance, k) {
        let k = choose|k: int| is_best_candidate(ws, q, max_distance, k);
        if ws[k] == ws[j] {
            if k != i {
                assert(key_precedes(candidate_key(ws, q, k), candidate_key(ws, q, i)));
                lemma_longer_suffix_ranks_first(candidate_key(ws, q, i), candidate_key(ws, q, k));
            }
        }
    }
}

/// The replacement of one query word: its best match, or the word itself.
pub open spec fn corrected_word(ws: Seq<Seq<char>>, t: Seq<char>, max_distance: nat) -> Seq<char> {
    match best_match(ws, lowercase(t), max_distance) {
        Some(w) => w,
        None => t,
    }
}

/// A query with each of its words replaced by its correction, joined by single spaces.
pub open spec fn corrected_query(ws: Seq<Seq<char>>, q: Seq<char>, max_distance: nat) -> Seq<char> {
    join(tokens(Separators::Whitespace, q).map_values(|t: Seq<char>| corrected_word(ws, t, max_distance)), ' ')
}

/// A best match is a word of the vocabulary.
proof fn lemma_best_match_in_vocabulary(ws: Seq<Seq<char>>, q: Seq<char>, max_distance: nat)
    ensures
        best_match(ws, q, max_distance) matches Some(w) ==> ws.contains(w),
{
    if byte_len(q) >= 3 && !ws.contains(q) && exists|i: int| is_best_candidate(ws, q, max_distance, i) {
        let i = choose|i: int| is_best_candidate(ws, q, max_distance, i);
        assert(ws[i] == ws[i]);
    }
}

/// Correcting a query twice gives what correcting it once gives, over a vocabulary whose
/// words are non-empty, hold no white space and are their own lower case (as words added
/// from text are).
pub proof fn lemma_correct_query_idempotent(ws: Seq<Seq<char>>, q: Seq<char>, max_distance: nat)
    requires
        forall|i: int| 0 <= i < ws.len() ==> (#[trigger] ws[i]).len() > 0 && lowercase(ws[i]) == ws[i],
        forall|i: int, k: int| 0 <= i < ws.len() && 0 <= k < ws[i].len() ==> !is_whitespace_spec(#[trigger] ws[i][k]),
    ensures
        corrected_query(ws, corrected_query(ws, q, max_distance), max_distance) == corrected_query(ws, q, max_distance),
{
    let ts = tokens(Separators::Whitespace, q);
    let cs = ts.map_values(|t: Seq<char>| corrected_word(ws, t, max_distance));
    lemma_tokens_plain(Separators::Whitespace, q);
    assert forall|i: int| 0 <= i < cs.len() implies (#[trigger] cs[i]).len() > 0 && (forall|k: int|
        0 <= k < cs[i].len() ==> !is_separator_spec(Separators::Whitespace, #[trigger] cs[i][k])) && corrected_word(
        ws,
        cs[i],
        max_distance,
    ) == cs[i] by {
        let t = ts[i];
        lemma_best_match_in_vocabulary(ws, lowercase(t), max_distance);
        match best_match(ws, lowercase(t), max_distance) {
            Some(w) => {
                let p = choose|p: int| 0 <= p < ws.len() && ws[p] == w;
                assert(cs[i] == ws[p]);
                assert forall|k: int| 0 <= k < cs[i].len() implies !is_separator_spec(Separators::Whitespace, #[trigger] cs[i][k]) by {
                    assert(!is_whitespace_spec(ws[p][k]));
                }
                assert(lowercase(w) == w);
                assert(ws.contains(w));
            },
            None => {
                assert(cs[i] == t);
                assert forall|k: int| 0 <= k < cs[i].len() implies !is_separator_spec(Separators::Whitespace, #[trigger] cs[i][k]) by {
                    assert(!is_separator_spec(Separators::Whitespace, ts[i][k]));
                }
            },
        }
    }
    assert(is_separator_spec(Separators::Whitespace, ' '));
    lemma_tokens_of_join(Separators::Whitespace, cs, ' ');
    assert(tokens(Separators::Whitespace, join(cs, ' ')) == cs);
    assert(cs.map_values(|t: Seq<char>| corrected_word(ws, t, max_distance)) =~= cs);
}

/// The lengths searched for a query of `q` bytes: `q`, then `q - o` (when it exists) and
/// `q + o` for each offset `o` from 1 to `m`.
pub open spec fn candidate_lengths_spec(q: nat, m: nat) -> Seq<usize>
    decreases m,
{
    if m == 0 {
        seq![q as usize]
    } else {
        let below: Seq<usize> = if q >= m {
            seq![(q - m) as usize]
        } else {
            seq![]
        };
        candidate_lengths_spec(q, (m - 1) as nat) + below + seq![(q + m) as usize]
    }
}

pub proof fn lemma_candidate_lengths(q: nat, m: nat)
    requires
        q + m <= usize::MAX,
    ensures
        forall|l: usize| #[trigger] candidate_lengths_spec(q, m).contains(l) <==> abs_diff(l as nat, q) <= m,
        forall|s: int, t: int|
            0 <= s < t < candidate_lengths_spec(q, m).len() ==> candidate_lengths_spec(q, m)[s]
                != candidate_lengths_spec(q, m)[t],
    decreases m,
{
    if m > 0 {
        lemma_candidate_lengths(q, (m - 1) as nat);
        let prev = candidate_lengths_spec(q, (m - 1) as nat);
        let below: Seq<usize> = if q >= m {
            seq![(q - m) as usize]
        } else {
            seq![]
        };
        let all = prev + below + seq![(q + m) as usize];
        assert forall|l: usize| #[trigger] all.contains(l) <==> abs_diff(l as nat, q) <= m by {
            if all.contains(l) {
                let k = choose|k: int| 0 <= k < all.len() && all[k] == l;
                if k < prev.len() {
                    assert(prev.contains(l));
                }
            }
            if abs_diff(l as nat, q) <= m {
                if abs_diff(l as nat, q) < m {
                    assert(prev.contains(l));
                    let k = choose|k: int| 0 <= k < prev.len() && prev[k] == l;
                    assert(all[k] == l);
                } else if l as nat >= q {
                    assert(all[all.len() - 1] == l);
                } else {
                    assert(all[prev.len() as int] == l);
                }
            }
        }
        assert forall|s: int, t: int| 0 <= s < t < all.len() implies all[s] != all[t] by {
            if t >= prev.len() && s < prev.len() {
                assert(prev.contains(prev[s]));
            }
        }
    } else {
        let s = seq![q as usize];
        assert forall|l: usize| #[trigger] s.contains(l) <==> abs_diff(l as nat, q) <= m by {
            if l as nat == q {
                assert(s[0] == l);
            }
        }
    }
}

/// Appends `idx` to the bucket of `k`, creating the bucket when missing.
fn push_to_length_bucket(m: &mut HashMap<usize, Vec<usize>>, k: usize, idx: usize)
    ensures
        final(m)@ == old(m)@.insert(
            k,
            final(m)@[k],
        ),
        final(m)@[k]@ == (if old(m)@.contains_key(k) {
            old(m)@[k]@
        } else {
            Seq::<usize>::empty()
        }).push(idx),
{
    let mut bucket = match m.remove(&k) {
        Some(b) => b,
        None => Vec::new(),
    };
    bucket.push(idx);
    m.insert(k, bucket);
}

/// Appends `idx` to the bucket of `k`, creating the bucket when missing.
fn push_to_first_char_bucket(m: &mut HashMap<u32, Vec<usize>>, k: u32, idx: usize)
    ensures
        final(m)@ == old(m)@.insert(
            k,
            final(m)@[k],
        ),
        final(m)@[k]@ == (if old(m)@.contains_key(k) {
            old(m)@[k]@
        } else {
            Seq::<usize>::empty()
        }).push(idx),
{
    let mut bucket = match m.remove(&k) {
        Some(b) => b,
        None => Vec::new(),
    };
    bucket.push(idx);
    m.insert(k, bucket);
}

proof fn lemma_length_index_push(
    m: Map<usize, Vec<usize>>,
    ws: Seq<Seq<char>>,
    w: Seq<char>,
    m2: Map<usize, Vec<usize>>,
)
    requires
        length_index_wf(m, ws),
        ws.len() < usize::MAX,
        m2 == m.insert(length_key(w), m2[length_key(w)]),
        m2[length_key(w)]@ == (if m.contains_key(length_key(w)) {
            m[length_key(w)]@
        } else {
            Seq::<usize>::empty()
        }).push(ws.len() as usize),
    ensures
        length_index_wf(m2, ws.push(w)),
{
    let ws2 = ws.push(w);
    let k0 = length_key(w);
    let n = ws.len();
    assert forall|k: usize| #[trigger] m2.contains_key(k) implies increasing_below(m2[k]@, ws2.len()) by {
        if k != k0 {
            assert(m.contains_key(k));
        } else {
            let b = m2[k]@;
            if m.contains_key(k) {
                assert(increasing_below(m[k]@, n));
                assert forall|s: int, t: int| 0 <= s < t < b.len() implies #[trigger] b[s] < #[trigger] b[t] by {
                    if t < b.len() - 1 {
                        assert(b[s] == m[k]@[s] && b[t] == m[k]@[t]);
                    } else {
                        assert(b[s] == m[k]@[s]);
                    }
                }
                assert forall|t: int| 0 <= t < b.len() implies (#[trigger] b[t] as int) < ws2.len() by {
                    if t < b.len() - 1 {
                        assert(b[t] == m[k]@[t]);
                    }
                }
            }
        }
    }
    assert forall|k: usize, t: int|
        m2.contains_key(k) && 0 <= t < m2[k]@.len() implies length_key(ws2[#[trigger] m2[k]@[t] as int]) == k by {
        if k != k0 {
            assert(m2[k] == m[k]);
            assert(m.contains_key(k));
            assert(increasing_below(m[k]@, n));
            assert((m[k]@[t] as int) < n);
            assert(ws2[m[k]@[t] as int] == ws[m[k]@[t] as int]);
        } else if m.contains_key(k) && t < m[k]@.len() {
            assert(increasing_below(m[k]@, n));
            assert(m2[k]@[t] == m[k]@[t]);
            assert((m[k]@[t] as int) < n);
            assert(ws2[m[k]@[t] as int] == ws[m[k]@[t] as int]);
        } else {
            assert(m2[k]@[t] == n as usize);
        }
    }
    assert forall|i: int| 0 <= i < ws2.len() implies m2.contains_key(#[trigger] length_key(ws2[i])) && m2[length_key(ws2[i])]@.contains(i as usize) by {
        if i < n {
            assert(ws2[i] == ws[i]);
            assert(m.contains_key(length_key(ws[i])));
            let k = length_key(ws[i]);
            let s = choose|s: int| 0 <= s < m[k]@.len() && m[k]@[s] == i as usize;
            if k == k0 {
                assert(m2[k]@[s] == i as usize);
            }
        } else {
            assert(ws2[i] == w);
            assert(m2[k0]@[m2[k0]@.len() - 1] == n as usize);
        }
    }
}

proof fn lemma_first_char_index_push(
    m: Map<u32, Vec<usize>>,
    ws: Seq<Seq<char>>,
    w: Seq<char>,
    m2: Map<u32, Vec<usize>>,
)
    requires
        first_char_index_wf(m, ws),
        ws.len() < usize::MAX,
        m2 == m.insert(first_char_key(w), m2[first_char_key(w)]),
        m2[first_char_key(w)]@ == (if m.contains_key(first_char_key(w)) {
            m[first_char_key(w)]@
        } else {
            Seq::<usize>::empty()
        }).push(ws.len() as usize),
    ensures
        first_char_index_wf(m2, ws.push(w)),
{
    let ws2 = ws.push(w);
    let k0 = first_char_key(w);
    let n = ws.len();
    assert forall|k: u32| #[trigger] m2.contains_key(k) implies increasing_below(m2[k]@, ws2.len()) by {
        if k != k0 {
            assert(m.contains_key(k));
        } else {
            let b = m2[k]@;
            if m.contains_key(k) {
                assert(increasing_below(m[k]@, n));
                assert forall|s: int, t: int| 0 <= s < t < b.len() implies #[trigger] b[s] < #[trigger] b[t] by {
                    if t < b.len() - 1 {
                        assert(b[s] == m[k]@[s] && b[t] == m[k]@[t]);
                    } else {
                        assert(b[s] == m[k]@[s]);
                    }
                }
                assert forall|t: int| 0 <= t < b.len() implies (#[trigger] b[t] as int) < ws2.len() by {
                    if t < b.len() - 1 {
                        assert(b[t] == m[k]@[t]);
                    }
                }
            }
        }
    }
    assert forall|k: u32, t: int|
        m2.contains_key(k) && 0 <= t < m2[k]@.len() implies first_char_key(ws2[#[trigger] m2[k]@[t] as int]) == k by {
        if k != k0 {
            assert(m2[k] == m[k]);
            assert(m.contains_key(k));
            assert(increasing_below(m[k]@, n));
            assert((m[k]@[t] as int) < n);
            assert(ws2[m[k]@[t] as int] == ws[m[k]@[t] as int]);
        } else if m.contains_key(k) && t < m[k]@.len() {
            assert(increasing_below(m[k]@, n));
            assert(m2[k]@[t] == m[k]@[t]);
            assert((m[k]@[t] as int) < n);
            assert(ws2[m[k]@[t] as int] == ws[m[k]@[t] as int]);
        } else {
            assert(m2[k]@[t] == n as usize);
        }
    }
    assert forall|i: int| 0 <= i < ws2.len() implies m2.contains_key(#[trigger] first_char_key(ws2[i])) && m2[first_char_key(ws2[i])]@.contains(i as usize) by {
        if i < n {
            assert(ws2[i] == ws[i]);
            assert(m.contains_key(first_char_key(ws[i])));
            let k = first_char_key(ws[i]);
            let s = choose|s: int| 0 <= s < m[k]@.len() && m[k]@[s] == i as usize;
            if k == k0 {
                assert(m2[k]@[s] == i as usize);
            }
        } else {
            assert(ws2[i] == w);
            assert(m2[k0]@[m2[k0]@.len() - 1] == n as usize);
        }
    }
}

/// `best` is the best-ranked candidate among the word positions that `seen` marks, or
/// `None` when `seen` marks no candidate.
pub open spec fn best_among(
    ws: Seq<Seq<char>>,
    q: Seq<char>,
    max_distance: nat,
    best: Option<MatchCandidate>,
    seen: spec_fn(int) -> bool,
) -> bool {
    match best {
        None => forall|j: int| #[trigger] is_candidate(ws, q, max_distance, j) ==> !seen(j),
        Some(c) => {
            &&& is_candidate(ws, q, max_distance, c.index as int)
            &&& seen(c.index as int)
            &&& c.key() == candidate_key(ws, q, c.index as int)
            &&& forall|j: int|
                #[trigger] is_candidate(ws, q, max_distance, j) && seen(j) && j != c.index ==> key_precedes(
                    c.key(),
                    candidate_key(ws, q, j),
                )
        },
    }
}

pub proof fn lemma_best_candidate_unique(ws: Seq<Seq<char>>, q: Seq<char>, max_distance: nat, i: int, j: int)
    requires
        is_best_candidate(ws, q, max_distance, i),
        is_best_candidate(ws, q, max_distance, j),
    ensures
        i == j,
{
    if i != j {
        assert(is_candidate(ws, q, max_distance, j));
        assert(is_candidate(ws, q, max_distance, i));
        lemma_key_precedes_strict(candidate_key(ws, q, i), candidate_key(ws, q, j));
    }
}

/// The first of the ranked matches of a query is its single best match, and there are no
/// ranked matches exactly when there is no best match (for queries of three bytes or more
/// and a limit of at least one, over a vocabulary without repeated words).
pub proof fn lemma_first_ranked_is_best(ws: Seq<Seq<char>>, q: Seq<char>, max_distance: nat, limit: nat, out: Seq<Seq<char>>)
    requires
        byte_len(q) >= 3,
        limit >= 1,
        forall|i: int, j: int| 0 <= i < j < ws.len() ==> #[trigger] ws[i] != #[trigger] ws[j],
        is_ranked_matches(ws, q, max_distance, limit, out),
    ensures
        out.len() > 0 ==> best_match(ws, q, max_distance) == Some(out[0]),
        out.len() == 0 ==> best_match(ws, q, max_distance) is None,
{
    let idx = choose|idx: Seq<int>|
        #[trigger] ranked_positions(ws, q, max_distance, limit, idx) && out.len() == idx.len() && forall|k: int|
            0 <= k < idx.len() ==> out[k] == ws[#[trigger] idx[k]];
    if ws.contains(q) {
        let p = choose|p: int| 0 <= p < ws.len() && ws[p] == q;
        lemma_edit_distance_zero_iff_equal(q, ws[p]);
        assert(is_candidate(ws, q, max_distance, p));
        if !idx.contains(p) {
            assert(idx.len() == limit);
        }
        assert(idx.len() > 0);
        let i0 = idx[0];
        assert(is_candidate(ws, q, max_distance, i0));
        if i0 != p {
            if idx.contains(p) {
                let k = choose|k: int| 0 <= k < idx.len() && idx[k] == p;
                assert(k != 0);
                assert(key_precedes(candidate_key(ws, q, idx[0]), candidate_key(ws, q, idx[k])));
            } else {
                assert(key_precedes(candidate_key(ws, q, idx[0]), candidate_key(ws, q, p)));
            }
            lemma_edit_distance_zero_iff_equal(q, ws[i0]);
            assert(ws[i0] == q);
            assert(false);
        }
        assert(out[0] == ws[idx[0]]);
    } else if idx.len() == 0 {
        if exists|i: int| is_best_candidate(ws, q, max_distance, i) {
            let i = choose|i: int| is_best_candidate(ws, q, max_distance, i);
            assert(is_candidate(ws, q, max_distance, i));
            assert(!idx.contains(i));
        }
    } else {
        let i0 = idx[0];
        assert forall|j: int|
            #![trigger is_candidate(ws, q, max_distance, j)]
            is_candidate(ws, q, max_distance, j) && j != i0 implies key_precedes(
                candidate_key(ws, q, i0),
                candidate_key(ws, q, j),
            ) by {
            if idx.contains(j) {
                let k = choose|k: int| 0 <= k < idx.len() && idx[k] == j;
                assert(k != 0);
                assert(key_precedes(candidate_key(ws, q, idx[0]), candidate_key(ws, q, idx[k])));
            } else {
                assert(key_precedes(candidate_key(ws, q, idx[0]), candidate_key(ws, q, j)));
            }
        }
        assert(is_best_candidate(ws, q, max_distance, i0));
        let c = choose|i: int| is_best_candidate(ws, q, max_distance, i);
        lemma_best_candidate_unique(ws, q, max_distance, i0, c);
        assert(out[0] == ws[idx[0]]);
    }
}

proof fn lemma_seen_before(ws: Seq<Seq<char>>, len: usize, prior: spec_fn(int) -> bool, b: Seq<usize>, t: int, j: int)
    requires
        0 <= t < b.len(),
        ws.len() <= usize::MAX,
        j != b[t] as int,
        prior(j) || (0 <= j < ws.len() && length_key(ws[j]) == len && b.take(t + 1).contains(j as usize)),
    ensures
        prior(j) || (0 <= j < ws.len() && length_key(ws[j]) == len && b.take(t).contains(j as usize)),
{
    if !prior(j) {
        let bt = b.take(t + 1);
        let s = choose|s: int| 0 <= s < bt.len() && bt[s] == j as usize;
        if s < t {
            assert(b.take(t)[s] == j as usize);
        } else {
            assert(b[t] == j as usize);
        }
    }
}

proof fn lemma_seen_after(ws: Seq<Seq<char>>, len: usize, prior: spec_fn(int) -> bool, b: Seq<usize>, t: int, j: int)
    requires
        0 <= t < b.len(),
        prior(j) || (0 <= j < ws.len() && length_key(ws[j]) == len && b.take(t).contains(j as usize)),
    ensures
        prior(j) || (0 <= j < ws.len() && length_key(ws[j]) == len && b.take(t + 1).contains(j as usize)),
{
    if !prior(j) {
        let bt = b.take(t);
        let s = choose|s: int| 0 <= s < bt.len() && bt[s] == j as usize;
        assert(b.take(t + 1)[s] == j as usize);
    }
}

/// `cs` lists, best-ranked first, exactly the candidates that `seen` marks, each with its key.
pub open spec fn ranked_among(
    ws: Seq<Seq<char>>,
    q: Seq<char>,
    max_distance: nat,
    cs: Seq<MatchCandidate>,
    seen: spec_fn(int) -> bool,
) -> bool {
    &&& forall|k: int|
        0 <= k < cs.len() ==> is_candidate(ws, q, max_distance, #[trigger] cs[k].index as int) && seen(
            cs[k].index as int,
        ) && cs[k].key() == candidate_key(ws, q, cs[k].index as int)
    &&& forall|s: int, t: int| 0 <= s < t < cs.len() ==> key_precedes(#[trigger] cs[s].key(), #[trigger] cs[t].key())
    &&& forall|j: int|
        #[trigger] is_candidate(ws, q, max_distance, j) && seen(j) ==> exists|k: int|
            0 <= k < cs.len() && #[trigger] cs[k].index == j
}

/// `idx` are the positions of the best-ranked candidates, best first, at most `limit` of
/// them, and every candidate left out ranks after all of them (and is left out only
/// because `limit` were already chosen).
pub open spec fn ranked_positions(
    ws: Seq<Seq<char>>,
    q: Seq<char>,
    max_distance: nat,
    limit: nat,
    idx: Seq<int>,
) -> bool {
    &&& idx.len() <= limit
    &&& forall|k: int| 0 <= k < idx.len() ==> is_candidate(ws, q, max_distance, #[trigger] idx[k])
    &&& forall|s: int, t: int|
        0 <= s < t < idx.len() ==> key_precedes(
            candidate_key(ws, q, #[trigger] idx[s]),
            candidate_key(ws, q, #[trigger] idx[t]),
        )
    &&& forall|j: int|
        #[trigger] is_candidate(ws, q, max_distance, j) && !idx.contains(j) ==> idx.len() == limit
            && forall|k: int|
            0 <= k < idx.len() ==> key_precedes(
                candidate_key(ws, q, #[trigger] idx[k]),
                candidate_key(ws, q, j),
            )
}

/// `out` are the words of the best-ranked candidates for `q`, best first, at most `limit`.
pub open spec fn is_ranked_matches(
    ws: Seq<Seq<char>>,
    q: Seq<char>,
    max_distance: nat,
    limit: nat,
    out: Seq<Seq<char>>,
) -> bool {
    exists|idx: Seq<int>|
        #[trigger] ranked_positions(ws, q, max_distance, limit, idx) && out.len() == idx.len()
            && forall|k: int| 0 <= k < idx.len() ==> out[k] == ws[#[trigger] idx[k]]
}

/// Inserts `c` into the strictly ranked list `v`, keeping it strictly ranked.
fn insert_ranked(v: &mut Vec<MatchCandidate>, c: MatchCandidate)
    requires
        forall|s: int, t: int| 0 <= s < t < old(v)@.len() ==> key_precedes(#[trigger] old(v)@[s].key(), #[trigger] old(v)@[t].key()),
        forall|k: int| 0 <= k < old(v)@.len() ==> #[trigger] old(v)@[k].index != c.index,
    ensures
        forall|s: int, t: int| 0 <= s < t < final(v)@.len() ==> key_precedes(#[trigger] final(v)@[s].key(), #[trigger] final(v)@[t].key()),
        final(v)@.len() == old(v)@.len() + 1,
        final(v)@.to_multiset() == old(v)@.push(c).to_multiset(),
        forall|k: int| 0 <= k < final(v)@.len() ==> #[trigger] final(v)@[k] == c || old(v)@.contains(final(v)@[k]),
        forall|k: int| 0 <= k < old(v)@.len() ==> final(v)@.contains(#[trigger] old(v)@[k]),
        final(v)@.contains(c),
{
    let mut pos: usize = 0;
    while pos < v.len() && !c.is_better_than(&v[pos])
        invariant
            pos <= v@.len(),
            forall|k: int| 0 <= k < pos ==> !key_precedes(c.key(), #[trigger] v@[k].key()),
        decreases v@.len() - pos,
    {
        pos = pos + 1;
    }
    let ghost old_v = v@;
    proof {
        assert forall|k: int| 0 <= k < pos implies key_precedes(#[trigger] old_v[k].key(), c.key()) by {
            lemma_key_precedes_strict(old_v[k].key(), c.key());
        }
        if pos < old_v.len() {
            assert forall|k: int| pos <= k < old_v.len() implies key_precedes(c.key(), #[trigger] old_v[k].key()) by {
                if k > pos {
                    lemma_key_precedes_transitive(c.key(), old_v[pos as int].key(), old_v[k].key());
                }
            }
        }
    }
    v.insert(pos, c);
    proof {
        let nv = v@;
        assert(nv =~= old_v.take(pos as int).push(c) + old_v.skip(pos as int));
        assert forall|s: int, t: int| 0 <= s < t < nv.len() implies key_precedes(#[trigger] nv[s].key(), #[trigger] nv[t].key()) by {
            if t < pos {
            } else if t == pos {
                assert(nv[t] == c);
            } else if s < pos {
                assert(nv[t] == old_v[t - 1]);
                lemma_key_precedes_transitive(old_v[s].key(), c.key(), old_v[t - 1].key());
            } else if s == pos {
                assert(nv[t] == old_v[t - 1]);
            } else {
                assert(nv[s] == old_v[s - 1]);
                assert(nv[t] == old_v[t - 1]);
            }
        }
        assert(nv[pos as int] == c);
        assert forall|k: int| 0 <= k < nv.len() implies #[trigger] nv[k] == c || old_v.contains(nv[k]) by {
            if k < pos {
                assert(nv[k] == old_v[k]);
            } else if k > pos {
                assert(nv[k] == old_v[k - 1]);
            }
        }
        assert forall|k: int| 0 <= k < old_v.len() implies nv.contains(#[trigger] old_v[k]) by {
            if k < pos {
                assert(nv[k] == old_v[k]);
            } else {
                assert(nv[k + 1] == old_v[k]);
            }
        }
        vstd::seq_lib::lemma_multiset_commutative(old_v.take(pos as int).push(c), old_v.skip(pos as int));
        assert(old_v =~= old_v.take(pos as int) + old_v.skip(pos as int));
        vstd::seq_lib::lemma_multiset_commutative(old_v.take(pos as int), old_v.skip(pos as int));
        vstd::seq_lib::lemma_multiset_commutative(old_v, seq![c]);
        vstd::seq_lib::lemma_multiset_commutative(old_v.take(pos as int), seq![c]);
        assert(old_v.take(pos as int).push(c) =~= old_v.take(pos as int) + seq![c]);
        assert(old_v.push(c) =~= old_v + seq![c]);
    }
}

/// The set of a sequence with one more item is the set with that item.
proof fn lemma_push_to_set(ws: Seq<Seq<char>>, w: Seq<char>)
    ensures
        ws.push(w).to_set() == ws.to_set().insert(w),
{
    assert forall|x: Seq<char>| #[trigger] ws.push(w).to_set().contains(x) <==> ws.to_set().insert(w).contains(x) by {
        if ws.push(w).contains(x) {
            let k = choose|k: int| 0 <= k < ws.push(w).len() && ws.push(w)[k] == x;
            if k < ws.len() {
                assert(ws[k] == x);
            }
        }
        if ws.contains(x) {
            let k = choose|k: int| 0 <= k < ws.len() && ws[k] == x;
            assert(ws.push(w)[k] == x);
        }
        if x == w {
            assert(ws.push(w)[ws.len() as int] == x);
        }
    }
    assert(ws.push(w).to_set() =~= ws.to_set().insert(w));
}

/// A vocabulary for typo-tolerant word matching: unique lower-case words, the set of them
/// for deduplication, and the words indexed by byte length and by first character.
pub struct Vocabulary {
    words: Vec<String>,
    words_set: StringHashSet,
    by_first_char: HashMap<u32, Vec<usize>>,
    by_length: HashMap<usize, Vec<usize>>,
}

impl View for Vocabulary {
    type V = Seq<Seq<char>>;

    closed spec fn view(&self) -> Seq<Seq<char>> {
        self.words@.map_values(|w: String| w@)
    }
}

impl Default for Vocabulary {
    fn default() -> (r: Self)
        ensures
            r.wf(),
            r@ == Seq::<Seq<char>>::empty(),
    {
        Self::new()
    }
}

impl Clone for Vocabulary {
    /// A copy with the same words, set and indexes.
    fn clone(&self) -> (r: Self)
        ensures
            r@ == self@,
            self.wf() ==> r.wf(),
    {
        let mut words: Vec<String> = Vec::new();
        let mut words_set = StringHashSet::new();
        let mut i: usize = 0;
        while i < self.words.len()
            invariant
                i <= self.words@.len(),
                words@.len() == i,
                forall|k: int| 0 <= k < i ==> #[trigger] words@[k]@ == self.words@[k]@,
                words_set@ == words@.map_values(|w: String| w@).to_set(),
            decreases self.words@.len() - i,
        {
            let w = self.words[i].clone();
            proof {
                lemma_push_to_set(words@.map_values(|w: String| w@), w@);
            }
            let ghost before = words@;
            let ghost wv = w@;
            words_set.insert(w.clone());
            words.push(w);
            assert(words@.map_values(|w: String| w@) =~= before.map_values(|w: String| w@).push(wv));
            i = i + 1;
        }
        let r = Vocabulary {
            words,
            words_set,
            by_first_char: self.by_first_char.clone(),
            by_length: self.by_length.clone(),
        };
        assert(r@ =~= self@);
        r
    }
}

impl Vocabulary {
    /// Every word is at least two bytes long, fits a `String`, occurs once, both indexes
    /// list exactly the positions of the words they key, and the set holds exactly the
    /// words.
    pub closed spec fn wf(&self) -> bool {
        let ws = self@;
        &&& forall|i: int| 0 <= i < ws.len() ==> 2 <= #[trigger] byte_len(ws[i]) <= isize::MAX
        &&& forall|i: int, j: int| 0 <= i < j < ws.len() ==> #[trigger] ws[i] != #[trigger] ws[j]
        &&& length_index_wf(self.by_length@, ws)
        &&& first_char_index_wf(self.by_first_char@, ws)
        &&& self.words_set@ == ws.to_set()
    }

    proof fn lemma_view_index(&self, i: int)
        requires
            0 <= i < self.words@.len(),
        ensures
            self@[i] == self.words@[i]@,
            self@.len() == self.words@.len(),
    {
    }

    /// Creates an empty vocabulary.
    pub fn new() -> (r: Self)
        ensures
            r.wf(),
            r@ == Seq::<Seq<char>>::empty(),
    {
        let r = Vocabulary {
            words: Vec::new(),
            words_set: StringHashSet::new(),
            by_first_char: HashMap::new(),
            by_length: HashMap::new(),
        };
        assert(r@ =~= Seq::<Seq<char>>::empty());
        assert(r@.to_set() =~= Set::<Seq<char>>::empty());
        r
    }

    /// Number of words in the vocabulary.
    pub fn len(&self) -> (r: usize)
        ensures
            r == self@.len(),
    {
        self.words.len()
    }

    /// Whether the vocabulary holds no word.
    pub fn is_empty(&self) -> (r: bool)
        ensures
            r == (self@.len() == 0),
    {
        self.words.len() == 0
    }

    /// Adds a word, lower-cased. Words under two bytes and words already present are
    /// skipped.
    pub fn add_word(&mut self, word: &str)
        requires
            old(self).wf(),
        ensures
            final(self).wf(),
            final(self)@ == add_word_spec(old(self)@, lowercase(word@)),
    {
        let word = to_lowercase(word);
        let len = word.as_str().len();
        if len < 2 {
            return;
        }
        if self.words_set.contains(word.as_str()) {
            assert(self@.to_set().contains(word@));
            return;
        }
        let ghost ws = self@;
        let ghost w = word@;
        let idx = self.words.len();
        proof {
            lemma_chars_le_bytes(w);
            assert(w.len() > 0) by {
                if w.len() == 0 {
                    assert(vstd::utf8::encode_utf8(w) =~= Seq::<u8>::empty());
                }
            }
            assert(self.words@.len() == self.words.len());
        }
        let first = word.as_str().get_char(0);
        push_to_length_bucket(&mut self.by_length, len, idx);
        push_to_first_char_bucket(&mut self.by_first_char, first as u32, idx);
        self.words_set.insert(word.clone());
        self.words.push(word);
        proof {
            assert(self@ =~= ws.push(w));
            lemma_push_to_set(ws, w);
            assert(self.words@.len() == self.words.len());
            lemma_length_index_push(old(self).by_length@, ws, w, self.by_length@);
            lemma_first_char_index_push(old(self).by_first_char@, ws, w, self.by_first_char@);
            assert forall|i: int, j: int| 0 <= i < j < self@.len() implies #[trigger] self@[i] != #[trigger] self@[j] by {
                if j == ws.len() {
                    assert(ws.contains(ws[i]));
                }
            }
            assert forall|i: int| 0 <= i < self@.len() implies 2 <= #[trigger] byte_len(self@[i]) <= isize::MAX by {
                if i < ws.len() {
                    assert(self@[i] == ws[i]);
                }
            }
        }
    }

    /// Adds every word of `text`; words are separated by white space and punctuation (ASCII
    /// punctuation, and the common punctuation beyond it: dashes, quotation marks and the
    /// like).
    pub fn add_text(&mut self, text: &str)
        requires
            old(self).wf(),
        ensures
            final(self).wf(),
            final(self)@ == add_words_spec(old(self)@, tokens(Separators::WhitespaceOrPunctuation, text@)),
    {
        let words = split_tokens(text, Separators::WhitespaceOrPunctuation);
        let ghost ts = tokens(Separators::WhitespaceOrPunctuation, text@);
        let ghost start = self@;
        let mut i: usize = 0;
        assert(ts.take(0) =~= Seq::<Seq<char>>::empty());
        while i < words.len()
            invariant
                self.wf(),
                i <= words@.len(),
                words@.len() == ts.len(),
                forall|k: int| 0 <= k < words@.len() ==> #[trigger] words@[k]@ == ts[k],
                self@ == add_words_spec(start, ts.take(i as int)),
            decreases words@.len() - i,
        {
            self.add_word(words[i]);
            assert(ts.take(i + 1).drop_last() =~= ts.take(i as int));
            assert(ts.take(i + 1).last() == words@[i as int]@);
            i = i + 1;
        }
        assert(ts.take(words@.len() as int) =~= ts);
    }

    /// The byte lengths searched for a query of `query_len` bytes.
    fn candidate_lengths(query_len: usize, max_distance: usize) -> (r: Vec<usize>)
        requires
            query_len + max_distance <= usize::MAX,
        ensures
            r@ == candidate_lengths_spec(query_len as nat, max_distance as nat),
    {
        let mut lengths: Vec<usize> = Vec::new();
        lengths.push(query_len);
        let mut done: usize = 0;
        while done < max_distance
            invariant
                done <= max_distance,
                query_len + max_distance <= usize::MAX,
                lengths@ == candidate_lengths_spec(query_len as nat, done as nat),
            decreases max_distance - done,
        {
            let offset = done + 1;
            if query_len >= offset {
                lengths.push(query_len - offset);
            }
            lengths.push(query_len + offset);
            proof {
                let below: Seq<usize> = if query_len >= offset {
                    seq![(query_len - offset) as usize]
                } else {
                    seq![]
                };
                assert(candidate_lengths_spec(query_len as nat, offset as nat) =~= candidate_lengths_spec(
                    query_len as nat,
                    done as nat,
                ) + below + seq![(query_len + offset) as usize]);
            }
            done = offset;
        }
        lengths
    }

    /// Finds the vocabulary word that best matches `query` (lower-cased) within
    /// `max_distance` edits: the word itself when present, else the best-ranked candidate
    /// (see [`best_match`]). Queries under three bytes are never corrected.
    pub fn find_best_match(&self, query: &str, max_distance: usize) -> (r: Option<&str>)
        requires
            self.wf(),
            max_distance <= isize::MAX,
        ensures
            match r {
                Some(w) => best_match(self@, lowercase(query@), max_distance as nat) == Some(w@),
                None => best_match(self@, lowercase(query@), max_distance as nat) is None,
            },
    {
        let lowered = to_lowercase(query);
        let q = lowered.as_str();
        let ghost ws = self@;
        let ghost qv = q@;
        let ghost m = max_distance as nat;
        let query_len = q.len();
        if query_len < 3 {
            return None;
        }
        if let Some(found) = self.words_set.get(q) {
            proof {
                assert(ws.to_set().contains(qv));
                assert(ws.contains(qv));
            }
            return Some(found.as_str());
        }
        let lengths = Self::candidate_lengths(query_len, max_distance);
        proof {
            lemma_candidate_lengths(query_len as nat, max_distance as nat);
            assert(lengths@.take(0) =~= Seq::<usize>::empty());
            assert(self.words@.len() == self.words.len());
        }
        let mut best: Option<MatchCandidate> = None;
        let mut p: usize = 0;
        while p < lengths.len()
            invariant
                self.wf(),
                ws == self@,
                qv == q@,
                m == max_distance as nat,
                ws.len() <= usize::MAX,
                byte_len(qv) <= isize::MAX,
                query_len == byte_len(qv),
                lengths@ == candidate_lengths_spec(query_len as nat, m),
                forall|l: usize| #[trigger] lengths@.contains(l) <==> abs_diff(l as nat, query_len as nat) <= m,
                forall|s: int, t: int| 0 <= s < t < lengths@.len() ==> lengths@[s] != lengths@[t],
                p <= lengths@.len(),
                best_among(ws, qv, m, best, |j: int| 0 <= j < ws.len() && lengths@.take(p as int).contains(length_key(ws[j]))),
            decreases lengths@.len() - p,
        {
            let len = lengths[p];
            let ghost prior = |j: int| 0 <= j < ws.len() && lengths@.take(p as int).contains(length_key(ws[j]));
            let ghost next = |j: int| 0 <= j < ws.len() && lengths@.take(p + 1).contains(length_key(ws[j]));
            let ghost merged = |j: int| prior(j) || (0 <= j < ws.len() && length_key(ws[j]) == len);
            proof {
                assert(lengths@.take(p + 1) =~= lengths@.take(p as int).push(len));
                assert(lengths@.contains(len));
                assert forall|j: int| 0 <= j < ws.len() && #[trigger] prior(j) implies length_key(ws[j]) != len by {
                    let tp = lengths@.take(p as int);
                    let s = choose|s: int| 0 <= s < tp.len() && tp[s] == length_key(ws[j]);
                    assert(lengths@[s] != lengths@[p as int]);
                }
                assert forall|j: int| #[trigger] merged(j) == next(j) by {
                    if 0 <= j < ws.len() && length_key(ws[j]) == len {
                        assert(lengths@.take(p + 1)[p as int] == len);
                    }
                    if next(j) && !prior(j) {
                        let tp = lengths@.take(p + 1);
                        let s = choose|s: int| 0 <= s < tp.len() && tp[s] == length_key(ws[j]);
                        if s < p {
                            assert(lengths@.take(p as int)[s] == tp[s]);
                        }
                    }
                }
            }
            match self.by_length.get(&len) {
                None => {
                    proof {
                        assert forall|j: int| 0 <= j < ws.len() implies #[trigger] length_key(ws[j]) != len by {
                            assert(self.by_length@.contains_key(length_key(ws[j])));
                        }
                        assert forall|j: int| #[trigger] prior(j) == next(j) by {
                            assert(merged(j) == next(j));
                        }
                        assert(best_among(ws, qv, m, best, next));
                    }
                },
                Some(bucket) => {
                    best = self.scan_bucket(q, max_distance, len, bucket, best, Ghost(prior));
                    proof {
                        assert(best_among(ws, qv, m, best, merged));
                        assert forall|j: int| #[trigger] merged(j) == next(j) by {}
                        assert(best_among(ws, qv, m, best, next));
                    }
                },
            }
            p = p + 1;
        }
        proof {
            assert(lengths@.take(lengths@.len() as int) =~= lengths@);
            assert(!ws.contains(qv));
            assert forall|j: int| #[trigger] is_candidate(ws, qv, m, j) implies lengths@.contains(length_key(ws[j])) by {
                assert(2 <= byte_len(ws[j]) <= isize::MAX);
            }
        }
        match best {
            None => {
                proof {
                    if exists|i: int| is_best_candidate(ws, qv, m, i) {
                        let i = choose|i: int| is_best_candidate(ws, qv, m, i);
                        assert(is_candidate(ws, qv, m, i));
                        assert(lengths@.contains(length_key(ws[i])));
                    }
                }
                None
            },
            Some(c) => {
                proof {
                    assert forall|j: int|
                        #![trigger is_candidate(ws, qv, m, j)]
                        is_candidate(ws, qv, m, j) && j != c.index implies key_precedes(
                            candidate_key(ws, qv, c.index as int),
                            candidate_key(ws, qv, j),
                        ) by {
                        assert(lengths@.contains(length_key(ws[j])));
                    }
                    assert(is_best_candidate(ws, qv, m, c.index as int));
                    let i = choose|i: int| is_best_candidate(ws, qv, m, i);
                    lemma_best_candidate_unique(ws, qv, m, i, c.index as int);
                    self.lemma_view_index(c.index as int);
                }
                Some(self.words[c.index].as_str())
            },
        }
    }

    /// Lists up to `limit` vocabulary words within `max_distance` edits of `query`
    /// (lower-cased), best-ranked first (see [`is_ranked_matches`]). Queries under three
    /// bytes, and a zero `limit`, give nothing.
    pub fn find_best_matches(&self, query: &str, max_distance: usize, limit: usize) -> (r: Vec<&str>)
        requires
            self.wf(),
            max_distance <= isize::MAX,
        ensures
            limit == 0 || byte_len(lowercase(query@)) < 3 ==> r@.len() == 0,
            limit > 0 && byte_len(lowercase(query@)) >= 3 ==> is_ranked_matches(
                self@,
                lowercase(query@),
                max_distance as nat,
                limit as nat,
                r@.map_values(|w: &str| w@),
            ),
    {
        if limit == 0 {
            return Vec::new();
        }
        let lowered = to_lowercase(query);
        let q = lowered.as_str();
        let ghost ws = self@;
        let ghost qv = q@;
        let ghost m = max_distance as nat;
        let query_len = q.len();
        if query_len < 3 {
            return Vec::new();
        }
        let lengths = Self::candidate_lengths(query_len, max_distance);
        proof {
            lemma_candidate_lengths(query_len as nat, max_distance as nat);
            assert(lengths@.take(0) =~= Seq::<usize>::empty());
            assert(self.words@.len() == self.words.len());
        }
        let mut ranked: Vec<MatchCandidate> = Vec::new();
        let mut p: usize = 0;
        while p < lengths.len()
            invariant
                self.wf(),
                ws == self@,
                qv == q@,
                m == max_distance as nat,
                ws.len() <= usize::MAX,
                byte_len(qv) <= isize::MAX,
                query_len == byte_len(qv),
                lengths@ == candidate_lengths_spec(query_len as nat, m),
                forall|l: usize| #[trigger] lengths@.contains(l) <==> abs_diff(l as nat, query_len as nat) <= m,
                forall|s: int, t: int| 0 <= s < t < lengths@.len() ==> lengths@[s] != lengths@[t],
                p <= lengths@.len(),
                ranked_among(ws, qv, m, ranked@, |j: int| 0 <= j < ws.len() && lengths@.take(p as int).contains(length_key(ws[j]))),
            decreases lengths@.len() - p,
        {
            let len = lengths[p];
            let ghost prior = |j: int| 0 <= j < ws.len() && lengths@.take(p as int).contains(length_key(ws[j]));
            let ghost next = |j: int| 0 <= j < ws.len() && lengths@.take(p + 1).contains(length_key(ws[j]));
            let ghost merged = |j: int| prior(j) || (0 <= j < ws.len() && length_key(ws[j]) == len);
            proof {
                assert(lengths@.take(p + 1) =~= lengths@.take(p as int).push(len));
                assert(lengths@.contains(len));
                assert forall|j: int| 0 <= j < ws.len() && #[trigger] prior(j) implies length_key(ws[j]) != len by {
                    let tp = lengths@.take(p as int);
                    let s = choose|s: int| 0 <= s < tp.len() && tp[s] == length_key(ws[j]);
                    assert(lengths@[s] != lengths@[p as int]);
                }
                assert forall|j: int| #[trigger] merged(j) == next(j) by {
                    if 0 <= j < ws.len() && length_key(ws[j]) == len {
                        assert(lengths@.take(p + 1)[p as int] == len);
                    }
                    if next(j) && !prior(j) {
                        let tp = lengths@.take(p + 1);
                        let s = choose|s: int| 0 <= s < tp.len() && tp[s] == length_key(ws[j]);
                        if s < p {
                            assert(lengths@.take(p as int)[s] == tp[s]);
                        }
                    }
                }
            }
            match self.by_length.get(&len) {
                None => {
                    proof {
                        assert forall|j: int| 0 <= j < ws.len() implies #[trigger] length_key(ws[j]) != len by {
                            assert(self.by_length@.contains_key(length_key(ws[j])));
                        }
                        assert forall|j: int| #[trigger] prior(j) == next(j) by {
                            assert(merged(j) == next(j));
                        }
                        assert(ranked_among(ws, qv, m, ranked@, next));
                    }
                },
                Some(bucket) => {
                    self.collect_bucket(q, max_distance, len, bucket, &mut ranked, Ghost(prior));
                    proof {
                        assert(ranked_among(ws, qv, m, ranked@, merged));
                        assert forall|j: int| #[trigger] merged(j) == next(j) by {}
                        assert(ranked_among(ws, qv, m, ranked@, next));
                    }
                },
            }
            p = p + 1;
        }
        proof {
            assert(lengths@.take(lengths@.len() as int) =~= lengths@);
            assert forall|j: int| #[trigger] is_candidate(ws, qv, m, j) implies lengths@.contains(length_key(ws[j])) by {
                assert(2 <= byte_len(ws[j]) <= isize::MAX);
            }
        }
        let mut out: Vec<&str> = Vec::new();
        let mut k: usize = 0;
        while k < ranked.len() && k < limit
            invariant
                self.wf(),
                ws == self@,
                k <= ranked@.len(),
                k <= limit,
                out@.len() == k,
                forall|s: int| 0 <= s < k ==> (#[trigger] ranked@[s].index as int) < ws.len(),
                forall|s: int| 0 <= s < k ==> #[trigger] out@[s]@ == ws[ranked@[s].index as int],
                forall|s: int| 0 <= s < ranked@.len() ==> is_candidate(ws, qv, m, #[trigger] ranked@[s].index as int),
            decreases ranked@.len() - k,
        {
            let idx = ranked[k].index;
            proof {
                assert(is_candidate(ws, qv, m, ranked@[k as int].index as int));
                self.lemma_view_index(idx as int);
            }
            out.push(self.words[idx].as_str());
            k = k + 1;
        }
        proof {
            let idx = ranked@.take(k as int).map_values(|c: MatchCandidate| c.index as int);
            let outv = out@.map_values(|w: &str| w@);
            assert forall|s: int, t: int| 0 <= s < t < idx.len() implies key_precedes(
                candidate_key(ws, qv, #[trigger] idx[s]),
                candidate_key(ws, qv, #[trigger] idx[t]),
            ) by {
                assert(key_precedes(ranked@[s].key(), ranked@[t].key()));
            }
            assert forall|j: int| #[trigger] is_candidate(ws, qv, m, j) && !idx.contains(j) implies idx.len() == limit
                && forall|kk: int|
                0 <= kk < idx.len() ==> key_precedes(
                    candidate_key(ws, qv, #[trigger] idx[kk]),
                    candidate_key(ws, qv, j),
                ) by {
                let pos = choose|pos: int| 0 <= pos < ranked@.len() && #[trigger] ranked@[pos].index == j;
                if pos < k {
                    assert(idx[pos] == j);
                }
                assert forall|kk: int| 0 <= kk < idx.len() implies key_precedes(
                    candidate_key(ws, qv, #[trigger] idx[kk]),
                    candidate_key(ws, qv, j),
                ) by {
                    assert(key_precedes(ranked@[kk].key(), ranked@[pos].key()));
                }
            }
            assert forall|s: int| 0 <= s < idx.len() implies is_candidate(ws, qv, m, #[trigger] idx[s]) by {
                assert(is_candidate(ws, qv, m, ranked@[s].index as int));
            }
            assert(ranked_positions(ws, qv, m, limit as nat, idx));
            assert forall|s: int| 0 <= s < idx.len() implies outv[s] == ws[#[trigger] idx[s]] by {}
        }
        out
    }

    /// Replaces each white-space-separated word of `query` by its best match (see
    /// [`corrected_word`]) and joins the words with single spaces.
    pub fn correct_query(&self, query: &str, max_distance: usize) -> (r: String)
        requires
            self.wf(),
            max_distance <= isize::MAX,
        ensures
            r@ == corrected_query(self@, query@, max_distance as nat),
    {
        let words = split_tokens(query, Separators::Whitespace);
        let ghost ts = tokens(Separators::Whitespace, query@);
        let ghost target = ts.map_values(|t: Seq<char>| corrected_word(self@, t, max_distance as nat));
        let mut parts: Vec<String> = Vec::new();
        let mut i: usize = 0;
        while i < words.len()
            invariant
                self.wf(),
                max_distance <= isize::MAX,
                i <= words@.len(),
                words@.len() == ts.len(),
                target == ts.map_values(|t: Seq<char>| corrected_word(self@, t, max_distance as nat)),
                forall|k: int| 0 <= k < words@.len() ==> #[trigger] words@[k]@ == ts[k],
                parts@.len() == i,
                forall|k: int| 0 <= k < i ==> #[trigger] parts@[k]@ == target[k],
            decreases words@.len() - i,
        {
            let word = words[i];
            let replacement = match self.find_best_match(word, max_distance) {
                Some(m) => m.to_owned(),
                None => word.to_owned(),
            };
            parts.push(replacement);
            i = i + 1;
        }
        proof {
            assert(parts@.map_values(|p: String| p@) =~= target);
        }
        join_with_space(&parts)
    }

    /// Adds the candidates of one length bucket to the ranked list.
    fn collect_bucket(
        &self,
        q: &str,
        max_distance: usize,
        len: usize,
        bucket: &Vec<usize>,
        ranked: &mut Vec<MatchCandidate>,
        Ghost(prior): Ghost<spec_fn(int) -> bool>,
    )
        requires
            self.wf(),
            byte_len(q@) <= isize::MAX,
            self.by_length@.contains_key(len),
            *bucket == self.by_length@[len],
            abs_diff(len as nat, byte_len(q@)) <= max_distance,
            ranked_among(self@, q@, max_distance as nat, old(ranked)@, prior),
            forall|j: int| 0 <= j < self@.len() && #[trigger] prior(j) ==> length_key(self@[j]) != len,
        ensures
            ranked_among(
                self@,
                q@,
                max_distance as nat,
                final(ranked)@,
                |j: int| prior(j) || (0 <= j < self@.len() && length_key(self@[j]) == len),
            ),
    {
        let ghost ws = self@;
        let ghost qv = q@;
        let ghost m = max_distance as nat;
        let mut t: usize = 0;
        proof {
            lemma_chars_le_bytes(qv);
            assert(self.words@.len() == self.words.len());
            assert(bucket@.take(0) =~= Seq::<usize>::empty());
        }
        while t < bucket.len()
            invariant
                self.wf(),
                ws == self@,
                qv == q@,
                m == max_distance as nat,
                qv.len() < usize::MAX,
                ws.len() <= usize::MAX,
                byte_len(qv) <= isize::MAX,
                self.by_length@.contains_key(len),
                *bucket == self.by_length@[len],
                abs_diff(len as nat, byte_len(qv)) <= m,
                t <= bucket@.len(),
                forall|j: int| 0 <= j < ws.len() && #[trigger] prior(j) ==> length_key(ws[j]) != len,
                ranked_among(
                    ws,
                    qv,
                    m,
                    ranked@,
                    |j: int| prior(j) || (0 <= j < ws.len() && length_key(ws[j]) == len && bucket@.take(t as int).contains(j as usize)),
                ),
            decreases bucket@.len() - t,
        {
            let idx = bucket[t];
            let ghost before = |j: int| prior(j) || (0 <= j < ws.len() && length_key(ws[j]) == len && bucket@.take(t as int).contains(j as usize));
            let ghost after = |j: int| prior(j) || (0 <= j < ws.len() && length_key(ws[j]) == len && bucket@.take(t + 1).contains(j as usize));
            let ghost old_ranked = ranked@;
            proof {
                assert(increasing_below(bucket@, ws.len()));
                assert(length_key(ws[idx as int]) == len);
                self.lemma_view_index(idx as int);
                lemma_chars_le_bytes(ws[idx as int]);
                assert(bucket@.take(t + 1) =~= bucket@.take(t as int).push(idx));
                assert(!bucket@.take(t as int).contains(idx)) by {
                    if bucket@.take(t as int).contains(idx) {
                        let s = choose|s: int| 0 <= s < t && bucket@.take(t as int)[s] == idx;
                        assert(bucket@[s] < bucket@[t as int]);
                    }
                }
                assert(!before(idx as int));
                assert(byte_len(ws[idx as int]) == len as nat);
                assert(bucket@.take(t + 1)[t as int] == idx);
                assert(after(idx as int));
                assert forall|k: int| 0 <= k < old_ranked.len() implies after(#[trigger] old_ranked[k].index as int) by {
                    lemma_seen_after(ws, len, prior, bucket@, t as int, old_ranked[k].index as int);
                }
            }
            let word = self.words[idx].as_str();
            let distance = levenshtein_distance(q, word);
            if distance <= max_distance {
                let candidate = MatchCandidate::new(idx, distance, q, word);
                proof {
                    assert(is_candidate(ws, qv, m, idx as int));
                    assert forall|k: int| 0 <= k < old_ranked.len() implies #[trigger] old_ranked[k].index != candidate.index by {
                        assert(before(old_ranked[k].index as int));
                    }
                }
                insert_ranked(ranked, candidate);
                proof {
                    let nr = ranked@;
                    assert forall|k: int| 0 <= k < nr.len() implies is_candidate(ws, qv, m, #[trigger] nr[k].index as int) && after(
                        nr[k].index as int,
                    ) && nr[k].key() == candidate_key(ws, qv, nr[k].index as int) by {
                        if nr[k] != candidate {
                            let s = choose|s: int| 0 <= s < old_ranked.len() && old_ranked[s] == nr[k];
                            assert(after(old_ranked[s].index as int));
                        }
                    }
                    assert forall|j: int| #[trigger] is_candidate(ws, qv, m, j) && after(j) implies exists|k: int|
                        0 <= k < nr.len() && #[trigger] nr[k].index == j by {
                        if j == idx {
                            let k = choose|k: int| 0 <= k < nr.len() && nr[k] == candidate;
                            assert(nr[k].index == j);
                        } else {
                            lemma_seen_before(ws, len, prior, bucket@, t as int, j);
                            let s = choose|s: int| 0 <= s < old_ranked.len() && #[trigger] old_ranked[s].index == j;
                            assert(nr.contains(old_ranked[s]));
                            let k = choose|k: int| 0 <= k < nr.len() && nr[k] == old_ranked[s];
                            assert(nr[k].index == j);
                        }
                    }
                }
            } else {
                proof {
                    assert(!is_candidate(ws, qv, m, idx as int));
                    assert forall|j: int| #[trigger] is_candidate(ws, qv, m, j) && after(j) implies exists|k: int|
                        0 <= k < old_ranked.len() && #[trigger] old_ranked[k].index == j by {
                        lemma_seen_before(ws, len, prior, bucket@, t as int, j);
                    }
                }
            }
            t = t + 1;
            proof {
                assert(ranked_among(ws, qv, m, ranked@, after));
            }
        }
        proof {
            assert(bucket@.take(bucket@.len() as int) =~= bucket@);
            let fin = |j: int| prior(j) || (0 <= j < ws.len() && length_key(ws[j]) == len && bucket@.take(t as int).contains(j as usize));
            let goal = |j: int| prior(j) || (0 <= j < ws.len() && length_key(ws[j]) == len);
            assert forall|j: int| 0 <= j < ws.len() implies #[trigger] fin(j) == goal(j) by {
                if length_key(ws[j]) == len {
                    assert(bucket@.contains(j as usize));
                }
            }
            assert(ranked_among(ws, qv, m, ranked@, goal));
        }
    }

    /// Folds the words of one length bucket into the running best candidate.
    fn scan_bucket(
        &self,
        q: &str,
        max_distance: usize,
        len: usize,
        bucket: &Vec<usize>,
        best: Option<MatchCandidate>,
        Ghost(prior): Ghost<spec_fn(int) -> bool>,
    ) -> (r: Option<MatchCandidate>)
        requires
            self.wf(),
            byte_len(q@) <= isize::MAX,
            self.by_length@.contains_key(len),
            *bucket == self.by_length@[len],
            abs_diff(len as nat, byte_len(q@)) <= max_distance,
            best_among(self@, q@, max_distance as nat, best, prior),
            forall|j: int| 0 <= j < self@.len() && #[trigger] prior(j) ==> length_key(self@[j]) != len,
        ensures
            best_among(
                self@,
                q@,
                max_distance as nat,
                r,
                |j: int| prior(j) || (0 <= j < self@.len() && length_key(self@[j]) == len),
            ),
    {
        let ghost ws = self@;
        let ghost qv = q@;
        let ghost m = max_distance as nat;
        let mut best = best;
        let mut t: usize = 0;
        proof {
            lemma_chars_le_bytes(qv);
            assert(self.words@.len() == self.words.len());
            assert(bucket@.take(0) =~= Seq::<usize>::empty());
        }
        while t < bucket.len()
            invariant
                self.wf(),
                ws == self@,
                qv == q@,
                m == max_distance as nat,
                qv.len() < usize::MAX,
                ws.len() <= usize::MAX,
                byte_len(qv) <= isize::MAX,
                self.by_length@.contains_key(len),
                *bucket == self.by_length@[len],
                abs_diff(len as nat, byte_len(qv)) <= m,
                t <= bucket@.len(),
                forall|j: int| 0 <= j < ws.len() && #[trigger] prior(j) ==> length_key(ws[j]) != len,
                best_among(
                    ws,
                    qv,
                    m,
                    best,
                    |j: int| prior(j) || (0 <= j < ws.len() && length_key(ws[j]) == len && bucket@.take(t as int).contains(j as usize)),
                ),
            decreases bucket@.len() - t,
        {
            let idx = bucket[t];
            let ghost before = |j: int| prior(j) || (0 <= j < ws.len() && length_key(ws[j]) == len && bucket@.take(t as int).contains(j as usize));
            let ghost after = |j: int| prior(j) || (0 <= j < ws.len() && length_key(ws[j]) == len && bucket@.take(t + 1).contains(j as usize));
            proof {
                assert(increasing_below(bucket@, ws.len()));
                assert(length_key(ws[idx as int]) == len);
                self.lemma_view_index(idx as int);
                lemma_chars_le_bytes(ws[idx as int]);
                assert(bucket@.take(t + 1) =~= bucket@.take(t as int).push(idx));
                assert(!bucket@.take(t as int).contains(idx)) by {
                    if bucket@.take(t as int).contains(idx) {
                        let s = choose|s: int| 0 <= s < t && bucket@.take(t as int)[s] == idx;
                        assert(bucket@[s] < bucket@[t as int]);
                    }
                }
                assert(!before(idx as int));
                assert(byte_len(ws[idx as int]) == len as nat);
                assert(bucket@.take(t + 1)[t as int] == idx);
                assert(after(idx as int));
            }
            let word = self.words[idx].as_str();
            let distance = levenshtein_distance(q, word);
            if distance <= max_distance {
                let candidate = MatchCandidate::new(idx, distance, q, word);
                let replace = match best {
                    None => true,
                    Some(b) => candidate.is_better_than(&b),
                };
                proof {
                    assert(is_candidate(ws, qv, m, idx as int));
                    assert(candidate.key() == candidate_key(ws, qv, idx as int));
                    match best {
                        None => {
                            assert forall|j: int|
                                #[trigger] is_candidate(ws, qv, m, j) && after(j) && j != idx implies key_precedes(
                                    candidate.key(),
                                    candidate_key(ws, qv, j),
                                ) by {
                                lemma_seen_before(ws, len, prior, bucket@, t as int, j);
                            }
                        },
                        Some(b) => {
                            lemma_seen_after(ws, len, prior, bucket@, t as int, b.index as int);
                            lemma_key_precedes_strict(candidate.key(), b.key());
                            if replace {
                                assert forall|j: int|
                                    #[trigger] is_candidate(ws, qv, m, j) && after(j) && j != idx implies key_precedes(
                                        candidate.key(),
                                        candidate_key(ws, qv, j),
                                    ) by {
                                    if j != b.index {
                                        lemma_seen_before(ws, len, prior, bucket@, t as int, j);
                                        assert(before(j));
                                        lemma_key_precedes_transitive(candidate.key(), b.key(), candidate_key(ws, qv, j));
                                    }
                                }
                            } else {
                                assert(b.index != idx);
                                assert(key_precedes(b.key(), candidate.key()));
                                assert forall|j: int|
                                    #[trigger] is_candidate(ws, qv, m, j) && after(j) && j != b.index implies key_precedes(
                                        b.key(),
                                        candidate_key(ws, qv, j),
                                    ) by {
                                    if j != idx {
                                        lemma_seen_before(ws, len, prior, bucket@, t as int, j);
                                        assert(before(j));
                                    }
                                }
                            }
                        },
                    }
                }
                if replace {
                    best = Some(candidate);
                }
            } else {
                proof {
                    assert(!is_candidate(ws, qv, m, idx as int));
                    match best {
                        None => {
                            assert forall|j: int| #[trigger] is_candidate(ws, qv, m, j) implies !after(j) by {
                                if j != idx && after(j) {
                                    lemma_seen_before(ws, len, prior, bucket@, t as int, j);
                                }
                            }
                        },
                        Some(b) => {
                            lemma_seen_after(ws, len, prior, bucket@, t as int, b.index as int);
                            assert forall|j: int|
                                #[trigger] is_candidate(ws, qv, m, j) && after(j) && j != b.index implies key_precedes(
                                    b.key(),
                                    candidate_key(ws, qv, j),
                                ) by {
                                if j != idx {
                                    lemma_seen_before(ws, len, prior, bucket@, t as int, j);
                                }
                            }
                        },
                    }
                }
            }
            t = t + 1;
            proof {
                assert(best_among(ws, qv, m, best, after));
            }
        }
        proof {
            assert(bucket@.take(bucket@.len() as int) =~= bucket@);
            let fin = |j: int| prior(j) || (0 <= j < ws.len() && length_key(ws[j]) == len && bucket@.take(t as int).contains(j as usize));
            let goal = |j: int| prior(j) || (0 <= j < ws.len() && length_key(ws[j]) == len);
            assert forall|j: int| 0 <= j < ws.len() implies #[trigger] fin(j) == goal(j) by {
                if length_key(ws[j]) == len {
                    assert(bucket@.contains(j as usize));
                }
            }
            assert(best_among(ws, qv, m, best, goal));
        }
        best
    }
}

} // verus!
