//! How fuzzy-match candidates of a vocabulary lookup are ranked.

use vstd::prelude::*;

use crate::text::byte_len;
use crate::text::chars_of;

verus! {

/// Length of the longest common prefix of `a` and `b`, in characters.
pub open spec fn common_prefix(a: Seq<char>, b: Seq<char>) -> nat
    decreases a.len(),
{
    if a.len() == 0 || b.len() == 0 || a[0] != b[0] {
        0
    } else {
        1 + common_prefix(a.drop_first(), b.drop_first())
    }
}

/// Length of the longest common suffix of `a` and `b`, in characters.
pub open spec fn common_suffix(a: Seq<char>, b: Seq<char>) -> nat
    decreases a.len(),
{
    if a.len() == 0 || b.len() == 0 || a.last() != b.last() {
        0
    } else {
        1 + common_suffix(a.drop_last(), b.drop_last())
    }
}

pub open spec fn abs_diff(x: nat, y: nat) -> nat {
    if x >= y {
        (x - y) as nat
    } else {
        (y - x) as nat
    }
}

/// The ranking key of a candidate: smaller distance first, then a closer byte length,
/// then a longer shared suffix, then a longer shared prefix, then the earlier word.
pub struct MatchKey {
    pub distance: nat,
    pub length_diff: nat,
    pub shared_suffix: nat,
    pub shared_prefix: nat,
    pub index: nat,
}

/// `a` ranks strictly before `b`.
pub open spec fn key_precedes(a: MatchKey, b: MatchKey) -> bool {
    ||| a.distance < b.distance
    ||| a.distance == b.distance && a.length_diff < b.length_diff
    ||| a.distance == b.distance && a.length_diff == b.length_diff && a.shared_suffix > b.shared_suffix
    ||| a.distance == b.distance && a.length_diff == b.length_diff && a.shared_suffix == b.shared_suffix
        && a.shared_prefix > b.shared_prefix
    ||| a.distance == b.distance && a.length_diff == b.length_diff && a.shared_suffix == b.shared_suffix
        && a.shared_prefix == b.shared_prefix && a.index < b.index
}

/// The key of vocabulary word `word` at position `index` when matched against `query`.
pub open spec fn match_key(query: Seq<char>, word: Seq<char>, index: nat, distance: nat) -> MatchKey {
    MatchKey {
        distance,
        length_diff: abs_diff(byte_len(word), byte_len(query)),
        shared_suffix: common_suffix(query, word),
        shared_prefix: common_prefix(query, word),
        index,
    }
}

pub proof fn lemma_key_precedes_strict(a: MatchKey, b: MatchKey)
    ensures
        !(key_precedes(a, b) && key_precedes(b, a)),
        a.index != b.index ==> key_precedes(a, b) || key_precedes(b, a),
        !key_precedes(a, a),
{
}

pub proof fn lemma_key_precedes_transitive(a: MatchKey, b: MatchKey, c: MatchKey)
    requires
        key_precedes(a, b),
        key_precedes(b, c),
    ensures
        key_precedes(a, c),
{
}

/// Of two candidates, the one fewer edits away from the query ranks first, whatever else
/// they differ in.
pub proof fn lemma_fewer_edits_rank_first(a: MatchKey, b: MatchKey)
    requires
        a.distance < b.distance,
    ensures
        key_precedes(a, b),
        !key_precedes(b, a),
{
}

/// Of two candidates equally many edits away, the one whose byte length is closer to the
/// query's ranks first.
pub proof fn lemma_closer_length_ranks_first(a: MatchKey, b: MatchKey)
    requires
        a.distance == b.distance,
        a.length_diff < b.length_diff,
    ensures
        key_precedes(a, b),
        !key_precedes(b, a),
{
}

/// Of two candidates with equal distance and equal byte-length difference, the one that
/// shares the longer suffix with the query ranks strictly first.
pub proof fn lemma_longer_suffix_ranks_first(a: MatchKey, b: MatchKey)
    requires
        a.distance == b.distance,
        a.length_diff == b.length_diff,
        a.shared_suffix > b.shared_suffix,
    ensures
        key_precedes(a, b),
        !key_precedes(b, a),
{
}

/// With distance, byte-length difference and shared suffix equal, the candidate that
/// shares the longer prefix with the query ranks strictly first.
pub proof fn lemma_longer_prefix_ranks_first(a: MatchKey, b: MatchKey)
    requires
        a.distance == b.distance,
        a.length_diff == b.length_diff,
        a.shared_suffix == b.shared_suffix,
        a.shared_prefix > b.shared_prefix,
    ensures
        key_precedes(a, b),
        !key_precedes(b, a),
{
}

/// Candidates that tie on every measure rank by vocabulary position, earlier first.
pub proof fn lemma_earlier_word_breaks_ties(a: MatchKey, b: MatchKey)
    requires
        a.distance == b.distance,
        a.length_diff == b.length_diff,
        a.shared_suffix == b.shared_suffix,
        a.shared_prefix == b.shared_prefix,
        a.index < b.index,
    ensures
        key_precedes(a, b),
        !key_precedes(b, a),
{
}

/// `common_suffix` is the length of the longest common suffix: the last `n` characters
/// agree for every `n` up to it, and the next ones back differ (or one string ran out).
pub proof fn lemma_common_suffix_is_longest(a: Seq<char>, b: Seq<char>)
    ensures
        common_suffix(a, b) <= a.len(),
        common_suffix(a, b) <= b.len(),
        forall|k: int|
            0 <= k < common_suffix(a, b) ==> #[trigger] a[a.len() - 1 - k] == b[b.len() - 1 - k],
        common_suffix(a, b) < a.len() && common_suffix(a, b) < b.len() ==> a[a.len() - 1
            - common_suffix(a, b)] != b[b.len() - 1 - common_suffix(a, b)],
    decreases a.len(),
{
    if a.len() == 0 || b.len() == 0 || a.last() != b.last() {
    } else {
        lemma_common_suffix_is_longest(a.drop_last(), b.drop_last());
        assert forall|k: int| 0 <= k < common_suffix(a, b) implies #[trigger] a[a.len() - 1 - k]
            == b[b.len() - 1 - k] by {
            if k > 0 {
                assert(a.drop_last()[a.drop_last().len() - 1 - (k - 1)] == a[a.len() - 1 - k]);
                assert(b.drop_last()[b.drop_last().len() - 1 - (k - 1)] == b[b.len() - 1 - k]);
            }
        }
        let c = common_suffix(a, b);
        if c < a.len() && c < b.len() {
            assert(a.drop_last()[a.drop_last().len() - 1 - (c - 1)] == a[a.len() - 1 - c]);
            assert(b.drop_last()[b.drop_last().len() - 1 - (c - 1)] == b[b.len() - 1 - c]);
        }
    }
}

/// A word shares all of itself as suffix with itself.
pub proof fn lemma_common_suffix_self(a: Seq<char>)
    ensures
        common_suffix(a, a) == a.len(),
    decreases a.len(),
{
    if a.len() > 0 {
        lemma_common_suffix_self(a.drop_last());
    }
}

proof fn lemma_common_prefix_skip(a: Seq<char>, b: Seq<char>, i: int)
    requires
        0 <= i < a.len(),
        i < b.len(),
        a[i] == b[i],
    ensures
        common_prefix(a.skip(i), b.skip(i)) == 1 + common_prefix(a.skip(i + 1), b.skip(i + 1)),
{
    assert(a.skip(i).drop_first() =~= a.skip(i + 1));
    assert(b.skip(i).drop_first() =~= b.skip(i + 1));
}

/// Number of leading characters that `a` and `b` share.
pub fn common_prefix_len(a: &str, b: &str) -> (r: usize)
    ensures
        r == common_prefix(a@, b@),
{
    let ac = chars_of(a);
    let bc = chars_of(b);
    let mut i: usize = 0;
    assert(a@.skip(0) =~= a@);
    assert(b@.skip(0) =~= b@);
    while i < ac.len() && i < bc.len() && ac[i] == bc[i]
        invariant
            ac@ == a@,
            bc@ == b@,
            i <= a@.len(),
            i <= b@.len(),
            common_prefix(a@, b@) == i + common_prefix(a@.skip(i as int), b@.skip(i as int)),
        decreases a@.len() - i,
    {
        proof {
            lemma_common_prefix_skip(a@, b@, i as int);
        }
        i = i + 1;
    }
    i
}

proof fn lemma_common_suffix_take(a: Seq<char>, b: Seq<char>, i: int)
    requires
        0 <= i < a.len(),
        i < b.len(),
        a[a.len() - 1 - i] == b[b.len() - 1 - i],
    ensures
        common_suffix(a.take(a.len() - i), b.take(b.len() - i)) == 1 + common_suffix(
            a.take(a.len() - i - 1),
            b.take(b.len() - i - 1),
        ),
{
    assert(a.take(a.len() - i).drop_last() =~= a.take(a.len() - i - 1));
    assert(b.take(b.len() - i).drop_last() =~= b.take(b.len() - i - 1));
}

/// Number of trailing characters that `a` and `b` share.
pub fn common_suffix_len(a: &str, b: &str) -> (r: usize)
    ensures
        r == common_suffix(a@, b@),
{
    let ac = chars_of(a);
    let bc = chars_of(b);
    let n = ac.len();
    let m = bc.len();
    let mut i: usize = 0;
    assert(a@.take(n as int) =~= a@);
    assert(b@.take(m as int) =~= b@);
    while i < n && i < m && ac[n - 1 - i] == bc[m - 1 - i]
        invariant
            ac@ == a@,
            bc@ == b@,
            n == a@.len(),
            m == b@.len(),
            i <= n,
            i <= m,
            common_suffix(a@, b@) == i + common_suffix(
                a@.take(n - i),
                b@.take(m - i),
            ),
        decreases n - i,
    {
        proof {
            lemma_common_suffix_take(a@, b@, i as int);
        }
        i = i + 1;
    }
    i
}

/// A vocabulary word within the allowed distance of a query, with its ranking data.
#[derive(Clone, Copy)]
pub struct MatchCandidate {
    pub index: usize,
    pub distance: usize,
    pub length_diff: usize,
    pub shared_suffix: usize,
    pub shared_prefix: usize,
}

impl MatchCandidate {
    pub open spec fn key(self) -> MatchKey {
        MatchKey {
            distance: self.distance as nat,
            length_diff: self.length_diff as nat,
            shared_suffix: self.shared_suffix as nat,
            shared_prefix: self.shared_prefix as nat,
            index: self.index as nat,
        }
    }

    /// The candidate for the word at `index`, `distance` edits away from `query`.
    pub fn new(index: usize, distance: usize, query: &str, word: &str) -> (r: Self)
        requires
            byte_len(query@) <= usize::MAX,
            byte_len(word@) <= usize::MAX,
        ensures
            r.key() == match_key(query@, word@, index as nat, distance as nat),
            r.index == index,
    {
        let wl = word.len();
        let ql = query.len();
        let length_diff = if wl >= ql {
            wl - ql
        } else {
            ql - wl
        };
        let c = MatchCandidate {
            index,
            distance,
            length_diff,
            shared_suffix: common_suffix_len(query, word),
            shared_prefix: common_prefix_len(query, word),
        };
        c
    }

    /// Three-way comparison by rank: `Less` when `self` ranks first, `Greater` when `other`
    /// does, `Equal` only for candidates with equal keys.
    pub fn cmp_for_match_order(&self, other: &Self) -> (r: std::cmp::Ordering)
        ensures
            (r == std::cmp::Ordering::Less) == key_precedes(self.key(), other.key()),
            (r == std::cmp::Ordering::Greater) == key_precedes(other.key(), self.key()),
    {
        proof {
            lemma_key_precedes_strict(self.key(), other.key());
        }
        if self.is_better_than(other) {
            std::cmp::Ordering::Less
        } else if other.is_better_than(self) {
            std::cmp::Ordering::Greater
        } else {
            std::cmp::Ordering::Equal
        }
    }

    /// `self` ranks strictly before `other`.
    pub fn is_better_than(&self, other: &Self) -> (r: bool)
        ensures
            r == key_precedes(self.key(), other.key()),
    {
        self.distance < other.distance || (self.distance == other.distance && (self.length_diff
            < other.length_diff || (self.length_diff == other.length_diff && (self.shared_suffix
            > other.shared_suffix || (self.shared_suffix == other.shared_suffix && (
        self.shared_prefix > other.shared_prefix || (self.shared_prefix == other.shared_prefix
            && self.index < other.index)))))))
    }
}

} // verus!
