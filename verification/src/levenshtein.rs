//! Edit distance between texts, counted in characters.

use vstd::prelude::*;

use crate::text::chars_of;

verus! {

pub open spec fn min_nat(a: nat, b: nat) -> nat {
    if a <= b {
        a
    } else {
        b
    }
}

/// The Levenshtein distance: the least number of single-character insertions, deletions
/// and substitutions that turn `a` into `b`.
pub open spec fn edit_distance(a: Seq<char>, b: Seq<char>) -> nat
    decreases a.len() + b.len(),
{
    if a.len() == 0 {
        b.len()
    } else if b.len() == 0 {
        a.len()
    } else {
        let cost: nat = if a.last() == b.last() {
            0
        } else {
            1
        };
        min_nat(
            min_nat(edit_distance(a.drop_last(), b) + 1, edit_distance(a, b.drop_last()) + 1),
            edit_distance(a.drop_last(), b.drop_last()) + cost,
        )
    }
}

/// The distance is at most the length of the longer text.
pub proof fn lemma_edit_distance_bound(a: Seq<char>, b: Seq<char>)
    ensures
        edit_distance(a, b) <= if a.len() >= b.len() {
            a.len()
        } else {
            b.len()
        },
    decreases a.len() + b.len(),
{
    if a.len() > 0 && b.len() > 0 {
        lemma_edit_distance_bound(a.drop_last(), b.drop_last());
    }
}

/// The distance is symmetric: turning `a` into `b` costs what turning `b` into `a` does.
pub proof fn lemma_edit_distance_symmetric(a: Seq<char>, b: Seq<char>)
    ensures
        edit_distance(a, b) == edit_distance(b, a),
    decreases a.len() + b.len(),
{
    if a.len() > 0 && b.len() > 0 {
        lemma_edit_distance_symmetric(a.drop_last(), b);
        lemma_edit_distance_symmetric(a, b.drop_last());
        lemma_edit_distance_symmetric(a.drop_last(), b.drop_last());
    }
}

/// A text is at distance 0 from itself, and only from itself.
pub proof fn lemma_edit_distance_zero_iff_equal(a: Seq<char>, b: Seq<char>)
    ensures
        edit_distance(a, b) == 0 <==> a == b,
    decreases a.len() + b.len(),
{
    if a.len() > 0 && b.len() > 0 {
        lemma_edit_distance_zero_iff_equal(a.drop_last(), b.drop_last());
        if a == b {
            assert(a.drop_last() == b.drop_last());
        }
        if edit_distance(a, b) == 0 {
            assert(a.last() == b.last());
            assert(a.drop_last() == b.drop_last());
            assert(a =~= a.drop_last().push(a.last()));
            assert(b =~= b.drop_last().push(b.last()));
        }
    } else if a.len() == 0 && b.len() == 0 {
        assert(a =~= b);
    } else if a.len() == 0 {
        assert(a != b);
    } else {
        assert(a != b);
    }
}

/// The distance is at least the difference of the lengths.
pub proof fn lemma_edit_distance_at_least_length_gap(a: Seq<char>, b: Seq<char>)
    ensures
        edit_distance(a, b) >= a.len() - b.len(),
        edit_distance(a, b) >= b.len() - a.len(),
    decreases a.len() + b.len(),
{
    if a.len() > 0 && b.len() > 0 {
        lemma_edit_distance_at_least_length_gap(a.drop_last(), b);
        lemma_edit_distance_at_least_length_gap(a, b.drop_last());
        lemma_edit_distance_at_least_length_gap(a.drop_last(), b.drop_last());
    }
}

/// The triangle inequality: turning `a` into `c` costs at most turning `a` into `b` and
/// then `b` into `c`.
pub proof fn lemma_edit_distance_triangle(a: Seq<char>, b: Seq<char>, c: Seq<char>)
    ensures
        edit_distance(a, c) <= edit_distance(a, b) + edit_distance(b, c),
    decreases a.len() + b.len() + c.len(),
{
    if b.len() == 0 {
        lemma_edit_distance_bound(a, c);
    } else if a.len() == 0 {
        lemma_edit_distance_at_least_length_gap(b, c);
    } else if c.len() == 0 {
        lemma_edit_distance_at_least_length_gap(a, b);
    } else {
        let a1 = a.drop_last();
        let b1 = b.drop_last();
        let c1 = c.drop_last();
        lemma_edit_distance_triangle(a1, b, c);
        lemma_edit_distance_triangle(a, b, c1);
        lemma_edit_distance_triangle(a, b1, c);
        lemma_edit_distance_triangle(a, b1, c1);
        lemma_edit_distance_triangle(a1, b1, c);
        lemma_edit_distance_triangle(a1, b1, c1);
        assert(edit_distance(a, c) <= edit_distance(a1, c) + 1);
        assert(edit_distance(a, c) <= edit_distance(a, c1) + 1);
        assert(edit_distance(a, c) <= edit_distance(a1, c1) + (if a.last() == c.last() {
            0nat
        } else {
            1nat
        }));
    }
}

/// The minimum number of single-character edits (insertions, deletions or substitutions)
/// that turn `a` into `b`.
pub fn levenshtein_distance(a: &str, b: &str) -> (r: usize)
    requires
        a@.len() < usize::MAX,
        b@.len() < usize::MAX,
    ensures
        r == edit_distance(a@, b@),
{
    let a_chars = chars_of(a);
    let b_chars = chars_of(b);
    let a_len = a_chars.len();
    let b_len = b_chars.len();
    let ghost sa = a@;
    let ghost sb = b@;
    if a_len == 0 {
        return b_len;
    }
    if b_len == 0 {
        return a_len;
    }
    let mut prev_row: Vec<usize> = Vec::new();
    let mut k: usize = 0;
    while k <= b_len
        invariant
            k <= b_len + 1,
            b_len == sb.len(),
            b_len < usize::MAX,
            prev_row@.len() == k,
            forall|j: int| 0 <= j < k ==> #[trigger] prev_row@[j] == edit_distance(sa.take(0), sb.take(j)),
        decreases b_len + 1 - k,
    {
        assert(sa.take(0).len() == 0);
        prev_row.push(k);
        k = k + 1;
    }
    let mut curr_row: Vec<usize> = Vec::new();
    k = 0;
    while k <= b_len
        invariant
            k <= b_len + 1,
            b_len < usize::MAX,
            curr_row@.len() == k,
        decreases b_len + 1 - k,
    {
        curr_row.push(0);
        k = k + 1;
    }
    let mut i: usize = 0;
    while i < a_len
        invariant
            a_chars@ == sa,
            b_chars@ == sb,
            a_len == sa.len(),
            b_len == sb.len(),
            a_len < usize::MAX,
            b_len < usize::MAX,
            i <= a_len,
            prev_row@.len() == b_len + 1,
            curr_row@.len() == b_len + 1,
            forall|j: int| 0 <= j <= b_len ==> #[trigger] prev_row@[j] == edit_distance(sa.take(i as int), sb.take(j)),
        decreases a_len - i,
    {
        let ghost ai = sa.take(i + 1);
        assert(sb.take(0).len() == 0);
        curr_row.set(0, i + 1);
        let mut j: usize = 0;
        while j < b_len
            invariant
                a_chars@ == sa,
                b_chars@ == sb,
                a_len == sa.len(),
                b_len == sb.len(),
                a_len < usize::MAX,
                b_len < usize::MAX,
                i < a_len,
                j <= b_len,
                ai == sa.take(i + 1),
                prev_row@.len() == b_len + 1,
                curr_row@.len() == b_len + 1,
                forall|t: int| 0 <= t <= b_len ==> #[trigger] prev_row@[t] == edit_distance(sa.take(i as int), sb.take(t)),
                forall|t: int| 0 <= t <= j ==> #[trigger] curr_row@[t] == edit_distance(ai, sb.take(t)),
            decreases b_len - j,
        {
            let cost: usize = if a_chars[i] == b_chars[j] {
                0
            } else {
                1
            };
            let ghost bj = sb.take(j + 1);
            proof {
                lemma_edit_distance_bound(sa.take(i as int), bj);
                lemma_edit_distance_bound(ai, sb.take(j as int));
                lemma_edit_distance_bound(sa.take(i as int), sb.take(j as int));
                assert(ai.drop_last() =~= sa.take(i as int));
                assert(bj.drop_last() =~= sb.take(j as int));
                assert(ai.last() == sa[i as int]);
                assert(bj.last() == sb[j as int]);
            }
            let deletion = prev_row[j + 1] + 1;
            let insertion = curr_row[j] + 1;
            let substitution = prev_row[j] + cost;
            let mut best = deletion;
            if insertion < best {
                best = insertion;
            }
            if substitution < best {
                best = substitution;
            }
            curr_row.set(j + 1, best);
            j = j + 1;
        }
        proof {
            assert forall|t: int| 0 <= t <= b_len implies #[trigger] curr_row@[t] == edit_distance(sa.take(i + 1), sb.take(t)) by {
            }
        }
        std::mem::swap(&mut prev_row, &mut curr_row);
        i = i + 1;
    }
    assert(sa.take(a_len as int) =~= sa);
    assert(sb.take(b_len as int) =~= sb);
    prev_row[b_len]
}

} // verus!
