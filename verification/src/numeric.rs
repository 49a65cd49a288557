//! Decimal parsing of the leading field of a date.

use vstd::prelude::*;

verus! {

pub open spec fn is_digit(c: char) -> bool {
    '0' <= c <= '9'
}

pub open spec fn digit_value(c: char) -> nat {
    ((c as u32) - ('0' as u32)) as nat
}

/// The value of a run of decimal digits (most significant first); 0 for an empty run.
pub open spec fn digits_value(s: Seq<char>) -> nat
    decreases s.len(),
{
    if s.len() == 0 {
        0
    } else {
        digits_value(s.drop_last()) * 10 + digit_value(s.last())
    }
}

pub open spec fn all_digits(s: Seq<char>) -> bool {
    forall|i: int| 0 <= i < s.len() ==> is_digit(#[trigger] s[i])
}

/// What `str::parse` gives for an integer type whose largest value is `max`, on a text
/// without a minus sign: an optional `+`, then at least one decimal digit, and a value of at
/// most `max`. `None` stands for the parse error.
pub open spec fn parse_unsigned_decimal(s: Seq<char>, max: nat) -> Option<nat> {
    let body = if s.len() > 0 && s[0] == '+' {
        s.drop_first()
    } else {
        s
    };
    if body.len() > 0 && all_digits(body) && digits_value(body) <= max {
        Some(digits_value(body))
    } else {
        None
    }
}

proof fn lemma_digits_value_monotone(s: Seq<char>, i: int)
    requires
        0 <= i <= s.len(),
        all_digits(s),
    ensures
        digits_value(s.take(i)) <= digits_value(s),
    decreases s.len() - i,
{
    if i < s.len() {
        lemma_digits_value_monotone(s, i + 1);
        let t = s.take(i + 1);
        assert(t.drop_last() =~= s.take(i));
        assert(is_digit(s[i]));
    } else {
        assert(s.take(i) =~= s);
    }
}

/// Parses the characters `cs[start..end]` as a decimal number of at most `max`, the way
/// `str::parse` does for a text that holds no minus sign.
pub fn parse_decimal_range(cs: &Vec<char>, start: usize, end: usize, max: u64) -> (r: Option<u64>)
    requires
        start <= end <= cs@.len(),
    ensures
        match parse_unsigned_decimal(cs@.subrange(start as int, end as int), max as nat) {
            Some(v) => r == Some(v as u64),
            None => r is None,
        },
{
    let ghost s = cs@.subrange(start as int, end as int);
    let mut i = start;
    if i < end && cs[i] == '+' {
        i = i + 1;
    }
    let ghost body = cs@.subrange(i as int, end as int);
    proof {
        if start < end && cs@[start as int] == '+' {
            assert(body =~= s.drop_first());
        } else {
            assert(body =~= s);
        }
    }
    if i == end {
        return None;
    }
    let begin = i;
    let mut value: u64 = 0;
    assert(body.take(0) =~= Seq::<char>::empty());
    while i < end
        invariant
            begin <= i <= end <= cs@.len(),
            body == cs@.subrange(begin as int, end as int),
            s == cs@.subrange(start as int, end as int),
            body == (if s.len() > 0 && s[0] == '+' {
                s.drop_first()
            } else {
                s
            }),
            all_digits(body.take(i - begin)),
            value as nat == digits_value(body.take(i - begin)),
            value <= max,
        decreases end - i,
    {
        let c = cs[i];
        if !('0' <= c && c <= '9') {
            proof {
                assert(body[i - begin] == c);
                assert(!is_digit(body[i - begin]));
                assert(!all_digits(body));
                assert(parse_unsigned_decimal(s, max as nat) is None);
            }
            return None;
        }
        let d = (c as u32 - '0' as u32) as u64;
        let ghost prefix = body.take(i - begin + 1);
        proof {
            assert(prefix.drop_last() =~= body.take(i - begin));
            assert(prefix.last() == c);
        }
        if d > max || value > (max - d) / 10 {
            proof {
                assert(digits_value(prefix) > max) by (nonlinear_arith)
                    requires
                        digits_value(prefix) == value * 10 + d,
                        d > max || value > (max - d) / 10,
                ;
                if all_digits(body) {
                    lemma_digits_value_monotone(body, i - begin + 1);
                }
            }
            return None;
        }
        proof {
            assert(value * 10 + d <= max) by (nonlinear_arith)
                requires
                    value <= (max - d) / 10,
                    d <= max,
            ;
        }
        value = value * 10 + d;
        i = i + 1;
        proof {
            assert(all_digits(prefix)) by {
                assert forall|k: int| 0 <= k < prefix.len() implies is_digit(#[trigger] prefix[k]) by {
                    if k < prefix.len() - 1 {
                        assert(prefix[k] == body.take(i - 1 - begin)[k]);
                    }
                }
            }
        }
    }
    assert(body.take(end - begin) =~= body);
    Some(value)
}

} // verus!

verus! {

/// The text before the first `-` of `s` (all of `s` when it holds none): the first item
/// that `str::split('-')` yields.
pub open spec fn first_field(s: Seq<char>) -> Seq<char>
    decreases s.len(),
{
    if s.len() == 0 {
        s
    } else if s[0] == '-' {
        Seq::<char>::empty()
    } else {
        seq![s[0]] + first_field(s.drop_first())
    }
}

/// The year of a date written `YYYY`, `YYYY-MM` or `YYYY-MM-DD`: its first `-`-separated
/// field parsed as a number of at most `max`.
pub open spec fn leading_number(date: Seq<char>, max: nat) -> Option<nat> {
    parse_unsigned_decimal(first_field(date), max)
}

proof fn lemma_first_field_step(s: Seq<char>, i: int)
    requires
        0 <= i < s.len(),
        s[i] != '-',
    ensures
        s.take(i) + first_field(s.skip(i)) == s.take(i + 1) + first_field(s.skip(i + 1)),
{
    assert(s.skip(i).drop_first() =~= s.skip(i + 1));
    assert(s.skip(i)[0] == s[i]);
    assert(s.take(i + 1) =~= s.take(i) + seq![s[i]]);
    assert(s.take(i) + (seq![s[i]] + first_field(s.skip(i + 1))) =~= s.take(i + 1) + first_field(s.skip(i + 1)));
}

/// Parses the leading `-`-separated field of `date` as a number of at most `max`.
pub fn parse_leading_number(date: &str, max: u64) -> (r: Option<u64>)
    ensures
        match leading_number(date@, max as nat) {
            Some(v) => r == Some(v as u64),
            None => r is None,
        },
{
    let cs = crate::text::chars_of(date);
    let n = cs.len();
    let mut i: usize = 0;
    assert(cs@.skip(0) =~= cs@);
    assert(cs@.take(0) + first_field(cs@.skip(0)) =~= first_field(cs@));
    while i < n && cs[i] != '-'
        invariant
            n == cs@.len(),
            cs@ == date@,
            i <= n,
            first_field(cs@) == cs@.take(i as int) + first_field(cs@.skip(i as int)),
        decreases n - i,
    {
        proof {
            lemma_first_field_step(cs@, i as int);
        }
        i = i + 1;
    }
    proof {
        if i < n {
            assert(cs@.skip(i as int)[0] == '-');
        } else {
            assert(cs@.skip(i as int) =~= Seq::<char>::empty());
        }
        assert(first_field(cs@) =~= cs@.subrange(0, i as int));
    }
    parse_decimal_range(&cs, 0, i, max)
}

} // verus!
