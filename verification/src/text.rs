//! Character-level text helpers shared by the search and HTTP modules.

use vstd::prelude::*;

verus! {

/// Number of bytes that the UTF-8 encoding of `s` occupies (what `str::len` reports).
pub open spec fn byte_len(s: Seq<char>) -> nat {
    vstd::utf8::encode_utf8(s).len()
}

/// The characters of `s`, in order.
pub fn chars_of(s: &str) -> (r: Vec<char>)
    ensures
        r@ == s@,
{
    let n = s.unicode_len();
    let mut out: Vec<char> = Vec::new();
    let mut i: usize = 0;
    while i < n
        invariant
            n == s@.len(),
            i <= n,
            out@ == s@.take(i as int),
        decreases n - i,
    {
        let c = s.get_char(i);
        out.push(c);
        i = i + 1;
        assert(out@ =~= s@.take(i as int));
    }
    assert(out@ =~= s@);
    out
}

} // verus!

verus! {

/// Unicode `White_Space` characters, the set `char::is_whitespace` accepts.
pub open spec fn is_whitespace_spec(c: char) -> bool {
    let u = c as u32;
    ||| 0x09 <= u <= 0x0d
    ||| u == 0x20
    ||| u == 0x85
    ||| u == 0xa0
    ||| u == 0x1680
    ||| 0x2000 <= u <= 0x200a
    ||| u == 0x2028
    ||| u == 0x2029
    ||| u == 0x202f
    ||| u == 0x205f
    ||| u == 0x3000
}

/// ASCII punctuation, the set `char::is_ascii_punctuation` accepts (ASCII symbols
/// included).
pub open spec fn is_ascii_punctuation_spec(c: char) -> bool {
    let u = c as u32;
    ||| 0x21 <= u <= 0x2f
    ||| 0x3a <= u <= 0x40
    ||| 0x5b <= u <= 0x60
    ||| 0x7b <= u <= 0x7e
}

/// Punctuation beyond ASCII: the punctuation of Latin-1 (¡ § « ¶ · » ¿), of the General
/// Punctuation block (dashes, quotation marks, bullets, ellipsis, primes and the like;
/// not its spaces, format characters or the two mathematical symbols in it), of the CJK
/// Symbols and Punctuation block, and its fullwidth forms.
pub open spec fn is_wider_punctuation_spec(c: char) -> bool {
    let u = c as u32;
    ||| u == 0xa1 || u == 0xa7 || u == 0xab || u == 0xb6 || u == 0xb7 || u == 0xbb || u == 0xbf
    ||| 0x2010 <= u <= 0x2027
    ||| 0x2030 <= u <= 0x2043
    ||| 0x2045 <= u <= 0x2051
    ||| 0x2053 <= u <= 0x205e
    ||| 0x3001 <= u <= 0x3003
    ||| 0x3008 <= u <= 0x3011
    ||| 0x3014 <= u <= 0x301f
    ||| 0xff01 <= u <= 0xff03
    ||| 0xff05 <= u <= 0xff0a
    ||| 0xff0c <= u <= 0xff0f
    ||| 0xff1a <= u <= 0xff1b
    ||| 0xff1f <= u <= 0xff20
    ||| 0xff3b <= u <= 0xff3d
    ||| u == 0xff3f || u == 0xff5b || u == 0xff5d
    ||| 0xff5f <= u <= 0xff65
}

/// The punctuation that separates words: ASCII punctuation and the wider punctuation
/// above.
pub open spec fn is_punctuation_spec(c: char) -> bool {
    is_ascii_punctuation_spec(c) || is_wider_punctuation_spec(c)
}

pub fn is_punctuation(c: char) -> (r: bool)
    ensures
        r == is_punctuation_spec(c),
{
    let u = c as u32;
    (0x21 <= u && u <= 0x2f) || (0x3a <= u && u <= 0x40) || (0x5b <= u && u <= 0x60) || (0x7b <= u && u <= 0x7e)
        || u == 0xa1 || u == 0xa7 || u == 0xab || u == 0xb6 || u == 0xb7 || u == 0xbb || u == 0xbf
        || (0x2010 <= u && u <= 0x2027) || (0x2030 <= u && u <= 0x2043) || (0x2045 <= u && u <= 0x2051)
        || (0x2053 <= u && u <= 0x205e) || (0x3001 <= u && u <= 0x3003) || (0x3008 <= u && u <= 0x3011)
        || (0x3014 <= u && u <= 0x301f) || (0xff01 <= u && u <= 0xff03) || (0xff05 <= u && u <= 0xff0a)
        || (0xff0c <= u && u <= 0xff0f) || (0xff1a <= u && u <= 0xff1b) || (0xff1f <= u && u <= 0xff20)
        || (0xff3b <= u && u <= 0xff3d) || u == 0xff3f || u == 0xff5b || u == 0xff5d || (0xff5f <= u
        && u <= 0xff65)
}

/// Dashes and quotation marks separate words as ASCII punctuation does, while ASCII letters
/// and digits never do.
pub proof fn lemma_word_separators(c: char)
    ensures
        is_separator_spec(Separators::WhitespaceOrPunctuation, '\u{2014}'),
        is_separator_spec(Separators::WhitespaceOrPunctuation, '\u{201c}'),
        is_separator_spec(Separators::WhitespaceOrPunctuation, ','),
        is_ascii_alphanumeric_spec(c) ==> !is_separator_spec(Separators::WhitespaceOrPunctuation, c),
{
}

/// Every character of `s` is ASCII.
pub open spec fn all_ascii(s: Seq<char>) -> bool {
    forall|i: int| 0 <= i < s.len() ==> (s[i] as u32) < 128
}

/// ASCII letters and digits.
pub open spec fn is_ascii_alphanumeric_spec(c: char) -> bool {
    let u = c as u32;
    ||| 0x30 <= u <= 0x39
    ||| 0x41 <= u <= 0x5a
    ||| 0x61 <= u <= 0x7a
}

/// ASCII upper-case letters become lower case; every other character is kept.
pub open spec fn ascii_lower_spec(c: char) -> char {
    let u = c as u32;
    if 0x41 <= u <= 0x5a {
        ((u + 32) as u32) as char
    } else {
        c
    }
}

/// `char::to_ascii_lowercase`.
pub fn ascii_lower(c: char) -> (r: char)
    ensures
        r == ascii_lower_spec(c),
{
    if 'A' <= c && c <= 'Z' {
        let b: u8 = c as u8;
        (b + 32) as char
    } else {
        c
    }
}

pub fn is_whitespace(c: char) -> (r: bool)
    ensures
        r == is_whitespace_spec(c),
{
    let u = c as u32;
    (0x09 <= u && u <= 0x0d) || u == 0x20 || u == 0x85 || u == 0xa0 || u == 0x1680 || (0x2000
        <= u && u <= 0x200a) || u == 0x2028 || u == 0x2029 || u == 0x202f || u == 0x205f || u
        == 0x3000
}

pub fn is_ascii_alphanumeric(c: char) -> (r: bool)
    ensures
        r == is_ascii_alphanumeric_spec(c),
{
    let u = c as u32;
    (0x30 <= u && u <= 0x39) || (0x41 <= u && u <= 0x5a) || (0x61 <= u && u <= 0x7a)
}

/// Which characters separate the words of a text.
#[derive(Clone, Copy, PartialEq, Eq)]
pub enum Separators {
    /// Unicode white space only (`str::split_whitespace`).
    Whitespace,
    /// Unicode white space and punctuation (see [`is_punctuation_spec`]).
    WhitespaceOrPunctuation,
    /// Unicode white space and commas: the items of a comma-separated header list.
    CommaOrWhitespace,
}

pub open spec fn is_separator_spec(kind: Separators, c: char) -> bool {
    match kind {
        Separators::Whitespace => is_whitespace_spec(c),
        Separators::WhitespaceOrPunctuation => is_whitespace_spec(c) || is_punctuation_spec(c),
        Separators::CommaOrWhitespace => is_whitespace_spec(c) || c == ',',
    }
}

pub fn is_separator(kind: Separators, c: char) -> (r: bool)
    ensures
        r == is_separator_spec(kind, c),
{
    match kind {
        Separators::Whitespace => is_whitespace(c),
        Separators::WhitespaceOrPunctuation => is_whitespace(c) || is_punctuation(c),
        Separators::CommaOrWhitespace => is_whitespace(c) || c == ',',
    }
}

/// The maximal non-empty runs of non-separator characters of `s`, left to right.
pub open spec fn tokens(kind: Separators, s: Seq<char>) -> Seq<Seq<char>>
    decreases s.len(),
{
    if s.len() == 0 {
        seq![]
    } else {
        let rest = tokens(kind, s.drop_last());
        let c = s.last();
        if is_separator_spec(kind, c) {
            rest
        } else if s.len() >= 2 && !is_separator_spec(kind, s[s.len() - 2]) {
            rest.update(rest.len() - 1, rest.last().push(c))
        } else {
            rest.push(seq![c])
        }
    }
}

/// Every token is non-empty and holds no separator.
pub proof fn lemma_tokens_plain(kind: Separators, s: Seq<char>)
    ensures
        forall|i: int| 0 <= i < tokens(kind, s).len() ==> (#[trigger] tokens(kind, s)[i]).len() > 0,
        forall|i: int, k: int|
            0 <= i < tokens(kind, s).len() && 0 <= k < tokens(kind, s)[i].len() ==> !is_separator_spec(
                kind,
                #[trigger] tokens(kind, s)[i][k],
            ),
    decreases s.len(),
{
    if s.len() > 0 {
        lemma_tokens_plain(kind, s.drop_last());
        let rest = tokens(kind, s.drop_last());
        let c = s.last();
        if !is_separator_spec(kind, c) && s.len() >= 2 && !is_separator_spec(kind, s[s.len() - 2]) {
            assert(rest.len() > 0) by {
                let p = s.drop_last();
                assert(p.last() == s[s.len() - 2]);
                assert(p.drop_last().len() + 1 == p.len());
                if p.len() >= 1 {
                    lemma_tokens_nonempty_last(kind, p);
                }
            }
            let t = tokens(kind, s);
            assert forall|i: int, k: int|
                0 <= i < t.len() && 0 <= k < t[i].len() implies !is_separator_spec(kind, #[trigger] t[i][k]) by {
                if i == rest.len() - 1 && k == rest.last().len() {
                    assert(t[i][k] == c);
                } else if i == rest.len() - 1 {
                    assert(t[i][k] == rest[i][k]);
                }
            }
        }
    }
}

/// A text that ends in a non-separator has at least one token.
proof fn lemma_tokens_nonempty_last(kind: Separators, s: Seq<char>)
    requires
        s.len() > 0,
        !is_separator_spec(kind, s.last()),
    ensures
        tokens(kind, s).len() > 0,
    decreases s.len(),
{
    if s.len() >= 2 && !is_separator_spec(kind, s[s.len() - 2]) {
        let p = s.drop_last();
        assert(p.last() == s[s.len() - 2]);
        lemma_tokens_nonempty_last(kind, p);
    }
}

/// Appending a word without separators after a separator (or to nothing) appends it as a
/// token.
pub proof fn lemma_tokens_append_word(kind: Separators, x: Seq<char>, w: Seq<char>)
    requires
        x.len() > 0 ==> is_separator_spec(kind, x.last()),
        w.len() > 0,
        forall|k: int| 0 <= k < w.len() ==> !is_separator_spec(kind, #[trigger] w[k]),
    ensures
        tokens(kind, x + w) == tokens(kind, x).push(w),
    decreases w.len(),
{
    let s = x + w;
    assert(s.last() == w.last());
    assert(s.drop_last() =~= x + w.drop_last());
    if w.len() == 1 {
        assert(x + w.drop_last() =~= x);
        if s.len() >= 2 {
            assert(s[s.len() - 2] == x.last());
        }
        assert(seq![w.last()] =~= w);
    } else {
        let w1 = w.drop_last();
        assert forall|k: int| 0 <= k < w1.len() implies !is_separator_spec(kind, #[trigger] w1[k]) by {
            assert(w1[k] == w[k]);
        }
        lemma_tokens_append_word(kind, x, w1);
        assert(s[s.len() - 2] == w[w.len() - 2]);
        let rest = tokens(kind, x).push(w1);
        assert(w1.push(w.last()) =~= w);
        assert(rest.last() == w1);
        assert(rest.update(rest.len() - 1, rest.last().push(w.last())) =~= tokens(kind, x).push(w));
    }
}

/// Joining words without separators by a separator and splitting again gives the words.
pub proof fn lemma_tokens_of_join(kind: Separators, ws: Seq<Seq<char>>, sep: char)
    requires
        is_separator_spec(kind, sep),
        forall|i: int| 0 <= i < ws.len() ==> (#[trigger] ws[i]).len() > 0,
        forall|i: int, k: int| 0 <= i < ws.len() && 0 <= k < ws[i].len() ==> !is_separator_spec(kind, #[trigger] ws[i][k]),
    ensures
        tokens(kind, join(ws, sep)) == ws,
    decreases ws.len(),
{
    if ws.len() == 0 {
    } else if ws.len() == 1 {
        assert(Seq::<char>::empty() + ws[0] =~= ws[0]);
        lemma_tokens_append_word(kind, Seq::empty(), ws[0]);
        assert(seq![ws[0]] =~= ws);
    } else {
        let w1 = ws.drop_last();
        assert forall|i: int, k: int| 0 <= i < w1.len() && 0 <= k < w1[i].len() implies !is_separator_spec(kind, #[trigger] w1[i][k]) by {
            assert(w1[i] == ws[i]);
        }
        lemma_tokens_of_join(kind, w1, sep);
        let x = join(w1, sep) + seq![sep];
        assert(x.drop_last() =~= join(w1, sep));
        assert(tokens(kind, x) == tokens(kind, join(w1, sep)));
        let last = ws.last();
        assert forall|k: int| 0 <= k < last.len() implies !is_separator_spec(kind, #[trigger] last[k]) by {
            assert(last == ws[ws.len() - 1]);
        }
        lemma_tokens_append_word(kind, x, last);
        assert(w1.push(last) =~= ws);
    }
}

/// `s` with its characters between `start` and `end` as one token, when that range is non-empty.
pub open spec fn with_run(done: Seq<Seq<char>>, s: Seq<char>, start: int, end: int) -> Seq<Seq<char>> {
    if start < end {
        done.push(s.subrange(start, end))
    } else {
        done
    }
}

proof fn lemma_tokens_step(kind: Separators, s: Seq<char>, done: Seq<Seq<char>>, start: int, i: int)
    requires
        0 <= start <= i < s.len(),
        start == 0 || is_separator_spec(kind, s[start - 1]),
        forall|k: int| start <= k < i ==> !is_separator_spec(kind, #[trigger] s[k]),
        with_run(done, s, start, i) == tokens(kind, s.take(i)),
    ensures
        is_separator_spec(kind, s[i]) ==> with_run(done, s, start, i) == tokens(kind, s.take(i + 1)),
        !is_separator_spec(kind, s[i]) ==> with_run(done, s, start, i + 1) == tokens(kind, s.take(i + 1)),
{
    let t = s.take(i + 1);
    assert(t.drop_last() =~= s.take(i));
    assert(t.last() == s[i]);
    if !is_separator_spec(kind, s[i]) {
        if start < i {
            assert(t[t.len() - 2] == s[i - 1]);
            assert(s.subrange(start, i + 1) =~= s.subrange(start, i).push(s[i]));
            let rest = tokens(kind, s.take(i));
            assert(rest == done.push(s.subrange(start, i)));
            assert(rest.update(rest.len() - 1, rest.last().push(s[i])) =~= done.push(s.subrange(start, i + 1)));
        } else {
            assert(s.subrange(start, i + 1) =~= seq![s[i]]);
            if i >= 1 {
                assert(t[t.len() - 2] == s[i - 1]);
            }
        }
    }
}

/// Splits `s` into its tokens (see [`tokens`]).
pub fn split_tokens<'a>(s: &'a str, kind: Separators) -> (r: Vec<&'a str>)
    ensures
        r@.len() == tokens(kind, s@).len(),
        forall|k: int| 0 <= k < r@.len() ==> #[trigger] r@[k]@ == tokens(kind, s@)[k],
{
    let cs = chars_of(s);
    let n = cs.len();
    let mut out: Vec<&'a str> = Vec::new();
    let mut start: usize = 0;
    let mut i: usize = 0;
    let ghost mut done: Seq<Seq<char>> = seq![];
    assert(s@.take(0) =~= seq![]);
    while i < n
        invariant
            cs@ == s@,
            n == s@.len(),
            start <= i <= n,
            start == 0 || is_separator_spec(kind, s@[start - 1]),
            forall|k: int| start <= k < i ==> !is_separator_spec(kind, #[trigger] s@[k]),
            with_run(done, s@, start as int, i as int) == tokens(kind, s@.take(i as int)),
            out@.len() == done.len(),
            forall|k: int| 0 <= k < out@.len() ==> #[trigger] out@[k]@ == done[k],
        decreases n - i,
    {
        proof {
            lemma_tokens_step(kind, s@, done, start as int, i as int);
        }
        if is_separator(kind, cs[i]) {
            if start < i {
                let piece = s.substring_char(start, i);
                out.push(piece);
                proof {
                    done = done.push(s@.subrange(start as int, i as int));
                }
            }
            start = i + 1;
        }
        i = i + 1;
    }
    if start < n {
        let piece = s.substring_char(start, n);
        out.push(piece);
        proof {
            done = done.push(s@.subrange(start as int, n as int));
        }
    }
    assert(s@.take(n as int) =~= s@);
    out
}

} // verus!

verus! {

/// The words of `ws` joined with one `sep` character between neighbours.
pub open spec fn join(ws: Seq<Seq<char>>, sep: char) -> Seq<char>
    decreases ws.len(),
{
    if ws.len() == 0 {
        seq![]
    } else if ws.len() == 1 {
        ws[0]
    } else {
        join(ws.drop_last(), sep) + seq![sep] + ws.last()
    }
}

/// Joins the strings of `parts` with a single space.
pub fn join_with_space(parts: &Vec<String>) -> (r: String)
    ensures
        r@ == join(parts@.map_values(|p: String| p@), ' '),
{
    let ghost views = parts@.map_values(|p: String| p@);
    let mut out = String::new();
    let mut i: usize = 0;
    while i < parts.len()
        invariant
            i <= parts.len(),
            views == parts@.map_values(|p: String| p@),
            out@ == join(views.take(i as int), ' '),
        decreases parts.len() - i,
    {
        proof {
            reveal_strlit(" ");
        }
        if i > 0 {
            out.append(" ");
        }
        out.append(parts[i].as_str());
        assert(views.take(i + 1).drop_last() =~= views.take(i as int));
        assert(views.take(i + 1).last() == parts@[i as int]@);
        if i == 0 {
            assert(views.take(1) =~= seq![parts@[0]@]);
        }
        assert(" "@ =~= seq![' ']);
        i = i + 1;
    }
    assert(views.take(parts.len() as int) =~= views);
    out
}

/// The Unicode lower-case mapping of a text, as `str::to_lowercase` computes it.
pub uninterp spec fn lowercase(s: Seq<char>) -> Seq<char>;

/// Calls `str::to_lowercase`. Claimed: the result is `lowercase` of the input (a function of
/// the characters alone), and, being a `String`, it holds at most `isize::MAX` bytes; an
/// ASCII input gives its ASCII lower case, as the documentation's examples show. The
/// Unicode case tables themselves are not stated.
#[verifier::external_body]
pub(crate) fn to_lowercase(s: &str) -> (r: String)
    ensures
        r@ == lowercase(s@),
        byte_len(r@) <= isize::MAX,
        all_ascii(s@) ==> r@ == s@.map_values(|c: char| ascii_lower_spec(c)),
{
    s.to_lowercase()
}

} // verus!

verus! {

/// A text never has more characters than bytes.
pub proof fn lemma_chars_le_bytes(s: Seq<char>)
    ensures
        s.len() <= byte_len(s),
    decreases s.len(),
{
    if s.len() > 0 {
        lemma_chars_le_bytes(s.drop_first());
        let e = vstd::utf8::encode_scalar(s[0] as u32);
        assert(e.len() >= 1);
        assert(vstd::utf8::encode_utf8(s) == e + vstd::utf8::encode_utf8(s.drop_first()));
    }
}

} // verus!

verus! {

/// Whether `a` and `b` hold the same characters.
pub fn str_eq(a: &str, b: &str) -> (r: bool)
    ensures
        r == (a@ == b@),
{
    let n = a.unicode_len();
    if n != b.unicode_len() {
        return false;
    }
    let mut i: usize = 0;
    while i < n
        invariant
            n == a@.len(),
            n == b@.len(),
            i <= n,
            forall|k: int| 0 <= k < i ==> a@[k] == b@[k],
        decreases n - i,
    {
        if a.get_char(i) != b.get_char(i) {
            return false;
        }
        i = i + 1;
    }
    assert(a@ =~= b@);
    true
}

} // verus!

verus! {

pub open spec fn digit_char(d: nat) -> char {
    ((d + 48) as u32) as char
}

/// The decimal numeral of `n`, without leading zeros.
pub open spec fn decimal(n: nat) -> Seq<char>
    decreases n,
{
    if n < 10 {
        seq![digit_char(n)]
    } else {
        decimal(n / 10) + seq![digit_char(n % 10)]
    }
}

fn digit_str(d: u64) -> (r: &'static str)
    requires
        d < 10,
    ensures
        r@ == seq![digit_char(d as nat)],
{
    proof {
        reveal_strlit("0");
        reveal_strlit("1");
        reveal_strlit("2");
        reveal_strlit("3");
        reveal_strlit("4");
        reveal_strlit("5");
        reveal_strlit("6");
        reveal_strlit("7");
        reveal_strlit("8");
        reveal_strlit("9");
    }
    let r = if d == 0 {
        "0"
    } else if d == 1 {
        "1"
    } else if d == 2 {
        "2"
    } else if d == 3 {
        "3"
    } else if d == 4 {
        "4"
    } else if d == 5 {
        "5"
    } else if d == 6 {
        "6"
    } else if d == 7 {
        "7"
    } else if d == 8 {
        "8"
    } else {
        "9"
    };
    assert(r@ =~= seq![digit_char(d as nat)]);
    r
}

/// The decimal numeral of `n` (what `to_string` gives for an unsigned integer).
pub fn decimal_string(n: u64) -> (r: String)
    ensures
        r@ == decimal(n as nat),
    decreases n,
{
    if n < 10 {
        let mut s = String::new();
        s.append(digit_str(n));
        return s;
    }
    let mut s = decimal_string(n / 10);
    s.append(digit_str(n % 10));
    s
}

} // verus!

verus! {

/// `s` begins with `prefix`.
pub open spec fn has_prefix(s: Seq<char>, prefix: Seq<char>) -> bool {
    prefix.len() <= s.len() && s.take(prefix.len() as int) == prefix
}

/// `s` ends with `suffix`.
pub open spec fn has_suffix(s: Seq<char>, suffix: Seq<char>) -> bool {
    suffix.len() <= s.len() && s.skip(s.len() - suffix.len()) == suffix
}

/// Whether `s` begins with `prefix`.
pub fn starts_with(s: &str, prefix: &str) -> (r: bool)
    ensures
        r == has_prefix(s@, prefix@),
{
    let n = s.unicode_len();
    let m = prefix.unicode_len();
    if m > n {
        return false;
    }
    let mut i: usize = 0;
    while i < m
        invariant
            n == s@.len(),
            m == prefix@.len(),
            m <= n,
            i <= m,
            forall|k: int| 0 <= k < i ==> s@[k] == prefix@[k],
        decreases m - i,
    {
        if s.get_char(i) != prefix.get_char(i) {
            assert(s@.take(m as int)[i as int] != prefix@[i as int]);
            return false;
        }
        i = i + 1;
    }
    assert(s@.take(m as int) =~= prefix@);
    true
}

/// Whether `s` ends with `suffix`.
pub fn ends_with(s: &str, suffix: &str) -> (r: bool)
    ensures
        r == has_suffix(s@, suffix@),
{
    let n = s.unicode_len();
    let m = suffix.unicode_len();
    if m > n {
        return false;
    }
    let base = n - m;
    let mut i: usize = 0;
    while i < m
        invariant
            n == s@.len(),
            m == suffix@.len(),
            m <= n,
            base == n - m,
            i <= m,
            forall|k: int| 0 <= k < i ==> s@[base + k] == suffix@[k],
        decreases m - i,
    {
        if s.get_char(base + i) != suffix.get_char(i) {
            assert(s@.skip(base as int)[i as int] != suffix@[i as int]);
            return false;
        }
        i = i + 1;
    }
    assert(s@.skip(base as int) =~= suffix@);
    true
}

} // verus!

verus! {

/// `s` without its leading white space.
pub open spec fn trim_start(s: Seq<char>) -> Seq<char>
    decreases s.len(),
{
    if s.len() > 0 && is_whitespace_spec(s[0]) {
        trim_start(s.drop_first())
    } else {
        s
    }
}

/// `s` without its trailing white space.
pub open spec fn trim_end(s: Seq<char>) -> Seq<char>
    decreases s.len(),
{
    if s.len() > 0 && is_whitespace_spec(s.last()) {
        trim_end(s.drop_last())
    } else {
        s
    }
}

/// `s` without leading and trailing white space, as `str::trim` gives it.
pub open spec fn trimmed(s: Seq<char>) -> Seq<char> {
    trim_end(trim_start(s))
}

/// The bounds `(start, end)` of `trimmed(cs[from..to])` within `cs`.
pub fn trim_bounds(cs: &Vec<char>, from: usize, to: usize) -> (r: (usize, usize))
    requires
        from <= to <= cs@.len(),
    ensures
        from <= r.0 <= r.1 <= to,
        cs@.subrange(r.0 as int, r.1 as int) == trimmed(cs@.subrange(from as int, to as int)),
{
    let ghost s = cs@.subrange(from as int, to as int);
    let mut i = from;
    while i < to && is_whitespace(cs[i])
        invariant
            from <= i <= to <= cs@.len(),
            s == cs@.subrange(from as int, to as int),
            trim_start(s) == trim_start(cs@.subrange(i as int, to as int)),
        decreases to - i,
    {
        assert(cs@.subrange(i as int, to as int).drop_first() =~= cs@.subrange(i + 1, to as int));
        i = i + 1;
    }
    let ghost t = cs@.subrange(i as int, to as int);
    assert(trim_start(t) == t);
    let mut j = to;
    while j > i && is_whitespace(cs[j - 1])
        invariant
            from <= i <= j <= to <= cs@.len(),
            t == cs@.subrange(i as int, to as int),
            trim_end(t) == trim_end(cs@.subrange(i as int, j as int)),
        decreases j - i,
    {
        assert(cs@.subrange(i as int, j as int).drop_last() =~= cs@.subrange(i as int, j - 1));
        j = j - 1;
    }
    (i, j)
}

/// `a` and `b` are equal once ASCII letters are lowered (`str::eq_ignore_ascii_case`).
pub open spec fn same_ignoring_ascii_case(a: Seq<char>, b: Seq<char>) -> bool {
    a.len() == b.len() && forall|i: int| 0 <= i < a.len() ==> ascii_lower_spec(a[i]) == ascii_lower_spec(b[i])
}

/// Whether `cs[from..to]` equals `b` once ASCII letters are lowered.
pub fn range_eq_ignore_ascii_case(cs: &Vec<char>, from: usize, to: usize, b: &str) -> (r: bool)
    requires
        from <= to <= cs@.len(),
    ensures
        r == same_ignoring_ascii_case(cs@.subrange(from as int, to as int), b@),
{
    let m = b.unicode_len();
    if to - from != m {
        return false;
    }
    let mut i: usize = 0;
    while i < m
        invariant
            from <= to <= cs@.len(),
            to - from == m,
            m == b@.len(),
            i <= m,
            forall|k: int| 0 <= k < i ==> ascii_lower_spec(cs@[from + k]) == ascii_lower_spec(b@[k]),
        decreases m - i,
    {
        if ascii_lower(cs[from + i]) != ascii_lower(b.get_char(i)) {
            return false;
        }
        i = i + 1;
    }
    true
}

} // verus!

verus! {

/// The characters of an optional text.
pub open spec fn opt_chars(o: Option<&str>) -> Option<Seq<char>> {
    match o {
        Some(s) => Some(s@),
        None => None,
    }
}

} // verus!
