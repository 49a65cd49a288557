//! The cache policy of HTTP answers: which API answers may be kept in a private cache,
//! and what `Cache-Control` says otherwise.

use vstd::prelude::*;

use crate::text::ascii_lower;
use crate::text::ascii_lower_spec;
use crate::text::decimal;
use crate::text::decimal_string;
use crate::text::has_prefix;
use crate::text::is_separator_spec;
use crate::text::split_tokens;
use crate::text::tokens;
use crate::text::Separators;
use crate::text::starts_with;
use crate::text::str_eq;

verus! {

/// `/v1` and every path below it: the API, whose answers are never stored by default.
pub open spec fn api_path(p: Seq<char>) -> bool {
    p == "/v1"@ || has_prefix(p, "/v1/"@)
}

pub fn is_api_path(path: &str) -> (r: bool)
    ensures
        r == api_path(path@),
{
    str_eq(path, "/v1") || starts_with(path, "/v1/")
}

/// `s` with ASCII letters lowered.
pub open spec fn ascii_lowercase(s: Seq<char>) -> Seq<char> {
    s.map_values(|c: char| ascii_lower_spec(c))
}

/// Whether `s`, with ASCII letters lowered, begins with `prefix` (written in lower case).
fn lower_starts_with(s: &str, prefix: &str) -> (r: bool)
    ensures
        r == has_prefix(ascii_lowercase(s@), prefix@),
{
    let n = s.unicode_len();
    let m = prefix.unicode_len();
    if m > n {
        return false;
    }
    let mut i: usize = 0;
    while i < m
        invariant
            n == s@.len(),
            m == prefix@.len(),
            m <= n,
            i <= m,
            forall|k: int| 0 <= k < i ==> ascii_lower_spec(s@[k]) == prefix@[k],
        decreases m - i,
    {
        if ascii_lower(s.get_char(i)) != prefix.get_char(i) {
            assert(ascii_lowercase(s@).take(m as int)[i as int] != prefix@[i as int]);
            return false;
        }
        i = i + 1;
    }
    assert(ascii_lowercase(s@).take(m as int) =~= prefix@);
    true
}

/// Content that is streamed or played (audio, video, server-sent events) rather than
/// read once.
pub open spec fn streamed_content(content_type: Seq<char>) -> bool {
    let l = ascii_lowercase(content_type);
    has_prefix(l, "audio/"@) || has_prefix(l, "video/"@) || has_prefix(l, "text/event-stream"@)
}

/// A successful, whole `GET` or `HEAD` answer that is not streamed content: the only
/// answers that a private cache may keep.
pub open spec fn private_cacheable(method: Seq<char>, status: u16, has_content_range: bool, content_type: Option<Seq<char>>) -> bool {
    &&& (method == "GET"@ || method == "HEAD"@)
    &&& 200 <= status <= 299
    &&& status != 206
    &&& !has_content_range
    &&& !(content_type matches Some(ct) && streamed_content(ct))
}

/// Whether an answer may be kept in a private cache; `content_type` is `None` where the
/// answer has no `Content-Type` or it is not text.
pub fn is_private_cacheable(method: &str, status: u16, has_content_range: bool, content_type: Option<&str>) -> (r: bool)
    ensures
        r == private_cacheable(method@, status, has_content_range, crate::text::opt_chars(content_type)),
{
    if !(str_eq(method, "GET") || str_eq(method, "HEAD")) || !(200 <= status && status <= 299)
        || status == 206 || has_content_range {
        return false;
    }
    match content_type {
        Some(ct) => !(lower_starts_with(ct, "audio/") || lower_starts_with(ct, "video/")
            || lower_starts_with(ct, "text/event-stream")),
        None => true,
    }
}

/// An answer whose content type begins, ignoring ASCII case, with `audio/`, `video/` or
/// `text/event-stream` is never privately cacheable, whatever its method, status and range.
pub proof fn lemma_streamed_content_never_cached(
    method: Seq<char>,
    status: u16,
    has_content_range: bool,
    content_type: Seq<char>,
)
    requires
        has_prefix(ascii_lowercase(content_type), "audio/"@) || has_prefix(
            ascii_lowercase(content_type),
            "video/"@,
        ) || has_prefix(ascii_lowercase(content_type), "text/event-stream"@),
    ensures
        !private_cacheable(method, status, has_content_range, Some(content_type)),
{
}

/// A whole, successful `GET` or `HEAD` answer other than partial content, whose content
/// type (if any) is not streamed, is privately cacheable.
pub proof fn lemma_plain_success_cached(
    method: Seq<char>,
    status: u16,
    content_type: Option<Seq<char>>,
)
    requires
        method == "GET"@ || method == "HEAD"@,
        200 <= status <= 299,
        status != 206,
        content_type matches Some(ct) ==> !has_prefix(ascii_lowercase(ct), "audio/"@) && !has_prefix(
            ascii_lowercase(ct),
            "video/"@,
        ) && !has_prefix(ascii_lowercase(ct), "text/event-stream"@),
    ensures
        private_cacheable(method, status, false, content_type),
{
}

/// What the cache layer does with an answer's `Cache-Control`.
#[derive(Clone, Debug)]
pub enum CacheDirective {
    /// The route already set it: left alone.
    Keep,
    /// `private, max-age=<seconds>`, with `Vary` extended by `Cookie` and
    /// `Authorization`.
    Private(String),
    /// `no-store`.
    NoStore,
}

/// The value of a private cache policy kept for `max_age` seconds.
pub open spec fn private_policy(max_age: nat) -> Seq<char> {
    "private, max-age="@ + decimal(max_age)
}

/// The cache policy for an answer of a cacheable catalog route: an explicit policy of the
/// route wins; a privately cacheable answer is kept for `max_age` seconds; anything else
/// is never stored.
pub fn cache_directive(
    explicit_policy: bool,
    method: &str,
    status: u16,
    has_content_range: bool,
    content_type: Option<&str>,
    max_age: usize,
) -> (r: CacheDirective)
    ensures
        explicit_policy ==> r is Keep,
        !explicit_policy && private_cacheable(method@, status, has_content_range, crate::text::opt_chars(content_type))
            ==> (r matches CacheDirective::Private(v) && v@ == private_policy(max_age as nat)),
        !explicit_policy && !private_cacheable(method@, status, has_content_range, crate::text::opt_chars(content_type))
            ==> r is NoStore,
{
    if explicit_policy {
        return CacheDirective::Keep;
    }
    if is_private_cacheable(method, status, has_content_range, content_type) {
        let mut v = "private, max-age=".to_string();
        let n = decimal_string(max_age as u64);
        v.append(n.as_str());
        CacheDirective::Private(v)
    } else {
        CacheDirective::NoStore
    }
}

/// Whether the outermost layer must add `no-store` to an answer: API paths only, and only
/// where no policy was set.
pub fn needs_default_no_store(path: &str, explicit_policy: bool) -> (r: bool)
    ensures
        r == (api_path(path@) && !explicit_policy),
{
    is_api_path(path) && !explicit_policy
}

/// Whether the texts are equal once their ASCII letters are lowered.
pub fn eq_ignore_ascii_case(a: &str, b: &str) -> (r: bool)
    ensures
        r == (ascii_lowercase(a@) == ascii_lowercase(b@)),
{
    let n = a.unicode_len();
    if n != b.unicode_len() {
        proof {
            assert(ascii_lowercase(a@).len() != ascii_lowercase(b@).len());
        }
        return false;
    }
    let mut i: usize = 0;
    while i < n
        invariant
            n == a@.len(),
            n == b@.len(),
            i <= n,
            forall|k: int| 0 <= k < i ==> ascii_lower_spec(a@[k]) == ascii_lower_spec(b@[k]),
        decreases n - i,
    {
        if ascii_lower(a.get_char(i)) != ascii_lower(b.get_char(i)) {
            assert(ascii_lowercase(a@)[i as int] != ascii_lowercase(b@)[i as int]);
            return false;
        }
        i = i + 1;
    }
    assert(ascii_lowercase(a@) =~= ascii_lowercase(b@));
    true
}

/// Whether a `Vary` header, as its list of values, already names `field` (header names
/// compare without regard to ASCII case; a value lists names between commas).
pub open spec fn vary_names(values: Seq<Seq<char>>, field: Seq<char>) -> bool {
    exists|i: int, j: int|
        0 <= i < values.len() && 0 <= j < tokens(Separators::CommaOrWhitespace, values[i]).len() && ascii_lowercase(
            #[trigger] tokens(Separators::CommaOrWhitespace, values[i])[j],
        ) == ascii_lowercase(field)
}

/// The views of a list of header values.
pub open spec fn values_view(values: Seq<String>) -> Seq<Seq<char>> {
    values.map_values(|v: String| v@)
}

/// The `Vary` values with `field` merged in: all kept as they are, and `field` added as a
/// value of its own unless one of them already names it.
pub fn merged_vary(values: Vec<String>, field: &str) -> (r: Vec<String>)
    ensures
        vary_names(values_view(values@), field@) ==> values_view(r@) == values_view(values@),
        !vary_names(values_view(values@), field@) ==> values_view(r@) == values_view(values@).push(field@),
{
    let ghost vs = values_view(values@);
    let mut i: usize = 0;
    while i < values.len()
        invariant
            i <= values@.len(),
            vs == values_view(values@),
            forall|a: int, b: int|
                0 <= a < i && 0 <= b < tokens(Separators::CommaOrWhitespace, vs[a]).len() ==> ascii_lowercase(
                    #[trigger] tokens(Separators::CommaOrWhitespace, vs[a])[b],
                ) != ascii_lowercase(field@),
        decreases values@.len() - i,
    {
        let names = split_tokens(values[i].as_str(), Separators::CommaOrWhitespace);
        let mut j: usize = 0;
        while j < names.len()
            invariant
                i < values@.len(),
                vs == values_view(values@),
                j <= names@.len(),
                names@.len() == tokens(Separators::CommaOrWhitespace, vs[i as int]).len(),
                forall|k: int| 0 <= k < names@.len() ==> #[trigger] names@[k]@ == tokens(Separators::CommaOrWhitespace, vs[i as int])[k],
                forall|b: int| 0 <= b < j ==> ascii_lowercase(
                    #[trigger] tokens(Separators::CommaOrWhitespace, vs[i as int])[b],
                ) != ascii_lowercase(field@),
            decreases names@.len() - j,
        {
            if eq_ignore_ascii_case(names[j], field) {
                assert(names@[j as int]@ == tokens(Separators::CommaOrWhitespace, vs[i as int])[j as int]);
                assert(vary_names(vs, field@));
                return values;
            }
            j = j + 1;
        }
        i = i + 1;
    }
    let mut out = values;
    out.push(field.to_string());
    assert(values_view(out@) =~= vs.push(field@));
    out
}

/// The `Vary` values of a privately cached answer: those the route set, with `Cookie` and
/// then `Authorization` merged in, since the answer depends on who asked.
pub fn private_vary(values: Vec<String>) -> (r: Vec<String>)
    ensures
        values_view(r@).take(values@.len() as int) == values_view(values@),
        vary_names(values_view(r@), "Cookie"@),
        vary_names(values_view(r@), "Authorization"@),
{
    let ghost v0 = values_view(values@);
    proof {
        lemma_plain_name("Cookie"@);
        lemma_plain_name("Authorization"@);
    }
    let with_cookie = merged_vary(values, "Cookie");
    proof {
        lemma_merge_names(v0, "Cookie"@, values_view(with_cookie@));
    }
    let ghost v1 = values_view(with_cookie@);
    let r = merged_vary(with_cookie, "Authorization");
    proof {
        lemma_merge_names(v1, "Authorization"@, values_view(r@));
        lemma_merge_keeps_names(v1, "Cookie"@, values_view(r@));
        assert(values_view(r@).take(v0.len() as int) =~= v0) by {
            assert(values_view(r@).take(v1.len() as int) =~= v1);
            assert(v1.take(v0.len() as int) =~= v0);
        }
    }
    r
}

/// `Cookie` and `Authorization` are header names: letters only.
proof fn lemma_plain_name(name: Seq<char>)
    requires
        name == "Cookie"@ || name == "Authorization"@,
    ensures
        name.len() > 0,
        forall|k: int| 0 <= k < name.len() ==> !is_separator_spec(Separators::CommaOrWhitespace, #[trigger] name[k]),
{
    reveal_strlit("Cookie");
    reveal_strlit("Authorization");
    assert forall|k: int| 0 <= k < name.len() implies !is_separator_spec(Separators::CommaOrWhitespace, #[trigger] name[k]) by {
        assert(('A' as u32) <= (name[k] as u32) <= ('z' as u32));
    }
}

/// Merging a name in: the values are kept as a prefix, and afterwards they name it.
proof fn lemma_merge_names(vs: Seq<Seq<char>>, field: Seq<char>, r: Seq<Seq<char>>)
    requires
        vary_names(vs, field) ==> r == vs,
        !vary_names(vs, field) ==> r == vs.push(field),
        field.len() > 0,
        forall|k: int| 0 <= k < field.len() ==> !is_separator_spec(Separators::CommaOrWhitespace, #[trigger] field[k]),
    ensures
        r.take(vs.len() as int) == vs,
        vary_names(r, field),
{
    if !vary_names(vs, field) {
        assert(r.take(vs.len() as int) =~= vs);
        lemma_single_token(field);
        assert(r[vs.len() as int] == field);
        assert(tokens(Separators::CommaOrWhitespace, r[vs.len() as int])[0] == field);
    } else {
        assert(r.take(vs.len() as int) =~= vs);
    }
}

/// A name the values name stays named when values are added after them.
proof fn lemma_merge_keeps_names(vs: Seq<Seq<char>>, other: Seq<char>, r: Seq<Seq<char>>)
    requires
        vary_names(vs, other),
        r.take(vs.len() as int) == vs,
        r.len() >= vs.len(),
    ensures
        vary_names(r, other),
{
    let (i, j) = choose|i: int, j: int|
        0 <= i < vs.len() && 0 <= j < tokens(Separators::CommaOrWhitespace, vs[i]).len() && ascii_lowercase(
            #[trigger] tokens(Separators::CommaOrWhitespace, vs[i])[j],
        ) == ascii_lowercase(other);
    assert(r[i] == r.take(vs.len() as int)[i]);
    assert(tokens(Separators::CommaOrWhitespace, r[i])[j] == tokens(Separators::CommaOrWhitespace, vs[i])[j]);
}

/// A text without separators is its own single token.
proof fn lemma_single_token(s: Seq<char>)
    requires
        s.len() > 0,
        forall|k: int| 0 <= k < s.len() ==> !is_separator_spec(Separators::CommaOrWhitespace, #[trigger] s[k]),
    ensures
        tokens(Separators::CommaOrWhitespace, s) == seq![s],
    decreases s.len(),
{
    if s.len() == 1 {
        assert(s.drop_last() =~= Seq::<char>::empty());
        assert(tokens(Separators::CommaOrWhitespace, s.drop_last()) =~= Seq::<Seq<char>>::empty());
        assert(seq![s.last()] =~= s);
    } else {
        let t = s.drop_last();
        assert forall|k: int| 0 <= k < t.len() implies !is_separator_spec(Separators::CommaOrWhitespace, #[trigger] t[k]) by {
            assert(t[k] == s[k]);
        }
        lemma_single_token(t);
        assert(!is_separator_spec(Separators::CommaOrWhitespace, s[s.len() - 2]));
        assert(!is_separator_spec(Separators::CommaOrWhitespace, s.last()));
        assert(t.push(s.last()) =~= s);
    }
}

} // verus!
