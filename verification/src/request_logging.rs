//! What the request-logging middleware may write: how verbose it is, which paths never
//! have their bodies logged, and how JSON bodies are redacted before they are.

use std::cmp::Ordering;
use vstd::prelude::*;
use vstd::std_specs::cmp::PartialOrdSpecImpl;

use crate::numeric::parse_decimal_range;
use crate::numeric::parse_unsigned_decimal;
use crate::text::chars_of;
use crate::text::ends_with;
use crate::text::has_prefix;
use crate::text::has_suffix;
use crate::text::join;
use crate::text::opt_chars;
use crate::text::range_eq_ignore_ascii_case;
use crate::text::same_ignoring_ascii_case;
use crate::text::trim_bounds;
use crate::text::trimmed;
use crate::text::is_ascii_alphanumeric;
use crate::text::is_ascii_alphanumeric_spec;
use crate::text::ascii_lower;
use crate::text::ascii_lower_spec;
use crate::text::starts_with;
use crate::text::str_eq;

verus! {

/// How much of each request the middleware logs; every level logs what the ones before
/// it log.
#[derive(Clone, Copy, Debug, PartialEq, Eq, Structural)]
pub enum RequestsLoggingLevel {
    Off,
    Path,
    Headers,
    Body,
}

impl RequestsLoggingLevel {
    /// Position of the level in the order `Off < Path < Headers < Body`.
    pub open spec fn rank_spec(self) -> nat {
        match self {
            RequestsLoggingLevel::Off => 0,
            RequestsLoggingLevel::Path => 1,
            RequestsLoggingLevel::Headers => 2,
            RequestsLoggingLevel::Body => 3,
        }
    }

    pub fn rank(&self) -> (r: u8)
        ensures
            r == self.rank_spec(),
    {
        match self {
            RequestsLoggingLevel::Off => 0,
            RequestsLoggingLevel::Path => 1,
            RequestsLoggingLevel::Headers => 2,
            RequestsLoggingLevel::Body => 3,
        }
    }

    /// `self` is at least as verbose as `other`.
    pub fn at_least(&self, other: &RequestsLoggingLevel) -> (r: bool)
        ensures
            r == (self.rank_spec() >= other.rank_spec()),
    {
        self.rank() >= other.rank()
    }

    /// Whether requests are traced at all.
    pub fn traces(&self) -> (r: bool)
        ensures
            r == (self.rank_spec() > 0),
    {
        self.rank() > 0
    }

    /// Whether allow-listed headers are logged.
    pub fn logs_headers(&self) -> (r: bool)
        ensures
            r == (self.rank_spec() >= 2),
    {
        self.rank() >= 2
    }

    /// Whether bodies are logged.
    pub fn logs_bodies(&self) -> (r: bool)
        ensures
            r == (self.rank_spec() >= 3),
    {
        self.rank() >= 3
    }

    pub open spec fn name_spec(self) -> Seq<char> {
        match self {
            RequestsLoggingLevel::Off => "Off"@,
            RequestsLoggingLevel::Path => "Path"@,
            RequestsLoggingLevel::Headers => "Headers"@,
            RequestsLoggingLevel::Body => "Body"@,
        }
    }

    /// The level's name, as it is displayed.
    pub fn name(&self) -> (r: &'static str)
        ensures
            r@ == self.name_spec(),
    {
        match self {
            RequestsLoggingLevel::Off => "Off",
            RequestsLoggingLevel::Path => "Path",
            RequestsLoggingLevel::Headers => "Headers",
            RequestsLoggingLevel::Body => "Body",
        }
    }
}

/// The three-way comparison of two ranks.
pub open spec fn rank_order(a: nat, b: nat) -> Ordering {
    if a < b {
        Ordering::Less
    } else if a == b {
        Ordering::Equal
    } else {
        Ordering::Greater
    }
}

impl PartialOrd for RequestsLoggingLevel {
    fn partial_cmp(&self, other: &Self) -> (r: Option<Ordering>) {
        let a = self.rank();
        let b = other.rank();
        if a < b {
            Some(Ordering::Less)
        } else if a == b {
            Some(Ordering::Equal)
        } else {
            Some(Ordering::Greater)
        }
    }
}

impl PartialOrdSpecImpl for RequestsLoggingLevel {
    open spec fn obeys_partial_cmp_spec() -> bool {
        true
    }

    open spec fn partial_cmp_spec(&self, other: &Self) -> Option<Ordering> {
        Some(rank_order(self.rank_spec(), other.rank_spec()))
    }
}

impl Default for RequestsLoggingLevel {
    fn default() -> (r: Self)
        ensures
            r == RequestsLoggingLevel::Path,
    {
        RequestsLoggingLevel::Path
    }
}

/// Bodies no larger than this many bytes (exclusive) are read for logging.
pub const MAX_LOGGABLE_BODY_LENGTH: usize = 1024;

/// Paths that carry credentials: the authentication routes and an administrator's
/// password and credential routes.
pub open spec fn authentication_path(p: Seq<char>) -> bool {
    ||| p == "/v1/auth"@
    ||| has_prefix(p, "/v1/auth/"@)
    ||| (has_prefix(p, "/v1/admin/users/"@) && (has_suffix(p, "/password"@) || has_suffix(
        p,
        "/credentials"@,
    )))
}

pub fn is_authentication_path(path: &str) -> (r: bool)
    ensures
        r == authentication_path(path@),
{
    str_eq(path, "/v1/auth") || starts_with(path, "/v1/auth/") || (starts_with(
        path,
        "/v1/admin/users/",
    ) && (ends_with(path, "/password") || ends_with(path, "/credentials")))
}

/// `p` is `root` itself or a path below it (`root`, then `/`, then anything).
pub open spec fn at_or_below(p: Seq<char>, root: Seq<char>) -> bool {
    p == root || has_prefix(p, root.push('/'))
}

/// Whether `path` is `root` or lies below it.
pub fn is_at_or_below(path: &str, root: &str) -> (r: bool)
    ensures
        r == at_or_below(path@, root@),
{
    if str_eq(path, root) {
        return true;
    }
    if !starts_with(path, root) {
        proof {
            if has_prefix(path@, root@.push('/')) {
                assert(path@.take(root@.len() as int) =~= root@.push('/').take(
                    root@.len() as int,
                ));
                assert(root@.push('/').take(root@.len() as int) =~= root@);
            }
        }
        return false;
    }
    let n = path.unicode_len();
    let m = root.unicode_len();
    if n == m {
        proof {
            assert(path@ =~= path@.take(m as int));
        }
        return false;
    }
    let next = path.get_char(m);
    proof {
        let q = root@.push('/');
        if next == '/' {
            assert(path@.take(q.len() as int) =~= q);
        } else {
            assert(path@.take(q.len() as int)[m as int] != q[m as int]);
        }
    }
    next == '/'
}

/// The routes whose bodies are reports written by users, never logged.
pub open spec fn report_path(p: Seq<char>) -> bool {
    ||| at_or_below(p, "/v1/reports"@)
    ||| at_or_below(p, "/v1/admin/reports"@)
    ||| at_or_below(p, "/v1/user/bug-report"@)
    ||| at_or_below(p, "/v1/admin/bug-report"@)
    ||| at_or_below(p, "/v1/admin/bug-reports"@)
}

pub fn is_report_path(path: &str) -> (r: bool)
    ensures
        r == report_path(path@),
{
    is_at_or_below(path, "/v1/reports") || is_at_or_below(path, "/v1/admin/reports")
        || is_at_or_below(path, "/v1/user/bug-report") || is_at_or_below(
        path,
        "/v1/admin/bug-report",
    ) || is_at_or_below(path, "/v1/admin/bug-reports")
}

/// A JSON key with everything but ASCII letters and digits dropped and the letters
/// lowered: `Client_Secret` and `client-secret` both give `clientsecret`.
pub open spec fn normalized_key(k: Seq<char>) -> Seq<char>
    decreases k.len(),
{
    if k.len() == 0 {
        Seq::<char>::empty()
    } else if is_ascii_alphanumeric_spec(k.last()) {
        normalized_key(k.drop_last()).push(ascii_lower_spec(k.last()))
    } else {
        normalized_key(k.drop_last())
    }
}

/// `w` occurs somewhere in `s`.
pub open spec fn occurs_in(w: Seq<char>, s: Seq<char>) -> bool {
    exists|i: int| 0 <= i && i + w.len() <= s.len() && #[trigger] s.subrange(i, i + w.len()) == w
}

/// Keys whose values are credentials: after normalizing, `authorization`, `cookie`,
/// `setcookie`, `credential` or `credentials`, anything holding `password` or `secret`,
/// and anything ending in `token` or `apikey`.
pub open spec fn sensitive_key(k: Seq<char>) -> bool {
    let n = normalized_key(k);
    ||| n == "authorization"@
    ||| n == "cookie"@
    ||| n == "setcookie"@
    ||| n == "credential"@
    ||| n == "credentials"@
    ||| occurs_in("password"@, n)
    ||| occurs_in("secret"@, n)
    ||| has_suffix(n, "token"@)
    ||| has_suffix(n, "apikey"@)
}

fn normalize_key(key: &str) -> (r: Vec<char>)
    ensures
        r@ == normalized_key(key@),
{
    let n = key.unicode_len();
    let mut out: Vec<char> = Vec::new();
    let mut i: usize = 0;
    while i < n
        invariant
            n == key@.len(),
            i <= n,
            out@ == normalized_key(key@.take(i as int)),
        decreases n - i,
    {
        let c = key.get_char(i);
        proof {
            let t = key@.take(i as int + 1);
            assert(t.drop_last() =~= key@.take(i as int));
            assert(t.last() == c);
        }
        if is_ascii_alphanumeric(c) {
            out.push(ascii_lower(c));
        }
        i = i + 1;
    }
    assert(key@.take(n as int) =~= key@);
    out
}

fn seq_eq(a: &Vec<char>, b: &Vec<char>) -> (r: bool)
    ensures
        r == (a@ == b@),
{
    if a.len() != b.len() {
        return false;
    }
    let mut i: usize = 0;
    while i < a.len()
        invariant
            a@.len() == b@.len(),
            i <= a@.len(),
            forall|k: int| 0 <= k < i ==> a@[k] == b@[k],
        decreases a@.len() - i,
    {
        if a[i] != b[i] {
            return false;
        }
        i = i + 1;
    }
    assert(a@ =~= b@);
    true
}

fn matches_at(s: &Vec<char>, w: &Vec<char>, at: usize) -> (r: bool)
    requires
        at + w@.len() <= s@.len(),
    ensures
        r == (s@.subrange(at as int, at + w@.len()) == w@),
{
    let mut i: usize = 0;
    while i < w.len()
        invariant
            at + w@.len() <= s@.len(),
            s@.len() == s.len(),
            i <= w@.len(),
            forall|k: int| 0 <= k < i ==> s@[at + k] == w@[k],
        decreases w@.len() - i,
    {
        if s[at + i] != w[i] {
            assert(s@.subrange(at as int, at + w@.len())[i as int] != w@[i as int]);
            return false;
        }
        i = i + 1;
    }
    assert(s@.subrange(at as int, at + w@.len()) =~= w@);
    true
}

fn contains_chars(s: &Vec<char>, w: &Vec<char>) -> (r: bool)
    ensures
        r == occurs_in(w@, s@),
{
    if w.len() > s.len() {
        return false;
    }
    let last = s.len() - w.len();
    let mut at: usize = 0;
    loop
        invariant
            w@.len() <= s@.len(),
            last == s@.len() - w@.len(),
            at <= last,
            forall|j: int| 0 <= j < at ==> #[trigger] s@.subrange(j, j + w@.len()) != w@,
        decreases last - at,
    {
        if matches_at(s, w, at) {
            return true;
        }
        if at == last {
            return false;
        }
        at = at + 1;
    }
}

fn has_suffix_chars(s: &Vec<char>, w: &Vec<char>) -> (r: bool)
    ensures
        r == has_suffix(s@, w@),
{
    if w.len() > s.len() {
        return false;
    }
    let at = s.len() - w.len();
    let r = matches_at(s, w, at);
    assert(s@.skip(at as int) =~= s@.subrange(at as int, at + w@.len()));
    r
}

/// Whether a JSON key names a credential, whose value must not be logged.
pub fn is_sensitive_json_key(key: &str) -> (r: bool)
    ensures
        r == sensitive_key(key@),
{
    let n = normalize_key(key);
    seq_eq(&n, &chars_of("authorization")) || seq_eq(&n, &chars_of("cookie")) || seq_eq(
        &n,
        &chars_of("setcookie"),
    ) || seq_eq(&n, &chars_of("credential")) || seq_eq(&n, &chars_of("credentials"))
        || contains_chars(&n, &chars_of("password")) || contains_chars(&n, &chars_of("secret"))
        || has_suffix_chars(&n, &chars_of("token")) || has_suffix_chars(&n, &chars_of("apikey"))
}

/// A JSON document as the logging middleware sees it. Numbers keep the text they were
/// written in; an object keeps its members in order.
#[derive(Debug)]
pub enum JsonValue {
    Null,
    Boolean(bool),
    Number(String),
    Text(String),
    Array(Vec<JsonValue>),
    Object(Vec<(String, JsonValue)>),
}

/// What a redacted value is replaced with.
pub open spec fn redaction_marker() -> Seq<char> {
    "[REDACTED]"@
}

/// `out` is `inp` with the value of every member whose key is sensitive replaced by the
/// text `[REDACTED]`, at any depth; everything else, keys and order included, is kept.
pub open spec fn redacts(out: JsonValue, inp: JsonValue) -> bool
    decreases inp,
{
    match inp {
        JsonValue::Array(items) => {
            &&& out matches JsonValue::Array(outs)
            &&& outs@.len() == items@.len()
            &&& forall|i: int| 0 <= i < items@.len() ==> redacts(#[trigger] outs@[i], items@[i])
        },
        JsonValue::Object(fields) => {
            &&& out matches JsonValue::Object(outs)
            &&& outs@.len() == fields@.len()
            &&& forall|i: int|
                0 <= i < fields@.len() ==> redacts_member(#[trigger] outs@[i], fields@[i])
        },
        _ => out == inp,
    }
}

/// One member of an object after redaction: same key; the marker as value where the key
/// is sensitive, the redacted value elsewhere.
pub open spec fn redacts_member(out: (String, JsonValue), inp: (String, JsonValue)) -> bool
    decreases inp,
{
    &&& out.0 == inp.0
    &&& if sensitive_key(inp.0@) {
        out.1 matches JsonValue::Text(t) && t@ == redaction_marker()
    } else {
        redacts(out.1, inp.1)
    }
}

/// `value` with every sensitive member's value replaced by `[REDACTED]`.
fn redacted(value: JsonValue) -> (r: JsonValue)
    ensures
        redacts(r, value),
    decreases value,
{
    let ghost whole = value;
    match value {
        JsonValue::Array(items) => {
            let ghost items0 = items;
            let ghost orig = items@;
            let mut items = items;
            let mut rev: Vec<JsonValue> = Vec::new();
            while items.len() > 0
                invariant
                    whole == JsonValue::Array(items0),
                    whole == value,
                    orig == items0@,
                    items@ == orig.take(items@.len() as int),
                    rev@.len() + items@.len() == orig.len(),
                    forall|j: int|
                        0 <= j < rev@.len() ==> redacts(
                            #[trigger] rev@[j],
                            orig[orig.len() - 1 - j],
                        ),
                decreases items@.len(),
            {
                let ghost k = items@.len() - 1;
                let item = items.pop().unwrap();
                proof {
                    assert(item == orig[k]);
                    assert(decreases_to!(whole => whole->Array_0));
                    assert(decreases_to!(items0 => items0@));
                    assert(decreases_to!(items0@ => items0@[k]));
                    assert(decreases_to!(whole => orig[k]));
                }
                rev.push(redacted(item));
            }
            let mut out: Vec<JsonValue> = Vec::new();
            while rev.len() > 0
                invariant
                    out@.len() + rev@.len() == orig.len(),
                    forall|j: int|
                        0 <= j < rev@.len() ==> redacts(
                            #[trigger] rev@[j],
                            orig[orig.len() - 1 - j],
                        ),
                    forall|j: int| 0 <= j < out@.len() ==> redacts(#[trigger] out@[j], orig[j]),
                decreases rev@.len(),
            {
                let ghost j = rev@.len() - 1;
                let x = rev.pop().unwrap();
                proof {
                    assert(redacts(x, orig[orig.len() - 1 - j]));
                }
                out.push(x);
            }
            JsonValue::Array(out)
        },
        JsonValue::Object(fields) => {
            let ghost fields0 = fields;
            let ghost orig = fields@;
            let mut fields = fields;
            let mut rev: Vec<(String, JsonValue)> = Vec::new();
            while fields.len() > 0
                invariant
                    whole == JsonValue::Object(fields0),
                    whole == value,
                    orig == fields0@,
                    fields@ == orig.take(fields@.len() as int),
                    rev@.len() + fields@.len() == orig.len(),
                    forall|j: int|
                        0 <= j < rev@.len() ==> redacts_member(
                            #[trigger] rev@[j],
                            orig[orig.len() - 1 - j],
                        ),
                decreases fields@.len(),
            {
                let ghost k = fields@.len() - 1;
                let (key, val) = fields.pop().unwrap();
                proof {
                    assert(decreases_to!(whole => whole->Object_0));
                    assert(decreases_to!(fields0 => fields0@));
                    assert(decreases_to!(fields0@ => fields0@[k]));
                    assert(decreases_to!(fields0@[k] => fields0@[k].1));
                    assert(decreases_to!(whole => orig[k].1));
                }
                let new_val = if is_sensitive_json_key(key.as_str()) {
                    JsonValue::Text(redaction_text())
                } else {
                    redacted(val)
                };
                rev.push((key, new_val));
            }
            let mut out: Vec<(String, JsonValue)> = Vec::new();
            while rev.len() > 0
                invariant
                    out@.len() + rev@.len() == orig.len(),
                    forall|j: int|
                        0 <= j < rev@.len() ==> redacts_member(
                            #[trigger] rev@[j],
                            orig[orig.len() - 1 - j],
                        ),
                    forall|j: int|
                        0 <= j < out@.len() ==> redacts_member(#[trigger] out@[j], orig[j]),
                decreases rev@.len(),
            {
                let ghost j = rev@.len() - 1;
                let x = rev.pop().unwrap();
                proof {
                    assert(redacts_member(x, orig[orig.len() - 1 - j]));
                }
                out.push(x);
            }
            JsonValue::Object(out)
        },
        other => other,
    }
}

fn redaction_text() -> (r: String)
    ensures
        r@ == redaction_marker(),
{
    "[REDACTED]".to_string()
}

/// Replaces, in place, the value of every member whose key is sensitive by the text
/// `[REDACTED]`, at any depth.
pub fn redact_json(value: &mut JsonValue)
    ensures
        redacts(*final(value), *old(value)),
{
    let mut taken = JsonValue::Null;
    std::mem::swap(&mut taken, value);
    *value = redacted(taken);
}

/// The text before the first `;` of `s` (all of `s` when it holds none).
pub open spec fn before_semicolon(s: Seq<char>) -> Seq<char>
    decreases s.len(),
{
    if s.len() == 0 {
        s
    } else if s[0] == ';' {
        Seq::<char>::empty()
    } else {
        seq![s[0]] + before_semicolon(s.drop_first())
    }
}

/// A `Content-Type` value whose media type, before any parameter, is `application/json`
/// in any ASCII case.
pub open spec fn json_content_type(ct: Seq<char>) -> bool {
    same_ignoring_ascii_case(trimmed(before_semicolon(ct)), "application/json"@)
}

proof fn lemma_before_semicolon_step(s: Seq<char>, i: int)
    requires
        0 <= i < s.len(),
        s[i] != ';',
    ensures
        s.take(i) + before_semicolon(s.skip(i)) == s.take(i + 1) + before_semicolon(s.skip(i + 1)),
{
    assert(s.skip(i).drop_first() =~= s.skip(i + 1));
    assert(s.skip(i)[0] == s[i]);
    assert(s.take(i + 1) =~= s.take(i) + seq![s[i]]);
    assert(s.take(i) + (seq![s[i]] + before_semicolon(s.skip(i + 1))) =~= s.take(i + 1)
        + before_semicolon(s.skip(i + 1)));
}

/// Whether a `Content-Type` value announces JSON.
pub fn is_json_content_type(content_type: &str) -> (r: bool)
    ensures
        r == json_content_type(content_type@),
{
    let cs = chars_of(content_type);
    let n = cs.len();
    let mut e: usize = 0;
    assert(cs@.skip(0) =~= cs@);
    assert(cs@.take(0) + before_semicolon(cs@.skip(0)) =~= before_semicolon(cs@));
    while e < n && cs[e] != ';'
        invariant
            n == cs@.len(),
            cs@ == content_type@,
            e <= n,
            before_semicolon(cs@) == cs@.take(e as int) + before_semicolon(cs@.skip(e as int)),
        decreases n - e,
    {
        proof {
            lemma_before_semicolon_step(cs@, e as int);
        }
        e = e + 1;
    }
    proof {
        if e < n {
            assert(cs@.skip(e as int)[0] == ';');
        } else {
            assert(cs@.skip(e as int) =~= Seq::<char>::empty());
        }
        assert(before_semicolon(cs@) =~= cs@.subrange(0, e as int));
    }
    let (start, end) = trim_bounds(&cs, 0, e);
    range_eq_ignore_ascii_case(&cs, start, end, "application/json")
}

/// Why a body was left out of the log.
#[derive(Clone, Copy, Debug, PartialEq, Eq, Structural)]
pub enum Omission {
    /// The route carries user reports.
    ReportEndpoint,
    /// The route carries credentials.
    AuthenticationEndpoint,
    /// The body is not announced as JSON.
    NotJson,
    /// The body announced as JSON does not parse, or cannot be written back.
    InvalidJson,
}

impl Omission {
    pub open spec fn message_spec(self) -> Seq<char> {
        match self {
            Omission::ReportEndpoint => "[omitted: report endpoint]"@,
            Omission::AuthenticationEndpoint => "[omitted: authentication endpoint]"@,
            Omission::NotJson => "[omitted: only JSON bodies are loggable]"@,
            Omission::InvalidJson => "[omitted: invalid JSON body]"@,
        }
    }

    /// The text logged in place of the body.
    pub fn message(&self) -> (r: &'static str)
        ensures
            r@ == self.message_spec(),
    {
        match self {
            Omission::ReportEndpoint => "[omitted: report endpoint]",
            Omission::AuthenticationEndpoint => "[omitted: authentication endpoint]",
            Omission::NotJson => "[omitted: only JSON bodies are loggable]",
            Omission::InvalidJson => "[omitted: invalid JSON body]",
        }
    }
}

/// What the log may show of a body: an omission notice, or the redacted JSON document.
#[derive(Debug)]
pub enum LoggableBody {
    Omitted(Omission),
    Redacted(JsonValue),
}

/// The omission, if any, that `path` and the `Content-Type` value call for, checked in
/// this order: report routes, authentication routes, bodies not announced as JSON.
pub open spec fn omission_for(path: Seq<char>, content_type: Option<Seq<char>>) -> Option<Omission> {
    if report_path(path) {
        Some(Omission::ReportEndpoint)
    } else if authentication_path(path) {
        Some(Omission::AuthenticationEndpoint)
    } else if !(content_type matches Some(ct) && json_content_type(ct)) {
        Some(Omission::NotJson)
    } else {
        None
    }
}

/// Whether a body must be left out of the log whatever it holds, and why.
pub fn body_omission(path: &str, content_type: Option<&str>) -> (r: Option<Omission>)
    ensures
        r == omission_for(path@, opt_chars(content_type)),
{
    if is_report_path(path) {
        return Some(Omission::ReportEndpoint);
    }
    if is_authentication_path(path) {
        return Some(Omission::AuthenticationEndpoint);
    }
    let is_json = match content_type {
        Some(ct) => is_json_content_type(ct),
        None => false,
    };
    if !is_json {
        return Some(Omission::NotJson);
    }
    None
}

/// What the log shows of a body sent to `path` with the given `Content-Type` value;
/// `parsed` is the body read as JSON, `None` where it does not parse. Omitted bodies are
/// never looked at; a JSON body is shown with every credential redacted.
pub fn format_loggable_body(path: &str, content_type: Option<&str>, parsed: Option<JsonValue>) -> (r: LoggableBody)
    ensures
        match omission_for(path@, opt_chars(content_type)) {
            Some(o) => r == LoggableBody::Omitted(o),
            None => match parsed {
                None => r == LoggableBody::Omitted(Omission::InvalidJson),
                Some(v) => r matches LoggableBody::Redacted(out) && redacts(out, v),
            },
        },
{
    match body_omission(path, content_type) {
        Some(o) => LoggableBody::Omitted(o),
        None => match parsed {
            None => LoggableBody::Omitted(Omission::InvalidJson),
            Some(v) => LoggableBody::Redacted(redacted(v)),
        },
    }
}

/// No member with a sensitive key holds anything but the marker, at any depth.
pub open spec fn free_of_credentials(v: JsonValue) -> bool
    decreases v,
{
    match v {
        JsonValue::Array(items) => forall|i: int|
            0 <= i < items@.len() ==> free_of_credentials(#[trigger] items@[i]),
        JsonValue::Object(fields) => forall|i: int|
            0 <= i < fields@.len() ==> member_free_of_credentials(#[trigger] fields@[i]),
        _ => true,
    }
}

pub open spec fn member_free_of_credentials(m: (String, JsonValue)) -> bool
    decreases m,
{
    if sensitive_key(m.0@) {
        m.1 matches JsonValue::Text(t) && t@ == redaction_marker()
    } else {
        free_of_credentials(m.1)
    }
}

/// Whatever document is redacted, what comes out holds no credential: every member whose
/// key is sensitive, at any depth, holds the marker.
pub proof fn lemma_redaction_leaves_no_credential(out: JsonValue, inp: JsonValue)
    requires
        redacts(out, inp),
    ensures
        free_of_credentials(out),
    decreases inp,
{
    match inp {
        JsonValue::Array(items) => {
            let outs = out->Array_0;
            assert forall|i: int| 0 <= i < outs@.len() implies free_of_credentials(
                #[trigger] outs@[i],
            ) by {
                assert(redacts(outs@[i], items@[i]));
                assert(decreases_to!(inp => inp->Array_0));
                assert(decreases_to!(items => items@));
                assert(decreases_to!(items@ => items@[i]));
                lemma_redaction_leaves_no_credential(outs@[i], items@[i]);
            }
        },
        JsonValue::Object(fields) => {
            let outs = out->Object_0;
            assert forall|i: int| 0 <= i < outs@.len() implies member_free_of_credentials(
                #[trigger] outs@[i],
            ) by {
                assert(redacts_member(outs@[i], fields@[i]));
                if !sensitive_key(fields@[i].0@) {
                    assert(decreases_to!(inp => inp->Object_0));
                    assert(decreases_to!(fields => fields@));
                    assert(decreases_to!(fields@ => fields@[i]));
                    assert(decreases_to!(fields@[i] => fields@[i].1));
                    lemma_redaction_leaves_no_credential(outs@[i].1, fields@[i].1);
                }
            }
        },
        _ => {},
    }
}

/// Which side of the exchange a set of headers comes from.
#[derive(Clone, Copy, Debug, PartialEq, Eq, Structural)]
pub enum HeaderSide {
    Request,
    Response,
}

/// The headers known to carry nothing secret, by side; every other header (credentials
/// and cookies above all) is never logged.
pub open spec fn safe_header(side: HeaderSide, name: Seq<char>) -> bool {
    match side {
        HeaderSide::Request => {
            ||| name == "accept"@
            ||| name == "accept-encoding"@
            ||| name == "accept-language"@
            ||| name == "content-length"@
            ||| name == "content-type"@
            ||| name == "range"@
            ||| name == "user-agent"@
        },
        HeaderSide::Response => {
            ||| name == "accept-ranges"@
            ||| name == "cache-control"@
            ||| name == "content-length"@
            ||| name == "content-range"@
            ||| name == "content-type"@
            ||| name == "etag"@
            ||| name == "last-modified"@
        },
    }
}

/// Whether the header `name` (lower case, as header maps keep it) may be logged.
pub fn is_safe_header(side: HeaderSide, name: &str) -> (r: bool)
    ensures
        r == safe_header(side, name@),
{
    match side {
        HeaderSide::Request => str_eq(name, "accept") || str_eq(name, "accept-encoding") || str_eq(
            name,
            "accept-language",
        ) || str_eq(name, "content-length") || str_eq(name, "content-type") || str_eq(
            name,
            "range",
        ) || str_eq(name, "user-agent"),
        HeaderSide::Response => str_eq(name, "accept-ranges") || str_eq(name, "cache-control")
            || str_eq(name, "content-length") || str_eq(name, "content-range") || str_eq(
            name,
            "content-type",
        ) || str_eq(name, "etag") || str_eq(name, "last-modified"),
    }
}

/// The log line of one header; a value that is not text shows as `<non-UTF-8>`.
pub open spec fn header_line(name: Seq<char>, value: Option<Seq<char>>) -> Seq<char> {
    "    "@ + name + ": "@ + match value {
        Some(v) => v,
        None => "<non-UTF-8>"@,
    }
}

/// The lines of the safe headers among `headers`, in their order.
pub open spec fn safe_header_lines(side: HeaderSide, headers: Seq<(String, Option<String>)>) -> Seq<Seq<char>>
    decreases headers.len(),
{
    if headers.len() == 0 {
        Seq::<Seq<char>>::empty()
    } else {
        let rest = safe_header_lines(side, headers.drop_last());
        let (name, value) = headers.last();
        if safe_header(side, name@) {
            rest.push(header_line(name@, opt_string_chars(value)))
        } else {
            rest
        }
    }
}

pub open spec fn opt_string_chars(o: Option<String>) -> Option<Seq<char>> {
    match o {
        Some(s) => Some(s@),
        None => None,
    }
}

/// Renders the safe headers among `headers` (name, then value where it is text), one
/// per line; the result is empty when there is none.
pub fn format_safe_headers(headers: &Vec<(String, Option<String>)>, side: HeaderSide) -> (r: String)
    ensures
        r@ == join(safe_header_lines(side, headers@), '\n'),
{
    let mut out = String::new();
    let mut any = false;
    let mut i: usize = 0;
    while i < headers.len()
        invariant
            i <= headers@.len(),
            any == (safe_header_lines(side, headers@.take(i as int)).len() > 0),
            out@ == join(safe_header_lines(side, headers@.take(i as int)), '\n'),
        decreases headers@.len() - i,
    {
        let ghost before = safe_header_lines(side, headers@.take(i as int));
        assert(headers@.take(i + 1).drop_last() =~= headers@.take(i as int));
        let name = headers[i].0.as_str();
        if is_safe_header(side, name) {
            let ghost old_out = out@;
            if any {
                out.append("\n");
            }
            out.append("    ");
            out.append(name);
            out.append(": ");
            match &headers[i].1 {
                Some(v) => out.append(v.as_str()),
                None => out.append("<non-UTF-8>"),
            }
            proof {
                assert(out@ =~= (if any {
                    old_out + "\n"@
                } else {
                    old_out
                }) + header_line(name@, opt_string_chars(headers@[i as int].1)));
                let line = header_line(name@, opt_string_chars(headers@[i as int].1));
                let after = safe_header_lines(side, headers@.take(i + 1));
                assert(after == before.push(line));
                assert(after.drop_last() =~= before);
                reveal_strlit("\n");
                if any {
                    assert(out@ =~= old_out + seq!['\n'] + line);
                } else {
                    assert(before.len() == 0);
                    assert(after =~= seq![line]);
                    assert(out@ =~= line);
                }
            }
            any = true;
        }
        i = i + 1;
    }
    assert(headers@.take(headers@.len() as int) =~= headers@);
    out
}

/// What the `Content-Length` header of a message says.
#[derive(Clone, Copy, Debug, PartialEq, Eq, Structural)]
pub enum ContentLength {
    Bytes(usize),
    /// The header is absent.
    Missing,
    /// The header's value is not text.
    NotText,
    /// The header's value is not a number of bytes.
    NotANumber,
}

impl ContentLength {
    pub open spec fn message_spec(self) -> Seq<char> {
        match self {
            ContentLength::Bytes(_) => Seq::<char>::empty(),
            ContentLength::Missing => "Content-length not set."@,
            ContentLength::NotText => "Could not get Content-length string value."@,
            ContentLength::NotANumber => "Could not parse Content-length numeric value."@,
        }
    }

    /// Why the length is unknown (empty where it is known).
    pub fn message(&self) -> (r: &'static str)
        ensures
            r@ == self.message_spec(),
    {
        proof {
            reveal_strlit("");
        }
        match self {
            ContentLength::Bytes(_) => "",
            ContentLength::Missing => "Content-length not set.",
            ContentLength::NotText => "Could not get Content-length string value.",
            ContentLength::NotANumber => "Could not parse Content-length numeric value.",
        }
    }

    /// Bytes the message announces, 0 where it announces none.
    pub fn announced_bytes(&self) -> (r: u64)
        ensures
            r == match self {
                ContentLength::Bytes(n) => *n as int,
                _ => 0,
            },
    {
        match self {
            ContentLength::Bytes(n) => *n as u64,
            _ => 0,
        }
    }
}

/// The reading of a `Content-Length` header: `header` is `None` where it is absent, and
/// holds `None` where its value is not text.
pub open spec fn content_length_of(header: Option<Option<Seq<char>>>) -> ContentLength {
    match header {
        None => ContentLength::Missing,
        Some(None) => ContentLength::NotText,
        Some(Some(v)) => match parse_unsigned_decimal(v, usize::MAX as nat) {
            Some(n) => ContentLength::Bytes(n as usize),
            None => ContentLength::NotANumber,
        },
    }
}

/// Reads a `Content-Length` header, parsed as `str::parse::<usize>` does.
pub fn parse_content_length(header: Option<Option<&str>>) -> (r: ContentLength)
    ensures
        r == content_length_of(match header {
            None => None,
            Some(v) => Some(opt_chars(v)),
        }),
{
    match header {
        None => ContentLength::Missing,
        Some(None) => ContentLength::NotText,
        Some(Some(v)) => {
            let cs = chars_of(v);
            assert(cs@.subrange(0, cs@.len() as int) =~= cs@);
            match parse_decimal_range(&cs, 0, cs.len(), usize::MAX as u64) {
                Some(n) => ContentLength::Bytes(n as usize),
                None => ContentLength::NotANumber,
            }
        },
    }
}

/// What the middleware does about one body.
#[derive(Clone, Copy, Debug, PartialEq, Eq, Structural)]
pub enum BodyLogPlan {
    /// Nothing is logged of the body.
    Skip,
    /// The length is unknown; its reason is logged.
    Unknown(ContentLength),
    /// The body is too large: only its size is logged.
    TooBig(usize),
    /// The body (this many bytes) is read and logged.
    Read(usize),
}

pub open spec fn body_log_plan_for(level: RequestsLoggingLevel, path: Seq<char>, length: ContentLength) -> BodyLogPlan {
    if level.rank_spec() < 3 || report_path(path) {
        BodyLogPlan::Skip
    } else {
        match length {
            ContentLength::Bytes(n) => if n < MAX_LOGGABLE_BODY_LENGTH {
                BodyLogPlan::Read(n)
            } else {
                BodyLogPlan::TooBig(n)
            },
            other => BodyLogPlan::Unknown(other),
        }
    }
}

/// Whether and how a body is logged: only at the `Body` level, never on report routes,
/// and only when it announces fewer than `MAX_LOGGABLE_BODY_LENGTH` bytes.
pub fn body_log_plan(level: RequestsLoggingLevel, path: &str, length: ContentLength) -> (r: BodyLogPlan)
    ensures
        r == body_log_plan_for(level, path@, length),
{
    if !level.logs_bodies() || is_report_path(path) {
        return BodyLogPlan::Skip;
    }
    match length {
        ContentLength::Bytes(n) => if n < MAX_LOGGABLE_BODY_LENGTH {
            BodyLogPlan::Read(n)
        } else {
            BodyLogPlan::TooBig(n)
        },
        other => BodyLogPlan::Unknown(other),
    }
}

/// The day a bandwidth sample is filed under, written `YYYYMMDD` as a number.
pub fn bandwidth_day(year: u32, month: u32, day: u32) -> (r: u32)
    requires
        year * 10000 + month * 100 + day <= u32::MAX,
    ensures
        r == year * 10000 + month * 100 + day,
{
    year * 10000 + month * 100 + day
}

} // verus!
