//! Checks and shapes of the HTTP handlers' inputs and answers: embeddings, likes, device
//! sharing, sync, batches of catalog reads, bug reports and the embedding coverage.

use vstd::prelude::*;
use vstd::utf8::encode_utf8;

use crate::api_error::ApiError;
use crate::text::chars_of;
use crate::text::decimal;
use crate::text::decimal_string;
use crate::text::str_eq;
use crate::text::to_lowercase;
use crate::text::lowercase;
use crate::text::trim_bounds;
use crate::text::trimmed;

verus! {

/// Element type of an embedding when the request names none.
pub fn default_dtype() -> (r: String)
    ensures
        r@ == "float32"@,
{
    "float32".to_string()
}

/// The kinds of entity that embeddings are kept for.
pub open spec fn embedding_entity(t: Seq<char>) -> bool {
    t == "track"@ || t == "album"@ || t == "artist"@ || t == "playlist"@ || t == "user"@
}

/// Accepts the kinds of entity that embeddings are kept for; any other is answered 400
/// `unsupported_entity_type`.
pub fn validate_entity_type(entity_type: &str) -> (r: Result<(), ApiError>)
    ensures
        embedding_entity(entity_type@) ==> r is Ok,
        !embedding_entity(entity_type@) ==> (r matches Err(e) && e.shaped(
            400,
            "unsupported_entity_type"@,
            "Unsupported entity type '"@ + entity_type@ + "'"@,
        )),
{
    if str_eq(entity_type, "track") || str_eq(entity_type, "album") || str_eq(entity_type, "artist")
        || str_eq(entity_type, "playlist") || str_eq(entity_type, "user") {
        return Ok(());
    }
    let mut m = "Unsupported entity type '".to_string();
    m.append(entity_type);
    m.append("'");
    Err(ApiError::bad_request("unsupported_entity_type", m))
}

/// Longest namespace accepted, in bytes.
pub const MAX_NAMESPACE_BYTES: usize = 160;

/// Accepts a namespace that is not blank and holds at most 160 bytes; anything else is
/// answered 400 `invalid_namespace`.
pub fn validate_namespace(namespace: &str) -> (r: Result<(), ApiError>)
    ensures
        trimmed(namespace@).len() == 0 ==> (r matches Err(e) && e.shaped(
            400,
            "invalid_namespace"@,
            "Namespace is required"@,
        )),
        trimmed(namespace@).len() > 0 && encode_utf8(namespace@).len() > 160 ==> (r matches Err(
            e,
        ) && e.shaped(400, "invalid_namespace"@, "Namespace is too long; maximum is 160 bytes"@)),
        trimmed(namespace@).len() > 0 && encode_utf8(namespace@).len() <= 160 ==> r is Ok,
{
    let cs = chars_of(namespace);
    let (start, end) = trim_bounds(&cs, 0, cs.len());
    assert(cs@.subrange(0, cs@.len() as int) =~= cs@);
    if start == end {
        return Err(ApiError::bad_request("invalid_namespace", "Namespace is required".to_string()));
    }
    if namespace.as_bytes().len() > MAX_NAMESPACE_BYTES {
        return Err(
            ApiError::bad_request(
                "invalid_namespace",
                "Namespace is too long; maximum is 160 bytes".to_string(),
            ),
        );
    }
    Ok(())
}

/// What a user can like.
#[derive(Clone, Copy, Debug, PartialEq, Eq, Structural)]
pub enum LikedContentType {
    Artist,
    Album,
    Track,
}

pub open spec fn liked_content_type(s: Seq<char>) -> Option<LikedContentType> {
    if s == "artist"@ {
        Some(LikedContentType::Artist)
    } else if s == "album"@ {
        Some(LikedContentType::Album)
    } else if s == "track"@ {
        Some(LikedContentType::Track)
    } else {
        None
    }
}

/// The kind of content named in a like route (`artist`, `album` or `track`).
pub fn parse_content_type(content_type: &str) -> (r: Option<LikedContentType>)
    ensures
        r == liked_content_type(content_type@),
{
    if str_eq(content_type, "artist") {
        Some(LikedContentType::Artist)
    } else if str_eq(content_type, "album") {
        Some(LikedContentType::Album)
    } else if str_eq(content_type, "track") {
        Some(LikedContentType::Track)
    } else {
        None
    }
}

/// Who may see a device's playback.
#[derive(Clone, Copy, Debug, PartialEq, Eq, Structural)]
pub enum DeviceShareMode {
    AllowEveryone,
    DenyEveryone,
    Custom,
}

pub open spec fn share_mode_name(mode: DeviceShareMode) -> Seq<char> {
    match mode {
        DeviceShareMode::AllowEveryone => "allow_everyone"@,
        DeviceShareMode::DenyEveryone => "deny_everyone"@,
        DeviceShareMode::Custom => "custom"@,
    }
}

/// The mode's name in the API.
pub fn policy_mode_to_str(mode: DeviceShareMode) -> (r: &'static str)
    ensures
        r@ == share_mode_name(mode),
{
    match mode {
        DeviceShareMode::AllowEveryone => "allow_everyone",
        DeviceShareMode::DenyEveryone => "deny_everyone",
        DeviceShareMode::Custom => "custom",
    }
}

pub open spec fn share_mode_named(name: Seq<char>) -> Option<DeviceShareMode> {
    if name == "allow_everyone"@ {
        Some(DeviceShareMode::AllowEveryone)
    } else if name == "deny_everyone"@ {
        Some(DeviceShareMode::DenyEveryone)
    } else if name == "custom"@ {
        Some(DeviceShareMode::Custom)
    } else {
        None
    }
}

/// The mode called `name`; `None` (answered 400 `Invalid mode`) for any other name.
pub fn parse_share_mode(name: &str) -> (r: Option<DeviceShareMode>)
    ensures
        r == share_mode_named(name@),
{
    if str_eq(name, "allow_everyone") {
        Some(DeviceShareMode::AllowEveryone)
    } else if str_eq(name, "deny_everyone") {
        Some(DeviceShareMode::DenyEveryone)
    } else if str_eq(name, "custom") {
        Some(DeviceShareMode::Custom)
    } else {
        None
    }
}

/// Reading back the name of a mode gives the mode.
pub proof fn lemma_share_mode_names_round_trip(mode: DeviceShareMode)
    ensures
        share_mode_named(share_mode_name(mode)) == Some(mode),
{
    reveal_strlit("allow_everyone");
    reveal_strlit("deny_everyone");
    reveal_strlit("custom");
    assert("allow_everyone"@.len() == 14);
    assert("deny_everyone"@.len() == 13);
    assert("custom"@.len() == 6);
}

/// A device's sharing policy; roles are held by name.
#[derive(Clone, Debug)]
pub struct DeviceSharePolicy {
    pub mode: DeviceShareMode,
    pub allow_users: Vec<usize>,
    pub allow_roles: Vec<String>,
    pub deny_users: Vec<usize>,
}

/// A sharing policy as the API shows it.
#[derive(Clone, Debug)]
pub struct DeviceSharePolicyResponse {
    pub mode: String,
    pub allow_users: Vec<usize>,
    pub allow_roles: Vec<String>,
    pub deny_users: Vec<usize>,
}

/// The policy as the API shows it: the mode by name and the role names in lower case.
pub fn policy_to_response(policy: DeviceSharePolicy) -> (r: DeviceSharePolicyResponse)
    ensures
        r.mode@ == share_mode_name(policy.mode),
        r.allow_users@ == policy.allow_users@,
        r.deny_users@ == policy.deny_users@,
        r.allow_roles@.len() == policy.allow_roles@.len(),
        forall|i: int|
            0 <= i < r.allow_roles@.len() ==> #[trigger] r.allow_roles@[i]@ == lowercase(
                policy.allow_roles@[i]@,
            ),
{
    let mut roles: Vec<String> = Vec::new();
    let mut i: usize = 0;
    while i < policy.allow_roles.len()
        invariant
            i <= policy.allow_roles@.len(),
            roles@.len() == i,
            forall|k: int|
                0 <= k < i ==> #[trigger] roles@[k]@ == lowercase(policy.allow_roles@[k]@),
        decreases policy.allow_roles@.len() - i,
    {
        roles.push(to_lowercase(policy.allow_roles[i].as_str()));
        i = i + 1;
    }
    DeviceSharePolicyResponse {
        mode: policy_mode_to_str(policy.mode).to_string(),
        allow_users: policy.allow_users,
        allow_roles: roles,
        deny_users: policy.deny_users,
    }
}

/// Longest idempotency key accepted, in bytes.
pub const MAX_IDEMPOTENCY_KEY_BYTES: usize = 128;

/// The `Idempotency-Key` header, read: absent gives `Ok(None)`; a value that is not
/// text, or that once trimmed is empty or longer than 128 bytes, is answered 400; else
/// the trimmed value.
pub open spec fn idempotency_key_of(header: Option<Option<Seq<char>>>) -> Result<Option<Seq<char>>, u16> {
    match header {
        None => Ok(None),
        Some(None) => Err(400),
        Some(Some(v)) => {
            let t = trimmed(v);
            if t.len() == 0 || encode_utf8(t).len() > MAX_IDEMPOTENCY_KEY_BYTES {
                Err(400)
            } else {
                Ok(Some(t))
            }
        },
    }
}

/// Reads the `Idempotency-Key` header: `header` is `None` where it is absent and holds
/// `None` where its value is not text.
pub fn idempotency_key(header: Option<Option<&str>>) -> (r: Result<Option<String>, u16>)
    ensures
        match idempotency_key_of(
            match header {
                None => None,
                Some(v) => Some(crate::text::opt_chars(v)),
            },
        ) {
            Ok(None) => r == Ok::<Option<String>, u16>(None),
            Ok(Some(k)) => r matches Ok(Some(s)) && s@ == k,
            Err(c) => r == Err::<Option<String>, u16>(c),
        },
{
    match header {
        None => Ok(None),
        Some(None) => Err(400),
        Some(Some(v)) => {
            let cs = chars_of(v);
            let (start, end) = trim_bounds(&cs, 0, cs.len());
            assert(cs@.subrange(0, cs@.len() as int) =~= cs@);
            if start == end {
                return Err(400);
            }
            let t = v.substring_char(start, end);
            if t.as_bytes().len() > MAX_IDEMPOTENCY_KEY_BYTES {
                return Err(400);
            }
            Ok(Some(t.to_string()))
        },
    }
}

/// A page of catalog changes for a syncing client.
#[derive(Clone, Debug)]
pub struct CatalogSyncResponse<E> {
    pub events: Vec<E>,
    pub current_seq: i64,
    pub has_more: bool,
    pub next_since: i64,
}

impl<E> CatalogSyncResponse<E> {
    /// The last page: nothing more to fetch, and the next sync starts from the server's
    /// current sequence number.
    pub fn complete(events: Vec<E>, current_seq: i64) -> (r: Self)
        ensures
            r.events@ == events@,
            r.current_seq == current_seq,
            !r.has_more,
            r.next_since == current_seq,
    {
        CatalogSyncResponse { events, current_seq, has_more: false, next_since: current_seq }
    }
}

/// Bug reports listed per page when the query names no limit.
pub fn default_bug_report_limit() -> (r: usize)
    ensures
        r == 50,
{
    50
}

/// Popularity given to a new catalog entry when the request names none.
pub fn default_popularity() -> (r: i32)
    ensures
        r == 50,
{
    50
}

/// Disc number given to a new track when the request names none.
pub fn default_disc() -> (r: i32)
    ensures
        r == 1,
{
    1
}

/// Track number given to a new track when the request names none.
pub fn default_track() -> (r: i32)
    ensures
        r == 1,
{
    1
}

/// Entries of "what's new" listed when the query names no limit.
pub fn default_whats_new_limit() -> (r: usize)
    ensures
        r == 10,
{
    10
}

/// Most items one batch request may ask for, over artists, albums and tracks.
pub const BATCH_MAX_ITEMS: usize = 100;

/// Checks the size of a batch of catalog reads: the total it asks for, or the message
/// answered with status 400 when that exceeds `BATCH_MAX_ITEMS`.
pub fn check_batch_size(artists: usize, albums: usize, tracks: usize) -> (r: Result<usize, String>)
    requires
        artists + albums + tracks <= usize::MAX,
    ensures
        artists + albums + tracks <= BATCH_MAX_ITEMS ==> r == Ok::<usize, String>(
            (artists + albums + tracks) as usize,
        ),
        artists + albums + tracks > BATCH_MAX_ITEMS ==> (r matches Err(m) && m@
            == "Batch request exceeds maximum of 100 items (requested "@ + decimal(
            (artists + albums + tracks) as nat,
        ) + ")"@),
{
    let total = artists + albums + tracks;
    if total > BATCH_MAX_ITEMS {
        let mut m = "Batch request exceeds maximum of 100 items (requested ".to_string();
        let n = decimal_string(total as u64);
        m.append(n.as_str());
        m.append(")");
        return Err(m);
    }
    Ok(total)
}

/// One item of a batch answer.
#[derive(Clone, Debug)]
pub enum BatchItemResult<T> {
    Item { ok: T },
    Error { error: String },
}

/// How fetching one batch item ended.
#[derive(Clone, Debug)]
pub enum BatchFetch<T> {
    Found(T),
    Missing,
    Failed,
}

/// The answer for one batch item: the item, or `not_found`, or `internal_error`.
pub fn batch_item_result<T>(fetch: BatchFetch<T>) -> (r: BatchItemResult<T>)
    ensures
        match fetch {
            BatchFetch::Found(x) => r == BatchItemResult::Item { ok: x },
            BatchFetch::Missing => r matches BatchItemResult::Error { error } && error@
                == "not_found"@,
            BatchFetch::Failed => r matches BatchItemResult::Error { error } && error@
                == "internal_error"@,
        },
{
    match fetch {
        BatchFetch::Found(x) => BatchItemResult::Item { ok: x },
        BatchFetch::Missing => BatchItemResult::Error { error: "not_found".to_string() },
        BatchFetch::Failed => BatchItemResult::Error { error: "internal_error".to_string() },
    }
}

/// A bug report as a client submits it.
#[derive(Clone, Debug)]
pub struct SubmitBugReportBody {
    pub title: Option<String>,
    pub description: String,
    pub client_type: String,
    pub client_version: Option<String>,
    pub device_info: Option<String>,
    pub logs: Option<String>,
    /// Images, base64-encoded.
    pub attachments: Option<Vec<String>>,
}

/// The size limits of a bug report, all in bytes but the attachment count.
#[derive(Clone, Copy, Debug)]
pub struct BugReportLimits {
    pub title_max_len: usize,
    pub description_max_size: usize,
    pub logs_max_size: usize,
    pub max_attachments: usize,
    pub attachment_max_size: usize,
}

/// Bytes of a text.
pub open spec fn bytes_of(s: String) -> nat {
    encode_utf8(s@).len()
}

/// The position of the first attachment larger than `max` bytes, if any.
pub open spec fn first_oversized(attachments: Seq<String>, max: nat) -> Option<int>
    decreases attachments.len(),
{
    if attachments.len() == 0 {
        None
    } else {
        match first_oversized(attachments.drop_last(), max) {
            Some(i) => Some(i),
            None => if bytes_of(attachments.last()) > max {
                Some(attachments.len() - 1)
            } else {
                None
            },
        }
    }
}

/// The message of the first limit a report breaks, checked in this order: title,
/// description (empty, then too large), logs, number of attachments, size of each
/// attachment; `None` where the report keeps every limit.
pub open spec fn bug_report_refusal(body: SubmitBugReportBody, limits: BugReportLimits) -> Option<Seq<char>> {
    if body.title matches Some(t) && bytes_of(t) > limits.title_max_len {
        Some("Title exceeds maximum length of "@ + decimal(limits.title_max_len as nat) + " characters"@)
    } else if body.description@.len() == 0 {
        Some("Description cannot be empty"@)
    } else if bytes_of(body.description) > limits.description_max_size {
        Some("Description exceeds maximum size of "@ + decimal(limits.description_max_size as nat) + " bytes"@)
    } else if body.logs matches Some(l) && bytes_of(l) > limits.logs_max_size {
        Some("Logs exceed maximum size of "@ + decimal(limits.logs_max_size as nat) + " bytes"@)
    } else {
        match body.attachments {
            None => None,
            Some(a) => if a@.len() > limits.max_attachments {
                Some("Too many attachments. Maximum is "@ + decimal(limits.max_attachments as nat) + " images"@)
            } else {
                match first_oversized(a@, limits.attachment_max_size as nat) {
                    None => None,
                    Some(i) => Some(
                        "Attachment "@ + decimal((i + 1) as nat) + " exceeds maximum size of "@
                            + decimal(limits.attachment_max_size as nat) + " bytes"@,
                    ),
                }
            },
        }
    }
}

fn limit_message(before: &str, n: usize, after: &str) -> (r: String)
    ensures
        r@ == before@ + decimal(n as nat) + after@,
{
    let mut m = before.to_string();
    let digits = decimal_string(n as u64);
    m.append(digits.as_str());
    m.append(after);
    m
}

/// Checks a bug report against the limits; the error is the message answered with
/// status 400.
pub fn validate_bug_report(body: &SubmitBugReportBody, limits: &BugReportLimits) -> (r: Result<(), String>)
    ensures
        match bug_report_refusal(*body, *limits) {
            None => r is Ok,
            Some(m) => r matches Err(e) && e@ == m,
        },
{
    if let Some(t) = &body.title {
        if t.as_str().as_bytes().len() > limits.title_max_len {
            return Err(limit_message("Title exceeds maximum length of ", limits.title_max_len, " characters"));
        }
    }
    if body.description.as_str().unicode_len() == 0 {
        return Err("Description cannot be empty".to_string());
    }
    if body.description.as_str().as_bytes().len() > limits.description_max_size {
        return Err(limit_message("Description exceeds maximum size of ", limits.description_max_size, " bytes"));
    }
    if let Some(l) = &body.logs {
        if l.as_str().as_bytes().len() > limits.logs_max_size {
            return Err(limit_message("Logs exceed maximum size of ", limits.logs_max_size, " bytes"));
        }
    }
    if let Some(a) = &body.attachments {
        if a.len() > limits.max_attachments {
            return Err(limit_message("Too many attachments. Maximum is ", limits.max_attachments, " images"));
        }
        let mut i: usize = 0;
        while i < a.len()
            invariant
                body.attachments == Some(*a),
                !(body.title matches Some(t) && bytes_of(t) > limits.title_max_len),
                body.description@.len() != 0,
                bytes_of(body.description) <= limits.description_max_size,
                !(body.logs matches Some(l) && bytes_of(l) > limits.logs_max_size),
                a@.len() <= limits.max_attachments,
                i <= a@.len(),
                first_oversized(a@.take(i as int), limits.attachment_max_size as nat) is None,
            decreases a@.len() - i,
        {
            assert(a@.take(i + 1).drop_last() =~= a@.take(i as int));
            if a[i].as_str().as_bytes().len() > limits.attachment_max_size {
                proof {
                    lemma_first_oversized_prefix(a@, i as int + 1, limits.attachment_max_size as nat);
                }
                let mut m = limit_message("Attachment ", i + 1, " exceeds maximum size of ");
                let digits = decimal_string(limits.attachment_max_size as u64);
                m.append(digits.as_str());
                m.append(" bytes");
                return Err(m);
            }
            i = i + 1;
        }
        assert(a@.take(a@.len() as int) =~= a@);
    }
    Ok(())
}

/// Once an attachment too large is found in a prefix, it stays the first one in the whole
/// list.
proof fn lemma_first_oversized_prefix(a: Seq<String>, k: int, max: nat)
    requires
        0 < k <= a.len(),
        first_oversized(a.take(k), max) is Some,
    ensures
        first_oversized(a, max) == first_oversized(a.take(k), max),
    decreases a.len() - k,
{
    if k < a.len() {
        assert(a.take(k + 1).drop_last() =~= a.take(k));
        lemma_first_oversized_prefix(a, k + 1, max);
    } else {
        assert(a.take(k) =~= a);
    }
}

} // verus!

verus! {

/// Whether the user events after `since` can all still be served: always from the start
/// (`since` of 0 or less); otherwise only while the oldest retained event (`min_seq`,
/// `None` when none is retained) comes at most right after `since`. When they cannot, the
/// sync answer is 410 Gone.
pub fn sync_events_retained(since: i64, min_seq: Option<i64>) -> (r: bool)
    requires
        since < i64::MAX,
    ensures
        r == (since <= 0 || (min_seq matches Some(m) && since + 1 >= m)),
{
    if since > 0 {
        match min_seq {
            Some(m) => since + 1 >= m,
            None => false,
        }
    } else {
        true
    }
}

/// How gathering the audio embedding coverage failed.
#[derive(Clone, Copy, Debug, PartialEq, Eq, Structural)]
pub enum CoverageFailure {
    /// The blocking task that gathers it failed.
    TaskFailed,
    /// It took longer than the coverage timeout.
    TimedOut,
    /// The catalog could not compute the track or the album coverage.
    LookupFailed,
}

/// The status and error message answered when gathering the embedding coverage failed: 503
/// on a timeout, 500 otherwise.
pub fn coverage_failure_answer(failure: CoverageFailure) -> (r: (u16, &'static str))
    ensures
        failure is TimedOut ==> r.0 == 503 && r.1@ == "Audio embedding coverage timed out"@,
        !(failure is TimedOut) ==> r.0 == 500 && r.1@ == "Failed to get audio embedding coverage"@,
{
    match failure {
        CoverageFailure::TimedOut => (503, "Audio embedding coverage timed out"),
        _ => (500, "Failed to get audio embedding coverage"),
    }
}

} // verus!
