//! Rate-limit budgets, the keys each limiter buckets requests by, and what a refused
//! request is answered.

use sha2::Digest;
use sha2::Sha256;

use vstd::prelude::*;
use vstd::string::StringSliceAdditionalSpecFns;

use crate::metrics::record_rate_limit_hit;
use crate::metrics::changed_only;
use crate::metrics::MetricId;
use crate::metrics::Metrics;
use crate::prom::counted;
use crate::prom::series_key;
use crate::prom::counter_family_values;
use crate::text::decimal;
use crate::text::decimal_string;

verus! {

/// Login attempts per minute per IP (strict: against brute force).
pub const LOGIN_PER_MINUTE: u32 = 10;

/// Largest login body buffered to find the account it is for.
pub const MAX_LOGIN_BODY_LENGTH: usize = 16 * 1024;

/// Requests per minute per user over all routes (against runaway clients).
pub const GLOBAL_PER_MINUTE: u32 = 5000;

/// Search requests per minute per user (an expensive operation).
pub const SEARCH_PER_MINUTE: u32 = 100;

/// Catalog reads per minute per user.
pub const CONTENT_READ_PER_MINUTE: u32 = 2000;

/// Stream requests per minute per user (against rapid skipping).
pub const STREAM_PER_MINUTE: u32 = 200;

/// Writes per minute per user (playlists, likes).
pub const WRITE_PER_MINUTE: u32 = 60;

/// Analytics events per minute per device; the write limit still bounds the user.
pub const ANALYTICS_PER_DEVICE_PER_MINUTE: u32 = 30;

/// Sustained login attempts per hour.
pub const LOGIN_PER_HOUR: u32 = 100;

/// Milliseconds between two refills of the sustained login bucket: the burst of the
/// per-minute limit, then `LOGIN_PER_HOUR` attempts an hour.
pub const LOGIN_SUSTAINED_REPLENISH_MILLIS: u64 = 36_000;

/// The budgets are ordered as the limiters need: the global budget is the largest, reads
/// outrank searches and streams, searches outrank writes; the sustained login rate is
/// below the burst rate kept up for an hour; and one refill interval times the hourly
/// rate is exactly one hour.
pub proof fn lemma_budgets_are_consistent()
    ensures
        GLOBAL_PER_MINUTE > CONTENT_READ_PER_MINUTE,
        CONTENT_READ_PER_MINUTE > SEARCH_PER_MINUTE,
        STREAM_PER_MINUTE > SEARCH_PER_MINUTE,
        SEARCH_PER_MINUTE > WRITE_PER_MINUTE,
        LOGIN_PER_HOUR < LOGIN_PER_MINUTE * 60,
        LOGIN_SUSTAINED_REPLENISH_MILLIS == 3_600_000int / (LOGIN_PER_HOUR as int),
        LOGIN_SUSTAINED_REPLENISH_MILLIS * LOGIN_PER_HOUR == 3_600_000,
{
}

/// Why a limiter could not bucket a request.
#[derive(Clone, Copy, Debug, PartialEq, Eq, Structural)]
pub enum KeyExtractionError {
    UnableToExtractKey,
}

/// Buckets requests by the peer's IP address (never by a forwarded header).
#[derive(Clone, Copy, Debug)]
pub struct IpKeyExtractor;

impl IpKeyExtractor {
    /// The key of a request whose connection came from `peer_ip`, where that is known.
    pub fn extract<K>(&self, peer_ip: Option<K>) -> (r: Result<K, KeyExtractionError>)
        ensures
            r == match peer_ip {
                Some(ip) => Ok(ip),
                None => Err(KeyExtractionError::UnableToExtractKey),
            },
    {
        match peer_ip {
            Some(ip) => Ok(ip),
            None => Err(KeyExtractionError::UnableToExtractKey),
        }
    }
}

/// Name of SHA-256 as `sha2` computes it.
pub uninterp spec fn sha256(data: Seq<u8>) -> Seq<u8>;

/// Calls `Sha256::digest` on `data`. Claimed: the 32-byte digest of `data`, the same for
/// the same bytes.
#[verifier::external_body]
fn sha256_digest(data: &[u8]) -> (r: [u8; 32])
    ensures
        r@ == sha256(data@),
{
    Sha256::digest(data).into()
}

/// The bucket of a password login: a digest of the account handle, so that the handle
/// itself is never kept.
#[derive(Clone, Copy, Debug)]
pub struct LoginAccountKey(pub [u8; 32]);

/// The bytes whose digest keys a login: the handle's UTF-8 encoding, or nothing where the
/// body names no handle (all such logins share one bucket).
pub open spec fn login_key_input(handle: Option<&str>) -> Seq<u8> {
    match handle {
        Some(h) => h.spec_bytes(),
        None => Seq::<u8>::empty(),
    }
}

/// The account key of a login whose body named `handle` (`None` where the body is not a
/// login request). Handles are kept exactly as written: account lookup is
/// case-sensitive.
pub fn login_account_key(handle: Option<&str>) -> (r: LoginAccountKey)
    ensures
        r.0@ == sha256(login_key_input(handle)),
{
    match handle {
        Some(h) => LoginAccountKey(sha256_digest(h.as_bytes())),
        None => {
            let empty: Vec<u8> = Vec::new();
            LoginAccountKey(sha256_digest(empty.as_slice()))
        },
    }
}

/// Whether a login body of `len` bytes may be buffered; a larger one is refused with
/// status 413 before any limiter sees it.
pub fn login_body_within_limit(len: usize) -> (r: bool)
    ensures
        r == (len <= MAX_LOGIN_BODY_LENGTH),
{
    len <= MAX_LOGIN_BODY_LENGTH
}

/// Buckets password logins by account, across all peers.
#[derive(Clone, Copy, Debug)]
pub struct LoginAccountKeyExtractor;

impl LoginAccountKeyExtractor {
    /// The digest that the login middleware attached to the request, where it did.
    pub fn extract(&self, key: Option<LoginAccountKey>) -> (r: Result<[u8; 32], KeyExtractionError>)
        ensures
            r == match key {
                Some(k) => Ok(k.0),
                None => Err(KeyExtractionError::UnableToExtractKey),
            },
    {
        match key {
            Some(k) => Ok(k.0),
            None => Err(KeyExtractionError::UnableToExtractKey),
        }
    }
}

/// `prefix` followed by the decimal numeral of `n`.
fn numbered(prefix: &str, n: usize) -> (r: String)
    ensures
        r@ == prefix@ + decimal(n as nat),
{
    let mut s = String::new();
    s.append(prefix);
    let digits = decimal_string(n as u64);
    s.append(digits.as_str());
    s
}

/// Buckets requests by signed-in user, and by peer IP where no one is signed in.
#[derive(Clone, Copy, Debug)]
pub struct UserOrIpKeyExtractor;

impl UserOrIpKeyExtractor {
    /// `user:<id>` for a signed-in user, else `ip:<address>` for a known peer.
    pub fn extract(&self, user_id: Option<usize>, peer_ip: Option<&str>) -> (r: Result<String, KeyExtractionError>)
        ensures
            match user_id {
                Some(id) => r matches Ok(k) && k@ == "user:"@ + decimal(id as nat),
                None => match peer_ip {
                    Some(ip) => r matches Ok(k) && k@ == "ip:"@ + ip@,
                    None => r == Err::<String, KeyExtractionError>(KeyExtractionError::UnableToExtractKey),
                },
            },
    {
        match user_id {
            Some(id) => Ok(numbered("user:", id)),
            None => match peer_ip {
                Some(ip) => {
                    let mut s = String::new();
                    s.append("ip:");
                    s.append(ip);
                    Ok(s)
                },
                None => Err(KeyExtractionError::UnableToExtractKey),
            },
        }
    }
}

/// Who sent an analytics event: the user and, where known, the device.
#[derive(Clone, Copy, Debug)]
pub struct AnalyticsRateLimitIdentity {
    pub user_id: usize,
    pub device_id: Option<usize>,
}

/// The bucket key of an analytics identity.
pub open spec fn analytics_key(identity: AnalyticsRateLimitIdentity) -> Seq<char> {
    "user:"@ + decimal(identity.user_id as nat) + ":device:"@ + match identity.device_id {
        Some(d) => decimal(d as nat),
        None => "none"@,
    }
}

/// Buckets analytics events by user and device.
#[derive(Clone, Copy, Debug)]
pub struct AnalyticsDeviceKeyExtractor;

impl AnalyticsDeviceKeyExtractor {
    /// `user:<id>:device:<id>`, or `user:<id>:device:none` for an unknown device.
    pub fn extract(&self, identity: Option<AnalyticsRateLimitIdentity>) -> (r: Result<String, KeyExtractionError>)
        ensures
            match identity {
                Some(i) => r matches Ok(k) && k@ == analytics_key(i),
                None => r == Err::<String, KeyExtractionError>(KeyExtractionError::UnableToExtractKey),
            },
    {
        match identity {
            Some(i) => {
                let mut s = numbered("user:", i.user_id);
                s.append(":device:");
                match i.device_id {
                    Some(d) => {
                        let digits = decimal_string(d as u64);
                        s.append(digits.as_str());
                    },
                    None => s.append("none"),
                }
                Ok(s)
            },
            None => Err(KeyExtractionError::UnableToExtractKey),
        }
    }
}

/// How a limiter failed on a request.
#[derive(Clone, Copy, Debug, PartialEq, Eq, Structural)]
pub enum LimiterFailure {
    /// The request's bucket is empty.
    TooManyRequests,
    /// The limiter could not work out the bucket, or failed otherwise.
    Other,
}

/// What a request refused by a limiter is answered, and what is logged of it.
#[derive(Debug)]
pub struct RateLimitAnswer {
    /// HTTP status of the answer.
    pub status: u16,
    /// Who hit the limit (`user_id=..`, `ip=..` or `unknown`), logged on a refusal.
    pub identifier: Option<String>,
}

/// The requester as logged, and its kind as counted.
pub open spec fn requester(user_id: Option<usize>, peer_ip: Option<&str>) -> (Seq<char>, Seq<char>) {
    match user_id {
        Some(id) => ("user_id="@ + decimal(id as nat), "user"@),
        None => match peer_ip {
            Some(ip) => ("ip="@ + ip@, "ip"@),
            None => ("unknown"@, "unknown"@),
        },
    }
}

/// Answers a request that a limiter failed on: a refusal (`TooManyRequests`) is counted
/// under `route` and the requester's kind and answered 429; any other failure is
/// answered 500 and counted nowhere.
pub fn rate_limit_error_answer(
    m: &mut Metrics,
    failure: LimiterFailure,
    route: &str,
    user_id: Option<usize>,
    peer_ip: Option<&str>,
) -> (r: RateLimitAnswer)
    requires
        old(m).wf(),
    ensures
        final(m).wf(),
        changed_only(*old(m), *final(m), set![MetricId::RateLimitHitsTotal]),
        failure == LimiterFailure::TooManyRequests ==> {
            &&& r.status == 429
            &&& r.identifier matches Some(id) && id@ == requester(user_id, peer_ip).0
            &&& counter_family_values(final(m).rate_limit_hits_total) == counted(
                counter_family_values(old(m).rate_limit_hits_total),
                series_key(seq![route@, requester(user_id, peer_ip).1]),
                1,
            )
        },
        failure == LimiterFailure::Other ==> r.status == 500 && r.identifier is None && *final(m) == *old(m),
{
    match failure {
        LimiterFailure::TooManyRequests => {
            let (identifier, kind) = match user_id {
                Some(id) => (numbered("user_id=", id), "user"),
                None => match peer_ip {
                    Some(ip) => {
                        let mut s = String::new();
                        s.append("ip=");
                        s.append(ip);
                        (s, "ip")
                    },
                    None => ("unknown".to_string(), "unknown"),
                },
            };
            record_rate_limit_hit(m, route, kind);
            RateLimitAnswer { status: 429, identifier: Some(identifier) }
        },
        LimiterFailure::Other => RateLimitAnswer { status: 500, identifier: None },
    }
}

} // verus!
