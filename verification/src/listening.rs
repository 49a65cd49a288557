//! Plausibility checks on the listening events that clients report.

use vstd::prelude::*;
use vstd::string::StringSliceAdditionalSpecFns;
use vstd::utf8::encode_utf8;

verus! {

/// Longest track accepted, in seconds (one day).
pub const MAX_TRACK_DURATION_SECONDS: u32 = 24 * 60 * 60;

/// Oldest start accepted, in seconds before now (thirty days).
pub const MAX_EVENT_AGE_SECONDS: u64 = 30 * 24 * 60 * 60;

/// How far in the future a client clock may run, in seconds.
pub const MAX_FUTURE_CLOCK_SKEW_SECONDS: u64 = 5 * 60;

/// Shortest listen that a finished event may report, in seconds.
pub const MIN_FINALIZED_LISTEN_SECONDS: u32 = 5;

/// Largest seek or pause count accepted.
pub const MAX_PLAYBACK_COUNTER: u32 = 1_000;

/// A listening event as a client reports it. Timestamps are Unix seconds.
#[derive(Clone, Debug)]
pub struct ListeningEventRequest {
    pub track_id: String,
    pub session_id: Option<String>,
    pub started_at: Option<u64>,
    pub ended_at: Option<u64>,
    pub duration_seconds: u32,
    pub track_duration_seconds: u32,
    pub seek_count: Option<u32>,
    pub pause_count: Option<u32>,
    pub playback_context: Option<String>,
    pub client_type: Option<String>,
}

/// An event that passed the checks, with what the server records of it.
#[derive(Clone, Copy, Debug, PartialEq, Eq, Structural)]
pub struct ValidatedListeningEvent {
    pub started_at: u64,
    pub ended_at: Option<u64>,
    pub duration_seconds: u32,
    pub completed: bool,
}

/// The catalog's length of a track given in milliseconds, rounded up to whole seconds:
/// `None` for a length that is not positive or is longer than a day.
pub open spec fn track_seconds(duration_ms: i64) -> Option<u32> {
    if duration_ms <= 0 || duration_ms + 999 > i64::MAX {
        None
    } else if (duration_ms + 999) / 1000 > MAX_TRACK_DURATION_SECONDS {
        None
    } else {
        Some(((duration_ms + 999) / 1000) as u32)
    }
}

pub fn authoritative_track_duration_seconds(duration_ms: i64) -> (r: Option<u32>)
    ensures
        r == track_seconds(duration_ms),
{
    if duration_ms <= 0 {
        return None;
    }
    let sum = match duration_ms.checked_add(999) {
        Some(x) => x,
        None => return None,
    };
    let seconds = sum / 1000;
    if seconds > MAX_TRACK_DURATION_SECONDS as i64 {
        return None;
    }
    Some(seconds as u32)
}

/// A byte allowed in a telemetry label: ASCII letters and digits, `-`, `_` and `:`.
pub open spec fn label_byte(b: u8) -> bool {
    ||| 0x30 <= b <= 0x39
    ||| 0x41 <= b <= 0x5a
    ||| 0x61 <= b <= 0x7a
    ||| b == 0x2d
    ||| b == 0x5f
    ||| b == 0x3a
}

/// An absent label, or one of 1 to `max_len` bytes, each allowed.
pub open spec fn label_ok(value: Option<Seq<char>>, max_len: nat) -> bool {
    match value {
        None => true,
        Some(v) => {
            let b = encode_utf8(v);
            &&& b.len() > 0
            &&& b.len() <= max_len
            &&& forall|i: int| 0 <= i < b.len() ==> label_byte(#[trigger] b[i])
        },
    }
}

pub fn valid_telemetry_label(value: Option<&str>, max_len: usize) -> (r: bool)
    ensures
        r == label_ok(crate::text::opt_chars(value), max_len as nat),
{
    match value {
        None => true,
        Some(v) => {
            let b = v.as_bytes();
            if b.len() == 0 || b.len() > max_len {
                return false;
            }
            let mut i: usize = 0;
            while i < b.len()
                invariant
                    value == Some(v),
                    b@ == v.spec_bytes(),
                    i <= b@.len(),
                    forall|k: int| 0 <= k < i ==> label_byte(#[trigger] b@[k]),
                decreases b@.len() - i,
            {
                let c = b[i];
                if !((0x30 <= c && c <= 0x39) || (0x41 <= c && c <= 0x5a) || (0x61 <= c && c
                    <= 0x7a) || c == 0x2d || c == 0x5f || c == 0x3a) {
                    assert(!label_byte(b@[i as int]));
                    return false;
                }
                i = i + 1;
            }
            true
        },
    }
}

pub open spec fn opt_view(o: Option<String>) -> Option<Seq<char>> {
    match o {
        Some(s) => Some(s@),
        None => None,
    }
}

pub open spec fn sat_add(a: int, b: int, max: int) -> int {
    if a + b > max {
        max
    } else {
        a + b
    }
}

pub open spec fn sat_sub(a: int, b: int) -> int {
    if a < b {
        0
    } else {
        a - b
    }
}

pub open spec fn abs_diff(a: int, b: int) -> int {
    if a < b {
        b - a
    } else {
        a - b
    }
}

/// How far the client's length of the track may stray from the catalog's: a fifth of
/// it, and at least two seconds.
pub open spec fn duration_tolerance(authoritative: u32) -> int {
    if authoritative / 5 > 2 {
        (authoritative / 5) as int
    } else {
        2
    }
}

/// The checks, in order, and the message of the first that fails; or the event as
/// recorded: its start (now where the client gave none), its end, the listened time
/// capped at the track's length, and whether it was finished with at least nine tenths
/// of the track heard.
pub open spec fn listening_verdict(body: ListeningEventRequest, authoritative: u32, now: u64) -> Result<ValidatedListeningEvent, Seq<char>> {
    let started_at = match body.started_at {
        Some(s) => s,
        None => now,
    };
    let latest = sat_add(now as int, MAX_FUTURE_CLOCK_SKEW_SECONDS as int, u64::MAX as int);
    if authoritative == 0 || authoritative > MAX_TRACK_DURATION_SECONDS {
        Err("invalid authoritative track duration"@)
    } else if body.track_duration_seconds == 0 {
        Err("client track duration must be positive"@)
    } else if abs_diff(body.track_duration_seconds as int, authoritative as int) > duration_tolerance(authoritative) {
        Err("client track duration differs implausibly from catalog"@)
    } else if body.duration_seconds > sat_add(authoritative as int, 10, u32::MAX as int) {
        Err("listening duration exceeds track duration"@)
    } else if (match body.seek_count { Some(c) => c, None => 0 }) > MAX_PLAYBACK_COUNTER
        || (match body.pause_count { Some(c) => c, None => 0 }) > MAX_PLAYBACK_COUNTER {
        Err("playback counter is implausible"@)
    } else if !label_ok(opt_view(body.playback_context), 64) || !label_ok(opt_view(body.client_type), 32) {
        Err("invalid telemetry label"@)
    } else if !label_ok(opt_view(body.session_id), 128) || (body.session_id matches Some(s)
        && encode_utf8(s@).len() < 8) {
        Err("invalid session identifier"@)
    } else if started_at > latest || started_at < sat_sub(now as int, MAX_EVENT_AGE_SECONDS as int) {
        Err("start timestamp is outside the accepted window"@)
    } else if body.ended_at is Some && body.session_id is None {
        Err("finalized events require a session identifier"@)
    } else if body.ended_at is Some && body.duration_seconds < MIN_FINALIZED_LISTEN_SECONDS {
        Err("finalized listen is shorter than the minimum"@)
    } else if body.ended_at matches Some(e) && (e < started_at || e > latest) {
        Err("end timestamp is invalid"@)
    } else if body.ended_at matches Some(e) && body.duration_seconds > sat_add(
        sat_add(sat_sub(e as int, started_at as int), sat_sub(e as int, started_at as int), u64::MAX as int),
        10,
        u64::MAX as int,
    ) {
        Err("listening duration is implausible for elapsed time"@)
    } else {
        let duration = if body.duration_seconds < authoritative {
            body.duration_seconds
        } else {
            authoritative
        };
        Ok(
            ValidatedListeningEvent {
                started_at,
                ended_at: body.ended_at,
                duration_seconds: duration,
                completed: body.ended_at is Some && duration * 100 >= authoritative * 90,
            },
        )
    }
}

/// Checks a reported event against the catalog's length of the track (`authoritative`,
/// in seconds) and the server's clock (`now`).
pub fn validate_listening_event(body: &ListeningEventRequest, authoritative: u32, now: u64) -> (r: Result<ValidatedListeningEvent, &'static str>)
    ensures
        match listening_verdict(*body, authoritative, now) {
            Ok(v) => r == Ok::<ValidatedListeningEvent, &'static str>(v),
            Err(msg) => r matches Err(m) && m@ == msg,
        },
{
    if authoritative == 0 || authoritative > MAX_TRACK_DURATION_SECONDS {
        return Err("invalid authoritative track duration");
    }
    if body.track_duration_seconds == 0 {
        return Err("client track duration must be positive");
    }
    let fifth = authoritative / 5;
    let tolerance = if fifth > 2 {
        fifth
    } else {
        2
    };
    let diff = if body.track_duration_seconds < authoritative {
        authoritative - body.track_duration_seconds
    } else {
        body.track_duration_seconds - authoritative
    };
    if diff > tolerance {
        return Err("client track duration differs implausibly from catalog");
    }
    if body.duration_seconds > authoritative.saturating_add(10) {
        return Err("listening duration exceeds track duration");
    }
    let seeks = match body.seek_count {
        Some(c) => c,
        None => 0,
    };
    let pauses = match body.pause_count {
        Some(c) => c,
        None => 0,
    };
    if seeks > MAX_PLAYBACK_COUNTER || pauses > MAX_PLAYBACK_COUNTER {
        return Err("playback counter is implausible");
    }
    let context = match &body.playback_context {
        Some(s) => Some(s.as_str()),
        None => None,
    };
    let client = match &body.client_type {
        Some(s) => Some(s.as_str()),
        None => None,
    };
    if !valid_telemetry_label(context, 64) || !valid_telemetry_label(client, 32) {
        return Err("invalid telemetry label");
    }
    let session = match &body.session_id {
        Some(s) => Some(s.as_str()),
        None => None,
    };
    let too_short = match session {
        Some(s) => s.len() < 8,
        None => false,
    };
    if !valid_telemetry_label(session, 128) || too_short {
        return Err("invalid session identifier");
    }
    let started_at = match body.started_at {
        Some(s) => s,
        None => now,
    };
    let latest = now.saturating_add(MAX_FUTURE_CLOCK_SKEW_SECONDS);
    if started_at > latest || started_at < now.saturating_sub(MAX_EVENT_AGE_SECONDS) {
        return Err("start timestamp is outside the accepted window");
    }
    if let Some(ended_at) = body.ended_at {
        if body.session_id.is_none() {
            return Err("finalized events require a session identifier");
        }
        if body.duration_seconds < MIN_FINALIZED_LISTEN_SECONDS {
            return Err("finalized listen is shorter than the minimum");
        }
        if ended_at < started_at || ended_at > latest {
            return Err("end timestamp is invalid");
        }
        let wall_seconds = ended_at.saturating_sub(started_at);
        if (body.duration_seconds as u64) > wall_seconds.saturating_add(wall_seconds).saturating_add(10) {
            return Err("listening duration is implausible for elapsed time");
        }
    }
    let duration_seconds = if body.duration_seconds < authoritative {
        body.duration_seconds
    } else {
        authoritative
    };
    let completed = body.ended_at.is_some() && (duration_seconds as u64) * 100 >= (authoritative as u64) * 90;
    Ok(ValidatedListeningEvent { started_at, ended_at: body.ended_at, duration_seconds, completed })
}

} // verus!

verus! {

/// An accepted event never counts more listening than the track lasts, starts within
/// the accepted window around `now`, ends no earlier than it starts and not beyond the
/// allowed clock skew, and is complete only when it has ended.
pub proof fn lemma_accepted_events_are_plausible(body: ListeningEventRequest, authoritative: u32, now: u64)
    requires
        listening_verdict(body, authoritative, now) is Ok,
    ensures
        ({
            let v = listening_verdict(body, authoritative, now)->Ok_0;
            &&& 0 < authoritative <= MAX_TRACK_DURATION_SECONDS
            &&& v.duration_seconds <= authoritative
            &&& v.started_at <= now + MAX_FUTURE_CLOCK_SKEW_SECONDS
            &&& v.started_at + MAX_EVENT_AGE_SECONDS >= now
            &&& v.completed ==> v.ended_at is Some
            &&& (v.ended_at matches Some(e) ==> v.started_at <= e <= now + MAX_FUTURE_CLOCK_SKEW_SECONDS)
            &&& (v.ended_at is Some ==> body.session_id is Some)
        }),
{
}

} // verus!
