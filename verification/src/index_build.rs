//! The search index build: the order in which it walks the catalog, where it resumes after
//! an interruption, what it checks before the new index is activated, and how the writes
//! made while it ran are replayed onto it.

use vstd::prelude::*;

use crate::numeric::all_digits;
use crate::numeric::digit_value;
use crate::numeric::digits_value;
use crate::numeric::parse_decimal_range;
use crate::numeric::parse_unsigned_decimal;
use crate::text::chars_of;
use crate::text::decimal;
use crate::text::decimal_string;
use crate::text::digit_char;
use crate::text::str_eq;

verus! {

/// Rows of a build whose text feeds the vocabulary, at most.
pub const MAX_VOCABULARY_SOURCE_ROWS: usize = 500_000;

/// The phases of a build, in order: artists, albums, tracks.
pub const BUILD_PHASES: usize = 3;

/// The entity type a phase indexes.
pub open spec fn phase_name_spec(phase: nat) -> Seq<char> {
    if phase == 0 {
        "artist"@
    } else if phase == 1 {
        "album"@
    } else {
        "track"@
    }
}

/// The entity type of the phase, as the build's progress records it.
pub fn phase_name(phase: usize) -> (r: &'static str)
    requires
        phase < BUILD_PHASES,
    ensures
        r@ == phase_name_spec(phase as nat),
{
    if phase == 0 {
        "artist"
    } else if phase == 1 {
        "album"
    } else {
        "track"
    }
}

/// The phase a recorded entity type names; the first phase where none is recorded or the
/// name is not a phase's.
pub open spec fn resume_phase_spec(entity_type: Option<Seq<char>>) -> usize {
    match entity_type {
        Some(t) => if t == "artist"@ {
            0
        } else if t == "album"@ {
            1
        } else if t == "track"@ {
            2
        } else {
            0
        },
        None => 0,
    }
}

/// The views of an optional text.
pub open spec fn opt_view(s: Option<&str>) -> Option<Seq<char>> {
    match s {
        Some(t) => Some(t@),
        None => None,
    }
}

pub fn resume_phase(entity_type: Option<&str>) -> (r: usize)
    ensures
        r == resume_phase_spec(opt_view(entity_type)),
        r < BUILD_PHASES,
{
    match entity_type {
        Some(t) => {
            proof {
                reveal_strlit("artist");
                reveal_strlit("album");
                reveal_strlit("track");
            }
            if str_eq(t, "artist") {
                0
            } else if str_eq(t, "album") {
                1
            } else if str_eq(t, "track") {
                2
            } else {
                0
            }
        },
        None => 0,
    }
}

/// What `str::parse::<i64>` gives: an optional sign, then at least one decimal digit, the
/// value in range; `None` stands for the parse error.
pub open spec fn parse_i64_spec(s: Seq<char>) -> Option<int> {
    if s.len() > 0 && s[0] == '-' {
        let body = s.drop_first();
        if body.len() > 0 && all_digits(body) && digits_value(body) <= 0x8000_0000_0000_0000 {
            Some(-digits_value(body))
        } else {
            None
        }
    } else {
        match parse_unsigned_decimal(s, i64::MAX as nat) {
            Some(v) => Some(v as int),
            None => None,
        }
    }
}

/// The rowid a build recorded: its parse, or 0 where none was recorded or it does not
/// parse.
pub open spec fn stored_rowid_spec(stored: Option<Seq<char>>) -> i64 {
    match stored {
        Some(s) => match parse_i64_spec(s) {
            Some(v) => v as i64,
            None => 0,
        },
        None => 0,
    }
}

pub fn stored_rowid(stored: Option<&str>) -> (r: i64)
    ensures
        r == stored_rowid_spec(opt_view(stored)),
{
    match stored {
        Some(s) => {
            let cs = chars_of(s);
            let n = cs.len();
            if n > 0 && cs[0] == '-' {
                let ghost body = cs@.drop_first();
                assert(cs@.subrange(1, n as int) =~= body);
                if n >= 2 && cs[1] == '+' {
                    assert(!all_digits(body) || body.len() == 0) by {
                        assert(body[0] == '+');
                    }
                    return 0;
                }
                assert(body.len() > 0 ==> body[0] != '+');
                match parse_decimal_range(&cs, 1, n, 0x8000_0000_0000_0000) {
                    Some(v) => {
                        if v == 0x8000_0000_0000_0000 {
                            i64::MIN
                        } else {
                            -(v as i64)
                        }
                    },
                    None => 0,
                }
            } else {
                assert(cs@.subrange(0, n as int) =~= cs@);
                match parse_decimal_range(&cs, 0, n, i64::MAX as u64) {
                    Some(v) => v as i64,
                    None => 0,
                }
            }
        },
        None => 0,
    }
}

/// Where a build stands: the phase it is in (`BUILD_PHASES` once every phase is done), the
/// last rowid of that phase already indexed, and how many rows it has indexed.
#[derive(Clone, Copy, Debug, PartialEq, Eq, Structural)]
pub struct BuildProgress {
    pub phase: usize,
    pub after_rowid: i64,
    pub processed: usize,
}

/// What the build learns from the catalog.
#[derive(Clone, Copy, Debug, PartialEq, Eq, Structural)]
pub enum BuildEvent {
    /// A non-empty page of the phase's rows, whose last rowid is `last_rowid`.
    Page { len: usize, last_rowid: i64 },
    /// The phase has no rows after the last one indexed.
    Exhausted,
}

/// What the build does next.
#[derive(Clone, Copy, Debug, PartialEq, Eq, Structural)]
pub enum BuildAction {
    /// Index the page, and record in the same transaction that the build is in `phase`,
    /// after `after_rowid`, having indexed `offset` rows.
    StorePage { phase: usize, after_rowid: i64, offset: usize },
    /// Record that the build moved on to `phase`, from its first row.
    NextPhase { phase: usize },
    /// Every phase is done: validate the new index and activate it.
    Validate,
}

/// The offset a build starts from: the recorded one, unless there is none, it is 0, or the
/// side tables that a resumed build writes to are missing (the build then starts over).
pub open spec fn start_offset_spec(resume_offset: Option<usize>, side_tables_ready: bool) -> usize {
    match resume_offset {
        Some(o) => if o > 0 && side_tables_ready {
            o
        } else {
            0
        },
        None => 0,
    }
}

pub fn start_offset(resume_offset: Option<usize>, side_tables_ready: bool) -> (r: usize)
    ensures
        r == start_offset_spec(resume_offset, side_tables_ready),
{
    let offset = match resume_offset {
        Some(o) => o,
        None => 0,
    };
    if offset > 0 && !side_tables_ready {
        0
    } else {
        offset
    }
}

/// Where a build starts, from the offset it starts from and what its progress records:
/// the recorded phase (the first where none is), after the recorded rowid (0 where none
/// is).
pub open spec fn build_start_spec(offset: usize, entity_type: Option<Seq<char>>, rowid: Option<Seq<char>>) -> BuildProgress {
    BuildProgress { phase: resume_phase_spec(entity_type), after_rowid: stored_rowid_spec(rowid), processed: offset }
}

pub fn build_start(offset: usize, entity_type: Option<&str>, rowid: Option<&str>) -> (r: BuildProgress)
    ensures
        r == build_start_spec(offset, opt_view(entity_type), opt_view(rowid)),
        r.phase < BUILD_PHASES,
{
    BuildProgress { phase: resume_phase(entity_type), after_rowid: stored_rowid(rowid), processed: offset }
}

/// One step of a build: a page is indexed and recorded, its last rowid the new resume
/// point; an exhausted phase hands over to the next one from its first row, and after the
/// last phase the new index is validated.
pub open spec fn build_step_spec(s: BuildProgress, event: BuildEvent) -> (BuildProgress, BuildAction) {
    match event {
        BuildEvent::Page { len, last_rowid } => {
            let next = BuildProgress { phase: s.phase, after_rowid: last_rowid, processed: (s.processed + len) as usize };
            (next, BuildAction::StorePage { phase: s.phase, after_rowid: last_rowid, offset: next.processed })
        },
        BuildEvent::Exhausted => if s.phase + 1 < BUILD_PHASES {
            (
                BuildProgress { phase: (s.phase + 1) as usize, after_rowid: 0, processed: s.processed },
                BuildAction::NextPhase { phase: (s.phase + 1) as usize },
            )
        } else {
            (BuildProgress { phase: BUILD_PHASES, after_rowid: s.after_rowid, processed: s.processed }, BuildAction::Validate)
        },
    }
}

/// Whether the build can take `event` in state `s`: a phase is still running, and a page
/// is non-empty and keeps the row count in range.
pub open spec fn step_allowed(s: BuildProgress, event: BuildEvent) -> bool {
    &&& s.phase < BUILD_PHASES
    &&& event matches BuildEvent::Page { len, last_rowid } ==> len > 0 && s.processed + len <= usize::MAX
}

pub fn build_step(s: BuildProgress, event: BuildEvent) -> (r: (BuildProgress, BuildAction))
    requires
        step_allowed(s, event),
    ensures
        r == build_step_spec(s, event),
{
    match event {
        BuildEvent::Page { len, last_rowid } => {
            let next = BuildProgress { phase: s.phase, after_rowid: last_rowid, processed: s.processed + len };
            (next, BuildAction::StorePage { phase: s.phase, after_rowid: last_rowid, offset: next.processed })
        },
        BuildEvent::Exhausted => {
            if s.phase + 1 < BUILD_PHASES {
                (
                    BuildProgress { phase: s.phase + 1, after_rowid: 0, processed: s.processed },
                    BuildAction::NextPhase { phase: s.phase + 1 },
                )
            } else {
                (BuildProgress { phase: BUILD_PHASES, after_rowid: s.after_rowid, processed: s.processed }, BuildAction::Validate)
            }
        },
    }
}

/// Whether a row's availability is recorded: always, unless the build keeps only the
/// available rows (sparse availability), where an absent row means unavailable.
pub fn availability_row_kept(sparse_availability: bool, is_available: bool) -> (r: bool)
    ensures
        r == (!sparse_availability || is_available),
{
    !sparse_availability || is_available
}

/// Whether the rows of a page still feed the vocabulary: while it holds fewer than
/// `MAX_VOCABULARY_SOURCE_ROWS` words.
pub fn feeds_vocabulary(vocabulary_len: usize) -> (r: bool)
    ensures
        r == (vocabulary_len < MAX_VOCABULARY_SOURCE_ROWS),
{
    vocabulary_len < MAX_VOCABULARY_SOURCE_ROWS
}

/// The numeral of a decimal number parses back to it.
proof fn lemma_decimal_parses(n: nat)
    ensures
        decimal(n).len() > 0,
        all_digits(decimal(n)),
        digits_value(decimal(n)) == n,
    decreases n,
{
    if n < 10 {
        let d = decimal(n);
        assert(d.drop_last() =~= Seq::<char>::empty());
        assert(digit_value(digit_char(n)) == n);
        assert(digits_value(d.drop_last()) == 0);
        assert(d.last() == digit_char(n));
    } else {
        lemma_decimal_parses(n / 10);
        let d = decimal(n);
        assert(d.drop_last() =~= decimal(n / 10));
        assert((n / 10) * 10 + n % 10 == n);
        assert(d.last() == digit_char(n % 10));
        assert(digit_value(digit_char(n % 10)) == n % 10);
        assert forall|i: int| 0 <= i < d.len() implies crate::numeric::is_digit(#[trigger] d[i]) by {
            if i < d.len() - 1 {
                assert(d[i] == decimal(n / 10)[i]);
            }
        }
    }
}

/// A phase's name names that phase.
proof fn lemma_phase_names(phase: nat)
    requires
        phase < BUILD_PHASES,
    ensures
        resume_phase_spec(Some(phase_name_spec(phase))) == phase,
{
    reveal_strlit("artist");
    reveal_strlit("album");
    reveal_strlit("track");
    assert("artist"@.len() == 6);
    assert("album"@[0] == 'a');
    assert("track"@[0] == 't');
    assert("artist"@ != "album"@);
    assert("album"@ != "track"@);
    assert("artist"@ != "track"@);
}

/// The text `i64::to_string` writes for a rowid.
pub open spec fn rowid_text(r: i64) -> Seq<char> {
    if r >= 0 {
        decimal(r as nat)
    } else {
        seq!['-'] + decimal((-r) as nat)
    }
}

/// The text written for a rowid parses back to it.
proof fn lemma_rowid_text_parses(r: i64)
    ensures
        parse_i64_spec(rowid_text(r)) == Some(r as int),
{
    if r >= 0 {
        lemma_decimal_parses(r as nat);
        let d = decimal(r as nat);
        assert(crate::numeric::is_digit(d[0]));
        assert(parse_unsigned_decimal(d, i64::MAX as nat) == Some(r as nat));
    } else {
        lemma_decimal_parses((-r) as nat);
        let t = rowid_text(r);
        assert(t[0] == '-');
        assert(t.drop_first() =~= decimal((-r) as nat));
    }
}

/// A build interrupted after it recorded a page resumes where it stood: starting from the
/// recorded offset, entity type and rowid (as `to_string` writes it) gives the state the
/// build was in after the page.
pub proof fn lemma_resume_after_page(s: BuildProgress, len: usize, last_rowid: i64)
    requires
        step_allowed(s, BuildEvent::Page { len, last_rowid }),
    ensures
        ({
            let (next, action) = build_step_spec(s, BuildEvent::Page { len, last_rowid });
            action matches BuildAction::StorePage { phase, after_rowid, offset } && build_start_spec(
                offset,
                Some(phase_name_spec(phase as nat)),
                Some(rowid_text(after_rowid)),
            ) == next
        }),
{
    lemma_rowid_text_parses(last_rowid);
    lemma_phase_names(s.phase as nat);
}

/// A build that moved on to a phase resumes at that phase's first row, having indexed as
/// many rows as before.
pub proof fn lemma_resume_after_phase(s: BuildProgress)
    requires
        s.phase + 1 < BUILD_PHASES,
    ensures
        ({
            let (next, action) = build_step_spec(s, BuildEvent::Exhausted);
            action matches BuildAction::NextPhase { phase } && build_start_spec(
                s.processed,
                Some(phase_name_spec(phase as nat)),
                Some(rowid_text(0)),
            ) == next
        }),
{
    lemma_rowid_text_parses(0);
    lemma_phase_names((s.phase + 1) as nat);
}

/// A build only moves forward: its phase never goes back, its row count never drops, and
/// within a phase its resume rowid is the last row it indexed.
pub proof fn lemma_build_moves_forward(s: BuildProgress, event: BuildEvent)
    requires
        step_allowed(s, event),
    ensures
        build_step_spec(s, event).0.phase >= s.phase,
        build_step_spec(s, event).0.processed >= s.processed,
        event matches BuildEvent::Page { len, last_rowid } ==> build_step_spec(s, event).0.processed == s.processed + len
            && build_step_spec(s, event).0.after_rowid == last_rowid,
{
}

/// The record counts of the three kinds.
#[derive(Clone, Copy, Debug, PartialEq, Eq, Structural)]
pub struct SearchIndexCounts {
    pub artists: usize,
    pub albums: usize,
    pub tracks: usize,
}

/// `x`, or `usize::MAX` where it is larger.
pub open spec fn saturated(x: int) -> usize {
    if x > usize::MAX {
        usize::MAX
    } else {
        x as usize
    }
}

impl SearchIndexCounts {
    pub open spec fn total_spec(self) -> usize {
        saturated(saturated(self.artists + self.albums) + self.tracks)
    }

    /// The three counts added up, saturating at `usize::MAX`.
    pub fn total(self) -> (r: usize)
        ensures
            r == self.total_spec(),
    {
        self.artists.saturating_add(self.albums).saturating_add(self.tracks)
    }
}

/// The message of a count mismatch of one kind.
pub open spec fn mismatch_message(kind: Seq<char>, expected: nat, actual: nat) -> Seq<char> {
    "search index "@ + kind + " count mismatch: expected "@ + decimal(expected) + ", got "@ + decimal(actual)
}

/// The message of a mismatch of the total.
pub open spec fn total_mismatch_message(expected: nat, actual: nat) -> Seq<char> {
    "search index total count mismatch: expected "@ + decimal(expected) + ", got "@ + decimal(actual)
}

/// The first mismatch between the expected counts and those of the new index (artists,
/// albums, tracks, then the total), if any.
pub open spec fn count_mismatch(expected: SearchIndexCounts, actual: SearchIndexCounts, actual_total: usize) -> Option<Seq<char>> {
    if actual.artists != expected.artists {
        Some(mismatch_message("artist"@, expected.artists as nat, actual.artists as nat))
    } else if actual.albums != expected.albums {
        Some(mismatch_message("album"@, expected.albums as nat, actual.albums as nat))
    } else if actual.tracks != expected.tracks {
        Some(mismatch_message("track"@, expected.tracks as nat, actual.tracks as nat))
    } else if actual_total != expected.total_spec() {
        Some(total_mismatch_message(expected.total_spec() as nat, actual_total as nat))
    } else {
        None
    }
}

fn mismatch_text(lead: &str, kind: &str, expected: usize, actual: usize) -> (r: String)
    ensures
        r@ == lead@ + kind@ + " count mismatch: expected "@ + decimal(expected as nat) + ", got "@ + decimal(
            actual as nat,
        ),
{
    let mut m = String::new();
    m.append(lead);
    m.append(kind);
    m.append(" count mismatch: expected ");
    m.append(decimal_string(expected as u64).as_str());
    m.append(", got ");
    m.append(decimal_string(actual as u64).as_str());
    m
}

/// Checks the counts of a new index against those the catalog holds: the first mismatch
/// is the error; where every count agrees the index may be activated.
pub fn validate_index_counts(expected: SearchIndexCounts, actual: SearchIndexCounts, actual_total: usize) -> (r: Result<(), String>)
    ensures
        match count_mismatch(expected, actual, actual_total) {
            Some(m) => r matches Err(e) && e@ == m,
            None => r is Ok,
        },
{
    proof {
        reveal_strlit("search index ");
        reveal_strlit("search index total");
    }
    if actual.artists != expected.artists {
        return Err(mismatch_text("search index ", "artist", expected.artists, actual.artists));
    }
    if actual.albums != expected.albums {
        return Err(mismatch_text("search index ", "album", expected.albums, actual.albums));
    }
    if actual.tracks != expected.tracks {
        return Err(mismatch_text("search index ", "track", expected.tracks, actual.tracks));
    }
    let total = expected.total();
    if actual_total != total {
        let t = mismatch_text("search index total", "", total, actual_total);
        proof {
            reveal_strlit("");
            reveal_strlit("search index total count mismatch: expected ");
            reveal_strlit(" count mismatch: expected ");
            assert("search index total"@ + ""@ + " count mismatch: expected "@ =~= "search index total count mismatch: expected "@);
        }
        return Err(t);
    }
    Ok(())
}

/// What replaying one journalled write does to the new index and to its compact index of
/// available items.
#[derive(Clone, Copy, Debug, PartialEq, Eq, Structural)]
pub struct ReplayActions {
    pub delete_from_index: bool,
    pub insert_into_index: bool,
    pub delete_from_available: bool,
    pub insert_into_available: bool,
}

/// Replaying a write: the item's old document is always deleted from both indexes; an
/// upsert inserts the new one into the index, and into the compact index where the item is
/// available.
pub fn replay_actions(operation: &str, is_available: bool) -> (r: ReplayActions)
    ensures
        r.delete_from_index,
        r.delete_from_available,
        r.insert_into_index == (operation@ == "upsert"@),
        r.insert_into_available == (operation@ == "upsert"@ && is_available),
{
    let upsert = str_eq(operation, "upsert");
    ReplayActions {
        delete_from_index: true,
        insert_into_index: upsert,
        delete_from_available: true,
        insert_into_available: upsert && is_available,
    }
}

} // verus!
