//! The search index's life cycle: the state a vault starts in from what its database
//! records, what a background build starts with, and the checks on build options.

use vstd::prelude::*;

use crate::numeric::parse_decimal_range;
use crate::numeric::parse_unsigned_decimal;
use crate::text::chars_of;
use crate::text::str_eq;

verus! {

/// The schema version of the enriched search index.
pub const SEARCH_INDEX_SCHEMA_VERSION: i64 = 2;

/// Catalog items read per build batch by default.
pub const DEFAULT_INDEX_BATCH_SIZE: usize = 50_000;

/// Where the search index stands.
#[derive(Clone, Debug)]
pub enum IndexState {
    /// Nothing is indexed yet (or a legacy index serves until a build completes).
    Empty,
    /// A build runs: `processed` items so far, out of `total` where that is known.
    Building { processed: usize, total: Option<usize> },
    /// The index is complete.
    Ready,
    /// The last build failed.
    Failed { error: String },
}

/// How a full index build runs.
#[derive(Clone, Copy, Debug)]
pub struct SearchBuildOptions {
    pub batch_size: usize,
    pub preparation_threads: usize,
    /// Store only available entities in the availability table.
    pub sparse_availability: bool,
    /// Replay mutations captured while a live build ran.
    pub replay_mutations: bool,
    /// Run FTS5's structural integrity check before activation.
    pub verify_fts_integrity: bool,
}

impl Default for SearchBuildOptions {
    fn default() -> (r: Self)
        ensures
            r.batch_size == DEFAULT_INDEX_BATCH_SIZE,
            r.preparation_threads == 1,
            !r.sparse_availability,
            r.replay_mutations,
            r.verify_fts_integrity,
    {
        SearchBuildOptions {
            batch_size: DEFAULT_INDEX_BATCH_SIZE,
            preparation_threads: 1,
            sparse_availability: false,
            replay_mutations: true,
            verify_fts_integrity: true,
        }
    }
}

/// Why build options are refused.
#[derive(Clone, Copy, Debug, PartialEq, Eq, Structural)]
pub enum BuildOptionsError {
    ZeroBatchSize,
    ZeroPreparationThreads,
}

impl BuildOptionsError {
    pub open spec fn message_spec(self) -> Seq<char> {
        match self {
            BuildOptionsError::ZeroBatchSize => "search build batch size must be greater than zero"@,
            BuildOptionsError::ZeroPreparationThreads => "search build preparation thread count must be greater than zero"@,
        }
    }

    /// The error's text.
    pub fn message(self) -> (r: &'static str)
        ensures
            r@ == self.message_spec(),
    {
        match self {
            BuildOptionsError::ZeroBatchSize => "search build batch size must be greater than zero",
            BuildOptionsError::ZeroPreparationThreads => "search build preparation thread count must be greater than zero",
        }
    }
}

/// Build options need at least one item per batch and one preparation thread; the batch
/// size is checked first.
pub fn check_build_options(options: &SearchBuildOptions) -> (r: Result<(), BuildOptionsError>)
    ensures
        options.batch_size == 0 ==> r == Err::<(), BuildOptionsError>(BuildOptionsError::ZeroBatchSize),
        options.batch_size > 0 && options.preparation_threads == 0 ==> r == Err::<(), BuildOptionsError>(
            BuildOptionsError::ZeroPreparationThreads,
        ),
        options.batch_size > 0 && options.preparation_threads > 0 ==> r is Ok,
{
    if options.batch_size == 0 {
        Err(BuildOptionsError::ZeroBatchSize)
    } else if options.preparation_threads == 0 {
        Err(BuildOptionsError::ZeroPreparationThreads)
    } else {
        Ok(())
    }
}

/// A stored count, as `str::parse::<usize>` reads it.
pub open spec fn stored_count(v: Option<Seq<char>>) -> Option<nat> {
    match v {
        Some(s) => parse_unsigned_decimal(s, usize::MAX as nat),
        None => None,
    }
}

fn parse_count(v: &Option<String>) -> (r: Option<usize>)
    ensures
        match stored_count(
            match v {
                Some(s) => Some(s@),
                None => None,
            },
        ) {
            Some(n) => r == Some(n as usize),
            None => r is None,
        },
{
    match v {
        Some(s) => {
            let cs = chars_of(s.as_str());
            assert(cs@.subrange(0, cs@.len() as int) =~= cs@);
            match parse_decimal_range(&cs, 0, cs.len(), usize::MAX as u64) {
                Some(n) => Some(n as usize),
                None => None,
            }
        },
        None => None,
    }
}

/// Whether a stored schema version is the current one: it reads, as `str::parse::<i64>`
/// does, as `SEARCH_INDEX_SCHEMA_VERSION` (a signed text never reads as that positive
/// number unless it starts with `+`).
pub open spec fn schema_is_current(v: Option<Seq<char>>) -> bool {
    match v {
        Some(s) => parse_unsigned_decimal(s, i64::MAX as nat) == Some(SEARCH_INDEX_SCHEMA_VERSION as nat),
        None => false,
    }
}

fn schema_version_current(v: &Option<String>) -> (r: bool)
    ensures
        r == schema_is_current(
            match v {
                Some(s) => Some(s@),
                None => None,
            },
        ),
{
    match v {
        Some(s) => {
            let cs = chars_of(s.as_str());
            assert(cs@.subrange(0, cs@.len() as int) =~= cs@);
            match parse_decimal_range(&cs, 0, cs.len(), 0x7fff_ffff_ffff_ffff) {
                Some(n) => n == 2,
                None => false,
            }
        },
        None => false,
    }
}

/// Whether the active index must be rebuilt: its schema is not the current one, or it is
/// not the enriched index.
pub fn needs_rebuild(active_schema_version: &Option<String>, active_index_enriched: bool) -> (r: bool)
    ensures
        r == !(schema_is_current(
            match active_schema_version {
                Some(s) => Some(s@),
                None => None,
            },
        ) && active_index_enriched),
{
    !(schema_version_current(active_schema_version) && active_index_enriched)
}

/// What a vault's database records about its index when the vault opens.
#[derive(Clone, Debug)]
pub struct StoredIndexFacts {
    /// The `build_in_progress` metadata.
    pub build_in_progress: Option<String>,
    /// The `build_offset` metadata.
    pub build_offset: Option<String>,
    /// The `build_total` metadata.
    pub build_total: Option<String>,
    /// How many items the active index holds.
    pub index_count: usize,
    /// The `active_search_schema_version` metadata.
    pub active_schema_version: Option<String>,
    /// Whether the active index has the enriched structure.
    pub active_index_enriched: bool,
}

/// The state a vault opens in, and whether it loads its vocabulary from the index.
#[derive(Clone, Debug)]
pub struct Startup {
    pub state: IndexState,
    pub load_vocabulary: bool,
}

pub open spec fn opt_view(v: Option<String>) -> Option<Seq<char>> {
    match v {
        Some(s) => Some(s@),
        None => None,
    }
}

/// Opening on an interrupted build resumes it from the recorded offset (0 where none
/// reads), loading the vocabulary of what is indexed; opening on a populated enriched index
/// of the current schema is ready; otherwise the vault is empty, serving (and taking its
/// vocabulary from) a legacy index where one holds items.
pub fn startup_state(facts: &StoredIndexFacts) -> (r: Startup)
    ensures
        opt_view(facts.build_in_progress) == Some("true"@) ==> {
            &&& r.state matches IndexState::Building { processed, total } && processed as nat == (match stored_count(
                opt_view(facts.build_offset),
            ) {
                Some(n) => n,
                None => 0,
            }) && (match stored_count(opt_view(facts.build_total)) {
                Some(n) => total == Some(n as usize),
                None => total is None,
            })
            &&& r.load_vocabulary == (facts.index_count > 0)
        },
        opt_view(facts.build_in_progress) != Some("true"@) && facts.index_count > 0 && schema_is_current(
            opt_view(facts.active_schema_version),
        ) && facts.active_index_enriched ==> r.state is Ready && r.load_vocabulary,
        opt_view(facts.build_in_progress) != Some("true"@) && !(facts.index_count > 0 && schema_is_current(
            opt_view(facts.active_schema_version),
        ) && facts.active_index_enriched) ==> r.state is Empty && r.load_vocabulary == (facts.index_count > 0),
{
    proof {
        reveal_strlit("true");
    }
    let in_progress = match &facts.build_in_progress {
        Some(v) => str_eq(v.as_str(), "true"),
        None => false,
    };
    if in_progress {
        let processed = match parse_count(&facts.build_offset) {
            Some(n) => n,
            None => 0,
        };
        let total = parse_count(&facts.build_total);
        return Startup { state: IndexState::Building { processed, total }, load_vocabulary: facts.index_count > 0 };
    }
    if facts.index_count > 0 && schema_version_current(&facts.active_schema_version) && facts.active_index_enriched {
        Startup { state: IndexState::Ready, load_vocabulary: true }
    } else {
        Startup { state: IndexState::Empty, load_vocabulary: facts.index_count > 0 }
    }
}

/// How a background build begins.
#[derive(Clone, Copy, Debug, PartialEq, Eq, Structural)]
pub enum BuildStart {
    /// Resume an interrupted build after this many items.
    ResumeFrom(usize),
    /// The full index is built: build only the compact index of available items.
    BuildAvailableIndex,
    /// Nothing to build.
    AlreadyBuilt,
    /// Build the whole index from the start.
    FullBuild,
}

/// What a background build begins with: a running build resumes from its progress; a
/// ready index holding items builds the available-items index where that is not ready,
/// else nothing; any other state (or a ready index that holds nothing) builds in full.
pub fn build_start(state: &IndexState, index_count: usize, available_ready: bool) -> (r: BuildStart)
    ensures
        match *state {
            IndexState::Building { processed, .. } => r == BuildStart::ResumeFrom(processed),
            IndexState::Ready => if index_count > 0 {
                if available_ready {
                    r == BuildStart::AlreadyBuilt
                } else {
                    r == BuildStart::BuildAvailableIndex
                }
            } else {
                r == BuildStart::FullBuild
            },
            _ => r == BuildStart::FullBuild,
        },
{
    match state {
        IndexState::Building { processed, .. } => BuildStart::ResumeFrom(*processed),
        IndexState::Ready => {
            if index_count > 0 {
                if available_ready {
                    BuildStart::AlreadyBuilt
                } else {
                    BuildStart::BuildAvailableIndex
                }
            } else {
                BuildStart::FullBuild
            }
        },
        _ => BuildStart::FullBuild,
    }
}

/// The state a vault is in once a build begins: a fresh build (full or of the available
/// index) starts at nothing processed with no known total; otherwise the state stays.
pub fn state_after_start(state: IndexState, start: BuildStart) -> (r: IndexState)
    ensures
        (start == BuildStart::FullBuild || start == BuildStart::BuildAvailableIndex) ==> r == (IndexState::Building {
            processed: 0,
            total: None,
        }),
        !(start == BuildStart::FullBuild || start == BuildStart::BuildAvailableIndex) ==> r == state,
{
    match start {
        BuildStart::FullBuild | BuildStart::BuildAvailableIndex => IndexState::Building { processed: 0, total: None },
        _ => state,
    }
}

} // verus!
