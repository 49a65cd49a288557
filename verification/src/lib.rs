//! Verified core of the pezzottify server: typo-tolerant search, organic index growth,
//! the search index build and its activation checks, the HTTP policies (request-log
//! redaction, rate-limit keys, cache policy, error answers), the route decisions
//! (permissions, ingestion, listening events, logins) and metric bookkeeping.

pub mod access;
pub mod api_error;
pub mod blocking_work;
pub mod catalog;
pub mod expansion;
pub mod handlers;
pub mod http_cache;
pub mod index_build;
pub mod index_state;
pub mod indexer;
pub mod ingestion;
pub mod levenshtein;
pub mod lexical;
pub mod listening;
pub mod login;
pub mod match_order;
pub mod metrics;
pub mod numeric;
pub mod oidc_login;
mod prom;
pub mod rate_limit;
pub mod request_logging;
pub mod resolve;
pub mod search_text;
pub mod streaming;
pub mod text;
pub mod vocabulary;

