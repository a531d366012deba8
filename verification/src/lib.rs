//! A safe, verified runtime layer over a literal-matching engine.
//!
//! The crate covers the scanning runtime alone: scratch-space lifecycle,
//! the match-callback bridge, block and vectored scanning, and the stateful
//! stream engine. A database is an opaque, immutable handle built elsewhere;
//! this layer only consumes it.

mod database;
mod errors;
mod laws;
mod matching;
mod scanner;
mod scratch;
mod stream;

pub use database::BlockDatabase;
pub use database::Database;
pub use database::StreamingDatabase;
pub use database::VectoredDatabase;
pub use database::lemma_requirement_positive;
pub use database::requirement_total;
pub use database::scratch_requirement;
pub use database::SCRATCH_BASE_BYTES;
pub use errors::Error;
pub use laws::lemma_chunked_coverage;
pub use laws::lemma_grown_capacity_bounds;
pub use laws::lemma_scan_all_continue;
pub use laws::lemma_scan_stops_first;
pub use matching::MatchEvent;
pub use matching::ascii_lower;
pub use matching::byte_matches;
pub use matching::callback_callable;
pub use matching::delivered_all;
pub use matching::event_args;
pub use matching::event_of;
pub use matching::events_at_end;
pub use matching::events_in_range;
pub use matching::lemma_events_at_end_prefix;
pub use matching::lemma_events_range_prefix;
pub use matching::lemma_events_split;
pub use matching::lemma_events_stable;
pub use matching::match_events;
pub use matching::pattern_ends_at;
pub use matching::views_of;
pub use matching::scan_accepts;
pub use matching::scan_outcome;
pub use matching::scan_rejects_at;
pub use matching::Pattern;
pub use matching::PatternView;
pub use scanner::buffer_views;
pub use scanner::concat_of;
pub use scanner::BlockScanner;
pub use scanner::Scannable;
pub use scanner::VectoredScanner;
pub use scratch::RawScratch;
pub use scratch::grown_capacity;
pub use scratch::Scratch;
pub use stream::RawStream;
pub use stream::Stream;
pub use stream::StreamFlags;
pub use stream::StreamingScanner;
