use vstd::prelude::*;

use crate::errors::Error;
use crate::matching::{
    delivered_all, event_args, events_in_range, match_events, scan_outcome, MatchEvent,
    PatternView,
};
use crate::scratch::grown_capacity;

verus! {

/// Regrowing scratch never decreases its capacity, and afterwards the
/// capacity is at least the demand it was regrown for.
pub proof fn lemma_grown_capacity_bounds(cur: usize, req: usize)
    ensures
        grown_capacity(cur, req) >= cur,
        grown_capacity(cur, req) >= req,
{
}

/// Scanning with a callback that always answers `true` (continue) succeeds,
/// and the callback saw every discovered match, in discovery order.
///
/// The hypothesis is the contract a scan reports (`scan_outcome`) together
/// with a callback whose contract admits only `true`.
pub proof fn lemma_scan_all_continue<F: Fn(u32, u64, u64, u32) -> bool>(
    f: F,
    evts: Seq<MatchEvent>,
    r: Result<(), Error>,
    log: Seq<MatchEvent>,
)
    requires
        scan_outcome(f, evts, r, log),
        forall|a: (u32, u64, u64, u32), b: bool| call_ensures(f, a, b) ==> b == true,
    ensures
        r is Ok,
        log == evts,
{
    if r is Err {
        assert(call_ensures(f, event_args(evts[log.len() - 1]), false));
        assert(false);
    }
}

/// Scanning with a callback that answers `false` (stop) on its first
/// invocation terminates with `ScanTerminated` after exactly one delivery:
/// the first discovered match.
pub proof fn lemma_scan_stops_first<F: Fn(u32, u64, u64, u32) -> bool>(
    f: F,
    evts: Seq<MatchEvent>,
    r: Result<(), Error>,
    log: Seq<MatchEvent>,
)
    requires
        scan_outcome(f, evts, r, log),
        forall|a: (u32, u64, u64, u32), b: bool| call_ensures(f, a, b) ==> b == false,
        evts.len() > 0,
    ensures
        r == Err::<(), Error>(Error::ScanTerminated),
        log.len() == 1,
        log[0] == evts[0],
{
    match r {
        Result::Ok(u) => {
            assert(delivered_all(f, evts, evts.len() as int));
            assert(call_ensures(f, event_args(evts[0]), true));
            assert(false);
        },
        Result::Err(e) => {
            if log.len() > 1 {
                assert(delivered_all(f, evts, log.len() - 1));
                assert(call_ensures(f, event_args(evts[0]), true));
                assert(false);
            }
            assert(log == evts.take(1));
            assert(log[0] == evts.take(1)[0]);
        },
    }
}

/// Feeding a logical stream in two pieces discovers, over the two scan
/// calls together, exactly the matches of scanning it whole: a match that
/// spans the cut is delivered by the call that completes it, with offsets
/// counted over the whole stream.
pub proof fn lemma_chunked_coverage(pats: Seq<PatternView>, full: Seq<u8>, cut: int)
    requires
        0 <= cut <= full.len(),
    ensures
        match_events(pats, full) == events_in_range(pats, full.take(cut), 0, cut)
            + events_in_range(pats, full, cut, full.len() as int),
{
    crate::matching::lemma_events_split(pats, full, 0, cut, full.len() as int);
    assert(full.take(cut).is_prefix_of(full)) by {
        assert(full.take(cut) =~= full.subrange(0, cut));
    }
    crate::matching::lemma_events_stable(pats, full.take(cut), full, 0, cut);
}

} // verus!
