use vstd::prelude::*;

use crate::errors::Error;

verus! {

/// One entry of a compiled database: a literal to look for, with the
/// behaviour that was baked in when the database was built.
///
/// `id` is reported with every match of this entry. `caseless` widens the
/// comparison to ignore ASCII case. `som` asks for start-of-match tracking:
/// without it every reported match starts at offset zero, as the engine only
/// tracks where matches end.
pub struct Pattern {
    pub id: u32,
    pub literal: Vec<u8>,
    pub caseless: bool,
    pub som: bool,
}

/// Mathematical image of a `Pattern`.
pub struct PatternView {
    pub id: u32,
    pub literal: Seq<u8>,
    pub caseless: bool,
    pub som: bool,
}

impl View for Pattern {
    type V = PatternView;

    open spec fn view(&self) -> PatternView {
        PatternView {
            id: self.id,
            literal: self.literal@,
            caseless: self.caseless,
            som: self.som,
        }
    }
}

/// The images of a whole pattern list.
pub open spec fn views_of(patterns: Seq<Pattern>) -> Seq<PatternView> {
    patterns.map_values(|p: Pattern| p@)
}

/// One match: pattern id, start offset (zero unless the pattern tracks
/// starts), end offset, and the flags word handed to the callback, which the
/// engine always leaves at zero. Delivered to the caller's callback while a
/// scan runs; never stored.
#[derive(Clone, Copy, Debug, PartialEq, Eq, Structural)]
pub struct MatchEvent {
    pub id: u32,
    pub from: u64,
    pub to: u64,
    pub flags: u32,
}

/// The arguments with which a callback sees `e`.
pub open spec fn event_args(e: MatchEvent) -> (u32, u64, u64, u32) {
    (e.id, e.from, e.to, e.flags)
}

/// ASCII lower-casing of one byte.
pub open spec fn ascii_lower(b: u8) -> u8 {
    if 65 <= b && b <= 90 {
        (b + 32) as u8
    } else {
        b
    }
}

/// Whether two bytes count as equal, case-insensitively when asked.
pub open spec fn byte_matches(a: u8, b: u8, caseless: bool) -> bool {
    if caseless {
        ascii_lower(a) == ascii_lower(b)
    } else {
        a == b
    }
}

/// Whether `p`'s literal stands in `data` ending exactly at offset `end`.
pub open spec fn pattern_ends_at(data: Seq<u8>, p: PatternView, end: int) -> bool {
    &&& p.literal.len() <= end <= data.len()
    &&& forall|i: int|
        0 <= i < p.literal.len() ==> byte_matches(
            data[end - p.literal.len() + i],
            #[trigger] p.literal[i],
            p.caseless,
        )
}

/// The event reported when `p` matches ending at `end`.
pub open spec fn event_of(p: PatternView, end: int) -> MatchEvent {
    MatchEvent {
        id: p.id,
        from: if p.som {
            (end - p.literal.len()) as u64
        } else {
            0
        },
        to: end as u64,
        flags: 0,
    }
}

/// The events reported at end offset `end` by the first `k` patterns, in
/// pattern order.
pub open spec fn events_at_end(
    pats: Seq<PatternView>,
    data: Seq<u8>,
    end: int,
    k: int,
) -> Seq<MatchEvent>
    decreases k,
{
    if k <= 0 {
        Seq::empty()
    } else {
        events_at_end(pats, data, end, k - 1) + if pattern_ends_at(data, pats[k - 1], end) {
            seq![event_of(pats[k - 1], end)]
        } else {
            Seq::empty()
        }
    }
}

/// Every event with an end offset in `(lo, hi]`, in discovery order: by end
/// offset first, then by pattern order.
pub open spec fn events_in_range(
    pats: Seq<PatternView>,
    data: Seq<u8>,
    lo: int,
    hi: int,
) -> Seq<MatchEvent>
    decreases hi - lo,
{
    if hi <= lo {
        Seq::empty()
    } else {
        events_in_range(pats, data, lo, hi - 1) + events_at_end(pats, data, hi, pats.len() as int)
    }
}

/// Every match of `pats` in `data`, in discovery order.
pub open spec fn match_events(pats: Seq<PatternView>, data: Seq<u8>) -> Seq<MatchEvent> {
    events_in_range(pats, data, 0, data.len() as int)
}

/// A callback that may be invoked on any event whatever.
pub open spec fn callback_callable<F: Fn(u32, u64, u64, u32) -> bool>(f: F) -> bool {
    forall|id: u32, from: u64, to: u64, fl: u32| #[trigger] call_requires(f, (id, from, to, fl))
}

/// The callback's contract admitted returning `true` (continue) on the first
/// `n` of `evts`, delivered in order.
pub open spec fn delivered_all<F: Fn(u32, u64, u64, u32) -> bool>(
    f: F,
    evts: Seq<MatchEvent>,
    n: int,
) -> bool {
    forall|i: int| 0 <= i < n ==> call_ensures(f, event_args(#[trigger] evts[i]), true)
}

/// What a scan under callback `f` with the full event sequence `evts` may
/// report, together with the log of events actually handed to `f`.
///
/// On success the whole sequence was delivered and the callback continued
/// each time. On `ScanTerminated` the delivered log is the prefix of `evts`
/// that ends with the one event on which the callback answered `false`.
pub open spec fn scan_outcome<F: Fn(u32, u64, u64, u32) -> bool>(
    f: F,
    evts: Seq<MatchEvent>,
    r: Result<(), Error>,
    log: Seq<MatchEvent>,
) -> bool {
    match r {
        Result::Ok(u) => {
            &&& log == evts
            &&& delivered_all(f, evts, evts.len() as int)
        },
        Result::Err(e) => {
            &&& e == Error::ScanTerminated
            &&& 0 < log.len() <= evts.len()
            &&& log == evts.take(log.len() as int)
            &&& call_ensures(f, event_args(evts[log.len() - 1]), false)
            &&& delivered_all(f, evts, log.len() - 1)
        },
    }
}

/// A completed scan: every event was delivered, and the callback's contract
/// admitted continuing on each.
pub open spec fn scan_accepts<F: Fn(u32, u64, u64, u32) -> bool>(
    f: F,
    evts: Seq<MatchEvent>,
) -> bool {
    delivered_all(f, evts, evts.len() as int)
}

/// A terminated scan: the callback continued through the first `k` events
/// and asked to stop on `evts[k]`; nothing after `evts[k]` was delivered.
pub open spec fn scan_rejects_at<F: Fn(u32, u64, u64, u32) -> bool>(
    f: F,
    evts: Seq<MatchEvent>,
    k: int,
) -> bool {
    &&& 0 <= k < evts.len()
    &&& call_ensures(f, event_args(evts[k]), false)
    &&& delivered_all(f, evts, k)
}

/// ASCII lower-casing of one byte.
fn to_lower(b: u8) -> (r: u8)
    ensures
        r == ascii_lower(b),
{
    if 65 <= b && b <= 90 {
        b + 32
    } else {
        b
    }
}

/// Whether two bytes count as equal, case-insensitively when asked.
fn byte_eq(a: u8, b: u8, caseless: bool) -> (r: bool)
    ensures
        r == byte_matches(a, b, caseless),
{
    if caseless {
        to_lower(a) == to_lower(b)
    } else {
        a == b
    }
}

/// The first `j` patterns report a prefix of what the first `k` report at
/// one end offset.
pub proof fn lemma_events_at_end_prefix(
    pats: Seq<PatternView>,
    data: Seq<u8>,
    end: int,
    j: int,
    k: int,
)
    requires
        j <= k,
    ensures
        events_at_end(pats, data, end, j).is_prefix_of(events_at_end(pats, data, end, k)),
    decreases k - j,
{
    if j < k {
        lemma_events_at_end_prefix(pats, data, end, j, k - 1);
        assert(events_at_end(pats, data, end, j).is_prefix_of(events_at_end(pats, data, end, k)));
    } else {
        assert(events_at_end(pats, data, end, j) =~= events_at_end(pats, data, end, k).take(
            events_at_end(pats, data, end, j).len() as int,
        ));
    }
}

/// Discovery order splits at any end offset: the events of `(lo, hi]` are
/// the events of `(lo, mid]` followed by those of `(mid, hi]`.
pub proof fn lemma_events_split(pats: Seq<PatternView>, data: Seq<u8>, lo: int, mid: int, hi: int)
    requires
        lo <= mid <= hi,
    ensures
        events_in_range(pats, data, lo, hi) == events_in_range(pats, data, lo, mid)
            + events_in_range(pats, data, mid, hi),
    decreases hi - mid,
{
    if hi <= mid {
        assert(events_in_range(pats, data, lo, hi) =~= events_in_range(pats, data, lo, mid)
            + events_in_range(pats, data, mid, hi));
    } else {
        lemma_events_split(pats, data, lo, mid, hi - 1);
        assert(events_in_range(pats, data, lo, hi) =~= events_in_range(pats, data, lo, mid)
            + events_in_range(pats, data, mid, hi));
    }
}

/// Earlier end offsets report a prefix of a longer range's events.
pub proof fn lemma_events_range_prefix(
    pats: Seq<PatternView>,
    data: Seq<u8>,
    lo: int,
    h1: int,
    h2: int,
)
    requires
        lo <= h1 <= h2,
    ensures
        events_in_range(pats, data, lo, h1).is_prefix_of(events_in_range(pats, data, lo, h2)),
{
    lemma_events_split(pats, data, lo, h1, h2);
    assert(events_in_range(pats, data, lo, h1) =~= events_in_range(pats, data, lo, h2).take(
        events_in_range(pats, data, lo, h1).len() as int,
    ));
}

/// Whether a pattern ends at `end` depends only on the bytes before `end`.
proof fn lemma_ends_at_stable(p: PatternView, d1: Seq<u8>, d2: Seq<u8>, end: int)
    requires
        d1.is_prefix_of(d2),
        end <= d1.len(),
    ensures
        pattern_ends_at(d1, p, end) == pattern_ends_at(d2, p, end),
{
    assert(forall|x: int| 0 <= x < d1.len() ==> d1[x] == d2[x]);
    if pattern_ends_at(d1, p, end) {
        assert(pattern_ends_at(d2, p, end));
    }
    if pattern_ends_at(d2, p, end) {
        assert(pattern_ends_at(d1, p, end));
    }
}

proof fn lemma_events_at_end_stable(
    pats: Seq<PatternView>,
    d1: Seq<u8>,
    d2: Seq<u8>,
    end: int,
    k: int,
)
    requires
        d1.is_prefix_of(d2),
        end <= d1.len(),
    ensures
        events_at_end(pats, d1, end, k) == events_at_end(pats, d2, end, k),
    decreases k,
{
    if k > 0 {
        lemma_events_at_end_stable(pats, d1, d2, end, k - 1);
        lemma_ends_at_stable(pats[k - 1], d1, d2, end);
    }
}

/// Extending the data changes no event with an end offset already scanned:
/// the events of `(lo, hi]` are the same over any extension of the first
/// `hi` bytes.
pub proof fn lemma_events_stable(pats: Seq<PatternView>, d1: Seq<u8>, d2: Seq<u8>, lo: int, hi: int)
    requires
        d1.is_prefix_of(d2),
        hi <= d1.len(),
    ensures
        events_in_range(pats, d1, lo, hi) == events_in_range(pats, d2, lo, hi),
    decreases hi - lo,
{
    if hi > lo {
        lemma_events_stable(pats, d1, d2, lo, hi - 1);
        lemma_events_at_end_stable(pats, d1, d2, hi, pats.len() as int);
    }
}

/// Whether `p`'s literal stands in `data` ending exactly at offset `end`.
fn check_match(data: &[u8], p: &Pattern, end: usize) -> (r: bool)
    requires
        end <= data@.len(),
    ensures
        r == pattern_ends_at(data@, p@, end as int),
{
    let m = p.literal.len();
    if m > end {
        return false;
    }
    let start = end - m;
    let mut i: usize = 0;
    while i < m
        invariant
            i <= m,
            m == p.literal@.len(),
            start == end - m,
            end <= data@.len(),
            forall|j: int|
                0 <= j < i ==> byte_matches(data@[start + j], #[trigger] p.literal@[j], p.caseless),
        decreases m - i,
    {
        if !byte_eq(data[start + i], p.literal[i], p.caseless) {
            return false;
        }
        i += 1;
    }
    true
}

/// An independent copy of a pattern list, byte for byte.
pub(crate) fn clone_patterns(patterns: &Vec<Pattern>) -> (r: Vec<Pattern>)
    ensures
        views_of(r@) == views_of(patterns@),
{
    let mut out: Vec<Pattern> = Vec::new();
    let mut i: usize = 0;
    while i < patterns.len()
        invariant
            i <= patterns@.len(),
            out@.len() == i,
            forall|j: int| 0 <= j < i ==> #[trigger] out@[j]@ == patterns@[j]@,
        decreases patterns@.len() - i,
    {
        let p = &patterns[i];
        out.push(
            Pattern {
                id: p.id,
                literal: vstd::slice::slice_to_vec(p.literal.as_slice()),
                caseless: p.caseless,
                som: p.som,
            },
        );
        i += 1;
    }
    proof {
        assert(views_of(out@) =~= views_of(patterns@));
    }
    out
}

/// Scans `data` for every match with an end offset in `(lo, data.len()]`,
/// handing each to the callback in discovery order until it asks to stop.
///
/// Returns the verdict together with the log of events the callback saw.
/// With no callback nothing is recorded and the scan always completes.
pub(crate) fn run_scan<F: Fn(u32, u64, u64, u32) -> bool>(
    patterns: &Vec<Pattern>,
    data: &[u8],
    lo: usize,
    handler: Option<&F>,
) -> (r: (Result<(), Error>, Ghost<Seq<MatchEvent>>))
    requires
        lo <= data@.len(),
        handler matches Some(f) ==> callback_callable(*f),
    ensures
        handler is None ==> r.0 is Ok && r.1@ == Seq::<MatchEvent>::empty(),
        handler matches Some(f) ==> scan_outcome(
            *f,
            events_in_range(views_of(patterns@), data@, lo as int, data@.len() as int),
            r.0,
            r.1@,
        ),
{
    let f = match handler {
        Option::None => {
            return (Result::Ok(()), Ghost(Seq::empty()));
        },
        Option::Some(f) => f,
    };
    let ghost pats = views_of(patterns@);
    let ghost full = events_in_range(pats, data@, lo as int, data@.len() as int);
    let mut log: Ghost<Seq<MatchEvent>> = Ghost(Seq::empty());
    let len = data.len();
    let n = patterns.len();
    let mut end = lo;
    while end < len
        invariant
            lo <= end <= len,
            len == data@.len(),
            n == patterns@.len(),
            callback_callable(*f),
            handler == Some(f),
            pats == views_of(patterns@),
            full == events_in_range(pats, data@, lo as int, len as int),
            log@ == events_in_range(pats, data@, lo as int, end as int),
            delivered_all(*f, log@, log@.len() as int),
        decreases len - end,
    {
        let cur = end + 1;
        let mut k: usize = 0;
        while k < n
            invariant
                lo <= end < cur <= len,
                cur == end + 1,
                k <= n,
                len == data@.len(),
                n == patterns@.len(),
                callback_callable(*f),
                handler == Some(f),
                pats == views_of(patterns@),
                full == events_in_range(pats, data@, lo as int, len as int),
                log@ == events_in_range(pats, data@, lo as int, end as int) + events_at_end(
                    pats,
                    data@,
                    cur as int,
                    k as int,
                ),
                delivered_all(*f, log@, log@.len() as int),
            decreases n - k,
        {
            let p = &patterns[k];
            if check_match(data, p, cur) {
                let m = p.literal.len();
                let from: u64 = if p.som {
                    (cur - m) as u64
                } else {
                    0
                };
                let to: u64 = cur as u64;
                let ghost ev = event_of(pats[k as int], cur as int);
                assert((p.id, from, to, 0u32) == event_args(ev));
                let cont = f(p.id, from, to, 0);
                proof {
                    assert(events_at_end(pats, data@, cur as int, k + 1) == events_at_end(
                        pats,
                        data@,
                        cur as int,
                        k as int,
                    ) + seq![ev]);
                    assert(log@.push(ev) =~= events_in_range(pats, data@, lo as int, end as int)
                        + events_at_end(pats, data@, cur as int, k + 1));
                }
                let ghost prior = log@;
                log = Ghost(log@.push(ev));
                if !cont {
                    proof {
                        let l = log@.len() as int;
                        lemma_events_at_end_prefix(pats, data@, cur as int, k + 1, n as int);
                        lemma_events_range_prefix(pats, data@, lo as int, cur as int, len as int);
                        let upto_cur = events_in_range(pats, data@, lo as int, cur as int);
                        assert(upto_cur =~= events_in_range(pats, data@, lo as int, end as int)
                            + events_at_end(pats, data@, cur as int, n as int));
                        assert(log@.len() <= upto_cur.len() <= full.len());
                        assert(log@ =~= full.take(l));
                        assert(log@[l - 1] == ev);
                        assert(full.take(l)[l - 1] == full[l - 1]);
                        assert(full[l - 1] == ev);
                        assert(delivered_all(*f, full, l - 1)) by {
                            assert forall|i: int| 0 <= i < l - 1 implies call_ensures(
                                *f,
                                event_args(#[trigger] full[i]),
                                true,
                            ) by {
                                assert(log@[i] == prior[i]);
                                assert(full.take(l)[i] == full[i]);
                                assert(call_ensures(*f, event_args(prior[i]), true));
                            }
                        }
                    }
                    return (Result::Err(Error::ScanTerminated), log);
                }
            } else {
                proof {
                    assert(events_at_end(pats, data@, cur as int, k + 1) =~= events_at_end(
                        pats,
                        data@,
                        cur as int,
                        k as int,
                    ));
                }
            }
            k += 1;
        }
        proof {
            assert(events_in_range(pats, data@, lo as int, cur as int) =~= events_in_range(
                pats,
                data@,
                lo as int,
                end as int,
            ) + events_at_end(pats, data@, cur as int, n as int));
        }
        end = cur;
    }
    (Result::Ok(()), log)
}

} // verus!
