use vstd::prelude::*;
use vstd::slice::slice_to_vec;

use crate::database::{compute_requirement, scratch_requirement, Database, StreamingDatabase};
use crate::errors::Error;
use crate::matching::{
    callback_callable, clone_patterns, events_in_range, run_scan, scan_accepts, scan_outcome,
    scan_rejects_at, views_of, MatchEvent, Pattern, PatternView,
};
use crate::scanner::Scannable;
use crate::scratch::{RawScratch, Scratch};

verus! {

/// Flags a stream is opened or reset with; they configure stream-level
/// behaviour and are carried by the handle unread by the scanning logic.
pub type StreamFlags = u32;

/// A stateful scan session bound to one compiled database.
///
/// Lifecycle: opened against a database, fed sequential chunks, optionally
/// reset to the empty state, and finally closed. Once closed a stream
/// cannot be reopened, and every further call on it is an error.
pub trait Stream<S: Scratch>: Sized {
    /// The pattern set of the database the stream is bound to.
    spec fn patterns(&self) -> Seq<PatternView>;

    /// The whole logical stream fed so far since open or the last reset.
    spec fn seen(&self) -> Seq<u8>;

    /// The flags the stream was opened or last reset with.
    spec fn stream_flags(&self) -> u32;

    /// Whether the stream has been closed.
    spec fn is_closed(&self) -> bool;

    /// Flushes pending match state through the callback, then permanently
    /// invalidates the stream. The literal engine holds no pending
    /// end-of-data state, so the callback is never invoked here.
    fn close<F: Fn(u32, u64, u64, u32) -> bool>(
        &mut self,
        scratch: &S,
        handler: Option<&F>,
    ) -> (r: Result<(), Error>)
        requires
            handler matches Some(f) ==> callback_callable(*f),
        ensures
            old(self).is_closed() ==> r == Err::<(), Error>(Error::InvalidArgument) && *final(self)
                == *old(self),
            !old(self).is_closed() && scratch.capacity() < scratch_requirement(
                old(self).patterns(),
            ) ==> r == Err::<(), Error>(Error::InvalidArgument) && *final(self) == *old(self),
            !old(self).is_closed() && scratch.capacity() >= scratch_requirement(
                old(self).patterns(),
            ) ==> {
                &&& r is Ok
                &&& final(self).is_closed()
                &&& final(self).patterns() == old(self).patterns()
                &&& final(self).seen() == old(self).seen()
                &&& final(self).stream_flags() == old(self).stream_flags()
            },
    ;

    /// Flushes pending match state through the callback, then reinitialises
    /// the stream to the empty state under `flags`, ready for new chunks;
    /// the handle stays valid. The literal engine holds no pending
    /// end-of-data state, so the callback is never invoked here.
    fn reset<F: Fn(u32, u64, u64, u32) -> bool>(
        &mut self,
        flags: StreamFlags,
        scratch: &S,
        handler: Option<&F>,
    ) -> (r: Result<(), Error>)
        requires
            handler matches Some(f) ==> callback_callable(*f),
        ensures
            old(self).is_closed() ==> r == Err::<(), Error>(Error::InvalidArgument) && *final(self)
                == *old(self),
            !old(self).is_closed() && scratch.capacity() < scratch_requirement(
                old(self).patterns(),
            ) ==> r == Err::<(), Error>(Error::InvalidArgument) && *final(self) == *old(self),
            !old(self).is_closed() && scratch.capacity() >= scratch_requirement(
                old(self).patterns(),
            ) ==> {
                &&& r is Ok
                &&& !final(self).is_closed()
                &&& final(self).patterns() == old(self).patterns()
                &&& final(self).seen() == Seq::<u8>::empty()
                &&& final(self).stream_flags() == flags
            },
    ;
}

/// The streaming scanner: opens stateful scan sessions against a compiled
/// database.
pub trait StreamingScanner<T, S>: Database where T: Stream<S>, S: Scratch {
    /// Opens and initialises a stream bound to this database, with no match
    /// history.
    fn open_stream(&self, flags: StreamFlags) -> (r: Result<T, Error>)
        ensures
            r matches Ok(st) ==> {
                &&& st.patterns() == self.patterns()
                &&& st.seen() == Seq::<u8>::empty()
                &&& st.stream_flags() == flags
                &&& !st.is_closed()
            },
            r is Ok,
    ;
}

/// A pattern-matching session whose state is maintained across multiple
/// chunks of target data.
pub struct RawStream {
    patterns: Vec<Pattern>,
    flags: u32,
    history: Vec<u8>,
    closed: bool,
}

impl RawStream {
    /// The pattern set of the database the stream is bound to.
    pub closed spec fn spec_patterns(&self) -> Seq<PatternView> {
        views_of(self.patterns@)
    }

    /// The whole logical stream fed so far since open or the last reset.
    pub closed spec fn spec_seen(&self) -> Seq<u8> {
        self.history@
    }

    /// The flags the stream was opened or last reset with.
    pub closed spec fn spec_flags(&self) -> u32 {
        self.flags
    }

    /// Whether the stream has been closed.
    pub closed spec fn spec_closed(&self) -> bool {
        self.closed
    }

    /// Feeds the next sequential chunk and delivers every match that ends
    /// inside it — matches begun in earlier chunks included — in discovery
    /// order, returning beside the verdict the log of events the callback
    /// saw. Offsets count from the start of the logical stream.
    pub fn scan_logged<T: Scannable, S: Scratch, F: Fn(u32, u64, u64, u32) -> bool>(
        &mut self,
        data: T,
        scratch: &S,
        handler: Option<&F>,
    ) -> (r: (Result<(), Error>, Ghost<Seq<MatchEvent>>))
        requires
            handler matches Some(f) ==> callback_callable(*f),
        ensures
            old(self).spec_closed() ==> r.0 == Err::<(), Error>(Error::InvalidArgument) && *final(self) == *old(self) && r.1@ == Seq::<MatchEvent>::empty(),
            !old(self).spec_closed() && scratch.capacity() < scratch_requirement(
                old(self).spec_patterns(),
            ) ==> r.0 == Err::<(), Error>(Error::InvalidArgument) && *final(self) == *old(self)
                && r.1@ == Seq::<MatchEvent>::empty(),
            !old(self).spec_closed() && scratch.capacity() >= scratch_requirement(
                old(self).spec_patterns(),
            ) && old(self).spec_seen().len() + data.bytes().len() > usize::MAX ==> r.0 == Err::<
                (),
                Error,
            >(Error::ResourceExhausted) && *final(self) == *old(self) && r.1@ == Seq::<
                MatchEvent,
            >::empty(),
            !old(self).spec_closed() && scratch.capacity() >= scratch_requirement(
                old(self).spec_patterns(),
            ) && old(self).spec_seen().len() + data.bytes().len() <= usize::MAX ==> {
                &&& final(self).spec_seen() == old(self).spec_seen() + data.bytes()
                &&& final(self).spec_patterns() == old(self).spec_patterns()
                &&& final(self).spec_flags() == old(self).spec_flags()
                &&& !final(self).spec_closed()
                &&& handler is None ==> r.0 is Ok && r.1@ == Seq::<MatchEvent>::empty()
                &&& handler matches Some(f) ==> scan_outcome(
                    *f,
                    events_in_range(
                        old(self).spec_patterns(),
                        old(self).spec_seen() + data.bytes(),
                        old(self).spec_seen().len() as int,
                        old(self).spec_seen().len() + data.bytes().len() as int,
                    ),
                    r.0,
                    r.1@,
                )
            },
    {
        if self.closed {
            return (Result::Err(Error::InvalidArgument), Ghost(Seq::empty()));
        }
        let sz = scratch.size().unwrap();
        if sz < compute_requirement(&self.patterns) {
            return (Result::Err(Error::InvalidArgument), Ghost(Seq::empty()));
        }
        let bytes: &[u8] = data.as_bytes();
        let lo = self.history.len();
        if bytes.len() > usize::MAX - lo {
            return (Result::Err(Error::ResourceExhausted), Ghost(Seq::empty()));
        }
        let mut v = slice_to_vec(bytes);
        self.history.append(&mut v);
        run_scan(&self.patterns, self.history.as_slice(), lo, handler)
    }

    /// Feeds the next sequential chunk as `scan_logged` does, without the
    /// delivery log.
    pub fn scan<T: Scannable, S: Scratch, F: Fn(u32, u64, u64, u32) -> bool>(
        &mut self,
        data: T,
        scratch: &S,
        handler: Option<&F>,
    ) -> (r: Result<(), Error>)
        requires
            handler matches Some(f) ==> callback_callable(*f),
        ensures
            old(self).spec_closed() ==> r == Err::<(), Error>(Error::InvalidArgument) && *final(self) == *old(self),
            !old(self).spec_closed() && scratch.capacity() < scratch_requirement(
                old(self).spec_patterns(),
            ) ==> r == Err::<(), Error>(Error::InvalidArgument) && *final(self) == *old(self),
            !old(self).spec_closed() && scratch.capacity() >= scratch_requirement(
                old(self).spec_patterns(),
            ) && old(self).spec_seen().len() + data.bytes().len() > usize::MAX ==> r == Err::<
                (),
                Error,
            >(Error::ResourceExhausted) && *final(self) == *old(self),
            !old(self).spec_closed() && scratch.capacity() >= scratch_requirement(
                old(self).spec_patterns(),
            ) && old(self).spec_seen().len() + data.bytes().len() <= usize::MAX ==> {
                &&& final(self).spec_seen() == old(self).spec_seen() + data.bytes()
                &&& final(self).spec_patterns() == old(self).spec_patterns()
                &&& final(self).spec_flags() == old(self).spec_flags()
                &&& !final(self).spec_closed()
                &&& handler is None ==> r is Ok
                &&& handler matches Some(f) ==> {
                    &&& r is Ok ==> scan_accepts(
                        *f,
                        events_in_range(
                            old(self).spec_patterns(),
                            old(self).spec_seen() + data.bytes(),
                            old(self).spec_seen().len() as int,
                            old(self).spec_seen().len() + data.bytes().len() as int,
                        ),
                    )
                    &&& r matches Err(e) ==> e == Error::ScanTerminated && exists|k: int|
                        #[trigger] scan_rejects_at(
                            *f,
                            events_in_range(
                                old(self).spec_patterns(),
                                old(self).spec_seen() + data.bytes(),
                                old(self).spec_seen().len() as int,
                                old(self).spec_seen().len() + data.bytes().len() as int,
                            ),
                            k,
                        )
                }
            },
    {
        let ghost evts = events_in_range(
            old(self).spec_patterns(),
            old(self).spec_seen() + data.bytes(),
            old(self).spec_seen().len() as int,
            old(self).spec_seen().len() + data.bytes().len() as int,
        );
        let (res, log) = self.scan_logged(data, scratch, handler);
        proof {
            if !old(self).spec_closed() && scratch.capacity() >= scratch_requirement(
                old(self).spec_patterns(),
            ) && old(self).spec_seen().len() + data.bytes().len() <= usize::MAX {
                if (handler matches Some(f)) && (res matches Err(e)) {
                    assert(scan_rejects_at(*(handler->Some_0), evts, log@.len() - 1));
                }
            }
        }
        res
    }
}

impl<S: Scratch> Stream<S> for RawStream {
    open spec fn patterns(&self) -> Seq<PatternView> {
        self.spec_patterns()
    }

    open spec fn seen(&self) -> Seq<u8> {
        self.spec_seen()
    }

    open spec fn stream_flags(&self) -> u32 {
        self.spec_flags()
    }

    open spec fn is_closed(&self) -> bool {
        self.spec_closed()
    }

    fn close<F: Fn(u32, u64, u64, u32) -> bool>(
        &mut self,
        scratch: &S,
        handler: Option<&F>,
    ) -> (r: Result<(), Error>) {
        if self.closed {
            return Result::Err(Error::InvalidArgument);
        }
        let sz = scratch.size().unwrap();
        if sz < compute_requirement(&self.patterns) {
            return Result::Err(Error::InvalidArgument);
        }
        self.closed = true;
        Result::Ok(())
    }

    fn reset<F: Fn(u32, u64, u64, u32) -> bool>(
        &mut self,
        flags: StreamFlags,
        scratch: &S,
        handler: Option<&F>,
    ) -> (r: Result<(), Error>) {
        if self.closed {
            return Result::Err(Error::InvalidArgument);
        }
        let sz = scratch.size().unwrap();
        if sz < compute_requirement(&self.patterns) {
            return Result::Err(Error::InvalidArgument);
        }
        self.history = Vec::new();
        self.flags = flags;
        Result::Ok(())
    }
}

impl Clone for RawStream {
    /// Forks an independent session carrying an exact copy of the current
    /// match-progress state; later scans on either handle leave the other
    /// untouched.
    fn clone(&self) -> (r: Self)
        ensures
            r.spec_patterns() == self.spec_patterns(),
            r.spec_seen() == self.spec_seen(),
            r.spec_flags() == self.spec_flags(),
            r.spec_closed() == self.spec_closed(),
    {
        RawStream {
            patterns: clone_patterns(&self.patterns),
            flags: self.flags,
            history: slice_to_vec(self.history.as_slice()),
            closed: self.closed,
        }
    }
}

impl StreamingScanner<RawStream, RawScratch> for StreamingDatabase {
    fn open_stream(&self, flags: StreamFlags) -> (r: Result<RawStream, Error>) {
        proof {
            self.patterns_def();
        }
        Result::Ok(
            RawStream {
                patterns: clone_patterns(&self.patterns),
                flags,
                history: Vec::new(),
                closed: false,
            },
        )
    }
}

} // verus!
