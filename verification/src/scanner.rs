use vstd::prelude::*;
use vstd::slice::slice_to_vec;
use vstd::string::StringSliceAdditionalSpecFns;

use crate::database::{scratch_requirement, BlockDatabase, Database, VectoredDatabase};
use crate::errors::Error;
use crate::matching::{
    callback_callable, match_events, run_scan, scan_accepts, scan_outcome, scan_rejects_at,
    MatchEvent,
};
use crate::scratch::Scratch;

verus! {

/// Data a scanner can read as one buffer of bytes.
pub trait Scannable {
    /// The bytes the scanner sees.
    spec fn bytes(&self) -> Seq<u8>;

    /// Borrows those bytes.
    fn as_bytes(&self) -> (r: &[u8])
        ensures
            r@ == self.bytes(),
    ;
}

impl<'a> Scannable for &'a [u8] {
    open spec fn bytes(&self) -> Seq<u8> {
        self@
    }

    fn as_bytes(&self) -> (r: &[u8]) {
        self
    }
}

impl<'a> Scannable for &'a str {
    open spec fn bytes(&self) -> Seq<u8> {
        self.spec_bytes()
    }

    fn as_bytes(&self) -> (r: &[u8]) {
        str::as_bytes(self)
    }
}

impl<'a> Scannable for &'a String {
    open spec fn bytes(&self) -> Seq<u8> {
        vstd::utf8::encode_utf8(self@)
    }

    fn as_bytes(&self) -> (r: &[u8]) {
        str::as_bytes(self.as_str())
    }
}

/// The byte image of each buffer in a list, in order.
pub open spec fn buffer_views<T: Scannable>(data: Seq<T>) -> Seq<Seq<u8>> {
    data.map_values(|d: T| d.bytes())
}

/// The logical contiguous stream that an ordered list of buffers stands
/// for: their bytes, in buffer order.
pub open spec fn concat_of(bufs: Seq<Seq<u8>>) -> Seq<u8>
    decreases bufs.len(),
{
    if bufs.len() == 0 {
        Seq::empty()
    } else {
        concat_of(bufs.drop_last()) + bufs.last()
    }
}

/// Lays the buffers of `data` out as the one logical stream they stand for.
fn concat_buffers<T: Scannable>(data: &Vec<T>) -> (r: Vec<u8>)
    ensures
        r@ == concat_of(buffer_views(data@)),
{
    let ghost bufs = buffer_views(data@);
    let mut out: Vec<u8> = Vec::new();
    let mut i: usize = 0;
    while i < data.len()
        invariant
            i <= data@.len(),
            bufs == buffer_views(data@),
            out@ == concat_of(bufs.take(i as int)),
        decreases data@.len() - i,
    {
        let piece: &[u8] = (&data[i]).as_bytes();
        let mut v = slice_to_vec(piece);
        out.append(&mut v);
        proof {
            assert(bufs.take(i + 1).drop_last() =~= bufs.take(i as int));
            assert(bufs.take(i + 1).last() == bufs[i as int]);
        }
        i += 1;
    }
    proof {
        assert(bufs.take(bufs.len() as int) =~= bufs);
    }
    out
}

/// The block (single-buffer) scanner: a stateless scan of one buffer
/// against a compiled database.
pub trait BlockScanner<T: Scannable, S: Scratch>: Database {
    /// Scans `data` once, delivering each match to `handler` in discovery
    /// order until the callback asks to stop.
    ///
    /// Succeeds when scanning completes; fails with `ScanTerminated` iff
    /// the callback requested an early stop, and with `InvalidArgument` iff
    /// the scratch region is undersized for this database.
    fn scan<F: Fn(u32, u64, u64, u32) -> bool>(
        &self,
        data: T,
        scratch: &S,
        handler: Option<&F>,
    ) -> (r: Result<&Self, Error>)
        requires
            handler matches Some(f) ==> callback_callable(*f),
        ensures
            scratch.capacity() < scratch_requirement(self.patterns()) ==> (r matches Err(e)
                && e == Error::InvalidArgument),
            scratch.capacity() >= scratch_requirement(self.patterns()) ==> {
                &&& handler is None ==> r is Ok
                &&& handler matches Some(f) ==> {
                    &&& r is Ok ==> scan_accepts(*f, match_events(self.patterns(), data.bytes()))
                    &&& r matches Err(e) ==> e == Error::ScanTerminated && exists|k: int|
                        #[trigger] scan_rejects_at(
                            *f,
                            match_events(self.patterns(), data.bytes()),
                            k,
                        )
                }
            },
    ;
}

/// The vectored scanner: a stateless scan of an ordered buffer list,
/// treated as one logical contiguous stream.
pub trait VectoredScanner<T: Scannable, S: Scratch>: Database {
    /// Scans the buffers of `data` as one logical stream, delivering each
    /// match — matches may span buffer boundaries — to `handler` in
    /// discovery order until the callback asks to stop.
    ///
    /// Succeeds when scanning completes; fails with `ScanTerminated` iff
    /// the callback requested an early stop, and with `InvalidArgument` iff
    /// the scratch region is undersized for this database.
    fn scan<F: Fn(u32, u64, u64, u32) -> bool>(
        &self,
        data: &Vec<T>,
        scratch: &S,
        handler: Option<&F>,
    ) -> (r: Result<&Self, Error>)
        requires
            handler matches Some(f) ==> callback_callable(*f),
        ensures
            scratch.capacity() < scratch_requirement(self.patterns()) ==> (r matches Err(e)
                && e == Error::InvalidArgument),
            scratch.capacity() >= scratch_requirement(self.patterns()) ==> {
                &&& handler is None ==> r is Ok
                &&& handler matches Some(f) ==> {
                    &&& r is Ok ==> scan_accepts(
                        *f,
                        match_events(
                            self.patterns(),
                            concat_of(buffer_views(data@)),
                        ),
                    )
                    &&& r matches Err(e) ==> e == Error::ScanTerminated && exists|k: int|
                        #[trigger] scan_rejects_at(
                            *f,
                            match_events(
                                self.patterns(),
                                concat_of(buffer_views(data@)),
                            ),
                            k,
                        )
                }
            },
    ;
}

impl BlockDatabase {
    /// Scans `data` as `BlockScanner::scan` does, returning beside the
    /// verdict the log of events the callback saw, in delivery order.
    pub fn scan_logged<T: Scannable, S: Scratch, F: Fn(u32, u64, u64, u32) -> bool>(
        &self,
        data: T,
        scratch: &S,
        handler: Option<&F>,
    ) -> (r: (Result<(), Error>, Ghost<Seq<MatchEvent>>))
        requires
            handler matches Some(f) ==> callback_callable(*f),
        ensures
            scratch.capacity() < scratch_requirement(self.patterns()) ==> r.0 == Err::<
                (),
                Error,
            >(Error::InvalidArgument) && r.1@ == Seq::<MatchEvent>::empty(),
            scratch.capacity() >= scratch_requirement(self.patterns()) ==> {
                &&& handler is None ==> r.0 is Ok && r.1@ == Seq::<MatchEvent>::empty()
                &&& handler matches Some(f) ==> scan_outcome(
                    *f,
                    match_events(self.patterns(), data.bytes()),
                    r.0,
                    r.1@,
                )
            },
    {
        proof {
            self.patterns_def();
        }
        let sz = scratch.size().unwrap();
        if sz < self.scratch_requirement() {
            return (Result::Err(Error::InvalidArgument), Ghost(Seq::empty()));
        }
        let bytes: &[u8] = data.as_bytes();
        run_scan(&self.patterns, bytes, 0, handler)
    }
}

impl<T: Scannable, S: Scratch> BlockScanner<T, S> for BlockDatabase {
    fn scan<F: Fn(u32, u64, u64, u32) -> bool>(
        &self,
        data: T,
        scratch: &S,
        handler: Option<&F>,
    ) -> (r: Result<&Self, Error>) {
        let ghost evts = match_events(self.patterns(), data.bytes());
        let (res, log) = self.scan_logged(data, scratch, handler);
        match res {
            Result::Ok(u) => Result::Ok(self),
            Result::Err(e) => {
                proof {
                    if e == Error::ScanTerminated && (handler matches Some(f)) {
                        if scratch.capacity() >= scratch_requirement(self.patterns()) {
                            assert(scan_rejects_at(
                                *(handler->Some_0),
                                evts,
                                log@.len() - 1,
                            ));
                        }
                    }
                }
                Result::Err(e)
            },
        }
    }
}

impl VectoredDatabase {
    /// Scans the buffers of `data` as `VectoredScanner::scan` does,
    /// returning beside the verdict the log of events the callback saw, in
    /// delivery order.
    pub fn scan_logged<T: Scannable, S: Scratch, F: Fn(u32, u64, u64, u32) -> bool>(
        &self,
        data: &Vec<T>,
        scratch: &S,
        handler: Option<&F>,
    ) -> (r: (Result<(), Error>, Ghost<Seq<MatchEvent>>))
        requires
            handler matches Some(f) ==> callback_callable(*f),
        ensures
            scratch.capacity() < scratch_requirement(self.patterns()) ==> r.0 == Err::<
                (),
                Error,
            >(Error::InvalidArgument) && r.1@ == Seq::<MatchEvent>::empty(),
            scratch.capacity() >= scratch_requirement(self.patterns()) ==> {
                &&& handler is None ==> r.0 is Ok && r.1@ == Seq::<MatchEvent>::empty()
                &&& handler matches Some(f) ==> scan_outcome(
                    *f,
                    match_events(
                        self.patterns(),
                        concat_of(buffer_views(data@)),
                    ),
                    r.0,
                    r.1@,
                )
            },
    {
        proof {
            self.patterns_def();
        }
        let sz = scratch.size().unwrap();
        if sz < self.scratch_requirement() {
            return (Result::Err(Error::InvalidArgument), Ghost(Seq::empty()));
        }
        let joined = concat_buffers(data);
        run_scan(&self.patterns, joined.as_slice(), 0, handler)
    }
}

impl<T: Scannable, S: Scratch> VectoredScanner<T, S> for VectoredDatabase {
    fn scan<F: Fn(u32, u64, u64, u32) -> bool>(
        &self,
        data: &Vec<T>,
        scratch: &S,
        handler: Option<&F>,
    ) -> (r: Result<&Self, Error>) {
        let ghost evts = match_events(
            self.patterns(),
            concat_of(buffer_views(data@)),
        );
        let (res, log) = self.scan_logged(data, scratch, handler);
        match res {
            Result::Ok(u) => Result::Ok(self),
            Result::Err(e) => {
                proof {
                    if e == Error::ScanTerminated && (handler matches Some(f)) {
                        if scratch.capacity() >= scratch_requirement(self.patterns()) {
                            assert(scan_rejects_at(
                                *(handler->Some_0),
                                evts,
                                log@.len() - 1,
                            ));
                        }
                    }
                }
                Result::Err(e)
            },
        }
    }
}

} // verus!
