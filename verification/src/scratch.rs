use vstd::prelude::*;

use crate::database::{scratch_requirement, Database};
use crate::errors::Error;

verus! {

/// The capacity a scratch region has after it is regrown for a demand of
/// `req` bytes: grown exactly to the demand when it was short of it, and
/// left alone — never shrunk — when it already sufficed.
pub open spec fn grown_capacity(cur: usize, req: usize) -> usize {
    if cur >= req {
        cur
    } else {
        req
    }
}

/// Per-scan working memory, sized to the largest database it has been
/// allocated or reallocated against.
///
/// A scratch region serves one scanning operation at a time: handing each
/// concurrent scanner its own clone is the prescribed way to share work.
pub trait Scratch: Sized {
    /// The byte footprint the region currently holds.
    spec fn capacity(&self) -> usize;

    /// Reports the current byte footprint; side-effect-free.
    fn size(&self) -> (r: Result<usize, Error>)
        ensures
            r == Ok::<usize, Error>(self.capacity()),
    ;

    /// Regrows the region in place until it suffices for `db`; already
    /// sufficient capacity is kept as it is, never shrunk.
    fn realloc<T: Database>(&mut self, db: &T) -> (r: Result<&Self, Error>)
        ensures
            final(self).capacity() == grown_capacity(
                old(self).capacity(),
                scratch_requirement(db.patterns()),
            ),
            r is Ok,
    ;
}

/// A scratch region large enough to support a given database.
pub struct RawScratch {
    size: usize,
}

impl RawScratch {
    /// Sizes a fresh scratch region sufficient for `db`. One region per
    /// thread, or concurrent caller, is required.
    pub fn allocate<T: Database>(db: &T) -> (r: Result<RawScratch, Error>)
        ensures
            r matches Ok(s) ==> s.capacity() == scratch_requirement(db.patterns()),
            r is Ok,
    {
        Result::Ok(RawScratch { size: db.scratch_requirement() })
    }
}

impl Scratch for RawScratch {
    closed spec fn capacity(&self) -> usize {
        self.size
    }

    fn size(&self) -> (r: Result<usize, Error>) {
        Result::Ok(self.size)
    }

    fn realloc<T: Database>(&mut self, db: &T) -> (r: Result<&Self, Error>) {
        let req = db.scratch_requirement();
        if self.size < req {
            self.size = req;
        }
        Result::Ok(self)
    }
}

impl Clone for RawScratch {
    /// An independent region of the same capacity; later growth of either
    /// copy leaves the other untouched.
    fn clone(&self) -> (r: Self)
        ensures
            r.capacity() == self.capacity(),
    {
        RawScratch { size: self.size }
    }
}

} // verus!
