use vstd::prelude::*;

verus! {

/// Faults that a runtime call can surface to its caller.
///
/// `ScanTerminated` is not an engine fault: it reports that the caller's own
/// match callback asked for an early stop, and the matches delivered before
/// the stop remain valid. `InvalidArgument` reports an incompatible handle,
/// such as a scratch region too small for the database scanned against, or a
/// stream used after it was closed. `ResourceExhausted` reports that a
/// request for working memory could not be satisfied.
#[derive(Clone, Copy, Debug, PartialEq, Eq, Structural)]
pub enum Error {
    ScanTerminated,
    InvalidArgument,
    ResourceExhausted,
}

} // verus!
