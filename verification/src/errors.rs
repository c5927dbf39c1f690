use vstd::prelude::*;

verus! {

/// The two failures an operation on the tracker can surface: a point lookup,
/// update or delete that matched no row, and a fault of the underlying store
/// (connectivity, constraint violation), kept distinct so that callers can
/// map them to different responses.
#[derive(Clone, Copy, Debug, PartialEq, Eq, Structural)]
pub enum TrackerError {
    NotFound,
    StorageError,
}

} // verus!
