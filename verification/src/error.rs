//! Errors surfaced by the persistence engine.

use vstd::prelude::*;

use crate::types::Hash32;

verus! {

/// What can go wrong while applying blocks to the store.
///
/// `UnknownParentBlock` is an expected, recoverable condition: the candidate
/// block's declared parent is not the stored header at the previous height.
/// `Data` signals storage corruption or a codec mismatch: a stored identifier
/// decoded to the wrong byte length, which it carries for diagnosis. It is
/// fatal to the current operation.
#[derive(Clone, Copy, PartialEq, Eq, Debug)]
pub enum Error {
    Data { message: &'static str, length: usize },
    UnknownParentBlock { number: u64, hash: Hash32 },
}

} // verus!
