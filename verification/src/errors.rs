use vstd::prelude::*;

verus! {

/// Errors of the epoch counter subsystem.
#[derive(Debug, Clone, Copy, PartialEq, Eq, Structural)]
pub enum Error {
    /// A non-positive bucket width was supplied.
    InvalidWidth,
    /// More than one epoch record matched a single canonical bucket range.
    TooManyEpochs,
    /// No epoch record with the given id is stored.
    EpochNotFound { id: u32 },
    /// No dadded counter record with the given id is stored.
    DaddedNotFound { id: u32 },
}

} // verus!
