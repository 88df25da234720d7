//! Failures that the library reports to its caller.
use vstd::prelude::*;

verus! {

/// Why a simulation or a sweep could not be set up.
#[derive(Debug, Clone, Copy, PartialEq, Eq, Structural)]
pub enum Error {
    /// The policy name is none of `fifo`, `lru`, `second_chance`, `sc`,
    /// `optimal`.
    UnknownAlgorithm,
    /// The optimal policy was asked for without the whole trace at hand.
    MissingTrace,
    /// A page table of no slots.
    ZeroTableSize,
    /// The last table size of a sweep is below the first.
    InvalidRange,
}

impl Error {
    /// A sentence that says what went wrong.
    pub fn description(&self) -> &'static str {
        match self {
            Error::UnknownAlgorithm => "Unknown page replacement algorithm",
            Error::MissingTrace => "Must run optimal with page requests as an input file",
            Error::ZeroTableSize => "Table size must be over 0",
            Error::InvalidRange => "Max table size cannot be lower than table size",
        }
    }
}

} // verus!
