//! The one failure of the checked batch operations.
use vstd::prelude::*;

verus! {

/// Error of the checked batch operations.
#[derive(Debug, Clone, Copy, PartialEq, Eq, Structural)]
pub enum ZigZagError {
    /// The output buffer holds fewer slots than there are input values.
    BufferTooSmall {
        /// Number of input values, which is the number of slots needed.
        needed: usize,
        /// Number of slots the output buffer has.
        actual: usize,
    },
}

impl ZigZagError {
    /// The number of slots that were needed.
    pub fn needed(&self) -> (r: usize)
        ensures
            r == self->needed,
    {
        match self {
            ZigZagError::BufferTooSmall { needed, .. } => *needed,
        }
    }

    /// The number of slots the output buffer had.
    pub fn actual(&self) -> (r: usize)
        ensures
            r == self->actual,
    {
        match self {
            ZigZagError::BufferTooSmall { actual, .. } => *actual,
        }
    }
}

} // verus!
