//! Errors.

use vstd::prelude::*;

verus! {

/// The ways in which a run of items can fail to be one stretch of a list.
#[derive(Clone, Copy, Debug, PartialEq, Eq, Structural)]
pub enum Error {
    /// There is no item at all.
    EmptyList,
    /// An item does not start where the one before it ends.
    Discontinuous,
    /// A second item points back to a smaller key.
    ReachLastTwice,
    /// An item names itself as its successor.
    NextIsSelfItem,
}

impl Error {
    /// The number that identifies this error.
    pub open spec fn spec_code(self) -> i8 {
        match self {
            Error::EmptyList => 0x00,
            Error::Discontinuous => 0x01,
            Error::ReachLastTwice => 0x02,
            Error::NextIsSelfItem => 0x03,
        }
    }

    /// The number that identifies this error.
    #[verifier::when_used_as_spec(spec_code)]
    pub fn code(self) -> (c: i8)
        ensures
            c == self.spec_code(),
            0 <= c < 0x20,
    {
        match self {
            Error::EmptyList => 0x00,
            Error::Discontinuous => 0x01,
            Error::ReachLastTwice => 0x02,
            Error::NextIsSelfItem => 0x03,
        }
    }
}

} // verus!
