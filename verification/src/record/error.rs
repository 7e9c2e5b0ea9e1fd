//! What can be wrong with the bytes of a record.

use vstd::prelude::*;

verus! {

/// The reader that found the bytes at fault.
#[derive(Clone, Copy, Debug, PartialEq, Eq, Structural)]
pub enum Schema {
    /// The reader of a byte string.
    BytesReader,
    /// The reader of a record.
    DemoDataReader,
}

impl Schema {
    /// The name of the reader.
    pub fn name(self) -> (name: &'static str)
        ensures
            name@ == match self {
                Schema::BytesReader => "BytesReader"@,
                Schema::DemoDataReader => "DemoDataReader"@,
            },
    {
        match self {
            Schema::BytesReader => "BytesReader",
            Schema::DemoDataReader => "DemoDataReader",
        }
    }
}

/// The reason for which bytes are refused. Each names the reader that
/// refused them; where two sizes are given, the first is the one expected
/// and the second the one found.
#[derive(Clone, Copy, Debug, PartialEq, Eq, Structural)]
pub enum VerificationError {
    /// The size that the bytes declare is not the size they have.
    TotalSizeNotMatch(Schema, u64, u64),
    /// The bytes are too few to hold the header.
    HeaderIsBroken(Schema, u64, u64),
    /// The offsets do not start where the header ends, or do not grow.
    OffsetsNotMatch(Schema),
    /// The record has another number of fields than it should.
    FieldCountNotMatch(Schema, u64, u64),
}

} // verus!
