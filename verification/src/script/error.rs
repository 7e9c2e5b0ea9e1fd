//! Errors, and the exit status that each stands for.

use vstd::prelude::*;
use vstd::std_specs::convert::FromSpecImpl;
use crate::tool::error::Error as ToolError;

verus! {

/// What the host answers when it cannot hand out what was asked for.
#[derive(Clone, Copy, Debug, PartialEq, Eq, Structural)]
pub enum HostError {
    /// There is no item at the index.
    IndexOutOfBound,
    /// The item has no such field.
    ItemMissing,
    /// The buffer is too short; the length needed is given.
    LengthNotEnough(usize),
    /// The data is not encoded as it should be.
    Encoding,
    /// Another error, with the number that the host gave.
    Unknown(u64),
}

#[derive(Clone, Copy, Debug, PartialEq, Eq, Structural)]
pub enum InternalError {
    // 0x01 ~ 0x0f: Errors from the host.
    IndexOutOfBound,
    ItemMissing,
    LengthNotEnough,
    Encoding,
    Unknown,
    // 0x10 ~ 0x1f: Errors before doing operations.
    UnknownEnvironment,
    UnknownOperation,
    // 0x20 ~ 0x2f: Errors when create.
    CreateInvalidArgsLength,
    CreateIncorrectUniqueId,
    CreateInvalidOutputData,
    CreateIncompleteList,
    // 0x30 ~ 0x3f: Errors when destroy.
    DestroyInvalidInputData,
    DestroyIncompleteList,
    // 0x40 ~ 0x4f: Errors when update.
    UpdateMismatchRange,
}

#[derive(Clone, Copy, Debug, PartialEq, Eq, Structural)]
pub enum Error {
    // 0x01 ~ 0x5f: Errors that the script raises itself.
    Internal(InternalError),
    // 0x60 ~ 0x7f: Errors from the check of the list.
    Tool(ToolError),
}

impl HostError {
    /// The error of the script that this error of the host becomes: the one
    /// with the same name.
    pub open spec fn internal(self) -> InternalError {
        match self {
            HostError::IndexOutOfBound => InternalError::IndexOutOfBound,
            HostError::ItemMissing => InternalError::ItemMissing,
            HostError::LengthNotEnough(_) => InternalError::LengthNotEnough,
            HostError::Encoding => InternalError::Encoding,
            HostError::Unknown(_) => InternalError::Unknown,
        }
    }
}

impl InternalError {
    /// The number that identifies this error.
    pub open spec fn spec_code(self) -> i8 {
        match self {
            InternalError::IndexOutOfBound => 0x01,
            InternalError::ItemMissing => 0x02,
            InternalError::LengthNotEnough => 0x03,
            InternalError::Encoding => 0x04,
            InternalError::Unknown => 0x05,
            InternalError::UnknownEnvironment => 0x10,
            InternalError::UnknownOperation => 0x11,
            InternalError::CreateInvalidArgsLength => 0x20,
            InternalError::CreateIncorrectUniqueId => 0x21,
            InternalError::CreateInvalidOutputData => 0x22,
            InternalError::CreateIncompleteList => 0x23,
            InternalError::DestroyInvalidInputData => 0x30,
            InternalError::DestroyIncompleteList => 0x31,
            InternalError::UpdateMismatchRange => 0x40,
        }
    }

    /// The number that identifies this error.
    #[verifier::when_used_as_spec(spec_code)]
    pub fn code(self) -> (c: i8)
        ensures
            c == self.spec_code(),
            0x01 <= c < 0x60,
    {
        match self {
            InternalError::IndexOutOfBound => 0x01,
            InternalError::ItemMissing => 0x02,
            InternalError::LengthNotEnough => 0x03,
            InternalError::Encoding => 0x04,
            InternalError::Unknown => 0x05,
            InternalError::UnknownEnvironment => 0x10,
            InternalError::UnknownOperation => 0x11,
            InternalError::CreateInvalidArgsLength => 0x20,
            InternalError::CreateIncorrectUniqueId => 0x21,
            InternalError::CreateInvalidOutputData => 0x22,
            InternalError::CreateIncompleteList => 0x23,
            InternalError::DestroyInvalidInputData => 0x30,
            InternalError::DestroyIncompleteList => 0x31,
            InternalError::UpdateMismatchRange => 0x40,
        }
    }
}

impl Error {
    /// The exit status that this error stands for: the number of an error of
    /// the script itself, or 0x60 and the number of an error of the check.
    pub open spec fn exit_code(self) -> i8 {
        match self {
            Error::Internal(e) => e.spec_code(),
            Error::Tool(e) => (0x60 + e.spec_code()) as i8,
        }
    }
}

impl From<HostError> for InternalError {
    fn from(err: HostError) -> (e: Self) {
        match err {
            HostError::IndexOutOfBound => Self::IndexOutOfBound,
            HostError::ItemMissing => Self::ItemMissing,
            HostError::LengthNotEnough(_) => Self::LengthNotEnough,
            HostError::Encoding => Self::Encoding,
            HostError::Unknown(_) => Self::Unknown,
        }
    }
}

impl FromSpecImpl<HostError> for InternalError {
    open spec fn obeys_from_spec() -> bool {
        true
    }

    open spec fn from_spec(err: HostError) -> Self {
        err.internal()
    }
}

impl From<HostError> for Error {
    fn from(err: HostError) -> (e: Self) {
        Error::Internal(InternalError::from(err))
    }
}

impl FromSpecImpl<HostError> for Error {
    open spec fn obeys_from_spec() -> bool {
        true
    }

    open spec fn from_spec(err: HostError) -> Self {
        Error::Internal(err.internal())
    }
}

impl From<InternalError> for Error {
    fn from(err: InternalError) -> (e: Self) {
        Self::Internal(err)
    }
}

impl FromSpecImpl<InternalError> for Error {
    open spec fn obeys_from_spec() -> bool {
        true
    }

    open spec fn from_spec(err: InternalError) -> Self {
        Error::Internal(err)
    }
}

impl From<ToolError> for Error {
    fn from(err: ToolError) -> (e: Self) {
        Self::Tool(err)
    }
}

impl FromSpecImpl<ToolError> for Error {
    open spec fn obeys_from_spec() -> bool {
        true
    }

    open spec fn from_spec(err: ToolError) -> Self {
        Error::Tool(err)
    }
}

impl From<Error> for i8 {
    fn from(err: Error) -> (code: Self) {
        match err {
            Error::Internal(e) => e.code(),
            Error::Tool(e) => 0x60 + e.code(),
        }
    }
}

impl FromSpecImpl<Error> for i8 {
    open spec fn obeys_from_spec() -> bool {
        true
    }

    open spec fn from_spec(err: Error) -> Self {
        err.exit_code()
    }
}

/// The exit status of an error is never zero, which stands for success, and
/// tells the error: no two errors share a status.
pub proof fn lemma_exit_code(a: Error, b: Error)
    ensures
        0 < a.exit_code() <= 0x7f,
        a.exit_code() == b.exit_code() ==> a == b,
        a is Internal <==> a.exit_code() < 0x60,
{
}

} // verus!
