//! The status of a span: a canonical code with a description.

use vstd::prelude::*;

verus! {

/// The canonical status codes.
#[derive(Copy, Clone, PartialEq, Eq, Structural, PartialOrd, Ord, Hash, Debug)]
pub enum CanonicalCode {
    /// The operation completed successfully.
    Success,
    /// The operation was cancelled, typically by the caller.
    Cancelled,
    /// An error of a kind that is not known here.
    Unknown,
    /// The caller gave an argument that is wrong whatever the state of the
    /// system.
    InvalidArgument,
    /// The deadline passed before the operation could complete.
    DeadlineExceeded,
    /// An entity that was asked for was not found.
    NotFound,
    /// An entity that was to be created is already there.
    AlreadyExists,
    /// The caller may not execute the operation.
    PermissionDenied,
    /// A resource, such as a quota or the disk, is used up.
    ResourceExhausted,
    /// The system is not in the state that the operation needs.
    FailedPrecondition,
    /// The operation was aborted, typically because of a conflict with
    /// another one.
    Aborted,
    /// The operation went past the valid range.
    OutOfRange,
    /// The operation is not implemented or not enabled.
    Unimplemented,
    /// An invariant of the underlying system is broken.
    Internal,
    /// The service is not available at present.
    Unavailable,
    /// Data was lost or corrupted beyond recovery.
    DataLoss,
    /// The request has no valid credentials for the operation.
    Unauthenticated,
}

impl CanonicalCode {
    /// The number of the code.
    pub open spec fn spec_value(self) -> u8 {
        match self {
            CanonicalCode::Success => 0,
            CanonicalCode::Cancelled => 1,
            CanonicalCode::Unknown => 2,
            CanonicalCode::InvalidArgument => 3,
            CanonicalCode::DeadlineExceeded => 4,
            CanonicalCode::NotFound => 5,
            CanonicalCode::AlreadyExists => 6,
            CanonicalCode::PermissionDenied => 7,
            CanonicalCode::ResourceExhausted => 8,
            CanonicalCode::FailedPrecondition => 9,
            CanonicalCode::Aborted => 10,
            CanonicalCode::OutOfRange => 11,
            CanonicalCode::Unimplemented => 12,
            CanonicalCode::Internal => 13,
            CanonicalCode::Unavailable => 14,
            CanonicalCode::DataLoss => 15,
            CanonicalCode::Unauthenticated => 16,
        }
    }

    /// The number of the code.
    pub fn value(self) -> (r: u8)
        ensures
            r == self.spec_value(),
    {
        match self {
            CanonicalCode::Success => 0,
            CanonicalCode::Cancelled => 1,
            CanonicalCode::Unknown => 2,
            CanonicalCode::InvalidArgument => 3,
            CanonicalCode::DeadlineExceeded => 4,
            CanonicalCode::NotFound => 5,
            CanonicalCode::AlreadyExists => 6,
            CanonicalCode::PermissionDenied => 7,
            CanonicalCode::ResourceExhausted => 8,
            CanonicalCode::FailedPrecondition => 9,
            CanonicalCode::Aborted => 10,
            CanonicalCode::OutOfRange => 11,
            CanonicalCode::Unimplemented => 12,
            CanonicalCode::Internal => 13,
            CanonicalCode::Unavailable => 14,
            CanonicalCode::DataLoss => 15,
            CanonicalCode::Unauthenticated => 16,
        }
    }
}

/// The status of a span: a canonical code and a description of what
/// happened.
#[derive(PartialEq, Eq, PartialOrd, Ord, Hash, Debug)]
pub struct Status {
    pub status_code: CanonicalCode,
    pub description: String,
}

impl Clone for Status {
    fn clone(&self) -> (r: Self)
        ensures
            r.status_code == self.status_code,
            r.description@ == self.description@,
    {
        Status { status_code: self.status_code, description: self.description.clone() }
    }
}

impl Status {
    /// Whether the status is that of success, that is, no error.
    pub fn is_ok(&self) -> (r: bool)
        ensures
            r == (self.status_code == CanonicalCode::Success),
    {
        self.status_code == CanonicalCode::Success
    }

    /// A status with the same code and the given description.
    pub fn with_description(&self, description: &str) -> (r: Self)
        ensures
            r.status_code == self.status_code,
            r.description@ == description@,
    {
        Status { status_code: self.status_code, description: description.to_owned() }
    }
}

} // verus!
