//! Status codes with a message, as the gateway's services answer failed calls.

use vstd::prelude::*;

verus! {

/// The canonical status codes.
#[derive(Debug, Clone, Copy, PartialEq, Eq, Structural)]
pub enum Code {
    Success,
    Cancelled,
    Unknown,
    InvalidArgument,
    DeadlineExceeded,
    NotFound,
    AlreadyExists,
    PermissionDenied,
    ResourceExhausted,
    FailedPrecondition,
    Aborted,
    OutOfRange,
    Unimplemented,
    Internal,
    Unavailable,
    DataLoss,
    Unauthenticated,
}

impl DeepView for Code {
    type V = Code;

    open spec fn deep_view(&self) -> Code {
        *self
    }
}

/// Why a call failed.
#[derive(Debug, Clone, PartialEq, Eq)]
pub struct Status {
    pub code: Code,
    pub message: String,
}

/// The content of a status.
pub struct StatusView {
    pub code: Code,
    pub message: Seq<char>,
}

impl DeepView for Status {
    type V = StatusView;

    open spec fn deep_view(&self) -> StatusView {
        StatusView { code: self.code, message: self.message@ }
    }
}

/// The status with a code and a message.
pub open spec fn status(code: Code, message: Seq<char>) -> StatusView {
    StatusView { code, message }
}

impl Status {
    /// A status with a code and a message.
    pub fn new(code: Code, message: String) -> (r: Status)
        ensures
            r.deep_view() == status(code, message@),
    {
        Status { code, message }
    }

    /// The code of the status.
    pub fn code(&self) -> (r: Code)
        ensures
            r == self.deep_view().code,
    {
        self.code
    }

    /// The message of the status.
    pub fn message(&self) -> (r: &str)
        ensures
            r@ == self.deep_view().message,
    {
        self.message.as_str()
    }
}

} // verus!
