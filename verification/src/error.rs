//! Errors of the tracing setup.

use crate::text::concat;
use vstd::prelude::*;

verus! {

/// What kind of failure an [`FsError`] reports.
#[derive(Clone, Copy, Debug, PartialEq, Eq, Structural)]
pub enum ErrorCode {
    /// A file or directory could not be read or written.
    IoError,
    /// A failure with no kind of its own.
    Generic,
    /// A failure that should not happen.
    Unexpected,
}

/// A failure with a message for the user.
#[derive(Debug)]
pub struct FsError {
    pub code: ErrorCode,
    pub message: String,
}

impl FsError {
    /// An error whose message is `context` followed by `detail`.
    pub fn with_detail(code: ErrorCode, context: &str, detail: &str) -> (r: FsError)
        ensures
            r.code == code,
            r.message@ == context@ + detail@,
    {
        FsError { code, message: concat(context, detail) }
    }

    /// An error with a fixed message.
    pub fn with_message(code: ErrorCode, message: &str) -> (r: FsError)
        ensures
            r.code == code,
            r.message@ == message@,
    {
        FsError { code, message: message.to_owned() }
    }
}

} // verus!
