//! The errors the scanner reports.

use vstd::prelude::*;

verus! {

/// Domain error codes of the scanner.
#[derive(Debug, Clone, Copy, PartialEq, Eq, Structural)]
pub enum ErrorCode {
    /// A clone ran longer than the configured timeout.
    ScannerTimeout,
    /// A git operation of a clone failed.
    ScannerCloneFailed,
}

/// An error of the scanner: an internal fault, or a domain
/// error with its code and whether retrying may help.
#[derive(Debug)]
pub enum ScanError {
    Internal { message: String },
    Domain { code: ErrorCode, message: String, retryable: bool },
}

/// The mathematical value of a [`ScanError`].
pub enum ErrorView {
    Internal(Seq<char>),
    Domain(ErrorCode, Seq<char>, bool),
}

impl View for ScanError {
    type V = ErrorView;

    open spec fn view(&self) -> ErrorView {
        match self {
            ScanError::Internal { message } => ErrorView::Internal(message@),
            ScanError::Domain { code, message, retryable } => ErrorView::Domain(
                *code,
                message@,
                *retryable,
            ),
        }
    }
}

impl ScanError {
    /// The text of the error.
    pub fn message(&self) -> (m: &str)
        ensures
            m@ == match self@ {
                ErrorView::Internal(m) => m,
                ErrorView::Domain(_, m, _) => m,
            },
    {
        match self {
            ScanError::Internal { message } => message.as_str(),
            ScanError::Domain { message, .. } => message.as_str(),
        }
    }
}

} // verus!
