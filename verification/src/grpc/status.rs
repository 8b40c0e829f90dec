//! The status of a gRPC call.

use vstd::prelude::*;

use crate::http::publisher::{quote, quoted_text};
use crate::message::{FailureView, Metadata, Pairs, PublisherError};
use crate::numbers::{decimal, decimal_text};
use crate::text::{join2, join3, join5};

verus! {

/// The status codes of gRPC.
#[derive(Debug, Clone, Copy, PartialEq, Eq, Structural)]
pub enum GrpcCode {
    Success,
    Cancelled,
    Unknown,
    InvalidArgument,
    DeadlineExceeded,
    NotFound,
    AlreadyExists,
    PermissionDenied,
    ResourceExhausted,
    FailedPrecondition,
    Aborted,
    OutOfRange,
    Unimplemented,
    Internal,
    Unavailable,
    DataLoss,
    Unauthenticated,
}

/// The name of a status code.
pub open spec fn code_name(code: GrpcCode) -> Seq<char> {
    match code {
        GrpcCode::Success => "Ok"@,
        GrpcCode::Cancelled => "Cancelled"@,
        GrpcCode::Unknown => "Unknown"@,
        GrpcCode::InvalidArgument => "InvalidArgument"@,
        GrpcCode::DeadlineExceeded => "DeadlineExceeded"@,
        GrpcCode::NotFound => "NotFound"@,
        GrpcCode::AlreadyExists => "AlreadyExists"@,
        GrpcCode::PermissionDenied => "PermissionDenied"@,
        GrpcCode::ResourceExhausted => "ResourceExhausted"@,
        GrpcCode::FailedPrecondition => "FailedPrecondition"@,
        GrpcCode::Aborted => "Aborted"@,
        GrpcCode::OutOfRange => "OutOfRange"@,
        GrpcCode::Unimplemented => "Unimplemented"@,
        GrpcCode::Internal => "Internal"@,
        GrpcCode::Unavailable => "Unavailable"@,
        GrpcCode::DataLoss => "DataLoss"@,
        GrpcCode::Unauthenticated => "Unauthenticated"@,
    }
}

impl GrpcCode {
    /// The name of a status code.
    pub fn name(self) -> (name: &'static str)
        ensures
            name@ == code_name(self),
    {
        match self {
            GrpcCode::Success => "Ok",
            GrpcCode::Cancelled => "Cancelled",
            GrpcCode::Unknown => "Unknown",
            GrpcCode::InvalidArgument => "InvalidArgument",
            GrpcCode::DeadlineExceeded => "DeadlineExceeded",
            GrpcCode::NotFound => "NotFound",
            GrpcCode::AlreadyExists => "AlreadyExists",
            GrpcCode::PermissionDenied => "PermissionDenied",
            GrpcCode::ResourceExhausted => "ResourceExhausted",
            GrpcCode::FailedPrecondition => "FailedPrecondition",
            GrpcCode::Aborted => "Aborted",
            GrpcCode::OutOfRange => "OutOfRange",
            GrpcCode::Unimplemented => "Unimplemented",
            GrpcCode::Internal => "Internal",
            GrpcCode::Unavailable => "Unavailable",
            GrpcCode::DataLoss => "DataLoss",
            GrpcCode::Unauthenticated => "Unauthenticated",
        }
    }
}

/// Whether a code says that the same request will never succeed.
pub open spec fn is_permanent(code: GrpcCode) -> bool {
    ||| code == GrpcCode::InvalidArgument
    ||| code == GrpcCode::NotFound
    ||| code == GrpcCode::AlreadyExists
    ||| code == GrpcCode::PermissionDenied
    ||| code == GrpcCode::Unauthenticated
    ||| code == GrpcCode::FailedPrecondition
    ||| code == GrpcCode::OutOfRange
    ||| code == GrpcCode::Unimplemented
}

/// The failure of a call that a descriptor drives. Its texts leave out the values of
/// the trailing metadata, so that credentials which a peer returns are not logged.
pub struct GrpcStatusError {
    pub code: GrpcCode,
    pub message: String,
    pub trailing_metadata: Metadata,
}

/// A call failure over mathematical values.
pub struct StatusView {
    pub code: GrpcCode,
    pub message: Seq<char>,
    pub trailing: Pairs,
}

impl View for GrpcStatusError {
    type V = StatusView;

    open spec fn view(&self) -> StatusView {
        StatusView {
            code: self.code,
            message: self.message@,
            trailing: self.trailing_metadata@,
        }
    }
}

/// The text of a call failure.
pub open spec fn status_error_text(s: StatusView) -> Seq<char> {
    "gRPC status "@ + code_name(s.code) + ": "@ + s.message
}

/// The text of a call failure for debugging.
pub open spec fn status_debug_text(s: StatusView) -> Seq<char> {
    "GrpcStatusError { code: "@ + code_name(s.code) + ", message: "@ + quoted_text(s.message)
        + ", trailing_metadata_entries: "@ + (decimal(s.trailing.len()) + " }"@)
}

impl GrpcStatusError {
    /// The status code.
    pub fn code(&self) -> (code: GrpcCode)
        ensures
            code == self.code,
    {
        self.code
    }

    /// The status message.
    pub fn message(&self) -> (text: &str)
        ensures
            text@ == self.message@,
    {
        self.message.as_str()
    }

    /// The metadata behind the last message.
    pub fn trailing_metadata(&self) -> (m: &Metadata)
        ensures
            *m == self.trailing_metadata,
    {
        &self.trailing_metadata
    }

    /// The text of the failure.
    pub fn text(&self) -> (out: String)
        ensures
            out@ == status_error_text(self@),
    {
        let head = join3("gRPC status ", self.code.name(), ": ");
        join2(head.as_str(), self.message.as_str())
    }

    /// The text of the failure for debugging.
    pub fn debug_text(&self) -> (out: String)
        ensures
            out@ == status_debug_text(self@),
    {
        let count = decimal_text(self.trailing_metadata.entries.len() as u128);
        let quoted = quote(self.message.as_str());
        let tail = join2(count.as_str(), " }");
        let head = join5(
            "GrpcStatusError { code: ",
            self.code.name(),
            ", message: ",
            quoted.as_str(),
            ", trailing_metadata_entries: ",
        );
        join2(head.as_str(), tail.as_str())
    }
}

/// The texts of a failure do not depend on what the trailing metadata holds.
pub proof fn law_texts_hide_trailing_metadata(a: StatusView, b: StatusView)
    requires
        a.code == b.code,
        a.message == b.message,
        a.trailing.len() == b.trailing.len(),
    ensures
        status_error_text(a) == status_error_text(b),
        status_debug_text(a) == status_debug_text(b),
{
}

/// The publish failure for a refused call. A request that will never succeed is not
/// tried again.
pub open spec fn failure_of_status(s: StatusView) -> FailureView {
    if is_permanent(s.code) {
        FailureView::NonRetryable(status_error_text(s))
    } else {
        FailureView::Retryable(status_error_text(s))
    }
}

/// The publish failure for a refused call.
pub fn status_to_publisher_error(status: &GrpcStatusError) -> (e: PublisherError)
    ensures
        e@ == failure_of_status(status@),
{
    let permanent = match status.code {
        GrpcCode::InvalidArgument => true,
        GrpcCode::NotFound => true,
        GrpcCode::AlreadyExists => true,
        GrpcCode::PermissionDenied => true,
        GrpcCode::Unauthenticated => true,
        GrpcCode::FailedPrecondition => true,
        GrpcCode::OutOfRange => true,
        GrpcCode::Unimplemented => true,
        _ => false,
    };
    let text = status.text();
    if permanent {
        PublisherError::NonRetryable(text)
    } else {
        PublisherError::Retryable(text)
    }
}

} // verus!
