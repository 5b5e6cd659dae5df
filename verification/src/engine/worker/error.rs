//! Why a worker stopped.
use crate::client::{ClientError, ClientFault, HttpFault};
use crate::storage::StorageError;
use crate::text;
use vstd::prelude::*;

verus! {

/// Why a worker stopped.
#[derive(Debug)]
pub enum WorkerError {
    Client(ClientError),
    ResponseBody(HttpFault),
    Storage(StorageError),
    StorageTask(String),
    InvalidRange(&'static str),
    RangeResponseOverrun { expected: u64 },
    ResponseOverrun { expected: u64 },
    UnexpectedEof { received: u64, expected: u64 },
}

impl WorkerError {
    pub open spec fn shown(self) -> Seq<char> {
        match self {
            WorkerError::Client(error) => error@.message(),
            WorkerError::ResponseBody(fault) => fault.message@,
            WorkerError::Storage(error) => error.shown(),
            WorkerError::StorageTask(reason) => "Blocking storage task failed: "@ + reason@,
            WorkerError::InvalidRange(reason) => reason@,
            WorkerError::RangeResponseOverrun { expected } => "Range response exceeded its expected "@
                + text::decimal(expected as nat) + " bytes"@,
            WorkerError::ResponseOverrun { expected } => "Response exceeded its expected "@
                + text::decimal(expected as nat) + " bytes"@,
            WorkerError::UnexpectedEof { received, expected } => "Unexpected EOF: received "@
                + text::decimal(received as nat) + " of "@ + text::decimal(expected as nat)
                + " bytes"@,
        }
    }

    /// The remote file is no longer the one that was being downloaded.
    pub open spec fn changed(self) -> bool {
        self matches WorkerError::Client(error) && error@ == ClientFault::ContentChanged
    }

    /// Trying again may succeed.
    pub open spec fn may_retry(self) -> bool {
        match self {
            WorkerError::Client(error) => match error@ {
                ClientFault::Http(fault) => fault.body_retryable(),
                other => other.retryable(),
            },
            WorkerError::ResponseBody(fault) => fault.body_retryable(),
            WorkerError::UnexpectedEof { .. } => true,
            _ => false,
        }
    }

    /// The message shown to the user.
    pub fn message(&self) -> (r: String)
        ensures
            r@ == self.shown(),
    {
        match self {
            WorkerError::Client(error) => error.message(),
            WorkerError::ResponseBody(fault) => fault.message.clone(),
            WorkerError::Storage(error) => error.message(),
            WorkerError::StorageTask(reason) => text::join2(
                "Blocking storage task failed: ",
                reason.as_str(),
            ),
            WorkerError::InvalidRange(reason) => (*reason).to_owned(),
            WorkerError::RangeResponseOverrun { expected } => {
                let wanted = text::decimal_string(*expected);
                text::join3("Range response exceeded its expected ", wanted.as_str(), " bytes")
            },
            WorkerError::ResponseOverrun { expected } => {
                let wanted = text::decimal_string(*expected);
                text::join3("Response exceeded its expected ", wanted.as_str(), " bytes")
            },
            WorkerError::UnexpectedEof { received, expected } => {
                let had = text::decimal_string(*received);
                let wanted = text::decimal_string(*expected);
                let head = text::join4(
                    "Unexpected EOF: received ",
                    had.as_str(),
                    " of ",
                    wanted.as_str(),
                );
                text::join2(head.as_str(), " bytes")
            },
        }
    }

    pub fn is_content_changed(&self) -> (r: bool)
        ensures
            r == self.changed(),
    {
        match self {
            WorkerError::Client(error) => error.is_content_changed(),
            _ => false,
        }
    }

    pub fn is_retryable(&self) -> (r: bool)
        ensures
            r == self.may_retry(),
    {
        match self {
            WorkerError::Client(ClientError::Http(fault)) => fault.is_retryable_body_error(),
            WorkerError::Client(error) => error.is_retryable(),
            WorkerError::ResponseBody(fault) => fault.is_retryable_body_error(),
            WorkerError::UnexpectedEof { .. } => true,
            _ => false,
        }
    }
}

/// Law: a changed file is never tried again as it is, whatever else the error says.
pub proof fn law_changed_content_is_not_retried(error: WorkerError)
    ensures
        error.changed() ==> !error.may_retry(),
{
}

/// Law: only broken exchanges and refusals that may pass are worth another try: never a failure of
/// the file system, a body that is too long, or a range that makes no sense.
pub proof fn law_only_passing_worker_errors_are_retried(error: WorkerError)
    ensures
        error is UnexpectedEof ==> error.may_retry(),
        error is Storage || error is StorageTask || error is InvalidRange
            || error is RangeResponseOverrun || error is ResponseOverrun ==> !error.may_retry(),
        error matches WorkerError::ResponseBody(fault) ==> error.may_retry()
            == fault.body_retryable(),
        error.changed() <==> (error matches WorkerError::Client(client) && client is ContentChanged),
        (error matches WorkerError::Client(client) && (client@ matches ClientFault::BadStatus(code, _)
            && 500 <= code < 600)) ==> error.may_retry(),
        (error matches WorkerError::Client(client) && (client@ matches ClientFault::BadStatus(code, _)
            && code == 404)) ==> !error.may_retry(),
{
}

} // verus!
