//! What workers report to their session.
use crate::client::{ClientError, HttpFault};
use crate::engine::worker::error::WorkerError;
use vstd::prelude::*;

verus! {

/// A report of one worker.
#[derive(Debug)]
pub enum WorkerMsg {
    Progress { session_id: u64, chunk_id: usize, bytes_delta: u64 },
    Done { session_id: u64, chunk_id: usize },
    Yielded { session_id: u64, chunk_id: usize },
    Error { session_id: u64, chunk_id: usize, error: WorkerError, retryable: bool },
}

impl WorkerMsg {
    /// The report of a request that got no usable reply.
    pub fn request_failed(session_id: u64, chunk_id: usize, error: ClientError) -> (r: WorkerMsg)
        ensures
            r == (WorkerMsg::Error {
                session_id,
                chunk_id,
                error: WorkerError::Client(error),
                retryable: error@.retryable(),
            }),
    {
        let retryable = error.is_retryable();
        WorkerMsg::Error { session_id, chunk_id, error: WorkerError::Client(error), retryable }
    }

    /// The report of a body that broke off.
    pub fn body_failed(session_id: u64, chunk_id: usize, fault: HttpFault) -> (r: WorkerMsg)
        ensures
            r == (WorkerMsg::Error {
                session_id,
                chunk_id,
                error: WorkerError::ResponseBody(fault),
                retryable: fault.body_retryable(),
            }),
    {
        let retryable = fault.is_retryable_body_error();
        WorkerMsg::Error {
            session_id,
            chunk_id,
            error: WorkerError::ResponseBody(fault),
            retryable,
        }
    }

    /// The report of a failure that trying again does not mend.
    pub fn failed(session_id: u64, chunk_id: usize, error: WorkerError) -> (r: WorkerMsg)
        ensures
            r == (WorkerMsg::Error { session_id, chunk_id, error, retryable: false }),
    {
        WorkerMsg::Error { session_id, chunk_id, error, retryable: false }
    }
}

} // verus!
