//! Why a session stopped.
use crate::engine::scheduler::MAX_CHUNK_RETRIES;
use crate::engine::worker::WorkerError;
use crate::storage::StorageError;
use crate::text;
use vstd::prelude::*;

verus! {

/// Why a session stopped.
#[derive(Debug)]
pub enum CoordinatorError {
    Stalled { chunk_id: usize },
    InvalidProgress,
    Worker { chunk_id: usize, source: WorkerError },
    Storage(StorageError),
    StorageTask(String),
}

impl CoordinatorError {
    pub open spec fn shown(self) -> Seq<char> {
        match self {
            CoordinatorError::Stalled { chunk_id } => "Stream #"@ + text::decimal(chunk_id as nat)
                + " stalled after "@ + text::decimal(MAX_CHUNK_RETRIES as nat) + " retries"@,
            CoordinatorError::InvalidProgress => "Worker reported invalid download progress"@,
            CoordinatorError::Worker { chunk_id, source } => stream_error(
                chunk_id as int,
                source.shown(),
            ),
            CoordinatorError::Storage(error) => error.shown(),
            CoordinatorError::StorageTask(reason) => "Storage task failed: "@ + reason@,
        }
    }

    /// The message shown to the user.
    pub fn message(&self) -> (r: String)
        ensures
            r@ == self.shown(),
    {
        match self {
            CoordinatorError::Stalled { chunk_id } => {
                let id = text::decimal_string(*chunk_id as u64);
                let limit = text::decimal_string(MAX_CHUNK_RETRIES as u64);
                let head = text::join4(
                    "Stream #",
                    id.as_str(),
                    " stalled after ",
                    limit.as_str(),
                );
                text::join2(head.as_str(), " retries")
            },
            CoordinatorError::InvalidProgress =>
                "Worker reported invalid download progress".to_string(),
            CoordinatorError::Worker { chunk_id, source } => stream_error_text(
                *chunk_id,
                source,
            ),
            CoordinatorError::Storage(error) => error.message(),
            CoordinatorError::StorageTask(reason) => text::join2(
                "Storage task failed: ",
                reason.as_str(),
            ),
        }
    }

    /// Whether the remote file is no longer the one that was being downloaded.
    pub fn is_content_changed(&self) -> (r: bool)
        ensures
            r == (self matches CoordinatorError::Worker { source, .. } && source.changed()),
    {
        match self {
            CoordinatorError::Worker { source, .. } => source.is_content_changed(),
            _ => false,
        }
    }
}

/// The message for a worker that stopped with an error.
pub open spec fn stream_error(chunk_id: int, reason: Seq<char>) -> Seq<char> {
    "Stream #"@ + text::decimal(chunk_id as nat) + " error: "@ + reason
}

pub fn stream_error_text(chunk_id: usize, source: &WorkerError) -> (r: String)
    ensures
        r@ == stream_error(chunk_id as int, source.shown()),
{
    let id = text::decimal_string(chunk_id as u64);
    let reason = source.message();
    text::join4("Stream #", id.as_str(), " error: ", reason.as_str())
}

} // verus!
