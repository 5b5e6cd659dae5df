//! What a worker decides while it fetches one chunk.
pub mod body;
pub mod error;
pub mod protocol;
pub mod request;
pub mod task;

pub use body::{BodyCopy, BodyCopyMode, BodyEnd, PiecePlan};
pub use error::WorkerError;
pub use protocol::WorkerMsg;
pub use request::{ChunkPlan, OVERLAP_BYTES};
pub use task::{TaskAction, TaskEvent, WorkerTask};
