//! The download engine: planning, progress, resuming and the session state machine.
pub mod chunks;
pub mod error;
pub mod fetch;
pub mod model;
pub mod progress;
pub mod resume;
pub mod scheduler;
pub mod session;
pub mod target;
pub mod worker;

pub use chunks::{calculate_chunks, ChunkRange};
pub use model::{DownloadAction, DownloadSnapshot, DownloadStatus};
