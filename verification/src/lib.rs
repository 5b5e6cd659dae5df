//! Download manager logic: naming, routing, planning, resuming and recording downloads.
pub mod client;
pub mod engine;
pub mod history;
pub mod path;
pub mod storage;
pub mod text;
pub mod ui;
