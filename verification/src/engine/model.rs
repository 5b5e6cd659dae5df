//! What the engine is told and what it shows.
use crate::path::FilePath;
use crate::text;
use vstd::prelude::*;

verus! {

/// The state of the download in the list.
#[derive(Debug, Clone, PartialEq, Eq)]
pub enum DownloadStatus {
    Idle,
    Connecting,
    Downloading,
    Paused,
    Completed,
    Failed(String),
}

/// A download state as values.
pub enum StatusView {
    Idle,
    Connecting,
    Downloading,
    Paused,
    Completed,
    Failed(Seq<char>),
}

impl View for DownloadStatus {
    type V = StatusView;

    open spec fn view(&self) -> StatusView {
        match self {
            DownloadStatus::Idle => StatusView::Idle,
            DownloadStatus::Connecting => StatusView::Connecting,
            DownloadStatus::Downloading => StatusView::Downloading,
            DownloadStatus::Paused => StatusView::Paused,
            DownloadStatus::Completed => StatusView::Completed,
            DownloadStatus::Failed(reason) => StatusView::Failed(reason@),
        }
    }
}

impl Default for DownloadStatus {
    fn default() -> (r: DownloadStatus)
        ensures
            r == DownloadStatus::Idle,
    {
        DownloadStatus::Idle
    }
}

impl DownloadStatus {
    pub fn copy(&self) -> (r: DownloadStatus)
        ensures
            r == *self,
    {
        match self {
            DownloadStatus::Idle => DownloadStatus::Idle,
            DownloadStatus::Connecting => DownloadStatus::Connecting,
            DownloadStatus::Downloading => DownloadStatus::Downloading,
            DownloadStatus::Paused => DownloadStatus::Paused,
            DownloadStatus::Completed => DownloadStatus::Completed,
            DownloadStatus::Failed(reason) => DownloadStatus::Failed(reason.clone()),
        }
    }

    /// Whether both are the same state, failures with the same message.
    pub fn same(&self, other: &DownloadStatus) -> (r: bool)
        ensures
            r == (self@ == other@),
    {
        match (self, other) {
            (DownloadStatus::Idle, DownloadStatus::Idle) => true,
            (DownloadStatus::Connecting, DownloadStatus::Connecting) => true,
            (DownloadStatus::Downloading, DownloadStatus::Downloading) => true,
            (DownloadStatus::Paused, DownloadStatus::Paused) => true,
            (DownloadStatus::Completed, DownloadStatus::Completed) => true,
            (DownloadStatus::Failed(a), DownloadStatus::Failed(b)) => text::same_text(
                a.as_str(),
                b.as_str(),
            ),
            _ => false,
        }
    }

    pub fn is_downloading(&self) -> (r: bool)
        ensures
            r == (self is Downloading),
    {
        match self {
            DownloadStatus::Downloading => true,
            _ => false,
        }
    }

    pub fn is_idle(&self) -> (r: bool)
        ensures
            r == (self is Idle),
    {
        match self {
            DownloadStatus::Idle => true,
            _ => false,
        }
    }
}

/// Resolution for a download that collides with an existing file or link.
#[derive(Debug, Clone, Copy, PartialEq, Eq, Structural)]
pub enum DuplicateChoice {
    /// Keep the existing file and save the new copy under a numbered name.
    Numbered,
    /// Save the new copy over the existing file, discarding its contents.
    Overwrite,
    /// Keep or resume the existing file instead of adding a copy.
    UseExisting,
}

/// A duplicate decision that the user still has to make before a copy is created.
#[derive(Debug, Clone, PartialEq, Eq)]
pub struct DuplicatePrompt {
    pub session_id: u64,
    pub url: String,
    /// Name of the file that already exists, when the engine knows it yet.
    pub filename: String,
    /// Size of the existing file, when it is already on disk.
    pub existing_bytes: Option<u64>,
    /// Whether this link is already an entry in the download list.
    pub link_duplicate: bool,
}

impl DuplicatePrompt {
    pub fn copy(&self) -> (r: DuplicatePrompt)
        ensures
            r == *self,
    {
        DuplicatePrompt {
            session_id: self.session_id,
            url: self.url.clone(),
            filename: self.filename.clone(),
            existing_bytes: self.existing_bytes,
            link_duplicate: self.link_duplicate,
        }
    }
}

/// What the user interface shows of the download.
#[derive(Debug, Clone, PartialEq, Eq)]
pub struct DownloadSnapshot {
    pub session_id: u64,
    pub url: String,
    pub filename: String,
    pub save_path: FilePath,
    pub status: DownloadStatus,
    pub total_bytes: Option<u64>,
    pub downloaded_bytes: u64,
    pub speed_bytes_per_sec: u64,
    pub eta_seconds: Option<u64>,
    pub resumable: bool,
    /// Set while the engine waits for a duplicate decision from the user.
    pub duplicate: Option<DuplicatePrompt>,
}

impl Default for DownloadSnapshot {
    fn default() -> (r: DownloadSnapshot)
        ensures
            r.session_id == 0,
            r.url@.len() == 0,
            r.filename@.len() == 0,
            r.save_path@.len() == 0,
            r.status == DownloadStatus::Idle,
            r.total_bytes is None,
            r.downloaded_bytes == 0,
            r.speed_bytes_per_sec == 0,
            r.eta_seconds is None,
            !r.resumable,
            r.duplicate is None,
    {
        DownloadSnapshot {
            session_id: 0,
            url: String::new(),
            filename: String::new(),
            save_path: FilePath { text: String::new() },
            status: DownloadStatus::Idle,
            total_bytes: None,
            downloaded_bytes: 0,
            speed_bytes_per_sec: 0,
            eta_seconds: None,
            resumable: false,
            duplicate: None,
        }
    }
}

/// What the user asks of the engine.
#[derive(Debug)]
pub enum DownloadAction {
    Start { url: String, save_path: FilePath, num_chunks: usize },
    Pause,
    Resume,
    Cancel,
    /// Remembers the duplicate decision that is applied without asking again.
    SetDuplicatePreference { choice: Option<DuplicateChoice> },
    /// Answers a pending duplicate prompt; no choice skips the new duplicate.
    ResolveDuplicate { session_id: u64, choice: Option<DuplicateChoice> },
    Remove {
        expected_session_id: u64,
        expected_status: DownloadStatus,
        delete_file: bool,
        completed_only: bool,
    },
}

} // verus!
