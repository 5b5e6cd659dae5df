//! One download from request to completion, as a state machine: each event changes the session
//! and says what has to be done outside before the next event.
use crate::client::RemoteFileInfo;
use crate::engine::chunks::ChunkRange;
use crate::engine::model::{DownloadSnapshot, DownloadStatus, DuplicateChoice, DuplicatePrompt};
use crate::engine::progress;
use crate::engine::resume::{Samples, SavedDownload};
use crate::engine::scheduler;
use crate::engine::scheduler::ActiveChunk;
use crate::engine::target::TargetMode;
use crate::engine::worker::{WorkerError, WorkerMsg};
use crate::path::FilePath;
use vstd::prelude::*;

pub mod actions;
pub mod duplicate;
pub mod info;
pub mod reports;
pub mod tick;

verus! {

/// The file on disk that a duplicate prompt is about.
pub struct ExistingFile {
    pub filename: String,
    pub path: FilePath,
    pub bytes: u64,
}

/// What a duplicate prompt decides about.
pub enum DuplicateRequest {
    /// The added link matches the download that is already in the list.
    Link { url: String, save_path: FilePath, num_chunks: usize },
    /// The resolved target file already exists on disk.
    Target {
        save_path: FilePath,
        num_chunks: usize,
        info: RemoteFileInfo,
        existing: ExistingFile,
    },
}

/// A duplicate that waits for the user's decision.
pub struct PendingDuplicate {
    pub prompt: DuplicatePrompt,
    pub request: DuplicateRequest,
}

/// Why the server is asked about the file.
pub enum FetchInfoKind {
    Start { save_path: FilePath, num_chunks: usize, target: TargetMode },
    Resume,
    Restart,
    Complete,
}

/// What the server said about the file.
pub struct FetchInfoMsg {
    pub session_id: u64,
    pub kind: FetchInfoKind,
    pub result: Result<RemoteFileInfo, WorkerError>,
}

/// What goes on once all running tasks have ended.
pub enum Stopped {
    Start { url: String, save_path: FilePath, num_chunks: usize, target: TargetMode },
    Pause,
    Resume,
    Cancel,
    Remove { delete_file: bool },
    Restart,
    WorkerFailed { chunk_id: usize, error: WorkerError, retryable: bool },
}

/// A target file to create.
pub struct TargetRequest {
    pub save_path: FilePath,
    pub num_chunks: usize,
    pub info: RemoteFileInfo,
    pub mode: TargetMode,
    /// The user has decided what happens to a file that is there.
    pub decided: bool,
}

/// A file on disk to take over.
pub struct AdoptRequest {
    pub info: RemoteFileInfo,
    pub existing: ExistingFile,
    pub total: u64,
    /// The file has its full size already.
    pub complete: bool,
}

/// A file to delete.
pub struct RemovalRequest {
    pub path: FilePath,
    pub total_bytes: Option<u64>,
    pub downloaded_bytes: u64,
}

/// A worker to start.
pub enum WorkerLaunch {
    Chunk { range: ChunkRange, downloaded: u64, total_size: u64, validator: Option<String> },
    Stream { total_size: Option<u64> },
}

/// What has to be done outside before the session goes on.
pub enum Effect {
    Nothing,
    /// Tell running tasks to stop, without waiting.
    Cancel,
    /// Wait for running tasks, after telling them to stop if `cancel`; then report `next`.
    Stop { cancel: bool, next: Stopped },
    /// Ask the server about the file, after checking what is saved; then report its answer.
    Fetch { kind: FetchInfoKind, saved: Option<SavedDownload> },
    /// Create the target file and report what became of it.
    CreateTarget(TargetRequest),
    /// Start workers.
    Launch(Vec<WorkerLaunch>),
    /// Flush the target file and report the result.
    Sync,
    /// Set the length of the target file and report the result.
    Resize { length: u64, info: RemoteFileInfo },
    /// Empty the target file and report the result.
    Reset,
    /// Open a file that is on disk as it is, and report the result.
    OpenExisting(AdoptRequest),
    /// Compare saved samples with the remote file and report the result.
    CompareSamples { request: AdoptRequest, samples: Samples },
    /// Give the opened file room for its full size and report the result.
    GrowExisting(AdoptRequest),
    /// Delete the target file and report the result.
    RemoveFile(RemovalRequest),
}

/// A download session.
pub struct Session {
    pub session_id: u64,
    pub current_url: String,
    pub current_filename: String,
    pub current_path: FilePath,
    pub current_num_chunks: usize,
    pub status: DownloadStatus,
    pub file_info: Option<RemoteFileInfo>,
    /// The target file is open.
    pub has_storage: bool,
    /// The target file was created or taken over by this download.
    pub owns_target: bool,
    pub active_chunks: Vec<ActiveChunk>,
    pub restart_required: bool,
    pub content_restarts: u8,
    pub duplicate: Option<PendingDuplicate>,
    pub duplicate_preference: Option<DuplicateChoice>,
    /// When the display was last refreshed, in nanoseconds of the session's clock.
    pub last_tick: u64,
    pub bytes_since_last_tick: u64,
    pub current_speed: u64,
    /// What is shown of the download.
    pub snapshot: DownloadSnapshot,
}

/// How often a file that keeps changing is downloaded anew.
pub const MAX_CONTENT_RESTARTS: u8 = 2;

/// Chunks agree with the description of the file: they divide a file that is fetched in ranges,
/// and one stream fetches any other.
pub open spec fn chunks_fit(list: Seq<ActiveChunk>, info: RemoteFileInfo) -> bool {
    if info@.uses_ranges() {
        scheduler::list_wf(list, info.content_length->0 as int)
    } else {
        &&& list.len() <= 1
        &&& scheduler::sized(list)
        &&& scheduler::all_retries_ok(list)
        &&& forall|i: int|
            0 <= i < list.len() && info.content_length is Some ==> (
            #[trigger] list[i]).downloaded <= info.content_length->0
    }
}

/// What chunks that agree with their description guarantee.
pub proof fn lemma_chunks_fit(list: Seq<ActiveChunk>, info: RemoteFileInfo)
    requires
        chunks_fit(list, info),
    ensures
        0 <= scheduler::downloaded_sum(list) <= u64::MAX,
        scheduler::sized(list),
        scheduler::all_retries_ok(list),
{
    if info@.uses_ranges() {
        let total = info.content_length->0 as int;
        scheduler::law_progress_never_exceeds_the_file(list, total);
        scheduler::lemma_partition_sized(list, total);
    } else if list.len() == 1 {
        assert(list.drop_last() =~= Seq::<ActiveChunk>::empty());
        assert(scheduler::downloaded_sum(list.drop_last()) == 0);
    }
}

impl Session {
    /// The chunks of a session agree with the description of its file.
    pub open spec fn wf(self) -> bool {
        &&& self.content_restarts <= MAX_CONTENT_RESTARTS
        &&& match self.file_info {
            Some(info) => chunks_fit(self.active_chunks@, info),
            None => self.active_chunks@.len() == 0,
        }
    }

    /// What a well-formed session guarantees of its chunks.
    pub proof fn lemma_wf(self)
        requires
            self.wf(),
        ensures
            0 <= self.downloaded() <= u64::MAX,
            scheduler::sized(self.active_chunks@),
            scheduler::all_retries_ok(self.active_chunks@),
    {
        if self.file_info is Some {
            lemma_chunks_fit(self.active_chunks@, self.file_info->0);
        }
    }

    /// The known size of the file.
    pub open spec fn total(self) -> Option<u64> {
        match self.file_info {
            Some(info) => info.content_length,
            None => None,
        }
    }

    /// Whether the file is fetched in ranges.
    pub open spec fn in_ranges(self) -> bool {
        self.file_info matches Some(info) && info@.uses_ranges()
    }

    /// The bytes that are saved.
    pub open spec fn downloaded(self) -> int {
        scheduler::downloaded_sum(self.active_chunks@)
    }

    pub open spec fn prompt(self) -> Option<DuplicatePrompt> {
        match self.duplicate {
            Some(pending) => Some(pending.prompt),
            None => None,
        }
    }

    /// What is shown of the session.
    pub open spec fn snapshot_of(
        self,
        total_bytes: Option<u64>,
        downloaded_bytes: int,
        speed_bytes_per_sec: u64,
        eta_seconds: Option<u64>,
        resumable: bool,
    ) -> DownloadSnapshot {
        DownloadSnapshot {
            session_id: self.session_id,
            url: self.current_url,
            filename: self.current_filename,
            save_path: self.current_path,
            status: self.status,
            total_bytes,
            downloaded_bytes: downloaded_bytes as u64,
            speed_bytes_per_sec,
            eta_seconds,
            resumable,
            duplicate: self.prompt(),
        }
    }

    /// The session after it showed itself, idle and without an estimate.
    pub open spec fn published(
        self,
        total_bytes: Option<u64>,
        downloaded_bytes: int,
        resumable: bool,
    ) -> Session {
        Session {
            snapshot: self.snapshot_of(total_bytes, downloaded_bytes, 0, None, resumable),
            ..self
        }
    }

    /// The session with the next id.
    pub open spec fn renewed(self) -> Session {
        Session { session_id: (self.session_id + 1) as u64, ..self }
    }

    /// Whether the session failed with a message.
    pub open spec fn failed_with(self, message: Seq<char>) -> bool {
        self.status matches DownloadStatus::Failed(reason) && reason@ == message
    }

    /// A session with nothing to download.
    pub fn new(now: u64) -> (r: Session)
        ensures
            r.wf(),
            r.session_id == 0,
            r.status == DownloadStatus::Idle,
            r.current_url@.len() == 0,
            r.current_filename@.len() == 0,
            r.current_path@.len() == 0,
            r.current_num_chunks == 1,
            r.file_info is None,
            !r.has_storage,
            !r.owns_target,
            r.active_chunks@.len() == 0,
            !r.restart_required,
            r.content_restarts == 0,
            r.duplicate is None,
            r.duplicate_preference is None,
            r.last_tick == now,
            r.bytes_since_last_tick == 0,
            r.current_speed == 0,
            r.snapshot.status == DownloadStatus::Idle,
    {
        Session {
            session_id: 0,
            current_url: String::new(),
            current_filename: String::new(),
            current_path: FilePath { text: String::new() },
            current_num_chunks: 1,
            status: DownloadStatus::Idle,
            file_info: None,
            has_storage: false,
            owns_target: false,
            active_chunks: Vec::new(),
            restart_required: false,
            content_restarts: 0,
            duplicate: None,
            duplicate_preference: None,
            last_tick: now,
            bytes_since_last_tick: 0,
            current_speed: 0,
            snapshot: DownloadSnapshot::default(),
        }
    }

    /// Shows the session.
    pub fn publish(
        &mut self,
        total_bytes: Option<u64>,
        downloaded_bytes: u64,
        speed_bytes_per_sec: u64,
        eta_seconds: Option<u64>,
        resumable: bool,
    )
        ensures
            *final(self) == (Session {
                snapshot: old(self).snapshot_of(
                    total_bytes,
                    downloaded_bytes as int,
                    speed_bytes_per_sec,
                    eta_seconds,
                    resumable,
                ),
                ..*old(self)
            }),
    {
        let duplicate = match &self.duplicate {
            Some(pending) => Some(pending.prompt.copy()),
            None => None,
        };
        self.snapshot =
        DownloadSnapshot {
            session_id: self.session_id,
            url: self.current_url.clone(),
            filename: self.current_filename.clone(),
            save_path: self.current_path.copy(),
            status: self.status.copy(),
            total_bytes,
            downloaded_bytes,
            speed_bytes_per_sec,
            eta_seconds,
            resumable,
            duplicate,
        };
    }

    pub fn total_size(&self) -> (r: Option<u64>)
        ensures
            r == self.total(),
    {
        match &self.file_info {
            Some(info) => info.content_length,
            None => None,
        }
    }

    pub fn is_range_download(&self) -> (r: bool)
        ensures
            r == self.in_ranges(),
    {
        match &self.file_info {
            Some(info) => info.uses_range_workers(),
            None => false,
        }
    }

    pub fn downloaded_bytes(&self) -> (r: u64)
        requires
            self.wf(),
        ensures
            r == self.downloaded(),
    {
        proof {
            self.lemma_wf();
        }
        scheduler::calculate_downloaded(&self.active_chunks)
    }
}

/// Whether a launch hands a chunk to a worker.
pub open spec fn launches_chunk(
    launch: WorkerLaunch,
    chunk: ActiveChunk,
    total_size: u64,
    validator: Option<Seq<char>>,
) -> bool {
    launch matches WorkerLaunch::Chunk { range, downloaded, total_size: total, validator: held }
        && range == chunk.range && downloaded == chunk.downloaded && total == total_size
        && crate::text::string_text(held) == validator
}

/// Whether launches hand the chunks at some positions to workers, in order.
pub open spec fn launches_chunks(
    launches: Seq<WorkerLaunch>,
    ids: Seq<usize>,
    list: Seq<ActiveChunk>,
    total_size: u64,
    validator: Option<Seq<char>>,
) -> bool {
    &&& launches.len() == ids.len()
    &&& forall|i: int|
        0 <= i < ids.len() ==> launches_chunk(
            #[trigger] launches[i],
            list[ids[i] as int],
            total_size,
            validator,
        )
}

/// The launches for the chunks at some positions.
pub fn launches_for(
    ids: &Vec<usize>,
    list: &Vec<ActiveChunk>,
    info: &RemoteFileInfo,
    total_size: u64,
) -> (r: Vec<WorkerLaunch>)
    requires
        forall|i: int| 0 <= i < ids@.len() ==> (#[trigger] ids@[i]) < list@.len(),
    ensures
        launches_chunks(r@, ids@, list@, total_size, info@.resume_validator()),
{
    let mut r: Vec<WorkerLaunch> = Vec::new();
    let mut i: usize = 0;
    while i < ids.len()
        invariant
            i <= ids@.len(),
            r@.len() == i,
            forall|j: int| 0 <= j < ids@.len() ==> (#[trigger] ids@[j]) < list@.len(),
            forall|j: int|
                0 <= j < i ==> launches_chunk(
                    #[trigger] r@[j],
                    list@[ids@[j] as int],
                    total_size,
                    info@.resume_validator(),
                ),
        decreases ids@.len() - i,
    {
        let chunk = list[ids[i]];
        let validator = match info.resume_validator() {
            Some(tag) => Some(tag.to_owned()),
            None => None,
        };
        r.push(
            WorkerLaunch::Chunk {
                range: chunk.range,
                downloaded: chunk.downloaded,
                total_size,
                validator,
            },
        );
        i += 1;
    }
    r
}

/// The positions of a list.
pub open spec fn all_ids(n: int) -> Seq<usize> {
    Seq::new(n as nat, |i: int| i as usize)
}

pub fn every_id(n: usize) -> (r: Vec<usize>)
    ensures
        r@ == all_ids(n as int),
{
    let mut r: Vec<usize> = Vec::new();
    let mut i: usize = 0;
    while i < n
        invariant
            i <= n,
            r@.len() == i,
            forall|j: int| 0 <= j < i ==> r@[j] == j,
        decreases n - i,
    {
        r.push(i);
        i += 1;
    }
    assert(r@ =~= all_ids(n as int));
    r
}

/// Reading queued reports keeps chunks in agreement with the description of their file.
pub proof fn lemma_drain_fits(
    list: Seq<ActiveChunk>,
    info: RemoteFileInfo,
    msgs: Seq<WorkerMsg>,
    rules: progress::DrainRules,
)
    requires
        chunks_fit(list, info),
        rules.range_download == info@.uses_ranges(),
        rules.total_size == info.content_length,
    ensures
        chunks_fit(progress::drain(list, msgs, rules).chunks, info),
    decreases msgs.len(),
{
    if msgs.len() > 0 {
        lemma_drain_fits(list, info, msgs.drop_last(), rules);
        let before = progress::drain(list, msgs.drop_last(), rules).chunks;
        match msgs.last() {
            WorkerMsg::Progress { session_id, chunk_id, bytes_delta } => {
                lemma_progress_fits(before, info, chunk_id, bytes_delta, rules.now);
            },
            _ => {},
        }
    }
}

/// Recorded progress keeps chunks in agreement with the description of their file.
pub proof fn lemma_progress_fits(
    list: Seq<ActiveChunk>,
    info: RemoteFileInfo,
    id: usize,
    delta: u64,
    now: u64,
)
    requires
        chunks_fit(list, info),
    ensures
        progress::progress_valid(list, id, delta, info@.uses_ranges(), info.content_length)
            ==> chunks_fit(progress::progressed(list, id, delta, now), info),
        progress::done_valid(list, id, info@.uses_ranges(), info.content_length) ==> chunks_fit(
            progress::completed(list, id),
            info,
        ),
{
    if info@.uses_ranges() {
        progress::law_reports_keep_the_partition(
            list,
            id,
            delta,
            info.content_length->0,
            now,
        );
    } else {
        let k = progress::position_of(list, id);
        if 0 <= k < list.len() {
            assert(list[k].range.spec_size() <= u64::MAX);
            assert(list[k].retries_ok());
            if info.content_length is Some {
                assert(list[k].downloaded <= info.content_length->0);
            }
        }
    }
}

} // verus!
