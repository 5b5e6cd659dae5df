//! What the server says about the file, and what becomes of its target.
use crate::client::RemoteFileInfo;
use crate::engine::chunks;
use crate::engine::chunks::ChunkRange;
use crate::engine::error::CoordinatorError;
use crate::engine::model::{DownloadStatus, DuplicateChoice};
use crate::engine::resume;
use crate::engine::scheduler;
use crate::engine::scheduler::ActiveChunk;
use crate::engine::session;
use crate::engine::session::duplicate;
use crate::engine::session::{
    every_id, launches_for, Effect, ExistingFile, FetchInfoKind, FetchInfoMsg, Session,
    TargetRequest, WorkerLaunch,
};
use crate::engine::target::TargetOutcome;
use crate::engine::worker::WorkerError;
use crate::path::FilePath;
use crate::storage::{IoFault, IoKind, StorageError};
use crate::text;
use vstd::prelude::*;

verus! {

/// The one chunk of a file that a single stream fetches.
pub open spec fn stream_chunk(content_length: Option<u64>, now: u64) -> ActiveChunk {
    ActiveChunk::fresh(
        ChunkRange {
            id: 0,
            start: 0,
            end: match content_length {
                Some(size) => if size > 0 {
                    (size - 1) as u64
                } else {
                    0
                },
                None => 0,
            },
        },
        now,
    )
}

/// The chunks and workers that a download starts with.
pub open spec fn workers_start(
    list: Seq<ActiveChunk>,
    launches: Seq<WorkerLaunch>,
    info: RemoteFileInfo,
    num_chunks: usize,
    now: u64,
) -> bool {
    if info@.uses_ranges() {
        let total = info.content_length->0;
        &&& list.len() == chunks::chunk_count(total as int, num_chunks as int)
        &&& scheduler::fresh_list(list, total as int, now)
        &&& session::launches_chunks(
            launches,
            session::all_ids(list.len() as int),
            list,
            total,
            info@.resume_validator(),
        )
    } else {
        &&& list == seq![stream_chunk(info.content_length, now)]
        &&& launches == seq![WorkerLaunch::Stream { total_size: info.content_length }]
    }
}

fn start_workers(info: &RemoteFileInfo, num_chunks: usize, now: u64) -> (r: (
    Vec<ActiveChunk>,
    Vec<WorkerLaunch>,
))
    ensures
        workers_start(r.0@, r.1@, *info, num_chunks, now),
        session::chunks_fit(r.0@, *info),
        scheduler::downloaded_sum(r.0@) == 0,
{
    if info.uses_range_workers() {
        match info.content_length {
            Some(total) => {
                let list = scheduler::start_chunks(total, num_chunks, now);
                let ids = every_id(list.len());
                let launches = launches_for(&ids, &list, info, total);
                return (list, launches);
            },
            None => {},
        }
    }
    let end: u64 = match info.content_length {
        Some(size) => if size > 0 {
            size - 1
        } else {
            0
        },
        None => 0,
    };
    let mut list: Vec<ActiveChunk> = Vec::new();
    list.push(ActiveChunk::new(ChunkRange { id: 0, start: 0, end }, now));
    let mut launches: Vec<WorkerLaunch> = Vec::new();
    launches.push(WorkerLaunch::Stream { total_size: info.content_length });
    proof {
        assert(list@.drop_last() =~= Seq::<ActiveChunk>::empty());
        assert(scheduler::downloaded_sum(list@.drop_last()) == 0);
        assert(list@ =~= seq![stream_chunk(info.content_length, now)]);
    }
    (list, launches)
}

/// The session after its target file was created and its workers started.
pub open spec fn launched(
    old: Session,
    new: Session,
    effect: Effect,
    info: RemoteFileInfo,
    filename: String,
    path: FilePath,
    num_chunks: usize,
    now: u64,
) -> bool {
    &&& effect matches Effect::Launch(launches) && workers_start(
        new.active_chunks@,
        launches@,
        info,
        num_chunks,
        now,
    )
    &&& new == Session {
        current_filename: filename,
        current_path: path,
        owns_target: true,
        active_chunks: new.active_chunks,
        has_storage: true,
        file_info: Some(info),
        status: DownloadStatus::Downloading,
        ..old
    }.published(info.content_length, 0, info@.uses_ranges())
}

/// The message for a target file that could not be prepared.
pub open spec fn target_error(path: Seq<char>, source: StorageError) -> Seq<char> {
    if source.is_collision() {
        "Refusing to overwrite existing file "@ + path
            + ". Choose a different path or remove it first: "@ + source.shown()
    } else {
        source.shown()
    }
}

/// The session after its target file could not be prepared.
pub open spec fn target_failed(
    old: Session,
    new: Session,
    filename: String,
    path: FilePath,
    source: StorageError,
) -> bool {
    new.failed_with(target_error(path@, source)) && new == Session {
        current_filename: filename,
        current_path: path,
        owns_target: source is CreatedFileInitialization,
        status: new.status,
        ..old
    }.published(None, 0, false)
}

/// What becomes of the session with its target file.
pub open spec fn target_handled(
    old: Session,
    request: TargetRequest,
    outcome: TargetOutcome,
    now: u64,
    new: Session,
    effect: Effect,
) -> bool {
    match outcome {
        TargetOutcome::Created { filename, path } => launched(
            old,
            new,
            effect,
            request.info,
            filename,
            path,
            request.num_chunks,
            now,
        ),
        TargetOutcome::Existing { filename, path, bytes } => if request.decided {
            effect is Nothing && exists|source: StorageError|
                #![trigger target_failed(old, new, filename, path, source)]
                source.is_collision() && source.shown() == "I/O error: target file already exists"@
                    && target_failed(old, new, filename, path, source)
        } else {
            duplicate::target_asked(
                Session { current_filename: filename, current_path: path, ..old },
                new,
                effect,
                request.save_path,
                request.num_chunks,
                request.info,
                ExistingFile { filename, path, bytes },
            )
        },
        TargetOutcome::Failed { filename, path, source } => target_failed(
            old,
            new,
            filename,
            path,
            source,
        ) && effect is Nothing,
        TargetOutcome::TaskFailed(reason) => new.failed_with(
            if request.decided {
                "Could not create download file: "@ + reason@
            } else {
                "Could not create download file "@ + old.current_path@ + ": "@ + (
                CoordinatorError::StorageTask(reason)).shown()
            },
        ) && new == (Session { status: new.status, ..old }).published(None, 0, false)
            && effect is Nothing,
    }
}

/// Whether a description allows the saved chunks to be continued.
pub open spec fn allows_resume(session: Session, info: RemoteFileInfo) -> bool {
    &&& info@.uses_ranges()
    &&& session.file_info matches Some(previous) && previous@.metadata_matches(info@)
    &&& resume::resumable_list(session.active_chunks@, info.content_length->0 as int)
}

/// The session after it failed without losing what is saved.
pub open spec fn kept_failed(old: Session, new: Session, message: Seq<char>, resumable: bool) -> bool {
    new.failed_with(message) && new == (Session { status: new.status, ..old }).published(
        old.total(),
        old.downloaded(),
        resumable,
    )
}

/// The session after a description for a resume or a restart.
pub open spec fn continued(
    old: Session,
    new: Session,
    effect: Effect,
    is_restart: bool,
    info: RemoteFileInfo,
    now: u64,
) -> bool {
    if !old.has_storage {
        kept_failed(old, new, "Missing storage for paused download"@, false)
            && effect is Nothing
    } else if is_restart || !old.in_ranges() {
        new == old && effect == (Effect::Resize {
            length: match info.content_length {
                Some(total) => total,
                None => 0,
            },
            info,
        })
    } else if allows_resume(old, info) {
        let total = info.content_length->0;
        &&& new.active_chunks@ == resume::revived(old.active_chunks@, now)
        &&& new == (Session {
            status: DownloadStatus::Downloading,
            active_chunks: new.active_chunks,
            file_info: Some(info),
            ..old
        }).published(Some(total), old.downloaded(), true)
        &&& effect matches Effect::Launch(launches) && session::launches_chunks(
            launches@,
            session::all_ids(new.active_chunks@.len() as int),
            new.active_chunks@,
            total,
            info@.resume_validator(),
        )
    } else {
        kept_failed(
            old,
            new,
            "Cannot safely resume: the remote file changed or could not be validated"@,
            false,
        ) && effect is Nothing
    }
}

/// The session after its target file was given a new length, or could not be.
pub open spec fn resized(
    old: Session,
    new: Session,
    effect: Effect,
    info: RemoteFileInfo,
    resize: Result<(), CoordinatorError>,
    now: u64,
) -> bool {
    match resize {
        Ok(()) => {
            &&& effect matches Effect::Launch(launches) && workers_start(
                new.active_chunks@,
                launches@,
                info,
                old.current_num_chunks,
                now,
            )
            &&& new == (Session {
                active_chunks: new.active_chunks,
                file_info: Some(info),
                status: DownloadStatus::Downloading,
                ..old
            }).published(info.content_length, 0, info@.uses_ranges())
        },
        Err(error) => kept_failed(old, new, error.shown(), false) && effect is Nothing,
    }
}

/// The session after its complete file was flushed, or could not be.
pub open spec fn flushed(old: Session, new: Session, flush: Result<(), CoordinatorError>) -> bool {
    let total = match old.total() {
        Some(total) => total,
        None => old.downloaded() as u64,
    };
    &&& match flush {
        Ok(()) => new.status == DownloadStatus::Completed,
        Err(error) => new.failed_with("Failed to flush completed download: "@ + error.shown()),
    }
    &&& new == (Session { status: new.status, current_speed: 0, ..old }).published(
        Some(total),
        old.downloaded(),
        flush is Ok,
    )
}

/// Whether an answer of the server is one that the session waits for.
pub open spec fn awaits(session: Session, msg: FetchInfoMsg) -> bool {
    msg.session_id == session.session_id && if msg.kind is Complete {
        session.status is Downloading
    } else {
        session.status is Connecting
    }
}

/// What an answer of the server does to the session.
pub open spec fn info_handled(
    old: Session,
    msg: FetchInfoMsg,
    now: u64,
    new: Session,
    effect: Effect,
) -> bool {
    if !awaits(old, msg) {
        new == old && effect is Nothing
    } else {
        match (msg.kind, msg.result) {
            (FetchInfoKind::Complete, Ok(_)) => if old.has_storage {
                new == old && effect is Sync
            } else {
                flushed(old, new, Ok(())) && effect is Nothing
            },
            (FetchInfoKind::Start { save_path, num_chunks, target }, Ok(info)) => new == old
                && effect == Effect::CreateTarget(
                TargetRequest { save_path, num_chunks, info, mode: target, decided: false },
            ),
            (FetchInfoKind::Resume, Ok(info)) => continued(old, new, effect, false, info, now),
            (FetchInfoKind::Restart, Ok(info)) => continued(old, new, effect, true, info, now),
            (FetchInfoKind::Start { .. }, Err(error)) => new.failed_with(error.shown()) && new
                == (Session { status: new.status, ..old }).published(None, 0, error.may_retry())
                && effect is Nothing,
            (_, Err(error)) => if error.changed() {
                new == (Session { restart_required: true, ..old }) && effect is Nothing
            } else {
                kept_failed(old, new, error.shown(), error.may_retry()) && effect is Nothing
            },
        }
    }
}

impl Session {
    fn fail_kept(&mut self, message: String, resumable: bool)
        requires
            old(self).wf(),
        ensures
            final(self).wf(),
            kept_failed(*old(self), *final(self), message@, resumable),
    {
        let total = self.total_size();
        let downloaded: u64 = self.downloaded_bytes();
        self.status = DownloadStatus::Failed(message);
        self.publish(total, downloaded, 0, None, resumable);
    }

    /// Takes an answer of the server.
    pub fn handle_info(&mut self, msg: FetchInfoMsg, now: u64) -> (effect: Effect)
        requires
            old(self).wf(),
        ensures
            final(self).wf(),
            info_handled(*old(self), msg, now, *final(self), effect),
    {
        let expected = match (&msg.kind, &self.status) {
            (FetchInfoKind::Complete, DownloadStatus::Downloading) => true,
            (FetchInfoKind::Complete, _) => false,
            (_, DownloadStatus::Connecting) => true,
            _ => false,
        };
        if msg.session_id != self.session_id || !expected {
            return Effect::Nothing;
        }
        match (msg.kind, msg.result) {
            (FetchInfoKind::Complete, Ok(_)) => {
                if self.has_storage {
                    return Effect::Sync;
                }
                self.file_flushed(Ok(()));
                Effect::Nothing
            },
            (FetchInfoKind::Start { save_path, num_chunks, target }, Ok(info)) =>
                Effect::CreateTarget(
                    TargetRequest { save_path, num_chunks, info, mode: target, decided: false },
                ),
            (FetchInfoKind::Resume, Ok(info)) => self.continue_download(false, info, now),
            (FetchInfoKind::Restart, Ok(info)) => self.continue_download(true, info, now),
            (FetchInfoKind::Start { .. }, Err(error)) => {
                let retryable = error.is_retryable();
                self.status = DownloadStatus::Failed(error.message());
                self.publish(None, 0, 0, None, retryable);
                Effect::Nothing
            },
            (_, Err(error)) => {
                if error.is_content_changed() {
                    self.restart_required = true;
                    return Effect::Nothing;
                }
                let retryable = error.is_retryable();
                self.fail_kept(error.message(), retryable);
                Effect::Nothing
            },
        }
    }

    fn continue_download(&mut self, is_restart: bool, info: RemoteFileInfo, now: u64) -> (effect:
        Effect)
        requires
            old(self).wf(),
        ensures
            final(self).wf(),
            continued(*old(self), *final(self), effect, is_restart, info, now),
    {
        if !self.has_storage {
            self.fail_kept("Missing storage for paused download".to_string(), false);
            return Effect::Nothing;
        }
        if is_restart || !self.is_range_download() {
            let length: u64 = match info.content_length {
                Some(total) => total,
                None => 0,
            };
            return Effect::Resize { length, info };
        }
        let matches = match &self.file_info {
            Some(previous) => info.uses_range_workers() && previous.resume_metadata_matches(&info),
            None => false,
        };
        match info.content_length {
            Some(total) => {
                if matches && resume::resume_chunks_are_valid(&self.active_chunks, total) {
                    let downloaded: u64 = self.downloaded_bytes();
                    self.status = DownloadStatus::Downloading;
                    proof {
                        resume::lemma_revived(self.active_chunks@, now, total as int);
                    }
                    resume::revive_chunks(&mut self.active_chunks, now);
                    let ids = every_id(self.active_chunks.len());
                    let launches = launches_for(&ids, &self.active_chunks, &info, total);
                    self.file_info = Some(info);
                    self.publish(Some(total), downloaded, 0, None, true);
                    return Effect::Launch(launches);
                }
            },
            None => {},
        }
        self.fail_kept(
            "Cannot safely resume: the remote file changed or could not be validated".to_string(),
            false,
        );
        Effect::Nothing
    }

    /// Goes on after the target file was given its new length.
    pub fn target_resized(
        &mut self,
        info: RemoteFileInfo,
        resize: Result<(), CoordinatorError>,
        now: u64,
    ) -> (effect: Effect)
        requires
            old(self).wf(),
        ensures
            final(self).wf(),
            resized(*old(self), *final(self), effect, info, resize, now),
    {
        match resize {
            Ok(()) => {
                let (list, launches) = start_workers(&info, self.current_num_chunks, now);
                let total = info.content_length;
                let in_ranges = info.uses_range_workers();
                self.active_chunks = list;
                self.file_info = Some(info);
                self.status = DownloadStatus::Downloading;
                self.publish(total, 0, 0, None, in_ranges);
                Effect::Launch(launches)
            },
            Err(error) => {
                self.fail_kept(error.message(), false);
                Effect::Nothing
            },
        }
    }

    /// Ends a download whose file was flushed, or could not be.
    pub fn file_flushed(&mut self, flush: Result<(), CoordinatorError>)
        requires
            old(self).wf(),
        ensures
            final(self).wf(),
            flushed(*old(self), *final(self), flush),
    {
        let downloaded: u64 = self.downloaded_bytes();
        let total: u64 = match self.total_size() {
            Some(total) => total,
            None => downloaded,
        };
        let completed = flush.is_ok();
        self.status =
        match flush {
            Ok(()) => DownloadStatus::Completed,
            Err(error) => {
                let reason = error.message();
                DownloadStatus::Failed(
                    text::join2("Failed to flush completed download: ", reason.as_str()),
                )
            },
        };
        self.current_speed = 0;
        self.publish(Some(total), downloaded, 0, None, completed);
    }

    /// Goes on after the target file was created, or could not be.
    pub fn target_created(&mut self, request: TargetRequest, outcome: TargetOutcome, now: u64) -> (effect:
        Effect)
        requires
            old(self).wf(),
        ensures
            final(self).wf(),
            target_handled(*old(self), request, outcome, now, *final(self), effect),
    {
        match outcome {
            TargetOutcome::Created { filename, path } => self.launch_download(
                request.info,
                filename,
                path,
                request.num_chunks,
                now,
            ),
            TargetOutcome::Existing { filename, path, bytes } => {
                if request.decided {
                    proof {
                        reveal_strlit("I/O error: ");
                        reveal_strlit("target file already exists");
                        reveal_strlit("I/O error: target file already exists");
                    }
                    let source = StorageError::Io(
                        IoFault::new(IoKind::AlreadyExists, "target file already exists"),
                    );
                    assert(source.shown() =~= "I/O error: target file already exists"@);
                    self.fail_target(filename, path, &source);
                    return Effect::Nothing;
                }
                self.current_filename = filename.clone();
                self.current_path = path.copy();
                self.ask_existing_target(
                    request.save_path,
                    request.num_chunks,
                    request.info,
                    ExistingFile { filename, path, bytes },
                )
            },
            TargetOutcome::Failed { filename, path, source } => {
                self.fail_target(filename, path, &source);
                Effect::Nothing
            },
            TargetOutcome::TaskFailed(reason) => {
                let message = if request.decided {
                    text::join2("Could not create download file: ", reason.as_str())
                } else {
                    let shown = CoordinatorError::StorageTask(reason).message();
                    text::join4(
                        "Could not create download file ",
                        self.current_path.as_str(),
                        ": ",
                        shown.as_str(),
                    )
                };
                self.status = DownloadStatus::Failed(message);
                self.publish(None, 0, 0, None, false);
                Effect::Nothing
            },
        }
    }

    /// Starts the workers of a download whose target file is there.
    pub fn launch_download(
        &mut self,
        info: RemoteFileInfo,
        filename: String,
        path: FilePath,
        num_chunks: usize,
        now: u64,
    ) -> (effect: Effect)
        requires
            old(self).wf(),
        ensures
            final(self).wf(),
            launched(
                *old(self),
                *final(self),
                effect,
                info,
                filename,
                path,
                num_chunks,
                now,
            ),
    {
        let total = info.content_length;
        let in_ranges = info.uses_range_workers();
        let (list, launches) = start_workers(&info, num_chunks, now);
        self.current_filename = filename;
        self.current_path = path;
        self.owns_target = true;
        self.active_chunks = list;
        self.has_storage = true;
        self.file_info = Some(info);
        self.status = DownloadStatus::Downloading;
        self.publish(total, 0, 0, None, in_ranges);
        Effect::Launch(launches)
    }

    fn fail_target(&mut self, filename: String, path: FilePath, source: &StorageError)
        requires
            old(self).wf(),
        ensures
            final(self).wf(),
            target_failed(*old(self), *final(self), filename, path, *source),
    {
        let shown = source.message();
        let message = if source.collides() {
            text::join4(
                "Refusing to overwrite existing file ",
                path.as_str(),
                ". Choose a different path or remove it first: ",
                shown.as_str(),
            )
        } else {
            shown
        };
        self.current_filename = filename;
        self.current_path = path;
        self.owns_target = source.left_created_file();
        self.status = DownloadStatus::Failed(message);
        self.publish(None, 0, 0, None, false);
    }
}

/// Law: a download continues from saved bytes only where the server still describes the same
/// file, and then it keeps every saved byte.
pub proof fn law_resume_needs_the_same_file(
    old: Session,
    new: Session,
    effect: Effect,
    info: RemoteFileInfo,
    now: u64,
)
    requires
        old.wf(),
        old.in_ranges(),
        continued(old, new, effect, false, info, now),
        effect is Launch,
    ensures
        old.file_info matches Some(previous) && previous@.metadata_matches(info@),
        info.content_length == old.total(),
        new.downloaded() == old.downloaded(),
        new.snapshot.downloaded_bytes == old.downloaded(),
{
    old.lemma_wf();
    resume::lemma_revived(old.active_chunks@, now, info.content_length->0 as int);
}

/// Law: a completed download shows as many bytes as it saved, and its full size.
pub proof fn law_completion_shows_the_whole_file(old: Session, new: Session)
    requires
        old.wf(),
        flushed(old, new, Ok(())),
    ensures
        new.status is Completed,
        new.snapshot.status is Completed,
        new.snapshot.downloaded_bytes == old.downloaded(),
        new.snapshot.total_bytes is Some,
        old.total() is Some ==> new.snapshot.total_bytes == old.total(),
        new.snapshot.resumable,
{
    old.lemma_wf();
}

/// Whether workers are started for every byte of a file, each for one part, from its first byte.
pub open spec fn fetches_all(
    list: Seq<ActiveChunk>,
    launches: Seq<WorkerLaunch>,
    info: RemoteFileInfo,
) -> bool {
    if info@.uses_ranges() {
        let total = info.content_length->0;
        &&& launches.len() == list.len()
        &&& chunks::tiles(scheduler::ranges(list), total as int)
        &&& forall|i: int|
            0 <= i < list.len() ==> (#[trigger] launches[i] matches WorkerLaunch::Chunk {
                range,
                downloaded,
                total_size,
                validator,
            } && range == list[i].range && downloaded == 0 && total_size == total
                && text::string_text(validator) == info@.resume_validator())
        &&& forall|i: int|
            0 <= i < list.len() ==> (#[trigger] list[i]).downloaded == 0 && !list[i].is_done
                && list[i].live
    } else {
        &&& launches.len() == 1
        &&& launches[0] == (WorkerLaunch::Stream { total_size: info.content_length })
        &&& list.len() == 1
        &&& list[0].downloaded == 0 && !list[0].is_done
    }
}

/// Law: a download that starts fetches every byte of its file once, with as many workers as were
/// asked for as long as there is a byte for each.
pub proof fn law_starting_workers_fetch_every_byte_once(
    list: Seq<ActiveChunk>,
    launches: Seq<WorkerLaunch>,
    info: RemoteFileInfo,
    num_chunks: usize,
    now: u64,
)
    requires
        workers_start(list, launches, info, num_chunks, now),
        list.len() <= usize::MAX,
    ensures
        fetches_all(list, launches, info),
        scheduler::downloaded_sum(list) == 0,
        info@.uses_ranges() && 1 <= num_chunks <= info.content_length->0 ==> list.len()
            == num_chunks,
        1 <= list.len() && (num_chunks >= 1 ==> list.len() <= num_chunks),
{
    if info@.uses_ranges() {
        let total = info.content_length->0;
        chunks::law_split_is_a_balanced_partition(scheduler::ranges(list), total as int);
        let ids = session::all_ids(list.len() as int);
        assert forall|i: int| 0 <= i < list.len() implies (
        #[trigger] launches[i] matches WorkerLaunch::Chunk {
            range,
            downloaded,
            total_size,
            validator,
        } && range == list[i].range && downloaded == 0 && total_size == total && text::string_text(
            validator,
        ) == info@.resume_validator()) by {
            assert(ids[i] == i as usize);
            assert(session::launches_chunk(
                launches[i],
                list[ids[i] as int],
                total,
                info@.resume_validator(),
            ));
        }
        scheduler::lemma_no_downloads(list);
    } else {
        assert(list.drop_last() =~= Seq::<ActiveChunk>::empty());
        assert(scheduler::downloaded_sum(list.drop_last()) == 0);
    }
}

/// Law: once its target file is there, a download owns it and fetches all of its file into it.
pub proof fn law_created_targets_are_filled(
    old: Session,
    request: TargetRequest,
    filename: String,
    path: FilePath,
    now: u64,
    new: Session,
    effect: Effect,
)
    requires
        target_handled(old, request, TargetOutcome::Created { filename, path }, now, new, effect),
    ensures
        new.status is Downloading,
        new.owns_target && new.has_storage,
        new.current_path == path && new.current_filename == filename,
        new.file_info == Some(request.info),
        new.downloaded() == 0,
        new.snapshot.total_bytes == request.info.content_length,
        effect matches Effect::Launch(launches) && fetches_all(
            new.active_chunks@,
            launches@,
            request.info,
        ),
{
    assert(new.active_chunks.len() == new.active_chunks@.len());
    law_starting_workers_fetch_every_byte_once(
        new.active_chunks@,
        effect->Launch_0@,
        request.info,
        request.num_chunks,
        now,
    );
}

/// Law: a target file that is already there or cannot be made starts no worker: it is asked about
/// unless that was decided before, and it is owned only where this program created it.
pub proof fn law_missing_targets_start_nothing(
    old: Session,
    request: TargetRequest,
    outcome: TargetOutcome,
    now: u64,
    new: Session,
    effect: Effect,
)
    requires
        target_handled(old, request, outcome, now, new, effect),
        !(outcome is Created),
    ensures
        !(effect is Launch),
        outcome is Failed || outcome is TaskFailed || (outcome is Existing && request.decided)
            ==> effect is Nothing && new.status is Failed && !new.snapshot.resumable,
        outcome matches TargetOutcome::Failed { path, source, .. } ==> new.current_path == path
            && new.owns_target == (source is CreatedFileInitialization),
        outcome is Existing && request.decided ==> !new.owns_target,
        outcome matches TargetOutcome::Existing { filename, path, bytes } ==> {
            &&& !request.decided && old.duplicate_preference is None ==> effect is Nothing
                && new.status == old.status && (new.snapshot.duplicate matches Some(prompt)
                && prompt.filename == filename && prompt.existing_bytes == Some(bytes))
            &&& new.current_path == path
        },
        duplicate::overwrites(effect) ==> old.duplicate_preference == Some(
            DuplicateChoice::Overwrite,
        ),
{
    if outcome is Existing && request.decided {
        let filename = outcome->Existing_filename;
        let path = outcome->Existing_path;
        let source = choose|source: StorageError|
            #![trigger target_failed(old, new, filename, path, source)]
            source.is_collision() && source.shown() == "I/O error: target file already exists"@
                && target_failed(old, new, filename, path, source);
        assert(target_failed(old, new, filename, path, source));
    }
}

/// Law: the answer of the server about a new download leads to a target file for the place, and in
/// the manner, that were asked for; a file is overwritten only where that was the manner.
pub proof fn law_targets_are_made_as_asked(
    old: Session,
    msg: FetchInfoMsg,
    now: u64,
    new: Session,
    effect: Effect,
)
    requires
        info_handled(old, msg, now, new, effect),
    ensures
        effect matches Effect::CreateTarget(request) ==> {
            &&& msg.kind == (FetchInfoKind::Start {
                save_path: request.save_path,
                num_chunks: request.num_chunks,
                target: request.mode,
            })
            &&& !request.decided
            &&& msg.result matches Ok(info) && request.info == info
        },
        !(effect is RemoveFile) && !(effect is Reset),
        msg.session_id == old.session_id && old.status is Connecting && msg.kind is Start
            && msg.result is Ok ==> effect is CreateTarget,
{
}

/// Law: an answer for another run, or one that the session does not wait for, changes nothing.
pub proof fn law_stale_descriptions_change_nothing(
    old: Session,
    msg: FetchInfoMsg,
    now: u64,
    new: Session,
    effect: Effect,
)
    requires
        info_handled(old, msg, now, new, effect),
        msg.session_id != old.session_id || (msg.kind is Complete && !(old.status is Downloading))
            || (!(msg.kind is Complete) && !(old.status is Connecting)),
    ensures
        new == old,
        effect is Nothing,
{
}

/// Law: a question that failed never starts workers and never completes a download; a changed file
/// is set to start over, and any other failure is shown, to be resumed only where trying again may
/// help.
pub proof fn law_failed_questions_start_nothing(
    old: Session,
    msg: FetchInfoMsg,
    now: u64,
    new: Session,
    effect: Effect,
    error: WorkerError,
)
    requires
        old.wf(),
        msg.session_id == old.session_id,
        if msg.kind is Complete {
            old.status is Downloading
        } else {
            old.status is Connecting
        },
        msg.result == Err::<RemoteFileInfo, WorkerError>(error),
        info_handled(old, msg, now, new, effect),
    ensures
        effect is Nothing,
        new.active_chunks == old.active_chunks,
        !(new.status is Completed),
        error.changed() && !(msg.kind is Start) ==> new.restart_required && new.status
            == old.status,
        !error.changed() || msg.kind is Start ==> new.status is Failed && new.snapshot.resumable
            == error.may_retry() && new.restart_required == old.restart_required,
        !error.changed() && !(msg.kind is Start) ==> new.snapshot.downloaded_bytes
            == old.downloaded(),
{
    old.lemma_wf();
}

/// Law: a download is complete only after its final check agreed and its file, where one is open,
/// was flushed.
pub proof fn law_completion_follows_check_and_flush(
    old: Session,
    msg: FetchInfoMsg,
    now: u64,
    new: Session,
    effect: Effect,
    flush: Result<(), CoordinatorError>,
    ended: Session,
)
    requires
        info_handled(old, msg, now, new, effect),
        flushed(old, ended, flush),
    ensures
        new.status is Completed && !(old.status is Completed) ==> msg.kind is Complete
            && msg.result is Ok && msg.session_id == old.session_id && !old.has_storage,
        effect is Sync <==> msg.kind is Complete && msg.result is Ok && msg.session_id
            == old.session_id && old.status is Downloading && old.has_storage,
        ended.status is Completed <==> flush is Ok,
        flush is Err ==> ended.status is Failed && !ended.snapshot.resumable,
{
}

/// Law: a resumed download goes on where each of its chunks stopped: every chunk is taken up again
/// with its own range and bytes.
pub proof fn law_resumed_workers_go_on_where_they_stopped(
    old: Session,
    new: Session,
    effect: Effect,
    info: RemoteFileInfo,
    now: u64,
)
    requires
        old.wf(),
        continued(old, new, effect, false, info, now),
        effect is Launch,
    ensures
        new.status is Downloading,
        new.active_chunks@.len() == old.active_chunks@.len(),
        effect matches Effect::Launch(launches) && launches@.len() == old.active_chunks@.len()
            && forall|i: int|
            0 <= i < launches@.len() ==> (#[trigger] launches@[i] matches WorkerLaunch::Chunk {
                range,
                downloaded,
                total_size,
                validator,
            } && range == old.active_chunks@[i].range && downloaded
                == old.active_chunks@[i].downloaded && Some(total_size) == info.content_length
                && text::string_text(validator) == info@.resume_validator()),
        forall|i: int|
            0 <= i < new.active_chunks@.len() ==> {
                &&& (#[trigger] new.active_chunks@[i]).range == old.active_chunks@[i].range
                &&& new.active_chunks@[i].downloaded == old.active_chunks@[i].downloaded
                &&& new.active_chunks@[i].live
                &&& new.active_chunks@[i].retries == 0
                &&& !new.active_chunks@[i].is_done
            },
{
    let list = new.active_chunks@;
    assert(new.active_chunks.len() == list.len());
    let ids = session::all_ids(list.len() as int);
    let launches = effect->Launch_0@;
    assert forall|i: int| 0 <= i < launches.len() implies (
    #[trigger] launches[i] matches WorkerLaunch::Chunk { range, downloaded, total_size, validator }
        && range == old.active_chunks@[i].range && downloaded == old.active_chunks@[i].downloaded
        && Some(total_size) == info.content_length && text::string_text(validator)
        == info@.resume_validator()) by {
        assert(ids[i] == i as usize);
        assert(session::launches_chunk(
            launches[i],
            list[ids[i] as int],
            info.content_length->0,
            info@.resume_validator(),
        ));
        assert(list[i] == resume::revived(old.active_chunks@, now)[i]);
    }
}

/// Law: where saved bytes are not continued, they are not used either: a restart and a download that
/// comes as one stream give the file the length that the server states and fetch all of it, and a
/// download that cannot go on safely keeps its bytes and fails.
pub proof fn law_unsafe_resumes_fetch_nothing(
    old: Session,
    new: Session,
    effect: Effect,
    is_restart: bool,
    info: RemoteFileInfo,
    now: u64,
)
    requires
        old.wf(),
        continued(old, new, effect, is_restart, info, now),
    ensures
        is_restart || !old.in_ranges() || !old.has_storage ==> !(effect is Launch),
        effect matches Effect::Resize { length, info: held } ==> held == info && new == old && (
        info.content_length matches Some(total) ==> length == total) && (
        info.content_length is None ==> length == 0),
        !(effect is Launch) && !(effect is Resize) ==> effect is Nothing && new.status is Failed
            && !new.snapshot.resumable && new.active_chunks == old.active_chunks
            && new.snapshot.downloaded_bytes == old.downloaded(),
        !old.has_storage ==> new.status is Failed,
        (old.has_storage && !is_restart && old.in_ranges() && !(info.accepts_ranges
            && old.file_info->0@.metadata_matches(info@))) ==> new.status is Failed,
{
    old.lemma_wf();
}

/// Law: a file that starts over is fetched whole once it has its length; one that could not be given
/// it fails.
pub proof fn law_resized_targets_are_filled(
    old: Session,
    new: Session,
    effect: Effect,
    info: RemoteFileInfo,
    resize: Result<(), CoordinatorError>,
    now: u64,
)
    requires
        resized(old, new, effect, info, resize, now),
    ensures
        resize is Ok ==> new.status is Downloading && new.file_info == Some(info)
            && new.downloaded() == 0 && (effect matches Effect::Launch(launches) && fetches_all(
            new.active_chunks@,
            launches@,
            info,
        )),
        resize is Err ==> new.status is Failed && effect is Nothing && new.active_chunks
            == old.active_chunks,
{
    if resize is Ok {
        assert(new.active_chunks.len() == new.active_chunks@.len());
        law_starting_workers_fetch_every_byte_once(
            new.active_chunks@,
            effect->Launch_0@,
            info,
            old.current_num_chunks,
            now,
        );
    }
}

/// Law: a file that comes as one stream is fetched from its first byte to its last.
pub proof fn law_streams_hold_the_whole_file(content_length: Option<u64>, now: u64)
    ensures
        stream_chunk(content_length, now).range.start == 0,
        stream_chunk(content_length, now).downloaded == 0,
        !stream_chunk(content_length, now).is_done,
        content_length matches Some(size) ==> (size > 0 ==> stream_chunk(
            content_length,
            now,
        ).remaining() == size),
{
}

} // verus!
