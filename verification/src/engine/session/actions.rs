//! What the user asks for, and how the session stops and goes on.
use crate::engine::error::CoordinatorError;
use crate::engine::model::{DownloadAction, DownloadStatus, DuplicateChoice};
use crate::engine::progress;
use crate::engine::resume;
use crate::engine::resume::SavedDownload;
use crate::engine::scheduler;
use crate::engine::session;
use crate::engine::session::duplicate;
use crate::engine::session::reports;
use crate::engine::session::{
    Effect, FetchInfoKind, RemovalRequest, Session, Stopped, MAX_CONTENT_RESTARTS,
};
use crate::engine::target::TargetMode;
use crate::engine::worker::WorkerMsg;
use crate::path::FilePath;
use crate::storage::{IoFault, IoKind};
use crate::text;
use vstd::prelude::*;

verus! {

/// Whether a stopped download can be continued.
pub open spec fn can_resume(session: Session) -> bool {
    session.status is Paused || (session.status is Failed && session.snapshot.resumable)
}

/// The session asked to continue a stopped download.
pub open spec fn resume_requested(old: Session, new: Session, effect: Effect) -> bool {
    if can_resume(old) {
        &&& new == Session { duplicate: None, ..old }
        &&& effect == Effect::Stop { cancel: false, next: Stopped::Resume }
    } else {
        new == old && effect is Nothing
    }
}

/// Whether a removal is about the download as it is now.
pub open spec fn removal_applies(
    session: Session,
    expected_session_id: u64,
    expected_status: DownloadStatus,
    completed_only: bool,
) -> bool {
    &&& !(session.status is Idle)
    &&& session.session_id == expected_session_id
    &&& session.status@ == expected_status@
    &&& completed_only ==> session.status is Completed
}

/// What an action does to the session at once.
pub open spec fn action_handled(
    old: Session,
    action: DownloadAction,
    new: Session,
    effect: Effect,
) -> bool {
    match action {
        DownloadAction::Start { url, save_path, num_chunks } => if duplicate::is_duplicate_link(
            old,
            url@,
        ) {
            duplicate::link_asked(old, new, effect, url, save_path, num_chunks)
        } else {
            new == old && effect == (Effect::Stop {
                cancel: true,
                next: Stopped::Start { url, save_path, num_chunks, target: TargetMode::Ask },
            })
        },
        DownloadAction::SetDuplicatePreference { choice } => new == (Session {
            duplicate_preference: choice,
            ..old
        }) && effect is Nothing,
        DownloadAction::ResolveDuplicate { session_id, choice } => duplicate::resolved(
            old,
            new,
            effect,
            session_id,
            choice,
        ),
        DownloadAction::Pause => if old.status is Connecting || old.status is Downloading {
            new == (Session { duplicate: None, ..old }) && effect == (Effect::Stop {
                cancel: true,
                next: Stopped::Pause,
            })
        } else {
            new == old && effect is Nothing
        },
        DownloadAction::Resume => resume_requested(old, new, effect),
        DownloadAction::Cancel => new == (Session { duplicate: None, ..old }) && effect == (
        Effect::Stop { cancel: true, next: Stopped::Cancel }),
        DownloadAction::Remove {
            expected_session_id,
            expected_status,
            delete_file,
            completed_only,
        } => if removal_applies(old, expected_session_id, expected_status, completed_only) {
            new == (Session { duplicate: None, ..old }) && effect == (Effect::Stop {
                cancel: true,
                next: Stopped::Remove { delete_file },
            })
        } else {
            new == old && effect is Nothing
        },
    }
}

/// The session after everything of the previous download was dropped for a new one.
pub open spec fn started(
    old: Session,
    new: Session,
    url: String,
    save_path: FilePath,
    num_chunks: usize,
    now: u64,
) -> bool {
    &&& new.active_chunks@.len() == 0
    &&& new.current_filename@.len() == 0
    &&& new == Session {
        current_url: url,
        current_filename: new.current_filename,
        current_path: save_path,
        current_num_chunks: num_chunks,
        content_restarts: 0,
        status: DownloadStatus::Connecting,
        active_chunks: new.active_chunks,
        has_storage: false,
        owns_target: false,
        file_info: None,
        duplicate: None,
        current_speed: 0,
        bytes_since_last_tick: 0,
        last_tick: now,
        ..old.renewed()
    }.published(None, 0, false)
}

/// Whether a saved download is the one of a session.
pub open spec fn saves(saved: SavedDownload, session: Session) -> bool {
    session.file_info == Some(saved.info) && saved.chunks@ == resume::saved_progress(
        session.active_chunks@,
    )
}

/// The session after it set out to continue a stopped download.
pub open spec fn resumed(old: Session, new: Session, effect: Effect, now: u64) -> bool {
    &&& new == Session {
        status: DownloadStatus::Connecting,
        current_speed: 0,
        bytes_since_last_tick: 0,
        last_tick: now,
        ..old.renewed()
    }.published(old.total(), old.downloaded(), old.file_info is None || old.in_ranges())
    &&& effect matches Effect::Fetch { kind, saved } && kind == (if old.has_storage {
        FetchInfoKind::Resume
    } else {
        FetchInfoKind::Start {
            save_path: old.current_path,
            num_chunks: old.current_num_chunks,
            target: TargetMode::Ask,
        }
    }) && match saved {
        Some(saved) => old.has_storage && old.in_ranges() && saves(saved, old),
        None => !(old.has_storage && old.in_ranges()),
    }
}

/// The session after a download was paused: committed progress is kept, and a failure that a
/// resume does not mend is shown.
pub open spec fn paused(old: Session, new: Session, messages: Seq<WorkerMsg>, now: u64) -> bool {
    let rules = progress::DrainRules {
        session_id: old.session_id,
        range_download: old.in_ranges(),
        total_size: old.total(),
        resumable: old.in_ranges(),
        now,
    };
    let drained = progress::drain(old.active_chunks@, messages, rules);
    let saved = scheduler::downloaded_sum(drained.chunks);
    &&& new.active_chunks@ == drained.chunks
    &&& match drained.error {
        None => new == (Session {
            active_chunks: new.active_chunks,
            status: DownloadStatus::Paused,
            current_speed: 0,
            bytes_since_last_tick: 0,
            ..old
        }).published(old.total(), saved, old.file_info is None || old.in_ranges()),
        Some(error) => if error matches CoordinatorError::Worker { source, .. }
            && source.changed() {
            new == (Session { active_chunks: new.active_chunks, restart_required: true, ..old })
        } else {
            new.failed_with(error.shown()) && new == (Session {
                active_chunks: new.active_chunks,
                status: new.status,
                current_speed: 0,
                ..old
            }).published(old.total(), saved, false)
        },
    }
}

/// The session after a download was dropped.
pub open spec fn cancelled(old: Session, new: Session) -> bool {
    new.active_chunks@.len() == 0 && new == Session {
        status: DownloadStatus::Idle,
        current_speed: 0,
        active_chunks: new.active_chunks,
        has_storage: false,
        owns_target: false,
        file_info: None,
        ..old.renewed()
    }.published(None, 0, false)
}

/// The session of a removed download before its file is dealt with.
pub open spec fn emptied(old: Session, new: Session) -> bool {
    new.active_chunks@.len() == 0 && new == Session {
        active_chunks: new.active_chunks,
        has_storage: false,
        file_info: None,
        current_speed: 0,
        bytes_since_last_tick: 0,
        restart_required: false,
        ..old.renewed()
    }
}

/// The session after a removal without an error.
pub open spec fn removed(session: Session) -> Session {
    Session { owns_target: false, status: DownloadStatus::Idle, ..session }.published(
        None,
        0,
        false,
    )
}

/// What became of a file to delete.
pub enum RemovalOutcome {
    Removed,
    Fault(IoFault),
    TaskFailed(String),
}

/// The message of a removal that failed; a file that is missing is as good as deleted.
pub open spec fn removal_error(outcome: RemovalOutcome, path: Seq<char>) -> Option<Seq<char>> {
    match outcome {
        RemovalOutcome::Removed => None,
        RemovalOutcome::Fault(fault) => if fault.kind == IoKind::NotFound {
            None
        } else {
            Some("Failed to delete download file "@ + path + ": "@ + fault.message@)
        },
        RemovalOutcome::TaskFailed(reason) => Some(
            "Failed to run file deletion for "@ + path + ": "@ + reason@,
        ),
    }
}

/// The session after its file was dealt with.
pub open spec fn removal_ended(
    old: Session,
    new: Session,
    request: RemovalRequest,
    outcome: RemovalOutcome,
) -> bool {
    match removal_error(outcome, old.current_path@) {
        None => new == removed(old),
        Some(message) => new.failed_with(message) && new == (Session {
            status: new.status,
            ..old
        }).published(request.total_bytes, request.downloaded_bytes as int, false),
    }
}

/// The session after a changed file was given up or is fetched anew.
pub open spec fn restarted(
    old: Session,
    new: Session,
    effect: Effect,
    reset: Result<(), CoordinatorError>,
    now: u64,
) -> bool {
    let base = Session {
        active_chunks: new.active_chunks,
        file_info: None,
        current_speed: 0,
        bytes_since_last_tick: 0,
        last_tick: now,
        ..old
    };
    &&& new.active_chunks@.len() == 0
    &&& match reset {
        Err(error) => new.failed_with("Could not restart changed file: "@ + error.shown()) && new
            == (Session { status: new.status, ..base }).published(None, 0, false)
            && effect is Nothing,
        Ok(()) => if old.content_restarts >= MAX_CONTENT_RESTARTS {
            new.failed_with(
                "Remote file keeps changing; stopped after "@ + text::decimal(
                    MAX_CONTENT_RESTARTS as nat,
                ) + " automatic restarts"@,
            ) && new == (Session { status: new.status, ..base }).published(None, 0, false)
                && effect is Nothing
        } else {
            new == (Session {
                content_restarts: (old.content_restarts + 1) as u8,
                status: DownloadStatus::Connecting,
                ..base
            }).published(None, 0, false) && effect == (Effect::Fetch {
                kind: FetchInfoKind::Restart,
                saved: None,
            })
        },
    }
}

/// What happens once all running tasks have ended.
pub open spec fn went_on(
    old: Session,
    next: Stopped,
    messages: Seq<WorkerMsg>,
    now: u64,
    new: Session,
    effect: Effect,
) -> bool {
    match next {
        Stopped::Start { url, save_path, num_chunks, target } => started(
            old,
            new,
            url,
            save_path,
            num_chunks,
            now,
        ) && effect == (Effect::Fetch {
            kind: FetchInfoKind::Start { save_path, num_chunks, target },
            saved: None,
        }),
        Stopped::Pause => paused(old, new, messages, now) && effect is Nothing,
        Stopped::Resume => resumed(old, new, effect, now),
        Stopped::Cancel => cancelled(old, new) && effect is Nothing,
        Stopped::Remove { delete_file } => if delete_file && old.owns_target {
            emptied(old, new) && effect == (Effect::RemoveFile(
                RemovalRequest {
                    path: old.current_path,
                    total_bytes: old.total(),
                    downloaded_bytes: old.downloaded() as u64,
                },
            ))
        } else {
            effect is Nothing && exists|middle: Session| #[trigger]
                emptied(old, middle) && new == removed(middle)
        },
        Stopped::Restart => if old.has_storage {
            new == old.renewed() && effect is Reset
        } else {
            restarted(
                old.renewed(),
                new,
                effect,
                Err(CoordinatorError::InvalidProgress),
                now,
            )
        },
        Stopped::WorkerFailed { chunk_id, error, retryable } => reports::worker_stopped(
            old,
            new,
            chunk_id,
            error,
            retryable,
            messages,
            now,
        ) && effect is Nothing,
    }
}

impl Session {
    /// Takes an action of the user.
    pub fn handle_action(&mut self, action: DownloadAction) -> (effect: Effect)
        requires
            old(self).wf(),
        ensures
            final(self).wf(),
            action_handled(*old(self), action, *final(self), effect),
    {
        match action {
            DownloadAction::Start { url, save_path, num_chunks } => {
                if self.duplicate_link(url.as_str()) {
                    return self.ask_link_duplicate(url, save_path, num_chunks);
                }
                Effect::Stop {
                    cancel: true,
                    next: Stopped::Start { url, save_path, num_chunks, target: TargetMode::Ask },
                }
            },
            DownloadAction::SetDuplicatePreference { choice } => {
                self.duplicate_preference = choice;
                Effect::Nothing
            },
            DownloadAction::ResolveDuplicate { session_id, choice } => self.resolve_duplicate(
                session_id,
                choice,
            ),
            DownloadAction::Pause => {
                let running = match self.status {
                    DownloadStatus::Connecting => true,
                    DownloadStatus::Downloading => true,
                    _ => false,
                };
                if !running {
                    return Effect::Nothing;
                }
                self.duplicate = None;
                Effect::Stop { cancel: true, next: Stopped::Pause }
            },
            DownloadAction::Resume => self.resume_download(),
            DownloadAction::Cancel => {
                self.duplicate = None;
                Effect::Stop { cancel: true, next: Stopped::Cancel }
            },
            DownloadAction::Remove {
                expected_session_id,
                expected_status,
                delete_file,
                completed_only,
            } => {
                let completed = match self.status {
                    DownloadStatus::Completed => true,
                    _ => false,
                };
                if self.status.is_idle() || self.session_id != expected_session_id
                    || !self.status.same(&expected_status) || (completed_only && !completed) {
                    return Effect::Nothing;
                }
                self.duplicate = None;
                Effect::Stop { cancel: true, next: Stopped::Remove { delete_file } }
            },
        }
    }

    /// Sets out to continue a stopped download.
    pub fn resume_download(&mut self) -> (effect: Effect)
        requires
            old(self).wf(),
        ensures
            final(self).wf(),
            resume_requested(*old(self), *final(self), effect),
    {
        if !self.resume_allowed() {
            return Effect::Nothing;
        }
        self.duplicate = None;
        Effect::Stop { cancel: false, next: Stopped::Resume }
    }

    /// Whether a stopped download can be continued.
    pub fn resume_allowed(&self) -> (r: bool)
        ensures
            r == can_resume(*self),
    {
        match self.status {
            DownloadStatus::Paused => true,
            DownloadStatus::Failed(_) => self.snapshot.resumable,
            _ => false,
        }
    }

    /// Goes on once all running tasks have ended. `messages` are the reports still queued.
    pub fn handle_stopped(&mut self, next: Stopped, messages: Vec<WorkerMsg>, now: u64) -> (effect:
        Effect)
        requires
            old(self).wf(),
            old(self).session_id < u64::MAX,
        ensures
            final(self).wf(),
            went_on(*old(self), next, messages@, now, *final(self), effect),
    {
        match next {
            Stopped::Start { url, save_path, num_chunks, target } => {
                self.session_id = self.session_id + 1;
                self.current_url = url;
                self.current_path = save_path.copy();
                self.current_num_chunks = num_chunks;
                self.content_restarts = 0;
                self.current_filename = String::new();
                self.status = DownloadStatus::Connecting;
                self.active_chunks.clear();
                self.has_storage = false;
                self.owns_target = false;
                self.file_info = None;
                self.duplicate = None;
                self.current_speed = 0;
                self.bytes_since_last_tick = 0;
                self.last_tick = now;
                self.publish(None, 0, 0, None, false);
                Effect::Fetch {
                    kind: FetchInfoKind::Start { save_path, num_chunks, target },
                    saved: None,
                }
            },
            Stopped::Pause => {
                self.pause(messages, now);
                Effect::Nothing
            },
            Stopped::Resume => self.resume_stopped(now),
            Stopped::Cancel => {
                self.session_id = self.session_id + 1;
                self.status = DownloadStatus::Idle;
                self.current_speed = 0;
                self.active_chunks.clear();
                self.has_storage = false;
                self.owns_target = false;
                self.file_info = None;
                self.publish(None, 0, 0, None, false);
                Effect::Nothing
            },
            Stopped::Remove { delete_file } => {
                let total_bytes = self.total_size();
                let downloaded_bytes: u64 = self.downloaded_bytes();
                self.session_id = self.session_id + 1;
                self.has_storage = false;
                self.active_chunks.clear();
                self.file_info = None;
                self.current_speed = 0;
                self.bytes_since_last_tick = 0;
                self.restart_required = false;
                let ghost middle = *self;
                assert(emptied(*old(self), middle));
                if delete_file && self.owns_target {
                    return Effect::RemoveFile(
                        RemovalRequest {
                            path: self.current_path.copy(),
                            total_bytes,
                            downloaded_bytes,
                        },
                    );
                }
                self.finish_removal();
                Effect::Nothing
            },
            Stopped::Restart => {
                self.session_id = self.session_id + 1;
                if self.has_storage {
                    return Effect::Reset;
                }
                self.restart_reset(Err(CoordinatorError::InvalidProgress), now)
            },
            Stopped::WorkerFailed { chunk_id, error, retryable } => {
                self.stop_after_error(chunk_id, error, retryable, messages, now);
                Effect::Nothing
            },
        }
    }

    fn pause(&mut self, messages: Vec<WorkerMsg>, now: u64)
        requires
            old(self).wf(),
        ensures
            final(self).wf(),
            paused(*old(self), *final(self), messages@, now),
    {
        let range_download = self.is_range_download();
        let total_size = self.total_size();
        proof {
            self.lemma_wf();
            let rules = progress::DrainRules {
                session_id: self.session_id,
                range_download,
                total_size,
                resumable: range_download,
                now,
            };
            if self.file_info is Some {
                session::lemma_drain_fits(self.active_chunks@, self.file_info->0, messages@, rules);
            } else {
                reports::lemma_drain_empty(self.active_chunks@, messages@, rules);
            }
        }
        let drained = progress::drain_cancelled_progress(
            messages,
            self.session_id,
            &mut self.active_chunks,
            range_download,
            total_size,
            range_download,
            now,
        );
        match drained {
            Ok(()) => {
                self.status = DownloadStatus::Paused;
                self.current_speed = 0;
                self.bytes_since_last_tick = 0;
                let resumable = self.file_info.is_none() || range_download;
                let downloaded: u64 = self.downloaded_bytes();
                self.publish(total_size, downloaded, 0, None, resumable);
            },
            Err(error) => {
                if error.is_content_changed() {
                    self.restart_required = true;
                    return;
                }
                self.status = DownloadStatus::Failed(error.message());
                self.current_speed = 0;
                let downloaded: u64 = self.downloaded_bytes();
                self.publish(total_size, downloaded, 0, None, false);
            },
        }
    }

    fn resume_stopped(&mut self, now: u64) -> (effect: Effect)
        requires
            old(self).wf(),
            old(self).session_id < u64::MAX,
        ensures
            final(self).wf(),
            resumed(*old(self), *final(self), effect, now),
    {
        let in_ranges = self.is_range_download();
        let total = self.total_size();
        let downloaded: u64 = self.downloaded_bytes();
        self.session_id = self.session_id + 1;
        self.status = DownloadStatus::Connecting;
        self.current_speed = 0;
        self.bytes_since_last_tick = 0;
        self.last_tick = now;
        let resumable = self.file_info.is_none() || in_ranges;
        self.publish(total, downloaded, 0, None, resumable);
        let kind = if self.has_storage {
            FetchInfoKind::Resume
        } else {
            FetchInfoKind::Start {
                save_path: self.current_path.copy(),
                num_chunks: self.current_num_chunks,
                target: TargetMode::Ask,
            }
        };
        let saved = match &self.file_info {
            Some(info) => if self.has_storage && in_ranges {
                Some(SavedDownload::new(info, &self.active_chunks))
            } else {
                None
            },
            None => None,
        };
        Effect::Fetch { kind, saved }
    }

    fn finish_removal(&mut self)
        ensures
            *final(self) == removed(*old(self)),
    {
        self.owns_target = false;
        self.status = DownloadStatus::Idle;
        self.publish(None, 0, 0, None, false);
    }

    /// Ends a removal whose file was dealt with.
    pub fn file_removed(&mut self, request: RemovalRequest, outcome: RemovalOutcome)
        requires
            old(self).wf(),
        ensures
            final(self).wf(),
            removal_ended(*old(self), *final(self), request, outcome),
    {
        let message = match outcome {
            RemovalOutcome::Removed => None,
            RemovalOutcome::Fault(fault) => match fault.kind {
                IoKind::NotFound => None,
                _ => Some(
                    text::join4(
                        "Failed to delete download file ",
                        self.current_path.as_str(),
                        ": ",
                        fault.message.as_str(),
                    ),
                ),
            },
            RemovalOutcome::TaskFailed(reason) => Some(
                text::join4(
                    "Failed to run file deletion for ",
                    self.current_path.as_str(),
                    ": ",
                    reason.as_str(),
                ),
            ),
        };
        match message {
            Some(message) => {
                self.status = DownloadStatus::Failed(message);
                self.publish(request.total_bytes, request.downloaded_bytes, 0, None, false);
            },
            None => {
                self.finish_removal();
            },
        }
    }

    /// Sets out to fetch a changed file anew.
    pub fn restart_changed_content(&mut self) -> (effect: Effect)
        requires
            old(self).wf(),
        ensures
            final(self).wf(),
            *final(self) == (Session { restart_required: false, ..*old(self) }),
            effect == (Effect::Stop { cancel: true, next: Stopped::Restart }),
    {
        self.restart_required = false;
        Effect::Stop { cancel: true, next: Stopped::Restart }
    }

    /// Goes on after the target file of a changed download was emptied.
    pub fn restart_reset(&mut self, reset: Result<(), CoordinatorError>, now: u64) -> (effect:
        Effect)
        requires
            old(self).wf(),
        ensures
            final(self).wf(),
            restarted(*old(self), *final(self), effect, reset, now),
    {
        self.active_chunks.clear();
        self.file_info = None;
        self.current_speed = 0;
        self.bytes_since_last_tick = 0;
        self.last_tick = now;
        let effect = match reset {
            Err(error) => {
                let reason = error.message();
                self.status =
                DownloadStatus::Failed(
                    text::join2("Could not restart changed file: ", reason.as_str()),
                );
                Effect::Nothing
            },
            Ok(()) => if self.content_restarts >= MAX_CONTENT_RESTARTS {
                let limit = text::decimal_string(MAX_CONTENT_RESTARTS as u64);
                self.status =
                DownloadStatus::Failed(
                    text::join3(
                        "Remote file keeps changing; stopped after ",
                        limit.as_str(),
                        " automatic restarts",
                    ),
                );
                Effect::Nothing
            } else {
                self.content_restarts = self.content_restarts + 1;
                self.status = DownloadStatus::Connecting;
                Effect::Fetch { kind: FetchInfoKind::Restart, saved: None }
            },
        };
        self.publish(None, 0, 0, None, false);
        effect
    }
}

/// Law: a removal changes nothing unless the download is still the one, in the state, that the
/// user confirmed.
pub proof fn law_removal_needs_the_confirmed_download(
    old: Session,
    new: Session,
    effect: Effect,
    expected_session_id: u64,
    expected_status: DownloadStatus,
    delete_file: bool,
    completed_only: bool,
)
    requires
        action_handled(
            old,
            DownloadAction::Remove {
                expected_session_id,
                expected_status,
                delete_file,
                completed_only,
            },
            new,
            effect,
        ),
        old.session_id != expected_session_id || old.status@ != expected_status@ || (completed_only
            && !(old.status is Completed)),
    ensures
        new == old,
        effect is Nothing,
{
}

/// Law: pausing a running range download keeps every saved byte, and if it ends paused the
/// download can be resumed from what is saved.
pub proof fn law_pausing_keeps_progress(old: Session, new: Session, messages: Seq<WorkerMsg>, now: u64)
    requires
        old.wf(),
        old.in_ranges(),
        old.status is Connecting || old.status is Downloading,
        paused(old, new, messages, now),
    ensures
        new.downloaded() >= old.downloaded(),
        new.status is Paused ==> can_resume(new) && new.snapshot.resumable
            && new.snapshot.downloaded_bytes == new.downloaded(),
{
    let rules = progress::DrainRules {
        session_id: old.session_id,
        range_download: old.in_ranges(),
        total_size: old.total(),
        resumable: old.in_ranges(),
        now,
    };
    let total = old.total()->0;
    progress::law_draining_keeps_partition_and_progress(
        old.active_chunks@,
        messages,
        rules,
        total,
    );
    scheduler::law_progress_never_exceeds_the_file(new.active_chunks@, total as int);
}

/// Law: a file that keeps changing is downloaded anew only so often.
pub proof fn law_restarts_are_bounded(
    old: Session,
    new: Session,
    effect: Effect,
    reset: Result<(), CoordinatorError>,
    now: u64,
)
    requires
        old.wf(),
        restarted(old, new, effect, reset, now),
    ensures
        new.content_restarts <= MAX_CONTENT_RESTARTS,
        effect is Fetch ==> new.content_restarts == old.content_restarts + 1,
        !(effect is Fetch) ==> new.status is Failed,
{
}

/// Law: a file is deleted only where its deletion was asked for and the download owns it, and then
/// it is the file of that download.
pub proof fn law_files_are_deleted_only_on_request(
    old: Session,
    next: Stopped,
    messages: Seq<WorkerMsg>,
    now: u64,
    new: Session,
    effect: Effect,
)
    requires
        went_on(old, next, messages, now, new, effect),
    ensures
        effect is RemoveFile ==> (next matches Stopped::Remove { delete_file } && delete_file)
            && old.owns_target,
        effect matches Effect::RemoveFile(request) ==> request.path == old.current_path
            && request.total_bytes == old.total(),
        (next matches Stopped::Remove { delete_file } && delete_file) && old.owns_target
            ==> effect is RemoveFile,
        next is Remove && !(effect is RemoveFile) ==> effect is Nothing,
{
}

/// Law: a removal sets out only for the download that the user confirmed, with the deletion that the
/// user asked for, and no other action sets out to remove anything.
pub proof fn law_removals_are_what_was_asked_for(
    old: Session,
    action: DownloadAction,
    new: Session,
    effect: Effect,
)
    requires
        action_handled(old, action, new, effect),
    ensures
        !(effect is RemoveFile),
        effect matches Effect::Stop { cancel, next: Stopped::Remove { delete_file } } ==> cancel && (
        action matches DownloadAction::Remove {
            expected_session_id,
            expected_status,
            delete_file: asked,
            completed_only,
        } && delete_file == asked && expected_session_id == old.session_id && expected_status@
            == old.status@ && (completed_only ==> old.status is Completed)),
        (action matches DownloadAction::Remove {
            expected_session_id,
            expected_status,
            delete_file,
            completed_only,
        } && expected_session_id == old.session_id && expected_status@ == old.status@ && !(
        old.status is Idle) && (completed_only ==> old.status is Completed)) ==> (
        effect matches Effect::Stop { next, .. } && next is Remove),
{
}

/// Law: a removed download leaves nothing behind in the list: no chunks, no description, no file
/// that it owns. A file that is missing is as good as deleted; one that could not be deleted is
/// reported and stays owned.
pub proof fn law_removed_downloads_leave_the_list(
    old: Session,
    messages: Seq<WorkerMsg>,
    now: u64,
    new: Session,
    effect: Effect,
    delete_file: bool,
    request: RemovalRequest,
    outcome: RemovalOutcome,
    ended: Session,
)
    requires
        old.session_id < u64::MAX,
        went_on(old, Stopped::Remove { delete_file }, messages, now, new, effect),
        removal_ended(new, ended, request, outcome),
    ensures
        new.active_chunks@.len() == 0,
        new.file_info is None,
        !new.has_storage,
        new.session_id == old.session_id + 1,
        effect is Nothing ==> new.status is Idle && new.snapshot.status is Idle && !new.owns_target,
        outcome is Removed || (outcome matches RemovalOutcome::Fault(fault) && fault.kind
            == IoKind::NotFound) ==> ended.status is Idle && ended.snapshot.status is Idle
            && !ended.owns_target,
        outcome is TaskFailed || (outcome matches RemovalOutcome::Fault(fault) && fault.kind
            != IoKind::NotFound) ==> ended.status is Failed && ended.snapshot.status is Failed
            && ended.owns_target == new.owns_target && ended.current_path == new.current_path,
{
}

/// Law: a file is set out to be overwritten only where the user chose so, for this download or for
/// all: a new link is started so that an existing file is asked about first.
pub proof fn law_overwriting_is_always_chosen(
    old: Session,
    action: DownloadAction,
    new: Session,
    effect: Effect,
)
    requires
        action_handled(old, action, new, effect),
    ensures
        duplicate::overwrites(effect) ==> (action matches DownloadAction::ResolveDuplicate {
            choice,
            ..
        } && choice == Some(DuplicateChoice::Overwrite)) || (action is Start
            && old.duplicate_preference == Some(DuplicateChoice::Overwrite)),
        (action matches DownloadAction::Start { url, .. } && !duplicate::is_duplicate_link(
            old,
            url@,
        )) ==> (effect matches Effect::Stop { cancel, next: Stopped::Start { target, .. } } && cancel
            && target == TargetMode::Ask),
        action matches DownloadAction::Start { url, save_path, num_chunks } ==> (
        effect matches Effect::Stop {
            next: Stopped::Start { url: link, save_path: place, num_chunks: count, .. },
            ..
        } ==> link == url && place == save_path && count == num_chunks),
{
}

/// Law: a new download starts from nothing: nothing of the previous one is kept, no file is owned,
/// and the server is asked about the given link for the given place.
pub proof fn law_new_downloads_start_from_nothing(
    old: Session,
    messages: Seq<WorkerMsg>,
    now: u64,
    new: Session,
    effect: Effect,
    url: String,
    save_path: FilePath,
    num_chunks: usize,
    target: TargetMode,
)
    requires
        old.session_id < u64::MAX,
        went_on(
            old,
            Stopped::Start { url, save_path, num_chunks, target },
            messages,
            now,
            new,
            effect,
        ),
    ensures
        new.session_id == old.session_id + 1,
        new.status is Connecting,
        new.current_url == url,
        new.current_path == save_path,
        new.current_num_chunks == num_chunks,
        new.downloaded() == 0,
        new.active_chunks@.len() == 0,
        new.file_info is None,
        !new.owns_target && !new.has_storage,
        new.duplicate is None,
        new.content_restarts == 0,
        new.current_speed == 0,
        new.snapshot.downloaded_bytes == 0,
        new.snapshot.url == url,
        effect matches Effect::Fetch { kind, saved } && saved is None && kind == (
        FetchInfoKind::Start { save_path, num_chunks, target }),
{
}

/// Law: whatever ends or replaces a run gives the session a new number, so that reports of the old
/// run are told apart; a pause and a failure keep it.
pub proof fn law_every_run_has_its_own_number(
    old: Session,
    next: Stopped,
    messages: Seq<WorkerMsg>,
    now: u64,
    new: Session,
    effect: Effect,
)
    requires
        old.session_id < u64::MAX,
        went_on(old, next, messages, now, new, effect),
    ensures
        next is Start || next is Resume || next is Cancel || next is Remove || next is Restart
            ==> new.session_id == old.session_id + 1,
        next is Pause || next is WorkerFailed ==> new.session_id == old.session_id,
        new.duplicate_preference == old.duplicate_preference,
{
}

/// Law: pausing acts on a running download only, resuming on a stopped one that can go on, and
/// cancelling always; none of them touches what is saved.
pub proof fn law_actions_need_a_fitting_state(
    old: Session,
    action: DownloadAction,
    new: Session,
    effect: Effect,
)
    requires
        action_handled(old, action, new, effect),
    ensures
        action is Pause && (old.status is Connecting || old.status is Downloading) ==> effect == (
        Effect::Stop { cancel: true, next: Stopped::Pause }),
        action is Pause && !(old.status is Connecting || old.status is Downloading)
            ==> effect is Nothing && new == old,
        action is Resume && (old.status is Paused || (old.status is Failed
            && old.snapshot.resumable)) ==> effect == (Effect::Stop {
            cancel: false,
            next: Stopped::Resume,
        }),
        action is Resume && !(old.status is Paused || (old.status is Failed
            && old.snapshot.resumable)) ==> effect is Nothing && new == old,
        action is Cancel ==> effect == (Effect::Stop { cancel: true, next: Stopped::Cancel }),
        (effect matches Effect::Stop { next, .. } && next is Cancel) ==> action is Cancel,
        (effect matches Effect::Stop { next, .. } && next is Pause) ==> action is Pause,
        action is Pause || action is Resume || action is Cancel || action is Remove
            || action is SetDuplicatePreference ==> new.active_chunks == old.active_chunks
            && new.file_info == old.file_info && new.owns_target == old.owns_target && new.status
            == old.status && new.session_id == old.session_id,
        action matches DownloadAction::SetDuplicatePreference { choice }
            ==> new.duplicate_preference == choice && effect is Nothing,
        !(action is SetDuplicatePreference) ==> new.duplicate_preference
            == old.duplicate_preference,
{
}

/// Law: a resumed download keeps every chunk and every byte, and where its file is open and fetched
/// in ranges all of it is handed over to be checked against the server first.
pub proof fn law_resuming_hands_over_everything_saved(
    old: Session,
    messages: Seq<WorkerMsg>,
    now: u64,
    new: Session,
    effect: Effect,
)
    requires
        old.wf(),
        went_on(old, Stopped::Resume, messages, now, new, effect),
    ensures
        new.active_chunks == old.active_chunks,
        new.file_info == old.file_info,
        new.status is Connecting,
        new.snapshot.downloaded_bytes == old.downloaded(),
        new.owns_target == old.owns_target,
        effect matches Effect::Fetch { kind, saved } && {
            &&& old.has_storage ==> kind is Resume
            &&& !old.has_storage ==> kind == (FetchInfoKind::Start {
                save_path: old.current_path,
                num_chunks: old.current_num_chunks,
                target: TargetMode::Ask,
            })
            &&& saved is Some <==> old.has_storage && old.in_ranges()
            &&& saved matches Some(held) ==> {
                &&& old.file_info == Some(held.info)
                &&& held.chunks@.len() == old.active_chunks@.len()
                &&& forall|i: int|
                    0 <= i < held.chunks@.len() ==> (#[trigger] held.chunks@[i]).0
                        == old.active_chunks@[i].range && held.chunks@[i].1
                        == old.active_chunks@[i].downloaded
            }
        },
{
    old.lemma_wf();
}

/// Law: with no report left in the queue, pausing changes no chunk, and the download is shown as
/// paused with all its bytes; it can be resumed where it is fetched in ranges or had not begun.
pub proof fn law_quiet_pauses_change_no_chunk(
    old: Session,
    now: u64,
    new: Session,
    effect: Effect,
)
    requires
        old.wf(),
        went_on(old, Stopped::Pause, Seq::empty(), now, new, effect),
    ensures
        effect is Nothing,
        new.active_chunks@ == old.active_chunks@,
        new.status is Paused,
        new.snapshot.status is Paused,
        new.snapshot.downloaded_bytes == old.downloaded(),
        new.snapshot.total_bytes == old.total(),
        new.current_speed == 0,
        old.in_ranges() || old.file_info is None ==> new.snapshot.resumable,
        new.owns_target == old.owns_target && new.has_storage == old.has_storage && new.file_info
            == old.file_info,
{
    old.lemma_wf();
}

/// Law: a cancelled download is dropped with everything that it knew.
pub proof fn law_cancelled_downloads_are_dropped(
    old: Session,
    messages: Seq<WorkerMsg>,
    now: u64,
    new: Session,
    effect: Effect,
)
    requires
        went_on(old, Stopped::Cancel, messages, now, new, effect),
    ensures
        effect is Nothing,
        new.status is Idle,
        new.snapshot.status is Idle,
        new.active_chunks@.len() == 0,
        new.file_info is None,
        !new.owns_target && !new.has_storage,
{
}

/// Law: a changed file is downloaded anew from nothing, at most twice and only once its target file
/// was emptied; otherwise the download fails.
pub proof fn law_changed_files_start_from_nothing(
    old: Session,
    new: Session,
    effect: Effect,
    reset: Result<(), CoordinatorError>,
    now: u64,
)
    requires
        restarted(old, new, effect, reset, now),
    ensures
        new.downloaded() == 0,
        new.file_info is None,
        new.snapshot.downloaded_bytes == 0,
        effect is Fetch <==> reset is Ok && old.content_restarts < 2,
        effect matches Effect::Fetch { kind, saved } ==> kind is Restart && saved is None
            && new.status is Connecting,
        !(effect is Fetch) ==> effect is Nothing && new.status is Failed && !new.snapshot.resumable,
{
}

/// Law: a changed file whose target is open is emptied before anything is fetched again.
pub proof fn law_changed_files_are_emptied_first(
    old: Session,
    messages: Seq<WorkerMsg>,
    now: u64,
    new: Session,
    effect: Effect,
)
    requires
        went_on(old, Stopped::Restart, messages, now, new, effect),
    ensures
        old.has_storage ==> effect is Reset,
        !old.has_storage ==> effect is Nothing && new.status is Failed,
        !(effect is Fetch),
{
}

} // verus!
