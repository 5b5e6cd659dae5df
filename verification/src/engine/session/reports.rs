//! What workers report to their session.
use crate::engine::error;
use crate::engine::error::CoordinatorError;
use crate::engine::model::DownloadStatus;
use crate::engine::progress;
use crate::engine::resume;
use crate::engine::resume::SavedDownload;
use crate::engine::scheduler;
use crate::engine::scheduler::ActiveChunk;
use crate::engine::session;
use crate::engine::session::actions;
use crate::engine::session::{Effect, FetchInfoKind, Session, Stopped};
use crate::engine::worker::{WorkerError, WorkerMsg};
use vstd::prelude::*;

verus! {

/// The bytes counted for the speed display, as many as fit.
pub open spec fn counted(bytes: u64, delta: u64) -> u64 {
    if bytes + delta > u64::MAX {
        u64::MAX
    } else {
        (bytes + delta) as u64
    }
}

/// The session after a worker's report made no sense.
pub open spec fn distrusted(old: Session, new: Session, effect: Effect, message: Seq<char>) -> bool {
    new.failed_with(message) && new == (Session {
        status: new.status,
        current_speed: 0,
        ..old
    }).published(old.total(), old.downloaded(), false) && effect is Cancel
}

/// Whether every chunk is done.
pub open spec fn all_done(list: Seq<ActiveChunk>) -> bool {
    list.len() > 0 && forall|i: int| 0 <= i < list.len() ==> (#[trigger] list[i]).is_done
}

/// A chunk that its worker handed back.
pub open spec fn handed_back(chunk: ActiveChunk) -> ActiveChunk {
    ActiveChunk {
        live: false,
        retries: if chunk.retry_requested {
            (chunk.retries + 1) as u8
        } else {
            chunk.retries
        },
        retry_requested: false,
        ..chunk
    }
}

/// Whether a failed chunk is tried again at once.
pub open spec fn tries_again(session: Session, chunk_id: usize, retryable: bool) -> bool {
    retryable && session.in_ranges() && chunk_id < session.active_chunks@.len()
        && session.active_chunks@[chunk_id as int].retry_allowed()
}

/// What a worker's report does to the session.
pub open spec fn report_handled(
    old: Session,
    msg: WorkerMsg,
    now: u64,
    new: Session,
    effect: Effect,
) -> bool {
    match msg {
        WorkerMsg::Progress { session_id, chunk_id, bytes_delta } => if session_id
            != old.session_id || !(old.status is Downloading) {
            new == old && effect is Nothing
        } else if progress::progress_valid(
            old.active_chunks@,
            chunk_id,
            bytes_delta,
            old.in_ranges(),
            old.total(),
        ) {
            new.active_chunks@ == progress::progressed(
                old.active_chunks@,
                chunk_id,
                bytes_delta,
                now,
            ) && new == (Session {
                active_chunks: new.active_chunks,
                bytes_since_last_tick: counted(old.bytes_since_last_tick, bytes_delta),
                ..old
            }) && effect is Nothing
        } else {
            distrusted(old, new, effect, "Worker reported invalid download progress"@)
        },
        WorkerMsg::Done { session_id, chunk_id } => if session_id != old.session_id || !(
        old.status is Downloading) {
            new == old && effect is Nothing
        } else if progress::done_valid(
            old.active_chunks@,
            chunk_id,
            old.in_ranges(),
            old.total(),
        ) {
            &&& new.active_chunks@ == progress::completed(old.active_chunks@, chunk_id)
            &&& new == (Session { active_chunks: new.active_chunks, ..old })
            &&& if all_done(new.active_chunks@) && old.file_info is Some && old.has_storage {
                effect matches Effect::Fetch { kind: FetchInfoKind::Complete, saved: Some(saved) }
                    && actions::saves(saved, new)
            } else {
                effect is Nothing
            }
        } else {
            distrusted(old, new, effect, "Worker completed before receiving its expected bytes"@)
        },
        WorkerMsg::Yielded { session_id, chunk_id } => if session_id != old.session_id || !(
        old.status is Downloading) || chunk_id >= old.active_chunks@.len() {
            new == old && effect is Nothing
        } else {
            new.active_chunks@ == old.active_chunks@.update(
                chunk_id as int,
                handed_back(old.active_chunks@[chunk_id as int]),
            ) && new == (Session { active_chunks: new.active_chunks, ..old })
                && effect is Nothing
        },
        WorkerMsg::Error { session_id, chunk_id, error, retryable } => if session_id
            != old.session_id || !(old.status is Downloading) {
            new == old && effect is Nothing
        } else if error.changed() {
            new == (Session { restart_required: true, ..old }) && effect is Nothing
        } else if tries_again(old, chunk_id, retryable) {
            let chunk = old.active_chunks@[chunk_id as int];
            new.active_chunks@ == old.active_chunks@.update(
                chunk_id as int,
                ActiveChunk { retries: (chunk.retries + 1) as u8, live: false, ..chunk },
            ) && new == (Session { active_chunks: new.active_chunks, ..old })
                && effect is Nothing
        } else {
            new == old && effect == (Effect::Stop {
                cancel: true,
                next: Stopped::WorkerFailed { chunk_id, error, retryable },
            })
        },
    }
}

/// Whether a stopped download can be continued after what its queued reports gave.
pub open spec fn mends(drained: Option<CoordinatorError>) -> bool {
    match drained {
        None => true,
        Some(CoordinatorError::Worker { source, .. }) => source.may_retry(),
        Some(_) => false,
    }
}

/// The session after a worker's error stopped it. The queued progress of the other chunks is kept.
pub open spec fn worker_stopped(
    old: Session,
    new: Session,
    chunk_id: usize,
    error: WorkerError,
    retryable: bool,
    messages: Seq<WorkerMsg>,
    now: u64,
) -> bool {
    let rules = progress::DrainRules {
        session_id: old.session_id,
        range_download: old.in_ranges(),
        total_size: old.total(),
        resumable: retryable,
        now,
    };
    let drained = progress::drain(old.active_chunks@, messages, rules);
    &&& new.active_chunks@ == drained.chunks
    &&& if drained.error matches Some(CoordinatorError::Worker { source, .. })
        && source.changed() {
        new == (Session { active_chunks: new.active_chunks, restart_required: true, ..old })
    } else {
        new.failed_with(error::stream_error(chunk_id as int, error.shown())) && new == (Session {
            active_chunks: new.active_chunks,
            status: new.status,
            current_speed: 0,
            ..old
        }).published(
            old.total(),
            scheduler::downloaded_sum(drained.chunks),
            retryable && mends(drained.error) && old.in_ranges(),
        )
    }
}

/// Reports change nothing where there are no chunks.
pub proof fn lemma_drain_empty(
    list: Seq<ActiveChunk>,
    msgs: Seq<WorkerMsg>,
    rules: progress::DrainRules,
)
    requires
        list.len() == 0,
    ensures
        progress::drain(list, msgs, rules).chunks == list,
    decreases msgs.len(),
{
    if msgs.len() > 0 {
        lemma_drain_empty(list, msgs.drop_last(), rules);
    }
}

/// A change of flags and retries keeps chunks in agreement with the description of their file.
proof fn lemma_flags_fit(
    session: Session,
    k: int,
    chunk: ActiveChunk,
)
    requires
        session.wf(),
        0 <= k < session.active_chunks@.len(),
        chunk.range == session.active_chunks@[k].range,
        chunk.downloaded == session.active_chunks@[k].downloaded,
        chunk.retries_ok(),
    ensures
        session.file_info is Some,
        session::chunks_fit(session.active_chunks@.update(k, chunk), session.file_info->0),
{
    let list = session.active_chunks@;
    let new = list.update(k, chunk);
    let info = session.file_info->0;
    session::lemma_chunks_fit(list, info);
    assert(scheduler::ranges(new) =~= scheduler::ranges(list));
    assert forall|i: int| 0 <= i < new.len() implies (#[trigger] new[i]).retries_ok() by {
        assert(list[i].retries_ok());
    }
    assert forall|i: int| 0 <= i < new.len() implies (#[trigger] new[i]).range.spec_size()
        <= u64::MAX by {
        assert(list[i].range.spec_size() <= u64::MAX);
    }
    if info@.uses_ranges() {
        assert forall|i: int| 0 <= i < new.len() implies (#[trigger] new[i]).downloaded
            <= new[i].range.spec_size() by {
            assert(list[i].downloaded <= list[i].range.spec_size());
        }
    } else {
        assert(list[k].downloaded == new[k].downloaded);
    }
}

fn every_done(list: &Vec<ActiveChunk>) -> (r: bool)
    ensures
        r == all_done(list@),
{
    if list.len() == 0 {
        return false;
    }
    let mut i: usize = 0;
    while i < list.len()
        invariant
            i <= list@.len(),
            forall|j: int| 0 <= j < i ==> (#[trigger] list@[j]).is_done,
        decreases list@.len() - i,
    {
        if !list[i].is_done {
            return false;
        }
        i += 1;
    }
    true
}

impl Session {
    fn distrust(&mut self, message: &str) -> (effect: Effect)
        requires
            old(self).wf(),
        ensures
            final(self).wf(),
            distrusted(*old(self), *final(self), effect, message@),
    {
        self.status = DownloadStatus::Failed(message.to_owned());
        self.current_speed = 0;
        let total = self.total_size();
        let downloaded: u64 = self.downloaded_bytes();
        self.publish(total, downloaded, 0, None, false);
        Effect::Cancel
    }

    /// Takes a worker's report.
    pub fn handle_worker(&mut self, msg: WorkerMsg, now: u64) -> (effect: Effect)
        requires
            old(self).wf(),
        ensures
            final(self).wf(),
            report_handled(*old(self), msg, now, *final(self), effect),
    {
        proof {
            self.lemma_wf();
        }
        match msg {
            WorkerMsg::Progress { session_id, chunk_id, bytes_delta } => {
                if session_id != self.session_id || !self.status.is_downloading() {
                    return Effect::Nothing;
                }
                let range_download = self.is_range_download();
                let total_size = self.total_size();
                proof {
                    if self.file_info is Some {
                        session::lemma_progress_fits(
                            self.active_chunks@,
                            self.file_info->0,
                            chunk_id,
                            bytes_delta,
                            now,
                        );
                    }
                }
                if !progress::record_progress(
                    &mut self.active_chunks,
                    chunk_id,
                    bytes_delta,
                    range_download,
                    total_size,
                    now,
                ) {
                    return self.distrust("Worker reported invalid download progress");
                }
                self.bytes_since_last_tick = self.bytes_since_last_tick.saturating_add(
                    bytes_delta,
                );
                Effect::Nothing
            },
            WorkerMsg::Done { session_id, chunk_id } => {
                if session_id != self.session_id || !self.status.is_downloading() {
                    return Effect::Nothing;
                }
                let range_download = self.is_range_download();
                let total_size = self.total_size();
                proof {
                    if self.file_info is Some {
                        session::lemma_progress_fits(
                            self.active_chunks@,
                            self.file_info->0,
                            chunk_id,
                            0,
                            now,
                        );
                    }
                }
                if !progress::record_done(
                    &mut self.active_chunks,
                    chunk_id,
                    range_download,
                    total_size,
                ) {
                    return self.distrust("Worker completed before receiving its expected bytes");
                }
                if every_done(&self.active_chunks) && self.has_storage {
                    match &self.file_info {
                        Some(info) => {
                            return Effect::Fetch {
                                kind: FetchInfoKind::Complete,
                                saved: Some(SavedDownload::new(info, &self.active_chunks)),
                            };
                        },
                        None => {},
                    }
                }
                Effect::Nothing
            },
            WorkerMsg::Yielded { session_id, chunk_id } => {
                if session_id != self.session_id || !self.status.is_downloading() || chunk_id
                    >= self.active_chunks.len() {
                    return Effect::Nothing;
                }
                let mut chunk = self.active_chunks[chunk_id];
                assert(self.active_chunks@[chunk_id as int].retries_ok());
                chunk.live = false;
                if chunk.retry_requested {
                    chunk.retries = chunk.retries + 1;
                    chunk.retry_requested = false;
                }
                proof {
                    lemma_flags_fit(*self, chunk_id as int, chunk);
                }
                self.active_chunks.set(chunk_id, chunk);
                Effect::Nothing
            },
            WorkerMsg::Error { session_id, chunk_id, error, retryable } => {
                if session_id != self.session_id || !self.status.is_downloading() {
                    return Effect::Nothing;
                }
                if error.is_content_changed() {
                    self.restart_required = true;
                    return Effect::Nothing;
                }
                if retryable && self.is_range_download() && chunk_id < self.active_chunks.len() {
                    let mut chunk = self.active_chunks[chunk_id];
                    assert(self.active_chunks@[chunk_id as int].retries_ok());
                    if chunk.can_retry() {
                        chunk.retries = chunk.retries + 1;
                        chunk.live = false;
                        proof {
                            lemma_flags_fit(*self, chunk_id as int, chunk);
                        }
                        self.active_chunks.set(chunk_id, chunk);
                        return Effect::Nothing;
                    }
                }
                Effect::Stop {
                    cancel: true,
                    next: Stopped::WorkerFailed { chunk_id, error, retryable },
                }
            },
        }
    }

    /// Ends a session that a worker's error stopped.
    pub fn stop_after_error(
        &mut self,
        chunk_id: usize,
        error: WorkerError,
        retryable: bool,
        messages: Vec<WorkerMsg>,
        now: u64,
    )
        requires
            old(self).wf(),
        ensures
            final(self).wf(),
            worker_stopped(
                *old(self),
                *final(self),
                chunk_id,
                error,
                retryable,
                messages@,
                now,
            ),
    {
        let range_download = self.is_range_download();
        let total_size = self.total_size();
        proof {
            self.lemma_wf();
            let rules = progress::DrainRules {
                session_id: self.session_id,
                range_download,
                total_size,
                resumable: retryable,
                now,
            };
            if self.file_info is Some {
                session::lemma_drain_fits(self.active_chunks@, self.file_info->0, messages@, rules);
            } else {
                lemma_drain_empty(self.active_chunks@, messages@, rules);
            }
        }
        let drained = progress::drain_cancelled_progress(
            messages,
            self.session_id,
            &mut self.active_chunks,
            range_download,
            total_size,
            retryable,
            now,
        );
        let mended = match &drained {
            Ok(()) => true,
            Err(failure) => {
                if failure.is_content_changed() {
                    self.restart_required = true;
                    return;
                }
                match failure {
                    CoordinatorError::Worker { source, .. } => source.is_retryable(),
                    _ => false,
                }
            },
        };
        self.status = DownloadStatus::Failed(error::stream_error_text(chunk_id, &error));
        self.current_speed = 0;
        let downloaded: u64 = self.downloaded_bytes();
        self.publish(total_size, downloaded, 0, None, retryable && mended && range_download);
    }
}

/// Law: reports of a session that was replaced change nothing.
pub proof fn law_stale_reports_change_nothing(
    old: Session,
    msg: WorkerMsg,
    now: u64,
    new: Session,
    effect: Effect,
)
    requires
        report_handled(old, msg, now, new, effect),
        match msg {
            WorkerMsg::Progress { session_id, .. } => session_id != old.session_id,
            WorkerMsg::Done { session_id, .. } => session_id != old.session_id,
            WorkerMsg::Yielded { session_id, .. } => session_id != old.session_id,
            WorkerMsg::Error { session_id, .. } => session_id != old.session_id,
        },
    ensures
        new == old,
        effect is Nothing,
{
}

/// Law: no report takes back a saved byte.
pub proof fn law_reports_never_lose_bytes(
    old: Session,
    msg: WorkerMsg,
    now: u64,
    new: Session,
    effect: Effect,
)
    requires
        old.wf(),
        report_handled(old, msg, now, new, effect),
    ensures
        new.downloaded() >= old.downloaded(),
{
    let list = old.active_chunks@;
    match msg {
        WorkerMsg::Progress { chunk_id, .. } => {
            let k = progress::position_of(list, chunk_id);
            if new.active_chunks@ != list {
                scheduler::lemma_downloaded_sum_update(list, k, new.active_chunks@[k]);
            }
        },
        WorkerMsg::Done { chunk_id, .. } => {
            let k = progress::position_of(list, chunk_id);
            if new.active_chunks@ != list {
                scheduler::lemma_downloaded_sum_update(list, k, new.active_chunks@[k]);
            }
        },
        WorkerMsg::Yielded { chunk_id, .. } => {
            if new.active_chunks@ != list {
                scheduler::lemma_downloaded_sum_update(
                    list,
                    chunk_id as int,
                    new.active_chunks@[chunk_id as int],
                );
            }
        },
        WorkerMsg::Error { chunk_id, .. } => {
            if new.active_chunks@ != list {
                scheduler::lemma_downloaded_sum_update(
                    list,
                    chunk_id as int,
                    new.active_chunks@[chunk_id as int],
                );
            }
        },
    }
}

/// Law: progress of the running session adds exactly the reported bytes, to its chunk and to the
/// speed display, or it is refused: then the download fails with every chunk as it was.
pub proof fn law_progress_adds_what_was_reported(
    old: Session,
    now: u64,
    new: Session,
    effect: Effect,
    chunk_id: usize,
    bytes_delta: u64,
)
    requires
        old.wf(),
        old.in_ranges(),
        old.status is Downloading,
        report_handled(
            old,
            WorkerMsg::Progress { session_id: old.session_id, chunk_id, bytes_delta },
            now,
            new,
            effect,
        ),
    ensures
        ({
            let list = old.active_chunks@;
            let fits = chunk_id < list.len() && list[chunk_id as int].downloaded + bytes_delta
                <= list[chunk_id as int].range.spec_size();
            &&& fits ==> {
                &&& effect is Nothing
                &&& new.status is Downloading
                &&& new.downloaded() == old.downloaded() + bytes_delta
                &&& new.active_chunks@[chunk_id as int].downloaded
                    == list[chunk_id as int].downloaded + bytes_delta
                &&& new.active_chunks@[chunk_id as int].last_progress == now
                &&& forall|i: int|
                    0 <= i < list.len() && i != chunk_id ==> (#[trigger] new.active_chunks@[i])
                        == list[i]
                &&& old.bytes_since_last_tick + bytes_delta <= u64::MAX
                    ==> new.bytes_since_last_tick == old.bytes_since_last_tick + bytes_delta
            }
            &&& !fits ==> {
                &&& effect is Cancel
                &&& new.status is Failed
                &&& !new.snapshot.resumable
                &&& new.active_chunks == old.active_chunks
            }
        }),
{
    let list = old.active_chunks@;
    let total = old.total()->0;
    progress::law_reports_are_held_to_their_range(list, total, chunk_id, bytes_delta, now);
    progress::law_reports_keep_the_partition(list, chunk_id, bytes_delta, total, now);
    if chunk_id < list.len() {
        let part = scheduler::ranges(list)[chunk_id as int];
        assert(part.start <= part.end < total);
    }
}

/// Law: a chunk counts as done only when all of its range is there; otherwise the download fails.
pub proof fn law_chunks_are_done_with_all_their_bytes(
    old: Session,
    now: u64,
    new: Session,
    effect: Effect,
    chunk_id: usize,
)
    requires
        old.wf(),
        old.in_ranges(),
        old.status is Downloading,
        report_handled(
            old,
            WorkerMsg::Done { session_id: old.session_id, chunk_id },
            now,
            new,
            effect,
        ),
    ensures
        ({
            let list = old.active_chunks@;
            let full = chunk_id < list.len() && list[chunk_id as int].downloaded
                == list[chunk_id as int].range.spec_size();
            &&& full ==> new.status is Downloading && new.active_chunks@[chunk_id as int].is_done
                && new.downloaded() == old.downloaded() && forall|i: int|
                0 <= i < list.len() && i != chunk_id ==> (#[trigger] new.active_chunks@[i])
                    == list[i]
            &&& !full ==> effect is Cancel && new.status is Failed && new.active_chunks
                == old.active_chunks
        }),
{
    let list = old.active_chunks@;
    let total = old.total()->0;
    progress::law_reports_are_held_to_their_range(list, total, chunk_id, 0, now);
    progress::law_reports_keep_the_partition(list, chunk_id, 0, total, now);
    if chunk_id < list.len() {
        let part = scheduler::ranges(list)[chunk_id as int];
        assert(part.start <= part.end < total);
    }
}

/// Law: whatever workers report, a download that could be resumed stays one: its chunks divide the
/// file, and the done ones are full.
pub proof fn law_reports_keep_downloads_resumable(
    old: Session,
    msg: WorkerMsg,
    now: u64,
    new: Session,
    effect: Effect,
)
    requires
        old.wf(),
        old.in_ranges(),
        resume::resumable_list(old.active_chunks@, old.total()->0 as int),
        new.wf(),
        report_handled(old, msg, now, new, effect),
    ensures
        resume::resumable_list(new.active_chunks@, old.total()->0 as int),
{
    let list = old.active_chunks@;
    let after = new.active_chunks@;
    let total = old.total()->0;
    match msg {
        WorkerMsg::Progress { chunk_id, bytes_delta, .. } => {
            progress::law_reports_are_held_to_their_range(list, total, chunk_id, bytes_delta, now);
            if chunk_id < list.len() {
                let part = scheduler::ranges(list)[chunk_id as int];
                assert(part.start <= part.end < total);
                assert(list[chunk_id as int].is_done ==> list[chunk_id as int].downloaded
                    == list[chunk_id as int].range.spec_size());
            }
        },
        WorkerMsg::Done { chunk_id, .. } => {
            progress::law_reports_are_held_to_their_range(list, total, chunk_id, 0, now);
            if chunk_id < list.len() {
                let part = scheduler::ranges(list)[chunk_id as int];
                assert(part.start <= part.end < total);
            }
        },
        _ => {},
    }
    assert(after.len() == list.len());
    assert forall|i: int| 0 <= i < after.len() && (#[trigger] after[i]).is_done implies after[i].downloaded
        == after[i].range.spec_size() by {
        assert(list[i].is_done ==> list[i].downloaded == list[i].range.spec_size());
    }
}

/// Law: the final check of a download fetched in ranges is asked for only once every byte of the
/// file is there, and it covers every chunk.
pub proof fn law_the_final_check_needs_every_byte(
    old: Session,
    msg: WorkerMsg,
    now: u64,
    new: Session,
    effect: Effect,
)
    requires
        old.wf(),
        old.in_ranges(),
        resume::resumable_list(old.active_chunks@, old.total()->0 as int),
        new.wf(),
        report_handled(old, msg, now, new, effect),
        effect is Fetch,
    ensures
        new.downloaded() == old.total()->0,
        msg is Done,
        forall|i: int|
            0 <= i < new.active_chunks@.len() ==> (#[trigger] new.active_chunks@[i]).is_done,
        effect matches Effect::Fetch { kind, saved: Some(held) } && kind is Complete
            && held.chunks@.len() == new.active_chunks@.len() && forall|i: int|
            0 <= i < held.chunks@.len() ==> (#[trigger] held.chunks@[i]).0
                == new.active_chunks@[i].range && held.chunks@[i].1
                == new.active_chunks@[i].downloaded,
{
    law_reports_keep_downloads_resumable(old, msg, now, new, effect);
    scheduler::law_full_chunks_hold_the_whole_file(new.active_chunks@, old.total()->0 as int);
}

/// Law: the final check is asked for as soon as the last chunk is done.
pub proof fn law_the_last_chunk_leads_to_the_final_check(
    old: Session,
    now: u64,
    new: Session,
    effect: Effect,
    chunk_id: usize,
)
    requires
        old.wf(),
        old.in_ranges(),
        old.has_storage,
        old.status is Downloading,
        report_handled(
            old,
            WorkerMsg::Done { session_id: old.session_id, chunk_id },
            now,
            new,
            effect,
        ),
        chunk_id < old.active_chunks@.len(),
        forall|i: int|
            0 <= i < old.active_chunks@.len() && i != chunk_id ==> (
            #[trigger] old.active_chunks@[i]).is_done,
        old.active_chunks@[chunk_id as int].downloaded
            == old.active_chunks@[chunk_id as int].range.spec_size(),
    ensures
        effect matches Effect::Fetch { kind, .. } && kind is Complete,
{
    let list = old.active_chunks@;
    law_chunks_are_done_with_all_their_bytes(old, now, new, effect, chunk_id);
    let total = old.total()->0;
    progress::law_reports_are_held_to_their_range(list, total, chunk_id, 0, now);
    assert forall|i: int| 0 <= i < new.active_chunks@.len() implies (
    #[trigger] new.active_chunks@[i]).is_done by {
        if i != chunk_id {
            assert(list[i].is_done);
        }
    }
}

/// Law: a chunk that its worker hands back or fails on keeps its range and its bytes and waits for
/// another worker; a failure, and a hand-back that was asked for because of a stall, use up a retry.
/// Where no retry is left the session stops with that failure, and a changed file starts over.
pub proof fn law_failed_chunks_keep_their_bytes(
    old: Session,
    msg: WorkerMsg,
    now: u64,
    new: Session,
    effect: Effect,
    chunk_id: usize,
)
    requires
        old.wf(),
        old.status is Downloading,
        chunk_id < old.active_chunks@.len(),
        report_handled(old, msg, now, new, effect),
    ensures
        ({
            let before = old.active_chunks@[chunk_id as int];
            let after = new.active_chunks@[chunk_id as int];
            &&& msg == (WorkerMsg::Yielded { session_id: old.session_id, chunk_id }) ==> {
                &&& effect is Nothing
                &&& !after.live && after.range == before.range && after.downloaded
                    == before.downloaded && after.is_done == before.is_done
                &&& after.split_requested == before.split_requested
                &&& !after.retry_requested
                &&& before.retry_requested ==> after.retries == before.retries + 1
                &&& !before.retry_requested ==> after.retries == before.retries
            }
            &&& msg matches WorkerMsg::Error { session_id, chunk_id: id, error, retryable } ==> (
            session_id == old.session_id && id == chunk_id ==> {
                &&& error.changed() ==> new.restart_required && effect is Nothing
                    && new.active_chunks == old.active_chunks
                &&& !error.changed() && retryable && old.in_ranges() && !before.is_done
                    && before.downloaded < before.range.spec_size() && before.retries < 3 ==> {
                    &&& effect is Nothing
                    &&& !after.live && after.range == before.range && after.downloaded
                        == before.downloaded
                    &&& after.retries == before.retries + 1
                    &&& new.status is Downloading
                }
                &&& !error.changed() && (!retryable || !old.in_ranges() || before.retries >= 3)
                    ==> effect == (Effect::Stop {
                    cancel: true,
                    next: Stopped::WorkerFailed { chunk_id, error, retryable },
                })
            })
        }),
{
    old.lemma_wf();
    assert(old.active_chunks@[chunk_id as int].retries_ok());
}

/// Law: a session that a worker's error stopped keeps every saved byte. It can be resumed only where
/// it is fetched in ranges and trying again may help, and it starts over exactly where a queued
/// report says that the file changed.
pub proof fn law_stopped_downloads_keep_their_bytes(
    old: Session,
    new: Session,
    chunk_id: usize,
    error: WorkerError,
    retryable: bool,
    messages: Seq<WorkerMsg>,
    now: u64,
)
    requires
        old.wf(),
        old.in_ranges(),
        new.wf(),
        worker_stopped(old, new, chunk_id, error, retryable, messages, now),
    ensures
        new.downloaded() >= old.downloaded(),
        progress::reports_change(messages, old.session_id) ==> new.restart_required,
        !new.restart_required ==> {
            &&& new.status is Failed
            &&& new.snapshot.downloaded_bytes == new.downloaded()
            &&& new.snapshot.total_bytes == old.total()
            &&& new.snapshot.resumable ==> retryable
            &&& messages.len() == 0 ==> new.snapshot.resumable == retryable
                && new.active_chunks@ == old.active_chunks@
        },
        new.session_id == old.session_id && new.owns_target == old.owns_target && new.has_storage
            == old.has_storage,
{
    let rules = progress::DrainRules {
        session_id: old.session_id,
        range_download: old.in_ranges(),
        total_size: old.total(),
        resumable: retryable,
        now,
    };
    progress::law_draining_keeps_partition_and_progress(
        old.active_chunks@,
        messages,
        rules,
        old.total()->0,
    );
    progress::law_changed_content_outweighs_other_failures(old.active_chunks@, messages, rules);
    new.lemma_wf();
}

} // verus!
