//! The regular pass: workers are rebalanced, stalls found, and the display refreshed.
use crate::engine::error::CoordinatorError;
use crate::engine::model::DownloadStatus;
use crate::engine::resume;
use crate::engine::scheduler;
use crate::engine::scheduler::{ActiveChunk, StallReport};
use crate::engine::session;
use crate::engine::session::{launches_for, Effect, Session, WorkerLaunch};
use vstd::prelude::*;

verus! {

/// The shortest time between two measurements of the speed, in nanoseconds.
pub const MIN_SPEED_INTERVAL: u64 = 50_000_000;

/// Whether the session's workers are scheduled.
pub open spec fn is_scheduled(session: Session) -> bool {
    session.status is Downloading && session.has_storage && session.in_ranges()
}

/// The time that is left at the current speed.
pub open spec fn eta(total: Option<u64>, downloaded: int, speed: u64) -> Option<u64> {
    match total {
        Some(total) => if speed > 0 && total > downloaded {
            Some(((total - downloaded) / speed as int) as u64)
        } else {
            None
        },
        None => None,
    }
}

/// The session after a chunk stalled with its retries used up.
pub open spec fn gave_up(old: Session, new: Session, effect: Effect, index: int) -> bool {
    &&& effect is Cancel
    &&& new.failed_with(
        (CoordinatorError::Stalled { chunk_id: old.active_chunks@[index].range.id }).shown(),
    )
    &&& new == (Session { status: new.status, current_speed: 0, ..old }).published(
        old.total(),
        old.downloaded(),
        old.in_ranges(),
    )
}

/// The time between two refreshes, where it is long enough to measure a speed.
pub open spec fn measured_interval(last_tick: u64, now: u64) -> Option<u64> {
    if now - last_tick > MIN_SPEED_INTERVAL {
        Some((now - last_tick) as u64)
    } else {
        None
    }
}

/// The session after a running download was shown, with a newly measured speed if there is one.
pub open spec fn refreshed(old: Session, measured_speed: Option<u64>, new: Session) -> bool {
    let speed = match measured_speed {
        Some(speed) => speed,
        None => old.current_speed,
    };
    let base = Session {
        current_speed: speed,
        bytes_since_last_tick: if measured_speed is Some {
            0
        } else {
            old.bytes_since_last_tick
        },
        ..old
    };
    new == (Session {
        snapshot: base.snapshot_of(
            base.total(),
            base.downloaded(),
            speed,
            eta(base.total(), base.downloaded(), speed),
            base.in_ranges(),
        ),
        ..base
    })
}

impl Session {
    /// Divides and hands out chunks; gives the workers to start.
    pub fn rebalance(&mut self, now: u64) -> (launches: Vec<WorkerLaunch>)
        requires
            old(self).wf(),
        ensures
            final(self).wf(),
            *final(self) == (Session {
                active_chunks: final(self).active_chunks,
                ..*old(self)
            }),
            final(self).downloaded() == old(self).downloaded(),
            !is_scheduled(*old(self)) ==> *final(self) == *old(self) && launches@.len() == 0,
            is_scheduled(*old(self)) ==> {
                let before = old(self).active_chunks@;
                let most = old(self).current_num_chunks as int;
                &&& final(self).active_chunks@ == scheduler::rebalanced(before, most, now)
                &&& resume::resumable_list(before, old(self).total()->0 as int)
                    ==> resume::resumable_list(
                    final(self).active_chunks@,
                    old(self).total()->0 as int,
                )
                &&& session::launches_chunks(
                    launches@,
                    scheduler::idle_ids(scheduler::divided(before, most, now)),
                    final(self).active_chunks@,
                    old(self).total()->0,
                    old(self).file_info->0@.resume_validator(),
                )
            },
    {
        if !self.status.is_downloading() || !self.has_storage || !self.is_range_download() {
            return Vec::new();
        }
        match &self.file_info {
            Some(info) => match info.content_length {
                Some(total) => {
                    let launched = scheduler::rebalance_chunks(
                        &mut self.active_chunks,
                        self.current_num_chunks,
                        total,
                        now,
                    );
                    launches_for(&launched, &self.active_chunks, info, total)
                },
                None => Vec::new(),
            },
            None => Vec::new(),
        }
    }

    /// The chunk whose worker is asked to hand its rest back for dividing, if any.
    pub fn split_request(&self) -> (r: Option<usize>)
        requires
            self.wf(),
        ensures
            r is Some ==> is_scheduled(*self) && self.file_info->0@.resume_validator() is Some
                && !scheduler::split_pending(self.active_chunks@) && scheduler::is_longest_rest(
                self.active_chunks@,
                r->0 as int,
            ) && self.active_chunks@[r->0 as int].live && scheduler::unfinished_count(
                self.active_chunks@,
            ) < (if self.current_num_chunks == 0 {
                1
            } else {
                self.current_num_chunks as int
            }),
            r is None ==> !is_scheduled(*self) || self.file_info->0@.resume_validator() is None
                || scheduler::split_pending(self.active_chunks@) || scheduler::unfinished_count(
                self.active_chunks@,
            ) >= (if self.current_num_chunks == 0 {
                1
            } else {
                self.current_num_chunks as int
            }) || (forall|i: int| #[trigger]
                scheduler::is_longest_rest(self.active_chunks@, i)
                    ==> !self.active_chunks@[i].live),
    {
        proof {
            self.lemma_wf();
        }
        if !self.status.is_downloading() || !self.has_storage || !self.is_range_download() {
            return None;
        }
        match &self.file_info {
            Some(info) => scheduler::split_candidate(
                &self.active_chunks,
                self.current_num_chunks,
                info.resume_validator().is_some(),
            ),
            None => None,
        }
    }

    /// Records that a chunk's worker was asked to hand its rest back for dividing.
    pub fn confirm_split(&mut self, index: usize)
        requires
            old(self).wf(),
            index < old(self).active_chunks@.len(),
        ensures
            final(self).wf(),
            final(self).active_chunks@ == old(self).active_chunks@.update(
                index as int,
                ActiveChunk {
                    split_requested: true,
                    ..old(self).active_chunks@[index as int]
                },
            ),
            *final(self) == (Session {
                active_chunks: final(self).active_chunks,
                ..*old(self)
            }),
    {
        let mut chunk = self.active_chunks[index];
        chunk.split_requested = true;
        proof {
            lemma_request_fits(*self, index as int, chunk);
        }
        self.active_chunks.set(index, chunk);
    }

    /// The chunks that made no progress for too long.
    pub fn stalled(&self, now: u64) -> (r: StallReport)
        requires
            self.wf(),
        ensures
            !is_scheduled(*self) ==> r.retry@.len() == 0 && r.exhausted is None,
            is_scheduled(*self) ==> {
                let list = self.active_chunks@;
                &&& r.exhausted matches Some(k) ==> k < list.len() && scheduler::is_exhausted(
                    list[k as int],
                    now,
                ) && forall|j: int|
                    0 <= j < k ==> !scheduler::is_exhausted(#[trigger] list[j], now)
                &&& r.exhausted is None ==> forall|j: int|
                    0 <= j < list.len() ==> !scheduler::is_exhausted(#[trigger] list[j], now)
                &&& r.retry@ == scheduler::stalled_ids(
                    match r.exhausted {
                        Some(k) => list.take(k as int),
                        None => list,
                    },
                    now,
                )
            },
            forall|x: int|
                0 <= x < r.retry@.len() ==> (#[trigger] r.retry@[x]) < self.active_chunks@.len()
                    && self.active_chunks@[r.retry@[x] as int].retries
                    < scheduler::MAX_CHUNK_RETRIES,
    {
        proof {
            self.lemma_wf();
        }
        if !self.status.is_downloading() || !self.has_storage || !self.is_range_download() {
            return StallReport { retry: Vec::new(), exhausted: None };
        }
        scheduler::find_stalled(&self.active_chunks, now)
    }

    /// Records that a stalled chunk's worker was asked to start over.
    pub fn confirm_retry(&mut self, index: usize)
        requires
            old(self).wf(),
            index < old(self).active_chunks@.len(),
            old(self).active_chunks@[index as int].retries < scheduler::MAX_CHUNK_RETRIES,
        ensures
            final(self).wf(),
            final(self).active_chunks@ == old(self).active_chunks@.update(
                index as int,
                ActiveChunk {
                    retry_requested: true,
                    ..old(self).active_chunks@[index as int]
                },
            ),
            *final(self) == (Session {
                active_chunks: final(self).active_chunks,
                ..*old(self)
            }),
    {
        let mut chunk = self.active_chunks[index];
        chunk.retry_requested = true;
        proof {
            lemma_request_fits(*self, index as int, chunk);
        }
        self.active_chunks.set(index, chunk);
    }

    /// Stops a session whose chunk stalled with its retries used up. It can be resumed.
    pub fn give_up_stalled(&mut self, index: usize) -> (effect: Effect)
        requires
            old(self).wf(),
            index < old(self).active_chunks@.len(),
        ensures
            final(self).wf(),
            gave_up(*old(self), *final(self), effect, index as int),
    {
        let error = CoordinatorError::Stalled { chunk_id: self.active_chunks[index].range.id };
        let total = self.total_size();
        let downloaded: u64 = self.downloaded_bytes();
        let in_ranges = self.is_range_download();
        self.status = DownloadStatus::Failed(error.message());
        self.current_speed = 0;
        self.publish(total, downloaded, 0, None, in_ranges);
        Effect::Cancel
    }

    /// The time since the display was last refreshed, where it is long enough to measure a speed.
    pub fn measure_interval(&mut self, now: u64) -> (r: Option<u64>)
        ensures
            *final(self) == (Session { last_tick: now, ..*old(self) }),
            r == measured_interval(old(self).last_tick, now),
    {
        let elapsed: u64 = now.saturating_sub(self.last_tick);
        self.last_tick = now;
        if elapsed > MIN_SPEED_INTERVAL {
            Some(elapsed)
        } else {
            None
        }
    }

    /// Shows a running download, with a newly measured speed if there is one.
    pub fn refresh(&mut self, measured_speed: Option<u64>)
        requires
            old(self).wf(),
        ensures
            final(self).wf(),
            refreshed(*old(self), measured_speed, *final(self)),
    {
        match measured_speed {
            Some(speed) => {
                self.bytes_since_last_tick = 0;
                self.current_speed = speed;
            },
            None => {},
        }
        let downloaded: u64 = self.downloaded_bytes();
        let total = self.total_size();
        let eta_seconds: Option<u64> = match total {
            Some(total) => if self.current_speed > 0 && total > downloaded {
                Some((total - downloaded) / self.current_speed)
            } else {
                None
            },
            None => None,
        };
        let in_ranges = self.is_range_download();
        let speed: u64 = self.current_speed;
        self.publish(total, downloaded, speed, eta_seconds, in_ranges);
    }
}

proof fn lemma_request_fits(session: Session, k: int, chunk: ActiveChunk)
    requires
        session.wf(),
        0 <= k < session.active_chunks@.len(),
        chunk.range == session.active_chunks@[k].range,
        chunk.downloaded == session.active_chunks@[k].downloaded,
        chunk.retries == session.active_chunks@[k].retries,
        chunk.retry_requested ==> session.active_chunks@[k].retry_requested || chunk.retries
            < scheduler::MAX_CHUNK_RETRIES,
    ensures
        session.file_info is Some,
        session::chunks_fit(session.active_chunks@.update(k, chunk), session.file_info->0),
{
    let list = session.active_chunks@;
    let new = list.update(k, chunk);
    let info = session.file_info->0;
    session.lemma_wf();
    assert(list[k].retries_ok());
    assert(scheduler::ranges(new) =~= scheduler::ranges(list));
    assert forall|i: int| 0 <= i < new.len() implies (#[trigger] new[i]).retries_ok() by {
        assert(list[i].retries_ok());
    }
    assert forall|i: int| 0 <= i < new.len() implies (#[trigger] new[i]).range.spec_size()
        <= u64::MAX by {
        assert(list[i].range.spec_size() <= u64::MAX);
    }
    if info@.uses_ranges() {
        assert forall|i: int| 0 <= i < new.len() implies (#[trigger] new[i]).downloaded
            <= new[i].range.spec_size() by {
            assert(list[i].downloaded <= list[i].range.spec_size());
        }
    } else {
        assert(list[k].downloaded == new[k].downloaded);
    }
}

/// Law: an estimate is shown exactly where the size is known, bytes are missing and the download
/// moves; at the current speed it is enough for all but less than a second's worth of the bytes that
/// are left.
pub proof fn law_remaining_time_fits_the_missing_bytes(
    total: Option<u64>,
    downloaded: u64,
    speed: u64,
)
    ensures
        eta(total, downloaded as int, speed) is Some <==> speed > 0 && (total matches Some(size)
            && size > downloaded),
        eta(total, downloaded as int, speed) matches Some(seconds) ==> seconds * speed <= total->0
            - downloaded < (seconds + 1) * speed,
{
    if speed > 0 && total is Some && total->0 > downloaded {
        let left = total->0 - downloaded;
        let s = left / speed as int;
        vstd::arithmetic::div_mod::lemma_fundamental_div_mod(left, speed as int);
        vstd::arithmetic::div_mod::lemma_mod_bound(left, speed as int);
        assert(0 <= s <= left && s * speed <= left < (s + 1) * speed) by (nonlinear_arith)
            requires
                left == speed * s + left % speed as int,
                0 <= left % speed as int,
                left % (speed as int) < speed,
                speed > 0,
                left >= 0,
        ;
    }
}

/// Law: at one speed, the estimate never grows as bytes arrive.
pub proof fn law_remaining_time_shrinks_with_progress(
    total: u64,
    earlier: u64,
    later: u64,
    speed: u64,
)
    requires
        earlier <= later,
    ensures
        eta(Some(total), earlier as int, speed) is Some && eta(Some(total), later as int, speed) is Some
            ==> eta(Some(total), later as int, speed)->0 <= eta(
            Some(total),
            earlier as int,
            speed,
        )->0,
{
    law_remaining_time_fits_the_missing_bytes(Some(total), earlier, speed);
    law_remaining_time_fits_the_missing_bytes(Some(total), later, speed);
    if eta(Some(total), earlier as int, speed) is Some && eta(Some(total), later as int, speed) is Some {
        let before = eta(Some(total), earlier as int, speed)->0;
        let after = eta(Some(total), later as int, speed)->0;
        assert(after <= before) by (nonlinear_arith)
            requires
                after * speed <= total - later,
                total - earlier < (before + 1) * speed,
                earlier <= later,
                speed > 0,
        ;
    }
}

/// Law: a running download is shown as it is: the bytes that its chunks hold, the size of its file,
/// the measured speed or else the last one, and the time that the missing bytes take at it.
pub proof fn law_the_display_follows_the_download(
    old: Session,
    measured_speed: Option<u64>,
    new: Session,
)
    requires
        old.wf(),
        refreshed(old, measured_speed, new),
    ensures
        new.snapshot.downloaded_bytes == scheduler::downloaded_sum(old.active_chunks@),
        new.snapshot.total_bytes == (match old.file_info {
            Some(info) => info.content_length,
            None => None,
        }),
        measured_speed matches Some(speed) ==> new.snapshot.speed_bytes_per_sec == speed
            && new.bytes_since_last_tick == 0,
        measured_speed is None ==> new.snapshot.speed_bytes_per_sec == old.current_speed
            && new.bytes_since_last_tick == old.bytes_since_last_tick,
        new.current_speed == new.snapshot.speed_bytes_per_sec,
        new.snapshot.status == old.status,
        new.snapshot.session_id == old.session_id,
        new.snapshot.url == old.current_url,
        new.snapshot.filename == old.current_filename,
        new.snapshot.save_path == old.current_path,
        new.active_chunks == old.active_chunks,
        new.status == old.status,
        new.snapshot.eta_seconds matches Some(seconds) ==> new.snapshot.total_bytes matches Some(
            total,
        ) && seconds * new.snapshot.speed_bytes_per_sec <= total - new.snapshot.downloaded_bytes < (
        seconds + 1) * new.snapshot.speed_bytes_per_sec,
        new.snapshot.eta_seconds is None ==> new.snapshot.speed_bytes_per_sec == 0
            || new.snapshot.total_bytes is None || new.snapshot.total_bytes->0
            <= new.snapshot.downloaded_bytes,
{
    old.lemma_wf();
    law_remaining_time_fits_the_missing_bytes(
        old.total(),
        old.downloaded() as u64,
        new.snapshot.speed_bytes_per_sec,
    );
}

/// Law: a speed is measured over the whole time since the last refresh, and only where that is more
/// than a twentieth of a second.
pub proof fn law_speeds_are_measured_over_the_whole_interval(last_tick: u64, now: u64)
    ensures
        measured_interval(last_tick, now) matches Some(elapsed) ==> last_tick + elapsed == now
            && elapsed > 50_000_000,
        measured_interval(last_tick, now) is None ==> now <= last_tick + 50_000_000,
{
}

/// Law: a download that gives up on a stalled chunk stops its workers, keeps every byte, and can be
/// resumed where it is fetched in ranges.
pub proof fn law_stalled_downloads_can_be_resumed(
    old: Session,
    new: Session,
    effect: Effect,
    index: int,
)
    requires
        old.wf(),
        gave_up(old, new, effect, index),
    ensures
        effect is Cancel,
        new.status is Failed && new.snapshot.status is Failed,
        new.active_chunks == old.active_chunks,
        new.snapshot.downloaded_bytes == old.downloaded(),
        new.snapshot.resumable == old.in_ranges(),
        new.current_speed == 0,
        new.session_id == old.session_id && new.owns_target == old.owns_target,
{
    old.lemma_wf();
}

/// Law: a worker is asked for the rest of its chunk only while the download runs in ranges under a
/// validator, a connection is free, and no other chunk was asked for; it is the chunk with the most
/// bytes left, at least half a mebibyte.
pub proof fn law_the_longest_rest_is_shared(session: Session, r: Option<usize>)
    requires
        session.wf(),
        call_ensures(Session::split_request, (&session,), r),
    ensures
        r matches Some(i) ==> {
            let list = session.active_chunks@;
            &&& session.status is Downloading && session.has_storage && session.in_ranges()
            &&& session.file_info->0@.resume_validator() is Some
            &&& i < list.len() && list[i as int].live && !list[i as int].is_done
            &&& list[i as int].range.spec_size() - list[i as int].downloaded >= 524288
            &&& forall|j: int| 0 <= j < list.len() ==> !(#[trigger] list[j]).split_requested
            &&& forall|j: int|
                0 <= j < list.len() && !(#[trigger] list[j]).is_done && !list[j].retry_requested
                    ==> list[j].range.spec_size() - list[j].downloaded
                    <= list[i as int].range.spec_size() - list[i as int].downloaded
            &&& scheduler::unfinished_count(list) < session.current_num_chunks
                || scheduler::unfinished_count(list) < 1
        },
{
    if r is Some {
        let i = r->0 as int;
        let list = session.active_chunks@;
        assert forall|j: int| 0 <= j < list.len() && !(#[trigger] list[j]).is_done
            && !list[j].retry_requested implies list[j].range.spec_size() - list[j].downloaded
            <= list[i].range.spec_size() - list[i].downloaded by {
            assert(scheduler::worth_splitting(list[j]) || list[j].remaining() < 2
                * scheduler::MIN_SPLIT_BYTES);
        }
        assert forall|j: int| 0 <= j < list.len() implies !(#[trigger] list[j]).split_requested by {
            if list[j].split_requested {
                assert(scheduler::split_pending(list));
            }
        }
    }
}

/// Law: workers are asked to start over, and a download gives up, only for chunks that miss bytes
/// and have not moved for at least five seconds; it gives up only after three retries.
pub proof fn law_only_stalled_chunks_start_over(session: Session, now: u64, r: StallReport)
    requires
        session.wf(),
        call_ensures(Session::stalled, (&session, now), r),
    ensures
        r.retry@.len() > 0 || r.exhausted is Some ==> session.status is Downloading
            && session.has_storage && session.in_ranges(),
        r.exhausted matches Some(k) ==> k < session.active_chunks@.len() && ({
            let chunk = session.active_chunks@[k as int];
            !chunk.is_done && chunk.retries >= 3 && chunk.last_progress + 5_000_000_000 <= now
        }),
        forall|x: int|
            0 <= x < r.retry@.len() ==> (#[trigger] r.retry@[x]) < session.active_chunks@.len()
                && session.active_chunks@[r.retry@[x] as int].live
                && !session.active_chunks@[r.retry@[x] as int].is_done
                && session.active_chunks@[r.retry@[x] as int].last_progress + 5_000_000_000 <= now,
{
    let list = session.active_chunks@;
    assert(session.active_chunks.len() == list.len());
    if is_scheduled(session) {
        let seen = match r.exhausted {
            Some(k) => list.take(k as int),
            None => list,
        };
        scheduler::law_exactly_the_stalled_workers_start_over(seen, now);
        assert forall|x: int| 0 <= x < r.retry@.len() implies (#[trigger] r.retry@[x]) < list.len()
            && list[r.retry@[x] as int].live && !list[r.retry@[x] as int].is_done && list[r.retry@[x] as int].last_progress
            + 5_000_000_000 <= now by {
            let i = r.retry@[x] as int;
            let ids = scheduler::stalled_ids(seen, now);
            assert(ids[x] == r.retry@[x]);
            assert(ids.contains(i as usize));
            assert(seen[i] == list[i]);
            assert(scheduler::is_stalled(seen[i], now));
        }
    }
}

} // verus!
