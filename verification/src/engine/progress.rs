//! What workers report, held against what was expected of them.
use crate::engine::chunks;
use crate::engine::error::CoordinatorError;
use crate::engine::scheduler;
use crate::engine::scheduler::ActiveChunk;
use crate::engine::worker::{WorkerError, WorkerMsg};
use vstd::prelude::*;

verus! {

/// The first position of a chunk with the id, or the length.
pub open spec fn position_of(list: Seq<ActiveChunk>, id: usize) -> int
    decreases list.len(),
{
    if list.len() == 0 || list[0].range.id == id {
        0
    } else {
        1 + position_of(list.drop_first(), id)
    }
}

proof fn lemma_position_is(list: Seq<ActiveChunk>, id: usize, k: int)
    requires
        0 <= k <= list.len(),
        forall|j: int| 0 <= j < k ==> (#[trigger] list[j]).range.id != id,
        k < list.len() ==> list[k].range.id == id,
    ensures
        position_of(list, id) == k,
    decreases list.len(),
{
    if k > 0 {
        assert(list[0].range.id != id);
        let rest = list.drop_first();
        assert(forall|j: int| 0 <= j < k - 1 ==> (#[trigger] rest[j]) == list[j + 1]);
        lemma_position_is(rest, id, k - 1);
    }
}

fn find_chunk(list: &Vec<ActiveChunk>, id: usize) -> (r: usize)
    ensures
        r == position_of(list@, id),
        r <= list@.len(),
{
    let mut i: usize = 0;
    while i < list.len() && list[i].range.id != id
        invariant
            i <= list@.len(),
            forall|j: int| 0 <= j < i ==> (#[trigger] list@[j]).range.id != id,
        decreases list@.len() - i,
    {
        i += 1;
    }
    proof {
        lemma_position_is(list@, id, i as int);
    }
    i
}

/// The bytes that a chunk may hold: its range, or the whole file where one stream fetches it.
pub open spec fn expected_size(chunk: ActiveChunk, range_download: bool, total_size: Option<u64>) -> Option<
    int,
> {
    if range_download {
        Some(chunk.range.spec_size())
    } else {
        match total_size {
            Some(total) => Some(total as int),
            None => None,
        }
    }
}

/// Whether a report of new bytes makes sense.
pub open spec fn progress_valid(
    list: Seq<ActiveChunk>,
    id: usize,
    delta: u64,
    range_download: bool,
    total_size: Option<u64>,
) -> bool {
    let k = position_of(list, id);
    &&& 0 <= k < list.len()
    &&& list[k].downloaded + delta <= u64::MAX
    &&& expected_size(list[k], range_download, total_size) matches Some(expected)
        ==> list[k].downloaded + delta <= expected
}

/// The chunks after a report of new bytes that makes sense.
pub open spec fn progressed(list: Seq<ActiveChunk>, id: usize, delta: u64, now: u64) -> Seq<
    ActiveChunk,
> {
    let k = position_of(list, id);
    list.update(
        k,
        ActiveChunk {
            downloaded: (list[k].downloaded + delta) as u64,
            last_progress: now,
            ..list[k]
        },
    )
}

/// Records new bytes of a chunk; a report that makes no sense is refused and changes nothing.
pub fn record_progress(
    list: &mut Vec<ActiveChunk>,
    chunk_id: usize,
    bytes_delta: u64,
    range_download: bool,
    total_size: Option<u64>,
    now: u64,
) -> (r: bool)
    requires
        scheduler::sized(old(list)@),
    ensures
        r == progress_valid(old(list)@, chunk_id, bytes_delta, range_download, total_size),
        r ==> final(list)@ == progressed(old(list)@, chunk_id, bytes_delta, now),
        !r ==> *final(list) == *old(list),
{
    let k: usize = find_chunk(list, chunk_id);
    if k == list.len() {
        return false;
    }
    let mut chunk = list[k];
    let downloaded: u64 = match chunk.downloaded.checked_add(bytes_delta) {
        Some(sum) => sum,
        None => {
            return false;
        },
    };
    let expected: Option<u64> = if range_download {
        Some(chunk.range.size())
    } else {
        total_size
    };
    match expected {
        Some(expected) => {
            if downloaded > expected {
                return false;
            }
        },
        None => {},
    }
    chunk.downloaded = downloaded;
    chunk.last_progress = now;
    list.set(k, chunk);
    true
}

/// Whether a report of completion agrees with the bytes received.
pub open spec fn done_valid(
    list: Seq<ActiveChunk>,
    id: usize,
    range_download: bool,
    total_size: Option<u64>,
) -> bool {
    let k = position_of(list, id);
    &&& 0 <= k < list.len()
    &&& expected_size(list[k], range_download, total_size) matches Some(expected)
        ==> list[k].downloaded == expected
}

/// The chunks after one is complete.
pub open spec fn completed(list: Seq<ActiveChunk>, id: usize) -> Seq<ActiveChunk> {
    let k = position_of(list, id);
    list.update(
        k,
        ActiveChunk {
            is_done: true,
            live: false,
            split_requested: false,
            retry_requested: false,
            ..list[k]
        },
    )
}

/// Records the completion of a chunk; one that does not hold its expected bytes is refused.
pub fn record_done(
    list: &mut Vec<ActiveChunk>,
    chunk_id: usize,
    range_download: bool,
    total_size: Option<u64>,
) -> (r: bool)
    requires
        scheduler::sized(old(list)@),
    ensures
        r == done_valid(old(list)@, chunk_id, range_download, total_size),
        r ==> final(list)@ == completed(old(list)@, chunk_id),
        !r ==> *final(list) == *old(list),
{
    let k: usize = find_chunk(list, chunk_id);
    if k == list.len() {
        return false;
    }
    let mut chunk = list[k];
    let expected: Option<u64> = if range_download {
        Some(chunk.range.size())
    } else {
        total_size
    };
    match expected {
        Some(expected) => {
            if chunk.downloaded != expected {
                return false;
            }
        },
        None => {},
    }
    chunk.is_done = true;
    chunk.live = false;
    chunk.split_requested = false;
    chunk.retry_requested = false;
    list.set(k, chunk);
    true
}

proof fn lemma_update_keeps_list(
    list: Seq<ActiveChunk>,
    k: int,
    chunk: ActiveChunk,
    total_size: int,
)
    requires
        scheduler::list_wf(list, total_size),
        0 <= k < list.len(),
        chunk.range == list[k].range,
        chunk.downloaded <= chunk.range.spec_size(),
        chunk.retries_ok(),
    ensures
        scheduler::list_wf(list.update(k, chunk), total_size),
{
    let new = list.update(k, chunk);
    assert(scheduler::ranges(new) =~= scheduler::ranges(list));
    assert forall|i: int| 0 <= i < new.len() implies (#[trigger] new[i]).downloaded
        <= new[i].range.spec_size() by {
        if i != k {
            assert(list[i].downloaded <= list[i].range.spec_size());
        }
    }
    assert forall|i: int| 0 <= i < new.len() implies (#[trigger] new[i]).retries_ok() by {
        if i != k {
            assert(list[i].retries_ok());
        }
    }
}

/// Law: recorded progress and completion of a range download keep the file divided without gaps
/// or overlaps, with no chunk holding more than its range.
pub proof fn law_reports_keep_the_partition(
    list: Seq<ActiveChunk>,
    id: usize,
    delta: u64,
    total_size: u64,
    now: u64,
)
    requires
        scheduler::list_wf(list, total_size as int),
    ensures
        progress_valid(list, id, delta, true, Some(total_size)) ==> scheduler::list_wf(
            progressed(list, id, delta, now),
            total_size as int,
        ) && scheduler::downloaded_sum(progressed(list, id, delta, now))
            == scheduler::downloaded_sum(list) + delta,
        done_valid(list, id, true, Some(total_size)) ==> scheduler::list_wf(
            completed(list, id),
            total_size as int,
        ) && scheduler::downloaded_sum(completed(list, id)) == scheduler::downloaded_sum(list),
{
    let k = position_of(list, id);
    if progress_valid(list, id, delta, true, Some(total_size)) {
        let chunk = progressed(list, id, delta, now)[k];
        assert(list[k].retries_ok());
        lemma_update_keeps_list(list, k, chunk, total_size as int);
        scheduler::lemma_downloaded_sum_update(list, k, chunk);
    }
    if done_valid(list, id, true, Some(total_size)) {
        let chunk = completed(list, id)[k];
        assert(list[k].retries_ok());
        lemma_update_keeps_list(list, k, chunk, total_size as int);
        scheduler::lemma_downloaded_sum_update(list, k, chunk);
    }
}

/// The chunks and the error of reports read so far.
pub struct Drained {
    pub chunks: Seq<ActiveChunk>,
    pub error: Option<CoordinatorError>,
}

/// The rules that queued reports are read by.
pub struct DrainRules {
    pub session_id: u64,
    pub range_download: bool,
    pub total_size: Option<u64>,
    pub resumable: bool,
    pub now: u64,
}

/// Whether a failed chunk can go on after a resume.
pub open spec fn resumes_after(list: Seq<ActiveChunk>, id: usize, retryable: bool, rules: DrainRules) -> bool {
    rules.resumable && retryable && id < list.len() && list[id as int].retry_allowed()
}

/// The first error stays.
pub open spec fn or_first(error: Option<CoordinatorError>, next: CoordinatorError) -> Option<
    CoordinatorError,
> {
    match error {
        Some(first) => Some(first),
        None => Some(next),
    }
}

/// What one more queued report adds: progress is kept, a failure that a resume does not mend is
/// kept, and a changed file outweighs every other failure. Reports of other sessions say nothing.
pub open spec fn drain_one(state: Drained, msg: WorkerMsg, rules: DrainRules) -> Drained {
    match msg {
        WorkerMsg::Progress { session_id, chunk_id, bytes_delta } => if session_id
            != rules.session_id {
            state
        } else if progress_valid(
            state.chunks,
            chunk_id,
            bytes_delta,
            rules.range_download,
            rules.total_size,
        ) {
            Drained {
                chunks: progressed(state.chunks, chunk_id, bytes_delta, rules.now),
                error: state.error,
            }
        } else {
            Drained {
                chunks: state.chunks,
                error: or_first(state.error, CoordinatorError::InvalidProgress),
            }
        },
        WorkerMsg::Error { session_id, chunk_id, error, retryable } => if session_id
            != rules.session_id {
            state
        } else if error.changed() {
            Drained {
                chunks: state.chunks,
                error: Some(CoordinatorError::Worker { chunk_id, source: error }),
            }
        } else if !resumes_after(state.chunks, chunk_id, retryable, rules) {
            Drained {
                chunks: state.chunks,
                error: or_first(
                    state.error,
                    CoordinatorError::Worker { chunk_id, source: error },
                ),
            }
        } else {
            state
        },
        _ => state,
    }
}

/// What the queued reports of a stopped session amount to.
pub open spec fn drain(list: Seq<ActiveChunk>, msgs: Seq<WorkerMsg>, rules: DrainRules) -> Drained
    decreases msgs.len(),
{
    if msgs.len() == 0 {
        Drained { chunks: list, error: None }
    } else {
        drain_one(drain(list, msgs.drop_last(), rules), msgs.last(), rules)
    }
}

proof fn lemma_drain_front(
    state: Drained,
    msgs: Seq<WorkerMsg>,
    rules: DrainRules,
)
    requires
        msgs.len() > 0,
    ensures
        drain_from(state, msgs, rules) == drain_from(
            drain_one(state, msgs[0], rules),
            msgs.drop_first(),
            rules,
        ),
    decreases msgs.len(),
{
    if msgs.len() > 1 {
        lemma_drain_front(state, msgs.drop_last(), rules);
        assert(msgs.drop_last().drop_first() =~= msgs.drop_first().drop_last());
        assert(msgs.drop_first().last() == msgs.last());
    } else {
        assert(msgs.drop_last() =~= Seq::<WorkerMsg>::empty());
        assert(msgs.drop_first() =~= Seq::<WorkerMsg>::empty());
        assert(msgs.last() == msgs[0]);
        assert(drain_from(state, msgs.drop_last(), rules) == state);
    }
}

/// What queued reports add to what was read before.
spec fn drain_from(state: Drained, msgs: Seq<WorkerMsg>, rules: DrainRules) -> Drained
    decreases msgs.len(),
{
    if msgs.len() == 0 {
        state
    } else {
        drain_one(drain_from(state, msgs.drop_last(), rules), msgs.last(), rules)
    }
}

proof fn lemma_drain_from_start(list: Seq<ActiveChunk>, msgs: Seq<WorkerMsg>, rules: DrainRules)
    ensures
        drain_from(Drained { chunks: list, error: None }, msgs, rules) == drain(list, msgs, rules),
    decreases msgs.len(),
{
    if msgs.len() > 0 {
        lemma_drain_from_start(list, msgs.drop_last(), rules);
    }
}

/// Recording progress changes no range.
proof fn lemma_progressed_ranges(list: Seq<ActiveChunk>, id: usize, delta: u64, now: u64)
    requires
        scheduler::sized(list),
        0 <= position_of(list, id) < list.len(),
    ensures
        scheduler::sized(progressed(list, id, delta, now)),
{
    let new = progressed(list, id, delta, now);
    assert forall|i: int| 0 <= i < new.len() implies (#[trigger] new[i]).range.spec_size()
        <= u64::MAX by {
        assert(list[i].range.spec_size() <= u64::MAX);
    }
}

/// Reads the reports that a stopped session still had queued. All committed progress is kept;
/// the first failure that a resume does not mend, or else a changed file, comes back.
pub fn drain_cancelled_progress(
    messages: Vec<WorkerMsg>,
    session_id: u64,
    list: &mut Vec<ActiveChunk>,
    range_download: bool,
    total_size: Option<u64>,
    resumable: bool,
    now: u64,
) -> (r: Result<(), CoordinatorError>)
    requires
        scheduler::sized(old(list)@),
    ensures
        ({
            let rules = DrainRules { session_id, range_download, total_size, resumable, now };
            let drained = drain(old(list)@, messages@, rules);
            &&& final(list)@ == drained.chunks
            &&& r == (match drained.error {
                Some(error) => Err::<(), CoordinatorError>(error),
                None => Ok(()),
            })
        }),
{
    let ghost rules = DrainRules { session_id, range_download, total_size, resumable, now };
    let ghost whole = drain(list@, messages@, rules);
    let mut queue = messages;
    let mut error: Option<CoordinatorError> = None;
    proof {
        lemma_drain_from_start(list@, queue@, rules);
    }
    while queue.len() > 0
        invariant
            scheduler::sized(list@),
            rules == (DrainRules { session_id, range_download, total_size, resumable, now }),
            drain_from(Drained { chunks: list@, error }, queue@, rules) == whole,
        decreases queue@.len(),
    {
        proof {
            lemma_drain_front(Drained { chunks: list@, error }, queue@, rules);
        }
        let ghost left = queue@;
        let msg = queue.remove(0);
        assert(queue@ =~= left.drop_first());
        match msg {
            WorkerMsg::Progress { session_id: sid, chunk_id, bytes_delta } => {
                if sid == session_id {
                    let ghost before = list@;
                    if record_progress(
                        list,
                        chunk_id,
                        bytes_delta,
                        range_download,
                        total_size,
                        now,
                    ) {
                        proof {
                            lemma_progressed_ranges(before, chunk_id, bytes_delta, now);
                        }
                    } else {
                        if error.is_none() {
                            error = Some(CoordinatorError::InvalidProgress);
                        }
                    }
                }
            },
            WorkerMsg::Error { session_id: sid, chunk_id, error: source, retryable } => {
                if sid == session_id {
                    let mends = resumable && retryable && chunk_id < list.len()
                        && list[chunk_id].can_retry();
                    if source.is_content_changed() {
                        error = Some(CoordinatorError::Worker { chunk_id, source });
                    } else if !mends {
                        if error.is_none() {
                            error = Some(CoordinatorError::Worker { chunk_id, source });
                        }
                    }
                }
            },
            _ => {},
        }
    }
    match error {
        Some(error) => Err(error),
        None => Ok(()),
    }
}

/// Law: reading queued reports of a range download keeps the file divided, and never loses a
/// downloaded byte, whatever the reports say.
pub proof fn law_draining_keeps_partition_and_progress(
    list: Seq<ActiveChunk>,
    msgs: Seq<WorkerMsg>,
    rules: DrainRules,
    total_size: u64,
)
    requires
        scheduler::list_wf(list, total_size as int),
        rules.range_download,
        rules.total_size == Some(total_size),
    ensures
        scheduler::list_wf(drain(list, msgs, rules).chunks, total_size as int),
        scheduler::downloaded_sum(drain(list, msgs, rules).chunks) >= scheduler::downloaded_sum(
            list,
        ),
        drain(list, msgs, rules).chunks.len() == list.len(),
    decreases msgs.len(),
{
    if msgs.len() > 0 {
        law_draining_keeps_partition_and_progress(list, msgs.drop_last(), rules, total_size);
        let before = drain(list, msgs.drop_last(), rules).chunks;
        match msgs.last() {
            WorkerMsg::Progress { session_id, chunk_id, bytes_delta } => {
                law_reports_keep_the_partition(
                    before,
                    chunk_id,
                    bytes_delta,
                    total_size,
                    rules.now,
                );
            },
            _ => {},
        }
    }
}

/// A changed file among the reports of a session is what draining them gives.
pub open spec fn reports_change(msgs: Seq<WorkerMsg>, session_id: u64) -> bool {
    exists|i: int|
        0 <= i < msgs.len() && (#[trigger] msgs[i] matches WorkerMsg::Error {
            session_id: sid,
            error,
            ..
        } && sid == session_id && error.changed())
}

/// Law: a queued report of changed content is never hidden by another failure.
pub proof fn law_changed_content_outweighs_other_failures(
    list: Seq<ActiveChunk>,
    msgs: Seq<WorkerMsg>,
    rules: DrainRules,
)
    ensures
        reports_change(msgs, rules.session_id) ==> (drain(list, msgs, rules).error matches Some(
            CoordinatorError::Worker { source, .. },
        ) && source.changed()),
    decreases msgs.len(),
{
    if msgs.len() > 0 {
        let rest = msgs.drop_last();
        law_changed_content_outweighs_other_failures(list, rest, rules);
        if reports_change(msgs, rules.session_id) {
            let i = choose|i: int|
                0 <= i < msgs.len() && (#[trigger] msgs[i] matches WorkerMsg::Error {
                    session_id: sid,
                    error,
                    ..
                } && sid == rules.session_id && error.changed());
            if i < rest.len() {
                assert(rest[i] == msgs[i]);
                assert(reports_change(rest, rules.session_id));
            }
        }
    }
}

/// Law: in a divided file a report reaches the chunk at its number, and a number past the last
/// chunk reaches none.
pub proof fn law_reports_reach_their_chunk(list: Seq<ActiveChunk>, total_size: int, id: usize)
    requires
        scheduler::partitioned(list, total_size),
    ensures
        id < list.len() ==> position_of(list, id) == id,
        id >= list.len() ==> position_of(list, id) == list.len(),
{
    let parts = scheduler::ranges(list);
    assert forall|j: int| 0 <= j < list.len() implies (#[trigger] list[j]).range.id == j by {
        assert(parts[j].id == j);
    }
    lemma_position_is(
        list,
        id,
        if id < list.len() {
            id as int
        } else {
            list.len() as int
        },
    );
}

/// Law: new bytes of a divided file are accepted exactly as long as they fit into the range of their
/// chunk, and a chunk is accepted as done exactly when it holds all of its range.
pub proof fn law_reports_are_held_to_their_range(
    list: Seq<ActiveChunk>,
    total_size: u64,
    id: usize,
    delta: u64,
    now: u64,
)
    requires
        scheduler::partitioned(list, total_size as int),
    ensures
        progress_valid(list, id, delta, true, Some(total_size)) <==> id < list.len() && list[id as int].range.start
            + list[id as int].downloaded + delta <= list[id as int].range.end + 1,
        done_valid(list, id, true, Some(total_size)) <==> id < list.len() && list[id as int].range.start
            + list[id as int].downloaded == list[id as int].range.end + 1,
        progress_valid(list, id, delta, true, Some(total_size)) ==> {
            let new = progressed(list, id, delta, now);
            &&& new.len() == list.len()
            &&& new[id as int].downloaded == list[id as int].downloaded + delta
            &&& new[id as int].range == list[id as int].range
            &&& new[id as int].last_progress == now
            &&& new[id as int].is_done == list[id as int].is_done
            &&& forall|i: int| 0 <= i < list.len() && i != id ==> (#[trigger] new[i]) == list[i]
        },
        done_valid(list, id, true, Some(total_size)) ==> {
            let new = completed(list, id);
            &&& new.len() == list.len()
            &&& new[id as int].is_done && !new[id as int].live
            &&& new[id as int].downloaded == list[id as int].downloaded
            &&& new[id as int].range == list[id as int].range
            &&& forall|i: int| 0 <= i < list.len() && i != id ==> (#[trigger] new[i]) == list[i]
        },
{
    law_reports_reach_their_chunk(list, total_size as int, id);
    if id < list.len() {
        let part = scheduler::ranges(list)[id as int];
        assert(part.start <= part.end < total_size);
    }
}

/// Law: a file that comes as one stream is done only with as many bytes as its server stated, and
/// never holds more.
pub proof fn law_streams_are_held_to_their_length(
    list: Seq<ActiveChunk>,
    total_size: u64,
    id: usize,
    delta: u64,
)
    requires
        list.len() == 1,
        list[0].range.id == id,
    ensures
        progress_valid(list, id, delta, false, Some(total_size)) <==> list[0].downloaded + delta
            <= total_size,
        done_valid(list, id, false, Some(total_size)) <==> list[0].downloaded == total_size,
        done_valid(list, id, false, None),
{
}

/// Law: a queued report counts once: progress that fits adds its bytes, a report of another session
/// adds nothing, and a failure is kept unless a changed file takes its place.
pub proof fn law_queued_reports_count_once(
    list: Seq<ActiveChunk>,
    msgs: Seq<WorkerMsg>,
    msg: WorkerMsg,
    rules: DrainRules,
    total_size: u64,
)
    requires
        scheduler::list_wf(list, total_size as int),
        rules.range_download,
        rules.total_size == Some(total_size),
    ensures
        ({
            let before = drain(list, msgs, rules);
            let after = drain(list, msgs.push(msg), rules);
            &&& msg matches WorkerMsg::Progress { session_id, chunk_id, bytes_delta } ==> {
                &&& session_id == rules.session_id && chunk_id < list.len()
                    && before.chunks[chunk_id as int].downloaded + bytes_delta
                    <= before.chunks[chunk_id as int].range.spec_size()
                    ==> scheduler::downloaded_sum(after.chunks) == scheduler::downloaded_sum(
                    before.chunks,
                ) + bytes_delta && after.error == before.error
                &&& session_id == rules.session_id && chunk_id < list.len()
                    && before.chunks[chunk_id as int].downloaded + bytes_delta
                    > before.chunks[chunk_id as int].range.spec_size() ==> after.chunks
                    == before.chunks && after.error is Some
                &&& session_id != rules.session_id ==> after == before
            }
            &&& !(msg is Progress) ==> after.chunks == before.chunks
            &&& msg matches WorkerMsg::Error { session_id, error, .. } ==> (session_id
                != rules.session_id ==> after == before)
            &&& before.error is Some ==> after.error == before.error || (
            after.error matches Some(CoordinatorError::Worker { source, .. }) && source.changed())
            &&& (msg matches WorkerMsg::Error { session_id, retryable, error, .. } && session_id
                == rules.session_id && !(retryable && rules.resumable)) ==> after.error is Some
            &&& (msg matches WorkerMsg::Error { session_id, chunk_id, error, retryable }
                && retryable && rules.resumable && !error.changed() && chunk_id < list.len()
                && before.chunks[chunk_id as int].retry_allowed()) ==> after.error == before.error
        }),
{
    let before = drain(list, msgs, rules);
    assert(msgs.push(msg).drop_last() =~= msgs);
    assert(msgs.push(msg).last() == msg);
    law_draining_keeps_partition_and_progress(list, msgs, rules, total_size);
    match msg {
        WorkerMsg::Progress { session_id, chunk_id, bytes_delta } => {
            law_reports_keep_the_partition(
                before.chunks,
                chunk_id,
                bytes_delta,
                total_size,
                rules.now,
            );
            law_reports_are_held_to_their_range(
                before.chunks,
                total_size,
                chunk_id,
                bytes_delta,
                rules.now,
            );
            if chunk_id < list.len() {
                let part = scheduler::ranges(before.chunks)[chunk_id as int];
                assert(part.start <= part.end < total_size);
            }
        },
        _ => {},
    }
}

} // verus!
