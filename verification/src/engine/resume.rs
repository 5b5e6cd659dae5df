//! Saved bytes: what may be continued, and what is compared first.
use crate::client::range;
use crate::client::{ClientError, RemoteFileInfo};
use crate::engine::chunks;
use crate::engine::chunks::{calculate_chunks, ChunkRange};
use crate::engine::scheduler;
use crate::engine::scheduler::{ActiveChunk, MAX_CHUNK_RETRIES};
use crate::engine::worker::{WorkerError, OVERLAP_BYTES};
use crate::text;
use vstd::prelude::*;

verus! {

/// Chunks that a download may continue from: they divide the file, none holds more than its
/// range, and a done one holds all of it.
pub open spec fn resumable_list(list: Seq<ActiveChunk>, total_size: int) -> bool {
    &&& list.len() > 0
    &&& scheduler::partitioned(list, total_size)
    &&& forall|i: int|
        0 <= i < list.len() && (#[trigger] list[i]).is_done ==> list[i].downloaded
            == list[i].range.spec_size()
}

proof fn lemma_size_sum_prefix(list: Seq<ChunkRange>, n: int)
    requires
        0 <= n <= list.len(),
    ensures
        0 <= chunks::size_sum(list.take(n)) <= chunks::size_sum(list),
    decreases list.len(),
{
    if n < list.len() {
        lemma_size_sum_prefix(list.drop_last(), n);
        assert(list.drop_last().take(n) =~= list.take(n));
    } else {
        assert(list.take(n) =~= list);
        if list.len() > 0 {
            let rest = list.drop_last();
            lemma_size_sum_prefix(rest, rest.len() as int);
            assert(rest.take(rest.len() as int) =~= rest);
        }
    }
}

/// Whether a download may continue from its saved chunks.
pub fn resume_chunks_are_valid(list: &Vec<ActiveChunk>, total_size: u64) -> (r: bool)
    ensures
        r == resumable_list(list@, total_size as int),
{
    if list.len() == 0 {
        return false;
    }
    let ghost parts = scheduler::ranges(list@);
    let mut sum: u64 = 0;
    let mut i: usize = 0;
    assert(parts.take(0) =~= Seq::<ChunkRange>::empty());
    while i < list.len()
        invariant
            i <= list@.len(),
            parts == scheduler::ranges(list@),
            sum == chunks::size_sum(parts.take(i as int)),
            sum <= total_size,
            forall|j: int|
                0 <= j < i ==> (#[trigger] parts[j]).id == j && parts[j].start <= parts[j].end
                    < total_size,
            forall|j: int|
                0 <= j < i ==> (#[trigger] list@[j]).downloaded <= list@[j].range.spec_size(),
            forall|j: int|
                0 <= j < i && (#[trigger] list@[j]).is_done ==> list@[j].downloaded
                    == list@[j].range.spec_size(),
        decreases list@.len() - i,
    {
        let chunk = list[i];
        assert(parts[i as int] == chunk.range);
        if chunk.range.id != i || chunk.range.end < chunk.range.start || chunk.range.end
            >= total_size {
            return false;
        }
        let size: u64 = chunk.range.end - chunk.range.start + 1;
        if chunk.downloaded > size || (chunk.is_done && chunk.downloaded != size) {
            assert(list@[i as int].downloaded == chunk.downloaded);
            return false;
        }
        proof {
            assert(parts.take(i + 1).drop_last() =~= parts.take(i as int));
            assert(parts.take(i + 1).last() == chunk.range);
            lemma_size_sum_prefix(parts, i + 1);
        }
        if size > total_size - sum {
            return false;
        }
        sum = sum + size;
        i += 1;
    }
    assert(parts.take(parts.len() as int) =~= parts);
    if sum != total_size {
        return false;
    }
    let mut a: usize = 0;
    while a < list.len()
        invariant
            a <= list@.len(),
            parts == scheduler::ranges(list@),
            forall|x: int, y: int|
                0 <= x < a && x < y < list@.len() ==> (#[trigger] parts[x]).end < (
                #[trigger] parts[y]).start || parts[y].end < parts[x].start,
        decreases list@.len() - a,
    {
        let mut b: usize = a + 1;
        while b < list.len()
            invariant
                a < list@.len(),
                a < b <= list@.len(),
                parts == scheduler::ranges(list@),
                forall|y: int|
                    a < y < b ==> parts[a as int].end < (#[trigger] parts[y]).start
                        || parts[y].end < parts[a as int].start,
            decreases list@.len() - b,
        {
            let first = list[a].range;
            let second = list[b].range;
            assert(parts[a as int] == first && parts[b as int] == second);
            if !(first.end < second.start || second.end < first.start) {
                return false;
            }
            b += 1;
        }
        a += 1;
    }
    true
}

/// The chunks of a file whose first `existing` bytes are saved.
pub open spec fn seeded(
    list: Seq<ActiveChunk>,
    existing: int,
    total: int,
    num_chunks: int,
    now: u64,
) -> bool {
    let saved = if existing > 0 {
        1int
    } else {
        0int
    };
    let count = if total > existing {
        chunks::chunk_count(total - existing, num_chunks)
    } else {
        0int
    };
    &&& list.len() == saved + count
    &&& existing > 0 ==> list.len() > 0 && list[0] == (ActiveChunk {
        downloaded: existing as u64,
        is_done: true,
        ..ActiveChunk::fresh(
            ChunkRange { id: 0, start: 0, end: (existing - 1) as u64 },
            now,
        )
    })
    &&& forall|i: int|
        saved <= i < list.len() ==> (#[trigger] list[i]) == ActiveChunk::fresh(
            ChunkRange {
                id: i as usize,
                start: (existing + chunks::chunk_start(total - existing, count, i - saved)) as u64,
                end: (existing + chunks::chunk_start(total - existing, count, i - saved + 1)
                    - 1) as u64,
            },
            now,
        )
}

/// Chunks for a file whose first `existing` bytes are already saved. The first one stands for
/// them, so that only the rest is requested.
pub fn seed_existing_prefix(existing: u64, total: u64, num_chunks: usize, now: u64) -> (r: Vec<
    ActiveChunk,
>)
    requires
        existing <= total,
    ensures
        seeded(r@, existing as int, total as int, num_chunks as int, now),
        scheduler::list_wf(r@, total as int),
        scheduler::downloaded_sum(r@) == existing,
        forall|i: int| 0 <= i < r@.len() ==> !(#[trigger] r@[i]).live,
{
    let mut r: Vec<ActiveChunk> = Vec::new();
    if existing > 0 {
        let mut prefix = ActiveChunk::new(
            ChunkRange { id: 0, start: 0, end: existing - 1 },
            now,
        );
        prefix.downloaded = existing;
        prefix.is_done = true;
        r.push(prefix);
        proof {
            let parts = scheduler::ranges(r@);
            assert(parts.drop_last() =~= Seq::<ChunkRange>::empty());
            assert(chunks::size_sum(parts.drop_last()) == 0);
            assert(parts.last() == prefix.range);
            assert(r@.drop_last() =~= Seq::<ActiveChunk>::empty());
            assert(scheduler::downloaded_sum(r@.drop_last()) == 0);
        }
    }
    let ghost saved = r@.len() as int;
    let rest = calculate_chunks(total - existing, num_chunks);
    let ghost k = rest@.len() as int;
    let ghost left = total - existing;
    proof {
        if k > 0 {
            chunks::lemma_chunk_step(left, k, 0);
        }
    }
    let mut i: usize = 0;
    while i < rest.len()
        invariant
            i <= rest@.len(),
            k == rest@.len(),
            left == total - existing,
            existing <= total,
            k > 0 ==> 1 <= k <= left,
            saved == (if existing > 0 {
                1int
            } else {
                0int
            }),
            r@.len() == saved + i,
            forall|j: int|
                0 <= j < k ==> {
                    &&& (#[trigger] rest@[j]).id == j
                    &&& rest@[j].start == chunks::chunk_start(left, k, j)
                    &&& rest@[j].end == chunks::chunk_start(left, k, j + 1) - 1
                },
            existing > 0 ==> r@[0] == (ActiveChunk {
                downloaded: existing,
                is_done: true,
                ..ActiveChunk::fresh(
                    ChunkRange { id: 0, start: 0, end: (existing - 1) as u64 },
                    now,
                )
            }),
            forall|j: int|
                saved <= j < r@.len() ==> (#[trigger] r@[j]) == ActiveChunk::fresh(
                    ChunkRange {
                        id: j as usize,
                        start: (existing + chunks::chunk_start(left, k, j - saved)) as u64,
                        end: (existing + chunks::chunk_start(left, k, j - saved + 1) - 1) as u64,
                    },
                    now,
                ),
            forall|j: int|
                0 <= j < r@.len() ==> {
                    let part = #[trigger] scheduler::ranges(r@)[j];
                    &&& part.id == j
                    &&& part.start <= part.end
                    &&& part.end < existing + (if k > 0 {
                        chunks::chunk_start(left, k, i as int)
                    } else {
                        0
                    })
                },
            chunks::disjoint(scheduler::ranges(r@)),
            chunks::size_sum(scheduler::ranges(r@)) == existing + (if k > 0 {
                chunks::chunk_start(left, k, i as int)
            } else {
                0
            }),
            scheduler::downloaded_sum(r@) == existing,
        decreases rest@.len() - i,
    {
        proof {
            chunks::lemma_chunk_step(left, k, i as int);
        }
        let part = rest[i];
        let ghost before = r@;
        let id: usize = r.len();
        let chunk = ActiveChunk::new(
            ChunkRange { id, start: part.start + existing, end: part.end + existing },
            now,
        );
        r.push(chunk);
        proof {
            let old_parts = scheduler::ranges(before);
            let parts = scheduler::ranges(r@);
            assert(parts =~= old_parts.push(chunk.range));
            assert(parts.drop_last() =~= old_parts);
            assert(r@.drop_last() =~= before);
            assert forall|x: int, y: int| 0 <= x < y < parts.len() implies (
            #[trigger] parts[x]).end < (#[trigger] parts[y]).start || parts[y].end
                < parts[x].start by {
                if y < old_parts.len() {
                    assert(old_parts[x].end < old_parts[y].start || old_parts[y].end
                        < old_parts[x].start);
                } else {
                    assert(old_parts[x].end < chunk.range.start);
                }
            }
        }
        i += 1;
    }
    proof {
        if k > 0 {
            chunks::lemma_chunk_step(left, k, k - 1);
        }
        let parts = scheduler::ranges(r@);
        assert(chunks::placed(parts, total as int));
        assert forall|j: int| 0 <= j < r@.len() implies (#[trigger] r@[j]).downloaded
            <= r@[j].range.spec_size() by {
            assert(parts[j] == r@[j].range);
        }
        assert forall|j: int| 0 <= j < r@.len() implies (#[trigger] r@[j]).retries_ok() by {
            assert(parts[j] == r@[j].range);
        }
        assert forall|j: int| 0 <= j < r@.len() implies !(#[trigger] r@[j]).live by {
            assert(parts[j] == r@[j].range);
        }
    }
    r
}

/// One chunk that holds every byte of a file of `total` bytes; an empty file needs none.
pub open spec fn completed_list(total: u64, now: u64) -> Seq<ActiveChunk> {
    if total == 0 {
        Seq::empty()
    } else {
        seq![
            ActiveChunk {
                downloaded: total,
                is_done: true,
                ..ActiveChunk::fresh(ChunkRange { id: 0, start: 0, end: (total - 1) as u64 }, now)
            },
        ]
    }
}

/// One chunk that holds every byte of a file that is already on disk.
pub fn completed_chunks(total: u64, now: u64) -> (r: Vec<ActiveChunk>)
    ensures
        r@ == completed_list(total, now),
        scheduler::list_wf(r@, total as int),
        scheduler::downloaded_sum(r@) == total,
{
    let mut r: Vec<ActiveChunk> = Vec::new();
    if total > 0 {
        let mut chunk = ActiveChunk::new(ChunkRange { id: 0, start: 0, end: total - 1 }, now);
        chunk.downloaded = total;
        chunk.is_done = true;
        r.push(chunk);
        proof {
            let parts = scheduler::ranges(r@);
            assert(parts.drop_last() =~= Seq::<ChunkRange>::empty());
            assert(chunks::size_sum(parts.drop_last()) == 0);
            assert(parts.last() == chunk.range);
            assert(r@.drop_last() =~= Seq::<ActiveChunk>::empty());
            assert(scheduler::downloaded_sum(r@.drop_last()) == 0);
        }
    }
    r
}

/// The chunks of a resumed download: each is taken again with its retries renewed. Completed ones
/// report again, so that pausing the final check can resume.
pub open spec fn revived(list: Seq<ActiveChunk>, now: u64) -> Seq<ActiveChunk> {
    list.map_values(
        |c: ActiveChunk| ActiveChunk { is_done: false, retries: 0, ..c }.taken(now),
    )
}

pub fn revive_chunks(list: &mut Vec<ActiveChunk>, now: u64)
    ensures
        final(list)@ == revived(old(list)@, now),
{
    let ghost start = list@;
    let mut i: usize = 0;
    while i < list.len()
        invariant
            i <= list@.len(),
            list@.len() == start.len(),
            forall|j: int| 0 <= j < i ==> (#[trigger] list@[j]) == revived(start, now)[j],
            forall|j: int| i <= j < list@.len() ==> (#[trigger] list@[j]) == start[j],
        decreases list@.len() - i,
    {
        let mut chunk = list[i];
        chunk.is_done = false;
        chunk.retries = 0;
        list.set(i, chunk.take(now));
        i += 1;
    }
    assert(list@ =~= revived(start, now));
}

/// Reviving chunks keeps the file divided and every saved byte.
pub proof fn lemma_revived(list: Seq<ActiveChunk>, now: u64, total_size: int)
    requires
        scheduler::partitioned(list, total_size),
    ensures
        scheduler::list_wf(revived(list, now), total_size),
        scheduler::downloaded_sum(revived(list, now)) == scheduler::downloaded_sum(list),
{
    let new = revived(list, now);
    assert(scheduler::ranges(new) =~= scheduler::ranges(list));
    assert forall|i: int| 0 <= i < new.len() implies (#[trigger] new[i]).downloaded
        <= new[i].range.spec_size() by {
        assert(list[i].downloaded <= list[i].range.spec_size());
    }
    assert forall|i: int| 0 <= i < new.len() implies (#[trigger] new[i]).retries_ok() by {}
    scheduler::lemma_same_downloads(list, new);
}

/// Saved bytes to compare with the remote file: several samples of one length.
pub struct Samples {
    pub starts: Vec<u64>,
    pub length: u64,
}

/// The length of a sample of `saved` bytes.
pub open spec fn sample_len(saved: int) -> int {
    if saved < OVERLAP_BYTES {
        saved
    } else {
        OVERLAP_BYTES as int
    }
}

/// Where the first and last sample of `saved` bytes from `start` begin.
pub open spec fn sample_starts(start: int, saved: int) -> Seq<u64> {
    if saved == 0 {
        Seq::empty()
    } else if sample_len(saved) == saved {
        seq![start as u64]
    } else {
        seq![start as u64, (start + saved - sample_len(saved)) as u64]
    }
}

fn first_and_last(start: u64, saved: u64) -> (r: Samples)
    requires
        start + saved <= u64::MAX,
    ensures
        r.starts@ == sample_starts(start as int, saved as int),
        r.length == sample_len(saved as int),
{
    let length: u64 = if saved < OVERLAP_BYTES {
        saved
    } else {
        OVERLAP_BYTES
    };
    let mut starts: Vec<u64> = Vec::new();
    if saved > 0 {
        starts.push(start);
        if saved > length {
            starts.push(start + saved - length);
        }
    }
    assert(starts@ =~= sample_starts(start as int, saved as int));
    Samples { starts, length }
}

/// The first and last saved bytes of an existing file.
pub fn prefix_samples(bytes: u64) -> (r: Samples)
    ensures
        r.starts@ == sample_starts(0, bytes as int),
        r.length == sample_len(bytes as int),
{
    first_and_last(0, bytes)
}

/// Law: samples lie inside the saved bytes and include the first and the last of them.
pub proof fn law_samples_span_the_saved_bytes(start: u64, saved: u64)
    requires
        start + saved <= u64::MAX,
        saved > 0,
    ensures
        sample_starts(start as int, saved as int).len() > 0,
        sample_starts(start as int, saved as int)[0] == start,
        sample_starts(start as int, saved as int).last() + sample_len(saved as int) == start
            + saved,
        forall|i: int|
            0 <= i < sample_starts(start as int, saved as int).len() ==> start <= (
            #[trigger] sample_starts(start as int, saved as int)[i]) && sample_starts(
                start as int,
                saved as int,
            )[i] + sample_len(saved as int) <= start + saved,
{
}

/// What the latest description says about a saved download.
#[derive(Debug, Clone, Copy, PartialEq, Eq, Structural)]
pub enum SavedCheck {
    /// The remote file is another one, or ranges are no longer served.
    Changed,
    /// A strong entity tag vouches for the saved bytes.
    Vouched,
    /// The saved bytes are compared by samples.
    Compare,
}

/// A download as it was when its session stopped.
pub struct SavedDownload {
    pub info: RemoteFileInfo,
    pub chunks: Vec<(ChunkRange, u64)>,
}

/// The ranges of chunks with the bytes that they hold.
pub open spec fn saved_progress(list: Seq<ActiveChunk>) -> Seq<(ChunkRange, u64)> {
    list.map_values(|c: ActiveChunk| (c.range, c.downloaded))
}

/// Whether the progress of a saved chunk lies in its range and in the file.
pub open spec fn progress_fits(part: ChunkRange, downloaded: u64, total_size: u64) -> bool {
    part.start + downloaded <= total_size && part.start + downloaded - 1 <= part.end
}

impl SavedDownload {
    pub fn new(info: &RemoteFileInfo, list: &Vec<ActiveChunk>) -> (r: SavedDownload)
        ensures
            r.info == *info,
            r.chunks@ == saved_progress(list@),
    {
        let mut saved: Vec<(ChunkRange, u64)> = Vec::new();
        let mut i: usize = 0;
        while i < list.len()
            invariant
                i <= list@.len(),
                saved@.len() == i,
                forall|j: int| 0 <= j < i ==> (#[trigger] saved@[j]) == saved_progress(list@)[j],
            decreases list@.len() - i,
        {
            saved.push((list[i].range, list[i].downloaded));
            i += 1;
        }
        assert(saved@ =~= saved_progress(list@));
        SavedDownload { info: info.copy(), chunks: saved }
    }

    /// Holds the latest description against the saved one.
    pub fn check(&self, latest: &RemoteFileInfo) -> (r: SavedCheck)
        ensures
            r == (if !latest@.uses_ranges() || !self.info@.metadata_matches(latest@) {
                SavedCheck::Changed
            } else if range::strong_validator(latest@.etag) {
                SavedCheck::Vouched
            } else {
                SavedCheck::Compare
            }),
    {
        if !latest.uses_range_workers() || !self.info.resume_metadata_matches(latest) {
            SavedCheck::Changed
        } else if range::has_strong_validator(text::option_str(&latest.etag)) {
            SavedCheck::Vouched
        } else {
            SavedCheck::Compare
        }
    }

    /// The samples to compare for one saved chunk: its first and last bytes are a consistency
    /// heuristic, not a proof of the whole file.
    pub fn samples_of(&self, index: usize, total_size: u64) -> (r: Result<Samples, WorkerError>)
        requires
            index < self.chunks@.len(),
        ensures
            ({
                let (part, downloaded) = self.chunks@[index as int];
                &&& r is Ok <==> downloaded == 0 || progress_fits(part, downloaded, total_size)
                &&& r matches Ok(samples) ==> samples.starts@ == sample_starts(
                    part.start as int,
                    downloaded as int,
                ) && samples.length == sample_len(downloaded as int)
                &&& r matches Err(error) ==> error matches WorkerError::InvalidRange(reason)
                    && reason@ == "Invalid saved chunk progress"@
            }),
    {
        let (part, downloaded) = self.chunks[index];
        if downloaded == 0 {
            return Ok(Samples { starts: Vec::new(), length: 0 });
        }
        if downloaded > u64::MAX - part.start {
            return Err(WorkerError::InvalidRange("Invalid saved chunk progress"));
        }
        let end: u64 = part.start + downloaded;
        if end > total_size || end - 1 > part.end {
            return Err(WorkerError::InvalidRange("Invalid saved chunk progress"));
        }
        Ok(first_and_last(part.start, downloaded))
    }
}

/// Law: the progress of every chunk of a divided file can be sampled, so that a saved download
/// is never refused for its own bookkeeping.
pub proof fn law_partitions_can_always_be_sampled(list: Seq<ActiveChunk>, total_size: u64, i: int)
    requires
        scheduler::partitioned(list, total_size as int),
        0 <= i < list.len(),
    ensures
        saved_progress(list)[i].1 == 0 || progress_fits(
            saved_progress(list)[i].0,
            saved_progress(list)[i].1,
            total_size,
        ),
{
    assert(scheduler::ranges(list)[i].end < total_size);
    assert(list[i].downloaded <= list[i].range.spec_size());
}

/// Whether the final check of a download needs the server's latest description: not where the
/// whole file came as one stream, nor where a strong entity tag held all along.
pub fn needs_latest_info(is_final_check: bool, saved: Option<&SavedDownload>) -> (r: bool)
    ensures
        r == !(is_final_check && (saved matches Some(saved) && (!saved.info@.uses_ranges()
            || range::strong_validator(saved.info@.etag)))),
{
    match saved {
        Some(saved) => !(is_final_check && (!saved.info.uses_range_workers()
            || range::has_strong_validator(text::option_str(&saved.info.etag)))),
        None => true,
    }
}

/// Whether a failed description of a saved download is asked for again.
pub fn retries_fetch(has_saved: bool, retries: u8, error: &WorkerError) -> (r: bool)
    ensures
        r == (has_saved && retries < MAX_CHUNK_RETRIES && error.may_retry()),
{
    has_saved && retries < MAX_CHUNK_RETRIES && error.is_retryable()
}

/// The error for a saved download whose remote file is another one.
pub fn content_changed() -> (r: WorkerError)
    ensures
        r == WorkerError::Client(ClientError::ContentChanged),
        r.changed(),
{
    WorkerError::Client(ClientError::ContentChanged)
}

proof fn lemma_count_update(list: Seq<ActiveChunk>, i: int, chunk: ActiveChunk)
    requires
        0 <= i < list.len(),
        chunk.is_done == list[i].is_done,
    ensures
        scheduler::unfinished_count(list.update(i, chunk)) == scheduler::unfinished_count(list),
    decreases list.len(),
{
    let new = list.update(i, chunk);
    if i == list.len() - 1 {
        assert(new.drop_last() =~= list.drop_last());
    } else {
        lemma_count_update(list.drop_last(), i, chunk);
        assert(new.drop_last() =~= list.drop_last().update(i, chunk));
    }
}

proof fn lemma_same_count(a: Seq<ActiveChunk>, b: Seq<ActiveChunk>)
    requires
        a.len() == b.len(),
        forall|i: int| 0 <= i < a.len() ==> (#[trigger] a[i]).is_done == b[i].is_done,
    ensures
        scheduler::unfinished_count(a) == scheduler::unfinished_count(b),
    decreases a.len(),
{
    if a.len() > 0 {
        assert forall|i: int| 0 <= i < a.len() - 1 implies (#[trigger] a.drop_last()[i]).is_done
            == b.drop_last()[i].is_done by {
            assert(a[i].is_done == b[i].is_done);
        }
        lemma_same_count(a.drop_last(), b.drop_last());
        assert(a[a.len() - 1].is_done == b[b.len() - 1].is_done);
    }
}

/// Dividing a chunk adds an unfinished one.
pub proof fn lemma_split_counts(list: Seq<ActiveChunk>, i: int, now: u64)
    requires
        0 <= i < list.len(),
        scheduler::splittable(list[i]),
    ensures
        scheduler::unfinished_count(scheduler::split_list(list, i, now))
            == scheduler::unfinished_count(list) + 1,
{
    let new = scheduler::split_list(list, i, now);
    lemma_count_update(list, i, new[i]);
    assert(new.drop_last() =~= list.update(i, new[i]));
}

/// Dividing a chunk keeps a download resumable.
pub proof fn lemma_split_is_resumable(
    list: Seq<ActiveChunk>,
    i: int,
    now: u64,
    total_size: int,
)
    requires
        resumable_list(list, total_size),
        0 <= i < list.len() <= usize::MAX,
        scheduler::splittable(list[i]),
    ensures
        resumable_list(scheduler::split_list(list, i, now), total_size),
        scheduler::downloaded_sum(scheduler::split_list(list, i, now))
            == scheduler::downloaded_sum(list),
{
    let new = scheduler::split_list(list, i, now);
    scheduler::law_splitting_keeps_partition_and_progress(list, i, now, total_size);
    assert forall|j: int| 0 <= j < new.len() && (#[trigger] new[j]).is_done implies new[j].downloaded
        == new[j].range.spec_size() by {
        if j < list.len() && j != i {
            assert(new[j] == list[j]);
        }
    }
}

proof fn lemma_pass_is_resumable(
    list: Seq<ActiveChunk>,
    i: int,
    n: int,
    max_workers: int,
    now: u64,
    total_size: int,
)
    requires
        resumable_list(list, total_size),
        0 <= i,
        n <= list.len(),
        scheduler::split_pass(
            list,
            i,
            n,
            scheduler::unfinished_count(list),
            max_workers,
            now,
        ).len() <= usize::MAX,
    ensures
        ({
            let unfinished = scheduler::unfinished_count(list);
            let new = scheduler::split_pass(list, i, n, unfinished, max_workers, now);
            &&& resumable_list(new, total_size)
            &&& scheduler::downloaded_sum(new) == scheduler::downloaded_sum(list)
            &&& scheduler::unfinished_count(new) <= unfinished || scheduler::unfinished_count(new)
                <= max_workers
        }),
    decreases n - i,
{
    let unfinished = scheduler::unfinished_count(list);
    scheduler::lemma_split_pass_grows(list, i, n, unfinished, max_workers, now);
    if i < n {
        if scheduler::splits_at(list, i, unfinished, max_workers) {
            lemma_split_counts(list, i, now);
            lemma_split_is_resumable(list, i, now, total_size);
            lemma_pass_is_resumable(
                scheduler::split_list(list, i, now),
                i + 1,
                n,
                max_workers,
                now,
                total_size,
            );
        } else {
            lemma_pass_is_resumable(list, i + 1, n, max_workers, now, total_size);
        }
    }
}

/// Workers taking idle chunks keep a download resumable and as many chunks unfinished.
pub proof fn lemma_taken_is_resumable(parts: Seq<ActiveChunk>, now: u64, total_size: int)
    ensures
        scheduler::unfinished_count(scheduler::taken_list(parts, now))
            == scheduler::unfinished_count(parts),
        resumable_list(parts, total_size) ==> resumable_list(
            scheduler::taken_list(parts, now),
            total_size,
        ),
{
    let new = scheduler::taken_list(parts, now);
    lemma_same_count(parts, new);
    if resumable_list(parts, total_size) {
        scheduler::lemma_taken_list(parts, now, total_size);
        assert forall|i: int|
            0 <= i < new.len() && (#[trigger] new[i]).is_done implies new[i].downloaded
            == new[i].range.spec_size() by {
            assert(parts[i].is_done);
        }
    }
}

/// Law: a pass of the scheduler keeps a download resumable and every byte of it, and never leaves
/// more unfinished chunks than there were or than workers may run, as long as its chunks can be
/// numbered.
pub proof fn law_rebalancing_keeps_downloads_resumable(
    list: Seq<ActiveChunk>,
    max_workers: int,
    now: u64,
    total_size: int,
)
    requires
        resumable_list(list, total_size),
        scheduler::rebalanced(list, max_workers, now).len() <= usize::MAX,
    ensures
        resumable_list(scheduler::rebalanced(list, max_workers, now), total_size),
        scheduler::downloaded_sum(scheduler::rebalanced(list, max_workers, now))
            == scheduler::downloaded_sum(list),
        ({
            let after = scheduler::unfinished_count(scheduler::rebalanced(list, max_workers, now));
            after <= scheduler::unfinished_count(list) || after <= max_workers || after <= 1
        }),
{
    let most = if max_workers < 1 {
        1
    } else {
        max_workers
    };
    lemma_pass_is_resumable(list, 0, list.len() as int, most, now, total_size);
    let parts = scheduler::divided(list, max_workers, now);
    scheduler::lemma_taken_list(parts, now, total_size);
    lemma_taken_is_resumable(parts, now, total_size);
}

/// Law: asking a worker for the rest of its chunk keeps a download resumable, with all its bytes
/// and as many unfinished chunks.
pub proof fn law_requests_keep_downloads_resumable(
    list: Seq<ActiveChunk>,
    index: int,
    split_requested: bool,
    retry_requested: bool,
    total_size: int,
)
    requires
        resumable_list(list, total_size),
        0 <= index < list.len(),
    ensures
        ({
            let asked = ActiveChunk { split_requested, retry_requested, ..list[index] };
            let new = list.update(index, asked);
            &&& resumable_list(new, total_size)
            &&& scheduler::downloaded_sum(new) == scheduler::downloaded_sum(list)
            &&& scheduler::unfinished_count(new) == scheduler::unfinished_count(list)
        }),
{
    let asked = ActiveChunk { split_requested, retry_requested, ..list[index] };
    let new = list.update(index, asked);
    assert(scheduler::ranges(new) =~= scheduler::ranges(list));
    assert forall|i: int| 0 <= i < new.len() implies (#[trigger] new[i]).downloaded
        <= new[i].range.spec_size() by {
        assert(list[i].downloaded <= list[i].range.spec_size());
    }
    assert forall|i: int| 0 <= i < new.len() && (#[trigger] new[i]).is_done implies new[i].downloaded
        == new[i].range.spec_size() by {
        assert(list[i].is_done);
    }
    scheduler::lemma_same_downloads(list, new);
    lemma_same_count(list, new);
}

/// Law: a file that is on disk in full counts as fetched in full: one finished chunk holds its
/// first and its last byte and nothing beyond.
pub proof fn law_files_on_disk_are_finished(total: u64, now: u64)
    requires
        total > 0,
    ensures
        completed_list(total, now).len() == 1,
        completed_list(total, now)[0].range.start == 0,
        completed_list(total, now)[0].range.end + 1 == total,
        completed_list(total, now)[0].downloaded == total,
        completed_list(total, now)[0].remaining() == 0,
        completed_list(total, now)[0].is_done,
        !completed_list(total, now)[0].live,
{
}

} // verus!
