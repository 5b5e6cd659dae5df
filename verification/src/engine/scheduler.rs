//! Chunks in progress: which worker fetches what, and when a range is divided again.
use crate::engine::chunks;
use crate::engine::chunks::{calculate_chunks, ChunkRange};
use crate::engine::resume;
use vstd::prelude::*;

verus! {

/// The smallest part that a divided range is given.
pub const MIN_SPLIT_BYTES: u64 = 262144;

/// How often a chunk is tried again.
pub const MAX_CHUNK_RETRIES: u8 = 3;

/// How long a chunk may make no progress, in nanoseconds.
pub const STALL_TIMEOUT: u64 = 5_000_000_000;

/// A chunk with the state of its download.
#[derive(Debug, Clone, Copy, PartialEq, Eq, Structural)]
pub struct ActiveChunk {
    pub range: ChunkRange,
    pub downloaded: u64,
    pub is_done: bool,
    /// A worker is writing the chunk and has not handed it back.
    pub live: bool,
    pub split_requested: bool,
    pub retry_requested: bool,
    pub retries: u8,
    /// When the chunk last moved, in nanoseconds of the session's clock.
    pub last_progress: u64,
}

impl ActiveChunk {
    /// The retry count never goes far past its limit.
    pub open spec fn retries_ok(self) -> bool {
        self.retries + (if self.retry_requested {
            1int
        } else {
            0
        }) <= 4
    }

    /// The bytes that are still to come.
    pub open spec fn remaining(self) -> int {
        self.range.spec_size() - self.downloaded
    }

    pub open spec fn fresh(range: ChunkRange, now: u64) -> ActiveChunk {
        ActiveChunk {
            range,
            downloaded: 0,
            is_done: false,
            live: false,
            split_requested: false,
            retry_requested: false,
            retries: 0,
            last_progress: now,
        }
    }

    /// The chunk as a worker takes it.
    pub open spec fn taken(self, now: u64) -> ActiveChunk {
        ActiveChunk {
            live: true,
            split_requested: false,
            retry_requested: false,
            last_progress: now,
            ..self
        }
    }

    pub open spec fn retry_allowed(self) -> bool {
        !self.is_done && self.downloaded < self.range.spec_size() && self.retries
            < MAX_CHUNK_RETRIES
    }

    pub fn new(range: ChunkRange, now: u64) -> (r: ActiveChunk)
        ensures
            r == Self::fresh(range, now),
    {
        ActiveChunk {
            range,
            downloaded: 0,
            is_done: false,
            live: false,
            split_requested: false,
            retry_requested: false,
            retries: 0,
            last_progress: now,
        }
    }

    pub fn can_retry(&self) -> (r: bool)
        requires
            self.range.spec_size() <= u64::MAX,
        ensures
            r == self.retry_allowed(),
    {
        !self.is_done && self.downloaded < self.range.size() && self.retries < MAX_CHUNK_RETRIES
    }

    /// Hands the chunk to a worker.
    pub fn take(self, now: u64) -> (r: ActiveChunk)
        ensures
            r == self.taken(now),
    {
        ActiveChunk {
            live: true,
            split_requested: false,
            retry_requested: false,
            last_progress: now,
            ..self
        }
    }
}

/// The byte ranges of some chunks.
pub open spec fn ranges(list: Seq<ActiveChunk>) -> Seq<ChunkRange> {
    list.map_values(|c: ActiveChunk| c.range)
}

/// No range is so long that its size leaves 64 bits.
pub open spec fn sized(list: Seq<ActiveChunk>) -> bool {
    forall|i: int| 0 <= i < list.len() ==> (#[trigger] list[i]).range.spec_size() <= u64::MAX
}

/// No chunk holds more bytes than its range.
pub open spec fn bounded(list: Seq<ActiveChunk>) -> bool {
    forall|i: int|
        0 <= i < list.len() ==> (#[trigger] list[i]).downloaded <= list[i].range.spec_size()
}

/// The chunks divide a file of `total_size` bytes, and none holds more than its range.
pub open spec fn partitioned(list: Seq<ActiveChunk>, total_size: int) -> bool {
    chunks::tiles(ranges(list), total_size) && bounded(list)
}

pub open spec fn all_retries_ok(list: Seq<ActiveChunk>) -> bool {
    forall|i: int| 0 <= i < list.len() ==> (#[trigger] list[i]).retries_ok()
}

/// The number of bytes that some chunks hold.
pub open spec fn downloaded_sum(list: Seq<ActiveChunk>) -> int
    decreases list.len(),
{
    if list.len() == 0 {
        0
    } else {
        downloaded_sum(list.drop_last()) + list.last().downloaded
    }
}

pub proof fn lemma_downloaded_sum_update(list: Seq<ActiveChunk>, i: int, chunk: ActiveChunk)
    requires
        0 <= i < list.len(),
    ensures
        downloaded_sum(list.update(i, chunk)) == downloaded_sum(list) - list[i].downloaded
            + chunk.downloaded,
    decreases list.len(),
{
    let new = list.update(i, chunk);
    if i == list.len() - 1 {
        assert(new.drop_last() =~= list.drop_last());
    } else {
        lemma_downloaded_sum_update(list.drop_last(), i, chunk);
        assert(new.drop_last() =~= list.drop_last().update(i, chunk));
    }
}

proof fn lemma_downloaded_sum_prefix(list: Seq<ActiveChunk>, n: int)
    requires
        0 <= n <= list.len(),
    ensures
        0 <= downloaded_sum(list.take(n)) <= downloaded_sum(list),
    decreases list.len(),
{
    if n < list.len() {
        lemma_downloaded_sum_prefix(list.drop_last(), n);
        assert(list.drop_last().take(n) =~= list.take(n));
    } else {
        assert(list.take(n) =~= list);
        if list.len() > 0 {
            let rest = list.drop_last();
            lemma_downloaded_sum_prefix(rest, rest.len() as int);
            assert(rest.take(rest.len() as int) =~= rest);
        }
    }
}

proof fn lemma_downloaded_within_sizes(list: Seq<ActiveChunk>)
    requires
        bounded(list),
    ensures
        0 <= downloaded_sum(list) <= chunks::size_sum(ranges(list)),
    decreases list.len(),
{
    if list.len() > 0 {
        let rest = list.drop_last();
        assert(forall|i: int| 0 <= i < rest.len() ==> rest[i] == list[i]);
        lemma_downloaded_within_sizes(rest);
        assert(ranges(list).drop_last() =~= ranges(rest));
        assert(ranges(list).last() == list.last().range);
        assert(list[list.len() - 1].downloaded <= list.last().range.spec_size());
    }
}

/// Law: chunks that divide a file never hold more bytes than the file has.
pub proof fn law_progress_never_exceeds_the_file(list: Seq<ActiveChunk>, total_size: int)
    requires
        partitioned(list, total_size),
    ensures
        0 <= downloaded_sum(list) <= total_size,
{
    lemma_downloaded_within_sizes(list);
}

/// The number of bytes that some chunks hold.
pub fn calculate_downloaded(list: &Vec<ActiveChunk>) -> (r: u64)
    requires
        downloaded_sum(list@) <= u64::MAX,
    ensures
        r == downloaded_sum(list@),
{
    let mut sum: u64 = 0;
    let mut i: usize = 0;
    assert(list@.take(0) =~= Seq::<ActiveChunk>::empty());
    while i < list.len()
        invariant
            i <= list.len(),
            downloaded_sum(list@) <= u64::MAX,
            sum == downloaded_sum(list@.take(i as int)),
        decreases list.len() - i,
    {
        proof {
            lemma_downloaded_sum_prefix(list@, i + 1);
            assert(list@.take(i + 1).drop_last() =~= list@.take(i as int));
            assert(list@.take(i + 1).last() == list@[i as int]);
        }
        sum = sum + list[i].downloaded;
        i += 1;
    }
    assert(list@.take(list@.len() as int) =~= list@);
    sum
}

proof fn lemma_size_sum_update(list: Seq<ChunkRange>, i: int, range: ChunkRange)
    requires
        0 <= i < list.len(),
    ensures
        chunks::size_sum(list.update(i, range)) == chunks::size_sum(list) - list[i].spec_size()
            + range.spec_size(),
    decreases list.len(),
{
    let new = list.update(i, range);
    if i == list.len() - 1 {
        assert(new.drop_last() =~= list.drop_last());
    } else {
        lemma_size_sum_update(list.drop_last(), i, range);
        assert(new.drop_last() =~= list.drop_last().update(i, range));
    }
}

/// Whether the rest of a chunk can be divided now.
pub open spec fn splittable(chunk: ActiveChunk) -> bool {
    !chunk.live && !chunk.is_done && chunk.remaining() >= 2 * MIN_SPLIT_BYTES
}

/// Where the second half of a chunk's rest starts.
pub open spec fn split_point(chunk: ActiveChunk) -> int {
    chunk.range.start + chunk.downloaded + chunk.remaining() / 2
}

/// The chunks after the rest of one was divided in two. The new part keeps the retry count: a
/// division must not renew it for bytes that keep failing.
pub open spec fn split_list(list: Seq<ActiveChunk>, index: int, now: u64) -> Seq<ActiveChunk> {
    let chunk = list[index];
    let at = split_point(chunk);
    let head = ActiveChunk {
        range: ChunkRange { end: (at - 1) as u64, ..chunk.range },
        ..chunk
    };
    let tail = ActiveChunk {
        retries: chunk.retries,
        ..ActiveChunk::fresh(
            ChunkRange { id: list.len() as usize, start: at as u64, end: chunk.range.end },
            now,
        )
    };
    list.update(index, head).push(tail)
}

/// Law: dividing a chunk keeps the file divided without gaps or overlaps, keeps every downloaded
/// byte, and keeps the retry counts within bounds.
pub proof fn law_splitting_keeps_partition_and_progress(
    list: Seq<ActiveChunk>,
    index: int,
    now: u64,
    total_size: int,
)
    requires
        0 <= index < list.len() <= usize::MAX,
        partitioned(list, total_size),
        splittable(list[index]),
    ensures
        partitioned(split_list(list, index, now), total_size),
        downloaded_sum(split_list(list, index, now)) == downloaded_sum(list),
        all_retries_ok(list) ==> all_retries_ok(split_list(list, index, now)),
{
    let new = split_list(list, index, now);
    let chunk = list[index];
    let at = split_point(chunk);
    let old_ranges = ranges(list);
    let new_ranges = ranges(new);
    assert(old_ranges[index] == chunk.range);
    let head_range = new[index].range;
    let tail_range = new.last().range;
    let middle = list.update(index, new[index]);
    assert(new =~= middle.push(new.last()));
    assert(new.drop_last() =~= middle);
    lemma_downloaded_sum_update(list, index, new[index]);
    assert(new_ranges =~= old_ranges.update(index, head_range).push(tail_range));
    assert(new_ranges.drop_last() =~= old_ranges.update(index, head_range));
    lemma_size_sum_update(old_ranges, index, head_range);
    assert(head_range.spec_size() + tail_range.spec_size() == chunk.range.spec_size());
    assert forall|i: int| 0 <= i < new_ranges.len() implies (#[trigger] new_ranges[i]).id == i
        && new_ranges[i].start <= new_ranges[i].end < total_size by {
        if i < old_ranges.len() {
            assert(old_ranges[i].id == i);
        }
    }
    assert forall|i: int, j: int| 0 <= i < j < new_ranges.len() implies (
    #[trigger] new_ranges[i]).end < (#[trigger] new_ranges[j]).start || new_ranges[j].end
        < new_ranges[i].start by {
        if j < old_ranges.len() {
            assert(old_ranges[i].end < old_ranges[j].start || old_ranges[j].end
                < old_ranges[i].start);
        } else if i != index {
            assert(old_ranges[i].end < old_ranges[index].start || old_ranges[index].end
                < old_ranges[i].start);
        }
    }
    assert forall|i: int| 0 <= i < new.len() implies (#[trigger] new[i]).downloaded
        <= new[i].range.spec_size() by {
        if i < list.len() && i != index {
            assert(list[i].downloaded <= list[i].range.spec_size());
        }
    }
    if all_retries_ok(list) {
        assert(chunk.retries_ok());
        assert forall|i: int| 0 <= i < new.len() implies (#[trigger] new[i]).retries_ok() by {
            if i < list.len() && i != index {
                assert(list[i].retries_ok());
            }
        }
    }
}

/// Divides the rest of a chunk that no worker holds, if it is long enough.
pub fn split_remaining(list: &mut Vec<ActiveChunk>, index: usize, now: u64) -> (r: bool)
    requires
        index < old(list)@.len(),
        sized(old(list)@),
        old(list)@[index as int].downloaded <= old(list)@[index as int].range.spec_size(),
    ensures
        r == splittable(old(list)@[index as int]),
        r ==> final(list)@ == split_list(old(list)@, index as int, now),
        !r ==> *final(list) == *old(list),
{
    let id: usize = list.len();
    let chunk = list[index];
    let remaining: u64 = chunk.range.size() - chunk.downloaded;
    if chunk.live || chunk.is_done || remaining < 2 * MIN_SPLIT_BYTES {
        return false;
    }
    let start: u64 = chunk.range.start + chunk.downloaded + remaining / 2;
    let head = ActiveChunk { range: ChunkRange { end: start - 1, ..chunk.range }, ..chunk };
    let mut tail = ActiveChunk::new(ChunkRange { id, start, end: chunk.range.end }, now);
    tail.retries = chunk.retries;
    list.set(index, head);
    list.push(tail);
    true
}

/// The number of chunks that are not done.
pub open spec fn unfinished_count(list: Seq<ActiveChunk>) -> int
    decreases list.len(),
{
    if list.len() == 0 {
        0
    } else {
        unfinished_count(list.drop_last()) + if list.last().is_done {
            0int
        } else {
            1int
        }
    }
}

pub fn count_unfinished(list: &Vec<ActiveChunk>) -> (r: usize)
    ensures
        r == unfinished_count(list@),
        r <= list@.len(),
{
    let mut count: usize = 0;
    let mut i: usize = 0;
    assert(list@.take(0) =~= Seq::<ActiveChunk>::empty());
    while i < list.len()
        invariant
            i <= list.len(),
            count <= i,
            count == unfinished_count(list@.take(i as int)),
        decreases list.len() - i,
    {
        proof {
            assert(list@.take(i + 1).drop_last() =~= list@.take(i as int));
            assert(list@.take(i + 1).last() == list@[i as int]);
        }
        if !list[i].is_done {
            count += 1;
        }
        i += 1;
    }
    assert(list@.take(list@.len() as int) =~= list@);
    count
}

/// Whether the chunk at `i` is divided while `unfinished` of `max_workers` are in use.
pub open spec fn splits_at(list: Seq<ActiveChunk>, i: int, unfinished: int, max_workers: int) -> bool {
    list[i].split_requested && !list[i].live && unfinished < max_workers && splittable(list[i])
}

/// The chunks after each of the first `n` that was asked to, handed back and is long enough was
/// divided, as far as there are workers for the parts.
pub open spec fn split_pass(
    list: Seq<ActiveChunk>,
    i: int,
    n: int,
    unfinished: int,
    max_workers: int,
    now: u64,
) -> Seq<ActiveChunk>
    decreases n - i,
{
    if i >= n {
        list
    } else if splits_at(list, i, unfinished, max_workers) {
        split_pass(split_list(list, i, now), i + 1, n, unfinished + 1, max_workers, now)
    } else {
        split_pass(list, i + 1, n, unfinished, max_workers, now)
    }
}

/// The chunks with every idle one taken by a worker.
pub open spec fn taken_list(list: Seq<ActiveChunk>, now: u64) -> Seq<ActiveChunk> {
    list.map_values(
        |c: ActiveChunk|
            if !c.is_done && !c.live {
                c.taken(now)
            } else {
                c
            },
    )
}

/// The chunks after a pass of the scheduler.
pub open spec fn rebalanced(list: Seq<ActiveChunk>, max_workers: int, now: u64) -> Seq<
    ActiveChunk,
> {
    taken_list(divided(list, max_workers, now), now)
}

/// What a chunk list keeps whatever its workers do.
pub open spec fn list_wf(list: Seq<ActiveChunk>, total_size: int) -> bool {
    partitioned(list, total_size) && all_retries_ok(list)
}

/// The ranges of a divided file have sizes of 64 bits.
pub proof fn lemma_partition_sized(list: Seq<ActiveChunk>, total_size: int)
    requires
        partitioned(list, total_size),
        total_size <= u64::MAX,
    ensures
        sized(list),
{
    assert forall|i: int| 0 <= i < list.len() implies (#[trigger] list[i]).range.spec_size()
        <= u64::MAX by {
        assert(ranges(list)[i].end < total_size);
    }
}

/// Workers taking idle chunks keep the file divided, its downloads, and the retry bounds.
pub proof fn lemma_taken_list(list: Seq<ActiveChunk>, now: u64, total_size: int)
    requires
        partitioned(list, total_size),
    ensures
        partitioned(taken_list(list, now), total_size),
        all_retries_ok(list) ==> all_retries_ok(taken_list(list, now)),
        downloaded_sum(taken_list(list, now)) == downloaded_sum(list),
{
    let new = taken_list(list, now);
    assert(ranges(new) =~= ranges(list));
    assert forall|i: int| 0 <= i < new.len() implies (#[trigger] new[i]).downloaded
        <= new[i].range.spec_size() by {
        assert(list[i].downloaded <= list[i].range.spec_size());
    }
    if all_retries_ok(list) {
        assert forall|i: int| 0 <= i < new.len() implies (#[trigger] new[i]).retries_ok() by {
            assert(list[i].retries_ok());
        }
    }
    lemma_same_downloads(list, new);
}

/// Lists with the same downloads, chunk by chunk, hold the same number of bytes.
pub proof fn lemma_same_downloads(a: Seq<ActiveChunk>, b: Seq<ActiveChunk>)
    requires
        a.len() == b.len(),
        forall|i: int| 0 <= i < a.len() ==> (#[trigger] a[i]).downloaded == b[i].downloaded,
    ensures
        downloaded_sum(a) == downloaded_sum(b),
    decreases a.len(),
{
    if a.len() > 0 {
        assert forall|i: int| 0 <= i < a.len() - 1 implies (#[trigger] a.drop_last()[i]).downloaded
            == b.drop_last()[i].downloaded by {
            assert(a[i].downloaded == b[i].downloaded);
        }
        lemma_same_downloads(a.drop_last(), b.drop_last());
        assert(a[a.len() - 1].downloaded == b[b.len() - 1].downloaded);
    }
}

/// A pass never takes a chunk away.
pub proof fn lemma_split_pass_grows(
    list: Seq<ActiveChunk>,
    i: int,
    n: int,
    unfinished: int,
    max_workers: int,
    now: u64,
)
    requires
        0 <= i,
        n <= list.len(),
    ensures
        split_pass(list, i, n, unfinished, max_workers, now).len() >= list.len(),
    decreases n - i,
{
    if i < n {
        if splits_at(list, i, unfinished, max_workers) {
            lemma_split_pass_grows(
                split_list(list, i, now),
                i + 1,
                n,
                unfinished + 1,
                max_workers,
                now,
            );
        } else {
            lemma_split_pass_grows(list, i + 1, n, unfinished, max_workers, now);
        }
    }
}

proof fn lemma_split_pass(
    list: Seq<ActiveChunk>,
    i: int,
    n: int,
    unfinished: int,
    max_workers: int,
    now: u64,
    total_size: int,
)
    requires
        partitioned(list, total_size),
        0 <= i,
        n <= list.len(),
        split_pass(list, i, n, unfinished, max_workers, now).len() <= usize::MAX,
    ensures
        partitioned(split_pass(list, i, n, unfinished, max_workers, now), total_size),
        all_retries_ok(list) ==> all_retries_ok(
            split_pass(list, i, n, unfinished, max_workers, now),
        ),
        downloaded_sum(split_pass(list, i, n, unfinished, max_workers, now)) == downloaded_sum(
            list,
        ),
    decreases n - i,
{
    lemma_split_pass_grows(list, i, n, unfinished, max_workers, now);
    if i < n {
        if splits_at(list, i, unfinished, max_workers) {
            law_splitting_keeps_partition_and_progress(list, i, now, total_size);
            lemma_split_pass(
                split_list(list, i, now),
                i + 1,
                n,
                unfinished + 1,
                max_workers,
                now,
                total_size,
            );
        } else {
            lemma_split_pass(list, i + 1, n, unfinished, max_workers, now, total_size);
        }
    }
}

/// Law: a pass of the scheduler keeps the file divided without gaps or overlaps, loses no
/// downloaded byte and keeps the retry counts within bounds, as long as its chunks can be numbered.
pub proof fn law_rebalancing_keeps_partition_and_progress(
    list: Seq<ActiveChunk>,
    max_workers: int,
    now: u64,
    total_size: int,
)
    requires
        partitioned(list, total_size),
        rebalanced(list, max_workers, now).len() <= usize::MAX,
    ensures
        partitioned(rebalanced(list, max_workers, now), total_size),
        all_retries_ok(list) ==> all_retries_ok(rebalanced(list, max_workers, now)),
        downloaded_sum(rebalanced(list, max_workers, now)) == downloaded_sum(list),
{
    let most = if max_workers < 1 {
        1
    } else {
        max_workers
    };
    let n = list.len() as int;
    lemma_split_pass(list, 0, n, unfinished_count(list), most, now, total_size);
    lemma_taken_list(
        split_pass(list, 0, n, unfinished_count(list), most, now),
        now,
        total_size,
    );
}

/// The positions of the chunks that are neither done nor held by a worker.
pub open spec fn idle_ids(list: Seq<ActiveChunk>) -> Seq<usize>
    decreases list.len(),
{
    if list.len() == 0 {
        Seq::empty()
    } else {
        let earlier = idle_ids(list.drop_last());
        if !list.last().is_done && !list.last().live {
            earlier.push((list.len() - 1) as usize)
        } else {
            earlier
        }
    }
}

/// Gives every idle chunk to a worker; their positions come back in order.
pub fn take_idle(list: &mut Vec<ActiveChunk>, now: u64) -> (launched: Vec<usize>)
    ensures
        final(list)@ == taken_list(old(list)@, now),
        launched@ == idle_ids(old(list)@),
        forall|i: int|
            0 <= i < launched@.len() ==> (#[trigger] launched@[i]) < final(list)@.len(),
{
    let ghost parts = list@;
    let mut launched: Vec<usize> = Vec::new();
    let mut k: usize = 0;
    assert(parts.take(0) =~= Seq::<ActiveChunk>::empty());
    while k < list.len()
        invariant
            k <= list@.len(),
            list@.len() == parts.len(),
            forall|j: int| 0 <= j < k ==> (#[trigger] list@[j]) == taken_list(parts, now)[j],
            forall|j: int| k <= j < list@.len() ==> (#[trigger] list@[j]) == parts[j],
            launched@ == idle_ids(parts.take(k as int)),
            forall|j: int| 0 <= j < launched@.len() ==> (#[trigger] launched@[j]) < k,
        decreases list@.len() - k,
    {
        let chunk = list[k];
        proof {
            assert(parts.take(k + 1).drop_last() =~= parts.take(k as int));
            assert(parts.take(k + 1).last() == parts[k as int]);
        }
        if !chunk.is_done && !chunk.live {
            list.set(k, chunk.take(now));
            launched.push(k);
        }
        k += 1;
    }
    proof {
        assert(parts.take(parts.len() as int) =~= parts);
        assert(list@ =~= taken_list(parts, now));
    }
    launched
}

/// The chunks after the divisions of a scheduler pass.
pub open spec fn divided(list: Seq<ActiveChunk>, max_workers: int, now: u64) -> Seq<ActiveChunk> {
    let most = if max_workers < 1 {
        1
    } else {
        max_workers
    };
    split_pass(list, 0, list.len() as int, unfinished_count(list), most, now)
}

/// Divides what was handed back for it, and gives every idle chunk to a worker. The positions of
/// the chunks that workers take come back in order.
pub fn rebalance_chunks(
    list: &mut Vec<ActiveChunk>,
    max_workers: usize,
    total_size: u64,
    now: u64,
) -> (launched: Vec<usize>)
    requires
        partitioned(old(list)@, total_size as int),
    ensures
        final(list)@ == rebalanced(old(list)@, max_workers as int, now),
        partitioned(final(list)@, total_size as int),
        all_retries_ok(old(list)@) ==> all_retries_ok(final(list)@),
        resume::resumable_list(old(list)@, total_size as int) ==> resume::resumable_list(
            final(list)@,
            total_size as int,
        ),
        unfinished_count(final(list)@) <= unfinished_count(old(list)@) || unfinished_count(
            final(list)@,
        ) <= max_workers || unfinished_count(final(list)@) <= 1,
        downloaded_sum(final(list)@) == downloaded_sum(old(list)@),
        launched@ == idle_ids(divided(old(list)@, max_workers as int, now)),
        forall|i: int|
            0 <= i < launched@.len() ==> (#[trigger] launched@[i]) < final(list)@.len(),
{
    let most: usize = if max_workers < 1 {
        1
    } else {
        max_workers
    };
    let ghost start = list@;
    let n: usize = list.len();
    let mut unfinished: usize = count_unfinished(list);
    let ghost first_unfinished = unfinished as int;
    let mut i: usize = 0;
    while i < n
        invariant
            i <= n,
            n == start.len(),
            n <= list@.len(),
            partitioned(list@, total_size as int),
            all_retries_ok(start) ==> all_retries_ok(list@),
            unfinished == unfinished_count(list@),
            unfinished <= first_unfinished || unfinished <= most,
            resume::resumable_list(start, total_size as int) ==> resume::resumable_list(
                list@,
                total_size as int,
            ),
            downloaded_sum(list@) == downloaded_sum(start),
            split_pass(list@, i as int, n as int, unfinished as int, most as int, now)
                == split_pass(start, 0, n as int, first_unfinished, most as int, now),
        decreases n - i,
    {
        proof {
            lemma_partition_sized(list@, total_size as int);
        }
        let ghost before = list@;
        assert(list@.len() == list.len());
        if list[i].split_requested && !list[i].live && unfinished < most {
            if split_remaining(list, i, now) {
                proof {
                    law_splitting_keeps_partition_and_progress(
                        before,
                        i as int,
                        now,
                        total_size as int,
                    );
                    resume::lemma_split_counts(before, i as int, now);
                    if resume::resumable_list(before, total_size as int) {
                        resume::lemma_split_is_resumable(before, i as int, now, total_size as int);
                    }
                }
                unfinished += 1;
            }
        }
        i += 1;
    }
    let ghost parts = list@;
    let launched = take_idle(list, now);
    proof {
        lemma_taken_list(parts, now, total_size as int);
        resume::lemma_taken_is_resumable(parts, now, total_size as int);
    }
    launched
}

/// Whether a chunk's rest is long enough to be asked back and divided.
pub open spec fn worth_splitting(chunk: ActiveChunk) -> bool {
    !chunk.is_done && !chunk.retry_requested && chunk.remaining() >= 2 * MIN_SPLIT_BYTES
}

/// `i` holds the longest rest worth dividing, the last of equal ones.
pub open spec fn is_longest_rest(list: Seq<ActiveChunk>, i: int) -> bool {
    &&& 0 <= i < list.len() && worth_splitting(list[i])
    &&& forall|j: int|
        0 <= j < list.len() && worth_splitting(#[trigger] list[j]) ==> list[j].remaining()
            < list[i].remaining() || (list[j].remaining() == list[i].remaining() && j <= i)
}

/// Whether any chunk was asked to hand its rest back for dividing.
pub open spec fn split_pending(list: Seq<ActiveChunk>) -> bool {
    exists|i: int| 0 <= i < list.len() && (#[trigger] list[i]).split_requested
}

/// The chunk that an idle connection shares: the longest rest, while no other division is
/// pending, where a validator guards the parts and a worker is there to hand it back.
pub fn split_candidate(list: &Vec<ActiveChunk>, max_workers: usize, has_validator: bool) -> (r: Option<
    usize,
>)
    requires
        sized(list@),
        bounded(list@),
    ensures
        r matches Some(i) ==> {
            &&& has_validator && !split_pending(list@)
            &&& unfinished_count(list@) < max_workers || (max_workers == 0 && unfinished_count(
                list@,
            ) < 1)
            &&& is_longest_rest(list@, i as int)
            &&& list@[i as int].live
        },
        r is None ==> !has_validator || split_pending(list@) || !(unfinished_count(list@)
            < max_workers || (max_workers == 0 && unfinished_count(list@) < 1)) || (forall|i: int|
            #[trigger] is_longest_rest(list@, i) ==> !list@[i].live),
{
    let most: usize = if max_workers < 1 {
        1
    } else {
        max_workers
    };
    if !has_validator || count_unfinished(list) >= most {
        return None;
    }
    let mut best: Option<usize> = None;
    let mut i: usize = 0;
    while i < list.len()
        invariant
            i <= list@.len(),
            sized(list@),
            bounded(list@),
            forall|j: int| 0 <= j < i ==> !(#[trigger] list@[j]).split_requested,
            best matches Some(b) ==> b < i && worth_splitting(list@[b as int]) && forall|j: int|
                0 <= j < i && worth_splitting(#[trigger] list@[j]) ==> list@[j].remaining()
                    < list@[b as int].remaining() || (list@[j].remaining()
                    == list@[b as int].remaining() && j <= b),
            best is None ==> forall|j: int| 0 <= j < i ==> !worth_splitting(#[trigger] list@[j]),
        decreases list@.len() - i,
    {
        let chunk = list[i];
        if chunk.split_requested {
            assert(split_pending(list@));
            return None;
        }
        let remaining: u64 = chunk.range.size() - chunk.downloaded;
        if !chunk.is_done && !chunk.retry_requested && remaining >= 2 * MIN_SPLIT_BYTES {
            let better = match best {
                Some(b) => {
                    let other = list[b];
                    remaining >= other.range.size() - other.downloaded
                },
                None => true,
            };
            if better {
                best = Some(i);
            }
        }
        i += 1;
    }
    match best {
        Some(b) => {
            assert(is_longest_rest(list@, b as int));
            if list[b].live {
                Some(b)
            } else {
                assert forall|i: int| #[trigger] is_longest_rest(list@, i) implies !list@[i].live by {
                    assert(list@[i] == list@[i]);
                }
                None
            }
        },
        None => {
            assert forall|i: int| #[trigger] is_longest_rest(list@, i) implies !list@[i].live by {
                assert(!worth_splitting(list@[i]));
            }
            None
        },
    }
}

/// Whether a chunk made no progress for too long.
pub open spec fn is_stalled(chunk: ActiveChunk, now: u64) -> bool {
    &&& !chunk.is_done && !chunk.split_requested && !chunk.retry_requested
    &&& chunk.downloaded < chunk.range.spec_size()
    &&& now - chunk.last_progress >= STALL_TIMEOUT
}

/// Whether a chunk stalled with its retries used up.
pub open spec fn is_exhausted(chunk: ActiveChunk, now: u64) -> bool {
    is_stalled(chunk, now) && chunk.retries >= MAX_CHUNK_RETRIES
}

/// The positions of the stalled chunks that a worker holds.
pub open spec fn stalled_ids(list: Seq<ActiveChunk>, now: u64) -> Seq<usize>
    decreases list.len(),
{
    if list.len() == 0 {
        Seq::empty()
    } else {
        let earlier = stalled_ids(list.drop_last(), now);
        if is_stalled(list.last(), now) && list.last().live {
            earlier.push((list.len() - 1) as usize)
        } else {
            earlier
        }
    }
}

/// What the scheduler found about stalled chunks.
pub struct StallReport {
    /// The chunks whose workers are asked to start over.
    pub retry: Vec<usize>,
    /// The first chunk with no retries left, if there is one; none after it is asked.
    pub exhausted: Option<usize>,
}

/// Finds the chunks that made no progress for too long.
pub fn find_stalled(list: &Vec<ActiveChunk>, now: u64) -> (r: StallReport)
    requires
        sized(list@),
    ensures
        r.exhausted matches Some(k) ==> k < list@.len() && is_exhausted(list@[k as int], now)
            && forall|j: int| 0 <= j < k ==> !is_exhausted(#[trigger] list@[j], now),
        r.exhausted is None ==> forall|j: int|
            0 <= j < list@.len() ==> !is_exhausted(#[trigger] list@[j], now),
        r.retry@ == stalled_ids(
            match r.exhausted {
                Some(k) => list@.take(k as int),
                None => list@,
            },
            now,
        ),
        forall|x: int|
            0 <= x < r.retry@.len() ==> (#[trigger] r.retry@[x]) < list@.len()
                && list@[r.retry@[x] as int].retries < MAX_CHUNK_RETRIES,
{
    let mut retry: Vec<usize> = Vec::new();
    let mut i: usize = 0;
    assert(list@.take(0) =~= Seq::<ActiveChunk>::empty());
    while i < list.len()
        invariant
            i <= list@.len(),
            sized(list@),
            forall|j: int| 0 <= j < i ==> !is_exhausted(#[trigger] list@[j], now),
            retry@ == stalled_ids(list@.take(i as int), now),
            forall|x: int|
                0 <= x < retry@.len() ==> (#[trigger] retry@[x]) < list@.len()
                    && list@[retry@[x] as int].retries < MAX_CHUNK_RETRIES,
        decreases list@.len() - i,
    {
        let chunk = list[i];
        proof {
            assert(list@.take(i + 1).drop_last() =~= list@.take(i as int));
            assert(list@.take(i + 1).last() == list@[i as int]);
        }
        if !chunk.is_done && !chunk.split_requested && !chunk.retry_requested && chunk.downloaded
            < chunk.range.size() && now >= chunk.last_progress && now - chunk.last_progress
            >= STALL_TIMEOUT {
            if chunk.retries >= MAX_CHUNK_RETRIES {
                return StallReport { retry, exhausted: Some(i) };
            }
            if chunk.live {
                retry.push(i);
            }
        }
        i += 1;
    }
    assert(list@.take(list@.len() as int) =~= list@);
    StallReport { retry, exhausted: None }
}

/// The chunks that a download of known size starts with.
pub open spec fn fresh_list(list: Seq<ActiveChunk>, total_size: int, now: u64) -> bool {
    &&& chunks::balanced_ranges(ranges(list), total_size)
    &&& forall|i: int|
        0 <= i < list.len() ==> (#[trigger] list[i]) == ActiveChunk::fresh(list[i].range, now).taken(
            now,
        )
}

proof fn lemma_fresh_list(list: Seq<ActiveChunk>, total_size: int, now: u64)
    requires
        1 <= list.len() <= total_size,
        fresh_list(list, total_size, now),
    ensures
        list_wf(list, total_size),
        downloaded_sum(list) == 0,
{
    chunks::law_split_is_a_balanced_partition(ranges(list), total_size);
    assert forall|i: int| 0 <= i < list.len() implies (#[trigger] list[i]).downloaded
        <= list[i].range.spec_size() by {}
    assert forall|i: int| 0 <= i < list.len() implies (#[trigger] list[i]).retries_ok() by {}
    lemma_no_downloads(list);
}

/// Chunks that hold nothing hold no bytes together.
pub proof fn lemma_no_downloads(list: Seq<ActiveChunk>)
    requires
        forall|i: int| 0 <= i < list.len() ==> (#[trigger] list[i]).downloaded == 0,
    ensures
        downloaded_sum(list) == 0,
    decreases list.len(),
{
    if list.len() > 0 {
        assert(forall|i: int|
            0 <= i < list.len() - 1 ==> (#[trigger] list.drop_last()[i]) == list[i]);
        lemma_no_downloads(list.drop_last());
        assert(list[list.len() - 1].downloaded == 0);
    }
}

/// One chunk per worker for a file of known size, all taken.
pub fn start_chunks(total_size: u64, num_chunks: usize, now: u64) -> (r: Vec<ActiveChunk>)
    requires
        total_size > 0,
    ensures
        r@.len() == chunks::chunk_count(total_size as int, num_chunks as int),
        fresh_list(r@, total_size as int, now),
        list_wf(r@, total_size as int),
        downloaded_sum(r@) == 0,
{
    let parts = calculate_chunks(total_size, num_chunks);
    let mut r: Vec<ActiveChunk> = Vec::new();
    let mut i: usize = 0;
    while i < parts.len()
        invariant
            i <= parts@.len(),
            r@.len() == i,
            forall|j: int|
                0 <= j < i ==> (#[trigger] r@[j]) == ActiveChunk::fresh(parts@[j], now).taken(now),
        decreases parts@.len() - i,
    {
        r.push(ActiveChunk::new(parts[i], now).take(now));
        i += 1;
    }
    proof {
        assert(ranges(r@) =~= parts@);
        lemma_fresh_list(r@, total_size as int, now);
    }
    r
}

/// Law: the positions that are handed out are exactly those of the chunks that are neither done nor
/// held by a worker, in order.
pub proof fn law_exactly_the_idle_chunks_are_handed_out(list: Seq<ActiveChunk>)
    requires
        list.len() <= usize::MAX,
    ensures
        forall|i: int|
            0 <= i < list.len() ==> (idle_ids(list).contains(i as usize) <==> !(
            #[trigger] list[i]).is_done && !list[i].live),
        forall|k: int|
            0 <= k < idle_ids(list).len() ==> (#[trigger] idle_ids(list)[k]) < list.len(),
        forall|j: int, k: int|
            0 <= j < k < idle_ids(list).len() ==> (#[trigger] idle_ids(list)[j]) < (
            #[trigger] idle_ids(list)[k]),
    decreases list.len(),
{
    if list.len() > 0 {
        let rest = list.drop_last();
        let n = list.len() - 1;
        let earlier = idle_ids(rest);
        let ids = idle_ids(list);
        law_exactly_the_idle_chunks_are_handed_out(rest);
        assert(list.last() == list[n]);
        assert forall|i: int| 0 <= i < list.len() implies (ids.contains(i as usize) <==> !(
        #[trigger] list[i]).is_done && !list[i].live) by {
            if i < n {
                assert(rest[i] == list[i]);
                if earlier.contains(i as usize) {
                    let k = choose|k: int| 0 <= k < earlier.len() && earlier[k] == i as usize;
                    assert(ids[k] == i as usize);
                }
                if ids.contains(i as usize) {
                    let k = choose|k: int| 0 <= k < ids.len() && ids[k] == i as usize;
                    assert(k < earlier.len());
                    assert(earlier[k] == i as usize);
                }
            } else {
                if !list[n].is_done && !list[n].live {
                    assert(ids[earlier.len() as int] == n as usize);
                } else if ids.contains(n as usize) {
                    let k = choose|k: int| 0 <= k < ids.len() && ids[k] == n as usize;
                    assert(earlier[k] < rest.len());
                }
            }
        }
        assert forall|j: int, k: int| 0 <= j < k < ids.len() implies (#[trigger] ids[j]) < (
        #[trigger] ids[k]) by {
            assert(ids[j] == earlier[j]);
            if k < earlier.len() {
                assert(ids[k] == earlier[k]);
            }
        }
        assert forall|k: int| 0 <= k < ids.len() implies (#[trigger] ids[k]) < list.len() by {
            if k < earlier.len() {
                assert(ids[k] == earlier[k]);
            }
        }
    }
}

/// Law: once idle chunks were handed out, a worker holds every unfinished chunk; the ranges, the
/// bytes and what is done stay as they were.
pub proof fn law_handing_out_leaves_no_chunk_idle(list: Seq<ActiveChunk>, now: u64, i: int)
    requires
        0 <= i < list.len(),
    ensures
        taken_list(list, now).len() == list.len(),
        taken_list(list, now)[i].is_done || taken_list(list, now)[i].live,
        taken_list(list, now)[i].range == list[i].range,
        taken_list(list, now)[i].downloaded == list[i].downloaded,
        taken_list(list, now)[i].is_done == list[i].is_done,
        taken_list(list, now)[i].retries == list[i].retries,
        !list[i].is_done && !list[i].live ==> taken_list(list, now)[i].last_progress == now,
{
}

/// Law: dividing a chunk leaves every other chunk as it is, gives the worker's saved bytes to the
/// first part, and leaves two parts of the rest that differ by at most a byte, none shorter than a
/// quarter of a mebibyte.
pub proof fn law_divided_rests_are_halved(list: Seq<ActiveChunk>, index: int, now: u64)
    requires
        0 <= index < list.len() <= usize::MAX,
        splittable(list[index]),
        list[index].downloaded <= list[index].range.spec_size(),
    ensures
        ({
            let new = split_list(list, index, now);
            let old = list[index];
            let head = new[index];
            let tail = new.last();
            &&& new.len() == list.len() + 1
            &&& forall|i: int| 0 <= i < list.len() && i != index ==> (#[trigger] new[i]) == list[i]
            &&& head.range.start == old.range.start && head.range.end + 1 == tail.range.start
                && tail.range.end == old.range.end
            &&& head.downloaded == old.downloaded && tail.downloaded == 0
            &&& head.retries == old.retries && tail.retries == old.retries
            &&& !tail.is_done && !tail.live
            &&& 0 <= tail.remaining() - head.remaining() <= 1
            &&& head.remaining() >= 262144 && tail.remaining() >= 262144
            &&& tail.range.id == list.len()
        }),
{
}

/// Law: a chunk counts as stalled only while it misses bytes, no worker was asked to hand it back,
/// and at least five seconds have passed since it moved.
pub proof fn law_stalls_are_long_pauses(chunk: ActiveChunk, now: u64)
    ensures
        is_stalled(chunk, now) ==> !chunk.is_done && chunk.downloaded < chunk.range.spec_size()
            && !chunk.split_requested && !chunk.retry_requested && now >= chunk.last_progress
            + 5_000_000_000,
        !chunk.is_done && chunk.downloaded < chunk.range.spec_size() && !chunk.split_requested
            && !chunk.retry_requested && now >= chunk.last_progress + 5_000_000_000 ==> is_stalled(
            chunk,
            now,
        ),
        is_exhausted(chunk, now) <==> is_stalled(chunk, now) && chunk.retries >= 3,
{
}

/// Law: the workers that are asked to start over are exactly those that hold a stalled chunk.
pub proof fn law_exactly_the_stalled_workers_start_over(list: Seq<ActiveChunk>, now: u64)
    requires
        list.len() <= usize::MAX,
    ensures
        forall|i: int|
            0 <= i < list.len() ==> (stalled_ids(list, now).contains(i as usize) <==> is_stalled(
                #[trigger] list[i],
                now,
            ) && list[i].live),
        forall|k: int|
            0 <= k < stalled_ids(list, now).len() ==> (#[trigger] stalled_ids(list, now)[k])
                < list.len(),
    decreases list.len(),
{
    if list.len() > 0 {
        let rest = list.drop_last();
        let n = list.len() - 1;
        let earlier = stalled_ids(rest, now);
        let ids = stalled_ids(list, now);
        law_exactly_the_stalled_workers_start_over(rest, now);
        assert(list.last() == list[n]);
        assert forall|i: int| 0 <= i < list.len() implies (ids.contains(i as usize) <==> is_stalled(
            #[trigger] list[i],
            now,
        ) && list[i].live) by {
            if i < n {
                assert(rest[i] == list[i]);
                if earlier.contains(i as usize) {
                    let k = choose|k: int| 0 <= k < earlier.len() && earlier[k] == i as usize;
                    assert(ids[k] == i as usize);
                }
                if ids.contains(i as usize) {
                    let k = choose|k: int| 0 <= k < ids.len() && ids[k] == i as usize;
                    assert(k < earlier.len());
                    assert(earlier[k] == i as usize);
                }
            } else {
                if is_stalled(list[n], now) && list[n].live {
                    assert(ids[earlier.len() as int] == n as usize);
                } else if ids.contains(n as usize) {
                    let k = choose|k: int| 0 <= k < ids.len() && ids[k] == n as usize;
                    assert(earlier[k] < rest.len());
                }
            }
        }
        assert forall|k: int| 0 <= k < ids.len() implies (#[trigger] ids[k]) < list.len() by {
            if k < earlier.len() {
                assert(ids[k] == earlier[k]);
            }
        }
    }
}

/// Law: a chunk is tried again only while it misses bytes, and at most three times.
pub proof fn law_retries_end(chunk: ActiveChunk)
    ensures
        chunk.retry_allowed() <==> !chunk.is_done && chunk.downloaded < chunk.range.spec_size()
            && chunk.retries < 3,
{
}

/// Law: chunks that divide a file and each hold all of their range hold the whole file.
pub proof fn law_full_chunks_hold_the_whole_file(list: Seq<ActiveChunk>, total_size: int)
    requires
        partitioned(list, total_size),
        forall|i: int|
            0 <= i < list.len() ==> (#[trigger] list[i]).downloaded == list[i].range.spec_size(),
    ensures
        downloaded_sum(list) == total_size,
{
    lemma_full_chunks(list);
}

proof fn lemma_full_chunks(list: Seq<ActiveChunk>)
    requires
        forall|i: int|
            0 <= i < list.len() ==> (#[trigger] list[i]).downloaded == list[i].range.spec_size(),
    ensures
        downloaded_sum(list) == chunks::size_sum(ranges(list)),
    decreases list.len(),
{
    if list.len() > 0 {
        let rest = list.drop_last();
        assert forall|i: int| 0 <= i < rest.len() implies (#[trigger] rest[i]).downloaded
            == rest[i].range.spec_size() by {
            assert(rest[i] == list[i]);
        }
        lemma_full_chunks(rest);
        assert(ranges(list).drop_last() =~= ranges(rest));
        assert(ranges(list).last() == list.last().range);
        assert(list[list.len() - 1].downloaded == list.last().range.spec_size());
    }
}

/// Law: the rest of an idle chunk is divided wherever it holds two parts of the smallest size.
pub proof fn law_idle_rests_are_divided(chunk: ActiveChunk, first: int, second: int)
    requires
        !chunk.live,
        !chunk.is_done,
        first >= MIN_SPLIT_BYTES,
        second >= MIN_SPLIT_BYTES,
        chunk.remaining() == first + second,
    ensures
        splittable(chunk),
        split_point(chunk) - (chunk.range.start + chunk.downloaded) >= MIN_SPLIT_BYTES,
        chunk.range.end + 1 - split_point(chunk) >= MIN_SPLIT_BYTES,
{
}

} // verus!
