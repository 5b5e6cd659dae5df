//! Byte ranges that divide a file between workers.
use vstd::prelude::*;
use vstd::set_lib::*;

verus! {

/// An inclusive byte range with its position in the chunk list.
#[derive(Debug, Clone, Copy, PartialEq, Eq, Structural)]
pub struct ChunkRange {
    pub id: usize,
    pub start: u64,
    pub end: u64,
}

impl ChunkRange {
    /// The number of bytes in the range.
    pub open spec fn spec_size(self) -> int {
        if self.end >= self.start {
            self.end - self.start + 1
        } else {
            0
        }
    }

    /// Whether a byte offset lies in the range.
    pub open spec fn covers(self, byte: int) -> bool {
        self.start <= byte <= self.end
    }

    pub fn size(&self) -> (size: u64)
        requires
            self.spec_size() <= u64::MAX,
        ensures
            size == self.spec_size(),
    {
        if self.end >= self.start {
            self.end - self.start + 1
        } else {
            0
        }
    }
}

/// The number of chunks for a file: at least one, at most one per byte.
pub open spec fn chunk_count(total_size: int, num_chunks: int) -> int {
    if num_chunks < 1 || total_size < 1 {
        1
    } else if num_chunks > total_size {
        total_size
    } else {
        num_chunks
    }
}

/// Where chunk `i` of `k` starts: the first `total % k` chunks hold one byte more.
pub open spec fn chunk_start(total_size: int, k: int, i: int) -> int {
    i * (total_size / k) + if i < total_size % k {
        i
    } else {
        total_size % k
    }
}

/// One chunk ends where the next starts, and the last ends with the file.
pub proof fn lemma_chunk_step(total_size: int, k: int, i: int)
    requires
        1 <= k <= total_size,
        0 <= i < k,
    ensures
        chunk_start(total_size, k, i + 1) == chunk_start(total_size, k, i) + total_size / k + (
        if i < total_size % k {
            1int
        } else {
            0int
        }),
        total_size / k >= 1,
        chunk_start(total_size, k, 0) == 0,
        chunk_start(total_size, k, k) == total_size,
        0 <= chunk_start(total_size, k, i),
        chunk_start(total_size, k, i + 1) <= total_size,
{
    let base = total_size / k;
    let rem = total_size % k;
    vstd::arithmetic::div_mod::lemma_fundamental_div_mod(total_size, k);
    vstd::arithmetic::div_mod::lemma_mod_bound(total_size, k);
    assert(base >= 1) by (nonlinear_arith)
        requires
            total_size == k * base + rem,
            0 <= rem < k,
            total_size >= k,
            k >= 1,
    ;
    assert((i + 1) * base == i * base + base) by (nonlinear_arith);
    assert(k * base == base * k) by (nonlinear_arith);
    assert((i + 1) * base <= k * base) by (nonlinear_arith)
        requires
            i + 1 <= k,
            base >= 1,
    ;
    assert(0 <= i * base) by (nonlinear_arith)
        requires
            i >= 0,
            base >= 1,
    ;
}

/// Splits a file of `total_size` bytes into `num_chunks` balanced byte ranges, or one range per
/// byte where there are fewer bytes.
pub fn calculate_chunks(total_size: u64, num_chunks: usize) -> (chunks: Vec<ChunkRange>)
    ensures
        total_size == 0 ==> chunks@.len() == 0,
        total_size > 0 ==> chunks@.len() == chunk_count(total_size as int, num_chunks as int),
        forall|i: int|
            0 <= i < chunks@.len() ==> {
                &&& (#[trigger] chunks@[i]).id == i
                &&& chunks@[i].start == chunk_start(total_size as int, chunks@.len() as int, i)
                &&& chunks@[i].end == chunk_start(total_size as int, chunks@.len() as int, i + 1) - 1
            },
{
    let mut chunks: Vec<ChunkRange> = Vec::new();
    if total_size == 0 {
        return chunks;
    }
    let k: usize = if num_chunks < 1 {
        1
    } else if num_chunks as u64 > total_size {
        total_size as usize
    } else {
        num_chunks
    };
    assert(k == chunk_count(total_size as int, num_chunks as int));
    let base_size: u64 = total_size / k as u64;
    let remainder: u64 = total_size % k as u64;
    let mut current_offset: u64 = 0;
    let mut i: usize = 0;
    proof {
        lemma_chunk_step(total_size as int, k as int, 0);
    }
    while i < k
        invariant
            i <= k,
            1 <= k <= total_size,
            base_size == total_size as int / k as int,
            remainder == total_size as int % k as int,
            chunks@.len() == i,
            current_offset == chunk_start(total_size as int, k as int, i as int),
            forall|j: int|
                0 <= j < i ==> {
                    &&& (#[trigger] chunks@[j]).id == j
                    &&& chunks@[j].start == chunk_start(total_size as int, k as int, j)
                    &&& chunks@[j].end == chunk_start(total_size as int, k as int, j + 1) - 1
                },
        decreases k - i,
    {
        proof {
            lemma_chunk_step(total_size as int, k as int, i as int);
        }
        let extra: u64 = if (i as u64) < remainder {
            1
        } else {
            0
        };
        let size: u64 = base_size + extra;
        let start: u64 = current_offset;
        let end: u64 = start + size - 1;
        chunks.push(ChunkRange { id: i, start, end });
        current_offset = current_offset + size;
        i += 1;
    }
    chunks
}

/// The total size of some ranges.
pub open spec fn size_sum(ranges: Seq<ChunkRange>) -> int
    decreases ranges.len(),
{
    if ranges.len() == 0 {
        0
    } else {
        size_sum(ranges.drop_last()) + ranges.last().spec_size()
    }
}

/// No two ranges share a byte.
pub open spec fn disjoint(ranges: Seq<ChunkRange>) -> bool {
    forall|i: int, j: int|
        0 <= i < j < ranges.len() ==> (#[trigger] ranges[i]).end < (#[trigger] ranges[j]).start
            || ranges[j].end < ranges[i].start
}

/// Every range is non-empty, inside the file, and listed at its own id.
pub open spec fn placed(ranges: Seq<ChunkRange>, total_size: int) -> bool {
    forall|i: int|
        0 <= i < ranges.len() ==> (#[trigger] ranges[i]).id == i && ranges[i].start
            <= ranges[i].end < total_size
}

/// The ranges divide a file of `total_size` bytes without gaps or overlaps.
pub open spec fn tiles(ranges: Seq<ChunkRange>, total_size: int) -> bool {
    placed(ranges, total_size) && disjoint(ranges) && size_sum(ranges) == total_size
}

/// Exactly one range covers the byte.
pub open spec fn covered_once(ranges: Seq<ChunkRange>, byte: int) -> bool {
    exists|i: int|
        0 <= i < ranges.len() && (#[trigger] ranges[i]).covers(byte) && forall|j: int|
            0 <= j < ranges.len() && j != i ==> !(#[trigger] ranges[j]).covers(byte)
}

/// The byte offsets that some ranges cover.
spec fn bytes_of(ranges: Seq<ChunkRange>) -> Set<int>
    decreases ranges.len(),
{
    if ranges.len() == 0 {
        Set::empty()
    } else {
        bytes_of(ranges.drop_last()).union(
            set_int_range(ranges.last().start as int, ranges.last().end + 1),
        )
    }
}

proof fn lemma_bytes_member(ranges: Seq<ChunkRange>, byte: int)
    ensures
        bytes_of(ranges).contains(byte) <==> exists|i: int|
            0 <= i < ranges.len() && (#[trigger] ranges[i]).covers(byte),
    decreases ranges.len(),
{
    if ranges.len() > 0 {
        let rest = ranges.drop_last();
        lemma_bytes_member(rest, byte);
        if rest.len() > 0 && exists|i: int| 0 <= i < rest.len() && (#[trigger] rest[i]).covers(byte) {
            let i = choose|i: int| 0 <= i < rest.len() && (#[trigger] rest[i]).covers(byte);
            assert(ranges[i].covers(byte));
        }
        if ranges.last().covers(byte) {
            assert(ranges[ranges.len() - 1].covers(byte));
        }
        if exists|i: int| 0 <= i < ranges.len() && (#[trigger] ranges[i]).covers(byte) {
            let i = choose|i: int| 0 <= i < ranges.len() && (#[trigger] ranges[i]).covers(byte);
            if i < rest.len() {
                assert(rest[i].covers(byte));
            }
        }
    }
}

proof fn lemma_bytes_count(ranges: Seq<ChunkRange>, total_size: int)
    requires
        placed(ranges, total_size),
        disjoint(ranges),
    ensures
        bytes_of(ranges).finite(),
        bytes_of(ranges).len() == size_sum(ranges),
        bytes_of(ranges).subset_of(set_int_range(0, total_size)),
    decreases ranges.len(),
{
    if ranges.len() > 0 {
        let rest = ranges.drop_last();
        let last = ranges.last();
        assert(forall|i: int| 0 <= i < rest.len() ==> rest[i] == ranges[i]);
        assert(ranges[ranges.len() - 1] == last);
        lemma_bytes_count(rest, total_size);
        lemma_int_range(last.start as int, last.end + 1);
        let own = set_int_range(last.start as int, last.end + 1);
        assert(bytes_of(rest).disjoint(own)) by {
            assert forall|byte: int| bytes_of(rest).contains(byte) implies !own.contains(byte) by {
                lemma_bytes_member(rest, byte);
                let i = choose|i: int| 0 <= i < rest.len() && (#[trigger] rest[i]).covers(byte);
                assert(ranges[i].covers(byte));
            }
        }
        lemma_set_disjoint_lens(bytes_of(rest), own);
        assert(bytes_of(rest).union(own) =~= bytes_of(rest) + own);
    }
}

/// Law: ranges divide a file without gaps or overlaps exactly when each lies inside the file and
/// every byte of the file belongs to exactly one of them.
pub proof fn law_tiles_cover_every_byte_once(ranges: Seq<ChunkRange>, total_size: int)
    requires
        0 <= total_size,
    ensures
        tiles(ranges, total_size) <==> placed(ranges, total_size) && forall|byte: int|
            0 <= byte < total_size ==> #[trigger] covered_once(ranges, byte),
{
    let file = set_int_range(0, total_size);
    lemma_int_range(0, total_size);
    if tiles(ranges, total_size) {
        lemma_bytes_count(ranges, total_size);
        lemma_subset_equality(bytes_of(ranges), file);
        assert forall|byte: int| 0 <= byte < total_size implies #[trigger] covered_once(
            ranges,
            byte,
        ) by {
            assert(file.contains(byte));
            lemma_bytes_member(ranges, byte);
            let i = choose|i: int| 0 <= i < ranges.len() && (#[trigger] ranges[i]).covers(byte);
            assert forall|j: int| 0 <= j < ranges.len() && j != i implies !(
            #[trigger] ranges[j]).covers(byte) by {
                assert(ranges[i].covers(byte));
            }
        }
    }
    if placed(ranges, total_size) && forall|byte: int|
        0 <= byte < total_size ==> #[trigger] covered_once(ranges, byte) {
        assert forall|i: int, j: int| 0 <= i < j < ranges.len() implies (
        #[trigger] ranges[i]).end < (#[trigger] ranges[j]).start || ranges[j].end
            < ranges[i].start by {
            if !(ranges[i].end < ranges[j].start || ranges[j].end < ranges[i].start) {
                let byte = if ranges[i].start >= ranges[j].start {
                    ranges[i].start as int
                } else {
                    ranges[j].start as int
                };
                assert(covered_once(ranges, byte));
                assert(ranges[i].covers(byte) && ranges[j].covers(byte));
            }
        }
        lemma_bytes_count(ranges, total_size);
        assert(bytes_of(ranges) =~= file) by {
            assert forall|byte: int| file.contains(byte) implies bytes_of(ranges).contains(
                byte,
            ) by {
                assert(covered_once(ranges, byte));
                lemma_bytes_member(ranges, byte);
            }
        }
    }
}

/// The ranges that a file of `total_size` bytes is split into.
pub open spec fn balanced_ranges(ranges: Seq<ChunkRange>, total_size: int) -> bool {
    forall|i: int|
        0 <= i < ranges.len() ==> {
            &&& (#[trigger] ranges[i]).id == i
            &&& ranges[i].start == chunk_start(total_size, ranges.len() as int, i)
            &&& ranges[i].end == chunk_start(total_size, ranges.len() as int, i + 1) - 1
        }
}

proof fn lemma_balanced_prefix(ranges: Seq<ChunkRange>, total_size: int, n: int)
    requires
        1 <= ranges.len() <= total_size,
        balanced_ranges(ranges, total_size),
        0 <= n <= ranges.len(),
    ensures
        size_sum(ranges.take(n)) == chunk_start(total_size, ranges.len() as int, n),
        forall|i: int|
            0 <= i < n ==> (#[trigger] ranges[i]).start <= ranges[i].end < chunk_start(
                total_size,
                ranges.len() as int,
                n,
            ),
        disjoint(ranges.take(n)),
    decreases n,
{
    let k = ranges.len() as int;
    lemma_chunk_step(total_size, k, 0);
    if n > 0 {
        lemma_balanced_prefix(ranges, total_size, n - 1);
        lemma_chunk_step(total_size, k, n - 1);
        assert(ranges.take(n).drop_last() =~= ranges.take(n - 1));
        assert(ranges.take(n).last() == ranges[n - 1]);
        let taken = ranges.take(n);
        assert forall|i: int, j: int| 0 <= i < j < taken.len() implies (
        #[trigger] taken[i]).end < (#[trigger] taken[j]).start || taken[j].end
            < taken[i].start by {
            if j < n - 1 {
                assert(ranges.take(n - 1)[i] == taken[i]);
                assert(ranges.take(n - 1)[j] == taken[j]);
            } else {
                assert(ranges[i] == taken[i] && ranges[j] == taken[j]);
            }
        }
    }
}

/// Law: a split has no gaps and no overlaps, begins at the first byte, ends at the last, joins
/// each range to the next, and its sizes differ by at most one byte.
pub proof fn law_split_is_a_balanced_partition(ranges: Seq<ChunkRange>, total_size: int)
    requires
        1 <= ranges.len() <= total_size,
        balanced_ranges(ranges, total_size),
    ensures
        tiles(ranges, total_size),
        ranges[0].start == 0,
        ranges.last().end == total_size - 1,
        forall|i: int|
            0 <= i < ranges.len() - 1 ==> (#[trigger] ranges[i]).end + 1 == ranges[i + 1].start,
        forall|i: int, j: int|
            0 <= i < ranges.len() && 0 <= j < ranges.len() ==> (#[trigger] ranges[i]).spec_size()
                - (#[trigger] ranges[j]).spec_size() <= 1,
{
    let k = ranges.len() as int;
    lemma_balanced_prefix(ranges, total_size, k);
    assert(ranges.take(k) =~= ranges);
    lemma_chunk_step(total_size, k, k - 1);
    assert forall|i: int| 0 <= i < ranges.len() - 1 implies (#[trigger] ranges[i]).end + 1
        == ranges[i + 1].start by {
        assert(ranges[i + 1].id == i + 1);
    }
    assert forall|i: int, j: int|
        0 <= i < ranges.len() && 0 <= j < ranges.len() implies (#[trigger] ranges[i]).spec_size()
        - (#[trigger] ranges[j]).spec_size() <= 1 by {
        lemma_chunk_step(total_size, k, i);
        lemma_chunk_step(total_size, k, j);
    }
}

/// Law: a file is divided into as many parts as were asked for, as long as there is a byte for each,
/// and they cover every byte once; an empty file has none.
pub proof fn law_calculated_chunks_divide_the_file(
    total_size: u64,
    num_chunks: usize,
    chunks: Vec<ChunkRange>,
)
    requires
        call_ensures(calculate_chunks, (total_size, num_chunks), chunks),
    ensures
        total_size == 0 ==> chunks@.len() == 0,
        total_size > 0 ==> tiles(chunks@, total_size as int),
        total_size > 0 && 1 <= num_chunks <= total_size ==> chunks@.len() == num_chunks,
        total_size > 0 && num_chunks > total_size ==> chunks@.len() == total_size,
        total_size > 0 && num_chunks == 0 ==> chunks@.len() == 1,
{
    if total_size > 0 {
        law_split_is_a_balanced_partition(chunks@, total_size as int);
    }
}

/// Law: a range has as many bytes as it covers.
pub proof fn law_ranges_count_the_bytes_they_cover(range: ChunkRange, byte: int)
    ensures
        range.start <= range.end ==> range.spec_size() == range.end - range.start + 1,
        range.end < range.start ==> range.spec_size() == 0 && !range.covers(byte),
        range.covers(byte) <==> range.start <= byte < range.start + range.spec_size(),
{
}

} // verus!
