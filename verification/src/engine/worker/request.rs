//! The request that continues a chunk.
use crate::client::range;
use crate::engine::chunks::ChunkRange;
use crate::engine::worker::error::WorkerError;
use crate::text;
use vstd::prelude::*;

verus! {

/// How many saved bytes are requested again and compared before new ones are written.
pub const OVERLAP_BYTES: u64 = 4096;

/// What a worker does with its chunk.
pub enum ChunkPlan {
    /// The chunk makes no sense.
    Invalid(WorkerError),
    /// Every byte is saved already.
    AlreadyDone,
    /// The rest is requested, after an overlap of saved bytes.
    Request { request_start: u64, end: u64, expected_bytes: u64, write_start: u64 },
}

/// How many saved bytes a request repeats: none where a strong entity tag vouches for the file.
pub open spec fn overlap_len(downloaded: u64, validator: Option<Seq<char>>) -> int {
    if range::strong_validator(validator) {
        0
    } else if downloaded < OVERLAP_BYTES {
        downloaded as int
    } else {
        OVERLAP_BYTES as int
    }
}

/// Whether a chunk makes no sense.
pub open spec fn is_senseless(chunk: ChunkRange) -> bool {
    chunk.end < chunk.start || chunk.spec_size() > u64::MAX
}

/// Whether a plan is the one for a chunk of which some bytes are saved.
pub open spec fn is_plan(
    plan: ChunkPlan,
    chunk: ChunkRange,
    downloaded: u64,
    validator: Option<Seq<char>>,
) -> bool {
    if is_senseless(chunk) {
        plan matches ChunkPlan::Invalid(WorkerError::InvalidRange(reason)) && reason@
            == "Invalid chunk range"@
    } else if downloaded > chunk.spec_size() {
        plan matches ChunkPlan::Invalid(WorkerError::InvalidRange(reason)) && reason@
            == "Saved chunk progress exceeds its range"@
    } else if downloaded == chunk.spec_size() {
        plan is AlreadyDone
    } else {
        let saved_to = chunk.start + downloaded;
        let overlap = overlap_len(downloaded, validator);
        plan matches ChunkPlan::Request { request_start, end, expected_bytes, write_start }
            && request_start == saved_to - overlap && end == chunk.end && expected_bytes == end
            - request_start + 1 && write_start == saved_to
    }
}

/// Plans the request for the bytes of a chunk that are not saved yet.
pub fn plan_chunk(chunk: ChunkRange, downloaded: u64, validator: Option<&str>) -> (r: ChunkPlan)
    ensures
        is_plan(r, chunk, downloaded, text::str_text(validator)),
        r matches ChunkPlan::Request { request_start, end, expected_bytes, write_start }
            ==> chunk.start <= request_start <= write_start <= end,
{
    if chunk.end < chunk.start || chunk.end - chunk.start == u64::MAX {
        return ChunkPlan::Invalid(WorkerError::InvalidRange("Invalid chunk range"));
    }
    let size: u64 = chunk.end - chunk.start + 1;
    if downloaded > size {
        return ChunkPlan::Invalid(
            WorkerError::InvalidRange("Saved chunk progress exceeds its range"),
        );
    }
    if downloaded == size {
        return ChunkPlan::AlreadyDone;
    }
    let write_start: u64 = chunk.start + downloaded;
    let overlap: u64 = if range::has_strong_validator(validator) {
        0
    } else if downloaded < OVERLAP_BYTES {
        downloaded
    } else {
        OVERLAP_BYTES
    };
    ChunkPlan::Request {
        request_start: write_start - overlap,
        end: chunk.end,
        expected_bytes: size - downloaded + overlap,
        write_start,
    }
}

/// Law: a plan asks for the bytes of a chunk up to its last one, from the first missing one on but
/// for an overlap with saved bytes: none where a strong entity tag vouches for the file, else up to
/// four kibibytes. Nothing is asked for where nothing is missing, nor for a chunk that makes no sense.
pub proof fn law_plans_ask_for_the_missing_bytes(
    plan: ChunkPlan,
    chunk: ChunkRange,
    downloaded: u64,
    validator: Option<Seq<char>>,
)
    requires
        is_plan(plan, chunk, downloaded, validator),
    ensures
        plan matches ChunkPlan::Request { request_start, end, expected_bytes, write_start } ==> {
            &&& write_start == chunk.start + downloaded
            &&& end == chunk.end
            &&& request_start + expected_bytes == end + 1
            &&& chunk.start <= request_start <= write_start <= end
            &&& range::strong_validator(validator) ==> request_start == write_start
            &&& !range::strong_validator(validator) && downloaded >= 4096 ==> write_start
                - request_start == 4096
            &&& !range::strong_validator(validator) && downloaded < 4096 ==> request_start
                == chunk.start
        },
        plan is AlreadyDone ==> chunk.start + downloaded == chunk.end + 1,
        plan is Invalid ==> chunk.end < chunk.start || chunk.start + downloaded > chunk.end + 1 || (
        chunk.start == 0 && chunk.end == u64::MAX),
        chunk.start <= chunk.end && chunk.start + downloaded <= chunk.end && !(chunk.start == 0
            && chunk.end == u64::MAX) ==> plan is Request,
{
}

} // verus!
