//! The body of a reply on its way to the target file.
use crate::client::ClientError;
use crate::engine::worker::error::WorkerError;
use vstd::prelude::*;

verus! {

/// What a body is expected to hold.
#[derive(Clone, Copy)]
#[allow(inconsistent_fields)]
pub enum BodyCopyMode {
    /// A byte range, whose bytes before `write_start` are saved already.
    Range { expected_bytes: u64, write_start: u64 },
    /// The whole file.
    Stream { expected_bytes: Option<u64> },
}

impl BodyCopyMode {
    pub open spec fn expected(self) -> Option<u64> {
        match self {
            BodyCopyMode::Range { expected_bytes, .. } => Some(expected_bytes),
            BodyCopyMode::Stream { expected_bytes } => expected_bytes,
        }
    }

    /// Where the first new byte goes when the body starts at `start`.
    pub open spec fn first_new(self, start: int) -> int {
        match self {
            BodyCopyMode::Range { write_start, .. } => if write_start > start {
                write_start as int
            } else {
                start
            },
            BodyCopyMode::Stream { .. } => start,
        }
    }

    pub open spec fn overrun(self, expected: u64) -> WorkerError {
        match self {
            BodyCopyMode::Range { .. } => WorkerError::RangeResponseOverrun { expected },
            BodyCopyMode::Stream { .. } => WorkerError::ResponseOverrun { expected },
        }
    }

    pub open spec fn offset_overflow(self) -> Seq<char> {
        match self {
            BodyCopyMode::Range { .. } => "Chunk offset overflowed"@,
            BodyCopyMode::Stream { .. } => "Stream offset overflowed"@,
        }
    }

    pub fn expected_bytes(self) -> (r: Option<u64>)
        ensures
            r == self.expected(),
    {
        match self {
            BodyCopyMode::Range { expected_bytes, .. } => Some(expected_bytes),
            BodyCopyMode::Stream { expected_bytes } => expected_bytes,
        }
    }

    pub fn overrun_error(self, expected_bytes: u64) -> (r: WorkerError)
        ensures
            r == self.overrun(expected_bytes),
    {
        match self {
            BodyCopyMode::Range { .. } => WorkerError::RangeResponseOverrun {
                expected: expected_bytes,
            },
            BodyCopyMode::Stream { .. } => WorkerError::ResponseOverrun { expected: expected_bytes },
        }
    }

    pub fn offset_error(self) -> (r: WorkerError)
        ensures
            r matches WorkerError::InvalidRange(reason) && reason@ == self.offset_overflow(),
    {
        WorkerError::InvalidRange(
            match self {
                BodyCopyMode::Range { .. } => "Chunk offset overflowed",
                BodyCopyMode::Stream { .. } => "Stream offset overflowed",
            },
        )
    }
}

/// A body being copied, piece by piece.
#[derive(Clone, Copy)]
pub struct BodyCopy {
    pub mode: BodyCopyMode,
    pub start: u64,
    pub received: u64,
}

/// Where one piece of a body belongs.
#[derive(Clone, Copy)]
pub struct PiecePlan {
    /// The offset of the piece's first byte.
    pub offset: u64,
    /// How many of its bytes are saved already and only compared.
    pub overlap: usize,
    /// The length of the piece.
    pub length: usize,
}

/// How a body ended.
pub enum BodyEnd {
    /// It broke off before its expected length.
    Incomplete(WorkerError),
    /// Its length was unknown: the file ends here.
    SetLength(u64),
    /// It is complete.
    Complete,
}

impl BodyCopy {
    /// A body never goes past what was expected, nor past the offset space.
    pub open spec fn wf(self) -> bool {
        self.start + self.received <= u64::MAX && (self.mode.expected() matches Some(expected)
            ==> self.received <= expected)
    }

    /// The offset of the next byte.
    pub open spec fn offset(self) -> int {
        self.start + self.received
    }

    /// How many new bytes were written so far.
    pub open spec fn appended(self) -> int {
        let first = self.mode.first_new(self.start as int);
        if self.offset() > first {
            self.offset() - first
        } else {
            0
        }
    }

    pub fn new(start: u64, mode: BodyCopyMode) -> (r: BodyCopy)
        ensures
            r.wf(),
            r == (BodyCopy { mode, start, received: 0 }),
            r.appended() == 0,
    {
        BodyCopy { mode, start, received: 0 }
    }

    /// A worker may hand its rest back only while bytes are still missing.
    pub fn can_yield(&self) -> (r: bool)
        ensures
            r == (self.mode.expected() matches Some(expected) ==> self.received < expected),
    {
        match self.mode.expected_bytes() {
            Some(expected) => self.received < expected,
            None => true,
        }
    }

    /// Whether a piece of `length` bytes would go past what was expected.
    pub open spec fn exceeds(self, length: int) -> bool {
        self.mode.expected() matches Some(expected) && self.received + length > expected
    }

    /// How many bytes of a piece of `length` bytes are saved already.
    pub open spec fn saved_part(self, length: int) -> int {
        let saved = self.mode.first_new(self.start as int) - self.offset();
        if saved < 0 {
            0
        } else if saved < length {
            saved
        } else {
            length
        }
    }

    /// Whether a plan places the next piece.
    pub open spec fn places(self, plan: PiecePlan) -> bool {
        &&& !self.exceeds(plan.length as int)
        &&& plan.offset == self.offset()
        &&& plan.offset + plan.length <= u64::MAX
        &&& plan.overlap == self.saved_part(plan.length as int)
    }

    /// Places the next piece of the body, of `length` bytes.
    pub fn place(&self, length: usize) -> (r: Result<PiecePlan, WorkerError>)
        requires
            self.wf(),
        ensures
            r is Ok <==> !self.exceeds(length as int) && self.offset() + length <= u64::MAX,
            r matches Ok(plan) ==> self.places(plan) && plan.length == length,
            r matches Err(error) ==> if self.exceeds(length as int) {
                error == self.mode.overrun(self.mode.expected()->0)
            } else {
                error matches WorkerError::InvalidRange(reason) && reason@
                    == self.mode.offset_overflow()
            },
    {
        match self.mode.expected_bytes() {
            Some(expected) => {
                if length as u64 > expected - self.received {
                    return Err(self.mode.overrun_error(expected));
                }
            },
            None => {},
        }
        let offset: u64 = self.start + self.received;
        if length as u64 > u64::MAX - offset {
            return Err(self.mode.offset_error());
        }
        let overlap: usize = match self.mode {
            BodyCopyMode::Range { write_start, .. } => if write_start <= offset {
                0
            } else if write_start - offset < length as u64 {
                (write_start - offset) as usize
            } else {
                length
            },
            BodyCopyMode::Stream { .. } => 0,
        };
        Ok(PiecePlan { offset, overlap, length })
    }

    /// Records that a placed piece was compared and written; gives the number of new bytes.
    pub fn commit(&mut self, plan: &PiecePlan) -> (delta: u64)
        requires
            old(self).wf(),
            old(self).places(*plan),
        ensures
            final(self).wf(),
            *final(self) == (BodyCopy {
                received: (old(self).received + plan.length) as u64,
                ..*old(self)
            }),
            delta == plan.length - plan.overlap,
            final(self).appended() == old(self).appended() + delta,
    {
        self.received = self.received + plan.length as u64;
        (plan.length - plan.overlap) as u64
    }

    /// Decides what the end of the body means.
    pub fn finish(&self) -> (r: BodyEnd)
        requires
            self.wf(),
        ensures
            match self.mode.expected() {
                Some(expected) => if self.received == expected {
                    r is Complete
                } else {
                    r matches BodyEnd::Incomplete(error) && error == (WorkerError::UnexpectedEof {
                        received: self.received,
                        expected,
                    })
                },
                None => r == BodyEnd::SetLength(self.offset() as u64),
            },
    {
        match self.mode.expected_bytes() {
            Some(expected) => if self.received == expected {
                BodyEnd::Complete
            } else {
                BodyEnd::Incomplete(
                    WorkerError::UnexpectedEof { received: self.received, expected },
                )
            },
            None => BodyEnd::SetLength(self.start + self.received),
        }
    }
}

/// Compares the saved bytes of an overlap with the start of a piece.
pub fn check_overlap(saved: &[u8], piece: &[u8]) -> (r: Result<(), WorkerError>)
    requires
        saved@.len() <= piece@.len(),
    ensures
        r is Ok <==> saved@ == piece@.take(saved@.len() as int),
        r matches Err(error) ==> error == WorkerError::Client(ClientError::ContentChanged),
{
    let mut i: usize = 0;
    while i < saved.len()
        invariant
            i <= saved.len(),
            saved@.len() <= piece@.len(),
            forall|j: int| 0 <= j < i ==> saved@[j] == piece@[j],
        decreases saved.len() - i,
    {
        if saved[i] != piece[i] {
            assert(saved@[i as int] != piece@.take(saved@.len() as int)[i as int]);
            return Err(WorkerError::Client(ClientError::ContentChanged));
        }
        i += 1;
    }
    assert(saved@ =~= piece@.take(saved@.len() as int));
    Ok(())
}

/// Law: a range body that is complete has appended exactly the bytes from where new ones were due
/// to the end of its range, each once.
pub proof fn law_complete_ranges_append_every_new_byte(copy: BodyCopy, expected: u64, write_start: u64)
    requires
        copy.wf(),
        copy.mode == (BodyCopyMode::Range { expected_bytes: expected, write_start }),
        copy.received == expected,
        copy.start <= write_start <= copy.start + expected,
    ensures
        copy.appended() == copy.start + expected - write_start,
{
}

/// Law: pieces are placed side by side from the start of the body, inside what was expected, and of
/// each exactly the bytes before the first new one are only compared.
pub proof fn law_pieces_are_placed_side_by_side(body: BodyCopy, plan: PiecePlan, next: PiecePlan)
    requires
        body.wf(),
        body.places(plan),
        (BodyCopy { received: (body.received + plan.length) as u64, ..body }).places(next),
    ensures
        body.received == 0 ==> plan.offset == body.start,
        next.offset == plan.offset + plan.length,
        plan.overlap <= plan.length,
        body.mode matches BodyCopyMode::Range { expected_bytes, write_start } ==> {
            &&& body.start <= plan.offset
            &&& plan.offset + plan.length <= body.start + expected_bytes
            &&& plan.overlap < plan.length ==> plan.offset + plan.overlap >= write_start
            &&& plan.overlap > 0 ==> plan.offset + plan.overlap <= write_start
        },
        body.mode is Stream ==> plan.overlap == 0,
        body.mode matches BodyCopyMode::Stream { expected_bytes: Some(expected) } ==> plan.offset
            + plan.length <= body.start + expected,
{
}

/// Law: saved bytes agree with a piece exactly where it begins with them; otherwise the file has
/// changed.
pub proof fn law_overlaps_must_agree(saved: &[u8], piece: &[u8], r: Result<(), WorkerError>)
    requires
        saved@.len() <= piece@.len(),
        call_ensures(check_overlap, (saved, piece), r),
    ensures
        r is Ok <==> forall|i: int| 0 <= i < saved@.len() ==> (#[trigger] saved@[i]) == piece@[i],
        r matches Err(error) ==> error.changed(),
{
    if forall|i: int| 0 <= i < saved@.len() ==> (#[trigger] saved@[i]) == piece@[i] {
        assert(saved@ =~= piece@.take(saved@.len() as int));
    }
    if saved@ == piece@.take(saved@.len() as int) {
        assert forall|i: int| 0 <= i < saved@.len() implies (#[trigger] saved@[i]) == piece@[i] by {
            assert(piece@.take(saved@.len() as int)[i] == piece@[i]);
        }
    }
}

} // verus!
