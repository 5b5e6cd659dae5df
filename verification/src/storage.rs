//! Target files: how they are opened, and how bytes are placed and read back.
use crate::path;
use crate::path::FilePath;
use crate::text;
use vstd::prelude::*;

verus! {

/// What kind of failure the file system reported.
#[derive(Debug, Clone, Copy, PartialEq, Eq, Structural)]
pub enum IoKind {
    NotFound,
    PermissionDenied,
    AlreadyExists,
    InvalidInput,
    UnexpectedEof,
    Interrupted,
    Other,
}

/// A failure of the file system with its message.
#[derive(Debug)]
pub struct IoFault {
    pub kind: IoKind,
    pub message: String,
}

impl IoFault {
    pub fn new(kind: IoKind, message: &str) -> (r: IoFault)
        ensures
            r.kind == kind,
            r.message@ == message@,
    {
        IoFault { kind, message: message.to_owned() }
    }
}

/// Why a target file could not be used.
#[derive(Debug)]
pub enum StorageError {
    Io(IoFault),
    CreatedFileInitialization(IoFault),
    ZeroWrite,
}

impl StorageError {
    pub open spec fn shown(self) -> Seq<char> {
        match self {
            StorageError::Io(fault) => "I/O error: "@ + fault.message@,
            StorageError::CreatedFileInitialization(fault) =>
                "Created file could not be initialized: "@ + fault.message@,
            StorageError::ZeroWrite => "Zero bytes written during offset write"@,
        }
    }

    /// Whether a file is already there.
    pub open spec fn is_collision(self) -> bool {
        self matches StorageError::Io(fault) && fault.kind == IoKind::AlreadyExists
    }

    /// The message shown to the user.
    pub fn message(&self) -> (r: String)
        ensures
            r@ == self.shown(),
    {
        match self {
            StorageError::Io(fault) => text::join2("I/O error: ", fault.message.as_str()),
            StorageError::CreatedFileInitialization(fault) => text::join2(
                "Created file could not be initialized: ",
                fault.message.as_str(),
            ),
            StorageError::ZeroWrite => "Zero bytes written during offset write".to_string(),
        }
    }

    pub fn collides(&self) -> (r: bool)
        ensures
            r == self.is_collision(),
    {
        match self {
            StorageError::Io(fault) => match fault.kind {
                IoKind::AlreadyExists => true,
                _ => false,
            },
            _ => false,
        }
    }

    /// Whether the failure left a file behind that this program created.
    pub fn left_created_file(&self) -> (r: bool)
        ensures
            r == (self is CreatedFileInitialization),
    {
        match self {
            StorageError::CreatedFileInitialization(_) => true,
            _ => false,
        }
    }
}

/// How a target file is opened.
pub struct OpenPlan {
    /// The directory to create first, if any.
    pub create_dir: Option<FilePath>,
    /// Only a file that does not exist yet may be opened.
    pub exclusive: bool,
    /// Existing contents are discarded.
    pub truncate: bool,
}

/// The directory that holds a path, unless it is the current one.
pub open spec fn dir_to_create(target: Seq<char>) -> Option<Seq<char>> {
    match path::parent_of(target) {
        Some(dir) => if dir.len() > 0 {
            Some(dir)
        } else {
            None
        },
        None => None,
    }
}

impl OpenPlan {
    pub open spec fn dir_view(self) -> Option<Seq<char>> {
        match self.create_dir {
            Some(dir) => Some(dir@),
            None => None,
        }
    }

    fn open(target: &FilePath, truncate: bool, exclusive: bool) -> (r: OpenPlan)
        ensures
            r.dir_view() == dir_to_create(target@),
            r.exclusive == exclusive,
            r.truncate == truncate,
    {
        let create_dir = match target.parent() {
            Some(dir) => if dir.is_empty() {
                None
            } else {
                Some(dir)
            },
            None => None,
        };
        OpenPlan { create_dir, exclusive, truncate }
    }

    /// A new target file that replaces nothing.
    pub fn create_new(target: &FilePath) -> (r: OpenPlan)
        ensures
            r.dir_view() == dir_to_create(target@),
            r.exclusive,
            r.truncate,
    {
        Self::open(target, true, true)
    }

    /// A target file that may exist; `truncate` discards what it holds.
    pub fn create_or_open(target: &FilePath, truncate: bool) -> (r: OpenPlan)
        ensures
            r.dir_view() == dir_to_create(target@),
            !r.exclusive,
            r.truncate == truncate,
    {
        Self::open(target, truncate, false)
    }

    /// The length to give the opened file: the known size of a truncated one, or enough room in
    /// a kept one, which never shrinks.
    pub fn length_to_set(&self, total_size: Option<u64>, current: u64) -> (r: Option<u64>)
        ensures
            r == planned_length(self.truncate, total_size, current),
    {
        match total_size {
            Some(size) => if (self.truncate && size > 0) || (!self.truncate && current < size) {
                Some(size)
            } else {
                None
            },
            None => None,
        }
    }

    /// The error for an opened file whose length could not be set.
    pub fn length_error(&self, fault: IoFault) -> (r: StorageError)
        ensures
            r == (if self.exclusive && self.truncate {
                StorageError::CreatedFileInitialization(fault)
            } else {
                StorageError::Io(fault)
            }),
    {
        if self.exclusive && self.truncate {
            StorageError::CreatedFileInitialization(fault)
        } else {
            StorageError::Io(fault)
        }
    }
}

/// The length that an opened file is set to, if it is set at all.
pub open spec fn planned_length(truncate: bool, total_size: Option<u64>, current: u64) -> Option<
    u64,
> {
    match total_size {
        Some(size) => if (truncate && size > 0) || (!truncate && current < size) {
            Some(size)
        } else {
            None
        },
        None => None,
    }
}

/// Law: opening a file to keep it never shortens it, and gives it at least the known size.
pub proof fn law_kept_files_only_grow(total_size: Option<u64>, current: u64)
    ensures
        ({
            let length = match planned_length(false, total_size, current) {
                Some(size) => size,
                None => current,
            };
            length >= current && (total_size matches Some(size) ==> length >= size)
        }),
{
}

/// Data being written at an offset, in as many writes as it takes.
pub struct WriteCursor {
    pub start: u64,
    pub length: usize,
    pub written: usize,
}

impl WriteCursor {
    pub open spec fn wf(self) -> bool {
        self.written <= self.length && self.start + self.length <= u64::MAX
    }

    pub fn new(start: u64, length: usize) -> (r: WriteCursor)
        requires
            start + length <= u64::MAX,
        ensures
            r.wf(),
            r == (WriteCursor { start, length, written: 0 }),
    {
        WriteCursor { start, length, written: 0 }
    }

    /// Where the next write goes and which byte of the data it starts with.
    pub fn pending(&self) -> (r: Option<(u64, usize)>)
        requires
            self.wf(),
        ensures
            r == (if self.written < self.length {
                Some(((self.start + self.written) as u64, self.written))
            } else {
                None
            }),
    {
        if self.written < self.length {
            Some((self.start + self.written as u64, self.written))
        } else {
            None
        }
    }

    /// Records a write of `count` bytes.
    pub fn wrote(&mut self, count: usize) -> (r: Result<(), StorageError>)
        requires
            old(self).wf(),
            count <= old(self).length - old(self).written,
        ensures
            final(self).wf(),
            r is Err <==> count == 0,
            r matches Err(error) ==> error is ZeroWrite && *final(self) == *old(self),
            r is Ok ==> *final(self) == (WriteCursor {
                written: (old(self).written + count) as usize,
                ..*old(self)
            }),
    {
        if count == 0 {
            return Err(StorageError::ZeroWrite);
        }
        self.written = self.written + count;
        Ok(())
    }
}

/// What one read gave.
pub enum ReadOutcome {
    Read(usize),
    Fault(IoFault),
}

/// A buffer being filled from an offset, in as many reads as it takes.
pub struct ReadCursor {
    pub start: u64,
    pub length: usize,
    pub filled: usize,
}

impl ReadCursor {
    pub open spec fn wf(self) -> bool {
        self.filled <= self.length && self.start + self.length <= u64::MAX
    }

    /// A read of exactly `length` bytes, refused where its range leaves the offset space.
    pub fn new(start: u64, length: usize) -> (r: Result<ReadCursor, StorageError>)
        ensures
            r is Ok <==> start + length <= u64::MAX,
            r matches Ok(cursor) ==> cursor.wf() && cursor == (ReadCursor {
                start,
                length,
                filled: 0,
            }),
            r matches Err(error) ==> error matches StorageError::Io(fault) && fault.kind
                == IoKind::InvalidInput && fault.message@ == "read range overflows u64"@,
    {
        if length as u64 > u64::MAX - start {
            return Err(
                StorageError::Io(IoFault::new(IoKind::InvalidInput, "read range overflows u64")),
            );
        }
        Ok(ReadCursor { start, length, filled: 0 })
    }

    /// Where the next read starts and which part of the buffer it fills.
    pub fn pending(&self) -> (r: Option<(u64, usize)>)
        requires
            self.wf(),
        ensures
            r == (if self.filled < self.length {
                Some(((self.start + self.filled) as u64, self.filled))
            } else {
                None
            }),
    {
        if self.filled < self.length {
            Some((self.start + self.filled as u64, self.filled))
        } else {
            None
        }
    }

    /// Records one read: an interrupted one is tried again, and the end of the file is an error.
    pub fn record(&mut self, outcome: ReadOutcome) -> (r: Result<(), StorageError>)
        requires
            old(self).wf(),
            outcome matches ReadOutcome::Read(count) ==> count <= old(self).length
                - old(self).filled,
        ensures
            final(self).wf(),
            final(self).start == old(self).start,
            final(self).length == old(self).length,
            match outcome {
                ReadOutcome::Read(count) => if count == 0 {
                    r matches Err(StorageError::Io(fault)) && fault.kind == IoKind::UnexpectedEof
                        && fault.message@ == "unexpected EOF during offset read"@
                        && *final(self) == *old(self)
                } else {
                    r is Ok && final(self).filled == old(self).filled + count
                },
                ReadOutcome::Fault(fault) => *final(self) == *old(self) && if fault.kind
                    == IoKind::Interrupted {
                    r is Ok
                } else {
                    r == Err::<(), StorageError>(StorageError::Io(fault))
                },
            },
    {
        match outcome {
            ReadOutcome::Read(count) => {
                if count == 0 {
                    return Err(
                        StorageError::Io(
                            IoFault::new(
                                IoKind::UnexpectedEof,
                                "unexpected EOF during offset read",
                            ),
                        ),
                    );
                }
                self.filled = self.filled + count;
                Ok(())
            },
            ReadOutcome::Fault(fault) => match fault.kind {
                IoKind::Interrupted => Ok(()),
                _ => Err(StorageError::Io(fault)),
            },
        }
    }
}

/// Law: a file that is emptied first gets exactly the known size, unless that is zero or unknown.
pub proof fn law_emptied_files_get_their_size(total_size: Option<u64>, current: u64)
    ensures
        total_size matches Some(size) ==> (size > 0 ==> planned_length(true, total_size, current)
            == Some(size)),
        total_size is None || total_size == Some(0u64) ==> planned_length(
            true,
            total_size,
            current,
        ) is None,
        planned_length(false, total_size, current) matches Some(length) ==> total_size == Some(
            length,
        ) && length > current,
{
}

/// Law: writes follow each other without a gap: each goes to the offset of the first byte that is
/// not written yet, and nothing is left once every byte is written.
pub proof fn law_writes_follow_each_other(cursor: WriteCursor, r: Option<(u64, usize)>)
    requires
        cursor.wf(),
        call_ensures(WriteCursor::pending, (&cursor,), r),
    ensures
        r matches Some((offset, from)) ==> from == cursor.written && from < cursor.length && offset
            - from == cursor.start,
        r is None <==> cursor.written == cursor.length,
{
}

/// Law: reads follow each other without a gap, and the buffer is full exactly where none is left.
pub proof fn law_reads_follow_each_other(cursor: ReadCursor, r: Option<(u64, usize)>)
    requires
        cursor.wf(),
        call_ensures(ReadCursor::pending, (&cursor,), r),
    ensures
        r matches Some((offset, from)) ==> from == cursor.filled && from < cursor.length && offset
            - from == cursor.start,
        r is None <==> cursor.filled == cursor.length,
{
}

/// Law: a new target file is opened only where none is there; one that is kept is not emptied.
pub proof fn law_new_targets_replace_nothing(
    target: FilePath,
    truncate: bool,
    created: OpenPlan,
    opened: OpenPlan,
)
    requires
        call_ensures(OpenPlan::create_new, (&target,), created),
        call_ensures(OpenPlan::create_or_open, (&target, truncate), opened),
    ensures
        created.exclusive,
        !opened.exclusive,
        opened.truncate ==> truncate,
        created.dir_view() == opened.dir_view(),
        created.dir_view() matches Some(dir) ==> dir.len() > 0 && path::parent_of(target@) == Some(
            dir,
        ),
{
}

/// Law: a failure counts as a collision exactly where the file system says that a file is there.
pub proof fn law_collisions_are_files_that_exist(error: StorageError)
    ensures
        error.is_collision() <==> (error matches StorageError::Io(fault) && fault.kind
            == IoKind::AlreadyExists),
{
}

} // verus!
