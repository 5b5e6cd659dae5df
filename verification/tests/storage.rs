use kosmos_downloader::path::FilePath;
use kosmos_downloader::storage::{
    IoFault, IoKind, OpenPlan, ReadCursor, ReadOutcome, StorageError, WriteCursor,
};

fn read_all(file: &[u8], start: u64, length: usize) -> Result<Vec<u8>, StorageError> {
    let mut cursor = ReadCursor::new(start, length)?;
    let mut data = Vec::new();
    while let Some((offset, filled)) = cursor.pending() {
        let from = (offset as usize).min(file.len());
        let to = (from + (length - filled).min(3)).min(file.len());
        data.extend_from_slice(&file[from..to]);
        cursor.record(ReadOutcome::Read(to - from))?;
    }
    Ok(data)
}

#[test]
fn test_storage_preallocation() {
    let target = FilePath::new("C:\\Downloads\\new.bin");
    let plan = OpenPlan::create_or_open(&target, true);
    assert!(plan.truncate);
    assert!(!plan.exclusive);
    assert_eq!(plan.create_dir, Some(FilePath::new("C:\\Downloads")));
    let size = 1024 * 1024;
    assert_eq!(plan.length_to_set(Some(size), 0), Some(size));
}

#[test]
fn test_storage_open_without_truncation_preserves_and_extends() {
    let target = FilePath::new("existing.bin");
    let plan = OpenPlan::create_or_open(&target, false);
    assert!(!plan.truncate);
    let original = 17;
    assert_eq!(plan.length_to_set(Some(4), original), None, "kept contents never shrink");
    assert_eq!(plan.length_to_set(Some(original + 8), original), Some(original + 8));
    assert_eq!(plan.length_to_set(None, original), None);
}

#[test]
fn test_storage_read_at_reads_requested_offset() {
    assert_eq!(read_all(b"0123456789", 3, 4).unwrap(), b"3456");
}

#[test]
fn test_storage_read_at_reports_unexpected_eof() {
    let error = read_all(b"abc", 2, 2).unwrap_err();
    assert!(matches!(
        error,
        StorageError::Io(error) if error.kind == IoKind::UnexpectedEof
    ));
}

#[test]
fn test_storage_read_at_rejects_offset_overflow() {
    let error = read_all(b"", u64::MAX, 1).unwrap_err();
    assert!(matches!(
        error,
        StorageError::Io(error) if error.kind == IoKind::InvalidInput
    ));
}

#[test]
fn interrupted_reads_go_on_and_other_faults_end_them() {
    let mut cursor = ReadCursor::new(0, 2).unwrap();
    assert!(cursor.record(ReadOutcome::Fault(IoFault::new(IoKind::Interrupted, "signal"))).is_ok());
    assert_eq!(cursor.pending(), Some((0, 0)));
    assert!(cursor.record(ReadOutcome::Fault(IoFault::new(IoKind::Other, "bad disk"))).is_err());
}

#[test]
fn writes_continue_until_every_byte_is_placed() {
    let mut cursor = WriteCursor::new(100, 5);
    assert_eq!(cursor.pending(), Some((100, 0)));
    assert!(cursor.wrote(3).is_ok());
    assert_eq!(cursor.pending(), Some((103, 3)));
    assert!(matches!(cursor.wrote(0), Err(StorageError::ZeroWrite)));
    assert!(cursor.wrote(2).is_ok());
    assert_eq!(cursor.pending(), None);
}

#[test]
fn a_new_file_that_cannot_be_sized_is_reported_as_created() {
    let target = FilePath::new("C:\\Downloads\\new.bin");
    let plan = OpenPlan::create_new(&target);
    assert!(plan.exclusive);
    let created = plan.length_error(IoFault::new(IoKind::Other, "disk full"));
    assert!(created.left_created_file());
    assert_eq!(created.message(), "Created file could not be initialized: disk full");
    let opened = OpenPlan::create_or_open(&target, false)
        .length_error(IoFault::new(IoKind::Other, "disk full"));
    assert!(!opened.left_created_file());
    assert_eq!(opened.message(), "I/O error: disk full");
    let exists = StorageError::Io(IoFault::new(IoKind::AlreadyExists, "exists"));
    assert!(exists.collides());
    assert!(!StorageError::ZeroWrite.collides());
}
