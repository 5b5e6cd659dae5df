use kosmos_downloader::client::{ClientError, HttpFault, HttpStatus};
use kosmos_downloader::engine::chunks::ChunkRange;
use kosmos_downloader::engine::worker::body::{
    check_overlap, BodyCopy, BodyCopyMode, BodyEnd,
};
use kosmos_downloader::engine::worker::request::{plan_chunk, ChunkPlan};
use kosmos_downloader::engine::worker::{
    TaskAction, TaskEvent, WorkerError, WorkerMsg, WorkerTask,
};
use kosmos_downloader::storage::{IoFault, IoKind, StorageError};

/// Copies pieces into a file the way a worker does, and reports what it added.
fn copy(
    file: &mut Vec<u8>,
    start: u64,
    mode: BodyCopyMode,
    pieces: &[&[u8]],
) -> (u64, Result<(), WorkerError>) {
    let mut body = BodyCopy::new(start, mode);
    let mut added = 0;
    for piece in pieces {
        let plan = match body.place(piece.len()) {
            Ok(plan) => plan,
            Err(error) => return (added, Err(error)),
        };
        let offset = plan.offset as usize;
        let saved = file[offset..offset + plan.overlap].to_vec();
        if let Err(error) = check_overlap(&saved, &piece[..plan.overlap]) {
            return (added, Err(error));
        }
        for (index, byte) in piece.iter().enumerate().skip(plan.overlap) {
            let at = offset + index;
            if at == file.len() {
                file.push(*byte);
            } else {
                file[at] = *byte;
            }
        }
        added += body.commit(&plan);
    }
    match body.finish() {
        BodyEnd::Incomplete(error) => (added, Err(error)),
        BodyEnd::SetLength(length) => {
            file.truncate(length as usize);
            (added, Ok(()))
        }
        BodyEnd::Complete => (added, Ok(())),
    }
}

#[test]
fn unknown_length_streams_truncate_to_received_bytes() {
    let mut file = vec![0; 64];
    let mode = BodyCopyMode::Stream { expected_bytes: None };
    let (added, result) = copy(&mut file, 0, mode, &[b"unknown ", b"length"]);
    assert!(result.is_ok());
    assert_eq!(added, 14);
    assert_eq!(file, b"unknown length");
}

#[test]
fn resumed_ranges_check_the_overlap_before_adding_bytes() {
    for changed in [false, true] {
        let mut file = b"preabcde000".to_vec();
        let middle: &[u8] = if changed { b"cDfX" } else { b"cdeX" };
        let mode = BodyCopyMode::Range { expected_bytes: 8, write_start: 8 };
        let (added, result) = copy(&mut file, 3, mode, &[b"ab", middle, b"YZ"]);
        if changed {
            let error = result.unwrap_err();
            assert!(error.is_content_changed());
            assert!(!error.is_retryable());
            assert_eq!(file, b"preabcde000");
        } else {
            assert!(result.is_ok());
            assert_eq!(added, 3, "overlap must not inflate progress");
            assert_eq!(file, b"preabcdeXYZ");
        }
    }
}

#[test]
fn range_overruns_are_rejected_before_writing() {
    let mut file = b"old".to_vec();
    let mode = BodyCopyMode::Range { expected_bytes: 3, write_start: 0 };
    let (added, result) = copy(&mut file, 0, mode, &[b"four"]);
    let error = result.unwrap_err();
    assert_eq!(error.message(), "Range response exceeded its expected 3 bytes");
    assert!(matches!(error, WorkerError::RangeResponseOverrun { expected: 3 }));
    assert!(!error.is_retryable());
    assert_eq!(added, 0);
    assert_eq!(file, b"old");
}

#[test]
fn stream_overruns_have_their_own_message() {
    let mut file = Vec::new();
    let mode = BodyCopyMode::Stream { expected_bytes: Some(3) };
    let (_, result) = copy(&mut file, 0, mode, &[b"four"]);
    assert!(matches!(result, Err(WorkerError::ResponseOverrun { expected: 3 })));
}

#[test]
fn premature_ends_are_retryable() {
    let mut file = vec![0; 3];
    let mode = BodyCopyMode::Range { expected_bytes: 3, write_start: 0 };
    let (added, result) = copy(&mut file, 0, mode, &[b"xy"]);
    assert_eq!(added, 2);
    let error = result.unwrap_err();
    assert_eq!(error.message(), "Unexpected EOF: received 2 of 3 bytes");
    assert!(matches!(error, WorkerError::UnexpectedEof { received: 2, expected: 3 }));
    assert!(error.is_retryable());
}

#[test]
fn invalid_chunk_ranges_are_typed() {
    let plan = plan_chunk(ChunkRange { id: 11, start: 1, end: 0 }, 0, None);
    match plan {
        ChunkPlan::Invalid(error) => {
            assert!(matches!(error, WorkerError::InvalidRange("Invalid chunk range")));
            assert!(!error.is_retryable());
        }
        _ => panic!("a range that ends before its start makes no sense"),
    }
}

#[test]
fn resumed_chunks_request_an_overlap_unless_a_tag_vouches() {
    let chunk = ChunkRange { id: 0, start: 100_000, end: 199_999 };
    match plan_chunk(chunk, 50_000, None) {
        ChunkPlan::Request { request_start, end, expected_bytes, write_start } => {
            assert_eq!(request_start, 150_000 - 4096);
            assert_eq!(end, 199_999);
            assert_eq!(expected_bytes, 50_000 + 4096);
            assert_eq!(write_start, 150_000);
        }
        _ => panic!("the rest of the chunk is requested"),
    }
    match plan_chunk(chunk, 50_000, Some("\"v1\"")) {
        ChunkPlan::Request { request_start, write_start, .. } => {
            assert_eq!(request_start, 150_000);
            assert_eq!(write_start, 150_000);
        }
        _ => panic!("the rest of the chunk is requested"),
    }
    assert!(matches!(plan_chunk(chunk, 100_000, None), ChunkPlan::AlreadyDone));
}

#[test]
fn pieces_beyond_the_last_offset_are_refused() {
    let body = BodyCopy::new(u64::MAX, BodyCopyMode::Stream { expected_bytes: None });
    assert!(matches!(body.place(2), Err(WorkerError::InvalidRange(_))));
}

#[test]
fn the_rest_is_handed_back_only_while_bytes_are_missing() {
    let mode = BodyCopyMode::Range { expected_bytes: 2, write_start: 0 };
    let mut body = BodyCopy::new(0, mode);
    assert!(body.can_yield());
    let plan = body.place(2).unwrap();
    assert_eq!(body.commit(&plan), 2);
    assert!(!body.can_yield());
}

fn fault() -> HttpFault {
    HttpFault {
        message: "reset".into(),
        builder: false,
        decode: false,
        connect: false,
        timeout: false,
        request: false,
        body: true,
    }
}

#[test]
fn failures_carry_whether_they_can_be_retried() {
    assert!(matches!(
        WorkerMsg::body_failed(1, 2, fault()),
        WorkerMsg::Error {
            session_id: 1,
            chunk_id: 2,
            error: WorkerError::ResponseBody(_),
            retryable: true,
        }
    ));
    assert!(matches!(
        WorkerMsg::request_failed(1, 2, ClientError::ContentChanged),
        WorkerMsg::Error { retryable: false, .. }
    ));
    let unavailable = ClientError::BadStatus(HttpStatus::new(503).unwrap(), "u".into());
    assert!(matches!(
        WorkerMsg::request_failed(1, 2, unavailable),
        WorkerMsg::Error { retryable: true, .. }
    ));
    let write = WorkerError::Storage(StorageError::Io(IoFault::new(IoKind::Other, "disk full")));
    assert_eq!(write.message(), "I/O error: disk full");
    assert!(matches!(
        WorkerMsg::failed(43, 0, write),
        WorkerMsg::Error { error: WorkerError::Storage(_), retryable: false, .. }
    ));
}

fn range_task() -> WorkerTask {
    WorkerTask::for_chunk(45, ChunkRange { id: 9, start: 0, end: 8 }, 0, None)
}

fn reading(task: &mut WorkerTask) {
    assert!(matches!(
        task.step(TaskEvent::Continue),
        TaskAction::Request { start: 0, end: Some(8) }
    ));
    assert!(matches!(task.step(TaskEvent::Replied), TaskAction::Read));
}

#[test]
fn yielded_tasks_report_their_progress_before_acknowledging() {
    let mut task = range_task();
    reading(&mut task);
    for _ in 0..2 {
        assert!(matches!(task.step(TaskEvent::Piece(3)), TaskAction::Store(plan) if plan.overlap == 0));
        assert!(matches!(
            task.step(TaskEvent::Stored(Ok(()))),
            TaskAction::Report {
                msg: WorkerMsg::Progress { session_id: 45, chunk_id: 9, bytes_delta: 3 },
                last: false,
            }
        ));
        assert!(matches!(task.step(TaskEvent::Continue), TaskAction::Read));
    }
    assert_eq!(task.reported, 6);
    assert!(task.can_yield());
    assert!(matches!(
        task.step(TaskEvent::YieldAsked),
        TaskAction::Report {
            msg: WorkerMsg::Yielded { session_id: 45, chunk_id: 9 },
            last: true,
        }
    ));
    assert!(matches!(task.step(TaskEvent::Piece(3)), TaskAction::Stop));
}

#[test]
fn complete_tasks_report_done_and_cannot_yield() {
    let mut task = range_task();
    reading(&mut task);
    task.step(TaskEvent::Piece(9));
    task.step(TaskEvent::Stored(Ok(())));
    assert!(!task.can_yield(), "nothing is left to hand back");
    assert!(matches!(
        task.step(TaskEvent::Finished),
        TaskAction::Report { msg: WorkerMsg::Done { session_id: 45, chunk_id: 9 }, last: true }
    ));
    let mut saved = WorkerTask::for_chunk(1, ChunkRange { id: 0, start: 0, end: 8 }, 9, None);
    assert!(matches!(
        saved.step(TaskEvent::Continue),
        TaskAction::Report { msg: WorkerMsg::Done { .. }, last: true }
    ));
}

#[test]
fn cancelled_tasks_end_without_a_report() {
    let mut task = range_task();
    reading(&mut task);
    assert!(matches!(task.step(TaskEvent::Cancelled), TaskAction::Stop));
    assert!(matches!(task.step(TaskEvent::Finished), TaskAction::Stop));
}

#[test]
fn failing_tasks_say_whether_trying_again_helps() {
    let mut refused = range_task();
    refused.step(TaskEvent::Continue);
    assert!(matches!(
        refused.step(TaskEvent::Refused(ClientError::ContentChanged)),
        TaskAction::Report { msg: WorkerMsg::Error { retryable: false, .. }, last: true }
    ));
    let mut broken = range_task();
    reading(&mut broken);
    assert!(matches!(
        broken.step(TaskEvent::Broken(fault())),
        TaskAction::Report {
            msg: WorkerMsg::Error { error: WorkerError::ResponseBody(_), retryable: true, .. },
            last: true,
        }
    ));
    let mut short = range_task();
    reading(&mut short);
    assert!(matches!(
        short.step(TaskEvent::Finished),
        TaskAction::Report {
            msg: WorkerMsg::Error {
                error: WorkerError::UnexpectedEof { received: 0, expected: 9 },
                retryable: true,
                ..
            },
            last: true,
        }
    ));
    let mut long = range_task();
    reading(&mut long);
    assert!(matches!(
        long.step(TaskEvent::Piece(10)),
        TaskAction::Report {
            msg: WorkerMsg::Error {
                error: WorkerError::RangeResponseOverrun { expected: 9 },
                retryable: false,
                ..
            },
            last: true,
        }
    ));
    let mut unwritten = range_task();
    reading(&mut unwritten);
    unwritten.step(TaskEvent::Piece(1));
    let full = WorkerError::Storage(StorageError::Io(IoFault::new(IoKind::Other, "disk full")));
    assert!(matches!(
        unwritten.step(TaskEvent::Stored(Err(full))),
        TaskAction::Report {
            msg: WorkerMsg::Error { error: WorkerError::Storage(_), retryable: false, .. },
            last: true,
        }
    ));
}

#[test]
fn streams_of_unknown_length_size_the_file_at_their_end() {
    let (mut task, action) = WorkerTask::for_stream(41, None);
    assert!(matches!(action, TaskAction::Request { start: 0, end: None }));
    assert!(!task.can_yield(), "a stream is not handed back");
    assert!(matches!(task.step(TaskEvent::Replied), TaskAction::Read));
    task.step(TaskEvent::Piece(14));
    task.step(TaskEvent::Stored(Ok(())));
    assert!(matches!(task.step(TaskEvent::Finished), TaskAction::SetLength(14)));
    assert!(matches!(
        task.step(TaskEvent::Sized(Ok(()))),
        TaskAction::Report { msg: WorkerMsg::Done { session_id: 41, chunk_id: 0 }, last: true }
    ));
}
