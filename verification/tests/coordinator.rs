use kosmos_downloader::engine::chunks::{calculate_chunks, ChunkRange};
use kosmos_downloader::engine::error::CoordinatorError;
use kosmos_downloader::engine::fetch::{saved_samples, FetchAction, FetchEvent, FetchTask};
use kosmos_downloader::engine::progress::{drain_cancelled_progress, record_done, record_progress};
use kosmos_downloader::engine::resume::{
    completed_chunks, needs_latest_info, prefix_samples, resume_chunks_are_valid, retries_fetch,
    revive_chunks, seed_existing_prefix, SavedCheck, SavedDownload,
};
use kosmos_downloader::engine::scheduler::{
    calculate_downloaded, count_unfinished, find_stalled, rebalance_chunks, split_candidate,
    split_remaining, start_chunks, take_idle, ActiveChunk, MAX_CHUNK_RETRIES, MIN_SPLIT_BYTES,
    STALL_TIMEOUT,
};
use kosmos_downloader::engine::target::{
    is_directory_target, next_numbered_filename, target_parts, TargetMode, TargetNext,
    TargetOutcome, TargetSearch,
};
use kosmos_downloader::engine::worker::{WorkerError, WorkerMsg};
use kosmos_downloader::client::{ClientError, RemoteFileInfo};
use kosmos_downloader::path::FilePath;
use kosmos_downloader::storage::{IoFault, IoKind, StorageError};

fn chunks_of(total: u64, count: usize) -> Vec<ActiveChunk> {
    calculate_chunks(total, count)
        .into_iter()
        .map(|range| ActiveChunk::new(range, 0))
        .collect()
}

#[test]
fn pause_preserves_queued_failures_and_other_workers_progress() {
    let mut chunks = chunks_of(8, 2);
    let messages = vec![
        WorkerMsg::Error {
            session_id: 0,
            chunk_id: 0,
            error: WorkerError::InvalidRange("stale"),
            retryable: false,
        },
        WorkerMsg::Progress { session_id: 1, chunk_id: 0, bytes_delta: 2 },
        WorkerMsg::Error {
            session_id: 1,
            chunk_id: 0,
            error: WorkerError::InvalidRange("invalid range"),
            retryable: false,
        },
        WorkerMsg::Progress { session_id: 1, chunk_id: 1, bytes_delta: 1 },
    ];
    assert_eq!(
        drain_cancelled_progress(messages, 1, &mut chunks, true, Some(8), true, 0)
            .unwrap_err()
            .message(),
        "Stream #0 error: invalid range",
    );
    assert_eq!(calculate_downloaded(&chunks), 3);
}

#[test]
fn pause_preserves_only_safely_retryable_failures_for_resume() {
    for (resumable, downloaded, retries, can_resume) in [
        (true, 2, 0, true),
        (false, 2, 0, false),
        (true, 2, MAX_CHUNK_RETRIES, false),
        (true, 4, 0, false),
        (true, 5, 0, false),
    ] {
        let mut chunks = chunks_of(8, 2);
        chunks[0].retries = retries;
        let messages = vec![
            WorkerMsg::Progress { session_id: 1, chunk_id: 0, bytes_delta: downloaded },
            WorkerMsg::Error {
                session_id: 1,
                chunk_id: 0,
                error: WorkerError::UnexpectedEof { received: downloaded, expected: 4 },
                retryable: true,
            },
            WorkerMsg::Progress { session_id: 1, chunk_id: 1, bytes_delta: 1 },
        ];

        let result =
            drain_cancelled_progress(messages, 1, &mut chunks, true, Some(8), resumable, 0);
        assert_eq!(result.is_ok(), can_resume);
        assert_eq!(chunks[1].downloaded, 1, "drain all committed progress");
        if can_resume {
            assert_eq!(chunks[0].downloaded, downloaded);
            assert!(resume_chunks_are_valid(&chunks, 8));
        }
        if downloaded > 4 {
            assert!(matches!(result, Err(CoordinatorError::InvalidProgress)));
        }
    }
}

#[test]
fn dynamic_partitions_preserve_progress_and_resume_coverage() {
    for total in [2 * MIN_SPLIT_BYTES + 17, u64::MAX] {
        let mut chunks = chunks_of(total, 1);
        chunks[0].downloaded = 17;
        chunks[0].retries = 2;
        chunks[0].live = true;
        assert!(
            !split_remaining(&mut chunks, 0, 0),
            "cannot split a live writer"
        );
        chunks[0].live = false;
        assert!(split_remaining(&mut chunks, 0, 0));
        assert_eq!(calculate_downloaded(&chunks), 17);
        assert_eq!(chunks[1].retries, 2);
        assert_eq!(chunks[0].range.end + 1, chunks[1].range.start);
        assert!(resume_chunks_are_valid(&chunks, total));
        chunks[1].range.start -= 1;
        assert!(!resume_chunks_are_valid(&chunks, total), "overlap");
        chunks[1].range.start += 2;
        assert!(!resume_chunks_are_valid(&chunks, total), "gap");
        chunks[1].range.start -= 1;
        chunks[1].range.id = 0;
        assert!(!resume_chunks_are_valid(&chunks, total), "duplicate ID");
        chunks[1].range.id = 1;
        chunks[0].downloaded = chunks[0].range.size() + 1;
        assert!(!resume_chunks_are_valid(&chunks, total), "progress overrun");
        chunks[0].downloaded = 17;
        chunks[0].is_done = true;
        assert!(
            !resume_chunks_are_valid(&chunks, total),
            "premature completion"
        );
    }
    let mut chunks = vec![ActiveChunk::new(
        ChunkRange { id: 0, start: 0, end: 2 * MIN_SPLIT_BYTES - 2 },
        0,
    )];
    assert!(!split_remaining(&mut chunks, 0, 0), "avoid tiny tail requests");

    let total = 8 * MIN_SPLIT_BYTES;
    let mut chunks = chunks_of(total, 2);
    chunks[0].downloaded = 17;
    assert!(split_remaining(&mut chunks, 0, 0));
    assert!(chunks[2].range.start < chunks[1].range.start);
    assert!(resume_chunks_are_valid(&chunks, total));
}

#[test]
fn test_next_numbered_filename() {
    assert_eq!(
        next_numbered_filename("windowsdesktop-runtime-8.0.31-win-x64.exe", 1),
        "windowsdesktop-runtime-8.0.31-win-x64_1.exe"
    );
    assert_eq!(
        next_numbered_filename("windowsdesktop-runtime-8.0.31-win-x64.exe", 2),
        "windowsdesktop-runtime-8.0.31-win-x64_2.exe"
    );
    assert_eq!(next_numbered_filename("report_1.pdf", 1), "report_1_1.pdf");
    assert_eq!(next_numbered_filename("report_1.pdf", 2), "report_1_2.pdf");
    assert_eq!(next_numbered_filename("track_01.mp3", 1), "track_01_1.mp3");
    assert_eq!(
        next_numbered_filename("archive.tar.gz", 1),
        "archive.tar_1.gz"
    );
    assert_eq!(next_numbered_filename("README", 1), "README_1");
}

fn collision() -> StorageError {
    StorageError::Io(IoFault::new(IoKind::AlreadyExists, "exists"))
}

#[test]
fn collision_free_creation_returns_the_candidate_path() {
    let existing = ["report.pdf", "report_1.pdf", "report_2.pdf"];
    let dir = FilePath::new("C:\\Downloads");
    let mut search = TargetSearch::new(&dir, true, "report.pdf", TargetMode::Numbered);
    let mut tried: Vec<String> = Vec::new();
    loop {
        let (path, overwrite) = search.attempt();
        assert!(!overwrite, "an existing file must not be opened");
        let name = path.file_name().unwrap();
        tried.push(name.clone());
        if !existing.contains(&name.as_str()) {
            break;
        }
        assert!(matches!(search.failed(collision()), TargetNext::Retry));
    }
    assert_eq!(tried, ["report.pdf", "report_1.pdf", "report_2.pdf", "report_3.pdf"]);
    match search.opened() {
        TargetOutcome::Created { filename, path } => {
            assert_eq!(filename, "report_3.pdf");
            assert_eq!(path, dir.join("report_3.pdf"));
        }
        _ => panic!("a free name is used"),
    }
}

#[test]
fn a_search_that_tried_every_number_says_so() {
    let dir = FilePath::new("C:\\Downloads");
    let mut search = TargetSearch::new(&dir, true, "report.pdf", TargetMode::Numbered);
    let outcome = loop {
        match search.failed(collision()) {
            TargetNext::Retry => {}
            TargetNext::Finished(outcome) => break outcome,
            TargetNext::Measure => panic!("numbered names are not measured"),
        }
    };
    match outcome {
        TargetOutcome::Failed { filename, source, .. } => {
            assert_eq!(filename, "report_9999.pdf");
            assert_eq!(
                source.message(),
                "I/O error: no available filename after 10000 attempts"
            );
        }
        _ => panic!("the search fails"),
    }
}

#[test]
fn rebalancing_stays_within_the_worker_limit() {
    let total = 16 * MIN_SPLIT_BYTES;
    let mut chunks = start_chunks(total, 2, 1);
    for chunk in &mut chunks {
        chunk.live = false;
        chunk.split_requested = true;
    }
    rebalance_chunks(&mut chunks, 3, total, 2);
    assert_eq!(count_unfinished(&chunks), 3);
    assert!(resume_chunks_are_valid(&chunks, total));
    for chunk in &mut chunks {
        chunk.live = false;
        chunk.split_requested = true;
    }
    rebalance_chunks(&mut chunks, 0, total, 3);
    assert_eq!(count_unfinished(&chunks), 3, "nothing is divided beyond the limit");
}

#[test]
fn an_existing_target_is_measured_before_asking() {
    let target = FilePath::new("C:\\Downloads\\report.pdf");
    assert!(!is_directory_target(&target, false));
    assert!(is_directory_target(&FilePath::new("C:\\Downloads\\"), false));
    let (dir, name) = target_parts(&target, false, "other.bin");
    assert_eq!(dir, FilePath::new("C:\\Downloads"));
    assert_eq!(name, "report.pdf");

    let mut search = TargetSearch::new(&target, false, "other.bin", TargetMode::Ask);
    assert!(matches!(search.failed(collision()), TargetNext::Measure));
    assert!(matches!(
        search.measured(Ok(7)),
        TargetOutcome::Existing { filename, bytes: 7, .. } if filename == "report.pdf"
    ));
    let denied = StorageError::Io(IoFault::new(IoKind::PermissionDenied, "denied"));
    assert!(matches!(
        search.failed(denied),
        TargetNext::Finished(TargetOutcome::Failed { .. })
    ));
    let overwrite = TargetSearch::new(&target, false, "other.bin", TargetMode::Overwrite);
    assert!(overwrite.attempt().1);
}

#[test]
fn reports_move_only_their_chunk() {
    let mut chunks = chunks_of(8, 2);
    assert!(record_progress(&mut chunks, 0, 3, true, Some(8), 5));
    assert_eq!((chunks[0].downloaded, chunks[0].last_progress), (3, 5));
    assert_eq!(chunks[1].downloaded, 0);
    assert!(!record_progress(&mut chunks, 0, 2, true, Some(8), 6), "beyond the chunk");
    assert!(!record_progress(&mut chunks, 9, 1, true, Some(8), 6), "unknown chunk");
    assert!(!record_done(&mut chunks, 0, true, Some(8)), "one byte is missing");
    assert!(record_progress(&mut chunks, 0, 1, true, Some(8), 7));
    assert!(record_done(&mut chunks, 0, true, Some(8)));
    assert!(chunks[0].is_done);
    assert_eq!(count_unfinished(&chunks), 1);
}

#[test]
fn idle_workers_take_over_what_is_left() {
    let total = 8 * MIN_SPLIT_BYTES;
    let mut chunks = start_chunks(total, 2, 1);
    assert!(chunks.iter().all(|chunk| chunk.live));
    assert_eq!(split_candidate(&chunks, 2, true), None, "every worker is busy");
    chunks[0].live = false;
    let launched = rebalance_chunks(&mut chunks, 4, total, 2);
    assert!(launched.contains(&0));
    assert!(resume_chunks_are_valid(&chunks, total));
    assert_eq!(calculate_downloaded(&chunks), 0);

    let mut idle = start_chunks(total, 3, 1);
    idle[1].live = false;
    assert_eq!(take_idle(&mut idle, 3), [1]);
    assert!(idle[1].live);
}

#[test]
fn stalled_chunks_are_retried_until_they_are_used_up() {
    let mut chunks = start_chunks(8, 2, 0);
    assert!(find_stalled(&chunks, STALL_TIMEOUT / 2).retry.is_empty());
    chunks[1].retries = MAX_CHUNK_RETRIES;
    let report = find_stalled(&chunks, 2 * STALL_TIMEOUT);
    assert_eq!(report.retry, [0]);
    assert_eq!(report.exhausted, Some(1));
    assert!(!chunks[1].can_retry());
}

#[test]
fn saved_prefixes_become_chunks_again() {
    let seeded = seed_existing_prefix(5, 8, 2, 0);
    assert!(resume_chunks_are_valid(&seeded, 8));
    assert_eq!(calculate_downloaded(&seeded), 5);
    let complete = completed_chunks(8, 0);
    assert_eq!(calculate_downloaded(&complete), 8);
    assert_eq!(count_unfinished(&complete), 0);

    let mut chunks = start_chunks(8, 2, 0);
    chunks[0].retries = 2;
    revive_chunks(&mut chunks, 3);
    assert!(chunks.iter().all(|chunk| chunk.retries == 0));
}

#[test]
fn saved_bytes_are_sampled_across_the_prefix() {
    let samples = prefix_samples(3);
    assert_eq!(samples.length, 3);
    assert_eq!(samples.starts, [0]);
    let many = prefix_samples(10_000_000);
    assert_eq!(many.starts[0], 0);
    assert_eq!(many.starts[many.starts.len() - 1] + many.length, 10_000_000);
}

fn info(etag: Option<&str>) -> RemoteFileInfo {
    RemoteFileInfo {
        content_length: Some(8),
        accepts_ranges: true,
        filename: "file.bin".into(),
        etag: etag.map(String::from),
        last_modified: None,
    }
}

#[test]
fn resumes_compare_bytes_unless_a_strong_tag_vouches() {
    let chunks = seed_existing_prefix(5, 8, 2, 0);
    let vouched = SavedDownload::new(&info(Some("\"v1\"")), &chunks);
    assert_eq!(vouched.check(&info(Some("\"v1\""))), SavedCheck::Vouched);
    assert_eq!(vouched.check(&info(Some("\"v2\""))), SavedCheck::Changed);
    let weak = SavedDownload::new(&info(None), &chunks);
    assert_eq!(weak.check(&info(None)), SavedCheck::Compare);
    assert!(weak.samples_of(0, 8).is_ok());
    assert!(needs_latest_info(true, None));

    let changed = WorkerError::Client(ClientError::ContentChanged);
    assert!(changed.is_content_changed());
    assert!(!retries_fetch(true, 0, &changed));
}

fn weak_info() -> RemoteFileInfo {
    let mut described = info(None);
    described.last_modified = Some("Wed, 16 Sep 2026 12:00:00 GMT".into());
    described
}

#[test]
fn saved_downloads_are_compared_before_they_continue() {
    let chunks = seed_existing_prefix(5, 8, 2, 0);
    let saved = SavedDownload::new(&weak_info(), &chunks);
    assert_eq!(saved_samples(&saved, 8), (vec![(0, 5)], false));
    assert_eq!(saved_samples(&saved, 4), (Vec::new(), true), "progress beyond the file");

    let mut task = FetchTask::new(false, Some(saved));
    assert!(matches!(task.step(FetchEvent::Begin), FetchAction::Ask));
    match task.step(FetchEvent::Described(Ok(weak_info()))) {
        FetchAction::Compare { start: 0, length: 5, total_size: 8, validator } => {
            assert_eq!(validator.as_deref(), Some("Wed, 16 Sep 2026 12:00:00 GMT"));
        }
        _ => panic!("a date alone does not vouch for saved bytes"),
    }
    match task.step(FetchEvent::Compared(Ok(()))) {
        FetchAction::Finish(Ok(described)) => assert_eq!(described, weak_info()),
        _ => panic!("every sample agreed"),
    }
}

#[test]
fn fetches_are_retried_only_where_bytes_are_saved() {
    let broken = || WorkerError::UnexpectedEof { received: 0, expected: 1 };
    let mut fresh = FetchTask::new(false, None);
    fresh.step(FetchEvent::Begin);
    assert!(matches!(
        fresh.step(FetchEvent::Described(Err(broken()))),
        FetchAction::Finish(Err(_))
    ));

    let chunks = seed_existing_prefix(5, 8, 2, 0);
    let mut task = FetchTask::new(false, Some(SavedDownload::new(&weak_info(), &chunks)));
    let mut tries = 0;
    loop {
        assert!(matches!(task.step(FetchEvent::Begin), FetchAction::Ask));
        match task.step(FetchEvent::Described(Err(broken()))) {
            FetchAction::Pause => tries += 1,
            FetchAction::Finish(Err(error)) => {
                assert!(matches!(error, WorkerError::UnexpectedEof { .. }));
                break;
            }
            _ => panic!("a failed question is asked again or given up"),
        }
    }
    assert_eq!(tries, MAX_CHUNK_RETRIES);
}

#[test]
fn final_checks_trust_a_strong_tag_and_whole_streams() {
    let chunks = completed_chunks(8, 0);
    let strong = SavedDownload::new(&info(Some("\"v1\"")), &chunks);
    let mut task = FetchTask::new(true, Some(strong));
    assert!(matches!(task.step(FetchEvent::Begin), FetchAction::Finish(Ok(_))));

    let mut changed = weak_info();
    changed.content_length = Some(9);
    let mut task = FetchTask::new(true, Some(SavedDownload::new(&weak_info(), &chunks)));
    assert!(matches!(task.step(FetchEvent::Begin), FetchAction::Ask));
    match task.step(FetchEvent::Described(Ok(changed))) {
        FetchAction::Finish(Err(error)) => assert!(error.is_content_changed()),
        _ => panic!("another file is not accepted"),
    }
}
