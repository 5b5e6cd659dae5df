use kosmos_downloader::client::{ClientError, HttpStatus, RemoteFileInfo};
use kosmos_downloader::engine::error::CoordinatorError;
use kosmos_downloader::engine::model::{DownloadAction, DownloadStatus, DuplicateChoice};
use kosmos_downloader::engine::session::actions::RemovalOutcome;
use kosmos_downloader::engine::session::duplicate::OpenOutcome;
use kosmos_downloader::engine::session::{
    Effect, FetchInfoKind, FetchInfoMsg, Session, Stopped, WorkerLaunch,
};
use kosmos_downloader::engine::target::{TargetMode, TargetOutcome};
use kosmos_downloader::engine::worker::{WorkerError, WorkerMsg};
use kosmos_downloader::path::FilePath;
use kosmos_downloader::storage::{IoFault, IoKind, StorageError};

const URL: &str = "https://example.com/file.bin";

fn info(total: u64) -> RemoteFileInfo {
    RemoteFileInfo {
        content_length: Some(total),
        accepts_ranges: true,
        filename: "file.bin".into(),
        etag: Some("\"v1\"".into()),
        last_modified: None,
    }
}

fn start(session: &mut Session, url: &str) {
    let action = DownloadAction::Start {
        url: url.into(),
        save_path: FilePath::new("C:\\Downloads"),
        num_chunks: 2,
    };
    let next = match session.handle_action(action) {
        Effect::Stop { cancel: true, next } => next,
        _ => panic!("a start replaces what is running"),
    };
    match session.handle_stopped(next, Vec::new(), 0) {
        Effect::Fetch { kind: FetchInfoKind::Start { target, .. }, saved: None } => {
            assert_eq!(target, TargetMode::Ask);
        }
        _ => panic!("the server is asked about the file"),
    }
    assert_eq!(session.status, DownloadStatus::Connecting);
}

fn answer(session: &Session, kind: FetchInfoKind, result: Result<RemoteFileInfo, WorkerError>) -> FetchInfoMsg {
    FetchInfoMsg { session_id: session.session_id, kind, result }
}

fn start_kind() -> FetchInfoKind {
    FetchInfoKind::Start {
        save_path: FilePath::new("C:\\Downloads"),
        num_chunks: 2,
        target: TargetMode::Ask,
    }
}

fn created() -> TargetOutcome {
    TargetOutcome::Created {
        filename: "file.bin".into(),
        path: FilePath::new("C:\\Downloads\\file.bin"),
    }
}

/// A session that downloads eight bytes in two chunks.
fn running() -> Session {
    let mut session = Session::new(0);
    start(&mut session, URL);
    let msg = answer(&session, start_kind(), Ok(info(8)));
    let request = match session.handle_info(msg, 1) {
        Effect::CreateTarget(request) => request,
        _ => panic!("the target is created"),
    };
    let launches = match session.target_created(request, created(), 1) {
        Effect::Launch(launches) => launches,
        _ => panic!("the workers start"),
    };
    assert_eq!(launches.len(), 2);
    assert!(matches!(
        &launches[1],
        WorkerLaunch::Chunk { range, downloaded: 0, total_size: 8, validator: Some(tag) }
            if range.start == 4 && range.end == 7 && tag == "\"v1\""
    ));
    session
}

fn progress(session: &Session, chunk_id: usize, bytes_delta: u64) -> WorkerMsg {
    WorkerMsg::Progress { session_id: session.session_id, chunk_id, bytes_delta }
}

fn done(session: &Session, chunk_id: usize) -> WorkerMsg {
    WorkerMsg::Done { session_id: session.session_id, chunk_id }
}

#[test]
fn a_download_runs_to_its_end() {
    let mut session = running();
    assert_eq!(session.snapshot.total_bytes, Some(8));
    for chunk in 0..2 {
        let msg = progress(&session, chunk, 4);
        assert!(matches!(session.handle_worker(msg, 2), Effect::Nothing));
    }
    let msg = done(&session, 0);
    assert!(matches!(session.handle_worker(msg, 3), Effect::Nothing));
    let msg = done(&session, 1);
    match session.handle_worker(msg, 3) {
        Effect::Fetch { kind: FetchInfoKind::Complete, saved: Some(saved) } => {
            assert_eq!(saved.chunks.len(), 2);
        }
        _ => panic!("the complete file is checked once more"),
    }
    let msg = answer(&session, FetchInfoKind::Complete, Ok(info(8)));
    assert!(matches!(session.handle_info(msg, 4), Effect::Sync));
    session.file_flushed(Ok(()));
    assert_eq!(session.snapshot.status, DownloadStatus::Completed);
    assert_eq!(session.snapshot.downloaded_bytes, 8);
}

#[test]
fn pausing_and_resuming_keeps_the_saved_bytes() {
    let mut session = running();
    let msg = progress(&session, 0, 3);
    session.handle_worker(msg, 2);
    let next = match session.handle_action(DownloadAction::Pause) {
        Effect::Stop { cancel: true, next: Stopped::Pause } => Stopped::Pause,
        _ => panic!("running workers stop first"),
    };
    let queued = vec![progress(&session, 1, 2)];
    assert!(matches!(session.handle_stopped(next, queued, 3), Effect::Nothing));
    assert_eq!(session.snapshot.status, DownloadStatus::Paused);
    assert_eq!(session.snapshot.downloaded_bytes, 5);
    assert!(session.snapshot.resumable);

    let next = match session.handle_action(DownloadAction::Resume) {
        Effect::Stop { cancel: false, next } => next,
        _ => panic!("a paused download goes on"),
    };
    match session.handle_stopped(next, Vec::new(), 4) {
        Effect::Fetch { kind: FetchInfoKind::Resume, saved: Some(saved) } => {
            assert_eq!(saved.info, info(8));
        }
        _ => panic!("the server is asked again"),
    }
    let stale = FetchInfoMsg {
        session_id: session.session_id - 1,
        kind: FetchInfoKind::Resume,
        result: Ok(info(8)),
    };
    assert!(matches!(session.handle_info(stale, 5), Effect::Nothing));
    assert_eq!(session.status, DownloadStatus::Connecting);
    let msg = answer(&session, FetchInfoKind::Resume, Ok(info(8)));
    match session.handle_info(msg, 5) {
        Effect::Launch(launches) => assert!(matches!(
            &launches[0],
            WorkerLaunch::Chunk { downloaded: 3, .. }
        )),
        _ => panic!("the workers continue"),
    }
    assert_eq!(session.snapshot.downloaded_bytes, 5);
}

#[test]
fn a_changed_file_is_not_resumed() {
    let mut session = running();
    session.handle_action(DownloadAction::Pause);
    session.handle_stopped(Stopped::Pause, Vec::new(), 2);
    session.handle_stopped(Stopped::Resume, Vec::new(), 3);
    let mut other = info(8);
    other.etag = Some("\"v2\"".into());
    let msg = answer(&session, FetchInfoKind::Resume, Ok(other));
    assert!(matches!(session.handle_info(msg, 4), Effect::Nothing));
    assert_eq!(
        session.snapshot.status,
        DownloadStatus::Failed(
            "Cannot safely resume: the remote file changed or could not be validated".into()
        )
    );
}

#[test]
fn changed_content_restarts_a_bounded_number_of_times() {
    let mut session = running();
    let mut restarts = 0;
    loop {
        let msg = WorkerMsg::Error {
            session_id: session.session_id,
            chunk_id: 0,
            error: WorkerError::Client(ClientError::ContentChanged),
            retryable: false,
        };
        session.handle_worker(msg, 2);
        assert!(session.restart_required);
        let next = match session.restart_changed_content() {
            Effect::Stop { next, .. } => next,
            _ => panic!("a changed file is fetched anew"),
        };
        assert!(matches!(session.handle_stopped(next, Vec::new(), 3), Effect::Reset));
        match session.restart_reset(Ok(()), 3) {
            Effect::Fetch { kind: FetchInfoKind::Restart, saved: None } => restarts += 1,
            _ => break,
        }
        assert_eq!(session.snapshot.downloaded_bytes, 0);
        let msg = answer(&session, FetchInfoKind::Restart, Ok(info(8)));
        let (length, described) = match session.handle_info(msg, 4) {
            Effect::Resize { length, info } => (length, info),
            _ => panic!("the target gets its new length"),
        };
        assert_eq!(length, 8);
        assert!(matches!(session.target_resized(described, Ok(()), 5), Effect::Launch(_)));
    }
    assert_eq!(
        session.snapshot.status,
        DownloadStatus::Failed(format!(
            "Remote file keeps changing; stopped after {restarts} automatic restarts"
        ))
    );
    assert!(restarts > 0);
}

#[test]
fn failures_are_retried_then_shown() {
    let mut session = running();
    let failure = |session: &Session| WorkerMsg::Error {
        session_id: session.session_id,
        chunk_id: 1,
        error: WorkerError::UnexpectedEof { received: 1, expected: 4 },
        retryable: true,
    };
    let mut tries = 0;
    let next = loop {
        let msg = failure(&session);
        match session.handle_worker(msg, 2) {
            Effect::Nothing => {
                tries += 1;
                let launches = session.rebalance(2);
                assert_eq!(launches.len(), 1, "the chunk gets a new worker");
            }
            Effect::Stop { cancel: true, next } => break next,
            _ => panic!("a failed worker is replaced or stops the download"),
        }
    };
    assert!(tries > 0);
    let queued = vec![progress(&session, 0, 2)];
    assert!(matches!(session.handle_stopped(next, queued, 3), Effect::Nothing));
    assert_eq!(
        session.snapshot.status,
        DownloadStatus::Failed("Stream #1 error: Unexpected EOF: received 1 of 4 bytes".into())
    );
    assert_eq!(session.snapshot.downloaded_bytes, 2, "queued progress is kept");
    assert!(session.snapshot.resumable);
}

#[test]
fn senseless_reports_stop_the_download() {
    let mut session = running();
    let msg = progress(&session, 0, 5);
    assert!(matches!(session.handle_worker(msg, 2), Effect::Cancel));
    assert_eq!(
        session.snapshot.status,
        DownloadStatus::Failed("Worker reported invalid download progress".into())
    );
    let mut session = running();
    let msg = done(&session, 0);
    assert!(matches!(session.handle_worker(msg, 2), Effect::Cancel));
    let mut session = running();
    let stale = WorkerMsg::Progress { session_id: 0, chunk_id: 0, bytes_delta: 5 };
    assert!(matches!(session.handle_worker(stale, 2), Effect::Nothing));
    assert_eq!(session.status, DownloadStatus::Downloading);
}

#[test]
fn a_repeated_link_is_asked_about() {
    let mut session = running();
    let again = || DownloadAction::Start {
        url: URL.into(),
        save_path: FilePath::new("C:\\Downloads"),
        num_chunks: 2,
    };
    assert!(matches!(session.handle_action(again()), Effect::Nothing));
    let prompt = session.snapshot.duplicate.clone().unwrap();
    assert!(prompt.link_duplicate);
    assert_eq!(prompt.filename, "file.bin");
    let resolve = |session_id, choice| DownloadAction::ResolveDuplicate { session_id, choice };
    assert!(matches!(
        session.handle_action(resolve(prompt.session_id + 1, None)),
        Effect::Nothing
    ));
    assert!(session.duplicate.is_some(), "an answer for another session is ignored");
    match session.handle_action(resolve(prompt.session_id, Some(DuplicateChoice::Numbered))) {
        Effect::Stop { next: Stopped::Start { target, .. }, .. } => {
            assert_eq!(target, TargetMode::Numbered);
        }
        _ => panic!("a numbered copy is started"),
    }

    let mut session = running();
    session.handle_action(DownloadAction::SetDuplicatePreference {
        choice: Some(DuplicateChoice::Overwrite),
    });
    assert!(matches!(
        session.handle_action(again()),
        Effect::Stop { next: Stopped::Start { target: TargetMode::Overwrite, .. }, .. }
    ));
}

fn asked_about_file(bytes: u64) -> Session {
    let mut session = Session::new(0);
    start(&mut session, URL);
    let msg = answer(&session, start_kind(), Ok(info(8)));
    let request = match session.handle_info(msg, 1) {
        Effect::CreateTarget(request) => request,
        _ => panic!("the target is created"),
    };
    let existing = TargetOutcome::Existing {
        filename: "file.bin".into(),
        path: FilePath::new("C:\\Downloads\\file.bin"),
        bytes,
    };
    assert!(matches!(session.target_created(request, existing, 1), Effect::Nothing));
    assert_eq!(session.snapshot.duplicate.as_ref().unwrap().existing_bytes, Some(bytes));
    session
}

fn use_existing(session: &mut Session) -> Effect {
    let action = DownloadAction::ResolveDuplicate {
        session_id: session.session_id,
        choice: Some(DuplicateChoice::UseExisting),
    };
    session.handle_action(action)
}

#[test]
fn an_existing_prefix_is_compared_and_continued() {
    let mut session = asked_about_file(5);
    let request = match use_existing(&mut session) {
        Effect::OpenExisting(request) => request,
        _ => panic!("the file is opened"),
    };
    assert!(!request.complete);
    let (request, samples) = match session.existing_opened(request, OpenOutcome::Opened, 2) {
        Effect::CompareSamples { request, samples } => (request, samples),
        _ => panic!("saved bytes are compared before they are trusted"),
    };
    assert_eq!(samples.starts, [0]);
    assert_eq!(samples.length, 5);
    let request = match session.existing_compared(request, Ok(()), 3) {
        Effect::GrowExisting(request) => request,
        _ => panic!("a trusted file gets room for the rest"),
    };
    assert!(matches!(
        session.existing_grown(request, OpenOutcome::Opened, 4),
        Effect::Launch(_)
    ));
    assert_eq!(session.snapshot.downloaded_bytes, 5);
    assert_eq!(session.status, DownloadStatus::Downloading);
}

#[test]
fn an_existing_file_with_other_bytes_is_refused_untouched() {
    let mut session = asked_about_file(5);
    let request = match use_existing(&mut session) {
        Effect::OpenExisting(request) => request,
        _ => panic!("the file is opened"),
    };
    let request = match session.existing_opened(request, OpenOutcome::Opened, 2) {
        Effect::CompareSamples { request, .. } => request,
        _ => panic!("saved bytes are compared before they are trusted"),
    };
    let differs = Err("Remote file content changed".to_string());
    assert!(matches!(session.existing_compared(request, differs, 3), Effect::Nothing));
    assert_eq!(
        session.snapshot.status,
        DownloadStatus::Failed(
            "Cannot use existing file C:\\Downloads\\file.bin: Remote file content changed. \
             Choose overwrite or a numbered copy instead"
                .into()
        )
    );
    assert!(!session.owns_target);
    assert!(!session.has_storage);
}

#[test]
fn a_trusted_file_that_cannot_grow_is_refused() {
    let mut session = asked_about_file(0);
    let request = match use_existing(&mut session) {
        Effect::OpenExisting(request) => request,
        _ => panic!("the file is opened"),
    };
    let request = match session.existing_opened(request, OpenOutcome::Opened, 2) {
        Effect::GrowExisting(request) => request,
        _ => panic!("an empty file holds nothing to compare"),
    };
    let full = OpenOutcome::TaskFailed("no space".to_string());
    assert!(matches!(session.existing_grown(request, full, 3), Effect::Nothing));
    assert_eq!(
        session.snapshot.status,
        DownloadStatus::Failed(
            "Cannot use existing file C:\\Downloads\\file.bin: it could not be opened: no space. \
             Choose overwrite or a numbered copy instead"
                .into()
        )
    );
}

#[test]
fn an_existing_file_that_does_not_fit_is_refused() {
    let mut session = asked_about_file(9);
    assert!(matches!(use_existing(&mut session), Effect::Nothing));
    assert_eq!(
        session.snapshot.status,
        DownloadStatus::Failed(
            "Cannot use existing file C:\\Downloads\\file.bin: it is larger than the remote file. \
             Choose overwrite or a numbered copy instead"
                .into()
        )
    );
    let mut session = asked_about_file(8);
    let request = match use_existing(&mut session) {
        Effect::OpenExisting(request) => request,
        _ => panic!("the file is opened"),
    };
    let denied = StorageError::Io(IoFault::new(IoKind::PermissionDenied, "denied"));
    assert!(matches!(
        session.existing_opened(request, OpenOutcome::Failed(denied), 2),
        Effect::Nothing
    ));
    assert!(matches!(session.status, DownloadStatus::Failed(_)));
    let mut session = asked_about_file(8);
    let action = DownloadAction::ResolveDuplicate { session_id: session.session_id, choice: None };
    assert!(matches!(session.handle_action(action), Effect::Nothing));
    assert_eq!(session.snapshot.status, DownloadStatus::Idle, "the duplicate is skipped");
}

#[test]
fn targets_that_cannot_be_created_are_explained() {
    let mut session = Session::new(0);
    start(&mut session, URL);
    let msg = answer(&session, start_kind(), Ok(info(8)));
    let request = match session.handle_info(msg, 1) {
        Effect::CreateTarget(request) => request,
        _ => panic!("the target is created"),
    };
    let failed = TargetOutcome::Failed {
        filename: "file.bin".into(),
        path: FilePath::new("C:\\file.bin"),
        source: StorageError::Io(IoFault::new(IoKind::AlreadyExists, "exists")),
    };
    assert!(matches!(session.target_created(request, failed, 1), Effect::Nothing));
    assert_eq!(
        session.snapshot.status,
        DownloadStatus::Failed(
            "Refusing to overwrite existing file C:\\file.bin. Choose a different path or remove it \
             first: I/O error: exists"
                .into()
        )
    );

    let mut session = Session::new(0);
    start(&mut session, URL);
    let unavailable = ClientError::BadStatus(HttpStatus::new(503).unwrap(), URL.into());
    let msg = answer(&session, start_kind(), Err(WorkerError::Client(unavailable)));
    assert!(matches!(session.handle_info(msg, 1), Effect::Nothing));
    assert!(session.snapshot.resumable, "a failed request can be tried again");
}

#[test]
fn removals_need_the_confirmed_download() {
    let mut session = running();
    let remove = |expected_session_id, expected_status, completed_only| DownloadAction::Remove {
        expected_session_id,
        expected_status,
        delete_file: true,
        completed_only,
    };
    let id = session.session_id;
    assert!(matches!(
        session.handle_action(remove(id, DownloadStatus::Paused, false)),
        Effect::Nothing
    ));
    assert!(matches!(
        session.handle_action(remove(id + 1, DownloadStatus::Downloading, false)),
        Effect::Nothing
    ));
    assert!(matches!(
        session.handle_action(remove(id, DownloadStatus::Downloading, true)),
        Effect::Nothing
    ));
    let next = match session.handle_action(remove(id, DownloadStatus::Downloading, false)) {
        Effect::Stop { next, .. } => next,
        _ => panic!("the confirmed download is removed"),
    };
    let request = match session.handle_stopped(next, Vec::new(), 2) {
        Effect::RemoveFile(request) => request,
        _ => panic!("its file is deleted"),
    };
    assert_eq!(request.path, FilePath::new("C:\\Downloads\\file.bin"));
    let denied = RemovalOutcome::Fault(IoFault::new(IoKind::PermissionDenied, "denied"));
    session.file_removed(request, denied);
    assert_eq!(
        session.snapshot.status,
        DownloadStatus::Failed(
            "Failed to delete download file C:\\Downloads\\file.bin: denied".into()
        )
    );

    let mut session = running();
    let id = session.session_id;
    session.handle_action(remove(id, DownloadStatus::Downloading, false));
    if let Effect::RemoveFile(request) =
        session.handle_stopped(Stopped::Remove { delete_file: true }, Vec::new(), 2)
    {
        let gone = RemovalOutcome::Fault(IoFault::new(IoKind::NotFound, "gone"));
        session.file_removed(request, gone);
    }
    assert_eq!(session.snapshot.status, DownloadStatus::Idle);
}

#[test]
fn speeds_are_shown_with_the_remaining_time() {
    let mut session = running();
    let msg = progress(&session, 0, 4);
    session.handle_worker(msg, 2);
    assert_eq!(session.measure_interval(2), None);
    assert_eq!(session.measure_interval(1_000_000_002), Some(1_000_000_000));
    session.refresh(Some(2));
    assert_eq!(session.snapshot.speed_bytes_per_sec, 2);
    assert_eq!(session.snapshot.eta_seconds, Some(2));
    session.refresh(None);
    assert_eq!(session.snapshot.speed_bytes_per_sec, 2);
}

#[test]
fn stalled_workers_are_retried_and_given_up() {
    let mut session = running();
    let later = 10 * 60 * 1_000_000_000;
    let report = session.stalled(later);
    assert_eq!(report.retry, [0, 1]);
    session.confirm_retry(0);
    let msg = WorkerMsg::Yielded { session_id: session.session_id, chunk_id: 0 };
    session.handle_worker(msg, later);
    assert_eq!(session.active_chunks[0].retries, 1);
    assert!(matches!(session.give_up_stalled(1), Effect::Cancel));
    let message = CoordinatorError::Stalled { chunk_id: 1 }.message();
    assert_eq!(session.snapshot.status, DownloadStatus::Failed(message));
    assert!(session.snapshot.resumable);
    assert!(session.split_request().is_none(), "a stopped download is not rebalanced");
}
