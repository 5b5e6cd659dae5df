use kosmos_downloader::engine::model::{
    DownloadAction, DownloadSnapshot, DownloadStatus, DuplicateChoice, DuplicatePrompt,
};
use kosmos_downloader::history::{downloaded_label, HistoryEntry, HistoryError, HistoryStore};
use kosmos_downloader::path::FilePath;
use kosmos_downloader::storage::{IoFault, IoKind};
use kosmos_downloader::ui::actions::dismiss_duplicate;
use kosmos_downloader::ui::delete::{
    delete_failure_message, history_delete_failure, DeleteDialog, DeleteEffect, DeleteTarget, PendingDelete,
};
use kosmos_downloader::ui::options::OptionsForm;
use kosmos_downloader::ui::projection::{
    active_row, history_table_item, should_project_snapshot, table_item, DuplicateDialog,
    StatusColor,
};
use kosmos_downloader::ui::sort::sort_items;
use kosmos_downloader::ui::state::{SendOutcome, WindowState};
use kosmos_downloader::ui::table::{
    category_matches_id, listed_row_ids, remove_row_by_id, HistoryTracker, Selection,
};
use kosmos_downloader::ui::{AppState, SaveSettings, TableItem};

fn settings() -> SaveSettings {
    SaveSettings::new(FilePath::new("D:\\Downloads"))
}

fn finished_entry(id: i32, filename: &str, total_bytes: u64) -> HistoryEntry {
    HistoryEntry {
        id,
        url: format!("https://example.com/{filename}"),
        filename: filename.to_string(),
        save_path: FilePath::new(filename),
        total_bytes,
        completed_unix_ms: 1_700_000_000_000 + id as u64,
    }
}

fn window() -> WindowState {
    WindowState {
        selection: Selection { row: 0, category: 0, history_row: false },
        sort_column: 0,
        sort_ascending: true,
        url_text: String::new(),
        dest_dir_text: String::new(),
        show_add_dialog: false,
        action_error_message: String::new(),
        completed_listed: false,
        active: active_row(&settings(), &DownloadSnapshot::default()),
        delete: DeleteDialog {
            shown: false,
            filename: String::new(),
            completed_only: false,
            target_completed: false,
            delete_file: false,
        },
        duplicate: DuplicateDialog {
            shown: false,
            selected_option: 0,
            remember: false,
            url: String::new(),
            filename: String::new(),
            is_link: false,
            existing_size: String::new(),
        },
        options: OptionsForm {
            dirs: vec![String::new(); 12],
            file_types: vec![String::new(); 12],
        },
        launch_on_startup: false,
    }
}

fn state_with(entries: &[HistoryEntry]) -> AppState {
    let decoded: Vec<Option<HistoryEntry>> = entries.iter().cloned().map(Some).collect();
    let store = HistoryStore::load_from(FilePath::new("history.jsonl"), &decoded);
    AppState::new(settings(), store, window())
}

fn ids(rows: &[TableItem]) -> Vec<i32> {
    rows.iter().map(|row| row.id).collect()
}

fn finished(session_id: u64) -> DownloadSnapshot {
    DownloadSnapshot {
        session_id,
        url: "https://example.com/file.bin".into(),
        filename: "file.bin".into(),
        save_path: FilePath::new("file.bin"),
        status: DownloadStatus::Completed,
        total_bytes: Some(1024),
        downloaded_bytes: 1024,
        ..Default::default()
    }
}

fn check_confirmation_token() {
    let completed = DeleteTarget {
        session_id: 41,
        status: DownloadStatus::Completed,
        completed_only: true,
    };
    match completed.action(true) {
        DownloadAction::Remove {
            expected_session_id,
            expected_status,
            delete_file,
            completed_only,
        } => {
            assert_eq!(expected_session_id, 41);
            assert_eq!(expected_status, DownloadStatus::Completed);
            assert!(delete_file);
            assert!(completed_only);
        }
        _ => panic!("delete target must produce Remove"),
    }
}

#[test]
fn tests_delete_target_preserves_exact_confirmation_token() {
    check_confirmation_token();
}

#[test]
fn delete_delete_target_preserves_exact_confirmation_token() {
    check_confirmation_token();
}

#[test]
fn a_missing_file_counts_as_deleted() {
    assert!(history_delete_failure(Ok(())).is_none());
    assert!(
        history_delete_failure(Err(IoFault::new(IoKind::NotFound, "not found"))).is_none(),
        "a file that is already gone is what the user asked for"
    );
    assert_eq!(
        history_delete_failure(Err(IoFault::new(IoKind::PermissionDenied, "denied")))
            .map(|error| error.kind),
        Some(IoKind::PermissionDenied),
        "every other failure is reported"
    );
}

#[test]
fn failures_outside_are_explained() {
    let path = FilePath::new("C:\\file.bin");
    let denied = || IoFault::new(IoKind::PermissionDenied, "denied");
    assert_eq!(
        delete_failure_message(&path, Err(denied())).as_deref(),
        Some("Could not delete C:\\file.bin: denied")
    );
    assert_eq!(delete_failure_message(&path, Ok(())), None);
    let mut state = state_with(&[]);
    state.options_failed("disk full");
    assert_eq!(state.window.action_error_message, "Could not save options: disk full");
    state.startup_failed("denied", true);
    assert_eq!(
        state.window.action_error_message,
        "Could not update the startup setting: denied"
    );
    assert!(state.window.launch_on_startup);
}

fn check_projection_of_changes() {
    let (tx, mut rx) = tokio::sync::watch::channel(0_u8);
    let mut initial = true;

    {
        let snapshot = rx.borrow_and_update();
        assert!(should_project_snapshot(snapshot.has_changed(), &mut initial));
        assert_eq!(*snapshot, 0);
    }
    {
        let snapshot = rx.borrow_and_update();
        assert!(!should_project_snapshot(snapshot.has_changed(), &mut initial));
    }

    assert!(tx.send(1).is_ok());
    {
        let snapshot = rx.borrow_and_update();
        assert!(should_project_snapshot(snapshot.has_changed(), &mut initial));
        assert_eq!(*snapshot, 1);
    }
    {
        let snapshot = rx.borrow_and_update();
        assert!(!should_project_snapshot(snapshot.has_changed(), &mut initial));
    }

    assert!(tx.send(2).is_ok());
    drop(tx);
    assert!(rx.has_changed().is_err());
    {
        let snapshot = rx.borrow_and_update();
        assert!(should_project_snapshot(snapshot.has_changed(), &mut initial));
        assert_eq!(*snapshot, 2);
    }
    {
        let snapshot = rx.borrow_and_update();
        assert!(!should_project_snapshot(snapshot.has_changed(), &mut initial));
    }
}

#[test]
fn tests_snapshot_projection_handles_initial_changed_and_closed_updates() {
    check_projection_of_changes();
}

#[test]
fn projection_snapshot_projection_handles_initial_changed_and_closed_updates() {
    check_projection_of_changes();
}

fn check_duplicate_prompt() {
    let mut state = state_with(&[]);
    assert!(!state.window.duplicate.shown);

    let mut snap = DownloadSnapshot {
        session_id: 10,
        url: "http://example.com/file.zip".into(),
        filename: "file.zip".into(),
        status: DownloadStatus::Connecting,
        duplicate: Some(DuplicatePrompt {
            session_id: 10,
            url: "http://example.com/file.zip".into(),
            filename: "file.zip".into(),
            existing_bytes: Some(2048),
            link_duplicate: false,
        }),
        ..Default::default()
    };

    state.show_snapshot(&snap);
    assert!(state.window.duplicate.shown);
    assert_eq!(state.window.duplicate.url, "http://example.com/file.zip");
    assert_eq!(state.window.duplicate.filename, "file.zip");
    assert_eq!(state.window.duplicate.existing_size, "2.0 KB");
    assert!(!state.window.duplicate.is_link);
    assert_eq!(state.window.duplicate.selected_option, 0);
    assert!(!state.window.duplicate.remember);

    state.window.duplicate.selected_option = 1;
    state.window.duplicate.remember = true;

    state.show_snapshot(&snap);
    assert_eq!(state.window.duplicate.selected_option, 1);
    assert!(state.window.duplicate.remember);

    snap.duplicate = None;
    state.show_snapshot(&snap);
    assert!(!state.window.duplicate.shown);

    let (tx, _rx) = tokio::sync::mpsc::channel(32);
    let mut send = |window: &mut WindowState| {
        let action = DownloadAction::ResolveDuplicate { session_id: 1, choice: None };
        let outcome = match tx.try_send(action) {
            Ok(()) => SendOutcome::Sent,
            Err(tokio::sync::mpsc::error::TrySendError::Full(_)) => SendOutcome::Full,
            Err(tokio::sync::mpsc::error::TrySendError::Closed(_)) => SendOutcome::Closed,
        };
        window.sent(outcome)
    };
    for _ in 0..32 {
        assert!(send(&mut state.window));
        assert_eq!(state.window.action_error_message, "");
    }
    assert!(
        !send(&mut state.window),
        "Expected 33rd action to fail due to channel capacity"
    );
    assert_eq!(
        state.window.action_error_message,
        "Download engine is busy. Try the action again."
    );

    snap.downloaded_bytes = 1024;
    snap.total_bytes = Some(4096);
    snap.status = DownloadStatus::Downloading;
    state.show_snapshot(&snap);
    assert_eq!(state.window.active.size, "1.0 KB / 4.0 KB");

    snap.status = DownloadStatus::Completed;
    snap.downloaded_bytes = 4096;
    state.show_snapshot(&snap);
    assert_eq!(state.window.active.size, "4.0 KB");
}

#[test]
fn tests_test_duplicate_prompt_projection_updates_window() {
    check_duplicate_prompt();
}

#[test]
fn projection_test_duplicate_prompt_projection_updates_window() {
    check_duplicate_prompt();
}

#[test]
fn completed_download_archiving_preserves_history() {
    let mut history: Vec<TableItem> = Vec::new();
    assert_eq!(history.len(), 0);

    let first = finished_entry(1, "file.txt", 1024);
    history.push(history_table_item(&settings(), &first));
    assert_eq!(history.len(), 1);
    let listed = &history[0];
    assert_eq!(listed.id, 1, "Row 0 stays reserved for the active download");
    assert_eq!(listed.filename, "file.txt");
    assert_eq!(listed.file_type, "doc");
    assert_eq!(listed.size_text, "1.0 KB");
    assert_eq!(listed.status_text, "Complete");
    assert_eq!(listed.time_left_text, "--:--");
    assert_eq!(listed.transfer_rate_text, "0 KB/s");
    assert_eq!(
        listed.downloaded_text,
        downloaded_label(1_700_000_000_001),
        "The stored completion time is shown, not a fixed label"
    );
    assert_eq!(listed.size_bytes, 1024);

    history.push(history_table_item(
        &settings(),
        &finished_entry(2, "archive.ZIP", 2048),
    ));
    assert_eq!(history.len(), 2);
    assert_eq!(history[0].id, 1);
    let newest = &history[1];
    assert_eq!(newest.id, 2);
    assert_eq!(newest.size_text, "2.0 KB");
    assert_eq!(
        newest.file_type, "zip",
        "Extensions match case-insensitively"
    );
}

#[test]
fn sort_items_orders_by_each_sortable_column() {
    let mut items: Vec<TableItem> = [
        ("beta.bin", 4096_u64),
        ("Alpha.bin", 1024),
        ("gamma.bin", 2048),
    ]
    .into_iter()
    .enumerate()
    .map(|(index, (name, size))| {
        let mut entry = finished_entry(index as i32 + 1, name, size);
        entry.completed_unix_ms = 1_700_000_000_000 + index as u64 * 60_000;
        history_table_item(&settings(), &entry)
    })
    .collect();

    sort_items(&mut items, 0, true);
    let names: Vec<&str> = items.iter().map(|item| item.filename.as_str()).collect();
    assert_eq!(names, ["Alpha.bin", "beta.bin", "gamma.bin"]);

    sort_items(&mut items, 1, true);
    assert_eq!(items[0].size_bytes, 1024);
    assert_eq!(items[2].size_bytes, 4096);
    sort_items(&mut items, 1, false);
    assert_eq!(items[0].size_bytes, 4096);

    sort_items(&mut items, 3, true);
    assert_eq!(items[0].id, 1);
    assert_eq!(items[2].id, 3);

    let order: Vec<i32> = items.iter().map(|item| item.id).collect();
    sort_items(&mut items, 2, true);
    sort_items(&mut items, 5, true);
    assert_eq!(items.iter().map(|item| item.id).collect::<Vec<_>>(), order);

    let mut tied: Vec<TableItem> = (1..=2)
        .map(|id| history_table_item(&settings(), &finished_entry(id, "same.bin", 2048)))
        .collect();
    tied.reverse();
    sort_items(&mut tied, 1, true);
    assert_eq!(tied.iter().map(|item| item.id).collect::<Vec<_>>(), [1, 2]);
}

#[test]
fn names_are_ordered_regardless_of_case_beyond_ascii() {
    let mut items: Vec<TableItem> = ["\u{c9}cole.pdf", "zebra.pdf", "\u{e9}clair.pdf", "Zoo.pdf"]
        .into_iter()
        .enumerate()
        .map(|(index, name)| {
            table_item(&settings(), &finished_entry(index as i32 + 1, name, 1), "x".into())
        })
        .collect();
    sort_items(&mut items, 0, true);
    assert_eq!(ids(&items), [2, 4, 3, 1]);
    sort_items(&mut items, 0, false);
    assert_eq!(ids(&items), [1, 3, 4, 2]);
}

#[test]
fn sizes_are_ordered_with_the_precision_of_the_table() {
    let close: Vec<TableItem> = [(2, 16_777_217_u64), (1, 16_777_216)]
        .into_iter()
        .map(|(id, size)| table_item(&settings(), &finished_entry(id, "a.bin", size), "x".into()))
        .collect();
    for row in &close {
        assert_eq!(row.size_bytes, 16_777_216);
        assert_eq!(row.size_bytes as f64, 16_777_217_u64 as f32 as f64);
    }
    let mut sorted = close;
    sort_items(&mut sorted, 1, true);
    assert_eq!(ids(&sorted), [1, 2], "equal sizes are ordered by id");
}

#[test]
fn history_tracker_reports_each_finish_once() {
    let finished = finished(1);
    let next_session = DownloadSnapshot {
        session_id: 2,
        status: DownloadStatus::Connecting,
        ..Default::default()
    };

    let mut tracker = HistoryTracker::new(1);
    let listed = tracker
        .observe(&finished)
        .expect("a finish is reported right away");
    assert_eq!(listed.id, 1, "the first listed row never uses id 0");
    assert_eq!(listed.url, "https://example.com/file.bin");
    assert_eq!(listed.filename, "file.bin");
    assert_eq!(listed.save_path, FilePath::new("file.bin"));
    assert_eq!(listed.total_bytes, 1024);
    assert!(listed.completed_unix_ms > 0, "the finish time is recorded");

    assert_eq!(
        tracker.observe(&finished),
        None,
        "repeated completed ticks are not listed again"
    );
    assert_eq!(
        tracker.observe(&next_session),
        None,
        "a later session does not re-list the same finish"
    );

    let second_finished = DownloadSnapshot {
        session_id: 2,
        filename: "next.bin".into(),
        status: DownloadStatus::Completed,
        total_bytes: Some(2048),
        downloaded_bytes: 2048,
        ..Default::default()
    };
    let listed = tracker
        .observe(&second_finished)
        .expect("the next finish is reported");
    assert_eq!(listed.id, 2, "ids increase, so no listed row is reused");
    assert_eq!(listed.filename, "next.bin");
    assert_eq!(listed.total_bytes, 2048);

    let mut tracker = HistoryTracker::new(1);
    let listed = tracker
        .observe(&DownloadSnapshot {
            session_id: 7,
            status: DownloadStatus::Completed,
            downloaded_bytes: 512,
            ..Default::default()
        })
        .expect("a finish without a known total is still listed");
    assert_eq!(listed.total_bytes, 512);

    let mut tracker = HistoryTracker::new(9);
    let listed = tracker
        .observe(&finished)
        .expect("the download is listed above the kept ids");
    assert_eq!(listed.id, 9, "a new row continues after the kept history");

    let mut tracker = HistoryTracker::new(1);
    assert_eq!(
        tracker.observe(&DownloadSnapshot {
            session_id: 5,
            status: DownloadStatus::Downloading,
            ..Default::default()
        }),
        None
    );
    assert_eq!(
        tracker.observe(&DownloadSnapshot {
            session_id: 6,
            status: DownloadStatus::Connecting,
            ..Default::default()
        }),
        None
    );

    let mut tracker = HistoryTracker::new(1);
    tracker.observe(&finished);
    assert_eq!(
        tracker.observe(&DownloadSnapshot {
            session_id: 2,
            status: DownloadStatus::Idle,
            ..Default::default()
        }),
        None
    );

    let mut tracker = HistoryTracker::new(1);
    tracker.observe(&finished);
    tracker.clear_completed();
    assert_eq!(tracker.observe(&next_session), None);
}

#[test]
fn completed_download_persists_immediately_without_next_session() {
    let mut store = HistoryStore::load_from(FilePath::new("history.jsonl"), &Vec::new());
    let mut tracker = HistoryTracker::new(store.next_id());

    let finished = DownloadSnapshot {
        session_id: 1,
        url: "https://example.com/testfile.iso".into(),
        filename: "testfile.iso".into(),
        save_path: FilePath::new("testfile.iso"),
        status: DownloadStatus::Completed,
        total_bytes: Some(1_048_576),
        downloaded_bytes: 1_048_576,
        ..Default::default()
    };

    let entry = tracker
        .observe(&finished)
        .expect("first completed observation emits entry");
    store.record(entry);

    let written: Vec<Option<HistoryEntry>> = store.entries().iter().cloned().map(Some).collect();
    let reloaded = HistoryStore::load_from(FilePath::new("history.jsonl"), &written);
    assert_eq!(reloaded.entries().len(), 1);
    assert_eq!(reloaded.entries()[0].filename, "testfile.iso");
}

#[test]
fn filters_show_categories_and_states() {
    assert!(category_matches_id(0, 5, true));
    assert!(category_matches_id(5, 5, true));
    assert!(!category_matches_id(5, 6, true));
    assert!(category_matches_id(12, 5, false));
    assert!(!category_matches_id(12, 5, true));
    assert!(category_matches_id(13, 5, true));
    assert!(!category_matches_id(14, 5, true));
    assert!(!category_matches_id(15, 5, false));
    assert!(category_matches_id(16, 5, false));
}

#[test]
fn the_active_download_has_a_row_until_it_is_listed() {
    let mut state = state_with(&[]);
    assert!(!state.window.active_row_visible());
    state.window.active.has_active_download = true;
    state.window.active.category_id = 5;
    assert!(state.window.active_row_visible());
    state.window.selection.category = 6;
    assert!(!state.window.active_row_visible());
    state.window.selection.category = 12;
    assert!(state.window.active_row_visible());
    state.window.active.is_completed = true;
    assert!(!state.window.active_row_visible());
    state.window.selection.category = 0;
    assert!(state.window.active_row_visible());
    state.window.completed_listed = true;
    assert!(!state.window.active_row_visible());
}

#[test]
fn the_selection_steps_through_the_listed_rows() {
    let mut state = state_with(&[
        finished_entry(1, "a.zip", 1),
        finished_entry(2, "b.mp4", 2),
        finished_entry(3, "c.zip", 3),
    ]);
    assert_eq!(ids(&state.download_history), [3, 2, 1], "newest first");
    assert_eq!(listed_row_ids(&state.download_history, 1, true), [0, 3, 1]);

    let selection = &mut state.window.selection;
    selection.step_selection(&state.download_history, true, 1);
    assert_eq!((selection.row, selection.history_row), (3, true));
    selection.step_selection(&state.download_history, true, 7);
    assert_eq!(selection.row, 1, "stops at the end");
    selection.step_selection(&state.download_history, true, -9);
    assert_eq!((selection.row, selection.history_row), (0, false));
    selection.row = -1;
    selection.step_selection(&state.download_history, true, -1);
    assert_eq!(selection.row, 1, "enters at the matching end");
    selection.category = 3;
    selection.row = 7;
    selection.step_selection(&state.download_history, false, 1);
    assert_eq!(selection.row, 7, "an empty list keeps the selection");

    state.window.selection = Selection { row: 2, category: 1, history_row: true };
    state.category_changed();
    assert!(!state.window.selection.history_row, "the filter hides the row");

    let mut rows = state.download_history.clone();
    remove_row_by_id(&mut rows, 2);
    remove_row_by_id(&mut rows, 9);
    assert_eq!(ids(&rows), [3, 1]);
}

#[test]
fn header_clicks_turn_the_order_around() {
    let mut state = state_with(&[finished_entry(1, "b.zip", 1), finished_entry(2, "a.zip", 2)]);
    state.apply_sort_request(3);
    assert!(state.window.sort_ascending, "newest first was active");
    assert_eq!(ids(&state.download_history), [1, 2]);
    state.apply_sort_request(0);
    assert!(state.window.sort_ascending);
    assert_eq!(ids(&state.download_history), [2, 1]);
    state.apply_sort_request(0);
    assert!(!state.window.sort_ascending);
    assert_eq!(ids(&state.download_history), [1, 2]);
}

#[test]
fn a_finish_is_logged_listed_and_selected() {
    let mut state = state_with(&[finished_entry(4, "old.zip", 1)]);
    assert!(state.project(&finished(1), 1_700_000_000_500));
    assert_eq!(ids(&state.download_history), [5, 4]);
    assert_eq!(state.history_store.entries().len(), 2);
    assert_eq!(state.history_store.entries()[1].completed_unix_ms, 1_700_000_000_500);
    assert!(state.window.completed_listed);
    assert_eq!(state.window.selection.row, 5, "the selection follows the row");
    assert!(state.window.selection.history_row);
    assert!(!state.project(&finished(1), 1_700_000_001_000));
    assert_eq!(state.download_history.len(), 2);
    assert_eq!(state.file_to_open(&finished(1)), Some(FilePath::new("file.bin")));
    state.window.selection.row = 0;
    assert_eq!(state.file_to_open(&DownloadSnapshot::default()), None);
    state.log_failed(&HistoryError::Io(IoFault::new(IoKind::Other, "disk full")));
    assert_eq!(
        state.window.action_error_message,
        "Could not save download history: history I/O error: disk full"
    );
}

#[test]
fn a_hand_edited_log_never_stops_the_start() {
    let mut edited = finished_entry(i32::MAX, "edited.zip", 1);
    edited.completed_unix_ms = 8_210_266_876_799_999;
    let mut taken = finished_entry(2, "taken.zip", 1);
    taken.completed_unix_ms = u64::MAX;
    let mut state = state_with(&[edited, taken]);
    assert_eq!(state.download_history.len(), 2);
    assert_eq!(state.history_tracker.next_item_id, 1);
    assert!(state.project(&finished(1), 1_700_000_000_500));
    assert!(state.project(&finished(2), 1_700_000_000_600));
    let mut listed = ids(&state.download_history);
    listed.sort_unstable();
    assert_eq!(listed, [1, 2, 3, i32::MAX], "no listed row is reused");
}

#[test]
fn each_run_of_a_session_is_reported_once() {
    let running = |session_id: u64| DownloadSnapshot {
        session_id,
        status: DownloadStatus::Downloading,
        ..Default::default()
    };
    let mut tracker = HistoryTracker::new(6);
    let mut reported: Vec<Option<i32>> = Vec::new();
    let snapshots = [running(1), finished(1), running(1), finished(1), finished(2), finished(1)];
    for snapshot in &snapshots {
        reported.push(tracker.observe_at(snapshot, 9).map(|entry| entry.id));
    }
    assert_eq!(reported, [None, Some(6), None, None, Some(7), Some(8)]);
}

#[test]
fn deleting_the_active_download_names_its_present_state() {
    let mut state = state_with(&[]);
    let running = DownloadSnapshot {
        session_id: 7,
        filename: "archive.zip".into(),
        status: DownloadStatus::Downloading,
        ..Default::default()
    };
    state.project(&running, 0);
    state.request_delete_completed();
    assert!(state.pending_delete.is_none(), "nothing is finished");
    state.request_delete_selected();
    assert!(state.window.delete.shown);
    assert_eq!(state.window.delete.filename, "archive.zip");
    assert!(!state.window.delete.delete_file, "file deletion defaults to unchecked");

    let mut paused = running.clone();
    paused.status = DownloadStatus::Paused;
    state.project(&paused, 0);
    match state.confirm_delete(true, &paused) {
        DeleteEffect::Send { action, rewrite_log } => {
            assert!(!rewrite_log);
            assert!(matches!(
                action,
                DownloadAction::Remove {
                    expected_session_id: 7,
                    expected_status: DownloadStatus::Paused,
                    delete_file: true,
                    completed_only: false,
                }
            ));
        }
        other => panic!("the engine deletes its download: {other:?}"),
    }
    state.delete_sent(SendOutcome::Closed);
    assert!(state.window.delete.shown, "a request that was not sent can be repeated");
    assert_eq!(
        state.window.action_error_message,
        "Download engine is unavailable. Restart the app."
    );
    state.delete_sent(SendOutcome::Sent);
    assert!(!state.window.delete.shown);

    state.request_delete_selected();
    let other_session = DownloadSnapshot {
        session_id: 8,
        status: DownloadStatus::Connecting,
        ..Default::default()
    };
    state.project(&other_session, 0);
    assert!(state.pending_delete.is_none(), "the asked-for download is gone");
    assert!(!state.window.delete.shown);
    assert!(matches!(state.confirm_delete(true, &other_session), DeleteEffect::Nothing));
}

#[test]
fn deleting_a_listed_download_clears_every_trace() {
    let mut state = state_with(&[finished_entry(1, "a.zip", 1), finished_entry(2, "b.zip", 2)]);
    state.project(&finished(3), 1_700_000_000_000);
    assert_eq!(state.window.selection.row, 3);
    state.request_delete_selected();
    assert!(matches!(
        &state.pending_delete,
        Some(PendingDelete::History { id: 3, filename, .. }) if filename == "file.bin"
    ));
    match state.confirm_delete(true, &finished(3)) {
        DeleteEffect::RemoveFile { id, path } => {
            assert_eq!(id, 3);
            assert_eq!(path, FilePath::new("file.bin"));
        }
        other => panic!("the file is deleted first: {other:?}"),
    }
    assert!(!state.complete_history_delete(3, Some("Could not delete file.bin: denied".into())));
    assert_eq!(state.download_history.len(), 3, "a failure keeps the row");
    assert_eq!(state.window.action_error_message, "Could not delete file.bin: denied");
    assert!(state.complete_history_delete(3, None));
    assert_eq!(ids(&state.download_history), [2, 1]);
    assert!(state.history_tracker.completed().is_none());
    assert!(!state.window.completed_listed);
    assert_eq!(state.window.selection.row, -1);

    state.window.selection.row = 2;
    state.request_delete_selected();
    assert!(matches!(
        state.confirm_delete(false, &finished(3)),
        DeleteEffect::Finished { rewrite_log: true }
    ));
    assert_eq!(ids(&state.download_history), [1]);
    state.window.selection.row = 99;
    state.request_delete_selected();
    assert!(state.pending_delete.is_none());
    state.window.selection.row = 1;
    state.request_delete_selected();
    state.dismiss_delete();
    assert!(state.pending_delete.is_none());
}

#[test]
fn duplicates_are_answered_and_overwriting_forgets_the_old_file() {
    let mut state = state_with(&[]);
    let mut snap = finished(1);
    state.project(&snap, 1_700_000_000_000);
    assert!(state.resolve_duplicate(2, true, &snap).is_none(), "nothing was asked");
    assert!(dismiss_duplicate(&snap).is_none());
    snap.duplicate = Some(DuplicatePrompt {
        session_id: 1,
        url: "https://example.com/file.bin".into(),
        filename: "file.bin".into(),
        existing_bytes: None,
        link_duplicate: true,
    });
    let kept = state.resolve_duplicate(0, false, &snap).unwrap();
    assert!(kept.preference.is_none());
    assert!(matches!(
        kept.action,
        DownloadAction::ResolveDuplicate {
            session_id: 1,
            choice: Some(DuplicateChoice::UseExisting),
        }
    ));
    assert_eq!(state.download_history.len(), 1);
    let overwrite = state.resolve_duplicate(2, true, &snap).unwrap();
    assert!(overwrite.rewrite_log);
    assert!(matches!(
        overwrite.preference,
        Some(DownloadAction::SetDuplicatePreference {
            choice: Some(DuplicateChoice::Overwrite),
        })
    ));
    assert!(state.download_history.is_empty());
    assert!(state.history_store.entries().is_empty());
    assert!(matches!(
        dismiss_duplicate(&snap),
        Some(DownloadAction::ResolveDuplicate { session_id: 1, choice: None })
    ));
}

#[test]
fn the_directory_follows_the_url_until_it_is_chosen() {
    let mut state = state_with(&[]);
    state.window.url_text = " https://example.com/song.mp3 ".into();
    state.add_dialog_opened();
    assert_eq!(state.window.dest_dir_text, "D:\\Downloads\\Music");
    state.url_text_changed("https://example.com/movie.mp4");
    assert_eq!(state.window.dest_dir_text, "D:\\Downloads\\Video");
    state.window.dest_dir_text = "E:\\Mine".into();
    state.url_text_changed("https://example.com/song.mp3");
    assert_eq!(state.window.dest_dir_text, "E:\\Mine");

    match state.start_request(99) {
        Some(DownloadAction::Start { url, save_path, num_chunks }) => {
            assert_eq!(url, "https://example.com/song.mp3");
            assert_eq!(save_path, FilePath::new("E:\\Mine"));
            assert_eq!(num_chunks, 16);
        }
        other => panic!("the download starts: {other:?}"),
    }
    state.window.selection = Selection { row: 4, category: 2, history_row: true };
    state.start_sent(SendOutcome::Full);
    assert!(state.window.show_add_dialog);
    assert_eq!(state.window.selection.row, 4);
    state.start_sent(SendOutcome::Sent);
    assert_eq!(state.window.selection, Selection { row: 0, category: 0, history_row: false });
    state.window.url_text = "  ".into();
    assert!(state.start_request(1).is_none());
}

#[test]
fn confirmed_options_list_the_downloads_anew() {
    let mut state = state_with(&[finished_entry(1, "a.zip", 1), finished_entry(2, "b.txt", 2)]);
    state.window.options.open(&state.save_settings);
    state.window.options.dirs[0] = "E:\\Files".into();
    state.window.options.file_types[3] = "zip".into();
    state.window.options.file_types[1] = "rar".into();
    state.window.selection = Selection { row: 1, category: 3, history_row: false };
    state.commit_options(&FilePath::new("C:\\fallback"));
    assert_eq!(state.window.dest_dir_text, "E:\\Files");
    let row = state.download_history.iter().find(|row| row.id == 1).unwrap();
    assert_eq!(row.file_type, "audio");
    assert_eq!(row.category_id, 3);
    assert!(state.window.selection.history_row);
}

#[test]
fn the_active_row_shows_each_state() {
    let mut snap = DownloadSnapshot {
        session_id: 1,
        filename: "movie.mp4".into(),
        status: DownloadStatus::Downloading,
        total_bytes: Some(3),
        downloaded_bytes: 1,
        speed_bytes_per_sec: 2048,
        eta_seconds: Some(75),
        resumable: true,
        ..Default::default()
    };
    let row = active_row(&settings(), &snap);
    assert_eq!(row.status, "Downloading (33.3%)");
    assert_eq!(row.status_color, StatusColor::Success);
    assert_eq!(row.file_type, "video");
    assert_eq!(row.transfer_rate, "2.0 KB/s");
    assert_eq!(row.time_left, "1m 15s");
    assert!(row.is_downloading && row.has_active_download && row.is_resumable);

    snap.status = DownloadStatus::Connecting;
    snap.total_bytes = None;
    assert_eq!(active_row(&settings(), &snap).status, "Connecting (0.0%)");
    snap.status = DownloadStatus::Failed("no route".into());
    let failed = active_row(&settings(), &snap);
    assert_eq!(failed.status, "Failed");
    assert_eq!(failed.error_message, "no route");
    assert!(failed.is_paused, "a resumable failure can go on");
    snap.status = DownloadStatus::Paused;
    assert_eq!(active_row(&settings(), &snap).status, "Stopped");
    snap.status = DownloadStatus::Idle;
    let idle = active_row(&settings(), &snap);
    assert_eq!(idle.status_color, StatusColor::Idle);
    assert!(!idle.has_active_download);
}
