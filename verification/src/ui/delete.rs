//! Deleting downloads: the confirmation, and what is deleted once it is given.
use crate::engine::model::{DownloadAction, DownloadSnapshot, DownloadStatus};
use crate::history;
use crate::history::HistoryEntry;
use crate::path::FilePath;
use crate::storage::{IoFault, IoKind};
use crate::text;
use crate::ui::state::{AppState, SendOutcome, WindowState};
use crate::ui::table;
use crate::ui::table::{remove_row_by_id, HistoryTracker, Selection};
use vstd::prelude::*;

verus! {

/// The active download as it was shown when its deletion was asked for.
#[derive(Clone, Debug, PartialEq, Eq)]
pub struct DeleteTarget {
    pub session_id: u64,
    pub status: DownloadStatus,
    pub completed_only: bool,
}

impl DeleteTarget {
    /// The download that a snapshot shows, if there is one.
    pub fn displayed(snapshot: &DownloadSnapshot) -> (r: Option<DeleteTarget>)
        ensures
            r == displayed_target(*snapshot),
    {
        match &snapshot.status {
            DownloadStatus::Idle => None,
            status => Some(
                DeleteTarget {
                    session_id: snapshot.session_id,
                    status: status.copy(),
                    completed_only: false,
                },
            ),
        }
    }

    /// The request to the engine that deletes exactly this download.
    pub fn action(&self, delete_file: bool) -> (r: DownloadAction)
        ensures
            r == (DownloadAction::Remove {
                expected_session_id: self.session_id,
                expected_status: self.status,
                delete_file,
                completed_only: self.completed_only,
            }),
    {
        DownloadAction::Remove {
            expected_session_id: self.session_id,
            expected_status: self.status.copy(),
            delete_file,
            completed_only: self.completed_only,
        }
    }

    pub fn copy(&self) -> (r: DeleteTarget)
        ensures
            r == *self,
    {
        DeleteTarget {
            session_id: self.session_id,
            status: self.status.copy(),
            completed_only: self.completed_only,
        }
    }
}

/// The download that a snapshot shows, if there is one.
pub open spec fn displayed_target(snapshot: DownloadSnapshot) -> Option<DeleteTarget> {
    if snapshot.status is Idle {
        None
    } else {
        Some(
            DeleteTarget {
                session_id: snapshot.session_id,
                status: snapshot.status,
                completed_only: false,
            },
        )
    }
}

/// A deletion that waits for its confirmation.
#[derive(Clone, Debug, PartialEq, Eq)]
pub enum PendingDelete {
    Active(DeleteTarget),
    History { id: i32, filename: String, save_path: FilePath },
}

/// The dialog that asks for the confirmation.
#[derive(Debug, Clone, PartialEq, Eq)]
pub struct DeleteDialog {
    pub shown: bool,
    pub filename: String,
    pub completed_only: bool,
    pub target_completed: bool,
    /// Whether the file is deleted too.
    pub delete_file: bool,
}

/// What has to be done outside after a confirmation.
#[derive(Debug)]
pub enum DeleteEffect {
    Nothing,
    /// Send the request to the engine, after saving the log where an entry left it.
    Send { action: DownloadAction, rewrite_log: bool },
    /// Delete the file of a listed download, and report how it went.
    RemoveFile { id: i32, path: FilePath },
    /// The listed download is gone; save the log where an entry left it.
    Finished { rewrite_log: bool },
}

/// A file that is already gone counts as deleted; anything else is reported.
pub fn history_delete_failure(removal: Result<(), IoFault>) -> (r: Option<IoFault>)
    ensures
        r == (match removal {
            Ok(_) => None,
            Err(fault) => if fault.kind == IoKind::NotFound {
                None
            } else {
                Some(fault)
            },
        }),
{
    match removal {
        Ok(_) => None,
        Err(fault) => match fault.kind {
            IoKind::NotFound => None,
            _ => Some(fault),
        },
    }
}

/// What the user is told of the deletion of a file, if it failed.
pub fn delete_failure_message(path: &FilePath, removal: Result<(), IoFault>) -> (r: Option<String>)
    ensures
        match removal {
            Ok(_) => r is None,
            Err(fault) => if fault.kind == IoKind::NotFound {
                r is None
            } else {
                r matches Some(message) && message@ == "Could not delete "@ + path@ + ": "@
                    + fault.message@
            },
        },
{
    match history_delete_failure(removal) {
        Some(fault) => Some(
            text::join4("Could not delete ", path.as_str(), ": ", fault.message.as_str()),
        ),
        None => None,
    }
}

impl AppState {
    /// The state with the confirmation dialog open for the displayed download, if it can be
    /// deleted.
    pub open spec fn asks_active(self, completed_only: bool) -> AppState {
        match self.displayed_delete_target {
            Some(target) => if completed_only && !(target.status is Completed) {
                self
            } else {
                AppState {
                    pending_delete: Some(
                        PendingDelete::Active(DeleteTarget { completed_only, ..target }),
                    ),
                    window: WindowState {
                        delete: DeleteDialog {
                            shown: true,
                            filename: self.window.active.filename,
                            completed_only,
                            target_completed: target.status is Completed,
                            delete_file: false,
                        },
                        ..self.window
                    },
                    ..self
                }
            },
            None => self,
        }
    }

    /// The state with the confirmation dialog open for a listed download.
    pub open spec fn asks_entry(self, entry: HistoryEntry) -> AppState {
        AppState {
            pending_delete: Some(
                PendingDelete::History {
                    id: entry.id,
                    filename: entry.filename,
                    save_path: entry.save_path,
                },
            ),
            window: WindowState {
                delete: DeleteDialog {
                    shown: true,
                    filename: entry.filename,
                    completed_only: false,
                    target_completed: true,
                    delete_file: false,
                },
                ..self.window
            },
            ..self
        }
    }

    /// The state with the confirmation dialog open for the selected download, if there is one.
    pub open spec fn asks_selected(self) -> AppState {
        let entries = self.history_store.entries@;
        let row = self.window.selection.row;
        if row == 0 {
            self.asks_active(false)
        } else if history::has_id(entries, row) {
            self.asks_entry(entries[history::index_of(entries, row)])
        } else {
            self
        }
    }

    /// Asks whether the displayed download is deleted.
    pub fn open_active_delete_confirmation(&mut self, completed_only: bool)
        ensures
            *final(self) == old(self).asks_active(completed_only),
    {
        let mut request = match &self.displayed_delete_target {
            Some(target) => target.copy(),
            None => {
                return;
            },
        };
        let target_completed = match &request.status {
            DownloadStatus::Completed => true,
            _ => false,
        };
        if completed_only && !target_completed {
            return;
        }
        request.completed_only = completed_only;
        self.pending_delete = Some(PendingDelete::Active(request));
        self.window.delete = DeleteDialog {
            shown: true,
            filename: self.window.active.filename.clone(),
            completed_only,
            target_completed,
            delete_file: false,
        };
    }

    /// Asks whether the selected download is deleted: the active one, or a listed one.
    pub fn request_delete_selected(&mut self)
        ensures
            *final(self) == old(self).asks_selected(),
    {
        let row: i32 = self.window.selection.row;
        if row == 0 {
            self.open_active_delete_confirmation(false);
            return;
        }
        let entry = match self.history_store.entry_with(row) {
            Some(entry) => entry.copy(),
            None => {
                return;
            },
        };
        self.window.delete = DeleteDialog {
            shown: true,
            filename: entry.filename.clone(),
            completed_only: false,
            target_completed: true,
            delete_file: false,
        };
        self.pending_delete = Some(
            PendingDelete::History {
                id: entry.id,
                filename: entry.filename,
                save_path: entry.save_path,
            },
        );
    }

    /// Asks whether the finished download that is displayed is deleted.
    pub fn request_delete_completed(&mut self)
        ensures
            *final(self) == old(self).asks_active(true),
    {
        self.open_active_delete_confirmation(true);
    }

    /// Drops a deletion that waited for its confirmation.
    pub fn dismiss_delete(&mut self)
        ensures
            *final(self) == (AppState { pending_delete: None, ..*old(self) }),
    {
        self.pending_delete = None;
    }

    /// Whether the state follows from dropping the reported download: it leaves the log and the
    /// list.
    pub open spec fn forgot_completed(self, after: AppState) -> bool {
        match self.history_tracker.completed {
            Some(entry) => {
                &&& after.history_store.path == self.history_store.path
                &&& after.history_store.entries@ == history::without_id(
                    self.history_store.entries@,
                    entry.id,
                )
                &&& after.download_history@ == table::without_row(self.download_history@, entry.id)
                &&& after == (AppState {
                    history_store: after.history_store,
                    download_history: after.download_history,
                    history_tracker: HistoryTracker { completed: None, ..self.history_tracker },
                    window: WindowState { completed_listed: false, ..self.window },
                    ..self
                })
            },
            None => after == self,
        }
    }

    /// Whether the log holds the reported download.
    pub open spec fn completed_is_logged(self) -> bool {
        match self.history_tracker.completed {
            Some(entry) => history::has_id(self.history_store.entries@, entry.id),
            None => false,
        }
    }

    /// Drops the reported download from the log and the list, and says whether the log changed.
    pub fn forget_completed(&mut self) -> (rewrite_log: bool)
        ensures
            old(self).forgot_completed(*final(self)),
            rewrite_log == old(self).completed_is_logged(),
    {
        match self.history_tracker.clear_completed() {
            Some(entry) => {
                self.window.completed_listed = false;
                let removed = self.history_store.remove(entry.id);
                remove_row_by_id(&mut self.download_history, entry.id);
                removed.is_some()
            },
            None => false,
        }
    }

    /// Whether the state follows from deleting a listed download: it leaves the log, the list and
    /// the selection, and is no longer offered as the reported one.
    pub open spec fn deleted_entry(self, id: i32, after: AppState) -> bool {
        let offered = self.history_tracker.completed matches Some(entry) && entry.id == id;
        &&& after.history_store.path == self.history_store.path
        &&& after.history_store.entries@ == history::without_id(self.history_store.entries@, id)
        &&& after.download_history@ == table::without_row(self.download_history@, id)
        &&& after == (AppState {
            history_store: after.history_store,
            download_history: after.download_history,
            history_tracker: if offered {
                HistoryTracker { completed: None, ..self.history_tracker }
            } else {
                self.history_tracker
            },
            window: WindowState {
                completed_listed: self.window.completed_listed && !offered,
                selection: if self.window.selection.row == id {
                    Selection { row: -1i32, history_row: false, ..self.window.selection }
                } else {
                    self.window.selection
                },
                delete: DeleteDialog { shown: false, ..self.window.delete },
                ..self.window
            },
            ..self
        })
    }

    /// Whether the state follows from how the deletion of a listed download ended, and whether the
    /// log has to be saved.
    pub open spec fn deletion_ended(
        self,
        id: i32,
        failure: Option<String>,
        after: AppState,
        rewrite_log: bool,
    ) -> bool {
        match failure {
            Some(message) => !rewrite_log && after == (AppState {
                window: WindowState {
                    action_error_message: message,
                    delete: DeleteDialog { shown: false, ..self.window.delete },
                    ..self.window
                },
                ..self
            }),
            None => self.deleted_entry(id, after) && rewrite_log == history::has_id(
                self.history_store.entries@,
                id,
            ),
        }
    }

    /// Finishes deleting a listed download, and says whether the log changed. A deletion of its
    /// file that failed keeps the row and reports why, so that it can be tried again.
    pub fn complete_history_delete(&mut self, id: i32, failure: Option<String>) -> (rewrite_log:
        bool)
        ensures
            old(self).deletion_ended(id, failure, *final(self), rewrite_log),
    {
        self.window.delete.shown = false;
        match failure {
            Some(message) => {
                self.window.action_error_message = message;
                return false;
            },
            None => {},
        }
        let removed = self.history_store.remove(id);
        remove_row_by_id(&mut self.download_history, id);
        let offered = match &self.history_tracker.completed {
            Some(entry) => entry.id == id,
            None => false,
        };
        if offered {
            let _ = self.history_tracker.clear_completed();
            self.window.completed_listed = false;
        }
        if self.window.selection.row == id {
            self.window.selection.row = -1;
            self.window.selection.history_row = false;
        }
        removed.is_some()
    }

    /// The state without a deletion that waits.
    pub open spec fn answered(self) -> AppState {
        AppState { pending_delete: None, ..self }
    }

    /// What a confirmation does. The active download is deleted in the state that the snapshot
    /// shows, unless it is gone; a listed one at once, or after its file.
    pub open spec fn confirmed(
        self,
        delete_file: bool,
        snapshot: DownloadSnapshot,
        after: AppState,
        effect: DeleteEffect,
    ) -> bool {
        match self.pending_delete {
            None => after == self && effect is Nothing,
            Some(PendingDelete::Active(request)) => if snapshot.status is Idle
                || snapshot.session_id != request.session_id {
                &&& effect is Nothing
                &&& after == (AppState {
                    window: WindowState {
                        delete: DeleteDialog { shown: false, ..self.window.delete },
                        ..self.window
                    },
                    ..self.answered()
                })
            } else {
                &&& self.answered().forgot_completed(after)
                &&& effect == (DeleteEffect::Send {
                    action: DownloadAction::Remove {
                        expected_session_id: request.session_id,
                        expected_status: snapshot.status,
                        delete_file,
                        completed_only: request.completed_only,
                    },
                    rewrite_log: self.completed_is_logged(),
                })
            },
            Some(PendingDelete::History { id, filename, save_path }) => if delete_file {
                &&& after == self.answered()
                &&& effect == (DeleteEffect::RemoveFile { id, path: save_path })
            } else {
                &&& self.answered().deleted_entry(id, after)
                &&& effect == (DeleteEffect::Finished {
                    rewrite_log: history::has_id(self.history_store.entries@, id),
                })
            },
        }
    }

    /// Deletes what was asked for, now that it is confirmed.
    pub fn confirm_delete(&mut self, delete_file: bool, snapshot: &DownloadSnapshot) -> (r:
        DeleteEffect)
        ensures
            old(self).confirmed(delete_file, *snapshot, *final(self), r),
    {
        match self.pending_delete.take() {
            None => DeleteEffect::Nothing,
            Some(PendingDelete::Active(request)) => {
                if snapshot.status.is_idle() || snapshot.session_id != request.session_id {
                    self.window.delete.shown = false;
                    return DeleteEffect::Nothing;
                }
                let rewrite_log = self.forget_completed();
                let target = DeleteTarget {
                    session_id: request.session_id,
                    status: snapshot.status.copy(),
                    completed_only: request.completed_only,
                };
                DeleteEffect::Send { action: target.action(delete_file), rewrite_log }
            },
            Some(PendingDelete::History { id, filename: _, save_path }) => {
                if delete_file {
                    DeleteEffect::RemoveFile { id, path: save_path }
                } else {
                    let rewrite_log = self.complete_history_delete(id, None);
                    DeleteEffect::Finished { rewrite_log }
                }
            },
        }
    }

    /// Notes how sending a deletion to the engine went: the dialog closes once it was sent.
    pub fn delete_sent(&mut self, outcome: SendOutcome)
        ensures
            final(self).window.action_error_message@ == outcome.shown(),
            outcome is Sent ==> final(self).window.active.error_message@.len() == 0,
            !(outcome is Sent) ==> final(self).window.active.error_message
                == old(self).window.active.error_message,
            *final(self) == (AppState {
                window: WindowState {
                    action_error_message: final(self).window.action_error_message,
                    active: crate::ui::projection::ActiveRow {
                        error_message: final(self).window.active.error_message,
                        ..old(self).window.active
                    },
                    delete: DeleteDialog {
                        shown: old(self).window.delete.shown && !(outcome is Sent),
                        ..old(self).window.delete
                    },
                    ..old(self).window
                },
                ..*old(self)
            }),
    {
        if self.window.sent(outcome) {
            self.window.active.error_message = String::new();
            self.window.delete.shown = false;
        }
    }

    /// The state after a deletion that waits met a snapshot: one of a download that is gone, or
    /// no longer finished where only finished ones are meant, is dropped; another follows the
    /// download's state.
    pub open spec fn pending_followed(self, snapshot: DownloadSnapshot) -> AppState {
        match self.pending_delete {
            Some(PendingDelete::Active(request)) => if snapshot.status is Idle
                || snapshot.session_id != request.session_id || (request.completed_only
                && !(snapshot.status is Completed)) {
                AppState {
                    pending_delete: None,
                    window: WindowState {
                        delete: DeleteDialog { shown: false, ..self.window.delete },
                        ..self.window
                    },
                    ..self
                }
            } else {
                AppState {
                    pending_delete: Some(
                        PendingDelete::Active(DeleteTarget { status: snapshot.status, ..request }),
                    ),
                    window: WindowState {
                        delete: DeleteDialog {
                            target_completed: snapshot.status is Completed,
                            ..self.window.delete
                        },
                        ..self.window
                    },
                    ..self
                }
            },
            _ => self,
        }
    }

    /// Lets a deletion that waits follow the download that it is about.
    pub fn follow_pending(&mut self, snapshot: &DownloadSnapshot)
        ensures
            *final(self) == old(self).pending_followed(*snapshot),
    {
        match self.pending_delete.take() {
            Some(PendingDelete::Active(request)) => {
                let is_completed = match &snapshot.status {
                    DownloadStatus::Completed => true,
                    _ => false,
                };
                if snapshot.status.is_idle() || snapshot.session_id != request.session_id || (
                request.completed_only && !is_completed) {
                    self.window.delete.shown = false;
                } else {
                    self.pending_delete = Some(
                        PendingDelete::Active(
                            DeleteTarget {
                                session_id: request.session_id,
                                status: snapshot.status.copy(),
                                completed_only: request.completed_only,
                            },
                        ),
                    );
                    self.window.delete.target_completed = is_completed;
                }
            },
            other => {
                self.pending_delete = other;
            },
        }
    }
}

/// Law: a confirmation only ever deletes the download that was confirmed, and only in the state
/// that it has when the confirmation arrives.
pub proof fn law_confirmations_name_their_download(
    state: AppState,
    delete_file: bool,
    snapshot: DownloadSnapshot,
    after: AppState,
    effect: DeleteEffect,
)
    requires
        state.confirmed(delete_file, snapshot, after, effect),
    ensures
        after.pending_delete is None,
        effect matches DeleteEffect::Send { action, rewrite_log } ==> {
            &&& state.pending_delete matches Some(PendingDelete::Active(request))
                && request.session_id == snapshot.session_id
            &&& action matches DownloadAction::Remove {
                expected_session_id,
                expected_status,
                delete_file: deletes,
                completed_only,
            } && expected_session_id == snapshot.session_id && expected_status == snapshot.status
                && deletes == delete_file
        },
        effect matches DeleteEffect::RemoveFile { id, path } ==> {
            &&& delete_file
            &&& state.pending_delete matches Some(
                PendingDelete::History { id: wanted, filename, save_path },
            ) && wanted == id && save_path == path
        },
{
}

/// Law: asking for a deletion deletes nothing: it opens the dialog for the selected download, with
/// the deletion of the file not chosen.
pub proof fn law_deletions_ask_first(state: AppState, completed_only: bool)
    ensures
        ({
            let after = state.asks_selected();
            &&& after.history_store == state.history_store && after.download_history
                == state.download_history && after.history_tracker == state.history_tracker
            &&& after.pending_delete matches Some(pending) ==> (after != state ==> {
                &&& after.window.delete.shown && !after.window.delete.delete_file
                &&& pending matches PendingDelete::History { id, filename, .. } ==> id
                    == state.window.selection.row && filename == after.window.delete.filename
                    && history::has_id(state.history_store.entries@, id)
                &&& pending matches PendingDelete::Active(target) ==> state.window.selection.row == 0
                    && (state.displayed_delete_target matches Some(shown) && target.session_id
                    == shown.session_id && target.status == shown.status)
            })
        }),
        ({
            let after = state.asks_active(completed_only);
            &&& after.history_store == state.history_store && after.download_history
                == state.download_history
            &&& completed_only && !(state.displayed_delete_target matches Some(target)
                && target.status is Completed) ==> after == state
            &&& (state.displayed_delete_target is Some && !completed_only)
                ==> after.window.delete.shown && !after.window.delete.delete_file
        }),
{
    let entries = state.history_store.entries@;
    let row = state.window.selection.row;
    if row != 0 && history::has_id(entries, row) {
        history::lemma_index_found(entries, row);
    }
}

/// Law: a confirmed deletion of a listed download takes the entry off at once where its file stays,
/// and otherwise only after the file was dealt with; nothing outside is deleted unless the deletion
/// of the file was chosen.
pub proof fn law_files_go_only_where_that_was_chosen(
    state: AppState,
    delete_file: bool,
    snapshot: DownloadSnapshot,
    after: AppState,
    effect: DeleteEffect,
)
    requires
        state.confirmed(delete_file, snapshot, after, effect),
    ensures
        !delete_file ==> !(effect is RemoveFile),
        effect matches DeleteEffect::Send { action, .. } ==> (action matches DownloadAction::Remove {
            delete_file: asked,
            ..
        } && asked == delete_file),
        state.pending_delete is None ==> effect is Nothing && after == state,
        state.pending_delete matches Some(PendingDelete::History { id, .. }) ==> {
            &&& delete_file ==> effect is RemoveFile && after.history_store == state.history_store
                && after.download_history == state.download_history
            &&& !delete_file ==> effect is Finished && after.history_store.entries@
                == history::without_id(state.history_store.entries@, id) && after.download_history@
                == table::without_row(state.download_history@, id)
        },
        (state.pending_delete matches Some(PendingDelete::Active(request)) && (snapshot.session_id
            != request.session_id || snapshot.status is Idle)) ==> effect is Nothing
            && after.history_store == state.history_store && after.download_history
            == state.download_history,
        (state.pending_delete matches Some(PendingDelete::Active(request)) && snapshot.session_id
            == request.session_id && !(snapshot.status is Idle)) ==> effect is Send,
{
}

/// Law: a listed download whose file could not be deleted stays listed and logged, and the user is
/// told why; one whose file is gone leaves the log, the list and the selection.
pub proof fn law_failed_deletions_keep_the_entry(
    state: AppState,
    id: i32,
    failure: Option<String>,
    after: AppState,
    rewrite_log: bool,
)
    requires
        state.deletion_ended(id, failure, after, rewrite_log),
        history::unique_ids(state.history_store.entries@),
    ensures
        failure matches Some(message) ==> after.history_store == state.history_store
            && after.download_history == state.download_history
            && after.window.action_error_message == message && !rewrite_log,
        failure is None ==> !history::has_id(after.history_store.entries@, id),
        failure is None && id != -1 ==> after.window.selection.row != id,
        failure is None && state.window.selection.row == id ==> after.window.selection.row == -1
            && !after.window.selection.history_row,
        failure is None && state.window.selection.row != id ==> after.window.selection
            == state.window.selection,
        (failure is None && (state.history_tracker.completed matches Some(entry) && entry.id == id))
            ==> after.history_tracker.completed is None && !after.window.completed_listed,
        failure is None ==> (rewrite_log <==> history::has_id(state.history_store.entries@, id)),
        !after.window.delete.shown,
{
    history::law_only_the_named_entry_leaves(state.history_store.entries@, id);
}

/// Law: a deletion that waits is dropped once its download is gone or, where only finished ones are
/// meant, is no longer finished; otherwise it stays about the same download.
pub proof fn law_waiting_deletions_follow_their_download(
    state: AppState,
    request: DeleteTarget,
    snapshot: DownloadSnapshot,
)
    requires
        state.pending_delete == Some(PendingDelete::Active(request)),
    ensures
        snapshot.status is Idle || snapshot.session_id != request.session_id || (
        request.completed_only && !(snapshot.status is Completed)) ==> state.pending_followed(
            snapshot,
        ).pending_delete is None && !state.pending_followed(snapshot).window.delete.shown,
        !(snapshot.status is Idle) && snapshot.session_id == request.session_id && (
        request.completed_only ==> snapshot.status is Completed) ==> (state.pending_followed(
            snapshot,
        ).pending_delete matches Some(PendingDelete::Active(now)) && now.session_id
            == request.session_id && now.status == snapshot.status && now.completed_only
            == request.completed_only),
        state.pending_followed(snapshot).history_store == state.history_store,
        state.pending_followed(snapshot).download_history == state.download_history,
{
}

/// Law: the download that is shown is the one whose deletion can be asked for; none is while nothing
/// is shown.
pub proof fn law_only_the_shown_download_can_be_deleted(snapshot: DownloadSnapshot)
    ensures
        displayed_target(snapshot) is None <==> snapshot.status is Idle,
        displayed_target(snapshot) matches Some(target) ==> target.session_id
            == snapshot.session_id && target.status == snapshot.status && !target.completed_only,
{
}

} // verus!
