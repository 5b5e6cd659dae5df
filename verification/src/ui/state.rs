//! The window, and everything that its controls work on.
use crate::engine::model::DownloadSnapshot;
use crate::history;
use crate::history::{HistoryEntry, HistoryError, HistoryStore};
use crate::path::FilePath;
use crate::text;
use crate::ui::delete;
use crate::ui::delete::{DeleteDialog, DeleteTarget, PendingDelete};
use crate::ui::options::OptionsForm;
use crate::ui::projection;
use crate::ui::projection::{active_row, history_rows, history_table_item, ActiveRow, DuplicateDialog};
use crate::ui::save_settings::SaveSettings;
use crate::ui::sort;
use crate::ui::sort::{sort_items, DATE_COLUMN};
use crate::ui::table;
use crate::ui::table::{HistoryTracker, Selection, TableItem};
use vstd::prelude::*;

verus! {

/// How sending a request to the engine went.
#[derive(Debug, Clone, Copy, PartialEq, Eq, Structural)]
pub enum SendOutcome {
    Sent,
    /// The engine has too many requests waiting.
    Full,
    /// The engine is gone.
    Closed,
}

impl SendOutcome {
    /// What the user is told.
    pub open spec fn shown(self) -> Seq<char> {
        match self {
            SendOutcome::Sent => ""@,
            SendOutcome::Full => "Download engine is busy. Try the action again."@,
            SendOutcome::Closed => "Download engine is unavailable. Restart the app."@,
        }
    }
}

/// What the window shows.
#[derive(Debug, Clone, PartialEq, Eq)]
pub struct WindowState {
    pub selection: Selection,
    pub sort_column: i32,
    pub sort_ascending: bool,
    pub url_text: String,
    pub dest_dir_text: String,
    pub show_add_dialog: bool,
    pub action_error_message: String,
    /// Whether the finished download of the session is listed.
    pub completed_listed: bool,
    pub active: ActiveRow,
    pub delete: DeleteDialog,
    pub duplicate: DuplicateDialog,
    pub options: OptionsForm,
    /// Whether the program starts at sign-in.
    pub launch_on_startup: bool,
}

impl WindowState {
    /// Shows how sending a request went, and says whether it was sent.
    pub fn sent(&mut self, outcome: SendOutcome) -> (r: bool)
        ensures
            r == (outcome is Sent),
            final(self).action_error_message@ == outcome.shown(),
            *final(self) == (WindowState {
                action_error_message: final(self).action_error_message,
                ..*old(self)
            }),
    {
        let message = match outcome {
            SendOutcome::Sent => "",
            SendOutcome::Full => "Download engine is busy. Try the action again.",
            SendOutcome::Closed => "Download engine is unavailable. Restart the app.",
        };
        self.action_error_message = message.to_string();
        match outcome {
            SendOutcome::Sent => true,
            _ => false,
        }
    }

    /// The active download has a row of its own until it is listed with the finished ones.
    pub fn active_row_visible(&self) -> (r: bool)
        ensures
            r == (self.active.has_active_download && !self.completed_listed && table::filter_shows(
                self.selection.category,
                self.active.category_id,
                self.active.is_completed,
            )),
    {
        self.active.has_active_download && !self.completed_listed && table::category_matches_id(
            self.selection.category,
            self.active.category_id,
            self.active.is_completed,
        )
    }
}

/// The window, and everything that its controls work on.
#[derive(Debug)]
pub struct AppState {
    pub save_settings: SaveSettings,
    pub history_store: HistoryStore,
    pub history_tracker: HistoryTracker,
    /// The rows of the finished downloads, in the order of the table.
    pub download_history: Vec<TableItem>,
    /// The download that the window shows, which a deletion is asked for.
    pub displayed_delete_target: Option<DeleteTarget>,
    pub pending_delete: Option<PendingDelete>,
    pub window: WindowState,
}

/// Whether rows show entries in the order of a header sort.
pub open spec fn rows_show(
    rows: Seq<TableItem>,
    entries: Seq<HistoryEntry>,
    settings: SaveSettings,
    column: i32,
    ascending: bool,
) -> bool {
    exists|listed: Seq<TableItem>|
        #![trigger sort::is_reordering(listed, rows, column, ascending)]
        {
            &&& listed.len() == entries.len()
            &&& forall|i: int|
                0 <= i < listed.len() ==> projection::is_dated_row(
                    #[trigger] listed[i],
                    settings,
                    entries[i],
                )
            &&& sort::is_reordering(listed, rows, column, ascending)
        }
}

impl AppState {
    /// The state when the window opens: the kept downloads are listed, newest first.
    pub fn new(save_settings: SaveSettings, history_store: HistoryStore, window: WindowState) -> (r:
        AppState)
        ensures
            r.save_settings == save_settings,
            r.history_store == history_store,
            history::is_next_id(history_store.entries@, r.history_tracker.next_item_id),
            r.history_tracker.session_id == 0,
            r.history_tracker.completed is None,
            rows_show(r.download_history@, history_store.entries@, save_settings, DATE_COLUMN, false),
            r.displayed_delete_target is None,
            r.pending_delete is None,
            r.window == (WindowState {
                dest_dir_text: save_settings.default_dir.text,
                sort_column: DATE_COLUMN,
                sort_ascending: false,
                ..window
            }),
    {
        let mut window = window;
        window.dest_dir_text = save_settings.default_dir.text.clone();
        window.sort_column = DATE_COLUMN;
        window.sort_ascending = false;
        let mut rows = history_rows(&save_settings, &history_store.entries);
        sort_items(&mut rows, DATE_COLUMN, false);
        let next_id: i32 = history_store.next_id();
        AppState {
            save_settings,
            history_store,
            history_tracker: HistoryTracker::new(next_id),
            download_history: rows,
            displayed_delete_target: None,
            pending_delete: None,
            window,
        }
    }

    /// Brings the rows into the order of the table.
    pub fn resort(&mut self)
        ensures
            sort::is_reordering(
                old(self).download_history@,
                final(self).download_history@,
                old(self).window.sort_column,
                old(self).window.sort_ascending,
            ),
            *final(self) == (AppState {
                download_history: final(self).download_history,
                ..*old(self)
            }),
    {
        sort_items(&mut self.download_history, self.window.sort_column, self.window.sort_ascending);
    }

    /// Whether the state follows from a click on a column header.
    pub open spec fn header_clicked(self, column: i32, after: AppState) -> bool {
        let ascending = self.window.sort_column != column || !self.window.sort_ascending;
        &&& sort::is_reordering(
            self.download_history@,
            after.download_history@,
            column,
            ascending,
        )
        &&& after == (AppState {
            download_history: after.download_history,
            window: WindowState { sort_column: column, sort_ascending: ascending, ..self.window },
            ..self
        })
    }

    /// Applies a click on a column header: the same column again turns the direction around, a new
    /// one starts ascending.
    pub fn apply_sort_request(&mut self, column: i32)
        ensures
            old(self).header_clicked(column, *final(self)),
    {
        let ascending = self.window.sort_column != column || !self.window.sort_ascending;
        self.window.sort_column = column;
        self.window.sort_ascending = ascending;
        self.resort();
    }

    /// Notes which row was selected.
    pub fn row_selected(&mut self, id: i32)
        ensures
            *final(self) == (AppState {
                window: WindowState {
                    selection: Selection {
                        history_row: table::shows_row(
                            old(self).download_history@,
                            old(self).window.selection.category,
                            id,
                        ),
                        ..old(self).window.selection
                    },
                    ..old(self).window
                },
                ..*old(self)
            }),
    {
        self.window.selection.update_selection_state(&self.download_history, id);
    }

    /// Notes that another filter was chosen.
    pub fn category_changed(&mut self)
        ensures
            *final(self) == (AppState {
                window: WindowState {
                    selection: Selection {
                        history_row: table::shows_row(
                            old(self).download_history@,
                            old(self).window.selection.category,
                            old(self).window.selection.row,
                        ),
                        ..old(self).window.selection
                    },
                    ..old(self).window
                },
                ..*old(self)
            }),
    {
        let row: i32 = self.window.selection.row;
        self.row_selected(row);
    }

    /// The file of the selected row, if it has a finished one.
    pub open spec fn openable(self, snapshot: DownloadSnapshot) -> Option<FilePath> {
        let row = self.window.selection.row;
        let entries = self.history_store.entries@;
        if row == 0 {
            if snapshot.status is Completed {
                Some(snapshot.save_path)
            } else {
                None
            }
        } else if history::has_id(entries, row) {
            Some(entries[history::index_of(entries, row)].save_path)
        } else {
            None
        }
    }

    /// The file that is opened for the selected row: that of the active download once it is
    /// finished, or that of a listed one.
    pub fn file_to_open(&self, snapshot: &DownloadSnapshot) -> (r: Option<FilePath>)
        ensures
            r == self.openable(*snapshot),
    {
        let row: i32 = self.window.selection.row;
        if row == 0 {
            match &snapshot.status {
                crate::engine::model::DownloadStatus::Completed => Some(snapshot.save_path.copy()),
                _ => None,
            }
        } else {
            match self.history_store.path_for(row) {
                Some(path) => Some(path.copy()),
                None => None,
            }
        }
    }

    /// Shows that the log could not be saved.
    pub fn log_failed(&mut self, error: &HistoryError)
        ensures
            final(self).window.action_error_message@ == "Could not save download history: "@
                + error.shown(),
            *final(self) == (AppState {
                window: WindowState {
                    action_error_message: final(self).window.action_error_message,
                    ..old(self).window
                },
                ..*old(self)
            }),
    {
        let reason = error.message();
        self.window.action_error_message = text::join2(
            "Could not save download history: ",
            reason.as_str(),
        );
    }

    /// Shows that the options could not be saved.
    pub fn options_failed(&mut self, reason: &str)
        ensures
            final(self).window.action_error_message@ == "Could not save options: "@ + reason@,
            *final(self) == (AppState {
                window: WindowState {
                    action_error_message: final(self).window.action_error_message,
                    ..old(self).window
                },
                ..*old(self)
            }),
    {
        self.window.action_error_message = text::join2("Could not save options: ", reason);
    }

    /// Shows that starting at sign-in could not be changed, and what holds instead.
    pub fn startup_failed(&mut self, reason: &str, actual: bool)
        ensures
            final(self).window.action_error_message@ == "Could not update the startup setting: "@
                + reason@,
            *final(self) == (AppState {
                window: WindowState {
                    action_error_message: final(self).window.action_error_message,
                    launch_on_startup: actual,
                    ..old(self).window
                },
                ..*old(self)
            }),
    {
        self.window.launch_on_startup = actual;
        self.window.action_error_message = text::join2(
            "Could not update the startup setting: ",
            reason,
        );
    }

    /// Whether the state follows from listing a finished download: it is logged and listed in the
    /// order of the table, and the selection of the active download moves along.
    pub open spec fn listed_entry(self, entry: HistoryEntry, after: AppState) -> bool {
        &&& after.history_store.path == self.history_store.path
        &&& after.history_store.entries@ == history::recorded(self.history_store.entries@, entry)
        &&& exists|row: TableItem| #[trigger]
            projection::is_dated_row(row, self.save_settings, entry) && sort::is_reordering(
                self.download_history@.push(row),
                after.download_history@,
                self.window.sort_column,
                self.window.sort_ascending,
            )
        &&& after == (AppState {
            history_store: after.history_store,
            download_history: after.download_history,
            window: WindowState {
                completed_listed: true,
                selection: if self.window.selection.row == 0 {
                    Selection {
                        row: entry.id,
                        category: self.window.selection.category,
                        history_row: table::shows_row(
                            after.download_history@,
                            self.window.selection.category,
                            entry.id,
                        ),
                    }
                } else {
                    self.window.selection
                },
                ..self.window
            },
            ..self
        })
    }

    /// Lists a finished download at once, in its place of the table.
    pub fn list_finished(&mut self, entry: HistoryEntry)
        ensures
            old(self).listed_entry(entry, *final(self)),
    {
        let row = history_table_item(&self.save_settings, &entry);
        let id: i32 = entry.id;
        self.history_store.record(entry);
        self.download_history.push(row);
        self.resort();
        self.window.completed_listed = true;
        if self.window.selection.row == 0 {
            self.window.selection.row = id;
            self.row_selected(id);
        }
        assert(projection::is_dated_row(row, old(self).save_settings, entry));
    }

    /// Whether the state follows from looking for an id for the next download: one that the log
    /// holds already is replaced.
    pub open spec fn numbered(self, after: AppState) -> bool {
        let entries = self.history_store.entries@;
        let id = after.history_tracker.next_item_id;
        &&& if history::has_id(entries, self.history_tracker.next_item_id) {
            history::is_next_id(entries, id)
        } else {
            id == self.history_tracker.next_item_id
        }
        &&& after == (AppState {
            history_tracker: HistoryTracker { next_item_id: id, ..self.history_tracker },
            ..self
        })
    }

    /// Looks for a free id for the next download.
    pub fn number_next(&mut self)
        ensures
            old(self).numbered(*final(self)),
    {
        if self.history_store.entry_with(self.history_tracker.next_item_id).is_some() {
            self.history_tracker.next_item_id = self.history_store.next_id();
        }
    }

    /// Whether the state follows from a report of the tracker on a snapshot.
    pub open spec fn reported(
        self,
        snapshot: DownloadSnapshot,
        unix_ms: u64,
        report: Option<HistoryEntry>,
        after: AppState,
    ) -> bool {
        &&& self.history_tracker.observed(snapshot, unix_ms, after.history_tracker, report)
        &&& ({
            let observed = AppState { history_tracker: after.history_tracker, ..self };
            match report {
                Some(entry) => observed.listed_entry(entry, after),
                None => after == observed,
            }
        })
    }

    /// Whether the state follows from showing a snapshot.
    pub open spec fn shown(self, snapshot: DownloadSnapshot, after: AppState) -> bool {
        let followed = self.pending_followed(snapshot);
        &&& projection::is_active_row_of(after.window.active, self.save_settings, snapshot)
        &&& self.window.duplicate.projected(snapshot.duplicate, after.window.duplicate)
        &&& after == (AppState {
            displayed_delete_target: delete::displayed_target(snapshot),
            window: WindowState {
                active: after.window.active,
                duplicate: after.window.duplicate,
                show_add_dialog: self.window.show_add_dialog && !(snapshot.duplicate is Some
                    && !self.window.duplicate.shown),
                ..followed.window
            },
            ..followed
        })
    }

    /// Shows a snapshot: the active download, its duplicate prompt, and a deletion that waits.
    pub fn show_snapshot(&mut self, snapshot: &DownloadSnapshot)
        ensures
            old(self).shown(*snapshot, *final(self)),
    {
        self.follow_pending(snapshot);
        self.window.active = active_row(&self.save_settings, snapshot);
        if snapshot.duplicate.is_some() && !self.window.duplicate.shown {
            self.window.show_add_dialog = false;
        }
        self.window.duplicate.project(&snapshot.duplicate);
        self.displayed_delete_target = DeleteTarget::displayed(snapshot);
    }

    /// Takes in a snapshot of the engine at a time, and says whether the log has to be saved: a
    /// download that it shows as finished for the first time is logged and listed.
    pub fn project(&mut self, snapshot: &DownloadSnapshot, unix_ms: u64) -> (rewrite_log: bool)
        ensures
            rewrite_log == old(self).history_tracker.is_news(*snapshot),
            exists|next: AppState, report: Option<HistoryEntry>, listed: AppState|
                old(self).numbered(next) && #[trigger] next.reported(
                    *snapshot,
                    unix_ms,
                    report,
                    listed,
                ) && listed.shown(*snapshot, *final(self)),
    {
        self.number_next();
        let ghost next = *self;
        let report = self.history_tracker.observe_at(snapshot, unix_ms);
        let ghost finished = report;
        let rewrite_log = match report {
            Some(entry) => {
                self.list_finished(entry);
                true
            },
            None => false,
        };
        let ghost listed = *self;
        assert(next.reported(*snapshot, unix_ms, finished, listed));
        self.show_snapshot(snapshot);
        rewrite_log
    }

    /// Takes over the confirmed options, with a fallback for an empty default directory: the
    /// downloads are routed and listed anew.
    pub fn commit_options(&mut self, fallback: &FilePath)
        ensures
            old(self).window.options.confirms(fallback@, final(self).save_settings),
            rows_show(
                final(self).download_history@,
                old(self).history_store.entries@,
                final(self).save_settings,
                old(self).window.sort_column,
                old(self).window.sort_ascending,
            ),
            *final(self) == (AppState {
                save_settings: final(self).save_settings,
                download_history: final(self).download_history,
                window: WindowState {
                    dest_dir_text: final(self).save_settings.default_dir.text,
                    selection: Selection {
                        history_row: table::shows_row(
                            final(self).download_history@,
                            old(self).window.selection.category,
                            old(self).window.selection.row,
                        ),
                        ..old(self).window.selection
                    },
                    ..old(self).window
                },
                ..*old(self)
            }),
    {
        self.save_settings = self.window.options.committed(fallback);
        self.window.dest_dir_text = self.save_settings.default_dir.text.clone();
        self.download_history = history_rows(&self.save_settings, &self.history_store.entries);
        self.resort();
        self.category_changed();
    }
}

/// Law: a download that finishes is listed under an id that no logged download has.
pub proof fn law_finished_downloads_get_new_ids(
    state: AppState,
    next: AppState,
    snapshot: DownloadSnapshot,
    unix_ms: u64,
    entry: HistoryEntry,
    listed: AppState,
)
    requires
        state.history_store.entries@.len() < i32::MAX,
        state.numbered(next),
        next.reported(snapshot, unix_ms, Some(entry), listed),
    ensures
        !history::has_id(state.history_store.entries@, entry.id),
{
    let entries = state.history_store.entries@;
    if history::has_id(entries, state.history_tracker.next_item_id) {
        history::lemma_next_id(entries, next.history_tracker.next_item_id);
    }
}

/// Law: only the file of a finished download is opened, and it is the file of the selected row.
pub proof fn law_only_finished_files_are_opened(state: AppState, snapshot: DownloadSnapshot)
    ensures
        state.window.selection.row == 0 ==> (state.openable(snapshot) is Some
            <==> snapshot.status is Completed),
        state.window.selection.row == 0 ==> (state.openable(snapshot) matches Some(path) ==> path
            == snapshot.save_path),
        state.window.selection.row != 0 ==> (state.openable(snapshot) matches Some(path) ==> exists|
            i: int|
            0 <= i < state.history_store.entries@.len() && (
            #[trigger] state.history_store.entries@[i]).id == state.window.selection.row
                && state.history_store.entries@[i].save_path == path),
        state.window.selection.row != 0 && history::has_id(
            state.history_store.entries@,
            state.window.selection.row,
        ) ==> state.openable(snapshot) is Some,
{
    let entries = state.history_store.entries@;
    let row = state.window.selection.row;
    if row != 0 && history::has_id(entries, row) {
        history::lemma_index_found(entries, row);
        assert(entries[history::index_of(entries, row)].id == row);
    }
}

/// Law: a first click on a header sorts ascending, a second one descending, and a third one
/// ascending again; every row stays.
pub proof fn law_repeated_clicks_turn_the_order_around(
    state: AppState,
    column: i32,
    once: AppState,
    twice: AppState,
)
    requires
        state.window.sort_column != column,
        state.header_clicked(column, once),
        once.header_clicked(column, twice),
    ensures
        once.window.sort_column == column && once.window.sort_ascending,
        twice.window.sort_column == column && !twice.window.sort_ascending,
        twice.download_history@.to_multiset() == state.download_history@.to_multiset(),
        sort::is_reordering(state.download_history@, once.download_history@, column, true),
{
    sort::law_sorting_keeps_every_row(
        state.download_history@,
        once.download_history@,
        column,
        true,
    );
    sort::law_sorting_keeps_every_row(
        once.download_history@,
        twice.download_history@,
        column,
        false,
    );
}

/// Law: a finished download is logged and listed, as the newest entry and one more row, and what
/// was listed before stays listed.
pub proof fn law_finished_downloads_are_logged_and_listed(
    state: AppState,
    entry: HistoryEntry,
    after: AppState,
)
    requires
        state.listed_entry(entry, after),
    ensures
        after.history_store.entries@.len() > 0 && after.history_store.entries@.last() == entry,
        after.download_history@.len() == state.download_history@.len() + 1,
        exists|row: TableItem|
            row.id == entry.id && row.filename == entry.filename
                && #[trigger] after.download_history@.to_multiset()
                == state.download_history@.push(row).to_multiset(),
        after.window.completed_listed,
        state.window.selection.row == 0 ==> after.window.selection.row == entry.id,
        state.window.selection.row != 0 ==> after.window.selection == state.window.selection,
        after.save_settings == state.save_settings,
{
    let row = choose|row: TableItem| #[trigger]
        projection::is_dated_row(row, state.save_settings, entry) && sort::is_reordering(
            state.download_history@.push(row),
            after.download_history@,
            state.window.sort_column,
            state.window.sort_ascending,
        );
    sort::law_sorting_keeps_every_row(
        state.download_history@.push(row),
        after.download_history@,
        state.window.sort_column,
        state.window.sort_ascending,
    );
    assert(row.id == entry.id && row.filename == entry.filename);
}

/// Law: the log changes only with a download that the snapshot shows as finished for the first time.
pub proof fn law_the_log_changes_only_with_a_finish(
    state: AppState,
    snapshot: DownloadSnapshot,
    unix_ms: u64,
    report: Option<HistoryEntry>,
    after: AppState,
)
    requires
        state.reported(snapshot, unix_ms, report, after),
    ensures
        report is None ==> after.history_store == state.history_store && after.download_history
            == state.download_history,
        report is Some ==> snapshot.status is Completed,
        report matches Some(entry) ==> entry.url == snapshot.url && entry.save_path
            == snapshot.save_path && after.history_store.entries@.last() == entry,
{
    if report is Some {
        let observed = AppState { history_tracker: after.history_tracker, ..state };
        law_finished_downloads_are_logged_and_listed(observed, report->0, after);
    }
}

/// Law: each outcome of a request is told apart, and only a sent one leaves no message.
pub proof fn law_failed_requests_are_reported(outcome: SendOutcome)
    ensures
        outcome.shown().len() == 0 <==> outcome is Sent,
{
    reveal_strlit("");
    reveal_strlit("Download engine is busy. Try the action again.");
    reveal_strlit("Download engine is unavailable. Restart the app.");
}

/// Law: the active download has a row of its own exactly while there is one, it is not listed with
/// the finished ones yet, and the filter shows it.
pub proof fn law_listed_downloads_have_one_row(window: WindowState, r: bool)
    requires
        call_ensures(WindowState::active_row_visible, (&window,), r),
    ensures
        r ==> window.active.has_active_download && !window.completed_listed,
        window.active.has_active_download && !window.completed_listed && window.selection.category
            == 0 ==> r,
        r && 1 <= window.selection.category <= 11 ==> window.selection.category
            == window.active.category_id,
{
}

/// Law: a snapshot is shown as it is: the active row, the question that it asks, and the download
/// that can be deleted; a new question closes the dialog for a new download, and nothing that is
/// listed or logged changes.
pub proof fn law_snapshots_are_shown_as_they_are(
    state: AppState,
    snapshot: DownloadSnapshot,
    after: AppState,
)
    requires
        state.shown(snapshot, after),
    ensures
        after.window.active.has_active_download <==> !(snapshot.status is Idle),
        after.window.active.filename == snapshot.filename,
        after.window.duplicate.shown <==> snapshot.duplicate is Some,
        snapshot.duplicate is Some && !state.window.duplicate.shown ==> !after.window.show_add_dialog,
        snapshot.duplicate is None ==> after.window.show_add_dialog == state.window.show_add_dialog,
        after.history_store == state.history_store && after.download_history
            == state.download_history && after.history_tracker == state.history_tracker
            && after.save_settings == state.save_settings,
        after.window.selection == state.window.selection,
        after.displayed_delete_target matches Some(target) ==> target.session_id
            == snapshot.session_id,
{
}

} // verus!
