//! What the window shows of downloads.
use crate::engine::model::{DownloadSnapshot, DownloadStatus, DuplicatePrompt};
use crate::history::label;
use crate::history::{downloaded_label, HistoryEntry};
use crate::text;
use crate::ui::category;
use crate::ui::format::{format_bytes, format_eta, format_percent, format_speed, to_significant};
use crate::ui::save_settings::SaveSettings;
use crate::ui::table::TableItem;
use vstd::prelude::*;

verus! {

/// Whether a snapshot has to be shown: the first one, and every changed one.
pub fn should_project_snapshot(changed: bool, initial: &mut bool) -> (r: bool)
    ensures
        r == (*old(initial) || changed),
        !*final(initial),
{
    let should_project = *initial || changed;
    *initial = false;
    should_project
}

/// Whether a row shows a finished download, with a label for its completion time.
pub open spec fn is_row_of(
    row: TableItem,
    settings: SaveSettings,
    entry: HistoryEntry,
    label: Seq<char>,
) -> bool {
    let file_type = settings.route(entry.filename@);
    &&& row.id == entry.id
    &&& row.filename == entry.filename
    &&& row.file_type@ == category::kind_name(file_type)
    &&& row.category_id == category::id_of(file_type)
    &&& row.size_text@ == crate::ui::format::bytes_text(entry.total_bytes)
    &&& row.status_text@ == "Complete"@
    &&& row.time_left_text@ == "--:--"@
    &&& row.transfer_rate_text@ == "0 KB/s"@
    &&& row.downloaded_text@ == label
    &&& row.size_bytes == crate::ui::format::significant(
        entry.total_bytes as int,
        crate::ui::format::SINGLE_LIMIT as int,
    )
}

/// Whether a row shows a finished download with a label that fits its completion time.
pub open spec fn is_dated_row(row: TableItem, settings: SaveSettings, entry: HistoryEntry) -> bool {
    is_row_of(row, settings, entry, row.downloaded_text@) && label::may_show(
        entry.completed_unix_ms,
        row.downloaded_text@,
    )
}

/// The row of a finished download, with a label for its completion time.
pub fn table_item(settings: &SaveSettings, entry: &HistoryEntry, label: String) -> (r: TableItem)
    ensures
        is_row_of(r, *settings, *entry, label@),
{
    let file_type = settings.category_for_filename(entry.filename.as_str());
    TableItem {
        id: entry.id,
        filename: entry.filename.clone(),
        file_type: file_type.as_str().to_string(),
        category_id: file_type.category_id(),
        size_text: format_bytes(entry.total_bytes),
        status_text: "Complete".to_string(),
        time_left_text: "--:--".to_string(),
        transfer_rate_text: "0 KB/s".to_string(),
        downloaded_text: label,
        size_bytes: to_significant(entry.total_bytes, crate::ui::format::SINGLE_LIMIT),
    }
}

/// The row of a finished download.
pub fn history_table_item(settings: &SaveSettings, entry: &HistoryEntry) -> (r: TableItem)
    ensures
        is_dated_row(r, *settings, *entry),
{
    let label = downloaded_label(entry.completed_unix_ms);
    table_item(settings, entry, label)
}

/// The rows of some finished downloads, in their order.
pub fn history_rows(settings: &SaveSettings, entries: &Vec<HistoryEntry>) -> (r: Vec<TableItem>)
    ensures
        r@.len() == entries@.len(),
        forall|i: int|
            0 <= i < r@.len() ==> is_dated_row(#[trigger] r@[i], *settings, entries@[i]),
{
    let mut rows: Vec<TableItem> = Vec::new();
    let mut i: usize = 0;
    while i < entries.len()
        invariant
            i <= entries@.len(),
            rows@.len() == i,
            forall|j: int|
                0 <= j < i ==> is_dated_row(#[trigger] rows@[j], *settings, entries@[j]),
        decreases entries@.len() - i,
    {
        rows.push(history_table_item(settings, &entries[i]));
        i += 1;
    }
    rows
}

/// The color of a download's state.
#[derive(Debug, Clone, Copy, PartialEq, Eq, Structural)]
pub enum StatusColor {
    Idle,
    Warning,
    Success,
    Danger,
}

/// The row of the active download.
#[derive(Debug, Clone, PartialEq, Eq)]
pub struct ActiveRow {
    pub has_active_download: bool,
    pub is_downloading: bool,
    pub is_paused: bool,
    pub is_completed: bool,
    pub is_resumable: bool,
    pub filename: String,
    pub file_type: String,
    pub category_id: i32,
    pub status: String,
    pub status_color: StatusColor,
    pub error_message: String,
    pub transfer_rate: String,
    pub size: String,
    pub time_left: String,
}

/// The word for a download's state.
pub open spec fn badge_of(status: DownloadStatus) -> Seq<char> {
    match status {
        DownloadStatus::Idle => "Idle"@,
        DownloadStatus::Connecting => "Connecting"@,
        DownloadStatus::Downloading => "Downloading"@,
        DownloadStatus::Paused => "Stopped"@,
        DownloadStatus::Completed => "Complete"@,
        DownloadStatus::Failed(_) => "Failed"@,
    }
}

pub open spec fn color_of(status: DownloadStatus) -> StatusColor {
    match status {
        DownloadStatus::Idle => StatusColor::Idle,
        DownloadStatus::Connecting => StatusColor::Warning,
        DownloadStatus::Downloading => StatusColor::Success,
        DownloadStatus::Paused => StatusColor::Warning,
        DownloadStatus::Completed => StatusColor::Success,
        DownloadStatus::Failed(_) => StatusColor::Danger,
    }
}

/// Whether bytes are, or are about to be, received.
pub open spec fn is_busy(status: DownloadStatus) -> bool {
    status is Connecting || status is Downloading
}

/// The share of the file that is shown as downloaded.
pub open spec fn share_text(snap: DownloadSnapshot) -> Seq<char> {
    match snap.total_bytes {
        Some(total) => if total > 0 {
            crate::ui::format::percent_text(snap.downloaded_bytes, total)
        } else {
            crate::ui::format::tenths(0)
        },
        None => crate::ui::format::tenths(0),
    }
}

/// The state as shown: the word for it, and the downloaded share while bytes are received.
pub open spec fn status_line(snap: DownloadSnapshot) -> Seq<char> {
    if is_busy(snap.status) {
        badge_of(snap.status) + " ("@ + share_text(snap) + "%)"@
    } else {
        badge_of(snap.status)
    }
}

/// The size as shown: the downloaded and total sizes while both differ.
pub open spec fn size_line(snap: DownloadSnapshot) -> Seq<char> {
    match snap.total_bytes {
        Some(total) => if snap.status is Completed {
            crate::ui::format::bytes_text(total)
        } else {
            crate::ui::format::bytes_text(snap.downloaded_bytes) + " / "@ + crate::ui::format::bytes_text(total)
        },
        None => crate::ui::format::bytes_text(snap.downloaded_bytes),
    }
}

/// Whether a row shows the download of a snapshot.
pub open spec fn is_active_row_of(
    row: ActiveRow,
    settings: SaveSettings,
    snap: DownloadSnapshot,
) -> bool {
    let file_type = settings.route(snap.filename@);
    &&& row.has_active_download == !(snap.status is Idle)
    &&& row.is_downloading == is_busy(snap.status)
    &&& row.is_paused == (snap.status is Paused || (snap.status is Failed && snap.resumable))
    &&& row.is_completed == (snap.status is Completed)
    &&& row.is_resumable == snap.resumable
    &&& row.filename == snap.filename
    &&& row.file_type@ == category::kind_name(file_type)
    &&& row.category_id == category::id_of(file_type)
    &&& row.status@ == status_line(snap)
    &&& row.status_color == color_of(snap.status)
    &&& row.error_message@ == (match snap.status {
        DownloadStatus::Failed(message) => message@,
        _ => Seq::empty(),
    })
    &&& row.transfer_rate@ == crate::ui::format::speed_text(snap.speed_bytes_per_sec)
    &&& row.size@ == size_line(snap)
    &&& row.time_left@ == crate::ui::format::eta_text(snap.eta_seconds)
}

/// The row of the active download.
pub fn active_row(settings: &SaveSettings, snap: &DownloadSnapshot) -> (r: ActiveRow)
    ensures
        is_active_row_of(r, *settings, *snap),
{
    let (badge, status_color, error_message) = match &snap.status {
        DownloadStatus::Idle => ("Idle", StatusColor::Idle, String::new()),
        DownloadStatus::Connecting => ("Connecting", StatusColor::Warning, String::new()),
        DownloadStatus::Downloading => ("Downloading", StatusColor::Success, String::new()),
        DownloadStatus::Paused => ("Stopped", StatusColor::Warning, String::new()),
        DownloadStatus::Completed => ("Complete", StatusColor::Success, String::new()),
        DownloadStatus::Failed(message) => ("Failed", StatusColor::Danger, message.clone()),
    };
    let (is_downloading, is_paused, is_completed) = match &snap.status {
        DownloadStatus::Connecting => (true, false, false),
        DownloadStatus::Downloading => (true, false, false),
        DownloadStatus::Paused => (false, true, false),
        DownloadStatus::Completed => (false, false, true),
        DownloadStatus::Failed(_) => (false, snap.resumable, false),
        DownloadStatus::Idle => (false, false, false),
    };
    let status = if is_downloading {
        let share = match snap.total_bytes {
            Some(total) => if total > 0 {
                format_percent(snap.downloaded_bytes, total)
            } else {
                no_share()
            },
            None => no_share(),
        };
        text::join4(badge, " (", share.as_str(), "%)")
    } else {
        badge.to_string()
    };
    let size = match snap.total_bytes {
        Some(total) => if is_completed {
            format_bytes(total)
        } else {
            let done = format_bytes(snap.downloaded_bytes);
            let all = format_bytes(total);
            text::join3(done.as_str(), " / ", all.as_str())
        },
        None => format_bytes(snap.downloaded_bytes),
    };
    let file_type = settings.category_for_filename(snap.filename.as_str());
    ActiveRow {
        has_active_download: !snap.status.is_idle(),
        is_downloading,
        is_paused,
        is_completed,
        is_resumable: snap.resumable,
        filename: snap.filename.clone(),
        file_type: file_type.as_str().to_string(),
        category_id: file_type.category_id(),
        status,
        status_color,
        error_message,
        transfer_rate: format_speed(snap.speed_bytes_per_sec),
        size,
        time_left: format_eta(snap.eta_seconds),
    }
}

fn no_share() -> (r: String)
    ensures
        r@ == crate::ui::format::tenths(0),
{
    proof {
        reveal_strlit("0.0");
        reveal_strlit(".");
        reveal_with_fuel(text::decimal, 2);
        assert("0.0"@ =~= crate::ui::format::tenths(0));
    }
    "0.0".to_string()
}

/// The dialog that asks about a duplicate.
#[derive(Debug, Clone, PartialEq, Eq)]
pub struct DuplicateDialog {
    pub shown: bool,
    pub selected_option: i32,
    pub remember: bool,
    pub url: String,
    pub filename: String,
    pub is_link: bool,
    pub existing_size: String,
}

impl DuplicateDialog {
    /// How a prompt changes the dialog: a new prompt opens it with nothing chosen, a repeated one
    /// keeps what the user chose, and without a prompt it closes.
    pub open spec fn projected(self, prompt: Option<DuplicatePrompt>, after: DuplicateDialog) -> bool {
        match prompt {
            Some(prompt) => {
                &&& after.shown
                &&& after.selected_option == (if self.shown {
                    self.selected_option
                } else {
                    0
                })
                &&& after.remember == (self.shown && self.remember)
                &&& after.url == prompt.url
                &&& after.filename == prompt.filename
                &&& after.is_link == prompt.link_duplicate
                &&& after.existing_size@ == (match prompt.existing_bytes {
                    Some(bytes) => crate::ui::format::bytes_text(bytes),
                    None => Seq::empty(),
                })
            },
            None => after == (DuplicateDialog { shown: false, ..self }),
        }
    }

    /// Shows a prompt, or closes without one.
    pub fn project(&mut self, prompt: &Option<DuplicatePrompt>)
        ensures
            old(self).projected(*prompt, *final(self)),
    {
        match prompt {
            Some(prompt) => {
                if !self.shown {
                    self.selected_option = 0;
                    self.remember = false;
                    self.shown = true;
                }
                self.url = prompt.url.clone();
                self.filename = prompt.filename.clone();
                self.is_link = prompt.link_duplicate;
                self.existing_size = match prompt.existing_bytes {
                    Some(bytes) => format_bytes(bytes),
                    None => String::new(),
                };
            },
            None => {
                self.shown = false;
            },
        }
    }
}

/// Law: the row of the active download offers what the engine does: it is busy exactly while it can
/// be paused, and stopped exactly while it can be resumed; every state has its own word, and only a
/// failure is shown as one, with its message.
pub proof fn law_the_active_row_offers_what_is_possible(
    row: ActiveRow,
    settings: SaveSettings,
    snap: DownloadSnapshot,
)
    requires
        is_active_row_of(row, settings, snap),
    ensures
        row.has_active_download <==> !(snap.status is Idle),
        row.is_downloading <==> snap.status is Connecting || snap.status is Downloading,
        row.is_paused <==> snap.status is Paused || (snap.status is Failed && snap.resumable),
        row.is_completed <==> snap.status is Completed,
        row.is_resumable == snap.resumable,
        row.filename == snap.filename,
        row.status_color == StatusColor::Danger <==> snap.status is Failed,
        row.error_message@.len() > 0 ==> snap.status is Failed,
        snap.status matches DownloadStatus::Failed(message) ==> row.error_message@ == message@,
        snap.status is Completed ==> row.status@ == "Complete"@,
        snap.status is Paused ==> row.status@ == "Stopped"@,
        snap.status is Failed ==> row.status@ == "Failed"@,
        row.category_id == category::id_of(settings.route(snap.filename@)),
{
}

/// Law: while bytes are received the row shows the share of the file that is there, and the sizes
/// that it shows are the downloaded one and the whole one, or the whole one alone at the end.
pub proof fn law_the_active_row_shows_the_progress(
    row: ActiveRow,
    settings: SaveSettings,
    snap: DownloadSnapshot,
)
    requires
        is_active_row_of(row, settings, snap),
    ensures
        snap.total_bytes matches Some(total) ==> {
            &&& snap.status is Downloading && total > 0 ==> row.status@ == "Downloading"@ + " ("@
                + crate::ui::format::percent_text(snap.downloaded_bytes, total) + "%)"@
            &&& snap.status is Completed ==> row.size@ == crate::ui::format::bytes_text(total)
            &&& !(snap.status is Completed) ==> row.size@ == crate::ui::format::bytes_text(
                snap.downloaded_bytes,
            ) + " / "@ + crate::ui::format::bytes_text(total)
        },
        snap.total_bytes is None ==> row.size@ == crate::ui::format::bytes_text(
            snap.downloaded_bytes,
        ),
        row.transfer_rate@ == crate::ui::format::speed_text(snap.speed_bytes_per_sec),
        row.time_left@ == crate::ui::format::eta_text(snap.eta_seconds),
{
}

/// Law: the row of a finished download shows that download: its id, its name, its size and the
/// category that its name belongs to.
pub proof fn law_rows_show_their_download(
    row: TableItem,
    settings: SaveSettings,
    entry: HistoryEntry,
    label: Seq<char>,
)
    requires
        is_row_of(row, settings, entry, label),
    ensures
        row.id == entry.id,
        row.filename == entry.filename,
        row.category_id == category::id_of(settings.route(entry.filename@)),
        row.size_text@ == crate::ui::format::bytes_text(entry.total_bytes),
        row.downloaded_text@ == label,
        row.status_text@ == "Complete"@,
        entry.total_bytes < 16777216 ==> row.size_bytes == entry.total_bytes,
{
    if entry.total_bytes < 16777216 {
        crate::ui::format::law_small_numbers_are_exact(
            entry.total_bytes as int,
            crate::ui::format::SINGLE_LIMIT as int,
        );
    }
}

/// Law: a new question opens with nothing chosen and nothing to remember, a repeated one keeps what
/// the user chose, and it closes with the question.
pub proof fn law_questions_open_with_nothing_chosen(
    dialog: DuplicateDialog,
    prompt: Option<DuplicatePrompt>,
    after: DuplicateDialog,
)
    requires
        dialog.projected(prompt, after),
    ensures
        after.shown <==> prompt is Some,
        prompt is Some && !dialog.shown ==> after.selected_option == 0 && !after.remember,
        prompt is Some && dialog.shown ==> after.selected_option == dialog.selected_option
            && after.remember == dialog.remember,
        prompt matches Some(asked) ==> after.url == asked.url && after.filename == asked.filename
            && after.is_link == asked.link_duplicate,
{
}

} // verus!
