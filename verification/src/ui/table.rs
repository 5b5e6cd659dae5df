//! The listed downloads: their rows, the selection, and the download that just finished.
use crate::engine::model::{DownloadSnapshot, DownloadStatus};
use crate::history::label;
use crate::history::{now_unix_ms, HistoryEntry};
use vstd::prelude::*;

verus! {

/// A row of the download list.
#[derive(Debug, Clone, PartialEq, Eq)]
pub struct TableItem {
    pub id: i32,
    pub filename: String,
    pub file_type: String,
    pub category_id: i32,
    pub size_text: String,
    pub status_text: String,
    pub time_left_text: String,
    pub transfer_rate_text: String,
    pub downloaded_text: String,
    /// The size with the precision of the table, which only orders rows by it.
    pub size_bytes: u128,
}

/// Whether a filter of the sidebar shows a download: the filters of the categories, the
/// unfinished and the finished downloads, two filters that show nothing yet, and all downloads.
pub open spec fn filter_shows(filter_id: i32, category_id: i32, completed: bool) -> bool {
    if 1 <= filter_id <= 11 {
        filter_id == category_id
    } else if filter_id == 12 {
        !completed
    } else if filter_id == 13 {
        completed
    } else {
        filter_id != 14 && filter_id != 15
    }
}

/// Whether a filter of the sidebar shows a download.
pub fn category_matches_id(filter_id: i32, category_id: i32, completed: bool) -> (r: bool)
    ensures
        r == filter_shows(filter_id, category_id, completed),
{
    if 1 <= filter_id && filter_id <= 11 {
        filter_id == category_id
    } else if filter_id == 12 {
        !completed
    } else if filter_id == 13 {
        completed
    } else {
        filter_id != 14 && filter_id != 15
    }
}

/// The selected row and filter.
#[derive(Debug, Clone, Copy, PartialEq, Eq, Structural)]
pub struct Selection {
    /// The id of the selected row: 0 for the active download, -1 for none.
    pub row: i32,
    pub category: i32,
    /// Whether the selected row is a listed one that the filter shows.
    pub history_row: bool,
}

/// Whether an id is that of a listed row that a filter shows.
pub open spec fn shows_row(rows: Seq<TableItem>, category: i32, id: i32) -> bool {
    id > 0 && exists|i: int|
        0 <= i < rows.len() && (#[trigger] rows[i]).id == id && filter_shows(
            category,
            rows[i].category_id,
            true,
        )
}

/// The ids of the listed rows that a filter shows, top to bottom.
pub open spec fn shown_ids(rows: Seq<TableItem>, category: i32) -> Seq<i32>
    decreases rows.len(),
{
    if rows.len() == 0 {
        Seq::empty()
    } else {
        let earlier = shown_ids(rows.drop_last(), category);
        if filter_shows(category, rows.last().category_id, true) {
            earlier.push(rows.last().id)
        } else {
            earlier
        }
    }
}

/// The ids of all rows in the table, top to bottom: the active download, then the listed ones.
pub open spec fn table_ids(rows: Seq<TableItem>, category: i32, active_visible: bool) -> Seq<i32> {
    if active_visible {
        seq![0i32] + shown_ids(rows, category)
    } else {
        shown_ids(rows, category)
    }
}

/// The position of the first id in a list, or its length.
pub open spec fn id_position(ids: Seq<i32>, id: i32) -> int
    decreases ids.len(),
{
    if ids.len() == 0 || ids[0] == id {
        0
    } else {
        1 + id_position(ids.drop_first(), id)
    }
}

proof fn lemma_id_position(ids: Seq<i32>, id: i32, k: int)
    requires
        0 <= k <= ids.len(),
        forall|j: int| 0 <= j < k ==> (#[trigger] ids[j]) != id,
        k < ids.len() ==> ids[k] == id,
    ensures
        id_position(ids, id) == k,
    decreases ids.len(),
{
    if k > 0 {
        assert(ids[0] != id);
        let rest = ids.drop_first();
        assert(forall|j: int| 0 <= j < k - 1 ==> (#[trigger] rest[j]) == ids[j + 1]);
        lemma_id_position(rest, id, k - 1);
    }
}

/// Where a step leads in a list of rows: it stops at either end, and enters the list at the
/// matching end where no row of it is selected.
pub open spec fn stepped(ids: Seq<i32>, selected: i32, step: int) -> int {
    let k = id_position(ids, selected);
    let last = ids.len() - 1;
    if k < ids.len() {
        if k + step < 0 {
            0
        } else if k + step > last {
            last
        } else {
            k + step
        }
    } else if step < 0 {
        last
    } else {
        0
    }
}

/// The ids of all rows in the table, top to bottom.
pub fn listed_row_ids(rows: &Vec<TableItem>, category: i32, active_visible: bool) -> (r: Vec<i32>)
    ensures
        r@ == table_ids(rows@, category, active_visible),
{
    let mut ids: Vec<i32> = Vec::new();
    if active_visible {
        ids.push(0);
    }
    let ghost start = ids@;
    assert(start =~= (if active_visible {
        seq![0i32]
    } else {
        Seq::<i32>::empty()
    }));
    let mut i: usize = 0;
    assert(ids@ =~= start + shown_ids(rows@.take(0), category));
    while i < rows.len()
        invariant
            i <= rows@.len(),
            ids@ == start + shown_ids(rows@.take(i as int), category),
        decreases rows@.len() - i,
    {
        let ghost taken = rows@.take(i + 1);
        let ghost before = shown_ids(rows@.take(i as int), category);
        proof {
            assert(taken.drop_last() =~= rows@.take(i as int));
            assert(taken.last() == rows@[i as int]);
        }
        if category_matches_id(category, rows[i].category_id, true) {
            ids.push(rows[i].id);
            assert(ids@ =~= start + before.push(rows@[i as int].id));
        }
        i += 1;
    }
    assert(rows@.take(rows@.len() as int) =~= rows@);
    assert(Seq::<i32>::empty() + shown_ids(rows@, category) =~= shown_ids(rows@, category));
    ids
}

impl Selection {
    /// The selection after some steps down the table, or up for a negative number.
    pub open spec fn moved(self, rows: Seq<TableItem>, active_visible: bool, step: int) -> Selection {
        let ids = table_ids(rows, self.category, active_visible);
        if ids.len() == 0 {
            self
        } else {
            let row = ids[stepped(ids, self.row, step)];
            Selection {
                row,
                category: self.category,
                history_row: shows_row(rows, self.category, row),
            }
        }
    }

    /// Notes whether a row is a listed one that the filter shows.
    pub fn update_selection_state(&mut self, rows: &Vec<TableItem>, selected_id: i32)
        ensures
            *final(self) == (Selection {
                history_row: shows_row(rows@, old(self).category, selected_id),
                ..*old(self)
            }),
    {
        let mut found = false;
        let mut i: usize = 0;
        while i < rows.len()
            invariant
                i <= rows@.len(),
                *self == *old(self),
                found ==> exists|j: int|
                    0 <= j < rows@.len() && (#[trigger] rows@[j]).id == selected_id && filter_shows(
                        old(self).category,
                        rows@[j].category_id,
                        true,
                    ),
                !found ==> forall|j: int|
                    0 <= j < i ==> !((#[trigger] rows@[j]).id == selected_id && filter_shows(
                        old(self).category,
                        rows@[j].category_id,
                        true,
                    )),
            decreases rows@.len() - i,
        {
            if rows[i].id == selected_id && category_matches_id(
                self.category,
                rows[i].category_id,
                true,
            ) {
                found = true;
            }
            i += 1;
        }
        self.history_row = selected_id > 0 && found;
    }

    /// Moves the selection by some rows, stopping at either end of the table.
    pub fn step_selection(&mut self, rows: &Vec<TableItem>, active_visible: bool, step: i32)
        ensures
            *final(self) == old(self).moved(rows@, active_visible, step as int),
    {
        let ids = listed_row_ids(rows, self.category, active_visible);
        if ids.len() == 0 {
            return;
        }
        let mut k: usize = 0;
        while k < ids.len() && ids[k] != self.row
            invariant
                k <= ids@.len(),
                *self == *old(self),
                forall|j: int| 0 <= j < k ==> (#[trigger] ids@[j]) != old(self).row,
            decreases ids@.len() - k,
        {
            k += 1;
        }
        proof {
            lemma_id_position(ids@, self.row, k as int);
        }
        let last: usize = ids.len() - 1;
        let next: usize = if k < ids.len() {
            let target: i128 = k as i128 + step as i128;
            if target < 0 {
                0
            } else if target > last as i128 {
                last
            } else {
                target as usize
            }
        } else if step < 0 {
            last
        } else {
            0
        };
        let id: i32 = ids[next];
        self.row = id;
        self.update_selection_state(rows, id);
    }
}

/// The position of the first row with an id, or the number of rows.
pub open spec fn row_position(rows: Seq<TableItem>, id: i32) -> int
    decreases rows.len(),
{
    if rows.len() == 0 || rows[0].id == id {
        0
    } else {
        1 + row_position(rows.drop_first(), id)
    }
}

proof fn lemma_row_position(rows: Seq<TableItem>, id: i32, k: int)
    requires
        0 <= k <= rows.len(),
        forall|j: int| 0 <= j < k ==> (#[trigger] rows[j]).id != id,
        k < rows.len() ==> rows[k].id == id,
    ensures
        row_position(rows, id) == k,
    decreases rows.len(),
{
    if k > 0 {
        assert(rows[0].id != id);
        let rest = rows.drop_first();
        assert(forall|j: int| 0 <= j < k - 1 ==> (#[trigger] rest[j]) == rows[j + 1]);
        lemma_row_position(rest, id, k - 1);
    }
}

/// The rows without the first one that has an id.
pub open spec fn without_row(rows: Seq<TableItem>, id: i32) -> Seq<TableItem> {
    let k = row_position(rows, id);
    if k < rows.len() {
        rows.remove(k)
    } else {
        rows
    }
}

/// Takes the row with an id off the list.
pub fn remove_row_by_id(rows: &mut Vec<TableItem>, id: i32)
    ensures
        final(rows)@ == without_row(old(rows)@, id),
{
    let mut i: usize = 0;
    while i < rows.len() && rows[i].id != id
        invariant
            i <= rows@.len(),
            rows@ == old(rows)@,
            forall|j: int| 0 <= j < i ==> (#[trigger] rows@[j]).id != id,
        decreases rows@.len() - i,
    {
        i += 1;
    }
    proof {
        lemma_row_position(rows@, id, i as int);
    }
    if i < rows.len() {
        let _ = rows.remove(i);
    }
}

/// Follows the active session and reports the download it finishes.
#[derive(Debug)]
pub struct HistoryTracker {
    /// The id for the next listed download. Never 0, which marks the active download.
    pub next_item_id: i32,
    pub session_id: u64,
    /// The finished download of the session, once it was reported.
    pub completed: Option<HistoryEntry>,
}

/// The record of the download that a snapshot shows as finished.
pub open spec fn is_finished_entry(
    entry: HistoryEntry,
    id: i32,
    snap: DownloadSnapshot,
    unix_ms: u64,
) -> bool {
    &&& entry.id == id
    &&& entry.url == snap.url
    &&& entry.filename == snap.filename
    &&& entry.save_path == snap.save_path
    &&& entry.total_bytes == (match snap.total_bytes {
        Some(total) => total,
        None => snap.downloaded_bytes,
    })
    &&& entry.completed_unix_ms == unix_ms
}

/// The record of the download that a snapshot shows as finished.
pub fn finished_download(id: i32, snap: &DownloadSnapshot, unix_ms: u64) -> (r: HistoryEntry)
    ensures
        is_finished_entry(r, id, *snap, unix_ms),
{
    HistoryEntry {
        id,
        url: snap.url.clone(),
        filename: snap.filename.clone(),
        save_path: snap.save_path.copy(),
        total_bytes: match snap.total_bytes {
            Some(total) => total,
            None => snap.downloaded_bytes,
        },
        completed_unix_ms: unix_ms,
    }
}

impl HistoryTracker {
    pub fn new(loaded_next_id: i32) -> (r: HistoryTracker)
        ensures
            r.next_item_id == loaded_next_id,
            r.session_id == 0,
            r.completed is None,
    {
        HistoryTracker { next_item_id: loaded_next_id, session_id: 0, completed: None }
    }

    /// The finished download of the session, once it was reported.
    pub fn completed(&self) -> (r: Option<&HistoryEntry>)
        ensures
            r == (match self.completed {
                Some(entry) => Some(&entry),
                None => None,
            }),
    {
        match &self.completed {
            Some(entry) => Some(entry),
            None => None,
        }
    }

    /// Whether a snapshot shows a finish that was not reported yet.
    pub open spec fn is_news(self, snap: DownloadSnapshot) -> bool {
        snap.status is Completed && (snap.session_id != self.session_id || self.completed is None)
    }

    /// What a snapshot, seen at a time, changes and reports.
    pub open spec fn observed(
        self,
        snap: DownloadSnapshot,
        unix_ms: u64,
        after: HistoryTracker,
        report: Option<HistoryEntry>,
    ) -> bool {
        &&& after.session_id == snap.session_id
        &&& if self.is_news(snap) {
            &&& report matches Some(entry) && is_finished_entry(
                entry,
                self.next_item_id,
                snap,
                unix_ms,
            )
            &&& after.completed == report
            &&& after.next_item_id == (if self.next_item_id == i32::MAX {
                i32::MAX
            } else {
                (self.next_item_id + 1) as i32
            })
        } else {
            &&& report is None
            &&& after.next_item_id == self.next_item_id
            &&& after.completed == (if snap.session_id != self.session_id || snap.status is Idle {
                None
            } else {
                self.completed
            })
        }
    }

    /// Records a snapshot that was seen at a time and returns the download that it finished.
    ///
    /// The first snapshot of a session that shows the finish yields the entry, so that it can be
    /// saved and listed right away. A later session drops the kept entry without listing it
    /// again.
    pub fn observe_at(&mut self, snap: &DownloadSnapshot, unix_ms: u64) -> (r: Option<HistoryEntry>)
        ensures
            old(self).observed(*snap, unix_ms, *final(self), r),
    {
        if snap.session_id != self.session_id {
            self.session_id = snap.session_id;
            self.completed = None;
        }
        match &snap.status {
            DownloadStatus::Completed => {
                if self.completed.is_some() {
                    return None;
                }
                let entry = finished_download(self.next_item_id, snap, unix_ms);
                if self.next_item_id < i32::MAX {
                    self.next_item_id = self.next_item_id + 1;
                }
                self.completed = Some(entry.copy());
                Some(entry)
            },
            DownloadStatus::Idle => {
                self.completed = None;
                None
            },
            _ => None,
        }
    }

    /// Records a snapshot that is seen now and returns the download that it finished.
    pub fn observe(&mut self, snap: &DownloadSnapshot) -> (r: Option<HistoryEntry>)
        ensures
            exists|elapsed: Option<u128>| #[trigger]
                label::clock_reads(elapsed) && old(self).observed(
                    *snap,
                    label::fitting_millis(elapsed),
                    *final(self),
                    r,
                ),
    {
        let unix_ms: u64 = now_unix_ms();
        self.observe_at(snap, unix_ms)
    }

    /// Drops the reported download, which a duplicate answer or a deletion replaces.
    pub fn clear_completed(&mut self) -> (r: Option<HistoryEntry>)
        ensures
            r == old(self).completed,
            *final(self) == (HistoryTracker { completed: None, ..*old(self) }),
    {
        self.completed.take()
    }
}

/// Law: a finish is reported once. Whatever the session shows later, it is not reported again
/// unless the session was left, went idle, or the report was dropped.
pub proof fn law_finishes_are_reported_once(
    tracker: HistoryTracker,
    snap: DownloadSnapshot,
    unix_ms: u64,
    reported: HistoryTracker,
    report: Option<HistoryEntry>,
    later: DownloadSnapshot,
    later_ms: u64,
    after: HistoryTracker,
    again: Option<HistoryEntry>,
)
    requires
        tracker.observed(snap, unix_ms, reported, report),
        report is Some,
        reported.observed(later, later_ms, after, again),
        later.session_id == snap.session_id,
    ensures
        again is None,
        !(later.status is Idle) ==> after == reported,
{
}

/// Law: the ids of reported downloads increase, so that no listed row is reused, until they are
/// used up.
pub proof fn law_reported_ids_increase(
    tracker: HistoryTracker,
    snap: DownloadSnapshot,
    unix_ms: u64,
    after: HistoryTracker,
    report: Option<HistoryEntry>,
)
    requires
        tracker.observed(snap, unix_ms, after, report),
        tracker.next_item_id < i32::MAX,
    ensures
        tracker.next_item_id <= after.next_item_id,
        report matches Some(entry) ==> tracker.next_item_id <= entry.id < after.next_item_id,
{
}

/// Whether trackers and reports follow from snapshots that are seen at some times, one by one.
pub open spec fn follows(
    trackers: Seq<HistoryTracker>,
    snaps: Seq<DownloadSnapshot>,
    times: Seq<u64>,
    reports: Seq<Option<HistoryEntry>>,
) -> bool {
    &&& trackers.len() == snaps.len() + 1
    &&& times.len() == snaps.len()
    &&& reports.len() == snaps.len()
    &&& forall|i: int|
        0 <= i < snaps.len() ==> trackers[i].observed(
            #[trigger] snaps[i],
            times[i],
            trackers[i + 1],
            reports[i],
        )
}

/// Whether snapshots from one position to another belong to the same session without a break.
pub open spec fn unbroken(snaps: Seq<DownloadSnapshot>, from: int, to: int) -> bool {
    forall|k: int| from <= k <= to ==> (#[trigger] snaps[k]).session_id == snaps[to].session_id
}

/// Whether the unbroken run of a snapshot's session showed its finish before a position.
pub open spec fn finished_before(snaps: Seq<DownloadSnapshot>, at: int, end: int) -> bool {
    exists|j: int|
        0 <= j < end && (#[trigger] snaps[j]).status is Completed && unbroken(snaps, j, at)
}

/// How many of some reports name a download.
pub open spec fn report_count(reports: Seq<Option<HistoryEntry>>) -> nat
    decreases reports.len(),
{
    if reports.len() == 0 {
        0
    } else if reports.last() is Some {
        report_count(reports.drop_last()) + 1
    } else {
        report_count(reports.drop_last())
    }
}

proof fn lemma_follows(
    trackers: Seq<HistoryTracker>,
    snaps: Seq<DownloadSnapshot>,
    times: Seq<u64>,
    reports: Seq<Option<HistoryEntry>>,
    i: int,
)
    requires
        follows(trackers, snaps, times, reports),
        trackers[0].completed is None,
        trackers[0].next_item_id + snaps.len() < i32::MAX,
        forall|k: int| 0 <= k < snaps.len() ==> !((#[trigger] snaps[k]).status is Idle),
        0 <= i <= snaps.len(),
    ensures
        trackers[i].next_item_id == trackers[0].next_item_id + report_count(reports.take(i)),
        report_count(reports.take(i)) <= i,
        i == 0 ==> trackers[i].completed is None,
        i > 0 ==> trackers[i].session_id == snaps[i - 1].session_id,
        i > 0 ==> (trackers[i].completed is Some <==> finished_before(snaps, i - 1, i)),
    decreases i,
{
    if i > 0 {
        let p = i - 1;
        lemma_follows(trackers, snaps, times, reports, p);
        assert(trackers[p].observed(snaps[p], times[p], trackers[p + 1], reports[p]));
        assert(reports.take(i).drop_last() =~= reports.take(p));
        assert(reports.take(i).last() == reports[p]);
        assert(!(snaps[p].status is Idle));
        if snaps[p].status is Completed {
            assert(unbroken(snaps, p, p));
            assert(finished_before(snaps, p, i));
        } else if p > 0 && snaps[p].session_id == snaps[p - 1].session_id {
            if finished_before(snaps, p - 1, p) {
                let j = choose|j: int|
                    0 <= j < p && (#[trigger] snaps[j]).status is Completed && unbroken(
                        snaps,
                        j,
                        p - 1,
                    );
                assert(unbroken(snaps, j, p));
                assert(finished_before(snaps, p, i));
            }
            if finished_before(snaps, p, i) {
                let j = choose|j: int|
                    0 <= j < i && (#[trigger] snaps[j]).status is Completed && unbroken(
                        snaps,
                        j,
                        p,
                    );
                assert(j < p);
                assert(unbroken(snaps, j, p - 1)) by {
                    assert(snaps[p - 1].session_id == snaps[p].session_id);
                }
                assert(finished_before(snaps, p - 1, p));
            }
        } else {
            if finished_before(snaps, p, i) {
                let j = choose|j: int|
                    0 <= j < i && (#[trigger] snaps[j]).status is Completed && unbroken(
                        snaps,
                        j,
                        p,
                    );
                assert(j < p);
                assert(snaps[p - 1].session_id == snaps[p].session_id);
            }
        }
    }
}

/// Law: as long as the session never goes idle, each unbroken run of a session is reported once,
/// when it first shows its finish, and the reported downloads are numbered one after the other.
pub proof fn law_each_run_is_reported_once(
    trackers: Seq<HistoryTracker>,
    snaps: Seq<DownloadSnapshot>,
    times: Seq<u64>,
    reports: Seq<Option<HistoryEntry>>,
    i: int,
)
    requires
        follows(trackers, snaps, times, reports),
        trackers[0].completed is None,
        trackers[0].next_item_id + snaps.len() < i32::MAX,
        forall|k: int| 0 <= k < snaps.len() ==> !((#[trigger] snaps[k]).status is Idle),
        0 <= i < snaps.len(),
    ensures
        reports[i] is Some <==> snaps[i].status is Completed && !finished_before(snaps, i, i),
        reports[i] matches Some(entry) ==> is_finished_entry(
            entry,
            (trackers[0].next_item_id + report_count(reports.take(i))) as i32,
            snaps[i],
            times[i],
        ),
{
    lemma_follows(trackers, snaps, times, reports, i);
    assert(trackers[i].observed(snaps[i], times[i], trackers[i + 1], reports[i]));
    if i > 0 {
        if finished_before(snaps, i, i) {
            let j = choose|j: int|
                0 <= j < i && (#[trigger] snaps[j]).status is Completed && unbroken(snaps, j, i);
            assert(snaps[i - 1].session_id == snaps[i].session_id);
            assert(unbroken(snaps, j, i - 1));
            assert(finished_before(snaps, i - 1, i));
        }
        if snaps[i].session_id == snaps[i - 1].session_id && finished_before(snaps, i - 1, i) {
            let j = choose|j: int|
                0 <= j < i && (#[trigger] snaps[j]).status is Completed && unbroken(
                    snaps,
                    j,
                    i - 1,
                );
            assert(unbroken(snaps, j, i));
            assert(finished_before(snaps, i, i));
        }
    }
}

/// Law: a category filter shows the downloads of that category alone, every download is either
/// among the unfinished or among the finished ones, and the first filter shows all.
pub proof fn law_filters_part_the_downloads(category_id: i32, completed: bool, filter_id: i32)
    ensures
        filter_shows(0, category_id, completed),
        1 <= filter_id <= 11 ==> (filter_shows(filter_id, category_id, completed) <==> filter_id
            == category_id),
        filter_shows(12, category_id, completed) <==> !completed,
        filter_shows(13, category_id, completed) <==> completed,
        !filter_shows(14, category_id, completed) && !filter_shows(15, category_id, completed),
{
}

/// Law: the table shows a listed download exactly where the filter shows its category.
pub proof fn law_tables_show_what_the_filter_shows(rows: Seq<TableItem>, category: i32, id: i32)
    ensures
        shown_ids(rows, category).contains(id) <==> exists|i: int|
            0 <= i < rows.len() && (#[trigger] rows[i]).id == id && filter_shows(
                category,
                rows[i].category_id,
                true,
            ),
        shown_ids(rows, category).len() <= rows.len(),
    decreases rows.len(),
{
    if rows.len() > 0 {
        let rest = rows.drop_last();
        let n = rows.len() - 1;
        let earlier = shown_ids(rest, category);
        let ids = shown_ids(rows, category);
        law_tables_show_what_the_filter_shows(rest, category, id);
        if ids.contains(id) {
            let k = choose|k: int| 0 <= k < ids.len() && ids[k] == id;
            if k < earlier.len() {
                assert(earlier[k] == id);
                assert(earlier.contains(id));
                let i = choose|i: int|
                    0 <= i < rest.len() && (#[trigger] rest[i]).id == id && filter_shows(
                        category,
                        rest[i].category_id,
                        true,
                    );
                assert(rows[i] == rest[i]);
            } else {
                assert(rows[n].id == id);
            }
        }
        if exists|i: int|
            0 <= i < rows.len() && (#[trigger] rows[i]).id == id && filter_shows(
                category,
                rows[i].category_id,
                true,
            ) {
            let i = choose|i: int|
                0 <= i < rows.len() && (#[trigger] rows[i]).id == id && filter_shows(
                    category,
                    rows[i].category_id,
                    true,
                );
            if i < n {
                assert(rest[i] == rows[i]);
                let k = choose|k: int| 0 <= k < earlier.len() && earlier[k] == id;
                assert(ids[k] == id);
            } else {
                assert(ids[earlier.len() as int] == id);
            }
        }
    }
}

/// Law: a step moves the selection by as many rows as there are, stops at either end, and enters
/// the table at the top, or from below at the bottom.
pub proof fn law_steps_follow_the_rows(ids: Seq<i32>, selected: i32, k: int, step: int)
    requires
        0 < ids.len(),
        forall|i: int, j: int| 0 <= i < j < ids.len() ==> (#[trigger] ids[i]) != (#[trigger] ids[j]),
    ensures
        0 <= stepped(ids, selected, step) < ids.len(),
        0 <= k < ids.len() && ids[k] == selected && 0 <= k + step < ids.len() ==> stepped(
            ids,
            selected,
            step,
        ) == k + step,
        0 <= k < ids.len() && ids[k] == selected && k + step < 0 ==> stepped(ids, selected, step)
            == 0,
        0 <= k < ids.len() && ids[k] == selected && k + step >= ids.len() ==> stepped(
            ids,
            selected,
            step,
        ) == ids.len() - 1,
        !ids.contains(selected) && step >= 0 ==> stepped(ids, selected, step) == 0,
        !ids.contains(selected) && step < 0 ==> stepped(ids, selected, step) == ids.len() - 1,
{
    if ids.contains(selected) {
        let p = choose|p: int| 0 <= p < ids.len() && ids[p] == selected;
        assert forall|j: int| 0 <= j < p implies (#[trigger] ids[j]) != selected by {
            assert(ids[j] != ids[p]);
        }
        lemma_id_position(ids, selected, p);
        if 0 <= k < ids.len() && ids[k] == selected && k != p {
            if k < p {
                assert(ids[k] != ids[p]);
            } else {
                assert(ids[p] != ids[k]);
            }
        }
    } else {
        assert forall|j: int| 0 <= j < ids.len() implies (#[trigger] ids[j]) != selected by {
            assert(ids.contains(ids[j]));
        }
        lemma_id_position(ids, selected, ids.len() as int);
    }
}

/// Law: a moved selection is a row of the table under the same filter.
pub proof fn law_moved_selections_are_rows_of_the_table(
    selection: Selection,
    rows: Seq<TableItem>,
    active_visible: bool,
    step: int,
)
    ensures
        ({
            let after = selection.moved(rows, active_visible, step);
            let ids = table_ids(rows, selection.category, active_visible);
            &&& after.category == selection.category
            &&& ids.len() == 0 ==> after == selection
            &&& ids.len() > 0 ==> ids.contains(after.row)
            &&& active_visible ==> ids[0] == 0
        }),
{
    let ids = table_ids(rows, selection.category, active_visible);
    if ids.len() > 0 {
        lemma_id_found(ids, selection.row);
        let k = stepped(ids, selection.row, step);
        assert(ids.contains(ids[k]));
    }
}

proof fn lemma_id_found(ids: Seq<i32>, id: i32)
    ensures
        0 <= id_position(ids, id) <= ids.len(),
    decreases ids.len(),
{
    if ids.len() > 0 && ids[0] != id {
        lemma_id_found(ids.drop_first(), id);
    }
}

/// Law: a row taken off the list is gone, and every other row stays, in order.
pub proof fn law_only_the_named_row_leaves(rows: Seq<TableItem>, id: i32)
    requires
        forall|i: int, j: int|
            0 <= i < j < rows.len() ==> (#[trigger] rows[i]).id != (#[trigger] rows[j]).id,
    ensures
        forall|i: int| 0 <= i < without_row(rows, id).len() ==> (#[trigger] without_row(rows, id)[i]).id
            != id,
        forall|k: int|
            0 <= k < rows.len() && (#[trigger] rows[k]).id == id ==> without_row(rows, id)
                =~= rows.take(k) + rows.skip(k + 1),
        (forall|i: int| 0 <= i < rows.len() ==> (#[trigger] rows[i]).id != id) ==> without_row(
            rows,
            id,
        ) == rows,
{
    if exists|k: int| 0 <= k < rows.len() && (#[trigger] rows[k]).id == id {
        let k = choose|k: int| 0 <= k < rows.len() && (#[trigger] rows[k]).id == id;
        assert forall|j: int| 0 <= j < k implies (#[trigger] rows[j]).id != id by {
            assert(rows[j].id != rows[k].id);
        }
        lemma_row_position(rows, id, k);
        let after = without_row(rows, id);
        assert forall|i: int| 0 <= i < after.len() implies (#[trigger] after[i]).id != id by {
            if i < k {
                assert(after[i] == rows[i]);
                assert(rows[i].id != rows[k].id);
            } else {
                assert(after[i] == rows[i + 1]);
                assert(rows[k].id != rows[i + 1].id);
            }
        }
        assert forall|m: int| 0 <= m < rows.len() && (#[trigger] rows[m]).id == id implies after
            =~= rows.take(m) + rows.skip(m + 1) by {
            if m < k {
                assert(rows[m].id != rows[k].id);
            } else if m > k {
                assert(rows[k].id != rows[m].id);
            }
        }
    } else {
        lemma_row_position(rows, id, rows.len() as int);
    }
}

/// Law: what is reported is the download that the snapshot shows as finished: its link, its name,
/// its place, its size or else the bytes that came, and the time.
pub proof fn law_reports_describe_the_finished_download(
    tracker: HistoryTracker,
    snap: DownloadSnapshot,
    unix_ms: u64,
    after: HistoryTracker,
    report: Option<HistoryEntry>,
)
    requires
        tracker.observed(snap, unix_ms, after, report),
    ensures
        report matches Some(entry) ==> {
            &&& snap.status is Completed
            &&& entry.url == snap.url && entry.filename == snap.filename && entry.save_path
                == snap.save_path
            &&& snap.total_bytes matches Some(total) ==> entry.total_bytes == total
            &&& snap.total_bytes is None ==> entry.total_bytes == snap.downloaded_bytes
            &&& entry.completed_unix_ms == unix_ms
            &&& after.completed == Some(entry)
        },
        snap.status is Completed && snap.session_id != tracker.session_id ==> report is Some,
        !(snap.status is Completed) ==> report is None,
        after.session_id == snap.session_id,
{
}

} // verus!
