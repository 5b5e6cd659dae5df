//! The record of finished downloads.
//!
//! The log is rewritten whenever a download finishes, which keeps it capped and never depends on
//! what an earlier run left behind: a format header, then one record per line.
use crate::path;
use crate::path::FilePath;
use crate::storage;
use crate::storage::IoFault;
use crate::text;
use vstd::prelude::*;
use vstd::slice::slice_subrange;

pub mod label;

pub use label::{downloaded_label, last_try_label, now_unix_ms};

verus! {

/// The first line of a log.
pub const HISTORY_FORMAT_HEADER: &'static str = "kosmos-history-v1";

/// The name of the log.
pub const HISTORY_FILE_NAME: &'static str = "history.jsonl";

/// The directory of the log below the user's application data.
pub const HISTORY_DIRECTORY_NAME: &'static str = "Kosmos Downloader";

/// How many finished downloads are remembered.
pub const MAX_HISTORY_ENTRIES: usize = 1000;

/// Why the log could not be written.
#[derive(Debug)]
pub enum HistoryError {
    Io(IoFault),
    Json(String),
}

impl HistoryError {
    /// The message shown to the user.
    pub open spec fn shown(self) -> Seq<char> {
        match self {
            HistoryError::Io(fault) => "history I/O error: "@ + fault.message@,
            HistoryError::Json(reason) => "history format error: "@ + reason@,
        }
    }

    pub fn message(&self) -> (r: String)
        ensures
            r@ == self.shown(),
    {
        match self {
            HistoryError::Io(fault) => text::join2("history I/O error: ", fault.message.as_str()),
            HistoryError::Json(reason) => text::join2("history format error: ", reason.as_str()),
        }
    }
}

/// A finished download.
#[derive(Debug, Clone, PartialEq, Eq)]
pub struct HistoryEntry {
    /// Never 0, which marks the active download.
    pub id: i32,
    pub url: String,
    pub filename: String,
    pub save_path: FilePath,
    pub total_bytes: u64,
    pub completed_unix_ms: u64,
}

impl HistoryEntry {
    /// Whether a record can be listed: the active download has no record, and a record without a
    /// file name says nothing.
    pub open spec fn usable(self) -> bool {
        self.id > 0 && self.filename@.len() > 0
    }

    pub fn is_usable(&self) -> (r: bool)
        ensures
            r == self.usable(),
    {
        self.id > 0 && !self.filename.as_str().is_empty()
    }

    pub fn copy(&self) -> (r: HistoryEntry)
        ensures
            r == *self,
    {
        HistoryEntry {
            id: self.id,
            url: self.url.clone(),
            filename: self.filename.clone(),
            save_path: self.save_path.copy(),
            total_bytes: self.total_bytes,
            completed_unix_ms: self.completed_unix_ms,
        }
    }
}

/// Whether a list holds an entry with the id.
pub open spec fn has_id(list: Seq<HistoryEntry>, id: i32) -> bool {
    exists|i: int| 0 <= i < list.len() && (#[trigger] list[i]).id == id
}

/// The position of the first entry with the id, or the length.
pub open spec fn index_of(list: Seq<HistoryEntry>, id: i32) -> int
    decreases list.len(),
{
    if list.len() == 0 || list[0].id == id {
        0
    } else {
        1 + index_of(list.drop_first(), id)
    }
}

proof fn lemma_index_is(list: Seq<HistoryEntry>, id: i32, k: int)
    requires
        0 <= k <= list.len(),
        forall|j: int| 0 <= j < k ==> (#[trigger] list[j]).id != id,
        k < list.len() ==> list[k].id == id,
    ensures
        index_of(list, id) == k,
        k < list.len() <==> has_id(list, id),
    decreases list.len(),
{
    if k > 0 {
        assert(list[0].id != id);
        let rest = list.drop_first();
        assert(forall|j: int| 0 <= j < k - 1 ==> (#[trigger] rest[j]) == list[j + 1]);
        lemma_index_is(rest, id, k - 1);
    }
    if k < list.len() {
        assert(list[k].id == id);
    }
}

fn position(list: &Vec<HistoryEntry>, id: i32) -> (k: usize)
    ensures
        k == index_of(list@, id),
        k <= list@.len(),
        k < list@.len() <==> has_id(list@, id),
{
    let mut i: usize = 0;
    while i < list.len() && list[i].id != id
        invariant
            i <= list@.len(),
            forall|j: int| 0 <= j < i ==> (#[trigger] list@[j]).id != id,
        decreases list@.len() - i,
    {
        i += 1;
    }
    proof {
        lemma_index_is(list@, id, i as int);
    }
    i
}

/// The entries that decoded records give: unusable records are skipped, and of records with the
/// same id the first is kept, so that a listed row stays unique.
pub open spec fn kept(decoded: Seq<Option<HistoryEntry>>) -> Seq<HistoryEntry>
    decreases decoded.len(),
{
    if decoded.len() == 0 {
        Seq::empty()
    } else {
        let earlier = kept(decoded.drop_last());
        match decoded.last() {
            Some(entry) => if entry.usable() && !has_id(earlier, entry.id) {
                earlier.push(entry)
            } else {
                earlier
            },
            None => earlier,
        }
    }
}

/// The list without the first entry that has an id.
pub open spec fn without_id(list: Seq<HistoryEntry>, id: i32) -> Seq<HistoryEntry> {
    if has_id(list, id) {
        list.remove(index_of(list, id))
    } else {
        list
    }
}

/// The list with one more entry; beyond the cap the oldest one is forgotten.
pub open spec fn recorded(list: Seq<HistoryEntry>, entry: HistoryEntry) -> Seq<HistoryEntry> {
    if list.len() >= MAX_HISTORY_ENTRIES {
        list.push(entry).drop_first()
    } else {
        list.push(entry)
    }
}

/// The newest entries, at most `cap` of them.
pub open spec fn newest(list: Seq<HistoryEntry>, cap: int) -> Seq<HistoryEntry> {
    if list.len() > cap {
        list.skip(list.len() - cap)
    } else {
        list
    }
}

/// No two entries share an id.
pub open spec fn unique_ids(list: Seq<HistoryEntry>) -> bool {
    forall|i: int, j: int|
        0 <= i < j < list.len() ==> (#[trigger] list[i]).id != (#[trigger] list[j]).id
}

proof fn lemma_kept(decoded: Seq<Option<HistoryEntry>>)
    ensures
        unique_ids(kept(decoded)),
        forall|i: int| 0 <= i < kept(decoded).len() ==> (#[trigger] kept(decoded)[i]).usable(),
    decreases decoded.len(),
{
    if decoded.len() > 0 {
        lemma_kept(decoded.drop_last());
    }
}

/// Law: whatever a log holds, the loaded entries are usable, have distinct ids, and number at
/// most the cap.
pub proof fn law_loaded_entries_are_listable(decoded: Seq<Option<HistoryEntry>>, cap: nat)
    ensures
        newest(kept(decoded), cap as int).len() <= cap,
        unique_ids(newest(kept(decoded), cap as int)),
        forall|i: int|
            0 <= i < newest(kept(decoded), cap as int).len() ==> (#[trigger] newest(
                kept(decoded),
                cap as int,
            )[i]).usable(),
{
    lemma_kept(decoded);
    let all = kept(decoded);
    let list = newest(all, cap as int);
    assert forall|i: int| 0 <= i < list.len() implies (#[trigger] list[i]).usable() by {
        assert(list[i] == all[i + (all.len() - list.len())]);
    }
    assert forall|i: int, j: int| 0 <= i < j < list.len() implies (#[trigger] list[i]).id != (
    #[trigger] list[j]).id by {
        let d = all.len() - list.len();
        assert(list[i] == all[i + d] && list[j] == all[j + d]);
    }
}

/// The record lines of a log, or nothing where the text is no log. A byte order mark, which
/// editors add, is skipped.
pub open spec fn log_lines(contents: Seq<char>) -> Seq<Seq<char>> {
    let body = if contents.len() > 0 && contents[0] == '\u{feff}' {
        contents.drop_first()
    } else {
        contents
    };
    let all = text::lines(body);
    if all.len() > 0 && all[0] == HISTORY_FORMAT_HEADER@ {
        all.drop_first()
    } else {
        Seq::empty()
    }
}

/// The text of a log with some records.
pub open spec fn log_text(records: Seq<Seq<char>>) -> Seq<char> {
    text::join_lines(seq![HISTORY_FORMAT_HEADER@] + records)
}

/// Law: the records of a written log are read back as they were, provided each is one line.
pub proof fn law_written_records_read_back(records: Seq<Seq<char>>)
    requires
        forall|i: int| 0 <= i < records.len() ==> text::is_line(#[trigger] records[i]),
    ensures
        log_lines(log_text(records)) == records,
{
    reveal_strlit("kosmos-history-v1");
    let all = seq![HISTORY_FORMAT_HEADER@] + records;
    assert forall|i: int| 0 <= i < all.len() implies text::is_line(#[trigger] all[i]) by {
        if i > 0 {
            assert(all[i] == records[i - 1]);
        }
    }
    text::lemma_lines_read_back(all);
    assert(all.drop_first() =~= records);
    let contents = log_text(records);
    assert(contents == HISTORY_FORMAT_HEADER@ + seq!['\n'] + text::join_lines(all.drop_first()));
    assert(contents[0] == 'k');
}

/// Law: entries that were listable when written are loaded unchanged, in order.
pub proof fn law_written_entries_load_unchanged(list: Seq<HistoryEntry>)
    requires
        unique_ids(list),
        forall|i: int| 0 <= i < list.len() ==> (#[trigger] list[i]).usable(),
        list.len() <= MAX_HISTORY_ENTRIES,
    ensures
        newest(
            kept(list.map_values(|e: HistoryEntry| Some(e))),
            MAX_HISTORY_ENTRIES as int,
        ) == list,
{
    lemma_kept_all(list);
}

proof fn lemma_kept_all(list: Seq<HistoryEntry>)
    requires
        unique_ids(list),
        forall|i: int| 0 <= i < list.len() ==> (#[trigger] list[i]).usable(),
    ensures
        kept(list.map_values(|e: HistoryEntry| Some(e))) == list,
    decreases list.len(),
{
    let decoded = list.map_values(|e: HistoryEntry| Some(e));
    if list.len() > 0 {
        let rest = list.drop_last();
        assert(forall|i: int| 0 <= i < rest.len() ==> (#[trigger] rest[i]) == list[i]);
        lemma_kept_all(rest);
        assert(decoded.drop_last() =~= rest.map_values(|e: HistoryEntry| Some(e)));
        let last = list.last();
        assert(decoded.last() == Some(last));
        assert(list[list.len() - 1].usable());
        assert(!has_id(rest, last.id)) by {
            if has_id(rest, last.id) {
                let i = choose|i: int| 0 <= i < rest.len() && (#[trigger] rest[i]).id == last.id;
                assert(list[i].id == list[list.len() - 1].id);
            }
        }
        assert(rest.push(last) =~= list);
    } else {
        assert(kept(decoded) =~= list);
    }
}

/// The record lines of a log.
pub fn record_lines(contents: &str) -> (r: Vec<String>)
    ensures
        text::string_views(r@) == log_lines(contents@),
{
    let chars = text::chars_of(contents);
    let start: usize = if chars.len() > 0 && chars[0] == '\u{feff}' {
        1
    } else {
        0
    };
    let body = slice_subrange(chars.as_slice(), start, chars.len());
    assert(body@ =~= (if contents@.len() > 0 && contents@[0] == '\u{feff}' {
        contents@.drop_first()
    } else {
        contents@
    }));
    let all = text::split_lines(body);
    let mut r: Vec<String> = Vec::new();
    assert(text::views(all@).len() == all@.len());
    if all.len() == 0 {
        assert(text::string_views(r@) =~= log_lines(contents@));
        return r;
    }
    assert(text::views(all@)[0] == all@[0]@);
    let header = text::chars_of(HISTORY_FORMAT_HEADER);
    if !text::same_chars(all[0].as_slice(), header.as_slice()) {
        assert(text::string_views(r@) =~= log_lines(contents@));
        return r;
    }
    let mut i: usize = 1;
    while i < all.len()
        invariant
            1 <= i <= all@.len(),
            r@.len() == i - 1,
            forall|j: int| 0 <= j < r@.len() ==> (#[trigger] r@[j])@ == all@[j + 1]@,
        decreases all@.len() - i,
    {
        r.push(text::string_of(all[i].as_slice()));
        i += 1;
    }
    assert(text::string_views(r@) =~= text::views(all@).drop_first());
    r
}

/// The text of a log with some records.
pub fn render_log(records: &Vec<String>) -> (r: String)
    ensures
        r@ == log_text(text::string_views(records@)),
{
    let ghost all = seq![HISTORY_FORMAT_HEADER@] + text::string_views(records@);
    let mut r = text::join2(HISTORY_FORMAT_HEADER, "\n");
    proof {
        reveal_strlit("\n");
        assert(all.skip(1) =~= text::string_views(records@));
        assert(all.drop_first() =~= all.skip(1));
        assert("\n"@ =~= seq!['\n']);
    }
    let mut i: usize = 0;
    while i < records.len()
        invariant
            i <= records@.len(),
            all == seq![HISTORY_FORMAT_HEADER@] + text::string_views(records@),
            r@ + text::join_lines(all.skip(i + 1)) == text::join_lines(all),
        decreases records@.len() - i,
    {
        let ghost done = r@;
        let ghost rest = all.skip(i + 1);
        r.append(records[i].as_str());
        r.push('\n');
        assert(rest[0] == records@[i as int]@);
        assert(rest.drop_first() =~= all.skip(i + 2));
        assert(r@ + text::join_lines(all.skip(i + 2)) =~= done + text::join_lines(rest));
        i += 1;
    }
    assert(all.skip(all.len() as int) =~= Seq::<Seq<char>>::empty());
    assert(r@ + Seq::<char>::empty() =~= r@);
    r
}

/// Where the log is replaced through.
pub fn temporary_path(target: &FilePath) -> (r: FilePath)
    ensures
        r@ == target@ + ".tmp"@,
{
    FilePath { text: text::join2(target.as_str(), ".tmp") }
}

/// Where the log lies: below the user's local application data, or the current directory.
pub fn default_history_path(local_app_data: Option<&FilePath>, current_dir: &FilePath) -> (r:
    FilePath)
    ensures
        r@ == path::joined(
            path::joined(
                match local_app_data {
                    Some(dir) => dir@,
                    None => current_dir@,
                },
                HISTORY_DIRECTORY_NAME@,
            ),
            HISTORY_FILE_NAME@,
        ),
{
    let base = match local_app_data {
        Some(dir) => dir,
        None => current_dir,
    };
    base.join(HISTORY_DIRECTORY_NAME).join(HISTORY_FILE_NAME)
}

/// A directory from an environment value; an empty one counts as unset.
pub fn environment_path(value: Option<&str>) -> (r: Option<FilePath>)
    ensures
        r is Some <==> value is Some && value->0@.len() > 0,
        r matches Some(dir) ==> dir@ == value->0@,
{
    match value {
        Some(text) => if text.is_empty() {
            None
        } else {
            Some(FilePath::new(text))
        },
        None => None,
    }
}

/// The remembered downloads and where their log lies.
#[derive(Debug)]
pub struct HistoryStore {
    pub path: FilePath,
    pub entries: Vec<HistoryEntry>,
}

/// `r` is the largest id of a list.
pub open spec fn is_max_id(list: Seq<HistoryEntry>, r: Option<i32>) -> bool {
    match r {
        None => list.len() == 0,
        Some(id) => has_id(list, id) && forall|i: int|
            0 <= i < list.len() ==> (#[trigger] list[i]).id <= id,
    }
}

/// `r` is the smallest id above 0 that no entry of a list has.
pub open spec fn is_smallest_free_id(list: Seq<HistoryEntry>, r: i32) -> bool {
    r > 0 && !has_id(list, r) && forall|id: i32| 0 < id < r ==> #[trigger] has_id(list, id)
}

/// `r` is the id for the next download after a list: 1 for the first one, then one more than the
/// highest, and the smallest free one where the numbers end.
pub open spec fn is_next_id(list: Seq<HistoryEntry>, r: i32) -> bool {
    &&& list.len() == 0 ==> r == 1
    &&& forall|highest: i32| #[trigger]
        is_max_id(list, Some(highest)) ==> if highest < i32::MAX {
            r == highest + 1
        } else {
            list.len() < i32::MAX ==> is_smallest_free_id(list, r)
        }
}

/// A list that has the ids up to some number is at least as long.
proof fn lemma_ids_need_entries(list: Seq<HistoryEntry>, most: i32)
    requires
        0 <= most,
        forall|id: i32| 0 < id <= most ==> #[trigger] has_id(list, id),
    ensures
        most <= list.len(),
{
    let ids = list.map_values(|e: HistoryEntry| e.id as int);
    let numbers = vstd::set_lib::set_int_range(1, most + 1);
    vstd::set_lib::lemma_int_range(1, most + 1);
    ids.lemma_cardinality_of_set();
    vstd::seq_lib::seq_to_set_is_finite(ids);
    assert forall|n: int| numbers.contains(n) implies #[trigger] ids.to_set().contains(n) by {
        assert(has_id(list, n as i32));
        let i = choose|i: int| 0 <= i < list.len() && (#[trigger] list[i]).id == n as i32;
        assert(ids[i] == n);
    }
    vstd::set_lib::lemma_len_subset(numbers, ids.to_set());
}

impl HistoryStore {
    /// The smallest free id, or the last one where none is free.
    fn smallest_free_id(&self) -> (r: i32)
        requires
            has_id(self.entries@, i32::MAX),
        ensures
            r > 0,
            self.entries@.len() < i32::MAX ==> is_smallest_free_id(self.entries@, r),
    {
        let mut id: i32 = 1;
        while id < i32::MAX && position(&self.entries, id) < self.entries.len()
            invariant
                0 < id,
                forall|other: i32| 0 < other < id ==> #[trigger] has_id(self.entries@, other),
            decreases i32::MAX - id,
        {
            id += 1;
        }
        proof {
            if has_id(self.entries@, id) {
                lemma_ids_need_entries(self.entries@, id);
            }
        }
        id
    }

    /// The store with the entries that the records of a log decoded to.
    pub fn load_from(path: FilePath, decoded: &Vec<Option<HistoryEntry>>) -> (r: HistoryStore)
        ensures
            r.path == path,
            r.entries@ == newest(kept(decoded@), MAX_HISTORY_ENTRIES as int),
            r.entries@.len() <= MAX_HISTORY_ENTRIES,
    {
        HistoryStore { path, entries: parse_history(decoded, MAX_HISTORY_ENTRIES) }
    }

    /// The retained downloads, oldest first.
    pub fn entries(&self) -> (r: &Vec<HistoryEntry>)
        ensures
            *r == self.entries,
    {
        &self.entries
    }

    pub fn max_id(&self) -> (r: Option<i32>)
        ensures
            is_max_id(self.entries@, r),
    {
        if self.entries.len() == 0 {
            return None;
        }
        let mut highest: i32 = self.entries[0].id;
        let mut i: usize = 1;
        assert(self.entries@[0].id == highest);
        while i < self.entries.len()
            invariant
                1 <= i <= self.entries@.len(),
                has_id(self.entries@, highest),
                forall|j: int| 0 <= j < i ==> (#[trigger] self.entries@[j]).id <= highest,
            decreases self.entries@.len() - i,
        {
            if self.entries[i].id > highest {
                highest = self.entries[i].id;
                assert(self.entries@[i as int].id == highest);
            }
            i += 1;
        }
        Some(highest)
    }

    /// The id for the next listed download, so that new rows never reuse a loaded one.
    pub fn next_id(&self) -> (r: i32)
        ensures
            is_next_id(self.entries@, r),
            self.entries@.len() == 0 ==> r == 1,
            self.entries@.len() < i32::MAX ==> !has_id(self.entries@, r),
            (forall|i: int| 0 <= i < self.entries@.len() ==> (#[trigger] self.entries@[i]).id > 0)
                ==> r > 0,
    {
        match self.max_id() {
            None => 1,
            Some(highest) => {
                proof {
                    assert forall|other: i32|
                        #[trigger] is_max_id(self.entries@, Some(other)) implies other
                        == highest by {
                        let i = choose|i: int|
                            0 <= i < self.entries@.len() && (#[trigger] self.entries@[i]).id
                                == other;
                        let j = choose|j: int|
                            0 <= j < self.entries@.len() && (#[trigger] self.entries@[j]).id
                                == highest;
                        assert(self.entries@[i].id <= highest);
                        assert(self.entries@[j].id <= other);
                    }
                }
                if highest == i32::MAX {
                    self.smallest_free_id()
                } else {
                    highest + 1
                }
            },
        }
    }

    /// The listed download with an id.
    pub fn entry_with(&self, id: i32) -> (r: Option<&HistoryEntry>)
        ensures
            r == (if has_id(self.entries@, id) {
                Some(&self.entries@[index_of(self.entries@, id)])
            } else {
                None
            }),
    {
        let k: usize = position(&self.entries, id);
        if k < self.entries.len() {
            Some(&self.entries[k])
        } else {
            None
        }
    }

    /// Where the file of a listed download lies.
    pub fn path_for(&self, id: i32) -> (r: Option<&FilePath>)
        ensures
            r == (if has_id(self.entries@, id) {
                Some(&self.entries@[index_of(self.entries@, id)].save_path)
            } else {
                None
            }),
    {
        let k: usize = position(&self.entries, id);
        if k < self.entries.len() {
            Some(&self.entries[k].save_path)
        } else {
            None
        }
    }

    /// Remembers a finished download; beyond the cap the oldest one is forgotten.
    pub fn record(&mut self, entry: HistoryEntry)
        ensures
            final(self).path == old(self).path,
            final(self).entries@ == recorded(old(self).entries@, entry),
    {
        let ghost before = self.entries@;
        self.entries.push(entry);
        if self.entries.len() > MAX_HISTORY_ENTRIES {
            let _ = self.entries.remove(0);
            assert(self.entries@ =~= before.push(entry).drop_first());
        }
    }

    /// Forgets the download with an id.
    pub fn remove(&mut self, id: i32) -> (r: Option<HistoryEntry>)
        ensures
            final(self).path == old(self).path,
            final(self).entries@ == without_id(old(self).entries@, id),
            r is Some <==> has_id(old(self).entries@, id),
            r matches Some(entry) ==> entry == old(self).entries@[index_of(
                old(self).entries@,
                id,
            )] && entry.id == id,
    {
        let k: usize = position(&self.entries, id);
        if k < self.entries.len() {
            proof {
                lemma_index_found(self.entries@, id);
            }
            Some(self.entries.remove(k))
        } else {
            None
        }
    }

    /// How the log is replaced: the directory to create first, if any, and the file to write and
    /// rename.
    pub fn rewrite_plan(&self) -> (r: (Option<FilePath>, FilePath))
        ensures
            (match r.0 {
                Some(dir) => Some(dir@),
                None => None,
            }) == storage::dir_to_create(self.path@),
            r.1@ == self.path@ + ".tmp"@,
    {
        let dir = match self.path.parent() {
            Some(dir) => if dir.is_empty() {
                None
            } else {
                Some(dir)
            },
            None => None,
        };
        (dir, temporary_path(&self.path))
    }
}

/// The first entry with an id is found where one has it.
pub proof fn lemma_index_found(list: Seq<HistoryEntry>, id: i32)
    requires
        has_id(list, id),
    ensures
        0 <= index_of(list, id) < list.len(),
        list[index_of(list, id)].id == id,
    decreases list.len(),
{
    let i = choose|i: int| 0 <= i < list.len() && (#[trigger] list[i]).id == id;
    if list[0].id != id {
        let rest = list.drop_first();
        assert(rest[i - 1].id == id);
        lemma_index_found(rest, id);
    }
}

/// Law: an id for a new download is free, whatever the log held, and marks no active download.
pub proof fn law_new_ids_are_free(list: Seq<HistoryEntry>, id: i32)
    requires
        is_next_id(list, id),
        list.len() < i32::MAX,
        forall|i: int| 0 <= i < list.len() ==> (#[trigger] list[i]).usable(),
    ensures
        id > 0,
        !has_id(list, id),
{
    lemma_next_id(list, id);
}

/// An id for the next download is free, and above 0 where all others are.
pub proof fn lemma_next_id(list: Seq<HistoryEntry>, id: i32)
    requires
        is_next_id(list, id),
    ensures
        list.len() < i32::MAX ==> !has_id(list, id),
        (forall|i: int| 0 <= i < list.len() ==> (#[trigger] list[i]).id > 0) && list.len()
            < i32::MAX ==> id > 0,
{
    if list.len() > 0 {
        let highest = lemma_highest(list);
        assert(is_max_id(list, Some(highest)));
    }
}

/// A list that holds anything has a highest id.
proof fn lemma_highest(list: Seq<HistoryEntry>) -> (highest: i32)
    requires
        list.len() > 0,
    ensures
        is_max_id(list, Some(highest)),
    decreases list.len(),
{
    let last = list.last().id;
    assert(list[list.len() - 1].id == last);
    let rest = list.drop_last();
    if rest.len() > 0 {
        let earlier = lemma_highest(rest);
        let k = choose|k: int| 0 <= k < rest.len() && (#[trigger] rest[k]).id == earlier;
        assert(list[k].id == earlier);
        let highest = if last > earlier {
            last
        } else {
            earlier
        };
        assert forall|i: int| 0 <= i < list.len() implies (#[trigger] list[i]).id <= highest by {
            if i < rest.len() {
                assert(list[i] == rest[i]);
            }
        }
        highest
    } else {
        last
    }
}

/// Law: recording a usable download under a new id gives a list that loads unchanged.
pub proof fn law_recorded_entries_load_unchanged(before: Seq<HistoryEntry>, entry: HistoryEntry)
    requires
        unique_ids(before),
        forall|i: int| 0 <= i < before.len() ==> (#[trigger] before[i]).usable(),
        before.len() <= MAX_HISTORY_ENTRIES,
        entry.usable(),
        !has_id(before, entry.id),
    ensures
        newest(
            kept(recorded(before, entry).map_values(|e: HistoryEntry| Some(e))),
            MAX_HISTORY_ENTRIES as int,
        ) == recorded(before, entry),
{
    let after = recorded(before, entry);
    let skipped: int = if before.len() >= MAX_HISTORY_ENTRIES {
        1
    } else {
        0
    };
    assert forall|i: int| 0 <= i < after.len() implies (#[trigger] after[i]).usable() by {
        if i + skipped < before.len() {
            assert(after[i] == before[i + skipped]);
        }
    }
    assert forall|i: int, j: int| 0 <= i < j < after.len() implies (#[trigger] after[i]).id != (
    #[trigger] after[j]).id by {
        assert(after[i] == before[i + skipped]);
        if j + skipped < before.len() {
            assert(after[j] == before[j + skipped]);
        }
    }
    law_written_entries_load_unchanged(after);
}

/// Law: a history goes through its log unchanged. Where every record is one line that decodes to
/// its entry, the log of a loaded list with one more download loads to that list.
pub proof fn law_recorded_history_reads_back(
    before: Seq<HistoryEntry>,
    entry: HistoryEntry,
    records: Seq<Seq<char>>,
    decode: spec_fn(Seq<char>) -> Option<HistoryEntry>,
)
    requires
        unique_ids(before),
        forall|i: int| 0 <= i < before.len() ==> (#[trigger] before[i]).usable(),
        before.len() <= MAX_HISTORY_ENTRIES,
        entry.usable(),
        !has_id(before, entry.id),
        records.len() == recorded(before, entry).len(),
        forall|i: int|
            0 <= i < records.len() ==> text::is_line(#[trigger] records[i]) && decode(records[i])
                == Some(recorded(before, entry)[i]),
    ensures
        newest(
            kept(log_lines(log_text(records)).map_values(decode)),
            MAX_HISTORY_ENTRIES as int,
        ) == recorded(before, entry),
{
    law_written_records_read_back(records);
    law_recorded_entries_load_unchanged(before, entry);
    assert(records.map_values(decode) =~= recorded(before, entry).map_values(
        |e: HistoryEntry| Some(e),
    ));
}

/// Law: recording never exceeds the cap, and always keeps the recorded download as the newest.
pub proof fn law_recording_keeps_the_newest(before: Seq<HistoryEntry>, entry: HistoryEntry)
    requires
        before.len() <= MAX_HISTORY_ENTRIES,
    ensures
        recorded(before, entry).len() <= MAX_HISTORY_ENTRIES,
        recorded(before, entry).last() == entry,
        recorded(before, entry) == newest(before.push(entry), MAX_HISTORY_ENTRIES as int),
{
    if before.len() >= MAX_HISTORY_ENTRIES {
        assert(before.push(entry).drop_first() =~= before.push(entry).skip(1));
    }
}

/// The entries that decoded records give, at most `cap` of them.
pub fn parse_history(decoded: &Vec<Option<HistoryEntry>>, cap: usize) -> (r: Vec<HistoryEntry>)
    ensures
        r@ == newest(kept(decoded@), cap as int),
{
    let mut entries: Vec<HistoryEntry> = Vec::new();
    let mut i: usize = 0;
    assert(decoded@.take(0) =~= Seq::<Option<HistoryEntry>>::empty());
    while i < decoded.len()
        invariant
            i <= decoded@.len(),
            entries@ == kept(decoded@.take(i as int)),
        decreases decoded@.len() - i,
    {
        proof {
            assert(decoded@.take(i + 1).drop_last() =~= decoded@.take(i as int));
            assert(decoded@.take(i + 1).last() == decoded@[i as int]);
        }
        match &decoded[i] {
            Some(entry) => {
                if entry.is_usable() && position(&entries, entry.id) == entries.len() {
                    entries.push(entry.copy());
                }
            },
            None => {},
        }
        i += 1;
    }
    assert(decoded@.take(decoded@.len() as int) =~= decoded@);
    let ghost all = entries@;
    if entries.len() > cap {
        let extra: usize = entries.len() - cap;
        let r = entries.split_off(extra);
        assert(r@ =~= all.skip(extra as int));
        return r;
    }
    entries
}

/// Law: an entry is found under its id, and forgetting it takes that one away and leaves every other
/// one, in order.
pub proof fn law_only_the_named_entry_leaves(list: Seq<HistoryEntry>, id: i32)
    requires
        unique_ids(list),
    ensures
        !has_id(without_id(list, id), id),
        has_id(list, id) ==> 0 <= index_of(list, id) < list.len() && list[index_of(list, id)].id == id
            && without_id(list, id).len() == list.len() - 1,
        !has_id(list, id) ==> without_id(list, id) == list,
        forall|other: i32| other != id ==> (#[trigger] has_id(without_id(list, id), other) <==> has_id(
            list,
            other,
        )),
        unique_ids(without_id(list, id)),
{
    let after = without_id(list, id);
    if has_id(list, id) {
        lemma_index_found(list, id);
        let k = index_of(list, id);
        assert(forall|i: int| 0 <= i < after.len() ==> (#[trigger] after[i]) == list[if i < k {
            i
        } else {
            i + 1
        }]);
        if has_id(after, id) {
            let i = choose|i: int| 0 <= i < after.len() && (#[trigger] after[i]).id == id;
            let m = if i < k {
                i
            } else {
                i + 1
            };
            assert(after[i] == list[m]);
            if m < k {
                assert(list[m].id != list[k].id);
            } else {
                assert(list[k].id != list[m].id);
            }
        }
        assert forall|other: i32| other != id implies (#[trigger] has_id(after, other) <==> has_id(
            list,
            other,
        )) by {
            if has_id(list, other) {
                let m = choose|m: int| 0 <= m < list.len() && (#[trigger] list[m]).id == other;
                if m < k {
                    assert(after[m].id == other);
                } else {
                    assert(after[m - 1].id == other);
                }
            }
            if has_id(after, other) {
                let i = choose|i: int| 0 <= i < after.len() && (#[trigger] after[i]).id == other;
                assert(list[if i < k {
                    i
                } else {
                    i + 1
                }].id == other);
            }
        }
        assert forall|i: int, j: int| 0 <= i < j < after.len() implies (#[trigger] after[i]).id != (
        #[trigger] after[j]).id by {
            let x = if i < k {
                i
            } else {
                i + 1
            };
            let y = if j < k {
                j
            } else {
                j + 1
            };
            assert(after[i] == list[x] && after[j] == list[y]);
            assert(list[x].id != list[y].id);
        }
    }
}

/// Law: a loaded record is listed last where it can be listed and its id is new; any other one
/// changes nothing.
pub proof fn law_records_are_listed_once(decoded: Seq<Option<HistoryEntry>>, entry: HistoryEntry)
    ensures
        entry.id > 0 && entry.filename@.len() > 0 && !has_id(kept(decoded), entry.id) ==> kept(
            decoded.push(Some(entry)),
        ) == kept(decoded).push(entry),
        entry.id <= 0 || entry.filename@.len() == 0 || has_id(kept(decoded), entry.id) ==> kept(
            decoded.push(Some(entry)),
        ) == kept(decoded),
        kept(decoded.push(None)) == kept(decoded),
        kept(Seq::empty()) == Seq::<HistoryEntry>::empty(),
{
    assert(decoded.push(Some(entry)).drop_last() =~= decoded);
    assert(decoded.push(None::<HistoryEntry>).drop_last() =~= decoded);
}

/// Law: of too many entries the last ones are kept, in order.
pub proof fn law_the_newest_entries_are_kept(list: Seq<HistoryEntry>, cap: nat, i: int)
    ensures
        newest(list, cap as int).len() == (if list.len() < cap {
            list.len()
        } else {
            cap
        }),
        0 <= i < newest(list, cap as int).len() ==> newest(list, cap as int)[i] == list[list.len()
            - newest(list, cap as int).len() + i],
{
}

/// Law: a thousand downloads are remembered; the next one makes the oldest leave.
pub proof fn law_the_oldest_entry_leaves_first(before: Seq<HistoryEntry>, entry: HistoryEntry)
    ensures
        before.len() < 1000 ==> recorded(before, entry) == before.push(entry),
        before.len() == 1000 ==> recorded(before, entry).len() == 1000 && recorded(before, entry)
            == before.drop_first().push(entry),
{
    if before.len() == 1000 {
        assert(before.push(entry).drop_first() =~= before.drop_first().push(entry));
    }
}

} // verus!
