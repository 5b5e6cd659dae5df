use kosmos_downloader::history::label::{format_completed_label, millis_or_zero, LocalMoment};
use kosmos_downloader::history::{
    default_history_path, downloaded_label, environment_path, last_try_label,
    now_unix_ms, record_lines, render_log, temporary_path, HistoryEntry, HistoryError,
    HistoryStore, HISTORY_DIRECTORY_NAME, HISTORY_FILE_NAME, HISTORY_FORMAT_HEADER,
    MAX_HISTORY_ENTRIES,
};
use kosmos_downloader::path::FilePath;
use kosmos_downloader::storage::{IoFault, IoKind};
use serde_json::Value;

/// A log in memory, read and written the way the file on disk is.
struct MemoryLog {
    contents: String,
}

impl MemoryLog {
    fn new() -> Self {
        Self { contents: String::new() }
    }

    fn store(&self) -> HistoryStore {
        let decoded: Vec<Option<HistoryEntry>> =
            record_lines(&self.contents).iter().map(|line| decode(line)).collect();
        HistoryStore::load_from(FilePath::new("history.jsonl"), &decoded)
    }

    fn rewrite(&mut self, store: &HistoryStore) {
        let records: Vec<String> = store.entries().iter().map(json).collect();
        self.contents = render_log(&records);
    }

    fn record(&mut self, store: &mut HistoryStore, entry: HistoryEntry) {
        store.record(entry);
        self.rewrite(store);
    }

    fn line_count(&self) -> usize {
        self.contents.lines().count()
    }
}

fn json(entry: &HistoryEntry) -> String {
    let mut fields = serde_json::Map::new();
    fields.insert("id".into(), Value::from(entry.id));
    fields.insert("url".into(), Value::from(entry.url.as_str()));
    fields.insert("filename".into(), Value::from(entry.filename.as_str()));
    fields.insert("save_path".into(), Value::from(entry.save_path.as_str()));
    fields.insert("total_bytes".into(), Value::from(entry.total_bytes));
    fields.insert("completed_unix_ms".into(), Value::from(entry.completed_unix_ms));
    Value::Object(fields).to_string()
}

fn decode(line: &str) -> Option<HistoryEntry> {
    let value: Value = serde_json::from_str(line).ok()?;
    Some(HistoryEntry {
        id: i32::try_from(value.get("id")?.as_i64()?).ok()?,
        url: value.get("url")?.as_str()?.to_string(),
        filename: value.get("filename")?.as_str()?.to_string(),
        save_path: FilePath::new(value.get("save_path")?.as_str()?),
        total_bytes: value.get("total_bytes")?.as_u64()?,
        completed_unix_ms: value.get("completed_unix_ms")?.as_u64()?,
    })
}

fn entry(id: i32, filename: &str, total_bytes: u64) -> HistoryEntry {
    HistoryEntry {
        id,
        url: format!("https://example.com/{filename}"),
        filename: filename.to_string(),
        save_path: FilePath::new(&format!("C:\\Users\\test\\Downloads\\{filename}")),
        total_bytes,
        completed_unix_ms: 1_700_000_000_000 + id as u64,
    }
}

#[test]
fn load_missing_file_starts_empty() {
    let file = MemoryLog::new();
    let store = file.store();

    assert_eq!(store.entries(), &[]);
    assert_eq!(store.max_id(), None);
    assert_eq!(store.next_id(), 1, "the first listed row never uses id 0");
}

#[test]
fn record_then_load_round_trips_every_field() {
    let mut file = MemoryLog::new();
    let expected = entry(4, "installer.exe", 5_242_880);
    {
        let mut store = file.store();
        file.record(&mut store, expected.clone());
    }

    let store = file.store();
    assert_eq!(store.entries().as_slice(), std::slice::from_ref(&expected));
    assert_eq!(store.max_id(), Some(4));
    assert_eq!(store.next_id(), 5);
    assert_eq!(store.path_for(4), Some(&expected.save_path));
    assert_eq!(store.path_for(5), None);
    assert_eq!(file.line_count(), 2, "one header line and one record");
    assert!(file.contents.starts_with(HISTORY_FORMAT_HEADER));
}

#[test]
fn new_ids_are_free_even_where_the_numbers_end() {
    let load = |ids: &[i32]| {
        let decoded: Vec<Option<HistoryEntry>> =
            ids.iter().map(|&id| Some(entry(id, "file.bin", 1))).collect();
        HistoryStore::load_from(FilePath::new("history.jsonl"), &decoded)
    };
    assert_eq!(load(&[7, 3]).next_id(), 8);
    assert_eq!(load(&[i32::MAX - 1]).next_id(), i32::MAX);
    assert_eq!(load(&[i32::MAX]).next_id(), 1);
    assert_eq!(load(&[2, i32::MAX, 1, 4]).next_id(), 3);
}

#[test]
fn fields_with_separators_and_backslashes_survive() {
    let mut file = MemoryLog::new();
    let mut expected = entry(1, "tricky.bin", 1);
    expected.url = "https://example.com/a?x=\t1&y=\\2".to_string();
    expected.filename = "tab\there\nnew\rcr\\slash.bin".to_string();
    expected.save_path = FilePath::new("C:\\odd\tname\\file\\x.bin");

    {
        let mut store = file.store();
        file.record(&mut store, expected.clone());
    }

    assert_eq!(file.line_count(), 2);
    assert_eq!(file.store().entries(), &[expected]);
}

#[test]
fn earlier_records_and_the_header_survive_a_record() {
    let mut file = MemoryLog::new();
    let mut store = file.store();
    file.record(&mut store, entry(1, "first.bin", 1));
    file.record(&mut store, entry(2, "second.bin", 2));
    file.record(&mut store, entry(3, "third.bin", 3));

    assert_eq!(file.line_count(), 4, "one header line and three records");
    assert!(file.contents.starts_with(HISTORY_FORMAT_HEADER));
    assert_eq!(file.contents.matches(HISTORY_FORMAT_HEADER).count(), 1);

    let reloaded = file.store();
    assert_eq!(
        reloaded
            .entries()
            .iter()
            .map(|entry| entry.filename.as_str())
            .collect::<Vec<_>>(),
        ["first.bin", "second.bin", "third.bin"]
    );
}

#[test]
fn malformed_lines_are_skipped_without_losing_valid_ones() {
    let mut file = MemoryLog::new();
    let good = entry(7, "good.bin", 1024);
    let other = entry(8, "other.bin", 8);
    let lines = [
        json(&good),
        String::new(),
        "not a record".to_string(),
        r#"{"id":6,"url":"https://example.com/x"}"#.to_string(),
        json(&entry(0, "name.bin", 10)),
        json(&entry(5, "", 10)),
        json(&other),
        r#"{"id":9,"url":"https://example.com/x","filename":"name.bin""#.to_string(),
    ];
    file.contents = format!("{HISTORY_FORMAT_HEADER}\n{}\n", lines.join("\n"));

    let store = file.store();
    assert_eq!(
        store
            .entries()
            .iter()
            .map(|entry| entry.id)
            .collect::<Vec<_>>(),
        [7, 8],
        "usable records survive around unusable ones"
    );
}

#[test]
fn foreign_file_is_replaced_instead_of_appended_to() {
    let mut file = MemoryLog::new();
    file.contents = "hello\nworld\n".to_string();

    let mut store = file.store();
    assert!(
        store.entries().is_empty(),
        "an unrelated file is not a history log"
    );

    file.record(&mut store, entry(1, "kept.bin", 10));
    assert_eq!(file.line_count(), 2);
    assert_eq!(file.store().entries(), &[entry(1, "kept.bin", 10)]);
}

#[test]
fn crlf_history_still_parses() {
    let mut file = MemoryLog::new();
    let record = entry(2, "crlf.bin", 2048);
    file.contents = format!("{HISTORY_FORMAT_HEADER}\r\n{}\r\n", json(&record));

    assert_eq!(file.store().entries(), &[record]);
}

#[test]
fn a_byte_order_mark_is_skipped() {
    let mut file = MemoryLog::new();
    let record = entry(2, "bom.bin", 2048);
    file.contents = format!("\u{feff}{HISTORY_FORMAT_HEADER}\n{}\n", json(&record));

    assert_eq!(file.store().entries(), &[record]);
}

#[test]
fn duplicate_ids_on_load_keep_the_first_record() {
    let mut file = MemoryLog::new();
    file.contents = format!(
        "{HISTORY_FORMAT_HEADER}\n{}\n{}\n",
        json(&entry(3, "first.bin", 10)),
        json(&entry(3, "second.bin", 20))
    );

    let store = file.store();
    assert_eq!(store.entries().len(), 1);
    assert_eq!(store.entries()[0].filename, "first.bin");
}

#[test]
fn oldest_entries_are_dropped_at_the_cap() {
    let mut file = MemoryLog::new();
    let newest = MAX_HISTORY_ENTRIES + 20;
    let mut contents = String::from(HISTORY_FORMAT_HEADER);
    for id in 1..=newest {
        contents.push('\n');
        contents.push_str(&json(&entry(id as i32, "file.bin", 10)));
    }
    file.contents = contents;

    let store = file.store();
    assert_eq!(store.entries().len(), MAX_HISTORY_ENTRIES);
    assert_eq!(store.entries()[0].id, 21, "the oldest entries are dropped");
    assert_eq!(store.entries()[MAX_HISTORY_ENTRIES - 1].id, newest as i32);
    assert_eq!(store.next_id(), newest as i32 + 1);
}

#[test]
fn recording_keeps_the_log_at_the_cap() {
    let mut file = MemoryLog::new();
    let mut store = file.store();

    for id in 1..=(MAX_HISTORY_ENTRIES + 2) {
        store.record(entry(id as i32, "file.bin", 10));
    }
    file.rewrite(&store);

    assert_eq!(store.entries().len(), MAX_HISTORY_ENTRIES);
    assert_eq!(store.entries()[0].id, 3, "the oldest entries are dropped");
    assert_eq!(
        file.line_count(),
        1 + MAX_HISTORY_ENTRIES,
        "one header line and the retained records"
    );
    assert_eq!(file.store().entries().len(), MAX_HISTORY_ENTRIES);
}

#[test]
fn rejected_records_are_ignored() {
    let mut file = MemoryLog::new();
    let bad = [
        r#"{"id":-1,"url":"url","filename":"name.bin","save_path":"C:\\x","total_bytes":10,"completed_unix_ms":11}"#.to_string(),
        r#"{"id":1,"url":"url","filename":"name.bin","save_path":"C:\\x","total_bytes":"abc","completed_unix_ms":11}"#.to_string(),
        r#"{"id":1,"url":"url","filename":"name.bin","save_path":"C:\\x","total_bytes":10,"completed_unix_ms":"11x"}"#.to_string(),
        json(&entry(1, "", 10)),
        r#"{"id":1,"url":"url","filename":"name.bin","save_path":"C:\\x","total_bytes":10}"#.to_string(),
    ];
    file.contents = format!("{HISTORY_FORMAT_HEADER}\n{}\n", bad.join("\n"));

    let store = file.store();
    assert!(store.entries().is_empty());
    assert_eq!(store.next_id(), 1);
}

#[test]
fn last_try_label_reports_local_time_and_rejects_out_of_range() {
    let label = last_try_label(1_700_000_000_000);
    assert_eq!(label.len(), "2023-11-14 22:13".len());
    assert_eq!(label.as_bytes()[4], b'-');
    assert_eq!(label.as_bytes()[10], b' ');
    assert_eq!(label.as_bytes()[13], b':');

    assert_eq!(last_try_label(u64::MAX), "Unknown");
    assert!(now_unix_ms() > 1_600_000_000_000);
}

#[test]
fn default_history_path_is_under_local_app_data() {
    let local = FilePath::new("C:\\Users\\test\\AppData\\Local");
    let current = FilePath::new("D:\\work");
    let path = default_history_path(Some(&local), &current);
    assert_eq!(path.file_name().as_deref(), Some(HISTORY_FILE_NAME));
    assert_eq!(
        path.parent().and_then(|parent| parent.file_name()).as_deref(),
        Some(HISTORY_DIRECTORY_NAME)
    );
    assert!(path.as_str().starts_with(local.as_str()));
    let fallback = default_history_path(None, &current);
    assert!(fallback.as_str().starts_with(current.as_str()));
}

#[test]
fn environment_and_temporary_paths_are_derived_from_the_log_path() {
    let path = FilePath::new("C:\\data\\history.jsonl");
    let temporary = temporary_path(&path);
    assert_eq!(
        temporary,
        FilePath::new("C:\\data\\history.jsonl.tmp"),
        "the log is replaced through a sibling temporary file"
    );
    assert_ne!(temporary, path);

    assert_eq!(environment_path(None), None);
    assert_eq!(environment_path(Some("")), None);
    assert_eq!(environment_path(Some("C:\\data")), Some(FilePath::new("C:\\data")));

    let store = HistoryStore::load_from(path, &Vec::new());
    let (directory, written) = store.rewrite_plan();
    assert_eq!(directory, Some(FilePath::new("C:\\data")));
    assert_eq!(written, temporary);
}

#[test]
fn remove_entry_updates_memory_and_disk() {
    let mut file = MemoryLog::new();
    let mut store = file.store();
    let first = entry(1, "first.bin", 100);
    let second = entry(2, "second.bin", 200);
    file.record(&mut store, first.clone());
    file.record(&mut store, second.clone());
    assert_eq!(store.entries().len(), 2);

    let removed = store.remove(1);
    file.rewrite(&store);
    assert_eq!(removed, Some(first));
    assert_eq!(store.entries().as_slice(), std::slice::from_ref(&second));

    let reloaded = file.store();
    assert_eq!(reloaded.entries(), &[second]);

    assert_eq!(store.remove(99), None);
}

#[test]
fn log_errors_are_explained() {
    let io = HistoryError::Io(IoFault::new(IoKind::Other, "disk full"));
    assert_eq!(io.message(), "history I/O error: disk full");
    let json = HistoryError::Json("trailing comma".into());
    assert_eq!(json.message(), "history format error: trailing comma");
}

fn moment(year: i32, month: u32, day: u32) -> LocalMoment {
    LocalMoment { year, month, day, hour: 9, minute: 5 }
}

#[test]
fn completion_times_are_shown_relative_to_today() {
    let now = LocalMoment { year: 2026, month: 3, day: 1, hour: 23, minute: 59 };
    assert_eq!(format_completed_label(Some(moment(2026, 3, 1)), now), "Today 09:05");
    assert_eq!(format_completed_label(Some(moment(2026, 2, 28)), now), "Yesterday 09:05");
    assert_eq!(format_completed_label(Some(moment(2026, 2, 27)), now), "Feb 27 09:05");
    assert_eq!(format_completed_label(Some(moment(2025, 12, 31)), now), "Dec 31, 2025");
    assert_eq!(format_completed_label(Some(moment(12_345, 6, 7)), now), "Jun 07, +12345");
    assert_eq!(format_completed_label(None, now), "Unknown");
    let new_year = LocalMoment { year: 2026, month: 1, day: 1, hour: 0, minute: 0 };
    assert_eq!(format_completed_label(Some(moment(2025, 12, 31)), new_year), "Yesterday 09:05");
    let leap = LocalMoment { year: 2024, month: 3, day: 1, hour: 0, minute: 0 };
    assert_eq!(format_completed_label(Some(moment(2024, 2, 29)), leap), "Yesterday 09:05");
}

#[test]
fn labels_read_the_clock_and_the_time_zone() {
    assert_eq!(downloaded_label(u64::MAX), "Unknown");
    let label = downloaded_label(now_unix_ms());
    assert!(label.starts_with("Today ") || label.starts_with("Yesterday "), "{label}");
    // The last moment of the calendar has a date west of Greenwich and none east of it.
    let last = downloaded_label(8_210_266_876_799_999);
    assert!(last == "Unknown" || last == "Dec 31, +262142", "{last}");
    assert_eq!(downloaded_label(8_210_266_876_800_000), "Unknown");
    assert_eq!(last_try_label(8_210_266_876_800_000), "Unknown");
    assert!(last_try_label(1_700_000_000_000).starts_with("2023-11-1"));
    assert_eq!(millis_or_zero(None), 0);
    assert_eq!(millis_or_zero(Some(7)), 7);
    assert_eq!(millis_or_zero(Some(u128::MAX)), u64::MAX);
}
