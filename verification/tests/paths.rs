use kosmos_downloader::path::{split_extension, FilePath};
use kosmos_downloader::text::{parse_u64, trim_text};

#[test]
fn paths_are_compared_by_their_components() {
    assert_eq!(FilePath::new("C:\\a\\b"), FilePath::new("c:/a//b/"));
    assert_ne!(FilePath::new("C:\\a\\b"), FilePath::new("C:\\a\\B"));
    assert_ne!(FilePath::new("C:\\a"), FilePath::new("C:a"));
    assert_ne!(FilePath::new("\\a"), FilePath::new("a"));
    assert_eq!(FilePath::new("a\\.\\b"), FilePath::new("a/b"));
}

#[test]
fn joining_replaces_rooted_and_keeps_relative_names() {
    assert_eq!(FilePath::new("C:\\a").join("b").as_str(), "C:\\a\\b");
    assert_eq!(FilePath::new("C:\\a\\").join("b").as_str(), "C:\\a\\b");
    assert_eq!(FilePath::new("C:\\a").join("D:\\b").as_str(), "D:\\b");
    assert_eq!(FilePath::new("").join("b").as_str(), "b");
}

#[test]
fn names_extensions_and_parents_are_found() {
    let path = FilePath::new("C:\\dir\\archive.tar.gz");
    assert_eq!(path.file_name().as_deref(), Some("archive.tar.gz"));
    assert_eq!(path.extension().as_deref(), Some("gz"));
    assert_eq!(path.parent(), Some(FilePath::new("C:\\dir")));
    assert_eq!(FilePath::new(".gitignore").extension(), None);
    assert_eq!(FilePath::new("C:\\").parent(), None);
    assert_eq!(split_extension("report.pdf"), ("report".into(), Some("pdf".into())));
    assert_eq!(split_extension("README"), ("README".into(), None));
}

#[test]
fn numbers_are_read_back_within_range() {
    let chars: Vec<char> = "18446744073709551615".chars().collect();
    assert_eq!(parse_u64(&chars), Some(u64::MAX));
    let above: Vec<char> = "18446744073709551616".chars().collect();
    assert_eq!(parse_u64(&above), None);
    assert_eq!(trim_text("\u{2003} a b\t"), "a b");
}

#[test]
fn literal_paths_keep_their_prefixes() {
    let share = FilePath::new("\\\\?\\UNC\\server\\share\\dir\\a.txt");
    assert_eq!(share.parent().unwrap().as_str(), "\\\\?\\UNC\\server\\share\\dir");
    assert_eq!(FilePath::new("\\\\?\\UNC\\server\\share").file_name(), None);
    assert_eq!(FilePath::new("\\\\?\\UNC\\server\\share").parent(), None);
    assert_eq!(FilePath::new("\\\\?\\c:\\a"), FilePath::new("\\\\?\\C:\\a"));
    assert_ne!(FilePath::new("\\\\?\\C:\\a"), FilePath::new("C:\\a"));
    // Only backslashes separate in a literal path, and dots are names there.
    let literal = FilePath::new("\\\\?\\C:\\a/b");
    assert_eq!(literal.file_name().as_deref(), Some("a/b"));
    assert_ne!(FilePath::new("\\\\?\\C:\\a\\.\\b"), FilePath::new("\\\\?\\C:\\a\\b"));
    assert_eq!(FilePath::new("\\\\?\\C:\\a").join("./b/../c").as_str(), "\\\\?\\C:\\a\\c");
    assert_eq!(FilePath::new("\\\\?\\C:\\a").join("\\b").as_str(), "\\\\?\\C:\\b");
    assert_eq!(FilePath::new("\\\\?\\C:\\").join("..").as_str(), "\\\\?\\C:\\");
    assert_eq!(FilePath::new("\\\\?\\volume").join("a").as_str(), "\\\\?\\volume\\a");
    // With other separators the same text names a share.
    assert_eq!(FilePath::new("//?/C:/a"), FilePath::new("\\\\?/C:\\a"));
    assert_ne!(FilePath::new("//?/C:/a"), FilePath::new("\\\\?\\C:\\a"));
}

#[test]
fn devices_and_drives_have_prefixes_too() {
    assert_eq!(FilePath::new("\\\\.\\COM4").file_name(), None);
    assert_eq!(FilePath::new("\\\\.\\COM4\\a").file_name().as_deref(), Some("a"));
    assert_eq!(FilePath::new("\\\\server\\share\\a").parent().unwrap().as_str(), "\\\\server\\share\\");
    assert_eq!(FilePath::new("C:.\\a").parent().unwrap().as_str(), "C:.");
    assert_eq!(FilePath::new("C:").join("a").as_str(), "C:a");
}
