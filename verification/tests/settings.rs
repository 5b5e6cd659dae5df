use kosmos_downloader::path::FilePath;
use kosmos_downloader::ui::category_map::CategoryMap;
use kosmos_downloader::ui::options::{update_category_defaults, OptionsForm};
use kosmos_downloader::ui::platform::{
    change_arguments, default_download_directory, profile_downloads, query_arguments,
    reg_executable, startup_value,
};
use kosmos_downloader::ui::save_settings::join_extensions;
use kosmos_downloader::ui::{Category, SaveSettings};
use std::collections::BTreeSet;

fn settings_in(dir: &str) -> SaveSettings {
    SaveSettings::new(FilePath::new(dir))
}

#[test]
fn test_startup_value_quotes_paths_with_spaces() {
    assert_eq!(
        startup_value(&FilePath::new(r"C:\Program Files\Kosmos\app.exe")),
        r#""C:\Program Files\Kosmos\app.exe""#
    );
}

#[test]
fn test_default_subfolders() {
    let settings = settings_in("C:\\Users\\test\\Downloads");

    assert_eq!(
        settings.category_path(Category::General),
        FilePath::new("C:\\Users\\test\\Downloads")
    );
    assert_eq!(
        settings.category_path(Category::Compressed),
        FilePath::new("C:\\Users\\test\\Downloads").join("Compressed")
    );
    assert_eq!(
        settings.category_path(Category::Video),
        FilePath::new("C:\\Users\\test\\Downloads").join("Video")
    );
}

#[test]
fn test_path_for_url_routing() {
    let settings = settings_in("/home/user/Downloads");

    assert_eq!(
        settings.path_for_url("https://example.com/test.zip"),
        FilePath::new("/home/user/Downloads/Compressed")
    );
    assert_eq!(
        settings.path_for_url("https://example.com/movie.mp4"),
        FilePath::new("/home/user/Downloads/Video")
    );
    assert_eq!(
        settings.path_for_url("https://example.com/song.mp3"),
        FilePath::new("/home/user/Downloads/Music")
    );
    assert_eq!(
        settings.path_for_url("https://example.com/doc.pdf"),
        FilePath::new("/home/user/Downloads/Documents")
    );
    assert_eq!(
        settings.path_for_url("https://example.com/app.exe"),
        FilePath::new("/home/user/Downloads/Programs")
    );
    assert_eq!(
        settings.path_for_url("https://example.com/unknown_file"),
        FilePath::new("/home/user/Downloads")
    );
}

#[test]
fn test_category_override_keeps_explicit_old_default_subfolder() {
    let default_dir = FilePath::new("D:\\Downloads");

    assert_eq!(
        SaveSettings::category_override(
            "D:\\Downloads\\Compressed",
            &default_dir,
            Category::Compressed
        ),
        None,
        "The current default subfolder is not an override"
    );
    assert_eq!(
        SaveSettings::category_override(
            "C:\\Old\\Downloads\\Compressed",
            &default_dir,
            Category::Compressed
        ),
        Some(FilePath::new("C:\\Old\\Downloads\\Compressed")),
        "A folder from an earlier default directory stays an explicit override"
    );
    assert_eq!(
        SaveSettings::category_override("   ", &default_dir, Category::Video),
        None,
        "An empty field falls back to the default subfolder"
    );
}

#[test]
fn test_category_from_trait() {
    for (index, category) in Category::ALL.iter().enumerate() {
        assert_eq!(Category::from(index as i32), *category);
        assert_eq!(category.category_id(), index as i32);
        assert!(!category.as_str().is_empty());
        assert!(!category.display_name().is_empty());
    }
    assert_eq!(Category::from(99), Category::General);
    assert_eq!(Category::from(-1), Category::General);
}

#[test]
fn test_is_managed_path() {
    let mut settings = settings_in("D:\\Downloads");
    settings.set_category_dir(
        Category::Compressed,
        Some(FilePath::new("D:\\CustomArchives")),
    );

    assert!(settings.is_managed_path(&FilePath::new("D:\\Downloads")));
    assert!(settings.is_managed_path(&FilePath::new("D:\\CustomArchives")));
    assert!(settings.is_managed_path(&FilePath::new("D:\\Downloads\\Documents")));
    assert!(settings.is_managed_path(&FilePath::new("D:\\Downloads\\Video")));
    assert!(!settings.is_managed_path(&FilePath::new("D:\\Downloads\\Compressed")));
    assert!(!settings.is_managed_path(&FilePath::new("D:\\Other\\Folder")));
}

#[test]
fn test_file_type_overrides_route_and_classify() {
    let mut settings = settings_in("D:\\Downloads");
    settings
        .file_types
        .insert(Category::Video, vec!["webm".into()]);

    assert_eq!(settings.category_for_filename("clip.webm"), Category::Video);
    assert_eq!(
        settings.path_for_url("https://example.com/clip.webm"),
        FilePath::new("D:\\Downloads\\Video")
    );
    assert_eq!(
        settings.category_for_filename("movie.mp4"),
        Category::General,
        "A removed extension falls back to the default category"
    );
}

#[test]
fn test_normalize_extensions() {
    assert_eq!(
        SaveSettings::normalize_extensions(" .ZIP, rar;7z  7z "),
        vec!["zip", "rar", "7z"]
    );
    assert!(SaveSettings::normalize_extensions(" , ; ").is_empty());
}

#[test]
fn test_file_type_override_only_persists_changes() {
    let defaults = Category::extensions(Category::Video).join(", ");
    assert_eq!(
        SaveSettings::file_type_override(Category::Video, &defaults),
        None
    );
    assert_eq!(
        SaveSettings::file_type_override(Category::Video, "WebM .mkv"),
        Some(vec!["webm".into(), "mkv".into()])
    );
    assert_eq!(
        SaveSettings::file_type_override(Category::Music, ""),
        Some(Vec::new()),
        "Clearing the field disables the category instead of restoring defaults"
    );
}

#[test]
fn add_download_category_routing_on_url_change() {
    let mut settings = settings_in("C:\\Users\\user\\Downloads");
    settings.set_category_dir(
        Category::Compressed,
        Some(FilePath::new("C:\\Users\\user\\Downloads\\Archives")),
    );
    settings.set_category_dir(Category::Video, Some(FilePath::new("E:\\Media\\Videos")));

    assert_eq!(
        settings.category_path(Category::General),
        FilePath::new("C:\\Users\\user\\Downloads")
    );
    assert_eq!(
        settings.category_path(Category::Compressed),
        FilePath::new("C:\\Users\\user\\Downloads\\Archives")
    );
    assert_eq!(
        settings.category_path(Category::Video),
        FilePath::new("E:\\Media\\Videos")
    );
    assert_eq!(
        settings.category_path(Category::Documents),
        FilePath::new("C:\\Users\\user\\Downloads\\Documents")
    );

    for (url, directory) in [
        ("https://example.com/download.zip", "C:\\Users\\user\\Downloads\\Archives"),
        ("https://example.com/download.tar.gz", "C:\\Users\\user\\Downloads\\Archives"),
        ("https://example.com/movie.mkv", "E:\\Media\\Videos"),
        ("https://example.com/song.flac", "C:\\Users\\user\\Downloads\\Music"),
        ("https://example.com/doc.pdf", "C:\\Users\\user\\Downloads\\Documents"),
        ("https://example.com/installer.msi", "C:\\Users\\user\\Downloads\\Programs"),
        ("https://example.com/api/data?format=raw", "C:\\Users\\user\\Downloads"),
        ("https://example.com/data.tar.bz2", "C:\\Users\\user\\Downloads\\Archives"),
        ("https://example.com/audio.opus", "C:\\Users\\user\\Downloads\\Music"),
        ("https://example.com/sheet.csv", "C:\\Users\\user\\Downloads\\Documents"),
    ] {
        assert_eq!(settings.path_for_url(url), FilePath::new(directory), "{url}");
    }
}

#[test]
fn options_category_defaults_cascade_on_default_dir_change() {
    let old_def = FilePath::new("C:\\Users\\user\\Downloads");
    let new_def = FilePath::new("D:\\Downloads");
    let mut dirs: Vec<String> = vec![String::new(); 12];

    dirs[0] = old_def.as_str().to_string();
    dirs[1] = SaveSettings::default_subfolder(&old_def, Category::Compressed).text;
    dirs[2] = SaveSettings::default_subfolder(&old_def, Category::Documents).text;
    dirs[3] = "E:\\CustomMusic".to_string();
    dirs[4] = SaveSettings::default_subfolder(&old_def, Category::Programs).text;
    dirs[5] = SaveSettings::default_subfolder(&old_def, Category::Video).text;

    update_category_defaults(&mut dirs, &old_def, &new_def);
    dirs[0] = new_def.as_str().to_string();

    for (index, category) in [
        (1, Category::Compressed),
        (2, Category::Documents),
        (4, Category::Programs),
        (5, Category::Video),
    ] {
        assert_eq!(
            dirs[index],
            SaveSettings::default_subfolder(&new_def, category).text
        );
    }

    assert_eq!(dirs[3], "E:\\CustomMusic");
    assert_eq!(dirs[6], "D:\\Downloads\\Images", "an empty field follows too");
}

#[test]
fn routed_categories_agree_with_history_file_types() {
    let settings = settings_in("D:\\Downloads");
    for category in Category::ALL {
        for extension in category.extensions() {
            let filename = format!("sample.{extension}");
            assert_eq!(
                settings.category_for_filename(&filename),
                category,
                "{filename} routed to {category:?} must match its listed file type"
            );
        }
    }

    assert_eq!(
        settings.category_for_filename("sample.unknown"),
        Category::General,
        "Extensions outside the classifier fall back to the default directory"
    );

    let mut custom = settings_in("D:\\Downloads");
    custom
        .file_types
        .insert(Category::Music, vec!["mod".into()]);
    assert_eq!(
        custom.category_for_filename("track.mod"),
        Category::Music,
        "A custom extension classifies as its edited category"
    );
}

#[test]
fn built_in_file_type_lists_are_verbose_and_disjoint() {
    let mut seen: BTreeSet<&str> = BTreeSet::new();
    for category in Category::ALL {
        let extensions = category.extensions();
        if category == Category::General {
            assert!(extensions.is_empty(), "General catches everything else");
            continue;
        }
        let minimum = if category == Category::Torrents {
            3
        } else {
            30
        };
        assert!(
            extensions.len() >= minimum,
            "{category:?} lists {} extensions, expected at least {minimum}",
            extensions.len()
        );
        for extension in extensions {
            assert_eq!(
                extension,
                extension.to_ascii_lowercase().as_str(),
                "{extension} must be stored lowercase"
            );
            assert!(
                seen.insert(extension),
                "{extension} is listed in more than one category"
            );
        }
    }
}

#[test]
fn new_categories_route_their_representative_extensions() {
    let settings = settings_in("D:\\Downloads");
    for (filename, expected) in [
        ("disk.iso", Category::DiskImages),
        ("book.epub", Category::Ebooks),
        ("photo.heic", Category::Images),
        ("main.rs", Category::SourceCode),
        ("ubuntu.torrent", Category::Torrents),
        ("data.sqlite", Category::Databases),
        ("report.doc", Category::Documents),
        ("archive.7z", Category::Compressed),
    ] {
        assert_eq!(
            settings.category_for_filename(filename),
            expected,
            "{filename} must route to {expected:?}"
        );
    }

    assert_eq!(
        settings.path_for_url("https://example.com/disk.iso"),
        settings.category_path(Category::DiskImages)
    );
    assert_eq!(
        settings
            .category_path(Category::SourceCode)
            .file_name()
            .as_deref(),
        Some("Source Code"),
        "New categories use their display subfolder"
    );
}

#[test]
fn restored_settings_replace_empty_directories() {
    let mut saved = settings_in("");
    saved.category_dirs.insert(Category::Music, FilePath::new(""));
    saved.category_dirs.insert(Category::Video, FilePath::new("E:\\Videos"));
    saved.category_dirs.insert(Category::Video, FilePath::new("F:\\Videos"));
    let restored = saved.restored(FilePath::new("D:\\Downloads"));
    assert_eq!(restored.default_dir, FilePath::new("D:\\Downloads"));
    assert_eq!(restored.category_path(Category::Music), FilePath::new("D:\\Downloads\\Music"));
    assert_eq!(restored.category_path(Category::Video), FilePath::new("F:\\Videos"));
    let mut kept = restored.clone();
    kept.set_category_dir(Category::General, Some(FilePath::new("X:\\")));
    assert_eq!(kept, restored, "the general category stays on the default directory");
    kept.set_category_dir(Category::Video, None);
    assert_eq!(kept.category_path(Category::Video), FilePath::new("D:\\Downloads\\Video"));
}

fn blank() -> OptionsForm {
    OptionsForm { dirs: vec![String::new(); 12], file_types: vec![String::new(); 12] }
}

#[test]
fn unedited_options_keep_the_settings() {
    let mut settings = settings_in("D:\\Downloads");
    settings.set_category_dir(Category::Music, Some(FilePath::new("E:\\Music")));
    settings.file_types.insert(Category::Video, vec!["webm".into(), "mkv".into()]);
    let mut form = blank();
    form.open(&settings);
    assert_eq!(form.dirs[3], "E:\\Music");
    assert_eq!(form.file_types[5], "webm, mkv");
    assert_eq!(form.file_types[0], "");
    assert_eq!(form.committed(&FilePath::new("C:\\fallback")), settings);
    for category in Category::ALL {
        let shown = join_extensions(&settings.extensions_for(category));
        assert_eq!(SaveSettings::normalize_extensions(&shown), settings.extensions_for(category));
    }
}

#[test]
fn edited_options_become_overrides() {
    let mut form = blank();
    form.open(&settings_in("D:\\Downloads"));
    form.folder_picked(Category::General, &FilePath::new("E:\\Files"));
    assert_eq!(form.dirs[1], "E:\\Files\\Compressed", "default subfolders follow");
    form.folder_picked(Category::Music, &FilePath::new("F:\\Music"));
    form.default_dir_edited("E:\\Files", "  ");
    assert_eq!(form.dirs[1], "E:\\Files\\Compressed", "an emptied field changes nothing");
    form.file_types[2] = "TXT".to_string();
    let settings = form.committed(&FilePath::new("C:\\fallback"));
    assert_eq!(settings.default_dir, FilePath::new("E:\\Files"));
    assert_eq!(settings.category_path(Category::Music), FilePath::new("F:\\Music"));
    assert_eq!(settings.extensions_for(Category::Documents), ["txt"]);

    form.reset_category(Category::Music, &FilePath::new("C:\\fallback"));
    assert_eq!(form.dirs[3], "E:\\Files\\Music");
    form.reset_category(Category::General, &FilePath::new("C:\\fallback"));
    assert_eq!(form.dirs[0], "C:\\fallback");
    assert_eq!(form.dirs[3], "C:\\fallback\\Music");

    let fallback = FilePath::new("C:\\fallback");
    let other = FilePath::new("X:\\none");
    assert_eq!(form.browse_start(Category::Music, true, true, &other).as_str(), form.dirs[3]);
    assert_eq!(form.browse_start(Category::Music, false, true, &other), fallback);
    assert_eq!(form.browse_start(Category::Music, false, false, &other), other);
    form.dirs[0] = "   ".to_string();
    assert_eq!(form.committed(&other).default_dir, other);
}

#[test]
fn the_platform_is_asked_by_fixed_commands() {
    assert_eq!(profile_downloads("C:\\Users\\test").as_str(), "C:\\Users\\test\\Downloads");
    let downloads = FilePath::new("C:\\Users\\test\\Downloads");
    assert_eq!(default_download_directory(Some(downloads.clone()), None), downloads);
    assert_eq!(
        default_download_directory(None, Some(FilePath::new("D:\\"))),
        FilePath::new("D:\\")
    );
    assert_eq!(default_download_directory(None, None).as_str(), ".");

    assert_eq!(query_arguments("key", "name"), ["query", "key", "/v", "name"]);
    assert_eq!(change_arguments("key", "name", None, false), None, "already gone");
    assert_eq!(
        change_arguments("key", "name", None, true).unwrap(),
        ["delete", "key", "/v", "name", "/f"]
    );
    assert_eq!(
        change_arguments("key", "name", Some("value"), false).unwrap(),
        ["add", "key", "/v", "name", "/t", "REG_SZ", "/d", "value", "/f"]
    );
    assert_eq!(
        reg_executable(Some("C:\\Windows")),
        Some(FilePath::new("C:\\Windows\\System32\\reg.exe"))
    );
    assert_eq!(reg_executable(Some("")), None);
    assert_eq!(reg_executable(None), None);
}

#[test]
fn settings_compare_by_their_values() {
    let mut first: CategoryMap<u8> = CategoryMap::new();
    first.insert(Category::Music, 1);
    first.insert(Category::Video, 2);
    let mut second: CategoryMap<u8> = CategoryMap::new();
    second.insert(Category::Video, 7);
    second.insert(Category::Music, 1);
    assert_ne!(first, second);
    second.insert(Category::Video, 2);
    assert_eq!(first, second, "the order of the changes does not matter");
    second.remove(Category::Music);
    assert_eq!(second.get(Category::Music), None);
    assert_ne!(first, second);
}

#[test]
fn complete_settings_are_restored_unchanged() {
    let mut settings = SaveSettings::new(FilePath::new("D:\\Downloads"));
    settings.set_category_dir(Category::Music, Some(FilePath::new("D:\\Music")));
    settings.file_types.insert(Category::Video, vec!["webm".to_string()]);
    assert_eq!(settings.clone().restored(FilePath::new("C:\\fallback")), settings);
}

#[test]
fn test_save_settings_round_trip() {
    let mut original = settings_in("D:\\Downloads");
    original
        .category_dirs
        .insert(Category::Compressed, FilePath::new("D:\\Downloads\\CustomArchives"));
    original.category_dirs.insert(Category::Music, FilePath::new("D:\\Music"));
    original.file_types.insert(Category::Video, vec!["webm".to_string()]);
    let fallback = FilePath::new("C:\\fallback");
    let loaded = SaveSettings::load_from(Some(original.clone()), fallback.clone());
    assert_eq!(loaded, Some(original.clone()));
    assert_eq!(SaveSettings::load(Some(original.clone()), fallback), original);
}

#[test]
fn a_file_without_settings_gives_fresh_ones() {
    let fallback = FilePath::new("C:\\fallback");
    assert_eq!(SaveSettings::load_from(None, fallback.clone()), None);
    assert_eq!(SaveSettings::load(None, fallback), settings_in("C:\\fallback"));
}

#[test]
fn loaded_settings_load_again_unchanged() {
    let mut saved = settings_in("");
    saved.category_dirs.insert(Category::Music, FilePath::new(""));
    saved.file_types.insert(Category::Music, Vec::new());
    let fallback = FilePath::new("C:\\fallback");
    let loaded = SaveSettings::load(Some(saved.clone()), fallback.clone());
    assert_ne!(loaded, saved);
    assert_eq!(loaded.default_dir, fallback);
    assert_eq!(loaded.category_dirs.get(Category::Music), None);
    assert_eq!(loaded.file_types.get(Category::Music), Some(&Vec::new()));
    assert_eq!(SaveSettings::load_from(Some(loaded.clone()), fallback), Some(loaded));
}

#[test]
fn every_spelling_of_the_default_subfolder_is_no_override() {
    let default_dir = FilePath::new("/home/user");
    for entered in ["/home/user/Music", "  /home/user/Music/ ", "/home//user/./Music", ""] {
        assert_eq!(
            SaveSettings::category_override(entered, &default_dir, Category::Music),
            None,
            "{entered}"
        );
    }
    assert_eq!(
        SaveSettings::category_override(" /home/user/Tunes ", &default_dir, Category::Music),
        Some(FilePath::new("/home/user/Tunes"))
    );
}

#[test]
fn every_parsed_list_is_kept_when_it_is_shown() {
    for entered in ["", "..ZIP..;rar  rar", ".tar.gz,\u{3000}7Z", "a.b . ..", "\u{130}x"] {
        let list = SaveSettings::normalize_extensions(entered);
        assert_eq!(SaveSettings::normalize_extensions(&join_extensions(&list)), list);
    }
}
