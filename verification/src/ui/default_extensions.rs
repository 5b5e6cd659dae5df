//! The file types that each category lists before the user changes them.
use crate::ui::category::Category;
use vstd::prelude::*;

verus! {

/// The texts of some string slices.
pub open spec fn texts(list: Seq<&'static str>) -> Seq<Seq<char>> {
    list.map_values(|s: &'static str| s@)
}

fn compressed_list() -> (r: Vec<&'static str>)
    ensures
        r@ == compressed_types(),
{
    let r = vec![
        "zip", "rar", "7z", "tar", "gz", "bz2", "xz", "zst", "tgz", "tbz", "tbz2", "txz", "tlz",
        "lz", "lz4", "lzma", "lzh", "lha", "arj", "ace", "cab", "z", "zipx", "cpio", "sit",
        "sitx", "arc", "alz", "egg", "br", "sz", "zpaq", "pea", "kgb",
    ];
    assert(r@ =~= compressed_types());
    r
}

pub open spec fn compressed_types() -> Seq<&'static str> {
    seq![
        "zip", "rar", "7z", "tar", "gz", "bz2", "xz", "zst", "tgz", "tbz", "tbz2", "txz", "tlz",
        "lz", "lz4", "lzma", "lzh", "lha", "arj", "ace", "cab", "z", "zipx", "cpio", "sit",
        "sitx", "arc", "alz", "egg", "br", "sz", "zpaq", "pea", "kgb",
    ]
}

fn documents_list() -> (r: Vec<&'static str>)
    ensures
        r@ == documents_types(),
{
    let r = vec![
        "pdf", "doc", "docx", "docm", "dot", "dotx", "dotm", "xls", "xlsx", "xlsm", "xlsb",
        "xlt", "xltx", "ppt", "pptx", "pptm", "pps", "ppsx", "pot", "potx", "odt", "ods", "odp",
        "odg", "rtf", "txt", "csv", "tsv", "tex", "md", "pages", "numbers", "wpd", "xps", "vsd",
        "vsdx",
    ];
    assert(r@ =~= documents_types());
    r
}

pub open spec fn documents_types() -> Seq<&'static str> {
    seq![
        "pdf", "doc", "docx", "docm", "dot", "dotx", "dotm", "xls", "xlsx", "xlsm", "xlsb",
        "xlt", "xltx", "ppt", "pptx", "pptm", "pps", "ppsx", "pot", "potx", "odt", "ods", "odp",
        "odg", "rtf", "txt", "csv", "tsv", "tex", "md", "pages", "numbers", "wpd", "xps", "vsd",
        "vsdx",
    ]
}

fn music_list() -> (r: Vec<&'static str>)
    ensures
        r@ == music_types(),
{
    let r = vec![
        "mp3", "flac", "wav", "aac", "ogg", "oga", "opus", "m4a", "wma", "aiff", "aif", "alac",
        "ape", "mid", "midi", "amr", "au", "ra", "mka", "m4b", "mpc", "wv", "tta", "dsf", "dff",
        "ac3", "dts", "caf", "spx", "weba", "voc", "m4r", "aa", "aax",
    ];
    assert(r@ =~= music_types());
    r
}

pub open spec fn music_types() -> Seq<&'static str> {
    seq![
        "mp3", "flac", "wav", "aac", "ogg", "oga", "opus", "m4a", "wma", "aiff", "aif", "alac",
        "ape", "mid", "midi", "amr", "au", "ra", "mka", "m4b", "mpc", "wv", "tta", "dsf", "dff",
        "ac3", "dts", "caf", "spx", "weba", "voc", "m4r", "aa", "aax",
    ]
}

fn programs_list() -> (r: Vec<&'static str>)
    ensures
        r@ == programs_types(),
{
    let r = vec![
        "exe", "msi", "msix", "msixbundle", "appx", "appxbundle", "apk", "xapk", "aab", "app",
        "bat", "cmd", "com", "scr", "pif", "jar", "deb", "rpm", "snap", "flatpak", "flatpakref",
        "appimage", "pkg", "ipa", "run", "gadget", "wsf", "msp", "msu", "cpl", "xpi", "crx",
        "vsix", "air",
    ];
    assert(r@ =~= programs_types());
    r
}

pub open spec fn programs_types() -> Seq<&'static str> {
    seq![
        "exe", "msi", "msix", "msixbundle", "appx", "appxbundle", "apk", "xapk", "aab", "app",
        "bat", "cmd", "com", "scr", "pif", "jar", "deb", "rpm", "snap", "flatpak", "flatpakref",
        "appimage", "pkg", "ipa", "run", "gadget", "wsf", "msp", "msu", "cpl", "xpi", "crx",
        "vsix", "air",
    ]
}

fn video_list() -> (r: Vec<&'static str>)
    ensures
        r@ == video_types(),
{
    let r = vec![
        "mp4", "mkv", "avi", "mov", "wmv", "flv", "webm", "m4v", "mpg", "mpeg", "mpe", "mpv",
        "m2v", "m2ts", "mts", "3gp", "3g2", "ogv", "ogm", "vob", "rm", "rmvb", "asf", "divx",
        "xvid", "f4v", "mxf", "qt", "dv", "amv", "m1v", "trp", "wtv", "nsv", "y4m",
    ];
    assert(r@ =~= video_types());
    r
}

pub open spec fn video_types() -> Seq<&'static str> {
    seq![
        "mp4", "mkv", "avi", "mov", "wmv", "flv", "webm", "m4v", "mpg", "mpeg", "mpe", "mpv",
        "m2v", "m2ts", "mts", "3gp", "3g2", "ogv", "ogm", "vob", "rm", "rmvb", "asf", "divx",
        "xvid", "f4v", "mxf", "qt", "dv", "amv", "m1v", "trp", "wtv", "nsv", "y4m",
    ]
}

fn images_list() -> (r: Vec<&'static str>)
    ensures
        r@ == images_types(),
{
    let r = vec![
        "jpg", "jpeg", "jpe", "jfif", "png", "gif", "bmp", "dib", "webp", "tif", "tiff", "svg",
        "svgz", "ico", "cur", "heic", "heif", "avif", "jxl", "jp2", "j2k", "psd", "psb", "ai",
        "eps", "indd", "raw", "cr2", "cr3", "nef", "arw", "dng", "orf", "rw2", "raf", "tga",
        "xcf", "pcx", "ppm", "exr",
    ];
    assert(r@ =~= images_types());
    r
}

pub open spec fn images_types() -> Seq<&'static str> {
    seq![
        "jpg", "jpeg", "jpe", "jfif", "png", "gif", "bmp", "dib", "webp", "tif", "tiff", "svg",
        "svgz", "ico", "cur", "heic", "heif", "avif", "jxl", "jp2", "j2k", "psd", "psb", "ai",
        "eps", "indd", "raw", "cr2", "cr3", "nef", "arw", "dng", "orf", "rw2", "raf", "tga",
        "xcf", "pcx", "ppm", "exr",
    ]
}

fn ebooks_list() -> (r: Vec<&'static str>)
    ensures
        r@ == ebooks_types(),
{
    let r = vec![
        "epub", "mobi", "azw", "azw1", "azw3", "azw4", "kfx", "kf8", "fb2", "fbz", "lit", "lrf",
        "lrx", "pdb", "prc", "opf", "ibooks", "iba", "djvu", "djv", "cbr", "cbz", "cb7", "cbt",
        "cba", "chm", "tcr", "snb", "tr2", "tr3", "oeb", "pml", "pmlz", "ceb",
    ];
    assert(r@ =~= ebooks_types());
    r
}

pub open spec fn ebooks_types() -> Seq<&'static str> {
    seq![
        "epub", "mobi", "azw", "azw1", "azw3", "azw4", "kfx", "kf8", "fb2", "fbz", "lit", "lrf",
        "lrx", "pdb", "prc", "opf", "ibooks", "iba", "djvu", "djv", "cbr", "cbz", "cb7", "cbt",
        "cba", "chm", "tcr", "snb", "tr2", "tr3", "oeb", "pml", "pmlz", "ceb",
    ]
}

fn source_code_list() -> (r: Vec<&'static str>)
    ensures
        r@ == source_code_types(),
{
    let r = vec![
        "rs", "c", "h", "cpp", "hpp", "cc", "cxx", "hxx", "cs", "java", "kt", "kts", "py", "rb",
        "go", "js", "jsx", "mjs", "ts", "tsx", "php", "swift", "scala", "lua", "pl", "pm", "r",
        "sh", "ps1", "css", "scss", "vue", "dart", "hs", "ml", "ex", "exs", "erl", "clj", "asm",
        "vb", "fs", "zig", "nim",
    ];
    assert(r@ =~= source_code_types());
    r
}

pub open spec fn source_code_types() -> Seq<&'static str> {
    seq![
        "rs", "c", "h", "cpp", "hpp", "cc", "cxx", "hxx", "cs", "java", "kt", "kts", "py", "rb",
        "go", "js", "jsx", "mjs", "ts", "tsx", "php", "swift", "scala", "lua", "pl", "pm", "r",
        "sh", "ps1", "css", "scss", "vue", "dart", "hs", "ml", "ex", "exs", "erl", "clj", "asm",
        "vb", "fs", "zig", "nim",
    ]
}

fn disk_images_list() -> (r: Vec<&'static str>)
    ensures
        r@ == disk_images_types(),
{
    let r = vec![
        "iso", "img", "dmg", "vhd", "vhdx", "vmdk", "vdi", "qcow", "qcow2", "qed", "hdd", "hds",
        "nrg", "mdf", "mds", "mdx", "cue", "ccd", "toast", "cdr", "isz", "uif", "daa", "b5t",
        "b6t", "bwt", "cdi", "pdi", "wim", "esd", "swm", "ffu", "sparseimage", "sparsebundle",
        "ova", "ovf", "vfd", "ima",
    ];
    assert(r@ =~= disk_images_types());
    r
}

pub open spec fn disk_images_types() -> Seq<&'static str> {
    seq![
        "iso", "img", "dmg", "vhd", "vhdx", "vmdk", "vdi", "qcow", "qcow2", "qed", "hdd", "hds",
        "nrg", "mdf", "mds", "mdx", "cue", "ccd", "toast", "cdr", "isz", "uif", "daa", "b5t",
        "b6t", "bwt", "cdi", "pdi", "wim", "esd", "swm", "ffu", "sparseimage", "sparsebundle",
        "ova", "ovf", "vfd", "ima",
    ]
}

fn torrents_list() -> (r: Vec<&'static str>)
    ensures
        r@ == torrents_types(),
{
    let r = vec![
        "torrent", "magnet", "metalink", "meta4",
    ];
    assert(r@ =~= torrents_types());
    r
}

pub open spec fn torrents_types() -> Seq<&'static str> {
    seq![
        "torrent", "magnet", "metalink", "meta4",
    ]
}

fn databases_list() -> (r: Vec<&'static str>)
    ensures
        r@ == databases_types(),
{
    let r = vec![
        "db", "db3", "sqlite", "sqlite3", "sqlitedb", "s3db", "sl3", "mdb", "accdb", "accde",
        "accdt", "mdw", "laccdb", "ldf", "ndf", "sql", "dbf", "dbx", "fdb", "gdb", "ibd", "frm",
        "myd", "myi", "ora", "odb", "fp7", "fmp12", "nsf", "kdbx", "realm", "rdb", "wdb", "dbs",
        "edb",
    ];
    assert(r@ =~= databases_types());
    r
}

pub open spec fn databases_types() -> Seq<&'static str> {
    seq![
        "db", "db3", "sqlite", "sqlite3", "sqlitedb", "s3db", "sl3", "mdb", "accdb", "accde",
        "accdt", "mdw", "laccdb", "ldf", "ndf", "sql", "dbf", "dbx", "fdb", "gdb", "ibd", "frm",
        "myd", "myi", "ora", "odb", "fp7", "fmp12", "nsf", "kdbx", "realm", "rdb", "wdb", "dbs",
        "edb",
    ]
}

/// The extensions that a category lists, in lower case; the general one catches everything else.
pub open spec fn default_types(category: Category) -> Seq<&'static str> {
    match category {
        Category::General => Seq::empty(),
        Category::Compressed => compressed_types(),
        Category::Documents => documents_types(),
        Category::Music => music_types(),
        Category::Programs => programs_types(),
        Category::Video => video_types(),
        Category::Images => images_types(),
        Category::Ebooks => ebooks_types(),
        Category::SourceCode => source_code_types(),
        Category::DiskImages => disk_images_types(),
        Category::Torrents => torrents_types(),
        Category::Databases => databases_types(),
    }
}

impl Category {
    /// The extensions that the category lists before the user changes them.
    #[must_use]
    pub fn extensions(self) -> (r: Vec<&'static str>)
        ensures
            r@ == default_types(self),
    {
        match self {
            Category::General => Vec::new(),
            Category::Compressed => compressed_list(),
            Category::Documents => documents_list(),
            Category::Music => music_list(),
            Category::Programs => programs_list(),
            Category::Video => video_list(),
            Category::Images => images_list(),
            Category::Ebooks => ebooks_list(),
            Category::SourceCode => source_code_list(),
            Category::DiskImages => disk_images_list(),
            Category::Torrents => torrents_list(),
            Category::Databases => databases_list(),
        }
    }
}

} // verus!
