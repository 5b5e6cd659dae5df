//! The categories that downloads are sorted into.
use vstd::prelude::*;

verus! {

/// A category of downloads.
#[derive(Debug, Clone, Copy, PartialEq, Eq, PartialOrd, Ord, Structural)]
pub enum Category {
    General,
    Compressed,
    Documents,
    Music,
    Programs,
    Video,
    Images,
    Ebooks,
    SourceCode,
    DiskImages,
    Torrents,
    Databases,
}

/// The number of a category.
pub open spec fn id_of(category: Category) -> int {
    match category {
        Category::General => 0,
        Category::Compressed => 1,
        Category::Documents => 2,
        Category::Music => 3,
        Category::Programs => 4,
        Category::Video => 5,
        Category::Images => 6,
        Category::Ebooks => 7,
        Category::SourceCode => 8,
        Category::DiskImages => 9,
        Category::Torrents => 10,
        Category::Databases => 11,
    }
}

/// The category with a number; any other number is the general one.
pub open spec fn with_id(id: int) -> Category {
    if id == 1 {
        Category::Compressed
    } else if id == 2 {
        Category::Documents
    } else if id == 3 {
        Category::Music
    } else if id == 4 {
        Category::Programs
    } else if id == 5 {
        Category::Video
    } else if id == 6 {
        Category::Images
    } else if id == 7 {
        Category::Ebooks
    } else if id == 8 {
        Category::SourceCode
    } else if id == 9 {
        Category::DiskImages
    } else if id == 10 {
        Category::Torrents
    } else if id == 11 {
        Category::Databases
    } else {
        Category::General
    }
}

/// The folder of a category below the default directory; the general one has none.
pub open spec fn subfolder_name(category: Category) -> Seq<char> {
    match category {
        Category::General => ""@,
        Category::Compressed => "Compressed"@,
        Category::Documents => "Documents"@,
        Category::Music => "Music"@,
        Category::Programs => "Programs"@,
        Category::Video => "Video"@,
        Category::Images => "Images"@,
        Category::Ebooks => "Ebooks"@,
        Category::SourceCode => "Source Code"@,
        Category::DiskImages => "Disk Images"@,
        Category::Torrents => "Torrents"@,
        Category::Databases => "Databases"@,
    }
}

/// The short name of a category's file type.
pub open spec fn kind_name(category: Category) -> Seq<char> {
    match category {
        Category::General => "doc"@,
        Category::Documents => "doc"@,
        Category::Compressed => "zip"@,
        Category::Music => "audio"@,
        Category::Programs => "exe"@,
        Category::Video => "video"@,
        Category::Images => "image"@,
        Category::Ebooks => "ebook"@,
        Category::SourceCode => "code"@,
        Category::DiskImages => "iso"@,
        Category::Torrents => "torrent"@,
        Category::Databases => "db"@,
    }
}

impl Category {
    /// Every category, in order.
    pub const ALL: [Category; 12] = [
        Category::General,
        Category::Compressed,
        Category::Documents,
        Category::Music,
        Category::Programs,
        Category::Video,
        Category::Images,
        Category::Ebooks,
        Category::SourceCode,
        Category::DiskImages,
        Category::Torrents,
        Category::Databases,
    ];

    /// The folder of the category below the default directory.
    pub fn subfolder(self) -> (r: &'static str)
        ensures
            r@ == subfolder_name(self),
    {
        match self {
            Category::General => "",
            Category::Compressed => "Compressed",
            Category::Documents => "Documents",
            Category::Music => "Music",
            Category::Programs => "Programs",
            Category::Video => "Video",
            Category::Images => "Images",
            Category::Ebooks => "Ebooks",
            Category::SourceCode => "Source Code",
            Category::DiskImages => "Disk Images",
            Category::Torrents => "Torrents",
            Category::Databases => "Databases",
        }
    }

    /// The name shown to the user.
    #[must_use]
    pub fn display_name(self) -> (r: &'static str)
        ensures
            r@ == (if self == Category::General {
                "General"@
            } else {
                subfolder_name(self)
            }),
    {
        match self {
            Category::General => "General",
            other => other.subfolder(),
        }
    }

    /// The short name of the category's file type.
    #[must_use]
    pub fn as_str(self) -> (r: &'static str)
        ensures
            r@ == kind_name(self),
    {
        match self {
            Category::General => "doc",
            Category::Documents => "doc",
            Category::Compressed => "zip",
            Category::Music => "audio",
            Category::Programs => "exe",
            Category::Video => "video",
            Category::Images => "image",
            Category::Ebooks => "ebook",
            Category::SourceCode => "code",
            Category::DiskImages => "iso",
            Category::Torrents => "torrent",
            Category::Databases => "db",
        }
    }

    /// The number of the category.
    #[must_use]
    pub fn category_id(self) -> (r: i32)
        ensures
            r == id_of(self),
    {
        match self {
            Category::General => 0,
            Category::Compressed => 1,
            Category::Documents => 2,
            Category::Music => 3,
            Category::Programs => 4,
            Category::Video => 5,
            Category::Images => 6,
            Category::Ebooks => 7,
            Category::SourceCode => 8,
            Category::DiskImages => 9,
            Category::Torrents => 10,
            Category::Databases => 11,
        }
    }
}

impl From<i32> for Category {
    fn from(index: i32) -> (r: Category) {
        if 0 <= index && index < 12 {
            Category::ALL[index as usize]
        } else {
            Category::General
        }
    }
}

impl vstd::std_specs::convert::FromSpecImpl<i32> for Category {
    open spec fn obeys_from_spec() -> bool {
        true
    }

    open spec fn from_spec(index: i32) -> Category {
        with_id(index as int)
    }
}

/// Law: numbers and categories correspond: each category is found by its own number, and every
/// other number means the general category.
pub proof fn law_category_numbers_are_unique(category: Category, id: int)
    ensures
        0 <= id_of(category) < 12,
        with_id(id_of(category)) == category,
        0 <= id < 12 ==> id_of(with_id(id)) == id,
        !(0 <= id < 12) ==> with_id(id) == Category::General,
{
}

/// Law: categories have different folders, of which none but the general one is empty.
pub proof fn law_folders_tell_categories_apart(a: Category, b: Category)
    ensures
        subfolder_name(a) == subfolder_name(b) ==> a == b,
        subfolder_name(a).len() == 0 <==> a == Category::General,
{
    reveal_strlit("");
    reveal_strlit("Compressed");
    reveal_strlit("Documents");
    reveal_strlit("Music");
    reveal_strlit("Programs");
    reveal_strlit("Video");
    reveal_strlit("Images");
    reveal_strlit("Ebooks");
    reveal_strlit("Source Code");
    reveal_strlit("Disk Images");
    reveal_strlit("Torrents");
    reveal_strlit("Databases");
    if subfolder_name(a) == subfolder_name(b) && a != b {
        assert(subfolder_name(a).len() == subfolder_name(b).len());
        assert(subfolder_name(a)[0] == subfolder_name(b)[0]);
        assert(subfolder_name(a)[1] == subfolder_name(b)[1]);
        assert(subfolder_name(a)[2] == subfolder_name(b)[2]);
    }
}

/// Law: the short names of file types tell categories apart, but for the general one and that of
/// documents, which share one.
pub proof fn law_short_names_tell_categories_apart(a: Category, b: Category)
    ensures
        kind_name(a) == kind_name(b) ==> a == b || (a == Category::General && b
            == Category::Documents) || (a == Category::Documents && b == Category::General),
        kind_name(Category::General) == kind_name(Category::Documents),
{
    reveal_strlit("doc");
    reveal_strlit("zip");
    reveal_strlit("audio");
    reveal_strlit("exe");
    reveal_strlit("video");
    reveal_strlit("image");
    reveal_strlit("ebook");
    reveal_strlit("code");
    reveal_strlit("iso");
    reveal_strlit("torrent");
    reveal_strlit("db");
    if kind_name(a) == kind_name(b) {
        assert(kind_name(a).len() == kind_name(b).len());
        assert(kind_name(a)[0] == kind_name(b)[0]);
        assert(kind_name(a)[1] == kind_name(b)[1]);
    }
}

} // verus!
