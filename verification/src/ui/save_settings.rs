//! Where downloads are saved, by category, and which file types belong to which category.
use crate::client::filename;
use crate::path;
use crate::path::FilePath;
use crate::text;
use crate::text::CharClass;
use crate::ui::category;
use crate::ui::category::Category;
use crate::ui::category_map::CategoryMap;
use crate::ui::default_extensions;
use vstd::prelude::*;

verus! {

/// The name of the file that settings are kept in.
pub const SETTINGS_FILE_NAME: &'static str = "save_settings.json";

/// The user's choices of directories and file types.
#[derive(Debug, Clone, PartialEq, Eq)]
pub struct SaveSettings {
    pub default_dir: FilePath,
    /// Directories that categories use instead of their default subfolders.
    pub category_dirs: CategoryMap<FilePath>,
    /// Extension lists that override the built-in ones.
    pub file_types: CategoryMap<Vec<String>>,
}

/// The default subfolder of a category.
pub open spec fn subfolder_path(default_dir: Seq<char>, category: Category) -> Seq<char> {
    if category == Category::General {
        default_dir
    } else {
        path::joined(default_dir, category::subfolder_name(category))
    }
}

/// The tokens of an extension list, without surrounding dots, in lower case, each once.
pub open spec fn normalized(tokens: Seq<Seq<char>>) -> Seq<Seq<char>>
    decreases tokens.len(),
{
    if tokens.len() == 0 {
        Seq::empty()
    } else {
        with_token(normalized(tokens.drop_last()), tokens.last())
    }
}

/// A token as an extension.
pub open spec fn as_extension(token: Seq<char>) -> Seq<char> {
    text::ascii_lower(text::trim_both(token, CharClass::Only('.')))
}

/// A list with one more token, unless it is empty or there already.
pub open spec fn with_token(list: Seq<Seq<char>>, token: Seq<char>) -> Seq<Seq<char>> {
    let extension = as_extension(token);
    if extension.len() > 0 && !list.contains(extension) {
        list.push(extension)
    } else {
        list
    }
}

/// The extensions that a text lists.
pub open spec fn listed(list: Seq<char>) -> Seq<Seq<char>> {
    normalized(text::split(list, CharClass::ListSeparator))
}

/// Whether a list holds an extension, in any case.
pub open spec fn lists_extension(list: Seq<Seq<char>>, extension: Seq<char>) -> bool {
    exists|i: int|
        0 <= i < list.len() && text::ascii_lower(#[trigger] list[i]) == text::ascii_lower(
            extension,
        )
}

/// The directory that an entered one overrides the default subfolder of a category with, if it
/// is another.
pub open spec fn override_for(entered: Seq<char>, default_dir: Seq<char>, category: Category) -> Option<
    Seq<char>,
> {
    let dir = text::trimmed(entered);
    if dir.len() == 0 || path::same_path(dir, subfolder_path(default_dir, category)) {
        None
    } else {
        Some(dir)
    }
}

impl SaveSettings {
    /// The extensions of a category: the saved ones, or the built-in ones.
    pub open spec fn types_of(self, category: Category) -> Seq<Seq<char>> {
        match self.file_types.at(category) {
            Some(list) => text::string_views(list@),
            None => default_extensions::texts(default_extensions::default_types(category)),
        }
    }

    /// The directory of a category.
    pub open spec fn dir_of(self, category: Category) -> Seq<char> {
        match self.category_dirs.at(category) {
            Some(dir) => dir@,
            None => subfolder_path(self.default_dir@, category),
        }
    }

    /// The first category from number `i` on that lists an extension, else the general one.
    pub open spec fn route_from(self, extension: Seq<char>, i: int) -> Category
        decreases 12 - i,
    {
        if i >= 12 {
            Category::General
        } else if lists_extension(self.types_of(category::with_id(i)), extension) {
            category::with_id(i)
        } else {
            self.route_from(extension, i + 1)
        }
    }

    /// The category of a file name.
    pub open spec fn route(self, name: Seq<char>) -> Category {
        match path::extension_of(name) {
            Some(extension) => if extension.len() > 0 {
                self.route_from(extension, 0)
            } else {
                Category::General
            },
            None => Category::General,
        }
    }

    /// Whether a path is the default directory or the directory of a category.
    pub open spec fn manages(self, dir: Seq<char>) -> bool {
        path::same_path(dir, self.default_dir@) || exists|category: Category|
            category != Category::General && path::same_path(
                dir,
                #[trigger] self.dir_of(category),
            )
    }

    /// Settings with a default directory and nothing changed.
    pub fn new(default_dir: FilePath) -> (r: SaveSettings)
        ensures
            r.default_dir == default_dir,
            forall|category: Category| (#[trigger] r.category_dirs.at(category)) is None,
            forall|category: Category| (#[trigger] r.file_types.at(category)) is None,
    {
        SaveSettings {
            default_dir,
            category_dirs: CategoryMap::new(),
            file_types: CategoryMap::new(),
        }
    }

    /// The folder of a category below the default directory.
    #[must_use]
    pub fn category_subfolder_name(category: Category) -> (r: &'static str)
        ensures
            r@ == category::subfolder_name(category),
    {
        category.subfolder()
    }

    /// The default subfolder of a category.
    #[must_use]
    pub fn default_subfolder(default_dir: &FilePath, category: Category) -> (r: FilePath)
        ensures
            r@ == subfolder_path(default_dir@, category),
    {
        match category {
            Category::General => default_dir.copy(),
            _ => default_dir.join(Self::category_subfolder_name(category)),
        }
    }

    /// Points a category at a directory, or back at its default subfolder. The general category
    /// stays on the default directory.
    pub fn set_category_dir(&mut self, category: Category, dir: Option<FilePath>)
        ensures
            final(self).default_dir == old(self).default_dir,
            final(self).file_types == old(self).file_types,
            forall|other: Category| #[trigger]
                final(self).category_dirs.at(other) == (if other == category && category
                    != Category::General {
                    dir
                } else {
                    old(self).category_dirs.at(other)
                }),
    {
        match category {
            Category::General => {
                return;
            },
            _ => {},
        }
        match dir {
            Some(dir) => {
                self.category_dirs.insert(category, dir);
            },
            None => {
                self.category_dirs.remove(category);
            },
        }
    }

    /// The directory of a category.
    #[must_use]
    pub fn category_path(&self, category: Category) -> (r: FilePath)
        ensures
            r@ == self.dir_of(category),
    {
        match self.category_dirs.get(category) {
            Some(dir) => dir.copy(),
            None => Self::default_subfolder(&self.default_dir, category),
        }
    }

    /// The extensions of a category: the saved ones, or the built-in ones.
    #[must_use]
    pub fn extensions_for(&self, category: Category) -> (r: Vec<String>)
        ensures
            text::string_views(r@) == self.types_of(category),
    {
        match self.file_types.get(category) {
            Some(list) => text::copy_strings(list),
            None => {
                let list = category.extensions();
                let mut r: Vec<String> = Vec::new();
                let mut i: usize = 0;
                while i < list.len()
                    invariant
                        i <= list@.len(),
                        r@.len() == i,
                        forall|j: int| 0 <= j < i ==> (#[trigger] r@[j])@ == list@[j]@,
                    decreases list@.len() - i,
                {
                    r.push(list[i].to_owned());
                    i += 1;
                }
                assert(text::string_views(r@) =~= default_extensions::texts(list@));
                r
            },
        }
    }

    /// Parses an extension list, separated by commas, semicolons or white space, into unique
    /// lower-case extensions without surrounding dots.
    #[must_use]
    pub fn normalize_extensions(list: &str) -> (r: Vec<String>)
        ensures
            text::string_views(r@) == listed(list@),
    {
        let chars = text::chars_of(list);
        let tokens = text::split_chars(chars.as_slice(), CharClass::ListSeparator);
        let mut r: Vec<String> = Vec::new();
        let mut i: usize = 0;
        assert(text::views(tokens@).take(0) =~= Seq::<Seq<char>>::empty());
        assert(text::string_views(r@) =~= normalized(text::views(tokens@).take(0)));
        while i < tokens.len()
            invariant
                i <= tokens@.len(),
                text::string_views(r@) == normalized(text::views(tokens@).take(i as int)),
            decreases tokens@.len() - i,
        {
            let ghost taken = text::views(tokens@).take(i + 1);
            proof {
                assert(taken.drop_last() =~= text::views(tokens@).take(i as int));
                assert(taken.last() == tokens@[i as int]@);
            }
            let lower = text::to_ascii_lower(
                text::trim_chars(tokens[i].as_slice(), CharClass::Only('.')),
            );
            let extension = text::string_of(lower.as_slice());
            let ghost before = text::string_views(r@);
            if lower.len() > 0 && !text::contains_text(&r, extension.as_str()) {
                r.push(extension);
                assert(text::string_views(r@) =~= before.push(extension@));
            }
            i += 1;
        }
        assert(text::views(tokens@).take(tokens@.len() as int) =~= text::views(tokens@));
        r
    }

    /// The override to keep for a category, or nothing where the list is the built-in one.
    #[must_use]
    pub fn file_type_override(category: Category, list: &str) -> (r: Option<Vec<String>>)
        ensures
            r is None <==> listed(list@) == default_extensions::texts(
                default_extensions::default_types(category),
            ),
            r matches Some(extensions) ==> text::string_views(extensions@) == listed(list@),
    {
        let extensions = Self::normalize_extensions(list);
        let defaults = category.extensions();
        let ghost wanted = default_extensions::texts(defaults@);
        assert(wanted.len() == defaults@.len());
        assert(text::string_views(extensions@).len() == extensions@.len());
        if extensions.len() != defaults.len() {
            return Some(extensions);
        }
        let mut i: usize = 0;
        while i < extensions.len()
            invariant
                i <= extensions@.len(),
                extensions@.len() == defaults@.len(),
                wanted == default_extensions::texts(defaults@),
                text::string_views(extensions@) == listed(list@),
                wanted == default_extensions::texts(default_extensions::default_types(category)),
                forall|j: int| 0 <= j < i ==> (#[trigger] extensions@[j])@ == defaults@[j]@,
            decreases extensions@.len() - i,
        {
            if !text::same_text(extensions[i].as_str(), defaults[i]) {
                assert(text::string_views(extensions@)[i as int] != wanted[i as int]);
                return Some(extensions);
            }
            i += 1;
        }
        assert(text::string_views(extensions@) =~= wanted);
        None
    }

    fn has_extension(&self, category: Category, extension: &str) -> (r: bool)
        ensures
            r == lists_extension(self.types_of(category), extension@),
    {
        let list = self.extensions_for(category);
        let chars = text::chars_of(extension);
        let wanted = text::to_ascii_lower(chars.as_slice());
        let ghost texts = text::string_views(list@);
        let mut i: usize = 0;
        while i < list.len()
            invariant
                i <= list@.len(),
                texts == text::string_views(list@),
                texts == self.types_of(category),
                wanted@ == text::ascii_lower(extension@),
                forall|j: int|
                    0 <= j < i ==> text::ascii_lower(#[trigger] texts[j]) != text::ascii_lower(
                        extension@,
                    ),
            decreases list@.len() - i,
        {
            let saved = text::chars_of(list[i].as_str());
            let lower = text::to_ascii_lower(saved.as_slice());
            assert(texts[i as int] == list@[i as int]@);
            if text::same_chars(lower.as_slice(), wanted.as_slice()) {
                return true;
            }
            i += 1;
        }
        assert(texts.len() == list@.len());
        false
    }

    /// The category that a file name belongs to.
    #[must_use]
    pub fn category_for_filename(&self, name: &str) -> (r: Category)
        ensures
            r == self.route(name@),
    {
        let extension = match FilePath::new(name).extension() {
            Some(extension) => extension,
            None => {
                return Category::General;
            },
        };
        if extension.as_str().is_empty() {
            return Category::General;
        }
        let mut i: i32 = 0;
        while i < 12
            invariant
                0 <= i <= 12,
                self.route_from(extension@, i as int) == self.route(name@),
            decreases 12 - i,
        {
            let category = Category::from(i);
            if self.has_extension(category, extension.as_str()) {
                return category;
            }
            i += 1;
        }
        Category::General
    }

    /// The directory for the download of a URL.
    #[must_use]
    pub fn path_for_url(&self, url: &str) -> (r: FilePath)
        ensures
            r@ == self.dir_of(
                self.route(filename::filename_for(filename::url_path(url@), None)),
            ),
            filename::plain_filename_for(filename::url_path(url@), None) matches Some(name) ==> r@
                == self.dir_of(self.route(name)),
    {
        let name = filename::extract_filename(url, None);
        let category = self.category_for_filename(name.as_str());
        self.category_path(category)
    }

    /// Whether a path is the default directory or the directory of a category.
    #[must_use]
    pub fn is_managed_path(&self, dir: &FilePath) -> (r: bool)
        ensures
            r == self.manages(dir@),
    {
        if dir.same(&self.default_dir) {
            return true;
        }
        let mut i: i32 = 1;
        while i < 12
            invariant
                1 <= i <= 12,
                forall|category: Category|
                    1 <= category::id_of(category) < i ==> !path::same_path(
                        dir@,
                        #[trigger] self.dir_of(category),
                    ),
            decreases 12 - i,
        {
            let category = Category::from(i);
            let known = self.category_path(category);
            if dir.same(&known) {
                assert(path::same_path(dir@, self.dir_of(category)));
                return true;
            }
            assert forall|other: Category| 1 <= category::id_of(other) < i + 1 implies
                !path::same_path(dir@, #[trigger] self.dir_of(other)) by {
                if category::id_of(other) == i {
                    category::law_category_numbers_are_unique(other, i as int);
                    assert(other == category);
                }
            }
            i += 1;
        }
        assert forall|category: Category| category != Category::General implies !path::same_path(
            dir@,
            #[trigger] self.dir_of(category),
        ) by {
            assert(1 <= category::id_of(category) < 12);
        }
        false
    }

    /// The directory that a category uses instead of its default subfolder, if the entered one
    /// is another.
    #[must_use]
    pub fn category_override(value: &str, default_dir: &FilePath, category: Category) -> (r: Option<
        FilePath,
    >)
        ensures
            (match r {
                Some(dir) => Some(dir@),
                None => None,
            }) == override_for(value@, default_dir@, category),
    {
        let entered = FilePath { text: text::trim_text(value) };
        if entered.is_empty() {
            return None;
        }
        let default = Self::default_subfolder(default_dir, category);
        if entered.same(&default) {
            None
        } else {
            Some(entered)
        }
    }

    /// Whether no directory of the settings is empty.
    pub open spec fn is_complete(self) -> bool {
        &&& self.default_dir@.len() > 0
        &&& forall|category: Category|
            (#[trigger] self.category_dirs.at(category)) matches Some(dir) ==> dir@.len() > 0
    }

    /// Whether settings are loaded ones made usable. Complete ones stay as they are.
    pub open spec fn restores_to(self, fallback_dir: FilePath, r: SaveSettings) -> bool {
        &&& self.is_complete() ==> r == self
        &&& r.default_dir == (if self.default_dir@.len() == 0 {
            fallback_dir
        } else {
            self.default_dir
        })
        &&& r.file_types == self.file_types
        &&& forall|category: Category| #[trigger]
            r.category_dirs.at(category) == (match self.category_dirs.at(category) {
                Some(dir) => if dir@.len() == 0 {
                    None
                } else {
                    Some(dir)
                },
                None => None,
            })
    }

    /// Loaded settings made usable: an empty default directory is replaced, and empty category
    /// directories are dropped.
    pub fn restored(self, fallback_dir: FilePath) -> (r: SaveSettings)
        ensures
            self.restores_to(fallback_dir, r),
    {
        let mut category_dirs = self.category_dirs;
        let ghost before = category_dirs;
        let mut i: i32 = 0;
        while i < 12
            invariant
                0 <= i <= 12,
                before == self.category_dirs,
                self.is_complete() ==> category_dirs == before,
                forall|category: Category| #[trigger]
                    category_dirs.at(category) == (match before.at(category) {
                        Some(dir) => if dir@.len() == 0 && category::id_of(category) < i {
                            None
                        } else {
                            Some(dir)
                        },
                        None => None,
                    }),
            decreases 12 - i,
        {
            let category = Category::from(i);
            proof {
                category::law_category_numbers_are_unique(category, i as int);
                assert(before.at(category) == category_dirs.at(category));
            }
            let drops = match category_dirs.get(category) {
                Some(dir) => dir.is_empty(),
                None => false,
            };
            let ghost middle = category_dirs;
            if drops {
                category_dirs.remove(category);
            }
            proof {
                assert forall|other: Category| #[trigger]
                    category_dirs.at(other) == (match before.at(other) {
                        Some(dir) => if dir@.len() == 0 && category::id_of(other) < i + 1 {
                            None
                        } else {
                            Some(dir)
                        },
                        None => None,
                    }) by {
                    category::law_category_numbers_are_unique(other, i as int);
                    assert(middle.at(other) == middle.at(other));
                }
            }
            i += 1;
        }
        assert forall|category: Category| #[trigger]
            category_dirs.at(category) == (match before.at(category) {
                Some(dir) => if dir@.len() == 0 {
                    None
                } else {
                    Some(dir)
                },
                None => None,
            }) by {
            assert(0 <= category::id_of(category) < 12);
        }
        let default_dir = if self.default_dir.is_empty() {
            fallback_dir
        } else {
            self.default_dir
        };
        SaveSettings { default_dir, category_dirs, file_types: self.file_types }
    }

    /// Whether `r` is what a settings file gives: nothing where it held no settings, else its
    /// settings made usable.
    pub open spec fn loads_to(
        decoded: Option<SaveSettings>,
        fallback_dir: FilePath,
        r: Option<SaveSettings>,
    ) -> bool {
        match decoded {
            Some(saved) => r matches Some(loaded) && saved.restores_to(fallback_dir, loaded),
            None => r is None,
        }
    }

    /// The settings of a file, from what it decoded to, if anything.
    pub fn load_from(decoded: Option<SaveSettings>, fallback_dir: FilePath) -> (r: Option<
        SaveSettings,
    >)
        ensures
            SaveSettings::loads_to(decoded, fallback_dir, r),
    {
        match decoded {
            Some(saved) => Some(saved.restored(fallback_dir)),
            None => None,
        }
    }

    /// The settings to start with: those of the settings file, from what it decoded to, or fresh
    /// ones where it held none.
    pub fn load(decoded: Option<SaveSettings>, fallback_dir: FilePath) -> (r: SaveSettings)
        ensures
            decoded matches Some(saved) ==> saved.restores_to(fallback_dir, r),
            decoded is None ==> {
                &&& r.default_dir == fallback_dir
                &&& forall|category: Category| (#[trigger] r.category_dirs.at(category)) is None
                &&& forall|category: Category| (#[trigger] r.file_types.at(category)) is None
            },
    {
        match decoded {
            Some(saved) => saved.restored(fallback_dir),
            None => SaveSettings::new(fallback_dir),
        }
    }
}

/// Law: the default subfolder of a category is never an override, however it is written, and any
/// other directory is one.
pub proof fn law_default_subfolder_is_no_override(
    entered: Seq<char>,
    default_dir: Seq<char>,
    category: Category,
)
    ensures
        path::same_path(text::trimmed(entered), subfolder_path(default_dir, category))
            ==> override_for(entered, default_dir, category) is None,
        text::trimmed(entered) == subfolder_path(default_dir, category) ==> override_for(
            entered,
            default_dir,
            category,
        ) is None,
        text::trimmed(entered).len() > 0 && !path::same_path(
            text::trimmed(entered),
            subfolder_path(default_dir, category),
        ) ==> override_for(entered, default_dir, category) == Some(text::trimmed(entered)),
{
}

/// Law: every directory that a URL is routed to is a managed one.
pub proof fn law_routed_directories_are_managed(settings: SaveSettings, name: Seq<char>)
    requires
        settings.category_dirs.at(Category::General) is None,
    ensures
        settings.manages(settings.dir_of(settings.route(name))),
{
    let category = settings.route(name);
    if category != Category::General {
        assert(path::same_path(settings.dir_of(category), settings.dir_of(category)));
    }
}

/// A list of unique, non-empty, lower-case extensions.
pub open spec fn is_normal(list: Seq<Seq<char>>) -> bool {
    &&& forall|i: int|
        0 <= i < list.len() ==> (#[trigger] list[i]).len() > 0 && text::ascii_lower(list[i])
            == list[i]
    &&& forall|i: int, j: int| 0 <= i < j < list.len() ==> list[i] != list[j]
}

/// Law: a parsed list holds unique, non-empty extensions in lower case.
pub proof fn law_listed_extensions_are_normal(tokens: Seq<Seq<char>>)
    ensures
        is_normal(normalized(tokens)),
    decreases tokens.len(),
{
    if tokens.len() > 0 {
        let list = normalized(tokens.drop_last());
        law_listed_extensions_are_normal(tokens.drop_last());
        let extension = as_extension(tokens.last());
        lemma_lower_twice(text::trim_both(tokens.last(), CharClass::Only('.')));
        let new = with_token(list, tokens.last());
        assert forall|i: int, j: int| 0 <= i < j < new.len() implies new[i] != new[j] by {
            if j == list.len() {
                assert(list.contains(list[i]));
            }
        }
    }
}

proof fn lemma_lower_twice(s: Seq<char>)
    ensures
        text::ascii_lower(text::ascii_lower(s)) == text::ascii_lower(s),
{
    let once = text::ascii_lower(s);
    let twice = text::ascii_lower(once);
    assert forall|i: int| 0 <= i < s.len() implies twice[i] == once[i] by {
        let c = s[i];
        if 65 <= c as u32 <= 90 {
            assert(once[i] as u32 == c as u32 + 32);
        }
    }
    assert(twice =~= once);
}

/// Extensions as the options show them.
pub open spec fn shown_list(list: Seq<Seq<char>>) -> Seq<char>
    decreases list.len(),
{
    if list.len() == 0 {
        Seq::empty()
    } else if list.len() == 1 {
        list[0]
    } else {
        shown_list(list.drop_last()) + ", "@ + list.last()
    }
}

/// The text that the options show for a list of extensions.
pub fn join_extensions(list: &Vec<String>) -> (r: String)
    ensures
        r@ == shown_list(text::string_views(list@)),
{
    let ghost texts = text::string_views(list@);
    assert(texts.len() == list@.len());
    if list.len() == 0 {
        return String::new();
    }
    let mut r = list[0].clone();
    let mut i: usize = 1;
    assert(texts.take(1) =~= seq![texts[0]]);
    while i < list.len()
        invariant
            1 <= i <= list@.len(),
            texts == text::string_views(list@),
            r@ == shown_list(texts.take(i as int)),
        decreases list@.len() - i,
    {
        r.append(", ");
        r.append(list[i].as_str());
        proof {
            let taken = texts.take(i + 1);
            assert(taken.drop_last() =~= texts.take(i as int));
            assert(taken.last() == list@[i as int]@);
        }
        i += 1;
    }
    assert(texts.take(texts.len() as int) =~= texts);
    r
}

/// An extension that a list can hold: non-empty, in lower case, without separators, and not
/// surrounded by dots.
pub open spec fn is_listable(extension: Seq<char>) -> bool {
    &&& as_extension(extension) == extension
    &&& extension.len() > 0
    &&& forall|i: int|
        0 <= i < extension.len() ==> !CharClass::ListSeparator.holds(#[trigger] extension[i])
}

proof fn lemma_split_at(s: Seq<char>, c: char, t: Seq<char>, class: CharClass)
    requires
        class.holds(c),
    ensures
        text::split(s.push(c) + t, class) == text::split(s, class) + text::split(t, class),
    decreases s.len(),
{
    let whole = s.push(c) + t;
    text::lemma_first_in(s, class);
    let k = text::first_in(s, class);
    if k < s.len() {
        assert forall|j: int| 0 <= j < k implies !class.holds(whole[j]) by {
            assert(whole[j] == s[j]);
        }
        assert(whole[k] == s[k]);
        text::lemma_first_in_is(whole, class, k);
        assert(whole.take(k) =~= s.take(k));
        assert(whole.skip(k + 1) =~= s.skip(k + 1).push(c) + t);
        lemma_split_at(s.skip(k + 1), c, t, class);
        assert(seq![s.take(k)] + (text::split(s.skip(k + 1), class) + text::split(t, class)) =~= (
        seq![s.take(k)] + text::split(s.skip(k + 1), class)) + text::split(t, class));
    } else {
        assert forall|j: int| 0 <= j < s.len() implies !class.holds(whole[j]) by {
            assert(whole[j] == s[j]);
        }
        assert(whole[s.len() as int] == c);
        text::lemma_first_in_is(whole, class, s.len() as int);
        assert(whole.take(s.len() as int) =~= s);
        assert(whole.skip(s.len() as int + 1) =~= t);
    }
}

proof fn lemma_split_whole(s: Seq<char>, class: CharClass)
    requires
        forall|i: int| 0 <= i < s.len() ==> !class.holds(#[trigger] s[i]),
    ensures
        text::split(s, class) == seq![s],
{
    text::lemma_first_in_is(s, class, s.len() as int);
}

/// Law: the extensions that the options show are parsed back as they were, so that confirming
/// the options without an edit changes nothing.
pub proof fn law_shown_extensions_parse_back(list: Seq<Seq<char>>)
    requires
        forall|i: int| 0 <= i < list.len() ==> is_listable(#[trigger] list[i]),
        forall|i: int, j: int| 0 <= i < j < list.len() ==> list[i] != list[j],
    ensures
        listed(shown_list(list)) == list,
    decreases list.len(),
{
    let class = CharClass::ListSeparator;
    reveal_strlit(", ");
    if list.len() == 0 {
        let none = Seq::<char>::empty();
        lemma_split_whole(none, class);
        let tokens = text::split(none, class);
        assert(tokens.drop_last() =~= Seq::<Seq<char>>::empty());
        assert(tokens.last() == none);
        assert(as_extension(none) =~= none);
        assert(normalized(tokens.drop_last()) =~= Seq::<Seq<char>>::empty());
        assert(normalized(tokens) =~= list);
    } else if list.len() == 1 {
        assert(is_listable(list[0]));
        lemma_split_whole(list[0], class);
        let tokens = text::split(list[0], class);
        assert(tokens.drop_last() =~= Seq::<Seq<char>>::empty());
        assert(normalized(tokens.drop_last()) =~= Seq::<Seq<char>>::empty());
        assert(normalized(tokens) =~= list);
    } else {
        let rest = list.drop_last();
        let last = list.last();
        assert(forall|i: int| 0 <= i < rest.len() ==> (#[trigger] rest[i]) == list[i]);
        law_shown_extensions_parse_back(rest);
        assert(is_listable(list[list.len() - 1]));
        let head = shown_list(rest);
        let none = Seq::<char>::empty();
        let tail = none.push(' ') + last;
        assert(shown_list(list) =~= head.push(',') + tail);
        lemma_split_at(head, ',', tail, class);
        lemma_split_at(none, ' ', last, class);
        lemma_split_whole(none, class);
        lemma_split_whole(last, class);
        let earlier = text::split(head, class);
        let tokens = text::split(shown_list(list), class);
        assert(tokens =~= earlier.push(none).push(last));
        assert(tokens.drop_last() =~= earlier.push(none));
        assert(tokens.drop_last().drop_last() =~= earlier);
        assert(as_extension(none) =~= none);
        assert(normalized(earlier) == rest);
        assert(normalized(earlier.push(none)) == rest);
        assert(!rest.contains(last)) by {
            if rest.contains(last) {
                let i = choose|i: int| 0 <= i < rest.len() && rest[i] == last;
                assert(list[i] == list[list.len() - 1]);
            }
        }
        assert(rest.push(last) =~= list);
    }
}

proof fn lemma_lower_char(c: char)
    ensures
        text::lower_char(c) == '.' <==> c == '.',
        CharClass::ListSeparator.holds(text::lower_char(c)) <==> CharClass::ListSeparator.holds(c),
{
    if 65 <= c as u32 <= 90 {
        assert(text::lower_char(c) as u32 == c as u32 + 32);
    }
}

/// Any token without separators gives an extension that a list can hold, or none.
proof fn lemma_tokens_are_listable(token: Seq<char>)
    requires
        forall|i: int| 0 <= i < token.len() ==> !CharClass::ListSeparator.holds(#[trigger] token[i]),
        as_extension(token).len() > 0,
    ensures
        is_listable(as_extension(token)),
{
    let dot = CharClass::Only('.');
    let inner = text::trim_both(token, dot);
    let extension = as_extension(token);
    text::lemma_trim_ends(token, dot);
    text::lemma_trim_part(token, dot);
    let (lo, hi) = choose|lo: int, hi: int|
        0 <= lo <= hi <= token.len() && inner == #[trigger] token.subrange(lo, hi);
    assert forall|i: int| 0 <= i < extension.len() implies !CharClass::ListSeparator.holds(
        #[trigger] extension[i],
    ) by {
        assert(inner[i] == token[lo + i]);
        lemma_lower_char(inner[i]);
    }
    lemma_lower_char(inner[0]);
    lemma_lower_char(inner.last());
    assert(extension[0] == text::lower_char(inner[0]));
    assert(extension.last() == text::lower_char(inner.last()));
    assert(text::trim_both(extension, dot) == extension);
    lemma_lower_twice(inner);
}

proof fn lemma_parsed_are_listable(tokens: Seq<Seq<char>>)
    requires
        forall|i: int, j: int|
            0 <= i < tokens.len() && 0 <= j < tokens[i].len() ==> !CharClass::ListSeparator.holds(
                #[trigger] tokens[i][j],
            ),
    ensures
        forall|i: int|
            0 <= i < normalized(tokens).len() ==> is_listable(#[trigger] normalized(tokens)[i]),
    decreases tokens.len(),
{
    if tokens.len() > 0 {
        let rest = tokens.drop_last();
        assert forall|i: int, j: int|
            0 <= i < rest.len() && 0 <= j < rest[i].len() implies !CharClass::ListSeparator.holds(
            #[trigger] rest[i][j],
        ) by {
            assert(rest[i] == tokens[i]);
            assert(!CharClass::ListSeparator.holds(tokens[i][j]));
        }
        lemma_parsed_are_listable(rest);
        let token = tokens.last();
        if as_extension(token).len() > 0 {
            assert forall|i: int| 0 <= i < token.len() implies !CharClass::ListSeparator.holds(
                #[trigger] token[i],
            ) by {
                assert(!CharClass::ListSeparator.holds(tokens[tokens.len() - 1][i]));
            }
            lemma_tokens_are_listable(token);
        }
        let list = normalized(rest);
        let new = normalized(tokens);
        assert(new == with_token(list, token));
        assert forall|i: int| 0 <= i < new.len() implies is_listable(#[trigger] new[i]) by {
            if i < list.len() {
                assert(new[i] == list[i]);
            }
        }
    }
}

/// Law: whatever text a list of extensions is parsed from, showing the list and parsing it again
/// gives the same list.
pub proof fn law_parsed_extensions_are_kept(entered: Seq<char>)
    ensures
        listed(shown_list(listed(entered))) == listed(entered),
{
    let class = CharClass::ListSeparator;
    let tokens = text::split(entered, class);
    assert forall|i: int, j: int|
        0 <= i < tokens.len() && 0 <= j < tokens[i].len() implies !class.holds(
        #[trigger] tokens[i][j],
    ) by {
        text::lemma_pieces_hold_no_separator(entered, class, i, j);
    }
    lemma_parsed_are_listable(tokens);
    law_listed_extensions_are_normal(tokens);
    law_shown_extensions_parse_back(listed(entered));
}

/// Law: settings without an empty directory are loaded as they were saved, whatever the fallback
/// directory is.
pub proof fn law_complete_settings_are_kept(
    saved: SaveSettings,
    fallback_dir: FilePath,
    loaded: Option<SaveSettings>,
)
    requires
        saved.is_complete(),
        SaveSettings::loads_to(Some(saved), fallback_dir, loaded),
    ensures
        loaded == Some(saved),
{
}

/// Law: loaded settings have no empty directory, so that saving them and loading them again changes
/// nothing.
pub proof fn law_loaded_settings_are_stable(
    decoded: SaveSettings,
    fallback_dir: FilePath,
    loaded: SaveSettings,
    again: Option<SaveSettings>,
)
    requires
        fallback_dir@.len() > 0,
        SaveSettings::loads_to(Some(decoded), fallback_dir, Some(loaded)),
        SaveSettings::loads_to(Some(loaded), fallback_dir, again),
    ensures
        loaded.is_complete(),
        again == Some(loaded),
{
}

/// Law: a file goes to the first category that lists its extension, in any case, and to the general
/// one only where none does.
pub proof fn law_files_go_to_a_category_that_lists_them(
    settings: SaveSettings,
    name: Seq<char>,
    extension: Seq<char>,
    category: Category,
)
    requires
        path::extension_of(name) == Some(extension),
        extension.len() > 0,
    ensures
        settings.route(name) != Category::General ==> lists_extension(
            settings.types_of(settings.route(name)),
            extension,
        ),
        lists_extension(settings.types_of(category), extension) ==> category::id_of(
            settings.route(name),
        ) <= category::id_of(category) && lists_extension(
            settings.types_of(settings.route(name)),
            extension,
        ),
{
    lemma_route_from(settings, extension, 0, category);
}

proof fn lemma_route_from(settings: SaveSettings, extension: Seq<char>, i: int, category: Category)
    requires
        0 <= i <= 12,
    ensures
        ({
            let found = settings.route_from(extension, i);
            &&& found != Category::General ==> lists_extension(settings.types_of(found), extension)
                && category::id_of(found) >= i
            &&& lists_extension(settings.types_of(category), extension) && category::id_of(category)
                >= i ==> category::id_of(found) <= category::id_of(category) && lists_extension(
                settings.types_of(found),
                extension,
            )
        }),
    decreases 12 - i,
{
    category::law_category_numbers_are_unique(category, i);
    if i < 12 {
        category::law_category_numbers_are_unique(category::with_id(i), i);
        if !lists_extension(settings.types_of(category::with_id(i)), extension) {
            lemma_route_from(settings, extension, i + 1, category);
            let found = settings.route_from(extension, i + 1);
            category::law_category_numbers_are_unique(found, i);
        }
    }
}

/// Law: a file without an extension goes to the general category, and the case of an extension makes
/// no difference.
pub proof fn law_routing_ignores_the_case(
    settings: SaveSettings,
    list: Seq<Seq<char>>,
    name: Seq<char>,
    a: Seq<char>,
    b: Seq<char>,
)
    requires
        text::ascii_lower(a) == text::ascii_lower(b),
    ensures
        lists_extension(list, a) <==> lists_extension(list, b),
        list.contains(a) ==> lists_extension(list, b),
        path::extension_of(name) is None ==> settings.route(name) == Category::General,
{
    if lists_extension(list, a) {
        let i = choose|i: int|
            0 <= i < list.len() && text::ascii_lower(#[trigger] list[i]) == text::ascii_lower(a);
        assert(text::ascii_lower(list[i]) == text::ascii_lower(b));
    }
    if lists_extension(list, b) {
        let i = choose|i: int|
            0 <= i < list.len() && text::ascii_lower(#[trigger] list[i]) == text::ascii_lower(b);
        assert(text::ascii_lower(list[i]) == text::ascii_lower(a));
    }
    if list.contains(a) {
        let i = choose|i: int| 0 <= i < list.len() && list[i] == a;
        assert(text::ascii_lower(list[i]) == text::ascii_lower(b));
    }
}

/// Law: a category uses the directory that was chosen for it, and without one its own folder below
/// the default directory; the general category uses the default directory itself.
pub proof fn law_chosen_directories_are_used(settings: SaveSettings, category: Category)
    ensures
        settings.category_dirs.at(category) matches Some(dir) ==> settings.dir_of(category) == dir@,
        settings.category_dirs.at(category) is None && category == Category::General
            ==> settings.dir_of(category) == settings.default_dir@,
        settings.category_dirs.at(category) is None && category != Category::General
            ==> settings.dir_of(category) == path::joined(
            settings.default_dir@,
            category::subfolder_name(category),
        ),
        settings.file_types.at(category) matches Some(list) ==> settings.types_of(category)
            == text::string_views(list@),
        settings.manages(settings.default_dir@),
        category != Category::General ==> settings.manages(settings.dir_of(category)),
{
    if category != Category::General {
        assert(path::same_path(settings.dir_of(category), settings.dir_of(category)));
    }
}

/// Law: a directory that is neither the default one nor that of a category is not managed.
pub proof fn law_other_directories_are_not_managed(settings: SaveSettings, dir: Seq<char>)
    requires
        !path::same_path(dir, settings.default_dir@),
        forall|category: Category| !path::same_path(dir, #[trigger] settings.dir_of(category)),
    ensures
        !settings.manages(dir),
{
}

} // verus!
