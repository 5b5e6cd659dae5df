//! The directories and file types that the options dialog edits.
use crate::path;
use crate::path::FilePath;
use crate::text;
use crate::ui::category;
use crate::ui::category::Category;
use crate::ui::default_extensions;
use crate::ui::save_settings;
use crate::ui::save_settings::{join_extensions, SaveSettings};
use vstd::prelude::*;

verus! {

/// What the options dialog shows, one text for each category.
#[derive(Debug, Clone, PartialEq, Eq)]
pub struct OptionsForm {
    pub dirs: Vec<String>,
    pub file_types: Vec<String>,
}

/// The text of a category, or nothing where the list is too short.
pub open spec fn text_at(list: Seq<Seq<char>>, category: Category) -> Seq<char> {
    if category::id_of(category) < list.len() {
        list[category::id_of(category)]
    } else {
        Seq::empty()
    }
}

/// The list with another text for a category, where it has one.
pub open spec fn with_text(list: Seq<Seq<char>>, category: Category, value: Seq<char>) -> Seq<
    Seq<char>,
> {
    if category::id_of(category) < list.len() {
        list.update(category::id_of(category), value)
    } else {
        list
    }
}

/// The directory of a category after the default directory changed: a category on its default
/// subfolder, or on none, follows.
pub open spec fn followed(
    current: Seq<char>,
    category: Category,
    old_default: Seq<char>,
    new_default: Seq<char>,
) -> Seq<char> {
    if current.len() == 0 || path::same_path(
        current,
        save_settings::subfolder_path(old_default, category),
    ) {
        save_settings::subfolder_path(new_default, category)
    } else {
        current
    }
}

/// The directories after the default directory changed.
pub open spec fn cascaded(
    dirs: Seq<Seq<char>>,
    old_default: Seq<char>,
    new_default: Seq<char>,
) -> Seq<Seq<char>> {
    Seq::new(
        dirs.len(),
        |i: int|
            if 1 <= i < 12 {
                followed(dirs[i], category::with_id(i), old_default, new_default)
            } else {
                dirs[i]
            },
    )
}

/// The directories that the dialog opens with.
pub open spec fn opened_dirs(dirs: Seq<Seq<char>>, settings: SaveSettings) -> Seq<Seq<char>> {
    Seq::new(
        dirs.len(),
        |i: int|
            if i < 12 {
                settings.dir_of(category::with_id(i))
            } else {
                dirs[i]
            },
    )
}

/// The file types that the dialog opens with.
pub open spec fn opened_types(types: Seq<Seq<char>>, settings: SaveSettings) -> Seq<Seq<char>> {
    Seq::new(
        types.len(),
        |i: int|
            if 1 <= i < 12 {
                save_settings::shown_list(settings.types_of(category::with_id(i)))
            } else {
                types[i]
            },
    )
}

/// The text of a category, or nothing where the list is too short.
pub fn category_text(list: &Vec<String>, category: Category) -> (r: String)
    ensures
        r@ == text_at(text::string_views(list@), category),
{
    let i: usize = category.category_id() as usize;
    assert(text::string_views(list@).len() == list@.len());
    if i < list.len() {
        assert(text::string_views(list@)[i as int] == list@[i as int]@);
        list[i].clone()
    } else {
        let r = String::new();
        assert(r@ =~= Seq::<char>::empty());
        r
    }
}

/// Replaces the text of a category, where the list has one.
pub fn set_category_text(list: &mut Vec<String>, category: Category, value: String)
    ensures
        text::string_views(final(list)@) == with_text(
            text::string_views(old(list)@),
            category,
            value@,
        ),
{
    let ghost before = text::string_views(list@);
    let i: usize = category.category_id() as usize;
    if i < list.len() {
        list.set(i, value);
        assert(text::string_views(list@) =~= before.update(i as int, value@));
    }
}

/// Lets the categories on their default subfolders follow a new default directory.
pub fn update_category_defaults(
    dirs: &mut Vec<String>,
    old_default: &FilePath,
    new_default: &FilePath,
)
    ensures
        text::string_views(final(dirs)@) == cascaded(
            text::string_views(old(dirs)@),
            old_default@,
            new_default@,
        ),
{
    let ghost before = text::string_views(dirs@);
    let mut i: i32 = 1;
    while i < 12
        invariant
            1 <= i <= 12,
            text::string_views(dirs@).len() == before.len(),
            forall|j: int|
                0 <= j < before.len() ==> #[trigger] text::string_views(dirs@)[j] == (if 1 <= j
                    < i {
                    followed(before[j], category::with_id(j), old_default@, new_default@)
                } else {
                    before[j]
                }),
        decreases 12 - i,
    {
        let category = Category::from(i);
        proof {
            category::law_category_numbers_are_unique(category, i as int);
        }
        let current = category_text(dirs, category);
        let entered = FilePath { text: current.clone() };
        let old_sub = SaveSettings::default_subfolder(old_default, category);
        let next = if current.as_str().is_empty() || entered.same(&old_sub) {
            SaveSettings::default_subfolder(new_default, category).text
        } else {
            current
        };
        set_category_text(dirs, category, next);
        i += 1;
    }
    assert(text::string_views(dirs@) =~= cascaded(before, old_default@, new_default@));
}

impl OptionsForm {
    pub open spec fn dir_texts(self) -> Seq<Seq<char>> {
        text::string_views(self.dirs@)
    }

    pub open spec fn type_texts(self) -> Seq<Seq<char>> {
        text::string_views(self.file_types@)
    }

    /// The text of the directory of a category.
    pub open spec fn dir_text(self, category: Category) -> Seq<char> {
        text_at(self.dir_texts(), category)
    }

    /// The directories after a folder was picked for a category.
    pub open spec fn picked_dirs(self, category: Category, folder: Seq<char>) -> Seq<Seq<char>> {
        let changed = with_text(self.dir_texts(), category, folder);
        if category == Category::General {
            cascaded(changed, self.dir_text(Category::General), folder)
        } else {
            changed
        }
    }

    /// The directories after a category was put back on its default.
    pub open spec fn reset_dirs(self, category: Category, fallback: Seq<char>) -> Seq<Seq<char>> {
        if category == Category::General {
            cascaded(
                with_text(self.dir_texts(), category, fallback),
                self.dir_text(Category::General),
                fallback,
            )
        } else {
            with_text(
                self.dir_texts(),
                category,
                save_settings::subfolder_path(self.dir_text(Category::General), category),
            )
        }
    }

    /// Shows the settings when the dialog opens.
    pub fn open(&mut self, settings: &SaveSettings)
        ensures
            final(self).dir_texts() == opened_dirs(old(self).dir_texts(), *settings),
            final(self).type_texts() == opened_types(old(self).type_texts(), *settings),
    {
        let ghost dirs = self.dir_texts();
        let ghost types = self.type_texts();
        let mut i: i32 = 0;
        while i < 12
            invariant
                0 <= i <= 12,
                self.dir_texts().len() == dirs.len(),
                self.type_texts().len() == types.len(),
                forall|j: int|
                    0 <= j < dirs.len() ==> #[trigger] self.dir_texts()[j] == (if j < i {
                        settings.dir_of(category::with_id(j))
                    } else {
                        dirs[j]
                    }),
                forall|j: int|
                    0 <= j < types.len() ==> #[trigger] self.type_texts()[j] == (if 1 <= j < i {
                        save_settings::shown_list(settings.types_of(category::with_id(j)))
                    } else {
                        types[j]
                    }),
            decreases 12 - i,
        {
            let category = Category::from(i);
            proof {
                category::law_category_numbers_are_unique(category, i as int);
            }
            set_category_text(&mut self.dirs, category, settings.category_path(category).text);
            if i > 0 {
                let types = settings.extensions_for(category);
                set_category_text(&mut self.file_types, category, join_extensions(&types));
            }
            i += 1;
        }
        assert(self.dir_texts() =~= opened_dirs(dirs, *settings));
        assert(self.type_texts() =~= opened_types(types, *settings));
    }

    /// Follows an edit of the default directory, unless it was emptied.
    pub fn default_dir_edited(&mut self, old_default: &str, new_default: &str)
        ensures
            final(self).file_types == old(self).file_types,
            final(self).dir_texts() == (if text::trimmed(new_default@).len() == 0 {
                old(self).dir_texts()
            } else {
                cascaded(
                    old(self).dir_texts(),
                    text::trimmed(old_default@),
                    text::trimmed(new_default@),
                )
            }),
    {
        let new_path = FilePath { text: text::trim_text(new_default) };
        if !new_path.is_empty() {
            let old_path = FilePath { text: text::trim_text(old_default) };
            update_category_defaults(&mut self.dirs, &old_path, &new_path);
        }
    }

    /// Where the folder dialog of a category starts: in its directory or else the default one,
    /// if it exists, or in the fallback.
    pub fn browse_start(
        &self,
        category: Category,
        current_exists: bool,
        default_exists: bool,
        fallback: &FilePath,
    ) -> (r: FilePath)
        ensures
            r@ == (if self.dir_text(category).len() > 0 && current_exists {
                self.dir_text(category)
            } else if self.dir_text(Category::General).len() > 0 && default_exists {
                self.dir_text(Category::General)
            } else {
                fallback@
            }),
    {
        let current = category_text(&self.dirs, category);
        if !current.as_str().is_empty() && current_exists {
            return FilePath { text: current };
        }
        let default = category_text(&self.dirs, Category::General);
        if !default.as_str().is_empty() && default_exists {
            FilePath { text: default }
        } else {
            fallback.copy()
        }
    }

    /// Takes a picked folder for a category; a new default directory takes along the categories
    /// on their default subfolders.
    pub fn folder_picked(&mut self, category: Category, folder: &FilePath)
        ensures
            final(self).file_types == old(self).file_types,
            final(self).dir_texts() == old(self).picked_dirs(category, folder@),
    {
        let old_default = FilePath { text: category_text(&self.dirs, Category::General) };
        set_category_text(&mut self.dirs, category, folder.text.clone());
        match category {
            Category::General => {
                update_category_defaults(&mut self.dirs, &old_default, folder);
            },
            _ => {},
        }
    }

    /// Puts a category back on its default: its subfolder, or the fallback for the default
    /// directory.
    pub fn reset_category(&mut self, category: Category, fallback: &FilePath)
        ensures
            final(self).file_types == old(self).file_types,
            final(self).dir_texts() == old(self).reset_dirs(category, fallback@),
    {
        match category {
            Category::General => {
                self.folder_picked(category, fallback);
            },
            _ => {
                let default_dir = FilePath { text: category_text(&self.dirs, Category::General) };
                let subfolder = SaveSettings::default_subfolder(&default_dir, category);
                set_category_text(&mut self.dirs, category, subfolder.text);
            },
        }
    }

    /// The default directory that the dialog confirms.
    pub open spec fn confirmed_default(self, fallback: Seq<char>) -> Seq<char> {
        let entered = text::trimmed(self.dir_text(Category::General));
        if entered.len() == 0 {
            fallback
        } else {
            entered
        }
    }

    /// The directory that the dialog confirms for a category.
    pub open spec fn confirmed_dir(self, category: Category, fallback: Seq<char>) -> Seq<char> {
        let default = save_settings::subfolder_path(self.confirmed_default(fallback), category);
        let entered = text::trimmed(self.dir_text(category));
        if entered.len() == 0 || path::same_path(entered, default) {
            default
        } else {
            entered
        }
    }

    /// Whether settings are those that the dialog confirms.
    pub open spec fn confirms(self, fallback: Seq<char>, settings: SaveSettings) -> bool {
        &&& settings.default_dir@ == self.confirmed_default(fallback)
        &&& settings.category_dirs.at(Category::General) is None
        &&& settings.file_types.at(Category::General) is None
        &&& forall|category: Category|
            category != Category::General ==> self.confirms_category(settings, category)
    }

    /// Whether settings hold what the dialog confirms for a category: overrides where the entries
    /// differ from the defaults.
    pub open spec fn confirms_category(self, settings: SaveSettings, category: Category) -> bool {
        let entered = text::trimmed(self.dir_text(category));
        let listed = save_settings::listed(text_at(self.type_texts(), category));
        let default = default_extensions::texts(default_extensions::default_types(category));
        &&& match settings.category_dirs.at(category) {
            Some(dir) => dir@ == entered && entered.len() > 0 && !path::same_path(
                entered,
                save_settings::subfolder_path(settings.default_dir@, category),
            ),
            None => entered.len() == 0 || path::same_path(
                entered,
                save_settings::subfolder_path(settings.default_dir@, category),
            ),
        }
        &&& match settings.file_types.at(category) {
            Some(list) => text::string_views(list@) == listed && listed != default,
            None => listed == default,
        }
    }

    /// The settings that the dialog confirms, with a fallback for an empty default directory.
    pub fn committed(&self, fallback: &FilePath) -> (r: SaveSettings)
        ensures
            self.confirms(fallback@, r),
    {
        let entered = FilePath {
            text: text::trim_text(category_text(&self.dirs, Category::General).as_str()),
        };
        let default_dir = if entered.is_empty() {
            fallback.copy()
        } else {
            entered
        };
        let mut settings = SaveSettings::new(default_dir);
        let mut i: i32 = 1;
        while i < 12
            invariant
                1 <= i <= 12,
                settings.default_dir@ == self.confirmed_default(fallback@),
                forall|category: Category|
                    category == Category::General || category::id_of(category) >= i ==> (
                    #[trigger] settings.category_dirs.at(category)) is None,
                forall|category: Category|
                    category == Category::General || category::id_of(category) >= i ==> (
                    #[trigger] settings.file_types.at(category)) is None,
                forall|category: Category|
                    1 <= category::id_of(category) < i ==> #[trigger] self.confirms_category(
                        settings,
                        category,
                    ),
            decreases 12 - i,
        {
            let category = Category::from(i);
            proof {
                category::law_category_numbers_are_unique(category, i as int);
                assert(settings.file_types.at(category) is None);
            }
            let ghost before = settings;
            let dir_entry = category_text(&self.dirs, category);
            let dir = SaveSettings::category_override(
                dir_entry.as_str(),
                &settings.default_dir,
                category,
            );
            settings.set_category_dir(category, dir);
            let type_entry = category_text(&self.file_types, category);
            match SaveSettings::file_type_override(category, type_entry.as_str()) {
                Some(extensions) => {
                    settings.file_types.insert(category, extensions);
                },
                None => {},
            }
            proof {
                assert(self.confirms_category(settings, category));
                assert forall|other: Category|
                    1 <= category::id_of(other) < i + 1 implies #[trigger] self.confirms_category(
                    settings,
                    other,
                ) by {
                    if other != category {
                        category::law_category_numbers_are_unique(other, i as int);
                        assert(self.confirms_category(before, other));
                        assert(settings.category_dirs.at(other) == before.category_dirs.at(other));
                        assert(settings.file_types.at(other) == before.file_types.at(other));
                    }
                }
                assert forall|other: Category|
                    other == Category::General || category::id_of(other) >= i + 1 implies (
                #[trigger] settings.category_dirs.at(other)) is None by {
                    assert(before.category_dirs.at(other) is None);
                }
                assert forall|other: Category|
                    other == Category::General || category::id_of(other) >= i + 1 implies (
                #[trigger] settings.file_types.at(other)) is None by {
                    assert(before.file_types.at(other) is None);
                }
            }
            i += 1;
        }
        assert forall|category: Category| category != Category::General implies
            self.confirms_category(settings, category) by {
            assert(1 <= category::id_of(category) < 12);
        }
        settings
    }
}

/// Law: confirmed settings send every category to the directory that the dialog confirmed for it.
pub proof fn law_confirmed_directories_are_used(
    form: OptionsForm,
    fallback: Seq<char>,
    settings: SaveSettings,
    category: Category,
)
    requires
        form.confirms(fallback, settings),
    ensures
        category == Category::General ==> settings.dir_of(category) == form.confirmed_default(
            fallback,
        ),
        category != Category::General ==> settings.dir_of(category) == form.confirmed_dir(
            category,
            fallback,
        ),
{
    if category != Category::General {
        assert(form.confirms_category(settings, category));
    }
}

/// Law: confirmed settings route by the file types that were entered.
pub proof fn law_confirmed_types_are_used(
    form: OptionsForm,
    fallback: Seq<char>,
    settings: SaveSettings,
    category: Category,
)
    requires
        form.confirms(fallback, settings),
        category != Category::General,
    ensures
        settings.types_of(category) == save_settings::listed(text_at(form.type_texts(), category)),
{
    assert(form.confirms_category(settings, category));
}

/// Law: opening the options and confirming them without an edit keeps the directory of every
/// category, up to the way that the path is written, and its file types.
pub proof fn law_unedited_options_keep_the_settings(
    settings: SaveSettings,
    blank: OptionsForm,
    form: OptionsForm,
    fallback: Seq<char>,
    confirmed: SaveSettings,
    category: Category,
)
    requires
        blank.dirs@.len() >= 12,
        blank.file_types@.len() >= 12,
        form.dir_texts() == opened_dirs(blank.dir_texts(), settings),
        form.type_texts() == opened_types(blank.type_texts(), settings),
        form.confirms(fallback, confirmed),
        category != Category::General,
        settings.category_dirs.at(Category::General) is None,
        settings.default_dir@.len() > 0,
        text::trimmed(settings.default_dir@) == settings.default_dir@,
        settings.dir_of(category).len() > 0,
        text::trimmed(settings.dir_of(category)) == settings.dir_of(category),
        forall|i: int|
            0 <= i < settings.types_of(category).len() ==> save_settings::is_listable(
                #[trigger] settings.types_of(category)[i],
            ),
        forall|i: int, j: int|
            0 <= i < j < settings.types_of(category).len() ==> settings.types_of(category)[i]
                != settings.types_of(category)[j],
    ensures
        confirmed.default_dir@ == settings.default_dir@,
        path::same_path(confirmed.dir_of(category), settings.dir_of(category)),
        confirmed.types_of(category) == settings.types_of(category),
{
    assert(form.confirms_category(confirmed, category));
    assert(form.dir_texts().len() == blank.dirs@.len());
    assert(form.type_texts().len() == blank.file_types@.len());
    let i = category::id_of(category);
    assert(1 <= i < 12 && category::with_id(i) == category);
    assert(form.dir_texts()[0] == settings.dir_of(category::with_id(0)));
    assert(form.dir_texts()[i] == settings.dir_of(category));
    assert(form.type_texts()[i] == save_settings::shown_list(settings.types_of(category)));
    assert(form.dir_text(Category::General) == settings.default_dir@);
    save_settings::law_shown_extensions_parse_back(settings.types_of(category));
    law_confirmed_directories_are_used(form, fallback, confirmed, category);
    law_confirmed_types_are_used(form, fallback, confirmed, category);
}

/// Law: a new default directory takes along exactly the categories that are on their folder below
/// the old one, or on none; a directory that was chosen stays, and the texts of the general category
/// and beyond the last one are not touched.
pub proof fn law_chosen_directories_stay_where_they_are(
    dirs: Seq<Seq<char>>,
    old_default: Seq<char>,
    new_default: Seq<char>,
    i: int,
)
    requires
        0 <= i < dirs.len(),
    ensures
        cascaded(dirs, old_default, new_default).len() == dirs.len(),
        i == 0 || i >= 12 ==> cascaded(dirs, old_default, new_default)[i] == dirs[i],
        1 <= i < 12 && dirs[i].len() > 0 && !path::same_path(
            dirs[i],
            save_settings::subfolder_path(old_default, category::with_id(i)),
        ) ==> cascaded(dirs, old_default, new_default)[i] == dirs[i],
        1 <= i < 12 && (dirs[i].len() == 0 || path::same_path(
            dirs[i],
            save_settings::subfolder_path(old_default, category::with_id(i)),
        )) ==> cascaded(dirs, old_default, new_default)[i] == save_settings::subfolder_path(
            new_default,
            category::with_id(i),
        ),
{
}

/// Law: the options open with the directory and the file types that each category has.
pub proof fn law_options_open_with_the_settings(
    blank: OptionsForm,
    settings: SaveSettings,
    category: Category,
)
    requires
        blank.dirs@.len() >= 12,
        blank.file_types@.len() >= 12,
    ensures
        text_at(opened_dirs(blank.dir_texts(), settings), category) == settings.dir_of(category),
        category != Category::General ==> text_at(
            opened_types(blank.type_texts(), settings),
            category,
        ) == save_settings::shown_list(settings.types_of(category)),
{
    category::law_category_numbers_are_unique(category, 0);
}

/// Law: confirmed settings have a default directory: the one entered, or the fallback where none
/// was.
pub proof fn law_confirmed_defaults_are_what_was_entered(
    form: OptionsForm,
    fallback: Seq<char>,
    settings: SaveSettings,
)
    requires
        form.confirms(fallback, settings),
    ensures
        text::trimmed(form.dir_text(Category::General)).len() > 0 ==> settings.default_dir@
            == text::trimmed(form.dir_text(Category::General)),
        text::trimmed(form.dir_text(Category::General)).len() == 0 ==> settings.default_dir@
            == fallback,
{
}

/// Law: a picked folder is the directory of its category, and a category that is put back is on its
/// folder below the default directory, or on the fallback; no other category that has a directory
/// of its own changes.
pub proof fn law_picked_folders_are_shown(
    form: OptionsForm,
    category: Category,
    other: Category,
    folder: Seq<char>,
)
    requires
        form.dirs@.len() >= 12,
        other != category,
    ensures
        text_at(form.picked_dirs(category, folder), category) == folder,
        text_at(form.reset_dirs(category, folder), category) == (if category == Category::General {
            folder
        } else {
            save_settings::subfolder_path(form.dir_text(Category::General), category)
        }),
        category != Category::General ==> text_at(form.picked_dirs(category, folder), other)
            == form.dir_text(other) && text_at(form.reset_dirs(category, folder), other)
            == form.dir_text(other),
        category == Category::General && form.dir_text(other).len() > 0 && !path::same_path(
            form.dir_text(other),
            save_settings::subfolder_path(form.dir_text(Category::General), other),
        ) ==> text_at(form.picked_dirs(category, folder), other) == form.dir_text(other),
        category == Category::General && path::same_path(
            form.dir_text(other),
            save_settings::subfolder_path(form.dir_text(Category::General), other),
        ) ==> text_at(form.picked_dirs(category, folder), other) == save_settings::subfolder_path(
            folder,
            other,
        ),
{
    category::law_category_numbers_are_unique(category, 0);
    category::law_category_numbers_are_unique(other, 0);
    if category::id_of(other) == category::id_of(category) {
        assert(category::with_id(category::id_of(other)) == other);
    }
}

} // verus!
