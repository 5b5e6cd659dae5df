//! The file that a download is written to.
use crate::path;
use crate::path::FilePath;
use crate::storage::{IoFault, IoKind, StorageError};
use crate::text;
use vstd::prelude::*;

verus! {

/// Upper bound on automatic renames before giving up.
pub const MAX_AUTO_RENAME_ATTEMPTS: u32 = 10_000;

/// How the engine picks the target file of a download.
#[derive(Debug, Clone, Copy, PartialEq, Eq, Structural)]
pub enum TargetMode {
    /// Ask the user before touching a file that already exists.
    Ask,
    /// Append a numeric suffix to the file name.
    Numbered,
    /// Reuse the target path, discarding existing contents.
    Overwrite,
}

/// Whether a save path is a directory, which gets the server's file name; any other is the path
/// of the file itself.
pub open spec fn is_directory(save_path: Seq<char>, on_disk: bool) -> bool {
    on_disk || path::extension_of(save_path) is None || (save_path.len() > 0
        && path::is_separator(save_path.last()))
}

/// The directory of a download's file.
pub open spec fn target_dir(save_path: Seq<char>, on_disk: bool) -> Seq<char> {
    if is_directory(save_path, on_disk) {
        save_path
    } else {
        match path::parent_of(save_path) {
            Some(dir) => dir,
            None => Seq::empty(),
        }
    }
}

/// The name of a download's file.
pub open spec fn target_name(save_path: Seq<char>, on_disk: bool, suggested: Seq<char>) -> Seq<
    char,
> {
    if is_directory(save_path, on_disk) {
        suggested
    } else {
        match path::file_name_of(save_path) {
            Some(name) => name,
            None => suggested,
        }
    }
}

pub fn is_directory_target(save_path: &FilePath, on_disk: bool) -> (r: bool)
    ensures
        r == is_directory(save_path@, on_disk),
{
    on_disk || save_path.extension().is_none() || save_path.ends_with_separator()
}

/// The directory and the name of a download's file.
pub fn target_parts(save_path: &FilePath, on_disk: bool, suggested: &str) -> (r: (
    FilePath,
    String,
))
    ensures
        r.0@ == target_dir(save_path@, on_disk),
        r.1@ == target_name(save_path@, on_disk, suggested@),
{
    if is_directory_target(save_path, on_disk) {
        (save_path.copy(), suggested.to_owned())
    } else {
        let name = match save_path.file_name() {
            Some(name) => name,
            None => suggested.to_owned(),
        };
        let dir = match save_path.parent() {
            Some(dir) => dir,
            None => FilePath { text: String::new() },
        };
        (dir, name)
    }
}

/// A file name with a number before its extension.
pub open spec fn numbered_name(original: Seq<char>, index: int) -> Seq<char> {
    let (stem, suffix) = numbered_parts(original);
    stem + "_"@ + text::decimal(index as nat) + suffix
}

/// What stands before and after the number of a numbered file name.
pub open spec fn numbered_parts(original: Seq<char>) -> (Seq<char>, Seq<char>) {
    match path::file_name_of(original) {
        Some(name) => (
            path::stem_of(name),
            match path::extension_in(name) {
                Some(extension) => "."@ + extension,
                None => Seq::empty(),
            },
        ),
        None => (original, Seq::empty()),
    }
}

/// The file name with a number before its extension.
pub fn next_numbered_filename(original_name: &str, index: u32) -> (r: String)
    ensures
        r@ == numbered_name(original_name@, index as int),
{
    let (stem, extension) = match FilePath::new(original_name).file_name() {
        Some(name) => path::split_extension(name.as_str()),
        None => (original_name.to_owned(), None),
    };
    let number = text::decimal_string(index as u64);
    let numbered = text::join3(stem.as_str(), "_", number.as_str());
    match extension {
        Some(extension) => {
            let r = text::join3(numbered.as_str(), ".", extension.as_str());
            assert(r@ =~= numbered_name(original_name@, index as int));
            r
        },
        None => {
            assert(numbered@ =~= numbered_name(original_name@, index as int));
            numbered
        },
    }
}

/// Law: different numbers give different file names, so that a search for a free name never
/// tries the same one twice.
pub proof fn law_numbered_names_are_distinct(original: Seq<char>, i: nat, j: nat)
    requires
        numbered_name(original, i as int) == numbered_name(original, j as int),
    ensures
        i == j,
{
    let (stem, suffix) = numbered_parts(original);
    let head = stem + "_"@;
    let a = text::decimal(i);
    let b = text::decimal(j);
    let x = head + a + suffix;
    let y = head + b + suffix;
    assert(x == y);
    assert(a.len() == b.len());
    assert(x.subrange(head.len() as int, (head.len() + a.len()) as int) =~= a);
    assert(y.subrange(head.len() as int, (head.len() + b.len()) as int) =~= b);
    text::lemma_decimal_value(i);
    text::lemma_decimal_value(j);
}

/// The failure of a search that tried every number.
pub open spec fn is_exhausted(error: StorageError) -> bool {
    error matches StorageError::Io(fault) && fault.kind == IoKind::AlreadyExists && fault.message@
        == "no available filename after "@ + text::decimal(MAX_AUTO_RENAME_ATTEMPTS as nat)
        + " attempts"@
}

/// A search for a file name that is free in a directory.
pub struct NumberedTarget {
    pub directory: FilePath,
    pub original: String,
    pub index: u32,
}

impl NumberedTarget {
    /// The name that is tried now: first the original one, then numbered ones.
    pub open spec fn current(self) -> Seq<char> {
        if self.index == 0 {
            self.original@
        } else {
            numbered_name(self.original@, self.index as int)
        }
    }

    pub fn new(directory: FilePath, original: String) -> (r: NumberedTarget)
        ensures
            r == (NumberedTarget { directory, original, index: 0 }),
    {
        NumberedTarget { directory, original, index: 0 }
    }

    /// The name and path that are tried now.
    pub fn candidate(&self) -> (r: (String, FilePath))
        ensures
            r.0@ == self.current(),
            r.1@ == path::joined(self.directory@, self.current()),
    {
        let name = if self.index == 0 {
            self.original.clone()
        } else {
            next_numbered_filename(self.original.as_str(), self.index)
        };
        let target = self.directory.join(name.as_str());
        (name, target)
    }

    /// Goes on after a file with the tried name was there already; gives up after many.
    pub fn collided(&mut self) -> (r: Result<(), StorageError>)
        requires
            old(self).index < MAX_AUTO_RENAME_ATTEMPTS,
        ensures
            final(self).directory == old(self).directory,
            final(self).original == old(self).original,
            final(self).index == old(self).index + 1,
            r is Ok <==> final(self).index < MAX_AUTO_RENAME_ATTEMPTS,
            r matches Err(error) ==> is_exhausted(error),
    {
        self.index = self.index + 1;
        if self.index >= MAX_AUTO_RENAME_ATTEMPTS {
            let limit = text::decimal_string(MAX_AUTO_RENAME_ATTEMPTS as u64);
            let message = text::join3("no available filename after ", limit.as_str(), " attempts");
            return Err(StorageError::Io(IoFault { kind: IoKind::AlreadyExists, message }));
        }
        Ok(())
    }
}

/// What became of a target file.
pub enum TargetOutcome {
    Created { filename: String, path: FilePath },
    /// A file is already there and the user has to decide what happens to it.
    Existing { filename: String, path: FilePath, bytes: u64 },
    Failed { filename: String, path: FilePath, source: StorageError },
    /// The attempt did not run to its end.
    TaskFailed(String),
}

/// What follows a failed attempt.
pub enum TargetNext {
    /// Try the next name.
    Retry,
    /// Look up the size of the file that is there.
    Measure,
    Finished(TargetOutcome),
}

/// The target file of a download being created.
pub struct TargetSearch {
    pub mode: TargetMode,
    pub search: NumberedTarget,
}

impl TargetSearch {
    pub open spec fn wf(self) -> bool {
        self.search.index < MAX_AUTO_RENAME_ATTEMPTS && (self.mode != TargetMode::Numbered
            ==> self.search.index == 0)
    }

    /// The path that is tried now.
    pub open spec fn current_path(self) -> Seq<char> {
        path::joined(self.search.directory@, self.search.current())
    }

    /// Whether an outcome is about the file that is tried now.
    pub open spec fn is_about(self, filename: String, target: FilePath) -> bool {
        filename@ == self.search.current() && target@ == self.current_path()
    }

    /// What follows an attempt that failed: the next name where one is numbered, a look at the file
    /// that is there where the user is asked, and the end otherwise.
    pub open spec fn after_failure(
        self,
        source: StorageError,
        after: TargetSearch,
        r: TargetNext,
    ) -> bool {
        &&& after.mode == self.mode
        &&& after.search.directory == self.search.directory
        &&& after.search.original == self.search.original
        &&& r is Retry ==> after.wf() && after.search.index == self.search.index + 1
        &&& r is Measure ==> after == self
        &&& r is Retry <==> self.mode == TargetMode::Numbered && source.is_collision()
            && self.search.index + 1 < MAX_AUTO_RENAME_ATTEMPTS
        &&& r is Measure <==> self.mode == TargetMode::Ask && source.is_collision()
        &&& r matches TargetNext::Finished(outcome) ==> (outcome matches TargetOutcome::Failed {
            filename,
            path,
            source: reported,
        } && self.is_about(filename, path) && if self.mode == TargetMode::Numbered
            && source.is_collision() {
            is_exhausted(reported) && after.search.index == MAX_AUTO_RENAME_ATTEMPTS
        } else {
            reported == source && after == self
        })
    }

    pub fn new(save_path: &FilePath, on_disk: bool, suggested: &str, mode: TargetMode) -> (r:
        TargetSearch)
        ensures
            r.wf(),
            r.mode == mode,
            r.search.index == 0,
            r.search.directory@ == target_dir(save_path@, on_disk),
            r.search.original@ == target_name(save_path@, on_disk, suggested@),
    {
        let (directory, name) = target_parts(save_path, on_disk, suggested);
        TargetSearch { mode, search: NumberedTarget::new(directory, name) }
    }

    /// The path to open now, and whether a file that is already there may be replaced: only where
    /// the user confirmed it.
    pub fn attempt(&self) -> (r: (FilePath, bool))
        ensures
            r.0@ == self.current_path(),
            r.1 == (self.mode == TargetMode::Overwrite),
    {
        let replaces = match self.mode {
            TargetMode::Overwrite => true,
            _ => false,
        };
        (self.search.candidate().1, replaces)
    }

    /// The outcome of an attempt that opened the file.
    pub fn opened(&self) -> (r: TargetOutcome)
        ensures
            r matches TargetOutcome::Created { filename, path } && self.is_about(filename, path),
    {
        let (filename, path) = self.search.candidate();
        TargetOutcome::Created { filename, path }
    }

    /// What follows an attempt that failed.
    pub fn failed(&mut self, source: StorageError) -> (r: TargetNext)
        requires
            old(self).wf(),
        ensures
            old(self).after_failure(source, *final(self), r),
    {
        let (filename, path) = self.search.candidate();
        if source.collides() {
            match self.mode {
                TargetMode::Ask => {
                    return TargetNext::Measure;
                },
                TargetMode::Numbered => {
                    return match self.search.collided() {
                        Ok(()) => TargetNext::Retry,
                        Err(exhausted) => TargetNext::Finished(
                            TargetOutcome::Failed { filename, path, source: exhausted },
                        ),
                    };
                },
                TargetMode::Overwrite => {},
            }
        }
        TargetNext::Finished(TargetOutcome::Failed { filename, path, source })
    }

    /// The outcome once the size of the file that is there was looked up.
    pub fn measured(&self, length: Result<u64, IoFault>) -> (r: TargetOutcome)
        ensures
            match length {
                Ok(bytes) => r matches TargetOutcome::Existing { filename, path, bytes: found }
                    && self.is_about(filename, path) && found == bytes,
                Err(fault) => r matches TargetOutcome::Failed { filename, path, source }
                    && self.is_about(filename, path) && source == StorageError::Io(fault),
            },
    {
        let (filename, path) = self.search.candidate();
        match length {
            Ok(bytes) => TargetOutcome::Existing { filename, path, bytes },
            Err(fault) => TargetOutcome::Failed { filename, path, source: StorageError::Io(fault) },
        }
    }
}

/// Law: a file that is there is replaced only where the user chose to overwrite it.
pub proof fn law_only_chosen_files_are_replaced(search: TargetSearch, r: (FilePath, bool))
    requires
        call_ensures(TargetSearch::attempt, (&search,), r),
    ensures
        r.1 <==> search.mode == TargetMode::Overwrite,
        r.0@ == path::joined(search.search.directory@, search.search.current()),
{
}

/// Law: a search starts with the wanted name and goes on with the numbers in order; only a search
/// for a numbered name goes on at all, and only after a collision. A collision is asked about where
/// that is the manner, and no failure ends in a created file.
pub proof fn law_searches_go_on_only_after_collisions(
    search: TargetSearch,
    source: StorageError,
    after: TargetSearch,
    r: TargetNext,
)
    requires
        search.wf(),
        search.after_failure(source, after, r),
    ensures
        search.search.index == 0 ==> search.search.current() == search.search.original@,
        search.mode != TargetMode::Numbered ==> search.search.current()
            == search.search.original@,
        r is Retry ==> source.is_collision() && search.mode == TargetMode::Numbered
            && after.search.index == search.search.index + 1 && after.search.current()
            == numbered_name(search.search.original@, search.search.index + 1),
        r is Measure ==> source.is_collision() && search.mode == TargetMode::Ask,
        search.mode == TargetMode::Ask && source.is_collision() ==> r is Measure,
        search.mode == TargetMode::Numbered && source.is_collision() && search.search.index < 9999
            ==> r is Retry,
        !source.is_collision() || search.mode == TargetMode::Overwrite ==> (
        r matches TargetNext::Finished(TargetOutcome::Failed { source: told, .. }) && told
            == source),
        r matches TargetNext::Finished(outcome) ==> outcome is Failed,
        after.search.directory == search.search.directory,
{
}

/// Law: a numbered name keeps the extension and differs from the name that it is made of.
pub proof fn law_numbered_names_keep_the_extension(original: Seq<char>, name: Seq<char>, index: nat)
    requires
        path::file_name_of(original) == Some(name),
        name.len() > 0,
    ensures
        numbered_name(original, index as int) != name,
        path::extension_in(name) is Some ==> path::extension_in(
            numbered_name(original, index as int),
        ) == path::extension_in(name),
        text::starts_with(numbered_name(original, index as int), path::stem_of(name)),
{
    reveal_strlit("_");
    reveal_strlit(".");
    text::lemma_decimal_value(index);
    let stem = path::stem_of(name);
    let numbered = numbered_name(original, index as int);
    path::lemma_dot_at(name);
    let at = path::dot_at(name);
    assert(numbered.take(stem.len() as int) =~= stem);
    if at > 0 {
        let extension = name.skip(at + 1);
        assert(name.len() == stem.len() + 1 + extension.len());
        let head = stem + "_"@ + text::decimal(index);
        assert(numbered =~= head + "."@ + extension);
        let k = head.len() as int;
        assert(text::occurs_at(numbered, "."@, k)) by {
            assert(numbered.subrange(k, k + 1) =~= "."@);
        }
        assert forall|j: int| #[trigger] text::occurs_at(numbered, "."@, j) implies j <= k by {
            if j > k {
                assert(numbered.subrange(j, j + 1)[0] == '.');
                assert(numbered[j] == '.');
                assert(numbered[j] == extension[j - k - 1]);
                let m = at + 1 + (j - k - 1);
                assert(name[m] == '.');
                assert(name.subrange(m, m + 1) =~= "."@);
                assert(text::occurs_at(name, "."@, m));
            }
        }
        assert(text::is_last_at(numbered, "."@, k));
        text::lemma_last_at(numbered, "."@, k);
        assert(path::dot_at(numbered) == k);
        assert(numbered.skip(k + 1) =~= extension);
    }
}

/// Law: a save path that is a directory gets the suggested name inside it; any other names the file
/// itself, and the suggestion is not used.
pub proof fn law_save_paths_name_a_directory_or_a_file(
    save_path: Seq<char>,
    on_disk: bool,
    suggested: Seq<char>,
)
    ensures
        on_disk ==> target_dir(save_path, on_disk) == save_path && target_name(
            save_path,
            on_disk,
            suggested,
        ) == suggested,
        path::extension_of(save_path) is None ==> target_dir(save_path, on_disk) == save_path
            && target_name(save_path, on_disk, suggested) == suggested,
        save_path.len() > 0 && (save_path.last() == '/' || save_path.last() == '\\') ==> target_dir(
            save_path,
            on_disk,
        ) == save_path,
        !on_disk && path::extension_of(save_path) is Some && save_path.len() > 0 && save_path.last()
            != '/' && save_path.last() != '\\' ==> Some(target_name(save_path, on_disk, suggested))
            == path::file_name_of(save_path),
{
}

} // verus!
