//! Adding, starting and resolving downloads from the window.
use crate::client::filename;
use crate::engine::model::{DownloadAction, DownloadSnapshot, DuplicateChoice};
use crate::path::FilePath;
use crate::text;
use crate::ui::category::Category;
use crate::ui::state::{AppState, SendOutcome, WindowState};
use crate::ui::table::Selection;
use vstd::prelude::*;

verus! {

/// The most streams that a download uses.
pub const MAX_STREAMS: usize = 16;

/// The streams that are used of those that were asked for.
pub open spec fn usable_streams(streams: usize) -> usize {
    if streams < 1 {
        1
    } else if streams > MAX_STREAMS {
        MAX_STREAMS
    } else {
        streams
    }
}

/// The duplicate decision behind an option of the dialog.
pub open spec fn chosen(option: i32) -> DuplicateChoice {
    if option == 1 {
        DuplicateChoice::Numbered
    } else if option == 2 {
        DuplicateChoice::Overwrite
    } else {
        DuplicateChoice::UseExisting
    }
}

/// The requests that answer a duplicate prompt.
#[derive(Debug)]
pub struct DuplicateAnswer {
    /// Sent first, where the decision is to be remembered.
    pub preference: Option<DownloadAction>,
    pub action: DownloadAction,
    /// Whether the log has to be saved because an entry left it.
    pub rewrite_log: bool,
}

impl AppState {
    /// The directory for the download of an entered URL.
    pub open spec fn directory_for(self, url: Seq<char>) -> Seq<char> {
        self.save_settings.dir_of(
            self.save_settings.route(
                filename::filename_for(filename::url_path(text::trimmed(url)), None),
            ),
        )
    }

    /// The directory after an edit of the URL: it follows unless the user chose one of their own.
    pub open spec fn directory_after_edit(self, url: Seq<char>) -> Seq<char> {
        let dest = self.window.dest_dir_text@;
        if dest.len() == 0 || self.save_settings.manages(dest) {
            self.directory_for(url)
        } else {
            dest
        }
    }

    /// Whether the state and the requests follow from answering the prompt of a snapshot.
    pub open spec fn duplicate_answered(
        self,
        option: i32,
        remember: bool,
        snapshot: DownloadSnapshot,
        after: AppState,
        r: Option<DuplicateAnswer>,
    ) -> bool {
        match snapshot.duplicate {
            None => r is None && after == self,
            Some(prompt) => {
                &&& r matches Some(answer) && answer.action == (DownloadAction::ResolveDuplicate {
                    session_id: prompt.session_id,
                    choice: Some(chosen(option)),
                }) && answer.preference == (if remember {
                    Some(DownloadAction::SetDuplicatePreference { choice: Some(chosen(option)) })
                } else {
                    None
                }) && answer.rewrite_log == (option == 2 && self.completed_is_logged())
                &&& if option == 2 {
                    self.forgot_completed(after)
                } else {
                    after == self
                }
            },
        }
    }

    /// Whether a request starts the entered download, which needs a URL.
    pub open spec fn start_requested(self, streams: usize, r: Option<DownloadAction>) -> bool {
        &&& r is Some <==> text::trimmed(self.window.url_text@).len() > 0
        &&& r matches Some(action) ==> action matches DownloadAction::Start {
            url,
            save_path,
            num_chunks,
        } && url@ == text::trimmed(self.window.url_text@) && save_path@ == text::trimmed(
            self.window.dest_dir_text@,
        ) && num_chunks == usable_streams(streams)
    }

    fn route_url(&mut self, url: &str)
        ensures
            final(self).window.dest_dir_text@ == old(self).directory_for(url@),
            *final(self) == (AppState {
                window: WindowState {
                    dest_dir_text: final(self).window.dest_dir_text,
                    ..old(self).window
                },
                ..*old(self)
            }),
    {
        let trimmed = text::trim_text(url);
        self.window.dest_dir_text = self.save_settings.path_for_url(trimmed.as_str()).text;
    }

    /// Suggests the directory of the entered URL when the dialog opens.
    pub fn add_dialog_opened(&mut self)
        ensures
            final(self).window.dest_dir_text@ == old(self).directory_for(
                old(self).window.url_text@,
            ),
            *final(self) == (AppState {
                window: WindowState {
                    dest_dir_text: final(self).window.dest_dir_text,
                    ..old(self).window
                },
                ..*old(self)
            }),
    {
        let url = self.window.url_text.clone();
        self.route_url(url.as_str());
    }

    /// Lets the directory follow an edited URL, unless the user chose one of their own.
    pub fn url_text_changed(&mut self, new_url: &str)
        ensures
            final(self).window.dest_dir_text@ == old(self).directory_after_edit(new_url@),
            *final(self) == (AppState {
                window: WindowState {
                    dest_dir_text: final(self).window.dest_dir_text,
                    ..old(self).window
                },
                ..*old(self)
            }),
    {
        let current = FilePath { text: self.window.dest_dir_text.clone() };
        if current.is_empty() || self.save_settings.is_managed_path(&current) {
            self.route_url(new_url);
        }
    }

    /// The request that starts the entered download, if a URL was entered.
    pub fn start_request(&self, streams: usize) -> (r: Option<DownloadAction>)
        ensures
            self.start_requested(streams, r),
    {
        let url = text::trim_text(self.window.url_text.as_str());
        if url.as_str().is_empty() {
            return None;
        }
        let num_chunks: usize = if streams < 1 {
            1
        } else if streams > MAX_STREAMS {
            MAX_STREAMS
        } else {
            streams
        };
        Some(
            DownloadAction::Start {
                url,
                save_path: FilePath { text: text::trim_text(self.window.dest_dir_text.as_str()) },
                num_chunks,
            },
        )
    }

    /// Notes how starting a download went: it is selected, or the dialog opens again.
    pub fn start_sent(&mut self, outcome: SendOutcome)
        ensures
            final(self).window.action_error_message@ == outcome.shown(),
            *final(self) == (AppState {
                window: WindowState {
                    action_error_message: final(self).window.action_error_message,
                    selection: if outcome is Sent {
                        Selection { row: 0, category: 0, history_row: false }
                    } else {
                        old(self).window.selection
                    },
                    show_add_dialog: old(self).window.show_add_dialog || !(outcome is Sent),
                    ..old(self).window
                },
                ..*old(self)
            }),
    {
        if self.window.sent(outcome) {
            self.window.selection.row = 0;
            self.window.selection.category = 0;
            self.row_selected(0);
        } else {
            self.window.show_add_dialog = true;
        }
    }

    /// The answer to the prompt that a snapshot shows, if it shows one. Overwriting drops the
    /// finished download that the file belonged to.
    pub fn resolve_duplicate(
        &mut self,
        option: i32,
        remember: bool,
        snapshot: &DownloadSnapshot,
    ) -> (r: Option<DuplicateAnswer>)
        ensures
            old(self).duplicate_answered(option, remember, *snapshot, *final(self), r),
    {
        let session_id: u64 = match &snapshot.duplicate {
            Some(prompt) => prompt.session_id,
            None => {
                return None;
            },
        };
        let choice = if option == 1 {
            DuplicateChoice::Numbered
        } else if option == 2 {
            DuplicateChoice::Overwrite
        } else {
            DuplicateChoice::UseExisting
        };
        let rewrite_log = option == 2 && self.forget_completed();
        let preference = if remember {
            Some(DownloadAction::SetDuplicatePreference { choice: Some(choice) })
        } else {
            None
        };
        Some(
            DuplicateAnswer {
                preference,
                action: DownloadAction::ResolveDuplicate { session_id, choice: Some(choice) },
                rewrite_log,
            },
        )
    }
}

/// The request that skips the duplicate that a snapshot shows, if it shows one.
pub fn dismiss_duplicate(snapshot: &DownloadSnapshot) -> (r: Option<DownloadAction>)
    ensures
        r == (match snapshot.duplicate {
            Some(prompt) => Some(
                DownloadAction::ResolveDuplicate { session_id: prompt.session_id, choice: None },
            ),
            None => None,
        }),
{
    match &snapshot.duplicate {
        Some(prompt) => Some(
            DownloadAction::ResolveDuplicate { session_id: prompt.session_id, choice: None },
        ),
        None => None,
    }
}

/// Law: a download uses between one and sixteen streams, as many as were asked for where that is
/// allowed.
pub proof fn law_streams_are_kept_within_limits(streams: usize)
    ensures
        1 <= usable_streams(streams) <= 16,
        1 <= streams <= 16 ==> usable_streams(streams) == streams,
        streams > 16 ==> usable_streams(streams) == 16,
{
}

/// Law: a started download is what was entered, without white space around it, and nothing is
/// started without a link.
pub proof fn law_downloads_start_as_entered(
    state: AppState,
    streams: usize,
    r: Option<DownloadAction>,
)
    requires
        state.start_requested(streams, r),
    ensures
        text::trimmed(state.window.url_text@).len() == 0 ==> r is None,
        text::trimmed(state.window.url_text@).len() > 0 ==> (r matches Some(
            DownloadAction::Start { url, save_path, num_chunks },
        ) && url@ == text::trimmed(state.window.url_text@) && save_path@ == text::trimmed(
            state.window.dest_dir_text@,
        ) && 1 <= num_chunks <= 16),
{
}

/// Law: only the option to overwrite overwrites, only the option to number numbers, and every other
/// one keeps the existing file.
pub proof fn law_options_are_the_choices_they_name(option: i32)
    ensures
        chosen(option) == DuplicateChoice::Overwrite <==> option == 2,
        chosen(option) == DuplicateChoice::Numbered <==> option == 1,
        chosen(option) == DuplicateChoice::UseExisting <==> option != 1 && option != 2,
{
}

/// Law: the answer to a prompt goes to the session that asked, and is remembered only where the user
/// said so; the finished download leaves the log only where its file is overwritten.
pub proof fn law_answers_go_to_the_session_that_asked(
    state: AppState,
    option: i32,
    remember: bool,
    snapshot: DownloadSnapshot,
    after: AppState,
    r: Option<DuplicateAnswer>,
)
    requires
        state.duplicate_answered(option, remember, snapshot, after, r),
    ensures
        snapshot.duplicate is None ==> r is None && after == state,
        snapshot.duplicate matches Some(prompt) ==> (r matches Some(answer) && (
        answer.action matches DownloadAction::ResolveDuplicate { session_id, choice: Some(choice) }
            && session_id == prompt.session_id && (choice == DuplicateChoice::Overwrite <==> option
            == 2) && (choice == DuplicateChoice::Numbered <==> option == 1)) && (
        answer.preference is Some <==> remember) && (answer.preference matches Some(preference)
            ==> (preference matches DownloadAction::SetDuplicatePreference { choice: Some(kept) }
            && (kept == DuplicateChoice::Overwrite <==> option == 2) && (kept
            == DuplicateChoice::Numbered <==> option == 1))) && (answer.rewrite_log ==> option == 2)),
        option != 2 ==> after == state,
{
}

/// Law: a directory that the user chose is not changed by editing the link; any other one follows to
/// the directory of the link's category.
pub proof fn law_edits_keep_a_chosen_directory(state: AppState, url: Seq<char>)
    ensures
        state.window.dest_dir_text@.len() > 0 && !state.save_settings.manages(
            state.window.dest_dir_text@,
        ) ==> state.directory_after_edit(url) == state.window.dest_dir_text@,
        state.window.dest_dir_text@.len() == 0 ==> state.directory_after_edit(url)
            == state.directory_for(url),
        state.save_settings.manages(state.window.dest_dir_text@) ==> state.directory_after_edit(url)
            == state.directory_for(url),
        exists|category: Category| #[trigger]
            state.save_settings.dir_of(category) == state.directory_for(url),
{
    let name = filename::filename_for(filename::url_path(text::trimmed(url)), None);
    assert(state.save_settings.dir_of(state.save_settings.route(name)) == state.directory_for(url));
}

} // verus!
