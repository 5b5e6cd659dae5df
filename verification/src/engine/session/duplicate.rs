//! Downloads that collide with a link in the list or a file on disk.
use crate::client::RemoteFileInfo;
use crate::engine::model::{DownloadStatus, DuplicateChoice, DuplicatePrompt};
use crate::engine::resume;
use crate::engine::scheduler;
use crate::engine::session;
use crate::engine::session::actions;
use crate::engine::session::{
    launches_for, AdoptRequest, DuplicateRequest, Effect, ExistingFile, FetchInfoKind,
    PendingDuplicate, Session, Stopped, TargetRequest, WorkerLaunch,
};
use crate::engine::target::TargetMode;
use crate::path::FilePath;
use crate::storage::StorageError;
use crate::text;
use vstd::prelude::*;

verus! {

/// Whether a link repeats the entry that is in the download list.
pub open spec fn is_duplicate_link(session: Session, url: Seq<char>) -> bool {
    !(session.status is Idle) && session.current_url@.len() > 0 && session.current_url@ == url
}

/// The session after it showed itself as it is, so that a prompt appears or clears.
pub open spec fn prompt_shown(session: Session) -> Session {
    session.published(session.total(), session.downloaded(), session.in_ranges())
}

/// The prompt for a link that repeats the download of a session.
pub open spec fn is_link_prompt(prompt: DuplicatePrompt, session: Session, url: Seq<char>) -> bool {
    &&& prompt.session_id == session.session_id
    &&& prompt.url@ == url
    &&& prompt.filename == session.current_filename
    &&& prompt.existing_bytes == session.total()
    &&& prompt.link_duplicate
}

/// The prompt for a file that is on disk.
pub open spec fn is_target_prompt(
    prompt: DuplicatePrompt,
    session: Session,
    existing: ExistingFile,
) -> bool {
    &&& prompt.session_id == session.session_id
    &&& prompt.url == session.current_url
    &&& prompt.filename == existing.filename
    &&& prompt.existing_bytes == Some(existing.bytes)
    &&& !prompt.link_duplicate
}

/// A duplicate is settled: by the remembered decision, or by asking the user.
pub open spec fn settled(old: Session, new: Session, effect: Effect, pending: PendingDuplicate) -> bool {
    match old.duplicate_preference {
        Some(choice) => applied(old, new, effect, pending.request, Some(choice)),
        None => new == prompt_shown(Session { duplicate: Some(pending), ..old })
            && effect is Nothing,
    }
}

/// A repeated link is settled.
pub open spec fn link_asked(
    old: Session,
    new: Session,
    effect: Effect,
    url: String,
    save_path: FilePath,
    num_chunks: usize,
) -> bool {
    exists|pending: PendingDuplicate| #[trigger]
        settled(old, new, effect, pending) && is_link_prompt(pending.prompt, old, url@)
            && pending.request == (DuplicateRequest::Link { url, save_path, num_chunks })
}

/// A file that is on disk already is settled.
pub open spec fn target_asked(
    old: Session,
    new: Session,
    effect: Effect,
    save_path: FilePath,
    num_chunks: usize,
    info: RemoteFileInfo,
    existing: ExistingFile,
) -> bool {
    exists|pending: PendingDuplicate| #[trigger]
        settled(old, new, effect, pending) && is_target_prompt(pending.prompt, old, existing)
            && pending.request == (DuplicateRequest::Target {
            save_path,
            num_chunks,
            info,
            existing,
        })
}

/// A pending duplicate is answered; an answer for another session changes nothing.
pub open spec fn resolved(
    old: Session,
    new: Session,
    effect: Effect,
    session_id: u64,
    choice: Option<DuplicateChoice>,
) -> bool {
    match old.duplicate {
        Some(pending) => if pending.prompt.session_id == session_id {
            applied(Session { duplicate: None, ..old }, new, effect, pending.request, choice)
        } else {
            new == old && effect is Nothing
        },
        None => new == old && effect is Nothing,
    }
}

/// A decision about a duplicate is carried out.
pub open spec fn applied(
    old: Session,
    new: Session,
    effect: Effect,
    request: DuplicateRequest,
    choice: Option<DuplicateChoice>,
) -> bool {
    match (request, choice) {
        (DuplicateRequest::Link { .. }, None) => new == prompt_shown(old) && effect is Nothing,
        (DuplicateRequest::Target { .. }, None) => new == (Session {
            status: DownloadStatus::Idle,
            current_speed: 0,
            ..old
        }).published(None, 0, false) && effect is Nothing,
        (DuplicateRequest::Link { url, save_path, num_chunks }, Some(choice)) => match choice {
            DuplicateChoice::Numbered => new == old && effect == (Effect::Stop {
                cancel: true,
                next: Stopped::Start { url, save_path, num_chunks, target: TargetMode::Numbered },
            }),
            DuplicateChoice::Overwrite => new == old && effect == (Effect::Stop {
                cancel: true,
                next: Stopped::Start { url, save_path, num_chunks, target: TargetMode::Overwrite },
            }),
            DuplicateChoice::UseExisting => if actions::can_resume(old) {
                actions::resume_requested(old, new, effect)
            } else {
                new == prompt_shown(old) && effect is Nothing
            },
        },
        (DuplicateRequest::Target { save_path, num_chunks, info, existing }, Some(choice)) => match choice {
            DuplicateChoice::Numbered => new == old && effect == Effect::CreateTarget(
                TargetRequest {
                    save_path,
                    num_chunks,
                    info,
                    mode: TargetMode::Numbered,
                    decided: true,
                },
            ),
            DuplicateChoice::Overwrite => new == old && effect == Effect::CreateTarget(
                TargetRequest {
                    save_path,
                    num_chunks,
                    info,
                    mode: TargetMode::Overwrite,
                    decided: true,
                },
            ),
            DuplicateChoice::UseExisting => adoption_begun(old, new, effect, info, existing),
        },
    }
}

/// The message for a file that is not reused.
pub open spec fn refusal(path: Seq<char>, reason: Seq<char>) -> Seq<char> {
    "Cannot use existing file "@ + path + ": "@ + reason
        + ". Choose overwrite or a numbered copy instead"@
}

/// The session after it refused to reuse or replace a file.
pub open spec fn refused(old: Session, new: Session, existing: ExistingFile, reason: Seq<char>) -> bool {
    new.failed_with(refusal(existing.path@, reason)) && new == (Session {
        current_filename: existing.filename,
        current_path: existing.path,
        owns_target: false,
        status: new.status,
        ..old
    }).published(None, 0, false)
}

/// Why a file on disk cannot be taken over, if so.
pub open spec fn adoption_refusal(info: RemoteFileInfo, bytes: u64) -> Option<Seq<char>> {
    match info.content_length {
        Some(total) => if total == bytes || (info@.uses_ranges() && bytes < total) {
            None
        } else if bytes > total {
            Some("it is larger than the remote file"@)
        } else {
            Some("the server does not support resuming this file"@)
        },
        None => Some("the remote file size is unknown"@),
    }
}

/// A file on disk is about to be taken over, or refused without touching it.
pub open spec fn adoption_begun(
    old: Session,
    new: Session,
    effect: Effect,
    info: RemoteFileInfo,
    existing: ExistingFile,
) -> bool {
    match adoption_refusal(info, existing.bytes) {
        Some(reason) => refused(old, new, existing, reason) && effect is Nothing,
        None => new == old && effect == Effect::OpenExisting(
            AdoptRequest {
                info,
                existing,
                total: info.content_length->0,
                complete: info.content_length == Some(existing.bytes),
            },
        ),
    }
}

/// A request to take over a file that can be carried out.
pub open spec fn adoptable(request: AdoptRequest) -> bool {
    &&& request.info.content_length == Some(request.total)
    &&& request.complete == (request.total == request.existing.bytes)
    &&& !request.complete ==> request.info@.uses_ranges() && request.existing.bytes < request.total
}

/// What became of a file to open.
pub enum OpenOutcome {
    Opened,
    Failed(StorageError),
    TaskFailed(String),
}

/// Why an existing file could not be opened, if so.
pub open spec fn open_refusal(outcome: OpenOutcome) -> Option<Seq<char>> {
    match outcome {
        OpenOutcome::Opened => None,
        OpenOutcome::Failed(error) => Some(error.shown()),
        OpenOutcome::TaskFailed(reason) => Some("it could not be opened: "@ + reason@),
    }
}

fn open_failure(outcome: OpenOutcome) -> (r: Option<String>)
    ensures
        text::string_text(r) == open_refusal(outcome),
{
    match outcome {
        OpenOutcome::Opened => None,
        OpenOutcome::Failed(error) => Some(error.message()),
        OpenOutcome::TaskFailed(reason) => Some(
            text::join2("it could not be opened: ", reason.as_str()),
        ),
    }
}

/// The session after a file on disk became its target: complete, or continued from its prefix.
pub open spec fn adopted(
    old: Session,
    new: Session,
    effect: Effect,
    request: AdoptRequest,
    now: u64,
) -> bool {
    let base = Session {
        current_filename: request.existing.filename,
        current_path: request.existing.path,
        owns_target: true,
        active_chunks: new.active_chunks,
        has_storage: true,
        file_info: Some(request.info),
        ..old
    };
    if request.complete {
        &&& new.active_chunks@ == resume::completed_list(request.total, now)
        &&& new == (Session {
            status: DownloadStatus::Completed,
            current_speed: 0,
            ..base
        }).published(Some(request.total), request.total as int, request.total > 0)
        &&& effect is Nothing
    } else {
        exists|seed: Seq<scheduler::ActiveChunk>|
            {
                &&& #[trigger] resume::seeded(
                    seed,
                    request.existing.bytes as int,
                    request.total as int,
                    old.current_num_chunks as int,
                    now,
                )
                &&& new.active_chunks@ == scheduler::taken_list(seed, now)
                &&& new.downloaded() == request.existing.bytes
                &&& new == (Session { status: DownloadStatus::Downloading, ..base }).published(
                    Some(request.total),
                    request.existing.bytes as int,
                    true,
                )
                &&& effect matches Effect::Launch(launches) && session::launches_chunks(
                    launches@,
                    scheduler::idle_ids(seed),
                    new.active_chunks@,
                    request.total,
                    request.info@.resume_validator(),
                )
            }
    }
}

/// What follows once a file on disk can be trusted: a complete one is taken over as it is, another
/// one first gets room for the rest.
pub open spec fn trusted(
    old: Session,
    new: Session,
    effect: Effect,
    request: AdoptRequest,
    now: u64,
) -> bool {
    if request.complete {
        adopted(old, new, effect, request, now)
    } else {
        new == old && effect == Effect::GrowExisting(request)
    }
}

/// What follows the opening of a file on disk: its saved bytes are compared before it is trusted.
pub open spec fn existing_handled(
    old: Session,
    new: Session,
    effect: Effect,
    request: AdoptRequest,
    outcome: OpenOutcome,
    now: u64,
) -> bool {
    match open_refusal(outcome) {
        Some(reason) => refused(old, new, request.existing, reason) && effect is Nothing,
        None => if request.existing.bytes == 0 {
            trusted(old, new, effect, request, now)
        } else {
            new == old && (effect matches Effect::CompareSamples { request: held, samples } && held
                == request && samples.starts@ == resume::sample_starts(
                0,
                request.existing.bytes as int,
            ) && samples.length == resume::sample_len(request.existing.bytes as int))
        },
    }
}

/// What follows the comparison of a file on disk with the remote one.
pub open spec fn comparison_handled(
    old: Session,
    new: Session,
    effect: Effect,
    request: AdoptRequest,
    result: Result<(), String>,
    now: u64,
) -> bool {
    match result {
        Ok(()) => trusted(old, new, effect, request, now),
        Err(reason) => refused(old, new, request.existing, reason@) && effect is Nothing,
    }
}

/// What follows once a trusted file was given room for the rest.
pub open spec fn growth_handled(
    old: Session,
    new: Session,
    effect: Effect,
    request: AdoptRequest,
    outcome: OpenOutcome,
    now: u64,
) -> bool {
    match open_refusal(outcome) {
        Some(reason) => refused(old, new, request.existing, reason) && effect is Nothing,
        None => adopted(old, new, effect, request, now),
    }
}

/// Whether carrying out an effect leaves every file as it is.
pub open spec fn keeps_files(effect: Effect) -> bool {
    effect is Nothing || effect is OpenExisting || effect is CompareSamples
}

impl Session {
    /// Whether a link repeats the entry that is in the download list.
    pub fn duplicate_link(&self, url: &str) -> (r: bool)
        ensures
            r == is_duplicate_link(*self, url@),
    {
        !self.status.is_idle() && !self.current_url.as_str().is_empty() && text::same_text(
            self.current_url.as_str(),
            url,
        )
    }

    /// Shows the session as it is.
    pub fn publish_prompt(&mut self)
        requires
            old(self).wf(),
        ensures
            *final(self) == prompt_shown(*old(self)),
    {
        let total = self.total_size();
        let downloaded: u64 = self.downloaded_bytes();
        let in_ranges = self.is_range_download();
        self.publish(total, downloaded, 0, None, in_ranges);
    }

    /// Settles a repeated link.
    pub fn ask_link_duplicate(&mut self, url: String, save_path: FilePath, num_chunks: usize) -> (effect:
        Effect)
        requires
            old(self).wf(),
        ensures
            final(self).wf(),
            link_asked(*old(self), *final(self), effect, url, save_path, num_chunks),
    {
        let prompt = DuplicatePrompt {
            session_id: self.session_id,
            url: url.clone(),
            filename: self.current_filename.clone(),
            existing_bytes: self.total_size(),
            link_duplicate: true,
        };
        let pending = PendingDuplicate {
            prompt,
            request: DuplicateRequest::Link { url, save_path, num_chunks },
        };
        self.settle_duplicate(pending)
    }

    /// Settles a target file that is already on disk.
    pub fn ask_existing_target(
        &mut self,
        save_path: FilePath,
        num_chunks: usize,
        info: RemoteFileInfo,
        existing: ExistingFile,
    ) -> (effect: Effect)
        requires
            old(self).wf(),
        ensures
            final(self).wf(),
            target_asked(
                *old(self),
                *final(self),
                effect,
                save_path,
                num_chunks,
                info,
                existing,
            ),
    {
        let prompt = DuplicatePrompt {
            session_id: self.session_id,
            url: self.current_url.clone(),
            filename: existing.filename.clone(),
            existing_bytes: Some(existing.bytes),
            link_duplicate: false,
        };
        let pending = PendingDuplicate {
            prompt,
            request: DuplicateRequest::Target { save_path, num_chunks, info, existing },
        };
        self.settle_duplicate(pending)
    }

    fn settle_duplicate(&mut self, pending: PendingDuplicate) -> (effect: Effect)
        requires
            old(self).wf(),
        ensures
            final(self).wf(),
            settled(*old(self), *final(self), effect, pending),
    {
        match self.duplicate_preference {
            Some(choice) => self.apply_duplicate(pending.request, Some(choice)),
            None => {
                self.duplicate = Some(pending);
                self.publish_prompt();
                Effect::Nothing
            },
        }
    }

    /// Takes the answer to a pending duplicate prompt.
    pub fn resolve_duplicate(&mut self, session_id: u64, choice: Option<DuplicateChoice>) -> (effect:
        Effect)
        requires
            old(self).wf(),
        ensures
            final(self).wf(),
            resolved(*old(self), *final(self), effect, session_id, choice),
    {
        let answers = match &self.duplicate {
            Some(pending) => pending.prompt.session_id == session_id,
            None => false,
        };
        if !answers {
            return Effect::Nothing;
        }
        match self.duplicate.take() {
            Some(pending) => self.apply_duplicate(pending.request, choice),
            None => Effect::Nothing,
        }
    }

    /// Carries out a decision about a duplicate.
    pub fn apply_duplicate(&mut self, request: DuplicateRequest, choice: Option<DuplicateChoice>) -> (effect:
        Effect)
        requires
            old(self).wf(),
        ensures
            final(self).wf(),
            applied(*old(self), *final(self), effect, request, choice),
    {
        match (request, choice) {
            (DuplicateRequest::Link { .. }, None) => {
                self.publish_prompt();
                Effect::Nothing
            },
            (DuplicateRequest::Target { .. }, None) => {
                self.status = DownloadStatus::Idle;
                self.current_speed = 0;
                self.publish(None, 0, 0, None, false);
                Effect::Nothing
            },
            (DuplicateRequest::Link { url, save_path, num_chunks }, Some(choice)) => match choice {
                DuplicateChoice::Numbered => Effect::Stop {
                    cancel: true,
                    next: Stopped::Start {
                        url,
                        save_path,
                        num_chunks,
                        target: TargetMode::Numbered,
                    },
                },
                DuplicateChoice::Overwrite => Effect::Stop {
                    cancel: true,
                    next: Stopped::Start {
                        url,
                        save_path,
                        num_chunks,
                        target: TargetMode::Overwrite,
                    },
                },
                DuplicateChoice::UseExisting => {
                    if self.resume_allowed() {
                        self.resume_download()
                    } else {
                        self.publish_prompt();
                        Effect::Nothing
                    }
                },
            },
            (
                DuplicateRequest::Target { save_path, num_chunks, info, existing },
                Some(choice),
            ) => match choice {
                DuplicateChoice::Numbered => Effect::CreateTarget(
                    TargetRequest {
                        save_path,
                        num_chunks,
                        info,
                        mode: TargetMode::Numbered,
                        decided: true,
                    },
                ),
                DuplicateChoice::Overwrite => Effect::CreateTarget(
                    TargetRequest {
                        save_path,
                        num_chunks,
                        info,
                        mode: TargetMode::Overwrite,
                        decided: true,
                    },
                ),
                DuplicateChoice::UseExisting => self.adopt_existing(info, existing),
            },
        }
    }

    /// Begins to take over a file on disk, or refuses it without touching it.
    pub fn adopt_existing(&mut self, info: RemoteFileInfo, existing: ExistingFile) -> (effect:
        Effect)
        requires
            old(self).wf(),
        ensures
            final(self).wf(),
            adoption_begun(*old(self), *final(self), effect, info, existing),
    {
        let in_ranges = info.uses_range_workers();
        match info.content_length {
            Some(total) => {
                if total == existing.bytes || (in_ranges && existing.bytes < total) {
                    let complete = total == existing.bytes;
                    return Effect::OpenExisting(AdoptRequest { info, existing, total, complete });
                }
                if existing.bytes > total {
                    self.fail_existing(existing, "it is larger than the remote file");
                } else {
                    self.fail_existing(
                        existing,
                        "the server does not support resuming this file",
                    );
                }
            },
            None => {
                self.fail_existing(existing, "the remote file size is unknown");
            },
        }
        Effect::Nothing
    }

    /// Goes on after a file on disk was opened.
    pub fn existing_opened(&mut self, request: AdoptRequest, outcome: OpenOutcome, now: u64) -> (effect:
        Effect)
        requires
            old(self).wf(),
            adoptable(request),
        ensures
            final(self).wf(),
            existing_handled(*old(self), *final(self), effect, request, outcome, now),
    {
        match open_failure(outcome) {
            Some(reason) => {
                self.fail_existing(request.existing, reason.as_str());
                return Effect::Nothing;
            },
            None => {},
        }
        if request.existing.bytes == 0 {
            return self.trust(request, now);
        }
        let samples = resume::prefix_samples(request.existing.bytes);
        Effect::CompareSamples { request, samples }
    }

    /// Goes on after the saved bytes of a file on disk were compared with the remote file.
    pub fn existing_compared(
        &mut self,
        request: AdoptRequest,
        result: Result<(), String>,
        now: u64,
    ) -> (effect: Effect)
        requires
            old(self).wf(),
            adoptable(request),
        ensures
            final(self).wf(),
            comparison_handled(*old(self), *final(self), effect, request, result, now),
    {
        match result {
            Ok(()) => self.trust(request, now),
            Err(reason) => {
                self.fail_existing(request.existing, reason.as_str());
                Effect::Nothing
            },
        }
    }

    /// Goes on after a file on disk was given room for its full size.
    pub fn existing_grown(&mut self, request: AdoptRequest, outcome: OpenOutcome, now: u64) -> (effect:
        Effect)
        requires
            old(self).wf(),
            adoptable(request),
        ensures
            final(self).wf(),
            growth_handled(*old(self), *final(self), effect, request, outcome, now),
    {
        match open_failure(outcome) {
            Some(reason) => {
                self.fail_existing(request.existing, reason.as_str());
                Effect::Nothing
            },
            None => self.take_over(request, now),
        }
    }

    fn trust(&mut self, request: AdoptRequest, now: u64) -> (effect: Effect)
        requires
            old(self).wf(),
            adoptable(request),
        ensures
            final(self).wf(),
            trusted(*old(self), *final(self), effect, request, now),
    {
        if request.complete {
            self.take_over(request, now)
        } else {
            Effect::GrowExisting(request)
        }
    }

    fn take_over(&mut self, request: AdoptRequest, now: u64) -> (effect: Effect)
        requires
            old(self).wf(),
            adoptable(request),
        ensures
            final(self).wf(),
            adopted(*old(self), *final(self), effect, request, now),
    {
        let total: u64 = request.total;
        let bytes: u64 = request.existing.bytes;
        let complete = request.complete;
        self.current_filename = request.existing.filename;
        self.current_path = request.existing.path;
        self.owns_target = true;
        self.has_storage = true;
        if complete {
            self.active_chunks = resume::completed_chunks(total, now);
            self.file_info = Some(request.info);
            self.status = DownloadStatus::Completed;
            self.current_speed = 0;
            proof {
                scheduler::lemma_partition_sized(self.active_chunks@, total as int);
            }
            self.publish(Some(total), total, 0, None, total > 0);
            return Effect::Nothing;
        }
        let mut list = resume::seed_existing_prefix(bytes, total, self.current_num_chunks, now);
        let ghost seed = list@;
        let launched = scheduler::take_idle(&mut list, now);
        proof {
            scheduler::lemma_taken_list(seed, now, total as int);
        }
        let launches = launches_for(&launched, &list, &request.info, total);
        self.active_chunks = list;
        self.file_info = Some(request.info);
        self.status = DownloadStatus::Downloading;
        self.publish(Some(total), bytes, 0, None, true);
        Effect::Launch(launches)
    }

    fn fail_existing(&mut self, existing: ExistingFile, reason: &str)
        requires
            old(self).wf(),
        ensures
            final(self).wf(),
            refused(*old(self), *final(self), existing, reason@),
    {
        let head = text::join4(
            "Cannot use existing file ",
            existing.path.as_str(),
            ": ",
            reason,
        );
        let message = text::join2(
            head.as_str(),
            ". Choose overwrite or a numbered copy instead",
        );
        self.current_filename = existing.filename;
        self.current_path = existing.path;
        self.owns_target = false;
        self.status = DownloadStatus::Failed(message);
        self.publish(None, 0, 0, None, false);
    }
}

/// Law: an answer for a replaced download does not touch the prompt of the current one.
pub proof fn law_stale_answers_change_nothing(
    old: Session,
    new: Session,
    effect: Effect,
    session_id: u64,
    choice: Option<DuplicateChoice>,
)
    requires
        resolved(old, new, effect, session_id, choice),
        old.duplicate matches Some(pending) ==> pending.prompt.session_id != session_id,
    ensures
        new == old,
        effect is Nothing,
{
}

/// Law: a file on disk is opened for reuse only where its size allows it: as large as the remote
/// file, or smaller while the server serves ranges.
pub proof fn law_reuse_needs_a_fitting_file(
    old: Session,
    new: Session,
    effect: Effect,
    info: RemoteFileInfo,
    existing: ExistingFile,
)
    requires
        adoption_begun(old, new, effect, info, existing),
    ensures
        effect is OpenExisting ==> (info.content_length matches Some(total) && (existing.bytes
            == total || (existing.bytes < total && info@.uses_ranges()))),
        effect matches Effect::OpenExisting(request) ==> adoptable(request),
        !(effect is OpenExisting) ==> new.status is Failed,
{
}

/// Law: a file on disk whose bytes differ from the remote ones is refused without touching it:
/// nothing on the way to the refusal changes a file, and the download neither owns it nor starts.
pub proof fn law_refused_files_stay_untouched(
    old: Session,
    begun: Session,
    opening: Effect,
    info: RemoteFileInfo,
    existing: ExistingFile,
    request: AdoptRequest,
    outcome: OpenOutcome,
    opened: Session,
    next: Effect,
    reason: String,
    ended: Session,
    last: Effect,
    now: u64,
)
    requires
        adoption_begun(old, begun, opening, info, existing),
        opening == Effect::OpenExisting(request),
        existing_handled(begun, opened, next, request, outcome, now),
        next is CompareSamples,
        comparison_handled(opened, ended, last, request, Err(reason), now),
    ensures
        request.existing == existing,
        keeps_files(opening) && keeps_files(next) && keeps_files(last),
        ended.status is Failed,
        !ended.owns_target,
        ended.active_chunks == old.active_chunks,
{
}

/// Law: a file on disk only grows once its saved bytes were found in the remote file, or where it
/// holds none.
pub proof fn law_files_grow_after_they_were_compared(
    old: Session,
    new: Session,
    effect: Effect,
    request: AdoptRequest,
    outcome: OpenOutcome,
    result: Result<(), String>,
    now: u64,
)
    ensures
        existing_handled(old, new, effect, request, outcome, now) && effect is GrowExisting
            ==> request.existing.bytes == 0,
        comparison_handled(old, new, effect, request, result, now) && effect is GrowExisting
            ==> result is Ok,
{
}

/// Whether carrying out an effect, or what it sets out to do, replaces a file that is on disk.
pub open spec fn overwrites(effect: Effect) -> bool {
    match effect {
        Effect::CreateTarget(request) => request.mode == TargetMode::Overwrite,
        Effect::Stop { next: Stopped::Start { target, .. }, .. } => target == TargetMode::Overwrite,
        Effect::Fetch { kind: FetchInfoKind::Start { target, .. }, .. } => target
            == TargetMode::Overwrite,
        _ => false,
    }
}

/// Law: the user's answer is what is done: a file is replaced only where overwriting was chosen, a
/// copy is numbered where that was chosen, a reused file is opened as it is, and no answer leaves
/// every file alone.
pub proof fn law_answers_are_carried_out(
    old: Session,
    new: Session,
    effect: Effect,
    request: DuplicateRequest,
    choice: Option<DuplicateChoice>,
)
    requires
        applied(old, new, effect, request, choice),
    ensures
        overwrites(effect) ==> choice == Some(DuplicateChoice::Overwrite),
        choice == Some(DuplicateChoice::Overwrite) ==> overwrites(effect),
        effect matches Effect::CreateTarget(target) ==> {
            &&& request matches DuplicateRequest::Target { save_path, num_chunks, info, .. }
                && target.save_path == save_path && target.num_chunks == num_chunks && target.info
                == info
            &&& target.decided
            &&& target.mode != TargetMode::Ask
            &&& target.mode == TargetMode::Numbered ==> choice == Some(DuplicateChoice::Numbered)
        },
        effect matches Effect::Stop {
            cancel,
            next: Stopped::Start { url, save_path, num_chunks, target },
        } ==> {
            &&& cancel
            &&& request == (DuplicateRequest::Link { url, save_path, num_chunks })
            &&& target != TargetMode::Ask
            &&& target == TargetMode::Numbered ==> choice == Some(DuplicateChoice::Numbered)
        },
        choice == Some(DuplicateChoice::Numbered) || choice == Some(DuplicateChoice::Overwrite) ==> {
            &&& request is Target ==> effect is CreateTarget
            &&& request is Link ==> (effect matches Effect::Stop { next, .. } && next is Start)
        },
        choice is None ==> effect is Nothing && new.active_chunks == old.active_chunks
            && new.owns_target == old.owns_target && new.session_id == old.session_id,
        choice is None && request is Target ==> new.status is Idle,
        choice is None && request is Link ==> new.status == old.status,
        choice == Some(DuplicateChoice::UseExisting) ==> {
            &&& request is Target ==> effect is OpenExisting || effect is Nothing
            &&& request is Link ==> effect is Nothing || effect == (Effect::Stop {
                cancel: false,
                next: Stopped::Resume,
            })
            &&& request is Link && (old.status is Paused || (old.status is Failed
                && old.snapshot.resumable)) ==> effect is Stop
        },
        new.duplicate == old.duplicate || new.duplicate is None,
{
}

/// Law: an answer to the pending question clears it and does what was chosen, and only that.
pub proof fn law_resolved_questions_are_cleared(
    old: Session,
    new: Session,
    effect: Effect,
    session_id: u64,
    choice: Option<DuplicateChoice>,
)
    requires
        resolved(old, new, effect, session_id, choice),
    ensures
        overwrites(effect) ==> choice == Some(DuplicateChoice::Overwrite),
        old.duplicate matches Some(pending) ==> {
            &&& pending.prompt.session_id == session_id ==> new.duplicate is None
            &&& pending.prompt.session_id == session_id && choice == Some(
                DuplicateChoice::Overwrite,
            ) ==> overwrites(effect)
            &&& pending.prompt.session_id == session_id && choice == Some(DuplicateChoice::Numbered)
                && pending.request is Target ==> (effect matches Effect::CreateTarget(target)
                && target.mode == TargetMode::Numbered)
            &&& pending.prompt.session_id == session_id && choice == Some(DuplicateChoice::Numbered)
                && pending.request is Link ==> (effect matches Effect::Stop {
                next: Stopped::Start { target, .. },
                ..
            } && target == TargetMode::Numbered)
        },
{
}

/// Law: without a remembered decision a duplicate waits for the user: the question is shown and
/// nothing else happens. With one, the remembered decision is carried out.
pub proof fn law_duplicates_wait_for_a_decision(
    old: Session,
    new: Session,
    effect: Effect,
    pending: PendingDuplicate,
)
    requires
        settled(old, new, effect, pending),
    ensures
        old.duplicate_preference is None ==> {
            &&& effect is Nothing
            &&& new.duplicate == Some(pending)
            &&& new.snapshot.duplicate == Some(pending.prompt)
            &&& new.active_chunks == old.active_chunks
            &&& new.status == old.status
            &&& new.session_id == old.session_id
        },
        overwrites(effect) ==> old.duplicate_preference == Some(DuplicateChoice::Overwrite),
        old.duplicate_preference == Some(DuplicateChoice::Overwrite) ==> overwrites(effect),
        old.duplicate_preference == Some(DuplicateChoice::Numbered) && pending.request is Target
            ==> (effect matches Effect::CreateTarget(target) && target.mode
            == TargetMode::Numbered),
{
}

/// Law: a question names what it is about: the link or the file, the session, and the bytes that are
/// there.
pub proof fn law_questions_name_their_subject(
    old: Session,
    new: Session,
    effect: Effect,
    url: String,
    save_path: FilePath,
    num_chunks: usize,
    info: RemoteFileInfo,
    existing: ExistingFile,
)
    requires
        old.duplicate_preference is None,
    ensures
        link_asked(old, new, effect, url, save_path, num_chunks) ==> {
            &&& effect is Nothing
            &&& new.snapshot.duplicate matches Some(prompt) && prompt.session_id == old.session_id
                && prompt.url@ == url@ && prompt.filename == old.current_filename
                && prompt.link_duplicate
            &&& new.duplicate matches Some(pending) && pending.request == (DuplicateRequest::Link {
                url,
                save_path,
                num_chunks,
            })
        },
        target_asked(old, new, effect, save_path, num_chunks, info, existing) ==> {
            &&& effect is Nothing
            &&& new.snapshot.duplicate matches Some(prompt) && prompt.session_id == old.session_id
                && prompt.url == old.current_url && prompt.filename == existing.filename
                && prompt.existing_bytes == Some(existing.bytes) && !prompt.link_duplicate
            &&& new.duplicate matches Some(pending) && pending.request == (DuplicateRequest::Target {
                save_path,
                num_chunks,
                info,
                existing,
            })
        },
{
}

/// Law: a link is a duplicate exactly where it is the one of the download in the list.
pub proof fn law_only_the_listed_link_is_a_duplicate(session: Session, url: Seq<char>)
    ensures
        is_duplicate_link(session, url) ==> !(session.status is Idle) && url
            == session.current_url@,
        !(session.status is Idle) && url == session.current_url@ && url.len() > 0
            ==> is_duplicate_link(session, url),
        url.len() == 0 ==> !is_duplicate_link(session, url),
{
}

/// Law: a file on disk is reused wherever its size allows it, as it is, and refused otherwise
/// without being owned.
pub proof fn law_fitting_files_are_reused(
    old: Session,
    new: Session,
    effect: Effect,
    info: RemoteFileInfo,
    existing: ExistingFile,
)
    requires
        adoption_begun(old, new, effect, info, existing),
    ensures
        (info.content_length == Some(existing.bytes) || (info.accepts_ranges
            && info.content_length is Some && existing.bytes < info.content_length->0)) ==> {
            &&& new == old
            &&& effect matches Effect::OpenExisting(request) && request.info == info
                && request.existing == existing && Some(request.total) == info.content_length
                && request.complete == (existing.bytes == request.total)
        },
        info.content_length is None || existing.bytes > info.content_length->0 || (!info.accepts_ranges
            && existing.bytes != info.content_length->0) ==> {
            &&& effect is Nothing
            &&& new.status is Failed
            &&& !new.owns_target
            &&& new.current_path == existing.path
            &&& new.active_chunks == old.active_chunks
            &&& !new.snapshot.resumable
        },
{
}

/// Law: the first and the last bytes of a file on disk are compared before it is trusted, unless it
/// holds none.
pub proof fn law_reused_files_are_compared_at_both_ends(
    old: Session,
    new: Session,
    effect: Effect,
    request: AdoptRequest,
    now: u64,
)
    requires
        existing_handled(old, new, effect, request, OpenOutcome::Opened, now),
        request.existing.bytes > 0,
    ensures
        new == old,
        effect matches Effect::CompareSamples { request: held, samples } && {
            &&& held == request
            &&& samples.starts@.len() > 0
            &&& samples.starts@[0] == 0
            &&& samples.starts@.last() + samples.length == request.existing.bytes
            &&& samples.length == request.existing.bytes || samples.length == 4096
        },
{
    resume::law_samples_span_the_saved_bytes(0, request.existing.bytes);
}

/// Law: a reused file keeps its bytes: a complete one is done at once, and of another one only bytes
/// beyond the saved ones are fetched.
pub proof fn law_reused_files_keep_their_bytes(
    old: Session,
    new: Session,
    effect: Effect,
    request: AdoptRequest,
    now: u64,
)
    requires
        new.wf(),
        adoptable(request),
        adopted(old, new, effect, request, now),
    ensures
        new.owns_target && new.has_storage,
        new.current_path == request.existing.path,
        new.file_info == Some(request.info),
        request.existing.bytes == request.total ==> {
            &&& new.status is Completed
            &&& effect is Nothing
            &&& new.downloaded() == request.total
            &&& new.snapshot.downloaded_bytes == request.total
        },
        request.existing.bytes < request.total ==> {
            &&& new.status is Downloading
            &&& new.downloaded() == request.existing.bytes
            &&& new.snapshot.downloaded_bytes == request.existing.bytes
            &&& new.snapshot.total_bytes == Some(request.total)
            &&& effect matches Effect::Launch(launches) && forall|k: int|
                0 <= k < launches@.len() ==> (#[trigger] launches@[k] matches WorkerLaunch::Chunk {
                    range,
                    downloaded,
                    total_size,
                    validator,
                } && range.start >= request.existing.bytes && downloaded == 0 && total_size
                    == request.total && text::string_text(validator)
                    == request.info@.resume_validator())
        },
        request.existing.bytes < request.total ==> forall|i: int|
            0 <= i < new.active_chunks@.len() ==> (#[trigger] new.active_chunks@[i]).live
                || new.active_chunks@[i].is_done,
{
    if request.complete {
        let list = new.active_chunks@;
        if request.total > 0 {
            assert(list.drop_last() =~= Seq::<scheduler::ActiveChunk>::empty());
            assert(scheduler::downloaded_sum(list.drop_last()) == 0);
        }
    } else {
        let bytes = request.existing.bytes as int;
        let total = request.total as int;
        let workers = old.current_num_chunks as int;
        let seed = choose|seed: Seq<scheduler::ActiveChunk>|
            {
                &&& #[trigger] resume::seeded(seed, bytes, total, workers, now)
                &&& new.active_chunks@ == scheduler::taken_list(seed, now)
                &&& new.downloaded() == request.existing.bytes
                &&& new == (Session {
                    status: DownloadStatus::Downloading,
                    current_filename: request.existing.filename,
                    current_path: request.existing.path,
                    owns_target: true,
                    active_chunks: new.active_chunks,
                    has_storage: true,
                    file_info: Some(request.info),
                    ..old
                }).published(Some(request.total), request.existing.bytes as int, true)
                &&& effect matches Effect::Launch(launches) && session::launches_chunks(
                    launches@,
                    scheduler::idle_ids(seed),
                    new.active_chunks@,
                    request.total,
                    request.info@.resume_validator(),
                )
            };
        assert(resume::seeded(seed, bytes, total, workers, now));
        let ids = scheduler::idle_ids(seed);
        let launches = effect->Launch_0@;
        assert(seed.len() == new.active_chunks@.len() <= usize::MAX) by {
            assert(new.active_chunks.len() == new.active_chunks@.len());
        }
        scheduler::law_exactly_the_idle_chunks_are_handed_out(seed);
        assert forall|k: int| 0 <= k < launches.len() implies (
        #[trigger] launches[k] matches WorkerLaunch::Chunk {
            range,
            downloaded,
            total_size,
            validator,
        } && range.start >= request.existing.bytes && downloaded == 0 && total_size == request.total
            && text::string_text(validator) == request.info@.resume_validator()) by {
            let i = ids[k] as int;
            assert(ids.contains(i as usize));
            assert(!seed[i].is_done);
            scheduler::law_handing_out_leaves_no_chunk_idle(seed, now, i);
            let saved = if bytes > 0 {
                1int
            } else {
                0int
            };
            assert(i >= saved);
            let count = seed.len() - saved;
            crate::engine::chunks::lemma_chunk_step(total - bytes, count, i - saved);
        }
        assert forall|i: int| 0 <= i < new.active_chunks@.len() implies (
        #[trigger] new.active_chunks@[i]).live || new.active_chunks@[i].is_done by {
            scheduler::law_handing_out_leaves_no_chunk_idle(seed, now, i);
        }
    }
}

} // verus!
