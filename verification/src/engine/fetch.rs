//! Asking the server about a file, and holding a saved download against its answer, as a state
//! machine.
use crate::client::range;
use crate::client::RemoteFileInfo;
use crate::engine::chunks::ChunkRange;
use crate::engine::resume;
use crate::engine::resume::{needs_latest_info, retries_fetch, SavedCheck, SavedDownload};
use crate::engine::scheduler::MAX_CHUNK_RETRIES;
use crate::engine::worker::WorkerError;
use crate::text;
use vstd::prelude::*;

verus! {

/// How far the answer is.
pub enum FetchPhase {
    /// Nothing was asked yet.
    Ready,
    /// The server was asked.
    Asking,
    /// Saved samples are compared with the remote file.
    Comparing { info: RemoteFileInfo, samples: Vec<(u64, u64)>, is_broken: bool, next: usize },
    Ended,
}

/// A question about a file, with what is saved of it.
pub struct FetchTask {
    /// The download is complete and checked once more.
    pub is_final_check: bool,
    pub saved: Option<SavedDownload>,
    pub retries: u8,
    pub phase: FetchPhase,
}

/// What happened outside.
pub enum FetchEvent {
    /// Begin, or go on after a pause.
    Begin,
    /// The server described the file, or did not.
    Described(Result<RemoteFileInfo, WorkerError>),
    /// A sample was compared.
    Compared(Result<(), WorkerError>),
}

/// What has to be done outside.
pub enum FetchAction {
    /// Ask the server to describe the file.
    Ask,
    /// Compare saved bytes with the same bytes of the remote file.
    Compare { start: u64, length: u64, total_size: u64, validator: Option<String> },
    /// Pause a moment before trying again.
    Pause,
    /// Hand the answer to the session.
    Finish(Result<RemoteFileInfo, WorkerError>),
}

/// The samples of one saved chunk.
pub open spec fn chunk_samples(chunk: (ChunkRange, u64)) -> Seq<(u64, u64)> {
    let length = resume::sample_len(chunk.1 as int) as u64;
    resume::sample_starts(chunk.0.start as int, chunk.1 as int).map_values(
        |start: u64| (start, length),
    )
}

/// Whether the progress of a saved chunk makes no sense.
pub open spec fn is_bad_chunk(chunk: (ChunkRange, u64), total_size: u64) -> bool {
    chunk.1 > 0 && !resume::progress_fits(chunk.0, chunk.1, total_size)
}

/// The samples of saved chunks up to the first one whose progress makes no sense, and whether
/// there is such a one.
pub open spec fn samples_of_all(chunks: Seq<(ChunkRange, u64)>, total_size: u64) -> (
    Seq<(u64, u64)>,
    bool,
)
    decreases chunks.len(),
{
    if chunks.len() == 0 {
        (Seq::empty(), false)
    } else {
        let (earlier, is_broken) = samples_of_all(chunks.drop_last(), total_size);
        if is_broken || is_bad_chunk(chunks.last(), total_size) {
            (earlier, true)
        } else {
            (earlier + chunk_samples(chunks.last()), false)
        }
    }
}

/// The samples of a saved download up to the first chunk whose progress makes no sense, and
/// whether there is such a one.
pub fn saved_samples(saved: &SavedDownload, total_size: u64) -> (r: (Vec<(u64, u64)>, bool))
    ensures
        (r.0@, r.1) == samples_of_all(saved.chunks@, total_size),
{
    let mut all: Vec<(u64, u64)> = Vec::new();
    let mut is_broken = false;
    let mut i: usize = 0;
    assert(saved.chunks@.take(0) =~= Seq::<(ChunkRange, u64)>::empty());
    while i < saved.chunks.len()
        invariant
            i <= saved.chunks@.len(),
            (all@, is_broken) == samples_of_all(saved.chunks@.take(i as int), total_size),
        decreases saved.chunks@.len() - i,
    {
        let ghost taken = saved.chunks@.take(i + 1);
        proof {
            assert(taken.drop_last() =~= saved.chunks@.take(i as int));
            assert(taken.last() == saved.chunks@[i as int]);
        }
        if !is_broken {
            match saved.samples_of(i, total_size) {
                Ok(samples) => {
                    let ghost before = all@;
                    let ghost added = chunk_samples(saved.chunks@[i as int]);
                    let mut j: usize = 0;
                    assert(before + added.take(0) =~= before);
                    while j < samples.starts.len()
                        invariant
                            j <= samples.starts@.len(),
                            added.len() == samples.starts@.len(),
                            forall|k: int|
                                0 <= k < added.len() ==> (#[trigger] added[k]) == (
                                    samples.starts@[k],
                                    samples.length,
                                ),
                            all@ == before + added.take(j as int),
                        decreases samples.starts@.len() - j,
                    {
                        all.push((samples.starts[j], samples.length));
                        assert(added.take(j + 1) =~= added.take(j as int).push(added[j as int]));
                        assert(all@ =~= before + added.take(j + 1));
                        j += 1;
                    }
                    assert(added.take(added.len() as int) =~= added);
                },
                Err(_) => {
                    is_broken = true;
                },
            }
        }
        i += 1;
    }
    assert(saved.chunks@.take(saved.chunks@.len() as int) =~= saved.chunks@);
    (all, is_broken)
}

impl FetchTask {
    /// Whether saved bytes depend on the answer.
    pub open spec fn guards(self) -> bool {
        self.saved matches Some(saved) && saved.info@.uses_ranges()
    }

    /// Samples are only compared with a file that can be the saved one.
    pub open spec fn wf(self) -> bool {
        &&& self.retries <= MAX_CHUNK_RETRIES
        &&& match self.phase {
            FetchPhase::Comparing { info, samples, is_broken, next } => {
                &&& self.saved matches Some(saved) && saved.info@.metadata_matches(info@) && (
                samples@, is_broken) == samples_of_all(saved.chunks@, info.content_length->0)
                &&& info@.uses_ranges()
                &&& next <= samples@.len()
            },
            _ => true,
        }
    }

    /// Whether the task ends with an answer.
    pub open spec fn ends(
        self,
        result: Result<RemoteFileInfo, WorkerError>,
        after: FetchTask,
        action: FetchAction,
    ) -> bool {
        after == (FetchTask { phase: FetchPhase::Ended, ..self }) && action
            == FetchAction::Finish(result)
    }

    /// What a failure does: one that may pass is tried again a few times where bytes are saved.
    pub open spec fn failed(self, error: WorkerError, after: FetchTask, action: FetchAction) -> bool {
        if self.saved is Some && self.retries < MAX_CHUNK_RETRIES && error.may_retry() {
            after == (FetchTask {
                retries: (self.retries + 1) as u8,
                phase: FetchPhase::Ready,
                ..self
            }) && action is Pause
        } else {
            self.ends(Err(error), after, action)
        }
    }

    /// What follows when some samples of a saved download agreed.
    pub open spec fn compares(
        self,
        info: RemoteFileInfo,
        next: int,
        after: FetchTask,
        action: FetchAction,
    ) -> bool {
        let total_size = info.content_length->0;
        let (samples, is_broken) = samples_of_all(self.saved->0.chunks@, total_size);
        if next < samples.len() {
            &&& after.phase matches FetchPhase::Comparing {
                info: held,
                samples: left,
                is_broken: broken,
                next: position,
            } && held == info && left@ == samples && broken == is_broken && position == next
            &&& after == (FetchTask { phase: after.phase, ..self })
            &&& action matches FetchAction::Compare { start, length, total_size: total, validator }
                && start == samples[next].0 && length == samples[next].1 && total == total_size
                && text::string_text(validator) == info@.resume_validator()
        } else if is_broken {
            &&& after == (FetchTask { phase: FetchPhase::Ended, ..self })
            &&& action matches FetchAction::Finish(Err(WorkerError::InvalidRange(reason)))
                && reason@ == "Invalid saved chunk progress"@
        } else {
            self.ends(Ok(info), after, action)
        }
    }

    /// What a description does: it has to fit a saved download, whose bytes are compared unless a
    /// strong entity tag vouches for them.
    pub open spec fn described(
        self,
        info: RemoteFileInfo,
        after: FetchTask,
        action: FetchAction,
    ) -> bool {
        if !self.guards() {
            self.ends(Ok(info), after, action)
        } else if !info@.uses_ranges() || !self.saved->0.info@.metadata_matches(info@) {
            self.ends(
                Err(WorkerError::Client(crate::client::ClientError::ContentChanged)),
                after,
                action,
            )
        } else if range::strong_validator(info@.etag) {
            self.ends(Ok(info), after, action)
        } else {
            self.compares(info, 0, after, action)
        }
    }

    /// Whether the server is asked: not for a final check where the whole file came as one stream,
    /// nor where a strong entity tag held all along.
    pub open spec fn asks(self) -> bool {
        !(self.is_final_check && (self.saved matches Some(saved) && (!saved.info@.uses_ranges()
            || range::strong_validator(saved.info@.etag))))
    }

    /// What an event does.
    pub open spec fn stepped(self, event: FetchEvent, after: FetchTask, action: FetchAction) -> bool {
        match (self.phase, event) {
            (FetchPhase::Ready, FetchEvent::Begin) => if self.asks() {
                after == (FetchTask { phase: FetchPhase::Asking, ..self }) && action is Ask
            } else {
                self.described(self.saved->0.info, after, action)
            },
            (FetchPhase::Asking, FetchEvent::Described(Ok(info))) => self.described(
                info,
                after,
                action,
            ),
            (FetchPhase::Asking, FetchEvent::Described(Err(error))) => self.failed(
                error,
                after,
                action,
            ),
            (
                FetchPhase::Comparing { info, samples, is_broken, next },
                FetchEvent::Compared(Ok(_)),
            ) => self.compares(info, next + 1, after, action),
            (FetchPhase::Comparing { .. }, FetchEvent::Compared(Err(error))) => self.failed(
                error,
                after,
                action,
            ),
            _ => after == self && action is Pause,
        }
    }

    pub fn new(is_final_check: bool, saved: Option<SavedDownload>) -> (r: FetchTask)
        ensures
            r.wf(),
            r == (FetchTask { is_final_check, saved, retries: 0, phase: FetchPhase::Ready }),
    {
        FetchTask { is_final_check, saved, retries: 0, phase: FetchPhase::Ready }
    }

    fn fail(&mut self, error: WorkerError) -> (action: FetchAction)
        requires
            old(self).retries <= MAX_CHUNK_RETRIES,
        ensures
            final(self).wf(),
            old(self).failed(error, *final(self), action),
    {
        if retries_fetch(self.saved.is_some(), self.retries, &error) {
            self.retries = self.retries + 1;
            self.phase = FetchPhase::Ready;
            return FetchAction::Pause;
        }
        self.phase = FetchPhase::Ended;
        FetchAction::Finish(Err(error))
    }

    fn compare_next(
        &mut self,
        info: RemoteFileInfo,
        samples: Vec<(u64, u64)>,
        is_broken: bool,
        next: usize,
    ) -> (action: FetchAction)
        requires
            old(self).retries <= MAX_CHUNK_RETRIES,
            info@.uses_ranges(),
            old(self).saved matches Some(saved) && saved.info@.metadata_matches(info@) && (
            samples@, is_broken) == samples_of_all(saved.chunks@, info.content_length->0),
        ensures
            final(self).wf(),
            old(self).compares(info, next as int, *final(self), action),
    {
        if next < samples.len() {
            let (start, length) = samples[next];
            let total_size: u64 = match info.content_length {
                Some(total) => total,
                None => 0,
            };
            let validator = match info.resume_validator() {
                Some(tag) => Some(tag.to_owned()),
                None => None,
            };
            self.phase = FetchPhase::Comparing { info, samples, is_broken, next };
            return FetchAction::Compare { start, length, total_size, validator };
        }
        self.phase = FetchPhase::Ended;
        if is_broken {
            FetchAction::Finish(Err(WorkerError::InvalidRange("Invalid saved chunk progress")))
        } else {
            FetchAction::Finish(Ok(info))
        }
    }

    fn describe(&mut self, info: RemoteFileInfo) -> (action: FetchAction)
        requires
            old(self).retries <= MAX_CHUNK_RETRIES,
        ensures
            final(self).wf(),
            old(self).described(info, *final(self), action),
    {
        let check = match &self.saved {
            Some(saved) => if saved.info.uses_range_workers() {
                saved.check(&info)
            } else {
                SavedCheck::Vouched
            },
            None => SavedCheck::Vouched,
        };
        match check {
            SavedCheck::Changed => {
                self.phase = FetchPhase::Ended;
                FetchAction::Finish(Err(resume::content_changed()))
            },
            SavedCheck::Vouched => {
                self.phase = FetchPhase::Ended;
                FetchAction::Finish(Ok(info))
            },
            SavedCheck::Compare => {
                let (samples, is_broken) = match (&self.saved, info.content_length) {
                    (Some(saved), Some(total_size)) => saved_samples(saved, total_size),
                    _ => (Vec::new(), false),
                };
                self.compare_next(info, samples, is_broken, 0)
            },
        }
    }

    /// Takes an event, and says what has to be done next.
    pub fn step(&mut self, event: FetchEvent) -> (action: FetchAction)
        requires
            old(self).wf(),
        ensures
            final(self).wf(),
            old(self).stepped(event, *final(self), action),
    {
        let mut phase = FetchPhase::Ended;
        std::mem::swap(&mut phase, &mut self.phase);
        match (phase, event) {
            (FetchPhase::Ready, FetchEvent::Begin) => {
                let asks = match &self.saved {
                    Some(saved) => needs_latest_info(self.is_final_check, Some(saved)),
                    None => true,
                };
                if asks {
                    self.phase = FetchPhase::Asking;
                    return FetchAction::Ask;
                }
                match &self.saved {
                    Some(saved) => {
                        let info = saved.info.copy();
                        self.describe(info)
                    },
                    None => FetchAction::Ask,
                }
            },
            (FetchPhase::Asking, FetchEvent::Described(Ok(info))) => self.describe(info),
            (FetchPhase::Asking, FetchEvent::Described(Err(error))) => self.fail(error),
            (
                FetchPhase::Comparing { info, samples, is_broken, next },
                FetchEvent::Compared(Ok(_)),
            ) => {
                if next == samples.len() {
                    return self.compare_next(info, samples, is_broken, next);
                }
                self.compare_next(info, samples, is_broken, next + 1)
            },
            (FetchPhase::Comparing { .. }, FetchEvent::Compared(Err(error))) => self.fail(error),
            (phase, _) => {
                self.phase = phase;
                FetchAction::Pause
            },
        }
    }
}

/// Law: a saved download that is fetched in ranges is only continued with a description that
/// agrees with the saved one, and only after a strong entity tag vouched for it or every sample
/// was compared.
pub proof fn law_saved_bytes_are_vouched_for(
    task: FetchTask,
    event: FetchEvent,
    after: FetchTask,
    action: FetchAction,
    info: RemoteFileInfo,
)
    requires
        task.wf(),
        task.guards(),
        task.stepped(event, after, action),
        action == FetchAction::Finish(Ok::<RemoteFileInfo, WorkerError>(info)),
    ensures
        task.saved->0.info@.metadata_matches(info@),
        info@.uses_ranges(),
        ({
            ||| range::strong_validator(info@.etag)
            ||| forall|i: int|
                0 <= i < task.saved->0.chunks@.len() ==> (#[trigger] task.saved->0.chunks@[i]).1
                    == 0
            ||| (task.phase matches FetchPhase::Comparing { info: held, samples, is_broken, next }
                && held == info && next + 1 >= samples@.len() && sound_to(
                task.saved->0.chunks@,
                info.content_length->0,
                task.saved->0.chunks@.len() as int,
            )) && event is Compared
        }),
{
    let chunks = task.saved->0.chunks@;
    let total_size = info.content_length->0;
    law_senseless_progress_is_noticed(chunks, total_size);
    if !range::strong_validator(info@.etag) && !(task.phase is Comparing) {
        assert(samples_of_all(chunks, total_size).0.len() == 0);
        assert forall|i: int| 0 <= i < chunks.len() implies (#[trigger] chunks[i]).1 == 0 by {
            if chunks[i].1 > 0 {
                law_every_saved_chunk_is_sampled(chunks, total_size, i);
            }
        }
    }
}

/// Law: a question is asked again only a bounded number of times.
pub proof fn law_fetches_end(
    task: FetchTask,
    event: FetchEvent,
    after: FetchTask,
    action: FetchAction,
)
    requires
        task.wf(),
        task.stepped(event, after, action),
    ensures
        task.retries <= after.retries <= MAX_CHUNK_RETRIES,
        after.phase is Ready && !(task.phase is Ready) ==> after.retries == task.retries + 1,
{
}

/// The progress of the first `n` saved chunks lies in their ranges and in the file.
pub open spec fn sound_to(chunks: Seq<(ChunkRange, u64)>, total_size: u64, n: int) -> bool {
    forall|j: int|
        0 <= j < n && 0 < (#[trigger] chunks[j]).1 ==> chunks[j].0.start + chunks[j].1 <= total_size
            && chunks[j].0.start + chunks[j].1 <= chunks[j].0.end + 1
}

/// Law: a saved download is refused for its bookkeeping exactly where some chunk claims bytes that
/// lie outside its range or outside the file.
pub proof fn law_senseless_progress_is_noticed(chunks: Seq<(ChunkRange, u64)>, total_size: u64)
    ensures
        !samples_of_all(chunks, total_size).1 <==> sound_to(
            chunks,
            total_size,
            chunks.len() as int,
        ),
    decreases chunks.len(),
{
    if chunks.len() > 0 {
        let rest = chunks.drop_last();
        let n = chunks.len() as int;
        law_senseless_progress_is_noticed(rest, total_size);
        assert(forall|j: int| 0 <= j < n - 1 ==> (#[trigger] rest[j]) == chunks[j]);
        assert(chunks.last() == chunks[n - 1]);
        if sound_to(rest, total_size, n - 1) {
            assert forall|j: int| 0 <= j < n - 1 && 0 < (#[trigger] chunks[j]).1 implies
                chunks[j].0.start + chunks[j].1 <= total_size && chunks[j].0.start + chunks[j].1
                <= chunks[j].0.end + 1 by {
                assert(rest[j] == chunks[j]);
            }
        }
        if sound_to(chunks, total_size, n) {
            assert forall|j: int| 0 <= j < n - 1 && 0 < (#[trigger] rest[j]).1 implies
                rest[j].0.start + rest[j].1 <= total_size && rest[j].0.start + rest[j].1
                <= rest[j].0.end + 1 by {
                assert(rest[j] == chunks[j]);
            }
        }
    }
}

/// Law: of every saved chunk that holds bytes, up to the first senseless one, a sample from the
/// first saved byte and a sample up to the last saved byte are compared, each as long as the saved
/// bytes or as the overlap of a request.
pub proof fn law_every_saved_chunk_is_sampled(
    chunks: Seq<(ChunkRange, u64)>,
    total_size: u64,
    i: int,
)
    requires
        0 <= i < chunks.len(),
        chunks[i].1 > 0,
        sound_to(chunks, total_size, i + 1),
    ensures
        ({
            let samples = samples_of_all(chunks, total_size).0;
            let (part, saved) = chunks[i];
            &&& exists|k: int|
                0 <= k < samples.len() && (#[trigger] samples[k]).0 == part.start && (samples[k].1
                    == saved || samples[k].1 == 4096)
            &&& exists|k: int|
                0 <= k < samples.len() && (#[trigger] samples[k]).0 + samples[k].1 == part.start
                    + saved && (samples[k].1 == saved || samples[k].1 == 4096)
        }),
    decreases chunks.len(),
{
    let rest = chunks.drop_last();
    let n = chunks.len() as int;
    let earlier = samples_of_all(rest, total_size).0;
    let samples = samples_of_all(chunks, total_size).0;
    let (part, saved) = chunks[i];
    if i < n - 1 {
        assert(rest[i] == chunks[i]);
        assert forall|j: int| 0 <= j < i + 1 && 0 < (#[trigger] rest[j]).1 implies
            rest[j].0.start + rest[j].1 <= total_size && rest[j].0.start + rest[j].1
            <= rest[j].0.end + 1 by {
            assert(rest[j] == chunks[j]);
        }
        law_every_saved_chunk_is_sampled(rest, total_size, i);
        let a = choose|k: int|
            0 <= k < earlier.len() && (#[trigger] earlier[k]).0 == part.start && (earlier[k].1
                == saved || earlier[k].1 == 4096);
        let b = choose|k: int|
            0 <= k < earlier.len() && (#[trigger] earlier[k]).0 + earlier[k].1 == part.start
                + saved && (earlier[k].1 == saved || earlier[k].1 == 4096);
        assert(samples[a] == earlier[a]);
        assert(samples[b] == earlier[b]);
    } else {
        law_senseless_progress_is_noticed(chunks, total_size);
        law_senseless_progress_is_noticed(rest, total_size);
        let own = chunk_samples(chunks.last());
        assert(samples == earlier + own);
        resume::law_samples_span_the_saved_bytes(part.start, saved);
        assert(samples[earlier.len() as int] == own[0]);
        assert(samples[samples.len() - 1] == own.last());
        assert(own[0].0 == part.start);
        assert(own.last().0 + own.last().1 == part.start + saved);
    }
}

/// Law: every sample that is compared lies inside the saved bytes of some chunk, and none is empty.
pub proof fn law_only_saved_bytes_are_sampled(
    chunks: Seq<(ChunkRange, u64)>,
    total_size: u64,
    k: int,
)
    requires
        0 <= k < samples_of_all(chunks, total_size).0.len(),
    ensures
        ({
            let (start, length) = samples_of_all(chunks, total_size).0[k];
            &&& length > 0
            &&& exists|i: int|
                0 <= i < chunks.len() && (#[trigger] chunks[i]).0.start <= start && start + length
                    <= chunks[i].0.start + chunks[i].1
        }),
    decreases chunks.len(),
{
    if chunks.len() > 0 {
        let rest = chunks.drop_last();
        let n = chunks.len() as int;
        let earlier = samples_of_all(rest, total_size).0;
        let samples = samples_of_all(chunks, total_size).0;
        let (start, length) = samples[k];
        if k < earlier.len() {
            law_only_saved_bytes_are_sampled(rest, total_size, k);
            let i = choose|i: int|
                0 <= i < rest.len() && (#[trigger] rest[i]).0.start <= start && start + length
                    <= rest[i].0.start + rest[i].1;
            assert(chunks[i] == rest[i]);
        } else {
            let (part, saved) = chunks[n - 1];
            let own = chunk_samples(chunks.last());
            assert(samples[k] == own[k - earlier.len()]);
            if saved > 0 {
                resume::law_samples_span_the_saved_bytes(part.start, saved);
            }
            assert(chunks[n - 1].0.start <= start);
        }
    }
}

/// Law: samples are compared one after the other, from the first on, each once: a comparison is
/// asked for only as the next of the list that the saved chunks give.
pub proof fn law_samples_are_compared_in_turn(
    task: FetchTask,
    event: FetchEvent,
    after: FetchTask,
    action: FetchAction,
    start: u64,
    length: u64,
    total_size: u64,
    validator: Option<String>,
)
    requires
        task.wf(),
        task.stepped(event, after, action),
        action == (FetchAction::Compare { start, length, total_size, validator }),
    ensures
        after.saved == task.saved,
        after.phase matches FetchPhase::Comparing { info, samples, next, .. } && {
            &&& next < samples@.len()
            &&& samples@[next as int] == (start, length)
            &&& info.content_length == Some(total_size)
            &&& samples@ == samples_of_all(task.saved->0.chunks@, total_size).0
            &&& match task.phase {
                FetchPhase::Comparing { next: before, .. } => next == before + 1
                    && event is Compared,
                _ => next == 0,
            }
        },
{
}

/// Law: a failed question or a failed comparison never lets a download go on.
pub proof fn law_failures_never_let_a_download_go_on(
    task: FetchTask,
    event: FetchEvent,
    after: FetchTask,
    action: FetchAction,
    error: WorkerError,
)
    requires
        task.stepped(event, after, action),
        event == FetchEvent::Described(Err::<RemoteFileInfo, WorkerError>(error)) || event
            == FetchEvent::Compared(Err::<(), WorkerError>(error)),
    ensures
        action is Pause || action == FetchAction::Finish(Err::<RemoteFileInfo, WorkerError>(error)),
        error.changed() && (task.phase is Asking || task.phase is Comparing) && (task.phase is Asking
            <==> event is Described) ==> action is Finish,
{
}

/// Law: a saved download whose description agrees goes on at once where a strong entity tag vouches
/// for it; one whose description does not agree is reported as changed; without saved ranges any
/// description is taken.
pub proof fn law_descriptions_decide_about_saved_bytes(
    task: FetchTask,
    info: RemoteFileInfo,
    after: FetchTask,
    action: FetchAction,
)
    requires
        task.phase is Asking,
        task.stepped(
            FetchEvent::Described(Ok::<RemoteFileInfo, WorkerError>(info)),
            after,
            action,
        ),
    ensures
        task.saved is None ==> action == FetchAction::Finish(Ok::<RemoteFileInfo, WorkerError>(info)),
        task.saved matches Some(saved) ==> {
            &&& !saved.info.accepts_ranges || saved.info.content_length is None ==> action
                == FetchAction::Finish(Ok::<RemoteFileInfo, WorkerError>(info))
            &&& saved.info@.uses_ranges() && (!info.accepts_ranges || info.content_length
                != saved.info.content_length || info@.etag != saved.info@.etag) ==> (
            action matches FetchAction::Finish(Err(error)) && error.changed())
            &&& saved.info@.uses_ranges() && info.accepts_ranges && info.content_length
                == saved.info.content_length && info@.etag == saved.info@.etag
                && range::strong_validator(info@.etag) ==> action == FetchAction::Finish(
                Ok::<RemoteFileInfo, WorkerError>(info),
            )
        },
{
}

/// Law: the server is asked before anything is resumed; only the final check of a download that came
/// as one stream, or that a strong entity tag vouched for all along, does without.
pub proof fn law_the_server_is_asked_before_resuming(
    task: FetchTask,
    after: FetchTask,
    action: FetchAction,
)
    requires
        task.phase is Ready,
        task.stepped(FetchEvent::Begin, after, action),
    ensures
        !task.is_final_check || task.saved is None ==> action is Ask && after.phase is Asking,
        (task.saved matches Some(saved) && saved.info@.uses_ranges() && !range::strong_validator(
            saved.info@.etag,
        )) ==> action is Ask,
        after.saved == task.saved,
{
}

/// Law: a failed question is asked again only where bytes are saved, trying again may help, and it
/// was not tried three times yet; otherwise the failure is the answer.
pub proof fn law_only_passing_failures_are_asked_again(
    task: FetchTask,
    event: FetchEvent,
    after: FetchTask,
    action: FetchAction,
    error: WorkerError,
)
    requires
        (task.phase is Asking && event == FetchEvent::Described(
            Err::<RemoteFileInfo, WorkerError>(error),
        )) || (task.phase is Comparing && event == FetchEvent::Compared(
            Err::<(), WorkerError>(error),
        )),
        task.stepped(event, after, action),
    ensures
        action is Pause <==> task.saved is Some && error.may_retry() && task.retries < 3,
        action is Pause ==> after.phase is Ready && after.retries == task.retries + 1,
        !(action is Pause) ==> action == FetchAction::Finish(
            Err::<RemoteFileInfo, WorkerError>(error),
        ) && after.phase is Ended,
{
}

} // verus!
