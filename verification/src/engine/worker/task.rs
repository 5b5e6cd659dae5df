//! One worker from its request to its last report, as a state machine: each event says what has
//! to be done outside before the next one.
use crate::client::{ClientError, HttpFault};
use crate::engine::chunks::ChunkRange;
use crate::engine::worker::body::{BodyCopy, BodyCopyMode, BodyEnd, PiecePlan};
use crate::engine::worker::error::WorkerError;
use crate::engine::worker::protocol::WorkerMsg;
use crate::engine::worker::request;
use crate::engine::worker::request::{plan_chunk, ChunkPlan};
use crate::text;
use vstd::prelude::*;

verus! {

/// What a worker is doing.
pub enum TaskPhase {
    /// It has a chunk, of which some bytes are saved, and has not asked for the rest yet.
    Planned { chunk: ChunkRange, downloaded: u64, validator: Option<String> },
    /// It asked for a body.
    Asking(BodyCopy),
    /// It waits for the next piece of the body.
    Reading(BodyCopy),
    /// It compares and writes a piece.
    Storing { body: BodyCopy, plan: PiecePlan },
    /// It gives the file the length of a body whose length was unknown.
    Sizing(BodyCopy),
    Ended,
}

/// A worker that fetches one chunk, or the whole file.
pub struct WorkerTask {
    pub session_id: u64,
    pub chunk_id: usize,
    /// Whether the rest of the chunk can be handed back.
    pub yields: bool,
    pub phase: TaskPhase,
    /// How many new bytes were reported.
    pub reported: u64,
}

/// What happened outside.
pub enum TaskEvent {
    /// Nothing that changes anything: go on.
    Continue,
    /// The session stopped its workers, or no longer listens.
    Cancelled,
    /// The session wants the rest of the chunk back.
    YieldAsked,
    /// The reply is usable.
    Replied,
    /// There is no usable reply.
    Refused(ClientError),
    /// A piece of the body arrived, of some length.
    Piece(usize),
    /// The body broke off.
    Broken(HttpFault),
    /// The body ended.
    Finished,
    /// The placed piece was compared and written, or not.
    Stored(Result<(), WorkerError>),
    /// The file got its length, or not.
    Sized(Result<(), WorkerError>),
}

/// What has to be done outside.
pub enum TaskAction {
    /// Ask for the bytes from `start`, to `end` if it is given.
    Request { start: u64, end: Option<u64> },
    /// Wait for the next piece.
    Read,
    /// Compare the overlap of a piece and write its rest.
    Store(PiecePlan),
    /// Set the length of the file.
    SetLength(u64),
    /// Report to the session; a last report ends the worker.
    Report { msg: WorkerMsg, last: bool },
    /// End without a report.
    Stop,
}

impl WorkerTask {
    /// What was reported is what was written.
    pub open spec fn wf(self) -> bool {
        match self.phase {
            TaskPhase::Planned { .. } => self.reported == 0,
            TaskPhase::Asking(body) => body.wf() && self.reported == body.appended(),
            TaskPhase::Reading(body) => body.wf() && self.reported == body.appended(),
            TaskPhase::Storing { body, plan } => body.wf() && body.places(plan) && self.reported
                == body.appended(),
            TaskPhase::Sizing(body) => body.wf() && self.reported == body.appended(),
            TaskPhase::Ended => true,
        }
    }

    /// Whether the worker may be asked for the rest of its chunk: while bytes are missing.
    pub open spec fn hands_back(self) -> bool {
        self.yields && match self.phase {
            TaskPhase::Planned { .. } => true,
            TaskPhase::Asking(_) => true,
            TaskPhase::Reading(body) => body.mode.expected() matches Some(expected)
                ==> body.received < expected,
            _ => false,
        }
    }

    /// The worker in another phase.
    pub open spec fn in_phase(self, phase: TaskPhase) -> WorkerTask {
        WorkerTask { phase, ..self }
    }

    /// Whether the worker ends with a report.
    pub open spec fn ends_with(self, msg: WorkerMsg, after: WorkerTask, action: TaskAction) -> bool {
        after == self.in_phase(TaskPhase::Ended) && action == (TaskAction::Report {
            msg,
            last: true,
        })
    }

    pub open spec fn done_msg(self) -> WorkerMsg {
        WorkerMsg::Done { session_id: self.session_id, chunk_id: self.chunk_id }
    }

    pub open spec fn yielded_msg(self) -> WorkerMsg {
        WorkerMsg::Yielded { session_id: self.session_id, chunk_id: self.chunk_id }
    }

    pub open spec fn error_msg(self, error: WorkerError, retryable: bool) -> WorkerMsg {
        WorkerMsg::Error {
            session_id: self.session_id,
            chunk_id: self.chunk_id,
            error,
            retryable,
        }
    }

    /// What a planned worker does next.
    pub open spec fn plan_followed(
        self,
        plan: ChunkPlan,
        after: WorkerTask,
        action: TaskAction,
    ) -> bool {
        match plan {
            ChunkPlan::Invalid(error) => self.ends_with(
                self.error_msg(error, false),
                after,
                action,
            ),
            ChunkPlan::AlreadyDone => self.ends_with(self.done_msg(), after, action),
            ChunkPlan::Request { request_start, end, expected_bytes, write_start } => {
                &&& after == self.in_phase(
                    TaskPhase::Asking(
                        BodyCopy {
                            mode: BodyCopyMode::Range { expected_bytes, write_start },
                            start: request_start,
                            received: 0,
                        },
                    ),
                )
                &&& action == (TaskAction::Request { start: request_start, end: Some(end) })
            },
        }
    }

    /// What a reading worker does with a piece: it is placed, unless it goes past what was
    /// expected or past the offset space.
    pub open spec fn piece_taken(
        self,
        body: BodyCopy,
        length: usize,
        after: WorkerTask,
        action: TaskAction,
    ) -> bool {
        if body.exceeds(length as int) {
            self.ends_with(
                self.error_msg(body.mode.overrun(body.mode.expected()->0), false),
                after,
                action,
            )
        } else if body.offset() + length > u64::MAX {
            &&& after == self.in_phase(TaskPhase::Ended)
            &&& action matches TaskAction::Report {
                msg: WorkerMsg::Error {
                    session_id,
                    chunk_id,
                    error: WorkerError::InvalidRange(reason),
                    retryable,
                },
                last,
            } && session_id == self.session_id && chunk_id == self.chunk_id && reason@
                == body.mode.offset_overflow() && !retryable && last
        } else {
            &&& action matches TaskAction::Store(plan) && body.places(plan) && plan.length
                == length && after == self.in_phase(TaskPhase::Storing { body, plan })
        }
    }

    /// What a reading worker does at the end of the body.
    pub open spec fn end_taken(
        self,
        body: BodyCopy,
        after: WorkerTask,
        action: TaskAction,
    ) -> bool {
        match body.mode.expected() {
            Some(expected) => if body.received == expected {
                self.ends_with(self.done_msg(), after, action)
            } else {
                self.ends_with(
                    self.error_msg(
                        WorkerError::UnexpectedEof { received: body.received, expected },
                        true,
                    ),
                    after,
                    action,
                )
            },
            None => after == self.in_phase(TaskPhase::Sizing(body)) && action
                == TaskAction::SetLength(body.offset() as u64),
        }
    }

    /// What a worker does once a piece is written: new bytes are reported.
    pub open spec fn piece_stored(
        self,
        body: BodyCopy,
        plan: PiecePlan,
        after: WorkerTask,
        action: TaskAction,
    ) -> bool {
        let delta = plan.length - plan.overlap;
        &&& after == (WorkerTask {
            phase: TaskPhase::Reading(
                BodyCopy { received: (body.received + plan.length) as u64, ..body },
            ),
            reported: (self.reported + delta) as u64,
            ..self
        })
        &&& action == (if delta > 0 {
            TaskAction::Report {
                msg: WorkerMsg::Progress {
                    session_id: self.session_id,
                    chunk_id: self.chunk_id,
                    bytes_delta: delta as u64,
                },
                last: false,
            }
        } else {
            TaskAction::Read
        })
    }

    /// What an event does to a worker.
    pub open spec fn stepped(self, event: TaskEvent, after: WorkerTask, action: TaskAction) -> bool {
        match (self.phase, event) {
            (TaskPhase::Ended, _) => after == self && action is Stop,
            (_, TaskEvent::YieldAsked) => self.ends_with(self.yielded_msg(), after, action),
            (
                TaskPhase::Planned { chunk, downloaded, validator },
                TaskEvent::Continue,
            ) => exists|plan: ChunkPlan| #[trigger]
                request::is_plan(plan, chunk, downloaded, text::string_text(validator))
                    && self.plan_followed(plan, after, action),
            (TaskPhase::Asking(body), TaskEvent::Replied) => after == self.in_phase(
                TaskPhase::Reading(body),
            ) && action is Read,
            (TaskPhase::Asking(_), TaskEvent::Refused(error)) => self.ends_with(
                self.error_msg(WorkerError::Client(error), error@.retryable()),
                after,
                action,
            ),
            (TaskPhase::Reading(_), TaskEvent::Continue) => after == self && action is Read,
            (TaskPhase::Reading(body), TaskEvent::Piece(length)) => self.piece_taken(
                body,
                length,
                after,
                action,
            ),
            (TaskPhase::Reading(_), TaskEvent::Broken(fault)) => self.ends_with(
                self.error_msg(WorkerError::ResponseBody(fault), fault.body_retryable()),
                after,
                action,
            ),
            (TaskPhase::Reading(body), TaskEvent::Finished) => self.end_taken(body, after, action),
            (TaskPhase::Storing { body, plan }, TaskEvent::Stored(Ok(_))) => self.piece_stored(
                body,
                plan,
                after,
                action,
            ),
            (TaskPhase::Storing { .. }, TaskEvent::Stored(Err(error))) => self.ends_with(
                self.error_msg(error, false),
                after,
                action,
            ),
            (TaskPhase::Sizing(_), TaskEvent::Sized(Ok(_))) => self.ends_with(
                self.done_msg(),
                after,
                action,
            ),
            (TaskPhase::Sizing(_), TaskEvent::Sized(Err(error))) => self.ends_with(
                self.error_msg(error, false),
                after,
                action,
            ),
            _ => after == self.in_phase(TaskPhase::Ended) && action is Stop,
        }
    }

    /// A worker for the rest of a chunk.
    pub fn for_chunk(
        session_id: u64,
        chunk: ChunkRange,
        downloaded: u64,
        validator: Option<String>,
    ) -> (r: WorkerTask)
        ensures
            r.wf(),
            r == (WorkerTask {
                session_id,
                chunk_id: chunk.id,
                yields: true,
                phase: TaskPhase::Planned { chunk, downloaded, validator },
                reported: 0,
            }),
    {
        WorkerTask {
            session_id,
            chunk_id: chunk.id,
            yields: true,
            phase: TaskPhase::Planned { chunk, downloaded, validator },
            reported: 0,
        }
    }

    /// A worker for a whole file, which it asks for at once.
    pub fn for_stream(session_id: u64, total_size: Option<u64>) -> (r: (WorkerTask, TaskAction))
        ensures
            r.0.wf(),
            r.0 == (WorkerTask {
                session_id,
                chunk_id: 0,
                yields: false,
                phase: TaskPhase::Asking(
                    BodyCopy {
                        mode: BodyCopyMode::Stream { expected_bytes: total_size },
                        start: 0,
                        received: 0,
                    },
                ),
                reported: 0,
            }),
            r.1 == (TaskAction::Request { start: 0, end: None }),
    {
        let body = BodyCopy::new(0, BodyCopyMode::Stream { expected_bytes: total_size });
        let task = WorkerTask {
            session_id,
            chunk_id: 0,
            yields: false,
            phase: TaskPhase::Asking(body),
            reported: 0,
        };
        (task, TaskAction::Request { start: 0, end: None })
    }

    /// Whether the worker may be asked for the rest of its chunk.
    pub fn can_yield(&self) -> (r: bool)
        ensures
            r == self.hands_back(),
    {
        self.yields && match &self.phase {
            TaskPhase::Planned { .. } => true,
            TaskPhase::Asking(_) => true,
            TaskPhase::Reading(body) => body.can_yield(),
            _ => false,
        }
    }

    fn last(msg: WorkerMsg) -> (r: TaskAction)
        ensures
            r == (TaskAction::Report { msg, last: true }),
    {
        TaskAction::Report { msg, last: true }
    }

    fn failure(&self, error: WorkerError, retryable: bool) -> (r: TaskAction)
        ensures
            r == (TaskAction::Report { msg: self.error_msg(error, retryable), last: true }),
    {
        Self::last(
            WorkerMsg::Error {
                session_id: self.session_id,
                chunk_id: self.chunk_id,
                error,
                retryable,
            },
        )
    }

    fn done(&self) -> (r: TaskAction)
        ensures
            r == (TaskAction::Report { msg: self.done_msg(), last: true }),
    {
        Self::last(WorkerMsg::Done { session_id: self.session_id, chunk_id: self.chunk_id })
    }

    /// Takes an event, and says what has to be done next.
    pub fn step(&mut self, event: TaskEvent) -> (action: TaskAction)
        requires
            old(self).wf(),
            event is YieldAsked ==> old(self).hands_back(),
        ensures
            final(self).wf(),
            old(self).stepped(event, *final(self), action),
    {
        let mut phase = TaskPhase::Ended;
        std::mem::swap(&mut phase, &mut self.phase);
        match (phase, event) {
            (TaskPhase::Ended, _) => TaskAction::Stop,
            (_, TaskEvent::YieldAsked) => Self::last(
                WorkerMsg::Yielded { session_id: self.session_id, chunk_id: self.chunk_id },
            ),
            (TaskPhase::Planned { chunk, downloaded, validator }, TaskEvent::Continue) => {
                let plan = plan_chunk(chunk, downloaded, text::option_str(&validator));
                let ghost wanted = text::string_text(validator);
                assert(request::is_plan(plan, chunk, downloaded, wanted));
                match plan {
                    ChunkPlan::Invalid(error) => self.failure(error, false),
                    ChunkPlan::AlreadyDone => self.done(),
                    ChunkPlan::Request { request_start, end, expected_bytes, write_start } => {
                        let body = BodyCopy::new(
                            request_start,
                            BodyCopyMode::Range { expected_bytes, write_start },
                        );
                        self.phase = TaskPhase::Asking(body);
                        TaskAction::Request { start: request_start, end: Some(end) }
                    },
                }
            },
            (TaskPhase::Asking(body), TaskEvent::Replied) => {
                self.phase = TaskPhase::Reading(body);
                TaskAction::Read
            },
            (TaskPhase::Asking(_), TaskEvent::Refused(error)) => Self::last(
                WorkerMsg::request_failed(self.session_id, self.chunk_id, error),
            ),
            (TaskPhase::Reading(body), TaskEvent::Continue) => {
                self.phase = TaskPhase::Reading(body);
                TaskAction::Read
            },
            (TaskPhase::Reading(body), TaskEvent::Piece(length)) => match body.place(length) {
                Ok(plan) => {
                    self.phase = TaskPhase::Storing { body, plan };
                    TaskAction::Store(plan)
                },
                Err(error) => self.failure(error, false),
            },
            (TaskPhase::Reading(_), TaskEvent::Broken(fault)) => Self::last(
                WorkerMsg::body_failed(self.session_id, self.chunk_id, fault),
            ),
            (TaskPhase::Reading(body), TaskEvent::Finished) => match body.finish() {
                BodyEnd::Incomplete(error) => self.failure(error, true),
                BodyEnd::SetLength(length) => {
                    self.phase = TaskPhase::Sizing(body);
                    TaskAction::SetLength(length)
                },
                BodyEnd::Complete => self.done(),
            },
            (TaskPhase::Storing { body, plan }, TaskEvent::Stored(Ok(_))) => {
                let mut body = body;
                let bytes_delta: u64 = body.commit(&plan);
                self.reported = self.reported + bytes_delta;
                self.phase = TaskPhase::Reading(body);
                if bytes_delta > 0 {
                    TaskAction::Report {
                        msg: WorkerMsg::Progress {
                            session_id: self.session_id,
                            chunk_id: self.chunk_id,
                            bytes_delta,
                        },
                        last: false,
                    }
                } else {
                    TaskAction::Read
                }
            },
            (TaskPhase::Storing { .. }, TaskEvent::Stored(Err(error))) => self.failure(error, false),
            (TaskPhase::Sizing(_), TaskEvent::Sized(Ok(_))) => self.done(),
            (TaskPhase::Sizing(_), TaskEvent::Sized(Err(error))) => self.failure(error, false),
            _ => TaskAction::Stop,
        }
    }
}

/// The new bytes that a worker wrote.
pub open spec fn written(task: WorkerTask) -> int {
    match task.phase {
        TaskPhase::Planned { .. } => 0,
        TaskPhase::Asking(body) => body.appended(),
        TaskPhase::Reading(body) => body.appended(),
        TaskPhase::Storing { body, plan } => body.appended(),
        TaskPhase::Sizing(body) => body.appended(),
        TaskPhase::Ended => task.reported as int,
    }
}

/// Law: a worker that hands its chunk back has reported every byte that it wrote.
pub proof fn law_yielding_workers_reported_everything(
    task: WorkerTask,
    event: TaskEvent,
    after: WorkerTask,
    action: TaskAction,
)
    requires
        task.wf(),
        task.stepped(event, after, action),
        action matches TaskAction::Report { msg, last } && msg is Yielded,
    ensures
        task.reported == written(task),
        after.phase is Ended,
        after.reported == task.reported,
{
}

/// Law: a worker that reports its range as done has reported exactly the bytes from where new ones
/// were due to the end of the range.
pub proof fn law_done_ranges_were_reported_in_full(
    task: WorkerTask,
    body: BodyCopy,
    expected: u64,
    write_start: u64,
    event: TaskEvent,
    after: WorkerTask,
    action: TaskAction,
)
    requires
        task.wf(),
        task.phase == TaskPhase::Reading(body),
        body.mode == (BodyCopyMode::Range { expected_bytes: expected, write_start }),
        body.start <= write_start <= body.start + expected,
        task.stepped(event, after, action),
        action matches TaskAction::Report { msg, last } && msg is Done,
    ensures
        task.reported == body.start + expected - write_start,
{
    assert(event is Finished);
    assert(body.received == expected);
}

/// Law: a worker reports new bytes only after they were written, never more than once, and nothing
/// after its last report.
pub proof fn law_reports_follow_the_writes(
    task: WorkerTask,
    event: TaskEvent,
    after: WorkerTask,
    action: TaskAction,
)
    requires
        task.wf(),
        task.stepped(event, after, action),
    ensures
        action matches TaskAction::Report { msg: WorkerMsg::Progress { bytes_delta, .. }, .. } ==> {
            &&& event matches TaskEvent::Stored(stored) && stored is Ok
            &&& task.phase is Storing
            &&& bytes_delta > 0
            &&& written(after) == written(task) + bytes_delta
            &&& after.reported == task.reported + bytes_delta
        },
        task.phase is Storing && (event matches TaskEvent::Stored(stored) && stored is Ok) ==> {
            &&& after.phase is Reading
            &&& written(after) > written(task) ==> action is Report
            &&& written(after) == written(task) ==> action is Read
        },
        action matches TaskAction::Report { last: true, .. } ==> after.phase is Ended,
        task.phase is Ended ==> action is Stop && after.phase is Ended,
{
    match task.phase {
        TaskPhase::Storing { body, plan } => {
            let later = BodyCopy { received: (body.received + plan.length) as u64, ..body };
            assert(later.appended() == body.appended() + (plan.length - plan.overlap));
        },
        _ => {},
    }
}

/// Law: a worker asks exactly for the missing bytes of its chunk, up to its last one, and writes
/// nothing before the first missing one.
pub proof fn law_workers_ask_for_the_rest_of_their_chunk(
    task: WorkerTask,
    chunk: ChunkRange,
    downloaded: u64,
    validator: Option<String>,
    after: WorkerTask,
    action: TaskAction,
)
    requires
        task.phase == (TaskPhase::Planned { chunk, downloaded, validator }),
        task.stepped(TaskEvent::Continue, after, action),
    ensures
        chunk.start <= chunk.end && chunk.start + downloaded <= chunk.end && !(chunk.start == 0
            && chunk.end == u64::MAX) ==> {
            &&& action matches TaskAction::Request { start, end } && end == Some(chunk.end)
                && chunk.start <= start <= chunk.start + downloaded && start + 4096 >= chunk.start
                + downloaded
            &&& after.phase matches TaskPhase::Asking(body) && body.received == 0 && (
            action matches TaskAction::Request { start, .. } && body.start == start) && (
            body.mode matches BodyCopyMode::Range { expected_bytes, write_start } && write_start
                == chunk.start + downloaded && body.start + expected_bytes == chunk.end + 1)
        },
        action matches TaskAction::Report { msg, last } ==> last && after.phase is Ended && (
        msg is Done ==> chunk.start + downloaded == chunk.end + 1) && !(msg is Progress) && !(
        msg is Yielded),
        !(action is Store) && !(action is SetLength),
{
    let plan = choose|plan: ChunkPlan| #[trigger]
        request::is_plan(plan, chunk, downloaded, text::string_text(validator))
            && task.plan_followed(plan, after, action);
    request::law_plans_ask_for_the_missing_bytes(
        plan,
        chunk,
        downloaded,
        text::string_text(validator),
    );
}

/// Law: a worker is done only where nothing was missing, where its body ended with as many bytes as
/// were expected, or where a body of unknown length ended and the file got that length.
pub proof fn law_workers_are_done_with_everything(
    task: WorkerTask,
    event: TaskEvent,
    after: WorkerTask,
    action: TaskAction,
)
    requires
        task.wf(),
        task.stepped(event, after, action),
        action matches TaskAction::Report { msg, .. } && msg is Done,
    ensures
        match task.phase {
            TaskPhase::Planned { chunk, downloaded, .. } => chunk.start + downloaded == chunk.end
                + 1,
            TaskPhase::Reading(body) => event is Finished && body.mode.expected() == Some(
                body.received,
            ),
            TaskPhase::Sizing(_) => event matches TaskEvent::Sized(sized) && sized is Ok,
            _ => false,
        },
        action matches TaskAction::Report { msg: WorkerMsg::Done { session_id, chunk_id }, last }
            && session_id == task.session_id && chunk_id == task.chunk_id && last,
{
    match task.phase {
        TaskPhase::Planned { chunk, downloaded, validator } => {
            if event is Continue {
                law_workers_ask_for_the_rest_of_their_chunk(
                    task,
                    chunk,
                    downloaded,
                    validator,
                    after,
                    action,
                );
            }
        },
        _ => {},
    }
}

/// Law: a failure outside ends the worker with that failure, never with progress or success. A body
/// that ends early is a failure that trying again may mend; a failure to store is not.
pub proof fn law_outside_failures_end_the_worker(
    task: WorkerTask,
    event: TaskEvent,
    after: WorkerTask,
    action: TaskAction,
)
    requires
        task.wf(),
        task.stepped(event, after, action),
    ensures
        event is Refused || event is Broken || (event matches TaskEvent::Stored(stored)
            && stored is Err) || (event matches TaskEvent::Sized(sized) && sized is Err)
            ==> after.phase is Ended && (action is Stop || (action matches TaskAction::Report {
            msg,
            last,
        } && last && msg is Error)),
        (task.phase is Asking && event is Refused) || (task.phase is Reading && event is Broken)
            ==> action is Report,
        (task.phase is Storing && (event matches TaskEvent::Stored(stored) && stored is Err)) || (
        task.phase is Sizing && (event matches TaskEvent::Sized(sized) && sized is Err)) ==> (
        action matches TaskAction::Report { msg: WorkerMsg::Error { retryable, .. }, .. }
            && !retryable),
        (task.phase matches TaskPhase::Reading(body) && event is Finished && (
        body.mode.expected() matches Some(expected) && body.received < expected)) ==> (
        action matches TaskAction::Report {
            msg: WorkerMsg::Error { error: WorkerError::UnexpectedEof { .. }, retryable, .. },
            ..
        } && retryable),
        event is Cancelled && !(task.phase is Ended) ==> action is Stop && after.phase is Ended,
        action matches TaskAction::Report { msg: WorkerMsg::Error { session_id, chunk_id, .. }, .. }
            ==> session_id == task.session_id && chunk_id == task.chunk_id,
{
    match task.phase {
        TaskPhase::Planned { chunk, downloaded, validator } => {
            if event is Continue {
                let plan = choose|plan: ChunkPlan| #[trigger]
                    request::is_plan(plan, chunk, downloaded, text::string_text(validator))
                        && task.plan_followed(plan, after, action);
                assert(task.plan_followed(plan, after, action));
            }
        },
        _ => {},
    }
}

/// Law: a piece that arrives is stored at its place, all of it, unless it goes past what was
/// expected or past the offset space: then nothing of it is stored.
pub proof fn law_pieces_are_stored_whole_or_not_at_all(
    task: WorkerTask,
    body: BodyCopy,
    length: usize,
    after: WorkerTask,
    action: TaskAction,
)
    requires
        task.wf(),
        task.phase == TaskPhase::Reading(body),
        task.stepped(TaskEvent::Piece(length), after, action),
    ensures
        action matches TaskAction::Store(plan) ==> plan.length == length && plan.offset
            == body.start + body.received && (body.mode.expected() matches Some(expected)
            ==> body.received + length <= expected),
        !(action is Store) ==> after.phase is Ended && (action matches TaskAction::Report {
            msg,
            last,
        } && last && msg is Error),
        (body.mode.expected() matches Some(expected) ==> body.received + length <= expected)
            && body.start + body.received + length <= u64::MAX ==> action is Store,
        action matches TaskAction::Store(plan) ==> (body.mode matches BodyCopyMode::Range {
            write_start,
            ..
        } ==> (plan.overlap < length ==> plan.offset + plan.overlap >= write_start)),
{
}

/// Law: a file whose length was unknown ends where its body ended.
pub proof fn law_streams_of_unknown_length_end_with_their_body(
    task: WorkerTask,
    body: BodyCopy,
    after: WorkerTask,
    action: TaskAction,
)
    requires
        task.wf(),
        task.phase == TaskPhase::Reading(body),
        body.mode.expected() is None,
        task.stepped(TaskEvent::Finished, after, action),
    ensures
        action matches TaskAction::SetLength(length) && length == body.start + body.received,
        after.phase is Sizing,
{
}

/// Law: a worker may be asked for the rest of its chunk only where the chunk can be divided and
/// bytes of it are still to come, and never while a piece is being stored.
pub proof fn law_only_missing_bytes_are_handed_back(task: WorkerTask)
    ensures
        task.hands_back() ==> task.yields,
        task.phase is Storing || task.phase is Sizing || task.phase is Ended
            ==> !task.hands_back(),
        task.yields && (task.phase is Planned || task.phase is Asking) ==> task.hands_back(),
        (task.phase matches TaskPhase::Reading(body) && task.hands_back()) ==> match task.phase {
            TaskPhase::Reading(body) => body.mode.expected() matches Some(expected)
                ==> body.received < expected,
            _ => true,
        },
{
}

} // verus!
