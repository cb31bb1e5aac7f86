//! The life of one worker process as its attendant sees it.
use vstd::prelude::*;
use vstd::string::*;
use crate::config::TimeSpan;
use crate::error::{outcome_view, ErrorView, PoolError, TaskOutcome};
use crate::json::JsonView;
use crate::protocol::{
    concluded, exchange_with_timeout, line_of, request_document, still_usable, Exchange,
    WorkerRequest,
};
use crate::schedule::Job;

verus! {

/// What the attendant of a worker learns.
pub enum Input<T> {
    /// The pool sent a task.
    Job(Job<T>),
    /// The pool sends no more tasks.
    NoMoreJobs,
    /// The process ended by itself, with this status.
    Exited(String),
    /// The wait for the process failed.
    WaitFailed(String),
    /// The exchange ended, or (`None`) ran out of time.
    Exchanged(Option<Exchange>),
    /// The report reached the pool, or (`false`) the pool is gone.
    Delivered(bool),
}

/// What the attendant has to do next.
pub enum Action<T> {
    /// Wait for a task or the end of the process, whichever comes first.
    Await,
    /// Write the line to the worker and read one line back, within the time.
    Exchange { line: String, timeout: TimeSpan },
    /// Tell the pool how the task ended.
    ReportFinished { worker_id: u64, ticket: T, outcome: TaskOutcome, reusable: bool },
    /// Tell the pool that the process is gone, and leave.
    ReportStopped { worker_id: u64, reason: String },
    /// End the process and leave.
    Kill,
    /// Nothing: the input did not fit the moment.
    Ignore,
}

/// The content of an [`Action`].
pub enum ActionView<T> {
    Await,
    Exchange { line: Seq<char>, timeout: TimeSpan },
    ReportFinished {
        worker_id: u64,
        ticket: T,
        outcome: Result<JsonView, ErrorView>,
        reusable: bool,
    },
    ReportStopped { worker_id: u64, reason: Seq<char> },
    Kill,
    Ignore,
}

impl<T> View for Action<T> {
    type V = ActionView<T>;

    open spec fn view(&self) -> ActionView<T> {
        match *self {
            Action::Await => ActionView::Await,
            Action::Exchange { line, timeout } => ActionView::Exchange { line: line@, timeout },
            Action::ReportFinished { worker_id, ticket, outcome, reusable } =>
                ActionView::ReportFinished {
                worker_id,
                ticket,
                outcome: outcome_view(outcome),
                reusable,
            },
            Action::ReportStopped { worker_id, reason } => ActionView::ReportStopped {
                worker_id,
                reason: reason@,
            },
            Action::Kill => ActionView::Kill,
            Action::Ignore => ActionView::Ignore,
        }
    }
}

/// Where the attendant stands.
pub enum Phase<T> {
    /// It waits for a task.
    Waiting,
    /// The worker has a task.
    Working { id: u64, timeout: TimeSpan, ticket: T },
    /// The pool is being told; `last` where the worker must not be used again.
    Reporting { last: bool },
    /// It has left.
    Ended,
}

/// The next phase and action.
pub open spec fn attended<T>(worker_id: u64, phase: Phase<T>, input: Input<T>) -> (
    Phase<T>,
    ActionView<T>,
) {
    match (phase, input) {
        (Phase::Waiting, Input::Job(job)) => (
            Phase::Working { id: job.id, timeout: job.timeout, ticket: job.ticket },
            ActionView::Exchange {
                line: line_of(request_document(job.id, job.payload@)),
                timeout: job.timeout,
            },
        ),
        (Phase::Waiting, Input::NoMoreJobs) => (Phase::Ended, ActionView::Kill),
        (Phase::Waiting, Input::Exited(status)) => (
            Phase::Ended,
            ActionView::ReportStopped { worker_id, reason: "exited with status "@ + status@ },
        ),
        (Phase::Waiting, Input::WaitFailed(error)) => (
            Phase::Ended,
            ActionView::ReportStopped {
                worker_id,
                reason: "failed while waiting for exit: "@ + error@,
            },
        ),
        (Phase::Working { id, timeout, ticket }, Input::Exchanged(exchange)) => (
            Phase::Reporting { last: !still_usable(id, exchange) },
            ActionView::ReportFinished {
                worker_id,
                ticket,
                outcome: concluded(id, timeout, exchange),
                reusable: still_usable(id, exchange),
            },
        ),
        (Phase::Reporting { last }, Input::Delivered(heard)) => if heard && !last {
            (Phase::Waiting, ActionView::Await)
        } else {
            (Phase::Ended, ActionView::Kill)
        },
        _ => (phase, ActionView::Ignore),
    }
}

/// The attendant of one worker process.
pub struct WorkerLoop<T> {
    pub worker_id: u64,
    pub phase: Phase<T>,
}

impl<T> WorkerLoop<T> {
    /// The attendant of a process that has just come up; it begins by waiting.
    pub fn new(worker_id: u64) -> (attendant: WorkerLoop<T>)
        ensures
            attendant.worker_id == worker_id,
            attendant.phase is Waiting,
    {
        WorkerLoop { worker_id, phase: Phase::Waiting }
    }

    /// Takes what has been learned and says what to do.
    pub fn worker_loop(&mut self, input: Input<T>) -> (action: Action<T>)
        ensures
            final(self).worker_id == old(self).worker_id,
            (final(self).phase, action@) == attended(
                old(self).worker_id,
                old(self).phase,
                input,
            ),
    {
        let worker_id: u64 = self.worker_id;
        let mut phase = Phase::Ended;
        std::mem::swap(&mut phase, &mut self.phase);
        match (phase, input) {
            (Phase::Waiting, Input::Job(job)) => {
                let request = WorkerRequest { id: job.id, payload: job.payload };
                let line = request.to_line();
                self.phase = Phase::Working {
                    id: job.id,
                    timeout: job.timeout,
                    ticket: job.ticket,
                };
                Action::Exchange { line, timeout: job.timeout }
            },
            (Phase::Waiting, Input::NoMoreJobs) => Action::Kill,
            (Phase::Waiting, Input::Exited(status)) => Action::ReportStopped {
                worker_id,
                reason: "exited with status ".to_owned().concat(status.as_str()),
            },
            (Phase::Waiting, Input::WaitFailed(error)) => Action::ReportStopped {
                worker_id,
                reason: "failed while waiting for exit: ".to_owned().concat(error.as_str()),
            },
            (Phase::Working { id, timeout, ticket }, Input::Exchanged(exchange)) => {
                let (outcome, reusable) = exchange_with_timeout(id, timeout, exchange);
                self.phase = Phase::Reporting { last: !reusable };
                Action::ReportFinished { worker_id, ticket, outcome, reusable }
            },
            (Phase::Reporting { last }, Input::Delivered(heard)) => {
                if heard && !last {
                    self.phase = Phase::Waiting;
                    Action::Await
                } else {
                    Action::Kill
                }
            },
            (unchanged, _) => {
                self.phase = unchanged;
                Action::Ignore
            },
        }
    }
}

/// A worker has at most one task at a time: a task is taken only while waiting, and the next
/// wait comes only after the task has been reported.
pub proof fn a_worker_has_one_task_at_a_time<T>(worker_id: u64, phase: Phase<T>, input: Input<T>)
    ensures
        attended(worker_id, phase, input).1 is Exchange ==> phase is Waiting && attended(
            worker_id,
            phase,
            input,
        ).0 is Working,
        phase is Working && attended(worker_id, phase, input).0 !is Working ==> attended(
            worker_id,
            phase,
            input,
        ).1 is ReportFinished,
        attended(worker_id, phase, input).1 is Await ==> phase is Reporting,
{
}

/// An attendant that has left does nothing more, and it leaves only with the process ended or
/// by ending it.
pub proof fn an_attendant_leaves_no_process_behind<T>(
    worker_id: u64,
    phase: Phase<T>,
    input: Input<T>,
)
    ensures
        phase is Ended ==> attended(worker_id, phase, input) == (phase, ActionView::<T>::Ignore),
        phase !is Ended && attended(worker_id, phase, input).0 is Ended ==> (attended(
            worker_id,
            phase,
            input,
        ).1 is Kill || input is Exited || input is WaitFailed),
{
}

/// How far a process for a single task came.
pub enum OneShot {
    NotStarted(String),
    NoStdin,
    NoStdout,
    /// The exchange ended, or (`None`) ran out of time.
    Exchanged(Option<Exchange>),
}

/// The outcome of a task that ran in a process of its own.
pub open spec fn one_shot_outcome(job_id: u64, timeout: TimeSpan, run: OneShot) -> Result<
    JsonView,
    ErrorView,
> {
    match run {
        OneShot::NotStarted(why) => Err(ErrorView::SpawnFailed(why@)),
        OneShot::NoStdin => Err(
            ErrorView::SpawnFailed("worker stdin was not configured as a pipe"@),
        ),
        OneShot::NoStdout => Err(
            ErrorView::SpawnFailed("worker stdout was not configured as a pipe"@),
        ),
        OneShot::Exchanged(exchange) => concluded(job_id, timeout, exchange),
    }
}

/// Draws the conclusion from a process for a single task.
pub fn run_one_shot_worker(job_id: u64, timeout: TimeSpan, run: OneShot) -> (outcome: TaskOutcome)
    ensures
        outcome_view(outcome) == one_shot_outcome(job_id, timeout, run),
{
    match run {
        OneShot::NotStarted(why) => Err(PoolError::SpawnFailed(why)),
        OneShot::NoStdin => Err(
            PoolError::SpawnFailed("worker stdin was not configured as a pipe".to_owned()),
        ),
        OneShot::NoStdout => Err(
            PoolError::SpawnFailed("worker stdout was not configured as a pipe".to_owned()),
        ),
        OneShot::Exchanged(exchange) => {
            let (outcome, _) = exchange_with_timeout(job_id, timeout, exchange);
            outcome
        },
    }
}

} // verus!
