//! The scheduling rules of the pool: what a pool's state is, and how it moves.
//!
//! The pool never does outside work itself. Each move yields the notices that the host has to
//! act on, and at most one call whose result the host reports back before anything else.

use vstd::prelude::*;
use crate::config::{Limits, RejectedExecutionHandler, TimeSpan};
use crate::error::{outcome_view, ErrorView, PoolError, TaskOutcome};
use crate::json::{Json, JsonView};
use crate::workers::{is_idle, is_lowest_idle, lowest_idle, WorkerSlot};

verus! {

/// A task with what its caller is answered through.
pub struct Job<T> {
    pub id: u64,
    pub payload: Json,
    pub timeout: TimeSpan,
    pub ticket: T,
}

/// Outside work that the pool waits for.
pub enum Call<T> {
    /// Start a worker process.
    Spawn { worker_id: u64 },
    /// Hand the task to the worker.
    Dispatch { worker_id: u64, job: Job<T> },
}

/// Outside work that the pool does not wait for.
pub enum Notice<T> {
    /// Answer the caller.
    Reply { ticket: T, outcome: TaskOutcome },
    /// End the worker's process.
    Stop { worker_id: u64 },
    /// Run the task in a process of its own.
    RunOneShot { job: Job<T> },
}

/// The content of a [`Notice`].
pub enum NoticeView<T> {
    Reply { ticket: T, outcome: Result<JsonView, ErrorView> },
    Stop { worker_id: u64 },
    RunOneShot { job: Job<T> },
}

impl<T> View for Notice<T> {
    type V = NoticeView<T>;

    open spec fn view(&self) -> NoticeView<T> {
        match *self {
            Notice::Reply { ticket, outcome } => NoticeView::Reply {
                ticket,
                outcome: outcome_view(outcome),
            },
            Notice::Stop { worker_id } => NoticeView::Stop { worker_id },
            Notice::RunOneShot { job } => NoticeView::RunOneShot { job },
        }
    }
}

/// What the host has to do after a move: first the notices in order, then the call.
pub struct Step<T> {
    pub notices: Vec<Notice<T>>,
    pub call: Option<Call<T>>,
    /// The result of a prestart that is now complete.
    pub prestarted: Option<Result<usize, PoolError>>,
}

/// The content of a [`Step`].
pub struct StepView<T> {
    pub notices: Seq<NoticeView<T>>,
    pub call: Option<Call<T>>,
    pub prestarted: Option<Result<usize, ErrorView>>,
}

/// The contents of several notices.
pub open spec fn notice_views<T>(notices: Seq<Notice<T>>) -> Seq<NoticeView<T>> {
    notices.map_values(|n: Notice<T>| n@)
}

/// The content of a prestart's result.
pub open spec fn prestart_view(r: Option<Result<usize, PoolError>>) -> Option<
    Result<usize, ErrorView>,
> {
    match r {
        None => None,
        Some(Ok(n)) => Some(Ok(n)),
        Some(Err(e)) => Some(Err(e@)),
    }
}

impl<T> View for Step<T> {
    type V = StepView<T>;

    open spec fn view(&self) -> StepView<T> {
        StepView {
            notices: notice_views(self.notices@),
            call: self.call,
            prestarted: prestart_view(self.prestarted),
        }
    }
}

/// Why a worker is being started.
pub enum SpawnFor<T> {
    /// To run a task that has just been placed.
    Task { job: Job<T> },
    /// To run a task taken from the queue.
    Queued { job: Job<T> },
    /// To warm the pool up.
    Prestart,
    /// To replace a lost core worker.
    Restore,
}

/// Why a task is being handed over.
pub enum DispatchFor {
    /// A placed task to the worker started for it.
    Started,
    /// A placed task to an idle worker.
    Reused,
    /// A queued task to a prestarted worker.
    Prestarted,
    /// A queued task to an idle worker.
    QueuedToIdle,
    /// A queued task to the worker started for it.
    QueuedToNew,
    /// A queued task to a restored core worker.
    Restored,
}

/// What the pool goes on with after the work in hand.
pub enum Next {
    Rest,
    /// Start `left` more of the `missing` core workers.
    Prestart { left: usize, missing: usize },
    /// Replace lost core workers.
    Restore,
}

/// The call whose result the pool waits for.
pub enum Stage<T> {
    Ready,
    Spawning { worker_id: u64, purpose: SpawnFor<T>, next: Next },
    Dispatching { worker_id: u64, purpose: DispatchFor, next: Next },
}

/// The content of a pool.
pub struct PoolView<T> {
    pub limits: Limits,
    pub workers: Map<u64, WorkerSlot>,
    pub queue: Seq<Job<T>>,
    pub next_worker_id: u64,
    pub next_job_id: u64,
    /// How many core workers have been started so far; as many are kept up.
    pub minimum_workers: usize,
    pub completed: u64,
    pub failed: u64,
    pub rejected: u64,
    pub caller_runs: u64,
    pub stage: Stage<T>,
    pub open: bool,
}

/// A state and what the host has to do on the way to it.
pub type Move<T> = (PoolView<T>, StepView<T>);

/// The number after `n`, starting again from zero after the largest.
pub open spec fn following(n: u64) -> u64 {
    if n == u64::MAX {
        0
    } else {
        (n + 1) as u64
    }
}

/// Nothing to do.
pub open spec fn quiet<T>() -> StepView<T> {
    StepView { notices: Seq::empty(), call: None, prestarted: None }
}

/// A move with notices that go out before its own.
pub open spec fn announced<T>(notices: Seq<NoticeView<T>>, m: Move<T>) -> Move<T> {
    (m.0, StepView { notices: notices + m.1.notices, ..m.1 })
}

pub open spec fn refusal<T>(ticket: T, e: ErrorView) -> NoticeView<T> {
    NoticeView::Reply { ticket, outcome: Err(e) }
}

/// The pool asks for a worker process.
pub open spec fn ask_spawn<T>(s: PoolView<T>, purpose: SpawnFor<T>, next: Next) -> Move<T> {
    (
        PoolView {
            next_worker_id: following(s.next_worker_id),
            stage: Stage::Spawning { worker_id: s.next_worker_id, purpose, next },
            ..s
        },
        StepView { call: Some(Call::Spawn { worker_id: s.next_worker_id }), ..quiet() },
    )
}

/// A worker that has just been given the task `job_id`.
pub open spec fn engaged(slot: WorkerSlot, job_id: u64, now: TimeSpan) -> WorkerSlot {
    WorkerSlot { state_since: now, idle_since: None, current_task_id: Some(job_id), ..slot }
}

/// The pool hands a task to a worker.
pub open spec fn ask_dispatch<T>(
    s: PoolView<T>,
    worker_id: u64,
    job: Job<T>,
    purpose: DispatchFor,
    next: Next,
    now: TimeSpan,
) -> Move<T> {
    (
        PoolView {
            workers: s.workers.insert(worker_id, engaged(s.workers[worker_id], job.id, now)),
            stage: Stage::Dispatching { worker_id, purpose, next },
            ..s
        },
        StepView { call: Some(Call::Dispatch { worker_id, job }), ..quiet() },
    )
}

/// The pool goes on with `next`.
pub open spec fn proceed<T>(s: PoolView<T>, next: Next) -> Move<T> {
    let rest = PoolView { stage: Stage::Ready, ..s };
    match next {
        Next::Rest => (rest, quiet()),
        Next::Prestart { left, missing } => if left == 0 {
            (rest, StepView { prestarted: Some(Ok(missing)), ..quiet() })
        } else {
            ask_spawn(
                s,
                SpawnFor::Prestart,
                Next::Prestart { left: (left - 1) as usize, missing },
            )
        },
        Next::Restore => if s.workers.len() < s.minimum_workers {
            ask_spawn(s, SpawnFor::Restore, Next::Restore)
        } else {
            (rest, quiet())
        },
    }
}

/// Where a task goes.
pub enum Placement {
    /// To a worker that is started for it.
    Start,
    /// To this idle worker.
    Reuse { worker_id: u64 },
    /// To the end of the queue.
    Enqueue,
    /// Nowhere: the rejection policy decides.
    Reject,
}

/// Where a task goes once the core size does not matter: an idle worker first, a worker of
/// its own where there is none at all, the queue while it has room, growth up to the maximum.
pub open spec fn placement_beyond_core<T>(s: PoolView<T>) -> Placement {
    match lowest_idle(s.workers) {
        Some(worker_id) => Placement::Reuse { worker_id },
        None => if s.workers.len() == 0 {
            Placement::Start
        } else if s.queue.len() < s.limits.capacity {
            Placement::Enqueue
        } else if s.workers.len() < s.limits.maximum {
            Placement::Start
        } else {
            Placement::Reject
        },
    }
}

/// Where a task goes: below the core size a worker is started for it even where another one
/// is idle.
pub open spec fn placement<T>(s: PoolView<T>) -> Placement {
    if s.workers.len() < s.limits.core {
        Placement::Start
    } else {
        placement_beyond_core(s)
    }
}

/// The rejection policy applied to a task.
pub open spec fn reject<T>(s: PoolView<T>, job: Job<T>, next: Next) -> Move<T> {
    let counted = PoolView { rejected: (s.rejected + 1) as u64, ..s };
    match s.limits.policy {
        RejectedExecutionHandler::Abort => announced(
            seq![refusal(job.ticket, ErrorView::Rejected)],
            proceed(counted, next),
        ),
        RejectedExecutionHandler::Discard => announced(
            seq![refusal(job.ticket, ErrorView::Discarded)],
            proceed(counted, next),
        ),
        RejectedExecutionHandler::DiscardOldest => if s.queue.len() > 0 {
            announced(
                seq![refusal(s.queue[0].ticket, ErrorView::Discarded)],
                proceed(PoolView { queue: s.queue.drop_first().push(job), ..counted }, next),
            )
        } else {
            announced(
                seq![refusal(job.ticket, ErrorView::Rejected)],
                proceed(counted, next),
            )
        },
        RejectedExecutionHandler::CallerRuns => announced(
            seq![NoticeView::RunOneShot { job }],
            proceed(PoolView { caller_runs: (s.caller_runs + 1) as u64, ..counted }, next),
        ),
    }
}

/// A task goes where `placement` says.
pub open spec fn settle<T>(
    s: PoolView<T>,
    job: Job<T>,
    placement: Placement,
    next: Next,
    now: TimeSpan,
) -> Move<T> {
    match placement {
        Placement::Start => ask_spawn(s, SpawnFor::Task { job }, next),
        Placement::Reuse { worker_id } => ask_dispatch(
            s,
            worker_id,
            job,
            DispatchFor::Reused,
            next,
            now,
        ),
        Placement::Enqueue => proceed(PoolView { queue: s.queue.push(job), ..s }, next),
        Placement::Reject => reject(s, job, next),
    }
}

/// A task arrives.
pub open spec fn submitted<T>(
    s: PoolView<T>,
    payload: Json,
    timeout: TimeSpan,
    ticket: T,
    now: TimeSpan,
) -> Move<T> {
    let job = Job { id: s.next_job_id, payload, timeout, ticket };
    let numbered = PoolView { next_job_id: following(s.next_job_id), ..s };
    settle(numbered, job, placement(numbered), Next::Rest, now)
}

/// How many workers are missing from the core.
pub open spec fn missing_workers<T>(s: PoolView<T>) -> usize {
    if s.workers.len() < s.limits.core {
        (s.limits.core - s.workers.len()) as usize
    } else {
        0
    }
}

/// The core is to be warmed up.
pub open spec fn prestart<T>(s: PoolView<T>) -> Move<T> {
    proceed(s, Next::Prestart { left: missing_workers(s), missing: missing_workers(s) })
}

/// A worker process that has just come up.
pub open spec fn fresh(process_id: Option<u32>, now: TimeSpan) -> WorkerSlot {
    WorkerSlot {
        process_id,
        started_at: now,
        state_since: now,
        idle_since: Some(now),
        current_task_id: None,
        handled_task_count: 0,
        last_task_duration: None,
    }
}

pub open spec fn smaller(a: int, b: int) -> int {
    if a <= b {
        a
    } else {
        b
    }
}

pub open spec fn larger(a: int, b: int) -> int {
    if a >= b {
        a
    } else {
        b
    }
}

/// The pool with one more worker.
pub open spec fn grown<T>(
    s: PoolView<T>,
    worker_id: u64,
    process_id: Option<u32>,
    now: TimeSpan,
) -> PoolView<T> {
    let workers = s.workers.insert(worker_id, fresh(process_id, now));
    PoolView {
        workers,
        minimum_workers: larger(
            s.minimum_workers as int,
            smaller(workers.len() as int, s.limits.core as int),
        ) as usize,
        ..s
    }
}

/// The oldest queued task, if any, goes to `worker_id`.
pub open spec fn feed<T>(
    s: PoolView<T>,
    worker_id: u64,
    purpose: DispatchFor,
    next: Next,
    now: TimeSpan,
) -> Move<T> {
    if s.queue.len() > 0 {
        ask_dispatch(
            PoolView { queue: s.queue.drop_first(), ..s },
            worker_id,
            s.queue[0],
            purpose,
            next,
            now,
        )
    } else {
        proceed(s, next)
    }
}

/// Every queued task is answered with `e`.
pub open spec fn refusals<T>(queue: Seq<Job<T>>, e: ErrorView) -> Seq<NoticeView<T>> {
    Seq::new(queue.len(), |i: int| refusal(queue[i].ticket, e))
}

/// The queue is given up where no worker is left that could ever serve it.
pub open spec fn abandon_if_deserted<T>(s: PoolView<T>, e: ErrorView, next: Next) -> Move<T> {
    if s.workers.len() == 0 {
        announced(refusals(s.queue, e), proceed(PoolView { queue: Seq::empty(), ..s }, next))
    } else {
        proceed(s, next)
    }
}

/// The content of a report on a worker's start.
pub open spec fn start_view(result: Result<Option<u32>, String>) -> Result<
    Option<u32>,
    Seq<char>,
> {
    match result {
        Ok(process_id) => Ok(process_id),
        Err(why) => Err(why@),
    }
}

/// The host reports how starting a worker went.
pub open spec fn spawned<T>(
    s: PoolView<T>,
    result: Result<Option<u32>, Seq<char>>,
    now: TimeSpan,
) -> Move<T> {
    match s.stage {
        Stage::Spawning { worker_id, purpose, next } => match result {
            Ok(process_id) => {
                let g = grown(s, worker_id, process_id, now);
                match purpose {
                    SpawnFor::Task { job } => ask_dispatch(
                        g,
                        worker_id,
                        job,
                        DispatchFor::Started,
                        next,
                        now,
                    ),
                    SpawnFor::Queued { job } => ask_dispatch(
                        g,
                        worker_id,
                        job,
                        DispatchFor::QueuedToNew,
                        next,
                        now,
                    ),
                    SpawnFor::Prestart => feed(g, worker_id, DispatchFor::Prestarted, next, now),
                    SpawnFor::Restore => feed(g, worker_id, DispatchFor::Restored, next, now),
                }
            },
            Err(why) => {
                let e = ErrorView::SpawnFailed(why);
                match purpose {
                    SpawnFor::Task { job } => announced(
                        seq![refusal(job.ticket, e)],
                        proceed(s, next),
                    ),
                    SpawnFor::Queued { job } => announced(
                        seq![refusal(job.ticket, e)],
                        abandon_if_deserted(s, e, next),
                    ),
                    SpawnFor::Prestart => (
                        PoolView { stage: Stage::Ready, ..s },
                        StepView { prestarted: Some(Err(e)), ..quiet() },
                    ),
                    SpawnFor::Restore => abandon_if_deserted(s, e, Next::Rest),
                }
            },
        },
        _ => (s, quiet()),
    }
}

/// The host reports whether the worker took the task; a task that it did not take comes back.
pub open spec fn dispatched<T>(s: PoolView<T>, refused: Option<Job<T>>, now: TimeSpan) -> Move<T> {
    match s.stage {
        Stage::Dispatching { worker_id, purpose, next } => match refused {
            None => proceed(s, next),
            Some(job) => {
                let shrunk = PoolView { workers: s.workers.remove(worker_id), ..s };
                announced(
                    seq![NoticeView::Stop { worker_id }],
                    match purpose {
                        DispatchFor::Started => announced(
                            seq![
                                refusal(
                                    job.ticket,
                                    ErrorView::SpawnFailed(
                                        "new worker stopped before accepting a task"@,
                                    ),
                                ),
                            ],
                            proceed(shrunk, next),
                        ),
                        DispatchFor::Reused => settle(
                            shrunk,
                            job,
                            placement_beyond_core(shrunk),
                            next,
                            now,
                        ),
                        DispatchFor::Prestarted | DispatchFor::QueuedToIdle => settle(
                            shrunk,
                            job,
                            placement(shrunk),
                            next,
                            now,
                        ),
                        DispatchFor::QueuedToNew | DispatchFor::Restored => announced(
                            seq![
                                refusal(
                                    job.ticket,
                                    ErrorView::SpawnFailed(
                                        "replacement worker stopped before accepting a task"@,
                                    ),
                                ),
                            ],
                            proceed(shrunk, next),
                        ),
                    },
                )
            },
        },
        _ => (s, quiet()),
    }
}

/// The oldest queued task is given to an idle worker, or to a new one where the pool has none
/// or is below its core size; otherwise it keeps waiting. Then lost core workers are replaced.
pub open spec fn drained<T>(s: PoolView<T>, now: TimeSpan) -> Move<T> {
    if s.queue.len() == 0 {
        proceed(s, Next::Restore)
    } else {
        let job = s.queue[0];
        let taken = PoolView { queue: s.queue.drop_first(), ..s };
        match lowest_idle(s.workers) {
            Some(worker_id) => ask_dispatch(
                taken,
                worker_id,
                job,
                DispatchFor::QueuedToIdle,
                Next::Restore,
                now,
            ),
            None => if s.workers.len() == 0 || s.workers.len() < s.limits.core {
                ask_spawn(taken, SpawnFor::Queued { job }, Next::Restore)
            } else {
                proceed(s, Next::Restore)
            },
        }
    }
}

/// What the host reports about a worker.
pub enum WorkerEvent<T> {
    /// A managed worker ended a task.
    Finished { worker_id: u64, ticket: T, outcome: TaskOutcome, reusable: bool },
    /// A process outside the pool ended a task.
    OneShotFinished { ticket: T, outcome: TaskOutcome },
    /// An idle managed worker's process ended.
    Stopped { worker_id: u64 },
}

/// The counters after one more outcome.
pub open spec fn recorded<T>(s: PoolView<T>, outcome: TaskOutcome) -> PoolView<T> {
    if outcome is Ok {
        PoolView { completed: (s.completed + 1) as u64, ..s }
    } else {
        PoolView { failed: (s.failed + 1) as u64, ..s }
    }
}

/// A worker that has ended a task and is free again.
pub open spec fn released(slot: WorkerSlot, now: TimeSpan) -> WorkerSlot {
    WorkerSlot {
        last_task_duration: Some(now.elapsed_since(slot.state_since)),
        handled_task_count: (slot.handled_task_count + 1) as u64,
        current_task_id: None,
        idle_since: Some(now),
        state_since: now,
        ..slot
    }
}

/// The notice that ends a worker, where it is managed.
pub open spec fn stop_notice<T>(s: PoolView<T>, worker_id: u64) -> Seq<NoticeView<T>> {
    if s.workers.contains_key(worker_id) {
        seq![NoticeView::Stop { worker_id }]
    } else {
        Seq::empty()
    }
}

/// The pool after a report about a worker.
pub open spec fn reported<T>(s: PoolView<T>, event: WorkerEvent<T>, now: TimeSpan) -> Move<T> {
    match event {
        WorkerEvent::Finished { worker_id, ticket, outcome, reusable } => {
            let counted = recorded(s, outcome);
            let reply = seq![NoticeView::Reply { ticket, outcome: outcome_view(outcome) }];
            if !reusable {
                announced(
                    stop_notice(s, worker_id) + reply,
                    drained(PoolView { workers: s.workers.remove(worker_id), ..counted }, now),
                )
            } else if s.workers.contains_key(worker_id) {
                announced(
                    reply,
                    drained(
                        PoolView {
                            workers: s.workers.insert(
                                worker_id,
                                released(s.workers[worker_id], now),
                            ),
                            ..counted
                        },
                        now,
                    ),
                )
            } else {
                announced(reply, drained(counted, now))
            }
        },
        WorkerEvent::OneShotFinished { ticket, outcome } => (
            recorded(s, outcome),
            StepView {
                notices: seq![NoticeView::Reply { ticket, outcome: outcome_view(outcome) }],
                ..quiet()
            },
        ),
        WorkerEvent::Stopped { worker_id } => announced(
            stop_notice(s, worker_id),
            drained(PoolView { workers: s.workers.remove(worker_id), ..s }, now),
        ),
    }
}

/// Whether a worker has been idle for at least the keep-alive time.
pub open spec fn expired(slot: WorkerSlot, keep_alive: TimeSpan, now: TimeSpan) -> bool {
    slot.idle_since matches Some(since) && now.elapsed_since(since).nanos >= keep_alive.nanos
}

/// How many workers stand above the core size.
pub open spec fn surplus<T>(s: PoolView<T>) -> nat {
    if s.workers.len() > s.limits.core {
        (s.workers.len() - s.limits.core) as nat
    } else {
        0
    }
}

/// `gone` are the workers to retire: none while tasks wait, otherwise the expired ones from
/// the smallest identifier on, as many as stand above the core size.
pub open spec fn retirable<T>(s: PoolView<T>, now: TimeSpan, gone: Seq<u64>) -> bool {
    &&& forall|i: int, j: int| 0 <= i < j < gone.len() ==> gone[i] < gone[j]
    &&& forall|id: u64| #[trigger]
        gone.contains(id) ==> s.workers.contains_key(id) && expired(
            s.workers[id],
            s.limits.keep_alive,
            now,
        )
    &&& s.queue.len() > 0 ==> gone.len() == 0
    &&& gone.len() <= surplus(s)
    &&& s.queue.len() == 0 && gone.len() < surplus(s) ==> forall|id: u64| #[trigger]
        s.workers.contains_key(id) && expired(s.workers[id], s.limits.keep_alive, now)
            ==> gone.contains(id)
    &&& forall|id: u64, i: int|
        #![trigger s.workers.contains_key(id), gone[i]]
        s.workers.contains_key(id) && expired(s.workers[id], s.limits.keep_alive, now)
            && !gone.contains(id) && 0 <= i < gone.len() ==> gone[i] < id
}

/// The stop notices for workers.
pub open spec fn stops<T>(ids: Seq<u64>) -> Seq<NoticeView<T>> {
    Seq::new(ids.len(), |i: int| NoticeView::Stop { worker_id: ids[i] })
}

/// The pool without the workers `gone`.
pub open spec fn without<T>(s: PoolView<T>, gone: Seq<u64>) -> PoolView<T> {
    PoolView { workers: s.workers.remove_keys(gone.to_set()), ..s }
}

/// The pool after it has been closed.
pub open spec fn closed<T>(s: PoolView<T>) -> PoolView<T> {
    PoolView {
        workers: Map::empty(),
        queue: Seq::empty(),
        stage: Stage::Ready,
        open: false,
        ..s
    }
}

/// A pool that has not done anything yet.
pub open spec fn empty_pool<T>(limits: Limits) -> PoolView<T> {
    PoolView {
        limits,
        workers: Map::empty(),
        queue: Seq::empty(),
        next_worker_id: 1,
        next_job_id: 1,
        minimum_workers: 0,
        completed: 0,
        failed: 0,
        rejected: 0,
        caller_runs: 0,
        stage: Stage::Ready,
        open: true,
    }
}

/// How many core workers the work after `next` may still add.
pub open spec fn pledged(next: Next) -> nat {
    match next {
        Next::Prestart { left, missing } => left as nat,
        _ => 0,
    }
}

pub open spec fn stage_sound<T>(s: PoolView<T>) -> bool {
    match s.stage {
        Stage::Ready => true,
        Stage::Spawning { worker_id, purpose, next } => {
            &&& s.workers.len() < s.limits.maximum
            &&& next is Prestart ==> s.workers.len() + 1 + pledged(next) <= s.limits.core
            &&& match purpose {
                SpawnFor::Task { job } => true,
                SpawnFor::Queued { job } => next is Restore,
                SpawnFor::Prestart => next is Prestart,
                SpawnFor::Restore => next is Restore && s.workers.len() < s.minimum_workers,
            }
        },
        Stage::Dispatching { worker_id, purpose, next } => {
            &&& s.workers.contains_key(worker_id)
            &&& next is Prestart ==> s.workers.len() + pledged(next) <= s.limits.core
            &&& match purpose {
                DispatchFor::Prestarted => next is Prestart,
                DispatchFor::QueuedToIdle | DispatchFor::QueuedToNew
                | DispatchFor::Restored => next is Restore,
                _ => true,
            }
        },
    }
}

/// What holds of every worker: it is idle exactly when it has no task, and the duration of a
/// last task is known exactly when it has handled one.
pub open spec fn slot_sound(slot: WorkerSlot) -> bool {
    &&& is_idle(slot) <==> slot.current_task_id is None
    &&& slot.last_task_duration is Some <==> slot.handled_task_count > 0
}

/// What holds of every pool: the worker count and the queue respect their bounds, every worker
/// is sound, and no more core workers are kept up than the core holds.
pub open spec fn sound<T>(s: PoolView<T>) -> bool {
    &&& 0 < s.limits.maximum
    &&& s.limits.core <= s.limits.maximum
    &&& s.workers.dom().finite()
    &&& s.workers.len() <= s.limits.maximum
    &&& s.queue.len() <= s.limits.capacity
    &&& s.minimum_workers <= s.limits.core
    &&& forall|id: u64| #[trigger] s.workers.contains_key(id) ==> slot_sound(s.workers[id])
    &&& stage_sound(s)
    &&& !s.open ==> s.workers.len() == 0 && s.queue.len() == 0 && s.stage is Ready
}

/// Whether every counter can still be raised by one.
pub open spec fn countable<T>(s: PoolView<T>) -> bool {
    &&& s.completed < u64::MAX
    &&& s.failed < u64::MAX
    &&& s.rejected < u64::MAX
    &&& s.caller_runs < u64::MAX
    &&& forall|id: u64| #[trigger]
        s.workers.contains_key(id) ==> s.workers[id].handled_task_count < u64::MAX
}

/// The pool apart from the call that it waits for.
pub open spec fn settled<T>(s: PoolView<T>) -> bool {
    s.open && sound(PoolView { stage: Stage::Ready, ..s })
}

/// Whether the core still holds `extra` workers more than what `next` may add.
pub open spec fn fits<T>(s: PoolView<T>, next: Next, extra: nat) -> bool {
    next is Prestart ==> s.workers.len() + extra + pledged(next) <= s.limits.core
}

/// Going on keeps the pool sound.
pub proof fn proceeding_keeps_soundness<T>(s: PoolView<T>, next: Next)
    requires
        settled(s),
        pledged(next) > 0 ==> fits(s, next, 0),
    ensures
        sound(proceed(s, next).0),
{
}

/// Handing a task over keeps the pool sound.
pub proof fn dispatching_keeps_soundness<T>(
    s: PoolView<T>,
    worker_id: u64,
    job: Job<T>,
    purpose: DispatchFor,
    next: Next,
    now: TimeSpan,
)
    requires
        settled(s),
        s.workers.contains_key(worker_id),
        fits(s, next, 0),
        match purpose {
            DispatchFor::Prestarted => next is Prestart,
            DispatchFor::QueuedToIdle | DispatchFor::QueuedToNew | DispatchFor::Restored => next
                is Restore,
            _ => true,
        },
    ensures
        sound(ask_dispatch(s, worker_id, job, purpose, next, now).0),
{
    let m = ask_dispatch(s, worker_id, job, purpose, next, now).0;
    assert(m.workers.dom() =~= s.workers.dom());
}

/// Placing a task keeps the pool sound.
pub proof fn settling_keeps_soundness<T>(
    s: PoolView<T>,
    job: Job<T>,
    chosen: Placement,
    next: Next,
    now: TimeSpan,
)
    requires
        settled(s),
        fits(s, next, 1),
        chosen == placement(s) || chosen == placement_beyond_core(s),
    ensures
        sound(settle(s, job, chosen, next, now).0),
{
    match chosen {
        Placement::Reuse { worker_id } => {
            assert(is_lowest_idle(s.workers, worker_id));
            dispatching_keeps_soundness(s, worker_id, job, DispatchFor::Reused, next, now);
        },
        _ => {},
    }
}

/// A submission keeps the pool sound.
pub proof fn submission_keeps_soundness<T>(
    s: PoolView<T>,
    payload: Json,
    timeout: TimeSpan,
    ticket: T,
    now: TimeSpan,
)
    requires
        settled(s),
    ensures
        sound(submitted(s, payload, timeout, ticket, now).0),
{
    let job = Job { id: s.next_job_id, payload, timeout, ticket };
    let numbered = PoolView { next_job_id: following(s.next_job_id), ..s };
    settling_keeps_soundness(numbered, job, placement(numbered), Next::Rest, now);
}

proof fn lemma_grown<T>(s: PoolView<T>, worker_id: u64, process_id: Option<u32>, now: TimeSpan)
    requires
        settled(s),
        s.workers.len() < s.limits.maximum,
    ensures
        settled(grown(s, worker_id, process_id, now)),
        grown(s, worker_id, process_id, now).workers.contains_key(worker_id),
        grown(s, worker_id, process_id, now).workers.len() <= s.workers.len() + 1,
{
}

/// Going on with what the queue holds keeps the pool sound.
pub proof fn feeding_keeps_soundness<T>(
    s: PoolView<T>,
    worker_id: u64,
    purpose: DispatchFor,
    next: Next,
    now: TimeSpan,
)
    requires
        settled(s),
        s.workers.contains_key(worker_id),
        fits(s, next, 0),
        purpose is Prestarted ==> next is Prestart,
        purpose is Restored ==> next is Restore,
        purpose is Prestarted || purpose is Restored,
    ensures
        sound(feed(s, worker_id, purpose, next, now).0),
{
    if s.queue.len() > 0 {
        dispatching_keeps_soundness(
            PoolView { queue: s.queue.drop_first(), ..s },
            worker_id,
            s.queue[0],
            purpose,
            next,
            now,
        );
    }
}

/// The report on a worker's start keeps the pool sound.
pub proof fn spawn_report_keeps_soundness<T>(
    s: PoolView<T>,
    result: Result<Option<u32>, Seq<char>>,
    now: TimeSpan,
)
    requires
        sound(s),
    ensures
        sound(spawned(s, result, now).0),
{
    match s.stage {
        Stage::Spawning { worker_id, purpose, next } => {
            match result {
                Ok(process_id) => {
                    let g = grown(s, worker_id, process_id, now);
                    lemma_grown(s, worker_id, process_id, now);
                    match purpose {
                        SpawnFor::Task { job } => dispatching_keeps_soundness(
                            g,
                            worker_id,
                            job,
                            DispatchFor::Started,
                            next,
                            now,
                        ),
                        SpawnFor::Queued { job } => dispatching_keeps_soundness(
                            g,
                            worker_id,
                            job,
                            DispatchFor::QueuedToNew,
                            next,
                            now,
                        ),
                        SpawnFor::Prestart => feeding_keeps_soundness(
                            g,
                            worker_id,
                            DispatchFor::Prestarted,
                            next,
                            now,
                        ),
                        SpawnFor::Restore => feeding_keeps_soundness(
                            g,
                            worker_id,
                            DispatchFor::Restored,
                            next,
                            now,
                        ),
                    }
                },
                Err(_) => {},
            }
        },
        _ => {},
    }
}

/// The report on a task's hand-over keeps the pool sound.
pub proof fn dispatch_report_keeps_soundness<T>(
    s: PoolView<T>,
    refused: Option<Job<T>>,
    now: TimeSpan,
)
    requires
        sound(s),
    ensures
        sound(dispatched(s, refused, now).0),
{
    match s.stage {
        Stage::Dispatching { worker_id, purpose, next } => {
            match refused {
                None => {},
                Some(job) => {
                    let shrunk = PoolView { workers: s.workers.remove(worker_id), ..s };
                    assert(settled(shrunk));
                    match purpose {
                        DispatchFor::Reused => settling_keeps_soundness(
                            shrunk,
                            job,
                            placement_beyond_core(shrunk),
                            next,
                            now,
                        ),
                        DispatchFor::Prestarted
                        | DispatchFor::QueuedToIdle => settling_keeps_soundness(
                            shrunk,
                            job,
                            placement(shrunk),
                            next,
                            now,
                        ),
                        _ => {},
                    }
                },
            }
        },
        _ => {},
    }
}

/// Draining the queue keeps the pool sound.
pub proof fn draining_keeps_soundness<T>(s: PoolView<T>, now: TimeSpan)
    requires
        settled(s),
    ensures
        sound(drained(s, now).0),
{
    if s.queue.len() > 0 {
        let taken = PoolView { queue: s.queue.drop_first(), ..s };
        match lowest_idle(s.workers) {
            Some(worker_id) => {
                assert(is_lowest_idle(s.workers, worker_id));
                dispatching_keeps_soundness(
                    taken,
                    worker_id,
                    s.queue[0],
                    DispatchFor::QueuedToIdle,
                    Next::Restore,
                    now,
                );
            },
            None => {},
        }
    }
}

/// A report about a worker keeps the pool sound.
pub proof fn worker_report_keeps_soundness<T>(s: PoolView<T>, event: WorkerEvent<T>, now: TimeSpan)
    requires
        sound(s),
        s.open,
        s.stage is Ready,
        countable(s),
    ensures
        sound(reported(s, event, now).0),
{
    match event {
        WorkerEvent::Finished { worker_id, ticket, outcome, reusable } => {
            let counted = recorded(s, outcome);
            if !reusable {
                draining_keeps_soundness(
                    PoolView { workers: s.workers.remove(worker_id), ..counted },
                    now,
                );
            } else if s.workers.contains_key(worker_id) {
                let freed = PoolView {
                    workers: s.workers.insert(worker_id, released(s.workers[worker_id], now)),
                    ..counted
                };
                assert(freed.workers.dom() =~= s.workers.dom());
                draining_keeps_soundness(freed, now);
            } else {
                draining_keeps_soundness(counted, now);
            }
        },
        WorkerEvent::Stopped { worker_id } => {
            draining_keeps_soundness(
                PoolView { workers: s.workers.remove(worker_id), ..s },
                now,
            );
        },
        _ => {},
    }
}

} // verus!
