//! The process pool as a machine: commands and reports go in, outside work comes out.
use std::collections::VecDeque;
use vstd::prelude::*;
use vstd::string::*;
use crate::conduct::retired_workers_had_their_idle_time;
use crate::config::{
    complaint, limits_of, usable, Limits, PoolConfig, ProcessFactoryConfig,
    RejectedExecutionHandler, TimeSpan, NANOS_PER_MILLI, NANOS_PER_SECOND,
};
use crate::error::{outcome_view, ErrorView, PoolError, TaskOutcome};
use crate::json::{Json, JsonView};
use crate::protocol::{duration_ms, millis_of};
use crate::schedule::{
    abandon_if_deserted, ask_dispatch, ask_spawn, closed, countable,
    dispatch_report_keeps_soundness, dispatched, drained, empty_pool, expired, feed, grown,
    notice_views, placement, placement_beyond_core, prestart, prestart_view, proceed,
    proceeding_keeps_soundness, quiet, recorded, refusal, refusals, reject, reported, retirable,
    settle, sound, spawn_report_keeps_soundness, spawned, start_view, stop_notice, stops,
    submission_keeps_soundness, submitted, surplus, without, worker_report_keeps_soundness, Call,
    DispatchFor, Job, Next, Notice, NoticeView, PoolView, SpawnFor, Stage, Step, StepView,
    WorkerEvent,
};
use crate::workers::{is_idle, lists, lowest_idle, WorkerSlot, WorkerTable};

verus! {

impl<T> Step<T> {
    fn rest() -> (step: Step<T>)
        ensures
            step@ == quiet::<T>(),
    {
        let step = Step { notices: Vec::new(), call: None, prestarted: None };
        assert(step@.notices =~= Seq::<NoticeView<T>>::empty());
        step
    }

    fn calling(call: Call<T>) -> (step: Step<T>)
        ensures
            step@ == (StepView { call: Some(call), ..quiet::<T>() }),
    {
        let step = Step { notices: Vec::new(), call: Some(call), prestarted: None };
        assert(step@.notices =~= Seq::<NoticeView<T>>::empty());
        step
    }

    fn with_prestarted(result: Result<usize, PoolError>) -> (step: Step<T>)
        ensures
            step@ == (StepView { prestarted: prestart_view(Some(result)), ..quiet::<T>() }),
    {
        let step = Step { notices: Vec::new(), call: None, prestarted: Some(result) };
        assert(step@.notices =~= Seq::<NoticeView<T>>::empty());
        step
    }

    /// The step with one more notice before its own.
    fn after(self, notice: Notice<T>) -> (step: Step<T>)
        ensures
            step@ == (StepView { notices: seq![notice@] + self@.notices, ..self@ }),
    {
        let mut notices = self.notices;
        notices.insert(0, notice);
        let step = Step { notices, call: self.call, prestarted: self.prestarted };
        assert(step@.notices =~= seq![notice@] + self@.notices);
        step
    }

    /// The step with more notices before its own.
    fn after_all(self, earlier: Vec<Notice<T>>) -> (step: Step<T>)
        ensures
            step@ == (StepView { notices: notice_views(earlier@) + self@.notices, ..self@ }),
    {
        let mut notices = earlier;
        let mut own = self.notices;
        notices.append(&mut own);
        let step = Step { notices, call: self.call, prestarted: self.prestarted };
        assert(step@.notices =~= notice_views(earlier@) + self@.notices);
        step
    }
}

fn refuse<T>(ticket: T, e: PoolError) -> (notice: Notice<T>)
    ensures
        notice@ == refusal(ticket, e@),
{
    Notice::Reply { ticket, outcome: Err(e) }
}

/// The scheduler of a pool: it keeps the workers, the queue and the counters.
pub struct Supervisor<T> {
    limits: Limits,
    workers: WorkerTable,
    queue: VecDeque<Job<T>>,
    next_worker_id: u64,
    next_job_id: u64,
    minimum_workers: usize,
    completed_task_count: u64,
    failed_task_count: u64,
    rejected_task_count: u64,
    caller_runs_task_count: u64,
    stage: Stage<T>,
    open: bool,
}

impl<T> View for Supervisor<T> {
    type V = PoolView<T>;

    closed spec fn view(&self) -> PoolView<T> {
        PoolView {
            limits: self.limits,
            workers: self.workers@,
            queue: self.queue@,
            next_worker_id: self.next_worker_id,
            next_job_id: self.next_job_id,
            minimum_workers: self.minimum_workers,
            completed: self.completed_task_count,
            failed: self.failed_task_count,
            rejected: self.rejected_task_count,
            caller_runs: self.caller_runs_task_count,
            stage: self.stage,
            open: self.open,
        }
    }
}

impl<T> Supervisor<T> {
    pub closed spec fn ordered(&self) -> bool {
        self.workers.well_formed()
    }

    /// What every operation keeps up.
    pub open spec fn well_formed(&self) -> bool {
        self.ordered() && sound(self@)
    }

    /// A pool without workers and tasks.
    pub fn new(limits: Limits) -> (pool: Supervisor<T>)
        requires
            0 < limits.maximum,
            limits.core <= limits.maximum,
        ensures
            pool.well_formed(),
            pool@ == empty_pool::<T>(limits),
    {
        Supervisor {
            limits,
            workers: WorkerTable::new(),
            queue: VecDeque::new(),
            next_worker_id: 1,
            next_job_id: 1,
            minimum_workers: 0,
            completed_task_count: 0,
            failed_task_count: 0,
            rejected_task_count: 0,
            caller_runs_task_count: 0,
            stage: Stage::Ready,
            open: true,
        }
    }

    fn spawn_worker(&mut self, purpose: SpawnFor<T>, next: Next) -> (step: Step<T>)
        requires
            old(self).ordered(),
        ensures
            final(self).ordered(),
            (final(self)@, step@) == ask_spawn(old(self)@, purpose, next),
    {
        let worker_id: u64 = self.next_worker_id;
        self.next_worker_id = self.next_worker_id.wrapping_add(1);
        self.stage = Stage::Spawning { worker_id, purpose, next };
        Step::calling(Call::Spawn { worker_id })
    }

    fn dispatch(
        &mut self,
        worker_id: u64,
        job: Job<T>,
        purpose: DispatchFor,
        next: Next,
        now: TimeSpan,
    ) -> (step: Step<T>)
        requires
            old(self).ordered(),
            old(self)@.workers.contains_key(worker_id),
        ensures
            final(self).ordered(),
            (final(self)@, step@) == ask_dispatch(old(self)@, worker_id, job, purpose, next, now),
    {
        if let Some(slot) = self.workers.get(worker_id) {
            let busy = WorkerSlot {
                process_id: slot.process_id,
                started_at: slot.started_at,
                state_since: now,
                idle_since: None,
                current_task_id: Some(job.id),
                handled_task_count: slot.handled_task_count,
                last_task_duration: slot.last_task_duration,
            };
            self.workers.put(worker_id, busy);
        }
        self.stage = Stage::Dispatching { worker_id, purpose, next };
        Step::calling(Call::Dispatch { worker_id, job })
    }

    fn proceed(&mut self, next: Next) -> (step: Step<T>)
        requires
            old(self).ordered(),
        ensures
            final(self).ordered(),
            (final(self)@, step@) == proceed(old(self)@, next),
    {
        match next {
            Next::Rest => {
                self.stage = Stage::Ready;
                Step::rest()
            },
            Next::Prestart { left, missing } => {
                if left == 0 {
                    self.stage = Stage::Ready;
                    Step::with_prestarted(Ok(missing))
                } else {
                    self.spawn_worker(
                        SpawnFor::Prestart,
                        Next::Prestart { left: left - 1, missing },
                    )
                }
            },
            Next::Restore => self.restore_core_workers(),
        }
    }

    /// Starts the next missing one of the core workers that have been active before.
    fn restore_core_workers(&mut self) -> (step: Step<T>)
        requires
            old(self).ordered(),
        ensures
            final(self).ordered(),
            (final(self)@, step@) == proceed(old(self)@, Next::Restore),
    {
        if self.workers.len() < self.minimum_workers {
            self.spawn_worker(SpawnFor::Restore, Next::Restore)
        } else {
            self.stage = Stage::Ready;
            Step::rest()
        }
    }

    /// Warms the pool up to its core size, one worker after the other.
    pub fn prestart_core_workers(&mut self) -> (step: Step<T>)
        requires
            old(self).well_formed(),
            old(self)@.open,
            old(self)@.stage is Ready,
        ensures
            final(self).well_formed(),
            (final(self)@, step@) == prestart(old(self)@),
    {
        let count: usize = self.workers.len();
        let missing: usize = if count < self.limits.core {
            self.limits.core - count
        } else {
            0
        };
        proof {
            proceeding_keeps_soundness(self@, Next::Prestart { left: missing, missing });
        }
        self.proceed(Next::Prestart { left: missing, missing })
    }

    /// Takes a task in and places it.
    pub fn submit(
        &mut self,
        payload: Json,
        timeout: TimeSpan,
        ticket: T,
        now: TimeSpan,
    ) -> (step: Step<T>)
        requires
            old(self).well_formed(),
            old(self)@.open,
            old(self)@.stage is Ready,
            countable(old(self)@),
        ensures
            final(self).well_formed(),
            (final(self)@, step@) == submitted(old(self)@, payload, timeout, ticket, now),
    {
        proof {
            submission_keeps_soundness(self@, payload, timeout, ticket, now);
        }
        let job = Job { id: self.next_job_id, payload, timeout, ticket };
        self.next_job_id = self.next_job_id.wrapping_add(1);
        self.place_job(job, Next::Rest, now)
    }

    fn place_job(&mut self, job: Job<T>, next: Next, now: TimeSpan) -> (step: Step<T>)
        requires
            old(self).ordered(),
            countable(old(self)@),
        ensures
            final(self).ordered(),
            (final(self)@, step@) == settle(
                old(self)@,
                job,
                placement(old(self)@),
                next,
                now,
            ),
    {
        if self.workers.len() < self.limits.core {
            return self.start_job(job, next);
        }
        self.place_beyond_core(job, next, now)
    }

    /// Where a task goes once the core size does not matter.
    fn place_beyond_core(&mut self, job: Job<T>, next: Next, now: TimeSpan) -> (step: Step<T>)
        requires
            old(self).ordered(),
            countable(old(self)@),
        ensures
            final(self).ordered(),
            (final(self)@, step@) == settle(
                old(self)@,
                job,
                placement_beyond_core(old(self)@),
                next,
                now,
            ),
    {
        if let Some(worker_id) = self.idle_worker_id() {
            return self.dispatch(worker_id, job, DispatchFor::Reused, next, now);
        }
        if self.workers.len() == 0 {
            return self.start_job(job, next);
        }
        if self.queue.len() < self.limits.capacity {
            self.queue.push_back(job);
            return self.proceed(next);
        }
        if self.workers.len() < self.limits.maximum {
            return self.start_job(job, next);
        }
        self.apply_rejection_policy(job, next)
    }

    fn start_job(&mut self, job: Job<T>, next: Next) -> (step: Step<T>)
        requires
            old(self).ordered(),
        ensures
            final(self).ordered(),
            (final(self)@, step@) == ask_spawn(old(self)@, SpawnFor::Task { job }, next),
    {
        self.spawn_worker(SpawnFor::Task { job }, next)
    }

    fn apply_rejection_policy(&mut self, job: Job<T>, next: Next) -> (step: Step<T>)
        requires
            old(self).ordered(),
            countable(old(self)@),
        ensures
            final(self).ordered(),
            (final(self)@, step@) == reject(old(self)@, job, next),
    {
        self.rejected_task_count = self.rejected_task_count + 1;
        match self.limits.policy {
            RejectedExecutionHandler::Abort => {
                let step = self.proceed(next);
                step.after(refuse(job.ticket, PoolError::Rejected))
            },
            RejectedExecutionHandler::Discard => {
                let step = self.proceed(next);
                step.after(refuse(job.ticket, PoolError::Discarded))
            },
            RejectedExecutionHandler::DiscardOldest => {
                if let Some(oldest) = self.queue.pop_front() {
                    self.queue.push_back(job);
                    assert(self.queue@ =~= old(self)@.queue.drop_first().push(job));
                    let step = self.proceed(next);
                    step.after(refuse(oldest.ticket, PoolError::Discarded))
                } else {
                    let step = self.proceed(next);
                    step.after(refuse(job.ticket, PoolError::Rejected))
                }
            },
            RejectedExecutionHandler::CallerRuns => {
                self.caller_runs_task_count = self.caller_runs_task_count + 1;
                let step = self.proceed(next);
                step.after(Notice::RunOneShot { job })
            },
        }
    }

    fn idle_worker_id(&self) -> (found: Option<u64>)
        requires
            self.ordered(),
        ensures
            found == lowest_idle(self@.workers),
            found matches Some(id) ==> self@.workers.contains_key(id),
    {
        self.workers.first_idle()
    }

    fn remove_worker(&mut self, worker_id: u64) -> (found: bool)
        requires
            old(self).ordered(),
        ensures
            final(self).ordered(),
            final(self)@ == (PoolView {
                workers: old(self)@.workers.remove(worker_id),
                ..old(self)@
            }),
            found == old(self)@.workers.contains_key(worker_id),
    {
        self.workers.remove(worker_id)
    }

    /// Answers every queued task with the error.
    fn fail_queued(&mut self, error: PoolError) -> (notices: Vec<Notice<T>>)
        requires
            old(self).ordered(),
        ensures
            final(self).ordered(),
            final(self)@ == (PoolView { queue: Seq::empty(), ..old(self)@ }),
            notice_views(notices@) == refusals(old(self)@.queue, error@),
    {
        let ghost all = self.queue@;
        let mut notices: Vec<Notice<T>> = Vec::new();
        let mut done: usize = 0;
        let total: usize = self.queue.len();
        assert(all.skip(0) =~= all);
        while done < total
            invariant
                done <= total,
                total == all.len(),
                self.ordered(),
                self.queue@ == all.skip(done as int),
                self@ == (PoolView { queue: all.skip(done as int), ..old(self)@ }),
                notices@.len() == done,
                forall|i: int|
                    0 <= i < done ==> (#[trigger] notices@[i])@ == refusal(all[i].ticket, error@),
            decreases total - done,
        {
            if let Some(job) = self.queue.pop_front() {
                assert(job == all[done as int]);
                notices.push(refuse(job.ticket, error.clone()));
            }
            assert(self.queue@ =~= all.skip(done + 1));
            done = done + 1;
        }
        assert(self.queue@ =~= Seq::<Job<T>>::empty());
        assert(notice_views(notices@) =~= refusals(all, error@));
        notices
    }

    /// Gives the queue up where no worker is left, and goes on.
    fn abandon_if_deserted(&mut self, error: PoolError, next: Next) -> (step: Step<T>)
        requires
            old(self).ordered(),
        ensures
            final(self).ordered(),
            (final(self)@, step@) == abandon_if_deserted(old(self)@, error@, next),
    {
        if self.workers.len() == 0 {
            let notices = self.fail_queued(error);
            let step = self.proceed(next);
            step.after_all(notices)
        } else {
            self.proceed(next)
        }
    }

    /// Hands the oldest queued task, if any, to `worker_id`.
    fn feed(&mut self, worker_id: u64, purpose: DispatchFor, next: Next, now: TimeSpan) -> (step:
        Step<T>)
        requires
            old(self).ordered(),
            old(self)@.workers.contains_key(worker_id),
        ensures
            final(self).ordered(),
            (final(self)@, step@) == feed(old(self)@, worker_id, purpose, next, now),
    {
        if let Some(job) = self.queue.pop_front() {
            assert(self.queue@ =~= old(self)@.queue.drop_first());
            self.dispatch(worker_id, job, purpose, next, now)
        } else {
            self.proceed(next)
        }
    }

    /// Books a worker that has come up.
    fn grow(&mut self, worker_id: u64, process_id: Option<u32>, now: TimeSpan)
        requires
            old(self).ordered(),
        ensures
            final(self).ordered(),
            final(self)@ == grown(old(self)@, worker_id, process_id, now),
            final(self)@.workers.contains_key(worker_id),
    {
        let slot = WorkerSlot {
            process_id,
            started_at: now,
            state_since: now,
            idle_since: Some(now),
            current_task_id: None,
            handled_task_count: 0,
            last_task_duration: None,
        };
        self.workers.put(worker_id, slot);
        let count: usize = self.workers.len();
        let active: usize = if count <= self.limits.core {
            count
        } else {
            self.limits.core
        };
        if active > self.minimum_workers {
            self.minimum_workers = active;
        }
    }

    /// Takes the report on the start of a worker that the pool asked for.
    pub fn spawned(&mut self, result: Result<Option<u32>, String>, now: TimeSpan) -> (step: Step<T>)
        requires
            old(self).well_formed(),
        ensures
            final(self).well_formed(),
            (final(self)@, step@) == spawned(
                old(self)@,
                start_view(result),
                now,
            ),
    {
        proof {
            spawn_report_keeps_soundness(
                self@,
                start_view(result),
                now,
            );
        }
        let mut stage = Stage::Ready;
        std::mem::swap(&mut stage, &mut self.stage);
        match stage {
            Stage::Spawning { worker_id, purpose, next } => match result {
                Ok(process_id) => {
                    self.grow(worker_id, process_id, now);
                    match purpose {
                        SpawnFor::Task { job } => self.dispatch(
                            worker_id,
                            job,
                            DispatchFor::Started,
                            next,
                            now,
                        ),
                        SpawnFor::Queued { job } => self.dispatch(
                            worker_id,
                            job,
                            DispatchFor::QueuedToNew,
                            next,
                            now,
                        ),
                        SpawnFor::Prestart => self.feed(
                            worker_id,
                            DispatchFor::Prestarted,
                            next,
                            now,
                        ),
                        SpawnFor::Restore => self.feed(
                            worker_id,
                            DispatchFor::Restored,
                            next,
                            now,
                        ),
                    }
                },
                Err(why) => {
                    let error = PoolError::SpawnFailed(why);
                    match purpose {
                        SpawnFor::Task { job } => {
                            let step = self.proceed(next);
                            step.after(refuse(job.ticket, error))
                        },
                        SpawnFor::Queued { job } => {
                            let copy = error.clone();
                            let step = self.abandon_if_deserted(error, next);
                            step.after(refuse(job.ticket, copy))
                        },
                        SpawnFor::Prestart => Step::with_prestarted(Err(error)),
                        SpawnFor::Restore => self.abandon_if_deserted(error, Next::Rest),
                    }
                },
            },
            other => {
                self.stage = other;
                Step::rest()
            },
        }
    }

    /// Takes the report on a task that the pool handed to a worker: `None` where the worker
    /// took it, the task where it did not.
    pub fn dispatched(&mut self, refused: Option<Job<T>>, now: TimeSpan) -> (step: Step<T>)
        requires
            old(self).well_formed(),
            countable(old(self)@),
        ensures
            final(self).well_formed(),
            (final(self)@, step@) == dispatched(old(self)@, refused, now),
    {
        proof {
            dispatch_report_keeps_soundness(self@, refused, now);
        }
        let mut stage = Stage::Ready;
        std::mem::swap(&mut stage, &mut self.stage);
        match stage {
            Stage::Dispatching { worker_id, purpose, next } => match refused {
                None => self.proceed(next),
                Some(job) => {
                    self.remove_worker(worker_id);
                    let step = match purpose {
                        DispatchFor::Started => {
                            let step = self.proceed(next);
                            step.after(
                                refuse(
                                    job.ticket,
                                    PoolError::SpawnFailed(
                                        "new worker stopped before accepting a task".to_owned(),
                                    ),
                                ),
                            )
                        },
                        DispatchFor::Reused => self.place_beyond_core(job, next, now),
                        DispatchFor::Prestarted | DispatchFor::QueuedToIdle => self.place_job(
                            job,
                            next,
                            now,
                        ),
                        DispatchFor::QueuedToNew | DispatchFor::Restored => {
                            let step = self.proceed(next);
                            step.after(
                                refuse(
                                    job.ticket,
                                    PoolError::SpawnFailed(
                                        "replacement worker stopped before accepting a task".to_owned(),
                                    ),
                                ),
                            )
                        },
                    };
                    step.after(Notice::Stop { worker_id })
                },
            },
            other => {
                self.stage = other;
                Step::rest()
            },
        }
    }

    fn record_outcome(&mut self, outcome: &TaskOutcome)
        requires
            old(self).ordered(),
            countable(old(self)@),
        ensures
            final(self).ordered(),
            final(self)@ == recorded(old(self)@, *outcome),
    {
        if outcome.is_ok() {
            self.completed_task_count = self.completed_task_count + 1;
        } else {
            self.failed_task_count = self.failed_task_count + 1;
        }
    }

    /// Gives the oldest queued task a worker where one is to be had.
    fn drain_one_queued_task(&mut self, now: TimeSpan) -> (step: Step<T>)
        requires
            old(self).ordered(),
        ensures
            final(self).ordered(),
            (final(self)@, step@) == drained(old(self)@, now),
    {
        if self.queue.len() == 0 {
            return self.restore_core_workers();
        }
        if let Some(worker_id) = self.idle_worker_id() {
            return self.feed(worker_id, DispatchFor::QueuedToIdle, Next::Restore, now);
        }
        let count: usize = self.workers.len();
        if count == 0 || count < self.limits.core {
            if let Some(job) = self.queue.pop_front() {
                assert(self.queue@ =~= old(self)@.queue.drop_first());
                return self.spawn_worker(SpawnFor::Queued { job }, Next::Restore);
            }
        }
        self.restore_core_workers()
    }

    /// Takes a report about a worker.
    pub fn handle_worker_event(&mut self, event: WorkerEvent<T>, now: TimeSpan) -> (step: Step<T>)
        requires
            old(self).well_formed(),
            old(self)@.open,
            old(self)@.stage is Ready,
            countable(old(self)@),
        ensures
            final(self).well_formed(),
            (final(self)@, step@) == reported(old(self)@, event, now),
    {
        proof {
            worker_report_keeps_soundness(self@, event, now);
        }
        match event {
            WorkerEvent::Finished { worker_id, ticket, outcome, reusable } => {
                self.record_outcome(&outcome);
                let mut found: bool = false;
                if reusable {
                    if let Some(slot) = self.workers.get(worker_id) {
                        let freed = WorkerSlot {
                            process_id: slot.process_id,
                            started_at: slot.started_at,
                            state_since: now,
                            idle_since: Some(now),
                            current_task_id: None,
                            handled_task_count: slot.handled_task_count + 1,
                            last_task_duration: Some(now.duration_since(slot.state_since)),
                        };
                        self.workers.put(worker_id, freed);
                    }
                } else {
                    found = self.remove_worker(worker_id);
                }
                let step = self.drain_one_queued_task(now);
                let answered = step.after(Notice::Reply { ticket, outcome });
                if found {
                    let stopped = answered.after(Notice::Stop { worker_id });
                    assert(stopped@.notices =~= stop_notice(old(self)@, worker_id) + seq![
                        NoticeView::Reply { ticket, outcome: outcome_view(outcome) },
                    ] + step@.notices);
                    stopped
                } else {
                    assert(answered@.notices =~= Seq::<NoticeView<T>>::empty() + seq![
                        NoticeView::Reply { ticket, outcome: outcome_view(outcome) },
                    ] + step@.notices);
                    answered
                }
            },
            WorkerEvent::OneShotFinished { ticket, outcome } => {
                self.record_outcome(&outcome);
                let step = Step::rest().after(Notice::Reply { ticket, outcome });
                assert(step@.notices =~= seq![
                    NoticeView::Reply { ticket, outcome: outcome_view(outcome) },
                ]);
                step
            },
            WorkerEvent::Stopped { worker_id } => {
                let found: bool = self.remove_worker(worker_id);
                let step = self.drain_one_queued_task(now);
                if found {
                    step.after(Notice::Stop { worker_id })
                } else {
                    assert(step@.notices =~= Seq::<NoticeView<T>>::empty() + step@.notices);
                    step
                }
            },
        }
    }

    /// Lets workers above the core size go that have been idle for the keep-alive time. The
    /// notices of the step stop exactly those.
    pub fn retire_idle_workers(&mut self, now: TimeSpan) -> (step: Step<T>)
        requires
            old(self).well_formed(),
            old(self)@.stage is Ready,
        ensures
            final(self).well_formed(),
            exists|gone: Seq<u64>| #[trigger]
                retirable(old(self)@, now, gone) && final(self)@ == without(old(self)@, gone)
                    && step@ == (StepView { notices: stops(gone), ..quiet::<T>() }),
            forall|i: int|
                0 <= i < step@.notices.len() ==> (
                #[trigger] step@.notices[i] matches NoticeView::Stop { worker_id } && old(
                    self,
                )@.workers.contains_key(worker_id) && (old(
                    self,
                )@.workers[worker_id].idle_since matches Some(since) && (since.nanos <= now.nanos
                    ==> since.nanos + old(self)@.limits.keep_alive.nanos <= now.nanos))),
    {
        let ghost before = self@;
        let count: usize = self.workers.len();
        let mut removable: usize = if count > self.limits.core {
            count - self.limits.core
        } else {
            0
        };
        let mut notices: Vec<Notice<T>> = Vec::new();
        let ghost mut gone: Seq<u64> = Seq::empty();
        assert(without(before, gone).workers =~= before.workers);
        assert(notice_views(notices@) =~= stops(gone));
        if removable > 0 && self.queue.len() == 0 {
            let ids = self.workers.ids();
            let mut i: usize = 0;
            while i < ids.len() && removable > 0
                invariant
                    self.ordered(),
                    sound(self@),
                    self@ == without(before, gone),
                    before.queue.len() == 0,
                    before.stage is Ready,
                    lists(ids@, before.workers),
                    i <= ids@.len(),
                    removable + gone.len() == surplus(before),
                    forall|a: int, b: int| 0 <= a < b < gone.len() ==> gone[a] < gone[b],
                    forall|a: int|
                        0 <= a < gone.len() ==> before.workers.contains_key(#[trigger] gone[a])
                            && expired(before.workers[gone[a]], before.limits.keep_alive, now),
                    forall|a: int, b: int|
                        0 <= a < gone.len() && i <= b < ids@.len() ==> #[trigger] gone[a]
                            < #[trigger] ids@[b],
                    forall|a: int|
                        0 <= a < i && expired(
                            before.workers[#[trigger] ids@[a]],
                            before.limits.keep_alive,
                            now,
                        ) ==> gone.contains(ids@[a]),
                    notice_views(notices@) == stops::<T>(gone),
                decreases ids@.len() - i,
            {
                let id: u64 = ids[i];
                assert(ids@.contains(id));
                assert(before.workers.contains_key(id));
                assert(!gone.to_set().contains(id));
                let mut stale: bool = false;
                if let Some(slot) = self.workers.get(id) {
                    if let Some(since) = slot.idle_since {
                        stale = now.duration_since(since).nanos >= self.limits.keep_alive.nanos;
                    }
                }
                if stale {
                    let ghost told = notices@;
                    self.remove_worker(id);
                    removable = removable - 1;
                    notices.push(Notice::Stop { worker_id: id });
                    proof {
                        let more = gone.push(id);
                        gone.lemma_push_to_set_commute(id);
                        assert(self@.workers =~= without(before, more).workers);
                        assert(notice_views(notices@) =~= notice_views(told).push(
                            NoticeView::Stop { worker_id: id },
                        ));
                        assert(notice_views(notices@) =~= stops::<T>(more));
                        assert(more[gone.len() as int] == id);
                        assert forall|a: int|
                            0 <= a < i + 1 && expired(
                                before.workers[#[trigger] ids@[a]],
                                before.limits.keep_alive,
                                now,
                            ) implies more.contains(ids@[a]) by {
                            if a < i {
                                let k = choose|k: int| 0 <= k < gone.len() && gone[k] == ids@[a];
                                assert(more[k] == ids@[a]);
                            }
                        }
                        gone = more;
                    }
                }
                i = i + 1;
            }
            proof {
                assert forall|id: u64|
                    before.workers.contains_key(id) && expired(
                        before.workers[id],
                        before.limits.keep_alive,
                        now,
                    ) && !gone.contains(id) implies exists|b: int|
                    i <= b < ids@.len() && ids@[b] == id by {
                    assert(ids@.contains(id));
                }
            }
        }
        assert(retirable(before, now, gone));
        proof {
            assert forall|i: int| 0 <= i < gone.len() implies before.workers.contains_key(
                #[trigger] gone[i],
            ) && (before.workers[gone[i]].idle_since matches Some(since) && (since.nanos
                <= now.nanos ==> since.nanos + before.limits.keep_alive.nanos <= now.nanos)) by {
                assert(gone.contains(gone[i]));
                retired_workers_had_their_idle_time(before, now, gone, gone[i]);
            }
        }
        Step { notices, call: None, prestarted: None }
    }

    /// Stops all workers and answers every queued task that the pool is closed.
    pub fn close(&mut self) -> (notices: Vec<Notice<T>>)
        requires
            old(self).well_formed(),
            old(self)@.stage is Ready,
        ensures
            final(self).well_formed(),
            final(self)@ == closed(old(self)@),
            exists|ids: Seq<u64>| #[trigger]
                lists(ids, old(self)@.workers) && notice_views(notices@) == stops(ids) + refusals(
                    old(self)@.queue,
                    ErrorView::Closed,
                ),
    {
        let ghost before = self@;
        let (ids, mut notices) = self.stop_all_workers();
        let mut refused = self.fail_queued(PoolError::Closed);
        let ghost stopped = notices@;
        let ghost failed = refused@;
        notices.append(&mut refused);
        self.open = false;
        assert(notice_views(notices@) =~= notice_views(stopped) + notice_views(failed));
        assert(lists(ids@, before.workers));
        notices
    }

    fn stop_all_workers(&mut self) -> (r: (Vec<u64>, Vec<Notice<T>>))
        requires
            old(self).ordered(),
        ensures
            final(self).ordered(),
            final(self)@ == (PoolView { workers: Map::empty(), ..old(self)@ }),
            lists(r.0@, old(self)@.workers),
            notice_views(r.1@) == stops::<T>(r.0@),
    {
        let ids = self.workers.ids();
        self.workers.clear();
        let mut notices: Vec<Notice<T>> = Vec::new();
        let mut i: usize = 0;
        while i < ids.len()
            invariant
                i <= ids@.len(),
                notices@.len() == i,
                forall|j: int|
                    0 <= j < i ==> (#[trigger] notices@[j])@ == (NoticeView::<T>::Stop {
                        worker_id: ids@[j],
                    }),
            decreases ids@.len() - i,
        {
            notices.push(Notice::Stop { worker_id: ids[i] });
            i = i + 1;
        }
        assert(notice_views(notices@) =~= stops::<T>(ids@));
        (ids, notices)
    }

    /// Whether every counter can still be raised.
    pub fn has_room(&self) -> (yes: bool)
        requires
            self.well_formed(),
        ensures
            yes == countable(self@),
    {
        let mut yes: bool = self.completed_task_count < u64::MAX && self.failed_task_count < u64::MAX
            && self.rejected_task_count < u64::MAX && self.caller_runs_task_count < u64::MAX;
        let ids = self.workers.ids();
        let ghost counters = self@.completed < u64::MAX && self@.failed < u64::MAX && self@.rejected
            < u64::MAX && self@.caller_runs < u64::MAX;
        let mut i: usize = 0;
        while i < ids.len()
            invariant
                self.ordered(),
                lists(ids@, self@.workers),
                i <= ids@.len(),
                yes == (counters && forall|j: int|
                    0 <= j < i ==> self@.workers[#[trigger] ids@[j]].handled_task_count < u64::MAX),
            decreases ids@.len() - i,
        {
            assert(ids@.contains(ids@[i as int]));
            if let Some(slot) = self.workers.get(ids[i]) {
                if slot.handled_task_count == u64::MAX {
                    yes = false;
                }
            }
            i = i + 1;
        }
        assert(yes == countable(self@)) by {
            if yes {
                assert forall|id: u64| #[trigger] self@.workers.contains_key(id) implies
                    self@.workers[id].handled_task_count < u64::MAX by {
                    assert(ids@.contains(id));
                }
            } else if counters {
                let j = choose|j: int|
                    0 <= j < i && !(self@.workers[#[trigger] ids@[j]].handled_task_count
                        < u64::MAX);
                assert(ids@.contains(ids@[j]));
                assert(self@.workers.contains_key(ids@[j]));
            }
        }
        yes
    }

    /// Whether the pool waits for no call.
    pub fn is_ready(&self) -> (yes: bool)
        ensures
            yes == (self@.stage is Ready),
    {
        matches!(self.stage, Stage::Ready)
    }
}

/// Whether a worker is free.
#[derive(Debug, Clone, Copy, PartialEq, Eq, Structural)]
pub enum WorkerState {
    Idle,
    Busy,
}

/// What can be told about one worker.
#[derive(Debug, Clone, Copy, PartialEq, Eq)]
pub struct WorkerStats {
    pub worker_id: u64,
    pub process_id: Option<u32>,
    pub state: WorkerState,
    pub current_task_id: Option<u64>,
    pub state_for_ms: u64,
    pub uptime_ms: u64,
    pub handled_task_count: u64,
    pub last_task_duration_ms: Option<u64>,
}

/// What can be told about a pool.
#[derive(Debug, Clone, PartialEq, Eq)]
pub struct PoolStats {
    pub core_pool_size: usize,
    pub maximum_pool_size: usize,
    pub keep_alive_ms: u64,
    pub work_queue_capacity: usize,
    pub rejection_policy: RejectedExecutionHandler,
    pub worker_count: usize,
    pub idle_worker_count: usize,
    pub busy_worker_count: usize,
    pub queued_task_count: usize,
    pub completed_task_count: u64,
    pub failed_task_count: u64,
    pub rejected_task_count: u64,
    pub caller_runs_task_count: u64,
    pub workers: Vec<WorkerStats>,
}

/// The row of one worker.
pub open spec fn worker_row(id: u64, slot: WorkerSlot, now: TimeSpan) -> WorkerStats {
    WorkerStats {
        worker_id: id,
        process_id: slot.process_id,
        state: if is_idle(slot) {
            WorkerState::Idle
        } else {
            WorkerState::Busy
        },
        current_task_id: slot.current_task_id,
        state_for_ms: millis_of(now.elapsed_since(slot.state_since)),
        uptime_ms: millis_of(now.elapsed_since(slot.started_at)),
        handled_task_count: slot.handled_task_count,
        last_task_duration_ms: match slot.last_task_duration {
            Some(span) => Some(millis_of(span)),
            None => None,
        },
    }
}

/// How many rows are in `state`.
pub open spec fn rows_in(rows: Seq<WorkerStats>, state: WorkerState) -> nat
    decreases rows.len(),
{
    if rows.len() == 0 {
        0
    } else {
        rows_in(rows.drop_last(), state) + if rows.last().state == state {
            1nat
        } else {
            0
        }
    }
}

/// The rows of all workers, by ascending identifier.
pub open spec fn worker_rows(rows: Seq<WorkerStats>, workers: Map<u64, WorkerSlot>, now: TimeSpan) -> bool {
    &&& lists(Seq::new(rows.len(), |i: int| rows[i].worker_id), workers)
    &&& forall|i: int|
        0 <= i < rows.len() ==> #[trigger] rows[i] == worker_row(
            rows[i].worker_id,
            workers[rows[i].worker_id],
            now,
        )
}

/// `stats` tells the truth about the pool.
pub open spec fn describes<T>(stats: PoolStats, s: PoolView<T>, now: TimeSpan) -> bool {
    &&& stats.core_pool_size == s.limits.core
    &&& stats.maximum_pool_size == s.limits.maximum
    &&& stats.keep_alive_ms == millis_of(s.limits.keep_alive)
    &&& stats.work_queue_capacity == s.limits.capacity
    &&& stats.rejection_policy == s.limits.policy
    &&& stats.worker_count == s.workers.len()
    &&& stats.worker_count == stats.workers@.len()
    &&& stats.idle_worker_count == rows_in(stats.workers@, WorkerState::Idle)
    &&& stats.busy_worker_count == rows_in(stats.workers@, WorkerState::Busy)
    &&& stats.queued_task_count == s.queue.len()
    &&& stats.completed_task_count == s.completed
    &&& stats.failed_task_count == s.failed
    &&& stats.rejected_task_count == s.rejected
    &&& stats.caller_runs_task_count == s.caller_runs
    &&& worker_rows(stats.workers@, s.workers, now)
}

/// Every worker is either idle or busy.
pub proof fn every_worker_is_idle_or_busy(rows: Seq<WorkerStats>)
    ensures
        rows_in(rows, WorkerState::Idle) + rows_in(rows, WorkerState::Busy) == rows.len(),
    decreases rows.len(),
{
    if rows.len() > 0 {
        every_worker_is_idle_or_busy(rows.drop_last());
    }
}

impl<T> Supervisor<T> {
    /// The state of the pool at the moment `now`.
    pub fn stats_snapshot(&self, now: TimeSpan) -> (stats: PoolStats)
        requires
            self.well_formed(),
        ensures
            describes(stats, self@, now),
            stats.worker_count == stats.idle_worker_count + stats.busy_worker_count,
    {
        let ids = self.workers.ids();
        let mut rows: Vec<WorkerStats> = Vec::new();
        let mut idle_worker_count: usize = 0;
        let mut i: usize = 0;
        while i < ids.len()
            invariant
                self.ordered(),
                lists(ids@, self@.workers),
                i <= ids@.len(),
                rows@.len() == i,
                idle_worker_count <= i,
                idle_worker_count == rows_in(rows@, WorkerState::Idle),
                forall|j: int|
                    0 <= j < i ==> #[trigger] rows@[j] == worker_row(
                        ids@[j],
                        self@.workers[ids@[j]],
                        now,
                    ),
            decreases ids@.len() - i,
        {
            let id: u64 = ids[i];
            let ghost before = rows@;
            assert(ids@.contains(id));
            assert(self@.workers.contains_key(id));
            if let Some(slot) = self.workers.get(id) {
                let idle: bool = slot.idle_since.is_some();
                let row = WorkerStats {
                    worker_id: id,
                    process_id: slot.process_id,
                    state: if idle {
                        WorkerState::Idle
                    } else {
                        WorkerState::Busy
                    },
                    current_task_id: slot.current_task_id,
                    state_for_ms: duration_ms(now.duration_since(slot.state_since)),
                    uptime_ms: duration_ms(now.duration_since(slot.started_at)),
                    handled_task_count: slot.handled_task_count,
                    last_task_duration_ms: match slot.last_task_duration {
                        Some(span) => Some(duration_ms(span)),
                        None => None,
                    },
                };
                rows.push(row);
                if idle {
                    idle_worker_count = idle_worker_count + 1;
                }
                assert(rows@.drop_last() =~= before);
                assert(rows@.last() == row);
            }
            i = i + 1;
        }
        proof {
            every_worker_is_idle_or_busy(rows@);
            assert(Seq::new(rows@.len(), |j: int| rows@[j].worker_id) =~= ids@);
        }
        let worker_count: usize = self.workers.len();
        PoolStats {
            core_pool_size: self.limits.core,
            maximum_pool_size: self.limits.maximum,
            keep_alive_ms: duration_ms(self.limits.keep_alive),
            work_queue_capacity: self.limits.capacity,
            rejection_policy: self.limits.policy,
            worker_count,
            idle_worker_count,
            busy_worker_count: worker_count - idle_worker_count,
            queued_task_count: self.queue.len(),
            completed_task_count: self.completed_task_count,
            failed_task_count: self.failed_task_count,
            rejected_task_count: self.rejected_task_count,
            caller_runs_task_count: self.caller_runs_task_count,
            workers: rows,
        }
    }
}

/// How often the pool looks for workers to retire: every half of the keep-alive time, kept
/// between fifty milliseconds and one second.
pub open spec fn tick_nanos(keep_alive: TimeSpan) -> int {
    let half = keep_alive.nanos / 2;
    if half < 50 * NANOS_PER_MILLI {
        50 * NANOS_PER_MILLI
    } else if half > NANOS_PER_SECOND {
        NANOS_PER_SECOND as int
    } else {
        half as int
    }
}

/// The time between two looks for workers to retire.
pub fn idle_tick_duration(keep_alive: TimeSpan) -> (tick: TimeSpan)
    ensures
        tick.nanos == tick_nanos(keep_alive),
{
    let half: u128 = keep_alive.nanos / 2;
    if half < 50 * NANOS_PER_MILLI {
        TimeSpan::from_millis(50)
    } else if half > NANOS_PER_SECOND {
        TimeSpan::from_secs(1)
    } else {
        TimeSpan { nanos: half }
    }
}

/// What the host reports to a pool.
pub enum Report<T> {
    /// The worker that the pool asked for has come up, or has not.
    Spawned(Result<Option<u32>, String>),
    /// The worker took the task (`None`), or the task came back.
    Dispatched(Option<Job<T>>),
    /// Something happened to a worker.
    Worker(WorkerEvent<T>),
    /// The time of one tick has passed.
    Tick,
}

/// A report takes the pool from `s` to `after` and asks the host for `step`. A closed pool has
/// nothing more to do.
pub open spec fn advances<T>(
    s: PoolView<T>,
    report: Report<T>,
    now: TimeSpan,
    after: PoolView<T>,
    step: StepView<T>,
) -> bool {
    if !s.open {
        after == s && step == quiet::<T>()
    } else {
        match report {
            Report::Spawned(result) => (after, step) == spawned(s, start_view(result), now),
            Report::Dispatched(refused) => (after, step) == dispatched(s, refused, now),
            Report::Worker(event) => (after, step) == reported(s, event, now),
            Report::Tick => exists|gone: Seq<u64>| #[trigger]
                retirable(s, now, gone) && after == without(s, gone) && step == (StepView {
                    notices: stops(gone),
                    ..quiet::<T>()
                }),
        }
    }
}

/// What the caller of a task is told in the end: the outcome, or, where the pool let go of the
/// task without one, that the pool is closed.
pub open spec fn told(reply: Option<TaskOutcome>) -> Result<JsonView, ErrorView> {
    match reply {
        Some(outcome) => outcome_view(outcome),
        None => Err(ErrorView::Closed),
    }
}

/// Draws the conclusion for the caller of a task.
pub fn final_outcome(reply: Option<TaskOutcome>) -> (outcome: TaskOutcome)
    ensures
        outcome_view(outcome) == told(reply),
{
    match reply {
        Some(outcome) => outcome,
        None => Err(PoolError::Closed),
    }
}

/// A pool of worker processes, created from the seven parameters.
pub struct ProcessPool<T> {
    supervisor: Supervisor<T>,
    factory: ProcessFactoryConfig,
}

impl<T> View for ProcessPool<T> {
    type V = PoolView<T>;

    closed spec fn view(&self) -> PoolView<T> {
        self.supervisor@
    }
}

impl<T> ProcessPool<T> {
    pub closed spec fn ordered(&self) -> bool {
        self.supervisor.ordered()
    }

    /// What every operation keeps up.
    pub open spec fn well_formed(&self) -> bool {
        self.ordered() && sound(self@)
    }

    /// How the pool's workers are started.
    pub closed spec fn process_factory(&self) -> ProcessFactoryConfig {
        self.factory
    }

    /// Creates the pool without starting workers. Workers are created on demand.
    pub fn new(config: PoolConfig) -> (pool: Result<ProcessPool<T>, PoolError>)
        ensures
            match pool {
                Ok(pool) => usable(config) && pool.well_formed() && pool@ == empty_pool::<T>(
                    limits_of(config),
                ) && pool.process_factory() == config.process_factory,
                Err(e) => complaint(config) matches Some(why) && e@ == ErrorView::InvalidConfig(
                    why,
                ),
            },
    {
        match config.validate() {
            Err(e) => Err(e),
            Ok(()) => match config.keep_alive() {
                Err(e) => Err(e),
                Ok(keep_alive) => {
                    let limits = Limits {
                        core: config.core_pool_size,
                        maximum: config.maximum_pool_size,
                        capacity: config.work_queue.capacity(),
                        keep_alive,
                        policy: config.rejected_execution_handler,
                    };
                    Ok(
                        ProcessPool {
                            supervisor: Supervisor::new(limits),
                            factory: config.process_factory,
                        },
                    )
                },
            },
        }
    }

    /// How the pool's workers are started.
    pub fn factory(&self) -> (factory: &ProcessFactoryConfig)
        ensures
            *factory == self.process_factory(),
    {
        &self.factory
    }

    /// The time between two ticks.
    pub fn tick(&self) -> (tick: TimeSpan)
        ensures
            tick.nanos == tick_nanos(self@.limits.keep_alive),
    {
        idle_tick_duration(self.supervisor.limits.keep_alive)
    }

    /// Whether the pool waits for no call.
    pub fn is_ready(&self) -> (yes: bool)
        ensures
            yes == (self@.stage is Ready),
    {
        self.supervisor.is_ready()
    }

    /// Whether every counter can still be raised.
    pub fn has_room(&self) -> (yes: bool)
        requires
            self.well_formed(),
        ensures
            yes == countable(self@),
    {
        self.supervisor.has_room()
    }

    /// Warms up to the configured core size. Workers that are there are kept, so that a
    /// repeated call starts nothing. The last step of the warm-up tells how many were started.
    pub fn prestart_core_workers(&mut self) -> (step: Result<Step<T>, PoolError>)
        requires
            old(self).well_formed(),
            old(self)@.stage is Ready,
        ensures
            final(self).well_formed(),
            final(self).process_factory() == old(self).process_factory(),
            match step {
                Ok(step) => old(self)@.open && (final(self)@, step@) == prestart(old(self)@),
                Err(e) => !old(self)@.open && e@ == ErrorView::Closed && final(self)@ == old(self)@,
            },
    {
        if !self.supervisor.open {
            return Err(PoolError::Closed);
        }
        Ok(self.supervisor.prestart_core_workers())
    }

    /// Takes one task in. The notices of this and of later steps answer it through `ticket`.
    pub fn execute(
        &mut self,
        payload: Json,
        timeout: TimeSpan,
        ticket: T,
        now: TimeSpan,
    ) -> (step: Result<Step<T>, PoolError>)
        requires
            old(self).well_formed(),
            old(self)@.stage is Ready,
            countable(old(self)@),
        ensures
            final(self).well_formed(),
            final(self).process_factory() == old(self).process_factory(),
            match step {
                Ok(step) => old(self)@.open && (final(self)@, step@) == submitted(
                    old(self)@,
                    payload,
                    timeout,
                    ticket,
                    now,
                ),
                Err(e) => !old(self)@.open && e@ == ErrorView::Closed && final(self)@ == old(self)@,
            },
    {
        if !self.supervisor.open {
            return Err(PoolError::Closed);
        }
        Ok(self.supervisor.submit(payload, timeout, ticket, now))
    }

    /// The state of the pool at the moment `now`.
    pub fn stats(&self, now: TimeSpan) -> (stats: Result<PoolStats, PoolError>)
        requires
            self.well_formed(),
        ensures
            match stats {
                Ok(stats) => self@.open && describes(stats, self@, now) && stats.worker_count
                    == stats.idle_worker_count + stats.busy_worker_count,
                Err(e) => !self@.open && e@ == ErrorView::Closed,
            },
    {
        if !self.supervisor.open {
            return Err(PoolError::Closed);
        }
        Ok(self.supervisor.stats_snapshot(now))
    }

    /// Closes the pool: every worker is stopped and every queued task answered with `Closed`.
    pub fn shutdown(&mut self) -> (notices: Result<Vec<Notice<T>>, PoolError>)
        requires
            old(self).well_formed(),
            old(self)@.stage is Ready,
        ensures
            final(self).well_formed(),
            final(self).process_factory() == old(self).process_factory(),
            match notices {
                Ok(notices) => old(self)@.open && final(self)@ == closed(old(self)@)
                    && exists|ids: Seq<u64>| #[trigger]
                    lists(ids, old(self)@.workers) && notice_views(notices@) == stops(ids)
                        + refusals(old(self)@.queue, ErrorView::Closed),
                Err(e) => !old(self)@.open && e@ == ErrorView::Closed && final(self)@ == old(self)@,
            },
    {
        if !self.supervisor.open {
            return Err(PoolError::Closed);
        }
        Ok(self.supervisor.close())
    }

    /// Takes a report of the host.
    pub fn report(&mut self, report: Report<T>, now: TimeSpan) -> (step: Step<T>)
        requires
            old(self).well_formed(),
            countable(old(self)@),
            report is Worker || report is Tick ==> old(self)@.stage is Ready,
        ensures
            final(self).well_formed(),
            final(self).process_factory() == old(self).process_factory(),
            advances(old(self)@, report, now, final(self)@, step@),
    {
        if !self.supervisor.open {
            return Step::rest();
        }
        match report {
            Report::Spawned(result) => self.supervisor.spawned(result, now),
            Report::Dispatched(refused) => self.supervisor.dispatched(refused, now),
            Report::Worker(event) => self.supervisor.handle_worker_event(event, now),
            Report::Tick => self.supervisor.retire_idle_workers(now),
        }
    }
}

} // verus!
