//! What the users of a pool see of it, told on times, counts and tasks themselves.
use vstd::prelude::*;
use crate::config::{
    usable, PoolConfig, RejectedExecutionHandler, TimeSpan, TimeUnit, WorkQueueConfig,
};
use crate::error::{ErrorView, TaskOutcome};
use crate::json::{Json, JsonView};
use crate::laws::tasks_are_placed_in_order;
use crate::pool::{
    advances, describes, rows_in, tick_nanos, told, worker_row, PoolStats, Report, WorkerState,
    WorkerStats,
};
use crate::protocol::{
    concluded, line_of, millis_of, request_document, still_usable, Exchange, ResponseView,
};
use crate::runner::{attended, one_shot_outcome, ActionView, Input, OneShot, Phase};
use crate::schedule::{
    closed, dispatched, drained, prestart, quiet, refusals, reported, retirable, sound, spawned,
    stops, submitted, without, Call, Job, Next, NoticeView, PoolView, SpawnFor, Stage, StepView,
    WorkerEvent,
};
use crate::server::{set_up, set_up_remotely, time_for, InitializeParams, StateView};
use crate::table::found;
use crate::workers::{an_idle_worker_is_found, lists, lowest_idle};

verus! {

/// The time between two moments is what has to be waited from the first to the second; a moment
/// that is yet to come is no time ago.
pub proof fn elapsed_time_leads_to_the_present(now: TimeSpan, earlier: TimeSpan)
    ensures
        earlier.nanos <= now.nanos ==> earlier.nanos + now.elapsed_since(earlier).nanos
            == now.nanos,
        earlier.nanos >= now.nanos ==> now.elapsed_since(earlier).nanos == 0,
{
}

/// A length of time in milliseconds is the largest number of whole milliseconds in it that 64
/// bits hold.
pub proof fn milliseconds_are_whole_and_capped(span: TimeSpan)
    ensures
        millis_of(span) * 1_000_000 <= span.nanos,
        millis_of(span) < u64::MAX ==> span.nanos < (millis_of(span) + 1) * 1_000_000,
{
}

/// The pool looks for workers to retire twice within their keep-alive time, but at least every
/// second and never more often than every 50 milliseconds.
pub proof fn ticks_halve_the_idle_time(keep_alive: TimeSpan)
    ensures
        50_000_000 <= tick_nanos(keep_alive) <= 1_000_000_000,
        100_000_000 <= keep_alive.nanos <= 2_000_000_000 ==> 2 * tick_nanos(keep_alive)
            <= keep_alive.nanos < 2 * tick_nanos(keep_alive) + 2,
        keep_alive.nanos < 100_000_000 ==> tick_nanos(keep_alive) == 50_000_000,
        keep_alive.nanos > 2_000_000_000 ==> tick_nanos(keep_alive) == 1_000_000_000,
{
}

/// A worker is retired only where the moment at which it last became idle lies at least the
/// keep-alive time back, however long ago its process was started.
pub proof fn retired_workers_had_their_idle_time<T>(
    s: PoolView<T>,
    now: TimeSpan,
    gone: Seq<u64>,
    id: u64,
)
    requires
        retirable(s, now, gone),
        gone.contains(id),
    ensures
        s.workers.contains_key(id),
        s.workers[id].idle_since matches Some(since) && (since.nanos <= now.nanos
            ==> since.nanos + s.limits.keep_alive.nanos <= now.nanos) && (since.nanos > now.nanos
            ==> s.limits.keep_alive.nanos == 0),
{
}

/// A worker that has been idle for the keep-alive time is retired, unless tasks wait or the pool
/// shrinks to its core size without it.
pub proof fn long_idle_workers_are_retired<T>(
    s: PoolView<T>,
    now: TimeSpan,
    gone: Seq<u64>,
    id: u64,
    since: TimeSpan,
)
    requires
        sound(s),
        retirable(s, now, gone),
        s.queue.len() == 0,
        s.workers.contains_key(id),
        s.workers[id].idle_since == Some(since),
        since.nanos + s.limits.keep_alive.nanos <= now.nanos,
    ensures
        gone.contains(id) || s.workers.len() - gone.len() <= s.limits.core,
{
}

/// A worker that has something to do is never retired.
pub proof fn busy_workers_are_not_retired<T>(
    s: PoolView<T>,
    now: TimeSpan,
    gone: Seq<u64>,
    id: u64,
)
    requires
        sound(s),
        retirable(s, now, gone),
        s.workers.contains_key(id),
        s.workers[id].current_task_id is Some,
    ensures
        !gone.contains(id),
{
    if gone.contains(id) {
        assert(s.workers.contains_key(id));
    }
}

/// A worker that ended a task at the moment `t` and found nothing more to do is not retired at
/// any moment before `t` and the keep-alive time.
pub proof fn a_worker_that_just_finished_stays<T>(
    s: PoolView<T>,
    worker_id: u64,
    ticket: T,
    outcome: TaskOutcome,
    t: TimeSpan,
    now: TimeSpan,
    gone: Seq<u64>,
)
    requires
        s.workers.contains_key(worker_id),
        s.queue.len() == 0,
        t.nanos <= now.nanos,
        now.nanos < t.nanos + s.limits.keep_alive.nanos,
        retirable(
            reported(
                s,
                WorkerEvent::Finished { worker_id, ticket, outcome, reusable: true },
                t,
            ).0,
            now,
            gone,
        ),
    ensures
        !gone.contains(worker_id),
{
}

/// A worker that was started at the moment `t` ahead of any task is not retired at any moment
/// before `t` and the keep-alive time.
pub proof fn a_worker_that_just_started_stays<T>(
    s: PoolView<T>,
    process_id: Option<u32>,
    t: TimeSpan,
    now: TimeSpan,
    gone: Seq<u64>,
)
    requires
        s.stage matches Stage::Spawning { worker_id, purpose, next } && purpose is Prestart,
        s.queue.len() == 0,
        t.nanos <= now.nanos,
        now.nanos < t.nanos + s.limits.keep_alive.nanos,
        retirable(spawned(s, Ok(process_id), t).0, now, gone),
    ensures
        !gone.contains(s.stage->Spawning_worker_id),
{
}

/// Only the workers that are told to stop leave, and each of them leaves.
pub proof fn retirement_touches_nothing_else<T>(
    s: PoolView<T>,
    now: TimeSpan,
    gone: Seq<u64>,
    id: u64,
)
    requires
        retirable(s, now, gone),
    ensures
        ({
            let after = without(s, gone);
            &&& after.workers.contains_key(id) <==> s.workers.contains_key(id) && !gone.contains(id)
            &&& after.workers.contains_key(id) ==> after.workers[id] == s.workers[id]
            &&& stops::<T>(gone).contains(NoticeView::Stop { worker_id: id }) <==> gone.contains(id)
            &&& after.queue == s.queue
            &&& after.limits == s.limits
            &&& (after.completed, after.failed, after.rejected, after.caller_runs) == (
                s.completed,
                s.failed,
                s.rejected,
                s.caller_runs,
            )
        }),
{
    let told_to_stop = stops::<T>(gone);
    if gone.contains(id) {
        let i = choose|i: int| 0 <= i < gone.len() && gone[i] == id;
        assert(told_to_stop[i] == NoticeView::<T>::Stop { worker_id: id });
    }
    if told_to_stop.contains(NoticeView::Stop { worker_id: id }) {
        let i = choose|i: int|
            0 <= i < told_to_stop.len() && told_to_stop[i] == NoticeView::<T>::Stop {
                worker_id: id,
            };
        assert(gone[i] == id);
    }
    assert(gone.to_set().contains(id) <==> gone.contains(id));
}

/// The pool hands `job` on in the move from `before` to `after`: to a worker, to a worker that is
/// being started for it, to the queue, or to a process of its own.
pub open spec fn hands_on<T>(
    before: PoolView<T>,
    after: PoolView<T>,
    step: StepView<T>,
    job: Job<T>,
) -> bool {
    ||| (step.call matches Some(Call::Dispatch { worker_id, job: given }) && given == job)
    ||| (after.stage matches Stage::Spawning { worker_id, purpose, next }
        && purpose matches SpawnFor::Task { job: given } && given == job)
    ||| (after.queue != before.queue && after.queue.len() > 0 && after.queue.last() == job)
    ||| step.notices.contains(NoticeView::RunOneShot { job })
}

/// Wherever a task goes, it keeps what its caller gave: the document, the time and the ticket;
/// its number is the pool's next one.
pub proof fn tasks_are_handed_on_unchanged<T>(
    s: PoolView<T>,
    payload: Json,
    timeout: TimeSpan,
    ticket: T,
    now: TimeSpan,
    job: Job<T>,
)
    requires
        hands_on(
            s,
            submitted(s, payload, timeout, ticket, now).0,
            submitted(s, payload, timeout, ticket, now).1,
            job,
        ),
    ensures
        job.payload == payload,
        job.timeout == timeout,
        job.ticket == ticket,
        job.id == s.next_job_id,
{
    let m = submitted(s, payload, timeout, ticket, now);
    let own = Job { id: s.next_job_id, payload, timeout, ticket };
    if m.1.notices.contains(NoticeView::RunOneShot { job }) {
        assert(m.1.notices.len() <= 1);
        assert(m.1.notices[0] == NoticeView::RunOneShot { job: own });
    }
}

/// A task is handed on, or nothing changes for the others and its caller is answered at once.
pub proof fn every_task_is_handed_on_or_answered<T>(
    s: PoolView<T>,
    payload: Json,
    timeout: TimeSpan,
    ticket: T,
    now: TimeSpan,
)
    requires
        !s.queue.contains(Job { id: s.next_job_id, payload, timeout, ticket }),
    ensures
        ({
            let m = submitted(s, payload, timeout, ticket, now);
            let job = Job { id: s.next_job_id, payload, timeout, ticket };
            ||| hands_on(s, m.0, m.1, job)
            ||| m.0.queue == s.queue && m.0.workers == s.workers && m.1.call is None && (
            m.1.notices == seq![
                NoticeView::<T>::Reply { ticket, outcome: Err(ErrorView::Rejected) },
            ] || m.1.notices == seq![
                NoticeView::<T>::Reply { ticket, outcome: Err(ErrorView::Discarded) },
            ])
        }),
{
    let m = submitted(s, payload, timeout, ticket, now);
    let job = Job { id: s.next_job_id, payload, timeout, ticket };
    if m.0.queue.len() > 0 && m.0.queue.last() == job {
        if m.0.queue == s.queue {
            assert(s.queue[s.queue.len() - 1] == job);
        }
    }
    if m.1.notices.len() == 1 && m.1.notices[0] is RunOneShot {
        assert(m.1.notices[0] == NoticeView::RunOneShot { job });
    }
}

/// A caller that gives a time gets exactly that many milliseconds, whatever the default is.
pub proof fn callers_choose_their_time(ms: u64, default_timeout: TimeSpan)
    ensures
        time_for(Some(ms), default_timeout).nanos == ms * 1_000_000,
{
}

/// A caller that gives no time gets the default, in whole milliseconds.
pub proof fn the_default_time_is_for_the_others(default_timeout: TimeSpan)
    requires
        default_timeout.nanos < 0x1_0000_0000_0000_0000 * 1_000_000,
    ensures
        time_for(None, default_timeout).nanos <= default_timeout.nanos,
        default_timeout.nanos < time_for(None, default_timeout).nanos + 1_000_000,
        time_for(None, default_timeout).nanos % 1_000_000 == 0,
{
}

/// The task that the service hands to the pool carries the time its caller asked for, down to
/// the nanosecond, independent of the default.
pub proof fn submitted_tasks_carry_the_requested_time<T>(
    s: PoolView<T>,
    payload: Json,
    ms: u64,
    default_timeout: TimeSpan,
    ticket: T,
    now: TimeSpan,
    job: Job<T>,
)
    requires
        ({
            let m = submitted(s, payload, time_for(Some(ms), default_timeout), ticket, now);
            hands_on(s, m.0, m.1, job)
        }),
    ensures
        job.timeout.nanos == ms * 1_000_000,
        job.payload == payload,
        job.ticket == ticket,
{
    tasks_are_handed_on_unchanged(
        s,
        payload,
        time_for(Some(ms), default_timeout),
        ticket,
        now,
        job,
    );
}

/// A task that was given some milliseconds and does not end in them is reported with just that
/// number, and its worker is not used again.
pub proof fn late_tasks_are_reported_with_their_time(
    job_id: u64,
    ms: u64,
    default_timeout: TimeSpan,
)
    ensures
        concluded(job_id, time_for(Some(ms), default_timeout), None) == Err::<JsonView, ErrorView>(
            ErrorView::TaskTimeout { timeout_ms: ms },
        ),
        !still_usable(job_id, None),
{
}

/// A task that ends leaves its worker idle from that moment on, with one task more to its name
/// and the time since the task was handed over as its last duration; nothing else about the
/// worker changes, and no other worker does.
pub proof fn an_ended_task_frees_its_worker<T>(
    s: PoolView<T>,
    worker_id: u64,
    ticket: T,
    outcome: TaskOutcome,
    now: TimeSpan,
)
    requires
        s.workers.contains_key(worker_id),
        s.queue.len() == 0,
        s.workers[worker_id].handled_task_count < u64::MAX,
        s.workers[worker_id].state_since.nanos <= now.nanos,
    ensures
        ({
            let slot = s.workers[worker_id];
            let workers = reported(
                s,
                WorkerEvent::Finished { worker_id, ticket, outcome, reusable: true },
                now,
            ).0.workers;
            &&& workers.contains_key(worker_id)
            &&& workers[worker_id].idle_since == Some(now)
            &&& workers[worker_id].state_since == now
            &&& workers[worker_id].current_task_id is None
            &&& workers[worker_id].handled_task_count == slot.handled_task_count + 1
            &&& workers[worker_id].last_task_duration matches Some(span) && span.nanos
                == now.nanos - slot.state_since.nanos
            &&& workers[worker_id].started_at == slot.started_at
            &&& workers[worker_id].process_id == slot.process_id
            &&& forall|other: u64|
                #![trigger workers.contains_key(other)]
                other != worker_id ==> (workers.contains_key(other) <==> s.workers.contains_key(
                    other,
                )) && workers[other] == s.workers[other]
        }),
{
}

/// A worker that is given a task is busy with that very task from that moment on; nothing else
/// about it changes, and no other worker does.
pub proof fn a_given_task_occupies_its_worker<T>(
    s: PoolView<T>,
    payload: Json,
    timeout: TimeSpan,
    ticket: T,
    now: TimeSpan,
    worker_id: u64,
    job: Job<T>,
)
    requires
        ({
            let m = submitted(s, payload, timeout, ticket, now);
            m.1.call == Some(Call::Dispatch { worker_id, job })
        }),
    ensures
        ({
            let slot = s.workers[worker_id];
            let workers = submitted(s, payload, timeout, ticket, now).0.workers;
            &&& s.workers.contains_key(worker_id) ==> slot.idle_since is Some
            &&& workers.contains_key(worker_id)
            &&& workers[worker_id].idle_since is None
            &&& workers[worker_id].current_task_id == Some(job.id)
            &&& workers[worker_id].state_since == now
            &&& workers[worker_id].started_at == slot.started_at
            &&& workers[worker_id].process_id == slot.process_id
            &&& workers[worker_id].handled_task_count == slot.handled_task_count
            &&& workers[worker_id].last_task_duration == slot.last_task_duration
            &&& forall|other: u64|
                #![trigger workers.contains_key(other)]
                other != worker_id ==> (workers.contains_key(other) <==> s.workers.contains_key(
                    other,
                )) && workers[other] == s.workers[other]
        }),
{
}

/// Between the handing over of a task and its end lies the duration that the worker shows for it.
pub proof fn the_last_duration_spans_the_task<T>(
    s: PoolView<T>,
    payload: Json,
    timeout: TimeSpan,
    ticket: T,
    worker_id: u64,
    job: Job<T>,
    outcome: TaskOutcome,
    given: TimeSpan,
    ended: TimeSpan,
)
    requires
        submitted(s, payload, timeout, ticket, given).1.call == Some(
            Call::Dispatch { worker_id, job },
        ),
        s.queue.len() == 0,
        given.nanos <= ended.nanos,
    ensures
        ({
            let busy = dispatched(submitted(s, payload, timeout, ticket, given).0, None, given).0;
            let after = reported(
                busy,
                WorkerEvent::Finished { worker_id, ticket: job.ticket, outcome, reusable: true },
                ended,
            ).0;
            after.workers[worker_id].last_task_duration matches Some(span) && given.nanos
                + span.nanos == ended.nanos
        }),
{
}

/// A worker that was started for a task is entered with its process and the moment of its start,
/// has had no task before, and is handed the task that it was started for.
pub proof fn a_started_worker_gets_its_task<T>(
    s: PoolView<T>,
    worker_id: u64,
    job: Job<T>,
    process_id: Option<u32>,
    now: TimeSpan,
)
    requires
        s.stage matches Stage::Spawning { worker_id: id, purpose, next } && id == worker_id && (
        purpose == (SpawnFor::Task { job }) || purpose == (SpawnFor::Queued { job })),
    ensures
        ({
            let m = spawned(s, Ok(process_id), now);
            let slot = m.0.workers[worker_id];
            &&& m.1.call == Some(Call::Dispatch { worker_id, job })
            &&& m.1.notices.len() == 0
            &&& m.0.workers.contains_key(worker_id)
            &&& slot.process_id == process_id
            &&& slot.started_at == now
            &&& slot.state_since == now
            &&& slot.idle_since is None
            &&& slot.current_task_id == Some(job.id)
            &&& slot.handled_task_count == 0
            &&& slot.last_task_duration is None
            &&& m.0.queue == s.queue
            &&& forall|other: u64|
                #![trigger m.0.workers.contains_key(other)]
                other != worker_id ==> (m.0.workers.contains_key(other)
                    <==> s.workers.contains_key(other)) && m.0.workers[other] == s.workers[other]
        }),
{
}

/// A worker that was started ahead of any task is idle from the moment of its start.
pub proof fn a_prestarted_worker_is_idle<T>(
    s: PoolView<T>,
    worker_id: u64,
    process_id: Option<u32>,
    now: TimeSpan,
)
    requires
        s.stage matches Stage::Spawning { worker_id: id, purpose, next } && id == worker_id && (
        purpose is Prestart || purpose is Restore),
        s.queue.len() == 0,
    ensures
        ({
            let slot = spawned(s, Ok(process_id), now).0.workers[worker_id];
            &&& spawned(s, Ok(process_id), now).0.workers.contains_key(worker_id)
            &&& slot.process_id == process_id
            &&& slot.started_at == now
            &&& slot.state_since == now
            &&& slot.idle_since == Some(now)
            &&& slot.current_task_id is None
            &&& slot.handled_task_count == 0
            &&& slot.last_task_duration is None
        }),
{
}

/// The workers that a warm-up or a restoration starts take the tasks that wait, oldest first.
pub proof fn a_prestarted_worker_takes_the_oldest_task<T>(
    s: PoolView<T>,
    worker_id: u64,
    process_id: Option<u32>,
    now: TimeSpan,
)
    requires
        s.stage matches Stage::Spawning { worker_id: id, purpose, next } && id == worker_id && (
        purpose is Prestart || purpose is Restore),
        s.queue.len() > 0,
    ensures
        ({
            let m = spawned(s, Ok(process_id), now);
            &&& m.1.call == Some(Call::Dispatch { worker_id, job: s.queue[0] })
            &&& m.0.queue == s.queue.skip(1)
            &&& m.0.workers[worker_id].current_task_id == Some(s.queue[0].id)
            &&& m.0.workers[worker_id].idle_since is None
            &&& m.0.workers[worker_id].process_id == process_id
            &&& m.0.workers[worker_id].started_at == now
        }),
{
}

/// A task that a worker or a process of its own ended is counted once: among the completed ones
/// where it has a result, among the failed ones where it has none.
pub proof fn ended_tasks_are_counted<T>(s: PoolView<T>, event: WorkerEvent<T>, now: TimeSpan)
    requires
        s.completed < u64::MAX,
        s.failed < u64::MAX,
    ensures
        ({
            let after = reported(s, event, now).0;
            let outcome = match event {
                WorkerEvent::Finished { worker_id, ticket, outcome, reusable } => Some(outcome),
                WorkerEvent::OneShotFinished { ticket, outcome } => Some(outcome),
                WorkerEvent::Stopped { worker_id } => None,
            };
            &&& after.completed == s.completed + if outcome matches Some(Ok(_)) {
                1int
            } else {
                0
            }
            &&& after.failed == s.failed + if outcome matches Some(Err(_)) {
                1int
            } else {
                0
            }
            &&& after.rejected == s.rejected
            &&& after.caller_runs == s.caller_runs
        }),
{
}

/// A placed task is counted as rejected where neither a worker nor the queue takes it, and as
/// run for its caller where the policy says so; nothing is counted as ended by it.
pub proof fn placed_tasks_are_counted<T>(
    s: PoolView<T>,
    payload: Json,
    timeout: TimeSpan,
    ticket: T,
    now: TimeSpan,
)
    requires
        sound(s),
        s.stage is Ready,
        s.rejected < u64::MAX,
        s.caller_runs < u64::MAX,
    ensures
        ({
            let m = submitted(s, payload, timeout, ticket, now);
            let crowded = m.1.notices.len() > 0;
            &&& m.0.completed == s.completed
            &&& m.0.failed == s.failed
            &&& m.0.rejected == s.rejected + if crowded {
                1int
            } else {
                0
            }
            &&& m.0.caller_runs == s.caller_runs + if crowded && s.limits.policy
                == RejectedExecutionHandler::CallerRuns {
                1int
            } else {
                0
            }
            &&& crowded ==> s.queue.len() == s.limits.capacity && s.workers.len()
                == s.limits.maximum && m.1.call is None && (forall|id: u64| #[trigger]
                s.workers.contains_key(id) ==> s.workers[id].idle_since is None)
        }),
{
    let m = submitted(s, payload, timeout, ticket, now);
    tasks_are_placed_in_order(s, payload, timeout, ticket, now);
}

/// What a full pool with no idle worker does with one more task, by its policy: it refuses the
/// task, discards it, gives it the place of the task that has waited longest (or refuses it where
/// none waits), or runs it in a process of its own.
pub proof fn a_full_pool_follows_its_policy<T>(
    s: PoolView<T>,
    payload: Json,
    timeout: TimeSpan,
    ticket: T,
    now: TimeSpan,
)
    requires
        sound(s),
        s.stage is Ready,
        s.workers.len() == s.limits.maximum,
        s.queue.len() == s.limits.capacity,
        forall|id: u64| #[trigger] s.workers.contains_key(id) ==> s.workers[id].idle_since is None,
    ensures
        ({
            let job = Job { id: s.next_job_id, payload, timeout, ticket };
            let m = submitted(s, payload, timeout, ticket, now);
            &&& m.1.call is None
            &&& m.0.workers == s.workers
            &&& m.1.notices.len() == 1
            &&& match s.limits.policy {
                RejectedExecutionHandler::Abort => m.1.notices[0] == (NoticeView::<T>::Reply {
                    ticket,
                    outcome: Err(ErrorView::Rejected),
                }) && m.0.queue == s.queue,
                RejectedExecutionHandler::Discard => m.1.notices[0] == (NoticeView::<T>::Reply {
                    ticket,
                    outcome: Err(ErrorView::Discarded),
                }) && m.0.queue == s.queue,
                RejectedExecutionHandler::DiscardOldest => if s.queue.len() > 0 {
                    &&& m.1.notices[0] == (NoticeView::<T>::Reply {
                        ticket: s.queue[0].ticket,
                        outcome: Err(ErrorView::Discarded),
                    })
                    &&& m.0.queue == s.queue.skip(1).push(job)
                } else {
                    &&& m.1.notices[0] == (NoticeView::<T>::Reply {
                        ticket,
                        outcome: Err(ErrorView::Rejected),
                    })
                    &&& m.0.queue == s.queue
                },
                RejectedExecutionHandler::CallerRuns => m.1.notices[0] == (NoticeView::RunOneShot {
                    job,
                }) && m.0.queue == s.queue,
            }
        }),
{
    tasks_are_placed_in_order(s, payload, timeout, ticket, now);
}

/// Tasks are numbered one after the other, and so are workers; the numbers start again behind the
/// last one that 64 bits hold.
pub proof fn numbers_are_given_one_after_the_other<T>(
    s: PoolView<T>,
    payload: Json,
    timeout: TimeSpan,
    ticket: T,
    now: TimeSpan,
)
    ensures
        ({
            let m = submitted(s, payload, timeout, ticket, now);
            &&& m.0.next_job_id == (s.next_job_id + 1) % 0x1_0000_0000_0000_0000
            &&& (m.1.call matches Some(Call::Spawn { worker_id }) ==> worker_id == s.next_worker_id
                && m.0.next_worker_id == (s.next_worker_id + 1) % 0x1_0000_0000_0000_0000)
            &&& !(m.1.call is Some && m.1.call->0 is Spawn) ==> m.0.next_worker_id
                == s.next_worker_id
        }),
{
}

/// The caller of a task that has ended gets its outcome, and nobody else is answered; the worker
/// is told to stop where it must not be used again.
pub proof fn outcomes_go_to_their_callers<T>(
    s: PoolView<T>,
    worker_id: u64,
    ticket: T,
    outcome: TaskOutcome,
    reusable: bool,
    now: TimeSpan,
)
    ensures
        ({
            let notices = reported(
                s,
                WorkerEvent::Finished { worker_id, ticket, outcome, reusable },
                now,
            ).1.notices;
            let answer = NoticeView::Reply {
                ticket,
                outcome: match outcome {
                    Ok(v) => Ok::<JsonView, ErrorView>(v@),
                    Err(e) => Err(e@),
                },
            };
            if !reusable && s.workers.contains_key(worker_id) {
                notices == seq![NoticeView::Stop { worker_id }, answer]
            } else {
                notices == seq![answer]
            }
        }),
        ({
            let m = reported(s, WorkerEvent::OneShotFinished { ticket, outcome }, now);
            let answer = NoticeView::Reply {
                ticket,
                outcome: match outcome {
                    Ok(v) => Ok::<JsonView, ErrorView>(v@),
                    Err(e) => Err(e@),
                },
            };
            &&& m.1.notices == seq![answer]
            &&& m.1.call is None
            &&& m.0.workers == s.workers
            &&& m.0.queue == s.queue
            &&& m.0.stage == s.stage
        }),
        told(Some(outcome)) == (match outcome {
            Ok(v) => Ok::<JsonView, ErrorView>(v@),
            Err(e) => Err(e@),
        }),
        told(None) == Err::<JsonView, ErrorView>(ErrorView::Closed),
{
}

/// Where the worker for a task cannot be started, the caller of that task is told why. The tasks
/// that wait are told the same where no worker is left to serve them, and stay otherwise.
pub proof fn failed_starts_are_reported<T>(
    s: PoolView<T>,
    job: Job<T>,
    why: Seq<char>,
    now: TimeSpan,
)
    requires
        s.stage matches Stage::Spawning { worker_id, purpose, next } && (purpose
            == (SpawnFor::Task { job }) || purpose == (SpawnFor::Queued { job })),
    ensures
        ({
            let m = spawned(s, Err(why), now);
            let answer = NoticeView::Reply {
                ticket: job.ticket,
                outcome: Err::<JsonView, ErrorView>(ErrorView::SpawnFailed(why)),
            };
            &&& m.1.notices.len() > 0 && m.1.notices[0] == answer
            &&& m.0.workers == s.workers
            &&& if s.stage->Spawning_purpose is Queued && s.workers.len() == 0 {
                &&& m.0.queue.len() == 0
                &&& m.1.notices.len() == s.queue.len() + 1
                &&& forall|i: int|
                    0 <= i < s.queue.len() ==> #[trigger] m.1.notices[i + 1] == (
                    NoticeView::Reply {
                        ticket: s.queue[i].ticket,
                        outcome: Err::<JsonView, ErrorView>(ErrorView::SpawnFailed(why)),
                    })
            } else {
                m.0.queue == s.queue && m.1.notices.len() == 1
            }
        }),
{
}

/// A worker that stops before it takes the task it was started for is dropped, and the caller is
/// told so.
pub proof fn a_worker_that_refuses_its_first_task_is_dropped<T>(
    s: PoolView<T>,
    worker_id: u64,
    job: Job<T>,
    now: TimeSpan,
)
    requires
        s.stage matches Stage::Dispatching { worker_id: id, purpose, next } && id == worker_id && (
        purpose is Started || purpose is QueuedToNew || purpose is Restored),
    ensures
        ({
            let m = dispatched(s, Some(job), now);
            &&& m.1.notices.len() == 2
            &&& m.1.notices[0] == (NoticeView::<T>::Stop { worker_id })
            &&& m.1.notices[1] matches NoticeView::Reply { ticket, outcome } && ticket
                == job.ticket && outcome == Err::<JsonView, ErrorView>(
                ErrorView::SpawnFailed(
                    if s.stage->Dispatching_purpose is Started {
                        "new worker stopped before accepting a task"@
                    } else {
                        "replacement worker stopped before accepting a task"@
                    },
                ),
            )
            &&& !m.0.workers.contains_key(worker_id)
            &&& m.0.queue == s.queue
        }),
{
}

/// Where an idle worker turns out to have stopped, it is dropped and its task is placed anew: it
/// is handed on as a whole, or its caller is answered by the rejection policy.
pub proof fn a_task_survives_the_loss_of_an_idle_worker<T>(
    s: PoolView<T>,
    worker_id: u64,
    job: Job<T>,
    now: TimeSpan,
    given: Job<T>,
)
    requires
        s.stage matches Stage::Dispatching { worker_id: id, purpose, next } && id == worker_id
            && !(purpose is Started || purpose is QueuedToNew || purpose is Restored),
        hands_on(s, dispatched(s, Some(job), now).0, dispatched(s, Some(job), now).1, given),
    ensures
        given == job,
        dispatched(s, Some(job), now).1.notices.len() > 0,
        dispatched(s, Some(job), now).1.notices[0] == (NoticeView::<T>::Stop { worker_id }),
{
    let m = dispatched(s, Some(job), now);
    if m.1.notices.contains(NoticeView::RunOneShot { job: given }) {
        let i = choose|i: int|
            0 <= i < m.1.notices.len() && m.1.notices[i] == NoticeView::RunOneShot { job: given };
        assert(m.1.notices.len() <= 2);
        assert(i == 1);
    }
}

/// A waiting task goes to an idle worker at once; where there is none, a worker is started for
/// it while the pool is below its core size or has no worker at all, and it waits otherwise.
pub proof fn waiting_tasks_get_the_next_worker<T>(s: PoolView<T>, now: TimeSpan)
    requires
        s.workers.dom().finite(),
        s.queue.len() > 0,
    ensures
        ({
            let m = drained(s, now);
            let some_idle = exists|id: u64| #[trigger]
                s.workers.contains_key(id) && s.workers[id].idle_since is Some;
            if some_idle {
                &&& m.1.call matches Some(Call::Dispatch { worker_id, job }) && job == s.queue[0]
                    && s.workers.contains_key(worker_id) && s.workers[worker_id].idle_since is Some
                &&& m.0.queue == s.queue.skip(1)
            } else if s.workers.len() == 0 || s.workers.len() < s.limits.core {
                &&& m.1.call matches Some(Call::Spawn { worker_id })
                &&& m.0.stage matches Stage::Spawning { worker_id, purpose, next } && purpose == (
                SpawnFor::Queued { job: s.queue[0] })
                &&& m.0.queue == s.queue.skip(1)
            } else {
                &&& m.0.queue == s.queue
                &&& m.0.workers == s.workers
            }
        }),
{
    assert forall|id: u64| #[trigger]
        s.workers.contains_key(id) && s.workers[id].idle_since is Some implies lowest_idle(
        s.workers,
    ) is Some by {
        an_idle_worker_is_found(s.workers, id);
    }
    assert(s.queue.drop_first() =~= s.queue.skip(1));
}

/// The line that goes to a worker tells the number and the document of its task, the worker gets
/// the time that the task was given, and the outcome is reported for that task's ticket.
pub proof fn attendants_carry_tasks_to_their_workers<T>(
    worker_id: u64,
    job: Job<T>,
    exchange: Option<Exchange>,
)
    ensures
        ({
            let begun = attended(worker_id, Phase::Waiting, Input::Job(job));
            let ended = attended(worker_id, begun.0, Input::Exchanged(exchange));
            &&& begun.1 == (ActionView::<T>::Exchange {
                line: line_of(request_document(job.id, job.payload@)),
                timeout: job.timeout,
            })
            &&& ended.1 matches ActionView::ReportFinished {
                worker_id: reporter,
                ticket,
                outcome,
                reusable,
            } && reporter == worker_id && ticket == job.ticket
        }),
{
}

/// A worker that answers its task in time, under the task's number and with a result alone, has
/// done it: its caller gets the result (null where the worker gave none), and the worker is used
/// again.
pub proof fn good_answers_are_passed_on<T>(
    worker_id: u64,
    job: Job<T>,
    exchange: Exchange,
    response: ResponseView,
)
    requires
        exchange matches Exchange::Answered(r) && r@ == response,
        response.id == job.id,
        response.ok,
        response.error is None,
    ensures
        ({
            let begun = attended(worker_id, Phase::Waiting, Input::Job(job));
            let ended = attended(worker_id, begun.0, Input::Exchanged(Some(exchange)));
            &&& ended.1 matches ActionView::ReportFinished { outcome, reusable, .. } && reusable
                && outcome == Ok::<JsonView, ErrorView>(
                match response.result {
                    Some(v) => v,
                    None => JsonView::Null,
                },
            )
            &&& attended(worker_id, ended.0, Input::Delivered(true)) == (
                Phase::<T>::Waiting,
                ActionView::<T>::Await,
            )
        }),
{
}

/// A worker that answers its task in time with an error of its own is used again; its caller gets
/// just that error.
pub proof fn errors_of_a_task_are_passed_on(
    job_id: u64,
    timeout: TimeSpan,
    exchange: Exchange,
    response: ResponseView,
)
    requires
        exchange matches Exchange::Answered(r) && r@ == response,
        response.id == job_id,
        !response.ok,
        response.result is None,
        response.error is Some,
    ensures
        still_usable(job_id, Some(exchange)),
        concluded(job_id, timeout, Some(exchange)) == Err::<JsonView, ErrorView>(
            ErrorView::WorkerReturned {
                code: response.error->0.code,
                message: response.error->0.message,
                details: response.error->0.details,
            },
        ),
{
}

/// A worker that answers under another number, contradicts itself, sends no response or closes
/// its output is not used again, and its task has failed.
pub proof fn bad_answers_end_the_worker(job_id: u64, timeout: TimeSpan, exchange: Exchange)
    requires
        match exchange {
            Exchange::Answered(r) => r.id != job_id || (r.ok && r.error is Some) || (!r.ok && (
            r.result is Some || r.error is None)),
            _ => true,
        },
    ensures
        !still_usable(job_id, Some(exchange)),
        concluded(job_id, timeout, Some(exchange)) matches Err(e) && match exchange {
            Exchange::Ended => e == ErrorView::WorkerExited,
            Exchange::Broken(why) => e == ErrorView::WorkerIo(why@),
            Exchange::Unencodable(why) => e matches ErrorView::Protocol(text)
                && why@.is_suffix_of(text),
            Exchange::Unreadable(why) => e matches ErrorView::Protocol(text)
                && why@.is_suffix_of(text),
            Exchange::Answered(_) => e is Protocol,
        },
{
    match exchange {
        Exchange::Unencodable(why) => {
            let text = concluded(job_id, timeout, Some(exchange))->Err_0->Protocol_0;
            assert(why@ =~= text.skip(text.len() - why@.len()));
        },
        Exchange::Unreadable(why) => {
            let text = concluded(job_id, timeout, Some(exchange))->Err_0->Protocol_0;
            assert(why@ =~= text.skip(text.len() - why@.len()));
        },
        _ => {},
    }
}

/// A process for a single task is judged like a worker; one that cannot be started is reported
/// as such.
pub proof fn single_tasks_are_judged_like_others(
    job_id: u64,
    timeout: TimeSpan,
    exchange: Option<Exchange>,
    why: String,
)
    ensures
        one_shot_outcome(job_id, timeout, OneShot::Exchanged(exchange)) == concluded(
            job_id,
            timeout,
            exchange,
        ),
        one_shot_outcome(job_id, timeout, OneShot::NotStarted(why)) == Err::<JsonView, ErrorView>(
            ErrorView::SpawnFailed(why@),
        ),
        one_shot_outcome(job_id, timeout, OneShot::NoStdin) matches Err(e) && e is SpawnFailed,
        one_shot_outcome(job_id, timeout, OneShot::NoStdout) matches Err(e) && e is SpawnFailed,
{
}

/// An attendant without more tasks ends its worker; a worker whose process ends while it waits is
/// reported as stopped; a worker that must not be used again, or whose pool is gone, is ended.
pub proof fn attendants_leave_in_order<T>(
    worker_id: u64,
    status: String,
    error: String,
    last: bool,
    heard: bool,
)
    ensures
        attended(worker_id, Phase::<T>::Waiting, Input::NoMoreJobs) == (
            Phase::<T>::Ended,
            ActionView::<T>::Kill,
        ),
        attended(worker_id, Phase::<T>::Waiting, Input::Exited(status)).1 matches
            ActionView::ReportStopped { worker_id: reporter, reason } && reporter == worker_id
            && status@.is_suffix_of(reason),
        attended(worker_id, Phase::<T>::Waiting, Input::WaitFailed(error)).1 matches
            ActionView::ReportStopped { worker_id: reporter, reason } && reporter == worker_id
            && error@.is_suffix_of(reason),
        attended(worker_id, Phase::<T>::Reporting { last }, Input::Delivered(heard)) == if heard
            && !last {
            (Phase::<T>::Waiting, ActionView::<T>::Await)
        } else {
            (Phase::<T>::Ended, ActionView::<T>::Kill)
        },
{
    let a = attended(worker_id, Phase::<T>::Waiting, Input::Exited(status)).1;
    let reason = a->ReportStopped_reason;
    assert(status@ =~= reason.skip(reason.len() - status@.len()));
    let b = attended(worker_id, Phase::<T>::Waiting, Input::WaitFailed(error)).1;
    let reason = b->ReportStopped_reason;
    assert(error@ =~= reason.skip(reason.len() - error@.len()));
}

/// The nanoseconds in one unit of the keep-alive time.
pub open spec fn nanos_per(unit: TimeUnit) -> int {
    match unit {
        TimeUnit::Milliseconds => 1_000_000,
        TimeUnit::Seconds => 1_000_000_000,
        TimeUnit::Minutes => 60_000_000_000,
    }
}

/// A pool without workers and tasks, as it has just been set up.
pub open spec fn is_new<T>(pool: PoolView<T>) -> bool {
    &&& pool.workers.len() == 0
    &&& pool.workers.dom().finite()
    &&& pool.queue.len() == 0
    &&& pool.open
    &&& pool.stage is Ready
    &&& pool.minimum_workers == 0
    &&& (pool.completed, pool.failed, pool.rejected, pool.caller_runs) == (0u64, 0u64, 0u64, 0u64)
    &&& (pool.next_worker_id, pool.next_job_id) == (1u64, 1u64)
}

/// After a remote set-up the pool keeps to what its caller asked for, parameter by parameter, and
/// its keep-alive time is counted in the caller's own unit; the workers are started as the
/// registered factory of the given name says, and nothing else about the service changes.
pub proof fn remote_parameters_decide_the_pool<T, R>(s: StateView<T, R>, params: InitializeParams)
    requires
        set_up_remotely(s, params).1 is None,
    ensures
        ({
            let after = set_up_remotely(s, params).0;
            &&& after.pool matches Some(pool) && is_new(pool) && {
                &&& pool.limits.core == params.core_pool_size
                &&& pool.limits.maximum == params.maximum_pool_size
                &&& pool.limits.keep_alive.nanos == params.keep_alive_time * nanos_per(
                    params.time_unit,
                )
                &&& params.work_queue == (WorkQueueConfig::Bounded {
                    capacity: pool.limits.capacity,
                })
                &&& pool.limits.policy == params.rejected_execution_handler
            }
            &&& found(s.factories, params.process_factory@) matches Some(factory)
                && after.pool_factory == Some(factory@)
            &&& after.factories == s.factories
            &&& after.default_timeout == s.default_timeout
            &&& after.agents == s.agents
        }),
{
    lemma_keep_alive(params.keep_alive_time, params.time_unit);
}

proof fn lemma_keep_alive(value: u64, unit: TimeUnit)
    requires
        unit == TimeUnit::Minutes ==> value * 60 <= u64::MAX,
    ensures
        value * nanos_per(unit) <= u128::MAX,
        value * crate::config::unit_millis(unit) * crate::config::NANOS_PER_MILLI == value
            * nanos_per(unit),
{
}

/// A remote set-up succeeds just where there is no pool yet, the factory is registered and names
/// a program, the sizes fit each other, and the keep-alive time in seconds fits 64 bits; else
/// nothing changes. The reason says what is wrong.
pub proof fn remote_set_up_succeeds_on_usable_parameters<T, R>(
    s: StateView<T, R>,
    params: InitializeParams,
)
    ensures
        ({
            let registered = found(s.factories, params.process_factory@);
            let sizes_fit = 0 < params.maximum_pool_size && params.core_pool_size
                <= params.maximum_pool_size;
            let runnable = registered matches Some(factory) && factory.program@.len() > 0;
            let time_fits = params.time_unit == TimeUnit::Minutes ==> params.keep_alive_time * 60
                <= 0xffff_ffff_ffff_ffff;
            let m = set_up_remotely(s, params);
            &&& m.1 is None <==> s.pool is None && sizes_fit && runnable && time_fits
            &&& m.1 is Some ==> m.0 == s
            &&& registered is None ==> m.1 == Some(
                ErrorView::InvalidConfig(
                    "unknown registered process_factory: "@ + params.process_factory@,
                ),
            )
            &&& registered is Some && params.maximum_pool_size == 0 ==> m.1 == Some(
                ErrorView::InvalidConfig("maximum_pool_size must be greater than zero"@),
            )
            &&& registered is Some && 0 < params.maximum_pool_size < params.core_pool_size ==> m.1
                == Some(
                ErrorView::InvalidConfig("core_pool_size must not exceed maximum_pool_size"@),
            )
            &&& sizes_fit && registered is Some && !runnable ==> m.1 == Some(
                ErrorView::InvalidConfig("process_factory.program must not be empty"@),
            )
            &&& sizes_fit && runnable && !time_fits ==> m.1 == Some(
                ErrorView::InvalidConfig("keep_alive_time is too large"@),
            )
            &&& sizes_fit && runnable && time_fits && s.pool is Some ==> m.1 == Some(
                ErrorView::AlreadyInitialized,
            )
        }),
{
}

/// After a local set-up the pool keeps to its configuration, parameter by parameter.
pub proof fn local_parameters_decide_the_pool<T, R>(s: StateView<T, R>, config: PoolConfig)
    ensures
        ({
            let after = set_up(s, config).0;
            let sizes_fit = 0 < config.maximum_pool_size && config.core_pool_size
                <= config.maximum_pool_size;
            let time_fits = config.time_unit == TimeUnit::Minutes ==> config.keep_alive_time * 60
                <= 0xffff_ffff_ffff_ffff;
            &&& set_up(s, config).1 is None <==> s.pool is None && sizes_fit && time_fits
                && config.process_factory.program@.len() > 0
            &&& set_up(s, config).1 is Some ==> after == s
            &&& s.pool is Some ==> set_up(s, config).1 == Some(ErrorView::AlreadyInitialized)
            &&& set_up(s, config).1 is None ==> {
                &&& after.pool matches Some(pool) && is_new(pool) && {
                    &&& pool.limits.core == config.core_pool_size
                    &&& pool.limits.maximum == config.maximum_pool_size
                    &&& pool.limits.keep_alive.nanos == config.keep_alive_time * nanos_per(
                        config.time_unit,
                    )
                    &&& config.work_queue == (WorkQueueConfig::Bounded {
                        capacity: pool.limits.capacity,
                    })
                    &&& pool.limits.policy == config.rejected_execution_handler
                }
                &&& after.pool_factory == Some(config.process_factory@)
                &&& after.factories == s.factories
                &&& after.default_timeout == s.default_timeout
                &&& after.agents == s.agents
            }
        }),
{
    if set_up(s, config).1 is None {
        lemma_keep_alive(config.keep_alive_time, config.time_unit);
    }
}

/// The identifiers of the workers whose rows are in `state`.
spec fn ids_in(rows: Seq<WorkerStats>, state: WorkerState) -> Set<u64>
    decreases rows.len(),
{
    if rows.len() == 0 {
        Set::empty()
    } else if rows.last().state == state {
        ids_in(rows.drop_last(), state).insert(rows.last().worker_id)
    } else {
        ids_in(rows.drop_last(), state)
    }
}

proof fn lemma_ids_in(rows: Seq<WorkerStats>, state: WorkerState)
    requires
        forall|i: int, j: int|
            0 <= i < j < rows.len() ==> (#[trigger] rows[i]).worker_id < (
            #[trigger] rows[j]).worker_id,
    ensures
        ids_in(rows, state).finite(),
        ids_in(rows, state).len() == rows_in(rows, state),
        forall|id: u64| #[trigger]
            ids_in(rows, state).contains(id) <==> exists|i: int|
                0 <= i < rows.len() && (#[trigger] rows[i]).worker_id == id && rows[i].state
                    == state,
    decreases rows.len(),
{
    if rows.len() > 0 {
        let head = rows.drop_last();
        assert forall|i: int, j: int| 0 <= i < j < head.len() implies (
        #[trigger] head[i]).worker_id < (#[trigger] head[j]).worker_id by {
            assert(head[i] == rows[i] && head[j] == rows[j]);
        }
        lemma_ids_in(head, state);
        let last = rows.len() - 1;
        assert(rows.last() == rows[last]);
        if ids_in(head, state).contains(rows.last().worker_id) {
            let i = choose|i: int|
                0 <= i < head.len() && (#[trigger] head[i]).worker_id == rows.last().worker_id
                    && head[i].state == state;
            assert(rows[i].worker_id < rows[last].worker_id);
        }
        assert forall|id: u64| #[trigger]
            ids_in(rows, state).contains(id) <==> exists|i: int|
                0 <= i < rows.len() && (#[trigger] rows[i]).worker_id == id && rows[i].state
                    == state by {
            if ids_in(head, state).contains(id) {
                let i = choose|i: int|
                    0 <= i < head.len() && (#[trigger] head[i]).worker_id == id && head[i].state
                        == state;
                assert(rows[i].worker_id == id && rows[i].state == state);
            }
            if exists|i: int|
                0 <= i < rows.len() && (#[trigger] rows[i]).worker_id == id && rows[i].state
                    == state {
                let i = choose|i: int|
                    0 <= i < rows.len() && (#[trigger] rows[i]).worker_id == id && rows[i].state
                        == state;
                if i < last {
                    assert(head[i].worker_id == id && head[i].state == state);
                }
            }
        }
    }
}

/// The statistics count the pool's workers: as busy those that have a task, as idle those that
/// have none; every counter is the pool's counter of that name.
pub proof fn statistics_count_the_workers<T>(stats: PoolStats, s: PoolView<T>, now: TimeSpan)
    requires
        sound(s),
        describes(stats, s, now),
    ensures
        stats.busy_worker_count == s.workers.dom().filter(
            |id: u64| s.workers[id].current_task_id is Some,
        ).len(),
        stats.idle_worker_count == s.workers.dom().filter(
            |id: u64| s.workers[id].current_task_id is None,
        ).len(),
        stats.worker_count == s.workers.dom().len(),
        stats.queued_task_count == s.queue.len(),
        stats.completed_task_count == s.completed,
        stats.failed_task_count == s.failed,
        stats.rejected_task_count == s.rejected,
        stats.caller_runs_task_count == s.caller_runs,
        stats.core_pool_size == s.limits.core,
        stats.maximum_pool_size == s.limits.maximum,
        stats.work_queue_capacity == s.limits.capacity,
        stats.rejection_policy == s.limits.policy,
        stats.keep_alive_ms * 1_000_000 <= s.limits.keep_alive.nanos,
        stats.keep_alive_ms < u64::MAX ==> s.limits.keep_alive.nanos < (stats.keep_alive_ms + 1)
            * 1_000_000,
{
    let rows = stats.workers@;
    let ids = Seq::new(rows.len(), |i: int| rows[i].worker_id);
    assert forall|i: int, j: int| 0 <= i < j < rows.len() implies (#[trigger] rows[i]).worker_id < (
    #[trigger] rows[j]).worker_id by {
        assert(ids[i] < ids[j]);
    }
    lemma_ids_in(rows, WorkerState::Busy);
    lemma_ids_in(rows, WorkerState::Idle);
    let busy = s.workers.dom().filter(|id: u64| s.workers[id].current_task_id is Some);
    let idle = s.workers.dom().filter(|id: u64| s.workers[id].current_task_id is None);
    assert forall|id: u64| ids_in(rows, WorkerState::Busy).contains(id) <==> busy.contains(id) by {
        lemma_row_of(stats, s, now, id);
    }
    assert forall|id: u64| ids_in(rows, WorkerState::Idle).contains(id) <==> idle.contains(id) by {
        lemma_row_of(stats, s, now, id);
    }
    assert(ids_in(rows, WorkerState::Busy) =~= busy);
    assert(ids_in(rows, WorkerState::Idle) =~= idle);
    milliseconds_are_whole_and_capped(s.limits.keep_alive);
}

/// A worker has a row just where the pool has the worker, and the row tells its state.
proof fn lemma_row_of<T>(stats: PoolStats, s: PoolView<T>, now: TimeSpan, id: u64)
    requires
        sound(s),
        describes(stats, s, now),
    ensures
        s.workers.contains_key(id) ==> exists|i: int|
            0 <= i < stats.workers@.len() && (#[trigger] stats.workers@[i]).worker_id == id,
        forall|i: int|
            0 <= i < stats.workers@.len() && (#[trigger] stats.workers@[i]).worker_id == id
                ==> s.workers.contains_key(id) && (stats.workers@[i].state == WorkerState::Busy
                <==> s.workers[id].current_task_id is Some),
{
    let rows = stats.workers@;
    let ids = Seq::new(rows.len(), |i: int| rows[i].worker_id);
    if s.workers.contains_key(id) {
        assert(ids.contains(id));
        let i = choose|i: int| 0 <= i < ids.len() && ids[i] == id;
        assert(rows[i].worker_id == id);
    }
    assert forall|i: int|
        0 <= i < rows.len() && (#[trigger] rows[i]).worker_id == id implies s.workers.contains_key(
        id,
    ) && (rows[i].state == WorkerState::Busy <==> s.workers[id].current_task_id is Some) by {
        assert(ids[i] == id);
        assert(ids.contains(id));
    }
}

/// The rows about the workers: one for each, by ascending identifier, with its process, its task,
/// its times in whole milliseconds and its number of tasks.
pub proof fn rows_tell_about_their_workers<T>(
    stats: PoolStats,
    s: PoolView<T>,
    now: TimeSpan,
    id: u64,
)
    requires
        sound(s),
        describes(stats, s, now),
        s.workers.contains_key(id),
        s.workers[id].started_at.nanos <= now.nanos,
        s.workers[id].state_since.nanos <= now.nanos,
    ensures
        forall|i: int, j: int|
            0 <= i < j < stats.workers@.len() ==> (#[trigger] stats.workers@[i]).worker_id < (
            #[trigger] stats.workers@[j]).worker_id,
        exists|i: int|
            0 <= i < stats.workers@.len() && (#[trigger] stats.workers@[i]).worker_id == id && {
                let row = stats.workers@[i];
                let slot = s.workers[id];
                &&& row.process_id == slot.process_id
                &&& row.current_task_id == slot.current_task_id
                &&& row.state == WorkerState::Busy <==> slot.current_task_id is Some
                &&& row.handled_task_count == slot.handled_task_count
                &&& row.uptime_ms < u64::MAX ==> slot.started_at.nanos + row.uptime_ms * 1_000_000
                    <= now.nanos < slot.started_at.nanos + (row.uptime_ms + 1) * 1_000_000
                &&& row.state_for_ms < u64::MAX ==> slot.state_since.nanos + row.state_for_ms
                    * 1_000_000 <= now.nanos < slot.state_since.nanos + (row.state_for_ms + 1)
                    * 1_000_000
                &&& (row.last_task_duration_ms is Some <==> slot.last_task_duration is Some)
                &&& (row.last_task_duration_ms matches Some(ms) ==> ms * 1_000_000
                    <= slot.last_task_duration->0.nanos && (ms < u64::MAX
                    ==> slot.last_task_duration->0.nanos < (ms + 1) * 1_000_000))
            },
{
    let rows = stats.workers@;
    let ids = Seq::new(rows.len(), |i: int| rows[i].worker_id);
    assert forall|i: int, j: int| 0 <= i < j < rows.len() implies (#[trigger] rows[i]).worker_id < (
    #[trigger] rows[j]).worker_id by {
        assert(ids[i] < ids[j]);
    }
    lemma_row_of(stats, s, now, id);
    let i = choose|i: int| 0 <= i < rows.len() && (#[trigger] rows[i]).worker_id == id;
    assert(rows[i] == worker_row(id, s.workers[id], now));
}

/// When a pool closes, every worker is told to stop, and the caller of every waiting task is told
/// that the pool is closed; nothing is left in it.
pub proof fn closing_stops_every_worker<T>(s: PoolView<T>, ids: Seq<u64>, id: u64, i: int)
    requires
        lists(ids, s.workers),
    ensures
        s.workers.contains_key(id) <==> stops::<T>(ids).contains(
            NoticeView::Stop { worker_id: id },
        ),
        refusals(s.queue, ErrorView::Closed).len() == s.queue.len(),
        0 <= i < s.queue.len() ==> refusals(s.queue, ErrorView::Closed)[i] == (
        NoticeView::Reply {
            ticket: s.queue[i].ticket,
            outcome: Err::<JsonView, ErrorView>(ErrorView::Closed),
        }),
        closed(s).workers.len() == 0,
        closed(s).queue.len() == 0,
        !closed(s).open,
        closed(s).stage is Ready,
        closed(s).limits == s.limits,
        (closed(s).completed, closed(s).failed, closed(s).rejected, closed(s).caller_runs) == (
            s.completed,
            s.failed,
            s.rejected,
            s.caller_runs,
        ),
{
    let told_to_stop = stops::<T>(ids);
    if s.workers.contains_key(id) {
        assert(ids.contains(id));
        let k = choose|k: int| 0 <= k < ids.len() && ids[k] == id;
        assert(told_to_stop[k] == NoticeView::<T>::Stop { worker_id: id });
    }
    if told_to_stop.contains(NoticeView::Stop { worker_id: id }) {
        let k = choose|k: int|
            0 <= k < told_to_stop.len() && told_to_stop[k] == NoticeView::<T>::Stop {
                worker_id: id,
            };
        assert(ids[k] == id);
        assert(ids.contains(id));
    }
}

/// A closed pool does nothing, whatever is reported to it. An open one moves by what is reported:
/// the start of a worker, the handing over of a task, the end of a task or worker, the tick.
pub proof fn reports_move_open_pools_only<T>(
    s: PoolView<T>,
    report: Report<T>,
    now: TimeSpan,
    after: PoolView<T>,
    step: StepView<T>,
)
    requires
        advances(s, report, now, after, step),
    ensures
        !s.open ==> after == s && step.notices.len() == 0 && step.call is None
            && step.prestarted is None,
        s.open ==> match report {
            Report::Spawned(Ok(process_id)) => (after, step) == spawned(s, Ok(process_id), now),
            Report::Spawned(Err(why)) => (after, step) == spawned(s, Err(why@), now),
            Report::Dispatched(refused) => (after, step) == dispatched(s, refused, now),
            Report::Worker(event) => (after, step) == reported(s, event, now),
            Report::Tick => step.call is None && step.prestarted is None && after.queue == s.queue
                && forall|i: int|
                0 <= i < step.notices.len() ==> (
                #[trigger] step.notices[i] matches NoticeView::Stop { worker_id }
                    && s.workers.contains_key(worker_id) && !after.workers.contains_key(worker_id)),
        },
{
    if s.open && report is Tick {
        let gone = choose|gone: Seq<u64>| #[trigger]
            retirable(s, now, gone) && after == without(s, gone) && step == (StepView {
                notices: stops(gone),
                ..quiet::<T>()
            });
        assert forall|i: int| 0 <= i < step.notices.len() implies (
        #[trigger] step.notices[i] matches NoticeView::Stop { worker_id }
            && s.workers.contains_key(worker_id) && !after.workers.contains_key(worker_id)) by {
            assert(gone.contains(gone[i]));
            assert(gone.to_set().contains(gone[i]));
        }
    }
}

/// A warm-up asks for just as many workers as the pool has fewer than its core size, and reports
/// that number.
pub proof fn warm_ups_fill_the_core<T>(s: PoolView<T>)
    requires
        sound(s),
        s.stage is Ready,
    ensures
        ({
            let m = prestart(s);
            if s.workers.len() >= s.limits.core {
                &&& m.1.prestarted == Some(Ok::<usize, ErrorView>(0))
                &&& m.1.call is None
                &&& m.0 == s
            } else {
                &&& m.1.prestarted is None
                &&& m.1.call == Some(Call::<T>::Spawn { worker_id: s.next_worker_id })
                &&& m.0.stage matches Stage::Spawning { worker_id, purpose, next }
                    && purpose is Prestart && (next matches Next::Prestart { left, missing }
                    && missing == s.limits.core - s.workers.len() && left == missing - 1)
                &&& m.0.workers == s.workers
                &&& m.0.queue == s.queue
            }
        }),
{
}

/// A warm-up whose worker does not start ends with the reason; the pool keeps what it has.
pub proof fn failed_warm_ups_are_reported<T>(s: PoolView<T>, why: Seq<char>, now: TimeSpan)
    requires
        s.stage matches Stage::Spawning { worker_id, purpose, next } && purpose is Prestart,
    ensures
        ({
            let m = spawned(s, Err(why), now);
            &&& m.1.prestarted == Some(Err::<usize, ErrorView>(ErrorView::SpawnFailed(why)))
            &&& m.1.notices.len() == 0
            &&& m.1.call is None
            &&& m.0.workers == s.workers
            &&& m.0.queue == s.queue
            &&& m.0.stage is Ready
        }),
{
}

/// A configuration can be used just where it allows a worker, its core fits its maximum, it names a
/// program, and its keep-alive time in seconds fits 64 bits.
pub proof fn usable_configurations_are_these(config: PoolConfig)
    ensures
        usable(config) <==> {
            &&& config.maximum_pool_size > 0
            &&& config.core_pool_size <= config.maximum_pool_size
            &&& config.process_factory.program@.len() > 0
            &&& config.time_unit == TimeUnit::Minutes ==> config.keep_alive_time * 60
                <= 0xffff_ffff_ffff_ffff
        },
{
}

/// A core worker that cannot be replaced is not tried again at once. Where no worker is left, the
/// callers of all waiting tasks are told why; else the tasks stay.
pub proof fn failed_replacements_are_not_repeated<T>(s: PoolView<T>, why: Seq<char>, now: TimeSpan)
    requires
        s.stage matches Stage::Spawning { worker_id, purpose, next } && purpose is Restore,
    ensures
        ({
            let m = spawned(s, Err(why), now);
            &&& m.1.call is None
            &&& m.0.stage is Ready
            &&& m.0.workers == s.workers
            &&& if s.workers.len() == 0 {
                &&& m.0.queue.len() == 0
                &&& m.1.notices.len() == s.queue.len()
                &&& forall|i: int|
                    0 <= i < s.queue.len() ==> #[trigger] m.1.notices[i] == (NoticeView::Reply {
                        ticket: s.queue[i].ticket,
                        outcome: Err::<JsonView, ErrorView>(ErrorView::SpawnFailed(why)),
                    })
            } else {
                m.0.queue == s.queue && m.1.notices.len() == 0
            }
        }),
{
}

} // verus!
