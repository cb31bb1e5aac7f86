//! What holds of a pool over its whole life, whatever its host reports.
use vstd::multiset::Multiset;
use vstd::prelude::*;
use crate::config::{Limits, RejectedExecutionHandler, TimeSpan};
use crate::error::{outcome_view, ErrorView, TaskOutcome};
use crate::json::{Json, JsonView};
use crate::pool::{advances, describes, told, PoolStats, Report, WorkerState};
use crate::schedule::{
    abandon_if_deserted, announced, ask_dispatch, ask_spawn, closed, dispatched, drained,
    empty_pool, expired, feed, following, grown, larger, missing_workers, placement, placement_beyond_core,
    prestart, proceed, quiet, recorded, refusal, refusals, reject, released, reported, retirable,
    settle, slot_sound, smaller, sound, spawned, stop_notice, stops, submitted, without, Call, DispatchFor, Job, Move,
    Next, NoticeView, Placement, PoolView, SpawnFor, Stage, StepView, WorkerEvent,
};
use crate::workers::{an_idle_worker_is_found, is_idle, is_lowest_idle, lists, lowest_idle};

verus! {

/// The tickets of queued tasks.
pub open spec fn waiting<T>(queue: Seq<Job<T>>) -> Multiset<T>
    decreases queue.len(),
{
    if queue.len() == 0 {
        Multiset::empty()
    } else {
        waiting(queue.drop_last()).insert(queue.last().ticket)
    }
}

/// The tickets that one notice hands to the host.
pub open spec fn passed_on<T>(notice: NoticeView<T>) -> Multiset<T> {
    match notice {
        NoticeView::Reply { ticket, outcome } => Multiset::singleton(ticket),
        NoticeView::RunOneShot { job } => Multiset::singleton(job.ticket),
        NoticeView::Stop { worker_id } => Multiset::empty(),
    }
}

/// The tickets that notices hand to the host.
pub open spec fn handed<T>(notices: Seq<NoticeView<T>>) -> Multiset<T>
    decreases notices.len(),
{
    if notices.len() == 0 {
        Multiset::empty()
    } else {
        handed(notices.drop_last()).add(passed_on(notices.last()))
    }
}

/// The ticket of the task that waits for a worker to come up.
pub open spec fn in_hand<T>(stage: Stage<T>) -> Multiset<T> {
    match stage {
        Stage::Spawning { worker_id, purpose, next } => carried(purpose),
        _ => Multiset::empty(),
    }
}

pub open spec fn carried<T>(purpose: SpawnFor<T>) -> Multiset<T> {
    match purpose {
        SpawnFor::Task { job } => Multiset::singleton(job.ticket),
        SpawnFor::Queued { job } => Multiset::singleton(job.ticket),
        _ => Multiset::empty(),
    }
}

/// The tickets that the pool itself keeps.
pub open spec fn held<T>(s: PoolView<T>) -> Multiset<T> {
    waiting(s.queue).add(in_hand(s.stage))
}

/// The tickets that a step hands to the host.
pub open spec fn given_out<T>(step: StepView<T>) -> Multiset<T> {
    handed(step.notices).add(
        match step.call {
            Some(Call::Dispatch { worker_id, job }) => Multiset::singleton(job.ticket),
            _ => Multiset::empty(),
        },
    )
}

/// All tickets of a move: those kept and those handed out.
pub open spec fn traced<T>(m: Move<T>) -> Multiset<T> {
    held(m.0).add(given_out(m.1))
}

proof fn lemma_handed_together<T>(a: Seq<NoticeView<T>>, b: Seq<NoticeView<T>>)
    ensures
        handed(a + b) == handed(a).add(handed(b)),
    decreases b.len(),
{
    if b.len() == 0 {
        assert(a + b =~= a);
        assert(handed(a).add(handed(b)) =~= handed(a));
    } else {
        lemma_handed_together(a, b.drop_last());
        assert((a + b).drop_last() =~= a + b.drop_last());
        assert(handed(a + b) =~= handed(a).add(handed(b)));
    }
}

proof fn lemma_handed_one<T>(n: NoticeView<T>)
    ensures
        handed(seq![n]) == passed_on(n),
{
    assert(seq![n].drop_last() =~= Seq::<NoticeView<T>>::empty());
    assert(handed(seq![n].drop_last()) =~= Multiset::empty());
    assert(handed(seq![n]) =~= passed_on(n));
}

proof fn lemma_waiting_first<T>(queue: Seq<Job<T>>)
    requires
        queue.len() > 0,
    ensures
        waiting(queue) == waiting(queue.drop_first()).insert(queue[0].ticket),
    decreases queue.len(),
{
    if queue.len() == 1 {
        assert(queue.drop_last() =~= queue.drop_first());
    } else {
        lemma_waiting_first(queue.drop_last());
        assert(queue.drop_last().drop_first() =~= queue.drop_first().drop_last());
        assert(waiting(queue) =~= waiting(queue.drop_first()).insert(queue[0].ticket));
    }
}

proof fn lemma_waiting_push<T>(queue: Seq<Job<T>>, job: Job<T>)
    ensures
        waiting(queue.push(job)) == waiting(queue).insert(job.ticket),
{
    assert(queue.push(job).drop_last() =~= queue);
}

proof fn lemma_refusals<T>(queue: Seq<Job<T>>, e: ErrorView)
    ensures
        handed(refusals(queue, e)) == waiting(queue),
    decreases queue.len(),
{
    if queue.len() > 0 {
        lemma_refusals(queue.drop_last(), e);
        assert(refusals(queue, e).drop_last() =~= refusals(queue.drop_last(), e));
        assert(handed(refusals(queue, e)) =~= waiting(queue));
    }
}

proof fn lemma_announced<T>(notices: Seq<NoticeView<T>>, m: Move<T>)
    ensures
        traced(announced(notices, m)) == handed(notices).add(traced(m)),
{
    lemma_handed_together(notices, m.1.notices);
    assert(traced(announced(notices, m)) =~= handed(notices).add(traced(m)));
}

proof fn lemma_proceed<T>(s: PoolView<T>, next: Next)
    ensures
        traced(proceed(s, next)) == waiting(s.queue),
{
    assert(traced(proceed(s, next)) =~= waiting(s.queue));
}

proof fn lemma_ask_spawn<T>(s: PoolView<T>, purpose: SpawnFor<T>, next: Next)
    ensures
        traced(ask_spawn(s, purpose, next)) == waiting(s.queue).add(carried(purpose)),
{
    assert(traced(ask_spawn(s, purpose, next)) =~= waiting(s.queue).add(carried(purpose)));
}

proof fn lemma_ask_dispatch<T>(
    s: PoolView<T>,
    worker_id: u64,
    job: Job<T>,
    purpose: DispatchFor,
    next: Next,
    now: TimeSpan,
)
    ensures
        traced(ask_dispatch(s, worker_id, job, purpose, next, now)) == waiting(s.queue).insert(
            job.ticket,
        ),
{
    assert(traced(ask_dispatch(s, worker_id, job, purpose, next, now)) =~= waiting(s.queue).insert(
        job.ticket,
    ));
}

proof fn lemma_reply<T>(n: NoticeView<T>, m: Move<T>)
    ensures
        traced(announced(seq![n], m)) == passed_on(n).add(traced(m)),
{
    lemma_announced(seq![n], m);
    lemma_handed_one(n);
}

proof fn lemma_settle<T>(
    s: PoolView<T>,
    job: Job<T>,
    chosen: Placement,
    next: Next,
    now: TimeSpan,
)
    ensures
        traced(settle(s, job, chosen, next, now)) == waiting(s.queue).insert(job.ticket),
{
    let all = waiting(s.queue).insert(job.ticket);
    match chosen {
        Placement::Start => {
            lemma_ask_spawn(s, SpawnFor::Task { job }, next);
            assert(traced(settle(s, job, chosen, next, now)) =~= all);
        },
        Placement::Reuse { worker_id } => {
            lemma_ask_dispatch(s, worker_id, job, DispatchFor::Reused, next, now);
        },
        Placement::Enqueue => {
            lemma_waiting_push(s.queue, job);
            lemma_proceed(PoolView { queue: s.queue.push(job), ..s }, next);
        },
        Placement::Reject => {
            let counted = PoolView { rejected: (s.rejected + 1) as u64, ..s };
            match s.limits.policy {
                RejectedExecutionHandler::Abort => {
                    lemma_proceed(counted, next);
                    lemma_reply(refusal(job.ticket, ErrorView::Rejected), proceed(counted, next));
                },
                RejectedExecutionHandler::Discard => {
                    lemma_proceed(counted, next);
                    lemma_reply(refusal(job.ticket, ErrorView::Discarded), proceed(counted, next));
                },
                RejectedExecutionHandler::DiscardOldest => {
                    if s.queue.len() > 0 {
                        let rest = s.queue.drop_first();
                        let swapped = PoolView { queue: rest.push(job), ..counted };
                        lemma_waiting_first(s.queue);
                        lemma_waiting_push(rest, job);
                        lemma_proceed(swapped, next);
                        lemma_reply(
                            refusal(s.queue[0].ticket, ErrorView::Discarded),
                            proceed(swapped, next),
                        );
                    } else {
                        lemma_proceed(counted, next);
                        lemma_reply(
                            refusal(job.ticket, ErrorView::Rejected),
                            proceed(counted, next),
                        );
                    }
                },
                RejectedExecutionHandler::CallerRuns => {
                    let ran = PoolView { caller_runs: (s.caller_runs + 1) as u64, ..counted };
                    lemma_proceed(ran, next);
                    lemma_reply(NoticeView::RunOneShot { job }, proceed(ran, next));
                },
            }
            assert(traced(settle(s, job, chosen, next, now)) =~= all);
        },
    }
}

/// No task is lost or answered twice on submission: its ticket joins those that the pool
/// keeps or hands out.
pub proof fn submission_accounts_for_every_ticket<T>(
    s: PoolView<T>,
    payload: Json,
    timeout: TimeSpan,
    ticket: T,
    now: TimeSpan,
)
    requires
        s.stage is Ready,
    ensures
        traced(submitted(s, payload, timeout, ticket, now)) == held(s).insert(ticket),
{
    let job = Job { id: s.next_job_id, payload, timeout, ticket };
    let numbered = PoolView { next_job_id: following(s.next_job_id), ..s };
    lemma_settle(numbered, job, placement(numbered), Next::Rest, now);
    assert(held(s) =~= waiting(s.queue));
}

proof fn lemma_feed<T>(
    s: PoolView<T>,
    worker_id: u64,
    purpose: DispatchFor,
    next: Next,
    now: TimeSpan,
)
    ensures
        traced(feed(s, worker_id, purpose, next, now)) == waiting(s.queue),
{
    if s.queue.len() > 0 {
        lemma_waiting_first(s.queue);
        lemma_ask_dispatch(
            PoolView { queue: s.queue.drop_first(), ..s },
            worker_id,
            s.queue[0],
            purpose,
            next,
            now,
        );
    } else {
        lemma_proceed(s, next);
    }
}

proof fn lemma_abandon<T>(s: PoolView<T>, e: ErrorView, next: Next)
    ensures
        traced(abandon_if_deserted(s, e, next)) == waiting(s.queue),
{
    let emptied = PoolView { queue: Seq::empty(), ..s };
    lemma_proceed(s, next);
    lemma_proceed(emptied, next);
    lemma_refusals(s.queue, e);
    lemma_announced(refusals(s.queue, e), proceed(emptied, next));
    assert(traced(abandon_if_deserted(s, e, next)) =~= waiting(s.queue));
}

/// No task is lost or answered twice when a worker has come up or has failed to.
pub proof fn spawn_report_accounts_for_every_ticket<T>(
    s: PoolView<T>,
    result: Result<Option<u32>, Seq<char>>,
    now: TimeSpan,
)
    ensures
        traced(spawned(s, result, now)) == held(s),
{
    match s.stage {
        Stage::Spawning { worker_id, purpose, next } => {
            match result {
                Ok(process_id) => {
                    let g = grown(s, worker_id, process_id, now);
                    match purpose {
                        SpawnFor::Task { job } => lemma_ask_dispatch(
                            g,
                            worker_id,
                            job,
                            DispatchFor::Started,
                            next,
                            now,
                        ),
                        SpawnFor::Queued { job } => lemma_ask_dispatch(
                            g,
                            worker_id,
                            job,
                            DispatchFor::QueuedToNew,
                            next,
                            now,
                        ),
                        SpawnFor::Prestart => lemma_feed(
                            g,
                            worker_id,
                            DispatchFor::Prestarted,
                            next,
                            now,
                        ),
                        SpawnFor::Restore => lemma_feed(
                            g,
                            worker_id,
                            DispatchFor::Restored,
                            next,
                            now,
                        ),
                    }
                },
                Err(why) => {
                    let e = ErrorView::SpawnFailed(why);
                    match purpose {
                        SpawnFor::Task { job } => {
                            lemma_proceed(s, next);
                            lemma_reply(refusal(job.ticket, e), proceed(s, next));
                        },
                        SpawnFor::Queued { job } => {
                            lemma_abandon(s, e, next);
                            lemma_reply(refusal(job.ticket, e), abandon_if_deserted(s, e, next));
                        },
                        SpawnFor::Prestart => {},
                        SpawnFor::Restore => lemma_abandon(s, e, Next::Rest),
                    }
                },
            }
        },
        _ => {},
    }
    assert(traced(spawned(s, result, now)) =~= held(s));
}

/// No task is lost or answered twice when a worker took a task or the task came back: a
/// returned ticket joins those that the pool keeps or hands out.
pub proof fn dispatch_report_accounts_for_every_ticket<T>(
    s: PoolView<T>,
    refused: Option<Job<T>>,
    now: TimeSpan,
)
    requires
        s.stage is Dispatching,
    ensures
        traced(dispatched(s, refused, now)) == held(s).add(
            match refused {
                Some(job) => Multiset::singleton(job.ticket),
                None => Multiset::empty(),
            },
        ),
{
    match s.stage {
        Stage::Dispatching { worker_id, purpose, next } => {
            match refused {
                None => lemma_proceed(s, next),
                Some(job) => {
                    let shrunk = PoolView { workers: s.workers.remove(worker_id), ..s };
                    lemma_proceed(shrunk, next);
                    lemma_settle(shrunk, job, placement_beyond_core(shrunk), next, now);
                    lemma_settle(shrunk, job, placement(shrunk), next, now);
                    let fresh_loss = ErrorView::SpawnFailed(
                        "new worker stopped before accepting a task"@,
                    );
                    let late_loss = ErrorView::SpawnFailed(
                        "replacement worker stopped before accepting a task"@,
                    );
                    lemma_reply(refusal(job.ticket, fresh_loss), proceed(shrunk, next));
                    lemma_reply(refusal(job.ticket, late_loss), proceed(shrunk, next));
                    let rest = match purpose {
                        DispatchFor::Started => announced(
                            seq![refusal(job.ticket, fresh_loss)],
                            proceed(shrunk, next),
                        ),
                        DispatchFor::Reused => settle(
                            shrunk,
                            job,
                            placement_beyond_core(shrunk),
                            next,
                            now,
                        ),
                        DispatchFor::Prestarted | DispatchFor::QueuedToIdle => settle(
                            shrunk,
                            job,
                            placement(shrunk),
                            next,
                            now,
                        ),
                        DispatchFor::QueuedToNew | DispatchFor::Restored => announced(
                            seq![refusal(job.ticket, late_loss)],
                            proceed(shrunk, next),
                        ),
                    };
                    lemma_reply(NoticeView::Stop { worker_id }, rest);
                },
            }
        },
        _ => {},
    }
    assert(traced(dispatched(s, refused, now)) =~= held(s).add(
        match refused {
            Some(job) => Multiset::singleton(job.ticket),
            None => Multiset::empty(),
        },
    ));
}

proof fn lemma_drained<T>(s: PoolView<T>, now: TimeSpan)
    ensures
        traced(drained(s, now)) == waiting(s.queue),
{
    lemma_proceed(s, Next::Restore);
    if s.queue.len() > 0 {
        let job = s.queue[0];
        let taken = PoolView { queue: s.queue.drop_first(), ..s };
        lemma_waiting_first(s.queue);
        lemma_ask_spawn(taken, SpawnFor::Queued { job }, Next::Restore);
        match lowest_idle(s.workers) {
            Some(worker_id) => lemma_ask_dispatch(
                taken,
                worker_id,
                job,
                DispatchFor::QueuedToIdle,
                Next::Restore,
                now,
            ),
            None => {},
        }
        assert(traced(drained(s, now)) =~= waiting(s.queue));
    }
}

/// The ticket that a report about a worker gives back to the pool.
pub open spec fn returned<T>(event: WorkerEvent<T>) -> Multiset<T> {
    match event {
        WorkerEvent::Finished { worker_id, ticket, outcome, reusable } => Multiset::singleton(
            ticket,
        ),
        WorkerEvent::OneShotFinished { ticket, outcome } => Multiset::singleton(ticket),
        WorkerEvent::Stopped { worker_id } => Multiset::empty(),
    }
}

proof fn lemma_stop_notice<T>(s: PoolView<T>, worker_id: u64)
    ensures
        handed(stop_notice(s, worker_id)) == Multiset::<T>::empty(),
{
    lemma_handed_one(NoticeView::<T>::Stop { worker_id });
}

/// No task is lost or answered twice when a worker ended a task or stopped.
pub proof fn worker_report_accounts_for_every_ticket<T>(
    s: PoolView<T>,
    event: WorkerEvent<T>,
    now: TimeSpan,
)
    requires
        s.stage is Ready,
    ensures
        traced(reported(s, event, now)) == held(s).add(returned(event)),
{
    match event {
        WorkerEvent::Finished { worker_id, ticket, outcome, reusable } => {
            let counted = recorded(s, outcome);
            let n = NoticeView::Reply { ticket, outcome: outcome_view(outcome) };
            lemma_stop_notice(s, worker_id);
            lemma_handed_one(n);
            if !reusable {
                let rest = PoolView { workers: s.workers.remove(worker_id), ..counted };
                lemma_drained(rest, now);
                lemma_handed_together(stop_notice(s, worker_id), seq![n]);
                lemma_announced(stop_notice(s, worker_id) + seq![n], drained(rest, now));
            } else if s.workers.contains_key(worker_id) {
                let freed = PoolView {
                    workers: s.workers.insert(worker_id, released(s.workers[worker_id], now)),
                    ..counted
                };
                lemma_drained(freed, now);
                lemma_reply(n, drained(freed, now));
            } else {
                lemma_drained(counted, now);
                lemma_reply(n, drained(counted, now));
            }
        },
        WorkerEvent::OneShotFinished { ticket, outcome } => {
            lemma_handed_one(NoticeView::Reply { ticket, outcome: outcome_view(outcome) });
        },
        WorkerEvent::Stopped { worker_id } => {
            let rest = PoolView { workers: s.workers.remove(worker_id), ..s };
            lemma_stop_notice(s, worker_id);
            lemma_drained(rest, now);
            lemma_announced(stop_notice(s, worker_id), drained(rest, now));
        },
    }
    assert(traced(reported(s, event, now)) =~= held(s).add(returned(event)));
}

/// Closing a pool answers every queued task, each once and with `Closed`, and leaves the
/// pool without tasks and workers.
pub proof fn closing_answers_every_queued_task<T>(s: PoolView<T>, ids: Seq<u64>)
    requires
        s.stage is Ready,
    ensures
        held(closed(s)) == Multiset::<T>::empty(),
        handed(stops::<T>(ids) + refusals(s.queue, ErrorView::Closed)) == held(s),
        closed(s).workers.len() == 0,
        forall|i: int|
            0 <= i < s.queue.len() ==> (#[trigger] refusals(s.queue, ErrorView::Closed)[i])
                == refusal(s.queue[i].ticket, ErrorView::Closed),
{
    lemma_refusals(s.queue, ErrorView::Closed);
    lemma_handed_together(stops::<T>(ids), refusals(s.queue, ErrorView::Closed));
    lemma_stops::<T>(ids);
    assert(handed(stops::<T>(ids) + refusals(s.queue, ErrorView::Closed)) =~= held(s));
    assert(held(closed(s)) =~= Multiset::<T>::empty());
}

proof fn lemma_stops<T>(ids: Seq<u64>)
    ensures
        handed(stops::<T>(ids)) == Multiset::<T>::empty(),
    decreases ids.len(),
{
    if ids.len() > 0 {
        lemma_stops::<T>(ids.drop_last());
        assert(stops::<T>(ids).drop_last() =~= stops::<T>(ids.drop_last()));
        assert(handed(stops::<T>(ids)) =~= Multiset::<T>::empty());
    }
}

/// A warm-up neither takes nor answers tasks by itself.
pub proof fn prestart_accounts_for_every_ticket<T>(s: PoolView<T>)
    requires
        s.stage is Ready,
    ensures
        traced(prestart(s)) == held(s),
{
    lemma_proceed(s, Next::Prestart { left: missing_workers(s), missing: missing_workers(s) });
    assert(held(s) =~= waiting(s.queue));
}

/// A pool starts out without workers, tasks and history.
pub proof fn a_new_pool_has_no_workers<T>(limits: Limits)
    ensures
        empty_pool::<T>(limits).workers.len() == 0,
        empty_pool::<T>(limits).minimum_workers == 0,
        held(empty_pool::<T>(limits)) == Multiset::<T>::empty(),
{
    assert(held(empty_pool::<T>(limits)) =~= Multiset::<T>::empty());
}

/// Where a submitted task goes, in this order: below the core size to a new worker, even
/// where another is idle; then to an idle worker; then, if there is no worker at all, to a
/// new one; then to the queue; then, with the queue full, to a new worker up to the maximum;
/// and then to the rejection policy.
pub proof fn tasks_are_placed_in_order<T>(
    s: PoolView<T>,
    payload: Json,
    timeout: TimeSpan,
    ticket: T,
    now: TimeSpan,
)
    requires
        sound(s),
        s.stage is Ready,
    ensures
        ({
            let job = Job { id: s.next_job_id, payload, timeout, ticket };
            let m = submitted(s, payload, timeout, ticket, now);
            let some_idle = exists|id: u64| #[trigger]
                s.workers.contains_key(id) && is_idle(s.workers[id]);
            let starts = m.1.call == Some(Call::<T>::Spawn { worker_id: s.next_worker_id })
                && m.1.notices.len() == 0 && m.0.workers == s.workers && m.0.queue == s.queue
                && m.0.stage == (Stage::Spawning {
                worker_id: s.next_worker_id,
                purpose: SpawnFor::Task { job },
                next: Next::Rest,
            });
            if s.workers.len() < s.limits.core {
                starts
            } else if some_idle {
                &&& m.1.call matches Some(Call::Dispatch { worker_id, job: sent })
                &&& sent == job
                &&& is_lowest_idle(s.workers, worker_id)
                &&& m.1.notices.len() == 0
                &&& m.0.queue == s.queue
            } else if s.workers.len() == 0 {
                starts
            } else if s.queue.len() < s.limits.capacity {
                m.1 == quiet::<T>() && m.0.queue == s.queue.push(job) && m.0.workers == s.workers
            } else if s.workers.len() < s.limits.maximum {
                starts
            } else {
                m == reject(PoolView { next_job_id: following(s.next_job_id), ..s }, job, Next::Rest)
            }
        }),
{
    if exists|id: u64| #[trigger] s.workers.contains_key(id) && is_idle(s.workers[id]) {
        let id = choose|id: u64| #[trigger]
            s.workers.contains_key(id) && is_idle(s.workers[id]);
        an_idle_worker_is_found(s.workers, id);
    } else if lowest_idle(s.workers) is Some {
        assert(is_lowest_idle(s.workers, lowest_idle(s.workers)->0));
    }
}

/// The four rejection policies: refuse the task, discard it, discard the oldest queued task
/// in its favour (or refuse it where none is queued), or run it outside the pool.
pub proof fn rejection_follows_the_policy<T>(s: PoolView<T>, job: Job<T>)
    requires
        s.rejected < u64::MAX,
        s.caller_runs < u64::MAX,
    ensures
        ({
            let m = reject(s, job, Next::Rest);
            &&& m.0.rejected == s.rejected + 1
            &&& m.0.workers == s.workers
            &&& m.1.call is None
            &&& m.1.notices.len() == 1
            &&& match s.limits.policy {
                RejectedExecutionHandler::Abort => m.1.notices[0] == refusal(
                    job.ticket,
                    ErrorView::Rejected,
                ) && m.0.queue == s.queue && m.0.caller_runs == s.caller_runs,
                RejectedExecutionHandler::Discard => m.1.notices[0] == refusal(
                    job.ticket,
                    ErrorView::Discarded,
                ) && m.0.queue == s.queue && m.0.caller_runs == s.caller_runs,
                RejectedExecutionHandler::DiscardOldest => m.0.caller_runs == s.caller_runs
                    && if s.queue.len() > 0 {
                    m.1.notices[0] == refusal(s.queue[0].ticket, ErrorView::Discarded)
                        && m.0.queue == s.queue.drop_first().push(job)
                } else {
                    m.1.notices[0] == refusal(job.ticket, ErrorView::Rejected) && m.0.queue
                        == s.queue
                },
                RejectedExecutionHandler::CallerRuns => m.1.notices[0]
                    == (NoticeView::RunOneShot { job }) && m.0.queue == s.queue
                    && m.0.caller_runs == s.caller_runs + 1,
            }
        }),
{
}

/// Queued tasks leave in the order in which they came: a free worker gets the oldest one,
/// and the others keep their order.
pub proof fn the_oldest_task_is_served_first<T>(s: PoolView<T>, worker_id: u64, now: TimeSpan)
    requires
        s.queue.len() > 0,
        s.workers.contains_key(worker_id),
        is_idle(s.workers[worker_id]),
    ensures
        drained(s, now).0.queue == s.queue.drop_first(),
        drained(s, now).1.call matches Some(Call::Dispatch { worker_id: chosen, job })
            && job == s.queue[0] && is_lowest_idle(s.workers, chosen),
{
    an_idle_worker_is_found(s.workers, worker_id);
}

/// A worker that must not be used again is stopped before its caller is answered, and leaves
/// the pool. The pool comes to rest in the same move only where as many workers are left as
/// have been active in the core; with nobody waiting it starts a replacement exactly where
/// they are fewer.
pub proof fn an_unusable_worker_is_stopped_and_replaced<T>(
    s: PoolView<T>,
    worker_id: u64,
    ticket: T,
    outcome: TaskOutcome,
    now: TimeSpan,
)
    requires
        sound(s),
        s.stage is Ready,
        s.workers.contains_key(worker_id),
    ensures
        ({
            let m = reported(
                s,
                WorkerEvent::Finished { worker_id, ticket, outcome, reusable: false },
                now,
            );
            &&& m.1.notices.len() == 2
            &&& m.1.notices[0] == (NoticeView::<T>::Stop { worker_id })
            &&& m.1.notices[1] == (NoticeView::Reply { ticket, outcome: outcome_view(outcome) })
            &&& m.0.workers.dom() == s.workers.dom().remove(worker_id)
            &&& m.1.call is None ==> m.0.stage is Ready && m.0.workers.len()
                >= s.minimum_workers
            &&& s.queue.len() == 0 ==> m.0.workers == s.workers.remove(worker_id)
            &&& s.queue.len() == 0 ==> (m.1.call is Some <==> s.workers.len() - 1
                < s.minimum_workers)
            &&& s.queue.len() == 0 && m.1.call is Some ==> m.1.call == Some(
                Call::<T>::Spawn { worker_id: s.next_worker_id },
            )
        }),
{
    let left = s.workers.remove(worker_id);
    match lowest_idle(left) {
        Some(chosen) => {
            assert(is_lowest_idle(left, chosen));
            assert(left.dom().insert(chosen) =~= left.dom());
        },
        None => {},
    }
}

/// A worker that answered stays: it becomes idle, or takes the oldest queued task at once.
pub proof fn a_usable_worker_is_kept<T>(
    s: PoolView<T>,
    worker_id: u64,
    ticket: T,
    outcome: TaskOutcome,
    now: TimeSpan,
)
    requires
        sound(s),
        s.stage is Ready,
        s.workers.contains_key(worker_id),
    ensures
        ({
            let m = reported(
                s,
                WorkerEvent::Finished { worker_id, ticket, outcome, reusable: true },
                now,
            );
            &&& m.0.workers.contains_key(worker_id)
            &&& s.queue.len() == 0 ==> m.0.workers[worker_id] == released(
                s.workers[worker_id],
                now,
            )
            &&& s.queue.len() > 0 ==> (m.1.call matches Some(Call::Dispatch { worker_id: w, job })
                && job == s.queue[0])
        }),
{
    let freed = s.workers.insert(worker_id, released(s.workers[worker_id], now));
    an_idle_worker_is_found(freed, worker_id);
}

/// A worker that answered, be it with a failure of its own, costs nothing: its caller is answered
/// once, the pool comes to rest, and the next task goes to an idle worker, which is this very one
/// where no other is idle.
pub proof fn the_next_task_reuses_the_worker<T>(
    s: PoolView<T>,
    worker_id: u64,
    ticket: T,
    outcome: TaskOutcome,
    now: TimeSpan,
    payload: Json,
    timeout: TimeSpan,
    next_ticket: T,
    later: TimeSpan,
)
    requires
        sound(s),
        s.stage is Ready,
        s.workers.contains_key(worker_id),
        s.workers.len() >= s.limits.core,
        s.queue.len() == 0,
    ensures
        ({
            let m = reported(
                s,
                WorkerEvent::Finished { worker_id, ticket, outcome, reusable: true },
                now,
            );
            let after = submitted(m.0, payload, timeout, next_ticket, later);
            let others_busy = forall|id: u64| #[trigger]
                s.workers.contains_key(id) && id != worker_id ==> !is_idle(s.workers[id]);
            &&& m.1 == (StepView {
                notices: seq![NoticeView::Reply { ticket, outcome: outcome_view(outcome) }],
                ..quiet::<T>()
            })
            &&& m.0.workers == s.workers.insert(worker_id, released(s.workers[worker_id], now))
            &&& after.1.notices.len() == 0
            &&& after.1.call matches Some(Call::Dispatch { worker_id: chosen, job })
            &&& job == (Job { id: s.next_job_id, payload, timeout, ticket: next_ticket })
            &&& is_lowest_idle(m.0.workers, chosen)
            &&& others_busy ==> chosen == worker_id
        }),
{
    let freed = s.workers.insert(worker_id, released(s.workers[worker_id], now));
    assert(freed.dom() =~= s.workers.dom());
    assert(freed.len() == s.workers.len());
    an_idle_worker_is_found(freed, worker_id);
    let m = reported(
        s,
        WorkerEvent::Finished { worker_id, ticket, outcome, reusable: true },
        now,
    );
    assert(m.1.notices =~= seq![NoticeView::Reply { ticket, outcome: outcome_view(outcome) }]);
    let chosen = lowest_idle(freed)->0;
    assert(is_lowest_idle(freed, chosen));
    if chosen != worker_id {
        assert(s.workers.contains_key(chosen) && is_idle(s.workers[chosen]));
    }
}

/// The core count that is kept up only ever grows, never beyond the core size, and never
/// beyond the number of workers that have been up together.
pub proof fn only_started_core_workers_are_kept_up<T>(
    s: PoolView<T>,
    worker_id: u64,
    process_id: Option<u32>,
    now: TimeSpan,
)
    requires
        sound(s),
    ensures
        ({
            let g = grown(s, worker_id, process_id, now);
            &&& s.minimum_workers <= g.minimum_workers <= s.limits.core
            &&& g.minimum_workers == s.minimum_workers || g.minimum_workers <= g.workers.len()
            &&& g.workers.len() <= s.limits.core ==> g.workers.len() <= g.minimum_workers
        }),
{
}

proof fn lemma_without<T>(s: PoolView<T>, gone: Seq<u64>)
    requires
        s.workers.dom().finite(),
        forall|i: int, j: int| 0 <= i < j < gone.len() ==> gone[i] < gone[j],
        forall|i: int| 0 <= i < gone.len() ==> s.workers.contains_key(#[trigger] gone[i]),
    ensures
        without(s, gone).workers.dom().finite(),
        without(s, gone).workers.len() == s.workers.len() - gone.len(),
    decreases gone.len(),
{
    if gone.len() == 0 {
        assert(without(s, gone).workers =~= s.workers);
    } else {
        let less = gone.drop_last();
        lemma_without(s, less);
        less.lemma_push_to_set_commute(gone.last());
        assert(less.push(gone.last()) =~= gone);
        assert(without(s, gone).workers =~= without(s, less).workers.remove(gone.last()));
        assert(!less.contains(gone.last()));
        assert(without(s, less).workers.contains_key(gone.last()));
    }
}

/// Retirement takes only workers that have been idle for the keep-alive time, never reaches
/// into the core, and leaves everything alone while tasks wait.
pub proof fn retirement_spares_the_core<T>(s: PoolView<T>, now: TimeSpan, gone: Seq<u64>)
    requires
        sound(s),
        retirable(s, now, gone),
    ensures
        without(s, gone).workers.len() == s.workers.len() - gone.len(),
        s.workers.len() >= s.limits.core ==> without(s, gone).workers.len() >= s.limits.core,
        s.workers.len() <= s.limits.core ==> without(s, gone) == s,
        s.queue.len() > 0 ==> without(s, gone) == s,
        forall|id: u64| #[trigger]
            s.workers.contains_key(id) && !expired(s.workers[id], s.limits.keep_alive, now)
                ==> without(s, gone).workers.contains_key(id) && without(s, gone).workers[id]
                == s.workers[id],
{
    assert forall|i: int| 0 <= i < gone.len() implies s.workers.contains_key(
        #[trigger] gone[i],
    ) by {
        assert(gone.contains(gone[i]));
    }
    lemma_without(s, gone);
    if gone.len() == 0 {
        assert(without(s, gone).workers =~= s.workers);
    }
}

/// With nobody waiting, exactly the expired workers go, as many as stand above the core.
pub proof fn retirement_takes_what_it_may<T>(s: PoolView<T>, now: TimeSpan, gone: Seq<u64>)
    requires
        sound(s),
        retirable(s, now, gone),
        s.queue.len() == 0,
        s.workers.len() > s.limits.core,
    ensures
        without(s, gone).workers.len() == s.limits.core || forall|id: u64| #[trigger]
            without(s, gone).workers.contains_key(id) ==> !expired(
                s.workers[id],
                s.limits.keep_alive,
                now,
            ),
{
    retirement_spares_the_core(s, now, gone);
}

/// Warming up a pool whose core is complete starts nothing and changes nothing.
pub proof fn prestart_is_idempotent<T>(s: PoolView<T>)
    requires
        s.stage is Ready,
        s.workers.len() >= s.limits.core,
    ensures
        prestart(s) == (s, StepView { prestarted: Some(Ok(0)), ..quiet::<T>() }),
{
}

/// What follows a move whose call goes well: the worker comes up, or takes the task. A move
/// without a call is followed by nothing.
pub open spec fn obliged<T>(m: Move<T>, process_id: Option<u32>, now: TimeSpan) -> Move<T> {
    match m.1.call {
        Some(Call::Spawn { worker_id }) => spawned(m.0, Ok(process_id), now),
        Some(Call::Dispatch { worker_id, job }) => dispatched(m.0, None, now),
        None => m,
    }
}

/// The move after its calls have gone well, one after the other, as far as `ends` goes: each
/// end has the moment of the report and, where a worker was asked for, its process identifier.
pub open spec fn going_well<T>(m: Move<T>, ends: Seq<(Option<u32>, TimeSpan)>) -> Move<T>
    decreases ends.len(),
{
    if ends.len() == 0 {
        m
    } else {
        going_well(obliged(m, ends[0].0, ends[0].1), ends.drop_first())
    }
}

proof fn lemma_going_well_rests<T>(m: Move<T>, ends: Seq<(Option<u32>, TimeSpan)>)
    requires
        m.1.call is None,
    ensures
        going_well(m, ends) == m,
    decreases ends.len(),
{
    if ends.len() > 0 {
        lemma_going_well_rests(m, ends.drop_first());
    }
}

/// Whether every worker identifier in use lies below the next one; so does the one of a worker
/// that is being started, which is not in use yet.
pub open spec fn ids_in_order<T>(s: PoolView<T>) -> bool {
    &&& forall|id: u64| #[trigger] s.workers.contains_key(id) ==> id < s.next_worker_id
    &&& s.stage matches Stage::Spawning { worker_id, purpose, next } ==> worker_id
        < s.next_worker_id && !s.workers.contains_key(worker_id)
}

/// Whether the next `count` worker identifiers are new.
pub open spec fn unused_ids<T>(s: PoolView<T>, count: nat) -> bool {
    &&& s.next_worker_id + count <= u64::MAX
    &&& ids_in_order(s)
}

proof fn lemma_ids_settle<T>(
    s: PoolView<T>,
    job: Job<T>,
    chosen: Placement,
    next: Next,
    now: TimeSpan,
)
    requires
        forall|id: u64| #[trigger] s.workers.contains_key(id) ==> id < s.next_worker_id,
        s.next_worker_id < u64::MAX,
        chosen == placement(s) || chosen == placement_beyond_core(s),
    ensures
        ids_in_order(settle(s, job, chosen, next, now).0),
{
    if let Placement::Reuse { worker_id } = chosen {
        assert(is_lowest_idle(s.workers, worker_id));
    }
}

proof fn lemma_ids_drained<T>(s: PoolView<T>, now: TimeSpan)
    requires
        forall|id: u64| #[trigger] s.workers.contains_key(id) ==> id < s.next_worker_id,
        s.next_worker_id < u64::MAX,
    ensures
        ids_in_order(drained(s, now).0),
{
    if let Some(worker_id) = lowest_idle(s.workers) {
        assert(is_lowest_idle(s.workers, worker_id));
    }
}

/// A new pool has its worker identifiers in order, and whatever is asked of a pool or reported to
/// it keeps them so, as long as there is a next one; so do retirement and closing.
pub proof fn identifiers_stay_in_order<T>(
    limits: Limits,
    s: PoolView<T>,
    o: Occasion<T>,
    gone: Seq<u64>,
    now: TimeSpan,
)
    requires
        ids_in_order(s),
        s.next_worker_id < u64::MAX,
    ensures
        ids_in_order(empty_pool::<T>(limits)),
        ids_in_order(moved(s, o, now).0),
        ids_in_order(without(s, gone)),
        ids_in_order(closed(s)),
        s.next_worker_id <= moved(s, o, now).0.next_worker_id <= s.next_worker_id + 1,
{
    match o {
        Occasion::Prestart => {},
        Occasion::Submit { payload, timeout, ticket } => {
            let job = Job { id: s.next_job_id, payload, timeout, ticket };
            let numbered = PoolView { next_job_id: following(s.next_job_id), ..s };
            lemma_ids_settle(numbered, job, placement(numbered), Next::Rest, now);
        },
        Occasion::Spawned(result) => {},
        Occasion::Dispatched(refused) => {
            if let Stage::Dispatching { worker_id, purpose, next } = s.stage {
                if let Some(job) = refused {
                    let shrunk = PoolView { workers: s.workers.remove(worker_id), ..s };
                    lemma_ids_settle(shrunk, job, placement_beyond_core(shrunk), next, now);
                    lemma_ids_settle(shrunk, job, placement(shrunk), next, now);
                }
            }
        },
        Occasion::Worker(event) => match event {
            WorkerEvent::Finished { worker_id, ticket, outcome, reusable } => {
                let counted = recorded(s, outcome);
                if !reusable {
                    lemma_ids_drained(
                        PoolView { workers: s.workers.remove(worker_id), ..counted },
                        now,
                    );
                } else if s.workers.contains_key(worker_id) {
                    lemma_ids_drained(
                        PoolView {
                            workers: s.workers.insert(
                                worker_id,
                                released(s.workers[worker_id], now),
                            ),
                            ..counted
                        },
                        now,
                    );
                } else {
                    lemma_ids_drained(counted, now);
                }
            },
            WorkerEvent::OneShotFinished { ticket, outcome } => {},
            WorkerEvent::Stopped { worker_id } => lemma_ids_drained(
                PoolView { workers: s.workers.remove(worker_id), ..s },
                now,
            ),
        },
    }
}

/// Whether the workers of `a` are all among those of `b`, unchanged.
pub open spec fn kept_in<T>(a: PoolView<T>, b: PoolView<T>) -> bool {
    forall|id: u64| #[trigger]
        a.workers.contains_key(id) ==> b.workers.contains_key(id) && b.workers[id]
            == a.workers[id]
}

/// Whether the workers of `b` that are not among those of `a` have new identifiers.
pub open spec fn no_returns<T>(a: PoolView<T>, b: PoolView<T>) -> bool {
    forall|id: u64| #[trigger]
        b.workers.contains_key(id) && id < a.next_worker_id ==> a.workers.contains_key(id)
}

/// A worker that the pool asked for without a task has come up: the move goes on as if it had
/// been there, with the oldest queued task given to it.
proof fn lemma_one_more<T>(
    s: PoolView<T>,
    purpose: SpawnFor<T>,
    next: Next,
    ends: Seq<(Option<u32>, TimeSpan)>,
) -> (r: (PoolView<T>, Seq<(Option<u32>, TimeSpan)>))
    requires
        s.workers.dom().finite(),
        s.next_worker_id < u64::MAX,
        forall|id: u64| #[trigger] s.workers.contains_key(id) ==> id < s.next_worker_id,
        purpose is Prestart || purpose is Restore,
        ends.len() >= 2,
    ensures
        going_well(ask_spawn(s, purpose, next), ends) == going_well(proceed(r.0, next), r.1),
        r.1.len() >= ends.len() - 2,
        s.queue.len() == 0 ==> r.1.len() == ends.len() - 1,
        kept_in(s, r.0),
        r.0.workers.dom() == s.workers.dom().insert(s.next_worker_id),
        r.0.workers.dom().finite(),
        r.0.workers.len() == s.workers.len() + 1,
        r.0.next_worker_id == s.next_worker_id + 1,
        r.0.limits == s.limits,
        r.0.open == s.open,
        r.0.minimum_workers == larger(
            s.minimum_workers as int,
            smaller((s.workers.len() + 1) as int, s.limits.core as int),
        ),
        r.0.queue == (if s.queue.len() > 0 {
            s.queue.drop_first()
        } else {
            s.queue
        }),
{
    let m = ask_spawn(s, purpose, next);
    let id = s.next_worker_id;
    let g = grown(m.0, id, ends[0].0, ends[0].1);
    assert(!s.workers.contains_key(id));
    assert(g.workers.dom() =~= s.workers.dom().insert(id));
    let up = obliged(m, ends[0].0, ends[0].1);
    let tail = ends.drop_first();
    assert(going_well(m, ends) == going_well(up, tail));
    if s.queue.len() > 0 {
        let taken = obliged(up, tail[0].0, tail[0].1);
        assert(going_well(up, tail) == going_well(taken, tail.drop_first()));
        assert(up.0.workers.dom() =~= g.workers.dom());
        assert(taken == proceed(up.0, next));
        (up.0, tail.drop_first())
    } else {
        assert(up == proceed(g, next));
        (g, tail)
    }
}

proof fn lemma_warmed<T>(
    s: PoolView<T>,
    left: usize,
    missing: usize,
    ends: Seq<(Option<u32>, TimeSpan)>,
)
    requires
        s.workers.dom().finite(),
        s.next_worker_id + left <= u64::MAX,
        forall|id: u64| #[trigger] s.workers.contains_key(id) ==> id < s.next_worker_id,
        ends.len() >= 2 * left,
    ensures
        ({
            let m = going_well(proceed(s, Next::Prestart { left, missing }), ends);
            &&& m.0.workers.len() == s.workers.len() + left
            &&& m.0.stage is Ready
            &&& m.0.limits == s.limits
            &&& m.0.queue == s.queue.skip(smaller(s.queue.len() as int, left as int))
            &&& m.1 == (StepView { prestarted: Some(Ok(missing)), ..quiet::<T>() })
            &&& kept_in(s, m.0)
        }),
    decreases left,
{
    let m = proceed(s, Next::Prestart { left, missing });
    if left == 0 {
        lemma_going_well_rests(m, ends);
        assert(s.queue.skip(0) =~= s.queue);
    } else {
        let fewer = (left - 1) as usize;
        let (more, rest) = lemma_one_more(
            s,
            SpawnFor::Prestart,
            Next::Prestart { left: fewer, missing },
            ends,
        );
        lemma_warmed(more, fewer, missing, rest);
        assert(more.queue.skip(smaller(more.queue.len() as int, fewer as int)) =~= s.queue.skip(
            smaller(s.queue.len() as int, left as int),
        ));
    }
}

/// A warm-up in which every worker comes up, each with its own process and at its own moment,
/// completes the core, keeps the workers that were there, gives the oldest queued tasks to the
/// new ones, reports how many it started, and leaves nothing for a second one to do.
pub proof fn prestart_completes_the_core<T>(
    s: PoolView<T>,
    ends: Seq<(Option<u32>, TimeSpan)>,
)
    requires
        sound(s),
        s.stage is Ready,
        unused_ids(s, missing_workers(s) as nat),
        ends.len() >= 2 * missing_workers(s),
    ensures
        ({
            let missing = missing_workers(s);
            let m = going_well(prestart(s), ends);
            &&& m.0.workers.len() == s.workers.len() + missing
            &&& m.0.workers.len() >= s.limits.core
            &&& m.0.queue == s.queue.skip(smaller(s.queue.len() as int, missing as int))
            &&& m.1.call is None
            &&& m.1.prestarted == Some(Ok::<usize, ErrorView>(missing))
            &&& kept_in(s, m.0)
            &&& prestart(m.0) == (m.0, StepView { prestarted: Some(Ok(0)), ..quiet::<T>() })
        }),
{
    lemma_warmed(s, missing_workers(s), missing_workers(s), ends);
}

/// How many of the core workers that have been active are missing.
pub open spec fn lost_workers<T>(s: PoolView<T>) -> nat {
    if s.workers.len() < s.minimum_workers {
        (s.minimum_workers - s.workers.len()) as nat
    } else {
        0
    }
}

proof fn lemma_restored<T>(s: PoolView<T>, ends: Seq<(Option<u32>, TimeSpan)>)
    requires
        s.workers.dom().finite(),
        s.minimum_workers <= s.limits.core,
        s.next_worker_id + lost_workers(s) <= u64::MAX,
        forall|id: u64| #[trigger] s.workers.contains_key(id) ==> id < s.next_worker_id,
        ends.len() >= 2 * lost_workers(s),
    ensures
        ({
            let m = going_well(proceed(s, Next::Restore), ends);
            &&& m.0.workers.len() == larger(s.workers.len() as int, s.minimum_workers as int)
            &&& m.0.stage is Ready
            &&& m.0.minimum_workers == s.minimum_workers
            &&& m.0.queue == s.queue.skip(
                smaller(s.queue.len() as int, lost_workers(s) as int),
            )
            &&& m.1 == quiet::<T>()
            &&& kept_in(s, m.0)
            &&& no_returns(s, m.0)
        }),
    decreases lost_workers(s),
{
    let m = proceed(s, Next::Restore);
    if lost_workers(s) == 0 {
        lemma_going_well_rests(m, ends);
        assert(s.queue.skip(0) =~= s.queue);
    } else {
        let (more, rest) = lemma_one_more(s, SpawnFor::Restore, Next::Restore, ends);
        lemma_restored(more, rest);
        assert(more.queue.skip(
            smaller(more.queue.len() as int, lost_workers(more) as int),
        ) =~= s.queue.skip(smaller(s.queue.len() as int, lost_workers(s) as int)));
    }
}

/// The pool once a worker has left it.
pub open spec fn bereft<T>(s: PoolView<T>, worker_id: u64) -> PoolView<T> {
    PoolView { workers: s.workers.remove(worker_id), ..s }
}

proof fn lemma_drained_restores<T>(
    s: PoolView<T>,
    now: TimeSpan,
    ends: Seq<(Option<u32>, TimeSpan)>,
)
    requires
        s.workers.dom().finite(),
        s.minimum_workers <= s.limits.core,
        s.next_worker_id + lost_workers(s) + 1 <= u64::MAX,
        forall|id: u64| #[trigger] s.workers.contains_key(id) ==> id < s.next_worker_id,
        ends.len() >= 2 * lost_workers(s) + 2,
    ensures
        ({
            let m = going_well(drained(s, now), ends);
            &&& m.0.stage is Ready
            &&& m.1.call is None
            &&& m.0.workers.len() >= s.minimum_workers
            &&& m.0.workers.len() >= s.workers.len()
            &&& no_returns(s, m.0)
            &&& forall|id: u64| #[trigger]
                s.workers.contains_key(id) ==> m.0.workers.contains_key(id)
            &&& forall|id: u64| #[trigger]
                s.workers.contains_key(id) && !is_idle(s.workers[id]) ==> m.0.workers[id]
                    == s.workers[id]
            &&& s.queue.len() == 0 ==> {
                &&& m.0.workers.len() == larger(s.workers.len() as int, s.minimum_workers as int)
                &&& kept_in(s, m.0)
                &&& m.0.queue.len() == 0
            }
        }),
{
    let m = drained(s, now);
    let end = going_well(m, ends).0;
    if s.queue.len() == 0 {
        lemma_restored(s, ends);
        assert(kept_in(s, end));
    } else {
        let job = s.queue[0];
        let taken = PoolView { queue: s.queue.drop_first(), ..s };
        match lowest_idle(s.workers) {
            Some(worker_id) => {
                assert(is_lowest_idle(s.workers, worker_id));
                assert(m.0.workers.dom() =~= s.workers.dom());
                let heard = obliged(m, ends[0].0, ends[0].1);
                assert(heard == proceed(m.0, Next::Restore));
                assert(going_well(m, ends) == going_well(heard, ends.drop_first()));
                assert(m.0.workers.len() == s.workers.len());
                lemma_restored(m.0, ends.drop_first());
                assert forall|id: u64| #[trigger] s.workers.contains_key(id) implies
                    end.workers.contains_key(id) && (!is_idle(s.workers[id])
                    ==> end.workers[id] == s.workers[id]) by {
                    assert(m.0.workers.contains_key(id));
                }
            },
            None => {
                if s.workers.len() == 0 || s.workers.len() < s.limits.core {
                    let id = s.next_worker_id;
                    assert(!s.workers.contains_key(id));
                    let up = obliged(m, ends[0].0, ends[0].1);
                    let g = grown(m.0, id, ends[0].0, ends[0].1);
                    assert(g.workers.dom() =~= s.workers.dom().insert(id));
                    assert(up.0.workers.dom() =~= g.workers.dom());
                    let tail = ends.drop_first();
                    let heard = obliged(up, tail[0].0, tail[0].1);
                    assert(heard == proceed(up.0, Next::Restore));
                    assert(going_well(m, ends) == going_well(up, tail));
                    assert(going_well(up, tail) == going_well(heard, tail.drop_first()));
                    lemma_restored(up.0, tail.drop_first());
                    assert forall|id: u64| #[trigger] s.workers.contains_key(id) implies
                        end.workers.contains_key(id) && end.workers[id] == s.workers[id] by {
                        assert(up.0.workers.contains_key(id));
                    }
                } else {
                    lemma_restored(s, ends);
                }
            },
        }
    }
}

/// Notices that go out before make no difference to what follows a move.
proof fn lemma_going_well_announced<T>(
    notices: Seq<NoticeView<T>>,
    m: Move<T>,
    ends: Seq<(Option<u32>, TimeSpan)>,
)
    ensures
        going_well(announced(notices, m), ends).0 == going_well(m, ends).0,
        going_well(announced(notices, m), ends).1.call == going_well(m, ends).1.call,
{
    if m.1.call is None {
        lemma_going_well_rests(m, ends);
        lemma_going_well_rests(announced(notices, m), ends);
    }
}

/// A worker that is lost is made up for, whether it ended a task and must not be used again
/// (`finished`) or stopped while idle: where the calls that follow go well, the pool comes to
/// rest with at least as many workers as have been active in the core, and the other workers
/// are still there, those with a task unchanged. With nobody waiting, exactly as many workers
/// are started as are missing then, and all others are unchanged.
pub proof fn lost_workers_are_made_up_for<T>(
    s: PoolView<T>,
    worker_id: u64,
    finished: Option<(T, TaskOutcome)>,
    now: TimeSpan,
    ends: Seq<(Option<u32>, TimeSpan)>,
)
    requires
        sound(s),
        s.stage is Ready,
        s.workers.contains_key(worker_id),
        unused_ids(s, lost_workers(bereft(s, worker_id)) + 1),
        ends.len() >= 2 * lost_workers(bereft(s, worker_id)) + 2,
    ensures
        ({
            let event = match finished {
                Some((ticket, outcome)) => WorkerEvent::Finished {
                    worker_id,
                    ticket,
                    outcome,
                    reusable: false,
                },
                None => WorkerEvent::Stopped { worker_id },
            };
            let left = bereft(s, worker_id);
            let m = going_well(reported(s, event, now), ends);
            &&& m.0.stage is Ready
            &&& m.1.call is None
            &&& m.0.workers.len() >= s.minimum_workers
            &&& m.0.workers.len() >= s.workers.len() - 1
            &&& !m.0.workers.contains_key(worker_id)
            &&& no_returns(s, m.0)
            &&& forall|id: u64| #[trigger]
                left.workers.contains_key(id) ==> m.0.workers.contains_key(id)
            &&& forall|id: u64| #[trigger]
                left.workers.contains_key(id) && !is_idle(left.workers[id]) ==> m.0.workers[id]
                    == s.workers[id]
            &&& s.queue.len() == 0 ==> {
                &&& m.0.workers.len() == larger(s.workers.len() - 1, s.minimum_workers as int)
                &&& kept_in(left, m.0)
                &&& m.0.queue.len() == 0
            }
        }),
{
    let event = match finished {
        Some((ticket, outcome)) => WorkerEvent::Finished {
            worker_id,
            ticket,
            outcome,
            reusable: false,
        },
        None => WorkerEvent::Stopped { worker_id },
    };
    let counted = match finished {
        Some((ticket, outcome)) => recorded(s, outcome),
        None => s,
    };
    let left = bereft(counted, worker_id);
    lemma_drained_restores(left, now, ends);
    let said = match finished {
        Some((ticket, outcome)) => stop_notice(s, worker_id) + seq![
            NoticeView::Reply { ticket, outcome: outcome_view(outcome) },
        ],
        None => stop_notice(s, worker_id),
    };
    assert(reported(s, event, now) == announced(said, drained(left, now)));
    lemma_going_well_announced(said, drained(left, now), ends);
}

/// A warm-up that cannot start a worker ends with that error, and the workers that it did
/// start stay.
pub proof fn a_failed_prestart_keeps_its_workers<T>(s: PoolView<T>, why: Seq<char>, now: TimeSpan)
    requires
        s.stage matches Stage::Spawning { worker_id, purpose, next } && purpose is Prestart,
    ensures
        spawned(s, Err(why), now).0.workers == s.workers,
        spawned(s, Err(why), now).0.queue == s.queue,
        spawned(s, Err(why), now).0.stage is Ready,
        spawned(s, Err(why), now).1.prestarted == Some(
            Err::<usize, ErrorView>(ErrorView::SpawnFailed(why)),
        ),
{
}

/// Every task that ends is counted once, as completed or as failed.
pub proof fn every_outcome_is_counted_once<T>(s: PoolView<T>, outcome: TaskOutcome)
    requires
        s.completed < u64::MAX,
        s.failed < u64::MAX,
    ensures
        recorded(s, outcome).completed + recorded(s, outcome).failed == s.completed + s.failed + 1,
        recorded(s, outcome).completed > s.completed <==> outcome is Ok,
{
}

/// The tickets that notices answer.
pub open spec fn answers<T>(notices: Seq<NoticeView<T>>) -> Multiset<T>
    decreases notices.len(),
{
    if notices.len() == 0 {
        Multiset::empty()
    } else {
        match notices.last() {
            NoticeView::Reply { ticket, outcome } => answers(notices.drop_last()).insert(ticket),
            _ => answers(notices.drop_last()),
        }
    }
}

/// The tickets of tasks that notices hand to processes outside the pool.
pub open spec fn outsourced<T>(notices: Seq<NoticeView<T>>) -> Multiset<T>
    decreases notices.len(),
{
    if notices.len() == 0 {
        Multiset::empty()
    } else {
        match notices.last() {
            NoticeView::RunOneShot { job } => outsourced(notices.drop_last()).insert(job.ticket),
            _ => outsourced(notices.drop_last()),
        }
    }
}

/// The tickets of tasks that a step entrusts to processes.
pub open spec fn entrusted_by<T>(step: StepView<T>) -> Multiset<T> {
    outsourced(step.notices).add(
        match step.call {
            Some(Call::Dispatch { worker_id, job }) => Multiset::singleton(job.ticket),
            _ => Multiset::empty(),
        },
    )
}

/// What has become of all tickets so far.
pub struct Ledger<T> {
    pub submitted: Multiset<T>,
    pub answered: Multiset<T>,
    /// Those of tasks that are with a process.
    pub entrusted: Multiset<T>,
}

/// Every ticket is answered, or with a process, or with the pool, and only one of these.
pub open spec fn balanced<T>(s: PoolView<T>, l: Ledger<T>) -> bool {
    l.submitted == l.answered.add(l.entrusted).add(held(s))
}

/// What is asked of a pool or reported to it.
pub enum Occasion<T> {
    Prestart,
    Submit { payload: Json, timeout: TimeSpan, ticket: T },
    Spawned(Result<Option<u32>, Seq<char>>),
    Dispatched(Option<Job<T>>),
    Worker(WorkerEvent<T>),
}

/// Whether the pool is in a state for the occasion.
pub open spec fn fitting<T>(s: PoolView<T>, o: Occasion<T>) -> bool {
    match o {
        Occasion::Spawned(_) => true,
        Occasion::Dispatched(_) => s.stage is Dispatching,
        _ => s.stage is Ready,
    }
}

/// The move that the occasion leads to.
pub open spec fn moved<T>(s: PoolView<T>, o: Occasion<T>, now: TimeSpan) -> Move<T> {
    match o {
        Occasion::Prestart => prestart(s),
        Occasion::Submit { payload, timeout, ticket } => submitted(s, payload, timeout, ticket, now),
        Occasion::Spawned(result) => spawned(s, result, now),
        Occasion::Dispatched(refused) => dispatched(s, refused, now),
        Occasion::Worker(event) => reported(s, event, now),
    }
}

/// The ticket that comes in with the occasion.
pub open spec fn brought<T>(o: Occasion<T>) -> Multiset<T> {
    match o {
        Occasion::Submit { payload, timeout, ticket } => Multiset::singleton(ticket),
        _ => Multiset::empty(),
    }
}

/// The ticket that a process gives back on the occasion.
pub open spec fn handed_back<T>(o: Occasion<T>) -> Multiset<T> {
    match o {
        Occasion::Dispatched(Some(job)) => Multiset::singleton(job.ticket),
        Occasion::Worker(event) => returned(event),
        _ => Multiset::empty(),
    }
}

/// The ledger after the occasion.
pub open spec fn booked<T>(l: Ledger<T>, o: Occasion<T>, step: StepView<T>) -> Ledger<T> {
    Ledger {
        submitted: l.submitted.add(brought(o)),
        answered: l.answered.add(answers(step.notices)),
        entrusted: l.entrusted.sub(handed_back(o)).add(entrusted_by(step)),
    }
}

proof fn lemma_handed_is_answered_or_outsourced<T>(notices: Seq<NoticeView<T>>)
    ensures
        handed(notices) == answers(notices).add(outsourced(notices)),
    decreases notices.len(),
{
    if notices.len() > 0 {
        lemma_handed_is_answered_or_outsourced(notices.drop_last());
    }
    assert(handed(notices) =~= answers(notices).add(outsourced(notices)));
}

/// Every submitted task is answered at most once and never lost: through whatever the host
/// asks and reports, its ticket is answered, or with a process, or with the pool, and only one
/// of these. The host has only to give back tickets that it was given.
pub proof fn every_task_is_accounted_for<T>(
    s: PoolView<T>,
    l: Ledger<T>,
    o: Occasion<T>,
    now: TimeSpan,
)
    requires
        balanced(s, l),
        fitting(s, o),
        handed_back(o).subset_of(l.entrusted),
    ensures
        balanced(moved(s, o, now).0, booked(l, o, moved(s, o, now).1)),
{
    let m = moved(s, o, now);
    match o {
        Occasion::Prestart => prestart_accounts_for_every_ticket(s),
        Occasion::Submit { payload, timeout, ticket } => submission_accounts_for_every_ticket(
            s,
            payload,
            timeout,
            ticket,
            now,
        ),
        Occasion::Spawned(result) => spawn_report_accounts_for_every_ticket(s, result, now),
        Occasion::Dispatched(refused) => dispatch_report_accounts_for_every_ticket(s, refused, now),
        Occasion::Worker(event) => worker_report_accounts_for_every_ticket(s, event, now),
    }
    assert(traced(m) =~= held(s).add(brought(o)).add(handed_back(o)));
    lemma_handed_is_answered_or_outsourced(m.1.notices);
    let after = booked(l, o, m.1);
    assert forall|t: T| #[trigger]
        after.submitted.count(t) == after.answered.add(after.entrusted).add(held(m.0)).count(t) by {
        assert(traced(m).count(t) == held(s).add(brought(o)).add(handed_back(o)).count(t));
        assert(handed_back(o).count(t) <= l.entrusted.count(t));
        assert(l.submitted.count(t) == l.answered.add(l.entrusted).add(held(s)).count(t));
    }
    assert(after.submitted =~= after.answered.add(after.entrusted).add(held(m.0)));
}

/// Tasks in flight end with `Closed` when the pool is closed: every worker is stopped, a report
/// that still comes changes nothing and answers nobody, and a caller without an answer is told
/// that the pool is closed.
pub proof fn tasks_in_flight_end_with_the_pool<T>(
    s: PoolView<T>,
    ids: Seq<u64>,
    report: Report<T>,
    now: TimeSpan,
    after: PoolView<T>,
    step: StepView<T>,
)
    requires
        lists(ids, s.workers),
        advances(closed(s), report, now, after, step),
    ensures
        forall|id: u64| #[trigger]
            s.workers.contains_key(id) ==> stops::<T>(ids).contains(
                NoticeView::Stop { worker_id: id },
            ),
        after == closed(s),
        step == quiet::<T>(),
        told(None) == Err::<JsonView, ErrorView>(ErrorView::Closed),
{
    assert forall|id: u64| #[trigger] s.workers.contains_key(id) implies stops::<T>(ids).contains(
        NoticeView::Stop { worker_id: id },
    ) by {
        assert(ids.contains(id));
        let k = choose|k: int| 0 <= k < ids.len() && ids[k] == id;
        assert(stops::<T>(ids)[k] == (NoticeView::<T>::Stop { worker_id: id }));
    }
}

/// Whether the times that are kept of all workers are in order, and none lies after `moment`.
pub open spec fn timely<T>(s: PoolView<T>, moment: TimeSpan) -> bool {
    forall|id: u64| #[trigger]
        s.workers.contains_key(id) ==> s.workers[id].started_at.nanos
            <= s.workers[id].state_since.nanos <= moment.nanos
}

proof fn lemma_timely_dispatch<T>(
    s: PoolView<T>,
    worker_id: u64,
    job: Job<T>,
    purpose: DispatchFor,
    next: Next,
    now: TimeSpan,
)
    requires
        timely(s, now),
        s.workers.contains_key(worker_id),
    ensures
        timely(ask_dispatch(s, worker_id, job, purpose, next, now).0, now),
{
    assert(s.workers[worker_id].started_at.nanos <= now.nanos);
}

proof fn lemma_timely_settle<T>(
    s: PoolView<T>,
    job: Job<T>,
    chosen: Placement,
    next: Next,
    now: TimeSpan,
)
    requires
        timely(s, now),
        chosen == placement(s) || chosen == placement_beyond_core(s),
    ensures
        timely(settle(s, job, chosen, next, now).0, now),
{
    match chosen {
        Placement::Reuse { worker_id } => {
            assert(is_lowest_idle(s.workers, worker_id));
            lemma_timely_dispatch(s, worker_id, job, DispatchFor::Reused, next, now);
        },
        _ => {},
    }
}

proof fn lemma_timely_feed<T>(
    s: PoolView<T>,
    worker_id: u64,
    purpose: DispatchFor,
    next: Next,
    now: TimeSpan,
)
    requires
        timely(s, now),
        s.workers.contains_key(worker_id),
    ensures
        timely(feed(s, worker_id, purpose, next, now).0, now),
{
    if s.queue.len() > 0 {
        lemma_timely_dispatch(
            PoolView { queue: s.queue.drop_first(), ..s },
            worker_id,
            s.queue[0],
            purpose,
            next,
            now,
        );
    }
}

proof fn lemma_timely_drained<T>(s: PoolView<T>, now: TimeSpan)
    requires
        timely(s, now),
    ensures
        timely(drained(s, now).0, now),
{
    if s.queue.len() > 0 {
        if let Some(worker_id) = lowest_idle(s.workers) {
            assert(is_lowest_idle(s.workers, worker_id));
            lemma_timely_dispatch(
                PoolView { queue: s.queue.drop_first(), ..s },
                worker_id,
                s.queue[0],
                DispatchFor::QueuedToIdle,
                Next::Restore,
                now,
            );
        }
    }
}

/// As long as time does not run backwards, whatever is asked of a pool or reported to it keeps
/// the times of its workers in order; so does retirement.
pub proof fn times_stay_in_order<T>(
    s: PoolView<T>,
    before: TimeSpan,
    o: Occasion<T>,
    gone: Seq<u64>,
    now: TimeSpan,
)
    requires
        timely(s, before),
        before.nanos <= now.nanos,
    ensures
        timely(moved(s, o, now).0, now),
        timely(without(s, gone), now),
{
    assert(timely(s, now));
    match o {
        Occasion::Prestart => {},
        Occasion::Submit { payload, timeout, ticket } => {
            let job = Job { id: s.next_job_id, payload, timeout, ticket };
            let numbered = PoolView { next_job_id: following(s.next_job_id), ..s };
            lemma_timely_settle(numbered, job, placement(numbered), Next::Rest, now);
        },
        Occasion::Spawned(result) => {
            if let Stage::Spawning { worker_id, purpose, next } = s.stage {
                if let Ok(process_id) = result {
                    let g = grown(s, worker_id, process_id, now);
                    assert(timely(g, now));
                    match purpose {
                        SpawnFor::Task { job } => lemma_timely_dispatch(
                            g,
                            worker_id,
                            job,
                            DispatchFor::Started,
                            next,
                            now,
                        ),
                        SpawnFor::Queued { job } => lemma_timely_dispatch(
                            g,
                            worker_id,
                            job,
                            DispatchFor::QueuedToNew,
                            next,
                            now,
                        ),
                        SpawnFor::Prestart => lemma_timely_feed(
                            g,
                            worker_id,
                            DispatchFor::Prestarted,
                            next,
                            now,
                        ),
                        SpawnFor::Restore => lemma_timely_feed(
                            g,
                            worker_id,
                            DispatchFor::Restored,
                            next,
                            now,
                        ),
                    }
                }
            }
        },
        Occasion::Dispatched(refused) => {
            if let Stage::Dispatching { worker_id, purpose, next } = s.stage {
                if let Some(job) = refused {
                    let shrunk = PoolView { workers: s.workers.remove(worker_id), ..s };
                    assert(timely(shrunk, now));
                    lemma_timely_settle(shrunk, job, placement_beyond_core(shrunk), next, now);
                    lemma_timely_settle(shrunk, job, placement(shrunk), next, now);
                }
            }
        },
        Occasion::Worker(event) => match event {
            WorkerEvent::Finished { worker_id, ticket, outcome, reusable } => {
                let counted = recorded(s, outcome);
                if !reusable {
                    lemma_timely_drained(
                        PoolView { workers: s.workers.remove(worker_id), ..counted },
                        now,
                    );
                } else if s.workers.contains_key(worker_id) {
                    lemma_timely_drained(
                        PoolView {
                            workers: s.workers.insert(
                                worker_id,
                                released(s.workers[worker_id], now),
                            ),
                            ..counted
                        },
                        now,
                    );
                } else {
                    lemma_timely_drained(counted, now);
                }
            },
            WorkerEvent::OneShotFinished { ticket, outcome } => {},
            WorkerEvent::Stopped { worker_id } => lemma_timely_drained(
                PoolView { workers: s.workers.remove(worker_id), ..s },
                now,
            ),
        },
    }
}

/// What the statistics tell about a worker fits together: it has been in its state for no
/// longer than it has been up, it has a task exactly when it is busy, and the duration of a last
/// task is told exactly when it has handled one.
pub proof fn statistics_fit_together<T>(
    stats: PoolStats,
    s: PoolView<T>,
    moment: TimeSpan,
    now: TimeSpan,
)
    requires
        sound(s),
        timely(s, moment),
        describes(stats, s, now),
    ensures
        forall|i: int| #![trigger stats.workers@[i]]
            0 <= i < stats.workers@.len() ==> {
                let row = stats.workers@[i];
                &&& row.state_for_ms <= row.uptime_ms
                &&& row.current_task_id is Some <==> row.state == WorkerState::Busy
                &&& row.last_task_duration_ms is Some <==> row.handled_task_count > 0
            },
{
    let rows = stats.workers@;
    let ids = Seq::new(rows.len(), |i: int| rows[i].worker_id);
    assert forall|i: int| #![trigger stats.workers@[i]] 0 <= i < rows.len() implies {
        let row = rows[i];
        &&& row.state_for_ms <= row.uptime_ms
        &&& row.current_task_id is Some <==> row.state == WorkerState::Busy
        &&& row.last_task_duration_ms is Some <==> row.handled_task_count > 0
    } by {
        assert(ids[i] == rows[i].worker_id);
        assert(ids.contains(rows[i].worker_id));
        let slot = s.workers[rows[i].worker_id];
        assert(s.workers.contains_key(rows[i].worker_id));
        assert(slot_sound(slot));
        assert(now.elapsed_since(slot.state_since).nanos
            <= now.elapsed_since(slot.started_at).nanos);
    }
}

/// The end of a move whose calls go well, as far as `ends` goes, with all the notices on the
/// way.
pub open spec fn smoothed<T>(m: Move<T>, ends: Seq<(Option<u32>, TimeSpan)>) -> Move<T>
    decreases ends.len(),
{
    if ends.len() == 0 || m.1.call is None {
        m
    } else {
        smoothed(
            announced(m.1.notices, obliged(m, ends[0].0, ends[0].1)),
            ends.drop_first(),
        )
    }
}

/// A call as it comes to a pool, and how the starting of a worker for it ends.
pub struct Arrival<T> {
    pub payload: Json,
    pub timeout: TimeSpan,
    pub ticket: T,
    /// The moment at which it comes.
    pub at: TimeSpan,
    /// The process of a worker that is started for it, and the moment at which it is up.
    pub started: (Option<u32>, TimeSpan),
    /// The moment at which the worker has taken it.
    pub taken: TimeSpan,
}

/// A new pool after all of `calls` have come, none of which ends, and what it has told the host:
/// every worker that is asked for comes up, and every task that is handed over is taken.
pub open spec fn crowded<T>(limits: Limits, calls: Seq<Arrival<T>>) -> (
    PoolView<T>,
    Seq<NoticeView<T>>,
)
    decreases calls.len(),
{
    if calls.len() == 0 {
        (empty_pool(limits), Seq::empty())
    } else {
        let (s, told) = crowded(limits, calls.drop_last());
        let call = calls.last();
        let m = smoothed(
            submitted(s, call.payload, call.timeout, call.ticket, call.at),
            seq![call.started, (None, call.taken)],
        );
        (m.0, told + m.1.notices)
    }
}

/// How many of `count` waiting calls a pool takes.
pub open spec fn admitted(limits: Limits, count: nat) -> nat {
    smaller(count as int, limits.maximum + limits.capacity) as nat
}

/// The refusals of all calls after the first `taken`.
pub open spec fn surplus_refusals<T>(calls: Seq<Arrival<T>>, taken: nat) -> Seq<NoticeView<T>> {
    Seq::new(
        (calls.len() - taken) as nat,
        |i: int| refusal(calls[taken + i].ticket, ErrorView::Rejected),
    )
}

/// A pool takes as many waiting calls as it may have workers and queued tasks, and rejects all
/// others, each of them once; every worker is busy then. Under the policy `Abort` exactly the
/// calls that came too late are answered, in their order.
pub proof fn a_saturated_pool_rejects<T>(limits: Limits, calls: Seq<Arrival<T>>)
    requires
        0 < limits.maximum,
        limits.core <= limits.maximum,
        calls.len() < u64::MAX,
    ensures
        ({
            let (s, told) = crowded(limits, calls);
            let taken = admitted(limits, calls.len());
            &&& s.limits == limits
            &&& s.stage is Ready
            &&& s.open
            &&& s.workers.dom().finite()
            &&& s.workers.len() + s.queue.len() == taken
            &&& s.workers.len() <= limits.maximum
            &&& s.queue.len() <= limits.capacity
            &&& s.rejected == calls.len() - taken
            &&& s.caller_runs <= s.rejected
            &&& s.next_worker_id == s.workers.len() + 1
            &&& forall|id: u64| #[trigger]
                s.workers.contains_key(id) ==> id < s.next_worker_id && !is_idle(s.workers[id])
            &&& limits.policy is Abort ==> told == surplus_refusals(calls, taken)
        }),
    decreases calls.len(),
{
    if calls.len() == 0 {
        assert(surplus_refusals(calls, 0) =~= Seq::<NoticeView<T>>::empty());
    } else {
        let head = calls.drop_last();
        a_saturated_pool_rejects(limits, head);
        let (s, told) = crowded(limits, head);
        let taken = admitted(limits, head.len());
        let call = calls.last();
        let job = Job {
            id: s.next_job_id,
            payload: call.payload,
            timeout: call.timeout,
            ticket: call.ticket,
        };
        let numbered = PoolView { next_job_id: following(s.next_job_id), ..s };
        let m = submitted(s, call.payload, call.timeout, call.ticket, call.at);
        let ends = seq![call.started, (None, call.taken)];
        assert(lowest_idle(s.workers) is None) by {
            if lowest_idle(s.workers) is Some {
                assert(is_lowest_idle(s.workers, lowest_idle(s.workers)->0));
            }
        }
        let end = smoothed(m, ends);
        match placement(numbered) {
            Placement::Start => {
                let id = s.next_worker_id;
                assert(!s.workers.contains_key(id));
                let up = announced(m.1.notices, obliged(m, call.started.0, call.started.1));
                let done = announced(up.1.notices, obliged(up, None, call.taken));
                let g = grown(m.0, id, call.started.0, call.started.1);
                let tail = ends.drop_first();
                assert(up.0.workers == g.workers.insert(id, up.0.workers[id]));
                assert(up.0.workers.dom() =~= s.workers.dom().insert(id));
                assert(up.1.call is Some);
                assert(end == smoothed(up, tail));
                assert(tail[0] == (None::<u32>, call.taken));
                assert(smoothed(up, tail) == smoothed(done, tail.drop_first()));
                assert(end == done);
                assert(end.1.notices =~= Seq::<NoticeView<T>>::empty());
                assert(told + end.1.notices =~= told);
            },
            Placement::Reuse { worker_id } => {},
            Placement::Enqueue => {
                assert(told + end.1.notices =~= told);
            },
            Placement::Reject => {
                assert(end == m);
            },
        }
        let all = admitted(limits, calls.len());
        if limits.policy is Abort {
            assert(told + end.1.notices =~= surplus_refusals(calls, all)) by {
                assert(told == surplus_refusals(head, taken));
            }
        }
    }
}

} // verus!
