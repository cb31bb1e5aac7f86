use std::collections::BTreeMap;

use process_pool::echo::{handle, EchoPlan};
use process_pool::json::{Fields, Json};
use process_pool::pool::{final_outcome, idle_tick_duration, Report};
use process_pool::protocol::{Exchange, WorkerRequest};
use process_pool::reading::read_json;
use process_pool::runner::{Action, Input, WorkerLoop};
use process_pool::schedule::{Call, Job, Notice, Step, WorkerEvent};
use process_pool::table::TextMap;
use process_pool::{
    PoolConfig, PoolError, ProcessFactoryConfig, ProcessPool, RejectedExecutionHandler, TimeSpan,
    TimeUnit, WorkQueueConfig, WorkerState,
};

type Outcome = Result<Json, PoolError>;

fn config_with(
    core: usize,
    maximum: usize,
    queue_capacity: usize,
    keep_alive_ms: u64,
    policy: RejectedExecutionHandler,
) -> PoolConfig {
    PoolConfig::new(
        core,
        maximum,
        keep_alive_ms,
        TimeUnit::Milliseconds,
        WorkQueueConfig::Bounded { capacity: queue_capacity },
        ProcessFactoryConfig {
            program: "echo-worker".into(),
            args: vec![],
            env: TextMap::new(),
            current_dir: None,
        },
        policy,
    )
    .unwrap()
}

fn config(core: usize, maximum: usize, queue_capacity: usize, keep_alive_ms: u64) -> PoolConfig {
    config_with(core, maximum, queue_capacity, keep_alive_ms, RejectedExecutionHandler::Abort)
}

struct Attendant {
    machine: WorkerLoop<u32>,
    pid: u32,
    line: Option<String>,
    timeout: TimeSpan,
}

/// A host that runs echo workers without processes: a worker ends its task when told to.
struct Host {
    pool: ProcessPool<u32>,
    now: u64,
    next_pid: u32,
    next_ticket: u32,
    workers: BTreeMap<u64, Attendant>,
    replies: BTreeMap<u32, Outcome>,
    one_shots: Vec<Job<u32>>,
    broken: Vec<u64>,
    unstartable: bool,
    prestarted: Option<Result<usize, PoolError>>,
    stopped: Vec<u64>,
}

impl Host {
    fn new(config: PoolConfig) -> Host {
        Host {
            pool: ProcessPool::new(config).unwrap(),
            now: 1_000,
            next_pid: 100,
            next_ticket: 0,
            workers: BTreeMap::new(),
            replies: BTreeMap::new(),
            one_shots: vec![],
            broken: vec![],
            unstartable: false,
            prestarted: None,
            stopped: vec![],
        }
    }

    fn moment(&self) -> TimeSpan {
        TimeSpan::from_millis(self.now)
    }

    fn note(&mut self, notices: Vec<Notice<u32>>) {
        for notice in notices {
            match notice {
                Notice::Reply { ticket, outcome } => {
                    assert!(self.replies.insert(ticket, outcome).is_none(), "answered twice");
                }
                Notice::Stop { worker_id } => {
                    self.workers.remove(&worker_id);
                    self.stopped.push(worker_id);
                }
                Notice::RunOneShot { job } => self.one_shots.push(job),
            }
        }
    }

    fn perform(&mut self, step: Step<u32>) {
        let mut step = step;
        loop {
            self.note(step.notices);
            if let Some(result) = step.prestarted {
                self.prestarted = Some(result);
            }
            let report = match step.call {
                None => return,
                Some(Call::Spawn { worker_id }) => {
                    if self.unstartable {
                        Report::Spawned(Err("no such file".into()))
                    } else {
                        self.next_pid += 1;
                        self.workers.insert(
                            worker_id,
                            Attendant {
                                machine: WorkerLoop::new(worker_id),
                                pid: self.next_pid,
                                line: None,
                                timeout: TimeSpan::from_millis(0),
                            },
                        );
                        Report::Spawned(Ok(Some(self.next_pid)))
                    }
                }
                Some(Call::Dispatch { worker_id, job }) => {
                    if self.broken.contains(&worker_id) {
                        Report::Dispatched(Some(job))
                    } else {
                        let worker = self.workers.get_mut(&worker_id).unwrap();
                        match worker.machine.worker_loop(Input::Job(job)) {
                            Action::Exchange { line, timeout } => {
                                worker.line = Some(line);
                                worker.timeout = timeout;
                            }
                            _ => panic!("worker was not waiting"),
                        }
                        Report::Dispatched(None)
                    }
                }
            };
            let now = self.moment();
            step = self.pool.report(report, now);
        }
    }

    fn submit(&mut self, payload: Json, timeout_ms: u64) -> u32 {
        assert!(self.pool.is_ready() && self.pool.has_room());
        self.next_ticket += 1;
        let ticket = self.next_ticket;
        let now = self.moment();
        let timeout = TimeSpan::from_millis(timeout_ms);
        match self.pool.execute(payload, timeout, ticket, now) {
            Ok(step) => self.perform(step),
            Err(e) => {
                self.replies.insert(ticket, Err(e));
            }
        }
        ticket
    }

    /// Lets the worker end its task.
    fn complete(&mut self, worker_id: u64) {
        let worker = self.workers.get_mut(&worker_id).unwrap();
        let line = worker.line.take().unwrap();
        let parsed = read_json(&line).unwrap();
        let request = WorkerRequest {
            id: parsed.get("id").unwrap().as_u64().unwrap(),
            payload: parsed.get("payload").unwrap().clone(),
        };
        let exchange = match handle(&request, worker.pid) {
            EchoPlan::Respond(response) => Some(Exchange::Answered(response)),
            EchoPlan::Sleep { millis, response } => {
                if TimeSpan::from_millis(millis).nanos > worker.timeout.nanos {
                    None
                } else {
                    Some(Exchange::Answered(response))
                }
            }
            _ => Some(Exchange::Ended),
        };
        match worker.machine.worker_loop(Input::Exchanged(exchange)) {
            Action::ReportFinished { worker_id, ticket, outcome, reusable } => {
                worker.machine.worker_loop(Input::Delivered(true));
                let event = WorkerEvent::Finished { worker_id, ticket, outcome, reusable };
                let now = self.moment();
                let step = self.pool.report(Report::Worker(event), now);
                self.perform(step);
            }
            _ => panic!("expected a report"),
        }
    }

    fn busy(&self) -> Vec<u64> {
        self.workers.iter().filter(|(_, w)| w.line.is_some()).map(|(id, _)| *id).collect()
    }

    fn run(&mut self, payload: Json, timeout_ms: u64) -> Outcome {
        let ticket = self.submit(payload, timeout_ms);
        for worker_id in self.busy() {
            self.complete(worker_id);
        }
        self.replies.remove(&ticket).unwrap()
    }

    fn worker_count(&self) -> usize {
        let stats = self.pool.stats(self.moment()).unwrap();
        assert_eq!(stats.worker_count, stats.idle_worker_count + stats.busy_worker_count);
        stats.worker_count
    }

    fn prestart(&mut self) -> Result<usize, PoolError> {
        let step = self.pool.prestart_core_workers().unwrap();
        self.perform(step);
        self.prestarted.take().unwrap()
    }

    fn tick(&mut self) {
        let now = self.moment();
        let step = self.pool.report(Report::Tick, now);
        self.perform(step);
    }
}

fn op(name: &str) -> Json {
    Fields::new().with("op", Json::text(name)).object()
}

fn sleep(millis: u64) -> Json {
    Fields::new().with("op", Json::text("sleep")).with("millis", Json::unsigned(millis)).object()
}

fn pid(result: &Json) -> u64 {
    result.get("pid").unwrap().as_u64().unwrap()
}

#[test]
fn reuses_the_same_process_for_sequential_tasks() {
    let mut host = Host::new(config(1, 1, 8, 1_000));
    let echo = |n| Fields::new().with("op", Json::text("echo")).with("value", Json::unsigned(n)).object();
    let first = host.run(echo(1), 1_000).unwrap();
    let second = host.run(echo(2), 1_000).unwrap();
    assert_eq!(pid(&first), pid(&second));
    assert_eq!(second.get("value"), Some(&Json::unsigned(2)));
}

#[test]
fn grows_up_to_the_maximum_when_the_queue_is_full() {
    let mut host = Host::new(config(1, 2, 0, 1_000));
    let first = host.submit(sleep(100), 1_000);
    let second = host.submit(sleep(100), 1_000);
    for id in host.busy() {
        host.complete(id);
    }
    let first = host.replies.remove(&first).unwrap().unwrap();
    let second = host.replies.remove(&second).unwrap().unwrap();
    assert_ne!(pid(&first), pid(&second));
    assert_eq!(host.worker_count(), 2);
}

#[test]
fn abort_policy_rejects_when_saturated() {
    let mut host = Host::new(config(1, 1, 0, 1_000));
    let first = host.submit(sleep(150), 1_000);
    let rejected = host.submit(op("echo"), 1_000);
    assert_eq!(host.replies.remove(&rejected).unwrap().unwrap_err(), PoolError::Rejected);
    let id = host.busy()[0];
    host.complete(id);
    assert!(host.replies.remove(&first).unwrap().is_ok());
    assert_eq!(host.pool.stats(host.moment()).unwrap().rejected_task_count, 1);
}

#[test]
fn timeout_kills_and_replaces_a_core_worker() {
    let mut host = Host::new(config(1, 1, 1, 1_000));
    let before = host.run(op("echo"), 1_000).unwrap();
    let timeout = host.run(sleep(200), 30).unwrap_err();
    assert_eq!(timeout, PoolError::TaskTimeout { timeout_ms: 30 });
    assert_eq!(host.stopped, vec![1]);
    assert_eq!(host.worker_count(), 1);
    let after = host.run(op("echo"), 1_000).unwrap();
    assert_ne!(pid(&before), pid(&after));
}

#[test]
fn worker_application_errors_do_not_discard_a_healthy_process() {
    let mut host = Host::new(config(1, 1, 1, 1_000));
    let before = host.run(op("echo"), 1_000).unwrap();
    let error = host.run(op("fail"), 1_000).unwrap_err();
    assert!(matches!(error, PoolError::WorkerReturned { .. }));
    let after = host.run(op("echo"), 1_000).unwrap();
    assert_eq!(pid(&before), pid(&after));
}

#[test]
fn retires_non_core_workers_after_keep_alive() {
    let mut host = Host::new(config(1, 2, 0, 60));
    host.submit(sleep(50), 1_000);
    host.submit(sleep(50), 1_000);
    for id in host.busy() {
        host.complete(id);
    }
    assert_eq!(host.worker_count(), 2);
    host.now += 59;
    host.tick();
    assert_eq!(host.worker_count(), 2);
    host.now += 121;
    host.tick();
    assert_eq!(host.worker_count(), 1);
    host.now += 1_000;
    host.tick();
    assert_eq!(host.worker_count(), 1);
}

#[test]
fn notices_and_replaces_a_core_worker_that_exits_while_idle() {
    let mut host = Host::new(config(1, 1, 1, 1_000));
    let before = host.run(op("echo"), 1_000).unwrap();
    let event = WorkerEvent::Stopped { worker_id: 1 };
    let now = host.moment();
    let step = host.pool.report(Report::Worker(event), now);
    host.perform(step);
    assert_eq!(host.worker_count(), 1);
    let after = host.run(op("echo"), 1_000).unwrap();
    assert_ne!(pid(&before), pid(&after));
}

#[test]
fn a_new_pool_has_no_workers() {
    let host = Host::new(config(3, 5, 7, 1_234));
    let stats = host.pool.stats(host.moment()).unwrap();
    assert_eq!(stats.worker_count, 0);
    assert_eq!(stats.core_pool_size, 3);
    assert_eq!(stats.maximum_pool_size, 5);
    assert_eq!(stats.work_queue_capacity, 7);
    assert_eq!(stats.keep_alive_ms, 1_234);
    assert!(stats.workers.is_empty());
    assert_eq!(host.pool.factory().program, "echo-worker");
}

#[test]
fn below_the_core_size_idle_workers_are_not_reused() {
    let mut host = Host::new(config(2, 3, 1, 1_000));
    let first = host.run(op("echo"), 1_000).unwrap();
    let second = host.run(op("echo"), 1_000).unwrap();
    let third = host.run(op("echo"), 1_000).unwrap();
    assert_ne!(pid(&first), pid(&second));
    assert_eq!(pid(&third), pid(&first));
    assert_eq!(host.worker_count(), 2);
}

#[test]
fn a_pool_without_core_starts_one_worker_and_then_queues() {
    let mut host = Host::new(config(0, 2, 1, 1_000));
    host.submit(sleep(1), 1_000);
    assert_eq!(host.worker_count(), 1);
    host.submit(sleep(1), 1_000);
    assert_eq!(host.worker_count(), 1);
    assert_eq!(host.pool.stats(host.moment()).unwrap().queued_task_count, 1);
    host.submit(sleep(1), 1_000);
    assert_eq!(host.worker_count(), 2);
}

#[test]
fn queued_tasks_are_served_in_order() {
    let mut host = Host::new(config(1, 1, 3, 1_000));
    let tickets: Vec<u32> = (0..4).map(|_| host.submit(sleep(1), 1_000)).collect();
    for ticket in tickets {
        assert!(!host.replies.contains_key(&ticket));
        host.complete(1);
        assert!(host.replies.contains_key(&ticket));
    }
    assert_eq!(host.replies.len(), 4);
    assert_eq!(host.pool.stats(host.moment()).unwrap().completed_task_count, 4);
}

fn saturated(policy: RejectedExecutionHandler, capacity: usize) -> (Host, u32, Option<u32>, u32) {
    let mut host = Host::new(config_with(1, 1, capacity, 1_000, policy));
    let running = host.submit(sleep(1), 1_000);
    let waiting = if capacity > 0 { Some(host.submit(sleep(1), 1_000)) } else { None };
    let late = host.submit(sleep(1), 1_000);
    (host, running, waiting, late)
}

#[test]
fn discard_drops_the_new_task() {
    let (host, _, waiting, late) = saturated(RejectedExecutionHandler::Discard, 1);
    assert_eq!(host.replies[&late], Err(PoolError::Discarded));
    assert!(!host.replies.contains_key(&waiting.unwrap()));
}

#[test]
fn discard_oldest_makes_room_for_the_new_task() {
    let (mut host, running, waiting, late) = saturated(RejectedExecutionHandler::DiscardOldest, 1);
    assert_eq!(host.replies[&waiting.unwrap()], Err(PoolError::Discarded));
    assert!(!host.replies.contains_key(&late));
    host.complete(1);
    host.complete(1);
    assert!(host.replies[&running].is_ok());
    assert!(host.replies[&late].is_ok());
    let (host, _, _, late) = saturated(RejectedExecutionHandler::DiscardOldest, 0);
    assert_eq!(host.replies[&late], Err(PoolError::Rejected));
}

#[test]
fn caller_runs_uses_a_process_of_its_own() {
    let (mut host, _, _, late) = saturated(RejectedExecutionHandler::CallerRuns, 0);
    assert_eq!(host.one_shots.len(), 1);
    assert_eq!(host.worker_count(), 1);
    let job = host.one_shots.remove(0);
    assert_eq!(job.ticket, late);
    let event = WorkerEvent::OneShotFinished { ticket: job.ticket, outcome: Ok(Json::Null) };
    let now = host.moment();
    let step = host.pool.report(Report::Worker(event), now);
    host.perform(step);
    assert_eq!(host.replies[&late], Ok(Json::Null));
    let stats = host.pool.stats(host.moment()).unwrap();
    assert_eq!(stats.caller_runs_task_count, 1);
    assert_eq!(stats.rejected_task_count, 1);
    assert_eq!(stats.completed_task_count, 1);
}

#[test]
fn prestart_is_idempotent() {
    let mut host = Host::new(config(3, 5, 7, 1_000));
    host.run(op("echo"), 1_000).unwrap();
    assert_eq!(host.prestart(), Ok(2));
    assert_eq!(host.prestart(), Ok(0));
    assert_eq!(host.worker_count(), 3);
}

#[test]
fn a_failed_prestart_keeps_what_it_started() {
    let mut host = Host::new(config(2, 2, 0, 1_000));
    host.run(op("echo"), 1_000).unwrap();
    host.unstartable = true;
    assert_eq!(host.prestart(), Err(PoolError::SpawnFailed("no such file".into())));
    assert_eq!(host.worker_count(), 1);
}

#[test]
fn a_task_whose_worker_cannot_start_is_answered() {
    let mut host = Host::new(config(1, 1, 1, 1_000));
    host.unstartable = true;
    let ticket = host.submit(op("echo"), 1_000);
    assert_eq!(host.replies[&ticket], Err(PoolError::SpawnFailed("no such file".into())));
    assert_eq!(host.worker_count(), 0);
}

#[test]
fn the_queue_is_given_up_when_no_worker_is_left() {
    let mut host = Host::new(config(1, 1, 2, 1_000));
    let running = host.submit(sleep(200), 30);
    let one = host.submit(sleep(1), 1_000);
    let two = host.submit(sleep(1), 1_000);
    host.unstartable = true;
    host.complete(1);
    assert_eq!(host.replies[&running], Err(PoolError::TaskTimeout { timeout_ms: 30 }));
    let lost = Err(PoolError::SpawnFailed("no such file".into()));
    assert_eq!(host.replies[&one], lost);
    assert_eq!(host.replies[&two], lost);
    assert_eq!(host.worker_count(), 0);
}

#[test]
fn only_core_workers_that_were_up_are_replaced() {
    let mut host = Host::new(config(3, 3, 1, 1_000));
    host.run(op("echo"), 1_000).unwrap();
    host.run(sleep(200), 30).unwrap_err();
    assert_eq!(host.worker_count(), 2);
}

#[test]
fn a_task_that_comes_back_goes_to_another_worker() {
    let mut host = Host::new(config(1, 2, 1, 1_000));
    host.run(op("echo"), 1_000).unwrap();
    host.broken.push(1);
    let ticket = host.submit(op("echo"), 1_000);
    assert_eq!(host.stopped, vec![1]);
    let id = host.busy()[0];
    assert_eq!(id, 2);
    host.complete(id);
    assert!(host.replies[&ticket].is_ok());
}

#[test]
fn a_new_worker_that_takes_no_task_fails_it() {
    let mut host = Host::new(config(1, 1, 1, 1_000));
    host.broken.push(1);
    let ticket = host.submit(op("echo"), 1_000);
    assert_eq!(
        host.replies[&ticket],
        Err(PoolError::SpawnFailed("new worker stopped before accepting a task".into()))
    );
}

#[test]
fn a_replacement_that_takes_no_task_fails_it() {
    let mut host = Host::new(config(1, 1, 1, 1_000));
    host.submit(sleep(200), 30);
    let waiting = host.submit(sleep(1), 1_000);
    host.broken.push(2);
    host.complete(1);
    assert_eq!(
        host.replies[&waiting],
        Err(PoolError::SpawnFailed("replacement worker stopped before accepting a task".into()))
    );
    assert_eq!(host.worker_count(), 1);
}

#[test]
fn shutdown_answers_the_queue_and_closes_the_pool() {
    let mut host = Host::new(config(1, 1, 2, 1_000));
    host.submit(sleep(1), 1_000);
    let one = host.submit(sleep(1), 1_000);
    let two = host.submit(sleep(1), 1_000);
    let notices = host.pool.shutdown().unwrap();
    host.note(notices);
    assert_eq!(host.stopped, vec![1]);
    assert_eq!(host.replies[&one], Err(PoolError::Closed));
    assert_eq!(host.replies[&two], Err(PoolError::Closed));
    assert_eq!(host.pool.stats(host.moment()).unwrap_err(), PoolError::Closed);
    let late = host.submit(op("echo"), 1_000);
    assert_eq!(host.replies[&late], Err(PoolError::Closed));
    assert!(matches!(host.pool.prestart_core_workers(), Err(PoolError::Closed)));
    assert!(matches!(host.pool.shutdown(), Err(PoolError::Closed)));
    host.tick();
}

#[test]
fn tasks_in_flight_end_with_the_pool() {
    let mut host = Host::new(config(1, 1, 0, 1_000));
    let running = host.submit(sleep(1), 1_000);
    let notices = host.pool.shutdown().unwrap();
    assert!(matches!(notices.as_slice(), [Notice::Stop { worker_id: 1 }]));
    let event = WorkerEvent::Finished {
        worker_id: 1,
        ticket: running,
        outcome: Ok(Json::Null),
        reusable: true,
    };
    let step = host.pool.report(Report::Worker(event), host.moment());
    host.perform(step);
    let answer = host.replies.remove(&running);
    assert_eq!(final_outcome(answer), Err(PoolError::Closed));
    assert_eq!(final_outcome(Some(Ok(Json::unsigned(7)))), Ok(Json::unsigned(7)));
    assert_eq!(final_outcome(Some(Err(PoolError::Rejected))), Err(PoolError::Rejected));
}

#[test]
fn a_warm_up_serves_the_queue() {
    let mut host = Host::new(config(2, 2, 2, 1_000));
    let lost = host.submit(sleep(200), 30);
    host.submit(sleep(1), 1_000);
    let refused = host.submit(sleep(1), 1_000);
    let queued = host.submit(sleep(1), 1_000);
    host.unstartable = true;
    host.complete(1);
    assert_eq!(host.replies[&lost], Err(PoolError::TaskTimeout { timeout_ms: 30 }));
    assert_eq!(host.replies[&refused], Err(PoolError::SpawnFailed("no such file".into())));
    assert_eq!(host.worker_count(), 1);
    host.unstartable = false;
    assert_eq!(host.prestart(), Ok(1));
    assert_eq!(host.worker_count(), 2);
    let newest = *host.busy().last().unwrap();
    host.complete(newest);
    assert!(host.replies[&queued].is_ok());
    assert_eq!(host.prestart(), Ok(0));
}

#[test]
fn lost_workers_are_made_up_for() {
    let mut host = Host::new(config(3, 4, 0, 1_000));
    assert_eq!(host.prestart(), Ok(3));
    let rows = |host: &Host| host.pool.stats(host.moment()).unwrap().workers;
    let before = rows(&host);
    host.unstartable = true;
    for worker_id in [1, 2] {
        host.now += 5;
        let event = WorkerEvent::Stopped { worker_id };
        let step = host.pool.report(Report::Worker(event), host.moment());
        host.perform(step);
    }
    assert_eq!(host.worker_count(), 1);
    host.unstartable = false;
    let event = WorkerEvent::Stopped { worker_id: 2 };
    let step = host.pool.report(Report::Worker(event), host.moment());
    host.perform(step);
    let after = rows(&host);
    assert_eq!(after.len(), 3);
    assert_eq!(after[0].worker_id, 3);
    assert_eq!(after[0].process_id, before[2].process_id);
    assert!(after[1].worker_id > 3 && after[2].worker_id > after[1].worker_id);
    assert_ne!(after[1].process_id, after[2].process_id);
}

#[test]
fn a_saturated_pool_rejects() {
    let mut host = Host::new(config(1, 3, 1, 1_000));
    let tickets: Vec<u32> = (0..5).map(|_| host.submit(sleep(1), 1_000)).collect();
    let stats = host.pool.stats(host.moment()).unwrap();
    assert_eq!(stats.busy_worker_count, 3);
    assert_eq!(stats.queued_task_count, 1);
    assert_eq!(stats.rejected_task_count, 1);
    assert_eq!(host.replies.len(), 1);
    assert_eq!(host.replies[&tickets[4]], Err(PoolError::Rejected));
}

#[test]
fn statistics_fit_together() {
    let mut host = Host::new(config(2, 2, 1, 1_000));
    host.run(op("echo"), 1_000).unwrap();
    host.now += 25;
    host.submit(sleep(1), 1_000);
    host.now += 10;
    for row in host.pool.stats(host.moment()).unwrap().workers {
        assert!(row.state_for_ms <= row.uptime_ms);
        assert_eq!(row.last_task_duration_ms.is_some(), row.handled_task_count > 0);
        assert_eq!(row.current_task_id.is_some(), row.state == WorkerState::Busy);
    }
}

#[test]
fn stats_tell_about_every_worker() {
    let mut host = Host::new(config(1, 3, 0, 1_000));
    host.submit(sleep(1), 1_000);
    host.submit(sleep(1), 1_000);
    host.now += 25;
    host.complete(2);
    host.now += 5;
    let stats = host.pool.stats(host.moment()).unwrap();
    assert_eq!(stats.idle_worker_count, 1);
    assert_eq!(stats.busy_worker_count, 1);
    let (one, two) = (stats.workers[0], stats.workers[1]);
    assert_eq!((one.worker_id, two.worker_id), (1, 2));
    assert_eq!(one.state, WorkerState::Busy);
    assert_eq!(one.current_task_id, Some(1));
    assert_eq!(one.state_for_ms, 30);
    assert_eq!(one.last_task_duration_ms, None);
    assert_eq!(two.state, WorkerState::Idle);
    assert_eq!(two.current_task_id, None);
    assert_eq!(two.state_for_ms, 5);
    assert_eq!(two.uptime_ms, 30);
    assert_eq!(two.handled_task_count, 1);
    assert_eq!(two.last_task_duration_ms, Some(25));
    assert_eq!(two.process_id, Some(102));
}

#[test]
fn ticks_follow_the_keep_alive_time() {
    let tick = |ms| idle_tick_duration(TimeSpan::from_millis(ms));
    assert_eq!(tick(0), TimeSpan::from_millis(50));
    assert_eq!(tick(60), TimeSpan::from_millis(50));
    assert_eq!(tick(100), TimeSpan::from_millis(50));
    assert_eq!(tick(700), TimeSpan::from_millis(350));
    assert_eq!(tick(2_000), TimeSpan::from_secs(1));
    assert_eq!(tick(90_000), TimeSpan::from_secs(1));
    assert_eq!(Host::new(config(1, 2, 0, 700)).pool.tick(), TimeSpan::from_millis(350));
}
