use process_pool::echo::{handle, invalid_input, sum_response, EchoPlan};
use process_pool::error::PoolError;
use process_pool::json::{array, Fields, Json};
use process_pool::protocol::{
    duration_ms, exchange_one, exchange_with_timeout, worker_response_to_result, Exchange,
    WorkerError, WorkerRequest, WorkerResponse,
};
use process_pool::reading::read_json;
use process_pool::runner::{run_one_shot_worker, Action, Input, OneShot, WorkerLoop};
use process_pool::schedule::Job;
use process_pool::TimeSpan;

fn failure() -> WorkerError {
    WorkerError { code: "E".into(), message: "m".into(), details: Some(Json::Null) }
}

#[test]
fn requests_and_responses_are_single_lines() {
    let request = WorkerRequest {
        id: 1,
        payload: Fields::new()
            .with("op", Json::text("sum"))
            .with("values", array(vec![Json::unsigned(7), Json::unsigned(11)]))
            .object(),
    };
    assert_eq!(request.to_line(), "{\"id\":1,\"payload\":{\"op\":\"sum\",\"values\":[7,11]}}\n");
    assert_eq!(
        WorkerResponse::success(1, Json::text("a\nb")).to_line(),
        "{\"id\":1,\"ok\":true,\"result\":\"a\\nb\"}\n"
    );
    assert_eq!(
        WorkerResponse::failure(2, failure()).to_line(),
        "{\"id\":2,\"ok\":false,\"error\":{\"code\":\"E\",\"message\":\"m\",\"details\":null}}\n"
    );
}

#[test]
fn what_is_read_is_sent_in_one_line() {
    let text = "{\n \"a\": [1.5, -0.0, 1e300,\n -7, 18446744073709551616],\n \"b\\n\": \"x\\ny\"\n}";
    let line = WorkerRequest { id: 3, payload: read_json(text).unwrap() }.to_line();
    assert!(line.ends_with('\n'));
    assert_eq!(line.matches('\n').count(), 1);
    assert_eq!(
        line,
        format!("{{\"id\":3,\"payload\":{}}}\n", serde_json::from_str::<serde_json::Value>(text).unwrap())
    );
}

#[test]
fn responses_are_judged_by_the_protocol() {
    let judge = |ok, result, error| {
        worker_response_to_result(WorkerResponse { id: 1, ok, result, error })
    };
    assert_eq!(judge(true, Some(Json::unsigned(4)), None), Ok(Json::unsigned(4)));
    assert_eq!(judge(true, None, None), Ok(Json::Null));
    assert_eq!(
        judge(false, None, Some(failure())),
        Err(PoolError::WorkerReturned {
            code: "E".into(),
            message: "m".into(),
            details: Some(Json::Null)
        })
    );
    assert_eq!(
        judge(true, None, Some(failure())),
        Err(PoolError::Protocol("successful response must not contain error".into()))
    );
    assert_eq!(
        judge(false, Some(Json::Null), Some(failure())),
        Err(PoolError::Protocol("failed response must not contain result".into()))
    );
    assert_eq!(
        judge(false, None, None),
        Err(PoolError::Protocol("failed response must contain error".into()))
    );
}

#[test]
fn every_end_of_an_exchange_has_its_error() {
    assert_eq!(
        exchange_one(3, Exchange::Unencodable("x".into())).unwrap_err(),
        PoolError::Protocol("cannot encode request: x".into())
    );
    assert_eq!(
        exchange_one(3, Exchange::Broken("x".into())).unwrap_err(),
        PoolError::WorkerIo("x".into())
    );
    assert_eq!(exchange_one(3, Exchange::Ended).unwrap_err(), PoolError::WorkerExited);
    assert_eq!(
        exchange_one(3, Exchange::Unreadable("x".into())).unwrap_err(),
        PoolError::Protocol("invalid worker response: x".into())
    );
    assert_eq!(
        exchange_one(3, Exchange::Answered(WorkerResponse::success(4, Json::Null))).unwrap_err(),
        PoolError::Protocol("response id 4 does not match request id 3".into())
    );
    assert_eq!(
        exchange_one(3, Exchange::Answered(WorkerResponse::success(3, Json::Null))).unwrap(),
        WorkerResponse::success(3, Json::Null)
    );
}

#[test]
fn only_well_behaved_workers_stay() {
    let timeout = TimeSpan::from_millis(30);
    let good = Exchange::Answered(WorkerResponse::success(1, Json::Null));
    assert_eq!(exchange_with_timeout(1, timeout, Some(good)), (Ok(Json::Null), true));
    let bad = Exchange::Answered(WorkerResponse::failure(1, failure()));
    assert!(exchange_with_timeout(1, timeout, Some(bad)).1);
    assert_eq!(
        exchange_with_timeout(1, timeout, None),
        (Err(PoolError::TaskTimeout { timeout_ms: 30 }), false)
    );
    assert!(!exchange_with_timeout(1, timeout, Some(Exchange::Ended)).1);
    let broken = Exchange::Answered(WorkerResponse { id: 1, ok: false, result: None, error: None });
    assert!(!exchange_with_timeout(1, timeout, Some(broken)).1);
}

#[test]
fn milliseconds_are_capped() {
    assert_eq!(duration_ms(TimeSpan { nanos: 1_999_999 }), 1);
    assert_eq!(duration_ms(TimeSpan { nanos: u128::MAX }), u64::MAX);
}

fn job(id: u64) -> Job<u32> {
    Job { id, payload: Json::Null, timeout: TimeSpan::from_millis(30), ticket: 8 }
}

#[test]
fn an_attendant_serves_one_task_after_the_other() {
    let mut attendant: WorkerLoop<u32> = WorkerLoop::new(5);
    match attendant.worker_loop(Input::Job(job(1))) {
        Action::Exchange { line, timeout } => {
            assert_eq!(line, "{\"id\":1,\"payload\":null}\n");
            assert_eq!(timeout, TimeSpan::from_millis(30));
        }
        _ => panic!("expected an exchange"),
    }
    assert!(matches!(attendant.worker_loop(Input::Job(job(2))), Action::Ignore));
    let answer = Exchange::Answered(WorkerResponse::success(1, Json::unsigned(2)));
    match attendant.worker_loop(Input::Exchanged(Some(answer))) {
        Action::ReportFinished { worker_id, ticket, outcome, reusable } => {
            assert_eq!((worker_id, ticket, reusable), (5, 8, true));
            assert_eq!(outcome, Ok(Json::unsigned(2)));
        }
        _ => panic!("expected a report"),
    }
    assert!(matches!(attendant.worker_loop(Input::Delivered(true)), Action::Await));
    attendant.worker_loop(Input::Job(job(2)));
    attendant.worker_loop(Input::Exchanged(None));
    assert!(matches!(attendant.worker_loop(Input::Delivered(true)), Action::Kill));
    assert!(matches!(attendant.worker_loop(Input::NoMoreJobs), Action::Ignore));
}

#[test]
fn an_attendant_notices_the_end() {
    let mut one: WorkerLoop<u32> = WorkerLoop::new(5);
    match one.worker_loop(Input::Exited("exit status: 9".into())) {
        Action::ReportStopped { worker_id, reason } => {
            assert_eq!(worker_id, 5);
            assert_eq!(reason, "exited with status exit status: 9");
        }
        _ => panic!("expected a report"),
    }
    let mut two: WorkerLoop<u32> = WorkerLoop::new(6);
    match two.worker_loop(Input::WaitFailed("gone".into())) {
        Action::ReportStopped { reason, .. } => {
            assert_eq!(reason, "failed while waiting for exit: gone")
        }
        _ => panic!("expected a report"),
    }
    let mut three: WorkerLoop<u32> = WorkerLoop::new(7);
    assert!(matches!(three.worker_loop(Input::NoMoreJobs), Action::Kill));
    let mut four: WorkerLoop<u32> = WorkerLoop::new(8);
    four.worker_loop(Input::Job(job(1)));
    let answer = Exchange::Answered(WorkerResponse::success(1, Json::Null));
    four.worker_loop(Input::Exchanged(Some(answer)));
    assert!(matches!(four.worker_loop(Input::Delivered(false)), Action::Kill));
}

#[test]
fn one_shot_processes_have_the_same_outcomes() {
    let timeout = TimeSpan::from_millis(30);
    assert_eq!(
        run_one_shot_worker(1, timeout, OneShot::NotStarted("x".into())),
        Err(PoolError::SpawnFailed("x".into()))
    );
    assert_eq!(
        run_one_shot_worker(1, timeout, OneShot::NoStdin),
        Err(PoolError::SpawnFailed("worker stdin was not configured as a pipe".into()))
    );
    assert_eq!(
        run_one_shot_worker(1, timeout, OneShot::NoStdout),
        Err(PoolError::SpawnFailed("worker stdout was not configured as a pipe".into()))
    );
    let answer = Exchange::Answered(WorkerResponse::success(1, Json::Bool(true)));
    assert_eq!(
        run_one_shot_worker(1, timeout, OneShot::Exchanged(Some(answer))),
        Ok(Json::Bool(true))
    );
}

fn echo(payload: Json) -> EchoPlan {
    handle(&WorkerRequest { id: 4, payload }, 77)
}

#[test]
fn the_example_worker_knows_its_operations() {
    let op = |name: &str| Fields::new().with("op", Json::text(name));
    match echo(op("echo").with("value", Json::unsigned(1)).object()) {
        EchoPlan::Respond(r) => assert_eq!(
            r.to_line(),
            "{\"id\":4,\"ok\":true,\"result\":{\"pid\":77,\"value\":1}}\n"
        ),
        _ => panic!("expected a response"),
    }
    match echo(Json::Null) {
        EchoPlan::Respond(r) => assert_eq!(
            r.to_line(),
            "{\"id\":4,\"ok\":true,\"result\":{\"pid\":77,\"value\":null}}\n"
        ),
        _ => panic!("expected a response"),
    }
    match echo(op("sum").with("values", array(vec![Json::unsigned(7)])).object()) {
        EchoPlan::Sum { id, values } => {
            assert_eq!((id, values), (4, vec![Json::unsigned(7)]));
        }
        _ => panic!("expected a sum"),
    }
    match echo(op("sum").object()) {
        EchoPlan::Respond(r) => {
            assert_eq!(r, invalid_input(4, "values must be a JSON number array"))
        }
        _ => panic!("expected a response"),
    }
    match echo(op("sleep").with("millis", Json::unsigned(30)).object()) {
        EchoPlan::Sleep { millis, response } => {
            assert_eq!(millis, 30);
            assert!(response.ok);
        }
        _ => panic!("expected a wait"),
    }
    match echo(op("fail").object()) {
        EchoPlan::Respond(r) => assert_eq!(r.error.unwrap().code, "EXAMPLE_FAILURE"),
        _ => panic!("expected a response"),
    }
    assert!(matches!(echo(op("crash").object()), EchoPlan::Exit { status: 17 }));
    match echo(op("dance").object()) {
        EchoPlan::Respond(r) => assert_eq!(r, invalid_input(4, "unknown operation")),
        _ => panic!("expected a response"),
    }
    assert_eq!(
        sum_response(4, 77, Json::unsigned(42)).to_line(),
        "{\"id\":4,\"ok\":true,\"result\":{\"pid\":77,\"sum\":42}}\n"
    );
}
