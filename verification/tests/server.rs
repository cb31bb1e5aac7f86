use std::collections::BTreeMap;

use process_pool::agent::AgentNames;
use process_pool::agents::{AgentConfig, AgentManager};
use process_pool::json::{Fields, Json, JsonNumber};
use process_pool::pool::Report;
use process_pool::schedule::{Call, Notice, Step, WorkerEvent};
use process_pool::server::{
    answer_agents, answer_execute, answer_prestart, empty_params, health, is_same_origin,
    local_same_origin, parse_execute_params, refuse_execute, static_asset, AppState, ExecuteParams,
    HeaderText, InitializeParams, RequestOrigin, RpcPlan, RpcRequest, RpcResponse,
};
use process_pool::table::TextMap;
use process_pool::{
    PoolConfig, PoolError, ProcessFactoryConfig, RejectedExecutionHandler, TimeSpan, TimeUnit,
    WorkQueueConfig,
};

fn text(s: &str) -> HeaderText {
    HeaderText::Text(s.to_string())
}

fn from_host(host: &str) -> RequestOrigin {
    RequestOrigin {
        host: text(host),
        sec_fetch_site: HeaderText::Absent,
        origin: HeaderText::Absent,
    }
}

fn anonymous() -> RequestOrigin {
    RequestOrigin {
        host: HeaderText::Absent,
        sec_fetch_site: HeaderText::Absent,
        origin: HeaderText::Absent,
    }
}

#[test]
fn only_local_same_origin_authorities_are_accepted() {
    assert!(!local_same_origin(&anonymous()));
    for host in ["localhost:7788", "127.0.0.1:7788", "[::1]:7788"] {
        let mut headers = from_host(host);
        assert!(local_same_origin(&headers), "{host}");
        headers.origin = text(&format!("http://{host}"));
        assert!(local_same_origin(&headers));
        headers.origin = text("http://localhost:1");
        assert!(!local_same_origin(&headers));
    }
    for host in [
        "attacker.invalid",
        "127.0.0.1.attacker.invalid",
        "localhost.attacker.invalid",
        "192.168.1.1:7788",
    ] {
        assert!(!local_same_origin(&from_host(host)), "{host}");
    }
}

#[test]
fn the_site_header_has_to_agree() {
    for (site, accepted) in [
        (text("same-origin"), true),
        (text("none"), true),
        (text("cross-site"), false),
        (HeaderText::Opaque, false),
        (HeaderText::Absent, true),
    ] {
        let mut headers = from_host("localhost");
        headers.sec_fetch_site = site;
        assert_eq!(local_same_origin(&headers), accepted);
    }
}

#[test]
fn malformed_hosts_are_refused() {
    for host in ["", "local host", "localhost:1:2", "[::1", "user@", "localhost/"] {
        assert!(!local_same_origin(&from_host(host)), "{host}");
    }
    assert!(local_same_origin(&from_host("user@localhost:1")));
    let mut headers = from_host("localhost");
    headers.host = HeaderText::Opaque;
    assert!(!local_same_origin(&headers));
    headers.host = text("localhost");
    headers.origin = HeaderText::Opaque;
    assert!(!local_same_origin(&headers));
}

#[test]
fn the_named_host_decides() {
    let headers = from_host("whatever");
    assert!(is_same_origin(&headers, Some("127.0.0.1".into())));
    assert!(!is_same_origin(&headers, Some("127.0.0.2".into())));
    assert!(!is_same_origin(&headers, None));
}

type State = AppState<u32, u32>;

fn setup() -> State {
    let mut env = TextMap::new();
    env.insert("PRIVATE_WORKER_SETTING".into(), "not-exposed-to-client".into());
    let mut factories = TextMap::new();
    factories.insert(
        "test-worker".to_string(),
        ProcessFactoryConfig { program: "worker".into(), args: vec![], env, current_dir: None },
    );
    AppState::new(factories, TimeSpan::from_secs(1))
}

fn parameters() -> InitializeParams {
    InitializeParams {
        core_pool_size: 3,
        maximum_pool_size: 5,
        keep_alive_time: 1234,
        time_unit: TimeUnit::Milliseconds,
        work_queue: WorkQueueConfig::Bounded { capacity: 7 },
        process_factory: "test-worker".into(),
        rejected_execution_handler: RejectedExecutionHandler::Discard,
    }
}

fn now() -> TimeSpan {
    TimeSpan::from_secs(5)
}

fn call(method: &str, params: Option<Json>) -> RpcRequest {
    RpcRequest {
        jsonrpc: "2.0".into(),
        id: Json::unsigned(1),
        method: method.into(),
        params,
    }
}

fn code(response: &RpcResponse) -> i32 {
    response.error.as_ref().unwrap().code
}

fn number(v: &Json, key: &str) -> u64 {
    v.get(key).unwrap().as_u64().unwrap()
}

fn empty() -> Json {
    Fields::new().object()
}

fn uninitialized() -> Json {
    Fields::new().with("initialized", Json::Bool(false)).object()
}

/// Performs steps with workers that come up and take every task; hands out what was dispatched.
fn perform(state: &mut State, step: Step<u32>) -> (Vec<(u64, u32)>, Vec<Notice<u32>>, Option<Result<usize, PoolError>>) {
    let mut dispatched = vec![];
    let mut notices = vec![];
    let mut prestarted = None;
    let mut step = step;
    loop {
        notices.extend(step.notices);
        if step.prestarted.is_some() {
            prestarted = step.prestarted;
        }
        let report = match step.call {
            None => return (dispatched, notices, prestarted),
            Some(Call::Spawn { .. }) => Report::Spawned(Ok(Some(4))),
            Some(Call::Dispatch { worker_id, job }) => {
                dispatched.push((worker_id, job.ticket));
                Report::Dispatched(None)
            }
        };
        step = state.report(report, now()).unwrap();
    }
}

fn prestart(state: &mut State) -> RpcResponse {
    let id = match state.rpc(call("pool.prestart", Some(empty())), &anonymous()) {
        RpcPlan::Prestart { id } => id,
        _ => panic!("expected a warm-up"),
    };
    let outcome = match state.prestart() {
        Ok(step) => perform(state, step).2.unwrap(),
        Err(e) => Err(e),
    };
    answer_prestart(id, outcome)
}

#[test]
fn startup_is_uninitialized_but_http_and_factory_catalog_are_available() {
    let mut state = setup();
    assert_eq!(state.stats_api(now()).body, uninitialized());
    assert_eq!(state.stats_api(now()).status, 200);
    assert_eq!(state.readiness(now()).status, 503);
    assert_eq!(
        state.readiness(now()).body.to_text(),
        "{\"reason\":\"pool_not_initialized\",\"status\":\"not_ready\"}"
    );
    assert_eq!(health().status, 200);
    assert_eq!(health().body.to_text(), "{\"status\":\"ok\"}");
    assert_eq!(state.factories_api().body.to_text(), "{\"factories\":[\"test-worker\"]}");
    assert!(state.factories_api().no_store);
    let stats = state.answer_stats(Json::unsigned(1), now());
    assert_eq!(stats.result, Some(uninitialized()));
    let params = ExecuteParams { payload: empty(), timeout_ms: None };
    let error = state.execute(params, 1, now()).err().unwrap();
    assert_eq!(code(&RpcResponse::pool_error(Json::unsigned(1), error)), -32006);
    assert_eq!(code(&prestart(&mut state)), -32006);
    assert!(state.get_pool().is_err());
    assert!(state.report(Report::Tick, now()).is_none());
}

#[test]
fn supplied_parameters_take_effect_without_workers_until_execute_or_prewarm() {
    let mut state = setup();
    let answer = state.answer_initialize(Json::unsigned(1), Ok(parameters()), now());
    let stats = answer.result.unwrap();
    assert_eq!(stats.get("initialized"), Some(&Json::Bool(true)));
    assert_eq!(number(&stats, "worker_count"), 0);
    assert_eq!(number(&stats, "core_pool_size"), 3);
    assert_eq!(number(&stats, "maximum_pool_size"), 5);
    assert_eq!(number(&stats, "keep_alive_ms"), 1234);
    assert_eq!(number(&stats, "work_queue_capacity"), 7);
    assert!(stats.get("rejection_policy").unwrap().is_text("discard"));
    assert_eq!(state.readiness(now()).status, 200);
    assert_eq!(state.readiness(now()).body.to_text(), "{\"status\":\"ready\",\"workers\":0}");

    let params = ExecuteParams { payload: empty(), timeout_ms: Some(9) };
    let step = state.execute(params, 7, now()).unwrap();
    let (dispatched, _, _) = perform(&mut state, step);
    assert_eq!(dispatched, vec![(1, 7)]);
    let event = WorkerEvent::Finished {
        worker_id: 1,
        ticket: 7,
        outcome: Ok(Json::Bool(true)),
        reusable: true,
    };
    let step = state.report(Report::Worker(event), now()).unwrap();
    let (_, notices, _) = perform(&mut state, step);
    match &notices[0] {
        Notice::Reply { ticket, outcome } => {
            assert_eq!((*ticket, outcome), (7, &Ok(Json::Bool(true))));
        }
        _ => panic!("expected a reply"),
    }
    let stats = state.stats_api(now()).body;
    assert_eq!(number(&stats, "worker_count"), 1);
    assert_eq!(number(&stats, "completed_task_count"), 1);

    let started = |r: RpcResponse| number(&r.result.unwrap(), "started_worker_count");
    assert_eq!(started(prestart(&mut state)), 2);
    assert_eq!(started(prestart(&mut state)), 0);
    assert_eq!(number(&state.stats_api(now()).body, "worker_count"), 3);
    let again = state.answer_initialize(Json::unsigned(1), Ok(parameters()), now());
    assert_eq!(code(&again), -32007);
    assert_eq!(number(&state.stats_api(now()).body, "completed_task_count"), 1);
    assert_eq!(number(&state.stats_api(now()).body, "worker_count"), 3);
    assert_eq!(state.get_pool().unwrap().factory().program, "worker");
}

#[test]
fn invalid_or_unregistered_configuration_does_not_initialize_the_pool() {
    let mut state = setup();
    let mut zero = parameters();
    zero.maximum_pool_size = 0;
    let mut unknown = parameters();
    unknown.process_factory = "/bin/sh".into();
    let candidates = vec![
        Err("missing field `core_pool_size`".to_string()),
        Ok(zero),
        Ok(unknown),
        Err("unknown field `extra`".to_string()),
    ];
    for candidate in candidates {
        let answer = state.answer_initialize(Json::unsigned(1), candidate, now());
        assert_eq!(code(&answer), -32602);
        assert_eq!(state.stats_api(now()).body, uninitialized());
    }
    let answer = state.answer_initialize(Json::unsigned(1), Err("e".into()), now());
    assert_eq!(answer.error.unwrap().message, "invalid initialization params: e");
    let mut unknown = parameters();
    unknown.process_factory = "/bin/sh".into();
    let answer = state.answer_initialize(Json::unsigned(1), Ok(unknown), now());
    assert_eq!(
        answer.error.unwrap().message,
        "invalid pool configuration: unknown registered process_factory: /bin/sh"
    );
    assert!(state.answer_initialize(Json::unsigned(1), Ok(parameters()), now()).result.is_some());
}

#[test]
fn simultaneous_initialization_has_exactly_one_winner() {
    let mut state = setup();
    let first = state.answer_initialize(Json::unsigned(1), Ok(parameters()), now());
    let second = state.answer_initialize(Json::unsigned(1), Ok(parameters()), now());
    assert_eq!([&first, &second].iter().filter(|r| r.result.is_some()).count(), 1);
    assert_eq!(
        [&first, &second].iter().filter(|r| r.error.is_some() && code(r) == -32007).count(),
        1
    );
    assert_eq!(number(&state.stats_api(now()).body, "worker_count"), 0);
}

#[test]
fn dashboard_and_assets_are_served_with_safe_content_types() {
    for (path, content_type) in [
        ("/", "text/html"),
        ("/assets/dashboard.js", "text/javascript"),
        ("/assets/dashboard.css", "text/css"),
        ("/assets/rpc-client.js", "text/javascript"),
        ("/assets/debugger.js", "text/javascript"),
        ("/assets/agents.js", "text/javascript"),
    ] {
        let asset = static_asset(path).unwrap();
        assert_eq!(asset.status, 200);
        let headers: BTreeMap<&str, &str> = asset.headers().into_iter().collect();
        assert!(headers["content-type"].starts_with(content_type));
        assert_eq!(headers["cache-control"], "no-store");
        assert_eq!(headers["x-content-type-options"], "nosniff");
        assert_eq!(headers.get("content-security-policy").copied(), asset.policy);
        assert!(!asset.file.is_empty());
        assert_eq!(asset.policy.is_some(), path == "/");
    }
    assert!(static_asset("/assets/other.js").is_none());
    assert_eq!(health().status, 200);
}

#[test]
fn a_trusted_configuration_is_judged_after_the_state() {
    let mut state = setup();
    let config = |maximum| PoolConfig {
        core_pool_size: 0,
        maximum_pool_size: maximum,
        keep_alive_time: 1,
        time_unit: TimeUnit::Seconds,
        work_queue: WorkQueueConfig::Bounded { capacity: 0 },
        process_factory: ProcessFactoryConfig {
            program: "w".into(),
            args: vec![],
            env: TextMap::new(),
            current_dir: None,
        },
        rejected_execution_handler: RejectedExecutionHandler::Abort,
    };
    assert!(matches!(
        state.initialize_local(config(0), now()),
        Err(PoolError::InvalidConfig(_))
    ));
    assert!(state.initialize_local(config(1), now()).is_ok());
    assert_eq!(
        state.initialize_local(config(0), now()),
        Err(PoolError::AlreadyInitialized)
    );
}

#[test]
fn calls_are_routed_by_method() {
    let state = setup();
    let local = from_host("localhost");
    let reply = |plan| match plan {
        RpcPlan::Reply(r) => r,
        _ => panic!("expected a reply"),
    };
    let mut old = call("pool.stats", None);
    old.jsonrpc = "1.0".into();
    let answer = reply(state.rpc(old, &local));
    assert_eq!(code(&answer), -32600);
    assert_eq!(answer.error.unwrap().message, "jsonrpc must be \"2.0\"");
    assert_eq!(code(&reply(state.rpc(call("pool.dance", None), &local))), -32601);
    assert_eq!(
        code(&reply(state.rpc(call("pool.prestart", Some(Json::unsigned(1))), &local))),
        -32602
    );
    assert!(matches!(
        state.rpc(call("pool.execute", None), &local),
        RpcPlan::Execute { params: Json::Null, .. }
    ));
    assert!(matches!(
        state.rpc(call("pool.initialize", None), &local),
        RpcPlan::Initialize { params: Json::Null, .. }
    ));
    assert!(matches!(state.rpc(call("pool.stats", None), &local), RpcPlan::Stats { .. }));
    assert!(empty_params(&None));
    assert!(empty_params(&Some(Json::Null)));
    assert!(!empty_params(&Some(Json::text(""))));
}

#[test]
fn conversations_are_reached_locally_only() {
    let state = setup();
    let local = from_host("localhost");
    let refused = match state.rpc(call("cc.create", None), &anonymous()) {
        RpcPlan::Reply(r) => r,
        _ => panic!("expected a reply"),
    };
    assert_eq!(code(&refused), -32101);
    match state.rpc(call("cc.status", None), &local) {
        RpcPlan::Reply(r) => assert_eq!(
            r.result.unwrap().to_text(),
            "{\"agents\":[],\"enabled\":false,\"reason\":\"CC 管理仅在 loopback 监听地址启用\"}"
        ),
        _ => panic!("expected a reply"),
    }
    match state.rpc(call("cc.create", None), &local) {
        RpcPlan::Reply(r) => assert_eq!(code(&r), -32101),
        _ => panic!("expected a reply"),
    }
    let config = AgentConfig {
        program: "helper".into(),
        names: AgentNames { title: "Helper".into(), tag: "helper".into() },
        workspace_root: "/w".into(),
        max_agents: 1,
    };
    let state = state.with_agents(AgentManager::new(config).ok().unwrap());
    match state.rpc(call("cc.create", None), &local) {
        RpcPlan::Agents { method, params, .. } => {
            assert_eq!(method, "cc.create");
            assert_eq!(params, empty());
        }
        _ => panic!("expected a call about conversations"),
    }
    assert!(matches!(
        state.rpc(call("cc.create", None), &from_host("example.org")),
        RpcPlan::Reply(_)
    ));
    assert_eq!(code(&answer_agents(Json::Null, Err("x".into()))), -32100);
}

#[test]
fn answers_are_documents() {
    let good = RpcResponse::success(Json::unsigned(3), Json::Bool(true));
    assert_eq!(good.document().to_text(), "{\"jsonrpc\":\"2.0\",\"id\":3,\"result\":true}");
    let bad = answer_execute(Json::text("a"), Err(PoolError::TaskTimeout { timeout_ms: 30 }));
    assert_eq!(
        bad.document().to_text(),
        "{\"jsonrpc\":\"2.0\",\"id\":\"a\",\"error\":{\"code\":-32003,\"message\":\"task timed out after 30 ms\",\"data\":{\"kind\":\"TaskTimeout { timeout_ms: 30 }\"}}}"
    );
    let plain = refuse_execute(Json::Null, "no".into());
    assert_eq!(
        plain.document().to_text(),
        "{\"jsonrpc\":\"2.0\",\"id\":null,\"error\":{\"code\":-32602,\"message\":\"no\"}}"
    );
    let odd = RpcResponse::error(Json::Null, 7, "m".into(), None).document();
    assert_eq!(
        odd.get("error").unwrap().get("code"),
        Some(&Json::Number(JsonNumber::Unsigned(7)))
    );
    assert_eq!(
        parse_execute_params(Err("e".into())).err().unwrap(),
        "invalid pool.execute params: e"
    );
}

#[test]
fn every_error_has_its_code() {
    let cases = vec![
        (PoolError::NotInitialized, -32006),
        (PoolError::AlreadyInitialized, -32007),
        (PoolError::InvalidConfig("".into()), -32602),
        (PoolError::Rejected, -32001),
        (PoolError::Discarded, -32002),
        (PoolError::TaskTimeout { timeout_ms: 1 }, -32003),
        (
            PoolError::WorkerReturned { code: "".into(), message: "".into(), details: None },
            -32004,
        ),
        (PoolError::Closed, -32005),
        (PoolError::SpawnFailed("".into()), -32000),
        (PoolError::WorkerIo("".into()), -32000),
        (PoolError::Protocol("".into()), -32000),
        (PoolError::WorkerExited, -32000),
    ];
    for (error, expected) in cases {
        assert_eq!(code(&RpcResponse::pool_error(Json::Null, error)), expected);
    }
}

#[test]
fn the_default_time_is_cut_to_its_lower_bits() {
    let mut state: State = AppState::new(TextMap::new(), TimeSpan { nanos: ((1u128 << 64) + 5) * 1_000_000 });
    let config = PoolConfig::new(
        1,
        1,
        1,
        TimeUnit::Seconds,
        WorkQueueConfig::Bounded { capacity: 0 },
        ProcessFactoryConfig {
            program: "w".into(),
            args: vec![],
            env: TextMap::new(),
            current_dir: None,
        },
        RejectedExecutionHandler::Abort,
    )
    .unwrap();
    state.initialize_local(config, now()).unwrap();
    let step = state
        .execute(ExecuteParams { payload: Json::Null, timeout_ms: None }, 1, now())
        .unwrap();
    assert!(matches!(step.call, Some(Call::Spawn { worker_id: 1 })));
    let step = state.report(Report::Spawned(Ok(None)), now()).unwrap();
    match step.call {
        Some(Call::Dispatch { job, .. }) => assert_eq!(job.timeout, TimeSpan::from_millis(5)),
        _ => panic!("expected a hand-over"),
    }
}

#[test]
fn shutdown_leaves_no_pool() {
    let mut state = setup();
    state.initialize(parameters(), now()).unwrap();
    let step = state
        .execute(ExecuteParams { payload: Json::Null, timeout_ms: None }, 1, now())
        .unwrap();
    perform(&mut state, step);
    let rest = state.shutdown();
    assert_eq!(rest.notices.len(), 1);
    assert!(rest.conversations.is_empty());
    assert_eq!(state.stats_api(now()).body, uninitialized());
}
