use process_pool::table::TextMap;
use process_pool::{
    PoolConfig, PoolError, ProcessFactoryConfig, RejectedExecutionHandler, TimeSpan, TimeUnit,
    WorkQueueConfig,
};

fn factory() -> ProcessFactoryConfig {
    ProcessFactoryConfig {
        program: "worker".into(),
        args: vec![],
        env: TextMap::new(),
        current_dir: None,
    }
}

#[test]
fn validates_the_seven_parameters() {
    let error = PoolConfig::new(
        3,
        2,
        30,
        TimeUnit::Seconds,
        WorkQueueConfig::Bounded { capacity: 10 },
        factory(),
        RejectedExecutionHandler::Abort,
    )
    .unwrap_err();

    assert!(error.message().contains("core_pool_size"));
}

#[test]
fn zero_capacity_queue_is_valid() {
    assert!(PoolConfig::new(
        0,
        1,
        0,
        TimeUnit::Milliseconds,
        WorkQueueConfig::Bounded { capacity: 0 },
        factory(),
        RejectedExecutionHandler::Abort,
    )
    .is_ok());
}

fn build(core: usize, maximum: usize, time: u64, unit: TimeUnit, program: &str) -> Result<PoolConfig, PoolError> {
    let mut process_factory = factory();
    process_factory.program = program.into();
    PoolConfig::new(
        core,
        maximum,
        time,
        unit,
        WorkQueueConfig::Bounded { capacity: 4 },
        process_factory,
        RejectedExecutionHandler::CallerRuns,
    )
}

#[test]
fn the_first_complaint_is_reported() {
    let complaint = |core, maximum, time, unit, program| match build(core, maximum, time, unit, program) {
        Err(PoolError::InvalidConfig(why)) => why,
        _ => panic!("expected a complaint"),
    };
    assert_eq!(
        complaint(5, 0, 1, TimeUnit::Seconds, ""),
        "maximum_pool_size must be greater than zero"
    );
    assert_eq!(
        complaint(3, 2, 1, TimeUnit::Seconds, ""),
        "core_pool_size must not exceed maximum_pool_size"
    );
    assert_eq!(
        complaint(1, 2, 1, TimeUnit::Seconds, ""),
        "process_factory.program must not be empty"
    );
    assert_eq!(
        complaint(1, 2, u64::MAX / 60 + 1, TimeUnit::Minutes, "w"),
        "keep_alive_time is too large"
    );
    assert!(build(1, 2, u64::MAX / 60, TimeUnit::Minutes, "w").is_ok());
    assert!(build(1, 2, u64::MAX, TimeUnit::Seconds, "w").is_ok());
}

#[test]
fn keep_alive_is_measured_in_its_unit() {
    let nanos = |time, unit| build(1, 2, time, unit, "w").unwrap().keep_alive().unwrap();
    assert_eq!(nanos(7, TimeUnit::Milliseconds), TimeSpan { nanos: 7_000_000 });
    assert_eq!(nanos(7, TimeUnit::Seconds), TimeSpan { nanos: 7_000_000_000 });
    assert_eq!(nanos(7, TimeUnit::Minutes), TimeSpan { nanos: 420_000_000_000 });
}

#[test]
fn a_moment_before_its_origin_counts_as_no_time() {
    let early = TimeSpan::from_millis(3);
    let late = TimeSpan::from_millis(10);
    assert_eq!(late.duration_since(early), TimeSpan::from_millis(7));
    assert_eq!(early.duration_since(late), TimeSpan::from_millis(0));
}

#[test]
fn factories_are_copied_whole() {
    let mut original = factory();
    original.args.push("--fast".into());
    original.env.insert("B".into(), "2".into());
    original.env.insert("A".into(), "1".into());
    original.current_dir = Some("/tmp".into());
    assert_eq!(original.clone(), original);
}

#[test]
fn errors_describe_themselves() {
    let cases: Vec<(PoolError, &str, &str)> = vec![
        (
            PoolError::NotInitialized,
            "the process pool has not been initialized",
            "NotInitialized",
        ),
        (
            PoolError::AlreadyInitialized,
            "the process pool is already initialized; restart the service to use another configuration",
            "AlreadyInitialized",
        ),
        (
            PoolError::InvalidConfig("x".into()),
            "invalid pool configuration: x",
            "InvalidConfig(\"x\")",
        ),
        (
            PoolError::SpawnFailed("no \"such\" file".into()),
            "failed to start worker process: no \"such\" file",
            "SpawnFailed(\"no \\\"such\\\" file\")",
        ),
        (PoolError::Rejected, "the process pool is saturated", "Rejected"),
        (
            PoolError::Discarded,
            "the task was discarded by the rejection policy",
            "Discarded",
        ),
        (PoolError::Closed, "the process pool is closed", "Closed"),
        (PoolError::WorkerIo("pipe".into()), "worker I/O failed: pipe", "WorkerIo(\"pipe\")"),
        (PoolError::Protocol("id".into()), "worker protocol error: id", "Protocol(\"id\")"),
        (
            PoolError::WorkerExited,
            "worker exited before returning a response",
            "WorkerExited",
        ),
        (
            PoolError::TaskTimeout { timeout_ms: 30 },
            "task timed out after 30 ms",
            "TaskTimeout { timeout_ms: 30 }",
        ),
        (
            PoolError::WorkerReturned { code: "E".into(), message: "m".into(), details: None },
            "worker returned error E: m",
            "WorkerReturned { code: \"E\", message: \"m\", details: None }",
        ),
    ];
    for (error, sentence, kind) in cases {
        assert_eq!(error.message(), sentence);
        assert_eq!(error.kind_text(), kind);
        assert_eq!(error.clone(), error);
    }
}
