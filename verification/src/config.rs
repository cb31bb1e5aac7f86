//! The seven parameters of a pool.
use vstd::prelude::*;
use vstd::string::*;
use crate::error::{ErrorView, PoolError};
use crate::table::{contents, TextMap};

verus! {

/// A length of time in nanoseconds, or a moment as the time elapsed since a fixed origin.
#[derive(Debug, Clone, Copy, PartialEq, Eq, Structural)]
pub struct TimeSpan {
    pub nanos: u128,
}

pub const NANOS_PER_MILLI: u128 = 1_000_000;

pub const NANOS_PER_SECOND: u128 = 1_000_000_000;

impl TimeSpan {
    pub fn from_millis(ms: u64) -> (span: TimeSpan)
        ensures
            span.nanos == ms * NANOS_PER_MILLI,
    {
        TimeSpan { nanos: ms as u128 * NANOS_PER_MILLI }
    }

    pub fn from_secs(secs: u64) -> (span: TimeSpan)
        ensures
            span.nanos == secs * NANOS_PER_SECOND,
    {
        TimeSpan { nanos: secs as u128 * NANOS_PER_SECOND }
    }

    /// The time from `earlier` to `self`, and zero where `earlier` is the later one.
    pub open spec fn elapsed_since(self, earlier: TimeSpan) -> TimeSpan {
        TimeSpan {
            nanos: if self.nanos >= earlier.nanos {
                (self.nanos - earlier.nanos) as u128
            } else {
                0
            },
        }
    }

    pub fn duration_since(self, earlier: TimeSpan) -> (span: TimeSpan)
        ensures
            span == self.elapsed_since(earlier),
    {
        if self.nanos >= earlier.nanos {
            TimeSpan { nanos: self.nanos - earlier.nanos }
        } else {
            TimeSpan { nanos: 0 }
        }
    }
}

/// Unit of the `keep_alive_time` parameter.
#[derive(Debug, Clone, Copy, PartialEq, Eq, Structural)]
pub enum TimeUnit {
    Milliseconds,
    Seconds,
    Minutes,
}

/// Milliseconds in one unit.
pub open spec fn unit_millis(unit: TimeUnit) -> int {
    match unit {
        TimeUnit::Milliseconds => 1,
        TimeUnit::Seconds => 1_000,
        TimeUnit::Minutes => 60_000,
    }
}

/// Whether a length of `value` units can be counted in whole seconds by 64 bits.
pub open spec fn representable(unit: TimeUnit, value: u64) -> bool {
    unit == TimeUnit::Minutes ==> value * 60 <= u64::MAX
}

impl TimeUnit {
    /// The length of `value` units.
    pub fn duration(self, value: u64) -> (span: Result<TimeSpan, PoolError>)
        ensures
            match span {
                Ok(span) => representable(self, value) && span.nanos == value * unit_millis(self)
                    * NANOS_PER_MILLI,
                Err(e) => !representable(self, value) && e@ == ErrorView::InvalidConfig(
                    "keep_alive_time is too large"@,
                ),
            },
    {
        match self {
            TimeUnit::Milliseconds => Ok(TimeSpan::from_millis(value)),
            TimeUnit::Seconds => Ok(TimeSpan::from_secs(value)),
            TimeUnit::Minutes => match value.checked_mul(60) {
                Some(secs) => Ok(TimeSpan::from_secs(secs)),
                None => Err(PoolError::InvalidConfig("keep_alive_time is too large".to_owned())),
            },
        }
    }
}

/// The queue that takes tasks once all core processes are busy.
///
/// With capacity zero nothing is ever queued: a task is handed to a worker at once, or the
/// pool grows up to its maximum.
#[derive(Debug, Clone, Copy, PartialEq, Eq, Structural)]
pub enum WorkQueueConfig {
    Bounded { capacity: usize },
}

impl WorkQueueConfig {
    pub open spec fn bound(self) -> usize {
        match self {
            WorkQueueConfig::Bounded { capacity } => capacity,
        }
    }

    /// How many tasks may wait.
    pub fn capacity(&self) -> (n: usize)
        ensures
            n == self.bound(),
    {
        match self {
            WorkQueueConfig::Bounded { capacity } => *capacity,
        }
    }
}

/// How a worker process is started.
#[derive(Debug, PartialEq, Eq)]
pub struct ProcessFactoryConfig {
    pub program: String,
    pub args: Vec<String>,
    /// Variables set in the worker's environment, in place of inherited ones.
    pub env: TextMap<String>,
    pub current_dir: Option<String>,
}

/// The content of a [`ProcessFactoryConfig`].
pub struct FactoryView {
    pub program: Seq<char>,
    pub args: Seq<Seq<char>>,
    pub env: Seq<(Seq<char>, Seq<char>)>,
    pub current_dir: Option<Seq<char>>,
}

/// The contents of several texts.
pub open spec fn text_views(texts: Seq<String>) -> Seq<Seq<char>> {
    texts.map_values(|s: String| s@)
}

/// The content of an optional text.
pub open spec fn optional_text(text: Option<String>) -> Option<Seq<char>> {
    match text {
        Some(s) => Some(s@),
        None => None,
    }
}

impl View for ProcessFactoryConfig {
    type V = FactoryView;

    open spec fn view(&self) -> FactoryView {
        FactoryView {
            program: self.program@,
            args: text_views(self.args@),
            env: contents(self.env@),
            current_dir: optional_text(self.current_dir),
        }
    }
}

/// A copy of several texts.
pub fn copy_texts(texts: &Vec<String>) -> (copy: Vec<String>)
    ensures
        text_views(copy@) == text_views(texts@),
{
    let mut copy: Vec<String> = Vec::new();
    let mut i: usize = 0;
    while i < texts.len()
        invariant
            i <= texts@.len(),
            copy@.len() == i,
            forall|j: int| 0 <= j < i ==> (#[trigger] copy@[j])@ == texts@[j]@,
        decreases texts@.len() - i,
    {
        copy.push(texts[i].clone());
        i = i + 1;
    }
    assert(text_views(copy@) =~= text_views(texts@));
    copy
}

/// A copy of an optional text.
pub fn copy_optional_text(text: &Option<String>) -> (copy: Option<String>)
    ensures
        optional_text(copy) == optional_text(*text),
{
    match text {
        Some(s) => Some(s.clone()),
        None => None,
    }
}

impl Clone for ProcessFactoryConfig {
    fn clone(&self) -> (copy: Self)
        ensures
            copy@ == self@,
    {
        ProcessFactoryConfig {
            program: self.program.clone(),
            args: copy_texts(&self.args),
            env: self.env.clone(),
            current_dir: copy_optional_text(&self.current_dir),
        }
    }
}

/// What happens to a task when all processes are busy and the queue is full.
#[derive(Debug, Clone, Copy, PartialEq, Eq, Structural)]
pub enum RejectedExecutionHandler {
    /// Answer with a saturation error at once.
    Abort,
    /// Drop the new task and tell its caller so.
    Discard,
    /// Drop the task that has waited longest and queue the new one.
    DiscardOldest,
    /// Run the task in a process of its own that the maximum does not count.
    CallerRuns,
}

/// The seven parameters.
#[derive(Debug, Clone, PartialEq, Eq)]
pub struct PoolConfig {
    pub core_pool_size: usize,
    pub maximum_pool_size: usize,
    pub keep_alive_time: u64,
    pub time_unit: TimeUnit,
    pub work_queue: WorkQueueConfig,
    pub process_factory: ProcessFactoryConfig,
    pub rejected_execution_handler: RejectedExecutionHandler,
}

/// What is wrong with a configuration, the first complaint first.
pub open spec fn complaint(config: PoolConfig) -> Option<Seq<char>> {
    if config.maximum_pool_size == 0 {
        Some("maximum_pool_size must be greater than zero"@)
    } else if config.core_pool_size > config.maximum_pool_size {
        Some("core_pool_size must not exceed maximum_pool_size"@)
    } else if config.process_factory.program@.len() == 0 {
        Some("process_factory.program must not be empty"@)
    } else if !representable(config.time_unit, config.keep_alive_time) {
        Some("keep_alive_time is too large"@)
    } else {
        None
    }
}

/// Whether a configuration can be used for a pool.
pub open spec fn usable(config: PoolConfig) -> bool {
    complaint(config) is None
}

fn invalid(message: &str) -> (e: PoolError)
    ensures
        e@ == ErrorView::InvalidConfig(message@),
{
    PoolError::InvalidConfig(message.to_owned())
}

impl PoolConfig {
    /// A configuration that has passed validation.
    pub fn new(
        core_pool_size: usize,
        maximum_pool_size: usize,
        keep_alive_time: u64,
        time_unit: TimeUnit,
        work_queue: WorkQueueConfig,
        process_factory: ProcessFactoryConfig,
        rejected_execution_handler: RejectedExecutionHandler,
    ) -> (config: Result<PoolConfig, PoolError>)
        ensures
            ({
                let given = PoolConfig {
                    core_pool_size,
                    maximum_pool_size,
                    keep_alive_time,
                    time_unit,
                    work_queue,
                    process_factory,
                    rejected_execution_handler,
                };
                match config {
                    Ok(config) => usable(given) && config == given,
                    Err(e) => complaint(given) matches Some(why) && e@
                        == ErrorView::InvalidConfig(why),
                }
            }),
    {
        let config = PoolConfig {
            core_pool_size,
            maximum_pool_size,
            keep_alive_time,
            time_unit,
            work_queue,
            process_factory,
            rejected_execution_handler,
        };
        match config.validate() {
            Ok(()) => Ok(config),
            Err(e) => Err(e),
        }
    }

    /// Accepts exactly the usable configurations and names the first complaint otherwise.
    pub fn validate(&self) -> (verdict: Result<(), PoolError>)
        ensures
            match verdict {
                Ok(()) => usable(*self),
                Err(e) => complaint(*self) matches Some(why) && e@ == ErrorView::InvalidConfig(
                    why,
                ),
            },
    {
        if self.maximum_pool_size == 0 {
            return Err(invalid("maximum_pool_size must be greater than zero"));
        }
        if self.core_pool_size > self.maximum_pool_size {
            return Err(invalid("core_pool_size must not exceed maximum_pool_size"));
        }
        if self.process_factory.program.as_str().is_empty() {
            return Err(invalid("process_factory.program must not be empty"));
        }
        match self.time_unit.duration(self.keep_alive_time) {
            Ok(_) => Ok(()),
            Err(e) => Err(e),
        }
    }

    pub open spec fn keep_alive_nanos(self) -> int {
        self.keep_alive_time * unit_millis(self.time_unit) * NANOS_PER_MILLI
    }

    /// How long a worker above the core size may stay idle.
    pub fn keep_alive(&self) -> (span: Result<TimeSpan, PoolError>)
        ensures
            match span {
                Ok(span) => representable(self.time_unit, self.keep_alive_time) && span.nanos
                    == self.keep_alive_nanos(),
                Err(e) => !representable(self.time_unit, self.keep_alive_time) && e@
                    == ErrorView::InvalidConfig("keep_alive_time is too large"@),
            },
    {
        self.time_unit.duration(self.keep_alive_time)
    }
}

/// The part of a configuration that decides where a task goes.
#[derive(Debug, Clone, Copy, PartialEq, Eq, Structural)]
pub struct Limits {
    pub core: usize,
    pub maximum: usize,
    pub capacity: usize,
    pub keep_alive: TimeSpan,
    pub policy: RejectedExecutionHandler,
}

/// The limits that a usable configuration sets.
pub open spec fn limits_of(config: PoolConfig) -> Limits {
    Limits {
        core: config.core_pool_size,
        maximum: config.maximum_pool_size,
        capacity: config.work_queue.bound(),
        keep_alive: TimeSpan { nanos: config.keep_alive_nanos() as u128 },
        policy: config.rejected_execution_handler,
    }
}

} // verus!
