//! The service around a pool: who may call it, what a call means, and what is answered.
use vstd::prelude::*;
use vstd::string::*;
use crate::agents::{AgentManager, ManagerView, Target};
use crate::conduct::{
    hands_on, nanos_per, remote_parameters_decide_the_pool, tasks_are_handed_on_unchanged,
};
use crate::config::{
    complaint, limits_of, usable, FactoryView, PoolConfig, ProcessFactoryConfig,
    RejectedExecutionHandler, TimeSpan, TimeUnit, WorkQueueConfig, NANOS_PER_MILLI,
};
use crate::documents::{counted, statistics_are_told_by_name};
use crate::error::{kind, outcome_view, sentence, ErrorView, PoolError, TaskOutcome};
use crate::json::{
    array, at, models, no_fields, optional, unsigned, Fields, Json, JsonNumber, JsonView, NumberView,
};
use crate::pool::{describes, PoolStats, ProcessPool, Report, WorkerState, WorkerStats};
use crate::reading::result_view;
use crate::schedule::{
    closed, countable, empty_pool, notice_views, prestart, prestart_view, refusals, stops,
    submitted, Job, Notice, PoolView, Step,
};
use crate::table::{found, TextMap};
use crate::text::{has_prefix, same_text};
use crate::workers::lists;

verus! {

/// A header of a request.
pub enum HeaderText {
    Absent,
    /// It is there, but not as visible ASCII.
    Opaque,
    Text(String),
}

/// The headers of a request that tell where it comes from.
pub struct RequestOrigin {
    pub host: HeaderText,
    pub sec_fetch_site: HeaderText,
    pub origin: HeaderText,
}

/// The host that `axum::http::uri::Authority` finds in a text, where the text is an authority.
pub uninterp spec fn authority_host(text: Seq<char>) -> Option<Seq<char>>;

pub open spec fn text_of(text: Option<String>) -> Option<Seq<char>> {
    match text {
        Some(s) => Some(s@),
        None => None,
    }
}

/// Parses a text as an `axum::http::uri::Authority` and asks it for its `host`. Both depend on
/// the text alone, and a parsed authority always has a host.
#[verifier::external_body]
fn host_in(text: &str) -> (host: Option<String>)
    ensures
        text_of(host) == authority_host(text@),
{
    match text.parse::<axum::http::uri::Authority>() {
        Ok(authority) => Some(authority.host().to_owned()),
        Err(_) => None,
    }
}

/// Whether a host names this machine itself.
pub open spec fn is_local_host(host: Seq<char>) -> bool {
    host == "localhost"@ || host == "127.0.0.1"@ || host == "[::1]"@
}

/// Whether a request comes from this machine and from no foreign page: `host` is what the
/// host header's authority names.
pub open spec fn same_origin(request: RequestOrigin, host: Option<Seq<char>>) -> bool {
    match request.host {
        HeaderText::Text(authority) => {
            &&& host matches Some(name) && is_local_host(name)
            &&& match request.sec_fetch_site {
                HeaderText::Absent => true,
                HeaderText::Opaque => false,
                HeaderText::Text(site) => site@ == "same-origin"@ || site@ == "none"@,
            }
            &&& match request.origin {
                HeaderText::Absent => true,
                HeaderText::Opaque => false,
                HeaderText::Text(origin) => origin@ == "http://"@ + authority@,
            }
        },
        _ => false,
    }
}

/// Whether a request is local and of the same origin, by the headers as they came.
pub open spec fn permitted(request: RequestOrigin) -> bool {
    match request.host {
        HeaderText::Text(authority) => same_origin(request, authority_host(authority@)),
        _ => false,
    }
}

/// Decides on a request whose host header names `host`.
pub fn is_same_origin(request: &RequestOrigin, host: Option<String>) -> (yes: bool)
    ensures
        yes == same_origin(*request, text_of(host)),
{
    let authority = match &request.host {
        HeaderText::Text(authority) => authority,
        _ => {
            return false;
        },
    };
    let local: bool = match &host {
        Some(name) => same_text(name.as_str(), "localhost") || same_text(
            name.as_str(),
            "127.0.0.1",
        ) || same_text(name.as_str(), "[::1]"),
        None => false,
    };
    if !local {
        return false;
    }
    let expected: bool = match &request.sec_fetch_site {
        HeaderText::Absent => true,
        HeaderText::Opaque => false,
        HeaderText::Text(site) => same_text(site.as_str(), "same-origin") || same_text(
            site.as_str(),
            "none",
        ),
    };
    if !expected {
        return false;
    }
    match &request.origin {
        HeaderText::Absent => true,
        HeaderText::Opaque => false,
        HeaderText::Text(origin) => same_text(
            origin.as_str(),
            "http://".to_owned().concat(authority.as_str()).as_str(),
        ),
    }
}

/// Whether a request comes from this machine and from no foreign page.
pub fn local_same_origin(request: &RequestOrigin) -> (yes: bool)
    ensures
        yes == permitted(*request),
{
    match &request.host {
        HeaderText::Text(authority) => {
            let host = host_in(authority.as_str());
            is_same_origin(request, host)
        },
        _ => false,
    }
}

/// A page of another origin is refused, whatever host it names; so is a request without a
/// host.
pub proof fn foreign_pages_are_refused(request: RequestOrigin, host: Option<Seq<char>>)
    requires
        request.host !is Text || request.origin is Opaque || (request.host matches HeaderText::Text(
            authority,
        ) && request.origin matches HeaderText::Text(origin) && origin@ != "http://"@ + authority@),
    ensures
        !same_origin(request, host),
{
}

/// The name of a rejection policy in documents.
pub open spec fn policy_name(policy: RejectedExecutionHandler) -> Seq<char> {
    match policy {
        RejectedExecutionHandler::Abort => "abort"@,
        RejectedExecutionHandler::Discard => "discard"@,
        RejectedExecutionHandler::DiscardOldest => "discard_oldest"@,
        RejectedExecutionHandler::CallerRuns => "caller_runs"@,
    }
}

fn policy_text(policy: RejectedExecutionHandler) -> (name: &'static str)
    ensures
        name@ == policy_name(policy),
{
    match policy {
        RejectedExecutionHandler::Abort => "abort",
        RejectedExecutionHandler::Discard => "discard",
        RejectedExecutionHandler::DiscardOldest => "discard_oldest",
        RejectedExecutionHandler::CallerRuns => "caller_runs",
    }
}

pub open spec fn optional_count(n: Option<u64>) -> JsonView {
    match n {
        Some(n) => unsigned(n as nat),
        None => JsonView::Null,
    }
}

fn optional_count_document(n: Option<u64>) -> (v: Json)
    ensures
        v@ == optional_count(n),
{
    match n {
        Some(n) => Json::unsigned(n),
        None => Json::Null,
    }
}

pub open spec fn state_name(state: WorkerState) -> Seq<char> {
    match state {
        WorkerState::Idle => "idle"@,
        WorkerState::Busy => "busy"@,
    }
}

/// The document about one worker; its members stand in ascending order.
pub open spec fn worker_document(w: WorkerStats) -> JsonView {
    JsonView::Object(
        no_fields().push(("current_task_id"@, optional_count(w.current_task_id))).push(
            ("handled_task_count"@, unsigned(w.handled_task_count as nat)),
        ).push(("last_task_duration_ms"@, optional_count(w.last_task_duration_ms))).push(
            (
                "process_id"@,
                match w.process_id {
                    Some(pid) => unsigned(pid as nat),
                    None => JsonView::Null,
                },
            ),
        ).push(("state"@, JsonView::Text(state_name(w.state)))).push(
            ("state_for_ms"@, unsigned(w.state_for_ms as nat)),
        ).push(("uptime_ms"@, unsigned(w.uptime_ms as nat))).push(
            ("worker_id"@, unsigned(w.worker_id as nat)),
        ),
    )
}

/// The document about an initialized pool; its members stand in ascending order.
pub open spec fn stats_document(s: PoolStats) -> JsonView {
    JsonView::Object(
        no_fields().push(("busy_worker_count"@, unsigned(s.busy_worker_count as nat))).push(
            ("caller_runs_task_count"@, unsigned(s.caller_runs_task_count as nat)),
        ).push(("completed_task_count"@, unsigned(s.completed_task_count as nat))).push(
            ("core_pool_size"@, unsigned(s.core_pool_size as nat)),
        ).push(("failed_task_count"@, unsigned(s.failed_task_count as nat))).push(
            ("idle_worker_count"@, unsigned(s.idle_worker_count as nat)),
        ).push(("initialized"@, JsonView::Bool(true))).push(
            ("keep_alive_ms"@, unsigned(s.keep_alive_ms as nat)),
        ).push(("maximum_pool_size"@, unsigned(s.maximum_pool_size as nat))).push(
            ("queued_task_count"@, unsigned(s.queued_task_count as nat)),
        ).push(("rejected_task_count"@, unsigned(s.rejected_task_count as nat))).push(
            ("rejection_policy"@, JsonView::Text(policy_name(s.rejection_policy))),
        ).push(("work_queue_capacity"@, unsigned(s.work_queue_capacity as nat))).push(
            ("worker_count"@, unsigned(s.worker_count as nat)),
        ).push(
            (
                "workers"@,
                JsonView::Array(s.workers@.map_values(|w: WorkerStats| worker_document(w))),
            ),
        ),
    )
}

fn worker_to_json(w: &WorkerStats) -> (v: Json)
    ensures
        v@ == worker_document(*w),
{
    Fields::new().with("current_task_id", optional_count_document(w.current_task_id)).with(
        "handled_task_count",
        Json::unsigned(w.handled_task_count),
    ).with("last_task_duration_ms", optional_count_document(w.last_task_duration_ms)).with(
        "process_id",
        match w.process_id {
            Some(pid) => Json::unsigned(pid as u64),
            None => Json::Null,
        },
    ).with(
        "state",
        Json::text(
            match w.state {
                WorkerState::Idle => "idle",
                WorkerState::Busy => "busy",
            },
        ),
    ).with("state_for_ms", Json::unsigned(w.state_for_ms)).with(
        "uptime_ms",
        Json::unsigned(w.uptime_ms),
    ).with("worker_id", Json::unsigned(w.worker_id)).object()
}

/// The document about an initialized pool.
pub fn initialized_snapshot(stats: &PoolStats) -> (v: Json)
    ensures
        v@ == stats_document(*stats),
        at(v@, "busy_worker_count"@) == counted(stats.busy_worker_count as nat),
        at(v@, "idle_worker_count"@) == counted(stats.idle_worker_count as nat),
        at(v@, "worker_count"@) == counted(stats.worker_count as nat),
        at(v@, "completed_task_count"@) == counted(stats.completed_task_count as nat),
        at(v@, "failed_task_count"@) == counted(stats.failed_task_count as nat),
{
    proof {
        statistics_are_told_by_name(*stats);
    }
    let mut rows: Vec<Json> = Vec::new();
    let mut i: usize = 0;
    while i < stats.workers.len()
        invariant
            i <= stats.workers@.len(),
            rows@.len() == i,
            forall|j: int|
                0 <= j < i ==> (#[trigger] rows@[j])@ == worker_document(stats.workers@[j]),
        decreases stats.workers@.len() - i,
    {
        rows.push(worker_to_json(&stats.workers[i]));
        i = i + 1;
    }
    assert(models(rows@) =~= stats.workers@.map_values(|w: WorkerStats| worker_document(w)));
    Fields::new().with("busy_worker_count", Json::unsigned(stats.busy_worker_count as u64)).with(
        "caller_runs_task_count",
        Json::unsigned(stats.caller_runs_task_count),
    ).with("completed_task_count", Json::unsigned(stats.completed_task_count)).with(
        "core_pool_size",
        Json::unsigned(stats.core_pool_size as u64),
    ).with("failed_task_count", Json::unsigned(stats.failed_task_count)).with(
        "idle_worker_count",
        Json::unsigned(stats.idle_worker_count as u64),
    ).with("initialized", Json::Bool(true)).with(
        "keep_alive_ms",
        Json::unsigned(stats.keep_alive_ms),
    ).with("maximum_pool_size", Json::unsigned(stats.maximum_pool_size as u64)).with(
        "queued_task_count",
        Json::unsigned(stats.queued_task_count as u64),
    ).with("rejected_task_count", Json::unsigned(stats.rejected_task_count)).with(
        "rejection_policy",
        Json::text(policy_text(stats.rejection_policy)),
    ).with("work_queue_capacity", Json::unsigned(stats.work_queue_capacity as u64)).with(
        "worker_count",
        Json::unsigned(stats.worker_count as u64),
    ).with("workers", array(rows)).object()
}

/// An error of a remote call.
pub struct RpcError {
    pub code: i32,
    pub message: String,
    pub data: Option<Json>,
}

/// The answer to a remote call.
pub struct RpcResponse {
    pub id: Json,
    pub result: Option<Json>,
    pub error: Option<RpcError>,
}

/// The content of an [`RpcError`].
pub struct RpcErrorView {
    pub code: int,
    pub message: Seq<char>,
    pub data: Option<JsonView>,
}

/// The content of an [`RpcResponse`].
pub struct RpcResponseView {
    pub id: JsonView,
    pub result: Option<JsonView>,
    pub error: Option<RpcErrorView>,
}

impl View for RpcResponse {
    type V = RpcResponseView;

    open spec fn view(&self) -> RpcResponseView {
        RpcResponseView {
            id: self.id@,
            result: optional(self.result),
            error: match self.error {
                Some(e) => Some(
                    RpcErrorView { code: e.code as int, message: e.message@, data: optional(e.data) },
                ),
                None => None,
            },
        }
    }
}

pub open spec fn succeeded(id: JsonView, result: JsonView) -> RpcResponseView {
    RpcResponseView { id, result: Some(result), error: None }
}

pub open spec fn failed(
    id: JsonView,
    code: int,
    message: Seq<char>,
    data: Option<JsonView>,
) -> RpcResponseView {
    RpcResponseView { id, result: None, error: Some(RpcErrorView { code, message, data }) }
}

/// The code under which a pool's error is reported.
pub open spec fn error_code(e: ErrorView) -> int {
    match e {
        ErrorView::NotInitialized => -32006,
        ErrorView::AlreadyInitialized => -32007,
        ErrorView::InvalidConfig(_) => -32602,
        ErrorView::Rejected => -32001,
        ErrorView::Discarded => -32002,
        ErrorView::TaskTimeout { timeout_ms } => -32003,
        ErrorView::WorkerReturned { code, message, details } => -32004,
        ErrorView::Closed => -32005,
        ErrorView::SpawnFailed(_) => -32000,
        ErrorView::WorkerIo(_) => -32000,
        ErrorView::Protocol(_) => -32000,
        ErrorView::WorkerExited => -32000,
    }
}

/// A pool's error as an answer: its code, its sentence, and its developer notation.
pub open spec fn pool_failure(id: JsonView, e: ErrorView) -> RpcResponseView {
    failed(
        id,
        error_code(e),
        sentence(e),
        Some(JsonView::Object(no_fields().push(("kind"@, JsonView::Text(kind(e)))))),
    )
}

pub open spec fn code_number(code: int) -> NumberView {
    if code < 0 {
        NumberView::Negative(code as i64)
    } else {
        NumberView::Unsigned(code as u64)
    }
}

pub open spec fn rpc_error_document(e: RpcErrorView) -> JsonView {
    let fixed = no_fields().push(("code"@, JsonView::Number(code_number(e.code)))).push(
        ("message"@, JsonView::Text(e.message)),
    );
    JsonView::Object(
        match e.data {
            Some(data) => fixed.push(("data"@, data)),
            None => fixed,
        },
    )
}

/// The answer as a document; an absent result or error is left out.
pub open spec fn rpc_document(r: RpcResponseView) -> JsonView {
    let fixed = no_fields().push(("jsonrpc"@, JsonView::Text("2.0"@))).push(("id"@, r.id));
    let with_result = match r.result {
        Some(result) => fixed.push(("result"@, result)),
        None => fixed,
    };
    JsonView::Object(
        match r.error {
            Some(e) => with_result.push(("error"@, rpc_error_document(e))),
            None => with_result,
        },
    )
}

impl RpcResponse {
    pub fn success(id: Json, result: Json) -> (r: RpcResponse)
        ensures
            r@ == succeeded(id@, result@),
    {
        RpcResponse { id, result: Some(result), error: None }
    }

    pub fn error(id: Json, code: i32, message: String, data: Option<Json>) -> (r: RpcResponse)
        ensures
            r@ == failed(id@, code as int, message@, optional(data)),
    {
        RpcResponse { id, result: None, error: Some(RpcError { code, message, data }) }
    }

    /// The answer that reports a pool's error.
    pub fn pool_error(id: Json, error: PoolError) -> (r: RpcResponse)
        ensures
            r@ == pool_failure(id@, error@),
    {
        let code: i32 = match &error {
            PoolError::NotInitialized => -32006,
            PoolError::AlreadyInitialized => -32007,
            PoolError::InvalidConfig(_) => -32602,
            PoolError::Rejected => -32001,
            PoolError::Discarded => -32002,
            PoolError::TaskTimeout { timeout_ms } => -32003,
            PoolError::WorkerReturned { code, message, details } => -32004,
            PoolError::Closed => -32005,
            PoolError::SpawnFailed(_) => -32000,
            PoolError::WorkerIo(_) => -32000,
            PoolError::Protocol(_) => -32000,
            PoolError::WorkerExited => -32000,
        };
        let data = Fields::new().with("kind", Json::text(error.kind_text().as_str())).object();
        RpcResponse::error(id, code, error.message(), Some(data))
    }

    /// The answer as a document.
    pub fn document(&self) -> (v: Json)
        ensures
            v@ == rpc_document(self@),
    {
        let fixed = Fields::new().with("jsonrpc", Json::text("2.0")).with("id", self.id.clone());
        let with_result = match &self.result {
            Some(result) => fixed.with("result", result.clone()),
            None => fixed,
        };
        match &self.error {
            Some(e) => {
                let number = if e.code < 0 {
                    JsonNumber::Negative(e.code as i64)
                } else {
                    JsonNumber::Unsigned(e.code as u64)
                };
                let described = Fields::new().with("code", Json::Number(number)).with(
                    "message",
                    Json::text(e.message.as_str()),
                );
                let error = match &e.data {
                    Some(data) => described.with("data", data.clone()).object(),
                    None => described.object(),
                };
                with_result.with("error", error).object()
            },
            None => with_result.object(),
        }
    }
}

/// A remote call.
pub struct RpcRequest {
    pub jsonrpc: String,
    pub id: Json,
    pub method: String,
    pub params: Option<Json>,
}

/// What a remote call leads to.
pub enum RpcPlan {
    /// It is answered at once.
    Reply(RpcResponse),
    /// It is about conversations.
    Agents { id: Json, method: String, params: Json },
    /// The parameters are to be read, and the pool to be initialized.
    Initialize { id: Json, params: Json },
    /// The pool is to be warmed up.
    Prestart { id: Json },
    /// The parameters are to be read, and the task to be executed.
    Execute { id: Json, params: Json },
    /// The pool's state is asked for.
    Stats { id: Json },
}

/// The content of an [`RpcPlan`].
pub enum RpcPlanView {
    Reply(RpcResponseView),
    Agents { id: JsonView, method: Seq<char>, params: JsonView },
    Initialize { id: JsonView, params: JsonView },
    Prestart { id: JsonView },
    Execute { id: JsonView, params: JsonView },
    Stats { id: JsonView },
}

impl View for RpcPlan {
    type V = RpcPlanView;

    open spec fn view(&self) -> RpcPlanView {
        match *self {
            RpcPlan::Reply(r) => RpcPlanView::Reply(r@),
            RpcPlan::Agents { id, method, params } => RpcPlanView::Agents {
                id: id@,
                method: method@,
                params: params@,
            },
            RpcPlan::Initialize { id, params } => RpcPlanView::Initialize {
                id: id@,
                params: params@,
            },
            RpcPlan::Prestart { id } => RpcPlanView::Prestart { id: id@ },
            RpcPlan::Execute { id, params } => RpcPlanView::Execute { id: id@, params: params@ },
            RpcPlan::Stats { id } => RpcPlanView::Stats { id: id@ },
        }
    }
}

/// Whether a call carries no parameters.
pub open spec fn without_params(params: Option<JsonView>) -> bool {
    match params {
        None => true,
        Some(JsonView::Null) => true,
        Some(JsonView::Object(members)) => members.len() == 0,
        Some(_) => false,
    }
}

/// Whether a call carries no parameters.
pub fn empty_params(params: &Option<Json>) -> (yes: bool)
    ensures
        yes == without_params(optional(*params)),
{
    match params {
        None => true,
        Some(Json::Null) => true,
        Some(Json::Object(members)) => members.len() == 0,
        Some(_) => false,
    }
}

/// The document for a service without conversations.
pub open spec fn agents_disabled_document() -> JsonView {
    JsonView::Object(
        no_fields().push(("agents"@, JsonView::Array(Seq::empty()))).push(
            ("enabled"@, JsonView::Bool(false)),
        ).push(("reason"@, JsonView::Text("CC 管理仅在 loopback 监听地址启用"@))),
    )
}

pub open spec fn params_or(params: Option<JsonView>, otherwise: JsonView) -> JsonView {
    match params {
        Some(v) => v,
        None => otherwise,
    }
}

/// What a remote call leads to. `local` tells whether it comes from this machine and from no
/// foreign page, `agents` whether the service has conversations.
pub open spec fn planned(
    jsonrpc: Seq<char>,
    id: JsonView,
    method: Seq<char>,
    params: Option<JsonView>,
    local: bool,
    agents: bool,
) -> RpcPlanView {
    if jsonrpc != "2.0"@ {
        RpcPlanView::Reply(failed(id, -32600, "jsonrpc must be \"2.0\""@, None))
    } else if "cc."@.is_prefix_of(method) {
        if !local {
            RpcPlanView::Reply(failed(id, -32101, "CC 管理仅允许本机同源访问"@, None))
        } else if agents {
            RpcPlanView::Agents {
                id,
                method,
                params: params_or(params, JsonView::Object(no_fields())),
            }
        } else if method == "cc.status"@ {
            RpcPlanView::Reply(succeeded(id, agents_disabled_document()))
        } else {
            RpcPlanView::Reply(
                failed(id, -32101, "CC 管理未启用，请使用 127.0.0.1 监听地址"@, None),
            )
        }
    } else if method == "pool.initialize"@ {
        RpcPlanView::Initialize { id, params: params_or(params, JsonView::Null) }
    } else if method == "pool.prestart"@ {
        if without_params(params) {
            RpcPlanView::Prestart { id }
        } else {
            RpcPlanView::Reply(failed(id, -32602, "pool.prestart takes no parameters"@, None))
        }
    } else if method == "pool.execute"@ {
        RpcPlanView::Execute { id, params: params_or(params, JsonView::Null) }
    } else if method == "pool.stats"@ {
        RpcPlanView::Stats { id }
    } else {
        RpcPlanView::Reply(failed(id, -32601, "method not found"@, None))
    }
}

fn refuse(id: Json, code: i32, message: &str) -> (plan: RpcPlan)
    ensures
        plan@ == RpcPlanView::Reply(failed(id@, code as int, message@, None)),
{
    RpcPlan::Reply(RpcResponse::error(id, code, message.to_owned(), None))
}

/// Says what a remote call leads to.
pub fn plan_call(request: RpcRequest, local: bool, agents: bool) -> (plan: RpcPlan)
    ensures
        plan@ == planned(
            request.jsonrpc@,
            request.id@,
            request.method@,
            optional(request.params),
            local,
            agents,
        ),
{
    let id = request.id;
    let method = request.method;
    if !same_text(request.jsonrpc.as_str(), "2.0") {
        return refuse(id, -32600, "jsonrpc must be \"2.0\"");
    }
    if has_prefix(method.as_str(), "cc.") {
        if !local {
            return refuse(id, -32101, "CC 管理仅允许本机同源访问");
        }
        if agents {
            let params = match request.params {
                Some(v) => v,
                None => Fields::new().object(),
            };
            return RpcPlan::Agents { id, method, params };
        }
        if same_text(method.as_str(), "cc.status") {
            let none: Vec<Json> = Vec::new();
            let document = Fields::new().with("agents", array(none)).with(
                "enabled",
                Json::Bool(false),
            ).with("reason", Json::text("CC 管理仅在 loopback 监听地址启用")).object();
            assert(models(none@) =~= Seq::<JsonView>::empty());
            return RpcPlan::Reply(RpcResponse::success(id, document));
        }
        return refuse(id, -32101, "CC 管理未启用，请使用 127.0.0.1 监听地址");
    }
    if same_text(method.as_str(), "pool.initialize") {
        let params = match request.params {
            Some(v) => v,
            None => Json::Null,
        };
        return RpcPlan::Initialize { id, params };
    }
    if same_text(method.as_str(), "pool.prestart") {
        if !empty_params(&request.params) {
            return refuse(id, -32602, "pool.prestart takes no parameters");
        }
        return RpcPlan::Prestart { id };
    }
    if same_text(method.as_str(), "pool.execute") {
        let params = match request.params {
            Some(v) => v,
            None => Json::Null,
        };
        return RpcPlan::Execute { id, params };
    }
    if same_text(method.as_str(), "pool.stats") {
        return RpcPlan::Stats { id };
    }
    refuse(id, -32601, "method not found")
}

/// The seven parameters as a remote caller gives them: the factory is a registered name,
/// never a command.
pub struct InitializeParams {
    pub core_pool_size: usize,
    pub maximum_pool_size: usize,
    pub keep_alive_time: u64,
    pub time_unit: TimeUnit,
    pub work_queue: WorkQueueConfig,
    pub process_factory: String,
    pub rejected_execution_handler: RejectedExecutionHandler,
}

/// The configuration that a remote caller's parameters stand for.
pub open spec fn config_for(params: InitializeParams, factory: ProcessFactoryConfig) -> PoolConfig {
    PoolConfig {
        core_pool_size: params.core_pool_size,
        maximum_pool_size: params.maximum_pool_size,
        keep_alive_time: params.keep_alive_time,
        time_unit: params.time_unit,
        work_queue: params.work_queue,
        process_factory: factory,
        rejected_execution_handler: params.rejected_execution_handler,
    }
}

/// The parameters of a task.
pub struct ExecuteParams {
    pub payload: Json,
    pub timeout_ms: Option<u64>,
}

/// Words the failure to read the parameters of a task.
pub fn parse_execute_params(parsed: Result<ExecuteParams, String>) -> (params: Result<
    ExecuteParams,
    String,
>)
    ensures
        match (parsed, params) {
            (Ok(given), Ok(taken)) => taken == given,
            (Err(e), Err(why)) => why@ == "invalid pool.execute params: "@ + e@,
            _ => false,
        },
{
    match parsed {
        Ok(params) => Ok(params),
        Err(e) => Err("invalid pool.execute params: ".to_owned().concat(e.as_str())),
    }
}

/// The state of the service. `T` is what a task is answered through, `R` what a command to a
/// conversation is answered through.
pub struct AppState<T, R> {
    pool: Option<ProcessPool<T>>,
    factories: TextMap<ProcessFactoryConfig>,
    default_timeout: TimeSpan,
    agents: Option<AgentManager<R>>,
}

/// The content of an [`AppState`].
pub struct StateView<T, R> {
    pub pool: Option<PoolView<T>>,
    /// How the pool starts its workers.
    pub pool_factory: Option<FactoryView>,
    pub factories: Seq<(Seq<char>, ProcessFactoryConfig)>,
    pub default_timeout: TimeSpan,
    pub agents: Option<ManagerView<R>>,
}

impl<T, R> View for AppState<T, R> {
    type V = StateView<T, R>;

    closed spec fn view(&self) -> StateView<T, R> {
        StateView {
            pool: match self.pool {
                Some(pool) => Some(pool@),
                None => None,
            },
            pool_factory: match self.pool {
                Some(pool) => Some(pool.process_factory()@),
                None => None,
            },
            factories: self.factories@,
            default_timeout: self.default_timeout,
            agents: match self.agents {
                Some(agents) => Some(agents@),
                None => None,
            },
        }
    }
}

/// The service with a pool that has just been set up.
pub open spec fn initialized<T, R>(s: StateView<T, R>, config: PoolConfig) -> StateView<T, R> {
    StateView {
        pool: Some(empty_pool::<T>(limits_of(config))),
        pool_factory: Some(config.process_factory@),
        ..s
    }
}

/// An attempt to set the pool up: the state after it, and the error it ends with, if any.
pub open spec fn set_up<T, R>(s: StateView<T, R>, config: PoolConfig) -> (
    StateView<T, R>,
    Option<ErrorView>,
) {
    if s.pool is Some {
        (s, Some(ErrorView::AlreadyInitialized))
    } else {
        match complaint(config) {
            Some(why) => (s, Some(ErrorView::InvalidConfig(why))),
            None => (initialized(s, config), None),
        }
    }
}

/// A remote attempt to set the pool up: the factory has to be registered, and the parameters
/// are judged before the state of the service is.
pub open spec fn set_up_remotely<T, R>(s: StateView<T, R>, params: InitializeParams) -> (
    StateView<T, R>,
    Option<ErrorView>,
) {
    match found(s.factories, params.process_factory@) {
        None => (s, Some(unknown_factory(params.process_factory@))),
        Some(factory) => {
            let config = config_for(params, factory);
            match complaint(config) {
                Some(why) => (s, Some(ErrorView::InvalidConfig(why))),
                None => set_up(s, config),
            }
        },
    }
}

/// `v` is the document about a pool in state `s`.
pub open spec fn depicts<T>(v: JsonView, s: PoolView<T>, now: TimeSpan) -> bool {
    exists|stats: PoolStats| #[trigger]
        describes(stats, s, now) && stats.worker_count == stats.idle_worker_count
            + stats.busy_worker_count && v == stats_document(stats)
}

/// The document for a service without a pool.
pub open spec fn uninitialized_document() -> JsonView {
    JsonView::Object(no_fields().push(("initialized"@, JsonView::Bool(false))))
}

/// The milliseconds that a task gets where its caller asks for no other time: those of the
/// default, cut to 64 bits.
pub open spec fn default_millis(span: TimeSpan) -> int {
    (span.nanos / NANOS_PER_MILLI) as int % 0x1_0000_0000_0000_0000
}

/// The time that a task gets.
pub open spec fn time_for(timeout_ms: Option<u64>, default_timeout: TimeSpan) -> TimeSpan {
    let ms = match timeout_ms {
        Some(ms) => ms as int,
        None => default_millis(default_timeout),
    };
    TimeSpan { nanos: (ms * NANOS_PER_MILLI) as u128 }
}

/// Why an unknown factory is refused.
pub open spec fn unknown_factory(name: Seq<char>) -> ErrorView {
    ErrorView::InvalidConfig("unknown registered process_factory: "@ + name)
}

/// What has to be ended when the service ends.
pub struct Shutdown<T> {
    /// The conversation processes to stop first.
    pub conversations: Vec<Target>,
    /// What the pool then leaves to do.
    pub notices: Vec<Notice<T>>,
}

impl<T, R> AppState<T, R> {
    pub closed spec fn ordered(&self) -> bool {
        &&& self.factories.well_formed()
        &&& self.pool matches Some(pool) ==> pool.well_formed()
        &&& self.agents matches Some(agents) ==> agents.well_formed()
    }

    /// What every operation keeps up.
    pub open spec fn well_formed(&self) -> bool {
        self.ordered()
    }

    /// A service without a pool.
    pub fn new(factories: TextMap<ProcessFactoryConfig>, default_timeout: TimeSpan) -> (state:
        AppState<T, R>)
        requires
            factories.well_formed(),
        ensures
            state.well_formed(),
            state@ == (StateView::<T, R> {
                pool: None,
                pool_factory: None,
                factories: factories@,
                default_timeout,
                agents: None,
            }),
    {
        AppState { pool: None, factories, default_timeout, agents: None }
    }

    /// The service with conversations. Meant for a service that listens on this machine only.
    pub fn with_agents(self, agents: AgentManager<R>) -> (state: AppState<T, R>)
        requires
            self.well_formed(),
            agents.well_formed(),
        ensures
            state.well_formed(),
            state@ == (StateView { agents: Some(agents@), ..self@ }),
    {
        AppState {
            pool: self.pool,
            factories: self.factories,
            default_timeout: self.default_timeout,
            agents: Some(agents),
        }
    }

    /// Sets the pool up from a trusted configuration. Only the first attempt with a usable
    /// configuration succeeds; it starts no workers.
    pub fn initialize_local(&mut self, config: PoolConfig, now: TimeSpan) -> (outcome: Result<
        Json,
        PoolError,
    >)
        requires
            old(self).well_formed(),
        ensures
            final(self).well_formed(),
            final(self)@ == set_up(old(self)@, config).0,
            match outcome {
                Ok(v) => set_up(old(self)@, config).1 is None && (final(self)@.pool matches Some(s)
                    && depicts(v@, s, now)),
                Err(e) => set_up(old(self)@, config).1 == Some(e@),
            },
    {
        if self.pool.is_some() {
            return Err(PoolError::AlreadyInitialized);
        }
        match ProcessPool::<T>::new(config) {
            Err(e) => Err(e),
            Ok(pool) => match pool.stats(now) {
                Err(e) => Err(e),
                Ok(stats) => {
                    self.pool = Some(pool);
                    assert(describes(stats, empty_pool::<T>(limits_of(config)), now));
                    Ok(initialized_snapshot(&stats))
                },
            },
        }
    }

    /// Sets the pool up as a remote caller asks. The factory has to be registered, the
    /// parameters have to be usable, and there must not be a pool yet.
    pub fn initialize(&mut self, params: InitializeParams, now: TimeSpan) -> (outcome: Result<
        Json,
        PoolError,
    >)
        requires
            old(self).well_formed(),
        ensures
            final(self).well_formed(),
            final(self)@ == set_up_remotely(old(self)@, params).0,
            match outcome {
                Ok(v) => set_up_remotely(old(self)@, params).1 is None && (final(
                    self)@.pool matches Some(s) && depicts(v@, s, now)),
                Err(e) => set_up_remotely(old(self)@, params).1 == Some(e@),
            },
            outcome is Ok ==> (final(self)@.pool matches Some(pool) && {
                &&& pool.limits.core == params.core_pool_size
                &&& pool.limits.maximum == params.maximum_pool_size
                &&& pool.limits.keep_alive.nanos == params.keep_alive_time * nanos_per(
                    params.time_unit,
                )
                &&& params.work_queue == (WorkQueueConfig::Bounded {
                    capacity: pool.limits.capacity,
                })
                &&& pool.limits.policy == params.rejected_execution_handler
            }),
    {
        proof {
            if set_up_remotely(self@, params).1 is None {
                remote_parameters_decide_the_pool(self@, params);
            }
        }
        let factory = match self.factories.get(params.process_factory.as_str()) {
            Some(factory) => factory.clone(),
            None => {
                return Err(
                    PoolError::InvalidConfig(
                        "unknown registered process_factory: ".to_owned().concat(
                            params.process_factory.as_str(),
                        ),
                    ),
                );
            },
        };
        match PoolConfig::new(
            params.core_pool_size,
            params.maximum_pool_size,
            params.keep_alive_time,
            params.time_unit,
            params.work_queue,
            factory,
            params.rejected_execution_handler,
        ) {
            Err(e) => Err(e),
            Ok(config) => self.initialize_local(config, now),
        }
    }

    /// The pool, where there is one.
    pub fn get_pool(&self) -> (pool: Result<&ProcessPool<T>, PoolError>)
        requires
            self.well_formed(),
        ensures
            match pool {
                Ok(pool) => self@.pool == Some(pool@) && pool.well_formed() && self@.pool_factory
                    == Some(pool.process_factory()@),
                Err(e) => self@.pool is None && e@ == ErrorView::NotInitialized,
            },
    {
        match &self.pool {
            Some(pool) => Ok(pool),
            None => Err(PoolError::NotInitialized),
        }
    }

    /// Warms the pool up.
    pub fn prestart(&mut self) -> (step: Result<Step<T>, PoolError>)
        requires
            old(self).well_formed(),
            old(self)@.pool matches Some(s) ==> s.stage is Ready,
        ensures
            final(self).well_formed(),
            match old(self)@.pool {
                None => final(self)@ == old(self)@ && (step matches Err(e) && e@
                    == ErrorView::NotInitialized),
                Some(s) => match step {
                    Ok(step) => s.open && step@ == prestart(s).1 && final(self)@ == (StateView {
                        pool: Some(prestart(s).0),
                        ..old(self)@
                    }),
                    Err(e) => !s.open && e@ == ErrorView::Closed && final(self)@ == old(self)@,
                },
            },
    {
        match &mut self.pool {
            Some(pool) => pool.prestart_core_workers(),
            None => Err(PoolError::NotInitialized),
        }
    }

    /// Hands a task to the pool.
    pub fn execute(&mut self, params: ExecuteParams, ticket: T, now: TimeSpan) -> (step: Result<
        Step<T>,
        PoolError,
    >)
        requires
            old(self).well_formed(),
            old(self)@.pool matches Some(s) ==> s.stage is Ready && countable(s),
        ensures
            final(self).well_formed(),
            match old(self)@.pool {
                None => final(self)@ == old(self)@ && (step matches Err(e) && e@
                    == ErrorView::NotInitialized),
                Some(s) => match step {
                    Ok(step) => {
                        let m = submitted(
                            s,
                            params.payload,
                            time_for(params.timeout_ms, old(self)@.default_timeout),
                            ticket,
                            now,
                        );
                        s.open && step@ == m.1 && final(self)@ == (StateView {
                            pool: Some(m.0),
                            ..old(self)@
                        })
                    },
                    Err(e) => !s.open && e@ == ErrorView::Closed && final(self)@ == old(self)@,
                },
            },
            (old(self)@.pool is Some && step is Ok) ==> forall|job: Job<T>| #[trigger]
                hands_on(old(self)@.pool->0, final(self)@.pool->0, step->Ok_0@, job) ==> {
                    &&& job.payload == params.payload
                    &&& job.ticket == ticket
                    &&& params.timeout_ms matches Some(ms) ==> job.timeout.nanos == ms * 1_000_000
                },
    {
        proof {
            if let Some(s) = self@.pool {
                let timeout = time_for(params.timeout_ms, self@.default_timeout);
                let m = submitted(s, params.payload, timeout, ticket, now);
                assert forall|job: Job<T>| #[trigger] hands_on(s, m.0, m.1, job) implies job.payload
                    == params.payload && job.ticket == ticket && (params.timeout_ms matches Some(ms)
                    ==> job.timeout.nanos == ms * 1_000_000) by {
                    tasks_are_handed_on_unchanged(s, params.payload, timeout, ticket, now, job);
                }
            }
        }
        let ms: u64 = match params.timeout_ms {
            Some(ms) => ms,
            None => {
                let all: u128 = self.default_timeout.nanos / NANOS_PER_MILLI;
                let cut: u64 = #[verifier::truncate] (all as u64);
                assert(cut == all % 0x1_0000_0000_0000_0000u128) by (bit_vector)
                    requires
                        cut == all as u64,
                ;
                cut
            },
        };
        let timeout = TimeSpan::from_millis(ms);
        match &mut self.pool {
            Some(pool) => pool.execute(params.payload, timeout, ticket, now),
            None => Err(PoolError::NotInitialized),
        }
    }

    /// Whether the pool, where there is one, can take a report or a command.
    pub fn is_ready(&self) -> (yes: bool)
        requires
            self.well_formed(),
        ensures
            yes == (self@.pool matches Some(s) ==> s.stage is Ready),
    {
        match &self.pool {
            Some(pool) => pool.is_ready(),
            None => true,
        }
    }

    /// Whether every counter of the pool, where there is one, can still be raised.
    pub fn has_room(&self) -> (yes: bool)
        requires
            self.well_formed(),
        ensures
            yes == (self@.pool matches Some(s) ==> countable(s)),
    {
        match &self.pool {
            Some(pool) => pool.has_room(),
            None => true,
        }
    }

    /// Takes a report for the pool. Without a pool there is nothing to do (`None`).
    pub fn report(&mut self, report: Report<T>, now: TimeSpan) -> (step: Option<Step<T>>)
        requires
            old(self).well_formed(),
            old(self)@.pool matches Some(s) ==> countable(s) && (report is Worker || report is Tick
                ==> s.stage is Ready),
        ensures
            final(self).well_formed(),
            final(self)@ == (StateView { pool: final(self)@.pool, ..old(self)@ }),
            match (old(self)@.pool, final(self)@.pool, step) {
                (Some(s), Some(after), Some(step)) => crate::pool::advances(
                    s,
                    report,
                    now,
                    after,
                    step@,
                ),
                (None, None, None) => true,
                _ => false,
            },
    {
        match &mut self.pool {
            Some(pool) => Some(pool.report(report, now)),
            None => None,
        }
    }

    /// The document about the pool, or about its absence.
    pub fn snapshot(&self, now: TimeSpan) -> (outcome: Result<Json, PoolError>)
        requires
            self.well_formed(),
        ensures
            match self@.pool {
                None => outcome matches Ok(v) && v@ == uninitialized_document(),
                Some(s) => match outcome {
                    Ok(v) => s.open && depicts(v@, s, now),
                    Err(e) => !s.open && e@ == ErrorView::Closed,
                },
            },
    {
        match &self.pool {
            None => Ok(Fields::new().with("initialized", Json::Bool(false)).object()),
            Some(pool) => match pool.stats(now) {
                Err(e) => Err(e),
                Ok(stats) => {
                    assert(describes(stats, pool@, now));
                    Ok(initialized_snapshot(&stats))
                },
            },
        }
    }

    /// The conversations, where the service has any.
    pub fn agents(&self) -> (agents: Option<&AgentManager<R>>)
        requires
            self.well_formed(),
        ensures
            match agents {
                Some(agents) => self@.agents == Some(agents@) && agents.well_formed(),
                None => self@.agents is None,
            },
    {
        match &self.agents {
            Some(agents) => Some(agents),
            None => None,
        }
    }

    /// Says what a remote call leads to.
    pub fn rpc(&self, request: RpcRequest, origin: &RequestOrigin) -> (plan: RpcPlan)
        ensures
            plan@ == planned(
                request.jsonrpc@,
                request.id@,
                request.method@,
                optional(request.params),
                permitted(*origin),
                self@.agents is Some,
            ),
    {
        let local: bool = local_same_origin(origin);
        plan_call(request, local, self.agents.is_some())
    }

    /// Ends the service: no conversation and no pool is left.
    pub fn shutdown(&mut self) -> (rest: Shutdown<T>)
        requires
            old(self).well_formed(),
            old(self)@.pool matches Some(s) ==> s.stage is Ready,
        ensures
            final(self).well_formed(),
            final(self)@ == (StateView {
                pool: None,
                pool_factory: None,
                agents: match old(self)@.agents {
                    Some(m) => Some(ManagerView { closed: true, ..m }),
                    None => None,
                },
                ..old(self)@
            }),
            crate::agents::targets(rest.conversations@) == (match old(self)@.agents {
                Some(m) => crate::agents::stop_list(m.agents),
                None => Seq::empty(),
            }),
            match old(self)@.pool {
                Some(s) => if s.open {
                    exists|ids: Seq<u64>| #[trigger]
                        lists(ids, s.workers) && notice_views(rest.notices@) == stops(ids)
                            + refusals(s.queue, ErrorView::Closed)
                } else {
                    rest.notices@.len() == 0
                },
                None => rest.notices@.len() == 0,
            },
    {
        let conversations = match &mut self.agents {
            Some(agents) => agents.shutdown(),
            None => Vec::new(),
        };
        assert(self@.agents is None ==> crate::agents::targets(conversations@) =~= Seq::<
            (Seq<char>, u64),
        >::empty());
        let mut pool = None;
        std::mem::swap(&mut pool, &mut self.pool);
        let notices = match pool {
            Some(mut pool) => match pool.shutdown() {
                Ok(notices) => notices,
                Err(_) => Vec::new(),
            },
            None => Vec::new(),
        };
        Shutdown { conversations, notices }
    }
}

impl<T, R> AppState<T, R> {
    /// The conversations, to be worked on in place.
    pub fn agents_mut(&mut self) -> (agents: Option<&mut AgentManager<R>>)
        requires
            old(self).well_formed(),
        ensures
            match agents {
                Some(agents) => {
                    &&& old(self)@.agents == Some(agents@)
                    &&& agents.well_formed()
                    &&& final(self)@ == (StateView {
                        agents: Some(final(agents)@),
                        ..old(self)@
                    })
                    &&& final(agents).well_formed() ==> final(self).well_formed()
                },
                None => {
                    &&& old(self)@.agents is None
                    &&& final(self)@ == old(self)@
                    &&& final(self).well_formed()
                },
            },
    {
        match &mut self.agents {
            Some(agents) => Some(agents),
            None => None,
        }
    }

    /// Answers a call that initializes the pool; `params` are the parameters as they were read.
    pub fn answer_initialize(
        &mut self,
        id: Json,
        params: Result<InitializeParams, String>,
        now: TimeSpan,
    ) -> (r: RpcResponse)
        requires
            old(self).well_formed(),
        ensures
            final(self).well_formed(),
            match params {
                Err(e) => final(self)@ == old(self)@ && r@ == failed(
                    id@,
                    -32602,
                    "invalid initialization params: "@ + e@,
                    None,
                ) && r@ == unreadable_answer(id@, "invalid initialization params: "@ + e@),
                Ok(params) => {
                    &&& final(self)@ == set_up_remotely(old(self)@, params).0
                    &&& match set_up_remotely(old(self)@, params).1 {
                        Some(e) => r@ == pool_failure(id@, e),
                        None => exists|v: JsonView| #[trigger]
                            depicts(v, final(self)@.pool->0, now) && r@ == succeeded(id@, v),
                    }
                },
            },
    {
        match params {
            Err(e) => RpcResponse::error(
                id,
                -32602,
                "invalid initialization params: ".to_owned().concat(e.as_str()),
                None,
            ),
            Ok(params) => match self.initialize(params, now) {
                Ok(v) => RpcResponse::success(id, v),
                Err(e) => RpcResponse::pool_error(id, e),
            },
        }
    }

    /// Answers a call for the pool's state.
    pub fn answer_stats(&self, id: Json, now: TimeSpan) -> (r: RpcResponse)
        requires
            self.well_formed(),
        ensures
            match self@.pool {
                None => r@ == succeeded(id@, uninitialized_document()),
                Some(s) => if s.open {
                    exists|v: JsonView| #[trigger]
                        depicts(v, s, now) && r@ == succeeded(id@, v)
                } else {
                    r@ == pool_failure(id@, ErrorView::Closed)
                },
            },
    {
        match self.snapshot(now) {
            Ok(v) => RpcResponse::success(id, v),
            Err(e) => RpcResponse::pool_error(id, e),
        }
    }

    /// Answers a request for the pool's state.
    pub fn stats_api(&self, now: TimeSpan) -> (answer: HttpAnswer)
        requires
            self.well_formed(),
        ensures
            match self@.pool {
                None => answer@ == http(200, true, uninitialized_document()),
                Some(s) => if s.open {
                    exists|v: JsonView| #[trigger]
                        depicts(v, s, now) && answer@ == http(200, true, v)
                } else {
                    answer@ == http(503, false, one_text("error"@, sentence(ErrorView::Closed)))
                },
            },
    {
        match self.snapshot(now) {
            Ok(body) => HttpAnswer { status: 200, no_store: true, body },
            Err(e) => HttpAnswer {
                status: 503,
                no_store: false,
                body: Fields::new().with("error", Json::text(e.message().as_str())).object(),
            },
        }
    }

    /// Answers whether the service can take tasks: it can once there is a pool, with or
    /// without workers.
    pub fn readiness(&self, now: TimeSpan) -> (answer: HttpAnswer)
        requires
            self.well_formed(),
        ensures
            answer@ == ready_answer(self@.pool),
    {
        match &self.pool {
            None => HttpAnswer {
                status: 503,
                no_store: false,
                body: Fields::new().with("reason", Json::text("pool_not_initialized")).with(
                    "status",
                    Json::text("not_ready"),
                ).object(),
            },
            Some(pool) => match pool.stats(now) {
                Ok(stats) => HttpAnswer {
                    status: 200,
                    no_store: false,
                    body: Fields::new().with("status", Json::text("ready")).with(
                        "workers",
                        Json::unsigned(stats.worker_count as u64),
                    ).object(),
                },
                Err(e) => HttpAnswer {
                    status: 503,
                    no_store: false,
                    body: Fields::new().with("error", Json::text(e.message().as_str())).with(
                        "status",
                        Json::text("not_ready"),
                    ).object(),
                },
            },
        }
    }

    /// Answers which factories are registered: their names only, in ascending order.
    pub fn factories_api(&self) -> (answer: HttpAnswer)
        requires
            self.well_formed(),
        ensures
            answer@ == http(
                200,
                true,
                JsonView::Object(
                    no_fields().push(("factories"@, JsonView::Array(names_of(self@.factories)))),
                ),
            ),
            answer@ == factories_answer(self@.factories),
    {
        let mut names: Vec<Json> = Vec::new();
        let mut i: usize = 0;
        while i < self.factories.len()
            invariant
                i <= self.factories@.len(),
                names@.len() == i,
                forall|j: int|
                    0 <= j < i ==> (#[trigger] names@[j])@ == JsonView::Text(self.factories@[j].0),
            decreases self.factories@.len() - i,
        {
            names.push(Json::text(self.factories.key_at(i)));
            i = i + 1;
        }
        assert(models(names@) =~= names_of(self.factories@));
        HttpAnswer {
            status: 200,
            no_store: true,
            body: Fields::new().with("factories", array(names)).object(),
        }
    }
}

/// The answer to a plain request.
pub struct HttpAnswer {
    pub status: u16,
    /// Whether the answer must not be kept.
    pub no_store: bool,
    pub body: Json,
}

/// The content of an [`HttpAnswer`].
pub struct HttpView {
    pub status: u16,
    pub no_store: bool,
    pub body: JsonView,
}

impl View for HttpAnswer {
    type V = HttpView;

    open spec fn view(&self) -> HttpView {
        http(self.status, self.no_store, self.body@)
    }
}

pub open spec fn http(status: u16, no_store: bool, body: JsonView) -> HttpView {
    HttpView { status, no_store, body }
}

pub open spec fn one_text(name: Seq<char>, text: Seq<char>) -> JsonView {
    JsonView::Object(no_fields().push((name, JsonView::Text(text))))
}

/// The names of registered factories.
pub open spec fn names_of(factories: Seq<(Seq<char>, ProcessFactoryConfig)>) -> Seq<JsonView> {
    factories.map_values(|e: (Seq<char>, ProcessFactoryConfig)| JsonView::Text(e.0))
}

/// Whether the service can take tasks, as an answer.
pub open spec fn ready_answer<T>(pool: Option<PoolView<T>>) -> HttpView {
    match pool {
        None => http(
            503,
            false,
            JsonView::Object(
                no_fields().push(("reason"@, JsonView::Text("pool_not_initialized"@))).push(
                    ("status"@, JsonView::Text("not_ready"@)),
                ),
            ),
        ),
        Some(s) => if s.open {
            http(
                200,
                false,
                JsonView::Object(
                    no_fields().push(("status"@, JsonView::Text("ready"@))).push(
                        ("workers"@, unsigned(s.workers.len())),
                    ),
                ),
            )
        } else {
            http(
                503,
                false,
                JsonView::Object(
                    no_fields().push(
                        ("error"@, JsonView::Text(sentence(ErrorView::Closed))),
                    ).push(("status"@, JsonView::Text("not_ready"@))),
                ),
            )
        },
    }
}

/// The answer of a service that is alive.
pub open spec fn alive_answer() -> HttpView {
    http(200, false, one_text("status"@, "ok"@))
}

/// The answer with the names of registered factories.
pub open spec fn factories_answer(
    factories: Seq<(Seq<char>, ProcessFactoryConfig)>,
) -> HttpView {
    http(
        200,
        true,
        JsonView::Object(no_fields().push(("factories"@, JsonView::Array(names_of(factories))))),
    )
}

/// The answer to a call that warms the pool up.
pub open spec fn prestart_answer(
    id: JsonView,
    outcome: Result<usize, ErrorView>,
) -> RpcResponseView {
    match outcome {
        Ok(count) => succeeded(
            id,
            JsonView::Object(no_fields().push(("started_worker_count"@, unsigned(count as nat)))),
        ),
        Err(e) => pool_failure(id, e),
    }
}

/// The answer to a call that executes a task.
pub open spec fn execute_answer(
    id: JsonView,
    outcome: Result<JsonView, ErrorView>,
) -> RpcResponseView {
    match outcome {
        Ok(v) => succeeded(id, v),
        Err(e) => pool_failure(id, e),
    }
}

/// The answer to a call about conversations.
pub open spec fn agents_answer(
    id: JsonView,
    outcome: Result<JsonView, Seq<char>>,
) -> RpcResponseView {
    match outcome {
        Ok(v) => succeeded(id, v),
        Err(why) => failed(id, -32100, why, None),
    }
}

/// The answer to a call whose parameters cannot be read.
pub open spec fn unreadable_answer(id: JsonView, why: Seq<char>) -> RpcResponseView {
    failed(id, -32602, why, None)
}

/// Answers whether the service is alive.
pub fn health() -> (answer: HttpAnswer)
    ensures
        answer@ == http(200, false, one_text("status"@, "ok"@)),
        answer@ == alive_answer(),
{
    HttpAnswer {
        status: 200,
        no_store: false,
        body: Fields::new().with("status", Json::text("ok")).object(),
    }
}

/// Answers a call about conversations.
pub fn answer_agents(id: Json, outcome: Result<Json, String>) -> (r: RpcResponse)
    ensures
        match outcome {
            Ok(v) => r@ == succeeded(id@, v@),
            Err(why) => r@ == failed(id@, -32100, why@, None),
        },
        r@ == agents_answer(id@, result_view(outcome)),
{
    match outcome {
        Ok(v) => RpcResponse::success(id, v),
        Err(why) => RpcResponse::error(id, -32100, why, None),
    }
}

/// Answers a call that warms the pool up.
pub fn answer_prestart(id: Json, outcome: Result<usize, PoolError>) -> (r: RpcResponse)
    ensures
        match outcome {
            Ok(count) => r@ == succeeded(
                id@,
                JsonView::Object(
                    no_fields().push(("started_worker_count"@, unsigned(count as nat))),
                ),
            ),
            Err(e) => r@ == pool_failure(id@, e@),
        },
        prestart_view(Some(outcome)) matches Some(told) && r@ == prestart_answer(id@, told),
{
    match outcome {
        Ok(count) => RpcResponse::success(
            id,
            Fields::new().with("started_worker_count", Json::unsigned(count as u64)).object(),
        ),
        Err(e) => RpcResponse::pool_error(id, e),
    }
}

/// Answers a call that executes a task.
pub fn answer_execute(id: Json, outcome: TaskOutcome) -> (r: RpcResponse)
    ensures
        match outcome {
            Ok(v) => r@ == succeeded(id@, v@),
            Err(e) => r@ == pool_failure(id@, e@),
        },
        r@ == execute_answer(id@, outcome_view(outcome)),
{
    match outcome {
        Ok(v) => RpcResponse::success(id, v),
        Err(e) => RpcResponse::pool_error(id, e),
    }
}

/// Answers a call that executes a task whose parameters cannot be read.
pub fn refuse_execute(id: Json, why: String) -> (r: RpcResponse)
    ensures
        r@ == failed(id@, -32602, why@, None),
        r@ == unreadable_answer(id@, why@),
{
    RpcResponse::error(id, -32602, why, None)
}

/// A file of the web interface.
pub struct Asset {
    pub status: u16,
    pub content_type: &'static str,
    pub file: &'static str,
    /// The content security policy, where the file has one.
    pub policy: Option<&'static str>,
}

/// The name and the value of headers.
pub open spec fn header_views(headers: Seq<(&'static str, &'static str)>) -> Seq<
    (Seq<char>, Seq<char>),
> {
    headers.map_values(|h: (&'static str, &'static str)| (h.0@, h.1@))
}

/// The headers of a file: it must not be kept, and not be taken for another type than it has.
pub open spec fn file_headers(content_type: Seq<char>, policy: Option<Seq<char>>) -> Seq<
    (Seq<char>, Seq<char>),
> {
    let fixed = seq![
        ("content-type"@, content_type),
        ("cache-control"@, "no-store"@),
        ("x-content-type-options"@, "nosniff"@),
    ];
    match policy {
        Some(policy) => fixed.push(("content-security-policy"@, policy)),
        None => fixed,
    }
}

/// The headers of the file behind a path.
pub open spec fn page_headers(path: Seq<char>) -> Option<Seq<(Seq<char>, Seq<char>)>> {
    match asset_for(path) {
        Some((content_type, file, has_policy)) => Some(
            file_headers(
                content_type,
                if has_policy {
                    Some(page_policy())
                } else {
                    None
                },
            ),
        ),
        None => None,
    }
}

impl Asset {
    /// The headers that the file is answered with.
    pub open spec fn header_lines(&self) -> Seq<(Seq<char>, Seq<char>)> {
        file_headers(
            self.content_type@,
            match self.policy {
                Some(policy) => Some(policy@),
                None => None,
            },
        )
    }

    /// The headers that the file is answered with.
    pub fn headers(&self) -> (headers: Vec<(&'static str, &'static str)>)
        ensures
            header_views(headers@) == self.header_lines(),
    {
        let mut headers: Vec<(&'static str, &'static str)> = Vec::new();
        headers.push(("content-type", self.content_type));
        headers.push(("cache-control", "no-store"));
        headers.push(("x-content-type-options", "nosniff"));
        if let Some(policy) = self.policy {
            headers.push(("content-security-policy", policy));
        }
        assert(header_views(headers@) =~= self.header_lines());
        headers
    }
}

/// The file behind a path: its content type, its name, and whether it has a content security
/// policy.
pub open spec fn asset_for(path: Seq<char>) -> Option<(Seq<char>, Seq<char>, bool)> {
    if path == "/"@ {
        Some(("text/html; charset=utf-8"@, "index.html"@, true))
    } else if path == "/assets/dashboard.css"@ {
        Some(("text/css; charset=utf-8"@, "dashboard.css"@, false))
    } else if path == "/assets/dashboard.js"@ {
        Some(("text/javascript; charset=utf-8"@, "dashboard.js"@, false))
    } else if path == "/assets/rpc-client.js"@ {
        Some(("text/javascript; charset=utf-8"@, "rpc-client.js"@, false))
    } else if path == "/assets/debugger.js"@ {
        Some(("text/javascript; charset=utf-8"@, "debugger.js"@, false))
    } else if path == "/assets/agents.js"@ {
        Some(("text/javascript; charset=utf-8"@, "agents.js"@, false))
    } else {
        None
    }
}

pub open spec fn page_policy() -> Seq<char> {
    "default-src 'self'; script-src 'self'; style-src 'self'; img-src 'self' data:; connect-src 'self'; base-uri 'none'; frame-ancestors 'none'"@
}

/// The file behind a path.
pub fn static_asset(path: &str) -> (asset: Option<Asset>)
    ensures
        match (asset_for(path@), asset) {
            (Some((content_type, file, has_policy)), Some(asset)) => {
                &&& asset.status == 200
                &&& asset.content_type@ == content_type
                &&& asset.file@ == file
                &&& page_headers(path@) == Some(asset.header_lines())
                &&& match asset.policy {
                    Some(policy) => has_policy && policy@ == page_policy(),
                    None => !has_policy,
                }
            },
            (None, None) => true,
            _ => false,
        },
{
    let css: &'static str = "text/css; charset=utf-8";
    let js: &'static str = "text/javascript; charset=utf-8";
    if same_text(path, "/") {
        Some(
            Asset {
                status: 200,
                content_type: "text/html; charset=utf-8",
                file: "index.html",
                policy: Some(
                    "default-src 'self'; script-src 'self'; style-src 'self'; img-src 'self' data:; connect-src 'self'; base-uri 'none'; frame-ancestors 'none'",
                ),
            },
        )
    } else if same_text(path, "/assets/dashboard.css") {
        Some(Asset { status: 200, content_type: css, file: "dashboard.css", policy: None })
    } else if same_text(path, "/assets/dashboard.js") {
        Some(Asset { status: 200, content_type: js, file: "dashboard.js", policy: None })
    } else if same_text(path, "/assets/rpc-client.js") {
        Some(Asset { status: 200, content_type: js, file: "rpc-client.js", policy: None })
    } else if same_text(path, "/assets/debugger.js") {
        Some(Asset { status: 200, content_type: js, file: "debugger.js", policy: None })
    } else if same_text(path, "/assets/agents.js") {
        Some(Asset { status: 200, content_type: js, file: "agents.js", policy: None })
    } else {
        None
    }
}

/// Every file of the web interface is answered with its own content type, is not to be kept, and
/// is not to be taken for another type; the page itself has a content security policy.
pub proof fn pages_are_served_safely(path: Seq<char>)
    ensures
        page_headers(path) is Some <==> asset_for(path) is Some,
        match (asset_for(path), page_headers(path)) {
            (Some((content_type, file, has_policy)), Some(headers)) => {
                &&& headers.contains(("content-type"@, content_type))
                &&& headers.contains(("cache-control"@, "no-store"@))
                &&& headers.contains(("x-content-type-options"@, "nosniff"@))
                &&& path == "/"@ ==> headers.contains(("content-security-policy"@, page_policy()))
            },
            _ => true,
        },
{
    if let Some(headers) = page_headers(path) {
        let content_type = (asset_for(path)->0).0;
        assert(headers[0] == ("content-type"@, content_type));
        assert(headers[1] == ("cache-control"@, "no-store"@));
        assert(headers[2] == ("x-content-type-options"@, "nosniff"@));
        if path == "/"@ {
            assert(headers[3] == ("content-security-policy"@, page_policy()));
        }
    }
}

/// Every answer carries either a result or an error, and the identifier of its call.
pub proof fn answers_have_a_result_or_an_error(
    id: JsonView,
    result: JsonView,
    code: int,
    message: Seq<char>,
    data: Option<JsonView>,
    e: ErrorView,
)
    ensures
        succeeded(id, result).id == id && succeeded(id, result).result is Some && succeeded(
            id,
            result,
        ).error is None,
        failed(id, code, message, data).id == id && failed(id, code, message, data).result is None
            && failed(id, code, message, data).error is Some,
        pool_failure(id, e).id == id && pool_failure(id, e).error is Some,
{
}

/// A call about conversations reaches them only from this machine and from no foreign page.
pub proof fn conversations_are_local(
    jsonrpc: Seq<char>,
    id: JsonView,
    method: Seq<char>,
    params: Option<JsonView>,
    local: bool,
    agents: bool,
)
    ensures
        planned(jsonrpc, id, method, params, local, agents) is Agents ==> local && agents
            && "cc."@.is_prefix_of(method),
        "cc."@.is_prefix_of(method) && !local ==> planned(
            jsonrpc,
            id,
            method,
            params,
            local,
            agents,
        ) is Reply,
{
}

/// The states and errors of successive attempts to set the pool up.
pub open spec fn attempts<T, R>(s: StateView<T, R>, configs: Seq<PoolConfig>) -> (
    StateView<T, R>,
    nat,
)
    decreases configs.len(),
{
    if configs.len() == 0 {
        (s, 0)
    } else {
        let (before, wins) = attempts(s, configs.drop_last());
        let (after, error) = set_up(before, configs.last());
        (after, wins + if error is None {
            1nat
        } else {
            0
        })
    }
}

/// Of any number of attempts to set the pool up, in whatever order they come, exactly one
/// succeeds as soon as one of them has a usable configuration, and none otherwise.
pub proof fn initialization_has_one_winner<T, R>(s: StateView<T, R>, configs: Seq<PoolConfig>)
    requires
        s.pool is None,
    ensures
        attempts(s, configs).1 == (if exists|i: int|
            0 <= i < configs.len() && usable(#[trigger] configs[i]) {
            1nat
        } else {
            0
        }),
        attempts(s, configs).0.pool is Some <==> attempts(s, configs).1 == 1,
        attempts(s, configs).1 == 0 ==> attempts(s, configs).0 == s,
    decreases configs.len(),
{
    if configs.len() > 0 {
        let head = configs.drop_last();
        let last = configs.len() - 1;
        initialization_has_one_winner(s, head);
        if exists|i: int| 0 <= i < head.len() && usable(#[trigger] head[i]) {
            let i = choose|i: int| 0 <= i < head.len() && usable(#[trigger] head[i]);
            assert(usable(configs[i]));
        } else if usable(configs[last]) {
            assert(attempts(s, head).0 == s);
        } else if exists|i: int| 0 <= i < configs.len() && usable(#[trigger] configs[i]) {
            let i = choose|i: int| 0 <= i < configs.len() && usable(#[trigger] configs[i]);
            assert(head[i] == configs[i]);
        }
    }
}

/// An initialized pool is replaced by no attempt, local or remote; and setting it up starts
/// no worker.
pub proof fn a_pool_is_never_replaced<T, R>(
    s: StateView<T, R>,
    config: PoolConfig,
    params: InitializeParams,
)
    ensures
        s.pool is Some ==> set_up(s, config) == (s, Some(ErrorView::AlreadyInitialized)),
        s.pool is Some ==> set_up_remotely(s, params).0 == s && set_up_remotely(s, params).1
            is Some,
        s.pool is None && set_up(s, config).1 is None ==> set_up(s, config).0.pool->0.workers.len()
            == 0,
{
}

/// A remote caller only ever gets workers of a registered factory, chosen by its name.
pub proof fn remote_callers_choose_registered_factories<T, R>(
    s: StateView<T, R>,
    params: InitializeParams,
)
    requires
        set_up_remotely(s, params).1 is None,
    ensures
        found(s.factories, params.process_factory@) matches Some(factory)
            && set_up_remotely(s, params).0.pool_factory == Some(factory@),
{
}

} // verus!
