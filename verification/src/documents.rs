//! What the documents of the service and of conversations say, member by member.
use vstd::prelude::*;
use vstd::string::*;
use vstd::utf8::encode_utf8;
use crate::agent::{
    an_event_keeps_the_record_sound, control_request, control_response, event_document,
    event_number, info_document, optional_number, optional_string, permission_answer,
    permission_event, permission_message, prompt_message, record_sound, refusal_message, shown,
    size, text_document, with_event, AgentState, DISPLAY_LIMIT, InfoView, RecordView,
};
use crate::agents::{
    conversation_document, events_missing, later_events, overview, status_document, ManagerView,
};
use crate::conduct::statistics_count_the_workers;
use crate::config::{ProcessFactoryConfig, RejectedExecutionHandler, TimeSpan};
use crate::echo::{echo_plan, sum_answer, EchoPlanView};
use crate::error::{kind, sentence, ErrorView};
use crate::json::{
    at, compact, debug_text, first_named, lookup, no_fields, rendered, text_in, unsigned,
    unsigned_in, JsonView, Notation, NumberView,
};
use crate::pool::{describes, rows_in, PoolStats, WorkerState, WorkerStats};
use crate::protocol::{
    error_document, request_document, response_document, ResponseView, WorkerErrorView,
};
use crate::schedule::{sound, PoolView};
use crate::server::{
    agents_answer, agents_disabled_document, alive_answer, depicts, execute_answer,
    factories_answer, failed, http, names_of, one_text, optional_count, policy_name, pool_failure,
    prestart_answer, ready_answer, rpc_document, rpc_error_document, state_name, stats_document,
    succeeded, uninitialized_document, unreadable_answer, worker_document, RpcErrorView,
    RpcResponseView,
};
use crate::text::{clipped, clipping_keeps_a_fitting_prefix, decimal_text};
use crate::tools::CONDUIT_REPOSITORY;

verus! {

/// A member that is put at the end of an object is found by its name, unless an earlier one has
/// the same name, and the other members are found as before.
pub proof fn an_added_member_is_found(
    members: Seq<(Seq<char>, JsonView)>,
    name: Seq<char>,
    value: JsonView,
)
    ensures
        forall|key: Seq<char>|
            #![trigger first_named(members.push((name, value)), key)]
            first_named(members.push((name, value)), key) == (match first_named(members, key) {
                Some(v) => Some(v),
                None => if name == key {
                    Some(value)
                } else {
                    None
                },
            }),
{
    assert forall|key: Seq<char>|
        #![trigger first_named(members.push((name, value)), key)]
        first_named(members.push((name, value)), key) == (match first_named(members, key) {
            Some(v) => Some(v),
            None => if name == key {
                Some(value)
            } else {
                None
            },
        }) by {
        lemma_added(members, name, value, key);
    }
}

proof fn lemma_added(
    members: Seq<(Seq<char>, JsonView)>,
    name: Seq<char>,
    value: JsonView,
    key: Seq<char>,
)
    ensures
        first_named(members.push((name, value)), key) == (match first_named(members, key) {
            Some(v) => Some(v),
            None => if name == key {
                Some(value)
            } else {
                None
            },
        }),
    decreases members.len(),
{
    let all = members.push((name, value));
    if members.len() == 0 {
        assert(all.drop_first() =~= members);
        assert(first_named(all.drop_first(), key) is None);
    } else {
        lemma_added(members.drop_first(), name, value, key);
        assert(all.drop_first() =~= members.drop_first().push((name, value)));
        assert(all[0] == members[0]);
    }
}

/// The member of an object by a name is the first one of that name; an object without such a
/// member, and a document that is no object, give null.
pub proof fn members_are_found_by_name(v: JsonView, key: Seq<char>)
    ensures
        v matches JsonView::Object(members) ==> {
            ||| exists|i: int|
                #![trigger members[i]]
                0 <= i < members.len() && members[i].0 == key && at(v, key) == members[i].1 && (
                forall|j: int| 0 <= j < i ==> (#[trigger] members[j]).0 != key) && lookup(v, key)
                    == Some(members[i].1)
            ||| (forall|j: int| 0 <= j < members.len() ==> (#[trigger] members[j]).0 != key) && at(
                v,
                key,
            ) == JsonView::Null && lookup(v, key) is None
        },
        v !is Object ==> at(v, key) == JsonView::Null && lookup(v, key) is None,
{
    if v is Object {
        lemma_first(v->Object_0, key);
    }
}

proof fn lemma_first(members: Seq<(Seq<char>, JsonView)>, key: Seq<char>)
    ensures
        match first_named(members, key) {
            Some(value) => exists|i: int|
                #![trigger members[i]]
                0 <= i < members.len() && members[i] == (key, value) && forall|j: int|
                    0 <= j < i ==> (#[trigger] members[j]).0 != key,
            None => forall|j: int| 0 <= j < members.len() ==> (#[trigger] members[j]).0 != key,
        },
    decreases members.len(),
{
    if members.len() > 0 {
        let rest = members.drop_first();
        lemma_first(rest, key);
        if members[0].0 != key {
            match first_named(rest, key) {
                Some(value) => {
                    let i = choose|i: int|
                        #![trigger rest[i]]
                        0 <= i < rest.len() && rest[i] == (key, value) && forall|j: int|
                            0 <= j < i ==> (#[trigger] rest[j]).0 != key;
                    assert(members[i + 1] == (key, value));
                    assert forall|j: int| 0 <= j < i + 1 implies (
                    #[trigger] members[j]).0 != key by {
                        if j > 0 {
                            assert(rest[j - 1] == members[j]);
                        }
                    }
                },
                None => {
                    assert forall|j: int| 0 <= j < members.len() implies (
                    #[trigger] members[j]).0 != key by {
                        if j > 0 {
                            assert(rest[j - 1] == members[j]);
                        }
                    }
                },
            }
        } else {
            assert(members[0] == (key, members[0].1));
        }
    }
}

/// A count in a document.
pub open spec fn counted(n: nat) -> JsonView {
    JsonView::Number(NumberView::Unsigned(n as u64))
}

/// A count in a document, or null.
pub open spec fn counted_or_null(n: Option<u64>) -> JsonView {
    match n {
        Some(n) => counted(n as nat),
        None => JsonView::Null,
    }
}

/// A text in a document, or null.
pub open spec fn text_or_null(text: Option<Seq<char>>) -> JsonView {
    match text {
        Some(text) => JsonView::Text(text),
        None => JsonView::Null,
    }
}

/// The document about a worker tells each fact under its name; what does not apply is null.
pub proof fn workers_are_told_by_name(w: WorkerStats)
    ensures
        ({
            let v = worker_document(w);
            &&& at(v, "worker_id"@) == counted(w.worker_id as nat)
            &&& at(v, "process_id"@) == (match w.process_id {
                Some(pid) => counted(pid as nat),
                None => JsonView::Null,
            })
            &&& at(v, "state"@) == JsonView::Text(
                match w.state {
                    WorkerState::Idle => "idle"@,
                    WorkerState::Busy => "busy"@,
                },
            )
            &&& at(v, "current_task_id"@) == counted_or_null(w.current_task_id)
            &&& at(v, "handled_task_count"@) == counted(w.handled_task_count as nat)
            &&& at(v, "last_task_duration_ms"@) == counted_or_null(w.last_task_duration_ms)
            &&& at(v, "state_for_ms"@) == counted(w.state_for_ms as nat)
            &&& at(v, "uptime_ms"@) == counted(w.uptime_ms as nat)
        }),
{
    let process = match w.process_id {
        Some(pid) => unsigned(pid as nat),
        None => JsonView::Null,
    };
    reveal_strlit("current_task_id");
    reveal_strlit("handled_task_count");
    reveal_strlit("last_task_duration_ms");
    reveal_strlit("process_id");
    reveal_strlit("state");
    reveal_strlit("state_for_ms");
    reveal_strlit("uptime_ms");
    reveal_strlit("worker_id");
    assert("current_task_id"@.len() == 15);
    assert("handled_task_count"@.len() == 18);
    assert("last_task_duration_ms"@.len() == 21);
    assert("process_id"@.len() == 10);
    assert("state"@.len() == 5);
    assert("state_for_ms"@.len() == 12);
    assert("uptime_ms"@.len() == 9);
    assert("worker_id"@.len() == 9);
    assert("uptime_ms"@[0] != "worker_id"@[0]);
    let p0 = no_fields();
    let p1 = p0.push(("current_task_id"@, optional_count(w.current_task_id)));
    an_added_member_is_found(p0, "current_task_id"@, optional_count(w.current_task_id));
    let p2 = p1.push(("handled_task_count"@, unsigned(w.handled_task_count as nat)));
    an_added_member_is_found(p1, "handled_task_count"@, unsigned(w.handled_task_count as nat));
    let p3 = p2.push(("last_task_duration_ms"@, optional_count(w.last_task_duration_ms)));
    an_added_member_is_found(p2, "last_task_duration_ms"@, optional_count(w.last_task_duration_ms));
    let p4 = p3.push(("process_id"@, process));
    an_added_member_is_found(p3, "process_id"@, process);
    let p5 = p4.push(("state"@, JsonView::Text(state_name(w.state))));
    an_added_member_is_found(p4, "state"@, JsonView::Text(state_name(w.state)));
    let p6 = p5.push(("state_for_ms"@, unsigned(w.state_for_ms as nat)));
    an_added_member_is_found(p5, "state_for_ms"@, unsigned(w.state_for_ms as nat));
    let p7 = p6.push(("uptime_ms"@, unsigned(w.uptime_ms as nat)));
    an_added_member_is_found(p6, "uptime_ms"@, unsigned(w.uptime_ms as nat));
    let p8 = p7.push(("worker_id"@, unsigned(w.worker_id as nat)));
    an_added_member_is_found(p7, "worker_id"@, unsigned(w.worker_id as nat));
}

/// The statistics document tells each statistic under its name, and has a row for each worker.
pub proof fn statistics_are_told_by_name(s: PoolStats)
    ensures
        ({
            let v = stats_document(s);
            &&& at(v, "initialized"@) == JsonView::Bool(true)
            &&& at(v, "busy_worker_count"@) == counted(s.busy_worker_count as nat)
            &&& at(v, "caller_runs_task_count"@) == counted(s.caller_runs_task_count as nat)
            &&& at(v, "completed_task_count"@) == counted(s.completed_task_count as nat)
            &&& at(v, "core_pool_size"@) == counted(s.core_pool_size as nat)
            &&& at(v, "failed_task_count"@) == counted(s.failed_task_count as nat)
            &&& at(v, "idle_worker_count"@) == counted(s.idle_worker_count as nat)
            &&& at(v, "keep_alive_ms"@) == counted(s.keep_alive_ms as nat)
            &&& at(v, "maximum_pool_size"@) == counted(s.maximum_pool_size as nat)
            &&& at(v, "queued_task_count"@) == counted(s.queued_task_count as nat)
            &&& at(v, "rejected_task_count"@) == counted(s.rejected_task_count as nat)
            &&& at(v, "work_queue_capacity"@) == counted(s.work_queue_capacity as nat)
            &&& at(v, "worker_count"@) == counted(s.worker_count as nat)
            &&& at(v, "rejection_policy"@) == JsonView::Text(
                match s.rejection_policy {
                    RejectedExecutionHandler::Abort => "abort"@,
                    RejectedExecutionHandler::Discard => "discard"@,
                    RejectedExecutionHandler::DiscardOldest => "discard_oldest"@,
                    RejectedExecutionHandler::CallerRuns => "caller_runs"@,
                },
            )
            &&& at(v, "workers"@) matches JsonView::Array(rows) && rows.len() == s.workers@.len()
                && forall|i: int|
                0 <= i < rows.len() ==> #[trigger] rows[i] == worker_document(s.workers@[i])
        }),
{
    reveal_strlit("busy_worker_count");
    reveal_strlit("caller_runs_task_count");
    reveal_strlit("completed_task_count");
    reveal_strlit("core_pool_size");
    reveal_strlit("failed_task_count");
    reveal_strlit("idle_worker_count");
    reveal_strlit("initialized");
    reveal_strlit("keep_alive_ms");
    reveal_strlit("maximum_pool_size");
    reveal_strlit("queued_task_count");
    reveal_strlit("rejected_task_count");
    reveal_strlit("rejection_policy");
    reveal_strlit("work_queue_capacity");
    reveal_strlit("worker_count");
    reveal_strlit("workers");
    assert("busy_worker_count"@.len() == 17);
    assert("caller_runs_task_count"@.len() == 22);
    assert("completed_task_count"@.len() == 20);
    assert("core_pool_size"@.len() == 14);
    assert("failed_task_count"@.len() == 17);
    assert("idle_worker_count"@.len() == 17);
    assert("initialized"@.len() == 11);
    assert("keep_alive_ms"@.len() == 13);
    assert("maximum_pool_size"@.len() == 17);
    assert("queued_task_count"@.len() == 17);
    assert("rejected_task_count"@.len() == 19);
    assert("rejection_policy"@.len() == 16);
    assert("work_queue_capacity"@.len() == 19);
    assert("worker_count"@.len() == 12);
    assert("workers"@.len() == 7);
    assert("busy_worker_count"@[0] != "failed_task_count"@[0]);
    assert("busy_worker_count"@[0] != "idle_worker_count"@[0]);
    assert("busy_worker_count"@[0] != "maximum_pool_size"@[0]);
    assert("busy_worker_count"@[0] != "queued_task_count"@[0]);
    assert("failed_task_count"@[0] != "idle_worker_count"@[0]);
    assert("failed_task_count"@[0] != "maximum_pool_size"@[0]);
    assert("failed_task_count"@[0] != "queued_task_count"@[0]);
    assert("idle_worker_count"@[0] != "maximum_pool_size"@[0]);
    assert("idle_worker_count"@[0] != "queued_task_count"@[0]);
    assert("maximum_pool_size"@[0] != "queued_task_count"@[0]);
    assert("rejected_task_count"@[0] != "work_queue_capacity"@[0]);
    let p0 = no_fields();
    let p1 = p0.push(("busy_worker_count"@, unsigned(s.busy_worker_count as nat)));
    an_added_member_is_found(p0, "busy_worker_count"@, unsigned(s.busy_worker_count as nat));
    let p2 = p1.push(("caller_runs_task_count"@, unsigned(s.caller_runs_task_count as nat)));
    an_added_member_is_found(p1, "caller_runs_task_count"@, unsigned(s.caller_runs_task_count as nat));
    let p3 = p2.push(("completed_task_count"@, unsigned(s.completed_task_count as nat)));
    an_added_member_is_found(p2, "completed_task_count"@, unsigned(s.completed_task_count as nat));
    let p4 = p3.push(("core_pool_size"@, unsigned(s.core_pool_size as nat)));
    an_added_member_is_found(p3, "core_pool_size"@, unsigned(s.core_pool_size as nat));
    let p5 = p4.push(("failed_task_count"@, unsigned(s.failed_task_count as nat)));
    an_added_member_is_found(p4, "failed_task_count"@, unsigned(s.failed_task_count as nat));
    let p6 = p5.push(("idle_worker_count"@, unsigned(s.idle_worker_count as nat)));
    an_added_member_is_found(p5, "idle_worker_count"@, unsigned(s.idle_worker_count as nat));
    let p7 = p6.push(("initialized"@, JsonView::Bool(true)));
    an_added_member_is_found(p6, "initialized"@, JsonView::Bool(true));
    let p8 = p7.push(("keep_alive_ms"@, unsigned(s.keep_alive_ms as nat)));
    an_added_member_is_found(p7, "keep_alive_ms"@, unsigned(s.keep_alive_ms as nat));
    let p9 = p8.push(("maximum_pool_size"@, unsigned(s.maximum_pool_size as nat)));
    an_added_member_is_found(p8, "maximum_pool_size"@, unsigned(s.maximum_pool_size as nat));
    let p10 = p9.push(("queued_task_count"@, unsigned(s.queued_task_count as nat)));
    an_added_member_is_found(p9, "queued_task_count"@, unsigned(s.queued_task_count as nat));
    let p11 = p10.push(("rejected_task_count"@, unsigned(s.rejected_task_count as nat)));
    an_added_member_is_found(p10, "rejected_task_count"@, unsigned(s.rejected_task_count as nat));
    let p12 = p11.push(("rejection_policy"@, JsonView::Text(policy_name(s.rejection_policy))));
    an_added_member_is_found(p11, "rejection_policy"@, JsonView::Text(policy_name(s.rejection_policy)));
    let p13 = p12.push(("work_queue_capacity"@, unsigned(s.work_queue_capacity as nat)));
    an_added_member_is_found(p12, "work_queue_capacity"@, unsigned(s.work_queue_capacity as nat));
    let p14 = p13.push(("worker_count"@, unsigned(s.worker_count as nat)));
    an_added_member_is_found(p13, "worker_count"@, unsigned(s.worker_count as nat));
    let p15 = p14.push(("workers"@, JsonView::Array(s.workers@.map_values(|w: WorkerStats| worker_document(w)))));
    an_added_member_is_found(p14, "workers"@, JsonView::Array(s.workers@.map_values(|w: WorkerStats| worker_document(w))));
}

/// How many of the rows tell that their worker is in the given state.
pub open spec fn rows_telling(rows: Seq<JsonView>, state: Seq<char>) -> nat
    decreases rows.len(),
{
    if rows.len() == 0 {
        0
    } else {
        rows_telling(rows.drop_last(), state) + if at(rows.last(), "state"@) == JsonView::Text(
            state,
        ) {
            1nat
        } else {
            0
        }
    }
}

proof fn lemma_rows_telling(workers: Seq<WorkerStats>, rows: Seq<JsonView>)
    requires
        rows.len() == workers.len(),
        forall|i: int| 0 <= i < rows.len() ==> #[trigger] rows[i] == worker_document(workers[i]),
    ensures
        rows_telling(rows, "busy"@) == rows_in(workers, WorkerState::Busy),
        rows_telling(rows, "idle"@) == rows_in(workers, WorkerState::Idle),
    decreases rows.len(),
{
    if rows.len() > 0 {
        let all = rows.drop_last();
        assert forall|i: int| 0 <= i < all.len() implies #[trigger] all[i] == worker_document(
            workers.drop_last()[i],
        ) by {
            assert(all[i] == rows[i]);
        }
        lemma_rows_telling(workers.drop_last(), all);
        assert(rows.last() == rows[rows.len() - 1]);
        workers_are_told_by_name(workers.last());
        reveal_strlit("busy");
        reveal_strlit("idle");
        assert("busy"@[0] != "idle"@[0]);
    }
}

/// The document about a pool tells the truth: the workers with a task are the busy ones and those
/// without the idle ones, in the counts as in the rows, and every counter is the pool's own.
pub proof fn the_pool_is_told_truthfully<T>(v: JsonView, s: PoolView<T>, now: TimeSpan)
    requires
        sound(s),
        depicts(v, s, now),
    ensures
        at(v, "initialized"@) == JsonView::Bool(true),
        at(v, "worker_count"@) == counted(s.workers.dom().len()),
        at(v, "busy_worker_count"@) == counted(
            s.workers.dom().filter(|id: u64| s.workers[id].current_task_id is Some).len(),
        ),
        at(v, "idle_worker_count"@) == counted(
            s.workers.dom().filter(|id: u64| s.workers[id].current_task_id is None).len(),
        ),
        at(v, "queued_task_count"@) == counted(s.queue.len()),
        at(v, "completed_task_count"@) == counted(s.completed as nat),
        at(v, "failed_task_count"@) == counted(s.failed as nat),
        at(v, "rejected_task_count"@) == counted(s.rejected as nat),
        at(v, "caller_runs_task_count"@) == counted(s.caller_runs as nat),
        at(v, "core_pool_size"@) == counted(s.limits.core as nat),
        at(v, "maximum_pool_size"@) == counted(s.limits.maximum as nat),
        at(v, "work_queue_capacity"@) == counted(s.limits.capacity as nat),
        at(v, "workers"@) matches JsonView::Array(rows) && rows.len() == s.workers.dom().len()
            && at(v, "busy_worker_count"@) == counted(rows_telling(rows, "busy"@)) && at(
            v,
            "idle_worker_count"@,
        ) == counted(rows_telling(rows, "idle"@)),
{
    let stats = choose|stats: PoolStats| #[trigger]
        describes(stats, s, now) && stats.worker_count == stats.idle_worker_count
            + stats.busy_worker_count && v == stats_document(stats);
    statistics_are_told_by_name(stats);
    statistics_count_the_workers(stats, s, now);
    lemma_rows_telling(stats.workers@, at(v, "workers"@)->Array_0);
}

/// A service without a pool says so.
pub proof fn the_missing_pool_is_told()
    ensures
        at(uninitialized_document(), "initialized"@) == JsonView::Bool(false),
{
    an_added_member_is_found(no_fields(), "initialized"@, JsonView::Bool(false));
}

/// The document about an error of a call tells its code and its message, and its data where there
/// are any.
pub proof fn call_errors_are_told_by_name(e: RpcErrorView)
    requires
        i32::MIN <= e.code <= i32::MAX,
    ensures
        ({
            let v = rpc_error_document(e);
            &&& at(v, "code"@) == JsonView::Number(
                if e.code < 0 {
                    NumberView::Negative(e.code as i64)
                } else {
                    NumberView::Unsigned(e.code as u64)
                },
            )
            &&& at(v, "message"@) == JsonView::Text(e.message)
            &&& lookup(v, "data"@) == e.data
        }),
{
    reveal_strlit("code");
    reveal_strlit("message");
    reveal_strlit("data");
    assert("code"@.len() == 4);
    assert("message"@.len() == 7);
    assert("data"@.len() == 4);
    assert("code"@[0] != "data"@[0]);
    let p0 = no_fields();
    let p1 = p0.push(("code"@, JsonView::Number(crate::server::code_number(e.code))));
    an_added_member_is_found(p0, "code"@, JsonView::Number(crate::server::code_number(e.code)));
    let p2 = p1.push(("message"@, JsonView::Text(e.message)));
    an_added_member_is_found(p1, "message"@, JsonView::Text(e.message));
    if let Some(data) = e.data {
        an_added_member_is_found(p2, "data"@, data);
    }
}

/// The answer to a call tells the identifier of the call, and the result or the error, whichever
/// there is, and leaves the other out.
pub proof fn answers_are_told_by_name(r: RpcResponseView)
    ensures
        ({
            let v = rpc_document(r);
            &&& at(v, "jsonrpc"@) == JsonView::Text("2.0"@)
            &&& at(v, "id"@) == r.id
            &&& lookup(v, "result"@) == r.result
            &&& match r.error {
                Some(e) => lookup(v, "error"@) == Some(rpc_error_document(e)),
                None => lookup(v, "error"@) is None,
            }
        }),
{
    reveal_strlit("jsonrpc");
    reveal_strlit("id");
    reveal_strlit("result");
    reveal_strlit("error");
    assert("jsonrpc"@.len() == 7);
    assert("id"@.len() == 2);
    assert("result"@.len() == 6);
    assert("error"@.len() == 5);
    let p0 = no_fields();
    let p1 = p0.push(("jsonrpc"@, JsonView::Text("2.0"@)));
    an_added_member_is_found(p0, "jsonrpc"@, JsonView::Text("2.0"@));
    let p2 = p1.push(("id"@, r.id));
    an_added_member_is_found(p1, "id"@, r.id);
    let p3 = match r.result {
        Some(result) => p2.push(("result"@, result)),
        None => p2,
    };
    if let Some(result) = r.result {
        an_added_member_is_found(p2, "result"@, result);
    }
    if let Some(e) = r.error {
        an_added_member_is_found(p3, "error"@, rpc_error_document(e));
    }
}

/// An error of the pool is answered under the code that is its own, with its sentence as the
/// message and its developer notation as the kind.
pub proof fn pool_errors_have_their_codes(id: JsonView, e: ErrorView)
    ensures
        ({
            let r = pool_failure(id, e);
            &&& r.id == id
            &&& r.result is None
            &&& r.error matches Some(told) && {
                &&& told.message == sentence(e)
                &&& told.data matches Some(data) && at(data, "kind"@) == JsonView::Text(kind(e))
                &&& told.code == -32001 <==> e is Rejected
                &&& told.code == -32002 <==> e is Discarded
                &&& told.code == -32003 <==> e is TaskTimeout
                &&& told.code == -32004 <==> e is WorkerReturned
                &&& told.code == -32005 <==> e is Closed
                &&& told.code == -32006 <==> e is NotInitialized
                &&& told.code == -32007 <==> e is AlreadyInitialized
                &&& told.code == -32602 <==> e is InvalidConfig
                &&& told.code == -32000 <==> e is SpawnFailed || e is WorkerIo || e is Protocol
                    || e is WorkerExited
            }
        }),
{
    an_added_member_is_found(no_fields(), "kind"@, JsonView::Text(kind(e)));
}

/// The sentence about an error says what kind it is and carries what is known about it.
pub proof fn errors_are_told_in_words(e: ErrorView)
    ensures
        match e {
            ErrorView::NotInitialized => sentence(e)
                == "the process pool has not been initialized"@,
            ErrorView::AlreadyInitialized => sentence(e)
                == "the process pool is already initialized; restart the service to use another configuration"@,
            ErrorView::InvalidConfig(why) => sentence(e) == "invalid pool configuration: "@ + why,
            ErrorView::SpawnFailed(why) => sentence(e) == "failed to start worker process: "@ + why,
            ErrorView::Rejected => sentence(e) == "the process pool is saturated"@,
            ErrorView::Discarded => sentence(e)
                == "the task was discarded by the rejection policy"@,
            ErrorView::Closed => sentence(e) == "the process pool is closed"@,
            ErrorView::WorkerIo(why) => sentence(e) == "worker I/O failed: "@ + why,
            ErrorView::Protocol(why) => sentence(e) == "worker protocol error: "@ + why,
            ErrorView::WorkerExited => sentence(e) == "worker exited before returning a response"@,
            ErrorView::TaskTimeout { timeout_ms } => sentence(e) == "task timed out after "@
                + decimal_text(timeout_ms as nat) + " ms"@,
            ErrorView::WorkerReturned { code, message, details } => sentence(e)
                == "worker returned error "@ + code + ": "@ + message,
        },
{
}

/// The request to a worker tells the number and the document of the task.
pub proof fn requests_are_told_by_name(id: u64, payload: JsonView)
    ensures
        at(request_document(id, payload), "id"@) == counted(id as nat),
        at(request_document(id, payload), "payload"@) == payload,
{
    reveal_strlit("id");
    reveal_strlit("payload");
    assert("id"@.len() == 2);
    assert("payload"@.len() == 7);
    let p0 = no_fields();
    let p1 = p0.push(("id"@, unsigned(id as nat)));
    an_added_member_is_found(p0, "id"@, unsigned(id as nat));
    let p2 = p1.push(("payload"@, payload));
    an_added_member_is_found(p1, "payload"@, payload);
}

/// The response of a worker tells the number of the task and whether it was done; the result and
/// the error are there just where the worker has them.
pub proof fn responses_are_told_by_name(r: ResponseView)
    ensures
        ({
            let v = response_document(r);
            &&& at(v, "id"@) == counted(r.id as nat)
            &&& at(v, "ok"@) == JsonView::Bool(r.ok)
            &&& lookup(v, "result"@) == r.result
            &&& match r.error {
                None => lookup(v, "error"@) is None,
                Some(e) => lookup(v, "error"@) matches Some(told) && at(told, "code"@)
                    == JsonView::Text(e.code) && at(told, "message"@) == JsonView::Text(e.message)
                    && lookup(told, "details"@) == e.details,
            }
        }),
{
    reveal_strlit("id");
    reveal_strlit("ok");
    reveal_strlit("result");
    reveal_strlit("error");
    assert("id"@.len() == 2);
    assert("ok"@.len() == 2);
    assert("result"@.len() == 6);
    assert("error"@.len() == 5);
    assert("id"@[0] != "ok"@[0]);
    let p0 = no_fields();
    let p1 = p0.push(("id"@, unsigned(r.id as nat)));
    an_added_member_is_found(p0, "id"@, unsigned(r.id as nat));
    let p2 = p1.push(("ok"@, JsonView::Bool(r.ok)));
    an_added_member_is_found(p1, "ok"@, JsonView::Bool(r.ok));
    let p3 = match r.result {
        Some(result) => p2.push(("result"@, result)),
        None => p2,
    };
    if let Some(result) = r.result {
        an_added_member_is_found(p2, "result"@, result);
    }
    if let Some(e) = r.error {
        an_added_member_is_found(p3, "error"@, error_document(e));
        worker_errors_are_told_by_name(e);
    }
}

/// The error of a worker tells its code and its message, and its details where there are any.
pub proof fn worker_errors_are_told_by_name(e: WorkerErrorView)
    ensures
        at(error_document(e), "code"@) == JsonView::Text(e.code),
        at(error_document(e), "message"@) == JsonView::Text(e.message),
        lookup(error_document(e), "details"@) == e.details,
{
    reveal_strlit("code");
    reveal_strlit("message");
    reveal_strlit("details");
    assert("code"@.len() == 4);
    assert("message"@.len() == 7);
    assert("details"@.len() == 7);
    assert("message"@[0] != "details"@[0]);
    let p0 = no_fields();
    let p1 = p0.push(("code"@, JsonView::Text(e.code)));
    an_added_member_is_found(p0, "code"@, JsonView::Text(e.code));
    let p2 = p1.push(("message"@, JsonView::Text(e.message)));
    an_added_member_is_found(p1, "message"@, JsonView::Text(e.message));
    if let Some(details) = e.details {
        an_added_member_is_found(p2, "details"@, details);
    }
}

/// The document about a conversation tells each fact under its name; what is not known is null.
pub proof fn conversations_are_told_by_name(info: InfoView)
    ensures
        ({
            let v = info_document(info);
            &&& at(v, "id"@) == JsonView::Text(info.id)
            &&& at(v, "label"@) == JsonView::Text(info.label)
            &&& at(v, "cwd"@) == JsonView::Text(info.cwd)
            &&& at(v, "generation"@) == counted(info.generation as nat)
            &&& at(v, "pid"@) == (match info.pid {
                Some(pid) => counted(pid as nat),
                None => JsonView::Null,
            })
            &&& at(v, "session_id"@) == text_or_null(info.session_id)
            &&& at(v, "last_error"@) == text_or_null(info.last_error)
            &&& at(v, "started_at_ms"@) == counted(info.started_at_ms as nat)
            &&& at(v, "completed_turns"@) == counted(info.completed_turns as nat)
            &&& at(v, "failed_turns"@) == counted(info.failed_turns as nat)
            &&& at(v, "pending_permissions"@) == JsonView::Object(info.pending)
            &&& at(v, "state"@) == JsonView::Text(
                match info.state {
                    AgentState::Starting => "starting"@,
                    AgentState::Idle => "idle"@,
                    AgentState::Busy => "busy"@,
                    AgentState::AwaitingPermission => "awaiting_permission"@,
                    AgentState::Interrupting => "interrupting"@,
                    AgentState::Stopped => "stopped"@,
                    AgentState::Failed => "failed"@,
                },
            )
        }),
{
    reveal_strlit("completed_turns");
    reveal_strlit("cwd");
    reveal_strlit("failed_turns");
    reveal_strlit("generation");
    reveal_strlit("id");
    reveal_strlit("label");
    reveal_strlit("last_error");
    reveal_strlit("pending_permissions");
    reveal_strlit("pid");
    reveal_strlit("session_id");
    reveal_strlit("started_at_ms");
    reveal_strlit("state");
    assert("completed_turns"@.len() == 15);
    assert("cwd"@.len() == 3);
    assert("failed_turns"@.len() == 12);
    assert("generation"@.len() == 10);
    assert("id"@.len() == 2);
    assert("label"@.len() == 5);
    assert("last_error"@.len() == 10);
    assert("pending_permissions"@.len() == 19);
    assert("pid"@.len() == 3);
    assert("session_id"@.len() == 10);
    assert("started_at_ms"@.len() == 13);
    assert("state"@.len() == 5);
    assert("cwd"@[0] != "pid"@[0]);
    assert("generation"@[0] != "last_error"@[0]);
    assert("generation"@[0] != "session_id"@[0]);
    assert("label"@[0] != "state"@[0]);
    assert("last_error"@[0] != "session_id"@[0]);
    let p0 = no_fields();
    let p1 = p0.push(("completed_turns"@, unsigned(info.completed_turns as nat)));
    an_added_member_is_found(p0, "completed_turns"@, unsigned(info.completed_turns as nat));
    let p2 = p1.push(("cwd"@, JsonView::Text(info.cwd)));
    an_added_member_is_found(p1, "cwd"@, JsonView::Text(info.cwd));
    let p3 = p2.push(("failed_turns"@, unsigned(info.failed_turns as nat)));
    an_added_member_is_found(p2, "failed_turns"@, unsigned(info.failed_turns as nat));
    let p4 = p3.push(("generation"@, unsigned(info.generation as nat)));
    an_added_member_is_found(p3, "generation"@, unsigned(info.generation as nat));
    let p5 = p4.push(("id"@, JsonView::Text(info.id)));
    an_added_member_is_found(p4, "id"@, JsonView::Text(info.id));
    let p6 = p5.push(("label"@, JsonView::Text(info.label)));
    an_added_member_is_found(p5, "label"@, JsonView::Text(info.label));
    let p7 = p6.push(("last_error"@, optional_string(info.last_error)));
    an_added_member_is_found(p6, "last_error"@, optional_string(info.last_error));
    let p8 = p7.push(("pending_permissions"@, JsonView::Object(info.pending)));
    an_added_member_is_found(p7, "pending_permissions"@, JsonView::Object(info.pending));
    let p9 = p8.push(("pid"@, optional_number(info.pid)));
    an_added_member_is_found(p8, "pid"@, optional_number(info.pid));
    let p10 = p9.push(("session_id"@, optional_string(info.session_id)));
    an_added_member_is_found(p9, "session_id"@, optional_string(info.session_id));
    let p11 = p10.push(("started_at_ms"@, unsigned(info.started_at_ms as nat)));
    an_added_member_is_found(p10, "started_at_ms"@, unsigned(info.started_at_ms as nat));
    let p12 = p11.push(("state"@, JsonView::Text(info.state.label())));
    an_added_member_is_found(p11, "state"@, JsonView::Text(info.state.label()));
}

/// An event tells its number, its time and its kind, and carries its document as it is where the
/// compact text of the document has at most 16384 bytes.
pub proof fn events_are_told_by_name(number: u64, at_ms: u64, tag: Seq<char>, data: JsonView)
    ensures
        ({
            let e = event_document(number, at_ms, tag, data);
            &&& at(e, "id"@) == counted(number as nat)
            &&& at(e, "at_ms"@) == counted(at_ms as nat)
            &&& at(e, "kind"@) == JsonView::Text(tag)
            &&& encode_utf8(compact(data)).len() <= 16384 ==> at(e, "data"@) == data
            &&& encode_utf8(compact(data)).len() > 16384 ==> at(at(e, "data"@), "truncated"@)
                == JsonView::Bool(true) && (at(at(e, "data"@), "preview"@) matches JsonView::Text(
                beginning,
            ) && beginning.is_prefix_of(compact(data)) && encode_utf8(beginning).len() <= 16384)
        }),
{
    reveal_strlit("at_ms");
    reveal_strlit("data");
    reveal_strlit("id");
    reveal_strlit("kind");
    assert("at_ms"@.len() == 5);
    assert("data"@.len() == 4);
    assert("id"@.len() == 2);
    assert("kind"@.len() == 4);
    assert("data"@[0] != "kind"@[0]);
    let p0 = no_fields();
    let p1 = p0.push(("at_ms"@, unsigned(at_ms as nat)));
    an_added_member_is_found(p0, "at_ms"@, unsigned(at_ms as nat));
    let p2 = p1.push(("data"@, shown(data)));
    an_added_member_is_found(p1, "data"@, shown(data));
    let p3 = p2.push(("id"@, unsigned(number as nat)));
    an_added_member_is_found(p2, "id"@, unsigned(number as nat));
    let p4 = p3.push(("kind"@, JsonView::Text(tag)));
    an_added_member_is_found(p3, "kind"@, JsonView::Text(tag));
    if size(data) > 16384 {
        let beginning = clipped(compact(data), DISPLAY_LIMIT as nat);
        reveal_strlit("preview");
        reveal_strlit("truncated");
        assert("preview"@.len() == 7);
        assert("truncated"@.len() == 9);
        let q0 = no_fields();
        let q1 = q0.push(("preview"@, JsonView::Text(beginning)));
        an_added_member_is_found(q0, "preview"@, JsonView::Text(beginning));
        let q2 = q1.push(("truncated"@, JsonView::Bool(true)));
        an_added_member_is_found(q1, "truncated"@, JsonView::Bool(true));
        clipping_keeps_a_fitting_prefix(compact(data), DISPLAY_LIMIT as nat);
    }
}

/// An event that is noted comes last, under the next number; the events before it stay, but for
/// the oldest one where there would be more than 256. Nothing else changes.
pub proof fn noted_events_join_the_others(
    r: RecordView,
    at_ms: u64,
    tag: Seq<char>,
    data: JsonView,
)
    requires
        r.sequence < u64::MAX,
        r.events.len() <= 256,
    ensures
        ({
            let after = with_event(r, at_ms, tag, data);
            &&& after.sequence == r.sequence + 1
            &&& after.info == r.info
            &&& after.events == if r.events.len() < 256 {
                r.events.push(event_document(after.sequence, at_ms, tag, data))
            } else {
                r.events.skip(1).push(event_document(after.sequence, at_ms, tag, data))
            }
        }),
{
    let number = (r.sequence + 1) as u64;
    let all = r.events.push(event_document(number, at_ms, tag, data));
    if r.events.len() == 256 {
        assert(all.drop_first() =~= r.events.skip(1).push(
            event_document(number, at_ms, tag, data),
        ));
    }
}

proof fn lemma_later(events: Seq<JsonView>, after: u64, first: int)
    requires
        forall|i: int| 0 <= i < events.len() ==> event_number(#[trigger] events[i]) == first + i,
    ensures
        later_events(events, after) == (if after + 1 <= first {
            events
        } else if after + 1 - first <= events.len() {
            events.skip(after + 1 - first)
        } else {
            Seq::empty()
        }),
    decreases events.len(),
{
    reveal(Seq::filter);
    if events.len() == 0 {
        assert(later_events(events, after) =~= events);
        if after + 1 == first {
            assert(events.skip(0) =~= events);
        }
    } else {
        let head = events.drop_last();
        assert forall|i: int| 0 <= i < head.len() implies event_number(#[trigger] head[i]) == first
            + i by {
            assert(head[i] == events[i]);
        }
        lemma_later(head, after, first);
        let last = events.len() - 1;
        let cut = after + 1 - first;
        assert(event_number(events[last]) == first + last);
        if cut <= 0 {
            assert(head.push(events[last]) =~= events);
        } else if cut <= last {
            assert(head.skip(cut).push(events[last]) =~= events.skip(cut));
        } else if cut == events.len() {
            assert(events.skip(cut) =~= Seq::<JsonView>::empty());
        }
    }
}

/// What a user sees of a conversation: the conversation itself, the number of the latest event as
/// the cursor, the events with a number above the given one, latest last, and whether some of
/// them are lost.
pub proof fn polls_are_told_by_name(r: RecordView, after: u64)
    requires
        record_sound(r),
        after <= r.sequence,
    ensures
        ({
            let v = conversation_document(r, after);
            &&& at(v, "agent"@) == info_document(r.info)
            &&& at(v, "cursor"@) == counted(r.sequence as nat)
            &&& at(v, "events"@) matches JsonView::Array(events) && {
                &&& events.len() <= r.sequence - after
                &&& events.len() <= r.events.len()
                &&& events.len() == r.sequence - after || events.len() == r.events.len()
                &&& events == r.events.skip(r.events.len() - events.len())
                &&& forall|i: int|
                    0 <= i < events.len() ==> at(#[trigger] events[i], "id"@) == counted(
                        (r.sequence - events.len() + 1 + i) as nat,
                    )
                &&& at(v, "truncated"@) == JsonView::Bool(events.len() < r.sequence - after)
            }
        }),
{
    let first = r.sequence - r.events.len() + 1;
    let told = later_events(r.events, after);
    lemma_later(r.events, after, first);
    assert(r.events.skip(0) =~= r.events);
    if r.events.len() > 0 {
        assert(event_number(r.events[0]) == first);
    }
    assert forall|i: int| 0 <= i < told.len() implies at(#[trigger] told[i], "id"@) == counted(
        (r.sequence - told.len() + 1 + i) as nat,
    ) by {
        let j = r.events.len() - told.len() + i;
        assert(told[i] == r.events[j]);
        assert(event_number(r.events[j]) == first + j);
        assert(first + j > 0);
    }
    reveal_strlit("agent");
    reveal_strlit("cursor");
    reveal_strlit("events");
    reveal_strlit("truncated");
    assert("agent"@.len() == 5);
    assert("cursor"@.len() == 6);
    assert("events"@.len() == 6);
    assert("truncated"@.len() == 9);
    assert("cursor"@[0] != "events"@[0]);
    let p0 = no_fields();
    let p1 = p0.push(("agent"@, info_document(r.info)));
    an_added_member_is_found(p0, "agent"@, info_document(r.info));
    let p2 = p1.push(("cursor"@, unsigned(r.sequence as nat)));
    an_added_member_is_found(p1, "cursor"@, unsigned(r.sequence as nat));
    let p3 = p2.push(("events"@, JsonView::Array(told)));
    an_added_member_is_found(p2, "events"@, JsonView::Array(told));
    let p4 = p3.push(("truncated"@, JsonView::Bool(events_missing(r.events, after))));
    an_added_member_is_found(p3, "truncated"@, JsonView::Bool(events_missing(r.events, after)));
}

/// An event that is noted with a document whose compact text has at most 16384 bytes is the last
/// one that a user with any lower cursor is sent, with just this document, its kind and its time.
pub proof fn noted_events_come_back(
    r: RecordView,
    at_ms: u64,
    tag: Seq<char>,
    data: JsonView,
    after: u64,
)
    requires
        record_sound(r),
        r.sequence < u64::MAX,
        after <= r.sequence,
        encode_utf8(compact(data)).len() <= 16384,
    ensures
        ({
            let v = conversation_document(with_event(r, at_ms, tag, data), after);
            &&& at(v, "cursor"@) == counted((r.sequence + 1) as nat)
            &&& at(v, "events"@) matches JsonView::Array(events) && events.len() > 0 && {
                let e = events.last();
                &&& at(e, "data"@) == data
                &&& at(e, "kind"@) == JsonView::Text(tag)
                &&& at(e, "at_ms"@) == counted(at_ms as nat)
                &&& at(e, "id"@) == counted((r.sequence + 1) as nat)
            }
        }),
{
    let noted = with_event(r, at_ms, tag, data);
    an_event_keeps_the_record_sound(r, at_ms, tag, data);
    noted_events_join_the_others(r, at_ms, tag, data);
    polls_are_told_by_name(noted, after);
    events_are_told_by_name(noted.sequence, at_ms, tag, data);
    let events = at(conversation_document(noted, after), "events"@)->Array_0;
    assert(events.last() == noted.events.last());
}

/// A prompt reaches the process as the content of a message of the user, in the session that the
/// process has named.
pub proof fn prompts_are_told_by_name(session: Option<Seq<char>>, prompt: Seq<char>)
    ensures
        ({
            let v = prompt_message(session, prompt);
            &&& at(v, "type"@) == JsonView::Text("user"@)
            &&& at(at(v, "message"@), "content"@) == JsonView::Text(prompt)
            &&& at(at(v, "message"@), "role"@) == JsonView::Text("user"@)
            &&& at(v, "session_id"@) == JsonView::Text(
                match session {
                    Some(id) => id,
                    None => ""@,
                },
            )
            &&& lookup(v, "parent_tool_use_id"@) == Some(JsonView::Null)
        }),
{
    let id = match session {
        Some(s) => s,
        None => ""@,
    };
    reveal_strlit("content");
    reveal_strlit("role");
    assert("content"@.len() == 7);
    assert("role"@.len() == 4);
    let q0 = no_fields();
    let q1 = q0.push(("content"@, JsonView::Text(prompt)));
    an_added_member_is_found(q0, "content"@, JsonView::Text(prompt));
    let q2 = q1.push(("role"@, JsonView::Text("user"@)));
    an_added_member_is_found(q1, "role"@, JsonView::Text("user"@));
    reveal_strlit("message");
    reveal_strlit("parent_tool_use_id");
    reveal_strlit("session_id");
    reveal_strlit("type");
    assert("message"@.len() == 7);
    assert("parent_tool_use_id"@.len() == 18);
    assert("session_id"@.len() == 10);
    assert("type"@.len() == 4);
    let p0 = no_fields();
    let p1 = p0.push(("message"@, JsonView::Object(q2)));
    an_added_member_is_found(p0, "message"@, JsonView::Object(q2));
    let p2 = p1.push(("parent_tool_use_id"@, JsonView::Null));
    an_added_member_is_found(p1, "parent_tool_use_id"@, JsonView::Null);
    let p3 = p2.push(("session_id"@, JsonView::Text(id)));
    an_added_member_is_found(p2, "session_id"@, JsonView::Text(id));
    let p4 = p3.push(("type"@, JsonView::Text("user"@)));
    an_added_member_is_found(p3, "type"@, JsonView::Text("user"@));
}

/// A request to the process carries its identifier and what is asked for.
pub proof fn control_requests_are_told_by_name(id: Seq<char>, request: JsonView)
    ensures
        ({
            let v = control_request(id, request);
            &&& at(v, "type"@) == JsonView::Text("control_request"@)
            &&& at(v, "request_id"@) == JsonView::Text(id)
            &&& at(v, "request"@) == request
        }),
{
    reveal_strlit("request");
    reveal_strlit("request_id");
    reveal_strlit("type");
    assert("request"@.len() == 7);
    assert("request_id"@.len() == 10);
    assert("type"@.len() == 4);
    let p0 = no_fields();
    let p1 = p0.push(("request"@, request));
    an_added_member_is_found(p0, "request"@, request);
    let p2 = p1.push(("request_id"@, JsonView::Text(id)));
    an_added_member_is_found(p1, "request_id"@, JsonView::Text(id));
    let p3 = p2.push(("type"@, JsonView::Text("control_request"@)));
    an_added_member_is_found(p2, "type"@, JsonView::Text("control_request"@));
}

/// The answer to a permission request carries the identifier of the request. Where the user
/// allows the call, it allows it with the very input that was asked about; else it denies it.
pub proof fn permissions_are_told_by_name(request_id: Seq<char>, request: JsonView, allow: bool)
    ensures
        ({
            let v = permission_message(request_id, request, allow);
            let answer = at(at(v, "response"@), "response"@);
            &&& at(v, "type"@) == JsonView::Text("control_response"@)
            &&& at(at(v, "response"@), "request_id"@) == JsonView::Text(request_id)
            &&& at(at(v, "response"@), "subtype"@) == JsonView::Text("success"@)
            &&& allow ==> at(answer, "behavior"@) == JsonView::Text("allow"@) && at(
                answer,
                "updatedInput"@,
            ) == at(request, "input"@)
            &&& !allow ==> at(answer, "behavior"@) == JsonView::Text("deny"@) && at(
                answer,
                "message"@,
            ) is Text && lookup(answer, "updatedInput"@) is None
        }),
        ({
            let e = permission_event(request_id, request, allow);
            &&& at(e, "allow"@) == JsonView::Bool(allow)
            &&& at(e, "request_id"@) == JsonView::Text(request_id)
            &&& at(e, "tool_name"@) == at(request, "tool_name"@)
        }),
{
    let denial = JsonView::Text("用户在进程池 Web 调试页拒绝了此工具调用"@);
    reveal_strlit("behavior");
    reveal_strlit("updatedInput");
    reveal_strlit("message");
    reveal_strlit("request_id");
    reveal_strlit("response");
    reveal_strlit("subtype");
    reveal_strlit("type");
    reveal_strlit("allow");
    reveal_strlit("tool_name");
    assert("behavior"@.len() == 8);
    assert("updatedInput"@.len() == 12);
    assert("message"@.len() == 7);
    assert("request_id"@.len() == 10);
    assert("response"@.len() == 8);
    assert("subtype"@.len() == 7);
    assert("type"@.len() == 4);
    assert("allow"@.len() == 5);
    assert("tool_name"@.len() == 9);
    assert("behavior"@[0] != "response"@[0]);
    assert("message"@[0] != "subtype"@[0]);
    if allow {
        let a0 = no_fields();
        let a1 = a0.push(("behavior"@, JsonView::Text("allow"@)));
        an_added_member_is_found(a0, "behavior"@, JsonView::Text("allow"@));
        let a2 = a1.push(("updatedInput"@, at(request, "input"@)));
        an_added_member_is_found(a1, "updatedInput"@, at(request, "input"@));
    } else {
        let a0 = no_fields();
        let a1 = a0.push(("behavior"@, JsonView::Text("deny"@)));
        an_added_member_is_found(a0, "behavior"@, JsonView::Text("deny"@));
        let a2 = a1.push(("message"@, denial));
        an_added_member_is_found(a1, "message"@, denial);
    }
    let p0 = no_fields();
    let p1 = p0.push(("request_id"@, JsonView::Text(request_id)));
    an_added_member_is_found(p0, "request_id"@, JsonView::Text(request_id));
    let p2 = p1.push(("response"@, permission_answer(request, allow)));
    an_added_member_is_found(p1, "response"@, permission_answer(request, allow));
    let p3 = p2.push(("subtype"@, JsonView::Text("success"@)));
    an_added_member_is_found(p2, "subtype"@, JsonView::Text("success"@));
    let q0 = no_fields();
    let q1 = q0.push(("response"@, JsonView::Object(p3)));
    an_added_member_is_found(q0, "response"@, JsonView::Object(p3));
    let q2 = q1.push(("type"@, JsonView::Text("control_response"@)));
    an_added_member_is_found(q1, "type"@, JsonView::Text("control_response"@));
    let e0 = no_fields();
    let e1 = e0.push(("allow"@, JsonView::Bool(allow)));
    an_added_member_is_found(e0, "allow"@, JsonView::Bool(allow));
    let e2 = e1.push(("request_id"@, JsonView::Text(request_id)));
    an_added_member_is_found(e1, "request_id"@, JsonView::Text(request_id));
    let e3 = e2.push(("tool_name"@, at(request, "tool_name"@)));
    an_added_member_is_found(e2, "tool_name"@, at(request, "tool_name"@));
}

/// A request that is not put before the user is answered with an error under its identifier.
pub proof fn refusals_are_told_by_name(id: Seq<char>)
    ensures
        ({
            let v = refusal_message(id);
            &&& at(v, "type"@) == JsonView::Text("control_response"@)
            &&& at(at(v, "response"@), "request_id"@) == JsonView::Text(id)
            &&& at(at(v, "response"@), "subtype"@) == JsonView::Text("error"@)
            &&& at(at(v, "response"@), "error"@) is Text
        }),
{
    let reason = JsonView::Text("Unsupported or inactive permission request"@);
    reveal_strlit("error");
    reveal_strlit("request_id");
    reveal_strlit("subtype");
    reveal_strlit("response");
    reveal_strlit("type");
    assert("error"@.len() == 5);
    assert("request_id"@.len() == 10);
    assert("subtype"@.len() == 7);
    assert("response"@.len() == 8);
    assert("type"@.len() == 4);
    let p0 = no_fields();
    let p1 = p0.push(("error"@, reason));
    an_added_member_is_found(p0, "error"@, reason);
    let p2 = p1.push(("request_id"@, JsonView::Text(id)));
    an_added_member_is_found(p1, "request_id"@, JsonView::Text(id));
    let p3 = p2.push(("subtype"@, JsonView::Text("error"@)));
    an_added_member_is_found(p2, "subtype"@, JsonView::Text("error"@));
    let q0 = no_fields();
    let q1 = q0.push(("response"@, JsonView::Object(p3)));
    an_added_member_is_found(q0, "response"@, JsonView::Object(p3));
    let q2 = q1.push(("type"@, JsonView::Text("control_response"@)));
    an_added_member_is_found(q1, "type"@, JsonView::Text("control_response"@));
}

/// What a user sees of the service: the conversations, the program and, where it answers, its
/// version, the limit on conversations, and the repository.
pub proof fn the_service_is_told_by_name<R>(
    m: ManagerView<R>,
    path: Seq<char>,
    ready: bool,
    version: Option<Seq<char>>,
)
    ensures
        ({
            let v = status_document(m, path, ready, version);
            &&& at(v, "enabled"@) == JsonView::Bool(true)
            &&& at(v, m.names.tag + "_program"@) == JsonView::Text(m.program)
            &&& lookup(v, m.names.tag + "_version"@) == (match version {
                Some(text) => Some(JsonView::Text(text)),
                None => None,
            })
            &&& at(v, "max_agents"@) == counted(m.max_agents as nat)
            &&& at(v, "repository"@) == JsonView::Text(CONDUIT_REPOSITORY@)
            &&& at(v, "repository_path"@) == JsonView::Text(path)
            &&& at(v, "repository_ready"@) == JsonView::Bool(ready)
            &&& at(v, "agents"@) matches JsonView::Array(rows) && rows.len() == m.agents.len()
                && forall|i: int|
                0 <= i < rows.len() ==> #[trigger] rows[i] == info_document(
                    m.agents[i].1.record.info,
                )
        }),
{
    let program = m.names.tag + "_program"@;
    let edition = m.names.tag + "_version"@;
    reveal_strlit("agents");
    reveal_strlit("enabled");
    reveal_strlit("max_agents");
    reveal_strlit("repository");
    reveal_strlit("repository_path");
    reveal_strlit("repository_ready");
    reveal_strlit("_program");
    reveal_strlit("_version");
    assert("agents"@.len() == 6);
    assert("enabled"@.len() == 7);
    assert("max_agents"@.len() == 10);
    assert("repository"@.len() == 10);
    assert("repository_path"@.len() == 15);
    assert("repository_ready"@.len() == 16);
    assert("_program"@.len() == 8);
    assert("_version"@.len() == 8);
    assert("max_agents"@[0] != "repository"@[0]);
    assert("_program"@[1] != "_version"@[1]);
    assert("agents"@[5] == 's');
    assert("enabled"@[6] == 'd');
    assert("max_agents"@[9] == 's');
    assert("repository"@[9] == 'y');
    assert("repository_path"@[14] == 'h');
    assert("repository_ready"@[15] == 'y');
    assert(program[program.len() - 1] == 'm');
    assert(edition[edition.len() - 1] == 'n');
    let p0 = no_fields();
    let p1 = p0.push(("agents"@, JsonView::Array(overview(m.agents))));
    an_added_member_is_found(p0, "agents"@, JsonView::Array(overview(m.agents)));
    let p2 = p1.push((program, JsonView::Text(m.program)));
    an_added_member_is_found(p1, program, JsonView::Text(m.program));
    let r0 = match version {
        Some(text) => p2.push((edition, JsonView::Text(text))),
        None => p2,
    };
    if let Some(text) = version {
        an_added_member_is_found(p2, edition, JsonView::Text(text));
    }
    let q0 = r0;
    let q1 = q0.push(("enabled"@, JsonView::Bool(true)));
    an_added_member_is_found(q0, "enabled"@, JsonView::Bool(true));
    let q2 = q1.push(("max_agents"@, unsigned(m.max_agents as nat)));
    an_added_member_is_found(q1, "max_agents"@, unsigned(m.max_agents as nat));
    let q3 = q2.push(("repository"@, JsonView::Text(CONDUIT_REPOSITORY@)));
    an_added_member_is_found(q2, "repository"@, JsonView::Text(CONDUIT_REPOSITORY@));
    let q4 = q3.push(("repository_path"@, JsonView::Text(path)));
    an_added_member_is_found(q3, "repository_path"@, JsonView::Text(path));
    let q5 = q4.push(("repository_ready"@, JsonView::Bool(ready)));
    an_added_member_is_found(q4, "repository_ready"@, JsonView::Bool(ready));
}

/// The service is ready just where it has a pool that is open; the answer tells the number of
/// workers, or why the service is not ready.
pub proof fn readiness_is_told_by_name<T>(pool: Option<PoolView<T>>)
    ensures
        ({
            let answer = ready_answer(pool);
            &&& answer.status == 200 <==> (pool matches Some(s) && s.open)
            &&& answer.status == 200 || answer.status == 503
            &&& !answer.no_store
            &&& at(answer.body, "status"@) == JsonView::Text(
                if answer.status == 200 {
                    "ready"@
                } else {
                    "not_ready"@
                },
            )
            &&& answer.status == 200 ==> at(answer.body, "workers"@) == counted(
                pool->0.workers.len(),
            )
            &&& pool is None ==> at(answer.body, "reason"@) == JsonView::Text(
                "pool_not_initialized"@,
            )
            &&& (pool matches Some(s) && !s.open) ==> at(answer.body, "error"@) == JsonView::Text(
                "the process pool is closed"@,
            )
        }),
{
    reveal_strlit("reason");
    reveal_strlit("status");
    reveal_strlit("workers");
    reveal_strlit("error");
    assert("reason"@.len() == 6);
    assert("status"@.len() == 6);
    assert("workers"@.len() == 7);
    assert("error"@.len() == 5);
    assert("reason"@[0] != "status"@[0]);
    match pool {
        None => {
            let p0 = no_fields();
            let p1 = p0.push(("reason"@, JsonView::Text("pool_not_initialized"@)));
            an_added_member_is_found(p0, "reason"@, JsonView::Text("pool_not_initialized"@));
            let p2 = p1.push(("status"@, JsonView::Text("not_ready"@)));
            an_added_member_is_found(p1, "status"@, JsonView::Text("not_ready"@));
        },
        Some(s) => {
            if s.open {
                let p0 = no_fields();
                let p1 = p0.push(("status"@, JsonView::Text("ready"@)));
                an_added_member_is_found(p0, "status"@, JsonView::Text("ready"@));
                let p2 = p1.push(("workers"@, unsigned(s.workers.len())));
                an_added_member_is_found(p1, "workers"@, unsigned(s.workers.len()));
            } else {
                let p0 = no_fields();
                let p1 = p0.push(("error"@, JsonView::Text(sentence(ErrorView::Closed))));
                an_added_member_is_found(p0, "error"@, JsonView::Text(sentence(ErrorView::Closed)));
                let p2 = p1.push(("status"@, JsonView::Text("not_ready"@)));
                an_added_member_is_found(p1, "status"@, JsonView::Text("not_ready"@));
            }
        },
    }
}

/// The sample worker does what the payload asks for: it gives a value back, at once or after the
/// given number of milliseconds, adds numbers up, fails, or ends itself; without an operation it
/// gives the value back, and an unknown one it refuses.
pub proof fn the_sample_worker_does_as_asked(id: u64, payload: JsonView, pid: u32)
    ensures
        ({
            let op = at(payload, "op"@);
            let plan = echo_plan(id, payload, pid);
            &&& op == JsonView::Text("echo"@) || op !is Text ==> (
            plan matches EchoPlanView::Respond(r) && gives_back(r, id, pid, payload))
            &&& op == JsonView::Text("sleep"@) ==> (plan matches EchoPlanView::Sleep {
                millis,
                response,
            } && gives_back(response, id, pid, payload) && millis == (match at(
                payload,
                "millis"@,
            ) {
                JsonView::Number(NumberView::Unsigned(n)) => n,
                _ => 0,
            }))
            &&& op == JsonView::Text("sum"@) ==> (match at(payload, "values"@) {
                JsonView::Array(given) => plan matches EchoPlanView::Sum { id: of, values } && of
                    == id && values == given,
                _ => refuses(plan, id, "INVALID_INPUT"@),
            })
            &&& op == JsonView::Text("fail"@) ==> refuses(plan, id, "EXAMPLE_FAILURE"@)
            &&& op == JsonView::Text("crash"@) ==> (plan matches EchoPlanView::Exit { status }
                && status != 0)
            &&& (op matches JsonView::Text(name) && name != "echo"@ && name != "sleep"@ && name
                != "sum"@ && name != "fail"@ && name != "crash"@) ==> refuses(
                plan,
                id,
                "INVALID_INPUT"@,
            )
        }),
{
    reveal_strlit("echo");
    reveal_strlit("sum");
    reveal_strlit("sleep");
    reveal_strlit("fail");
    reveal_strlit("crash");
    assert("echo"@.len() == 4);
    assert("sum"@.len() == 3);
    assert("sleep"@.len() == 5);
    assert("fail"@.len() == 4);
    assert("crash"@.len() == 5);
    assert("echo"@[0] != "fail"@[0]);
    assert("sleep"@[0] != "crash"@[0]);
    reveal_strlit("pid");
    reveal_strlit("value");
    assert("pid"@.len() == 3);
    assert("value"@.len() == 5);
    let p0 = no_fields();
    let p1 = p0.push(("pid"@, unsigned(pid as nat)));
    an_added_member_is_found(p0, "pid"@, unsigned(pid as nat));
    let p2 = p1.push(("value"@, at(payload, "value"@)));
    an_added_member_is_found(p1, "value"@, at(payload, "value"@));
}

/// The response says that task `id` was done by process `pid`, and carries the payload's value.
pub open spec fn gives_back(r: ResponseView, id: u64, pid: u32, payload: JsonView) -> bool {
    &&& r.id == id
    &&& r.ok
    &&& r.error is None
    &&& r.result matches Some(v) && at(v, "value"@) == at(payload, "value"@) && at(v, "pid"@)
        == counted(pid as nat)
}

/// The worker answers task `id` with an error of the given code.
pub open spec fn refuses(plan: EchoPlanView, id: u64, code: Seq<char>) -> bool {
    plan matches EchoPlanView::Respond(r) && r.id == id && !r.ok && r.result is None && (
    r.error matches Some(e) && e.code == code)
}

/// The developer notation of an error names its kind and shows what it carries.
pub proof fn errors_are_told_to_developers(e: ErrorView)
    ensures
        match e {
            ErrorView::NotInitialized => kind(e) == "NotInitialized"@,
            ErrorView::AlreadyInitialized => kind(e) == "AlreadyInitialized"@,
            ErrorView::InvalidConfig(s) => kind(e) == "InvalidConfig("@ + debug_text(s) + ")"@,
            ErrorView::SpawnFailed(s) => kind(e) == "SpawnFailed("@ + debug_text(s) + ")"@,
            ErrorView::Rejected => kind(e) == "Rejected"@,
            ErrorView::Discarded => kind(e) == "Discarded"@,
            ErrorView::Closed => kind(e) == "Closed"@,
            ErrorView::WorkerIo(s) => kind(e) == "WorkerIo("@ + debug_text(s) + ")"@,
            ErrorView::Protocol(s) => kind(e) == "Protocol("@ + debug_text(s) + ")"@,
            ErrorView::WorkerExited => kind(e) == "WorkerExited"@,
            ErrorView::TaskTimeout { timeout_ms } => kind(e) == "TaskTimeout { timeout_ms: "@
                + decimal_text(timeout_ms as nat) + " }"@,
            ErrorView::WorkerReturned { code, message, details } => kind(e)
                == "WorkerReturned { code: "@ + debug_text(code) + ", message: "@ + debug_text(
                message,
            ) + ", details: "@ + (match details {
                None => "None"@,
                Some(v) => "Some("@ + rendered(v, Notation::Developer) + ")"@,
            }) + " }"@,
        },
{
}

/// A successful call is answered with its result, a failed one with the code, the message and the
/// data of its error; each answer carries the identifier of the call.
pub proof fn answers_carry_what_they_are_given(
    id: JsonView,
    result: JsonView,
    code: int,
    message: Seq<char>,
    data: Option<JsonView>,
)
    ensures
        succeeded(id, result).id == id,
        succeeded(id, result).result == Some(result),
        succeeded(id, result).error is None,
        failed(id, code, message, data).id == id,
        failed(id, code, message, data).result is None,
        failed(id, code, message, data).error matches Some(e) && e.code == code && e.message
            == message && e.data == data,
{
}

/// A plain answer has the status, the mark and the document that it is given; a document with one
/// text has it under its name.
pub proof fn plain_answers_carry_what_they_are_given(
    status: u16,
    no_store: bool,
    body: JsonView,
    name: Seq<char>,
    text: Seq<char>,
)
    ensures
        http(status, no_store, body).status == status,
        http(status, no_store, body).no_store == no_store,
        http(status, no_store, body).body == body,
        at(one_text(name, text), name) == JsonView::Text(text),
        at(text_document(name, text), name) == JsonView::Text(text),
{
    an_added_member_is_found(no_fields(), name, JsonView::Text(text));
}

/// The registered factories are told by their names alone, in their order.
pub proof fn factories_are_told_by_name(factories: Seq<(Seq<char>, ProcessFactoryConfig)>)
    ensures
        names_of(factories).len() == factories.len(),
        forall|i: int|
            0 <= i < factories.len() ==> #[trigger] names_of(factories)[i] == JsonView::Text(
                factories[i].0,
            ),
{
}

/// A text or a count is read from a document that is one, and from no other.
pub proof fn plain_values_are_read_from_documents(v: JsonView)
    ensures
        match v {
            JsonView::Text(s) => text_in(v) == Some(s),
            _ => text_in(v) is None,
        },
        match v {
            JsonView::Number(NumberView::Unsigned(n)) => unsigned_in(v) == Some(n),
            _ => unsigned_in(v) is None,
        },
        forall|n: u64| #[trigger] unsigned(n as nat) == counted(n as nat),
{
}

/// A service without conversations says so, and why.
pub proof fn missing_conversations_are_told()
    ensures
        at(agents_disabled_document(), "enabled"@) == JsonView::Bool(false),
        at(agents_disabled_document(), "agents"@) == JsonView::Array(Seq::empty()),
        at(agents_disabled_document(), "reason"@) is Text,
{
    let reason = JsonView::Text("CC 管理仅在 loopback 监听地址启用"@);
    let none = JsonView::Array(Seq::<JsonView>::empty());
    reveal_strlit("agents");
    reveal_strlit("enabled");
    reveal_strlit("reason");
    assert("agents"@.len() == 6);
    assert("enabled"@.len() == 7);
    assert("reason"@.len() == 6);
    assert("agents"@[0] != "reason"@[0]);
    let p1 = no_fields().push(("agents"@, none));
    let p2 = p1.push(("enabled"@, JsonView::Bool(false)));
    an_added_member_is_found(no_fields(), "agents"@, none);
    an_added_member_is_found(p1, "enabled"@, JsonView::Bool(false));
    an_added_member_is_found(p2, "reason"@, reason);
}

/// What the service answers: that it is alive, the names of its factories, how many workers a
/// warm-up started, and the results or errors of calls, under the identifier of each call.
pub proof fn answers_say_what_happened(
    id: JsonView,
    factories: Seq<(Seq<char>, ProcessFactoryConfig)>,
    count: usize,
    v: JsonView,
    e: ErrorView,
    why: Seq<char>,
)
    ensures
        alive_answer().status == 200 && !alive_answer().no_store && at(
            alive_answer().body,
            "status"@,
        ) == JsonView::Text("ok"@),
        factories_answer(factories).status == 200 && factories_answer(factories).no_store && (at(
            factories_answer(factories).body,
            "factories"@,
        ) matches JsonView::Array(names) && names.len() == factories.len() && forall|i: int|
            0 <= i < names.len() ==> #[trigger] names[i] == JsonView::Text(factories[i].0)),
        prestart_answer(id, Ok(count)).id == id && prestart_answer(id, Ok(count)).error is None && (
        prestart_answer(id, Ok(count)).result matches Some(told) && at(
            told,
            "started_worker_count"@,
        ) == counted(count as nat)),
        prestart_answer(id, Err(e)) == pool_failure(id, e),
        execute_answer(id, Ok(v)).id == id && execute_answer(id, Ok(v)).error is None
            && execute_answer(id, Ok(v)).result == Some(v),
        execute_answer(id, Err(e)) == pool_failure(id, e),
        agents_answer(id, Ok(v)).id == id && agents_answer(id, Ok(v)).error is None
            && agents_answer(id, Ok(v)).result == Some(v),
        agents_answer(id, Err(why)).id == id && agents_answer(id, Err(why)).result is None && (
        agents_answer(id, Err(why)).error matches Some(told) && told.code == -32100
            && told.message == why),
        unreadable_answer(id, why).id == id && unreadable_answer(id, why).result is None && (
        unreadable_answer(id, why).error matches Some(told) && told.code == -32602
            && told.message == why),
{
    an_added_member_is_found(no_fields(), "status"@, JsonView::Text("ok"@));
    an_added_member_is_found(no_fields(), "factories"@, JsonView::Array(names_of(factories)));
    an_added_member_is_found(no_fields(), "started_worker_count"@, unsigned(count as nat));
}

/// The sample worker's sum is told as the result of its task, with the process that added up.
pub proof fn sums_are_told_by_name(id: u64, pid: u32, sum: JsonView)
    ensures
        sum_answer(id, pid, sum).id == id,
        sum_answer(id, pid, sum).ok,
        sum_answer(id, pid, sum).error is None,
        sum_answer(id, pid, sum).result matches Some(v) && at(v, "sum"@) == sum && at(v, "pid"@)
            == counted(pid as nat),
{
    reveal_strlit("pid");
    reveal_strlit("sum");
    assert("pid"@[0] != "sum"@[0]);
    let p1 = no_fields().push(("pid"@, unsigned(pid as nat)));
    an_added_member_is_found(no_fields(), "pid"@, unsigned(pid as nat));
    an_added_member_is_found(p1, "sum"@, sum);
}

} // verus!
