//! An example worker: what it does for each operation.
use vstd::prelude::*;
use vstd::string::*;
use crate::json::{at, models, no_fields, text_in, unsigned, unsigned_in, Fields, Json, JsonView};
use crate::agent::member;
use crate::protocol::{ResponseView, WorkerError, WorkerErrorView, WorkerRequest, WorkerResponse};
use crate::text::same_text;

verus! {

/// What the worker has to do for a request.
pub enum EchoPlan {
    /// Answer at once.
    Respond(WorkerResponse),
    /// Add the numbers among the values up, and answer with `sum_response`.
    Sum { id: u64, values: Vec<Json> },
    /// Wait, and then answer.
    Sleep { millis: u64, response: WorkerResponse },
    /// End the process with this status.
    Exit { status: i32 },
}

/// The content of an [`EchoPlan`].
pub enum EchoPlanView {
    Respond(ResponseView),
    Sum { id: u64, values: Seq<JsonView> },
    Sleep { millis: u64, response: ResponseView },
    Exit { status: i32 },
}

impl View for EchoPlan {
    type V = EchoPlanView;

    open spec fn view(&self) -> EchoPlanView {
        match *self {
            EchoPlan::Respond(r) => EchoPlanView::Respond(r@),
            EchoPlan::Sum { id, values } => EchoPlanView::Sum { id, values: models(values@) },
            EchoPlan::Sleep { millis, response } => EchoPlanView::Sleep {
                millis,
                response: response@,
            },
            EchoPlan::Exit { status } => EchoPlanView::Exit { status },
        }
    }
}

/// The operation that a payload names; `echo` where it names none.
pub open spec fn operation(payload: JsonView) -> Seq<char> {
    match text_in(at(payload, "op"@)) {
        Some(op) => op,
        None => "echo"@,
    }
}

pub open spec fn failure_response(id: u64, code: Seq<char>, message: Seq<char>) -> ResponseView {
    ResponseView {
        id,
        ok: false,
        result: None,
        error: Some(WorkerErrorView { code, message, details: None }),
    }
}

/// The answer that gives the value of the payload back.
pub open spec fn value_response(id: u64, pid: u32, payload: JsonView) -> ResponseView {
    ResponseView {
        id,
        ok: true,
        result: Some(
            JsonView::Object(
                no_fields().push(("pid"@, unsigned(pid as nat))).push(
                    ("value"@, at(payload, "value"@)),
                ),
            ),
        ),
        error: None,
    }
}

/// What the worker with process identifier `pid` has to do.
pub open spec fn echo_plan(id: u64, payload: JsonView, pid: u32) -> EchoPlanView {
    let op = operation(payload);
    if op == "echo"@ {
        EchoPlanView::Respond(value_response(id, pid, payload))
    } else if op == "sum"@ {
        match at(payload, "values"@) {
            JsonView::Array(values) => EchoPlanView::Sum { id, values },
            _ => EchoPlanView::Respond(
                failure_response(id, "INVALID_INPUT"@, "values must be a JSON number array"@),
            ),
        }
    } else if op == "sleep"@ {
        EchoPlanView::Sleep {
            millis: match unsigned_in(at(payload, "millis"@)) {
                Some(n) => n,
                None => 0,
            },
            response: value_response(id, pid, payload),
        }
    } else if op == "fail"@ {
        EchoPlanView::Respond(
            failure_response(id, "EXAMPLE_FAILURE"@, "failure requested by caller"@),
        )
    } else if op == "crash"@ {
        EchoPlanView::Exit { status: 17 }
    } else {
        EchoPlanView::Respond(failure_response(id, "INVALID_INPUT"@, "unknown operation"@))
    }
}

fn report(id: u64, code: &str, message: &str) -> (r: WorkerResponse)
    ensures
        r@ == failure_response(id, code@, message@),
{
    WorkerResponse::failure(
        id,
        WorkerError { code: code.to_owned(), message: message.to_owned(), details: None },
    )
}

/// The answer to a request that makes no sense.
pub fn invalid_input(id: u64, message: &str) -> (r: WorkerResponse)
    ensures
        r@ == failure_response(id, "INVALID_INPUT"@, message@),
{
    report(id, "INVALID_INPUT", message)
}

fn value_answer(id: u64, pid: u32, payload: &Json) -> (r: WorkerResponse)
    ensures
        r@ == value_response(id, pid, payload@),
{
    WorkerResponse::success(
        id,
        Fields::new().with("pid", Json::unsigned(pid as u64)).with(
            "value",
            member(payload, "value"),
        ).object(),
    )
}

/// Says what to do for a request.
pub fn handle(request: &WorkerRequest, pid: u32) -> (plan: EchoPlan)
    ensures
        plan@ == echo_plan(request.id, request.payload@, pid),
{
    let id: u64 = request.id;
    let op = member(&request.payload, "op");
    let operation = match op.as_str() {
        Some(op) => op,
        None => "echo",
    };
    if same_text(operation, "echo") {
        EchoPlan::Respond(value_answer(id, pid, &request.payload))
    } else if same_text(operation, "sum") {
        match member(&request.payload, "values") {
            Json::Array(values) => {
                let plan = EchoPlan::Sum { id, values };
                assert(models(values@) =~= Json::Array(values)@->Array_0);
                plan
            },
            _ => EchoPlan::Respond(invalid_input(id, "values must be a JSON number array")),
        }
    } else if same_text(operation, "sleep") {
        let millis: u64 = match member(&request.payload, "millis").as_u64() {
            Some(n) => n,
            None => 0,
        };
        EchoPlan::Sleep { millis, response: value_answer(id, pid, &request.payload) }
    } else if same_text(operation, "fail") {
        EchoPlan::Respond(report(id, "EXAMPLE_FAILURE", "failure requested by caller"))
    } else if same_text(operation, "crash") {
        EchoPlan::Exit { status: 17 }
    } else {
        EchoPlan::Respond(invalid_input(id, "unknown operation"))
    }
}

/// The answer that carries a sum.
pub open spec fn sum_answer(id: u64, pid: u32, sum: JsonView) -> ResponseView {
    ResponseView {
        id,
        ok: true,
        result: Some(
            JsonView::Object(no_fields().push(("pid"@, unsigned(pid as nat))).push(("sum"@, sum))),
        ),
        error: None,
    }
}

/// The answer that carries a sum.
pub fn sum_response(id: u64, pid: u32, sum: Json) -> (r: WorkerResponse)
    ensures
        r@ == sum_answer(id, pid, sum@),
        r@ == (ResponseView {
            id,
            ok: true,
            result: Some(
                JsonView::Object(
                    no_fields().push(("pid"@, unsigned(pid as nat))).push(("sum"@, sum@)),
                ),
            ),
            error: None,
        }),
{
    WorkerResponse::success(
        id,
        Fields::new().with("pid", Json::unsigned(pid as u64)).with("sum", sum).object(),
    )
}

/// Every answer of the worker carries the identifier of its request and keeps the protocol, so
/// the worker stays in service.
pub proof fn the_worker_keeps_the_protocol(id: u64, payload: JsonView, pid: u32)
    ensures
        match echo_plan(id, payload, pid) {
            EchoPlanView::Respond(r) => r.id == id && !(crate::protocol::verdict(r) matches Err(
                crate::error::ErrorView::Protocol(_),
            )),
            EchoPlanView::Sleep { millis, response } => response.id == id
                && crate::protocol::verdict(response) is Ok,
            EchoPlanView::Sum { id: of, values } => of == id,
            EchoPlanView::Exit { status } => status == 17,
        },
{
}

} // verus!
