//! The exchange between the pool and one worker: a line of JSON each way.
use vstd::prelude::*;
use vstd::string::*;
use crate::config::{TimeSpan, NANOS_PER_MILLI};
use crate::error::{outcome_view, ErrorView, PoolError, TaskOutcome};
use crate::json::{
    compact, compact_texts_are_one_line, no_fields, optional, plain_numbers, unsigned, Fields, Json,
    JsonView,
};
use crate::text::{decimal, decimal_text, one_line};

verus! {

/// What the pool sends to a worker.
#[derive(Debug, PartialEq, Eq)]
pub struct WorkerRequest {
    pub id: u64,
    pub payload: Json,
}

/// A failure that a worker reports about a task.
#[derive(Debug, PartialEq, Eq)]
pub struct WorkerError {
    pub code: String,
    pub message: String,
    pub details: Option<Json>,
}

/// What a worker answers.
#[derive(Debug, PartialEq, Eq)]
pub struct WorkerResponse {
    pub id: u64,
    pub ok: bool,
    pub result: Option<Json>,
    pub error: Option<WorkerError>,
}

/// The content of a [`WorkerError`].
pub struct WorkerErrorView {
    pub code: Seq<char>,
    pub message: Seq<char>,
    pub details: Option<JsonView>,
}

/// The content of a [`WorkerResponse`].
pub struct ResponseView {
    pub id: u64,
    pub ok: bool,
    pub result: Option<JsonView>,
    pub error: Option<WorkerErrorView>,
}

impl View for WorkerError {
    type V = WorkerErrorView;

    open spec fn view(&self) -> WorkerErrorView {
        WorkerErrorView {
            code: self.code@,
            message: self.message@,
            details: optional(self.details),
        }
    }
}

impl View for WorkerResponse {
    type V = ResponseView;

    open spec fn view(&self) -> ResponseView {
        ResponseView {
            id: self.id,
            ok: self.ok,
            result: optional(self.result),
            error: match self.error {
                Some(e) => Some(e@),
                None => None,
            },
        }
    }
}

/// The request as a JSON document: the identifier, then the payload.
pub open spec fn request_document(id: u64, payload: JsonView) -> JsonView {
    JsonView::Object(no_fields().push(("id"@, unsigned(id as nat))).push(("payload"@, payload)))
}

/// The failure as a JSON document; absent details are left out.
pub open spec fn error_document(e: WorkerErrorView) -> JsonView {
    let fixed = no_fields().push(("code"@, JsonView::Text(e.code))).push(
        ("message"@, JsonView::Text(e.message)),
    );
    JsonView::Object(
        match e.details {
            Some(details) => fixed.push(("details"@, details)),
            None => fixed,
        },
    )
}

/// The response as a JSON document; an absent result or error is left out.
pub open spec fn response_document(r: ResponseView) -> JsonView {
    let fixed = no_fields().push(("id"@, unsigned(r.id as nat))).push(
        ("ok"@, JsonView::Bool(r.ok)),
    );
    let with_result = match r.result {
        Some(result) => fixed.push(("result"@, result)),
        None => fixed,
    };
    JsonView::Object(
        match r.error {
            Some(error) => with_result.push(("error"@, error_document(error))),
            None => with_result,
        },
    )
}

/// A document as one line of the exchange.
pub open spec fn line_of(v: JsonView) -> Seq<char> {
    compact(v) + "\n"@
}

/// Writes a document as one line.
pub fn to_line(v: &Json) -> (line: String)
    ensures
        line@ == line_of(v@),
{
    v.to_text().concat("\n")
}

impl WorkerRequest {
    /// The line that carries the request to the worker.
    pub fn to_line(&self) -> (line: String)
        ensures
            line@ == line_of(request_document(self.id, self.payload@)),
    {
        let document = Fields::new().with("id", Json::unsigned(self.id)).with(
            "payload",
            self.payload.clone(),
        ).object();
        to_line(&document)
    }
}

impl WorkerError {
    fn document(&self) -> (v: Json)
        ensures
            v@ == error_document(self@),
    {
        let fixed = Fields::new().with("code", Json::text(self.code.as_str())).with(
            "message",
            Json::text(self.message.as_str()),
        );
        match &self.details {
            Some(details) => fixed.with("details", details.clone()).object(),
            None => fixed.object(),
        }
    }
}

impl WorkerResponse {
    /// The answer to a task that was done.
    pub fn success(id: u64, result: Json) -> (response: WorkerResponse)
        ensures
            response@ == (ResponseView { id, ok: true, result: Some(result@), error: None }),
    {
        WorkerResponse { id, ok: true, result: Some(result), error: None }
    }

    /// The answer to a task that could not be done.
    pub fn failure(id: u64, error: WorkerError) -> (response: WorkerResponse)
        ensures
            response@ == (ResponseView { id, ok: false, result: None, error: Some(error@) }),
    {
        WorkerResponse { id, ok: false, result: None, error: Some(error) }
    }

    /// The line that carries the response back to the pool.
    pub fn to_line(&self) -> (line: String)
        ensures
            line@ == line_of(response_document(self@)),
    {
        let fixed = Fields::new().with("id", Json::unsigned(self.id)).with(
            "ok",
            Json::Bool(self.ok),
        );
        let with_result = match &self.result {
            Some(result) => fixed.with("result", result.clone()),
            None => fixed,
        };
        let document = match &self.error {
            Some(error) => with_result.with("error", error.document()).object(),
            None => with_result.object(),
        };
        to_line(&document)
    }
}

/// What a well-identified response says about its task. A response that claims success and
/// carries an error, or claims failure and carries a result or no error, breaks the protocol.
pub open spec fn verdict(r: ResponseView) -> Result<JsonView, ErrorView> {
    if r.ok {
        match r.error {
            None => Ok(
                match r.result {
                    Some(v) => v,
                    None => JsonView::Null,
                },
            ),
            Some(_) => Err(ErrorView::Protocol("successful response must not contain error"@)),
        }
    } else if r.result is Some {
        Err(ErrorView::Protocol("failed response must not contain result"@))
    } else {
        match r.error {
            Some(e) => Err(
                ErrorView::WorkerReturned { code: e.code, message: e.message, details: e.details },
            ),
            None => Err(ErrorView::Protocol("failed response must contain error"@)),
        }
    }
}

fn protocol_error(message: &str) -> (e: PoolError)
    ensures
        e@ == ErrorView::Protocol(message@),
{
    PoolError::Protocol(message.to_owned())
}

/// Turns a response into the outcome of its task.
pub fn worker_response_to_result(response: WorkerResponse) -> (outcome: TaskOutcome)
    ensures
        outcome_view(outcome) == verdict(response@),
{
    match (response.ok, response.result, response.error) {
        (true, Some(result), None) => Ok(result),
        (true, None, None) => Ok(Json::Null),
        (false, None, Some(error)) => Err(
            PoolError::WorkerReturned {
                code: error.code,
                message: error.message,
                details: error.details,
            },
        ),
        (true, _, Some(_)) => Err(protocol_error("successful response must not contain error")),
        (false, Some(_), _) => Err(protocol_error("failed response must not contain result")),
        (false, None, None) => Err(protocol_error("failed response must contain error")),
    }
}

/// How far the exchange of one task with a worker came.
pub enum Exchange {
    /// The request could not be encoded.
    Unencodable(String),
    /// Writing the request or reading the answer failed.
    Broken(String),
    /// The worker closed its output.
    Ended,
    /// A line came back that is no response.
    Unreadable(String),
    /// A response came back.
    Answered(WorkerResponse),
}

/// What the exchange yields: the response to this very request, or an error.
pub open spec fn exchanged(job_id: u64, exchange: Exchange) -> Result<ResponseView, ErrorView> {
    match exchange {
        Exchange::Unencodable(e) => Err(ErrorView::Protocol("cannot encode request: "@ + e@)),
        Exchange::Broken(e) => Err(ErrorView::WorkerIo(e@)),
        Exchange::Ended => Err(ErrorView::WorkerExited),
        Exchange::Unreadable(e) => Err(ErrorView::Protocol("invalid worker response: "@ + e@)),
        Exchange::Answered(r) => if r.id == job_id {
            Ok(r@)
        } else {
            Err(
                ErrorView::Protocol(
                    "response id "@ + decimal_text(r.id as nat) + " does not match request id "@
                        + decimal_text(job_id as nat),
                ),
            )
        },
    }
}

/// Accepts a response only where it answers the request.
pub fn exchange_one(job_id: u64, exchange: Exchange) -> (r: Result<WorkerResponse, PoolError>)
    ensures
        match r {
            Ok(response) => exchanged(job_id, exchange) == Ok::<ResponseView, ErrorView>(
                response@,
            ),
            Err(e) => exchanged(job_id, exchange) == Err::<ResponseView, ErrorView>(e@),
        },
{
    match exchange {
        Exchange::Unencodable(e) => Err(
            PoolError::Protocol("cannot encode request: ".to_owned().concat(e.as_str())),
        ),
        Exchange::Broken(e) => Err(PoolError::WorkerIo(e)),
        Exchange::Ended => Err(PoolError::WorkerExited),
        Exchange::Unreadable(e) => Err(
            PoolError::Protocol("invalid worker response: ".to_owned().concat(e.as_str())),
        ),
        Exchange::Answered(response) => {
            if response.id != job_id {
                let found = decimal(response.id);
                let wanted = decimal(job_id);
                Err(
                    PoolError::Protocol(
                        "response id ".to_owned().concat(found.as_str()).concat(
                            " does not match request id ",
                        ).concat(wanted.as_str()),
                    ),
                )
            } else {
                Ok(response)
            }
        },
    }
}

/// A length of time in whole milliseconds, capped at the largest 64-bit number.
pub open spec fn millis_of(span: TimeSpan) -> u64 {
    if span.nanos / NANOS_PER_MILLI > u64::MAX {
        u64::MAX
    } else {
        (span.nanos / NANOS_PER_MILLI) as u64
    }
}

/// Whole milliseconds in a length of time, capped at the largest 64-bit number.
pub fn duration_ms(span: TimeSpan) -> (ms: u64)
    ensures
        ms == millis_of(span),
{
    let ms: u128 = span.nanos / NANOS_PER_MILLI;
    if ms > u64::MAX as u128 {
        u64::MAX
    } else {
        ms as u64
    }
}

/// The outcome of a task whose exchange ended, or (`None`) ran out of time.
pub open spec fn concluded(
    job_id: u64,
    timeout: TimeSpan,
    exchange: Option<Exchange>,
) -> Result<JsonView, ErrorView> {
    match exchange {
        None => Err(ErrorView::TaskTimeout { timeout_ms: millis_of(timeout) }),
        Some(exchange) => match exchanged(job_id, exchange) {
            Ok(response) => verdict(response),
            Err(e) => Err(e),
        },
    }
}

/// Whether the worker may serve another task. It may where it answered its task in time and
/// by the protocol, be it with a failure of its own.
pub open spec fn still_usable(job_id: u64, exchange: Option<Exchange>) -> bool {
    match exchange {
        None => false,
        Some(exchange) => match exchanged(job_id, exchange) {
            Ok(response) => !(verdict(response) matches Err(ErrorView::Protocol(_))),
            Err(_) => false,
        },
    }
}

/// Draws the conclusion from an exchange that had `timeout` to complete.
pub fn exchange_with_timeout(
    job_id: u64,
    timeout: TimeSpan,
    exchange: Option<Exchange>,
) -> (r: (TaskOutcome, bool))
    ensures
        outcome_view(r.0) == concluded(job_id, timeout, exchange),
        r.1 == still_usable(job_id, exchange),
{
    match exchange {
        None => (Err(PoolError::TaskTimeout { timeout_ms: duration_ms(timeout) }), false),
        Some(exchange) => match exchange_one(job_id, exchange) {
            Ok(response) => {
                let outcome = worker_response_to_result(response);
                let reusable: bool = match &outcome {
                    Err(PoolError::Protocol(_)) => false,
                    _ => true,
                };
                (outcome, reusable)
            },
            Err(e) => (Err(e), false),
        },
    }
}

/// A worker stays in service exactly when its task succeeded or the worker itself reported
/// the failure; a timeout, a broken pipe, an exit or a breach of the protocol retires it.
pub proof fn only_well_behaved_workers_are_reused(
    job_id: u64,
    timeout: TimeSpan,
    exchange: Option<Exchange>,
)
    ensures
        still_usable(job_id, exchange) <==> match concluded(job_id, timeout, exchange) {
            Ok(_) => true,
            Err(ErrorView::WorkerReturned { .. }) => true,
            Err(_) => false,
        },
{
}

/// A response that answers another request is never taken for this one's.
pub proof fn foreign_responses_are_refused(job_id: u64, timeout: TimeSpan, response: WorkerResponse)
    requires
        response.id != job_id,
    ensures
        concluded(job_id, timeout, Some(Exchange::Answered(response))) matches Err(
            ErrorView::Protocol(_),
        ),
        !still_usable(job_id, Some(Exchange::Answered(response))),
{
}

/// What a worker built by `success` and `failure` says is what the caller gets.
pub proof fn well_formed_responses_pass_through(id: u64, result: JsonView, error: WorkerErrorView)
    ensures
        verdict(ResponseView { id, ok: true, result: Some(result), error: None }) == Ok::<
            JsonView,
            ErrorView,
        >(result),
        verdict(ResponseView { id, ok: true, result: None, error: None }) == Ok::<
            JsonView,
            ErrorView,
        >(JsonView::Null),
        verdict(ResponseView { id, ok: false, result: None, error: Some(error) }) == Err::<
            JsonView,
            ErrorView,
        >(
            ErrorView::WorkerReturned {
                code: error.code,
                message: error.message,
                details: error.details,
            },
        ),
{
}

/// A message is one line: its only line end is the one at its end.
pub proof fn messages_are_single_lines(v: JsonView)
    requires
        plain_numbers(v),
    ensures
        line_of(v).len() > 0,
        line_of(v).last() == '\n',
        one_line(line_of(v).drop_last()),
{
    reveal_strlit("\n");
    compact_texts_are_one_line(v);
    assert(line_of(v).drop_last() =~= compact(v));
}

/// A request is one line, whatever the texts in its payload.
pub proof fn requests_are_single_lines(id: u64, payload: JsonView)
    requires
        plain_numbers(payload),
    ensures
        line_of(request_document(id, payload)).last() == '\n',
        one_line(line_of(request_document(id, payload)).drop_last()),
{
    let document = request_document(id, payload);
    assert(plain_numbers(document)) by {
        let members = document->Object_0;
        assert forall|i: int| 0 <= i < members.len() implies plain_numbers(
            (#[trigger] members[i]).1,
        ) by {
            assert(members.len() == 2);
            assert(members[0].1 == unsigned(id as nat));
            assert(members[1].1 == payload);
        }
    }
    messages_are_single_lines(document);
}

} // verus!
