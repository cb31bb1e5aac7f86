//! The contents that contracts speak of leave nothing out of the values that programs hold.
use vstd::prelude::*;
use vstd::string::*;
use crate::agent::{AgentAction, AgentActionView, AgentInfo, Handling, HandlingView, Record};
use crate::agents::{targets, Target};
use crate::config::{optional_text, text_views, ProcessFactoryConfig};
use crate::echo::{EchoPlan, EchoPlanView};
use crate::errands::{Chore, ChoreView, Errand, ErrandView, Progress, ProgressView};
use crate::error::{outcome_view, ErrorView, PoolError};
use crate::json::{models, optional, Json, JsonNumber, JsonView, NumberView};
use crate::lines::{line_view, line_views, Line};
use crate::protocol::{WorkerError, WorkerResponse};
use crate::reading::result_view;
use crate::runner::{Action, ActionView};
use crate::schedule::{notice_views, prestart_view, start_view, Notice, NoticeView, Step};
use crate::server::{header_views, text_of, HttpAnswer, RpcPlan, RpcPlanView, RpcResponse};
use crate::session::{SessionNext, SessionNextView, SessionStage, SessionStageView, SessionStep};

verus! {

/// A document and its content have the same shape, and the same texts, numbers and members in the
/// same places.
pub proof fn documents_are_shown_whole(v: Json)
    ensures
        match v {
            Json::Null => v@ == JsonView::Null,
            Json::Bool(b) => v@ == JsonView::Bool(b),
            Json::Number(JsonNumber::Unsigned(n)) => v@ == JsonView::Number(
                NumberView::Unsigned(n),
            ),
            Json::Number(JsonNumber::Negative(n)) => v@ == JsonView::Number(
                NumberView::Negative(n),
            ),
            Json::Number(JsonNumber::Float(s)) => v@ == JsonView::Number(NumberView::Float(s@)),
            Json::Text(s) => v@ == JsonView::Text(s@),
            Json::Array(items) => v@ matches JsonView::Array(shown) && shown.len() == items@.len()
                && forall|i: int| 0 <= i < shown.len() ==> #[trigger] shown[i] == items@[i]@,
            Json::Object(members) => v@ matches JsonView::Object(shown) && shown.len()
                == members@.len() && forall|i: int|
                0 <= i < shown.len() ==> #[trigger] shown[i] == (
                    members@[i].key@,
                    members@[i].value@,
                ),
        },
{
}

/// An error shows its kind and what it carries; an outcome is the document or the error.
pub proof fn errors_are_shown_whole(e: PoolError, v: Json)
    ensures
        match e {
            PoolError::NotInitialized => e@ == ErrorView::NotInitialized,
            PoolError::AlreadyInitialized => e@ == ErrorView::AlreadyInitialized,
            PoolError::InvalidConfig(s) => e@ == ErrorView::InvalidConfig(s@),
            PoolError::SpawnFailed(s) => e@ == ErrorView::SpawnFailed(s@),
            PoolError::Rejected => e@ == ErrorView::Rejected,
            PoolError::Discarded => e@ == ErrorView::Discarded,
            PoolError::Closed => e@ == ErrorView::Closed,
            PoolError::WorkerIo(s) => e@ == ErrorView::WorkerIo(s@),
            PoolError::Protocol(s) => e@ == ErrorView::Protocol(s@),
            PoolError::WorkerExited => e@ == ErrorView::WorkerExited,
            PoolError::TaskTimeout { timeout_ms } => e@ == (ErrorView::TaskTimeout { timeout_ms }),
            PoolError::WorkerReturned { code, message, details } => e@
                matches ErrorView::WorkerReturned { code: c, message: m, details: d } && c == code@
                && m == message@ && (details is Some <==> d is Some) && (details is Some
                ==> d->0 == details->0@),
        },
        outcome_view(Err(e)) == Err::<JsonView, ErrorView>(e@),
        outcome_view(Ok(v)) == Ok::<JsonView, ErrorView>(v@),
{
}

/// The way to start a worker shows the program, every argument, every variable and the directory.
pub proof fn factories_are_shown_whole(f: ProcessFactoryConfig)
    ensures
        f@.program == f.program@,
        f@.args.len() == f.args@.len(),
        forall|i: int| 0 <= i < f.args@.len() ==> #[trigger] f@.args[i] == f.args@[i]@,
        f@.env.len() == f.env@.len(),
        forall|i: int|
            0 <= i < f.env@.len() ==> #[trigger] f@.env[i] == (f.env@[i].0, f.env@[i].1@),
        f@.current_dir is Some <==> f.current_dir is Some,
        f.current_dir matches Some(dir) ==> f@.current_dir == Some(dir@),
{
}

/// The response of a worker shows its number, its verdict, its result and its error.
pub proof fn responses_are_shown_whole(r: WorkerResponse, e: WorkerError)
    ensures
        r@.id == r.id,
        r@.ok == r.ok,
        r@.result is Some <==> r.result is Some,
        r.result matches Some(v) ==> r@.result == Some(v@),
        r@.error is Some <==> r.error is Some,
        r.error matches Some(e) ==> r@.error == Some(e@),
        e@.code == e.code@,
        e@.message == e.message@,
        e@.details is Some <==> e.details is Some,
        e.details matches Some(v) ==> e@.details == Some(v@),
{
}

/// A notice shows whom it is for and what it says; a step shows its notices in order, its call and
/// the result of a warm-up.
pub proof fn steps_are_shown_whole<T>(n: Notice<T>, step: Step<T>)
    ensures
        match n {
            Notice::Reply { ticket, outcome } => n@ == (NoticeView::Reply {
                ticket,
                outcome: match outcome {
                    Ok(v) => Ok(v@),
                    Err(e) => Err(e@),
                },
            }),
            Notice::Stop { worker_id } => n@ == (NoticeView::<T>::Stop { worker_id }),
            Notice::RunOneShot { job } => n@ == (NoticeView::RunOneShot { job }),
        },
        step@.notices.len() == step.notices@.len(),
        forall|i: int|
            0 <= i < step.notices@.len() ==> #[trigger] step@.notices[i] == step.notices@[i]@,
        step@.call == step.call,
        step@.prestarted is Some <==> step.prestarted is Some,
        step.prestarted matches Some(Ok(n)) ==> step@.prestarted == Some(
            Ok::<usize, ErrorView>(n),
        ),
        step.prestarted matches Some(Err(e)) ==> step@.prestarted == Some(
            Err::<usize, ErrorView>(e@),
        ),
{
}

/// What the attendant of a worker has to do shows every part of it.
pub proof fn actions_are_shown_whole<T>(a: Action<T>)
    ensures
        match a {
            Action::Await => a@ == ActionView::<T>::Await,
            Action::Exchange { line, timeout } => a@ == (ActionView::<T>::Exchange {
                line: line@,
                timeout,
            }),
            Action::ReportFinished { worker_id, ticket, outcome, reusable } => a@
                == (ActionView::ReportFinished {
                worker_id,
                ticket,
                outcome: match outcome {
                    Ok(v) => Ok(v@),
                    Err(e) => Err(e@),
                },
                reusable,
            }),
            Action::ReportStopped { worker_id, reason } => a@ == (ActionView::<T>::ReportStopped {
                worker_id,
                reason: reason@,
            }),
            Action::Kill => a@ == ActionView::<T>::Kill,
            Action::Ignore => a@ == ActionView::<T>::Ignore,
        },
{
}

/// The answer to a call shows its identifier, its result and its error; a plan shows what the
/// call leads to.
pub proof fn answers_are_shown_whole(r: RpcResponse, plan: RpcPlan, http: HttpAnswer)
    ensures
        r@.id == r.id@,
        r@.result is Some <==> r.result is Some,
        r.result matches Some(v) ==> r@.result == Some(v@),
        r@.error is Some <==> r.error is Some,
        r.error matches Some(e) ==> (r@.error matches Some(shown) && shown.code == e.code
            && shown.message == e.message@ && (shown.data is Some <==> e.data is Some) && (
        e.data matches Some(v) ==> shown.data == Some(v@))),
        match plan {
            RpcPlan::Reply(r) => plan@ == RpcPlanView::Reply(r@),
            RpcPlan::Agents { id, method, params } => plan@ == (RpcPlanView::Agents {
                id: id@,
                method: method@,
                params: params@,
            }),
            RpcPlan::Initialize { id, params } => plan@ == (RpcPlanView::Initialize {
                id: id@,
                params: params@,
            }),
            RpcPlan::Prestart { id } => plan@ == (RpcPlanView::Prestart { id: id@ }),
            RpcPlan::Execute { id, params } => plan@ == (RpcPlanView::Execute {
                id: id@,
                params: params@,
            }),
            RpcPlan::Stats { id } => plan@ == (RpcPlanView::Stats { id: id@ }),
        },
        http@.status == http.status,
        http@.no_store == http.no_store,
        http@.body == http.body@,
{
}

/// What is told about a conversation shows every fact, and its record every event in order.
pub proof fn conversations_are_shown_whole(info: AgentInfo, r: Record)
    ensures
        info@.id == info.id@,
        info@.label == info.label@,
        info@.generation == info.generation,
        info@.pid == info.pid,
        info@.cwd == info.cwd@,
        info@.session_id is Some <==> info.session_id is Some,
        info.session_id matches Some(id) ==> info@.session_id == Some(id@),
        info@.state == info.state,
        info@.started_at_ms == info.started_at_ms,
        info@.completed_turns == info.completed_turns,
        info@.failed_turns == info.failed_turns,
        info@.last_error is Some <==> info.last_error is Some,
        info.last_error matches Some(why) ==> info@.last_error == Some(why@),
        info@.pending.len() == info.pending_permissions@.len(),
        forall|i: int|
            0 <= i < info@.pending.len() ==> #[trigger] info@.pending[i] == (
                info.pending_permissions@[i].0,
                info.pending_permissions@[i].1@,
            ),
        r@.info == r.info@,
        r@.sequence == r.sequence,
        r@.events.len() == r.events@.len(),
        forall|i: int| 0 <= i < r.events@.len() ==> #[trigger] r@.events[i] == r.events@[i]@,
{
}

/// What a user asks of a conversation, and what a message asks for, show every part of it.
pub proof fn demands_are_shown_whole(a: AgentAction, h: Handling)
    ensures
        match a {
            AgentAction::Send(prompt) => a@ == AgentActionView::Send(prompt@),
            AgentAction::Interrupt => a@ == AgentActionView::Interrupt,
            AgentAction::Permission { request_id, allow } => a@ == (AgentActionView::Permission {
                request_id: request_id@,
                allow,
            }),
        },
        match h {
            Handling::Done => h@ == HandlingView::Done,
            Handling::Refuse(v) => h@ == HandlingView::Refuse(v@),
            Handling::Fail(why) => h@ == HandlingView::Fail(why@),
        },
{
}

/// What is to be done for a session shows the line to write, and a step the answer with its
/// addressee.
pub proof fn session_steps_are_shown_whole<R>(
    next: SessionNext,
    step: SessionStep<R>,
    stage: SessionStage<R>,
)
    ensures
        match next {
            SessionNext::Write(line) => next@ == SessionNextView::Write(line@),
            SessionNext::Listen => next@ == SessionNextView::Listen,
            SessionNext::End => next@ == SessionNextView::End,
            SessionNext::Ignore => next@ == SessionNextView::Ignore,
        },
        step@.next == step.next@,
        step@.answer is Some <==> step.answer is Some,
        step.answer matches Some(a) ==> (step@.answer matches Some((to, result)) && to == a.reply
            && match a.result {
            Ok(v) => result == Ok::<JsonView, Seq<char>>(v@),
            Err(why) => result == Err::<JsonView, Seq<char>>(why@),
        }),
        match stage {
            SessionStage::Handshaking => stage@ == SessionStageView::<R>::Handshaking,
            SessionStage::Listening => stage@ == SessionStageView::<R>::Listening,
            SessionStage::Replying { reply } => stage@ == (SessionStageView::Replying { reply }),
            SessionStage::Refusing { message } => stage@ == (SessionStageView::<R>::Refusing {
                message: message@,
            }),
            SessionStage::Ending => stage@ == SessionStageView::<R>::Ending,
            SessionStage::Ended => stage@ == SessionStageView::<R>::Ended,
        },
{
}

/// A chore shows what it is done to and every argument in order.
pub proof fn chores_are_shown_whole(c: Chore)
    ensures
        match c {
            Chore::AskVersion => c@ is AskVersion,
            Chore::MakeRoot { root } => c@ == (ChoreView::MakeRoot { root: root@ }),
            Chore::FindRepository { root } => c@ == (ChoreView::FindRepository { root: root@ }),
            Chore::Git { root, in_repository, args } => c@ matches ChoreView::Git {
                root: r,
                in_repository: i,
                args: shown,
            } && r == root@ && i == in_repository && shown.len() == args@.len() && forall|i: int|
                0 <= i < shown.len() ==> #[trigger] shown[i] == args@[i]@,
            Chore::Survey { root } => c@ == (ChoreView::Survey { root: root@ }),
            Chore::TakeNumber => c@ is TakeNumber,
            Chore::MakeDirectory { root, steps } => c@ matches ChoreView::MakeDirectory {
                root: r,
                steps: shown,
            } && r == root@ && shown.len() == steps@.len() && forall|i: int|
                0 <= i < shown.len() ==> #[trigger] shown[i] == steps@[i]@,
            Chore::Start { cwd, args } => c@ matches ChoreView::Start { cwd: d, args: shown } && d
                == cwd@ && shown.len() == args@.len() && forall|i: int|
                0 <= i < shown.len() ==> #[trigger] shown[i] == args@[i]@,
            Chore::Stop { id, generation } => c@ == (ChoreView::Stop { id: id@, generation }),
        },
{
}

/// An errand shows what it is about, and its progress the next chore or the answer.
pub proof fn errands_are_shown_whole(e: Errand, p: Progress)
    ensures
        match e {
            Errand::AskingVersion => e@ is AskingVersion,
            Errand::Preparing { stage, version } => e@ == (ErrandView::Preparing {
                stage,
                version: version@,
            }),
            Errand::CheckingOrigin => e@ is CheckingOrigin,
            Errand::Numbering => e@ is Numbering,
            Errand::MakingDirectory { id } => e@ == (ErrandView::MakingDirectory { id: id@ }),
            Errand::AddingWorktree { id, cwd } => e@ == (ErrandView::AddingWorktree {
                id: id@,
                cwd: cwd@,
            }),
            Errand::Starting { id, cwd } => e@ == (ErrandView::Starting { id: id@, cwd: cwd@ }),
            Errand::Halting { id, restart } => e@ == (ErrandView::Halting { id: id@, restart }),
            Errand::Restarting => e@ is Restarting,
        },
        match p {
            Progress::Go { errand, chore } => p@ == (ProgressView::Go {
                errand: errand@,
                chore: chore@,
            }),
            Progress::Finished(Ok(v)) => p@ == ProgressView::Finished(Ok(v@)),
            Progress::Finished(Err(why)) => p@ == ProgressView::Finished(Err(why@)),
        },
{
}

/// The processes to stop are shown by identifier and generation, in order.
pub proof fn targets_are_shown_whole(list: Seq<Target>)
    ensures
        targets(list).len() == list.len(),
        forall|i: int|
            0 <= i < list.len() ==> #[trigger] targets(list)[i] == (list[i].id@, list[i].generation),
{
}

/// What the sample worker has to do shows the response, the numbers to add, the time to wait or
/// the status to end with.
pub proof fn plans_are_shown_whole(p: EchoPlan)
    ensures
        match p {
            EchoPlan::Respond(r) => p@ == EchoPlanView::Respond(r@),
            EchoPlan::Sum { id, values } => p@ matches EchoPlanView::Sum { id: of, values: shown }
                && of == id && shown.len() == values@.len() && forall|i: int|
                0 <= i < shown.len() ==> #[trigger] shown[i] == values@[i]@,
            EchoPlan::Sleep { millis, response } => p@ == (EchoPlanView::Sleep {
                millis,
                response: response@,
            }),
            EchoPlan::Exit { status } => p@ == (EchoPlanView::Exit { status }),
        },
{
}

/// Optional and listed values show what they hold, in order, and nothing where they hold nothing.
pub proof fn collections_are_shown_whole<T>(
    v: Json,
    text: String,
    items: Seq<Json>,
    texts: Seq<String>,
    notices: Seq<Notice<T>>,
    headers: Seq<(&'static str, &'static str)>,
)
    ensures
        optional(Some(v)) == Some(v@),
        optional(None) is None,
        optional_text(Some(text)) == Some(text@),
        optional_text(None) is None,
        text_of(Some(text)) == Some(text@),
        text_of(None) is None,
        models(items).len() == items.len(),
        forall|i: int| 0 <= i < items.len() ==> #[trigger] models(items)[i] == items[i]@,
        text_views(texts).len() == texts.len(),
        forall|i: int| 0 <= i < texts.len() ==> #[trigger] text_views(texts)[i] == texts[i]@,
        notice_views(notices).len() == notices.len(),
        forall|i: int| 0 <= i < notices.len() ==> #[trigger] notice_views(notices)[i] == notices[i]@,
        header_views(headers).len() == headers.len(),
        forall|i: int|
            0 <= i < headers.len() ==> #[trigger] header_views(headers)[i] == (
                headers[i].0@,
                headers[i].1@,
            ),
{
}

/// The results of lines, starts, requests and warm-ups show what came, or why nothing came.
pub proof fn results_are_shown_whole(
    v: Json,
    text: String,
    process_id: Option<u32>,
    count: usize,
    e: PoolError,
    lines: Seq<Line>,
)
    ensures
        line_view(Ok(text)) == Ok::<Seq<char>, Seq<char>>(text@),
        line_view(Err(text)) == Err::<Seq<char>, Seq<char>>(text@),
        line_views(lines).len() == lines.len(),
        forall|i: int|
            0 <= i < lines.len() ==> #[trigger] line_views(lines)[i] == line_view(lines[i]),
        start_view(Ok(process_id)) == Ok::<Option<u32>, Seq<char>>(process_id),
        start_view(Err(text)) == Err::<Option<u32>, Seq<char>>(text@),
        result_view(Ok(v)) == Ok::<JsonView, Seq<char>>(v@),
        result_view(Err(text)) == Err::<JsonView, Seq<char>>(text@),
        prestart_view(Some(Ok(count))) == Some(Ok::<usize, ErrorView>(count)),
        prestart_view(Some(Err(e))) == Some(Err::<usize, ErrorView>(e@)),
        prestart_view(None) is None,
{
}

} // verus!
