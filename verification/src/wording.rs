//! The words in which users and processes are told what is wrong.
use vstd::prelude::*;
use vstd::string::*;
use crate::agent::{applied, handled, AgentActionView, HandlingView, NamesView, RecordView};
use crate::agents::{
    creation_obstacle, demand_obstacle, restart_obstacle, routed, running, target_obstacle,
    ManagerView,
};
use crate::config::TimeSpan;
use crate::echo::{echo_plan, EchoPlanView};
use crate::errands::{
    origin_verdict, preparation_begun, pursued, ChoreEnd, ErrandView, ProgressView,
};
use crate::error::ErrorView;
use crate::json::{at, compact, JsonView};
use crate::lines::{source_name, too_long, Source};
use crate::protocol::{concluded, verdict, Exchange, ResponseView};
use crate::runner::{attended, one_shot_outcome, ActionView, Input, OneShot, Phase};
use crate::server::{planned, unknown_factory, RpcPlanView};
use crate::session::{
    final_record, heard, line_heard, start_failure, stepped, write_problem, written, SessionInput,
    SessionStageView, SessionView, WriteEnd,
};
use crate::table::found;
use crate::text::{clipped, decimal_text, lossy_text, trimmed};
use crate::tools::{git_outcome, request_outcome, version_outcome, RequestEnd, ToolEnd};

verus! {

/// The call is answered with these words.
pub open spec fn says(plan: RpcPlanView, message: Seq<char>) -> bool {
    plan matches RpcPlanView::Reply(r) && (r.error matches Some(e) && e.message == message)
}

/// The words for calls that are refused.
pub proof fn refused_calls_are_told_why(
    jsonrpc: Seq<char>,
    id: JsonView,
    method: Seq<char>,
    params: Option<JsonView>,
    local: bool,
    agents: bool,
)
    ensures
        jsonrpc != "2.0"@ ==> says(
            planned(jsonrpc, id, method, params, local, agents),
            "jsonrpc must be \"2.0\""@,
        ),
        "cc."@.is_prefix_of(method) && !local ==> says(
            planned("2.0"@, id, method, params, local, agents),
            "CC 管理仅允许本机同源访问"@,
        ),
        "cc."@.is_prefix_of(method) && local && !agents && method != "cc.status"@ ==> says(
            planned("2.0"@, id, method, params, local, agents),
            "CC 管理未启用，请使用 127.0.0.1 监听地址"@,
        ),
        (params matches Some(given) && given !is Null && given !is Object) ==> says(
            planned("2.0"@, id, "pool.prestart"@, params, local, agents),
            "pool.prestart takes no parameters"@,
        ),
        !"cc."@.is_prefix_of(method) && method != "pool.initialize"@ && method != "pool.prestart"@
            && method != "pool.execute"@ && method != "pool.stats"@ ==> says(
            planned("2.0"@, id, method, params, local, agents),
            "method not found"@,
        ),
        unknown_factory(method) == ErrorView::InvalidConfig(
            "unknown registered process_factory: "@ + method,
        ),
{
    reveal_strlit("cc.");
    reveal_strlit("pool.initialize");
    reveal_strlit("pool.prestart");
    assert("pool.initialize"@.len() != "pool.prestart"@.len());
    assert("cc."@[0] != "pool.prestart"@[0]);
}

/// The words for responses and exchanges that break the protocol, and for processes that cannot be
/// talked to.
pub proof fn broken_exchanges_are_told_why<T>(
    job_id: u64,
    timeout: TimeSpan,
    exchange: Exchange,
    r: ResponseView,
    worker_id: u64,
    text: String,
)
    ensures
        r.ok && r.error is Some ==> verdict(r) == Err::<JsonView, ErrorView>(
            ErrorView::Protocol("successful response must not contain error"@),
        ),
        !r.ok && r.result is Some ==> verdict(r) == Err::<JsonView, ErrorView>(
            ErrorView::Protocol("failed response must not contain result"@),
        ),
        !r.ok && r.result is None && r.error is None ==> verdict(r) == Err::<JsonView, ErrorView>(
            ErrorView::Protocol("failed response must contain error"@),
        ),
        match exchange {
            Exchange::Unencodable(e) => concluded(job_id, timeout, Some(exchange)) == Err::<
                JsonView,
                ErrorView,
            >(ErrorView::Protocol("cannot encode request: "@ + e@)),
            Exchange::Unreadable(e) => concluded(job_id, timeout, Some(exchange)) == Err::<
                JsonView,
                ErrorView,
            >(ErrorView::Protocol("invalid worker response: "@ + e@)),
            Exchange::Answered(answer) => answer.id != job_id ==> concluded(
                job_id,
                timeout,
                Some(exchange),
            ) == Err::<JsonView, ErrorView>(
                ErrorView::Protocol(
                    "response id "@ + decimal_text(answer.id as nat)
                        + " does not match request id "@ + decimal_text(job_id as nat),
                ),
            ),
            _ => true,
        },
        one_shot_outcome(job_id, timeout, OneShot::NoStdin) == Err::<JsonView, ErrorView>(
            ErrorView::SpawnFailed("worker stdin was not configured as a pipe"@),
        ),
        one_shot_outcome(job_id, timeout, OneShot::NoStdout) == Err::<JsonView, ErrorView>(
            ErrorView::SpawnFailed("worker stdout was not configured as a pipe"@),
        ),
        attended(worker_id, Phase::<T>::Waiting, Input::Exited(text)).1
            == (ActionView::<T>::ReportStopped {
            worker_id,
            reason: "exited with status "@ + text@,
        }),
        attended(worker_id, Phase::<T>::Waiting, Input::WaitFailed(text)).1
            == (ActionView::<T>::ReportStopped {
            worker_id,
            reason: "failed while waiting for exit: "@ + text@,
        }),
{
}

/// The words for what the sample worker refuses.
pub proof fn the_sample_worker_says_why(id: u64, payload: JsonView, pid: u32)
    ensures
        at(payload, "op"@) == JsonView::Text("fail"@) ==> (echo_plan(
            id,
            payload,
            pid,
        ) matches EchoPlanView::Respond(r) && (r.error matches Some(e) && e.message
            == "failure requested by caller"@ && e.details is None)),
        at(payload, "op"@) == JsonView::Text("sum"@) && at(payload, "values"@) !is Array ==> (
        echo_plan(id, payload, pid) matches EchoPlanView::Respond(r) && (r.error matches Some(e)
            && e.message == "values must be a JSON number array"@ && e.details is None)),
        at(payload, "op"@) == JsonView::Text("unknown"@) ==> (echo_plan(
            id,
            payload,
            pid,
        ) matches EchoPlanView::Respond(r) && (r.error matches Some(e) && e.message
            == "unknown operation"@ && e.details is None)),
        at(payload, "op"@) == JsonView::Text("crash"@) ==> echo_plan(id, payload, pid)
            == (EchoPlanView::Exit { status: 17 }),
{
    reveal_strlit("echo");
    reveal_strlit("sum");
    reveal_strlit("sleep");
    reveal_strlit("fail");
    reveal_strlit("crash");
    reveal_strlit("unknown");
    assert("sum"@.len() == 3);
    assert("sleep"@.len() == 5 && "crash"@.len() == 5);
    assert("sleep"@[0] != "crash"@[0]);
    assert("echo"@.len() == 4 && "fail"@.len() == 4);
    assert("echo"@[0] != "fail"@[0]);
    assert("unknown"@.len() == 7);
}

/// The words for lines that are too long.
pub proof fn overlong_lines_are_told_by_source()
    ensures
        too_long(Source::Stdout) == "stdout"@ + " 单行超过 1 MiB，已停止进程"@,
        too_long(Source::Stderr) == "stderr"@ + " 单行超过 1 MiB，已停止进程"@,
        source_name(Source::Stdout) == "stdout"@,
        source_name(Source::Stderr) == "stderr"@,
{
}

/// The words for demands on conversations that are refused.
pub proof fn refused_demands_are_told_why<R>(
    m: ManagerView<R>,
    id: Seq<char>,
    label: Seq<char>,
    generation: u64,
    action: AgentActionView,
    name: Seq<char>,
)
    ensures
        label.len() > 80 ==> creation_obstacle(m, label) == Some("名称不能超过 80 字符"@),
        label.len() <= 80 && m.closed ==> creation_obstacle(m, label) == Some("服务正在关闭"@),
        label.len() <= 80 && !m.closed && running(m.agents) >= m.max_agents ==> creation_obstacle(
            m,
            label,
        ) == Some("已达到 CC 进程上限，请先停止一个 Agent"@),
        label.len() <= 80 && !m.closed && running(m.agents) < m.max_agents && m.agents.len() >= 128
            ==> creation_obstacle(m, label) == Some(
            "本次服务最多保留 128 个 Agent 记录，请重启服务后再创建"@,
        ),
        running(m.agents) >= m.max_agents ==> restart_obstacle(m) == Some("已达到 CC 进程上限"@),
        running(m.agents) < m.max_agents ==> restart_obstacle(m) is None,
        m.closed ==> target_obstacle(m, id, generation) == Some("服务正在关闭"@),
        !m.closed && found(m.agents, id) is None ==> target_obstacle(m, id, generation) == Some(
            "未找到此 Agent"@,
        ),
        !m.closed && (found(m.agents, id) matches Some(s) && s.record.info.generation
            != generation) ==> target_obstacle(m, id, generation) == Some(
            "进程已更换，请刷新后操作"@,
        ),
        demand_obstacle(m, id, action) is Some && action !is Send ==> demand_obstacle(m, id, action)
            == Some("未找到此 Agent"@),
        action == AgentActionView::Send(Seq::empty()) ==> demand_obstacle(m, id, action) == Some(
            "提示词不能为空且不能超过 32 KiB"@,
        ),
        m.closed ==> preparation_begun(m).1 == ProgressView::Finished(Err("服务正在关闭"@)),
        routed(name, JsonView::Bool(true)) matches Err(why) ==> why == "未知 CC 方法"@ || why
            == "此方法不接受参数"@,
        routed("cc.prepare"@, JsonView::Bool(true)) == Err::<crate::agents::AgentMethod, Seq<char>>(
            "此方法不接受参数"@,
        ),
{
    reveal_strlit("cc.prepare");
    reveal_strlit("cc.status");
    assert("cc.prepare"@.len() != "cc.status"@.len());
    assert(crate::text::blank(Seq::empty()));
}

/// The words for actions that a conversation does not take, and for messages of its process that
/// make no sense.
pub proof fn refused_actions_are_told_why(
    r: RecordView,
    prompt: Seq<char>,
    request_id: Seq<char>,
    allow: bool,
    message: JsonView,
    tag: Seq<char>,
    now_ms: u64,
)
    ensures
        applied(r, AgentActionView::Send(prompt), now_ms).1 matches Err(why) ==> why
            == "Agent 尚未空闲；等待本轮结束或先中断"@,
        applied(r, AgentActionView::Interrupt, now_ms).1 matches Err(why) ==> why
            == "当前没有可中断的任务"@,
        applied(r, AgentActionView::Permission { request_id, allow }, now_ms).1 matches Err(why)
            ==> why == "权限请求已失效，请刷新"@,
        handled(r, message, tag, now_ms).1 matches HandlingView::Fail(why) ==> why
            == "权限请求缺少 request_id"@,
        handled(r, message, tag, now_ms).1 is Fail <==> at(message, "type"@) == JsonView::Text(
            "control_request"@,
        ) && at(message, "request_id"@) !is Text,
{
}

/// The words for the end of a conversation process.
pub proof fn ended_processes_are_told_why<R>(
    s: SessionView<R>,
    status: String,
    why: Seq<char>,
    message: JsonView,
    names: NamesView,
    now_ms: u64,
    cwd: Seq<char>,
)
    requires
        s.stage is Listening,
    ensures
        stepped(s, SessionInput::Exited(status), names, now_ms).0.failure == Some(
            names.title + " 已退出："@ + status@,
        ),
        !s.ready ==> stepped(s, SessionInput::<R>::DeadlinePassed, names, now_ms).0.failure == Some(
            names.title + " 控制协议握手超时，请检查 CLI 版本与登录状态"@,
        ),
        stepped(s, SessionInput::<R>::OutputClosed, names, now_ms).0.failure == Some(
            names.title + " 输出已关闭"@,
        ),
        line_heard(s, Err(why), names, now_ms).0.failure == Some(
            names.title + " 返回了非 stream-json 输出："@ + why,
        ),
        at(message, "type"@) == JsonView::Text("control_response"@) && at(
            at(message, "response"@),
            "request_id"@,
        ) == JsonView::Text("pool-initialize"@) && at(at(message, "response"@), "subtype"@)
            != JsonView::Text("success"@) ==> heard(s, message, names, now_ms).0.failure == Some(
            names.title + " 初始化失败："@ + compact(at(at(message, "response"@), "error"@)),
        ),
        start_failure(names.title, why, cwd) == "无法启动本机 "@ + names.title + "："@ + why
            + "；工作目录保留在 "@ + cwd,
        write_problem(names.title, WriteEnd::Done) is None,
        write_problem(names.title, WriteEnd::TimedOut) == Some(names.title + " 输入管道超时"@),
        write_problem(names.title, WriteEnd::Failed(status)) == Some(status@),
{
}

/// The words for a message that was not written: to who waits for it, and as the failure.
pub proof fn failed_writes_are_told_why<R>(
    s: SessionView<R>,
    reply: R,
    e: String,
    names: NamesView,
    now_ms: u64,
)
    requires
        s.stage == (SessionStageView::Replying { reply }),
    ensures
        ({
            let m = written(s, WriteEnd::Failed(e), names, now_ms);
            m.0.failure == Some("写入失败："@ + e@) && (m.1.answer matches Some((to, Err(why)))
                && why == "写入失败："@ + e@)
        }),
{
}

/// The note about the end of a conversation process.
pub proof fn ends_are_noted<R>(s: SessionView<R>, now_ms: u64)
    requires
        s.record.sequence < u64::MAX,
        s.record.events.len() <= 256,
    ensures
        final_record(s, now_ms) == crate::agent::with_event(
            (RecordView { info: final_record(s, now_ms).info, ..s.record }),
            now_ms,
            "lifecycle"@,
            crate::agent::text_document(
                "message"@,
                if s.stopped {
                    "进程已停止，工作目录和会话文件保留"@
                } else {
                    match s.failure {
                        Some(why) => why,
                        None => ""@,
                    }
                },
            ),
        ),
{
}

/// The words for tools and requests that failed.
pub proof fn failed_tools_are_told_why<R>(
    m: ManagerView<R>,
    names: NamesView,
    stdout: Vec<u8>,
    stderr: Vec<u8>,
    e: String,
    end: ToolEnd,
    now_ms: u64,
)
    ensures
        git_outcome(ToolEnd::TimedOut) == Err::<Seq<char>, Seq<char>>(
            "Git 操作超时，已有文件保留；请检查本地目录后重试"@,
        ),
        git_outcome(ToolEnd::Finished { success: false, stdout, stderr }) == Err::<
            Seq<char>,
            Seq<char>,
        >("Git 操作失败："@ + clipped(lossy_text(stderr@), 2048)),
        version_outcome(names, ToolEnd::TimedOut) == Err::<Seq<char>, Seq<char>>(
            names.tag + " --version 超时"@,
        ),
        version_outcome(names, ToolEnd::Failed(e)) == Err::<Seq<char>, Seq<char>>(
            "无法启动本机 "@ + names.title + "，请先自行安装并登录："@ + e@,
        ),
        version_outcome(names, ToolEnd::Finished { success: false, stdout, stderr }) == Err::<
            Seq<char>,
            Seq<char>,
        >(names.tag + " --version 失败，请检查本机安装"@),
        request_outcome(RequestEnd::Unsent) == Err::<JsonView, Seq<char>>(
            "进程已退出或控制队列繁忙，请刷新状态"@,
        ),
        request_outcome(RequestEnd::TimedOut) == Err::<JsonView, Seq<char>>(
            "控制请求等待超时，请先刷新状态，不要自动重试"@,
        ),
        request_outcome(RequestEnd::Dropped) == Err::<JsonView, Seq<char>>(
            "进程已退出，请刷新状态"@,
        ),
        git_outcome(end) matches Ok(output) ==> trimmed(output)
            != "https://github.com/cogwheel0/conduit.git"@ ==> origin_verdict(end) == Err::<
            (),
            Seq<char>,
        >("现有 conduit 目录的 origin 与预期仓库不一致，未作修改"@),
        origin_verdict(end) matches Err(why) ==> pursued(
            ErrandView::CheckingOrigin,
            m,
            ChoreEnd::Ran(end),
            now_ms,
        ).1 == ProgressView::Finished(Err("请先准备 conduit 项目："@ + why)),
        pursued(
            ErrandView::MakingDirectory { id: names.tag },
            m,
            ChoreEnd::DirectoryMade(Ok(None)),
            now_ms,
        ).1 == ProgressView::Finished(Err("目录不是 UTF-8"@)),
{
}

} // verus!
