//! The life of one conversation process, from the handshake to its end.
use vstd::prelude::*;
use vstd::string::*;
use crate::agent::{
    actions_keep_the_record_sound, an_event_keeps_the_record_sound, applied, handled, informed,
    info_document, labelled_text, member, messages_keep_the_record_sound, optional_number,
    record_countable, record_sound, text_document, with_event, AgentAction, AgentActionView,
    AgentNames, AgentState, Handling, HandlingView, InfoView, NamesView, Record, RecordView,
};
use crate::config::{copy_optional_text, optional_text};
use crate::json::{at, compact, no_fields, Fields, Json, JsonView};
use crate::protocol::{line_of, to_line};
use crate::reading::{document_in, read_json, result_view};

verus! {

/// How a write to the process ended.
pub enum WriteEnd {
    Done,
    TimedOut,
    Failed(String),
}

/// What went wrong with a write.
pub open spec fn write_problem(title: Seq<char>, end: WriteEnd) -> Option<Seq<char>> {
    match end {
        WriteEnd::Done => None,
        WriteEnd::TimedOut => Some(title + " 输入管道超时"@),
        WriteEnd::Failed(e) => Some(e@),
    }
}

/// Names what went wrong with a write.
pub fn write_message(title: &str, end: WriteEnd) -> (problem: Option<String>)
    ensures
        optional_text(problem) == write_problem(title@, end),
{
    match end {
        WriteEnd::Done => None,
        WriteEnd::TimedOut => Some(title.to_owned().concat(" 输入管道超时")),
        WriteEnd::Failed(e) => Some(e),
    }
}

/// What happens to a conversation process. `R` is what a command is answered through.
pub enum SessionInput<R> {
    /// The line that the session asked for has been written, or has not.
    Written(WriteEnd),
    /// The process ended by itself, with this status.
    Exited(String),
    /// The time for the handshake is over.
    DeadlinePassed,
    /// A user asks for something.
    Command { generation: u64, action: AgentAction, reply: R },
    /// A user asks for the end of the process.
    Stop { generation: u64, reply: R },
    /// No more commands will come.
    CommandsClosed,
    /// The process wrote a line.
    Line(String),
    /// The process wrote a line to its error output.
    Noise(String),
    /// Its output cannot be read.
    ReadFailed(String),
    /// Its output is at its end.
    OutputClosed,
}

/// What is to be done for the session.
pub enum SessionNext {
    /// Write the line to the process and report how that ended.
    Write(String),
    /// Wait for whatever happens first.
    Listen,
    /// Close the process's input, end it, and call `finish`.
    End,
    /// Nothing: the input did not fit the moment.
    Ignore,
}

pub enum SessionNextView {
    Write(Seq<char>),
    Listen,
    End,
    Ignore,
}

impl View for SessionNext {
    type V = SessionNextView;

    open spec fn view(&self) -> SessionNextView {
        match *self {
            SessionNext::Write(line) => SessionNextView::Write(line@),
            SessionNext::Listen => SessionNextView::Listen,
            SessionNext::End => SessionNextView::End,
            SessionNext::Ignore => SessionNextView::Ignore,
        }
    }
}

/// An answer to a user.
pub struct Answer<R> {
    pub reply: R,
    pub result: Result<Json, String>,
}

/// First the answer, if any, goes out; then comes what is to be done.
pub struct SessionStep<R> {
    pub answer: Option<Answer<R>>,
    pub next: SessionNext,
}

pub struct SessionStepView<R> {
    pub answer: Option<(R, Result<JsonView, Seq<char>>)>,
    pub next: SessionNextView,
}

impl<R> View for SessionStep<R> {
    type V = SessionStepView<R>;

    open spec fn view(&self) -> SessionStepView<R> {
        SessionStepView {
            answer: match self.answer {
                Some(a) => Some((a.reply, result_view(a.result))),
                None => None,
            },
            next: self.next@,
        }
    }
}

/// What the session waits for.
pub enum SessionStage<R> {
    /// The handshake to be written.
    Handshaking,
    /// Anything.
    Listening,
    /// A command's message to be written.
    Replying { reply: R },
    /// A refusal of `message` to be written.
    Refusing { message: Json },
    /// The process to be ended.
    Ending,
    /// Nothing: there is no process.
    Ended,
}

pub enum SessionStageView<R> {
    Handshaking,
    Listening,
    Replying { reply: R },
    Refusing { message: JsonView },
    Ending,
    Ended,
}

impl<R> View for SessionStage<R> {
    type V = SessionStageView<R>;

    open spec fn view(&self) -> SessionStageView<R> {
        match *self {
            SessionStage::Handshaking => SessionStageView::Handshaking,
            SessionStage::Listening => SessionStageView::Listening,
            SessionStage::Replying { reply } => SessionStageView::Replying { reply },
            SessionStage::Refusing { message } => SessionStageView::Refusing { message: message@ },
            SessionStage::Ending => SessionStageView::Ending,
            SessionStage::Ended => SessionStageView::Ended,
        }
    }
}

/// A conversation process and its record.
pub struct Session<R> {
    record: Record,
    ready: bool,
    stopped: bool,
    failure: Option<String>,
    stop_reply: Option<R>,
    stage: SessionStage<R>,
}

/// The content of a [`Session`].
pub struct SessionView<R> {
    pub record: RecordView,
    /// Whether the handshake is complete.
    pub ready: bool,
    /// Whether the end was asked for.
    pub stopped: bool,
    pub failure: Option<Seq<char>>,
    pub stop_reply: Option<R>,
    pub stage: SessionStageView<R>,
}

impl<R> View for Session<R> {
    type V = SessionView<R>;

    closed spec fn view(&self) -> SessionView<R> {
        SessionView {
            record: self.record@,
            ready: self.ready,
            stopped: self.stopped,
            failure: optional_text(self.failure),
            stop_reply: self.stop_reply,
            stage: self.stage@,
        }
    }
}

/// What holds of every session: its record is sound and tells whether there is a process; until
/// its end there is neither a failure nor a demand to stop, and its end has one of the two as
/// its cause.
pub open spec fn session_sound<R>(s: SessionView<R>) -> bool {
    &&& record_sound(s.record)
    &&& s.record.info.state.is_running() <==> s.stage !is Ended
    &&& match s.stage {
        SessionStageView::Ended => {
            &&& s.stop_reply is None
            &&& s.record.info.last_error is None <==> s.record.info.state == AgentState::Stopped
        },
        SessionStageView::Ending => {
            &&& s.stopped <==> s.failure is None
            &&& s.stop_reply is Some ==> s.stopped
        },
        _ => s.failure is None && !s.stopped && s.stop_reply is None,
    }
}

/// The identifier of the handshake.
pub open spec fn handshake_id() -> Seq<char> {
    "pool-initialize"@
}

/// The first message to the process.
pub open spec fn handshake() -> JsonView {
    crate::agent::control_request(
        handshake_id(),
        JsonView::Object(
            no_fields().push(("hooks"@, JsonView::Null)).push(
                ("subtype"@, JsonView::Text("initialize"@)),
            ),
        ),
    )
}

/// The event about something in the life of the process.
pub open spec fn lifecycle_note(r: RecordView, now_ms: u64, message: Seq<char>) -> RecordView {
    with_event(r, now_ms, "lifecycle"@, text_document("message"@, message))
}

pub open spec fn listen<R>() -> SessionStepView<R> {
    SessionStepView { answer: None, next: SessionNextView::Listen }
}

/// A session that goes on listening, with another record.
pub open spec fn listening<R>(s: SessionView<R>, record: RecordView) -> SessionView<R> {
    SessionView { record, stage: SessionStageView::Listening, ..s }
}

/// The process cannot go on.
pub open spec fn failing<R>(s: SessionView<R>, why: Seq<char>) -> (
    SessionView<R>,
    SessionStepView<R>,
) {
    (
        SessionView { failure: Some(why), stage: SessionStageView::Ending, ..s },
        SessionStepView { answer: None, next: SessionNextView::End },
    )
}

/// A user's command.
pub open spec fn commanded<R>(
    s: SessionView<R>,
    generation: u64,
    action: AgentActionView,
    reply: R,
    now_ms: u64,
) -> (SessionView<R>, SessionStepView<R>) {
    if generation != s.record.info.generation {
        (
            s,
            SessionStepView {
                answer: Some((reply, Err("进程已更换，请刷新后操作"@))),
                next: SessionNextView::Listen,
            },
        )
    } else {
        let (record, message) = applied(s.record, action, now_ms);
        match message {
            Err(why) => (
                s,
                SessionStepView {
                    answer: Some((reply, Err(why))),
                    next: SessionNextView::Listen,
                },
            ),
            Ok(message) => (
                SessionView { record, stage: SessionStageView::Replying { reply }, ..s },
                SessionStepView { answer: None, next: SessionNextView::Write(line_of(message)) },
            ),
        }
    }
}

/// A message of the process.
pub open spec fn heard<R>(
    s: SessionView<R>,
    message: JsonView,
    names: NamesView,
    now_ms: u64,
) -> (
    SessionView<R>,
    SessionStepView<R>,
) {
    let response = at(message, "response"@);
    if at(message, "type"@) == JsonView::Text("control_response"@) && at(response, "request_id"@)
        == JsonView::Text(handshake_id()) {
        if at(response, "subtype"@) == JsonView::Text("success"@) {
            let idle = informed(
                s.record,
                InfoView { state: AgentState::Idle, ..s.record.info },
            );
            (
                SessionView {
                    ready: true,
                    ..listening(s, lifecycle_note(idle, now_ms, "会话已就绪，可发送提示词"@))
                },
                listen(),
            )
        } else {
            failing(s, names.title + " 初始化失败："@ + compact(at(response, "error"@)))
        }
    } else {
        let (record, handling) = handled(s.record, message, names.tag, now_ms);
        match handling {
            HandlingView::Done => (listening(s, record), listen()),
            HandlingView::Refuse(answer) => (
                SessionView { record, stage: SessionStageView::Refusing { message }, ..s },
                SessionStepView { answer: None, next: SessionNextView::Write(line_of(answer)) },
            ),
            HandlingView::Fail(why) => failing(SessionView { record, ..s }, why),
        }
    }
}

/// A line of the process, which holds a document or, for the given reason, none.
pub open spec fn line_heard<R>(
    s: SessionView<R>,
    content: Result<JsonView, Seq<char>>,
    names: NamesView,
    now_ms: u64,
) -> (SessionView<R>, SessionStepView<R>) {
    match content {
        Ok(message) => heard(s, message, names, now_ms),
        Err(why) => failing(s, names.title + " 返回了非 stream-json 输出："@ + why),
    }
}

/// A write has ended.
pub open spec fn written<R>(
    s: SessionView<R>,
    end: WriteEnd,
    names: NamesView,
    now_ms: u64,
) -> (
    SessionView<R>,
    SessionStepView<R>,
) {
    match (s.stage, write_problem(names.title, end)) {
        (SessionStageView::Handshaking, None) => (listening(s, s.record), listen()),
        (SessionStageView::Handshaking, Some(e)) => failing(s, e),
        (SessionStageView::Replying { reply }, None) => (
            listening(s, s.record),
            SessionStepView {
                answer: Some((reply, Ok(info_document(s.record.info)))),
                next: SessionNextView::Listen,
            },
        ),
        (SessionStageView::Replying { reply }, Some(e)) => {
            let why = "写入失败："@ + e;
            (
                failing(s, why).0,
                SessionStepView { answer: Some((reply, Err(why))), next: SessionNextView::End },
            )
        },
        (SessionStageView::Refusing { message }, None) => (
            listening(s, with_event(s.record, now_ms, names.tag, message)),
            listen(),
        ),
        (SessionStageView::Refusing { message }, Some(e)) => failing(s, e),
        _ => (s, SessionStepView { answer: None, next: SessionNextView::Ignore }),
    }
}

/// The session after something has happened.
pub open spec fn stepped<R>(
    s: SessionView<R>,
    input: SessionInput<R>,
    names: NamesView,
    now_ms: u64,
) -> (
    SessionView<R>,
    SessionStepView<R>,
) {
    if let SessionInput::Written(end) = input {
        written(s, end, names, now_ms)
    } else if s.stage !is Listening {
        (s, SessionStepView { answer: None, next: SessionNextView::Ignore })
    } else {
        match input {
            SessionInput::Written(end) => written(s, end, names, now_ms),
            SessionInput::Exited(status) => failing(s, names.title + " 已退出："@ + status@),
            SessionInput::DeadlinePassed => if s.ready {
                (s, listen())
            } else {
                failing(s, names.title + " 控制协议握手超时，请检查 CLI 版本与登录状态"@)
            },
            SessionInput::Command { generation, action, reply } => commanded(
                s,
                generation,
                action@,
                reply,
                now_ms,
            ),
            SessionInput::Stop { generation, reply } => if generation
                != s.record.info.generation {
                (
                    s,
                    SessionStepView {
                        answer: Some((reply, Err("进程已更换，请刷新后操作"@))),
                        next: SessionNextView::Listen,
                    },
                )
            } else {
                (
                    SessionView {
                        stopped: true,
                        stop_reply: Some(reply),
                        stage: SessionStageView::Ending,
                        ..s
                    },
                    SessionStepView { answer: None, next: SessionNextView::End },
                )
            },
            SessionInput::CommandsClosed => (
                SessionView { stopped: true, stage: SessionStageView::Ending, ..s },
                SessionStepView { answer: None, next: SessionNextView::End },
            ),
            SessionInput::Line(line) => line_heard(s, document_in(line@), names, now_ms),
            SessionInput::Noise(line) => (
                listening(
                    s,
                    with_event(s.record, now_ms, "stderr"@, text_document("text"@, line@)),
                ),
                listen(),
            ),
            SessionInput::ReadFailed(e) => failing(s, e@),
            SessionInput::OutputClosed => failing(s, names.title + " 输出已关闭"@),
        }
    }
}

/// A line of the process keeps the session sound, whatever it holds.
pub proof fn lines_keep_the_session_sound<R>(
    s: SessionView<R>,
    content: Result<JsonView, Seq<char>>,
    names: NamesView,
    now_ms: u64,
)
    requires
        session_sound(s),
        s.stage is Listening,
        record_countable(s.record),
    ensures
        session_sound(line_heard(s, content, names, now_ms).0),
        line_heard(s, content, names, now_ms).0.record.info.generation
            == s.record.info.generation,
        line_heard(s, content, names, now_ms).0.stage !is Ended,
{
    if let Ok(message) = content {
        messages_keep_the_record_sound(s.record, message, names.tag, now_ms);
        let idle = informed(s.record, InfoView { state: AgentState::Idle, ..s.record.info });
        an_event_keeps_the_record_sound(
            idle,
            now_ms,
            "lifecycle"@,
            text_document("message"@, "会话已就绪，可发送提示词"@),
        );
    }
}

/// Whatever happens keeps the session sound.
pub proof fn inputs_keep_the_session_sound<R>(
    s: SessionView<R>,
    input: SessionInput<R>,
    names: NamesView,
    now_ms: u64,
)
    requires
        session_sound(s),
        record_countable(s.record),
    ensures
        session_sound(stepped(s, input, names, now_ms).0),
        stepped(s, input, names, now_ms).0.record.info.generation == s.record.info.generation,
        s.stage is Ended ==> stepped(s, input, names, now_ms).0 == s,
        s.stage !is Ended ==> stepped(s, input, names, now_ms).0.stage !is Ended,
{
    match input {
        SessionInput::Written(end) => {
            if let SessionStageView::Refusing { message } = s.stage {
                an_event_keeps_the_record_sound(s.record, now_ms, names.tag, message);
            }
        },
        SessionInput::Command { generation, action, reply } => {
            actions_keep_the_record_sound(s.record, action@, now_ms);
        },
        SessionInput::Line(line) => {
            if s.stage is Listening {
                lines_keep_the_session_sound(s, document_in(line@), names, now_ms);
            }
        },
        SessionInput::Noise(line) => {
            an_event_keeps_the_record_sound(
                s.record,
                now_ms,
                "stderr"@,
                text_document("text"@, line@),
            );
        },
        _ => {},
    }
}

/// Whatever happens, a conversation keeps its identifier and directory.
pub proof fn conversations_keep_their_names<R>(
    s: SessionView<R>,
    input: SessionInput<R>,
    names: NamesView,
    now_ms: u64,
)
    ensures
        stepped(s, input, names, now_ms).0.record.info.id == s.record.info.id,
        stepped(s, input, names, now_ms).0.record.info.cwd == s.record.info.cwd,
        stepped(s, input, names, now_ms).0.record.info.label == s.record.info.label,
{
}

/// The record of a process that has ended.
pub open spec fn final_record<R>(s: SessionView<R>, now_ms: u64) -> RecordView {
    let info = InfoView {
        pending: Seq::empty(),
        state: if s.stopped {
            AgentState::Stopped
        } else {
            AgentState::Failed
        },
        last_error: s.failure,
        ..s.record.info
    };
    lifecycle_note(
        informed(s.record, info),
        now_ms,
        if s.stopped {
            "进程已停止，工作目录和会话文件保留"@
        } else {
            match s.failure {
                Some(why) => why,
                None => ""@,
            }
        },
    )
}

/// The session after its process has been ended.
pub open spec fn finished<R>(s: SessionView<R>, now_ms: u64) -> (
    SessionView<R>,
    Option<(R, Result<JsonView, Seq<char>>)>,
) {
    let record = final_record(s, now_ms);
    (
        SessionView { record, stop_reply: None, stage: SessionStageView::Ended, ..s },
        match s.stop_reply {
            Some(reply) => Some((reply, Ok(info_document(record.info)))),
            None => None,
        },
    )
}

/// The session of a process that has just been started.
pub open spec fn started<R>(
    r: RecordView,
    pid: Option<u32>,
    title: Seq<char>,
    now_ms: u64,
) -> SessionView<R> {
    let info = InfoView {
        pid,
        state: AgentState::Starting,
        started_at_ms: now_ms,
        last_error: None,
        pending: Seq::empty(),
        ..r.info
    };
    SessionView {
        record: with_event(
            informed(r, info),
            now_ms,
            "lifecycle"@,
            JsonView::Object(
                no_fields().push(
                    ("message"@, JsonView::Text(title + " 已启动，等待控制协议握手"@)),
                ).push(("pid"@, optional_number(pid))),
            ),
        ),
        ready: false,
        stopped: false,
        failure: None,
        stop_reply: None,
        stage: SessionStageView::Handshaking,
    }
}

/// Why a process could not be started.
pub open spec fn start_failure(title: Seq<char>, why: Seq<char>, cwd: Seq<char>) -> Seq<char> {
    "无法启动本机 "@ + title + "："@ + why + "；工作目录保留在 "@ + cwd
}

/// The record after its process could not be started.
pub open spec fn not_started(r: RecordView, title: Seq<char>, why: Seq<char>) -> RecordView {
    informed(
        r,
        InfoView {
            state: AgentState::Failed,
            last_error: Some(start_failure(title, why, r.info.cwd)),
            ..r.info
        },
    )
}

/// The conversation with one more process counted.
pub open spec fn advanced<R>(s: SessionView<R>) -> SessionView<R> {
    SessionView {
        record: informed(
            s.record,
            InfoView { generation: (s.record.info.generation + 1) as u64, ..s.record.info },
        ),
        ..s
    }
}

/// Says why a process could not be started.
pub fn describe_start_failure(title: &str, why: &str, cwd: &str) -> (text: String)
    ensures
        text@ == start_failure(title@, why@, cwd@),
{
    "无法启动本机 ".to_owned().concat(title).concat("：").concat(why).concat("；工作目录保留在 ").concat(cwd)
}

impl<R> SessionStep<R> {
    fn go(next: SessionNext) -> (step: SessionStep<R>)
        ensures
            step@ == (SessionStepView::<R> { answer: None, next: next@ }),
    {
        SessionStep { answer: None, next }
    }

    fn answering(reply: R, result: Result<Json, String>, next: SessionNext) -> (step: SessionStep<R>)
        ensures
            step@ == (SessionStepView {
                answer: Some((reply, result_view(result))),
                next: next@,
            }),
    {
        SessionStep { answer: Some(Answer { reply, result }), next }
    }
}

/// The first line to the process.
pub fn handshake_line() -> (line: String)
    ensures
        line@ == line_of(handshake()),
{
    let request = Fields::new().with("hooks", Json::Null).with(
        "subtype",
        Json::text("initialize"),
    ).object();
    to_line(
        &Fields::new().with("request", request).with("request_id", Json::text("pool-initialize")).with(
            "type",
            Json::text("control_request"),
        ).object(),
    )
}

impl<R> Session<R> {
    pub closed spec fn ordered(&self) -> bool {
        self.record.info.pending_permissions.well_formed()
    }

    /// What every operation keeps up.
    pub open spec fn well_formed(&self) -> bool {
        self.ordered() && session_sound(self@)
    }

    /// The session of a process that has just been started; the handshake is to be written.
    pub fn start(record: Record, pid: Option<u32>, title: &str, now_ms: u64) -> (session: Session<R>)
        requires
            record.well_formed(),
            record.sequence < u64::MAX,
        ensures
            session.well_formed(),
            session@ == started::<R>(record@, pid, title@, now_ms),
    {
        let mut session = Session {
            record,
            ready: false,
            stopped: false,
            failure: None,
            stop_reply: None,
            stage: SessionStage::Ended,
        };
        session.begin(pid, title, now_ms);
        session
    }

    fn begin(&mut self, pid: Option<u32>, title: &str, now_ms: u64)
        requires
            old(self).ordered(),
            record_sound(old(self)@.record),
            old(self)@.record.sequence < u64::MAX,
        ensures
            final(self).well_formed(),
            final(self)@ == started::<R>(old(self)@.record, pid, title@, now_ms),
    {
        self.record.info.pid = pid;
        self.record.info.state = AgentState::Starting;
        self.record.info.started_at_ms = now_ms;
        self.record.info.last_error = None;
        self.record.info.pending_permissions.clear();
        assert(self.record@.info.pending =~= Seq::<(Seq<char>, JsonView)>::empty());
        let note = Fields::new().with(
            "message",
            Json::text(title.to_owned().concat(" 已启动，等待控制协议握手").as_str()),
        ).with(
            "pid",
            match pid {
                Some(pid) => Json::unsigned(pid as u64),
                None => Json::Null,
            },
        ).object();
        proof {
            an_event_keeps_the_record_sound(self.record@, now_ms, "lifecycle"@, note@);
        }
        self.record.event("lifecycle", note, now_ms);
        self.ready = false;
        self.stopped = false;
        self.failure = None;
        self.stop_reply = None;
        self.stage = SessionStage::Handshaking;
    }

    /// Counts one more process of the conversation, before it is started.
    pub fn advance(&mut self)
        requires
            old(self).well_formed(),
            old(self)@.record.info.generation < u64::MAX,
        ensures
            final(self).well_formed(),
            final(self)@ == advanced(old(self)@),
    {
        self.record.info.generation = self.record.info.generation + 1;
    }

    /// Takes the result of starting another process for the conversation.
    pub fn restarted(&mut self, result: Result<Option<u32>, String>, title: &str, now_ms: u64) -> (outcome:
        Result<(), String>)
        requires
            old(self).well_formed(),
            old(self)@.stage is Ended,
            old(self)@.record.sequence < u64::MAX,
        ensures
            final(self).well_formed(),
            match (result, outcome) {
                (Ok(pid), Ok(())) => final(self)@ == started::<R>(old(self)@.record, pid, title@, now_ms),
                (Err(why), Err(e)) => e@ == start_failure(title@, why@, old(self)@.record.info.cwd)
                    && final(self)@ == (SessionView {
                    record: not_started(old(self)@.record, title@, why@),
                    ..old(self)@
                }),
                _ => false,
            },
    {
        match result {
            Ok(pid) => {
                self.begin(pid, title, now_ms);
                Ok(())
            },
            Err(why) => {
                let error = describe_start_failure(title, why.as_str(), self.record.info.cwd.as_str());
                self.record.info.state = AgentState::Failed;
                self.record.info.last_error = Some(error.clone());
                Err(error)
            },
        }
    }

    /// What is known about the process.
    pub fn record(&self) -> (record: &Record)
        ensures
            record@ == self@.record,
            self.ordered() ==> record.info.pending_permissions.well_formed(),
    {
        &self.record
    }

    /// Whether the process is to be ended.
    pub fn is_ending(&self) -> (yes: bool)
        ensures
            yes == (self@.stage is Ending),
    {
        matches!(self.stage, SessionStage::Ending)
    }

    fn fail(&mut self, why: String) -> (step: SessionStep<R>)
        ensures
            final(self).record == old(self).record,
            (final(self)@, step@) == failing(old(self)@, why@),
    {
        self.failure = Some(why);
        self.stage = SessionStage::Ending;
        SessionStep::go(SessionNext::End)
    }

    fn written(&mut self, end: WriteEnd, names: &AgentNames, now_ms: u64) -> (step: SessionStep<R>)
        requires
            old(self).ordered(),
            record_countable(old(self)@.record),
        ensures
            final(self).ordered(),
            (final(self)@, step@) == written(old(self)@, end, names@, now_ms),
    {
        let problem = write_message(names.title.as_str(), end);
        let mut stage = SessionStage::Listening;
        std::mem::swap(&mut stage, &mut self.stage);
        match stage {
            SessionStage::Handshaking => match problem {
                None => SessionStep::go(SessionNext::Listen),
                Some(e) => self.fail(e),
            },
            SessionStage::Replying { reply } => match problem {
                None => {
                    let snapshot = self.record.snapshot();
                    SessionStep::answering(reply, Ok(snapshot), SessionNext::Listen)
                },
                Some(e) => {
                    let why = "写入失败：".to_owned().concat(e.as_str());
                    let copy = why.clone();
                    self.fail(why);
                    SessionStep::answering(reply, Err(copy), SessionNext::End)
                },
            },
            SessionStage::Refusing { message } => match problem {
                None => {
                    self.record.event(names.tag.as_str(), message, now_ms);
                    SessionStep::go(SessionNext::Listen)
                },
                Some(e) => self.fail(e),
            },
            other => {
                self.stage = other;
                SessionStep::go(SessionNext::Ignore)
            },
        }
    }

    fn command(&mut self, generation: u64, action: AgentAction, reply: R, now_ms: u64) -> (step:
        SessionStep<R>)
        requires
            old(self).well_formed(),
            record_countable(old(self)@.record),
        ensures
            final(self).ordered(),
            (final(self)@, step@) == commanded(old(self)@, generation, action@, reply, now_ms),
    {
        if generation != self.record.info.generation {
            return SessionStep::answering(
                reply,
                Err("进程已更换，请刷新后操作".to_owned()),
                SessionNext::Listen,
            );
        }
        match self.record.apply_action(action, now_ms) {
            Err(why) => SessionStep::answering(reply, Err(why), SessionNext::Listen),
            Ok(message) => {
                self.stage = SessionStage::Replying { reply };
                SessionStep::go(SessionNext::Write(to_line(&message)))
            },
        }
    }

    fn hear(&mut self, message: Json, names: &AgentNames, now_ms: u64) -> (step: SessionStep<R>)
        requires
            old(self).well_formed(),
            old(self)@.stage is Listening,
            record_countable(old(self)@.record),
        ensures
            final(self).ordered(),
            (final(self)@, step@) == heard(old(self)@, message@, names@, now_ms),
    {
        let response = member(&message, "response");
        if member(&message, "type").is_text("control_response") && member(
            &response,
            "request_id",
        ).is_text("pool-initialize") {
            if member(&response, "subtype").is_text("success") {
                self.ready = true;
                self.record.info.state = AgentState::Idle;
                self.record.event(
                    "lifecycle",
                    labelled_text("message", "会话已就绪，可发送提示词"),
                    now_ms,
                );
                SessionStep::go(SessionNext::Listen)
            } else {
                let why = names.title.as_str().to_owned().concat(" 初始化失败：").concat(
                    member(&response, "error").to_text().as_str(),
                );
                self.fail(why)
            }
        } else {
            let kept = message.clone();
            match self.record.handle_output(message, names.tag.as_str(), now_ms) {
                Handling::Done => SessionStep::go(SessionNext::Listen),
                Handling::Refuse(answer) => {
                    self.stage = SessionStage::Refusing { message: kept };
                    SessionStep::go(SessionNext::Write(to_line(&answer)))
                },
                Handling::Fail(why) => self.fail(why),
            }
        }
    }

    /// Takes a line of the process as it was read: its document, or why it holds none.
    pub fn take_line(&mut self, content: Result<Json, String>, names: &AgentNames, now_ms: u64) -> (
        step: SessionStep<R>)
        requires
            old(self).well_formed(),
            old(self)@.stage is Listening,
            record_countable(old(self)@.record),
        ensures
            final(self).well_formed(),
            (final(self)@, step@) == line_heard(
                old(self)@,
                result_view(content),
                names@,
                now_ms,
            ),
    {
        proof {
            lines_keep_the_session_sound(self@, result_view(content), names@, now_ms);
        }
        match content {
            Ok(message) => self.hear(message, names, now_ms),
            Err(why) => self.fail(
                names.title.as_str().to_owned().concat(" 返回了非 stream-json 输出：").concat(
                    why.as_str(),
                ),
            ),
        }
    }

    /// Takes what has happened and says what is to be done.
    pub fn run_agent(&mut self, input: SessionInput<R>, names: &AgentNames, now_ms: u64) -> (step: SessionStep<R>)
        requires
            old(self).well_formed(),
            record_countable(old(self)@.record),
        ensures
            final(self).well_formed(),
            (final(self)@, step@) == stepped(old(self)@, input, names@, now_ms),
    {
        proof {
            inputs_keep_the_session_sound(self@, input, names@, now_ms);
        }
        if let SessionInput::Written(end) = input {
            return self.written(end, names, now_ms);
        }
        if !matches!(self.stage, SessionStage::Listening) {
            return SessionStep::go(SessionNext::Ignore);
        }
        match input {
            SessionInput::Written(end) => self.written(end, names, now_ms),
            SessionInput::Exited(status) => self.fail(
                names.title.as_str().to_owned().concat(" 已退出：").concat(status.as_str()),
            ),
            SessionInput::DeadlinePassed => {
                if self.ready {
                    SessionStep::go(SessionNext::Listen)
                } else {
                    self.fail(
                        names.title.as_str().to_owned().concat(
                            " 控制协议握手超时，请检查 CLI 版本与登录状态",
                        ),
                    )
                }
            },
            SessionInput::Command { generation, action, reply } => self.command(
                generation,
                action,
                reply,
                now_ms,
            ),
            SessionInput::Stop { generation, reply } => {
                if generation != self.record.info.generation {
                    return SessionStep::answering(
                        reply,
                        Err("进程已更换，请刷新后操作".to_owned()),
                        SessionNext::Listen,
                    );
                }
                self.stopped = true;
                self.stop_reply = Some(reply);
                self.stage = SessionStage::Ending;
                SessionStep::go(SessionNext::End)
            },
            SessionInput::CommandsClosed => {
                self.stopped = true;
                self.stage = SessionStage::Ending;
                SessionStep::go(SessionNext::End)
            },
            SessionInput::Line(line) => self.take_line(read_json(line.as_str()), names, now_ms),
            SessionInput::Noise(line) => {
                self.record.event("stderr", labelled_text("text", line.as_str()), now_ms);
                SessionStep::go(SessionNext::Listen)
            },
            SessionInput::ReadFailed(e) => self.fail(e),
            SessionInput::OutputClosed => self.fail(
                names.title.as_str().to_owned().concat(" 输出已关闭"),
            ),
        }
    }

    /// Closes the record once the process has been ended, and answers who asked for that.
    pub fn finish(&mut self, now_ms: u64) -> (answer: Option<Answer<R>>)
        requires
            old(self).well_formed(),
            old(self)@.stage is Ending,
            record_countable(old(self)@.record),
        ensures
            final(self).well_formed(),
            final(self)@ == finished(old(self)@, now_ms).0,
            finished(old(self)@, now_ms).1 == (match answer {
                Some(a) => Some((a.reply, result_view(a.result))),
                None => None,
            }),
    {
        let ghost before = self@;
        self.record.info.pending_permissions.clear();
        self.record.info.state = if self.stopped {
            AgentState::Stopped
        } else {
            AgentState::Failed
        };
        self.record.info.last_error = copy_optional_text(&self.failure);
        assert(self.record@.info.pending =~= Seq::<(Seq<char>, JsonView)>::empty());
        let message = if self.stopped {
            "进程已停止，工作目录和会话文件保留".to_owned()
        } else {
            match &self.failure {
                Some(why) => why.clone(),
                None => "".to_owned(),
            }
        };
        proof {
            an_event_keeps_the_record_sound(
                self.record@,
                now_ms,
                "lifecycle"@,
                text_document("message"@, message@),
            );
        }
        self.record.event("lifecycle", labelled_text("message", message.as_str()), now_ms);
        self.stage = SessionStage::Ended;
        let mut reply = None;
        std::mem::swap(&mut reply, &mut self.stop_reply);
        match reply {
            Some(reply) => Some(Answer { reply, result: Ok(self.record.snapshot()) }),
            None => None,
        }
    }
}

/// A command for an earlier process of the conversation changes nothing and is refused.
pub proof fn stale_commands_are_refused<R>(
    s: SessionView<R>,
    generation: u64,
    action: AgentAction,
    reply: R,
    names: NamesView,
    now_ms: u64,
)
    requires
        s.stage is Listening,
        generation != s.record.info.generation,
    ensures
        ({
            let input = SessionInput::Command { generation, action, reply };
            &&& stepped(s, input, names, now_ms).0 == s
            &&& stepped(s, input, names, now_ms).1.answer matches Some((to, Err(_))) && to == reply
        }),
        ({
            let input = SessionInput::Stop { generation, reply };
            &&& stepped(s, input, names, now_ms).0 == s
            &&& stepped(s, input, names, now_ms).1.answer matches Some((to, Err(_))) && to == reply
        }),
{
}

/// A prompt is accepted only by an idle process, which is busy from then on.
pub proof fn prompts_go_to_idle_processes<R>(
    s: SessionView<R>,
    prompt: String,
    reply: R,
    names: NamesView,
    now_ms: u64,
)
    requires
        s.stage is Listening,
    ensures
        ({
            let input = SessionInput::Command {
                generation: s.record.info.generation,
                action: AgentAction::Send(prompt),
                reply,
            };
            let after = stepped(s, input, names, now_ms);
            if s.record.info.state == AgentState::Idle {
                &&& after.1.next is Write
                &&& after.0.record.info.state == AgentState::Busy
            } else {
                &&& after.0 == s
                &&& after.1.answer matches Some((to, Err(_))) && to == reply
            }
        }),
{
}

/// Once a process is to be ended, nothing but its end is left: every other input is ignored.
pub proof fn an_ending_process_takes_no_more_input<R>(
    s: SessionView<R>,
    input: SessionInput<R>,
    names: NamesView,
    now_ms: u64,
)
    requires
        s.stage is Ending || s.stage is Ended,
    ensures
        stepped(s, input, names, now_ms) == (
            s,
            SessionStepView::<R> { answer: None, next: SessionNextView::Ignore },
        ),
{
}

/// A stopped process leaves no error behind, a failed one leaves its reason; either way no
/// request stays open, who asked for the end is answered, and the conversation keeps its
/// identifier, directory and session.
pub proof fn the_end_keeps_the_conversation<R>(s: SessionView<R>, now_ms: u64)
    requires
        session_sound(s),
        s.stage is Ending,
    ensures
        ({
            let info = finished(s, now_ms).0.record.info;
            &&& !info.state.is_running()
            &&& (info.state == AgentState::Stopped) == s.stopped
            &&& info.last_error is None <==> info.state == AgentState::Stopped
            &&& info.last_error == s.failure
            &&& info.pending.len() == 0
            &&& info.id == s.record.info.id
            &&& info.cwd == s.record.info.cwd
            &&& info.session_id == s.record.info.session_id
            &&& info.generation == s.record.info.generation
            &&& s.stop_reply is Some <==> finished(s, now_ms).1 is Some
            &&& s.stop_reply is Some ==> info.state == AgentState::Stopped
        }),
{
}

} // verus!
