//! One conversation process: what is known about it, and what its messages do to that.
use std::collections::VecDeque;
use vstd::prelude::*;
use vstd::string::*;
use vstd::utf8::*;
use crate::config::optional_text;
use crate::documents::{counted, events_are_told_by_name};
use crate::json::{
    at, compact, models, no_fields, text_in, unsigned, unsigned_in, Fields, Json, JsonView,
};
use crate::table::{
    a_dropped_value_is_gone, a_placed_value_is_found, ascending, contents, contents_are_dropped,
    contents_are_found, contents_are_placed, dropped, found, placed, TextMap,
};
use crate::text::{clip, clipped, decimal, decimal_text};

verus! {

/// How many events are kept.
pub const EVENT_LIMIT: usize = 256;

/// How many bytes of a document are shown.
pub const DISPLAY_LIMIT: usize = 16_384;

/// How many permission requests may be open.
pub const PERMISSION_LIMIT: usize = 16;

/// How many bytes a message with a permission request may have.
pub const REQUEST_LIMIT: usize = 65_536;

/// How the program that serves conversations is called.
#[derive(Debug, Clone, PartialEq, Eq)]
pub struct AgentNames {
    /// In sentences.
    pub title: String,
    /// In documents and on the command line.
    pub tag: String,
}

/// The content of an [`AgentNames`].
pub struct NamesView {
    pub title: Seq<char>,
    pub tag: Seq<char>,
}

impl View for AgentNames {
    type V = NamesView;

    open spec fn view(&self) -> NamesView {
        NamesView { title: self.title@, tag: self.tag@ }
    }
}

/// What a conversation process is doing.
#[derive(Debug, Clone, Copy, PartialEq, Eq, Structural)]
pub enum AgentState {
    Starting,
    Idle,
    Busy,
    AwaitingPermission,
    Interrupting,
    Stopped,
    Failed,
}

impl AgentState {
    pub open spec fn is_running(self) -> bool {
        self != AgentState::Stopped && self != AgentState::Failed
    }

    /// Whether there is a process.
    pub fn running(self) -> (yes: bool)
        ensures
            yes == self.is_running(),
    {
        !matches!(self, AgentState::Stopped | AgentState::Failed)
    }

    pub open spec fn label(self) -> Seq<char> {
        match self {
            AgentState::Starting => "starting"@,
            AgentState::Idle => "idle"@,
            AgentState::Busy => "busy"@,
            AgentState::AwaitingPermission => "awaiting_permission"@,
            AgentState::Interrupting => "interrupting"@,
            AgentState::Stopped => "stopped"@,
            AgentState::Failed => "failed"@,
        }
    }

    /// The name of the state in documents.
    pub fn name(self) -> (name: &'static str)
        ensures
            name@ == self.label(),
    {
        match self {
            AgentState::Starting => "starting",
            AgentState::Idle => "idle",
            AgentState::Busy => "busy",
            AgentState::AwaitingPermission => "awaiting_permission",
            AgentState::Interrupting => "interrupting",
            AgentState::Stopped => "stopped",
            AgentState::Failed => "failed",
        }
    }
}

/// What is told about a conversation process.
pub struct AgentInfo {
    pub id: String,
    pub label: String,
    /// Counts the processes that have served this conversation.
    pub generation: u64,
    pub pid: Option<u32>,
    pub cwd: String,
    pub session_id: Option<String>,
    pub state: AgentState,
    pub started_at_ms: u64,
    pub completed_turns: u64,
    pub failed_turns: u64,
    pub last_error: Option<String>,
    pub pending_permissions: TextMap<Json>,
}

/// The content of an [`AgentInfo`].
pub struct InfoView {
    pub id: Seq<char>,
    pub label: Seq<char>,
    pub generation: u64,
    pub pid: Option<u32>,
    pub cwd: Seq<char>,
    pub session_id: Option<Seq<char>>,
    pub state: AgentState,
    pub started_at_ms: u64,
    pub completed_turns: u64,
    pub failed_turns: u64,
    pub last_error: Option<Seq<char>>,
    pub pending: Seq<(Seq<char>, JsonView)>,
}

impl View for AgentInfo {
    type V = InfoView;

    open spec fn view(&self) -> InfoView {
        InfoView {
            id: self.id@,
            label: self.label@,
            generation: self.generation,
            pid: self.pid,
            cwd: self.cwd@,
            session_id: optional_text(self.session_id),
            state: self.state,
            started_at_ms: self.started_at_ms,
            completed_turns: self.completed_turns,
            failed_turns: self.failed_turns,
            last_error: optional_text(self.last_error),
            pending: contents(self.pending_permissions@),
        }
    }
}

/// A number document, or null.
pub open spec fn optional_number(n: Option<u32>) -> JsonView {
    match n {
        Some(n) => unsigned(n as nat),
        None => JsonView::Null,
    }
}

/// A string document, or null.
pub open spec fn optional_string(s: Option<Seq<char>>) -> JsonView {
    match s {
        Some(s) => JsonView::Text(s),
        None => JsonView::Null,
    }
}

fn optional_number_document(n: Option<u32>) -> (v: Json)
    ensures
        v@ == optional_number(n),
{
    match n {
        Some(n) => Json::unsigned(n as u64),
        None => Json::Null,
    }
}

fn optional_string_document(s: &Option<String>) -> (v: Json)
    ensures
        v@ == optional_string(optional_text(*s)),
{
    match s {
        Some(s) => Json::text(s.as_str()),
        None => Json::Null,
    }
}

/// The document about a conversation process; its members stand in ascending order.
pub open spec fn info_document(info: InfoView) -> JsonView {
    JsonView::Object(
        no_fields().push(("completed_turns"@, unsigned(info.completed_turns as nat))).push(
            ("cwd"@, JsonView::Text(info.cwd)),
        ).push(("failed_turns"@, unsigned(info.failed_turns as nat))).push(
            ("generation"@, unsigned(info.generation as nat)),
        ).push(("id"@, JsonView::Text(info.id))).push(("label"@, JsonView::Text(info.label))).push(
            ("last_error"@, optional_string(info.last_error)),
        ).push(("pending_permissions"@, JsonView::Object(info.pending))).push(
            ("pid"@, optional_number(info.pid)),
        ).push(("session_id"@, optional_string(info.session_id))).push(
            ("started_at_ms"@, unsigned(info.started_at_ms as nat)),
        ).push(("state"@, JsonView::Text(info.state.label()))),
    )
}

/// The open requests as a document.
fn pending_document(pending: &TextMap<Json>) -> (v: Json)
    ensures
        v@ == JsonView::Object(contents(pending@)),
{
    let mut fields = Fields::new();
    let mut i: usize = 0;
    let ghost all = contents(pending@);
    assert(fields@ =~= all.take(0));
    while i < pending.len()
        invariant
            i <= pending@.len(),
            all == contents(pending@),
            fields@ == all.take(i as int),
        decreases pending@.len() - i,
    {
        fields = fields.with(pending.key_at(i), pending.value_at(i).clone());
        assert(fields@ =~= all.take(i + 1));
        i = i + 1;
    }
    assert(all.take(i as int) =~= all);
    fields.object()
}

impl AgentInfo {
    /// The document about the process.
    pub fn document(&self) -> (v: Json)
        ensures
            v@ == info_document(self@),
    {
        Fields::new().with("completed_turns", Json::unsigned(self.completed_turns)).with(
            "cwd",
            Json::text(self.cwd.as_str()),
        ).with("failed_turns", Json::unsigned(self.failed_turns)).with(
            "generation",
            Json::unsigned(self.generation),
        ).with("id", Json::text(self.id.as_str())).with(
            "label",
            Json::text(self.label.as_str()),
        ).with("last_error", optional_string_document(&self.last_error)).with(
            "pending_permissions",
            pending_document(&self.pending_permissions),
        ).with("pid", optional_number_document(self.pid)).with(
            "session_id",
            optional_string_document(&self.session_id),
        ).with("started_at_ms", Json::unsigned(self.started_at_ms)).with(
            "state",
            Json::text(self.state.name()),
        ).object()
    }
}

/// What is known about a conversation process, and what happened to it lately.
pub struct Record {
    pub info: AgentInfo,
    pub events: VecDeque<Json>,
    /// The number of the latest event.
    pub sequence: u64,
}

/// The content of a [`Record`].
pub struct RecordView {
    pub info: InfoView,
    pub events: Seq<JsonView>,
    pub sequence: u64,
}

impl View for Record {
    type V = RecordView;

    open spec fn view(&self) -> RecordView {
        RecordView {
            info: self.info@,
            events: models(self.events@),
            sequence: self.sequence,
        }
    }
}

/// How many bytes the compact text of a document has.
pub open spec fn size(v: JsonView) -> nat {
    encode_utf8(compact(v)).len()
}

/// A document as it is shown: whole, or the beginning of its text where it is too large.
pub open spec fn shown(data: JsonView) -> JsonView {
    if size(data) > DISPLAY_LIMIT {
        JsonView::Object(
            no_fields().push(
                ("preview"@, JsonView::Text(clipped(compact(data), DISPLAY_LIMIT as nat))),
            ).push(("truncated"@, JsonView::Bool(true))),
        )
    } else {
        data
    }
}

/// The document about an event.
pub open spec fn event_document(
    number: u64,
    at_ms: u64,
    kind: Seq<char>,
    data: JsonView,
) -> JsonView {
    JsonView::Object(
        no_fields().push(("at_ms"@, unsigned(at_ms as nat))).push(("data"@, shown(data))).push(
            ("id"@, unsigned(number as nat)),
        ).push(("kind"@, JsonView::Text(kind))),
    )
}

/// The record after one more event; the oldest event goes where there are too many.
pub open spec fn with_event(r: RecordView, at_ms: u64, kind: Seq<char>, data: JsonView) -> RecordView {
    let number = (r.sequence + 1) as u64;
    let all = r.events.push(event_document(number, at_ms, kind, data));
    RecordView {
        events: if all.len() > EVENT_LIMIT {
            all.drop_first()
        } else {
            all
        },
        sequence: number,
        ..r
    }
}

/// The number of an event.
pub open spec fn event_number(event: JsonView) -> u64 {
    match unsigned_in(at(event, "id"@)) {
        Some(n) => n,
        None => 0,
    }
}

/// What holds of every record: the events are the latest ones, numbered without a gap, the
/// open requests are few, and only an agent with an open request waits for permission.
pub open spec fn record_sound(r: RecordView) -> bool {
    &&& r.events.len() == if r.sequence < EVENT_LIMIT {
        r.sequence as nat
    } else {
        EVENT_LIMIT as nat
    }
    &&& forall|i: int|
        0 <= i < r.events.len() ==> event_number(#[trigger] r.events[i]) == r.sequence
            - r.events.len() + 1 + i
    &&& r.info.pending.len() <= PERMISSION_LIMIT
    &&& ascending(r.info.pending)
    &&& r.info.state == AgentState::AwaitingPermission ==> r.info.pending.len() > 0
}

/// Whether every counter can still be raised by one.
pub open spec fn record_countable(r: RecordView) -> bool {
    &&& r.sequence < u64::MAX
    &&& r.info.generation < u64::MAX
    &&& r.info.completed_turns < u64::MAX
    &&& r.info.failed_turns < u64::MAX
}

proof fn lemma_event_number(number: u64, at_ms: u64, kind: Seq<char>, data: JsonView)
    ensures
        event_number(event_document(number, at_ms, kind, data)) == number,
{
    reveal_strlit("at_ms");
    reveal_strlit("data");
    reveal_strlit("id");
    let e = event_document(number, at_ms, kind, data);
    let members = e->Object_0;
    assert(members[0].0.len() == 5);
    assert(members.drop_first()[0].0.len() == 4);
    assert(members.drop_first().drop_first()[0].0.len() == 2);
    reveal_with_fuel(crate::json::first_named, 4);
}

/// An event keeps the record sound.
pub proof fn an_event_keeps_the_record_sound(
    r: RecordView,
    at_ms: u64,
    kind: Seq<char>,
    data: JsonView,
)
    requires
        record_sound(r),
        r.sequence < u64::MAX,
    ensures
        record_sound(with_event(r, at_ms, kind, data)),
        with_event(r, at_ms, kind, data).events.len() > 0,
        event_number(with_event(r, at_ms, kind, data).events.last()) == r.sequence + 1,
{
    let number = (r.sequence + 1) as u64;
    let e = event_document(number, at_ms, kind, data);
    lemma_event_number(number, at_ms, kind, data);
    let all = r.events.push(e);
    let after = with_event(r, at_ms, kind, data);
    assert forall|i: int| 0 <= i < after.events.len() implies event_number(
        #[trigger] after.events[i],
    ) == after.sequence - after.events.len() + 1 + i by {
        let j = if all.len() > EVENT_LIMIT { i + 1 } else { i };
        assert(after.events[i] == all[j]);
        if j < r.events.len() {
            assert(all[j] == r.events[j]);
        }
    }
}

impl Record {
    /// What every operation keeps up.
    pub open spec fn well_formed(&self) -> bool {
        self.info.pending_permissions.well_formed() && record_sound(self@)
    }

    /// Notes an event.
    pub fn event(&mut self, kind: &str, data: Json, now_ms: u64)
        requires
            old(self).sequence < u64::MAX,
        ensures
            final(self)@ == with_event(old(self)@, now_ms, kind@, data@),
            final(self).info == old(self).info,
            final(self)@.events.len() > 0,
            at(final(self)@.events.last(), "kind"@) == JsonView::Text(kind@),
            at(final(self)@.events.last(), "at_ms"@) == counted(now_ms as nat),
            at(final(self)@.events.last(), "id"@) == counted((old(self).sequence + 1) as nat),
            encode_utf8(compact(data@)).len() <= 16384 ==> at(
                final(self)@.events.last(),
                "data"@,
            ) == data@,
    {
        proof {
            events_are_told_by_name((self.sequence + 1) as u64, now_ms, kind@, data@);
        }
        self.sequence = self.sequence + 1;
        let serialized = data.to_text();
        let length: usize = serialized.as_str().as_bytes().len();
        let shown_data = if length > DISPLAY_LIMIT {
            Fields::new().with(
                "preview",
                Json::text(clip(serialized.as_str(), DISPLAY_LIMIT).as_str()),
            ).with("truncated", Json::Bool(true)).object()
        } else {
            data
        };
        let entry = Fields::new().with("at_ms", Json::unsigned(now_ms)).with(
            "data",
            shown_data,
        ).with("id", Json::unsigned(self.sequence)).with("kind", Json::text(kind)).object();
        let ghost before = self.events@;
        self.events.push_back(entry);
        assert(models(self.events@) =~= models(before).push(entry@));
        let ghost grown = self.events@;
        if self.events.len() > EVENT_LIMIT {
            self.events.pop_front();
            assert(models(self.events@) =~= models(grown).drop_first());
        }
    }

    /// The document about the process.
    pub fn snapshot(&self) -> (v: Json)
        ensures
            v@ == info_document(self.info@),
    {
        self.info.document()
    }

    /// Whether every counter can still be raised.
    pub fn has_room(&self) -> (yes: bool)
        ensures
            yes == record_countable(self@),
    {
        self.sequence < u64::MAX && self.info.generation < u64::MAX && self.info.completed_turns
            < u64::MAX && self.info.failed_turns < u64::MAX
    }
}

/// What a user asks of a conversation process.
pub enum AgentAction {
    Send(String),
    Interrupt,
    Permission { request_id: String, allow: bool },
}

/// The content of an [`AgentAction`].
pub enum AgentActionView {
    Send(Seq<char>),
    Interrupt,
    Permission { request_id: Seq<char>, allow: bool },
}

impl View for AgentAction {
    type V = AgentActionView;

    open spec fn view(&self) -> AgentActionView {
        match *self {
            AgentAction::Send(prompt) => AgentActionView::Send(prompt@),
            AgentAction::Interrupt => AgentActionView::Interrupt,
            AgentAction::Permission { request_id, allow } => AgentActionView::Permission {
                request_id: request_id@,
                allow,
            },
        }
    }
}

/// An object with one text member.
pub open spec fn text_document(name: Seq<char>, text: Seq<char>) -> JsonView {
    JsonView::Object(no_fields().push((name, JsonView::Text(text))))
}

/// An object with one text member.
pub fn labelled_text(name: &str, text: &str) -> (v: Json)
    ensures
        v@ == text_document(name@, text@),
{
    Fields::new().with(name, Json::text(text)).object()
}

/// The message that carries a prompt.
pub open spec fn prompt_message(session: Option<Seq<char>>, prompt: Seq<char>) -> JsonView {
    JsonView::Object(
        no_fields().push(
            (
                "message"@,
                JsonView::Object(
                    no_fields().push(("content"@, JsonView::Text(prompt))).push(
                        ("role"@, JsonView::Text("user"@)),
                    ),
                ),
            ),
        ).push(("parent_tool_use_id"@, JsonView::Null)).push(
            (
                "session_id"@,
                JsonView::Text(
                    match session {
                        Some(s) => s,
                        None => ""@,
                    },
                ),
            ),
        ).push(("type"@, JsonView::Text("user"@))),
    )
}

/// A request to the process.
pub open spec fn control_request(id: Seq<char>, request: JsonView) -> JsonView {
    JsonView::Object(
        no_fields().push(("request"@, request)).push(("request_id"@, JsonView::Text(id))).push(
            ("type"@, JsonView::Text("control_request"@)),
        ),
    )
}

/// An answer to a request of the process.
pub open spec fn control_response(response: Seq<(Seq<char>, JsonView)>) -> JsonView {
    JsonView::Object(
        no_fields().push(("response"@, JsonView::Object(response))).push(
            ("type"@, JsonView::Text("control_response"@)),
        ),
    )
}

/// What a granted or refused permission says.
pub open spec fn permission_answer(request: JsonView, allow: bool) -> JsonView {
    if allow {
        JsonView::Object(
            no_fields().push(("behavior"@, JsonView::Text("allow"@))).push(
                ("updatedInput"@, at(request, "input"@)),
            ),
        )
    } else {
        JsonView::Object(
            no_fields().push(("behavior"@, JsonView::Text("deny"@))).push(
                ("message"@, JsonView::Text("用户在进程池 Web 调试页拒绝了此工具调用"@)),
            ),
        )
    }
}

/// The message that answers a permission request.
pub open spec fn permission_message(
    request_id: Seq<char>,
    request: JsonView,
    allow: bool,
) -> JsonView {
    control_response(
        no_fields().push(("request_id"@, JsonView::Text(request_id))).push(
            ("response"@, permission_answer(request, allow)),
        ).push(("subtype"@, JsonView::Text("success"@))),
    )
}

/// The event about an answered permission request.
pub open spec fn permission_event(
    request_id: Seq<char>,
    request: JsonView,
    allow: bool,
) -> JsonView {
    JsonView::Object(
        no_fields().push(("allow"@, JsonView::Bool(allow))).push(
            ("request_id"@, JsonView::Text(request_id)),
        ).push(("tool_name"@, at(request, "tool_name"@))),
    )
}

/// The record with other information.
pub open spec fn informed(r: RecordView, info: InfoView) -> RecordView {
    RecordView { info, ..r }
}

/// An action: the record after it and the message to write, or why it is not taken.
pub open spec fn applied(r: RecordView, action: AgentActionView, now_ms: u64) -> (
    RecordView,
    Result<JsonView, Seq<char>>,
) {
    match action {
        AgentActionView::Send(prompt) => if r.info.state != AgentState::Idle {
            (r, Err("Agent 尚未空闲；等待本轮结束或先中断"@))
        } else {
            (
                informed(
                    with_event(r, now_ms, "user"@, text_document("text"@, prompt)),
                    InfoView { state: AgentState::Busy, ..r.info },
                ),
                Ok(prompt_message(r.info.session_id, prompt)),
            )
        },
        AgentActionView::Interrupt => if r.info.state != AgentState::Busy && r.info.state
            != AgentState::AwaitingPermission {
            (r, Err("当前没有可中断的任务"@))
        } else {
            (
                informed(
                    r,
                    InfoView { state: AgentState::Interrupting, pending: Seq::empty(), ..r.info },
                ),
                Ok(
                    control_request(
                        "interrupt-"@ + decimal_text(r.sequence as nat),
                        text_document("subtype"@, "interrupt"@),
                    ),
                ),
            )
        },
        AgentActionView::Permission { request_id, allow } => match found(
            r.info.pending,
            request_id,
        ) {
            None => (r, Err("权限请求已失效，请刷新"@)),
            Some(request) => {
                let left = dropped(r.info.pending, request_id);
                (
                    informed(
                        with_event(
                            r,
                            now_ms,
                            "permission"@,
                            permission_event(request_id, request, allow),
                        ),
                        InfoView {
                            pending: left,
                            state: if left.len() == 0 {
                                AgentState::Busy
                            } else {
                                r.info.state
                            },
                            ..r.info
                        },
                    ),
                    Ok(permission_message(request_id, request, allow)),
                )
            },
        },
    }
}

/// An action keeps the record sound.
pub proof fn actions_keep_the_record_sound(r: RecordView, action: AgentActionView, now_ms: u64)
    requires
        record_sound(r),
        record_countable(r),
    ensures
        record_sound(applied(r, action, now_ms).0),
        r.info.state.is_running() ==> applied(r, action, now_ms).0.info.state.is_running(),
        applied(r, action, now_ms).0.info.generation == r.info.generation,
{
    match action {
        AgentActionView::Send(prompt) => {
            an_event_keeps_the_record_sound(
                r,
                now_ms,
                "user"@,
                text_document("text"@, prompt),
            );
        },
        AgentActionView::Permission { request_id, allow } => {
            if let Some(request) = found(r.info.pending, request_id) {
                a_dropped_value_is_gone(r.info.pending, request_id, request_id);
                an_event_keeps_the_record_sound(
                    r,
                    now_ms,
                    "permission"@,
                    permission_event(request_id, request, allow),
                );
            }
        },
        _ => {},
    }
}

/// A permission request is answered once: a second answer, whatever it says, is refused and
/// changes nothing, and the other requests stay as they are.
pub proof fn permissions_are_answered_once(
    r: RecordView,
    request_id: Seq<char>,
    allow: bool,
    again: bool,
    other: Seq<char>,
    now_ms: u64,
    later_ms: u64,
)
    requires
        record_sound(r),
        found(r.info.pending, request_id) is Some,
    ensures
        ({
            let first = AgentActionView::Permission { request_id, allow };
            let second = AgentActionView::Permission { request_id, allow: again };
            let after = applied(r, first, now_ms).0;
            &&& applied(r, first, now_ms).1 is Ok
            &&& applied(after, second, later_ms) == (
                after,
                Err::<JsonView, Seq<char>>("权限请求已失效，请刷新"@),
            )
            &&& other != request_id ==> found(after.info.pending, other) == found(
                r.info.pending,
                other,
            )
        }),
{
    a_dropped_value_is_gone(r.info.pending, request_id, request_id);
    a_dropped_value_is_gone(r.info.pending, request_id, other);
}

/// The member of a document under `key`, or null.
pub fn member(v: &Json, key: &str) -> (found: Json)
    ensures
        found@ == at(v@, key@),
{
    match v.get(key) {
        Some(found) => found.clone(),
        None => Json::Null,
    }
}

fn control_request_message(id: &str, request: Json) -> (v: Json)
    ensures
        v@ == control_request(id@, request@),
{
    Fields::new().with("request", request).with("request_id", Json::text(id)).with(
        "type",
        Json::text("control_request"),
    ).object()
}

fn control_response_message(response: Fields) -> (v: Json)
    ensures
        v@ == control_response(response@),
{
    Fields::new().with("response", response.object()).with(
        "type",
        Json::text("control_response"),
    ).object()
}

impl Record {
    /// Takes an action. The message that it yields has to be written to the process.
    pub fn apply_action(&mut self, action: AgentAction, now_ms: u64) -> (message: Result<
        Json,
        String,
    >)
        requires
            old(self).well_formed(),
            record_countable(old(self)@),
        ensures
            final(self).well_formed(),
            final(self)@ == applied(old(self)@, action@, now_ms).0,
            match message {
                Ok(v) => applied(old(self)@, action@, now_ms).1 == Ok::<JsonView, Seq<char>>(v@),
                Err(e) => applied(old(self)@, action@, now_ms).1 == Err::<JsonView, Seq<char>>(e@),
            },
    {
        proof {
            actions_keep_the_record_sound(self@, action@, now_ms);
        }
        match action {
            AgentAction::Send(prompt) => {
                if self.info.state != AgentState::Idle {
                    return Err("Agent 尚未空闲；等待本轮结束或先中断".to_owned());
                }
                self.event("user", labelled_text("text", prompt.as_str()), now_ms);
                self.info.state = AgentState::Busy;
                let session = match &self.info.session_id {
                    Some(s) => Json::text(s.as_str()),
                    None => Json::text(""),
                };
                Ok(
                    Fields::new().with(
                        "message",
                        Fields::new().with("content", Json::text(prompt.as_str())).with(
                            "role",
                            Json::text("user"),
                        ).object(),
                    ).with("parent_tool_use_id", Json::Null).with("session_id", session).with(
                        "type",
                        Json::text("user"),
                    ).object(),
                )
            },
            AgentAction::Interrupt => {
                if !matches!(self.info.state, AgentState::Busy | AgentState::AwaitingPermission) {
                    return Err("当前没有可中断的任务".to_owned());
                }
                self.info.state = AgentState::Interrupting;
                self.info.pending_permissions.clear();
                assert(self@.info.pending =~= Seq::<(Seq<char>, JsonView)>::empty());
                let id = "interrupt-".to_owned().concat(decimal(self.sequence).as_str());
                Ok(control_request_message(id.as_str(), labelled_text("subtype", "interrupt")))
            },
            AgentAction::Permission { request_id, allow } => {
                proof {
                    contents_are_found(self.info.pending_permissions@, request_id@);
                    contents_are_dropped(self.info.pending_permissions@, request_id@);
                }
                let request = match self.info.pending_permissions.remove(request_id.as_str()) {
                    Some(request) => request,
                    None => {
                        return Err("权限请求已失效，请刷新".to_owned());
                    },
                };
                let answer = if allow {
                    Fields::new().with("behavior", Json::text("allow")).with(
                        "updatedInput",
                        member(&request, "input"),
                    ).object()
                } else {
                    Fields::new().with("behavior", Json::text("deny")).with(
                        "message",
                        Json::text("用户在进程池 Web 调试页拒绝了此工具调用"),
                    ).object()
                };
                self.event(
                    "permission",
                    Fields::new().with("allow", Json::Bool(allow)).with(
                        "request_id",
                        Json::text(request_id.as_str()),
                    ).with("tool_name", member(&request, "tool_name")).object(),
                    now_ms,
                );
                if self.info.pending_permissions.len() == 0 {
                    self.info.state = AgentState::Busy;
                }
                Ok(
                    control_response_message(
                        Fields::new().with("request_id", Json::text(request_id.as_str())).with(
                            "response",
                            answer,
                        ).with("subtype", Json::text("success")),
                    ),
                )
            },
        }
    }
}

/// What a message from the process asks for.
pub enum Handling {
    /// Nothing more.
    Done,
    /// An answer has to be written before the message is noted.
    Refuse(Json),
    /// The process cannot be talked to any more.
    Fail(String),
}

/// The content of a [`Handling`].
pub enum HandlingView {
    Done,
    Refuse(JsonView),
    Fail(Seq<char>),
}

impl View for Handling {
    type V = HandlingView;

    open spec fn view(&self) -> HandlingView {
        match *self {
            Handling::Done => HandlingView::Done,
            Handling::Refuse(v) => HandlingView::Refuse(v@),
            Handling::Fail(e) => HandlingView::Fail(e@),
        }
    }
}

/// The record after the session identifier of a message has been noted.
pub open spec fn session_noted(r: RecordView, message: JsonView) -> RecordView {
    match text_in(at(message, "session_id"@)) {
        Some(session) => informed(r, InfoView { session_id: Some(session), ..r.info }),
        None => r,
    }
}

/// Whether a permission request is put before the user.
pub open spec fn admissible(r: RecordView, message: JsonView) -> bool {
    &&& at(at(message, "request"@), "subtype"@) == JsonView::Text("can_use_tool"@)
    &&& r.info.state == AgentState::Busy || r.info.state == AgentState::AwaitingPermission
    &&& r.info.pending.len() < PERMISSION_LIMIT
    &&& size(message) <= REQUEST_LIMIT
}

/// The answer to a request that is not put before the user.
pub open spec fn refusal_message(id: Seq<char>) -> JsonView {
    control_response(
        no_fields().push(
            ("error"@, JsonView::Text("Unsupported or inactive permission request"@)),
        ).push(("request_id"@, JsonView::Text(id))).push(("subtype"@, JsonView::Text("error"@))),
    )
}

/// The information after a turn has ended.
pub open spec fn turn_ended(info: InfoView, message: JsonView) -> InfoView {
    let failed = at(message, "is_error"@) == JsonView::Bool(true) || at(message, "subtype"@)
        != JsonView::Text("success"@);
    InfoView {
        failed_turns: if failed {
            (info.failed_turns + 1) as u64
        } else {
            info.failed_turns
        },
        completed_turns: if failed {
            info.completed_turns
        } else {
            (info.completed_turns + 1) as u64
        },
        last_error: if failed {
            Some(clipped(compact(message), DISPLAY_LIMIT as nat))
        } else {
            None
        },
        pending: Seq::empty(),
        state: AgentState::Idle,
        ..info
    }
}

/// The information after the process has withdrawn a request.
pub open spec fn request_withdrawn(info: InfoView, message: JsonView) -> InfoView {
    let left = match text_in(at(message, "request_id"@)) {
        Some(id) => dropped(info.pending, id),
        None => info.pending,
    };
    InfoView {
        pending: left,
        state: if info.state == AgentState::AwaitingPermission && left.len() == 0 {
            AgentState::Busy
        } else {
            info.state
        },
        ..info
    }
}

/// A message from the process: the record after it and what it asks for. The event about it
/// is of kind `tag`.
pub open spec fn handled(r: RecordView, message: JsonView, tag: Seq<char>, now_ms: u64) -> (
    RecordView,
    HandlingView,
) {
    let noted = session_noted(r, message);
    let kind = text_in(at(message, "type"@));
    if kind == Some("control_request"@) {
        match text_in(at(message, "request_id"@)) {
            None => (noted, HandlingView::Fail("权限请求缺少 request_id"@)),
            Some(id) => if admissible(noted, message) {
                let waiting = InfoView {
                    pending: placed(noted.info.pending, id, at(message, "request"@)),
                    state: AgentState::AwaitingPermission,
                    ..noted.info
                };
                (with_event(informed(noted, waiting), now_ms, tag, message), HandlingView::Done)
            } else {
                (noted, HandlingView::Refuse(refusal_message(id)))
            },
        }
    } else {
        let info = if kind == Some("control_cancel_request"@) {
            request_withdrawn(noted.info, message)
        } else if kind == Some("result"@) {
            turn_ended(noted.info, message)
        } else {
            noted.info
        };
        (with_event(informed(noted, info), now_ms, tag, message), HandlingView::Done)
    }
}

/// A message from the process keeps the record sound.
pub proof fn messages_keep_the_record_sound(
    r: RecordView,
    message: JsonView,
    tag: Seq<char>,
    now_ms: u64,
)
    requires
        record_sound(r),
        record_countable(r),
    ensures
        record_sound(handled(r, message, tag, now_ms).0),
        r.info.state.is_running() ==> handled(r, message, tag, now_ms).0.info.state.is_running(),
        handled(r, message, tag, now_ms).0.info.generation == r.info.generation,
        handled(r, message, tag, now_ms).1 !is Done ==> record_countable(handled(r, message, tag, now_ms).0),
{
    let noted = session_noted(r, message);
    let kind = text_in(at(message, "type"@));
    assert(record_sound(noted));
    if kind == Some("control_request"@) {
        match text_in(at(message, "request_id"@)) {
            None => {},
            Some(id) => {
                a_placed_value_is_found(noted.info.pending, id, at(message, "request"@), id);
                let waiting = InfoView {
                    pending: placed(noted.info.pending, id, at(message, "request"@)),
                    state: AgentState::AwaitingPermission,
                    ..noted.info
                };
                if admissible(noted, message) {
                    an_event_keeps_the_record_sound(
                        informed(noted, waiting),
                        now_ms,
                        tag,
                        message,
                    );
                }
            },
        }
    } else {
        let info = if kind == Some("control_cancel_request"@) {
            request_withdrawn(noted.info, message)
        } else if kind == Some("result"@) {
            turn_ended(noted.info, message)
        } else {
            noted.info
        };
        if let Some(id) = text_in(at(message, "request_id"@)) {
            a_dropped_value_is_gone(noted.info.pending, id, id);
        }
        an_event_keeps_the_record_sound(informed(noted, info), now_ms, tag, message);
    }
}

/// Whether the process waits for permission exactly while requests are open.
pub open spec fn in_step(r: RecordView) -> bool {
    r.info.state == AgentState::AwaitingPermission <==> r.info.pending.len() > 0
}

/// Messages and actions keep the waiting for permission and the open requests in step.
pub proof fn waiting_means_open_requests(
    r: RecordView,
    message: JsonView,
    tag: Seq<char>,
    action: AgentActionView,
    now_ms: u64,
)
    requires
        record_sound(r),
        in_step(r),
    ensures
        in_step(handled(r, message, tag, now_ms).0),
        in_step(applied(r, action, now_ms).0),
{
    if let Some(id) = text_in(at(message, "request_id"@)) {
        a_placed_value_is_found(r.info.pending, id, at(message, "request"@), id);
    }
}

/// Every turn is counted once, as completed or as failed, when its result comes; the process is
/// idle then and no request is open. No other message changes the counts.
pub proof fn every_turn_is_counted_once(
    r: RecordView,
    message: JsonView,
    tag: Seq<char>,
    now_ms: u64,
)
    requires
        record_countable(r),
    ensures
        ({
            let before = r.info;
            let after = handled(r, message, tag, now_ms).0.info;
            let successful = at(message, "is_error"@) != JsonView::Bool(true) && at(
                message,
                "subtype"@,
            ) == JsonView::Text("success"@);
            if text_in(at(message, "type"@)) == Some("result"@) {
                &&& after.state == AgentState::Idle
                &&& after.pending.len() == 0
                &&& after.completed_turns == before.completed_turns + if successful {
                    1int
                } else {
                    0
                }
                &&& after.failed_turns == before.failed_turns + if successful {
                    0int
                } else {
                    1
                }
                &&& after.last_error is None <==> successful
            } else {
                &&& after.completed_turns == before.completed_turns
                &&& after.failed_turns == before.failed_turns
            }
        }),
{
    reveal_strlit("result");
    reveal_strlit("control_request");
    reveal_strlit("control_cancel_request");
    assert("result"@.len() != "control_request"@.len());
    assert("result"@.len() != "control_cancel_request"@.len());
}

/// A request of the process is put before the user where it is admissible, and refused in
/// writing otherwise, with the open requests unchanged.
pub proof fn requests_are_put_forward_or_refused(
    r: RecordView,
    message: JsonView,
    id: Seq<char>,
    tag: Seq<char>,
    now_ms: u64,
)
    requires
        record_sound(r),
        text_in(at(message, "type"@)) == Some("control_request"@),
        text_in(at(message, "request_id"@)) == Some(id),
    ensures
        ({
            let (after, handling) = handled(r, message, tag, now_ms);
            if admissible(r, message) {
                &&& handling is Done
                &&& found(after.info.pending, id) == Some(at(message, "request"@))
                &&& after.info.state == AgentState::AwaitingPermission
            } else {
                &&& handling == HandlingView::Refuse(refusal_message(id))
                &&& after.info.pending == r.info.pending
                &&& after.info.state == r.info.state
            }
        }),
{
    a_placed_value_is_found(r.info.pending, id, at(message, "request"@), id);
}

fn copy_text(v: &Json) -> (text: Option<String>)
    ensures
        optional_text(text) == text_in(v@),
{
    match v.as_str() {
        Some(s) => Some(s.to_owned()),
        None => None,
    }
}

impl Record {
    fn withdraw(&mut self, message: &Json)
        requires
            old(self).info.pending_permissions.well_formed(),
        ensures
            final(self).info.pending_permissions.well_formed(),
            final(self)@ == informed(
                old(self)@,
                request_withdrawn(old(self)@.info, message@),
            ),
    {
        if let Some(id) = copy_text(&member(message, "request_id")) {
            proof {
                contents_are_dropped(self.info.pending_permissions@, id@);
            }
            self.info.pending_permissions.remove(id.as_str());
        }
        if self.info.state == AgentState::AwaitingPermission
            && self.info.pending_permissions.len() == 0 {
            self.info.state = AgentState::Busy;
        }
    }

    fn end_turn(&mut self, message: &Json)
        requires
            record_countable(old(self)@),
        ensures
            final(self).info.pending_permissions.well_formed(),
            final(self)@ == informed(old(self)@, turn_ended(old(self)@.info, message@)),
    {
        let is_error: bool = matches!(member(message, "is_error"), Json::Bool(true));
        if is_error || !member(message, "subtype").is_text("success") {
            self.info.failed_turns = self.info.failed_turns + 1;
            self.info.last_error = Some(clip(message.to_text().as_str(), DISPLAY_LIMIT));
        } else {
            self.info.completed_turns = self.info.completed_turns + 1;
            self.info.last_error = None;
        }
        self.info.pending_permissions.clear();
        assert(self@.info.pending =~= Seq::<(Seq<char>, JsonView)>::empty());
        self.info.state = AgentState::Idle;
    }

    /// Takes a message from the process.
    pub fn handle_output(&mut self, message: Json, tag: &str, now_ms: u64) -> (handling: Handling)
        requires
            old(self).well_formed(),
            record_countable(old(self)@),
        ensures
            final(self).well_formed(),
            (final(self)@, handling@) == handled(old(self)@, message@, tag@, now_ms),
    {
        proof {
            messages_keep_the_record_sound(self@, message@, tag@, now_ms);
        }
        if let Some(session) = copy_text(&member(&message, "session_id")) {
            self.info.session_id = Some(session);
        }
        let kind = member(&message, "type");
        if kind.is_text("control_request") {
            let id = match copy_text(&member(&message, "request_id")) {
                Some(id) => id,
                None => {
                    return Handling::Fail("权限请求缺少 request_id".to_owned());
                },
            };
            let request = member(&message, "request");
            let length: usize = message.to_text().as_str().as_bytes().len();
            if member(&request, "subtype").is_text("can_use_tool") && matches!(
                self.info.state,
                AgentState::Busy | AgentState::AwaitingPermission
            ) && self.info.pending_permissions.len() < PERMISSION_LIMIT && length <= REQUEST_LIMIT {
                proof {
                    contents_are_placed(self.info.pending_permissions@, id@, request);
                }
                self.info.pending_permissions.insert(id, request);
                self.info.state = AgentState::AwaitingPermission;
            } else {
                return Handling::Refuse(
                    control_response_message(
                        Fields::new().with(
                            "error",
                            Json::text("Unsupported or inactive permission request"),
                        ).with("request_id", Json::text(id.as_str())).with(
                            "subtype",
                            Json::text("error"),
                        ),
                    ),
                );
            }
        } else if kind.is_text("control_cancel_request") {
            self.withdraw(&message);
        } else if kind.is_text("result") {
            self.end_turn(&message);
        }
        self.event(tag, message, now_ms);
        Handling::Done
    }
}

} // verus!
