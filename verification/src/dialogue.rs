//! What users and processes of conversations see of each other.
use vstd::prelude::*;
use vstd::string::*;
use vstd::utf8::encode_utf8;
use crate::agent::{
    admissible, applied, event_document, handled, info_document, record_sound, with_event,
    AgentActionView, AgentState, InfoView, NamesView, RecordView,
};
use crate::agents::{
    absolute_root, creation, creation_obstacle, demand_obstacle, freed, manager_sound, method_named,
    no_conversations, restart_result, routed, running, stop_list, target_obstacle, AgentConfig,
    AgentMethod, LifecycleView, ManagerView,
};
use crate::documents::{
    an_added_member_is_found, control_requests_are_told_by_name, conversations_are_told_by_name,
    counted, events_are_told_by_name, noted_events_join_the_others, permissions_are_told_by_name,
    prompts_are_told_by_name,
};
use crate::errands::{
    creation_begun, halt_begun, preparation_begun, pursued, ChoreEnd, ChoreView, ErrandView,
    Preparation, ProgressView,
};
use crate::json::{at, compact, lookup, no_fields, JsonView};
use crate::protocol::line_of;
use crate::session::{
    advanced, commanded, finished, handshake, heard, line_heard, session_sound, started, stepped,
    written, SessionInput, SessionNextView, SessionStageView, SessionView, WriteEnd,
};
use crate::table::{a_dropped_value_is_gone, a_placed_value_is_found, ascending, found};
use crate::text::{decimal_text, lossy_text, trimmed, white_space};
use crate::tools::{
    conversation_arguments, git_line, git_outcome, number_at, request_outcome, version_outcome,
    RequestEnd, ToolEnd,
};

verus! {

/// The last event of a record is of the given kind and time.
pub open spec fn last_noted(r: RecordView, tag: Seq<char>, now_ms: u64) -> bool {
    &&& r.events.len() > 0
    &&& at(r.events.last(), "kind"@) == JsonView::Text(tag)
    &&& at(r.events.last(), "at_ms"@) == counted(now_ms as nat)
    &&& at(r.events.last(), "id"@) == counted(r.sequence as nat)
}

/// The last event of a record carries the given text under the given name, or the text is too
/// long to be shown as a whole.
pub open spec fn last_text(r: RecordView, name: Seq<char>, text: Seq<char>) -> bool {
    ||| at(at(r.events.last(), "data"@), name) == JsonView::Text(text)
    ||| at(at(r.events.last(), "data"@), "truncated"@) == JsonView::Bool(true)
}

proof fn lemma_noted(r: RecordView, now_ms: u64, tag: Seq<char>, data: JsonView)
    requires
        r.sequence < u64::MAX,
        r.events.len() <= 256,
    ensures
        last_noted(with_event(r, now_ms, tag, data), tag, now_ms),
        encode_utf8(compact(data)).len() <= 16384 ==> at(
            with_event(r, now_ms, tag, data).events.last(),
            "data"@,
        ) == data,
        encode_utf8(compact(data)).len() > 16384 ==> at(
            at(with_event(r, now_ms, tag, data).events.last(), "data"@),
            "truncated"@,
        ) == JsonView::Bool(true),
{
    noted_events_join_the_others(r, now_ms, tag, data);
    events_are_told_by_name((r.sequence + 1) as u64, now_ms, tag, data);
    let after = with_event(r, now_ms, tag, data);
    assert(after.events.last() == event_document(after.sequence, now_ms, tag, data));
}

/// A prompt to an idle process is written to it as one message with just that text, in the session
/// that the process has named; it is noted, and the process is busy from then on. Once the message
/// is written, who sent the prompt is told the state of the conversation.
pub proof fn a_prompt_reaches_its_process<R>(
    s: SessionView<R>,
    prompt: Seq<char>,
    reply: R,
    names: NamesView,
    now_ms: u64,
)
    requires
        session_sound(s),
        s.stage is Listening,
        s.record.sequence < u64::MAX,
        s.record.info.state == AgentState::Idle,
    ensures
        ({
            let m = commanded(
                s,
                s.record.info.generation,
                AgentActionView::Send(prompt),
                reply,
                now_ms,
            );
            let end = written(m.0, WriteEnd::Done, names, now_ms);
            &&& m.1.answer is None
            &&& exists|v: JsonView|
                #![trigger line_of(v)]
                m.1.next == SessionNextView::Write(line_of(v)) && at(v, "type"@) == JsonView::Text(
                    "user"@,
                ) && at(at(v, "message"@), "content"@) == JsonView::Text(prompt) && at(
                    v,
                    "session_id"@,
                ) == JsonView::Text(
                    match s.record.info.session_id {
                        Some(id) => id,
                        None => ""@,
                    },
                )
            &&& m.0.record.info.state == AgentState::Busy
            &&& last_noted(m.0.record, "user"@, now_ms)
            &&& last_text(m.0.record, "text"@, prompt)
            &&& end.0.stage is Listening
            &&& end.1.answer matches Some((to, Ok(told))) && to == reply && at(told, "state"@)
                == JsonView::Text("busy"@) && at(told, "id"@) == JsonView::Text(s.record.info.id)
        }),
{
    let session = s.record.info.session_id;
    prompts_are_told_by_name(session, prompt);
    let data = crate::agent::text_document("text"@, prompt);
    an_added_member_is_found(no_fields(), "text"@, JsonView::Text(prompt));
    lemma_noted(s.record, now_ms, "user"@, data);
    let m = commanded(s, s.record.info.generation, AgentActionView::Send(prompt), reply, now_ms);
    conversations_are_told_by_name(m.0.record.info);
    assert(m.1.next == SessionNextView::Write(
        line_of(crate::agent::prompt_message(session, prompt)),
    ));
}

/// A process that does not wait for a prompt is sent none.
pub proof fn prompts_wait_for_an_idle_process(r: RecordView, prompt: Seq<char>, now_ms: u64)
    requires
        r.info.state != AgentState::Idle,
    ensures
        applied(r, AgentActionView::Send(prompt), now_ms).0 == r,
        applied(r, AgentActionView::Send(prompt), now_ms).1 is Err,
{
}

/// A process that works on a prompt can be interrupted: it is asked to stop, and no request of it
/// stays open. No other process is asked.
pub proof fn working_processes_can_be_interrupted(r: RecordView, now_ms: u64)
    ensures
        ({
            let m = applied(r, AgentActionView::Interrupt, now_ms);
            if r.info.state == AgentState::Busy || r.info.state == AgentState::AwaitingPermission {
                &&& m.0.info.state == AgentState::Interrupting
                &&& m.0.info.pending.len() == 0
                &&& m.0.events == r.events
                &&& m.1 matches Ok(v) && at(v, "type"@) == JsonView::Text("control_request"@)
                    && at(at(v, "request"@), "subtype"@) == JsonView::Text("interrupt"@) && at(
                    v,
                    "request_id"@,
                ) == JsonView::Text("interrupt-"@ + decimal_text(r.sequence as nat))
            } else {
                m.0 == r && m.1 is Err
            }
        }),
{
    let request = crate::agent::text_document("subtype"@, "interrupt"@);
    an_added_member_is_found(no_fields(), "subtype"@, JsonView::Text("interrupt"@));
    control_requests_are_told_by_name("interrupt-"@ + decimal_text(r.sequence as nat), request);
}

/// A decision on an open request is written to the process under the identifier of the request:
/// allowed with the input that was asked about, or denied. The request is closed by it, and with
/// the last open request the process works on.
pub proof fn decisions_reach_the_process(
    r: RecordView,
    request_id: Seq<char>,
    allow: bool,
    now_ms: u64,
)
    requires
        record_sound(r),
        r.sequence < u64::MAX,
    ensures
        ({
            let m = applied(r, AgentActionView::Permission { request_id, allow }, now_ms);
            match found(r.info.pending, request_id) {
                None => m.0 == r && m.1 is Err,
                Some(request) => {
                    &&& m.1 matches Ok(v) && {
                        let answer = at(at(v, "response"@), "response"@);
                        &&& at(at(v, "response"@), "request_id"@) == JsonView::Text(request_id)
                        &&& at(answer, "behavior"@) == JsonView::Text(
                            if allow {
                                "allow"@
                            } else {
                                "deny"@
                            },
                        )
                        &&& allow ==> at(answer, "updatedInput"@) == at(request, "input"@)
                    }
                    &&& found(m.0.info.pending, request_id) is None
                    &&& forall|other: Seq<char>|
                        other != request_id ==> #[trigger] found(m.0.info.pending, other) == found(
                            r.info.pending,
                            other,
                        )
                    &&& m.0.info.state == if m.0.info.pending.len() == 0 {
                        AgentState::Busy
                    } else {
                        r.info.state
                    }
                    &&& last_noted(m.0, "permission"@, now_ms)
                },
            }
        }),
{
    if let Some(request) = found(r.info.pending, request_id) {
        permissions_are_told_by_name(request_id, request, allow);
        lemma_noted(
            r,
            now_ms,
            "permission"@,
            crate::agent::permission_event(request_id, request, allow),
        );
        a_dropped_value_is_gone(r.info.pending, request_id, request_id);
        assert forall|other: Seq<char>| other != request_id implies #[trigger] found(
            crate::table::dropped(r.info.pending, request_id),
            other,
        ) == found(r.info.pending, other) by {
            a_dropped_value_is_gone(r.info.pending, request_id, other);
        }
    }
}

/// The first message asks the process to initialize itself.
pub proof fn the_handshake_asks_for_initialization()
    ensures
        at(handshake(), "type"@) == JsonView::Text("control_request"@),
        at(handshake(), "request_id"@) == JsonView::Text("pool-initialize"@),
        at(at(handshake(), "request"@), "subtype"@) == JsonView::Text("initialize"@),
        lookup(at(handshake(), "request"@), "hooks"@) == Some(JsonView::Null),
{
    reveal_strlit("hooks");
    reveal_strlit("subtype");
    assert("hooks"@.len() != "subtype"@.len());
    let p1 = no_fields().push(("hooks"@, JsonView::Null));
    an_added_member_is_found(no_fields(), "hooks"@, JsonView::Null);
    an_added_member_is_found(p1, "subtype"@, JsonView::Text("initialize"@));
    control_requests_are_told_by_name(
        "pool-initialize"@,
        JsonView::Object(p1.push(("subtype"@, JsonView::Text("initialize"@)))),
    );
}

/// A process that answers the handshake with success is idle and ready for prompts; one that
/// answers it otherwise is given up.
pub proof fn the_handshake_decides<R>(
    s: SessionView<R>,
    message: JsonView,
    names: NamesView,
    now_ms: u64,
)
    requires
        s.record.sequence < u64::MAX,
        s.record.events.len() <= 256,
        at(message, "type"@) == JsonView::Text("control_response"@),
        at(at(message, "response"@), "request_id"@) == JsonView::Text("pool-initialize"@),
    ensures
        ({
            let m = heard(s, message, names, now_ms);
            if at(at(message, "response"@), "subtype"@) == JsonView::Text("success"@) {
                &&& m.0.ready
                &&& m.0.stage is Listening
                &&& m.0.record.info == (InfoView { state: AgentState::Idle, ..s.record.info })
                &&& last_noted(m.0.record, "lifecycle"@, now_ms)
                &&& m.1.next is Listen
            } else {
                &&& m.0.stage is Ending
                &&& m.0.failure is Some
                &&& m.0.record == s.record
                &&& m.1.next is End
            }
        }),
{
    lemma_noted(
        RecordView { info: InfoView { state: AgentState::Idle, ..s.record.info }, ..s.record },
        now_ms,
        "lifecycle"@,
        crate::agent::text_document("message"@, "会话已就绪，可发送提示词"@),
    );
}

/// A process that is not ready when the time for the handshake is over is given up; a ready one
/// goes on.
pub proof fn the_handshake_has_a_deadline<R>(s: SessionView<R>, names: NamesView, now_ms: u64)
    requires
        s.stage is Listening,
    ensures
        ({
            let m = stepped(s, SessionInput::DeadlinePassed, names, now_ms);
            if s.ready {
                m.0 == s && m.1.next is Listen
            } else {
                m.0.stage is Ending && m.0.failure is Some && m.1.next is End
            }
        }),
{
}

/// The session that a message names is the session of the conversation from then on; a message
/// that names none changes nothing about it. What a message changes besides is the state, the
/// open requests, and the counts and the error of turns.
pub proof fn messages_name_the_session(
    r: RecordView,
    message: JsonView,
    tag: Seq<char>,
    now_ms: u64,
)
    ensures
        ({
            let after = handled(r, message, tag, now_ms).0.info;
            &&& after.session_id == (match at(message, "session_id"@) {
                JsonView::Text(id) => Some(id),
                _ => r.info.session_id,
            })
            &&& after.id == r.info.id
            &&& after.label == r.info.label
            &&& after.cwd == r.info.cwd
            &&& after.pid == r.info.pid
            &&& after.generation == r.info.generation
            &&& after.started_at_ms == r.info.started_at_ms
        }),
{
}

/// Every message that is not refused is noted as it is, under the name of the program.
pub proof fn messages_are_noted(
    r: RecordView,
    message: JsonView,
    tag: Seq<char>,
    now_ms: u64,
)
    requires
        r.sequence < u64::MAX,
        r.events.len() <= 256,
    ensures
        ({
            let m = handled(r, message, tag, now_ms);
            if m.1 is Done {
                &&& m.0.sequence == r.sequence + 1
                &&& last_noted(m.0, tag, now_ms)
                &&& encode_utf8(compact(message)).len() <= 16384 ==> at(
                    m.0.events.last(),
                    "data"@,
                ) == message
            } else {
                m.0.events == r.events && m.0.sequence == r.sequence
            }
        }),
{
    let m = handled(r, message, tag, now_ms);
    if m.1 is Done {
        let noted = RecordView { info: m.0.info, ..r };
        lemma_noted(noted, now_ms, tag, message);
        assert(m.0 == with_event(noted, now_ms, tag, message));
    }
}

/// A request of the process is put before the user where it asks for the use of a tool, the
/// process is at work, fewer than 16 requests are open and the message has at most 65536 bytes.
pub proof fn requests_are_admitted_within_limits(r: RecordView, message: JsonView)
    ensures
        admissible(r, message) <==> {
            &&& at(at(message, "request"@), "subtype"@) == JsonView::Text("can_use_tool"@)
            &&& r.info.state == AgentState::Busy || r.info.state == AgentState::AwaitingPermission
            &&& r.info.pending.len() < 16
            &&& encode_utf8(compact(message)).len() <= 65536
        },
{
}

/// A request that the process withdraws is closed, and with the last open request the process
/// works on.
pub proof fn withdrawn_requests_are_closed(
    r: RecordView,
    message: JsonView,
    id: Seq<char>,
    tag: Seq<char>,
    now_ms: u64,
)
    requires
        record_sound(r),
        at(message, "type"@) == JsonView::Text("control_cancel_request"@),
        at(message, "request_id"@) == JsonView::Text(id),
    ensures
        ({
            let after = handled(r, message, tag, now_ms).0.info;
            &&& found(after.pending, id) is None
            &&& forall|other: Seq<char>|
                other != id ==> #[trigger] found(after.pending, other) == found(
                    r.info.pending,
                    other,
                )
            &&& after.state == if r.info.state == AgentState::AwaitingPermission
                && after.pending.len() == 0 {
                AgentState::Busy
            } else {
                r.info.state
            }
        }),
{
    reveal_strlit("control_request");
    reveal_strlit("control_cancel_request");
    assert("control_cancel_request"@.len() != "control_request"@.len());
    a_dropped_value_is_gone(r.info.pending, id, id);
    assert forall|other: Seq<char>| other != id implies #[trigger] found(
        crate::table::dropped(r.info.pending, id),
        other,
    ) == found(r.info.pending, other) by {
        a_dropped_value_is_gone(r.info.pending, id, other);
    }
}

/// A failed turn leaves the beginning of its result as the error, a successful one leaves none;
/// what had gone wrong before is forgotten.
pub proof fn failed_turns_leave_their_result(
    r: RecordView,
    message: JsonView,
    tag: Seq<char>,
    now_ms: u64,
)
    requires
        at(message, "type"@) == JsonView::Text("result"@),
    ensures
        ({
            let after = handled(r, message, tag, now_ms).0.info;
            let successful = at(message, "is_error"@) != JsonView::Bool(true) && at(
                message,
                "subtype"@,
            ) == JsonView::Text("success"@);
            &&& successful ==> after.last_error is None
            &&& !successful ==> (after.last_error matches Some(why) && why.is_prefix_of(
                compact(message),
            ) && encode_utf8(why).len() <= 16384 && (encode_utf8(compact(message)).len() <= 16384
                ==> why == compact(message)))
        }),
{
    reveal_strlit("result");
    reveal_strlit("control_request");
    reveal_strlit("control_cancel_request");
    assert("result"@.len() != "control_request"@.len());
    assert("result"@.len() != "control_cancel_request"@.len());
    crate::text::clipping_keeps_a_fitting_prefix(compact(message), 16384);
}

/// A process that ends, cannot be read, closes its output or says something unreadable is given
/// up, with the reason at the end of the failure; what it says on the side is only noted.
pub proof fn broken_processes_are_given_up<R>(
    s: SessionView<R>,
    status: String,
    error: String,
    why: Seq<char>,
    noise: String,
    names: NamesView,
    now_ms: u64,
)
    requires
        s.stage is Listening,
        s.record.sequence < u64::MAX,
        s.record.events.len() <= 256,
    ensures
        ({
            let m = stepped(s, SessionInput::Exited(status), names, now_ms);
            m.0.stage is Ending && m.1.next is End && (m.0.failure matches Some(text)
                && status@.is_suffix_of(text) && names.title.is_prefix_of(text))
        }),
        ({
            let m = stepped(s, SessionInput::ReadFailed(error), names, now_ms);
            m.0.stage is Ending && m.1.next is End && m.0.failure == Some(error@)
        }),
        ({
            let m = stepped(s, SessionInput::<R>::OutputClosed, names, now_ms);
            m.0.stage is Ending && m.1.next is End && (m.0.failure matches Some(text)
                && names.title.is_prefix_of(text))
        }),
        ({
            let m = line_heard(s, Err(why), names, now_ms);
            m.0.stage is Ending && m.1.next is End && (m.0.failure matches Some(text)
                && why.is_suffix_of(text) && names.title.is_prefix_of(text))
        }),
        ({
            let m = stepped(s, SessionInput::Noise(noise), names, now_ms);
            m.0.stage is Listening && m.1.next is Listen && m.0.record.info == s.record.info
                && last_noted(m.0.record, "stderr"@, now_ms) && last_text(
                m.0.record,
                "text"@,
                noise@,
            )
        }),
{
    let a = stepped(s, SessionInput::Exited(status), names, now_ms).0.failure->0;
    assert(status@ =~= a.skip(a.len() - status@.len()));
    assert(names.title =~= a.take(names.title.len() as int));
    let b = stepped(s, SessionInput::<R>::OutputClosed, names, now_ms).0.failure->0;
    assert(names.title =~= b.take(names.title.len() as int));
    let c = line_heard(s, Err(why), names, now_ms).0.failure->0;
    assert(why =~= c.skip(c.len() - why.len()));
    assert(names.title =~= c.take(names.title.len() as int));
    an_added_member_is_found(no_fields(), "text"@, JsonView::Text(noise@));
    lemma_noted(
        s.record,
        now_ms,
        "stderr"@,
        crate::agent::text_document("text"@, noise@),
    );
}

/// A demand to stop the current process ends it; who made the demand is answered when the process
/// is gone, with the conversation as stopped. A process whose commands are closed ends as well.
pub proof fn demands_to_stop_end_the_process<R>(
    s: SessionView<R>,
    reply: R,
    names: NamesView,
    now_ms: u64,
    end_ms: u64,
)
    requires
        session_sound(s),
        s.stage is Listening,
    ensures
        ({
            let generation = s.record.info.generation;
            let m = stepped(s, SessionInput::Stop { generation, reply }, names, now_ms);
            let end = finished(m.0, end_ms);
            &&& m.1.next is End
            &&& m.1.answer is None
            &&& end.0.record.info.state == AgentState::Stopped
            &&& end.0.stage is Ended
            &&& end.1 matches Some((to, Ok(told))) && to == reply && at(told, "state"@)
                == JsonView::Text("stopped"@) && at(told, "last_error"@) == JsonView::Null
        }),
        ({
            let m = stepped(s, SessionInput::<R>::CommandsClosed, names, now_ms);
            let end = finished(m.0, end_ms);
            &&& m.1.next is End
            &&& end.0.record.info.state == AgentState::Stopped
            &&& end.1 is None
        }),
{
    let generation = s.record.info.generation;
    let m = stepped(s, SessionInput::Stop { generation, reply }, names, now_ms);
    conversations_are_told_by_name(finished(m.0, end_ms).0.record.info);
}

/// A message that cannot be written ends the process; who it was for is told so.
pub proof fn failed_writes_end_the_process<R>(
    s: SessionView<R>,
    reply: R,
    e: String,
    names: NamesView,
    now_ms: u64,
)
    requires
        s.stage == (SessionStageView::Replying { reply }),
    ensures
        ({
            let m = written(s, WriteEnd::Failed(e), names, now_ms);
            &&& m.0.stage is Ending
            &&& m.0.failure matches Some(why) && e@.is_suffix_of(why)
            &&& m.1.next is End
            &&& m.1.answer matches Some((to, Err(why))) && to == reply && e@.is_suffix_of(why)
        }),
        ({
            let m = written(s, WriteEnd::TimedOut, names, now_ms);
            &&& m.0.stage is Ending
            &&& m.1.next is End
            &&& m.1.answer matches Some((to, Err(why))) && to == reply
        }),
{
    let why = written(s, WriteEnd::Failed(e), names, now_ms).0.failure->0;
    assert(e@ =~= why.skip(why.len() - e@.len()));
}

/// A new conversation is numbered, named and placed as it was asked for: a label without visible
/// characters is replaced by the identifier. It starts its first process, and is told to its
/// user; where the process does not start, nothing is remembered and the user is told why.
pub proof fn new_conversations_are_as_asked_for<R>(
    m: ManagerView<R>,
    label: Seq<char>,
    id: Seq<char>,
    cwd: Seq<char>,
    pid: Option<u32>,
    why: Seq<char>,
    now_ms: u64,
)
    requires
        ascending(m.agents),
        m.lifecycle == (LifecycleView::Creating { label }),
    ensures
        ({
            let (after, answer) = creation(m, id, cwd, Ok(pid), now_ms);
            &&& found(after.agents, id) matches Some(s) && {
                let info = s.record.info;
                &&& info.id == id
                &&& info.label == if forall|i: int|
                    0 <= i < label.len() ==> white_space(#[trigger] label[i]) {
                    id
                } else {
                    label
                }
                &&& info.cwd == cwd
                &&& info.pid == pid
                &&& info.generation == 1
                &&& info.session_id is None
                &&& info.state == AgentState::Starting
                &&& info.started_at_ms == now_ms
                &&& (info.completed_turns, info.failed_turns) == (0u64, 0u64)
                &&& info.last_error is None
                &&& info.pending.len() == 0
                &&& s.stage is Handshaking
                &&& !s.ready
                &&& s.record.sequence == 1
                &&& last_noted(s.record, "lifecycle"@, now_ms)
                &&& answer == Ok::<JsonView, Seq<char>>(info_document(info))
            }
            &&& forall|other: Seq<char>|
                other != id ==> #[trigger] found(after.agents, other) == found(m.agents, other)
            &&& after.lifecycle is Free
        }),
        ({
            let (after, answer) = creation(m, id, cwd, Err(why), now_ms);
            &&& after.agents == m.agents
            &&& after.lifecycle is Free
            &&& answer matches Err(text) && cwd.is_suffix_of(text)
        }),
{
    let (after, answer) = creation(m, id, cwd, Ok(pid), now_ms);
    let r = crate::agents::new_record(id, label, cwd, now_ms);
    let s = started::<R>(r, pid, m.names.title, now_ms);
    a_placed_value_is_found(m.agents, id, s, id);
    assert forall|other: Seq<char>| other != id implies #[trigger] found(after.agents, other)
        == found(m.agents, other) by {
        a_placed_value_is_found(m.agents, id, s, other);
    }
    let data = JsonView::Object(
        no_fields().push(
            ("message"@, JsonView::Text(m.names.title + " 已启动，等待控制协议握手"@)),
        ).push(("pid"@, crate::agent::optional_number(pid))),
    );
    lemma_noted(RecordView { info: s.record.info, ..r }, now_ms, "lifecycle"@, data);
    let text = creation(m, id, cwd, Err(why), now_ms).1->Err_0;
    assert(cwd =~= text.skip(text.len() - cwd.len()));
}

/// A conversation can be created just where its label has at most 80 characters, the service is
/// open, fewer processes run than allowed, and fewer than 128 conversations are remembered.
pub proof fn conversations_are_created_within_limits<R>(m: ManagerView<R>, label: Seq<char>)
    ensures
        creation_obstacle(m, label) is None <==> label.len() <= 80 && !m.closed && running(m.agents)
            < m.max_agents && m.agents.len() < 128,
        ({
            let p = creation_begun(m, label);
            if creation_obstacle(m, label) is None {
                &&& p.0.lifecycle == (LifecycleView::Creating { label })
                &&& p.0.agents == m.agents
                &&& p.1 is Go
            } else {
                p.0 == m && (p.1 matches ProgressView::Finished(Err(_)))
            }
        }),
{
}

/// The running processes are counted one by one.
pub proof fn running_processes_are_counted<R>(
    agents: Seq<(Seq<char>, SessionView<R>)>,
    id: Seq<char>,
    s: SessionView<R>,
)
    ensures
        running(Seq::<(Seq<char>, SessionView<R>)>::empty()) == 0,
        running(agents.push((id, s))) == running(agents) + if s.record.info.state
            == AgentState::Stopped || s.record.info.state == AgentState::Failed {
            0nat
        } else {
            1
        },
{
    assert(agents.push((id, s)).drop_last() =~= agents);
}

/// A prompt can be sent just where it has a visible character and at most 32768 bytes, and the
/// conversation that it is for is known.
pub proof fn prompts_are_sent_within_limits<R>(
    m: ManagerView<R>,
    id: Seq<char>,
    prompt: Seq<char>,
)
    ensures
        demand_obstacle(m, id, AgentActionView::Send(prompt)) is None <==> found(m.agents, id)
            is Some && encode_utf8(prompt).len() <= 32768 && exists|i: int|
            0 <= i < prompt.len() && !white_space(#[trigger] prompt[i]),
        demand_obstacle(m, id, AgentActionView::Interrupt) is None <==> found(m.agents, id) is Some,
{
    if exists|i: int| 0 <= i < prompt.len() && !white_space(#[trigger] prompt[i]) {
        let i = choose|i: int| 0 <= i < prompt.len() && !white_space(#[trigger] prompt[i]);
        assert(!white_space(prompt[i]));
    }
}

/// A conversation can be stopped or restarted just where the service is open, the conversation is
/// known, and the process that the user saw is still the current one. A conversation whose
/// process runs is stopped first.
pub proof fn conversations_are_stopped_on_demand<R>(
    m: ManagerView<R>,
    id: Seq<char>,
    generation: u64,
    restart: bool,
)
    ensures
        target_obstacle(m, id, generation) is None <==> !m.closed && (found(
            m.agents,
            id,
        ) matches Some(s) && s.record.info.generation == generation),
        target_obstacle(m, id, generation) is Some ==> halt_begun(m, id, generation, restart).0
            == m && (halt_begun(m, id, generation, restart).1 matches ProgressView::Finished(
            Err(_),
        )),
        target_obstacle(m, id, generation) is None && (found(m.agents, id)->0).record.info.state
            != AgentState::Stopped && (found(m.agents, id)->0).record.info.state
            != AgentState::Failed ==> halt_begun(m, id, generation, restart) == (
            m,
            ProgressView::Go {
                errand: ErrandView::Halting { id, restart },
                chore: ChoreView::Stop { id, generation },
            },
        ),
{
}

/// A restarted conversation gets its next process in its own directory and in the session that it
/// had, unless as many processes run as are allowed.
pub proof fn conversations_are_resumed<R>(
    m: ManagerView<R>,
    id: Seq<char>,
    ended: String,
    now_ms: u64,
    answer: crate::json::Json,
)
    requires
        ascending(m.agents),
        found(m.agents, id) matches Some(s) && s.record.info.generation < u64::MAX,
    ensures
        ({
            let info = (found(m.agents, id)->0).record.info;
            let p = pursued(
                ErrandView::Halting { id, restart: true },
                m,
                ChoreEnd::Stopped(Ok(answer)),
                now_ms,
            );
            if running(m.agents) >= m.max_agents {
                p.0 == m && (p.1 matches ProgressView::Finished(Err(_)))
            } else {
                &&& p.1 matches ProgressView::Go { errand, chore } && errand is Restarting
                    && chore == (ChoreView::Start {
                    cwd: info.cwd,
                    args: conversation_arguments(info.session_id),
                })
                &&& p.0.lifecycle == (LifecycleView::Restarting { id })
                &&& found(p.0.agents, id) matches Some(s) && s.record.info.generation
                    == info.generation + 1 && s.record.info == (InfoView {
                    generation: s.record.info.generation,
                    ..info
                })
            }
        }),
        ({
            let p = pursued(
                ErrandView::Halting { id, restart: false },
                m,
                ChoreEnd::Stopped(Ok(answer)),
                now_ms,
            );
            p.0 == m && p.1 == ProgressView::Finished(
                Ok(info_document((found(m.agents, id)->0).record.info)),
            )
        }),
{
    let s = found(m.agents, id)->0;
    a_placed_value_is_found(m.agents, id, advanced(s), id);
}

/// The next process of a conversation keeps the conversation: its identifier, label, directory,
/// session, counts and events. A process that does not start leaves it failed.
pub proof fn restarts_keep_the_conversation<R>(
    m: ManagerView<R>,
    id: Seq<char>,
    pid: Option<u32>,
    why: Seq<char>,
    now_ms: u64,
)
    requires
        manager_sound(m),
        m.lifecycle == (LifecycleView::Restarting { id }),
        (found(m.agents, id)->0).record.sequence < u64::MAX,
    ensures
        ({
            let info = (found(m.agents, id)->0).record.info;
            let (after, answer) = restart_result(m, Ok(pid), now_ms);
            &&& found(after.agents, id) matches Some(s) && {
                &&& s.record.info == (InfoView {
                    pid,
                    state: AgentState::Starting,
                    started_at_ms: now_ms,
                    last_error: None,
                    pending: Seq::empty(),
                    ..info
                })
                &&& s.record.sequence == (found(m.agents, id)->0).record.sequence + 1
                &&& s.stage is Handshaking
                &&& !s.ready
                &&& answer == Ok::<JsonView, Seq<char>>(info_document(s.record.info))
            }
            &&& after.lifecycle is Free
        }),
        ({
            let info = (found(m.agents, id)->0).record.info;
            let (after, answer) = restart_result(m, Err(why), now_ms);
            &&& found(after.agents, id) matches Some(s) && s.record.info.state
                == AgentState::Failed && s.record.info.last_error is Some && s.record.info
                == (InfoView {
                state: s.record.info.state,
                last_error: s.record.info.last_error,
                ..info
            })
            &&& after.lifecycle is Free
            &&& answer is Err
        }),
{
    let s = found(m.agents, id)->0;
    a_placed_value_is_found(m.agents, id, started::<R>(s.record, pid, m.names.title, now_ms), id);
    a_placed_value_is_found(
        m.agents,
        id,
        (SessionView {
            record: crate::session::not_started(s.record, m.names.title, why),
            ..s
        }),
        id,
    );
}

/// When the service ends, just the conversations with a process are stopped, each in its current
/// generation.
pub proof fn running_conversations_are_stopped<R>(
    agents: Seq<(Seq<char>, SessionView<R>)>,
    id: Seq<char>,
    s: SessionView<R>,
)
    ensures
        stop_list(Seq::<(Seq<char>, SessionView<R>)>::empty()).len() == 0,
        stop_list(agents.push((id, s))) == if s.record.info.state == AgentState::Stopped
            || s.record.info.state == AgentState::Failed {
            stop_list(agents)
        } else {
            stop_list(agents).push((id, s.record.info.generation))
        },
{
    assert(agents.push((id, s)).drop_last() =~= agents);
}

/// A conversation process speaks the stream protocol, asks for every permission on that stream,
/// and resumes the session that is known, if any.
pub proof fn known_sessions_are_resumed(id: Seq<char>)
    ensures
        conversation_arguments(Some(id)) == conversation_arguments(None) + seq!["--resume"@, id],
        conversation_arguments(None) == seq![
            "-p"@,
            "--input-format"@,
            "stream-json"@,
            "--output-format"@,
            "stream-json"@,
            "--verbose"@,
            "--include-partial-messages"@,
            "--safe-mode"@,
            "--permission-mode"@,
            "manual"@,
            "--permission-prompt-tool"@,
            "stdio"@,
        ],
{
    let fixed = conversation_arguments(None);
    assert(fixed.push("--resume"@).push(id) =~= fixed + seq!["--resume"@, id]);
}

/// Git runs without the hooks of the repository, and with just the given arguments besides.
pub proof fn git_runs_without_hooks(args: Seq<Seq<char>>)
    ensures
        git_line(args).len() == args.len() + 2,
        git_line(args)[0] == "-c"@,
        git_line(args)[1] == "core.hooksPath=/dev/null"@,
        git_line(args).skip(2) == args,
{
    assert(git_line(args).skip(2) =~= args);
}

/// The output of a tool that succeeded is its result; one that failed, ran late or did not start
/// has none.
pub proof fn tools_are_judged_by_their_end(
    names: NamesView,
    success: bool,
    stdout: Vec<u8>,
    stderr: Vec<u8>,
    e: String,
)
    ensures
        git_outcome(ToolEnd::Finished { success, stdout, stderr }) is Ok <==> success,
        success ==> git_outcome(ToolEnd::Finished { success, stdout, stderr }) == Ok::<
            Seq<char>,
            Seq<char>,
        >(lossy_text(stdout@)),
        git_outcome(ToolEnd::TimedOut) is Err,
        git_outcome(ToolEnd::Failed(e)) == Err::<Seq<char>, Seq<char>>(e@),
        version_outcome(names, ToolEnd::Finished { success, stdout, stderr }) is Ok <==> success,
        success ==> (version_outcome(
            names,
            ToolEnd::Finished { success, stdout, stderr },
        ) matches Ok(text) && text.is_prefix_of(trimmed(lossy_text(stdout@))) && encode_utf8(
            text,
        ).len() <= 256),
        version_outcome(names, ToolEnd::TimedOut) is Err,
        version_outcome(names, ToolEnd::Failed(e)) matches Err(why) && e@.is_suffix_of(why),
{
    crate::text::clipping_keeps_a_fitting_prefix(trimmed(lossy_text(stdout@)), 256);
    let why = version_outcome(names, ToolEnd::Failed(e))->Err_0;
    assert(e@ =~= why.skip(why.len() - e@.len()));
}

/// Only a repository that came from the project's own address is worked on.
pub proof fn foreign_repositories_are_refused<R>(m: ManagerView<R>, end: ToolEnd, now_ms: u64)
    ensures
        ({
            let p = pursued(ErrandView::CheckingOrigin, m, ChoreEnd::Ran(end), now_ms);
            let own = git_outcome(end) matches Ok(output) && trimmed(output)
                == "https://github.com/cogwheel0/conduit.git"@;
            if own {
                &&& p.0 == m
                &&& p.1 == (ProgressView::Go {
                    errand: ErrandView::Numbering,
                    chore: ChoreView::TakeNumber,
                })
            } else {
                &&& p.1 matches ProgressView::Finished(Err(_))
                &&& p.0 == (ManagerView { lifecycle: LifecycleView::Free, ..m })
            }
        }),
{
}

/// A new conversation gets a directory of its own name below the workspace, a detached worktree
/// in it, and a process in that worktree that starts a session of its own.
pub proof fn new_conversations_get_their_worktree<R>(
    m: ManagerView<R>,
    number: u64,
    id: Seq<char>,
    cwd: String,
    end: ToolEnd,
    now_ms: u64,
)
    requires
        git_outcome(end) is Ok,
    ensures
        pursued(ErrandView::Numbering, m, ChoreEnd::Numbered(number), now_ms) == (
            m,
            ProgressView::Go {
                errand: ErrandView::MakingDirectory {
                    id: "cc-"@ + decimal_text(now_ms as nat) + "-"@ + decimal_text(number as nat),
                },
                chore: ChoreView::MakeDirectory {
                    root: m.workspace_root,
                    steps: seq![
                        "agents"@,
                        "cc-"@ + decimal_text(now_ms as nat) + "-"@ + decimal_text(number as nat),
                        "conduit"@,
                    ],
                },
            },
        ),
        pursued(
            ErrandView::MakingDirectory { id },
            m,
            ChoreEnd::DirectoryMade(Ok(Some(cwd))),
            now_ms,
        ) == (
            m,
            ProgressView::Go {
                errand: ErrandView::AddingWorktree { id, cwd: cwd@ },
                chore: ChoreView::Git {
                    root: m.workspace_root,
                    in_repository: true,
                    args: git_line(seq!["worktree"@, "add"@, "--detach"@, cwd@, "HEAD"@]),
                },
            },
        ),
        pursued(ErrandView::AddingWorktree { id, cwd: cwd@ }, m, ChoreEnd::Ran(end), now_ms) == (
            m,
            ProgressView::Go {
                errand: ErrandView::Starting { id, cwd: cwd@ },
                chore: ChoreView::Start { cwd: cwd@, args: conversation_arguments(None) },
            },
        ),
{
}

/// The preparation clones the repository where it is not there, and checks its origin in any
/// case; a chore that fails ends it.
pub proof fn preparation_clones_once<R>(
    m: ManagerView<R>,
    version: Seq<char>,
    there: bool,
    end: ToolEnd,
    now_ms: u64,
)
    ensures
        ({
            let p = pursued(
                ErrandView::Preparing { stage: Preparation::FindingRepository, version },
                m,
                ChoreEnd::RepositoryFound(there),
                now_ms,
            );
            &&& p.0 == m
            &&& p.1 matches ProgressView::Go { errand, chore } && {
                &&& errand == (ErrandView::Preparing {
                    stage: if there {
                        Preparation::CheckingOrigin
                    } else {
                        Preparation::Cloning
                    },
                    version,
                })
                &&& chore == (ChoreView::Git {
                    root: m.workspace_root,
                    in_repository: there,
                    args: git_line(
                        if there {
                            seq!["remote"@, "get-url"@, "origin"@]
                        } else {
                            seq![
                                "clone"@,
                                "--"@,
                                "https://github.com/cogwheel0/conduit.git"@,
                                "conduit"@,
                            ]
                        },
                    ),
                })
            }
        }),
        ({
            let p = pursued(
                ErrandView::Preparing { stage: Preparation::Cloning, version },
                m,
                ChoreEnd::Ran(end),
                now_ms,
            );
            if git_outcome(end) is Ok {
                p.1 matches ProgressView::Go { errand, chore } && errand
                    == (ErrandView::Preparing { stage: Preparation::CheckingOrigin, version })
            } else {
                p.1 matches ProgressView::Finished(Err(_))
            }
        }),
        m.closed ==> (preparation_begun(m).1 matches ProgressView::Finished(Err(_))),
        !m.closed ==> preparation_begun(m) == (
            m,
            ProgressView::Go { errand: ErrandView::AskingVersion, chore: ChoreView::AskVersion },
        ),
{
}

/// Conversations are numbered from one on; the numbers start again behind the last one that 64
/// bits hold.
pub proof fn conversations_are_numbered_from_one(count: nat)
    ensures
        number_at(count) == (count + 1) % 0x1_0000_0000_0000_0000,
    decreases count,
{
    if count > 0 {
        conversations_are_numbered_from_one((count - 1) as nat);
    }
}

/// A request to a conversation that was answered has that answer; one that was not has none.
pub proof fn answers_of_conversations_are_passed_on(v: crate::json::Json, why: String)
    ensures
        request_outcome(RequestEnd::Answered(Ok(v))) == Ok::<JsonView, Seq<char>>(v@),
        request_outcome(RequestEnd::Answered(Err(why))) == Err::<JsonView, Seq<char>>(why@),
        request_outcome(RequestEnd::Unsent) is Err,
        request_outcome(RequestEnd::TimedOut) is Err,
        request_outcome(RequestEnd::Dropped) is Err,
{
}

/// Each method about conversations has its name; the two that need no parameters take none.
pub proof fn conversation_methods_have_their_names(params: JsonView)
    ensures
        method_named("cc.status"@) == Some(AgentMethod::Status),
        method_named("cc.prepare"@) == Some(AgentMethod::Prepare),
        method_named("cc.create"@) == Some(AgentMethod::Create),
        method_named("cc.get"@) == Some(AgentMethod::Get),
        method_named("cc.send"@) == Some(AgentMethod::Send),
        method_named("cc.permission"@) == Some(AgentMethod::Permission),
        method_named("cc.interrupt"@) == Some(AgentMethod::Interrupt),
        method_named("cc.stop"@) == Some(AgentMethod::Stop),
        method_named("cc.restart"@) == Some(AgentMethod::Restart),
        routed("cc.status"@, params) is Ok <==> params == JsonView::Object(Seq::empty()),
        routed("cc.prepare"@, params) is Ok <==> params == JsonView::Object(Seq::empty()),
        routed("cc.create"@, params) is Ok,
        routed("cc.get"@, params) is Ok,
        routed("cc.send"@, params) is Ok,
        routed("cc.permission"@, params) is Ok,
        routed("cc.interrupt"@, params) is Ok,
        routed("cc.stop"@, params) is Ok,
        routed("cc.restart"@, params) is Ok,
{
    reveal_strlit("cc.status");
    reveal_strlit("cc.prepare");
    reveal_strlit("cc.create");
    reveal_strlit("cc.get");
    reveal_strlit("cc.send");
    reveal_strlit("cc.permission");
    reveal_strlit("cc.interrupt");
    reveal_strlit("cc.stop");
    reveal_strlit("cc.restart");
    assert("cc.status"@.len() == 9);
    assert("cc.prepare"@.len() == 10);
    assert("cc.create"@.len() == 9);
    assert("cc.get"@.len() == 6);
    assert("cc.send"@.len() == 7);
    assert("cc.permission"@.len() == 13);
    assert("cc.interrupt"@.len() == 12);
    assert("cc.stop"@.len() == 7);
    assert("cc.restart"@.len() == 10);
    assert("cc.status"@[3] != "cc.create"@[3]);
    assert("cc.prepare"@[3] != "cc.restart"@[3]);
    assert("cc.send"@[4] != "cc.stop"@[4]);
    if let JsonView::Object(members) = params {
        if members.len() == 0 {
            assert(members =~= Seq::empty());
        }
    }
}

/// A service without conversations keeps to its configuration.
pub proof fn services_keep_to_their_configuration<R>(config: AgentConfig, root: Seq<char>)
    ensures
        ({
            let m = no_conversations::<R>(config, root);
            &&& m.program == config.program@
            &&& m.names.title == config.names.title@
            &&& m.names.tag == config.names.tag@
            &&& m.workspace_root == root
            &&& m.max_agents == config.max_agents
            &&& m.agents.len() == 0
            &&& !m.closed
            &&& m.lifecycle is Free
        }),
{
}

/// A reserved place that is given up leaves everything else as it is.
pub proof fn reserved_places_can_be_given_up<R>(m: ManagerView<R>)
    ensures
        freed(m).lifecycle is Free,
        freed(m).agents == m.agents,
        freed(m).closed == m.closed,
        freed(m).program == m.program,
        freed(m).names == m.names,
        freed(m).workspace_root == m.workspace_root,
        freed(m).max_agents == m.max_agents,
{
}

/// The workspace root is the given one, unless the host had to make it absolute; then it is what
/// the host made of it.
pub proof fn roots_are_absolute(given: Seq<char>, root: String, why: String)
    ensures
        absolute_root(given, None) == Ok::<Seq<char>, Seq<char>>(given),
        absolute_root(given, Some(Ok(root))) == Ok::<Seq<char>, Seq<char>>(root@),
        absolute_root(given, Some(Err(why))) == Err::<Seq<char>, Seq<char>>(why@),
{
}

} // verus!
