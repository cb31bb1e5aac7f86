//! The conversations of a service: how many there may be, and who may do what to them.
use std::collections::VecDeque;
use vstd::prelude::*;
use vstd::string::*;
use vstd::utf8::*;
use crate::agent::{
    event_number, info_document, record_countable, record_sound, AgentAction, AgentActionView,
    AgentInfo, AgentNames, AgentState, InfoView, NamesView, Record, RecordView,
};
use crate::config::text_views;
use crate::json::{array, models, no_fields, unsigned, Fields, Json, JsonView};
use crate::reading::result_view;
use crate::schedule::start_view;
use crate::session::{
    advanced, describe_start_failure, finished, not_started, session_sound,
    start_failure, started, stepped, Answer, Session, SessionInput, SessionStep, SessionView,
};
use crate::table::{
    a_placed_value_is_found, ascending, contents, contents_are_found, contents_are_placed,
    entries_are_found, found, placed, stands_at, text_before, TextMap,
};
use crate::text::{blank, is_blank, same_text};
use crate::tools::{agent_arguments, conversation_arguments, CONDUIT_REPOSITORY};

verus! {

/// The most conversations that are remembered.
pub const RECORD_LIMIT: usize = 128;

/// The most processes that can be asked for.
pub const AGENT_LIMIT: usize = 64;

/// The longest name of a conversation.
pub const LABEL_LIMIT: usize = 80;

/// The largest prompt in bytes.
pub const PROMPT_LIMIT: usize = 32_768;

/// Where conversations run, and how many.
#[derive(Debug, Clone, PartialEq, Eq)]
pub struct AgentConfig {
    /// The program that serves conversations.
    pub program: String,
    pub names: AgentNames,
    pub workspace_root: String,
    pub max_agents: usize,
}

/// What is being done to the set of conversations.
pub enum Lifecycle {
    Free,
    /// A conversation is being created under this name.
    Creating { label: String },
    /// This conversation gets another process.
    Restarting { id: String },
}

pub enum LifecycleView {
    Free,
    Creating { label: Seq<char> },
    Restarting { id: Seq<char> },
}

impl View for Lifecycle {
    type V = LifecycleView;

    open spec fn view(&self) -> LifecycleView {
        match *self {
            Lifecycle::Free => LifecycleView::Free,
            Lifecycle::Creating { label } => LifecycleView::Creating { label: label@ },
            Lifecycle::Restarting { id } => LifecycleView::Restarting { id: id@ },
        }
    }
}

/// All conversations. `R` is what a command is answered through.
pub struct AgentManager<R> {
    config: AgentConfig,
    registry: TextMap<Session<R>>,
    closed: bool,
    lifecycle: Lifecycle,
}

/// The content of an [`AgentManager`].
pub struct ManagerView<R> {
    pub program: Seq<char>,
    pub names: NamesView,
    /// The directory that all work is done below.
    pub workspace_root: Seq<char>,
    pub max_agents: usize,
    /// The conversations by identifier.
    pub agents: Seq<(Seq<char>, SessionView<R>)>,
    pub closed: bool,
    pub lifecycle: LifecycleView,
}

impl<R> View for AgentManager<R> {
    type V = ManagerView<R>;

    closed spec fn view(&self) -> ManagerView<R> {
        ManagerView {
            program: self.config.program@,
            names: self.config.names@,
            workspace_root: self.config.workspace_root@,
            max_agents: self.config.max_agents,
            agents: contents(self.registry@),
            closed: self.closed,
            lifecycle: self.lifecycle@,
        }
    }
}

/// Whether a session has a process.
pub open spec fn runs<R>(s: SessionView<R>) -> bool {
    s.record.info.state.is_running()
}

/// How many sessions have a process.
pub open spec fn running<R>(agents: Seq<(Seq<char>, SessionView<R>)>) -> nat
    decreases agents.len(),
{
    if agents.len() == 0 {
        0
    } else {
        running(agents.drop_last()) + if runs(agents.last().1) {
            1nat
        } else {
            0
        }
    }
}

/// What holds of all conversations together: they are few, each is sound and stands under
/// its own identifier, and with a process that is being started there are no more processes
/// than allowed.
pub open spec fn manager_sound<R>(m: ManagerView<R>) -> bool {
    &&& 1 <= m.max_agents <= AGENT_LIMIT
    &&& ascending(m.agents)
    &&& m.agents.len() <= RECORD_LIMIT
    &&& forall|i: int|
        0 <= i < m.agents.len() ==> session_sound((#[trigger] m.agents[i]).1)
            && m.agents[i].1.record.info.id == m.agents[i].0
    &&& match m.lifecycle {
        LifecycleView::Free => running(m.agents) <= m.max_agents,
        LifecycleView::Creating { label } => running(m.agents) < m.max_agents && m.agents.len()
            < RECORD_LIMIT,
        LifecycleView::Restarting { id } => running(m.agents) < m.max_agents && (found(
            m.agents,
            id,
        ) matches Some(s) && s.stage is Ended),
    }
}

proof fn lemma_running_update<R>(
    agents: Seq<(Seq<char>, SessionView<R>)>,
    i: int,
    s: SessionView<R>,
)
    requires
        0 <= i < agents.len(),
    ensures
        running(agents.update(i, (agents[i].0, s))) + (if runs(agents[i].1) {
            1nat
        } else {
            0
        }) == running(agents) + (if runs(s) {
            1nat
        } else {
            0
        }),
    decreases agents.len(),
{
    let after = agents.update(i, (agents[i].0, s));
    if i == agents.len() - 1 {
        assert(after.drop_last() =~= agents.drop_last());
    } else {
        lemma_running_update(agents.drop_last(), i, s);
        assert(after.drop_last() =~= agents.drop_last().update(i, (agents[i].0, s)));
        assert(agents.drop_last()[i] == agents[i]);
    }
}

proof fn lemma_running_placed<R>(
    agents: Seq<(Seq<char>, SessionView<R>)>,
    id: Seq<char>,
    s: SessionView<R>,
)
    ensures
        running(placed(agents, id, s)) <= running(agents) + 1,
    decreases agents.len(),
{
    let after = placed(agents, id, s);
    if agents.len() == 0 {
        assert(after.drop_last() =~= agents);
    } else if agents.last().0 == id {
        assert(after.drop_last() =~= agents.drop_last());
    } else if text_before(agents.last().0, id) {
        assert(after.drop_last() =~= agents);
    } else {
        lemma_running_placed(agents.drop_last(), id, s);
        assert(after.drop_last() =~= placed(agents.drop_last(), id, s));
    }
}

/// What to do for a method.
#[derive(Debug, Clone, Copy, PartialEq, Eq, Structural)]
pub enum AgentMethod {
    Status,
    Prepare,
    Create,
    Get,
    Send,
    Permission,
    Interrupt,
    Stop,
    Restart,
}

/// The method that a name stands for.
pub open spec fn method_named(name: Seq<char>) -> Option<AgentMethod> {
    if name == "cc.status"@ {
        Some(AgentMethod::Status)
    } else if name == "cc.prepare"@ {
        Some(AgentMethod::Prepare)
    } else if name == "cc.create"@ {
        Some(AgentMethod::Create)
    } else if name == "cc.get"@ {
        Some(AgentMethod::Get)
    } else if name == "cc.send"@ {
        Some(AgentMethod::Send)
    } else if name == "cc.permission"@ {
        Some(AgentMethod::Permission)
    } else if name == "cc.interrupt"@ {
        Some(AgentMethod::Interrupt)
    } else if name == "cc.stop"@ {
        Some(AgentMethod::Stop)
    } else if name == "cc.restart"@ {
        Some(AgentMethod::Restart)
    } else {
        None
    }
}

fn method_of(name: &str) -> (method: Option<AgentMethod>)
    ensures
        method == method_named(name@),
{
    if same_text(name, "cc.status") {
        Some(AgentMethod::Status)
    } else if same_text(name, "cc.prepare") {
        Some(AgentMethod::Prepare)
    } else if same_text(name, "cc.create") {
        Some(AgentMethod::Create)
    } else if same_text(name, "cc.get") {
        Some(AgentMethod::Get)
    } else if same_text(name, "cc.send") {
        Some(AgentMethod::Send)
    } else if same_text(name, "cc.permission") {
        Some(AgentMethod::Permission)
    } else if same_text(name, "cc.interrupt") {
        Some(AgentMethod::Interrupt)
    } else if same_text(name, "cc.stop") {
        Some(AgentMethod::Stop)
    } else if same_text(name, "cc.restart") {
        Some(AgentMethod::Restart)
    } else {
        None
    }
}

/// The method to carry out, or why there is none.
pub open spec fn routed(name: Seq<char>, params: JsonView) -> Result<AgentMethod, Seq<char>> {
    match method_named(name) {
        None => Err("未知 CC 方法"@),
        Some(method) => if (method == AgentMethod::Status || method == AgentMethod::Prepare)
            && !(params matches JsonView::Object(members) && members.len() == 0) {
            Err("此方法不接受参数"@)
        } else {
            Ok(method)
        },
    }
}

/// Whether a prompt can be sent.
pub open spec fn sendable(prompt: Seq<char>) -> bool {
    !blank(prompt) && encode_utf8(prompt).len() <= PROMPT_LIMIT
}

/// Accepts a prompt that says something and is not too large.
pub fn check_prompt(prompt: &str) -> (verdict: Result<(), String>)
    ensures
        match verdict {
            Ok(()) => sendable(prompt@),
            Err(why) => !sendable(prompt@) && why@ == "提示词不能为空且不能超过 32 KiB"@,
        },
{
    if is_blank(prompt) || prompt.as_bytes().len() > PROMPT_LIMIT {
        return Err("提示词不能为空且不能超过 32 KiB".to_owned());
    }
    Ok(())
}

/// Why a demand on a conversation is refused before it is passed on.
pub open spec fn demand_obstacle<R>(
    m: ManagerView<R>,
    id: Seq<char>,
    action: AgentActionView,
) -> Option<Seq<char>> {
    if action matches AgentActionView::Send(prompt) && !sendable(prompt) {
        Some("提示词不能为空且不能超过 32 KiB"@)
    } else if found(m.agents, id) is None {
        Some("未找到此 Agent"@)
    } else {
        None
    }
}

/// The workspace root as an absolute one: the given one, or what the host made of it.
pub open spec fn absolute_root(
    given: Seq<char>,
    anchored: Option<Result<String, String>>,
) -> Result<Seq<char>, Seq<char>> {
    match anchored {
        None => Ok(given),
        Some(Ok(root)) => Ok(root@),
        Some(Err(why)) => Err(why@),
    }
}

/// A service without conversations, which works below `root`.
pub open spec fn no_conversations<R>(config: AgentConfig, root: Seq<char>) -> ManagerView<R> {
    ManagerView {
        program: config.program@,
        names: config.names@,
        workspace_root: root,
        max_agents: config.max_agents,
        agents: Seq::empty(),
        closed: false,
        lifecycle: LifecycleView::Free,
    }
}

/// Why no conversation can be created.
pub open spec fn creation_obstacle<R>(m: ManagerView<R>, label: Seq<char>) -> Option<Seq<char>> {
    if label.len() > LABEL_LIMIT {
        Some("名称不能超过 80 字符"@)
    } else if m.closed {
        Some("服务正在关闭"@)
    } else if running(m.agents) >= m.max_agents {
        Some("已达到 CC 进程上限，请先停止一个 Agent"@)
    } else if m.agents.len() >= RECORD_LIMIT {
        Some("本次服务最多保留 128 个 Agent 记录，请重启服务后再创建"@)
    } else {
        None
    }
}

/// The record of a new conversation.
pub open spec fn new_record(
    id: Seq<char>,
    label: Seq<char>,
    cwd: Seq<char>,
    now_ms: u64,
) -> RecordView {
    RecordView {
        info: InfoView {
            id,
            label: if blank(label) {
                id
            } else {
                label
            },
            generation: 1,
            pid: None,
            cwd,
            session_id: None,
            state: AgentState::Starting,
            started_at_ms: now_ms,
            completed_turns: 0,
            failed_turns: 0,
            last_error: None,
            pending: Seq::empty(),
        },
        events: Seq::empty(),
        sequence: 0,
    }
}

/// The service with its reserved place given up.
pub open spec fn freed<R>(m: ManagerView<R>) -> ManagerView<R> {
    ManagerView { lifecycle: LifecycleView::Free, ..m }
}

/// The service after the first process of the conversation `id` has been started or has not,
/// and what is answered. A conversation whose process does not start is not remembered.
pub open spec fn creation<R>(
    m: ManagerView<R>,
    id: Seq<char>,
    cwd: Seq<char>,
    result: Result<Option<u32>, Seq<char>>,
    now_ms: u64,
) -> (ManagerView<R>, Result<JsonView, Seq<char>>) {
    match result {
        Ok(pid) => {
            let s = started::<R>(
                new_record(id, m.lifecycle->label, cwd, now_ms),
                pid,
                m.names.title,
                now_ms,
            );
            (changed(freed(m), id, s), Ok(info_document(s.record.info)))
        },
        Err(why) => (freed(m), Err(start_failure(m.names.title, why, cwd))),
    }
}

/// Why a conversation without a process does not get another one.
pub open spec fn restart_obstacle<R>(m: ManagerView<R>) -> Option<Seq<char>> {
    if running(m.agents) >= m.max_agents {
        Some("已达到 CC 进程上限"@)
    } else {
        None
    }
}

/// The service while the conversation `id` gets another process, which is already counted.
pub open spec fn restarting<R>(m: ManagerView<R>, id: Seq<char>) -> ManagerView<R> {
    changed(
        (ManagerView { lifecycle: LifecycleView::Restarting { id }, ..m }),
        id,
        advanced(found(m.agents, id)->0),
    )
}

/// The service after another process of the conversation has been started or has not, and
/// what is answered.
pub open spec fn restart_result<R>(
    m: ManagerView<R>,
    result: Result<Option<u32>, Seq<char>>,
    now_ms: u64,
) -> (ManagerView<R>, Result<JsonView, Seq<char>>) {
    let id = m.lifecycle->id;
    let s = found(m.agents, id)->0;
    match result {
        Ok(pid) => {
            let after = started::<R>(s.record, pid, m.names.title, now_ms);
            (changed(freed(m), id, after), Ok(info_document(after.record.info)))
        },
        Err(why) => (
            changed(
                freed(m),
                id,
                (SessionView { record: not_started(s.record, m.names.title, why), ..s }),
            ),
            Err(start_failure(m.names.title, why, s.record.info.cwd)),
        ),
    }
}

/// Why a conversation cannot be stopped or restarted.
pub open spec fn target_obstacle<R>(m: ManagerView<R>, id: Seq<char>, generation: u64) -> Option<
    Seq<char>,
> {
    if m.closed {
        Some("服务正在关闭"@)
    } else {
        match found(m.agents, id) {
            None => Some("未找到此 Agent"@),
            Some(s) => if s.record.info.generation != generation {
                Some("进程已更换，请刷新后操作"@)
            } else {
                None
            },
        }
    }
}

/// The events after number `after`.
pub open spec fn later_events(events: Seq<JsonView>, after: u64) -> Seq<JsonView> {
    events.filter(|e: JsonView| event_number(e) > after)
}

/// Whether events after number `after` have been dropped.
pub open spec fn events_missing(events: Seq<JsonView>, after: u64) -> bool {
    events.len() > 0 && after < u64::MAX && after + 1 < event_number(events[0])
}

/// What a user sees of one conversation.
pub open spec fn conversation_document(r: RecordView, after: u64) -> JsonView {
    JsonView::Object(
        no_fields().push(("agent"@, info_document(r.info))).push(
            ("cursor"@, unsigned(r.sequence as nat)),
        ).push(("events"@, JsonView::Array(later_events(r.events, after)))).push(
            ("truncated"@, JsonView::Bool(events_missing(r.events, after))),
        ),
    )
}

/// The documents about all conversations.
pub open spec fn overview<R>(agents: Seq<(Seq<char>, SessionView<R>)>) -> Seq<JsonView> {
    agents.map_values(|e: (Seq<char>, SessionView<R>)| info_document(e.1.record.info))
}

/// What a user sees of the service.
pub open spec fn status_document<R>(
    m: ManagerView<R>,
    repository_path: Seq<char>,
    repository_ready: bool,
    version: Option<Seq<char>>,
) -> JsonView {
    let first = no_fields().push(("agents"@, JsonView::Array(overview(m.agents)))).push(
        (m.names.tag + "_program"@, JsonView::Text(m.program)),
    );
    let second = match version {
        Some(v) => first.push((m.names.tag + "_version"@, JsonView::Text(v))),
        None => first,
    };
    JsonView::Object(
        second.push(("enabled"@, JsonView::Bool(true))).push(
            ("max_agents"@, unsigned(m.max_agents as nat)),
        ).push(("repository"@, JsonView::Text(CONDUIT_REPOSITORY@))).push(
            ("repository_path"@, JsonView::Text(repository_path)),
        ).push(("repository_ready"@, JsonView::Bool(repository_ready))),
    )
}

/// A process that is to be stopped.
pub struct Target {
    pub id: String,
    pub generation: u64,
}

/// The processes to stop, by identifier.
pub open spec fn stop_list<R>(agents: Seq<(Seq<char>, SessionView<R>)>) -> Seq<(Seq<char>, u64)>
    decreases agents.len(),
{
    if agents.len() == 0 {
        Seq::empty()
    } else {
        let rest = stop_list(agents.drop_last());
        let last = agents.last();
        if runs(last.1) {
            rest.push((last.0, last.1.record.info.generation))
        } else {
            rest
        }
    }
}

pub open spec fn targets(list: Seq<Target>) -> Seq<(Seq<char>, u64)> {
    list.map_values(|t: Target| (t.id@, t.generation))
}

/// The documents of events after number `after`.
fn events_after(events: &VecDeque<Json>, after: u64) -> (items: Vec<Json>)
    ensures
        models(items@) == later_events(models(events@), after),
{
    let mut items: Vec<Json> = Vec::new();
    let ghost all = models(events@);
    let ghost keep = |e: JsonView| event_number(e) > after;
    let mut i: usize = 0;
    assert(all.take(0) =~= Seq::<JsonView>::empty());
    assert(all.take(0).filter(keep) =~= Seq::<JsonView>::empty()) by {
        reveal(Seq::filter);
    }
    assert(models(items@) =~= all.take(0).filter(keep));
    while i < events.len()
        invariant
            i <= events@.len(),
            all == models(events@),
            keep == (|e: JsonView| event_number(e) > after),
            models(items@) == all.take(i as int).filter(keep),
        decreases events@.len() - i,
    {
        let event = &events[i];
        let ghost before = items@;
        let number: u64 = match event.get("id") {
            Some(v) => match v.as_u64() {
                Some(n) => n,
                None => 0,
            },
            None => 0,
        };
        assert(event@ == all[i as int]);
        assert(number == event_number(event@));
        proof {
            let next = all.take(i + 1);
            assert(next.drop_last() =~= all.take(i as int));
            assert(next.last() == all[i as int]);
            reveal(Seq::filter);
        }
        if number > after {
            let copy = event.clone();
            items.push(copy);
            assert(models(items@) =~= models(before).push(event@));
        }
        i = i + 1;
    }
    assert(all.take(i as int) =~= all);
    items
}

impl<R> AgentManager<R> {
    pub closed spec fn ordered(&self) -> bool {
        &&& self.registry.well_formed()
        &&& forall|i: int| 0 <= i < self.registry@.len() ==> (#[trigger] self.registry@[i]).1.ordered()
    }

    /// What every operation keeps up.
    pub open spec fn well_formed(&self) -> bool {
        self.ordered() && manager_sound(self@)
    }

    /// No conversations yet, and room for `max_agents` processes. The workspace root is taken
    /// as it is.
    pub fn new(config: AgentConfig) -> (manager: Result<AgentManager<R>, String>)
        ensures
            match manager {
                Ok(manager) => 1 <= config.max_agents <= AGENT_LIMIT && manager.well_formed()
                    && manager@ == no_conversations::<R>(config, config.workspace_root@),
                Err(why) => !(1 <= config.max_agents <= AGENT_LIMIT) && why@
                    == "max-cc-agents 必须为 1–64"@,
            },
    {
        if config.max_agents < 1 || config.max_agents > AGENT_LIMIT {
            return Err("max-cc-agents 必须为 1–64".to_owned());
        }
        let manager = AgentManager {
            config,
            registry: TextMap::new(),
            closed: false,
            lifecycle: Lifecycle::Free,
        };
        assert(manager@.agents =~= Seq::<(Seq<char>, SessionView<R>)>::empty());
        Ok(manager)
    }

    /// No conversations yet, below a root that is made absolute. `anchored` is what the host
    /// makes of a relative root: the root below the current directory, or why that directory
    /// is not known. For an absolute root it is `None`.
    pub fn open(config: AgentConfig, anchored: Option<Result<String, String>>) -> (manager: Result<
        AgentManager<R>,
        String,
    >)
        ensures
            match manager {
                Ok(manager) => {
                    &&& 1 <= config.max_agents <= AGENT_LIMIT
                    &&& manager.well_formed()
                    &&& absolute_root(config.workspace_root@, anchored) matches Ok(root)
                        && manager@ == no_conversations::<R>(config, root)
                },
                Err(why) => if 1 <= config.max_agents <= AGENT_LIMIT {
                    absolute_root(config.workspace_root@, anchored) == Err::<Seq<char>, Seq<char>>(
                        why@,
                    )
                } else {
                    why@ == "max-cc-agents 必须为 1–64"@
                },
            },
    {
        match AgentManager::new(config) {
            Err(why) => Err(why),
            Ok(manager) => match anchored {
                None => Ok(manager),
                Some(Err(why)) => Err(why),
                Some(Ok(root)) => {
                    let mut rooted = manager;
                    rooted.config.workspace_root = root;
                    Ok(rooted)
                },
            },
        }
    }

    /// The directory that all work is done below.
    pub fn workspace_root(&self) -> (root: &str)
        ensures
            root@ == self@.workspace_root,
    {
        self.config.workspace_root.as_str()
    }

    /// What is being done to the set of conversations.
    pub(crate) fn lifecycle(&self) -> (lifecycle: &Lifecycle)
        ensures
            lifecycle@ == self@.lifecycle,
    {
        &self.lifecycle
    }

    /// Whether no conversation is being created or restarted.
    pub fn is_free(&self) -> (yes: bool)
        ensures
            yes == (self@.lifecycle is Free),
    {
        matches!(self.lifecycle, Lifecycle::Free)
    }

    /// Accepts what a user asks of a conversation: a prompt has to be one that can be sent, and
    /// the conversation has to be there.
    pub fn accept(&self, id: &str, action: AgentAction) -> (verdict: Result<AgentAction, String>)
        requires
            self.well_formed(),
        ensures
            match verdict {
                Ok(accepted) => accepted == action && demand_obstacle(self@, id@, action@) is None,
                Err(why) => demand_obstacle(self@, id@, action@) == Some(why@),
            },
    {
        if let AgentAction::Send(prompt) = &action {
            if let Err(why) = check_prompt(prompt.as_str()) {
                return Err(why);
            }
        }
        match self.handle(id) {
            Err(why) => Err(why),
            Ok(()) => Ok(action),
        }
    }

    /// The method that a request asks for.
    pub fn rpc(&self, name: &str, params: &Json) -> (method: Result<AgentMethod, String>)
        ensures
            match method {
                Ok(method) => routed(name@, params@) == Ok::<AgentMethod, Seq<char>>(method),
                Err(why) => routed(name@, params@) == Err::<AgentMethod, Seq<char>>(why@),
            },
    {
        match method_of(name) {
            None => Err("未知 CC 方法".to_owned()),
            Some(method) => {
                if method == AgentMethod::Status || method == AgentMethod::Prepare {
                    let empty: bool = match params {
                        Json::Object(members) => members.len() == 0,
                        _ => false,
                    };
                    if !empty {
                        return Err("此方法不接受参数".to_owned());
                    }
                }
                Ok(method)
            },
        }
    }

    /// How many conversations have a process.
    pub fn running_count(&self) -> (n: usize)
        requires
            self.ordered(),
        ensures
            n == running(self@.agents),
    {
        let mut n: usize = 0;
        let mut i: usize = 0;
        assert(self@.agents.take(0) =~= Seq::<(Seq<char>, SessionView<R>)>::empty());
        while i < self.registry.len()
            invariant
                i <= self.registry@.len(),
                self@.agents.len() == self.registry@.len(),
                n <= i,
                n == running(self@.agents.take(i as int)),
            decreases self.registry@.len() - i,
        {
            let session = self.registry.value_at(i);
            proof {
                let next = self@.agents.take(i + 1);
                assert(next.drop_last() =~= self@.agents.take(i as int));
                assert(next.last() == self@.agents[i as int]);
            }
            if session.record().info.state.running() {
                n = n + 1;
            }
            i = i + 1;
        }
        assert(self@.agents.take(i as int) =~= self@.agents);
        n
    }

    /// Decides whether a conversation can be created, and reserves its place.
    pub(crate) fn reserve(&mut self, label: String) -> (verdict: Result<(), String>)
        requires
            old(self).well_formed(),
            old(self)@.lifecycle is Free,
        ensures
            final(self).well_formed(),
            match verdict {
                Ok(()) => creation_obstacle(old(self)@, label@) is None && final(self)@
                    == (ManagerView {
                    lifecycle: LifecycleView::Creating { label: label@ },
                    ..old(self)@
                }),
                Err(why) => creation_obstacle(old(self)@, label@) == Some(why@) && final(self)@
                    == old(self)@,
            },
    {
        if label.as_str().unicode_len() > LABEL_LIMIT {
            return Err("名称不能超过 80 字符".to_owned());
        }
        if self.closed {
            return Err("服务正在关闭".to_owned());
        }
        if self.running_count() >= self.config.max_agents {
            return Err("已达到 CC 进程上限，请先停止一个 Agent".to_owned());
        }
        if self.registry.len() >= RECORD_LIMIT {
            return Err("本次服务最多保留 128 个 Agent 记录，请重启服务后再创建".to_owned());
        }
        self.lifecycle = Lifecycle::Creating { label };
        Ok(())
    }

    /// Gives a reserved place up: for an errand that is not pursued to its end.
    pub fn abandon(&mut self)
        requires
            old(self).well_formed(),
        ensures
            final(self).well_formed(),
            final(self)@ == freed(old(self)@),
    {
        self.lifecycle = Lifecycle::Free;
    }

    /// Takes the result of starting the first process of the conversation being created. A
    /// conversation whose process does not start is not remembered.
    pub(crate) fn created(
        &mut self,
        id: String,
        cwd: String,
        result: Result<Option<u32>, String>,
        now_ms: u64,
    ) -> (outcome: Result<Json, String>)
        requires
            old(self).well_formed(),
            old(self)@.lifecycle is Creating,
        ensures
            final(self).well_formed(),
            (final(self)@, result_view(outcome)) == creation(
                old(self)@,
                id@,
                cwd@,
                start_view(result),
                now_ms,
            ),
    {
        let mut lifecycle = Lifecycle::Free;
        std::mem::swap(&mut lifecycle, &mut self.lifecycle);
        let pid = match result {
            Ok(pid) => pid,
            Err(why) => {
                return Err(describe_start_failure(
                    self.config.names.title.as_str(),
                    why.as_str(),
                    cwd.as_str(),
                ));
            },
        };
        let label = match lifecycle {
            Lifecycle::Creating { label } => label,
            _ => id.clone(),
        };
        let shown = if is_blank(label.as_str()) {
            id.clone()
        } else {
            label
        };
        let record = Record {
            info: AgentInfo {
                id: id.clone(),
                label: shown,
                generation: 1,
                pid: None,
                cwd,
                session_id: None,
                state: AgentState::Starting,
                started_at_ms: now_ms,
                completed_turns: 0,
                failed_turns: 0,
                last_error: None,
                pending_permissions: TextMap::new(),
            },
            events: VecDeque::new(),
            sequence: 0,
        };
        assert(record@.events =~= Seq::<JsonView>::empty());
        assert(record@.info.pending =~= Seq::<(Seq<char>, JsonView)>::empty());
        let session = Session::start(record, pid, self.config.names.title.as_str(), now_ms);
        let snapshot = session.record().snapshot();
        let ghost before = self@.agents;
        let ghost entries = self.registry@;
        proof {
            contents_are_placed(entries, id@, session);
            lemma_running_placed(before, id@, session@);
            a_placed_value_is_found(before, id@, session@, id@);
            lemma_placed_entries(before, id@, session@);
            lemma_placed_entries(entries, id@, session);
        }
        self.registry.insert(id, session);
        proof {
            assert forall|i: int| 0 <= i < self.registry@.len() implies (
            #[trigger] self.registry@[i]).1.ordered() by {
                if self.registry@[i] != (id@, session) {
                    assert(entries.contains(self.registry@[i]));
                }
            }
            assert forall|i: int| 0 <= i < self@.agents.len() implies session_sound(
                (#[trigger] self@.agents[i]).1,
            ) && self@.agents[i].1.record.info.id == self@.agents[i].0 by {
                if self@.agents[i] != (id@, session@) {
                    assert(before.contains(self@.agents[i]));
                }
            }
        }
        Ok(snapshot)
    }

    /// Whether a conversation can be stopped or restarted, and whether it has a process.
    pub(crate) fn target(&self, id: &str, generation: u64) -> (verdict: Result<bool, String>)
        requires
            self.well_formed(),
        ensures
            match verdict {
                Ok(alive) => target_obstacle(self@, id@, generation) is None && (found(
                    self@.agents,
                    id@,
                ) matches Some(s) && alive == runs(s)),
                Err(why) => target_obstacle(self@, id@, generation) == Some(why@),
            },
    {
        if self.closed {
            return Err("服务正在关闭".to_owned());
        }
        proof {
            contents_are_found(self.registry@, id@);
        }
        match self.registry.get(id) {
            None => Err("未找到此 Agent".to_owned()),
            Some(session) => {
                let info = &session.record().info;
                if info.generation != generation {
                    return Err("进程已更换，请刷新后操作".to_owned());
                }
                Ok(info.state.running())
            },
        }
    }

    /// Accepts the identifier of a conversation.
    pub fn handle(&self, id: &str) -> (verdict: Result<(), String>)
        requires
            self.well_formed(),
        ensures
            match verdict {
                Ok(()) => found(self@.agents, id@) is Some,
                Err(why) => found(self@.agents, id@) is None && why@ == "未找到此 Agent"@,
            },
    {
        proof {
            contents_are_found(self.registry@, id@);
        }
        match self.registry.get(id) {
            None => Err("未找到此 Agent".to_owned()),
            Some(_) => Ok(()),
        }
    }
}

/// Placing a value leaves the entries that are not replaced.
proof fn lemma_placed_entries<V>(entries: Seq<(Seq<char>, V)>, key: Seq<char>, value: V)
    ensures
        forall|i: int|
            0 <= i < placed(entries, key, value).len() ==> #[trigger] placed(entries, key, value)[i]
                == (key, value) || entries.contains(placed(entries, key, value)[i]),
    decreases entries.len(),
{
    let after = placed(entries, key, value);
    if entries.len() > 0 {
        let head = entries.drop_last();
        lemma_placed_entries(head, key, value);
        assert forall|i: int| 0 <= i < after.len() implies #[trigger] after[i] == (key, value)
            || entries.contains(after[i]) by {
            if entries.last().0 == key {
                if i < head.len() {
                    assert(after[i] == entries[i]);
                }
            } else if text_before(entries.last().0, key) {
                if i < entries.len() {
                    assert(after[i] == entries[i]);
                }
            } else {
                let inner = placed(head, key, value);
                if i < inner.len() {
                    assert(after[i] == inner[i]);
                    if inner[i] != (key, value) {
                        let j = choose|j: int| 0 <= j < head.len() && head[j] == inner[i];
                        assert(entries[j] == inner[i]);
                    }
                } else {
                    assert(after[i] == entries[entries.len() - 1]);
                }
            }
        }
    }
}

proof fn lemma_update_keeps_order<V>(entries: Seq<(Seq<char>, V)>, i: int, value: V)
    requires
        ascending(entries),
        0 <= i < entries.len(),
    ensures
        ascending(entries.update(i, (entries[i].0, value))),
        forall|key: Seq<char>| #[trigger]
            found(entries.update(i, (entries[i].0, value)), key) == (if key == entries[i].0 {
                Some(value)
            } else {
                found(entries, key)
            }),
        entries.update(i, (entries[i].0, value)) == placed(entries, entries[i].0, value),
{
    let key = entries[i].0;
    let after = entries.update(i, (key, value));
    assert forall|a: int, b: int| 0 <= a < b < after.len() implies text_before(
        #[trigger] after[a].0,
        #[trigger] after[b].0,
    ) by {
        assert(text_before(entries[a].0, entries[b].0));
    }
    a_placed_value_is_found(entries, key, value, key);
    entries_are_found(entries, i);
    assert forall|other: Seq<char>| #[trigger]
        found(after, other) == found(placed(entries, key, value), other) by {
        a_placed_value_is_found(entries, key, value, other);
        if other == key {
            entries_are_found(after, i);
        } else {
            lemma_other_found(entries, after, other, i);
        }
    }
    crate::table::ascending_lists_are_fixed_by_their_content(
        after,
        placed(entries, key, value),
    );
    assert forall|other: Seq<char>| #[trigger]
        found(after, other) == (if other == key {
            Some(value)
        } else {
            found(entries, other)
        }) by {
        a_placed_value_is_found(entries, key, value, other);
    }
}

proof fn lemma_other_found<V>(
    a: Seq<(Seq<char>, V)>,
    b: Seq<(Seq<char>, V)>,
    key: Seq<char>,
    i: int,
)
    requires
        ascending(a),
        ascending(b),
        0 <= i < a.len(),
        b == a.update(i, b[i]),
        b[i].0 == a[i].0,
        key != a[i].0,
    ensures
        found(a, key) == found(b, key),
{
    if exists|j: int| stands_at(a, key, j) {
        let j = choose|j: int| stands_at(a, key, j);
        assert(b[j] == a[j]);
        entries_are_found(a, j);
        entries_are_found(b, j);
    } else {
        assert forall|j: int| !stands_at(b, key, j) by {
            assert(!stands_at(a, key, j));
        }
    }
}

/// The conversations with one of them changed.
pub open spec fn changed<R>(m: ManagerView<R>, id: Seq<char>, s: SessionView<R>) -> ManagerView<R> {
    ManagerView { agents: placed(m.agents, id, s), ..m }
}

/// Changing one conversation keeps all of them sound, where it does not start a process.
proof fn lemma_changed<R>(m: ManagerView<R>, i: int, s: SessionView<R>)
    requires
        manager_sound(m),
        0 <= i < m.agents.len(),
        session_sound(s),
        s.record.info.id == m.agents[i].1.record.info.id,
        runs(s) ==> runs(m.agents[i].1),
        m.agents[i].1.stage is Ended ==> s.stage is Ended,
    ensures
        manager_sound(changed(m, m.agents[i].0, s)),
        changed(m, m.agents[i].0, s).agents == m.agents.update(i, (m.agents[i].0, s)),
        found(m.agents, m.agents[i].0) == Some(m.agents[i].1),
{
    lemma_update_keeps_order(m.agents, i, s);
    lemma_running_update(m.agents, i, s);
    entries_are_found(m.agents, i);
    if let LifecycleView::Restarting { id } = m.lifecycle {
        assert(found(changed(m, m.agents[i].0, s).agents, id) is Some);
    }
}

impl<R> AgentManager<R> {
    /// Whether the conversation is there and every counter of it can still be raised.
    pub fn has_room(&self, id: &str) -> (yes: bool)
        requires
            self.well_formed(),
        ensures
            yes == (found(self@.agents, id@) matches Some(s) && record_countable(s.record)),
    {
        proof {
            contents_are_found(self.registry@, id@);
        }
        match self.registry.get(id) {
            None => false,
            Some(session) => session.record().has_room(),
        }
    }

    /// Takes what has happened to the process of a conversation.
    pub fn input(&mut self, id: &str, input: SessionInput<R>, now_ms: u64) -> (step: Option<
        SessionStep<R>,
    >)
        requires
            old(self).well_formed(),
            found(old(self)@.agents, id@) matches Some(s) ==> record_countable(s.record),
        ensures
            final(self).well_formed(),
            match (found(old(self)@.agents, id@), step) {
                (Some(s), Some(step)) => {
                    let after = stepped(s, input, old(self)@.names, now_ms);
                    &&& step@ == after.1
                    &&& final(self)@ == changed(old(self)@, id@, after.0)
                },
                (None, None) => final(self)@ == old(self)@,
                _ => false,
            },
    {
        let ghost before = self@;
        let ghost entries = self.registry@;
        proof {
            contents_are_found(self.registry@, id@);
        }
        match self.registry.index_of(id) {
            None => None,
            Some(i) => {
                proof {
                    assert(before.agents[i as int] == (id@, entries[i as int].1@));
                    assert(session_sound(before.agents[i as int].1));
                    assert(self.registry@[i as int].1.ordered());
                    crate::session::inputs_keep_the_session_sound(
                        entries[i as int].1@,
                        input,
                        before.names,
                        now_ms,
                    );
                    crate::session::conversations_keep_their_names(
                        entries[i as int].1@,
                        input,
                        before.names,
                        now_ms,
                    );
                    lemma_changed(
                        before,
                        i as int,
                        stepped(entries[i as int].1@, input, before.names, now_ms).0,
                    );
                }
                let session = self.registry.value_at_mut(i);
                let step = session.run_agent(input, &self.config.names, now_ms);
                proof {
                    assert(self.registry@ == entries.update(
                        i as int,
                        (id@, self.registry@[i as int].1),
                    ));
                    lemma_update_keeps_order(entries, i as int, self.registry@[i as int].1);
                    assert(self@.agents =~= before.agents.update(
                        i as int,
                        (id@, self.registry@[i as int].1@),
                    ));
                }
                Some(step)
            },
        }
    }
}

impl<R> AgentManager<R> {
    /// Closes the record of a conversation whose process has been ended. Where the
    /// conversation is not there, or its process is not to be ended, nothing happens.
    pub fn finish(&mut self, id: &str, now_ms: u64) -> (answer: Option<Answer<R>>)
        requires
            old(self).well_formed(),
            found(old(self)@.agents, id@) matches Some(s) ==> record_countable(s.record),
        ensures
            final(self).well_formed(),
            match found(old(self)@.agents, id@) {
                Some(s) => if s.stage is Ending {
                    &&& final(self)@ == changed(old(self)@, id@, finished(s, now_ms).0)
                    &&& finished(s, now_ms).1 == (match answer {
                        Some(a) => Some((a.reply, result_view(a.result))),
                        None => None,
                    })
                } else {
                    final(self)@ == old(self)@ && answer is None
                },
                None => final(self)@ == old(self)@ && answer is None,
            },
    {
        let ghost before = self@;
        let ghost entries = self.registry@;
        proof {
            contents_are_found(self.registry@, id@);
        }
        match self.registry.index_of(id) {
            None => None,
            Some(i) => {
                proof {
                    assert(before.agents[i as int] == (id@, entries[i as int].1@));
                    assert(session_sound(before.agents[i as int].1));
                    assert(self.registry@[i as int].1.ordered());
                }
                if !self.registry.value_at(i).is_ending() {
                    return None;
                }
                let session = self.registry.value_at_mut(i);
                let answer = session.finish(now_ms);
                proof {
                    let s = self.registry@[i as int].1;
                    assert(self.registry@ == entries.update(i as int, (id@, s)));
                    lemma_update_keeps_order(entries, i as int, s);
                    lemma_changed(before, i as int, s@);
                    assert(self@.agents =~= before.agents.update(i as int, (id@, s@)));
                }
                answer
            },
        }
    }

    /// How the program that serves conversations is called.
    pub fn names(&self) -> (names: &AgentNames)
        ensures
            names@ == self@.names,
    {
        &self.config.names
    }

    /// Where the process of a conversation is started, and with which arguments.
    pub(crate) fn launch(&self, id: &str) -> (r: (String, Vec<String>))
        requires
            self.well_formed(),
            found(self@.agents, id@) is Some,
        ensures
            found(self@.agents, id@) matches Some(s) && r.0@ == s.record.info.cwd && text_views(
                r.1@,
            ) == conversation_arguments(s.record.info.session_id),
    {
        proof {
            contents_are_found(self.registry@, id@);
        }
        match self.registry.get(id) {
            Some(session) => {
                let info = &session.record().info;
                (info.cwd.clone(), agent_arguments(&info.session_id))
            },
            None => (String::new(), Vec::new()),
        }
    }

    /// Whether the conversation is there and has no process.
    pub fn is_ended(&self, id: &str) -> (yes: bool)
        requires
            self.well_formed(),
        ensures
            yes == (found(self@.agents, id@) matches Some(s) && s.stage is Ended),
    {
        proof {
            contents_are_found(self.registry@, id@);
        }
        match self.registry.index_of(id) {
            None => false,
            Some(i) => {
                assert(self@.agents[i as int] == (id@, self.registry@[i as int].1@));
                !self.registry.value_at(i).record().info.state.running()
            },
        }
    }

    /// Decides whether a conversation without a process gets another one, reserves the place
    /// and counts the process.
    pub(crate) fn restart(&mut self, id: &str) -> (verdict: Result<(), String>)
        requires
            old(self).well_formed(),
            old(self)@.lifecycle is Free,
            found(old(self)@.agents, id@) matches Some(s) && s.stage is Ended && record_countable(
                s.record,
            ),
        ensures
            final(self).well_formed(),
            match verdict {
                Ok(()) => restart_obstacle(old(self)@) is None && final(self)@ == restarting(
                    old(self)@,
                    id@,
                ),
                Err(why) => restart_obstacle(old(self)@) == Some(why@) && final(self)@ == old(
                    self)@,
            },
    {
        if self.running_count() >= self.config.max_agents {
            return Err("已达到 CC 进程上限".to_owned());
        }
        let ghost before = self@;
        let ghost entries = self.registry@;
        proof {
            contents_are_found(self.registry@, id@);
        }
        if let Some(i) = self.registry.index_of(id) {
            proof {
                assert(before.agents[i as int] == (id@, entries[i as int].1@));
                assert(session_sound(before.agents[i as int].1));
                assert(self.registry@[i as int].1.ordered());
            }
            let session = self.registry.value_at_mut(i);
            session.advance();
            self.lifecycle = Lifecycle::Restarting { id: id.to_owned() };
            proof {
                let s = self.registry@[i as int].1;
                assert(self.registry@ == entries.update(i as int, (id@, s)));
                lemma_update_keeps_order(entries, i as int, s);
                let reserved = ManagerView {
                    lifecycle: LifecycleView::Restarting { id: id@ },
                    ..before
                };
                lemma_changed(reserved, i as int, s@);
                assert(self@.agents =~= before.agents.update(i as int, (id@, s@)));
            }
        }
        Ok(())
    }

    /// Takes the result of starting another process for the conversation being restarted.
    pub(crate) fn restarted(&mut self, result: Result<Option<u32>, String>, now_ms: u64) -> (outcome:
        Result<Json, String>)
        requires
            old(self).well_formed(),
            old(self)@.lifecycle matches LifecycleView::Restarting { id } && (found(
                old(self)@.agents,
                id,
            ) matches Some(s) ==> record_countable(s.record)),
        ensures
            final(self).well_formed(),
            (final(self)@, result_view(outcome)) == restart_result(
                old(self)@,
                start_view(result),
                now_ms,
            ),
    {
        let ghost before = self@;
        let ghost entries = self.registry@;
        let mut lifecycle = Lifecycle::Free;
        std::mem::swap(&mut lifecycle, &mut self.lifecycle);
        let id = match lifecycle {
            Lifecycle::Restarting { id } => id,
            _ => "".to_owned(),
        };
        proof {
            contents_are_found(entries, id@);
        }
        match self.registry.index_of(id.as_str()) {
            None => Err("".to_owned()),
            Some(i) => {
                proof {
                    assert(before.agents[i as int] == (id@, entries[i as int].1@));
                    assert(session_sound(before.agents[i as int].1));
                    assert(self.registry@[i as int].1.ordered());
                }
                let session = self.registry.value_at_mut(i);
                let outcome = session.restarted(result, self.config.names.title.as_str(), now_ms);
                let ghost s = self.registry@[i as int].1;
                proof {
                    assert(self.registry@ == entries.update(i as int, (id@, s)));
                    lemma_update_keeps_order(entries, i as int, s);
                    lemma_update_keeps_order(before.agents, i as int, s@);
                    lemma_running_update(before.agents, i as int, s@);
                    entries_are_found(before.agents, i as int);
                    assert(self@.agents =~= before.agents.update(i as int, (id@, s@)));
                }
                match outcome {
                    Ok(()) => Ok(self.registry.value_at(i).record().snapshot()),
                    Err(e) => Err(e),
                }
            },
        }
    }

    /// The document about a conversation.
    pub fn snapshot(&self, id: &str) -> (outcome: Result<Json, String>)
        requires
            self.well_formed(),
        ensures
            match (found(self@.agents, id@), outcome) {
                (Some(s), Ok(v)) => v@ == info_document(s.record.info),
                (None, Err(why)) => why@ == "未找到此 Agent"@,
                _ => false,
            },
    {
        proof {
            contents_are_found(self.registry@, id@);
        }
        match self.registry.get(id) {
            None => Err("未找到此 Agent".to_owned()),
            Some(session) => Ok(session.record().snapshot()),
        }
    }

    /// A conversation and its events after number `after`.
    pub fn get(&self, id: &str, after: u64) -> (outcome: Result<Json, String>)
        requires
            self.well_formed(),
        ensures
            match (found(self@.agents, id@), outcome) {
                (Some(s), Ok(v)) => v@ == conversation_document(s.record, after),
                (None, Err(why)) => why@ == "未找到此 Agent"@,
                _ => false,
            },
    {
        proof {
            contents_are_found(self.registry@, id@);
        }
        match self.registry.get(id) {
            None => Err("未找到此 Agent".to_owned()),
            Some(session) => {
                let record = session.record();
                let ghost events = record@.events;
                let oldest: u64 = if record.events.len() > 0 {
                    let first = &record.events[0];
                    assert(first@ == events[0]);
                    match first.get("id") {
                        Some(v) => match v.as_u64() {
                            Some(n) => n,
                            None => 0,
                        },
                        None => 0,
                    }
                } else {
                    0
                };
                let truncated: bool = after < u64::MAX && after + 1 < oldest;
                let items = events_after(&record.events, after);
                Ok(
                    Fields::new().with("agent", record.info.document()).with(
                        "cursor",
                        Json::unsigned(record.sequence),
                    ).with("events", array(items)).with("truncated", Json::Bool(truncated)).object(),
                )
            },
        }
    }

    fn describe(&self, repository_path: &str, repository_ready: bool, version: Option<&str>) -> (v:
        Json)
        ensures
            v@ == status_document(
                self@,
                repository_path@,
                repository_ready,
                match version {
                    Some(text) => Some(text@),
                    None => None,
                },
            ),
    {
        let mut items: Vec<Json> = Vec::new();
        let ghost all = overview(self@.agents);
        let mut i: usize = 0;
        while i < self.registry.len()
            invariant
                i <= self.registry@.len(),
                all == overview(self@.agents),
                self@.agents == contents(self.registry@),
                items@.len() == i,
                forall|j: int| 0 <= j < i ==> (#[trigger] items@[j])@ == all[j],
            decreases self.registry@.len() - i,
        {
            items.push(self.registry.value_at(i).record().snapshot());
            i = i + 1;
        }
        assert(models(items@) =~= all);
        let first = Fields::new().with("agents", array(items)).with(
            self.config.names.tag.as_str().to_owned().concat("_program").as_str(),
            Json::text(self.config.program.as_str()),
        );
        let second = match version {
            Some(text) => first.with(
                self.config.names.tag.as_str().to_owned().concat("_version").as_str(),
                Json::text(text),
            ),
            None => first,
        };
        second.with("enabled", Json::Bool(true)).with(
            "max_agents",
            Json::unsigned(self.config.max_agents as u64),
        ).with("repository", Json::text(CONDUIT_REPOSITORY)).with(
            "repository_path",
            Json::text(repository_path),
        ).with("repository_ready", Json::Bool(repository_ready)).object()
    }

    /// What a user sees of the service.
    pub fn status(&self, repository_path: &str, repository_ready: bool) -> (v: Json)
        ensures
            v@ == status_document(self@, repository_path@, repository_ready, None),
    {
        self.describe(repository_path, repository_ready, None)
    }

    /// What a user sees once the repository is prepared: the status with the version of the
    /// program that serves conversations.
    pub(crate) fn prepared(&self, repository_path: &str, repository_ready: bool, version: &str) -> (v: Json)
        ensures
            v@ == status_document(self@, repository_path@, repository_ready, Some(version@)),
    {
        self.describe(repository_path, repository_ready, Some(version))
    }

    /// Accepts work on the set of conversations unless the service is being shut down.
    pub(crate) fn check_open(&self) -> (verdict: Result<(), String>)
        ensures
            match verdict {
                Ok(()) => !self@.closed,
                Err(why) => self@.closed && why@ == "服务正在关闭"@,
            },
    {
        if self.closed {
            return Err("服务正在关闭".to_owned());
        }
        Ok(())
    }

    /// Closes the service for new processes and lists those that are to be stopped.
    pub fn shutdown(&mut self) -> (list: Vec<Target>)
        requires
            old(self).well_formed(),
        ensures
            final(self).well_formed(),
            final(self)@ == (ManagerView { closed: true, ..old(self)@ }),
            targets(list@) == stop_list(old(self)@.agents),
    {
        self.closed = true;
        let mut list: Vec<Target> = Vec::new();
        let ghost all = self@.agents;
        let mut i: usize = 0;
        assert(all.take(0) =~= Seq::<(Seq<char>, SessionView<R>)>::empty());
        assert(targets(list@) =~= Seq::<(Seq<char>, u64)>::empty());
        while i < self.registry.len()
            invariant
                i <= self.registry@.len(),
                all == contents(self.registry@),
                targets(list@) == stop_list(all.take(i as int)),
            decreases self.registry@.len() - i,
        {
            let info = &self.registry.value_at(i).record().info;
            let ghost before = list@;
            proof {
                let next = all.take(i + 1);
                assert(next.drop_last() =~= all.take(i as int));
                assert(next.last() == all[i as int]);
            }
            if info.state.running() {
                let id = self.registry.key_at(i).to_owned();
                list.push(Target { id, generation: info.generation });
                assert(targets(list@) =~= targets(before).push((id@, info.generation)));
            }
            i = i + 1;
        }
        assert(all.take(i as int) =~= all);
        list
    }
}

/// A conversation that has no process has come to its end, and the other way round.
pub proof fn a_conversation_without_process_has_ended<R>(m: ManagerView<R>, id: Seq<char>)
    requires
        manager_sound(m),
    ensures
        found(m.agents, id) matches Some(s) ==> (s.stage is Ended <==> !runs(s)),
{
    if found(m.agents, id) is Some {
        let i = choose|i: int| stands_at(m.agents, id, i);
        assert(stands_at(m.agents, id, i));
        assert(session_sound(m.agents[i].1));
    }
}

/// There are never more processes than allowed, a starting one included, and never more
/// records than are kept.
pub proof fn the_number_of_processes_is_bounded<R>(m: ManagerView<R>)
    requires
        manager_sound(m),
    ensures
        running(m.agents) <= m.max_agents <= AGENT_LIMIT,
        m.lifecycle !is Free ==> running(m.agents) + 1 <= m.max_agents,
        m.agents.len() <= RECORD_LIMIT,
{
}

/// While the service is being shut down no conversation is created, stopped or restarted.
pub proof fn a_closed_service_starts_nothing<R>(
    m: ManagerView<R>,
    label: Seq<char>,
    id: Seq<char>,
    generation: u64,
)
    requires
        m.closed,
    ensures
        creation_obstacle(m, label) is Some,
        target_obstacle(m, id, generation) is Some,
{
}

/// A user who asks for what came after the events already seen misses nothing, unless told
/// so: the events are numbered without a gap from the next one up to the cursor.
pub proof fn polling_misses_nothing(r: RecordView, after: u64)
    requires
        record_sound(r),
        after <= r.sequence,
        !events_missing(r.events, after),
    ensures
        later_events(r.events, after).len() == r.sequence - after,
        forall|i: int|
            0 <= i < later_events(r.events, after).len() ==> event_number(
                #[trigger] later_events(r.events, after)[i],
            ) == after + 1 + i,
{
    let first = r.sequence - r.events.len() + 1;
    let cut = after + 1 - first;
    if r.events.len() > 0 {
        assert(event_number(r.events[0]) == first);
    }
    lemma_later_events(r.events, after, first, cut);
}

/// A user who has seen everything is sent nothing.
pub proof fn polling_repeats_nothing(r: RecordView)
    requires
        record_sound(r),
    ensures
        later_events(r.events, r.sequence).len() == 0,
{
    let first = r.sequence - r.events.len() + 1;
    lemma_later_events(r.events, r.sequence, first, r.events.len() as int);
}

proof fn lemma_later_events(events: Seq<JsonView>, after: u64, first: int, cut: int)
    requires
        0 <= cut,
        cut == after + 1 - first,
        forall|i: int| 0 <= i < events.len() ==> event_number(#[trigger] events[i]) == first + i,
    ensures
        later_events(events, after) == (if cut <= events.len() {
            events.skip(cut)
        } else {
            Seq::empty()
        }),
    decreases events.len(),
{
    reveal(Seq::filter);
    if events.len() == 0 {
        if cut == 0 {
            assert(later_events(events, after) =~= events.skip(cut));
        }
    } else {
        let head = events.drop_last();
        assert forall|i: int| 0 <= i < head.len() implies event_number(#[trigger] head[i]) == first
            + i by {
            assert(head[i] == events[i]);
        }
        lemma_later_events(head, after, first, cut);
        let last = events.len() - 1;
        assert(event_number(events[last]) == first + last);
        if cut <= last {
            assert(head.skip(cut).push(events[last]) =~= events.skip(cut));
        } else if cut == events.len() {
            assert(events.skip(cut) =~= Seq::<JsonView>::empty());
        }
    }
}

} // verus!
