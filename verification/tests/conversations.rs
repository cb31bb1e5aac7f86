use process_pool::agent::{AgentAction, AgentNames, AgentState, EVENT_LIMIT};
use process_pool::agents::{check_prompt, AgentConfig, AgentManager, AgentMethod};
use process_pool::errands::{Chore, ChoreEnd, Errand, Progress};
use process_pool::json::{Fields, Json};
use process_pool::session::{handshake_line, SessionInput, SessionNext, SessionStep, WriteEnd};
use process_pool::tools::{
    agent_arguments, agent_directory, agent_id, base, clone_arguments, git, origin_arguments,
    request, unreadable_params, verify_repository, version, worktree_arguments, AgentNumbers,
    RequestEnd, ToolEnd, CONDUIT_REPOSITORY,
};

/// A manager, and the numbers that its host gives.
struct Manager {
    inner: AgentManager<u32>,
    numbers: AgentNumbers,
}

impl std::ops::Deref for Manager {
    type Target = AgentManager<u32>;

    fn deref(&self) -> &AgentManager<u32> {
        &self.inner
    }
}

impl std::ops::DerefMut for Manager {
    fn deref_mut(&mut self) -> &mut AgentManager<u32> {
        &mut self.inner
    }
}

fn names() -> AgentNames {
    AgentNames { title: "Helper".into(), tag: "helper".into() }
}

fn manager(max_agents: usize) -> Manager {
    let config = AgentConfig {
        program: "helper".into(),
        names: names(),
        workspace_root: "/w".into(),
        max_agents,
    };
    Manager { inner: AgentManager::new(config).ok().unwrap(), numbers: AgentNumbers::new() }
}

/// Gives a number to the conversation that is being created.
fn number(m: &mut Manager, progress: Progress, now_ms: u64) -> (Errand, Chore) {
    let (errand, chore) = go(progress);
    assert!(matches!(chore, Chore::TakeNumber));
    let taken = ChoreEnd::Numbered(m.numbers.take());
    assert!(m.is_pursuable(&errand, &taken));
    go(m.pursue(errand, taken, now_ms))
}

fn go(progress: Progress) -> (Errand, Chore) {
    match progress {
        Progress::Go { errand, chore } => (errand, chore),
        Progress::Finished(_) => panic!("expected a chore"),
    }
}

fn end(progress: Progress) -> Result<Json, String> {
    match progress {
        Progress::Go { .. } => panic!("expected the end"),
        Progress::Finished(result) => result,
    }
}

fn ran(stdout: &str) -> ChoreEnd {
    ChoreEnd::Ran(finished(true, stdout.as_bytes(), b""))
}

/// Creates a conversation whose process starts as given.
fn try_create(
    m: &mut Manager,
    label: &str,
    started: Result<Option<u32>, String>,
) -> Result<Json, String> {
    let (errand, chore) = go(m.create(label.to_string()));
    match chore {
        Chore::Git { root, in_repository, args } => {
            assert_eq!(root, "/w");
            assert!(in_repository);
            assert_eq!(args, origin_arguments());
        }
        _ => panic!("expected a check"),
    }
    let checked = m.pursue(errand, ran(CONDUIT_REPOSITORY), 500);
    let (errand, chore) = number(m, checked, 500);
    let (root, steps) = match chore {
        Chore::MakeDirectory { root, steps } => (root, steps),
        _ => panic!("expected a directory"),
    };
    let cwd = format!("{root}/{}", steps.join("/"));
    let made = ChoreEnd::DirectoryMade(Ok(Some(cwd.clone())));
    let (errand, chore) = go(m.pursue(errand, made, 500));
    match chore {
        Chore::Git { in_repository, args, .. } => {
            assert!(in_repository);
            assert_eq!(args, worktree_arguments(&cwd));
        }
        _ => panic!("expected a worktree"),
    }
    let (errand, chore) = go(m.pursue(errand, ran(""), 500));
    match chore {
        Chore::Start { cwd: at, args } => {
            assert_eq!(at, cwd);
            assert_eq!(args, agent_arguments(&None));
        }
        _ => panic!("expected a start"),
    }
    end(m.pursue(errand, ChoreEnd::Started(started), 501))
}

fn create(m: &mut Manager, label: &str) -> String {
    let v = try_create(m, label, Ok(Some(41))).unwrap();
    v.get("id").unwrap().as_str().unwrap().to_string()
}

fn refused(progress: Progress) -> String {
    end(progress).unwrap_err()
}

fn input(m: &mut Manager, id: &str, input: SessionInput<u32>) -> SessionStep<u32> {
    assert!(m.has_room(id));
    m.input(id, input, 600).unwrap()
}

fn written(m: &mut Manager, id: &str) -> SessionStep<u32> {
    input(m, id, SessionInput::Written(WriteEnd::Done))
}

fn message(m: &mut Manager, id: &str, text: &str) -> SessionStep<u32> {
    input(m, id, SessionInput::Line(text.to_string()))
}

fn state(m: &Manager, id: &str) -> String {
    m.snapshot(id).unwrap().get("state").unwrap().as_str().unwrap().to_string()
}

fn command(m: &mut Manager, id: &str, action: AgentAction) -> SessionStep<u32> {
    input(m, id, SessionInput::Command { generation: 1, action, reply: 9 })
}

fn refusal(step: &SessionStep<u32>) -> String {
    match &step.answer {
        Some(a) => a.result.clone().unwrap_err(),
        None => panic!("expected an answer"),
    }
}

fn ready(m: &mut Manager) -> String {
    let id = create(m, "demo");
    assert!(matches!(written(m, &id).next, SessionNext::Listen));
    message(
        m,
        &id,
        "{\"type\":\"control_response\",\"response\":{\"request_id\":\"pool-initialize\",\"subtype\":\"success\"}}",
    );
    assert_eq!(state(m, &id), "idle");
    id
}

fn busy(m: &mut Manager) -> String {
    let id = ready(m);
    let step = command(m, &id, AgentAction::Send("hello".into()));
    match step.next {
        SessionNext::Write(line) => assert_eq!(
            line,
            "{\"message\":{\"content\":\"hello\",\"role\":\"user\"},\"parent_tool_use_id\":null,\"session_id\":\"\",\"type\":\"user\"}\n"
        ),
        _ => panic!("expected a write"),
    }
    let step = written(m, &id);
    assert!(step.answer.unwrap().result.is_ok());
    assert_eq!(state(m, &id), "busy");
    id
}

const ASK: &str = "{\"type\":\"control_request\",\"request_id\":\"r1\",\"request\":{\"subtype\":\"can_use_tool\",\"tool_name\":\"Bash\",\"input\":{\"c\":1}}}";

#[test]
fn the_number_of_agents_is_limited() {
    for max_agents in [0, 65] {
        let config = AgentConfig {
            program: "h".into(),
            names: names(),
            workspace_root: "/w".into(),
            max_agents,
        };
        assert_eq!(AgentManager::<u32>::new(config).err().unwrap(), "max-cc-agents 必须为 1–64");
    }
    let mut m = manager(1);
    assert_eq!(refused(m.create("x".repeat(81))), "名称不能超过 80 字符");
    let one = create(&mut m, &"进".repeat(80));
    assert!(m.handle(&one).is_ok());
    assert_eq!(m.running_count(), 1);
    assert_eq!(refused(m.create("two".into())), "已达到 CC 进程上限，请先停止一个 Agent");
}

#[test]
fn the_workspace_root_is_made_absolute() {
    let config = |root: &str, max_agents| AgentConfig {
        program: "h".into(),
        names: names(),
        workspace_root: root.into(),
        max_agents,
    };
    let open = |config, anchored| AgentManager::<u32>::open(config, anchored);
    assert_eq!(open(config("/w", 1), None).ok().unwrap().workspace_root(), "/w");
    let below = Some(Ok("/here/w".to_string()));
    assert_eq!(open(config("w", 1), below).ok().unwrap().workspace_root(), "/here/w");
    let unknown = || Some(Err("gone".to_string()));
    assert_eq!(open(config("w", 1), unknown()).err().unwrap(), "gone");
    assert_eq!(open(config("w", 0), unknown()).err().unwrap(), "max-cc-agents 必须为 1–64");
}

#[test]
fn demands_are_checked_in_order() {
    let mut m = manager(1);
    let id = ready(&mut m);
    let empty = || AgentAction::Send(" \n".into());
    let why = "提示词不能为空且不能超过 32 KiB";
    assert_eq!(m.accept("x", empty()).err().unwrap(), why);
    assert_eq!(m.accept(&id, empty()).err().unwrap(), why);
    let sent = AgentAction::Send("hi".into());
    assert_eq!(m.accept("x", sent).err().unwrap(), "未找到此 Agent");
    assert_eq!(m.accept("x", AgentAction::Interrupt).err().unwrap(), "未找到此 Agent");
    match m.accept(&id, AgentAction::Send("hi".into())) {
        Ok(AgentAction::Send(prompt)) => assert_eq!(prompt, "hi"),
        _ => panic!("expected the prompt"),
    }
}

#[test]
fn an_errand_can_be_given_up() {
    let mut m = manager(1);
    assert!(m.is_free());
    let (errand, _) = go(m.create("x".into()));
    assert!(!m.is_free());
    assert!(!m.is_pursuable(&errand, &ChoreEnd::RepositoryFound(true)));
    m.abandon();
    assert!(m.is_free());
    assert!(!m.is_pursuable(&errand, &ran(CONDUIT_REPOSITORY)));
    let id = ready(&mut m);
    input(&mut m, &id, SessionInput::CommandsClosed);
    let (errand, _) = {
        m.finish(&id, 700);
        go(m.halt(id.clone(), 1, true))
    };
    assert!(m.is_pursuable(&errand, &ChoreEnd::Started(Ok(None))));
    m.abandon();
    assert!(m.is_free());
    assert_eq!(m.snapshot(&id).unwrap().get("generation"), Some(&Json::unsigned(2)));
    create(&mut m, "y");
}

#[test]
fn conversations_are_told_apart() {
    let mut one = manager(1);
    let first = create(&mut one, "");
    let mut two = Manager { inner: manager(1).inner, numbers: one.numbers };
    let second = create(&mut two, "");
    assert_eq!((first.as_str(), second.as_str()), ("cc-500-1", "cc-500-2"));
    let mut numbers = AgentNumbers::new();
    assert_eq!([numbers.take(), numbers.take(), numbers.take()], [1, 2, 3]);
}

#[test]
fn records_are_limited() {
    let mut m = manager(1);
    for _ in 0..128 {
        let id = create(&mut m, "");
        written(&mut m, &id);
        input(&mut m, &id, SessionInput::CommandsClosed);
        m.finish(&id, 700);
    }
    assert_eq!(
        refused(m.create("".into())),
        "本次服务最多保留 128 个 Agent 记录，请重启服务后再创建"
    );
}

#[test]
fn a_conversation_is_named_after_its_identifier_where_it_has_no_name() {
    let mut m = manager(2);
    let one = create(&mut m, "  ");
    let two = create(&mut m, "demo");
    assert_eq!(one, "cc-500-1");
    assert_eq!(two, "cc-500-2");
    assert_eq!(m.snapshot(&one).unwrap().get("label"), Some(&Json::text("cc-500-1")));
    assert_eq!(m.snapshot(&two).unwrap().get("label"), Some(&Json::text("demo")));
    assert_eq!(m.snapshot("cc-1-1").unwrap_err(), "未找到此 Agent");
    assert!(m.handle(&one).is_ok());
    assert_eq!(agent_id(1, 23), "cc-1-23");
    assert_ne!(agent_id(1, 23), agent_id(12, 3));
}

#[test]
fn a_conversation_that_does_not_start_is_forgotten() {
    let mut m = manager(1);
    let e = try_create(&mut m, "x", Err("gone".into())).unwrap_err();
    assert_eq!(
        e,
        "无法启动本机 Helper：gone；工作目录保留在 /w/agents/cc-500-1/conduit"
    );
    assert!(m.handle("cc-500-1").is_err());
    assert_eq!(create(&mut m, "x"), "cc-500-2");
}

#[test]
fn a_creation_can_fail_at_every_step() {
    let mut m = manager(1);
    let (errand, _) = go(m.create("x".into()));
    assert_eq!(
        refused(m.pursue(errand, ran("https://example.org/other.git"), 1)),
        "请先准备 conduit 项目：现有 conduit 目录的 origin 与预期仓库不一致，未作修改"
    );
    let (errand, _) = go(m.create("x".into()));
    let checked = m.pursue(errand, ran(CONDUIT_REPOSITORY), 1);
    let (errand, _) = number(&mut m, checked, 1);
    let made = ChoreEnd::DirectoryMade(Err("full".into()));
    assert_eq!(refused(m.pursue(errand, made, 1)), "full");
    let (errand, _) = go(m.create("x".into()));
    let checked = m.pursue(errand, ran(CONDUIT_REPOSITORY), 1);
    let (errand, _) = number(&mut m, checked, 1);
    let made = ChoreEnd::DirectoryMade(Ok(None));
    assert_eq!(refused(m.pursue(errand, made, 1)), "目录不是 UTF-8");
    let (errand, _) = go(m.create("x".into()));
    let checked = m.pursue(errand, ran(CONDUIT_REPOSITORY), 1);
    let (errand, _) = number(&mut m, checked, 1);
    let made = ChoreEnd::DirectoryMade(Ok(Some("/x".into())));
    let (errand, _) = go(m.pursue(errand, made, 1));
    let failed = ChoreEnd::Ran(finished(false, b"", b"bad"));
    assert_eq!(refused(m.pursue(errand, failed, 1)), "Git 操作失败：bad");
    assert_eq!(m.running_count(), 0);
    create(&mut m, "x");
}

#[test]
fn the_repository_is_prepared_step_by_step() {
    let mut m = manager(1);
    for there in [true, false] {
        let (errand, chore) = go(m.prepare());
        assert!(matches!(chore, Chore::AskVersion));
        let (errand, chore) = go(m.pursue(errand, ran(" 1.0 \n"), 1));
        assert!(matches!(chore, Chore::MakeRoot { root } if root == "/w"));
        let (errand, chore) = go(m.pursue(errand, ChoreEnd::RootMade(Ok(())), 1));
        assert!(matches!(chore, Chore::FindRepository { root } if root == "/w"));
        let (mut errand, mut chore) = go(m.pursue(errand, ChoreEnd::RepositoryFound(there), 1));
        if !there {
            match chore {
                Chore::Git { in_repository, args, .. } => {
                    assert!(!in_repository);
                    assert_eq!(args, clone_arguments());
                }
                _ => panic!("expected a clone"),
            }
            (errand, chore) = go(m.pursue(errand, ran(""), 1));
        }
        match chore {
            Chore::Git { in_repository, args, .. } => {
                assert!(in_repository);
                assert_eq!(args, origin_arguments());
            }
            _ => panic!("expected a check"),
        }
        let (errand, chore) = go(m.pursue(errand, ran(CONDUIT_REPOSITORY), 1));
        assert!(matches!(chore, Chore::Survey { root } if root == "/w"));
        let surveyed = ChoreEnd::Surveyed { path: "/w/conduit".into(), ready: true };
        let v = end(m.pursue(errand, surveyed, 1)).unwrap();
        assert_eq!(v.get("helper_version"), Some(&Json::text("1.0")));
        assert_eq!(v.get("repository_ready"), Some(&Json::Bool(true)));
    }
    let (errand, _) = go(m.prepare());
    assert_eq!(
        refused(m.pursue(errand, ChoreEnd::Ran(ToolEnd::TimedOut), 1)),
        "helper --version 超时"
    );
    let (errand, _) = go(m.prepare());
    let (errand, _) = go(m.pursue(errand, ran("1"), 1));
    assert_eq!(refused(m.pursue(errand, ChoreEnd::RootMade(Err("full".into())), 1)), "full");
}

#[test]
fn the_handshake_comes_first() {
    assert_eq!(
        handshake_line(),
        "{\"request\":{\"hooks\":null,\"subtype\":\"initialize\"},\"request_id\":\"pool-initialize\",\"type\":\"control_request\"}\n"
    );
    let mut m = manager(1);
    let id = create(&mut m, "");
    assert_eq!(state(&m, &id), "starting");
    assert!(matches!(
        input(&mut m, &id, SessionInput::DeadlinePassed).next,
        SessionNext::Ignore
    ));
    written(&mut m, &id);
    assert!(matches!(input(&mut m, &id, SessionInput::DeadlinePassed).next, SessionNext::End));
    m.finish(&id, 700);
    assert_eq!(state(&m, &id), "failed");
    assert_eq!(
        m.snapshot(&id).unwrap().get("last_error"),
        Some(&Json::text("Helper 控制协议握手超时，请检查 CLI 版本与登录状态"))
    );
}

#[test]
fn a_refused_handshake_fails_the_process() {
    let mut m = manager(1);
    let id = create(&mut m, "");
    written(&mut m, &id);
    let step = message(
        &mut m,
        &id,
        "{\"type\":\"control_response\",\"response\":{\"request_id\":\"pool-initialize\",\"subtype\":\"error\",\"error\":\"no\"}}",
    );
    assert!(matches!(step.next, SessionNext::End));
    m.finish(&id, 700);
    assert_eq!(
        m.snapshot(&id).unwrap().get("last_error"),
        Some(&Json::text("Helper 初始化失败：\"no\""))
    );
}

#[test]
fn every_failure_has_its_text() {
    let cases: Vec<(SessionInput<u32>, &str)> = vec![
        (SessionInput::Exited("0".into()), "Helper 已退出：0"),
        (
            SessionInput::Line("x".into()),
            "Helper 返回了非 stream-json 输出：expected value at line 1 column 1",
        ),
        (SessionInput::ReadFailed("x".into()), "x"),
        (SessionInput::OutputClosed, "Helper 输出已关闭"),
        (
            SessionInput::Line("{\"type\":\"control_request\"}".into()),
            "权限请求缺少 request_id",
        ),
    ];
    for (event, expected) in cases {
        let mut m = manager(1);
        let id = ready(&mut m);
        assert!(matches!(input(&mut m, &id, event).next, SessionNext::End));
        assert!(matches!(
            input(&mut m, &id, SessionInput::OutputClosed).next,
            SessionNext::Ignore
        ));
        m.finish(&id, 700);
        assert_eq!(m.snapshot(&id).unwrap().get("last_error"), Some(&Json::text(expected)));
        assert_eq!(m.running_count(), 0);
    }
}

#[test]
fn prompts_go_to_idle_processes() {
    let mut m = manager(1);
    let id = busy(&mut m);
    let step = command(&mut m, &id, AgentAction::Send("again".into()));
    assert_eq!(refusal(&step), "Agent 尚未空闲；等待本轮结束或先中断");
    message(&mut m, &id, "{\"type\":\"result\",\"subtype\":\"success\",\"session_id\":\"s1\"}");
    let info = m.snapshot(&id).unwrap();
    assert_eq!(info.get("completed_turns"), Some(&Json::unsigned(1)));
    assert_eq!(info.get("session_id"), Some(&Json::text("s1")));
    assert_eq!(state(&m, &id), "idle");
    message(&mut m, &id, "{\"type\":\"result\",\"subtype\":\"success\",\"is_error\":true}");
    let info = m.snapshot(&id).unwrap();
    assert_eq!(info.get("failed_turns"), Some(&Json::unsigned(1)));
    assert_eq!(
        info.get("last_error"),
        Some(&Json::text("{\"is_error\":true,\"subtype\":\"success\",\"type\":\"result\"}"))
    );
}

#[test]
fn permissions_are_asked_for_and_answered() {
    let mut m = manager(1);
    let id = busy(&mut m);
    message(&mut m, &id, ASK);
    assert_eq!(state(&m, &id), "awaiting_permission");
    let wrong = AgentAction::Permission { request_id: "r2".into(), allow: true };
    assert_eq!(refusal(&command(&mut m, &id, wrong)), "权限请求已失效，请刷新");
    let allow = AgentAction::Permission { request_id: "r1".into(), allow: true };
    match command(&mut m, &id, allow).next {
        SessionNext::Write(line) => assert_eq!(
            line,
            "{\"response\":{\"request_id\":\"r1\",\"response\":{\"behavior\":\"allow\",\"updatedInput\":{\"c\":1}},\"subtype\":\"success\"},\"type\":\"control_response\"}\n"
        ),
        _ => panic!("expected a write"),
    }
    written(&mut m, &id);
    assert_eq!(state(&m, &id), "busy");
    let twice = AgentAction::Permission { request_id: "r1".into(), allow: false };
    assert_eq!(refusal(&command(&mut m, &id, twice)), "权限请求已失效，请刷新");
    message(&mut m, &id, ASK);
    let deny = AgentAction::Permission { request_id: "r1".into(), allow: false };
    match command(&mut m, &id, deny).next {
        SessionNext::Write(line) => assert!(line.contains("\"behavior\":\"deny\"")),
        _ => panic!("expected a write"),
    }
}

#[test]
fn every_turn_is_counted_once() {
    let mut m = manager(1);
    let id = busy(&mut m);
    let counts = |m: &Manager| {
        let info = m.snapshot(&id).unwrap();
        let count = |name: &str| info.get(name).unwrap().as_u64().unwrap();
        (count("completed_turns"), count("failed_turns"))
    };
    message(&mut m, &id, ASK);
    message(&mut m, &id, "{\"type\":\"assistant\",\"subtype\":\"success\"}");
    assert_eq!(counts(&m), (0, 0));
    assert_eq!(state(&m, &id), "awaiting_permission");
    message(&mut m, &id, "{\"type\":\"result\",\"subtype\":\"success\"}");
    assert_eq!(counts(&m), (1, 0));
    assert_eq!(state(&m, &id), "idle");
    message(&mut m, &id, "{\"type\":\"result\",\"subtype\":\"error\"}");
    assert_eq!(counts(&m), (1, 1));
    assert!(matches!(message(&mut m, &id, ASK).next, SessionNext::Write(_)));
    assert_eq!(state(&m, &id), "idle");
}

#[test]
fn requests_can_be_withdrawn() {
    let mut m = manager(1);
    let id = busy(&mut m);
    message(&mut m, &id, ASK);
    message(&mut m, &id, "{\"type\":\"control_cancel_request\",\"request_id\":\"zz\"}");
    assert_eq!(state(&m, &id), "awaiting_permission");
    message(&mut m, &id, "{\"type\":\"control_cancel_request\",\"request_id\":\"r1\"}");
    assert_eq!(state(&m, &id), "busy");
}

#[test]
fn few_requests_may_be_open() {
    let mut m = manager(1);
    let id = busy(&mut m);
    for n in 0..16 {
        let text = ASK.replace("r1", &format!("r{n:02}"));
        assert!(matches!(message(&mut m, &id, &text).next, SessionNext::Listen));
    }
    match message(&mut m, &id, &ASK.replace("r1", "r99")).next {
        SessionNext::Write(line) => assert_eq!(
            line,
            "{\"response\":{\"error\":\"Unsupported or inactive permission request\",\"request_id\":\"r99\",\"subtype\":\"error\"},\"type\":\"control_response\"}\n"
        ),
        _ => panic!("expected a write"),
    }
    assert!(matches!(written(&mut m, &id).next, SessionNext::Listen));
}

#[test]
fn large_requests_are_refused() {
    let mut m = manager(1);
    let id = busy(&mut m);
    let text = ASK.replace("Bash", &"x".repeat(65_536));
    assert!(matches!(message(&mut m, &id, &text).next, SessionNext::Write(_)));
    let step = input(&mut m, &id, SessionInput::Written(WriteEnd::TimedOut));
    assert!(matches!(step.next, SessionNext::End));
    m.finish(&id, 700);
    assert_eq!(
        m.snapshot(&id).unwrap().get("last_error"),
        Some(&Json::text("Helper 输入管道超时"))
    );
}

#[test]
fn interrupts_clear_open_requests() {
    let mut m = manager(1);
    let id = ready(&mut m);
    assert_eq!(refusal(&command(&mut m, &id, AgentAction::Interrupt)), "当前没有可中断的任务");
    let id = {
        let mut other = manager(1);
        let id = busy(&mut other);
        message(&mut other, &id, ASK);
        match command(&mut other, &id, AgentAction::Interrupt).next {
            SessionNext::Write(line) => assert_eq!(
                line,
                "{\"request\":{\"subtype\":\"interrupt\"},\"request_id\":\"interrupt-4\",\"type\":\"control_request\"}\n"
            ),
            _ => panic!("expected a write"),
        }
        written(&mut other, &id);
        assert_eq!(state(&other, &id), "interrupting");
        let info = other.snapshot(&id).unwrap();
        assert_eq!(info.get("pending_permissions"), Some(&Fields::new().object()));
        id
    };
    assert_eq!(id, "cc-500-1");
}

#[test]
fn a_failed_write_ends_the_process() {
    let mut m = manager(1);
    let id = ready(&mut m);
    command(&mut m, &id, AgentAction::Send("x".into()));
    let step = input(&mut m, &id, SessionInput::Written(WriteEnd::Failed("pipe".into())));
    assert_eq!(refusal(&step), "写入失败：pipe");
    assert!(matches!(step.next, SessionNext::End));
}

#[test]
fn stale_commands_are_refused() {
    let mut m = manager(1);
    let id = ready(&mut m);
    let stale = SessionInput::Command { generation: 2, action: AgentAction::Interrupt, reply: 1 };
    assert_eq!(refusal(&input(&mut m, &id, stale)), "进程已更换，请刷新后操作");
    let stale = SessionInput::Stop { generation: 2, reply: 1 };
    assert_eq!(refusal(&input(&mut m, &id, stale)), "进程已更换，请刷新后操作");
    assert_eq!(refused(m.halt(id.clone(), 2, false)), "进程已更换，请刷新后操作");
    assert_eq!(refused(m.halt("x".into(), 1, false)), "未找到此 Agent");
    let (_, chore) = go(m.halt(id, 1, false));
    assert!(matches!(chore, Chore::Stop { generation: 1, .. }));
}

#[test]
fn a_stopped_conversation_can_be_restarted() {
    let mut m = manager(1);
    let id = ready(&mut m);
    message(&mut m, &id, "{\"type\":\"system\",\"session_id\":\"s7\"}");
    assert!(!m.is_ended(&id));
    let (errand, _) = go(m.halt(id.clone(), 1, true));
    assert!(matches!(
        input(&mut m, &id, SessionInput::Stop { generation: 1, reply: 5 }).next,
        SessionNext::End
    ));
    let answer = m.finish(&id, 700).unwrap();
    assert_eq!(answer.reply, 5);
    let stopped = answer.result.unwrap();
    assert_eq!(stopped.get("state"), Some(&Json::text("stopped")));
    assert!(m.finish(&id, 700).is_none());
    assert!(m.is_ended(&id));
    let (errand, chore) = go(m.pursue(errand, ChoreEnd::Stopped(Ok(stopped)), 800));
    match chore {
        Chore::Start { cwd, args } => {
            assert_eq!(cwd, "/w/agents/cc-500-1/conduit");
            assert_eq!(args, agent_arguments(&Some("s7".into())));
        }
        _ => panic!("expected a start"),
    }
    let failed = ChoreEnd::Started(Err("gone".into()));
    assert!(refused(m.pursue(errand, failed, 800)).contains("gone"));
    assert_eq!(state(&m, &id), "failed");
    let (errand, _) = go(m.halt(id.clone(), 2, true));
    let v = end(m.pursue(errand, ChoreEnd::Started(Ok(Some(42))), 900)).unwrap();
    assert_eq!(v.get("generation"), Some(&Json::unsigned(3)));
    assert_eq!(v.get("pid"), Some(&Json::unsigned(42)));
    assert_eq!(v.get("session_id"), Some(&Json::text("s7")));
    assert_eq!(v.get("state"), Some(&Json::text("starting")));
    assert!(end(m.create("".into())).is_err());
}

#[test]
fn a_conversation_can_be_stopped() {
    let mut m = manager(1);
    let id = ready(&mut m);
    let (errand, _) = go(m.halt(id.clone(), 1, false));
    assert_eq!(refused(m.pursue(errand, ChoreEnd::Stopped(Err("late".into())), 1)), "late");
    let (errand, _) = go(m.halt(id.clone(), 1, false));
    input(&mut m, &id, SessionInput::Stop { generation: 1, reply: 5 });
    m.finish(&id, 700);
    let v = end(m.pursue(errand, ChoreEnd::Stopped(Ok(Json::Null)), 800)).unwrap();
    assert_eq!(v.get("state"), Some(&Json::text("stopped")));
    let again = end(m.halt(id, 1, false)).unwrap();
    assert_eq!(again.get("state"), Some(&Json::text("stopped")));
}

#[test]
fn a_restart_respects_the_limit() {
    let mut m = manager(1);
    let first = ready(&mut m);
    input(&mut m, &first, SessionInput::CommandsClosed);
    m.finish(&first, 700);
    create(&mut m, "");
    assert_eq!(refused(m.halt(first, 1, true)), "已达到 CC 进程上限");
}

#[test]
fn polling_misses_nothing() {
    let mut m = manager(1);
    let id = ready(&mut m);
    let events = |v: &Json| match v.get("events") {
        Some(Json::Array(items)) => {
            items.iter().map(|e| e.get("id").unwrap().as_u64().unwrap()).collect::<Vec<u64>>()
        }
        _ => panic!("expected events"),
    };
    let v = m.get(&id, 0).unwrap();
    assert_eq!(events(&v), vec![1, 2]);
    assert_eq!(v.get("cursor"), Some(&Json::unsigned(2)));
    assert_eq!(v.get("truncated"), Some(&Json::Bool(false)));
    assert!(events(&m.get(&id, 2).unwrap()).is_empty());
    for _ in 0..EVENT_LIMIT {
        input(&mut m, &id, SessionInput::Noise("noise".into()));
    }
    let v = m.get(&id, 1).unwrap();
    assert_eq!(v.get("truncated"), Some(&Json::Bool(true)));
    assert_eq!(events(&v).len(), EVENT_LIMIT);
    let v = m.get(&id, 2).unwrap();
    assert_eq!(v.get("truncated"), Some(&Json::Bool(false)));
    assert_eq!(events(&v), (3..=258).collect::<Vec<u64>>());
    assert!(m.get("x", 0).is_err());
    assert_eq!(m.get(&id, u64::MAX).unwrap().get("truncated"), Some(&Json::Bool(false)));
}

#[test]
fn large_documents_are_previewed() {
    let mut m = manager(1);
    let id = ready(&mut m);
    input(&mut m, &id, SessionInput::Noise("x".repeat(20_000)));
    let v = m.get(&id, 2).unwrap();
    let data = match v.get("events") {
        Some(Json::Array(items)) => items[0].get("data").unwrap().clone(),
        _ => panic!("expected events"),
    };
    assert_eq!(data.get("truncated"), Some(&Json::Bool(true)));
    let preview = data.get("preview").unwrap().as_str().unwrap();
    assert_eq!(preview.len(), 16_384);
    assert!(preview.starts_with("{\"text\":\"xxx"));
}

#[test]
fn status_tells_about_all_conversations() {
    let mut m = manager(2);
    create(&mut m, "");
    let v = m.status("/w/conduit", true);
    assert_eq!(v.get("enabled"), Some(&Json::Bool(true)));
    assert_eq!(v.get("max_agents"), Some(&Json::unsigned(2)));
    assert_eq!(v.get("repository"), Some(&Json::text(CONDUIT_REPOSITORY)));
    assert_eq!(v.get("repository_path"), Some(&Json::text("/w/conduit")));
    assert!(v.get("helper_version").is_none());
    match v.get("agents") {
        Some(Json::Array(items)) => assert_eq!(items.len(), 1),
        _ => panic!("expected agents"),
    }
}

#[test]
fn shutdown_closes_the_service() {
    let mut m = manager(2);
    let one = ready(&mut m);
    let two = create(&mut m, "");
    input(&mut m, &one, SessionInput::CommandsClosed);
    m.finish(&one, 700);
    let list = m.shutdown();
    assert_eq!(list.len(), 1);
    assert_eq!((list[0].id.as_str(), list[0].generation), (two.as_str(), 1));
    assert_eq!(refused(m.create("".into())), "服务正在关闭");
    assert_eq!(refused(m.halt(two, 1, true)), "服务正在关闭");
    assert_eq!(refused(m.prepare()), "服务正在关闭");
}

#[test]
fn methods_are_routed() {
    let m = manager(1);
    let none = Fields::new().object();
    let some = Fields::new().with("x", Json::Null).object();
    assert_eq!(m.rpc("cc.status", &none), Ok(AgentMethod::Status));
    assert_eq!(m.rpc("cc.prepare", &none), Ok(AgentMethod::Prepare));
    assert_eq!(m.rpc("cc.status", &some).unwrap_err(), "此方法不接受参数");
    assert_eq!(m.rpc("cc.prepare", &Json::Null).unwrap_err(), "此方法不接受参数");
    assert_eq!(m.rpc("cc.dance", &none).unwrap_err(), "未知 CC 方法");
    for (name, method) in [
        ("cc.create", AgentMethod::Create),
        ("cc.get", AgentMethod::Get),
        ("cc.send", AgentMethod::Send),
        ("cc.permission", AgentMethod::Permission),
        ("cc.interrupt", AgentMethod::Interrupt),
        ("cc.stop", AgentMethod::Stop),
        ("cc.restart", AgentMethod::Restart),
    ] {
        assert_eq!(m.rpc(name, &some), Ok(method));
    }
    assert!(check_prompt("x").is_ok());
    assert!(check_prompt(&"x".repeat(32_768)).is_ok());
    assert!(check_prompt(&"x".repeat(32_769)).is_err());
    assert_eq!(check_prompt(" \u{3000}\n").unwrap_err(), "提示词不能为空且不能超过 32 KiB");
    assert!(AgentState::Interrupting.running());
    assert!(!AgentState::Failed.running());
}

#[test]
fn outside_programs_are_called_with_fixed_arguments() {
    let args = agent_arguments(&None);
    assert_eq!(args.len(), 12);
    assert_eq!(args[6], "--include-partial-messages");
    let resumed = agent_arguments(&Some("s".into()));
    assert_eq!(resumed[12..], ["--resume".to_string(), "s".to_string()]);
    assert_eq!(
        origin_arguments(),
        vec!["-c", "core.hooksPath=/dev/null", "remote", "get-url", "origin"]
    );
    assert_eq!(clone_arguments()[2..], ["clone", "--", CONDUIT_REPOSITORY, "conduit"]);
    assert_eq!(worktree_arguments("/x")[2..], ["worktree", "add", "--detach", "/x", "HEAD"]);
    assert_eq!(agent_directory("a"), vec!["agents", "a", "conduit"]);
    assert_eq!(base(), vec!["conduit"]);
}

fn finished(success: bool, stdout: &[u8], stderr: &[u8]) -> ToolEnd {
    ToolEnd::Finished { success, stdout: stdout.to_vec(), stderr: stderr.to_vec() }
}

#[test]
fn results_of_outside_programs_are_read() {
    assert_eq!(git(finished(true, b"a\xff\n", b"")), Ok("a\u{fffd}\n".to_string()));
    assert_eq!(git(finished(false, b"", b"bad")).unwrap_err(), "Git 操作失败：bad");
    let long = git(finished(false, b"", &vec![b'x'; 3000])).unwrap_err();
    assert_eq!(long, format!("Git 操作失败：{}", "x".repeat(2048)));
    assert_eq!(
        git(ToolEnd::TimedOut).unwrap_err(),
        "Git 操作超时，已有文件保留；请检查本地目录后重试"
    );
    assert_eq!(git(ToolEnd::Failed("x".into())).unwrap_err(), "x");
    assert!(verify_repository(Ok(format!("  {CONDUIT_REPOSITORY}\n"))).is_ok());
    assert_eq!(
        verify_repository(Ok("other".into())).unwrap_err(),
        "现有 conduit 目录的 origin 与预期仓库不一致，未作修改"
    );
    assert_eq!(verify_repository(Err("x".into())).unwrap_err(), "x");
    assert_eq!(version(&names(), finished(true, b" 1.2 \n", b"")), Ok("1.2".to_string()));
    assert_eq!(version(&names(), ToolEnd::TimedOut).unwrap_err(), "helper --version 超时");
    assert!(version(&names(), ToolEnd::Failed("x".into())).unwrap_err().ends_with("：x"));
    assert!(version(&names(), finished(false, b"", b"")).is_err());
    assert_eq!(request(RequestEnd::Answered(Ok(Json::Null))), Ok(Json::Null));
    assert_eq!(
        request(RequestEnd::Unsent).unwrap_err(),
        "进程已退出或控制队列繁忙，请刷新状态"
    );
    assert_eq!(
        request(RequestEnd::TimedOut).unwrap_err(),
        "控制请求等待超时，请先刷新状态，不要自动重试"
    );
    assert_eq!(unreadable_params("x"), "参数不合法：x");
    assert_eq!(request(RequestEnd::Dropped).unwrap_err(), "进程已退出，请刷新状态");
}
