//! The outside programs behind conversation processes: their arguments, and what their
//! results mean.
use vstd::prelude::*;
use vstd::string::*;
use crate::agent::{AgentNames, NamesView};
use crate::config::{optional_text, text_views};
use crate::json::{Json, JsonView};
use crate::reading::result_view;
use crate::schedule::following;
use crate::text::{
    clip, clipped, decimal, decimal_text, decimal_texts_are_unique, decimal_texts_hold_digits, lossy,
    lossy_text, same_text, trim, trimmed,
};

verus! {

/// The repository that conversations work on.
pub const CONDUIT_REPOSITORY: &'static str = "https://github.com/cogwheel0/conduit.git";

/// The seconds that a request to a conversation process may take.
pub const REQUEST_SECONDS: u64 = 10;

/// The seconds that writing one line to a conversation process may take.
pub const WRITE_SECONDS: u64 = 3;

/// The seconds that the handshake may take.
pub const HANDSHAKE_SECONDS: u64 = 30;

/// The seconds that a Git operation may take.
pub const GIT_SECONDS: u64 = 120;

fn owned(texts: &[&str]) -> (all: Vec<String>)
    ensures
        text_views(all@) == Seq::new(texts@.len(), |i: int| texts@[i]@),
{
    let mut all: Vec<String> = Vec::new();
    let mut i: usize = 0;
    while i < texts.len()
        invariant
            i <= texts@.len(),
            all@.len() == i,
            forall|j: int| 0 <= j < i ==> (#[trigger] all@[j])@ == texts@[j]@,
        decreases texts@.len() - i,
    {
        all.push(texts[i].to_owned());
        i = i + 1;
    }
    assert(text_views(all@) =~= Seq::new(texts@.len(), |i: int| texts@[i]@));
    all
}

/// The arguments with which a conversation process is started; a known session is resumed.
pub open spec fn conversation_arguments(session: Option<Seq<char>>) -> Seq<Seq<char>> {
    let fixed = seq![
        "-p"@,
        "--input-format"@,
        "stream-json"@,
        "--output-format"@,
        "stream-json"@,
        "--verbose"@,
        "--include-partial-messages"@,
        "--safe-mode"@,
        "--permission-mode"@,
        "manual"@,
        "--permission-prompt-tool"@,
        "stdio"@,
    ];
    match session {
        Some(id) => fixed.push("--resume"@).push(id),
        None => fixed,
    }
}

/// The arguments with which a conversation process is started.
pub fn agent_arguments(session: &Option<String>) -> (args: Vec<String>)
    ensures
        text_views(args@) == conversation_arguments(optional_text(*session)),
{
    let fixed: [&str; 12] = [
        "-p",
        "--input-format",
        "stream-json",
        "--output-format",
        "stream-json",
        "--verbose",
        "--include-partial-messages",
        "--safe-mode",
        "--permission-mode",
        "manual",
        "--permission-prompt-tool",
        "stdio",
    ];
    let mut args = owned(fixed.as_slice());
    assert(text_views(args@) =~= conversation_arguments(None));
    let ghost base = args@;
    match session {
        Some(id) => {
            args.push("--resume".to_owned());
            args.push(id.clone());
            assert(text_views(args@) =~= text_views(base).push("--resume"@).push(id@));
        },
        None => {},
    }
    args
}

/// A Git command line: hooks are switched off.
pub open spec fn git_line(args: Seq<Seq<char>>) -> Seq<Seq<char>> {
    seq!["-c"@, "core.hooksPath=/dev/null"@] + args
}

fn git_command(args: &[&str]) -> (line: Vec<String>)
    ensures
        text_views(line@) == git_line(Seq::new(args@.len(), |i: int| args@[i]@)),
{
    let fixed: [&str; 2] = ["-c", "core.hooksPath=/dev/null"];
    let mut line = owned(fixed.as_slice());
    assert(text_views(line@) =~= seq!["-c"@, "core.hooksPath=/dev/null"@]);
    let ghost head = line@;
    let mut rest = owned(args);
    let ghost tail = rest@;
    line.append(&mut rest);
    assert(text_views(line@) =~= text_views(head) + text_views(tail));
    line
}

/// Asks for the address that the repository came from.
pub fn origin_arguments() -> (line: Vec<String>)
    ensures
        text_views(line@) == git_line(seq!["remote"@, "get-url"@, "origin"@]),
{
    let args: [&str; 3] = ["remote", "get-url", "origin"];
    assert(Seq::new(args@.len(), |i: int| args@[i]@) =~= seq!["remote"@, "get-url"@, "origin"@]);
    git_command(args.as_slice())
}

/// Clones the repository into the directory `conduit`.
pub fn clone_arguments() -> (line: Vec<String>)
    ensures
        text_views(line@) == git_line(seq!["clone"@, "--"@, CONDUIT_REPOSITORY@, "conduit"@]),
{
    let args: [&str; 4] = ["clone", "--", CONDUIT_REPOSITORY, "conduit"];
    assert(Seq::new(args@.len(), |i: int| args@[i]@) =~= seq![
        "clone"@,
        "--"@,
        CONDUIT_REPOSITORY@,
        "conduit"@,
    ]);
    git_command(args.as_slice())
}

/// Checks the current state out into a directory of its own.
pub fn worktree_arguments(cwd: &str) -> (line: Vec<String>)
    ensures
        text_views(line@) == git_line(seq!["worktree"@, "add"@, "--detach"@, cwd@, "HEAD"@]),
{
    let args: [&str; 5] = ["worktree", "add", "--detach", cwd, "HEAD"];
    assert(Seq::new(args@.len(), |i: int| args@[i]@) =~= seq![
        "worktree"@,
        "add"@,
        "--detach"@,
        cwd@,
        "HEAD"@,
    ]);
    git_command(args.as_slice())
}

/// How a program that was run to its end came out.
pub enum ToolEnd {
    TimedOut,
    Failed(String),
    Finished { success: bool, stdout: Vec<u8>, stderr: Vec<u8> },
}

/// The output of a Git operation, or why there is none.
pub open spec fn git_outcome(end: ToolEnd) -> Result<Seq<char>, Seq<char>> {
    match end {
        ToolEnd::TimedOut => Err("Git 操作超时，已有文件保留；请检查本地目录后重试"@),
        ToolEnd::Failed(e) => Err(e@),
        ToolEnd::Finished { success, stdout, stderr } => if success {
            Ok(lossy_text(stdout@))
        } else {
            Err("Git 操作失败："@ + clipped(lossy_text(stderr@), 2048))
        },
    }
}

/// Reads the result of a Git operation.
pub fn git(end: ToolEnd) -> (outcome: Result<String, String>)
    ensures
        match outcome {
            Ok(text) => git_outcome(end) == Ok::<Seq<char>, Seq<char>>(text@),
            Err(why) => git_outcome(end) == Err::<Seq<char>, Seq<char>>(why@),
        },
{
    match end {
        ToolEnd::TimedOut => Err("Git 操作超时，已有文件保留；请检查本地目录后重试".to_owned()),
        ToolEnd::Failed(e) => Err(e),
        ToolEnd::Finished { success, stdout, stderr } => {
            if success {
                Ok(lossy(stdout.as_slice()))
            } else {
                let text = lossy(stderr.as_slice());
                Err("Git 操作失败：".to_owned().concat(clip(text.as_str(), 2048).as_str()))
            }
        },
    }
}

/// Whether the reported origin is the expected repository.
pub open spec fn expected_origin(output: Seq<char>) -> bool {
    trimmed(output) == CONDUIT_REPOSITORY@
}

/// Accepts the directory only where it came from the expected repository. An operation that
/// failed is passed on.
pub fn verify_repository(origin: Result<String, String>) -> (verdict: Result<(), String>)
    ensures
        match (origin, verdict) {
            (Ok(output), Ok(())) => expected_origin(output@),
            (Ok(output), Err(why)) => !expected_origin(output@) && why@
                == "现有 conduit 目录的 origin 与预期仓库不一致，未作修改"@,
            (Err(e), Err(why)) => why@ == e@,
            (Err(e), Ok(())) => false,
        },
{
    match origin {
        Ok(output) => {
            if !same_text(trim(output.as_str()).as_str(), CONDUIT_REPOSITORY) {
                return Err("现有 conduit 目录的 origin 与预期仓库不一致，未作修改".to_owned());
            }
            Ok(())
        },
        Err(e) => Err(e),
    }
}

/// What the version query yields: the version as it is shown, or why there is none.
pub open spec fn version_outcome(names: NamesView, end: ToolEnd) -> Result<Seq<char>, Seq<char>> {
    match end {
        ToolEnd::TimedOut => Err(names.tag + " --version 超时"@),
        ToolEnd::Failed(e) => Err("无法启动本机 "@ + names.title + "，请先自行安装并登录："@ + e@),
        ToolEnd::Finished { success, stdout, stderr } => if success {
            Ok(clipped(trimmed(lossy_text(stdout@)), 256))
        } else {
            Err(names.tag + " --version 失败，请检查本机安装"@)
        },
    }
}

/// Reads the result of the version query.
pub fn version(names: &AgentNames, end: ToolEnd) -> (outcome: Result<String, String>)
    ensures
        match outcome {
            Ok(text) => version_outcome(names@, end) == Ok::<Seq<char>, Seq<char>>(text@),
            Err(why) => version_outcome(names@, end) == Err::<Seq<char>, Seq<char>>(why@),
        },
{
    match end {
        ToolEnd::TimedOut => Err(names.tag.as_str().to_owned().concat(" --version 超时")),
        ToolEnd::Failed(e) => Err(
            "无法启动本机 ".to_owned().concat(names.title.as_str()).concat("，请先自行安装并登录：").concat(
                e.as_str(),
            ),
        ),
        ToolEnd::Finished { success, stdout, stderr } => {
            if success {
                let text = lossy(stdout.as_slice());
                Ok(clip(trim(text.as_str()).as_str(), 256))
            } else {
                Err(names.tag.as_str().to_owned().concat(" --version 失败，请检查本机安装"))
            }
        },
    }
}

/// How a request to a conversation process came out.
pub enum RequestEnd {
    /// Its queue is full or gone.
    Unsent,
    TimedOut,
    /// The process ended without an answer.
    Dropped,
    Answered(Result<Json, String>),
}

/// What a user is told about a request.
pub open spec fn request_outcome(end: RequestEnd) -> Result<JsonView, Seq<char>> {
    match end {
        RequestEnd::Unsent => Err("进程已退出或控制队列繁忙，请刷新状态"@),
        RequestEnd::TimedOut => Err("控制请求等待超时，请先刷新状态，不要自动重试"@),
        RequestEnd::Dropped => Err("进程已退出，请刷新状态"@),
        RequestEnd::Answered(result) => result_view(result),
    }
}

/// Says what a user is told about a request.
pub fn request(end: RequestEnd) -> (outcome: Result<Json, String>)
    ensures
        result_view(outcome) == request_outcome(end),
{
    match end {
        RequestEnd::Unsent => Err("进程已退出或控制队列繁忙，请刷新状态".to_owned()),
        RequestEnd::TimedOut => Err("控制请求等待超时，请先刷新状态，不要自动重试".to_owned()),
        RequestEnd::Dropped => Err("进程已退出，请刷新状态".to_owned()),
        RequestEnd::Answered(result) => result,
    }
}

/// Words the failure to read the parameters of a call about conversations.
pub fn unreadable_params(why: &str) -> (text: String)
    ensures
        text@ == "参数不合法："@ + why@,
{
    "参数不合法：".to_owned().concat(why)
}

/// The identifier of a conversation: the time of its creation and a running number.
pub open spec fn agent_identifier(now_ms: u64, number: u64) -> Seq<char> {
    "cc-"@ + decimal_text(now_ms as nat) + "-"@ + decimal_text(number as nat)
}

/// The identifier of a conversation.
pub fn agent_id(now_ms: u64, number: u64) -> (id: String)
    ensures
        id@ == agent_identifier(now_ms, number),
{
    "cc-".to_owned().concat(decimal(now_ms).as_str()).concat("-").concat(decimal(number).as_str())
}

/// Gives conversations their numbers: from one on, and from zero on again after the largest.
pub struct AgentNumbers {
    next: u64,
}

impl AgentNumbers {
    /// The number that is given next.
    pub closed spec fn upcoming(&self) -> u64 {
        self.next
    }

    pub fn new() -> (numbers: AgentNumbers)
        ensures
            numbers.upcoming() == number_at(0),
    {
        AgentNumbers { next: 1 }
    }

    /// Gives a number away.
    pub fn take(&mut self) -> (number: u64)
        ensures
            number == old(self).upcoming(),
            final(self).upcoming() == following(old(self).upcoming()),
    {
        let number: u64 = self.next;
        self.next = self.next.wrapping_add(1);
        number
    }
}

/// The number that is given after `count` others.
pub open spec fn number_at(count: nat) -> u64
    decreases count,
{
    if count == 0 {
        1
    } else {
        following(number_at((count - 1) as nat))
    }
}

proof fn lemma_number_at(count: nat)
    ensures
        number_at(count) == (count + 1) % 0x1_0000_0000_0000_0000,
    decreases count,
{
    if count > 0 {
        lemma_number_at((count - 1) as nat);
    }
}

/// Conversations that are numbered together have different identifiers, whenever they are
/// created, as long as the numbers do not start again.
pub proof fn conversations_are_told_apart(first: nat, second: nat, a_ms: u64, b_ms: u64)
    requires
        first < second < first + 0x1_0000_0000_0000_0000,
    ensures
        agent_identifier(a_ms, number_at(first)) != agent_identifier(b_ms, number_at(second)),
{
    lemma_number_at(first);
    lemma_number_at(second);
    if agent_identifier(a_ms, number_at(first)) == agent_identifier(b_ms, number_at(second)) {
        agent_identifiers_are_unique(a_ms, number_at(first), b_ms, number_at(second));
    }
}

/// Where a conversation works, as steps below the workspace root.
pub fn agent_directory(id: &str) -> (steps: Vec<String>)
    ensures
        text_views(steps@) == seq!["agents"@, id@, "conduit"@],
{
    let steps: [&str; 3] = ["agents", id, "conduit"];
    assert(Seq::new(steps@.len(), |i: int| steps@[i]@) =~= seq!["agents"@, id@, "conduit"@]);
    owned(steps.as_slice())
}

/// Where the repository lies, as steps below the workspace root.
pub fn base() -> (steps: Vec<String>)
    ensures
        text_views(steps@) == seq!["conduit"@],
{
    let steps: [&str; 1] = ["conduit"];
    assert(Seq::new(steps@.len(), |i: int| steps@[i]@) =~= seq!["conduit"@]);
    owned(steps.as_slice())
}

/// Conversations with different numbers or creation times have different identifiers.
pub proof fn agent_identifiers_are_unique(a_ms: u64, a: u64, b_ms: u64, b: u64)
    requires
        agent_identifier(a_ms, a) == agent_identifier(b_ms, b),
    ensures
        a_ms == b_ms,
        a == b,
{
    reveal_strlit("cc-");
    reveal_strlit("-");
    let p = decimal_text(a_ms as nat);
    let q = decimal_text(b_ms as nat);
    let x = decimal_text(a as nat);
    let y = decimal_text(b as nat);
    let s = agent_identifier(a_ms, a);
    let t = agent_identifier(b_ms, b);
    decimal_texts_hold_digits(a_ms as nat);
    decimal_texts_hold_digits(b_ms as nat);
    assert(s[3 + p.len() as int] == '-');
    assert(t[3 + q.len() as int] == '-');
    assert(p.len() == q.len()) by {
        if p.len() < q.len() {
            assert(t[3 + p.len() as int] == q[p.len() as int]);
        } else if q.len() < p.len() {
            assert(s[3 + q.len() as int] == p[q.len() as int]);
        }
    }
    assert(p =~= s.subrange(3, 3 + p.len() as int));
    assert(q =~= t.subrange(3, 3 + q.len() as int));
    assert(x =~= s.skip(4 + p.len() as int));
    assert(y =~= t.skip(4 + q.len() as int));
    decimal_texts_are_unique(a_ms as nat, b_ms as nat);
    decimal_texts_are_unique(a as nat, b as nat);
}

} // verus!
