//! Longer work on the set of conversations: preparing the repository, creating a conversation,
//! stopping and restarting one. One errand is run at a time; each step of it is outside work
//! whose end decides how it goes on.
use vstd::prelude::*;
use vstd::string::*;
use crate::agents::{
    creation, creation_obstacle, freed, restart_obstacle, restart_result, restarting, runs,
    status_document, target_obstacle, AgentManager, Lifecycle, LifecycleView, ManagerView,
};
use crate::agent::{info_document, record_countable};
use crate::config::text_views;
use crate::json::{Json, JsonView};
use crate::reading::result_view;
use crate::schedule::start_view;
use crate::table::found;
use crate::tools::{
    agent_arguments, agent_directory, agent_id, agent_identifier, clone_arguments, conversation_arguments,
    expected_origin, git, git_line, git_outcome, origin_arguments, verify_repository, version,
    version_outcome, worktree_arguments, ToolEnd, CONDUIT_REPOSITORY,
};

verus! {

/// Outside work that an errand waits for.
pub enum Chore {
    /// Ask the program for its version.
    AskVersion,
    /// Create the workspace root.
    MakeRoot { root: String },
    /// Tell whether the repository's directory is there, below the workspace root.
    FindRepository { root: String },
    /// Run Git, in the repository's directory below the workspace root or else in the root.
    Git { root: String, in_repository: bool, args: Vec<String> },
    /// Tell where the repository is, below the workspace root, and whether it is complete.
    Survey { root: String },
    /// Take the next number of a conversation. All services of a program count together.
    TakeNumber,
    /// Create the directory above the one that these steps lead to from the workspace root,
    /// and tell the latter's path.
    MakeDirectory { root: String, steps: Vec<String> },
    /// Start the program in a directory.
    Start { cwd: String, args: Vec<String> },
    /// Have a process stopped, and wait until it is gone.
    Stop { id: String, generation: u64 },
}

/// The content of a [`Chore`].
pub enum ChoreView {
    AskVersion,
    MakeRoot { root: Seq<char> },
    FindRepository { root: Seq<char> },
    Git { root: Seq<char>, in_repository: bool, args: Seq<Seq<char>> },
    Survey { root: Seq<char> },
    TakeNumber,
    MakeDirectory { root: Seq<char>, steps: Seq<Seq<char>> },
    Start { cwd: Seq<char>, args: Seq<Seq<char>> },
    Stop { id: Seq<char>, generation: u64 },
}

impl View for Chore {
    type V = ChoreView;

    open spec fn view(&self) -> ChoreView {
        match *self {
            Chore::AskVersion => ChoreView::AskVersion,
            Chore::MakeRoot { root } => ChoreView::MakeRoot { root: root@ },
            Chore::FindRepository { root } => ChoreView::FindRepository { root: root@ },
            Chore::Git { root, in_repository, args } => ChoreView::Git {
                root: root@,
                in_repository,
                args: text_views(args@),
            },
            Chore::Survey { root } => ChoreView::Survey { root: root@ },
            Chore::TakeNumber => ChoreView::TakeNumber,
            Chore::MakeDirectory { root, steps } => ChoreView::MakeDirectory {
                root: root@,
                steps: text_views(steps@),
            },
            Chore::Start { cwd, args } => ChoreView::Start { cwd: cwd@, args: text_views(args@) },
            Chore::Stop { id, generation } => ChoreView::Stop { id: id@, generation },
        }
    }
}

/// How outside work ended.
pub enum ChoreEnd {
    /// A program has run.
    Ran(ToolEnd),
    /// The workspace root is there, or is not.
    RootMade(Result<(), String>),
    RepositoryFound(bool),
    Surveyed { path: String, ready: bool },
    Numbered(u64),
    /// The path of the directory; `None` where it is no text.
    DirectoryMade(Result<Option<String>, String>),
    /// A process was started, with this identifier.
    Started(Result<Option<u32>, String>),
    /// The answer to the demand to stop.
    Stopped(Result<Json, String>),
}

/// Which chore of the preparation is under way.
#[derive(Clone, Copy, PartialEq, Eq, Structural)]
pub enum Preparation {
    MakingRoot,
    FindingRepository,
    Cloning,
    CheckingOrigin,
    Surveying,
}

/// An errand under way.
pub enum Errand {
    AskingVersion,
    Preparing { stage: Preparation, version: String },
    /// A conversation is to be created: the origin of the repository is being checked.
    CheckingOrigin,
    /// It is being given a number.
    Numbering,
    MakingDirectory { id: String },
    AddingWorktree { id: String, cwd: String },
    Starting { id: String, cwd: String },
    /// A process is being stopped, to be replaced or not.
    Halting { id: String, restart: bool },
    Restarting,
}

/// The content of an [`Errand`].
pub enum ErrandView {
    AskingVersion,
    Preparing { stage: Preparation, version: Seq<char> },
    CheckingOrigin,
    Numbering,
    MakingDirectory { id: Seq<char> },
    AddingWorktree { id: Seq<char>, cwd: Seq<char> },
    Starting { id: Seq<char>, cwd: Seq<char> },
    Halting { id: Seq<char>, restart: bool },
    Restarting,
}

impl View for Errand {
    type V = ErrandView;

    open spec fn view(&self) -> ErrandView {
        match *self {
            Errand::AskingVersion => ErrandView::AskingVersion,
            Errand::Preparing { stage, version } => ErrandView::Preparing {
                stage,
                version: version@,
            },
            Errand::CheckingOrigin => ErrandView::CheckingOrigin,
            Errand::Numbering => ErrandView::Numbering,
            Errand::MakingDirectory { id } => ErrandView::MakingDirectory { id: id@ },
            Errand::AddingWorktree { id, cwd } => ErrandView::AddingWorktree { id: id@, cwd: cwd@ },
            Errand::Starting { id, cwd } => ErrandView::Starting { id: id@, cwd: cwd@ },
            Errand::Halting { id, restart } => ErrandView::Halting { id: id@, restart },
            Errand::Restarting => ErrandView::Restarting,
        }
    }
}

/// How an errand goes on.
pub enum Progress {
    /// The chore is to be done, and its end reported for the errand.
    Go { errand: Errand, chore: Chore },
    /// The errand is over, and this is the answer.
    Finished(Result<Json, String>),
}

/// The content of a [`Progress`].
pub enum ProgressView {
    Go { errand: ErrandView, chore: ChoreView },
    Finished(Result<JsonView, Seq<char>>),
}

impl View for Progress {
    type V = ProgressView;

    open spec fn view(&self) -> ProgressView {
        match *self {
            Progress::Go { errand, chore } => ProgressView::Go { errand: errand@, chore: chore@ },
            Progress::Finished(result) => ProgressView::Finished(result_view(result)),
        }
    }
}

/// Whether the end is one of the chore that the errand waits for.
pub open spec fn ends(errand: ErrandView, end: ChoreEnd) -> bool {
    match errand {
        ErrandView::AskingVersion => end is Ran,
        ErrandView::Preparing { stage, version } => match stage {
            Preparation::MakingRoot => end is RootMade,
            Preparation::FindingRepository => end is RepositoryFound,
            Preparation::Cloning => end is Ran,
            Preparation::CheckingOrigin => end is Ran,
            Preparation::Surveying => end is Surveyed,
        },
        ErrandView::CheckingOrigin => end is Ran,
        ErrandView::Numbering => end is Numbered,
        ErrandView::MakingDirectory { id } => end is DirectoryMade,
        ErrandView::AddingWorktree { id, cwd } => end is Ran,
        ErrandView::Starting { id, cwd } => end is Started,
        ErrandView::Halting { id, restart } => end is Stopped,
        ErrandView::Restarting => end is Started,
    }
}

/// Whether the errand is the one that the service is busy with.
pub open spec fn belongs<R>(errand: ErrandView, m: ManagerView<R>) -> bool {
    match errand {
        ErrandView::AskingVersion => m.lifecycle is Free,
        ErrandView::Preparing { stage, version } => m.lifecycle is Free,
        ErrandView::CheckingOrigin => m.lifecycle is Creating,
        ErrandView::Numbering => m.lifecycle is Creating,
        ErrandView::MakingDirectory { id } => m.lifecycle is Creating,
        ErrandView::AddingWorktree { id, cwd } => m.lifecycle is Creating,
        ErrandView::Starting { id, cwd } => m.lifecycle is Creating,
        ErrandView::Halting { id, restart } => m.lifecycle is Free,
        ErrandView::Restarting => m.lifecycle is Restarting,
    }
}

/// What the host has to have seen to: a process that is to be replaced is gone, and its
/// conversation can be counted on.
pub open spec fn replaceable<R>(errand: ErrandView, m: ManagerView<R>, end: ChoreEnd) -> bool {
    match errand {
        ErrandView::Halting { id, restart } => end matches ChoreEnd::Stopped(Ok(_)) ==> (found(
            m.agents,
            id,
        ) matches Some(s) && (restart ==> s.stage is Ended && record_countable(s.record))),
        ErrandView::Restarting => m.lifecycle matches LifecycleView::Restarting { id } && (found(
            m.agents,
            id,
        ) matches Some(s) ==> record_countable(s.record)),
        _ => true,
    }
}

/// What a Git operation says about the origin of the repository.
pub open spec fn origin_verdict(end: ToolEnd) -> Result<(), Seq<char>> {
    match git_outcome(end) {
        Err(e) => Err(e),
        Ok(output) => if expected_origin(output) {
            Ok(())
        } else {
            Err("现有 conduit 目录的 origin 与预期仓库不一致，未作修改"@)
        },
    }
}

/// The question where the repository below `root` came from.
pub open spec fn check_origin(root: Seq<char>) -> ChoreView {
    ChoreView::Git {
        root,
        in_repository: true,
        args: git_line(seq!["remote"@, "get-url"@, "origin"@]),
    }
}

/// The service, and how the errand goes on.
pub type Pursuit<R> = (ManagerView<R>, ProgressView);

/// The errand ends with an error, and a reserved place is given up.
pub open spec fn given_up<R>(m: ManagerView<R>, why: Seq<char>) -> Pursuit<R> {
    (freed(m), ProgressView::Finished(Err(why)))
}

/// The preparation goes on with its next chore.
pub open spec fn preparing<R>(
    m: ManagerView<R>,
    stage: Preparation,
    version: Seq<char>,
    chore: ChoreView,
) -> Pursuit<R> {
    (m, ProgressView::Go { errand: ErrandView::Preparing { stage, version }, chore })
}

/// The preparation is to begin.
pub open spec fn preparation_begun<R>(m: ManagerView<R>) -> Pursuit<R> {
    if m.closed {
        (m, ProgressView::Finished(Err("服务正在关闭"@)))
    } else {
        (m, ProgressView::Go { errand: ErrandView::AskingVersion, chore: ChoreView::AskVersion })
    }
}

/// The preparation after a chore: the version is asked for, the root is made, the repository
/// is cloned where it is not there, and its origin is checked in any case.
pub open spec fn preparation<R>(
    m: ManagerView<R>,
    stage: Preparation,
    version: Seq<char>,
    end: ChoreEnd,
) -> Pursuit<R> {
    match (stage, end) {
        (Preparation::MakingRoot, ChoreEnd::RootMade(Ok(()))) => preparing(
            m,
            Preparation::FindingRepository,
            version,
            ChoreView::FindRepository { root: m.workspace_root },
        ),
        (Preparation::MakingRoot, ChoreEnd::RootMade(Err(e))) => given_up(m, e@),
        (Preparation::FindingRepository, ChoreEnd::RepositoryFound(there)) => if there {
            preparing(m, Preparation::CheckingOrigin, version, check_origin(m.workspace_root))
        } else {
            preparing(
                m,
                Preparation::Cloning,
                version,
                ChoreView::Git {
                    root: m.workspace_root,
                    in_repository: false,
                    args: git_line(seq!["clone"@, "--"@, CONDUIT_REPOSITORY@, "conduit"@]),
                },
            )
        },
        (Preparation::Cloning, ChoreEnd::Ran(end)) => match git_outcome(end) {
            Err(e) => given_up(m, e),
            Ok(_) => preparing(m, Preparation::CheckingOrigin, version, check_origin(m.workspace_root)),
        },
        (Preparation::CheckingOrigin, ChoreEnd::Ran(end)) => match origin_verdict(end) {
            Err(e) => given_up(m, e),
            Ok(()) => preparing(
                m,
                Preparation::Surveying,
                version,
                ChoreView::Survey { root: m.workspace_root },
            ),
        },
        (Preparation::Surveying, ChoreEnd::Surveyed { path, ready }) => (
            m,
            ProgressView::Finished(Ok(status_document(m, path@, ready, Some(version)))),
        ),
        _ => (m, ProgressView::Finished(Err(Seq::empty()))),
    }
}

/// A conversation is to be created.
pub open spec fn creation_begun<R>(m: ManagerView<R>, label: Seq<char>) -> Pursuit<R> {
    match creation_obstacle(m, label) {
        Some(why) => (m, ProgressView::Finished(Err(why))),
        None => (
            ManagerView { lifecycle: LifecycleView::Creating { label }, ..m },
            ProgressView::Go { errand: ErrandView::CheckingOrigin, chore: check_origin(m.workspace_root) },
        ),
    }
}

/// A process is started for the conversation that is being restarted, unless there are too
/// many processes.
pub open spec fn replacement<R>(m: ManagerView<R>, id: Seq<char>) -> Pursuit<R> {
    match restart_obstacle(m) {
        Some(why) => (m, ProgressView::Finished(Err(why))),
        None => {
            let info = (found(m.agents, id)->0).record.info;
            (
                restarting(m, id),
                ProgressView::Go {
                    errand: ErrandView::Restarting,
                    chore: ChoreView::Start {
                        cwd: info.cwd,
                        args: conversation_arguments(info.session_id),
                    },
                },
            )
        },
    }
}

/// The process of a conversation is gone.
pub open spec fn halted<R>(m: ManagerView<R>, id: Seq<char>, restart: bool) -> Pursuit<R> {
    if restart {
        replacement(m, id)
    } else {
        (m, ProgressView::Finished(Ok(info_document((found(m.agents, id)->0).record.info))))
    }
}

/// A conversation is to be stopped, or stopped and restarted.
pub open spec fn halt_begun<R>(
    m: ManagerView<R>,
    id: Seq<char>,
    generation: u64,
    restart: bool,
) -> Pursuit<R> {
    match target_obstacle(m, id, generation) {
        Some(why) => (m, ProgressView::Finished(Err(why))),
        None => if runs(found(m.agents, id)->0) {
            (
                m,
                ProgressView::Go {
                    errand: ErrandView::Halting { id, restart },
                    chore: ChoreView::Stop { id, generation },
                },
            )
        } else {
            halted(m, id, restart)
        },
    }
}

/// The service and the errand after a chore has ended.
pub open spec fn pursued<R>(
    errand: ErrandView,
    m: ManagerView<R>,
    end: ChoreEnd,
    now_ms: u64,
) -> Pursuit<R> {
    match (errand, end) {
        (ErrandView::AskingVersion, ChoreEnd::Ran(end)) => match version_outcome(m.names, end) {
            Err(e) => given_up(m, e),
            Ok(version) => preparing(
                m,
                Preparation::MakingRoot,
                version,
                ChoreView::MakeRoot { root: m.workspace_root },
            ),
        },
        (ErrandView::Preparing { stage, version }, end) => preparation(m, stage, version, end),
        (ErrandView::CheckingOrigin, ChoreEnd::Ran(end)) => match origin_verdict(end) {
            Err(e) => given_up(m, "请先准备 conduit 项目："@ + e),
            Ok(()) => (
                m,
                ProgressView::Go { errand: ErrandView::Numbering, chore: ChoreView::TakeNumber },
            ),
        },
        (ErrandView::Numbering, ChoreEnd::Numbered(number)) => {
            let id = agent_identifier(now_ms, number);
            (
                m,
                ProgressView::Go {
                    errand: ErrandView::MakingDirectory { id },
                    chore: ChoreView::MakeDirectory {
                        root: m.workspace_root,
                        steps: seq!["agents"@, id, "conduit"@],
                    },
                },
            )
        },
        (ErrandView::MakingDirectory { id }, ChoreEnd::DirectoryMade(made)) => match made {
            Err(e) => given_up(m, e@),
            Ok(None) => given_up(m, "目录不是 UTF-8"@),
            Ok(Some(cwd)) => (
                m,
                ProgressView::Go {
                    errand: ErrandView::AddingWorktree { id, cwd: cwd@ },
                    chore: ChoreView::Git {
                        root: m.workspace_root,
                        in_repository: true,
                        args: git_line(seq!["worktree"@, "add"@, "--detach"@, cwd@, "HEAD"@]),
                    },
                },
            ),
        },
        (ErrandView::AddingWorktree { id, cwd }, ChoreEnd::Ran(end)) => match git_outcome(end) {
            Err(e) => given_up(m, e),
            Ok(_) => (
                m,
                ProgressView::Go {
                    errand: ErrandView::Starting { id, cwd },
                    chore: ChoreView::Start { cwd, args: conversation_arguments(None) },
                },
            ),
        },
        (ErrandView::Starting { id, cwd }, ChoreEnd::Started(result)) => {
            let (after, answer) = creation(m, id, cwd, start_view(result), now_ms);
            (after, ProgressView::Finished(answer))
        },
        (ErrandView::Halting { id, restart }, ChoreEnd::Stopped(answer)) => match answer {
            Err(e) => (m, ProgressView::Finished(Err(e@))),
            Ok(_) => halted(m, id, restart),
        },
        (ErrandView::Restarting, ChoreEnd::Started(result)) => {
            let (after, answer) = restart_result(m, start_view(result), now_ms);
            (after, ProgressView::Finished(answer))
        },
        _ => (m, ProgressView::Finished(Err(Seq::empty()))),
    }
}

fn origin_chore(root: &str) -> (chore: Chore)
    ensures
        chore@ == check_origin(root@),
{
    Chore::Git { root: root.to_owned(), in_repository: true, args: origin_arguments() }
}

fn origin_of(end: ToolEnd) -> (verdict: Result<(), String>)
    ensures
        match verdict {
            Ok(()) => origin_verdict(end) == Ok::<(), Seq<char>>(()),
            Err(e) => origin_verdict(end) == Err::<(), Seq<char>>(e@),
        },
{
    verify_repository(git(end))
}

impl<R> AgentManager<R> {
    /// Begins to prepare the repository.
    pub fn prepare(&self) -> (progress: Progress)
        requires
            self@.lifecycle is Free,
        ensures
            (self@, progress@) == preparation_begun(self@),
    {
        match self.check_open() {
            Err(why) => Progress::Finished(Err(why)),
            Ok(()) => Progress::Go { errand: Errand::AskingVersion, chore: Chore::AskVersion },
        }
    }

    /// Begins to create a conversation.
    pub fn create(&mut self, label: String) -> (progress: Progress)
        requires
            old(self).well_formed(),
            old(self)@.lifecycle is Free,
        ensures
            final(self).well_formed(),
            (final(self)@, progress@) == creation_begun(old(self)@, label@),
    {
        match self.reserve(label) {
            Err(why) => Progress::Finished(Err(why)),
            Ok(()) => Progress::Go { errand: Errand::CheckingOrigin, chore: origin_chore(self.workspace_root()) },
        }
    }

    /// Begins to stop a conversation, or to restart it.
    pub fn halt(&mut self, id: String, generation: u64, restart: bool) -> (progress: Progress)
        requires
            old(self).well_formed(),
            old(self)@.lifecycle is Free,
            found(old(self)@.agents, id@) matches Some(s) ==> record_countable(s.record),
        ensures
            final(self).well_formed(),
            (final(self)@, progress@) == halt_begun(old(self)@, id@, generation, restart),
    {
        match self.target(id.as_str(), generation) {
            Err(why) => Progress::Finished(Err(why)),
            Ok(alive) => {
                if alive {
                    let chore = Chore::Stop { id: id.clone(), generation };
                    Progress::Go { errand: Errand::Halting { id, restart }, chore }
                } else {
                    proof {
                        crate::agents::a_conversation_without_process_has_ended(self@, id@);
                    }
                    self.halted(id, restart)
                }
            },
        }
    }

    fn halted(&mut self, id: String, restart: bool) -> (progress: Progress)
        requires
            old(self).well_formed(),
            old(self)@.lifecycle is Free,
            found(old(self)@.agents, id@) matches Some(s) && (restart ==> s.stage is Ended
                && record_countable(s.record)),
        ensures
            final(self).well_formed(),
            (final(self)@, progress@) == halted(old(self)@, id@, restart),
    {
        if !restart {
            return Progress::Finished(self.snapshot(id.as_str()));
        }
        let (cwd, args) = self.launch(id.as_str());
        match self.restart(id.as_str()) {
            Err(why) => Progress::Finished(Err(why)),
            Ok(()) => Progress::Go { errand: Errand::Restarting, chore: Chore::Start { cwd, args } },
        }
    }

    fn prepare_on(&self, stage: Preparation, version: String, end: ChoreEnd) -> (progress: Progress)
        requires
            self@.lifecycle is Free,
        ensures
            (self@, progress@) == preparation(self@, stage, version@, end),
    {
        match (stage, end) {
            (Preparation::MakingRoot, ChoreEnd::RootMade(made)) => match made {
                Ok(()) => Progress::Go {
                    errand: Errand::Preparing { stage: Preparation::FindingRepository, version },
                    chore: Chore::FindRepository { root: self.workspace_root().to_owned() },
                },
                Err(e) => Progress::Finished(Err(e)),
            },
            (Preparation::FindingRepository, ChoreEnd::RepositoryFound(there)) => {
                if there {
                    Progress::Go {
                        errand: Errand::Preparing { stage: Preparation::CheckingOrigin, version },
                        chore: origin_chore(self.workspace_root()),
                    }
                } else {
                    Progress::Go {
                        errand: Errand::Preparing { stage: Preparation::Cloning, version },
                        chore: Chore::Git {
                            root: self.workspace_root().to_owned(),
                            in_repository: false,
                            args: clone_arguments(),
                        },
                    }
                }
            },
            (Preparation::Cloning, ChoreEnd::Ran(end)) => match git(end) {
                Err(e) => Progress::Finished(Err(e)),
                Ok(_) => Progress::Go {
                    errand: Errand::Preparing { stage: Preparation::CheckingOrigin, version },
                    chore: origin_chore(self.workspace_root()),
                },
            },
            (Preparation::CheckingOrigin, ChoreEnd::Ran(end)) => match origin_of(end) {
                Err(e) => Progress::Finished(Err(e)),
                Ok(()) => Progress::Go {
                    errand: Errand::Preparing { stage: Preparation::Surveying, version },
                    chore: Chore::Survey { root: self.workspace_root().to_owned() },
                },
            },
            (Preparation::Surveying, ChoreEnd::Surveyed { path, ready }) => Progress::Finished(
                Ok(self.prepared(path.as_str(), ready, version.as_str())),
            ),
            _ => Progress::Finished(Err(String::new())),
        }
    }

    /// Whether the end of a chore can be taken: it is one that the errand waits for, the service
    /// is busy with this errand, and a process that is to be replaced is gone.
    pub fn is_pursuable(&self, errand: &Errand, end: &ChoreEnd) -> (yes: bool)
        requires
            self.well_formed(),
        ensures
            yes == (belongs(errand@, self@) && ends(errand@, *end) && replaceable(
                errand@,
                self@,
                *end,
            )),
    {
        let belongs: bool = match errand {
            Errand::AskingVersion | Errand::Preparing { .. } | Errand::Halting { .. } => {
                self.is_free()
            },
            Errand::Restarting => matches!(self.lifecycle(), Lifecycle::Restarting { .. }),
            _ => matches!(self.lifecycle(), Lifecycle::Creating { .. }),
        };
        if !belongs {
            return false;
        }
        match (errand, end) {
            (Errand::Preparing { stage, .. }, end) => match stage {
                Preparation::MakingRoot => matches!(end, ChoreEnd::RootMade(_)),
                Preparation::FindingRepository => matches!(end, ChoreEnd::RepositoryFound(_)),
                Preparation::Cloning | Preparation::CheckingOrigin => matches!(
                    end,
                    ChoreEnd::Ran(_)
                ),
                Preparation::Surveying => matches!(end, ChoreEnd::Surveyed { .. }),
            },
            (
                Errand::AskingVersion | Errand::CheckingOrigin | Errand::AddingWorktree { .. },
                ChoreEnd::Ran(_),
            ) => true,
            (Errand::Numbering, ChoreEnd::Numbered(_)) => true,
            (Errand::MakingDirectory { .. }, ChoreEnd::DirectoryMade(_)) => true,
            (Errand::Starting { .. }, ChoreEnd::Started(_)) => true,
            (Errand::Halting { id, restart }, ChoreEnd::Stopped(answer)) => {
                answer.is_err() || if *restart {
                    self.is_ended(id.as_str()) && self.has_room(id.as_str())
                } else {
                    self.handle(id.as_str()).is_ok()
                }
            },
            (Errand::Restarting, ChoreEnd::Started(_)) => match self.lifecycle() {
                Lifecycle::Restarting { id } => self.has_room(id.as_str()),
                _ => false,
            },
            _ => false,
        }
    }

    /// Takes the end of the chore that an errand waits for.
    pub fn pursue(&mut self, errand: Errand, end: ChoreEnd, now_ms: u64) -> (progress: Progress)
        requires
            old(self).well_formed(),
            belongs(errand@, old(self)@),
            ends(errand@, end),
            replaceable(errand@, old(self)@, end),
        ensures
            final(self).well_formed(),
            (final(self)@, progress@) == pursued(errand@, old(self)@, end, now_ms),
    {
        match (errand, end) {
            (Errand::AskingVersion, ChoreEnd::Ran(end)) => match version(self.names(), end) {
                Err(e) => Progress::Finished(Err(e)),
                Ok(version) => Progress::Go {
                    errand: Errand::Preparing { stage: Preparation::MakingRoot, version },
                    chore: Chore::MakeRoot { root: self.workspace_root().to_owned() },
                },
            },
            (Errand::Preparing { stage, version }, end) => self.prepare_on(stage, version, end),
            (Errand::CheckingOrigin, ChoreEnd::Ran(end)) => match origin_of(end) {
                Err(e) => {
                    self.abandon();
                    Progress::Finished(
                        Err("请先准备 conduit 项目：".to_owned().concat(e.as_str())),
                    )
                },
                Ok(()) => Progress::Go { errand: Errand::Numbering, chore: Chore::TakeNumber },
            },
            (Errand::Numbering, ChoreEnd::Numbered(number)) => {
                let id = agent_id(now_ms, number);
                let steps = agent_directory(id.as_str());
                let root = self.workspace_root().to_owned();
                Progress::Go {
                    errand: Errand::MakingDirectory { id },
                    chore: Chore::MakeDirectory { root, steps },
                }
            },
            (Errand::MakingDirectory { id }, ChoreEnd::DirectoryMade(made)) => match made {
                Err(e) => {
                    self.abandon();
                    Progress::Finished(Err(e))
                },
                Ok(None) => {
                    self.abandon();
                    Progress::Finished(Err("目录不是 UTF-8".to_owned()))
                },
                Ok(Some(cwd)) => {
                    let args = worktree_arguments(cwd.as_str());
                    let root = self.workspace_root().to_owned();
                    Progress::Go {
                        errand: Errand::AddingWorktree { id, cwd },
                        chore: Chore::Git { root, in_repository: true, args },
                    }
                },
            },
            (Errand::AddingWorktree { id, cwd }, ChoreEnd::Ran(end)) => match git(end) {
                Err(e) => {
                    self.abandon();
                    Progress::Finished(Err(e))
                },
                Ok(_) => {
                    let chore = Chore::Start { cwd: cwd.clone(), args: agent_arguments(&None) };
                    Progress::Go { errand: Errand::Starting { id, cwd }, chore }
                },
            },
            (Errand::Starting { id, cwd }, ChoreEnd::Started(result)) => Progress::Finished(
                self.created(id, cwd, result, now_ms),
            ),
            (Errand::Halting { id, restart }, ChoreEnd::Stopped(answer)) => match answer {
                Err(e) => Progress::Finished(Err(e)),
                Ok(_) => self.halted(id, restart),
            },
            (Errand::Restarting, ChoreEnd::Started(result)) => Progress::Finished(
                self.restarted(result, now_ms),
            ),
            _ => Progress::Finished(Err(String::new())),
        }
    }
}

/// An errand that is over leaves the service free for the next one.
pub proof fn a_finished_errand_leaves_the_service_free<R>(
    errand: ErrandView,
    m: ManagerView<R>,
    end: ChoreEnd,
    now_ms: u64,
)
    requires
        belongs(errand, m),
        ends(errand, end),
    ensures
        pursued(errand, m, end, now_ms).1 is Finished ==> pursued(
            errand,
            m,
            end,
            now_ms,
        ).0.lifecycle is Free,
        pursued(errand, m, end, now_ms).1 matches ProgressView::Go { errand: later, chore }
            ==> belongs(later, pursued(errand, m, end, now_ms).0),
{
}

/// A conversation is created only below a repository whose origin has been checked, and its
/// process is started only after its own directory has been set up.
pub proof fn conversations_are_created_step_by_step<R>(
    errand: ErrandView,
    m: ManagerView<R>,
    end: ChoreEnd,
    now_ms: u64,
)
    requires
        belongs(errand, m),
        ends(errand, end),
    ensures
        ({
            let (after, progress) = pursued(errand, m, end, now_ms);
            &&& (progress matches ProgressView::Go { errand: later, chore } && later is Numbering)
                ==> errand is CheckingOrigin && (end matches ChoreEnd::Ran(tool) && origin_verdict(
                tool,
            ) is Ok)
            &&& (progress matches ProgressView::Go { errand: later, chore } && later
                is MakingDirectory) ==> errand is Numbering
            &&& (progress matches ProgressView::Go { errand: later, chore } && later is Starting)
                ==> errand is AddingWorktree && (end matches ChoreEnd::Ran(tool) && git_outcome(
                tool,
            ) is Ok)
            &&& after.agents != m.agents && errand !is Restarting && errand !is Halting
                ==> errand is Starting
        }),
{
}

} // verus!
