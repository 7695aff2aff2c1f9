//! A command from its beginning to its end.
//!
//! A command asks for one task after another and says what is printed before each,
//! until it ends with what is printed last. Who runs it prints, performs the tasks
//! and hands back the answers.

use crate::cmd::prune;
use crate::cmd::repo;
use crate::cmd::session;
use crate::cmd::table;
use crate::cmd::workspace;
use crate::error;
use crate::error::{SwarmError, SwarmErrorView};
use crate::opts::{
    Command, CommandView, PruneSubcommand, PruneSubcommandView, RepoSubcommand, RepoSubcommandView,
    SessionSubcommand, SessionSubcommandView, WorkspaceSubcommand, WorkspaceSubcommandView,
};
use crate::repos::{Repository, RepositoryView};
use crate::sessions::{Session, SessionView};
use crate::text;
use crate::workspaces;
use crate::workspaces::{Workspace, WorkspaceView};
use vstd::prelude::*;

verus! {

/// One thing that a command asks for.
#[derive(Debug)]
pub enum Task {
    AddRepository { repository: String, alias: Option<String> },
    SyncRepository(String),
    RemoveRepository(String),
    ListRepositories,
    CreateWorkspace { repository: String, name: Option<String> },
    CloneWorkspace { workspace: String, name: String },
    ListWorkspaces(String),
    ShowWorkspace(String),
    RemoveWorkspace(String),
    StartDefaultSession(String),
    CreateSession { workspace: String, command: Vec<String> },
    ListSessions(Option<String>),
    ShowSession(String),
    AttachSession { session: String, follow: bool },
    StopSession(String),
    RemoveSession(String),
    Serve { repository: String, repo_db_path: String, workspace: String, session: String, session_dir: String, workspace_dir: String, command: Vec<String> },
    PruneSessions,
}

/// What a `Task` holds.
#[verifier::ext_equal]
pub enum TaskView {
    AddRepository { repository: Seq<char>, alias: Option<Seq<char>> },
    SyncRepository(Seq<char>),
    RemoveRepository(Seq<char>),
    ListRepositories,
    CreateWorkspace { repository: Seq<char>, name: Option<Seq<char>> },
    CloneWorkspace { workspace: Seq<char>, name: Seq<char> },
    ListWorkspaces(Seq<char>),
    ShowWorkspace(Seq<char>),
    RemoveWorkspace(Seq<char>),
    StartDefaultSession(Seq<char>),
    CreateSession { workspace: Seq<char>, command: Seq<Seq<char>> },
    ListSessions(Option<Seq<char>>),
    ShowSession(Seq<char>),
    AttachSession { session: Seq<char>, follow: bool },
    StopSession(Seq<char>),
    RemoveSession(Seq<char>),
    Serve { repository: Seq<char>, repo_db_path: Seq<char>, workspace: Seq<char>, session: Seq<char>, session_dir: Seq<char>, workspace_dir: Seq<char>, command: Seq<Seq<char>> },
    PruneSessions,
}

impl View for Task {
    type V = TaskView;

    open spec fn view(&self) -> TaskView {
        match self {
            Task::AddRepository { repository, alias } => TaskView::AddRepository {
                repository: repository@,
                alias: alias.deep_view(),
            },
            Task::SyncRepository(a) => TaskView::SyncRepository(a@),
            Task::RemoveRepository(a) => TaskView::RemoveRepository(a@),
            Task::ListRepositories => TaskView::ListRepositories,
            Task::CreateWorkspace { repository, name } => TaskView::CreateWorkspace {
                repository: repository@,
                name: name.deep_view(),
            },
            Task::CloneWorkspace { workspace, name } => TaskView::CloneWorkspace {
                workspace: workspace@,
                name: name@,
            },
            Task::ListWorkspaces(a) => TaskView::ListWorkspaces(a@),
            Task::ShowWorkspace(a) => TaskView::ShowWorkspace(a@),
            Task::RemoveWorkspace(a) => TaskView::RemoveWorkspace(a@),
            Task::StartDefaultSession(a) => TaskView::StartDefaultSession(a@),
            Task::CreateSession { workspace, command } => TaskView::CreateSession {
                workspace: workspace@,
                command: command.deep_view(),
            },
            Task::ListSessions(a) => TaskView::ListSessions(a.deep_view()),
            Task::ShowSession(a) => TaskView::ShowSession(a@),
            Task::AttachSession { session, follow } => TaskView::AttachSession {
                session: session@,
                follow: *follow,
            },
            Task::StopSession(a) => TaskView::StopSession(a@),
            Task::RemoveSession(a) => TaskView::RemoveSession(a@),
            Task::Serve { repository, repo_db_path, workspace, session, session_dir, workspace_dir, command } => TaskView::Serve {
                repository: repository@,
                repo_db_path: repo_db_path@,
                workspace: workspace@,
                session: session@,
                session_dir: session_dir@,
                workspace_dir: workspace_dir@,
                command: command.deep_view(),
            },
            Task::PruneSessions => TaskView::PruneSessions,
        }
    }
}

impl DeepView for Task {
    type V = TaskView;

    open spec fn deep_view(&self) -> TaskView {
        self@
    }
}

impl Clone for Task {
    fn clone(&self) -> (r: Self)
        ensures
            r@ == self@,
    {
        match self {
            Task::AddRepository { repository, alias } => Task::AddRepository {
                repository: repository.clone(),
                alias: alias.clone(),
            },
            Task::SyncRepository(a) => Task::SyncRepository(a.clone()),
            Task::RemoveRepository(a) => Task::RemoveRepository(a.clone()),
            Task::ListRepositories => Task::ListRepositories,
            Task::CreateWorkspace { repository, name } => Task::CreateWorkspace {
                repository: repository.clone(),
                name: name.clone(),
            },
            Task::CloneWorkspace { workspace, name } => Task::CloneWorkspace {
                workspace: workspace.clone(),
                name: name.clone(),
            },
            Task::ListWorkspaces(a) => Task::ListWorkspaces(a.clone()),
            Task::ShowWorkspace(a) => Task::ShowWorkspace(a.clone()),
            Task::RemoveWorkspace(a) => Task::RemoveWorkspace(a.clone()),
            Task::StartDefaultSession(a) => Task::StartDefaultSession(a.clone()),
            Task::CreateSession { workspace, command } => Task::CreateSession {
                workspace: workspace.clone(),
                command: command.clone(),
            },
            Task::ListSessions(a) => Task::ListSessions(a.clone()),
            Task::ShowSession(a) => Task::ShowSession(a.clone()),
            Task::AttachSession { session, follow } => Task::AttachSession {
                session: session.clone(),
                follow: *follow,
            },
            Task::StopSession(a) => Task::StopSession(a.clone()),
            Task::RemoveSession(a) => Task::RemoveSession(a.clone()),
            Task::Serve { repository, repo_db_path, workspace, session, session_dir, workspace_dir, command } => Task::Serve {
                repository: repository.clone(),
                repo_db_path: repo_db_path.clone(),
                workspace: workspace.clone(),
                session: session.clone(),
                session_dir: session_dir.clone(),
                workspace_dir: workspace_dir.clone(),
                command: command.clone(),
            },
            Task::PruneSessions => Task::PruneSessions,
        }
    }
}

/// What a command hears back. Any task can fail. Otherwise a task on one thing gives
/// the thing, a list gives all of them, pruning gives a number, and attaching and
/// serving are done.
#[derive(Debug)]
pub enum Answer {
    Done,
    Repository(Repository),
    Repositories(Vec<Repository>),
    Workspace(Workspace),
    Workspaces(Vec<Workspace>),
    Session(Session),
    Sessions(Vec<Session>),
    Count(usize),
    Failed(SwarmError),
}

/// What an `Answer` holds.
#[verifier::ext_equal]
pub enum AnswerView {
    Done,
    Repository(RepositoryView),
    Repositories(Seq<RepositoryView>),
    Workspace(WorkspaceView),
    Workspaces(Seq<WorkspaceView>),
    Session(SessionView),
    Sessions(Seq<SessionView>),
    Count(usize),
    Failed(SwarmErrorView),
}

impl View for Answer {
    type V = AnswerView;

    open spec fn view(&self) -> AnswerView {
        match self {
            Answer::Done => AnswerView::Done,
            Answer::Repository(a) => AnswerView::Repository(a@),
            Answer::Repositories(a) => AnswerView::Repositories(a.deep_view()),
            Answer::Workspace(a) => AnswerView::Workspace(a@),
            Answer::Workspaces(a) => AnswerView::Workspaces(a.deep_view()),
            Answer::Session(a) => AnswerView::Session(a@),
            Answer::Sessions(a) => AnswerView::Sessions(a.deep_view()),
            Answer::Count(a) => AnswerView::Count(*a),
            Answer::Failed(a) => AnswerView::Failed(a@),
        }
    }
}

impl DeepView for Answer {
    type V = AnswerView;

    open spec fn deep_view(&self) -> AnswerView {
        self@
    }
}

impl Clone for Answer {
    fn clone(&self) -> (r: Self)
        ensures
            r@ == self@,
    {
        match self {
            Answer::Done => Answer::Done,
            Answer::Repository(a) => Answer::Repository(a.clone()),
            Answer::Repositories(a) => Answer::Repositories(a.clone()),
            Answer::Workspace(a) => Answer::Workspace(a.clone()),
            Answer::Workspaces(a) => Answer::Workspaces(a.clone()),
            Answer::Session(a) => Answer::Session(a.clone()),
            Answer::Sessions(a) => Answer::Sessions(a.clone()),
            Answer::Count(a) => Answer::Count(*a),
            Answer::Failed(a) => Answer::Failed(a.clone()),
        }
    }
}

/// What a command prints last: lines, or a list for machines to read.
#[derive(Debug)]
pub enum Output {
    Lines(Vec<String>),
    Repositories(Vec<Repository>),
    Workspaces(Vec<Workspace>),
    Sessions(Vec<Session>),
}

/// What an `Output` holds.
#[verifier::ext_equal]
pub enum OutputView {
    Lines(Seq<Seq<char>>),
    Repositories(Seq<RepositoryView>),
    Workspaces(Seq<WorkspaceView>),
    Sessions(Seq<SessionView>),
}

impl View for Output {
    type V = OutputView;

    open spec fn view(&self) -> OutputView {
        match self {
            Output::Lines(a) => OutputView::Lines(a.deep_view()),
            Output::Repositories(a) => OutputView::Repositories(a.deep_view()),
            Output::Workspaces(a) => OutputView::Workspaces(a.deep_view()),
            Output::Sessions(a) => OutputView::Sessions(a.deep_view()),
        }
    }
}

impl DeepView for Output {
    type V = OutputView;

    open spec fn deep_view(&self) -> OutputView {
        self@
    }
}

impl Clone for Output {
    fn clone(&self) -> (r: Self)
        ensures
            r@ == self@,
    {
        match self {
            Output::Lines(a) => Output::Lines(a.clone()),
            Output::Repositories(a) => Output::Repositories(a.clone()),
            Output::Workspaces(a) => Output::Workspaces(a.clone()),
            Output::Sessions(a) => Output::Sessions(a.clone()),
        }
    }
}

/// What a command waits for.
#[derive(Debug)]
pub enum Run {
    Added,
    Synced,
    Removed,
    Listed(bool),
    WorkspaceCreated,
    WorkspaceCloned(String),
    WorkspacesListed(bool),
    WorkspaceShown,
    WorkspaceRemoved,
    DefaultStarted,
    SessionCreated,
    SessionsListed(bool),
    SessionShown,
    SessionDone,
    SessionStopped,
    SessionRemoved,
    Pruned,
}

/// What a `Run` holds.
#[verifier::ext_equal]
pub enum RunView {
    Added,
    Synced,
    Removed,
    Listed(bool),
    WorkspaceCreated,
    WorkspaceCloned(Seq<char>),
    WorkspacesListed(bool),
    WorkspaceShown,
    WorkspaceRemoved,
    DefaultStarted,
    SessionCreated,
    SessionsListed(bool),
    SessionShown,
    SessionDone,
    SessionStopped,
    SessionRemoved,
    Pruned,
}

impl View for Run {
    type V = RunView;

    open spec fn view(&self) -> RunView {
        match self {
            Run::Added => RunView::Added,
            Run::Synced => RunView::Synced,
            Run::Removed => RunView::Removed,
            Run::Listed(a) => RunView::Listed(*a),
            Run::WorkspaceCreated => RunView::WorkspaceCreated,
            Run::WorkspaceCloned(a) => RunView::WorkspaceCloned(a@),
            Run::WorkspacesListed(a) => RunView::WorkspacesListed(*a),
            Run::WorkspaceShown => RunView::WorkspaceShown,
            Run::WorkspaceRemoved => RunView::WorkspaceRemoved,
            Run::DefaultStarted => RunView::DefaultStarted,
            Run::SessionCreated => RunView::SessionCreated,
            Run::SessionsListed(a) => RunView::SessionsListed(*a),
            Run::SessionShown => RunView::SessionShown,
            Run::SessionDone => RunView::SessionDone,
            Run::SessionStopped => RunView::SessionStopped,
            Run::SessionRemoved => RunView::SessionRemoved,
            Run::Pruned => RunView::Pruned,
        }
    }
}

impl DeepView for Run {
    type V = RunView;

    open spec fn deep_view(&self) -> RunView {
        self@
    }
}

impl Clone for Run {
    fn clone(&self) -> (r: Self)
        ensures
            r@ == self@,
    {
        match self {
            Run::Added => Run::Added,
            Run::Synced => Run::Synced,
            Run::Removed => Run::Removed,
            Run::Listed(a) => Run::Listed(*a),
            Run::WorkspaceCreated => Run::WorkspaceCreated,
            Run::WorkspaceCloned(a) => Run::WorkspaceCloned(a.clone()),
            Run::WorkspacesListed(a) => Run::WorkspacesListed(*a),
            Run::WorkspaceShown => Run::WorkspaceShown,
            Run::WorkspaceRemoved => Run::WorkspaceRemoved,
            Run::DefaultStarted => Run::DefaultStarted,
            Run::SessionCreated => Run::SessionCreated,
            Run::SessionsListed(a) => Run::SessionsListed(*a),
            Run::SessionShown => Run::SessionShown,
            Run::SessionDone => Run::SessionDone,
            Run::SessionStopped => Run::SessionStopped,
            Run::SessionRemoved => Run::SessionRemoved,
            Run::Pruned => Run::Pruned,
        }
    }
}

/// What a command does next: print lines, ask for a task and wait in a state, or end.
/// An answer of another sort than the task's is a mismatch.
#[derive(Debug)]
pub enum RunStep {
    Ask(Vec<String>, Task, Run),
    Finish(Result<Output, SwarmError>),
    Mismatch,
}

/// What a `RunStep` holds.
#[verifier::ext_equal]
pub enum RunStepView {
    Ask(Seq<Seq<char>>, TaskView, RunView),
    Finish(Result<OutputView, SwarmErrorView>),
    Mismatch,
}

impl View for RunStep {
    type V = RunStepView;

    open spec fn view(&self) -> RunStepView {
        match self {
            RunStep::Ask(lines, task, state) => RunStepView::Ask(
                lines.deep_view(),
                task@,
                state@,
            ),
            RunStep::Finish(Ok(output)) => RunStepView::Finish(Ok(output@)),
            RunStep::Finish(Err(e)) => RunStepView::Finish(Err(e@)),
            RunStep::Mismatch => RunStepView::Mismatch,
        }
    }
}

/// The task that a command on repositories begins with.
pub open spec fn repo_task(command: RepoSubcommandView) -> (TaskView, RunView) {
    match command {
        RepoSubcommandView::Add { repository, alias } => (
            TaskView::AddRepository { repository, alias },
            RunView::Added,
        ),
        RepoSubcommandView::Sync { repository } => (
            TaskView::SyncRepository(repository),
            RunView::Synced,
        ),
        RepoSubcommandView::Remove { repository } => (
            TaskView::RemoveRepository(repository),
            RunView::Removed,
        ),
        RepoSubcommandView::List { json } => (TaskView::ListRepositories, RunView::Listed(json)),
    }
}

/// The task that a command on workspaces begins with.
pub open spec fn workspace_task(command: WorkspaceSubcommandView) -> (TaskView, RunView) {
    match command {
        WorkspaceSubcommandView::Create { repository, name } => (
            TaskView::CreateWorkspace { repository, name },
            RunView::WorkspaceCreated,
        ),
        WorkspaceSubcommandView::Clone { workspace, name } => (
            TaskView::CloneWorkspace { workspace, name },
            RunView::WorkspaceCloned(workspace),
        ),
        WorkspaceSubcommandView::List { repository, json } => (
            TaskView::ListWorkspaces(repository),
            RunView::WorkspacesListed(json),
        ),
        WorkspaceSubcommandView::Info { workspace } => (
            TaskView::ShowWorkspace(workspace),
            RunView::WorkspaceShown,
        ),
        WorkspaceSubcommandView::Remove { workspace } => (
            TaskView::RemoveWorkspace(workspace),
            RunView::WorkspaceRemoved,
        ),
    }
}

/// The task that a command on sessions begins with.
pub open spec fn session_task(command: SessionSubcommandView) -> (TaskView, RunView) {
    match command {
        SessionSubcommandView::Create { workspace, command } => (
            TaskView::CreateSession { workspace, command },
            RunView::SessionCreated,
        ),
        SessionSubcommandView::List { workspace, json } => (
            TaskView::ListSessions(workspace),
            RunView::SessionsListed(json),
        ),
        SessionSubcommandView::Info { session } => (
            TaskView::ShowSession(session),
            RunView::SessionShown,
        ),
        SessionSubcommandView::Attach { session, follow } => (
            TaskView::AttachSession { session, follow },
            RunView::SessionDone,
        ),
        SessionSubcommandView::Stop { session } => (
            TaskView::StopSession(session),
            RunView::SessionStopped,
        ),
        SessionSubcommandView::Remove { session } => (
            TaskView::RemoveSession(session),
            RunView::SessionRemoved,
        ),
        SessionSubcommandView::Serve {
            repository,
            repo_db_path,
            workspace,
            session,
            session_dir,
            workspace_dir,
            command,
        } => (
            TaskView::Serve {
                repository,
                repo_db_path,
                workspace,
                session,
                session_dir,
                workspace_dir,
                command,
            },
            RunView::SessionDone,
        ),
    }
}

/// The first step of a command.
pub open spec fn run_start(command: CommandView) -> RunStepView {
    let first = match command {
        CommandView::Prune(c) => match c.command {
            PruneSubcommandView::Sessions => (TaskView::PruneSessions, RunView::Pruned),
        },
        CommandView::Repo(c) => repo_task(c.command),
        CommandView::Session(c) => session_task(c.command),
        CommandView::Workspace(c) => workspace_task(c.command),
    };
    RunStepView::Ask(seq![], first.0, first.1)
}

/// The end of a command that prints one line.
pub open spec fn one_line(line: Seq<char>) -> RunStepView {
    RunStepView::Finish(Ok(OutputView::Lines(seq![line])))
}

/// The end of a command that prints lines.
pub open spec fn all_lines(lines: Seq<Seq<char>>) -> RunStepView {
    RunStepView::Finish(Ok(OutputView::Lines(lines)))
}

/// A new workspace gets a default session once it was told of.
pub open spec fn default_session(line: Seq<char>, workspace: WorkspaceView) -> RunStepView {
    RunStepView::Ask(
        seq![line],
        TaskView::StartDefaultSession(workspaces::full_reference(workspace)),
        RunView::DefaultStarted,
    )
}

/// The next step of a command. A failure ends it.
pub open spec fn run_next(s: RunView, answer: AnswerView) -> RunStepView {
    match (s, answer) {
        (_, AnswerView::Failed(e)) => RunStepView::Finish(Err(e)),
        (RunView::Added, AnswerView::Repository(r)) => one_line(repo::about("Added repo "@, r)),
        (RunView::Synced, AnswerView::Repository(r)) => one_line(repo::about("Synced repo "@, r)),
        (RunView::Removed, AnswerView::Repository(r)) => one_line(
            repo::about("Removed repo "@, r),
        ),
        (RunView::Listed(json), AnswerView::Repositories(all)) => if json {
            RunStepView::Finish(Ok(OutputView::Repositories(all)))
        } else {
            all_lines(repo::repo_table(all))
        },
        (RunView::WorkspaceCreated, AnswerView::Workspace(w)) => default_session(
            workspace::created_line(w),
            w,
        ),
        (RunView::WorkspaceCloned(source), AnswerView::Workspace(w)) => default_session(
            workspace::cloned_line(source, w),
            w,
        ),
        (RunView::WorkspacesListed(json), AnswerView::Workspaces(all)) => if json {
            RunStepView::Finish(Ok(OutputView::Workspaces(all)))
        } else {
            all_lines(workspace::workspace_table(all))
        },
        (RunView::WorkspaceShown, AnswerView::Workspace(w)) => all_lines(
            workspace::workspace_info(w),
        ),
        (RunView::WorkspaceRemoved, AnswerView::Workspace(w)) => one_line(
            workspace::removed_line(w),
        ),
        (RunView::DefaultStarted, AnswerView::Session(x)) => one_line(
            session::about("Created session "@, x),
        ),
        (RunView::SessionCreated, AnswerView::Session(x)) => one_line(
            session::about("Created session "@, x),
        ),
        (RunView::SessionsListed(json), AnswerView::Sessions(all)) => if json {
            RunStepView::Finish(Ok(OutputView::Sessions(all)))
        } else {
            all_lines(session::session_table(all))
        },
        (RunView::SessionShown, AnswerView::Session(x)) => all_lines(session::session_info(x)),
        (RunView::SessionDone, AnswerView::Done) => all_lines(seq![]),
        (RunView::SessionStopped, AnswerView::Session(x)) => one_line(
            session::about("Stopped session "@, x),
        ),
        (RunView::SessionRemoved, AnswerView::Session(x)) => one_line(
            session::about("Removed session "@, x),
        ),
        (RunView::Pruned, AnswerView::Count(n)) => one_line(prune::pruned_line(n as nat)),
        _ => RunStepView::Mismatch,
    }
}

fn begin_repo(command: RepoSubcommand) -> (r: (Task, Run))
    ensures
        (r.0@, r.1@) == repo_task(command@),
{
    match command {
        RepoSubcommand::Add { repository, alias } => (
            Task::AddRepository { repository, alias },
            Run::Added,
        ),
        RepoSubcommand::Sync { repository } => (Task::SyncRepository(repository), Run::Synced),
        RepoSubcommand::Remove { repository } => (
            Task::RemoveRepository(repository),
            Run::Removed,
        ),
        RepoSubcommand::List { json } => (Task::ListRepositories, Run::Listed(json)),
    }
}

fn begin_workspace(command: WorkspaceSubcommand) -> (r: (Task, Run))
    ensures
        (r.0@, r.1@) == workspace_task(command@),
{
    match command {
        WorkspaceSubcommand::Create { repository, name } => (
            Task::CreateWorkspace { repository, name },
            Run::WorkspaceCreated,
        ),
        WorkspaceSubcommand::Clone { workspace, name } => (
            Task::CloneWorkspace { workspace: workspace.clone(), name },
            Run::WorkspaceCloned(workspace),
        ),
        WorkspaceSubcommand::List { repository, json } => (
            Task::ListWorkspaces(repository),
            Run::WorkspacesListed(json),
        ),
        WorkspaceSubcommand::Info { workspace } => (
            Task::ShowWorkspace(workspace),
            Run::WorkspaceShown,
        ),
        WorkspaceSubcommand::Remove { workspace } => (
            Task::RemoveWorkspace(workspace),
            Run::WorkspaceRemoved,
        ),
    }
}

fn begin_session(command: SessionSubcommand) -> (r: (Task, Run))
    ensures
        (r.0@, r.1@) == session_task(command@),
{
    match command {
        SessionSubcommand::Create { workspace, command } => (
            Task::CreateSession { workspace, command },
            Run::SessionCreated,
        ),
        SessionSubcommand::List { workspace, json } => (
            Task::ListSessions(workspace),
            Run::SessionsListed(json),
        ),
        SessionSubcommand::Info { session } => (Task::ShowSession(session), Run::SessionShown),
        SessionSubcommand::Attach { session, follow } => (
            Task::AttachSession { session, follow },
            Run::SessionDone,
        ),
        SessionSubcommand::Stop { session } => (Task::StopSession(session), Run::SessionStopped),
        SessionSubcommand::Remove { session } => (
            Task::RemoveSession(session),
            Run::SessionRemoved,
        ),
        SessionSubcommand::Serve {
            repository,
            repo_db_path,
            workspace,
            session,
            session_dir,
            workspace_dir,
            command,
        } => (
            Task::Serve {
                repository,
                repo_db_path,
                workspace,
                session,
                session_dir,
                workspace_dir,
                command,
            },
            Run::SessionDone,
        ),
    }
}

/// Begins a command.
pub fn run(command: Command) -> (r: RunStep)
    ensures
        r@ == run_start(command@),
{
    let (task, state) = match command {
        Command::Prune(c) => match c.command {
            PruneSubcommand::Sessions => (Task::PruneSessions, Run::Pruned),
        },
        Command::Repo(c) => begin_repo(c.command),
        Command::Session(c) => begin_session(c.command),
        Command::Workspace(c) => begin_workspace(c.command),
    };
    let nothing: Vec<String> = Vec::new();
    proof {
        assert(nothing.deep_view() =~= seq![]);
    }
    RunStep::Ask(nothing, task, state)
}

fn print_line(line: String) -> (r: RunStep)
    ensures
        r@ == one_line(line@),
{
    let lines = vec![line];
    proof {
        assert(lines.deep_view() =~= seq![line@]);
    }
    RunStep::Finish(Ok(Output::Lines(lines)))
}

fn start_default(line: String, workspace: &Workspace) -> (r: RunStep)
    ensures
        r@ == default_session(line@, workspace@),
{
    let lines = vec![line];
    proof {
        assert(lines.deep_view() =~= seq![line@]);
    }
    RunStep::Ask(
        lines,
        Task::StartDefaultSession(workspaces::reference_to(workspace)),
        Run::DefaultStarted,
    )
}

impl Run {
    /// Goes on with a command once its answer is there.
    pub fn resume(self, answer: Answer) -> (r: RunStep)
        ensures
            r@ == run_next(self@, answer@),
    {
        match (self, answer) {
            (_, Answer::Failed(e)) => RunStep::Finish(Err(e)),
            (Run::Added, Answer::Repository(r)) => print_line(repo::tell("Added repo ", &r)),
            (Run::Synced, Answer::Repository(r)) => print_line(repo::tell("Synced repo ", &r)),
            (Run::Removed, Answer::Repository(r)) => print_line(repo::tell("Removed repo ", &r)),
            (Run::Listed(json), Answer::Repositories(all)) => if json {
                RunStep::Finish(Ok(Output::Repositories(all)))
            } else {
                RunStep::Finish(Ok(Output::Lines(repo::list(&all))))
            },
            (Run::WorkspaceCreated, Answer::Workspace(w)) => start_default(
                workspace::created(&w),
                &w,
            ),
            (Run::WorkspaceCloned(source), Answer::Workspace(w)) => start_default(
                workspace::cloned(source.as_str(), &w),
                &w,
            ),
            (Run::WorkspacesListed(json), Answer::Workspaces(all)) => if json {
                RunStep::Finish(Ok(Output::Workspaces(all)))
            } else {
                RunStep::Finish(Ok(Output::Lines(workspace::list(&all))))
            },
            (Run::WorkspaceShown, Answer::Workspace(w)) => RunStep::Finish(
                Ok(Output::Lines(workspace::info(&w))),
            ),
            (Run::WorkspaceRemoved, Answer::Workspace(w)) => print_line(workspace::removed(&w)),
            (Run::DefaultStarted, Answer::Session(x)) => print_line(
                session::tell("Created session ", &x),
            ),
            (Run::SessionCreated, Answer::Session(x)) => print_line(
                session::tell("Created session ", &x),
            ),
            (Run::SessionsListed(json), Answer::Sessions(all)) => if json {
                RunStep::Finish(Ok(Output::Sessions(all)))
            } else {
                RunStep::Finish(Ok(Output::Lines(session::list(&all))))
            },
            (Run::SessionShown, Answer::Session(x)) => RunStep::Finish(
                Ok(Output::Lines(session::info(&x))),
            ),
            (Run::SessionDone, Answer::Done) => {
                let nothing: Vec<String> = Vec::new();
                proof {
                    assert(nothing.deep_view() =~= seq![]);
                }
                RunStep::Finish(Ok(Output::Lines(nothing)))
            },
            (Run::SessionStopped, Answer::Session(x)) => print_line(
                session::tell("Stopped session ", &x),
            ),
            (Run::SessionRemoved, Answer::Session(x)) => print_line(
                session::tell("Removed session ", &x),
            ),
            (Run::Pruned, Answer::Count(n)) => print_line(prune::pruned(n)),
            _ => RunStep::Mismatch,
        }
    }
}

/// What is told of a command that failed.
pub fn failure_line(e: &SwarmError) -> (r: String)
    ensures
        r@ == "error: "@ + error::error_message(e@),
{
    let mut out = "error: ".to_owned();
    out.append(e.message().as_str());
    out
}

/// A new workspace, created or cloned, gets a default session: the command tells of
/// the workspace, starts the session and tells of it.
pub proof fn law_new_workspaces_get_a_session(
    source: Seq<char>,
    workspace: WorkspaceView,
    session: SessionView,
)
    ensures
        run_next(RunView::WorkspaceCreated, AnswerView::Workspace(workspace)) == RunStepView::Ask(
            seq![workspace::created_line(workspace)],
            TaskView::StartDefaultSession(workspaces::full_reference(workspace)),
            RunView::DefaultStarted,
        ),
        run_next(RunView::WorkspaceCloned(source), AnswerView::Workspace(workspace))
            == RunStepView::Ask(
            seq![workspace::cloned_line(source, workspace)],
            TaskView::StartDefaultSession(workspaces::full_reference(workspace)),
            RunView::DefaultStarted,
        ),
        run_next(RunView::DefaultStarted, AnswerView::Session(session)) == one_line(
            "Created session "@ + session.id,
        ),
{
}

/// A failure ends every command, whatever it waits for.
pub proof fn law_failures_end_commands(s: RunView, e: SwarmErrorView)
    ensures
        run_next(s, AnswerView::Failed(e)) == RunStepView::Finish(Err(e)),
{
}

/// What is asked for first by each command on repositories, and what is printed then.
pub proof fn law_repository_commands(
    repository: Seq<char>,
    alias: Option<Seq<char>>,
    json: bool,
    repo: RepositoryView,
    all: Seq<RepositoryView>,
)
    ensures
        ({
            let run = |command: RepoSubcommandView| run_start(
                CommandView::Repo(crate::opts::RepoCommandView { command }),
            );
            let named = if repo.alias is Some {
                repo.alias->0
            } else {
                "-"@
            };
            let says = |s: RunView, word: Seq<char>| run_next(s, AnswerView::Repository(repo))
                == RunStepView::Finish(Ok(OutputView::Lines(seq![word + named])));
            let listed = RunView::Listed(json);
            &&& run(RepoSubcommandView::Add { repository, alias }) == RunStepView::Ask(
                seq![],
                TaskView::AddRepository { repository, alias },
                RunView::Added,
            )
            &&& says(RunView::Added, "Added repo "@)
            &&& run(RepoSubcommandView::Sync { repository }) == RunStepView::Ask(
                seq![],
                TaskView::SyncRepository(repository),
                RunView::Synced,
            )
            &&& says(RunView::Synced, "Synced repo "@)
            &&& run(RepoSubcommandView::Remove { repository }) == RunStepView::Ask(
                seq![],
                TaskView::RemoveRepository(repository),
                RunView::Removed,
            )
            &&& says(RunView::Removed, "Removed repo "@)
            &&& run(RepoSubcommandView::List { json }) == RunStepView::Ask(
                seq![],
                TaskView::ListRepositories,
                listed,
            )
            &&& json ==> run_next(listed, AnswerView::Repositories(all)) == RunStepView::Finish(
                Ok(OutputView::Repositories(all)),
            )
            &&& !json ==> run_next(listed, AnswerView::Repositories(all)) == RunStepView::Finish(
                Ok(
                    OutputView::Lines(
                        seq![table::padded("ALIAS"@, 16) + " REPOSITORY"@] + Seq::new(
                            all.len(),
                            |i: int|
                                table::padded(
                                    if all[i].alias is Some {
                                        all[i].alias->0
                                    } else {
                                        "-"@
                                    },
                                    16,
                                ) + " "@ + (all[i].host + "/"@ + all[i].owner + "/"@
                                    + all[i].name),
                        ),
                    ),
                ),
            )
        }),
{
    let lines = seq![table::padded("ALIAS"@, 16) + " REPOSITORY"@] + Seq::new(
        all.len(),
        |i: int|
            table::padded(
                if all[i].alias is Some {
                    all[i].alias->0
                } else {
                    "-"@
                },
                16,
            ) + " "@ + (all[i].host + "/"@ + all[i].owner + "/"@ + all[i].name),
    );
    assert(repo::repo_table(all) =~= lines);
}

/// What is asked for first by each command on workspaces, and what is printed then.
pub proof fn law_workspace_commands(
    repository: Seq<char>,
    name: Option<Seq<char>>,
    reference: Seq<char>,
    clone: Seq<char>,
    json: bool,
    w: WorkspaceView,
    all: Seq<WorkspaceView>,
)
    ensures
        ({
            let run = |command: WorkspaceSubcommandView| run_start(
                CommandView::Workspace(crate::opts::WorkspaceCommandView { command }),
            );
            let start = |line: Seq<char>| RunStepView::Ask(
                seq![line],
                TaskView::StartDefaultSession(w.repository + ":"@ + w.name),
                RunView::DefaultStarted,
            );
            let listed = RunView::WorkspacesListed(json);
            &&& run(WorkspaceSubcommandView::Create { repository, name }) == RunStepView::Ask(
                seq![],
                TaskView::CreateWorkspace { repository, name },
                RunView::WorkspaceCreated,
            )
            &&& run_next(RunView::WorkspaceCreated, AnswerView::Workspace(w)) == start(
                "Created workspace "@ + w.name + " for "@ + w.repository_alias,
            )
            &&& run(WorkspaceSubcommandView::Clone { workspace: reference, name: clone })
                == RunStepView::Ask(
                seq![],
                TaskView::CloneWorkspace { workspace: reference, name: clone },
                RunView::WorkspaceCloned(reference),
            )
            &&& run_next(RunView::WorkspaceCloned(reference), AnswerView::Workspace(w)) == start(
                "Cloned workspace "@ + reference + " to "@ + w.name + " for "@
                    + w.repository_alias,
            )
            &&& run(WorkspaceSubcommandView::List { repository, json }) == RunStepView::Ask(
                seq![],
                TaskView::ListWorkspaces(repository),
                listed,
            )
            &&& json ==> run_next(listed, AnswerView::Workspaces(all)) == RunStepView::Finish(
                Ok(OutputView::Workspaces(all)),
            )
            &&& !json ==> run_next(listed, AnswerView::Workspaces(all)) == RunStepView::Finish(
                Ok(
                    OutputView::Lines(
                        seq![
                            table::padded("WORKSPACE"@, 20) + " "@ + table::padded("BRANCH"@, 20)
                                + " PATH"@,
                        ] + Seq::new(
                            all.len(),
                            |i: int|
                                table::padded(all[i].name, 20) + " "@ + table::padded(
                                    all[i].branch,
                                    20,
                                ) + " "@ + all[i].path,
                        ),
                    ),
                ),
            )
            &&& run(WorkspaceSubcommandView::Info { workspace: reference }) == RunStepView::Ask(
                seq![],
                TaskView::ShowWorkspace(reference),
                RunView::WorkspaceShown,
            )
            &&& run_next(RunView::WorkspaceShown, AnswerView::Workspace(w)) == RunStepView::Finish(
                Ok(
                    OutputView::Lines(
                        seq![
                            "Repository: "@ + w.repository,
                            "Workspace: "@ + w.name,
                            "Branch: "@ + w.branch,
                            "Path: "@ + w.path,
                            "Created: "@ + text::signed_decimal(w.created_at as int),
                        ],
                    ),
                ),
            )
            &&& run(WorkspaceSubcommandView::Remove { workspace: reference }) == RunStepView::Ask(
                seq![],
                TaskView::RemoveWorkspace(reference),
                RunView::WorkspaceRemoved,
            )
            &&& run_next(RunView::WorkspaceRemoved, AnswerView::Workspace(w))
                == RunStepView::Finish(
                Ok(
                    OutputView::Lines(
                        seq!["Removed workspace "@ + w.name + " from "@ + w.repository_alias],
                    ),
                ),
            )
        }),
{
    let lines = seq![
        table::padded("WORKSPACE"@, 20) + " "@ + table::padded("BRANCH"@, 20) + " PATH"@,
    ] + Seq::new(
        all.len(),
        |i: int|
            table::padded(all[i].name, 20) + " "@ + table::padded(all[i].branch, 20) + " "@
                + all[i].path,
    );
    assert(workspace::workspace_table(all) =~= lines);
}

/// What is asked for first by each command on sessions, and what is printed then.
pub proof fn law_session_commands(
    workspace: Option<Seq<char>>,
    reference: Seq<char>,
    command: Seq<Seq<char>>,
    session: Seq<char>,
    flag: bool,
    x: SessionView,
    all: Seq<SessionView>,
)
    ensures
        ({
            let run = |command: SessionSubcommandView| run_start(
                CommandView::Session(crate::opts::SessionCommandView { command }),
            );
            let says = |s: RunView, word: Seq<char>| run_next(s, AnswerView::Session(x))
                == RunStepView::Finish(Ok(OutputView::Lines(seq![word + x.id])));
            let listed = RunView::SessionsListed(flag);
            &&& run(SessionSubcommandView::Create { workspace: reference, command })
                == RunStepView::Ask(
                seq![],
                TaskView::CreateSession { workspace: reference, command },
                RunView::SessionCreated,
            )
            &&& says(RunView::SessionCreated, "Created session "@)
            &&& says(RunView::DefaultStarted, "Created session "@)
            &&& run(SessionSubcommandView::List { workspace, json: flag }) == RunStepView::Ask(
                seq![],
                TaskView::ListSessions(workspace),
                listed,
            )
            &&& flag ==> run_next(listed, AnswerView::Sessions(all)) == RunStepView::Finish(
                Ok(OutputView::Sessions(all)),
            )
            &&& !flag ==> {
                &&& run_next(listed, AnswerView::Sessions(all)) matches RunStepView::Finish(
                    Ok(OutputView::Lines(lines)),
                )
                &&& lines.len() == all.len() + 1
                &&& lines[0] == table::padded("SESSION"@, 18) + " "@ + table::padded(
                    "STATUS"@,
                    12,
                ) + " "@ + table::padded("WORKSPACE"@, 12) + " "@ + table::padded("PID"@, 20)
                    + " COMMAND"@
                &&& forall|i: int|
                    0 <= i < all.len() ==> #[trigger] lines.skip(1)[i] == table::padded(
                        all[i].id,
                        18,
                    ) + " "@ + table::padded(all[i].status, 12) + " "@ + table::padded(
                        all[i].workspace,
                        12,
                    ) + " "@ + table::padded(
                        match all[i].pid {
                            Some(n) => text::decimal(n as nat),
                            None => "-"@,
                        },
                        20,
                    ) + " "@ + text::joined(all[i].command, " "@)
            }
            &&& run(SessionSubcommandView::Info { session }) == RunStepView::Ask(
                seq![],
                TaskView::ShowSession(session),
                RunView::SessionShown,
            )
            &&& run_next(RunView::SessionShown, AnswerView::Session(x)) == RunStepView::Finish(
                Ok(
                    OutputView::Lines(
                        seq![
                            "Session: "@ + x.id,
                            "Repository: "@ + x.repository,
                            "Workspace: "@ + x.workspace,
                            "Status: "@ + x.status,
                            "PID: "@ + (match x.pid {
                                Some(n) => text::decimal(n as nat),
                                None => "-"@,
                            }),
                            "Path: "@ + x.path,
                            "Log: "@ + x.log_path,
                            "Command: "@ + text::joined(x.command, " "@),
                            "Created: "@ + text::signed_decimal(x.created_at as int),
                            "Exited: "@ + (match x.exit_code {
                                Some(n) => text::signed_decimal(n as int),
                                None => "-"@,
                            }),
                        ],
                    ),
                ),
            )
            &&& run(SessionSubcommandView::Attach { session, follow: flag }) == RunStepView::Ask(
                seq![],
                TaskView::AttachSession { session, follow: flag },
                RunView::SessionDone,
            )
            &&& run_next(RunView::SessionDone, AnswerView::Done) == RunStepView::Finish(
                Ok(OutputView::Lines(seq![])),
            )
            &&& run(SessionSubcommandView::Stop { session }) == RunStepView::Ask(
                seq![],
                TaskView::StopSession(session),
                RunView::SessionStopped,
            )
            &&& says(RunView::SessionStopped, "Stopped session "@)
            &&& run(SessionSubcommandView::Remove { session }) == RunStepView::Ask(
                seq![],
                TaskView::RemoveSession(session),
                RunView::SessionRemoved,
            )
            &&& says(RunView::SessionRemoved, "Removed session "@)
        }),
{
    let lines = session::session_table(all);
    assert forall|i: int| 0 <= i < all.len() implies #[trigger] lines.skip(1)[i]
        == session::session_line(all[i]) by {}
    assert(session::session_info(x) =~= seq![
        "Session: "@ + x.id,
        "Repository: "@ + x.repository,
        "Workspace: "@ + x.workspace,
        "Status: "@ + x.status,
        "PID: "@ + (match x.pid {
            Some(n) => text::decimal(n as nat),
            None => "-"@,
        }),
        "Path: "@ + x.path,
        "Log: "@ + x.log_path,
        "Command: "@ + text::joined(x.command, " "@),
        "Created: "@ + text::signed_decimal(x.created_at as int),
        "Exited: "@ + (match x.exit_code {
            Some(n) => text::signed_decimal(n as int),
            None => "-"@,
        }),
    ]);
}

/// Serving a session hands everything on as it was given, and pruning tells how many sessions
/// are gone.
pub proof fn law_serving_and_pruning(
    repository: Seq<char>,
    repo_db_path: Seq<char>,
    workspace: Seq<char>,
    session: Seq<char>,
    session_dir: Seq<char>,
    workspace_dir: Seq<char>,
    command: Seq<Seq<char>>,
    n: usize,
)
    ensures
        run_start(
            CommandView::Session(
                crate::opts::SessionCommandView {
                    command: SessionSubcommandView::Serve {
                        repository,
                        repo_db_path,
                        workspace,
                        session,
                        session_dir,
                        workspace_dir,
                        command,
                    },
                },
            ),
        ) == RunStepView::Ask(
            seq![],
            TaskView::Serve {
                repository,
                repo_db_path,
                workspace,
                session,
                session_dir,
                workspace_dir,
                command,
            },
            RunView::SessionDone,
        ),
        run_start(
            CommandView::Prune(
                crate::opts::PruneCommandView { command: PruneSubcommandView::Sessions },
            ),
        ) == RunStepView::Ask(seq![], TaskView::PruneSessions, RunView::Pruned),
        run_next(RunView::Pruned, AnswerView::Count(n)) == RunStepView::Finish(
            Ok(OutputView::Lines(seq!["Pruned "@ + text::decimal(n as nat) + " sessions"@])),
        ),
{
}

} // verus!
