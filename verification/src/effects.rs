//! What an operation asks of its surroundings, and what it hears back.
//!
//! An operation is a state and a function from a state and a reply to the next
//! step. A step either asks for one effect or ends the operation. Who runs the
//! operation performs the effect and hands back the reply.

use crate::error::{SwarmError, SwarmErrorView};
use crate::repos::{Repository, RepositoryView};
use crate::sessions::{SessionRow, SessionRowView};
use crate::text;
use crate::workspaces::{Workspace, WorkspaceRow, WorkspaceRowView, WorkspaceView};
use vstd::prelude::*;

verus! {

/// How a command ended and what it wrote.
#[derive(Debug)]
pub struct CommandOutput {
    pub success: bool,
    pub status: String,
    pub stdout: Vec<u8>,
    pub stderr: Vec<u8>,
}

/// What a `CommandOutput` holds.
#[verifier::ext_equal]
pub struct CommandOutputView {
    pub success: bool,
    pub status: Seq<char>,
    pub stdout: Seq<u8>,
    pub stderr: Seq<u8>,
}

impl View for CommandOutput {
    type V = CommandOutputView;

    open spec fn view(&self) -> CommandOutputView {
        CommandOutputView {
            success: self.success,
            status: self.status@,
            stdout: self.stdout@,
            stderr: self.stderr@,
        }
    }
}

impl DeepView for CommandOutput {
    type V = CommandOutputView;

    open spec fn deep_view(&self) -> CommandOutputView {
        self@
    }
}

impl Clone for CommandOutput {
    fn clone(&self) -> (r: Self)
        ensures
            r@ == self@,
    {
        CommandOutput {
            success: self.success,
            status: self.status.clone(),
            stdout: self.stdout.clone(),
            stderr: self.stderr.clone(),
        }
    }
}

/// One thing that an operation asks for.
#[derive(Debug)]
pub enum Effect {
    CreateDir(String),
    RemoveDir(String),
    PathExists(String),
    RunGit { cwd: Option<String>, args: Vec<String> },
    SyncRepository(Repository),
    OpenWorkspaces(String),
    CurrentBranch(String),
    CountSessions(String),
    ReadClock,
    InsertWorkspace(WorkspaceRow),
    UpdateBranch { name: String, branch: String },
    UpdateWorkspace { name: String, row: WorkspaceRow },
    DeleteWorkspace(String),
    ResolveWorkspace(String),
    ReadTime,
    ReadInstant,
    Sleep(u64),
    MakeFiles { dir: String, keep: Vec<String>, clear: Vec<String> },
    ReadFile(String),
    SpawnSupervisor { log_path: String, args: Vec<String> },
    FindSession { db_path: String, id: String },
    ListSessions { db_path: String, workspace: Option<String> },
    InsertSession { db_path: String, record: SessionRow },
    RunSession { db_path: String, id: String, pid: Option<i64>, socket_path: String },
    EndSession { db_path: String, id: String, status: String, stopped_at: i64 },
    FailSession { db_path: String, id: String, stopped_at: i64 },
    ExitSession { db_path: String, id: String, exit_code: Option<i64>, stopped_at: i64 },
    DeleteSession { db_path: String, id: String },
    ProcessExists(u32),
    Terminate(u32),
    AttachSocket(String),
    PrintFile(String),
}

/// What an `Effect` holds.
#[verifier::ext_equal]
pub enum EffectView {
    CreateDir(Seq<char>),
    RemoveDir(Seq<char>),
    PathExists(Seq<char>),
    RunGit { cwd: Option<Seq<char>>, args: Seq<Seq<char>> },
    SyncRepository(RepositoryView),
    OpenWorkspaces(Seq<char>),
    CurrentBranch(Seq<char>),
    CountSessions(Seq<char>),
    ReadClock,
    InsertWorkspace(WorkspaceRowView),
    UpdateBranch { name: Seq<char>, branch: Seq<char> },
    UpdateWorkspace { name: Seq<char>, row: WorkspaceRowView },
    DeleteWorkspace(Seq<char>),
    ResolveWorkspace(Seq<char>),
    ReadTime,
    ReadInstant,
    Sleep(u64),
    MakeFiles { dir: Seq<char>, keep: Seq<Seq<char>>, clear: Seq<Seq<char>> },
    ReadFile(Seq<char>),
    SpawnSupervisor { log_path: Seq<char>, args: Seq<Seq<char>> },
    FindSession { db_path: Seq<char>, id: Seq<char> },
    ListSessions { db_path: Seq<char>, workspace: Option<Seq<char>> },
    InsertSession { db_path: Seq<char>, record: SessionRowView },
    RunSession { db_path: Seq<char>, id: Seq<char>, pid: Option<i64>, socket_path: Seq<char> },
    EndSession { db_path: Seq<char>, id: Seq<char>, status: Seq<char>, stopped_at: i64 },
    FailSession { db_path: Seq<char>, id: Seq<char>, stopped_at: i64 },
    ExitSession { db_path: Seq<char>, id: Seq<char>, exit_code: Option<i64>, stopped_at: i64 },
    DeleteSession { db_path: Seq<char>, id: Seq<char> },
    ProcessExists(u32),
    Terminate(u32),
    AttachSocket(Seq<char>),
    PrintFile(Seq<char>),
}

impl View for Effect {
    type V = EffectView;

    open spec fn view(&self) -> EffectView {
        match self {
            Effect::CreateDir(a) => EffectView::CreateDir(a@),
            Effect::RemoveDir(a) => EffectView::RemoveDir(a@),
            Effect::PathExists(a) => EffectView::PathExists(a@),
            Effect::RunGit { cwd, args } => EffectView::RunGit {
                cwd: cwd.deep_view(),
                args: args.deep_view(),
            },
            Effect::SyncRepository(a) => EffectView::SyncRepository(a@),
            Effect::OpenWorkspaces(a) => EffectView::OpenWorkspaces(a@),
            Effect::CurrentBranch(a) => EffectView::CurrentBranch(a@),
            Effect::CountSessions(a) => EffectView::CountSessions(a@),
            Effect::ReadClock => EffectView::ReadClock,
            Effect::InsertWorkspace(a) => EffectView::InsertWorkspace(a@),
            Effect::UpdateBranch { name, branch } => EffectView::UpdateBranch {
                name: name@,
                branch: branch@,
            },
            Effect::UpdateWorkspace { name, row } => EffectView::UpdateWorkspace {
                name: name@,
                row: row@,
            },
            Effect::DeleteWorkspace(a) => EffectView::DeleteWorkspace(a@),
            Effect::ResolveWorkspace(a) => EffectView::ResolveWorkspace(a@),
            Effect::ReadTime => EffectView::ReadTime,
            Effect::ReadInstant => EffectView::ReadInstant,
            Effect::Sleep(a) => EffectView::Sleep(*a),
            Effect::MakeFiles { dir, keep, clear } => EffectView::MakeFiles {
                dir: dir@,
                keep: keep.deep_view(),
                clear: clear.deep_view(),
            },
            Effect::ReadFile(a) => EffectView::ReadFile(a@),
            Effect::SpawnSupervisor { log_path, args } => EffectView::SpawnSupervisor {
                log_path: log_path@,
                args: args.deep_view(),
            },
            Effect::FindSession { db_path, id } => EffectView::FindSession {
                db_path: db_path@,
                id: id@,
            },
            Effect::ListSessions { db_path, workspace } => EffectView::ListSessions {
                db_path: db_path@,
                workspace: workspace.deep_view(),
            },
            Effect::InsertSession { db_path, record } => EffectView::InsertSession {
                db_path: db_path@,
                record: record@,
            },
            Effect::RunSession { db_path, id, pid, socket_path } => EffectView::RunSession {
                db_path: db_path@,
                id: id@,
                pid: *pid,
                socket_path: socket_path@,
            },
            Effect::EndSession { db_path, id, status, stopped_at } => EffectView::EndSession {
                db_path: db_path@,
                id: id@,
                status: status@,
                stopped_at: *stopped_at,
            },
            Effect::FailSession { db_path, id, stopped_at } => EffectView::FailSession {
                db_path: db_path@,
                id: id@,
                stopped_at: *stopped_at,
            },
            Effect::ExitSession { db_path, id, exit_code, stopped_at } => EffectView::ExitSession {
                db_path: db_path@,
                id: id@,
                exit_code: *exit_code,
                stopped_at: *stopped_at,
            },
            Effect::DeleteSession { db_path, id } => EffectView::DeleteSession {
                db_path: db_path@,
                id: id@,
            },
            Effect::ProcessExists(a) => EffectView::ProcessExists(*a),
            Effect::Terminate(a) => EffectView::Terminate(*a),
            Effect::AttachSocket(a) => EffectView::AttachSocket(a@),
            Effect::PrintFile(a) => EffectView::PrintFile(a@),
        }
    }
}

impl DeepView for Effect {
    type V = EffectView;

    open spec fn deep_view(&self) -> EffectView {
        self@
    }
}

impl Clone for Effect {
    fn clone(&self) -> (r: Self)
        ensures
            r@ == self@,
    {
        match self {
            Effect::CreateDir(a) => Effect::CreateDir(a.clone()),
            Effect::RemoveDir(a) => Effect::RemoveDir(a.clone()),
            Effect::PathExists(a) => Effect::PathExists(a.clone()),
            Effect::RunGit { cwd, args } => Effect::RunGit {
                cwd: cwd.clone(),
                args: args.clone(),
            },
            Effect::SyncRepository(a) => Effect::SyncRepository(a.clone()),
            Effect::OpenWorkspaces(a) => Effect::OpenWorkspaces(a.clone()),
            Effect::CurrentBranch(a) => Effect::CurrentBranch(a.clone()),
            Effect::CountSessions(a) => Effect::CountSessions(a.clone()),
            Effect::ReadClock => Effect::ReadClock,
            Effect::InsertWorkspace(a) => Effect::InsertWorkspace(a.clone()),
            Effect::UpdateBranch { name, branch } => Effect::UpdateBranch {
                name: name.clone(),
                branch: branch.clone(),
            },
            Effect::UpdateWorkspace { name, row } => Effect::UpdateWorkspace {
                name: name.clone(),
                row: row.clone(),
            },
            Effect::DeleteWorkspace(a) => Effect::DeleteWorkspace(a.clone()),
            Effect::ResolveWorkspace(a) => Effect::ResolveWorkspace(a.clone()),
            Effect::ReadTime => Effect::ReadTime,
            Effect::ReadInstant => Effect::ReadInstant,
            Effect::Sleep(a) => Effect::Sleep(*a),
            Effect::MakeFiles { dir, keep, clear } => Effect::MakeFiles {
                dir: dir.clone(),
                keep: keep.clone(),
                clear: clear.clone(),
            },
            Effect::ReadFile(a) => Effect::ReadFile(a.clone()),
            Effect::SpawnSupervisor { log_path, args } => Effect::SpawnSupervisor {
                log_path: log_path.clone(),
                args: args.clone(),
            },
            Effect::FindSession { db_path, id } => Effect::FindSession {
                db_path: db_path.clone(),
                id: id.clone(),
            },
            Effect::ListSessions { db_path, workspace } => Effect::ListSessions {
                db_path: db_path.clone(),
                workspace: workspace.clone(),
            },
            Effect::InsertSession { db_path, record } => Effect::InsertSession {
                db_path: db_path.clone(),
                record: record.clone(),
            },
            Effect::RunSession { db_path, id, pid, socket_path } => Effect::RunSession {
                db_path: db_path.clone(),
                id: id.clone(),
                pid: *pid,
                socket_path: socket_path.clone(),
            },
            Effect::EndSession { db_path, id, status, stopped_at } => Effect::EndSession {
                db_path: db_path.clone(),
                id: id.clone(),
                status: status.clone(),
                stopped_at: *stopped_at,
            },
            Effect::FailSession { db_path, id, stopped_at } => Effect::FailSession {
                db_path: db_path.clone(),
                id: id.clone(),
                stopped_at: *stopped_at,
            },
            Effect::ExitSession { db_path, id, exit_code, stopped_at } => Effect::ExitSession {
                db_path: db_path.clone(),
                id: id.clone(),
                exit_code: *exit_code,
                stopped_at: *stopped_at,
            },
            Effect::DeleteSession { db_path, id } => Effect::DeleteSession {
                db_path: db_path.clone(),
                id: id.clone(),
            },
            Effect::ProcessExists(a) => Effect::ProcessExists(*a),
            Effect::Terminate(a) => Effect::Terminate(*a),
            Effect::AttachSocket(a) => Effect::AttachSocket(a.clone()),
            Effect::PrintFile(a) => Effect::PrintFile(a.clone()),
        }
    }
}

/// What an operation hears back. Any effect can fail. Otherwise looking for a
/// path or a process tells whether it exists, a git command has an output, a
/// table has rows, the current branch is a text, the clock gives seconds, the
/// time gives seconds and milliseconds, an instant is a number of nanoseconds,
/// counting gives a number, a file has a text unless it cannot be read, and
/// everything else is done.
#[derive(Debug)]
pub enum Reply {
    Done,
    Exists(bool),
    Output(CommandOutput),
    Rows(Vec<WorkspaceRow>),
    Branch(String),
    Clock(i64),
    Count(i64),
    Resolved { repo: Repository, workspace: Workspace },
    Time { secs: u64, millis: u32 },
    Instant(u64),
    Text(Option<String>),
    FoundSession(Option<SessionRow>),
    SessionRows(Vec<SessionRow>),
    Failed(SwarmError),
}

/// What a `Reply` holds.
#[verifier::ext_equal]
pub enum ReplyView {
    Done,
    Exists(bool),
    Output(CommandOutputView),
    Rows(Seq<WorkspaceRowView>),
    Branch(Seq<char>),
    Clock(i64),
    Count(i64),
    Resolved { repo: RepositoryView, workspace: WorkspaceView },
    Time { secs: u64, millis: u32 },
    Instant(u64),
    Text(Option<Seq<char>>),
    FoundSession(Option<SessionRowView>),
    SessionRows(Seq<SessionRowView>),
    Failed(SwarmErrorView),
}

impl View for Reply {
    type V = ReplyView;

    open spec fn view(&self) -> ReplyView {
        match self {
            Reply::Done => ReplyView::Done,
            Reply::Exists(a) => ReplyView::Exists(*a),
            Reply::Output(a) => ReplyView::Output(a@),
            Reply::Rows(a) => ReplyView::Rows(a.deep_view()),
            Reply::Branch(a) => ReplyView::Branch(a@),
            Reply::Clock(a) => ReplyView::Clock(*a),
            Reply::Count(a) => ReplyView::Count(*a),
            Reply::Resolved { repo, workspace } => ReplyView::Resolved {
                repo: repo@,
                workspace: workspace@,
            },
            Reply::Time { secs, millis } => ReplyView::Time {
                secs: *secs,
                millis: *millis,
            },
            Reply::Instant(a) => ReplyView::Instant(*a),
            Reply::Text(a) => ReplyView::Text(a.deep_view()),
            Reply::FoundSession(a) => ReplyView::FoundSession(a.deep_view()),
            Reply::SessionRows(a) => ReplyView::SessionRows(a.deep_view()),
            Reply::Failed(a) => ReplyView::Failed(a@),
        }
    }
}

impl DeepView for Reply {
    type V = ReplyView;

    open spec fn deep_view(&self) -> ReplyView {
        self@
    }
}

impl Clone for Reply {
    fn clone(&self) -> (r: Self)
        ensures
            r@ == self@,
    {
        match self {
            Reply::Done => Reply::Done,
            Reply::Exists(a) => Reply::Exists(*a),
            Reply::Output(a) => Reply::Output(a.clone()),
            Reply::Rows(a) => Reply::Rows(a.clone()),
            Reply::Branch(a) => Reply::Branch(a.clone()),
            Reply::Clock(a) => Reply::Clock(*a),
            Reply::Count(a) => Reply::Count(*a),
            Reply::Resolved { repo, workspace } => Reply::Resolved {
                repo: repo.clone(),
                workspace: workspace.clone(),
            },
            Reply::Time { secs, millis } => Reply::Time {
                secs: *secs,
                millis: *millis,
            },
            Reply::Instant(a) => Reply::Instant(*a),
            Reply::Text(a) => Reply::Text(a.clone()),
            Reply::FoundSession(a) => Reply::FoundSession(a.clone()),
            Reply::SessionRows(a) => Reply::SessionRows(a.clone()),
            Reply::Failed(a) => Reply::Failed(a.clone()),
        }
    }
}

/// What an operation does next: ask for an effect and wait in a state, or end.
/// A reply of another sort than the effect's is a mismatch.
#[derive(Debug)]
pub enum Step<P, T> {
    Run(Effect, P),
    Finish(Result<T, SwarmError>),
    Mismatch,
}

/// What a `Step` holds.
#[verifier::ext_equal]
pub enum StepView<P, T> {
    Run(EffectView, P),
    Finish(Result<T, SwarmErrorView>),
    Mismatch,
}

impl<P: View, T: View> View for Step<P, T> {
    type V = StepView<P::V, T::V>;

    open spec fn view(&self) -> StepView<P::V, T::V> {
        match self {
            Step::Run(effect, state) => StepView::Run(effect@, state@),
            Step::Finish(Ok(value)) => StepView::Finish(Ok(value@)),
            Step::Finish(Err(e)) => StepView::Finish(Err(e@)),
            Step::Mismatch => StepView::Mismatch,
        }
    }
}

/// The effects that an operation asks for while it hears the given replies.
pub open spec fn asked<P, T>(
    step: StepView<P, T>,
    next: spec_fn(P, ReplyView) -> StepView<P, T>,
    replies: Seq<ReplyView>,
) -> Seq<EffectView>
    decreases replies.len(),
{
    match step {
        StepView::Run(effect, state) => if replies.len() == 0 {
            seq![effect]
        } else {
            seq![effect] + asked(next(state, replies[0]), next, replies.skip(1))
        },
        _ => seq![],
    }
}

/// Where an operation stands once it has heard the given replies.
pub open spec fn reached<P, T>(
    step: StepView<P, T>,
    next: spec_fn(P, ReplyView) -> StepView<P, T>,
    replies: Seq<ReplyView>,
) -> StepView<P, T>
    decreases replies.len(),
{
    match step {
        StepView::Run(_, state) => if replies.len() == 0 {
            step
        } else {
            reached(next(state, replies[0]), next, replies.skip(1))
        },
        _ => step,
    }
}

/// A reply that a git command succeeded.
pub open spec fn succeeded(reply: ReplyView) -> bool {
    reply matches ReplyView::Output(output) && output.success
}

/// What a git command that succeeded wrote, without white space around it.
pub open spec fn written(reply: ReplyView) -> Seq<char> {
    text::trimmed(text::lossy_text(reply->Output_0.stdout))
}

/// The text that tells why a command failed: what it wrote to its error output,
/// else what it wrote to its output, else its status.
pub open spec fn failure_text(
    status: Seq<char>,
    stdout: Seq<char>,
    stderr: Seq<char>,
) -> Seq<char> {
    if text::trimmed(stderr).len() > 0 {
        text::trimmed(stderr)
    } else if text::trimmed(stdout).len() > 0 {
        text::trimmed(stdout)
    } else {
        "exit status "@ + status
    }
}

/// What a git command gives: its output without white space around it, or an
/// error that tells why it failed.
pub open spec fn command_outcome(
    success: bool,
    status: Seq<char>,
    stdout: Seq<char>,
    stderr: Seq<char>,
) -> Result<Seq<char>, SwarmErrorView> {
    if success {
        Ok(text::trimmed(stdout))
    } else {
        Err(SwarmErrorView::Git(failure_text(status, stdout, stderr)))
    }
}

/// What a git command gives, from the bytes that it wrote.
pub open spec fn git_outcome(output: CommandOutputView) -> Result<Seq<char>, SwarmErrorView> {
    command_outcome(
        output.success,
        output.status,
        text::lossy_text(output.stdout),
        text::lossy_text(output.stderr),
    )
}

/// Tells why a command failed.
pub fn render_failure(status: &str, stdout: &str, stderr: &str) -> (r: String)
    ensures
        r@ == failure_text(status@, stdout@, stderr@),
{
    let stderr = text::trim(stderr);
    if stderr.unicode_len() > 0 {
        return stderr.to_owned();
    }
    let stdout = text::trim(stdout);
    if stdout.unicode_len() > 0 {
        return stdout.to_owned();
    }
    let mut out = "exit status ".to_owned();
    out.append(status);
    out
}

/// What a git command gives, from the text that it wrote.
pub fn command_result(success: bool, status: &str, stdout: &str, stderr: &str) -> (r: Result<
    String,
    SwarmError,
>)
    ensures
        crate::error::result_view(r) == command_outcome(success, status@, stdout@, stderr@),
{
    if success {
        Ok(text::trim(stdout).to_owned())
    } else {
        Err(SwarmError::Git(render_failure(status, stdout, stderr)))
    }
}

/// What a git command gives.
pub fn git_result(output: &CommandOutput) -> (r: Result<String, SwarmError>)
    ensures
        crate::error::result_view(r) == git_outcome(output@),
{
    let stdout = text::decode_lossy(&output.stdout);
    let stderr = text::decode_lossy(&output.stderr);
    command_result(output.success, output.status.as_str(), stdout.as_str(), stderr.as_str())
}

/// `--git-dir=` and a path.
pub open spec fn git_dir(path: Seq<char>) -> Seq<char> {
    "--git-dir="@ + path
}

/// The argument that points git at a repository.
pub fn git_dir_arg(path: &str) -> (r: String)
    ensures
        r@ == git_dir(path@),
{
    let mut out = "--git-dir=".to_owned();
    out.append(path);
    out
}

/// An operation that waits hears one reply after the other: the first one decides how it
/// goes on with the rest.
pub proof fn lemma_one_reply<P, T>(
    effect: EffectView,
    state: P,
    next: spec_fn(P, ReplyView) -> StepView<P, T>,
    reply: ReplyView,
    rest: Seq<ReplyView>,
)
    ensures
        asked(StepView::Run(effect, state), next, seq![reply] + rest) == seq![effect] + asked(
            next(state, reply),
            next,
            rest,
        ),
        reached(StepView::Run(effect, state), next, seq![reply] + rest) == reached(
            next(state, reply),
            next,
            rest,
        ),
{
    let replies = seq![reply] + rest;
    assert(replies[0] == reply);
    assert(replies.skip(1) =~= rest);
}

/// A git command that succeeds gives its output without white space around it. One that
/// fails is told by its error output, else by its output, else by its status.
pub proof fn law_git_outcomes(
    status: Seq<char>,
    stdout: Seq<char>,
    stderr: Seq<char>,
)
    ensures
        command_outcome(true, status, stdout, stderr) == Ok::<_, SwarmErrorView>(
            text::trimmed(stdout),
        ),
        !text::blank(stderr) ==> command_outcome(false, status, stdout, stderr) == Err::<
            Seq<char>,
            _,
        >(SwarmErrorView::Git(text::trimmed(stderr))),
        text::blank(stderr) && !text::blank(stdout) ==> command_outcome(
            false,
            status,
            stdout,
            stderr,
        ) == Err::<Seq<char>, _>(SwarmErrorView::Git(text::trimmed(stdout))),
        text::blank(stderr) && text::blank(stdout) ==> command_outcome(
            false,
            status,
            stdout,
            stderr,
        ) == Err::<Seq<char>, _>(SwarmErrorView::Git("exit status "@ + status)),
{
    text::lemma_trimmed_blank(stderr);
    text::lemma_trimmed_blank(stdout);
}

/// What git gives is read from the bytes of its own output and error output.
pub proof fn law_git_output_is_read(output: CommandOutputView)
    ensures
        git_outcome(output) == command_outcome(
            output.success,
            output.status,
            text::lossy_text(output.stdout),
            text::lossy_text(output.stderr),
        ),
        git_dir(output.status) == "--git-dir="@ + output.status,
{
}

} // verus!
