//! What the window has done to workspaces and sessions, step by step.
//!
//! A job is a state and a function from a state and a reply to the next step. Who
//! runs it does what it asks for and hands back the reply.

use crate::error;
use crate::error::{SwarmError, SwarmErrorView};
use crate::repos;
use crate::repos::{Repository, RepositoryStore, RepositoryStoreView, RepositoryView};
use crate::sessions::{Session, SessionView};
use crate::ui::data;
use crate::ui::data::{
    SessionEntry, SessionEntryView, WorkspaceEntry, WorkspaceEntryView, WorkspaceGroup,
    WorkspaceGroupView,
};
use crate::ui::workspace_panel::{SessionLabel, SessionLabelView};
use crate::workspaces;
use crate::workspaces::{Workspace, WorkspaceView};
use vstd::prelude::*;

verus! {

/// A session and the program in the foreground of its terminal, if there is one.
#[derive(Debug)]
pub struct LiveSession {
    pub session: Session,
    pub foreground: Option<String>,
}

/// What a `LiveSession` holds.
#[verifier::ext_equal]
pub struct LiveSessionView {
    pub session: SessionView,
    pub foreground: Option<Seq<char>>,
}

impl View for LiveSession {
    type V = LiveSessionView;

    open spec fn view(&self) -> LiveSessionView {
        LiveSessionView {
            session: self.session@,
            foreground: self.foreground.deep_view(),
        }
    }
}

impl DeepView for LiveSession {
    type V = LiveSessionView;

    open spec fn deep_view(&self) -> LiveSessionView {
        self@
    }
}

impl Clone for LiveSession {
    fn clone(&self) -> (r: Self)
        ensures
            r@ == self@,
    {
        LiveSession {
            session: self.session.clone(),
            foreground: self.foreground.clone(),
        }
    }
}

/// A workspace and its sessions, as they were read.
#[derive(Debug)]
pub struct LoadedWorkspace {
    pub workspace: Workspace,
    pub sessions: Vec<LiveSession>,
}

/// What a `LoadedWorkspace` holds.
#[verifier::ext_equal]
pub struct LoadedWorkspaceView {
    pub workspace: WorkspaceView,
    pub sessions: Seq<LiveSessionView>,
}

impl View for LoadedWorkspace {
    type V = LoadedWorkspaceView;

    open spec fn view(&self) -> LoadedWorkspaceView {
        LoadedWorkspaceView {
            workspace: self.workspace@,
            sessions: self.sessions.deep_view(),
        }
    }
}

impl DeepView for LoadedWorkspace {
    type V = LoadedWorkspaceView;

    open spec fn deep_view(&self) -> LoadedWorkspaceView {
        self@
    }
}

impl Clone for LoadedWorkspace {
    fn clone(&self) -> (r: Self)
        ensures
            r@ == self@,
    {
        LoadedWorkspace {
            workspace: self.workspace.clone(),
            sessions: self.sessions.clone(),
        }
    }
}

/// A repository, when it was last synced, and its workspaces, as they were read.
#[derive(Debug)]
pub struct LoadedRepository {
    pub repo: Repository,
    pub status: Option<String>,
    pub workspaces: Vec<LoadedWorkspace>,
}

/// What a `LoadedRepository` holds.
#[verifier::ext_equal]
pub struct LoadedRepositoryView {
    pub repo: RepositoryView,
    pub status: Option<Seq<char>>,
    pub workspaces: Seq<LoadedWorkspaceView>,
}

impl View for LoadedRepository {
    type V = LoadedRepositoryView;

    open spec fn view(&self) -> LoadedRepositoryView {
        LoadedRepositoryView {
            repo: self.repo@,
            status: self.status.deep_view(),
            workspaces: self.workspaces.deep_view(),
        }
    }
}

impl DeepView for LoadedRepository {
    type V = LoadedRepositoryView;

    open spec fn deep_view(&self) -> LoadedRepositoryView {
        self@
    }
}

impl Clone for LoadedRepository {
    fn clone(&self) -> (r: Self)
        ensures
            r@ == self@,
    {
        LoadedRepository {
            repo: self.repo.clone(),
            status: self.status.clone(),
            workspaces: self.workspaces.clone(),
        }
    }
}

/// One thing that a job asks for.
#[derive(Debug)]
pub enum JobEffect {
    CreateWorkspace { repository: String, name: Option<String> },
    CloneWorkspace { workspace: String, name: String },
    RenameWorkspace { workspace: String, name: String },
    RemoveWorkspace(String),
    ListSessions(String),
    CreateSession(String),
    StopSession(String),
    RemoveSession(String),
    Report(String),
}

/// What a `JobEffect` holds.
#[verifier::ext_equal]
pub enum JobEffectView {
    CreateWorkspace { repository: Seq<char>, name: Option<Seq<char>> },
    CloneWorkspace { workspace: Seq<char>, name: Seq<char> },
    RenameWorkspace { workspace: Seq<char>, name: Seq<char> },
    RemoveWorkspace(Seq<char>),
    ListSessions(Seq<char>),
    CreateSession(Seq<char>),
    StopSession(Seq<char>),
    RemoveSession(Seq<char>),
    Report(Seq<char>),
}

impl View for JobEffect {
    type V = JobEffectView;

    open spec fn view(&self) -> JobEffectView {
        match self {
            JobEffect::CreateWorkspace { repository, name } => JobEffectView::CreateWorkspace {
                repository: repository@,
                name: name.deep_view(),
            },
            JobEffect::CloneWorkspace { workspace, name } => JobEffectView::CloneWorkspace {
                workspace: workspace@,
                name: name@,
            },
            JobEffect::RenameWorkspace { workspace, name } => JobEffectView::RenameWorkspace {
                workspace: workspace@,
                name: name@,
            },
            JobEffect::RemoveWorkspace(a) => JobEffectView::RemoveWorkspace(a@),
            JobEffect::ListSessions(a) => JobEffectView::ListSessions(a@),
            JobEffect::CreateSession(a) => JobEffectView::CreateSession(a@),
            JobEffect::StopSession(a) => JobEffectView::StopSession(a@),
            JobEffect::RemoveSession(a) => JobEffectView::RemoveSession(a@),
            JobEffect::Report(a) => JobEffectView::Report(a@),
        }
    }
}

impl DeepView for JobEffect {
    type V = JobEffectView;

    open spec fn deep_view(&self) -> JobEffectView {
        self@
    }
}

impl Clone for JobEffect {
    fn clone(&self) -> (r: Self)
        ensures
            r@ == self@,
    {
        match self {
            JobEffect::CreateWorkspace { repository, name } => JobEffect::CreateWorkspace {
                repository: repository.clone(),
                name: name.clone(),
            },
            JobEffect::CloneWorkspace { workspace, name } => JobEffect::CloneWorkspace {
                workspace: workspace.clone(),
                name: name.clone(),
            },
            JobEffect::RenameWorkspace { workspace, name } => JobEffect::RenameWorkspace {
                workspace: workspace.clone(),
                name: name.clone(),
            },
            JobEffect::RemoveWorkspace(a) => JobEffect::RemoveWorkspace(a.clone()),
            JobEffect::ListSessions(a) => JobEffect::ListSessions(a.clone()),
            JobEffect::CreateSession(a) => JobEffect::CreateSession(a.clone()),
            JobEffect::StopSession(a) => JobEffect::StopSession(a.clone()),
            JobEffect::RemoveSession(a) => JobEffect::RemoveSession(a.clone()),
            JobEffect::Report(a) => JobEffect::Report(a.clone()),
        }
    }
}

/// What a job hears back. Anything but a report can fail. Otherwise what is done to a
/// workspace gives the workspace, creating and removing a session gives the session,
/// and everything else is done.
#[derive(Debug)]
pub enum JobReply {
    Done,
    Workspace(Workspace),
    Session(LiveSession),
    Sessions(Vec<LiveSession>),
    Failed(SwarmError),
}

/// What a `JobReply` holds.
#[verifier::ext_equal]
pub enum JobReplyView {
    Done,
    Workspace(WorkspaceView),
    Session(LiveSessionView),
    Sessions(Seq<LiveSessionView>),
    Failed(SwarmErrorView),
}

impl View for JobReply {
    type V = JobReplyView;

    open spec fn view(&self) -> JobReplyView {
        match self {
            JobReply::Done => JobReplyView::Done,
            JobReply::Workspace(a) => JobReplyView::Workspace(a@),
            JobReply::Session(a) => JobReplyView::Session(a@),
            JobReply::Sessions(a) => JobReplyView::Sessions(a.deep_view()),
            JobReply::Failed(a) => JobReplyView::Failed(a@),
        }
    }
}

impl DeepView for JobReply {
    type V = JobReplyView;

    open spec fn deep_view(&self) -> JobReplyView {
        self@
    }
}

impl Clone for JobReply {
    fn clone(&self) -> (r: Self)
        ensures
            r@ == self@,
    {
        match self {
            JobReply::Done => JobReply::Done,
            JobReply::Workspace(a) => JobReply::Workspace(a.clone()),
            JobReply::Session(a) => JobReply::Session(a.clone()),
            JobReply::Sessions(a) => JobReply::Sessions(a.clone()),
            JobReply::Failed(a) => JobReply::Failed(a.clone()),
        }
    }
}

/// What a job does next: ask for something and wait in a state, or end. A reply of
/// another sort than what was asked for is a mismatch.
#[derive(Debug)]
pub enum JobStep<P, T> {
    Run(JobEffect, P),
    Finish(Result<T, SwarmError>),
    Mismatch,
}

/// What a `JobStep` holds.
#[verifier::ext_equal]
pub enum JobStepView<P, T> {
    Run(JobEffectView, P),
    Finish(Result<T, SwarmErrorView>),
    Mismatch,
}

impl<P: View, T: View> View for JobStep<P, T> {
    type V = JobStepView<P::V, T::V>;

    open spec fn view(&self) -> JobStepView<P::V, T::V> {
        match self {
            JobStep::Run(effect, state) => JobStepView::Run(effect@, state@),
            JobStep::Finish(Ok(value)) => JobStepView::Finish(Ok(value@)),
            JobStep::Finish(Err(e)) => JobStepView::Finish(Err(e@)),
            JobStep::Mismatch => JobStepView::Mismatch,
        }
    }
}

/// What a job on a workspace waits for.
#[derive(Debug)]
pub enum JobPhase {
    Creating(String),
    Cloning,
    Renaming,
    Starting { canonical: String, workspace: Workspace },
    Reporting { canonical: String, workspace: Workspace },
    Listing { canonical: String, workspace: Workspace },
    Emptying(String),
    Stopping { workspace_ref: String, left: Vec<String> },
    Dropping { workspace_ref: String, left: Vec<String> },
    Removing,
}

/// What a `JobPhase` holds.
#[verifier::ext_equal]
pub enum JobPhaseView {
    Creating(Seq<char>),
    Cloning,
    Renaming,
    Starting { canonical: Seq<char>, workspace: WorkspaceView },
    Reporting { canonical: Seq<char>, workspace: WorkspaceView },
    Listing { canonical: Seq<char>, workspace: WorkspaceView },
    Emptying(Seq<char>),
    Stopping { workspace_ref: Seq<char>, left: Seq<Seq<char>> },
    Dropping { workspace_ref: Seq<char>, left: Seq<Seq<char>> },
    Removing,
}

impl View for JobPhase {
    type V = JobPhaseView;

    open spec fn view(&self) -> JobPhaseView {
        match self {
            JobPhase::Creating(a) => JobPhaseView::Creating(a@),
            JobPhase::Cloning => JobPhaseView::Cloning,
            JobPhase::Renaming => JobPhaseView::Renaming,
            JobPhase::Starting { canonical, workspace } => JobPhaseView::Starting {
                canonical: canonical@,
                workspace: workspace@,
            },
            JobPhase::Reporting { canonical, workspace } => JobPhaseView::Reporting {
                canonical: canonical@,
                workspace: workspace@,
            },
            JobPhase::Listing { canonical, workspace } => JobPhaseView::Listing {
                canonical: canonical@,
                workspace: workspace@,
            },
            JobPhase::Emptying(a) => JobPhaseView::Emptying(a@),
            JobPhase::Stopping { workspace_ref, left } => JobPhaseView::Stopping {
                workspace_ref: workspace_ref@,
                left: left.deep_view(),
            },
            JobPhase::Dropping { workspace_ref, left } => JobPhaseView::Dropping {
                workspace_ref: workspace_ref@,
                left: left.deep_view(),
            },
            JobPhase::Removing => JobPhaseView::Removing,
        }
    }
}

impl DeepView for JobPhase {
    type V = JobPhaseView;

    open spec fn deep_view(&self) -> JobPhaseView {
        self@
    }
}

impl Clone for JobPhase {
    fn clone(&self) -> (r: Self)
        ensures
            r@ == self@,
    {
        match self {
            JobPhase::Creating(a) => JobPhase::Creating(a.clone()),
            JobPhase::Cloning => JobPhase::Cloning,
            JobPhase::Renaming => JobPhase::Renaming,
            JobPhase::Starting { canonical, workspace } => JobPhase::Starting {
                canonical: canonical.clone(),
                workspace: workspace.clone(),
            },
            JobPhase::Reporting { canonical, workspace } => JobPhase::Reporting {
                canonical: canonical.clone(),
                workspace: workspace.clone(),
            },
            JobPhase::Listing { canonical, workspace } => JobPhase::Listing {
                canonical: canonical.clone(),
                workspace: workspace.clone(),
            },
            JobPhase::Emptying(a) => JobPhase::Emptying(a.clone()),
            JobPhase::Stopping { workspace_ref, left } => JobPhase::Stopping {
                workspace_ref: workspace_ref.clone(),
                left: left.clone(),
            },
            JobPhase::Dropping { workspace_ref, left } => JobPhase::Dropping {
                workspace_ref: workspace_ref.clone(),
                left: left.clone(),
            },
            JobPhase::Removing => JobPhase::Removing,
        }
    }
}

/// A job on a workspace.
#[derive(Debug)]
pub struct Job {
    pub repos: RepositoryStore,
    pub phase: JobPhase,
}

/// What a `Job` holds.
#[verifier::ext_equal]
pub struct JobView {
    pub repos: RepositoryStoreView,
    pub phase: JobPhaseView,
}

impl View for Job {
    type V = JobView;

    open spec fn view(&self) -> JobView {
        JobView {
            repos: self.repos@,
            phase: self.phase@,
        }
    }
}

impl DeepView for Job {
    type V = JobView;

    open spec fn deep_view(&self) -> JobView {
        self@
    }
}

impl Clone for Job {
    fn clone(&self) -> (r: Self)
        ensures
            r@ == self@,
    {
        Job {
            repos: self.repos.clone(),
            phase: self.phase.clone(),
        }
    }
}

/// What the closing of a session waits for.
#[derive(Debug)]
pub enum CloseJob {
    Stopping(String),
    Removing,
}

/// What a `CloseJob` holds.
#[verifier::ext_equal]
pub enum CloseJobView {
    Stopping(Seq<char>),
    Removing,
}

impl View for CloseJob {
    type V = CloseJobView;

    open spec fn view(&self) -> CloseJobView {
        match self {
            CloseJob::Stopping(a) => CloseJobView::Stopping(a@),
            CloseJob::Removing => CloseJobView::Removing,
        }
    }
}

impl DeepView for CloseJob {
    type V = CloseJobView;

    open spec fn deep_view(&self) -> CloseJobView {
        self@
    }
}

impl Clone for CloseJob {
    fn clone(&self) -> (r: Self)
        ensures
            r@ == self@,
    {
        match self {
            CloseJob::Stopping(a) => CloseJob::Stopping(a.clone()),
            CloseJob::Removing => CloseJob::Removing,
        }
    }
}

/// The sessions as the window shows them.
pub open spec fn entries_of(sessions: Seq<LiveSessionView>) -> Seq<SessionEntryView> {
    Seq::new(
        sessions.len(),
        |i: int| data::entry_of(sessions[i].session, sessions[i].foreground),
    )
}

fn session_entries(sessions: Vec<LiveSession>) -> (r: Vec<SessionEntry>)
    ensures
        r.deep_view() == entries_of(sessions.deep_view()),
{
    let ghost goal = entries_of(sessions.deep_view());
    let mut out: Vec<SessionEntry> = Vec::new();
    let mut i: usize = 0;
    proof {
        assert(out.deep_view() =~= goal.take(0));
    }
    while i < sessions.len()
        invariant
            i <= sessions.len(),
            goal == entries_of(sessions.deep_view()),
            out.deep_view() == goal.take(i as int),
        decreases sessions.len() - i,
    {
        let ghost before = out.deep_view();
        let live = sessions[i].clone();
        proof {
            assert(sessions.deep_view()[i as int] == sessions@[i as int]@);
        }
        out.push(data::session_entry(live.session, live.foreground));
        proof {
            assert(out.deep_view() =~= before.push(goal[i as int]));
            assert(out.deep_view() =~= goal.take(i + 1));
        }
        i += 1;
    }
    proof {
        assert(goal.take(i as int) =~= goal);
    }
    out
}

/// The programs of sessions, by their ids.
pub open spec fn labels_of(sessions: Seq<LiveSessionView>) -> Seq<SessionLabelView> {
    Seq::new(
        sessions.len(),
        |i: int|
            SessionLabelView {
                id: sessions[i].session.id,
                program: data::shown_program(sessions[i].foreground, sessions[i].session.command),
            },
    )
}

/// The programs of sessions, by their ids.
pub fn load_session_programs(sessions: &Vec<LiveSession>) -> (r: Vec<SessionLabel>)
    ensures
        r.deep_view() == labels_of(sessions.deep_view()),
{
    let ghost goal = labels_of(sessions.deep_view());
    let mut out: Vec<SessionLabel> = Vec::new();
    let mut i: usize = 0;
    proof {
        assert(out.deep_view() =~= goal.take(0));
    }
    while i < sessions.len()
        invariant
            i <= sessions.len(),
            goal == labels_of(sessions.deep_view()),
            out.deep_view() == goal.take(i as int),
        decreases sessions.len() - i,
    {
        let ghost before = out.deep_view();
        let live = &sessions[i];
        proof {
            assert(sessions.deep_view()[i as int] == live@);
        }
        out.push(
            SessionLabel {
                id: live.session.id.clone(),
                program: data::session_program(live.foreground.clone(), &live.session.command),
            },
        );
        proof {
            assert(out.deep_view() =~= before.push(goal[i as int]));
            assert(out.deep_view() =~= goal.take(i + 1));
        }
        i += 1;
    }
    proof {
        assert(goal.take(i as int) =~= goal);
    }
    out
}

/// The group of a repository: it is labelled with its alias, else with its name.
pub open spec fn group_of(loaded: LoadedRepositoryView) -> WorkspaceGroupView {
    WorkspaceGroupView {
        repo_label: repos::shown_name(loaded.repo),
        repo_canonical: repos::canonical_name(loaded.repo),
        repo_status: loaded.status,
        collapsed: loaded.repo.collapsed,
        workspace_count: loaded.workspaces.len() as usize,
        workspaces: workspaces_of(loaded),
    }
}

/// The workspaces of a repository as the window shows them.
pub open spec fn workspaces_of(loaded: LoadedRepositoryView) -> Seq<WorkspaceEntryView> {
    Seq::new(
        loaded.workspaces.len(),
        |i: int|
            data::workspace_entry(
                repos::canonical_name(loaded.repo),
                loaded.workspaces[i].workspace,
                entries_of(loaded.workspaces[i].sessions),
            ),
    )
}

fn load_group(loaded: &LoadedRepository) -> (r: WorkspaceGroup)
    ensures
        r@ == group_of(loaded@),
{
    let canonical = loaded.repo.canonical();
    let ghost goal = workspaces_of(loaded@);
    let mut out: Vec<WorkspaceEntry> = Vec::new();
    let mut i: usize = 0;
    proof {
        assert(out.deep_view() =~= goal.take(0));
    }
    while i < loaded.workspaces.len()
        invariant
            i <= loaded.workspaces@.len(),
            canonical@ == repos::canonical_name(loaded@.repo),
            goal == workspaces_of(loaded@),
            out.deep_view() == goal.take(i as int),
        decreases loaded.workspaces.len() - i,
    {
        let ghost before = out.deep_view();
        let source = loaded.workspaces[i].clone();
        proof {
            assert(loaded@.workspaces[i as int] == loaded.workspaces@[i as int]@);
        }
        let sessions = session_entries(source.sessions);
        out.push(data::map_workspace(canonical.as_str(), source.workspace, sessions));
        proof {
            assert(out.deep_view() =~= before.push(goal[i as int]));
            assert(out.deep_view() =~= goal.take(i + 1));
        }
        i += 1;
    }
    proof {
        assert(goal.take(i as int) =~= goal);
        assert(out@.len() == out.deep_view().len());
    }
    let workspace_count: usize = out.len();
    WorkspaceGroup {
        repo_label: loaded.repo.display_name(),
        repo_canonical: canonical,
        repo_status: loaded.status.clone(),
        collapsed: loaded.repo.collapsed,
        workspace_count,
        workspaces: out,
    }
}

/// The groups that the window shows, in the order of the repositories.
pub fn load_workspace_groups(loaded: &Vec<LoadedRepository>) -> (r: Vec<WorkspaceGroup>)
    ensures
        r@.len() == loaded@.len(),
        forall|i: int|
            0 <= i < loaded@.len() ==> #[trigger] r.deep_view()[i] == group_of(
                loaded.deep_view()[i],
            ),
{
    let mut out: Vec<WorkspaceGroup> = Vec::new();
    let mut i: usize = 0;
    while i < loaded.len()
        invariant
            i <= loaded.len(),
            out@.len() == i,
            forall|j: int|
                0 <= j < i ==> #[trigger] out.deep_view()[j] == group_of(loaded.deep_view()[j]),
        decreases loaded.len() - i,
    {
        let ghost before = out.deep_view();
        let group = load_group(&loaded[i]);
        let ghost added = group@;
        out.push(group);
        proof {
            assert(out.deep_view() =~= before.push(added));
            assert(loaded.deep_view()[i as int] == loaded@[i as int]@);
        }
        i += 1;
    }
    out
}

/// The text that tells of a default session that did not start.
pub open spec fn default_session_failure(workspace: WorkspaceView, e: SwarmErrorView) -> Seq<char> {
    "failed to create default session for "@ + workspaces::full_reference(workspace) + ": "@ + error::error_message(e)
}

/// The first step of creating a workspace: its repository must be known.
pub open spec fn create_job(
    store: RepositoryStoreView,
    repository: Seq<char>,
    name: Option<Seq<char>>,
) -> JobStepView<JobView, WorkspaceEntryView> {
    match repos::required(store.rows, repository) {
        Err(e) => JobStepView::Finish(Err(e)),
        Ok(repo) => JobStepView::Run(
            JobEffectView::CreateWorkspace { repository, name },
            JobView { repos: store, phase: JobPhaseView::Creating(repos::canonical_name(repo)) },
        ),
    }
}

/// The next step once the sessions that are left are listed: each is stopped and
/// removed, then the workspace is removed.
pub open spec fn empty_next(
    store: RepositoryStoreView,
    workspace_ref: Seq<char>,
    left: Seq<Seq<char>>,
) -> JobStepView<JobView, WorkspaceEntryView> {
    if left.len() == 0 {
        JobStepView::Run(
            JobEffectView::RemoveWorkspace(workspace_ref),
            JobView { repos: store, phase: JobPhaseView::Removing },
        )
    } else {
        JobStepView::Run(
            JobEffectView::StopSession(left[0]),
            JobView { repos: store, phase: JobPhaseView::Stopping { workspace_ref, left } },
        )
    }
}

/// The ids of sessions.
pub open spec fn ids_of(sessions: Seq<LiveSessionView>) -> Seq<Seq<char>> {
    Seq::new(sessions.len(), |i: int| sessions[i].session.id)
}

/// The step that starts the default session of a new workspace.
pub open spec fn start_default_session(
    store: RepositoryStoreView,
    canonical: Seq<char>,
    workspace: WorkspaceView,
) -> JobStepView<JobView, WorkspaceEntryView> {
    JobStepView::Run(
        JobEffectView::CreateSession(workspaces::full_reference(workspace)),
        JobView { repos: store, phase: JobPhaseView::Starting { canonical, workspace } },
    )
}

/// The step that lists the sessions of a workspace.
pub open spec fn list_sessions(
    store: RepositoryStoreView,
    canonical: Seq<char>,
    workspace: WorkspaceView,
) -> JobStepView<JobView, WorkspaceEntryView> {
    JobStepView::Run(
        JobEffectView::ListSessions(workspaces::full_reference(workspace)),
        JobView { repos: store, phase: JobPhaseView::Listing { canonical, workspace } },
    )
}

/// The next step of a job on a workspace. A failure ends it, but for that of the
/// default session of a new workspace, which is reported.
pub open spec fn job_next(s: JobView, reply: JobReplyView) -> JobStepView<
    JobView,
    WorkspaceEntryView,
> {
    match (s.phase, reply) {
        (JobPhaseView::Starting { canonical, workspace }, JobReplyView::Failed(e)) =>
            JobStepView::Run(
            JobEffectView::Report(default_session_failure(workspace, e)),
            JobView { phase: JobPhaseView::Reporting { canonical, workspace }, ..s },
        ),
        (_, JobReplyView::Failed(e)) => JobStepView::Finish(Err(e)),
        (JobPhaseView::Creating(canonical), JobReplyView::Workspace(workspace)) =>
            start_default_session(s.repos, canonical, workspace),
        (JobPhaseView::Cloning, JobReplyView::Workspace(workspace)) => match repos::required(
            s.repos.rows,
            workspace.repository,
        ) {
            Err(e) => JobStepView::Finish(Err(e)),
            Ok(repo) => start_default_session(s.repos, repos::canonical_name(repo), workspace),
        },
        (JobPhaseView::Renaming, JobReplyView::Workspace(workspace)) => match repos::required(
            s.repos.rows,
            workspace.repository,
        ) {
            Err(e) => JobStepView::Finish(Err(e)),
            Ok(repo) => list_sessions(s.repos, repos::canonical_name(repo), workspace),
        },
        (JobPhaseView::Starting { canonical, workspace }, JobReplyView::Session(_)) =>
            list_sessions(s.repos, canonical, workspace),
        (JobPhaseView::Reporting { canonical, workspace }, JobReplyView::Done) => list_sessions(
            s.repos,
            canonical,
            workspace,
        ),
        (
            JobPhaseView::Listing { canonical, workspace },
            JobReplyView::Sessions(sessions),
        ) => JobStepView::Finish(
            Ok(data::workspace_entry(canonical, workspace, entries_of(sessions))),
        ),
        (JobPhaseView::Emptying(workspace_ref), JobReplyView::Sessions(sessions)) => empty_next(
            s.repos,
            workspace_ref,
            ids_of(sessions),
        ),
        (JobPhaseView::Stopping { workspace_ref, left }, JobReplyView::Done) => if left.len()
            == 0 {
            JobStepView::Mismatch
        } else {
            JobStepView::Run(
                JobEffectView::RemoveSession(left[0]),
                JobView { phase: JobPhaseView::Dropping { workspace_ref, left }, ..s },
            )
        },
        (JobPhaseView::Dropping { workspace_ref, left }, JobReplyView::Session(_)) =>
            if left.len() == 0 {
            JobStepView::Mismatch
        } else {
            empty_next(s.repos, workspace_ref, left.skip(1))
        },
        (JobPhaseView::Removing, JobReplyView::Workspace(workspace)) => match repos::required(
            s.repos.rows,
            workspace.repository,
        ) {
            Err(e) => JobStepView::Finish(Err(e)),
            Ok(repo) => JobStepView::Finish(
                Ok(data::workspace_entry(repos::canonical_name(repo), workspace, seq![])),
            ),
        },
        _ => JobStepView::Mismatch,
    }
}

/// Creates a workspace with a default session.
pub fn create_workspace(store: RepositoryStore, repository: &str, name: Option<String>) -> (r:
    JobStep<Job, WorkspaceEntry>)
    ensures
        r@ == create_job(store@, repository@, name.deep_view()),
{
    match store.require_repository(repository) {
        Err(e) => JobStep::Finish(Err(e)),
        Ok(repo) => {
            let canonical = repo.canonical();
            JobStep::Run(
                JobEffect::CreateWorkspace { repository: repository.to_owned(), name },
                Job { repos: store, phase: JobPhase::Creating(canonical) },
            )
        },
    }
}

/// Clones a workspace, with a default session.
pub fn clone_workspace(store: RepositoryStore, workspace_ref: &str, name: &str) -> (r: JobStep<
    Job,
    WorkspaceEntry,
>)
    ensures
        r@ == (JobStepView::<JobView, WorkspaceEntryView>::Run(
            JobEffectView::CloneWorkspace { workspace: workspace_ref@, name: name@ },
            JobView { repos: store@, phase: JobPhaseView::Cloning },
        )),
{
    JobStep::Run(
        JobEffect::CloneWorkspace { workspace: workspace_ref.to_owned(), name: name.to_owned() },
        Job { repos: store, phase: JobPhase::Cloning },
    )
}

/// Renames a workspace.
pub fn rename_workspace(store: RepositoryStore, workspace_ref: &str, name: &str) -> (r: JobStep<
    Job,
    WorkspaceEntry,
>)
    ensures
        r@ == (JobStepView::<JobView, WorkspaceEntryView>::Run(
            JobEffectView::RenameWorkspace { workspace: workspace_ref@, name: name@ },
            JobView { repos: store@, phase: JobPhaseView::Renaming },
        )),
{
    JobStep::Run(
        JobEffect::RenameWorkspace { workspace: workspace_ref.to_owned(), name: name.to_owned() },
        Job { repos: store, phase: JobPhase::Renaming },
    )
}

/// Removes a workspace and its sessions.
pub fn remove_workspace(store: RepositoryStore, workspace_ref: &str) -> (r: JobStep<
    Job,
    WorkspaceEntry,
>)
    ensures
        r@ == (JobStepView::<JobView, WorkspaceEntryView>::Run(
            JobEffectView::ListSessions(workspace_ref@),
            JobView { repos: store@, phase: JobPhaseView::Emptying(workspace_ref@) },
        )),
{
    JobStep::Run(
        JobEffect::ListSessions(workspace_ref.to_owned()),
        Job { repos: store, phase: JobPhase::Emptying(workspace_ref.to_owned()) },
    )
}

fn default_session(repos: RepositoryStore, canonical: String, workspace: Workspace) -> (r: JobStep<
    Job,
    WorkspaceEntry,
>)
    ensures
        r@ == start_default_session(repos@, canonical@, workspace@),
{
    JobStep::Run(
        JobEffect::CreateSession(workspaces::reference_to(&workspace)),
        Job { repos, phase: JobPhase::Starting { canonical, workspace } },
    )
}

fn listing(repos: RepositoryStore, canonical: String, workspace: Workspace) -> (r: JobStep<
    Job,
    WorkspaceEntry,
>)
    ensures
        r@ == list_sessions(repos@, canonical@, workspace@),
{
    JobStep::Run(
        JobEffect::ListSessions(workspaces::reference_to(&workspace)),
        Job { repos, phase: JobPhase::Listing { canonical, workspace } },
    )
}

fn empty_workspace(repos: RepositoryStore, workspace_ref: String, left: Vec<String>) -> (r: JobStep<
    Job,
    WorkspaceEntry,
>)
    ensures
        r@ == empty_next(repos@, workspace_ref@, left.deep_view()),
{
    if left.len() == 0 {
        JobStep::Run(
            JobEffect::RemoveWorkspace(workspace_ref),
            Job { repos, phase: JobPhase::Removing },
        )
    } else {
        proof {
            assert(left.deep_view()[0] == left@[0]@);
        }
        let first = left[0].clone();
        JobStep::Run(
            JobEffect::StopSession(first),
            Job { repos, phase: JobPhase::Stopping { workspace_ref, left } },
        )
    }
}

fn session_ids(sessions: &Vec<LiveSession>) -> (r: Vec<String>)
    ensures
        r.deep_view() == ids_of(sessions.deep_view()),
{
    let ghost goal = ids_of(sessions.deep_view());
    let mut out: Vec<String> = Vec::new();
    let mut i: usize = 0;
    proof {
        assert(out.deep_view() =~= goal.take(0));
    }
    while i < sessions.len()
        invariant
            i <= sessions.len(),
            goal == ids_of(sessions.deep_view()),
            out.deep_view() == goal.take(i as int),
        decreases sessions.len() - i,
    {
        let ghost before = out.deep_view();
        out.push(sessions[i].session.id.clone());
        proof {
            assert(sessions.deep_view()[i as int] == sessions@[i as int]@);
            assert(out.deep_view() =~= before.push(goal[i as int]));
            assert(out.deep_view() =~= goal.take(i + 1));
        }
        i += 1;
    }
    proof {
        assert(goal.take(i as int) =~= goal);
    }
    out
}

impl Job {
    /// Goes on with a job once its reply is there.
    pub fn resume(self, reply: JobReply) -> (r: JobStep<Job, WorkspaceEntry>)
        ensures
            r@ == job_next(self@, reply@),
    {
        let repos = self.repos;
        match (self.phase, reply) {
            (JobPhase::Starting { canonical, workspace }, JobReply::Failed(e)) => {
                let mut text = "failed to create default session for ".to_owned();
                text.append(workspaces::reference_to(&workspace).as_str());
                text.append(": ");
                text.append(e.message().as_str());
                JobStep::Run(
                    JobEffect::Report(text),
                    Job { repos, phase: JobPhase::Reporting { canonical, workspace } },
                )
            },
            (_, JobReply::Failed(e)) => JobStep::Finish(Err(e)),
            (JobPhase::Creating(canonical), JobReply::Workspace(workspace)) => default_session(
                repos,
                canonical,
                workspace,
            ),
            (JobPhase::Cloning, JobReply::Workspace(workspace)) => {
                match repos.require_repository(workspace.repository.as_str()) {
                    Err(e) => JobStep::Finish(Err(e)),
                    Ok(repo) => default_session(repos, repo.canonical(), workspace),
                }
            },
            (JobPhase::Renaming, JobReply::Workspace(workspace)) => {
                match repos.require_repository(workspace.repository.as_str()) {
                    Err(e) => JobStep::Finish(Err(e)),
                    Ok(repo) => listing(repos, repo.canonical(), workspace),
                }
            },
            (JobPhase::Starting { canonical, workspace }, JobReply::Session(_)) => listing(
                repos,
                canonical,
                workspace,
            ),
            (JobPhase::Reporting { canonical, workspace }, JobReply::Done) => listing(
                repos,
                canonical,
                workspace,
            ),
            (JobPhase::Listing { canonical, workspace }, JobReply::Sessions(sessions)) => {
                let entries = session_entries(sessions);
                JobStep::Finish(Ok(data::map_workspace(canonical.as_str(), workspace, entries)))
            },
            (JobPhase::Emptying(workspace_ref), JobReply::Sessions(sessions)) => empty_workspace(
                repos,
                workspace_ref,
                session_ids(&sessions),
            ),
            (JobPhase::Stopping { workspace_ref, left }, JobReply::Done) => {
                if left.len() == 0 {
                    return JobStep::Mismatch;
                }
                proof {
                    assert(left.deep_view()[0] == left@[0]@);
                }
                let first = left[0].clone();
                JobStep::Run(
                    JobEffect::RemoveSession(first),
                    Job { repos, phase: JobPhase::Dropping { workspace_ref, left } },
                )
            },
            (JobPhase::Dropping { workspace_ref, left }, JobReply::Session(_)) => {
                let mut left = left;
                if left.len() == 0 {
                    return JobStep::Mismatch;
                }
                let ghost before = left.deep_view();
                let _ = left.remove(0);
                proof {
                    assert(left.deep_view() =~= before.skip(1));
                }
                empty_workspace(repos, workspace_ref, left)
            },
            (JobPhase::Removing, JobReply::Workspace(workspace)) => {
                match repos.require_repository(workspace.repository.as_str()) {
                    Err(e) => JobStep::Finish(Err(e)),
                    Ok(repo) => {
                        let none: Vec<SessionEntry> = Vec::new();
                        proof {
                            assert(none.deep_view() =~= seq![]);
                        }
                        JobStep::Finish(
                            Ok(data::map_workspace(repo.canonical().as_str(), workspace, none)),
                        )
                    },
                }
            },
            _ => JobStep::Mismatch,
        }
    }
}

/// The next step of closing a session: it is stopped, then removed.
pub open spec fn close_next(s: CloseJobView, reply: JobReplyView) -> JobStepView<
    CloseJobView,
    SessionEntryView,
> {
    match (s, reply) {
        (_, JobReplyView::Failed(e)) => JobStepView::Finish(Err(e)),
        (CloseJobView::Stopping(id), JobReplyView::Done) => JobStepView::Run(
            JobEffectView::RemoveSession(id),
            CloseJobView::Removing,
        ),
        (CloseJobView::Removing, JobReplyView::Session(live)) => JobStepView::Finish(
            Ok(data::entry_of(live.session, live.foreground)),
        ),
        _ => JobStepView::Mismatch,
    }
}

/// Closes a session.
pub fn close_session(session_id: &str) -> (r: JobStep<CloseJob, SessionEntry>)
    ensures
        r@ == (JobStepView::<CloseJobView, SessionEntryView>::Run(
            JobEffectView::StopSession(session_id@),
            CloseJobView::Stopping(session_id@),
        )),
{
    JobStep::Run(
        JobEffect::StopSession(session_id.to_owned()),
        CloseJob::Stopping(session_id.to_owned()),
    )
}

impl CloseJob {
    /// Goes on closing a session once the reply is there.
    pub fn resume(self, reply: JobReply) -> (r: JobStep<CloseJob, SessionEntry>)
        ensures
            r@ == close_next(self@, reply@),
    {
        match (self, reply) {
            (_, JobReply::Failed(e)) => JobStep::Finish(Err(e)),
            (CloseJob::Stopping(id), JobReply::Done) => JobStep::Run(
                JobEffect::RemoveSession(id),
                CloseJob::Removing,
            ),
            (CloseJob::Removing, JobReply::Session(live)) => JobStep::Finish(
                Ok(data::session_entry(live.session, live.foreground)),
            ),
            _ => JobStep::Mismatch,
        }
    }
}

/// What a job asks for while it hears the given replies.
pub open spec fn job_asked(
    step: JobStepView<JobView, WorkspaceEntryView>,
    replies: Seq<JobReplyView>,
) -> Seq<JobEffectView>
    decreases replies.len(),
{
    match step {
        JobStepView::Run(effect, state) => if replies.len() == 0 {
            seq![effect]
        } else {
            seq![effect] + job_asked(job_next(state, replies[0]), replies.skip(1))
        },
        _ => seq![],
    }
}

/// Stopping and removing each of the sessions, then removing the workspace.
pub open spec fn emptying(workspace_ref: Seq<char>, left: Seq<Seq<char>>) -> Seq<JobEffectView>
    decreases left.len(),
{
    if left.len() == 0 {
        seq![JobEffectView::RemoveWorkspace(workspace_ref)]
    } else {
        seq![JobEffectView::StopSession(left[0]), JobEffectView::RemoveSession(left[0])]
            + emptying(workspace_ref, left.skip(1))
    }
}

/// Replies by which each of the sessions was stopped and removed.
pub open spec fn emptied(removed: Seq<LiveSessionView>) -> Seq<JobReplyView>
    decreases removed.len(),
{
    if removed.len() == 0 {
        seq![]
    } else {
        seq![JobReplyView::Done, JobReplyView::Session(removed[0])] + emptied(removed.skip(1))
    }
}

/// Removing a workspace stops and removes every one of its sessions first, in their
/// order, and then the workspace.
pub proof fn law_sessions_go_before_their_workspace(
    store: RepositoryStoreView,
    workspace_ref: Seq<char>,
    left: Seq<Seq<char>>,
    removed: Seq<LiveSessionView>,
)
    requires
        removed.len() == left.len(),
    ensures
        job_asked(empty_next(store, workspace_ref, left), emptied(removed)) == emptying(
            workspace_ref,
            left,
        ),
    decreases left.len(),
{
    let replies = emptied(removed);
    if left.len() > 0 {
        law_sessions_go_before_their_workspace(
            store,
            workspace_ref,
            left.skip(1),
            removed.skip(1),
        );
        let step = empty_next(store, workspace_ref, left);
        let stopping = step->Run_1;
        assert(replies[0] == JobReplyView::Done);
        assert(replies.skip(1)[0] == JobReplyView::Session(removed[0]));
        assert(replies.skip(1).skip(1) =~= emptied(removed.skip(1)));
        let dropping = job_next(stopping, replies[0])->Run_1;
        assert(job_next(dropping, replies.skip(1)[0]) == empty_next(
            store,
            workspace_ref,
            left.skip(1),
        ));
        let rest = job_asked(
            empty_next(store, workspace_ref, left.skip(1)),
            emptied(removed.skip(1)),
        );
        assert(job_asked(job_next(stopping, replies[0]), replies.skip(1)) == seq![
            JobEffectView::RemoveSession(left[0]),
        ] + rest);
        assert(job_asked(step, replies) =~= seq![
            JobEffectView::StopSession(left[0]),
            JobEffectView::RemoveSession(left[0]),
        ] + rest);
    }
}

/// A session that cannot be stopped keeps its workspace: the job ends with the
/// failure.
pub proof fn law_failed_stop_keeps_workspace(
    store: RepositoryStoreView,
    workspace_ref: Seq<char>,
    left: Seq<Seq<char>>,
    e: SwarmErrorView,
)
    requires
        left.len() > 0,
    ensures
        job_asked(
            empty_next(store, workspace_ref, left),
            seq![JobReplyView::Failed(e)],
        ) == seq![JobEffectView::StopSession(left[0])],
{
    let replies = seq![JobReplyView::Failed(e)];
    assert(replies.skip(1) =~= seq![]);
    assert(job_asked(
        JobStepView::<JobView, WorkspaceEntryView>::Finish(Err(e)),
        replies.skip(1),
    ) =~= seq![]);
}

/// A workspace is created even where its default session does not start: the failure
/// is reported, and the workspace comes with the sessions that there are.
pub proof fn law_workspace_needs_no_default_session(
    store: RepositoryStoreView,
    canonical: Seq<char>,
    workspace: WorkspaceView,
    e: SwarmErrorView,
    sessions: Seq<LiveSessionView>,
)
    ensures
        ({
            let reporting = job_next(
                start_default_session(store, canonical, workspace)->Run_1,
                JobReplyView::Failed(e),
            );
            let listing = job_next(reporting->Run_1, JobReplyView::Done);
            let end = job_next(listing->Run_1, JobReplyView::Sessions(sessions));
            &&& reporting matches JobStepView::Run(effect, _) && effect == JobEffectView::Report(
                default_session_failure(workspace, e),
            )
            &&& listing is Run
            &&& end == JobStepView::<JobView, WorkspaceEntryView>::Finish(
                Ok(data::workspace_entry(canonical, workspace, entries_of(sessions))),
            )
        }),
{
}

/// Where a job stands once it has heard the given replies.
pub open spec fn job_reached(
    step: JobStepView<JobView, WorkspaceEntryView>,
    replies: Seq<JobReplyView>,
) -> JobStepView<JobView, WorkspaceEntryView>
    decreases replies.len(),
{
    match step {
        JobStepView::Run(_, state) => if replies.len() == 0 {
            step
        } else {
            job_reached(job_next(state, replies[0]), replies.skip(1))
        },
        _ => step,
    }
}

/// The workspace of a repository as the window shows it: its name, its branch and its path, and
/// its sessions in their order.
pub open spec fn shown_workspace(
    canonical: Seq<char>,
    workspace: WorkspaceView,
    sessions: Seq<LiveSessionView>,
) -> WorkspaceEntryView {
    WorkspaceEntryView {
        repo_canonical: canonical,
        name: workspace.name,
        branch: workspace.branch,
        path: workspace.path,
        sessions: Seq::new(
            sessions.len(),
            |i: int|
                SessionEntryView {
                    id: sessions[i].session.id,
                    pid: sessions[i].session.pid,
                    program: match sessions[i].foreground {
                        Some(program) => program,
                        None => data::program_of(sessions[i].session.command),
                    },
                    status: sessions[i].session.status,
                    log_path: sessions[i].session.log_path,
                    socket_path: sessions[i].session.socket_path,
                },
        ),
    }
}

/// Creating a workspace, written out: it is created under the name that was asked for, gets a
/// default session, and is shown with the sessions that it has then. Where the default session
/// does not start, that is reported and the rest is the same.
pub proof fn law_create_job_written_out(
    store: RepositoryStoreView,
    repository: Seq<char>,
    name: Option<Seq<char>>,
    repo: RepositoryView,
    workspace: WorkspaceView,
    started: LiveSessionView,
    e: SwarmErrorView,
    sessions: Seq<LiveSessionView>,
)
    requires
        repos::resolved(store.rows, repository) == Some(repo),
    ensures
        ({
            let start = create_job(store, repository, name);
            let reference = workspace.repository + ":"@ + workspace.name;
            let canonical = repo.host + "/"@ + repo.owner + "/"@ + repo.name;
            let end = JobStepView::<JobView, WorkspaceEntryView>::Finish(
                Ok(shown_workspace(canonical, workspace, sessions)),
            );
            let good = seq![
                JobReplyView::Workspace(workspace),
                JobReplyView::Session(started),
                JobReplyView::Sessions(sessions),
            ];
            let bad = seq![
                JobReplyView::Workspace(workspace),
                JobReplyView::Failed(e),
                JobReplyView::Done,
                JobReplyView::Sessions(sessions),
            ];
            &&& job_asked(start, good) == seq![
                JobEffectView::CreateWorkspace { repository, name },
                JobEffectView::CreateSession(reference),
                JobEffectView::ListSessions(reference),
            ]
            &&& job_reached(start, good) == end
            &&& job_asked(start, bad) == seq![
                JobEffectView::CreateWorkspace { repository, name },
                JobEffectView::CreateSession(reference),
                JobEffectView::Report(
                    "failed to create default session for "@ + reference + ": "@
                        + error::error_message(e),
                ),
                JobEffectView::ListSessions(reference),
            ]
            &&& job_reached(start, bad) == end
        }),
{
    let start = create_job(store, repository, name);
    let reference = workspace.repository + ":"@ + workspace.name;
    let canonical = repo.host + "/"@ + repo.owner + "/"@ + repo.name;
    let good = seq![
        JobReplyView::Workspace(workspace),
        JobReplyView::Session(started),
        JobReplyView::Sessions(sessions),
    ];
    let bad = seq![
        JobReplyView::Workspace(workspace),
        JobReplyView::Failed(e),
        JobReplyView::Done,
        JobReplyView::Sessions(sessions),
    ];
    lemma_shown_workspace(canonical, workspace, sessions);
    reveal_with_fuel(job_asked, 6);
    reveal_with_fuel(job_reached, 6);
    assert(good.skip(1)[0] == JobReplyView::Session(started));
    assert(good.skip(1).skip(1)[0] == JobReplyView::Sessions(sessions));
    assert(good.skip(1).skip(1).skip(1).len() == 0);
    assert(bad.skip(1)[0] == JobReplyView::Failed(e));
    assert(bad.skip(1).skip(1)[0] == JobReplyView::Done);
    assert(bad.skip(1).skip(1).skip(1)[0] == JobReplyView::Sessions(sessions));
    assert(bad.skip(1).skip(1).skip(1).skip(1).len() == 0);
    assert(job_asked(start, good) =~= seq![
        JobEffectView::CreateWorkspace { repository, name },
        JobEffectView::CreateSession(reference),
        JobEffectView::ListSessions(reference),
    ]);
    assert(job_asked(start, bad) =~= seq![
        JobEffectView::CreateWorkspace { repository, name },
        JobEffectView::CreateSession(reference),
        JobEffectView::Report(
            "failed to create default session for "@ + reference + ": "@ + error::error_message(e),
        ),
        JobEffectView::ListSessions(reference),
    ]);
}

proof fn lemma_shown_workspace(
    canonical: Seq<char>,
    workspace: WorkspaceView,
    sessions: Seq<LiveSessionView>,
)
    ensures
        data::workspace_entry(canonical, workspace, entries_of(sessions)) == shown_workspace(
            canonical,
            workspace,
            sessions,
        ),
{
    assert(entries_of(sessions) =~= shown_workspace(canonical, workspace, sessions).sessions);
}

/// Cloning and renaming a workspace, written out: a clone gets a default session, a workspace
/// that is renamed does not, and both are shown with the sessions that they have then, under the
/// repository that they are of.
pub proof fn law_clone_and_rename_jobs_written_out(
    store: RepositoryStoreView,
    repo: RepositoryView,
    workspace: WorkspaceView,
    started: LiveSessionView,
    sessions: Seq<LiveSessionView>,
)
    requires
        repos::resolved(store.rows, workspace.repository) == Some(repo),
    ensures
        ({
            let cloning = JobView { repos: store, phase: JobPhaseView::Cloning };
            let renaming = JobView { repos: store, phase: JobPhaseView::Renaming };
            let reference = workspace.repository + ":"@ + workspace.name;
            let canonical = repo.host + "/"@ + repo.owner + "/"@ + repo.name;
            let end = JobStepView::<JobView, WorkspaceEntryView>::Finish(
                Ok(shown_workspace(canonical, workspace, sessions)),
            );
            let cloned = job_next(cloning, JobReplyView::Workspace(workspace));
            let renamed = job_next(renaming, JobReplyView::Workspace(workspace));
            let after_clone = seq![JobReplyView::Session(started), JobReplyView::Sessions(sessions)];
            let after_rename = seq![JobReplyView::Sessions(sessions)];
            &&& job_asked(cloned, after_clone) == seq![
                JobEffectView::CreateSession(reference),
                JobEffectView::ListSessions(reference),
            ]
            &&& job_reached(cloned, after_clone) == end
            &&& job_asked(renamed, after_rename) == seq![JobEffectView::ListSessions(reference)]
            &&& job_reached(renamed, after_rename) == end
        }),
{
    let cloning = JobView { repos: store, phase: JobPhaseView::Cloning };
    let renaming = JobView { repos: store, phase: JobPhaseView::Renaming };
    let reference = workspace.repository + ":"@ + workspace.name;
    let canonical = repo.host + "/"@ + repo.owner + "/"@ + repo.name;
    let cloned = job_next(cloning, JobReplyView::Workspace(workspace));
    let renamed = job_next(renaming, JobReplyView::Workspace(workspace));
    let after_clone = seq![JobReplyView::Session(started), JobReplyView::Sessions(sessions)];
    let after_rename = seq![JobReplyView::Sessions(sessions)];
    lemma_shown_workspace(canonical, workspace, sessions);
    reveal_with_fuel(job_asked, 4);
    reveal_with_fuel(job_reached, 4);
    assert(after_clone.skip(1)[0] == JobReplyView::Sessions(sessions));
    assert(after_clone.skip(1).skip(1).len() == 0);
    assert(after_rename.skip(1).len() == 0);
    assert(job_asked(cloned, after_clone) =~= seq![
        JobEffectView::CreateSession(reference),
        JobEffectView::ListSessions(reference),
    ]);
    assert(job_asked(renamed, after_rename) =~= seq![JobEffectView::ListSessions(reference)]);
}

/// Removing a workspace empties it of all the sessions that it has, by their identifiers, and
/// shows it without sessions at the end.
pub proof fn law_remove_job_written_out(
    store: RepositoryStoreView,
    workspace_ref: Seq<char>,
    sessions: Seq<LiveSessionView>,
    repo: RepositoryView,
    workspace: WorkspaceView,
    i: int,
)
    requires
        repos::resolved(store.rows, workspace.repository) == Some(repo),
    ensures
        ({
            let emptying = JobView { repos: store, phase: JobPhaseView::Emptying(workspace_ref) };
            let removing = JobView { repos: store, phase: JobPhaseView::Removing };
            let ids = Seq::new(sessions.len(), |k: int| sessions[k].session.id);
            &&& job_next(emptying, JobReplyView::Sessions(sessions)) == empty_next(
                store,
                workspace_ref,
                ids,
            )
            &&& job_next(removing, JobReplyView::Workspace(workspace)) == JobStepView::<
                JobView,
                WorkspaceEntryView,
            >::Finish(
                Ok(
                    WorkspaceEntryView {
                        repo_canonical: repo.host + "/"@ + repo.owner + "/"@ + repo.name,
                        name: workspace.name,
                        branch: workspace.branch,
                        path: workspace.path,
                        sessions: seq![],
                    },
                ),
            )
        }),
{
    assert(ids_of(sessions) =~= Seq::new(sessions.len(), |k: int| sessions[k].session.id));
}

/// Closing a session removes the very session that was stopped, and shows what it was.
pub proof fn law_close_job_written_out(id: Seq<char>, live: LiveSessionView)
    ensures
        close_next(CloseJobView::Stopping(id), JobReplyView::Done) == JobStepView::<
            CloseJobView,
            SessionEntryView,
        >::Run(JobEffectView::RemoveSession(id), CloseJobView::Removing),
        close_next(CloseJobView::Removing, JobReplyView::Session(live)) == JobStepView::<
            CloseJobView,
            SessionEntryView,
        >::Finish(
            Ok(
                SessionEntryView {
                    id: live.session.id,
                    pid: live.session.pid,
                    program: match live.foreground {
                        Some(program) => program,
                        None => data::program_of(live.session.command),
                    },
                    status: live.session.status,
                    log_path: live.session.log_path,
                    socket_path: live.session.socket_path,
                },
            ),
        ),
{
}

/// The group of a repository has the repository's names, its status, its flag, and all of its
/// workspaces in their order, which it counts.
pub proof fn law_group_of_a_repository(loaded: LoadedRepositoryView, i: int)
    requires
        loaded.workspaces.len() <= usize::MAX,
        0 <= i < loaded.workspaces.len(),
    ensures
        ({
            let group = group_of(loaded);
            let repo = loaded.repo;
            let canonical = repo.host + "/"@ + repo.owner + "/"@ + repo.name;
            &&& group.repo_label == (if repo.alias is Some {
                repo.alias->0
            } else {
                repo.name
            })
            &&& group.repo_canonical == canonical
            &&& group.repo_status == loaded.status
            &&& group.collapsed == repo.collapsed
            &&& group.workspace_count == loaded.workspaces.len()
            &&& group.workspaces.len() == loaded.workspaces.len()
            &&& group.workspaces[i] == shown_workspace(
                canonical,
                loaded.workspaces[i].workspace,
                loaded.workspaces[i].sessions,
            )
        }),
{
    let canonical = repos::canonical_name(loaded.repo);
    lemma_shown_workspace(
        canonical,
        loaded.workspaces[i].workspace,
        loaded.workspaces[i].sessions,
    );
}

/// Each session has one label: the program in the foreground, else the one that it was started
/// with.
pub proof fn law_labels_of_sessions(sessions: Seq<LiveSessionView>, i: int)
    requires
        0 <= i < sessions.len(),
    ensures
        labels_of(sessions).len() == sessions.len(),
        labels_of(sessions)[i].id == sessions[i].session.id,
        sessions[i].foreground matches Some(program) ==> labels_of(sessions)[i].program == program,
        sessions[i].foreground is None ==> labels_of(sessions)[i].program == data::program_of(
            sessions[i].session.command,
        ),
{
}

/// A failure ends the job that waits, and is its result. Only a default session that does not
/// start ends none: it is reported, and the workspace is shown without it.
pub proof fn law_failures_end_jobs(s: JobView, close: CloseJobView, e: SwarmErrorView)
    ensures
        close_next(close, JobReplyView::Failed(e)) == JobStepView::<
            CloseJobView,
            SessionEntryView,
        >::Finish(Err(e)),
        !(s.phase is Starting) ==> job_next(s, JobReplyView::Failed(e)) == JobStepView::<
            JobView,
            WorkspaceEntryView,
        >::Finish(Err(e)),
        s.phase is Starting ==> (job_next(s, JobReplyView::Failed(e)) matches JobStepView::Run(
            effect,
            _,
        ) && effect is Report),
{
}

} // verus!
