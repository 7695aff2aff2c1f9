//! The operations on sessions: starting, finding, refreshing, stopping,
//! removing, listing, pruning and attaching to them.

use crate::effects;
use crate::effects::{Effect, EffectView, Reply, ReplyView, Step, StepView};
use crate::error::{SwarmError, SwarmErrorView};
use crate::paths;
use crate::repos;
use crate::repos::{
    Repository, RepositoryStore, RepositoryStoreView, RepositoryView, SwarmPaths, SwarmPathsView,
};
use crate::sessions;
use crate::sessions::{Session, SessionRow, SessionRowView, SessionView};
use crate::text;
use crate::workspaces::{Workspace, WorkspaceView};
use vstd::prelude::*;

verus! {

/// The sessions of the repositories that are known.
pub struct SessionStore {
    pub repos: RepositoryStore,
}

/// The database of a repository.
pub open spec fn db_path(paths: SwarmPathsView, repo: RepositoryView) -> Seq<char> {
    paths::joined_path(repos::repository_dir(paths.repos_dir, repo), "repo.db"@)
}

/// A session and the database that records it.
#[derive(Debug)]
pub struct FoundSession {
    pub db_path: String,
    pub session: Session,
}

/// What a `FoundSession` holds.
#[verifier::ext_equal]
pub struct FoundSessionView {
    pub db_path: Seq<char>,
    pub session: SessionView,
}

impl View for FoundSession {
    type V = FoundSessionView;

    open spec fn view(&self) -> FoundSessionView {
        FoundSessionView {
            db_path: self.db_path@,
            session: self.session@,
        }
    }
}

impl DeepView for FoundSession {
    type V = FoundSessionView;

    open spec fn deep_view(&self) -> FoundSessionView {
        self@
    }
}

impl Clone for FoundSession {
    fn clone(&self) -> (r: Self)
        ensures
            r@ == self@,
    {
        FoundSession {
            db_path: self.db_path.clone(),
            session: self.session.clone(),
        }
    }
}

/// A session being looked for in the repositories that are left. The first one
/// is being asked.
#[derive(Debug)]
pub struct Find {
    pub paths: SwarmPaths,
    pub id: String,
    pub repos: Vec<Repository>,
}

/// What a `Find` holds.
#[verifier::ext_equal]
pub struct FindView {
    pub paths: SwarmPathsView,
    pub id: Seq<char>,
    pub repos: Seq<RepositoryView>,
}

impl View for Find {
    type V = FindView;

    open spec fn view(&self) -> FindView {
        FindView {
            paths: self.paths@,
            id: self.id@,
            repos: self.repos.deep_view(),
        }
    }
}

impl DeepView for Find {
    type V = FindView;

    open spec fn deep_view(&self) -> FindView {
        self@
    }
}

impl Clone for Find {
    fn clone(&self) -> (r: Self)
        ensures
            r@ == self@,
    {
        Find {
            paths: self.paths.clone(),
            id: self.id.clone(),
            repos: self.repos.clone(),
        }
    }
}

/// The step that asks the first of the repositories that are left.
pub open spec fn find_in(
    paths: SwarmPathsView,
    id: Seq<char>,
    repos: Seq<RepositoryView>,
) -> StepView<FindView, FoundSessionView> {
    if repos.len() == 0 {
        StepView::Finish(Err(SwarmErrorView::SessionNotFound(id)))
    } else {
        StepView::Run(
            EffectView::FindSession { db_path: db_path(paths, repos[0]), id },
            FindView { paths, id, repos },
        )
    }
}

/// The step that follows an answer.
pub open spec fn find_next(s: FindView, reply: ReplyView) -> StepView<FindView, FoundSessionView> {
    match reply {
        ReplyView::Failed(e) => StepView::Finish(Err(e)),
        ReplyView::FoundSession(row) => if s.repos.len() == 0 {
            StepView::Mismatch
        } else {
            match row {
                None => find_in(s.paths, s.id, s.repos.skip(1)),
                Some(row) => match sessions::session_of(s.repos[0], row) {
                    Err(e) => StepView::Finish(Err(e)),
                    Ok(session) => StepView::Finish(
                        Ok(FoundSessionView { db_path: db_path(s.paths, s.repos[0]), session }),
                    ),
                },
            }
        },
        _ => StepView::Mismatch,
    }
}

fn find_session(paths: SwarmPaths, id: String, repos: Vec<Repository>) -> (r: Step<
    Find,
    FoundSession,
>)
    ensures
        r@ == find_in(paths@, id@, repos.deep_view()),
{
    if repos.len() == 0 {
        return Step::Finish(Err(SwarmError::SessionNotFound(id)));
    }
    proof {
        assert(repos.deep_view()[0] == repos@[0]@);
    }
    let path = paths.repo_db_path(&repos[0]);
    Step::Run(Effect::FindSession { db_path: path, id: id.clone() }, Find { paths, id, repos })
}

impl Find {
    fn resume(self, reply: Reply) -> (r: Step<Find, FoundSession>)
        ensures
            r@ == find_next(self@, reply@),
    {
        let Find { paths, id, repos } = self;
        match reply {
            Reply::Failed(e) => Step::Finish(Err(e)),
            Reply::FoundSession(row) => {
                if repos.len() == 0 {
                    return Step::Mismatch;
                }
                let ghost all = repos.deep_view();
                proof {
                    assert(all[0] == repos@[0]@);
                }
                match row {
                    None => {
                        let mut repos = repos;
                        let _ = repos.remove(0);
                        proof {
                            assert(repos.deep_view() =~= all.skip(1));
                        }
                        find_session(paths, id, repos)
                    },
                    Some(row) => match sessions::session_from_row(&repos[0], &row) {
                        Err(e) => Step::Finish(Err(e)),
                        Ok(session) => Step::Finish(
                            Ok(FoundSession { db_path: paths.repo_db_path(&repos[0]), session }),
                        ),
                    },
                }
            },
            _ => Step::Mismatch,
        }
    }
}

/// A session whose process is looked for: waiting for the answer, for the clock
/// or for the record of its end.
#[derive(Debug)]
pub enum Refresh {
    Checking(FoundSession),
    Stamping(FoundSession),
    Recording(Session),
}

/// What a `Refresh` holds.
#[verifier::ext_equal]
pub enum RefreshView {
    Checking(FoundSessionView),
    Stamping(FoundSessionView),
    Recording(SessionView),
}

impl View for Refresh {
    type V = RefreshView;

    open spec fn view(&self) -> RefreshView {
        match self {
            Refresh::Checking(a) => RefreshView::Checking(a@),
            Refresh::Stamping(a) => RefreshView::Stamping(a@),
            Refresh::Recording(a) => RefreshView::Recording(a@),
        }
    }
}

impl DeepView for Refresh {
    type V = RefreshView;

    open spec fn deep_view(&self) -> RefreshView {
        self@
    }
}

impl Clone for Refresh {
    fn clone(&self) -> (r: Self)
        ensures
            r@ == self@,
    {
        match self {
            Refresh::Checking(a) => Refresh::Checking(a.clone()),
            Refresh::Stamping(a) => Refresh::Stamping(a.clone()),
            Refresh::Recording(a) => Refresh::Recording(a.clone()),
        }
    }
}

/// A session whose process is gone.
pub open spec fn gone(session: SessionView, stopped_at: i64) -> SessionView {
    SessionView { status: "exited"@, pid: None, stopped_at: Some(stopped_at), ..session }
}

/// The step that brings a session up to date. Only a session that has not ended
/// and whose process is known is looked at.
pub open spec fn refresh_start(found: FoundSessionView) -> StepView<RefreshView, SessionView> {
    match found.session.pid {
        Some(pid) => if sessions::is_live(found.session.status) {
            StepView::Run(EffectView::ProcessExists(pid), RefreshView::Checking(found))
        } else {
            StepView::Finish(Ok(found.session))
        },
        None => StepView::Finish(Ok(found.session)),
    }
}

/// The step that records the end of a session.
pub open spec fn refresh_gone(found: FoundSessionView, stopped_at: i64) -> StepView<
    RefreshView,
    SessionView,
> {
    StepView::Run(
        EffectView::EndSession {
            db_path: found.db_path,
            id: found.session.id,
            status: "exited"@,
            stopped_at,
        },
        RefreshView::Recording(gone(found.session, stopped_at)),
    )
}

/// The step that follows an answer. A session keeps the time of its end where it
/// has one.
pub open spec fn refresh_next(s: RefreshView, reply: ReplyView) -> StepView<
    RefreshView,
    SessionView,
> {
    match (s, reply) {
        (_, ReplyView::Failed(e)) => StepView::Finish(Err(e)),
        (RefreshView::Checking(found), ReplyView::Exists(exists)) => if exists {
            StepView::Finish(Ok(found.session))
        } else {
            match found.session.stopped_at {
                Some(stopped_at) => refresh_gone(found, stopped_at),
                None => StepView::Run(EffectView::ReadClock, RefreshView::Stamping(found)),
            }
        },
        (RefreshView::Stamping(found), ReplyView::Clock(now)) => refresh_gone(found, now),
        (RefreshView::Recording(session), ReplyView::Done) => StepView::Finish(Ok(session)),
        _ => StepView::Mismatch,
    }
}

fn refresh_session_status(found: FoundSession) -> (r: Step<Refresh, Session>)
    ensures
        r@ == refresh_start(found@),
{
    match found.session.pid {
        Some(pid) => if sessions::status_is_live(found.session.status.as_str()) {
            Step::Run(Effect::ProcessExists(pid), Refresh::Checking(found))
        } else {
            Step::Finish(Ok(found.session))
        },
        None => Step::Finish(Ok(found.session)),
    }
}

fn record_gone(found: FoundSession, stopped_at: i64) -> (r: Step<Refresh, Session>)
    ensures
        r@ == refresh_gone(found@, stopped_at),
{
    let FoundSession { db_path, session } = found;
    let mut session = session;
    session.status = "exited".to_owned();
    session.pid = None;
    session.stopped_at = Some(stopped_at);
    Step::Run(
        Effect::EndSession {
            db_path,
            id: session.id.clone(),
            status: "exited".to_owned(),
            stopped_at,
        },
        Refresh::Recording(session),
    )
}

impl Refresh {
    fn resume(self, reply: Reply) -> (r: Step<Refresh, Session>)
        ensures
            r@ == refresh_next(self@, reply@),
    {
        match (self, reply) {
            (_, Reply::Failed(e)) => Step::Finish(Err(e)),
            (Refresh::Checking(found), Reply::Exists(exists)) => if exists {
                Step::Finish(Ok(found.session))
            } else {
                match found.session.stopped_at {
                    Some(stopped_at) => record_gone(found, stopped_at),
                    None => Step::Run(Effect::ReadClock, Refresh::Stamping(found)),
                }
            },
            (Refresh::Stamping(found), Reply::Clock(now)) => record_gone(found, now),
            (Refresh::Recording(session), Reply::Done) => Step::Finish(Ok(session)),
            _ => Step::Mismatch,
        }
    }
}

/// What is done with a session once it is found: it is looked at, stopped,
/// removed, or attached to.
#[derive(Debug, Clone, Copy, PartialEq, Eq, Structural)]
pub enum SessionTask {
    Inspect,
    Stop,
    Remove,
    Attach,
}

/// What an operation on a session waits for: the session, its process, the end
/// of its process, the clock, the record, the deletion of its record, a look at
/// its directory, the removal of this directory, a look at its socket, or the
/// terminal.
#[derive(Debug)]
pub enum SessionPhase {
    Finding(Find),
    Refreshing { db_path: String, refresh: Refresh },
    Terminating(FoundSession),
    Stamping(FoundSession),
    Recording(Session),
    Deleting(Session),
    Probing(Session),
    Discarding(Session),
    LookingForSocket(Session),
    Showing(Session),
}

/// What a `SessionPhase` holds.
#[verifier::ext_equal]
pub enum SessionPhaseView {
    Finding(FindView),
    Refreshing { db_path: Seq<char>, refresh: RefreshView },
    Terminating(FoundSessionView),
    Stamping(FoundSessionView),
    Recording(SessionView),
    Deleting(SessionView),
    Probing(SessionView),
    Discarding(SessionView),
    LookingForSocket(SessionView),
    Showing(SessionView),
}

impl View for SessionPhase {
    type V = SessionPhaseView;

    open spec fn view(&self) -> SessionPhaseView {
        match self {
            SessionPhase::Finding(a) => SessionPhaseView::Finding(a@),
            SessionPhase::Refreshing { db_path, refresh } => SessionPhaseView::Refreshing {
                db_path: db_path@,
                refresh: refresh@,
            },
            SessionPhase::Terminating(a) => SessionPhaseView::Terminating(a@),
            SessionPhase::Stamping(a) => SessionPhaseView::Stamping(a@),
            SessionPhase::Recording(a) => SessionPhaseView::Recording(a@),
            SessionPhase::Deleting(a) => SessionPhaseView::Deleting(a@),
            SessionPhase::Probing(a) => SessionPhaseView::Probing(a@),
            SessionPhase::Discarding(a) => SessionPhaseView::Discarding(a@),
            SessionPhase::LookingForSocket(a) => SessionPhaseView::LookingForSocket(a@),
            SessionPhase::Showing(a) => SessionPhaseView::Showing(a@),
        }
    }
}

impl DeepView for SessionPhase {
    type V = SessionPhaseView;

    open spec fn deep_view(&self) -> SessionPhaseView {
        self@
    }
}

impl Clone for SessionPhase {
    fn clone(&self) -> (r: Self)
        ensures
            r@ == self@,
    {
        match self {
            SessionPhase::Finding(a) => SessionPhase::Finding(a.clone()),
            SessionPhase::Refreshing { db_path, refresh } => SessionPhase::Refreshing {
                db_path: db_path.clone(),
                refresh: refresh.clone(),
            },
            SessionPhase::Terminating(a) => SessionPhase::Terminating(a.clone()),
            SessionPhase::Stamping(a) => SessionPhase::Stamping(a.clone()),
            SessionPhase::Recording(a) => SessionPhase::Recording(a.clone()),
            SessionPhase::Deleting(a) => SessionPhase::Deleting(a.clone()),
            SessionPhase::Probing(a) => SessionPhase::Probing(a.clone()),
            SessionPhase::Discarding(a) => SessionPhase::Discarding(a.clone()),
            SessionPhase::LookingForSocket(a) => SessionPhase::LookingForSocket(a.clone()),
            SessionPhase::Showing(a) => SessionPhase::Showing(a.clone()),
        }
    }
}

/// An operation on a session.
#[derive(Debug)]
pub struct SessionOp {
    pub task: SessionTask,
    pub phase: SessionPhase,
}

/// What a `SessionOp` holds.
#[verifier::ext_equal]
pub struct SessionOpView {
    pub task: SessionTask,
    pub phase: SessionPhaseView,
}

impl View for SessionOp {
    type V = SessionOpView;

    open spec fn view(&self) -> SessionOpView {
        SessionOpView {
            task: self.task,
            phase: self.phase@,
        }
    }
}

impl DeepView for SessionOp {
    type V = SessionOpView;

    open spec fn deep_view(&self) -> SessionOpView {
        self@
    }
}

impl Clone for SessionOp {
    fn clone(&self) -> (r: Self)
        ensures
            r@ == self@,
    {
        SessionOp {
            task: self.task,
            phase: self.phase.clone(),
        }
    }
}

/// An operation in a phase.
pub open spec fn op_in(task: SessionTask, phase: SessionPhaseView) -> SessionOpView {
    SessionOpView { task, phase }
}

/// The step once a session is found. A session that is stopped is not refreshed
/// before.
pub open spec fn op_found(task: SessionTask, found: FoundSessionView) -> StepView<
    SessionOpView,
    SessionView,
> {
    if task == SessionTask::Stop {
        if !sessions::is_live(found.session.status) {
            StepView::Finish(Ok(found.session))
        } else {
            match found.session.pid {
                Some(pid) => StepView::Run(
                    EffectView::Terminate(pid),
                    op_in(task, SessionPhaseView::Terminating(found)),
                ),
                None => StepView::Run(
                    EffectView::ReadClock,
                    op_in(task, SessionPhaseView::Stamping(found)),
                ),
            }
        }
    } else {
        op_refresh(task, found.db_path, refresh_start(found))
    }
}

/// The step that a step of the refresh leads to.
pub open spec fn op_refresh(
    task: SessionTask,
    db_path: Seq<char>,
    step: StepView<RefreshView, SessionView>,
) -> StepView<SessionOpView, SessionView> {
    match step {
        StepView::Run(effect, refresh) => StepView::Run(
            effect,
            op_in(task, SessionPhaseView::Refreshing { db_path, refresh }),
        ),
        StepView::Finish(Ok(session)) => op_current(task, db_path, session),
        StepView::Finish(Err(e)) => StepView::Finish(Err(e)),
        StepView::Mismatch => StepView::Mismatch,
    }
}

/// The step once a session is up to date.
pub open spec fn op_current(
    task: SessionTask,
    db_path: Seq<char>,
    session: SessionView,
) -> StepView<SessionOpView, SessionView> {
    match task {
        SessionTask::Remove => if sessions::is_live(session.status) {
            StepView::Finish(Err(SwarmErrorView::SessionRunning(session.id)))
        } else {
            StepView::Run(
                EffectView::DeleteSession { db_path, id: session.id },
                op_in(task, SessionPhaseView::Deleting(session)),
            )
        },
        SessionTask::Attach => if session.status == "running"@ {
            StepView::Run(
                EffectView::PathExists(session.socket_path),
                op_in(task, SessionPhaseView::LookingForSocket(session)),
            )
        } else {
            StepView::Run(
                EffectView::PrintFile(session.log_path),
                op_in(task, SessionPhaseView::Showing(session)),
            )
        },
        _ => StepView::Finish(Ok(session)),
    }
}

/// A session that was stopped.
pub open spec fn stopped(session: SessionView, now: i64) -> SessionView {
    SessionView { status: "stopped"@, pid: None, stopped_at: Some(now), ..session }
}

/// The step that follows an answer.
#[verifier::opaque]
pub open spec fn op_next(s: SessionOpView, reply: ReplyView) -> StepView<
    SessionOpView,
    SessionView,
> {
    match (s.phase, reply) {
        (_, ReplyView::Failed(e)) => StepView::Finish(Err(e)),
        (SessionPhaseView::Finding(find), _) => match find_next(find, reply) {
            StepView::Run(effect, find) => StepView::Run(
                effect,
                op_in(s.task, SessionPhaseView::Finding(find)),
            ),
            StepView::Finish(Ok(found)) => op_found(s.task, found),
            StepView::Finish(Err(e)) => StepView::Finish(Err(e)),
            StepView::Mismatch => StepView::Mismatch,
        },
        (SessionPhaseView::Refreshing { db_path, refresh }, _) => op_refresh(
            s.task,
            db_path,
            refresh_next(refresh, reply),
        ),
        (SessionPhaseView::Terminating(found), ReplyView::Done) => StepView::Run(
            EffectView::ReadClock,
            op_in(s.task, SessionPhaseView::Stamping(found)),
        ),
        (SessionPhaseView::Stamping(found), ReplyView::Clock(now)) => StepView::Run(
            EffectView::EndSession {
                db_path: found.db_path,
                id: found.session.id,
                status: "stopped"@,
                stopped_at: now,
            },
            op_in(s.task, SessionPhaseView::Recording(stopped(found.session, now))),
        ),
        (SessionPhaseView::Recording(session), ReplyView::Done) => StepView::Finish(Ok(session)),
        (SessionPhaseView::Deleting(session), ReplyView::Done) => StepView::Run(
            EffectView::PathExists(session.path),
            op_in(s.task, SessionPhaseView::Probing(session)),
        ),
        (SessionPhaseView::Probing(session), ReplyView::Exists(exists)) => if exists {
            StepView::Run(
                EffectView::RemoveDir(session.path),
                op_in(s.task, SessionPhaseView::Discarding(session)),
            )
        } else {
            StepView::Finish(Ok(session))
        },
        (SessionPhaseView::Discarding(session), ReplyView::Done) => StepView::Finish(Ok(session)),
        (SessionPhaseView::LookingForSocket(session), ReplyView::Exists(exists)) => if exists {
            StepView::Run(
                EffectView::AttachSocket(session.socket_path),
                op_in(s.task, SessionPhaseView::Showing(session)),
            )
        } else {
            StepView::Run(
                EffectView::PrintFile(session.log_path),
                op_in(s.task, SessionPhaseView::Showing(session)),
            )
        },
        (SessionPhaseView::Showing(session), ReplyView::Done) => StepView::Finish(Ok(session)),
        _ => StepView::Mismatch,
    }
}

/// The first step of an operation on a session.
pub open spec fn op_start(
    store: RepositoryStoreView,
    task: SessionTask,
    id: Seq<char>,
) -> StepView<SessionOpView, SessionView> {
    match find_in(store.paths, id, store.rows) {
        StepView::Run(effect, find) => StepView::Run(
            effect,
            SessionOpView { task, phase: SessionPhaseView::Finding(find) },
        ),
        StepView::Finish(Ok(found)) => StepView::Finish(Ok(found.session)),
        StepView::Finish(Err(e)) => StepView::Finish(Err(e)),
        StepView::Mismatch => StepView::Mismatch,
    }
}

fn begin_op(paths: &SwarmPaths, repos: &Vec<Repository>, task: SessionTask, id: &str) -> (r: Step<
    SessionOp,
    Session,
>)
    ensures
        r@ == op_start(
            (RepositoryStoreView { paths: paths@, rows: repos.deep_view() }),
            task,
            id@,
        ),
{
    match find_session(paths.clone(), id.to_owned(), repos.clone()) {
        Step::Run(effect, find) => Step::Run(
            effect,
            SessionOp { task, phase: SessionPhase::Finding(find) },
        ),
        Step::Finish(Ok(found)) => Step::Finish(Ok(found.session)),
        Step::Finish(Err(e)) => Step::Finish(Err(e)),
        Step::Mismatch => Step::Mismatch,
    }
}

impl SessionStore {
    /// The store over an index.
    pub fn open(repos: RepositoryStore) -> (r: Self)
        ensures
            r.repos@ == repos@,
    {
        SessionStore { repos }
    }

    /// Begins to look at a session.
    pub fn info(&self, session: &str) -> (r: Step<SessionOp, Session>)
        ensures
            r@ == op_start(self.repos@, SessionTask::Inspect, session@),
    {
        begin_op(&self.repos.paths, &self.repos.rows, SessionTask::Inspect, session)
    }

    /// Begins to stop a session.
    pub fn stop(&self, session: &str) -> (r: Step<SessionOp, Session>)
        ensures
            r@ == op_start(self.repos@, SessionTask::Stop, session@),
    {
        begin_op(&self.repos.paths, &self.repos.rows, SessionTask::Stop, session)
    }

    /// Begins to remove a session.
    pub fn remove(&self, session: &str) -> (r: Step<SessionOp, Session>)
        ensures
            r@ == op_start(self.repos@, SessionTask::Remove, session@),
    {
        begin_op(&self.repos.paths, &self.repos.rows, SessionTask::Remove, session)
    }

    /// Begins to attach to a session.
    pub fn attach(&self, session: &str) -> (r: Step<SessionOp, Session>)
        ensures
            r@ == op_start(self.repos@, SessionTask::Attach, session@),
    {
        begin_op(&self.repos.paths, &self.repos.rows, SessionTask::Attach, session)
    }
}

impl SessionOp {
    fn found(task: SessionTask, found: FoundSession) -> (r: Step<
        SessionOp,
        Session,
    >)
        ensures
            r@ == op_found(task, found@),
    {
        if task == SessionTask::Stop {
            if !sessions::status_is_live(found.session.status.as_str()) {
                Step::Finish(Ok(found.session))
            } else {
                match found.session.pid {
                    Some(pid) => Step::Run(
                        Effect::Terminate(pid),
                        SessionOp { task, phase: SessionPhase::Terminating(found) },
                    ),
                    None => Step::Run(
                        Effect::ReadClock,
                        SessionOp { task, phase: SessionPhase::Stamping(found) },
                    ),
                }
            }
        } else {
            let path = found.db_path.clone();
            let step = refresh_session_status(found);
            SessionOp::refreshed(task, path, step)
        }
    }

    fn refreshed(
        task: SessionTask,
        db_path: String,
        step: Step<Refresh, Session>,
    ) -> (r: Step<SessionOp, Session>)
        ensures
            r@ == op_refresh(task, db_path@, step@),
    {
        match step {
            Step::Run(effect, refresh) => Step::Run(
                effect,
                SessionOp { task, phase: SessionPhase::Refreshing { db_path, refresh } },
            ),
            Step::Finish(Ok(session)) => SessionOp::current(task, db_path, session),
            Step::Finish(Err(e)) => Step::Finish(Err(e)),
            Step::Mismatch => Step::Mismatch,
        }
    }

    fn current(
        task: SessionTask,
        db_path: String,
        session: Session,
    ) -> (r: Step<SessionOp, Session>)
        ensures
            r@ == op_current(task, db_path@, session@),
    {
        match task {
            SessionTask::Remove => if sessions::status_is_live(session.status.as_str()) {
                Step::Finish(Err(SwarmError::SessionRunning(session.id)))
            } else {
                Step::Run(
                    Effect::DeleteSession { db_path, id: session.id.clone() },
                    SessionOp { task, phase: SessionPhase::Deleting(session) },
                )
            },
            SessionTask::Attach => if text::same(session.status.as_str(), "running") {
                Step::Run(
                    Effect::PathExists(session.socket_path.clone()),
                    SessionOp { task, phase: SessionPhase::LookingForSocket(session) },
                )
            } else {
                Step::Run(
                    Effect::PrintFile(session.log_path.clone()),
                    SessionOp { task, phase: SessionPhase::Showing(session) },
                )
            },
            _ => Step::Finish(Ok(session)),
        }
    }

    /// The step that follows an answer.
    pub fn resume(self, reply: Reply) -> (r: Step<SessionOp, Session>)
        ensures
            r@ == op_next(self@, reply@),
    {
        proof {
            reveal(op_next);
        }
        let SessionOp { task, phase } = self;
        match (phase, reply) {
            (_, Reply::Failed(e)) => Step::Finish(Err(e)),
            (SessionPhase::Finding(find), reply) => match find.resume(reply) {
                Step::Run(effect, find) => Step::Run(
                    effect,
                    SessionOp { task, phase: SessionPhase::Finding(find) },
                ),
                Step::Finish(Ok(found)) => SessionOp::found(task, found),
                Step::Finish(Err(e)) => Step::Finish(Err(e)),
                Step::Mismatch => Step::Mismatch,
            },
            (SessionPhase::Refreshing { db_path, refresh }, reply) => {
                let step = refresh.resume(reply);
                SessionOp::refreshed(task, db_path, step)
            },
            (SessionPhase::Terminating(found), Reply::Done) => Step::Run(
                Effect::ReadClock,
                SessionOp { task, phase: SessionPhase::Stamping(found) },
            ),
            (SessionPhase::Stamping(found), Reply::Clock(now)) => {
                let FoundSession { db_path, session } = found;
                let mut session = session;
                session.status = "stopped".to_owned();
                session.stopped_at = Some(now);
                session.pid = None;
                Step::Run(
                    Effect::EndSession {
                        db_path,
                        id: session.id.clone(),
                        status: "stopped".to_owned(),
                        stopped_at: now,
                    },
                    SessionOp { task, phase: SessionPhase::Recording(session) },
                )
            },
            (SessionPhase::Recording(session), Reply::Done) => Step::Finish(Ok(session)),
            (SessionPhase::Deleting(session), Reply::Done) => Step::Run(
                Effect::PathExists(session.path.clone()),
                SessionOp { task, phase: SessionPhase::Probing(session) },
            ),
            (SessionPhase::Probing(session), Reply::Exists(exists)) => if exists {
                Step::Run(
                    Effect::RemoveDir(session.path.clone()),
                    SessionOp { task, phase: SessionPhase::Discarding(session) },
                )
            } else {
                Step::Finish(Ok(session))
            },
            (SessionPhase::Discarding(session), Reply::Done) => Step::Finish(Ok(session)),
            (SessionPhase::LookingForSocket(session), Reply::Exists(exists)) => if exists {
                Step::Run(
                    Effect::AttachSocket(session.socket_path.clone()),
                    SessionOp { task, phase: SessionPhase::Showing(session) },
                )
            } else {
                Step::Run(
                    Effect::PrintFile(session.log_path.clone()),
                    SessionOp { task, phase: SessionPhase::Showing(session) },
                )
            },
            (SessionPhase::Showing(session), Reply::Done) => Step::Finish(Ok(session)),
            _ => Step::Mismatch,
        }
    }
}

/// What a listing of sessions waits for: the workspace, the rows of a
/// repository, or the process of one session before the rest of the rows.
#[derive(Debug)]
pub enum ListSessionsPhase {
    Resolving,
    Reading,
    Refreshing { refresh: Refresh, rest: Vec<SessionRow> },
}

/// What a `ListSessionsPhase` holds.
#[verifier::ext_equal]
pub enum ListSessionsPhaseView {
    Resolving,
    Reading,
    Refreshing { refresh: RefreshView, rest: Seq<SessionRowView> },
}

impl View for ListSessionsPhase {
    type V = ListSessionsPhaseView;

    open spec fn view(&self) -> ListSessionsPhaseView {
        match self {
            ListSessionsPhase::Resolving => ListSessionsPhaseView::Resolving,
            ListSessionsPhase::Reading => ListSessionsPhaseView::Reading,
            ListSessionsPhase::Refreshing { refresh, rest } => ListSessionsPhaseView::Refreshing {
                refresh: refresh@,
                rest: rest.deep_view(),
            },
        }
    }
}

impl DeepView for ListSessionsPhase {
    type V = ListSessionsPhaseView;

    open spec fn deep_view(&self) -> ListSessionsPhaseView {
        self@
    }
}

impl Clone for ListSessionsPhase {
    fn clone(&self) -> (r: Self)
        ensures
            r@ == self@,
    {
        match self {
            ListSessionsPhase::Resolving => ListSessionsPhase::Resolving,
            ListSessionsPhase::Reading => ListSessionsPhase::Reading,
            ListSessionsPhase::Refreshing { refresh, rest } => ListSessionsPhase::Refreshing {
                refresh: refresh.clone(),
                rest: rest.clone(),
            },
        }
    }
}

/// Sessions being listed: those that are done, and the repositories that are
/// left, of which the first is being read. A listing for one workspace has its
/// name.
#[derive(Debug)]
pub struct ListSessions {
    pub paths: SwarmPaths,
    pub workspace: Option<String>,
    pub repos: Vec<Repository>,
    pub done: Vec<Session>,
    pub phase: ListSessionsPhase,
}

/// What a `ListSessions` holds.
#[verifier::ext_equal]
pub struct ListSessionsView {
    pub paths: SwarmPathsView,
    pub workspace: Option<Seq<char>>,
    pub repos: Seq<RepositoryView>,
    pub done: Seq<SessionView>,
    pub phase: ListSessionsPhaseView,
}

impl View for ListSessions {
    type V = ListSessionsView;

    open spec fn view(&self) -> ListSessionsView {
        ListSessionsView {
            paths: self.paths@,
            workspace: self.workspace.deep_view(),
            repos: self.repos.deep_view(),
            done: self.done.deep_view(),
            phase: self.phase@,
        }
    }
}

impl DeepView for ListSessions {
    type V = ListSessionsView;

    open spec fn deep_view(&self) -> ListSessionsView {
        self@
    }
}

impl Clone for ListSessions {
    fn clone(&self) -> (r: Self)
        ensures
            r@ == self@,
    {
        ListSessions {
            paths: self.paths.clone(),
            workspace: self.workspace.clone(),
            repos: self.repos.clone(),
            done: self.done.clone(),
            phase: self.phase.clone(),
        }
    }
}

/// What a listing gives. Over all repositories it is ordered by creation; for
/// one workspace it is in the order of the rows.
pub open spec fn listed(workspace: Option<Seq<char>>, done: Seq<SessionView>) -> Seq<SessionView> {
    if workspace is None {
        sessions::sorted_by_creation(done)
    } else {
        done
    }
}

/// The step that reads the first of the repositories that are left.
pub open spec fn list_repos(
    paths: SwarmPathsView,
    workspace: Option<Seq<char>>,
    repos: Seq<RepositoryView>,
    done: Seq<SessionView>,
) -> StepView<ListSessionsView, Seq<SessionView>> {
    if repos.len() == 0 {
        StepView::Finish(Ok(listed(workspace, done)))
    } else {
        StepView::Run(
            EffectView::ListSessions { db_path: db_path(paths, repos[0]), workspace },
            ListSessionsView { paths, workspace, repos, done, phase: ListSessionsPhaseView::Reading },
        )
    }
}

/// The step that goes through the rows of the first repository.
pub open spec fn list_rows(
    paths: SwarmPathsView,
    workspace: Option<Seq<char>>,
    repos: Seq<RepositoryView>,
    done: Seq<SessionView>,
    rows: Seq<SessionRowView>,
) -> StepView<ListSessionsView, Seq<SessionView>>
    decreases rows.len(),
{
    if repos.len() == 0 {
        StepView::Mismatch
    } else if rows.len() == 0 {
        list_repos(paths, workspace, repos.skip(1), done)
    } else {
        match sessions::session_of(repos[0], rows[0]) {
            Err(e) => StepView::Finish(Err(e)),
            Ok(session) => match refresh_start(
                FoundSessionView { db_path: db_path(paths, repos[0]), session },
            ) {
                StepView::Run(effect, refresh) => StepView::Run(
                    effect,
                    ListSessionsView {
                        paths,
                        workspace,
                        repos,
                        done,
                        phase: ListSessionsPhaseView::Refreshing { refresh, rest: rows.skip(1) },
                    },
                ),
                StepView::Finish(Ok(session)) => list_rows(
                    paths,
                    workspace,
                    repos,
                    done.push(session),
                    rows.skip(1),
                ),
                StepView::Finish(Err(e)) => StepView::Finish(Err(e)),
                StepView::Mismatch => StepView::Mismatch,
            },
        }
    }
}

/// The first step of a listing.
pub open spec fn list_sessions_start(
    store: RepositoryStoreView,
    workspace: Option<Seq<char>>,
) -> StepView<ListSessionsView, Seq<SessionView>> {
    match workspace {
        None => list_repos(store.paths, None, store.rows, seq![]),
        Some(reference) => StepView::Run(
            EffectView::ResolveWorkspace(reference),
            ListSessionsView {
                paths: store.paths,
                workspace: Some(reference),
                repos: seq![],
                done: seq![],
                phase: ListSessionsPhaseView::Resolving,
            },
        ),
    }
}

/// The step that follows an answer.
pub open spec fn list_sessions_next(s: ListSessionsView, reply: ReplyView) -> StepView<
    ListSessionsView,
    Seq<SessionView>,
> {
    match (s.phase, reply) {
        (_, ReplyView::Failed(e)) => StepView::Finish(Err(e)),
        (ListSessionsPhaseView::Resolving, ReplyView::Resolved { repo, workspace }) => list_repos(
            s.paths,
            Some(workspace.name),
            seq![repo],
            seq![],
        ),
        (ListSessionsPhaseView::Reading, ReplyView::SessionRows(rows)) => list_rows(
            s.paths,
            s.workspace,
            s.repos,
            s.done,
            rows,
        ),
        (ListSessionsPhaseView::Refreshing { refresh, rest }, _) => match refresh_next(
            refresh,
            reply,
        ) {
            StepView::Run(effect, refresh) => StepView::Run(
                effect,
                ListSessionsView {
                    phase: ListSessionsPhaseView::Refreshing { refresh, rest },
                    ..s
                },
            ),
            StepView::Finish(Ok(session)) => list_rows(
                s.paths,
                s.workspace,
                s.repos,
                s.done.push(session),
                rest,
            ),
            StepView::Finish(Err(e)) => StepView::Finish(Err(e)),
            StepView::Mismatch => StepView::Mismatch,
        },
        _ => StepView::Mismatch,
    }
}

/// What a step of a listing holds.
pub open spec fn list_sessions_step(step: Step<ListSessions, Vec<Session>>) -> StepView<
    ListSessionsView,
    Seq<SessionView>,
> {
    match step {
        Step::Run(effect, state) => StepView::Run(effect@, state@),
        Step::Finish(Ok(list)) => StepView::Finish(Ok(list.deep_view())),
        Step::Finish(Err(e)) => StepView::Finish(Err(e@)),
        Step::Mismatch => StepView::Mismatch,
    }
}

fn begin_repos(
    paths: SwarmPaths,
    workspace: Option<String>,
    repos: Vec<Repository>,
    done: Vec<Session>,
) -> (r: Step<ListSessions, Vec<Session>>)
    ensures
        list_sessions_step(r) == list_repos(
            paths@,
            workspace.deep_view(),
            repos.deep_view(),
            done.deep_view(),
        ),
{
    if repos.len() == 0 {
        return match workspace {
            None => Step::Finish(Ok(sessions::sort_sessions(done))),
            Some(_) => Step::Finish(Ok(done)),
        };
    }
    proof {
        assert(repos.deep_view()[0] == repos@[0]@);
    }
    let path = paths.repo_db_path(&repos[0]);
    Step::Run(
        Effect::ListSessions { db_path: path, workspace: workspace.clone() },
        ListSessions { paths, workspace, repos, done, phase: ListSessionsPhase::Reading },
    )
}

fn go_through_rows(
    paths: SwarmPaths,
    workspace: Option<String>,
    repos: Vec<Repository>,
    done: Vec<Session>,
    rows: Vec<SessionRow>,
) -> (r: Step<ListSessions, Vec<Session>>)
    ensures
        list_sessions_step(r) == list_rows(
            paths@,
            workspace.deep_view(),
            repos.deep_view(),
            done.deep_view(),
            rows.deep_view(),
        ),
{
    if repos.len() == 0 {
        return Step::Mismatch;
    }
    let ghost all = repos.deep_view();
    let ghost result = list_rows(
        paths@,
        workspace.deep_view(),
        all,
        done.deep_view(),
        rows.deep_view(),
    );
    proof {
        assert(all[0] == repos@[0]@);
    }
    let mut left = rows;
    let mut ready = done;
    while left.len() > 0
        invariant
            all == repos.deep_view(),
            repos.len() > 0,
            all[0] == repos@[0]@,
            result == list_rows(
                paths@,
                workspace.deep_view(),
                all,
                done.deep_view(),
                rows.deep_view(),
            ),
            result == list_rows(
                paths@,
                workspace.deep_view(),
                all,
                ready.deep_view(),
                left.deep_view(),
            ),
        decreases left.len(),
    {
        let ghost before = left.deep_view();
        let ghost finished = ready.deep_view();
        let row = left.remove(0);
        proof {
            assert(before[0] == row@);
            assert(left.deep_view() =~= before.skip(1));
        }
        match sessions::session_from_row(&repos[0], &row) {
            Err(e) => {
                return Step::Finish(Err(e));
            },
            Ok(session) => {
                let found = FoundSession { db_path: paths.repo_db_path(&repos[0]), session };
                match refresh_session_status(found) {
                    Step::Run(effect, refresh) => {
                        return Step::Run(
                            effect,
                            ListSessions {
                                paths,
                                workspace,
                                repos,
                                done: ready,
                                phase: ListSessionsPhase::Refreshing { refresh, rest: left },
                            },
                        );
                    },
                    Step::Finish(Ok(session)) => {
                        ready.push(session);
                        proof {
                            assert(ready.deep_view() =~= finished.push(session@));
                        }
                    },
                    Step::Finish(Err(e)) => {
                        return Step::Finish(Err(e));
                    },
                    Step::Mismatch => {
                        return Step::Mismatch;
                    },
                }
            },
        }
    }
    let mut others = repos;
    let _ = others.remove(0);
    proof {
        assert(others.deep_view() =~= all.skip(1));
        assert(left.deep_view() =~= seq![]);
    }
    begin_repos(paths, workspace, others, ready)
}

fn begin_list(paths: SwarmPaths, repos: Vec<Repository>, workspace: Option<String>) -> (r: Step<
    ListSessions,
    Vec<Session>,
>)
    ensures
        list_sessions_step(r) == list_sessions_start(
            (RepositoryStoreView { paths: paths@, rows: repos.deep_view() }),
            workspace.deep_view(),
        ),
{
    let done: Vec<Session> = Vec::new();
    proof {
        assert(done.deep_view() =~= seq![]);
    }
    match workspace {
        None => begin_repos(paths, None, repos, done),
        Some(reference) => {
            let none: Vec<Repository> = Vec::new();
            proof {
                assert(none.deep_view() =~= seq![]);
            }
            Step::Run(
                Effect::ResolveWorkspace(reference.clone()),
                ListSessions {
                    paths,
                    workspace: Some(reference),
                    repos: none,
                    done,
                    phase: ListSessionsPhase::Resolving,
                },
            )
        },
    }
}

impl ListSessions {
    /// The step that follows an answer.
    pub fn resume(self, reply: Reply) -> (r: Step<ListSessions, Vec<Session>>)
        ensures
            list_sessions_step(r) == list_sessions_next(self@, reply@),
    {
        let ListSessions { paths, workspace, repos, done, phase } = self;
        match (phase, reply) {
            (_, Reply::Failed(e)) => Step::Finish(Err(e)),
            (ListSessionsPhase::Resolving, Reply::Resolved { repo, workspace }) => {
                let none: Vec<Session> = Vec::new();
                let ghost only = repo@;
                let repos = vec![repo];
                proof {
                    assert(none.deep_view() =~= seq![]);
                    assert(repos.deep_view() =~= seq![only]);
                }
                begin_repos(paths, Some(workspace.name), repos, none)
            },
            (ListSessionsPhase::Reading, Reply::SessionRows(rows)) => go_through_rows(
                paths,
                workspace,
                repos,
                done,
                rows,
            ),
            (ListSessionsPhase::Refreshing { refresh, rest }, reply) => match refresh.resume(
                reply,
            ) {
                Step::Run(effect, refresh) => Step::Run(
                    effect,
                    ListSessions {
                        paths,
                        workspace,
                        repos,
                        done,
                        phase: ListSessionsPhase::Refreshing { refresh, rest },
                    },
                ),
                Step::Finish(Ok(session)) => {
                    let ghost finished = done.deep_view();
                    let mut done = done;
                    done.push(session);
                    proof {
                        assert(done.deep_view() =~= finished.push(session@));
                    }
                    go_through_rows(paths, workspace, repos, done, rest)
                },
                Step::Finish(Err(e)) => Step::Finish(Err(e)),
                Step::Mismatch => Step::Mismatch,
            },
            _ => Step::Mismatch,
        }
    }
}

/// What pruning waits for: the list of sessions, or the removal of one before
/// the rest of the list.
#[derive(Debug)]
pub enum PrunePhase {
    Listing(ListSessions),
    Removing { op: SessionOp, id: String, rest: Vec<Session> },
}

/// What a `PrunePhase` holds.
#[verifier::ext_equal]
pub enum PrunePhaseView {
    Listing(ListSessionsView),
    Removing { op: SessionOpView, id: Seq<char>, rest: Seq<SessionView> },
}

impl View for PrunePhase {
    type V = PrunePhaseView;

    open spec fn view(&self) -> PrunePhaseView {
        match self {
            PrunePhase::Listing(a) => PrunePhaseView::Listing(a@),
            PrunePhase::Removing { op, id, rest } => PrunePhaseView::Removing {
                op: op@,
                id: id@,
                rest: rest.deep_view(),
            },
        }
    }
}

impl DeepView for PrunePhase {
    type V = PrunePhaseView;

    open spec fn deep_view(&self) -> PrunePhaseView {
        self@
    }
}

impl Clone for PrunePhase {
    fn clone(&self) -> (r: Self)
        ensures
            r@ == self@,
    {
        match self {
            PrunePhase::Listing(a) => PrunePhase::Listing(a.clone()),
            PrunePhase::Removing { op, id, rest } => PrunePhase::Removing {
                op: op.clone(),
                id: id.clone(),
                rest: rest.clone(),
            },
        }
    }
}

/// Sessions being pruned, with the identifiers of those that are gone.
#[derive(Debug)]
pub struct PruneSessions {
    pub repos: RepositoryStore,
    pub removed: Vec<String>,
    pub phase: PrunePhase,
}

/// What a `PruneSessions` holds.
#[verifier::ext_equal]
pub struct PruneSessionsView {
    pub repos: RepositoryStoreView,
    pub removed: Seq<Seq<char>>,
    pub phase: PrunePhaseView,
}

impl View for PruneSessions {
    type V = PruneSessionsView;

    open spec fn view(&self) -> PruneSessionsView {
        PruneSessionsView {
            repos: self.repos@,
            removed: self.removed.deep_view(),
            phase: self.phase@,
        }
    }
}

impl DeepView for PruneSessions {
    type V = PruneSessionsView;

    open spec fn deep_view(&self) -> PruneSessionsView {
        self@
    }
}

impl Clone for PruneSessions {
    fn clone(&self) -> (r: Self)
        ensures
            r@ == self@,
    {
        PruneSessions {
            repos: self.repos.clone(),
            removed: self.removed.clone(),
            phase: self.phase.clone(),
        }
    }
}

/// The step that removes the next session that has ended.
pub open spec fn prune_rest(
    repos: RepositoryStoreView,
    removed: Seq<Seq<char>>,
    sessions: Seq<SessionView>,
) -> StepView<PruneSessionsView, usize>
    decreases sessions.len(),
{
    if sessions.len() == 0 {
        StepView::Finish(Ok(removed.len() as usize))
    } else if !sessions::is_terminal(sessions[0].status) {
        prune_rest(repos, removed, sessions.skip(1))
    } else {
        match op_start(repos, SessionTask::Remove, sessions[0].id) {
            StepView::Run(effect, op) => StepView::Run(
                effect,
                PruneSessionsView {
                    repos,
                    removed,
                    phase: PrunePhaseView::Removing {
                        op,
                        id: sessions[0].id,
                        rest: sessions.skip(1),
                    },
                },
            ),
            StepView::Finish(Ok(_)) => prune_rest(
                repos,
                removed.push(sessions[0].id),
                sessions.skip(1),
            ),
            StepView::Finish(Err(e)) => StepView::Finish(Err(e)),
            StepView::Mismatch => StepView::Mismatch,
        }
    }
}

/// The step that a step of the listing leads to.
pub open spec fn prune_listed(
    repos: RepositoryStoreView,
    step: StepView<ListSessionsView, Seq<SessionView>>,
) -> StepView<PruneSessionsView, usize> {
    match step {
        StepView::Run(effect, list) => StepView::Run(
            effect,
            PruneSessionsView { repos, removed: seq![], phase: PrunePhaseView::Listing(list) },
        ),
        StepView::Finish(Ok(sessions)) => prune_rest(repos, seq![], sessions),
        StepView::Finish(Err(e)) => StepView::Finish(Err(e)),
        StepView::Mismatch => StepView::Mismatch,
    }
}

/// The step that follows an answer.
pub open spec fn prune_next(s: PruneSessionsView, reply: ReplyView) -> StepView<
    PruneSessionsView,
    usize,
> {
    match s.phase {
        PrunePhaseView::Listing(list) => prune_listed(s.repos, list_sessions_next(list, reply)),
        PrunePhaseView::Removing { op, id, rest } => match op_next(op, reply) {
            StepView::Run(effect, op) => StepView::Run(
                effect,
                PruneSessionsView { phase: PrunePhaseView::Removing { op, id, rest }, ..s },
            ),
            StepView::Finish(Ok(_)) => prune_rest(s.repos, s.removed.push(id), rest),
            StepView::Finish(Err(e)) => StepView::Finish(Err(e)),
            StepView::Mismatch => StepView::Mismatch,
        },
    }
}

fn prune_remaining(repos: RepositoryStore, removed: Vec<String>, sessions: Vec<Session>) -> (r: Step<
    PruneSessions,
    usize,
>)
    ensures
        r@ == prune_rest(repos@, removed.deep_view(), sessions.deep_view()),
{
    let ghost result = prune_rest(repos@, removed.deep_view(), sessions.deep_view());
    let mut left = sessions;
    let mut gone = removed;
    while left.len() > 0
        invariant
            result == prune_rest(repos@, removed.deep_view(), sessions.deep_view()),
            result == prune_rest(repos@, gone.deep_view(), left.deep_view()),
        decreases left.len(),
    {
        let ghost before = left.deep_view();
        let session = left.remove(0);
        proof {
            assert(before[0] == session@);
            assert(left.deep_view() =~= before.skip(1));
        }
        if sessions::status_is_terminal(session.status.as_str()) {
            match begin_op(
                &repos.paths,
                &repos.rows,
                SessionTask::Remove,
                session.id.as_str(),
            ) {
                Step::Run(effect, op) => {
                    return Step::Run(
                        effect,
                        PruneSessions {
                            repos,
                            removed: gone,
                            phase: PrunePhase::Removing { op, id: session.id, rest: left },
                        },
                    );
                },
                Step::Finish(Ok(_)) => {
                    let ghost earlier = gone.deep_view();
                    gone.push(session.id);
                    proof {
                        assert(gone.deep_view() =~= earlier.push(session@.id));
                    }
                },
                Step::Finish(Err(e)) => {
                    return Step::Finish(Err(e));
                },
                Step::Mismatch => {
                    return Step::Mismatch;
                },
            }
        }
    }
    proof {
        assert(left.deep_view() =~= seq![]);
        assert(gone.deep_view().len() == gone.len());
    }
    Step::Finish(Ok(gone.len()))
}

fn prune_after(repos: RepositoryStore, step: Step<ListSessions, Vec<Session>>) -> (r: Step<
    PruneSessions,
    usize,
>)
    ensures
        r@ == prune_listed(repos@, list_sessions_step(step)),
{
    let removed: Vec<String> = Vec::new();
    proof {
        assert(removed.deep_view() =~= seq![]);
    }
    match step {
        Step::Run(effect, list) => Step::Run(
            effect,
            PruneSessions { repos, removed, phase: PrunePhase::Listing(list) },
        ),
        Step::Finish(Ok(sessions)) => prune_remaining(repos, removed, sessions),
        Step::Finish(Err(e)) => Step::Finish(Err(e)),
        Step::Mismatch => Step::Mismatch,
    }
}

impl PruneSessions {
    /// The step that follows an answer.
    pub fn resume(self, reply: Reply) -> (r: Step<PruneSessions, usize>)
        ensures
            r@ == prune_next(self@, reply@),
    {
        let PruneSessions { repos, removed, phase } = self;
        match phase {
            PrunePhase::Listing(list) => prune_after(repos, list.resume(reply)),
            PrunePhase::Removing { op, id, rest } => match op.resume(reply) {
                Step::Run(effect, op) => Step::Run(
                    effect,
                    PruneSessions {
                        repos,
                        removed,
                        phase: PrunePhase::Removing { op, id, rest },
                    },
                ),
                Step::Finish(Ok(_)) => {
                    let ghost gone = removed.deep_view();
                    let ghost last = id@;
                    let mut removed = removed;
                    removed.push(id);
                    proof {
                        assert(removed.deep_view() =~= gone.push(last));
                    }
                    prune_remaining(repos, removed, rest)
                },
                Step::Finish(Err(e)) => Step::Finish(Err(e)),
                Step::Mismatch => Step::Mismatch,
            },
        }
    }
}

impl SessionStore {
    /// Begins to list sessions: all of them, or those of a workspace.
    pub fn list(&self, workspace: Option<&str>) -> (r: Step<ListSessions, Vec<Session>>)
        ensures
            list_sessions_step(r) == list_sessions_start(self.repos@, workspace.deep_view()),
    {
        let reference: Option<String> = match workspace {
            Some(workspace) => Some(workspace.to_owned()),
            None => None,
        };
        begin_list(self.repos.paths.clone(), self.repos.rows.clone(), reference)
    }

    /// Begins to remove every session that has ended.
    pub fn prune_terminal_sessions(&self) -> (r: Step<PruneSessions, usize>)
        ensures
            r@ == prune_listed(self.repos@, list_sessions_start(self.repos@, None)),
    {
        let repos = RepositoryStore {
            paths: self.repos.paths.clone(),
            rows: self.repos.rows.clone(),
        };
        prune_after(repos, self.list(None))
    }
}

/// A session being started: its repository, its workspace, its database and
/// what is known of it.
#[derive(Debug)]
pub struct SessionJob {
    pub repo: Repository,
    pub workspace: Workspace,
    pub db_path: String,
    pub session: Session,
}

/// What a `SessionJob` holds.
#[verifier::ext_equal]
pub struct SessionJobView {
    pub repo: RepositoryView,
    pub workspace: WorkspaceView,
    pub db_path: Seq<char>,
    pub session: SessionView,
}

impl View for SessionJob {
    type V = SessionJobView;

    open spec fn view(&self) -> SessionJobView {
        SessionJobView {
            repo: self.repo@,
            workspace: self.workspace@,
            db_path: self.db_path@,
            session: self.session@,
        }
    }
}

impl DeepView for SessionJob {
    type V = SessionJobView;

    open spec fn deep_view(&self) -> SessionJobView {
        self@
    }
}

impl Clone for SessionJob {
    fn clone(&self) -> (r: Self)
        ensures
            r@ == self@,
    {
        SessionJob {
            repo: self.repo.clone(),
            workspace: self.workspace.clone(),
            db_path: self.db_path.clone(),
            session: self.session.clone(),
        }
    }
}

/// What the start of a session waits for: the workspace, the time that names
/// it, its files, the time that it is created at, its record, its supervisor,
/// the instant at which the wait begins, a look for its sign of life, the
/// present instant, a pause, the clock and the record of its failure, the
/// supervisor's log, its process file, the record that it runs, and a last
/// look at it.
#[derive(Debug)]
pub enum StartPhase {
    Resolving,
    Naming { repo: Repository, workspace: Workspace },
    Making { repo: Repository, workspace: Workspace, id: String },
    Stamping { repo: Repository, workspace: Workspace, id: String },
    Inserting(SessionJob),
    Spawning(SessionJob),
    Waiting(SessionJob),
    Probing { job: SessionJob, since: u64 },
    Timing { job: SessionJob, since: u64 },
    Pausing { job: SessionJob, since: u64 },
    GivingUp(SessionJob),
    Failing(SessionJob),
    ReadingLog(SessionJob),
    ReadingPid(SessionJob),
    Recording(SessionJob),
    Inspecting(SessionOp),
}

/// What a `StartPhase` holds.
#[verifier::ext_equal]
pub enum StartPhaseView {
    Resolving,
    Naming { repo: RepositoryView, workspace: WorkspaceView },
    Making { repo: RepositoryView, workspace: WorkspaceView, id: Seq<char> },
    Stamping { repo: RepositoryView, workspace: WorkspaceView, id: Seq<char> },
    Inserting(SessionJobView),
    Spawning(SessionJobView),
    Waiting(SessionJobView),
    Probing { job: SessionJobView, since: u64 },
    Timing { job: SessionJobView, since: u64 },
    Pausing { job: SessionJobView, since: u64 },
    GivingUp(SessionJobView),
    Failing(SessionJobView),
    ReadingLog(SessionJobView),
    ReadingPid(SessionJobView),
    Recording(SessionJobView),
    Inspecting(SessionOpView),
}

impl View for StartPhase {
    type V = StartPhaseView;

    open spec fn view(&self) -> StartPhaseView {
        match self {
            StartPhase::Resolving => StartPhaseView::Resolving,
            StartPhase::Naming { repo, workspace } => StartPhaseView::Naming {
                repo: repo@,
                workspace: workspace@,
            },
            StartPhase::Making { repo, workspace, id } => StartPhaseView::Making {
                repo: repo@,
                workspace: workspace@,
                id: id@,
            },
            StartPhase::Stamping { repo, workspace, id } => StartPhaseView::Stamping {
                repo: repo@,
                workspace: workspace@,
                id: id@,
            },
            StartPhase::Inserting(a) => StartPhaseView::Inserting(a@),
            StartPhase::Spawning(a) => StartPhaseView::Spawning(a@),
            StartPhase::Waiting(a) => StartPhaseView::Waiting(a@),
            StartPhase::Probing { job, since } => StartPhaseView::Probing {
                job: job@,
                since: *since,
            },
            StartPhase::Timing { job, since } => StartPhaseView::Timing {
                job: job@,
                since: *since,
            },
            StartPhase::Pausing { job, since } => StartPhaseView::Pausing {
                job: job@,
                since: *since,
            },
            StartPhase::GivingUp(a) => StartPhaseView::GivingUp(a@),
            StartPhase::Failing(a) => StartPhaseView::Failing(a@),
            StartPhase::ReadingLog(a) => StartPhaseView::ReadingLog(a@),
            StartPhase::ReadingPid(a) => StartPhaseView::ReadingPid(a@),
            StartPhase::Recording(a) => StartPhaseView::Recording(a@),
            StartPhase::Inspecting(a) => StartPhaseView::Inspecting(a@),
        }
    }
}

impl DeepView for StartPhase {
    type V = StartPhaseView;

    open spec fn deep_view(&self) -> StartPhaseView {
        self@
    }
}

impl Clone for StartPhase {
    fn clone(&self) -> (r: Self)
        ensures
            r@ == self@,
    {
        match self {
            StartPhase::Resolving => StartPhase::Resolving,
            StartPhase::Naming { repo, workspace } => StartPhase::Naming {
                repo: repo.clone(),
                workspace: workspace.clone(),
            },
            StartPhase::Making { repo, workspace, id } => StartPhase::Making {
                repo: repo.clone(),
                workspace: workspace.clone(),
                id: id.clone(),
            },
            StartPhase::Stamping { repo, workspace, id } => StartPhase::Stamping {
                repo: repo.clone(),
                workspace: workspace.clone(),
                id: id.clone(),
            },
            StartPhase::Inserting(a) => StartPhase::Inserting(a.clone()),
            StartPhase::Spawning(a) => StartPhase::Spawning(a.clone()),
            StartPhase::Waiting(a) => StartPhase::Waiting(a.clone()),
            StartPhase::Probing { job, since } => StartPhase::Probing {
                job: job.clone(),
                since: *since,
            },
            StartPhase::Timing { job, since } => StartPhase::Timing {
                job: job.clone(),
                since: *since,
            },
            StartPhase::Pausing { job, since } => StartPhase::Pausing {
                job: job.clone(),
                since: *since,
            },
            StartPhase::GivingUp(a) => StartPhase::GivingUp(a.clone()),
            StartPhase::Failing(a) => StartPhase::Failing(a.clone()),
            StartPhase::ReadingLog(a) => StartPhase::ReadingLog(a.clone()),
            StartPhase::ReadingPid(a) => StartPhase::ReadingPid(a.clone()),
            StartPhase::Recording(a) => StartPhase::Recording(a.clone()),
            StartPhase::Inspecting(a) => StartPhase::Inspecting(a.clone()),
        }
    }
}

/// A session being started.
#[derive(Debug)]
pub struct StartSession {
    pub repos: RepositoryStore,
    pub command: Vec<String>,
    pub phase: StartPhase,
}

/// What a `StartSession` holds.
#[verifier::ext_equal]
pub struct StartSessionView {
    pub repos: RepositoryStoreView,
    pub command: Seq<Seq<char>>,
    pub phase: StartPhaseView,
}

impl View for StartSession {
    type V = StartSessionView;

    open spec fn view(&self) -> StartSessionView {
        StartSessionView {
            repos: self.repos@,
            command: self.command.deep_view(),
            phase: self.phase@,
        }
    }
}

impl DeepView for StartSession {
    type V = StartSessionView;

    open spec fn deep_view(&self) -> StartSessionView {
        self@
    }
}

impl Clone for StartSession {
    fn clone(&self) -> (r: Self)
        ensures
            r@ == self@,
    {
        StartSession {
            repos: self.repos.clone(),
            command: self.command.clone(),
            phase: self.phase.clone(),
        }
    }
}

/// The operation in another phase.
pub open spec fn start_in(s: StartSessionView, phase: StartPhaseView) -> StartSessionView {
    StartSessionView { phase, ..s }
}

/// The directory of a repository's sessions.
pub open spec fn sessions_dir(repos: RepositoryStoreView, repo: RepositoryView) -> Seq<char> {
    paths::joined_path(repos::repository_dir(repos.paths.repos_dir, repo), "sessions"@)
}

/// Makes the files of a session: its log and its supervisor's log, and nothing
/// left of a process file or a sign of life.
pub open spec fn make_files(dir: Seq<char>) -> EffectView {
    EffectView::MakeFiles {
        dir,
        keep: seq![
            paths::joined_path(dir, "log"@),
            paths::joined_path(dir, "supervisor.log"@),
        ],
        clear: seq![paths::joined_path(dir, "child.pid"@), paths::joined_path(dir, "ready"@)],
    }
}

/// How long a session has to show its sign of life, in nanoseconds.
pub open spec fn patience() -> int {
    3_000_000_000
}

/// The first step of starting a session.
pub open spec fn start_start(
    repos: RepositoryStoreView,
    workspace: Seq<char>,
    command: Seq<Seq<char>>,
) -> StepView<StartSessionView, SessionView> {
    if command.len() == 0 {
        StepView::Finish(Err(SwarmErrorView::InvalidSession("missing command"@)))
    } else {
        StepView::Run(
            EffectView::ResolveWorkspace(workspace),
            StartSessionView { repos, command, phase: StartPhaseView::Resolving },
        )
    }
}

/// The step that a step of the last look leads to.
pub open spec fn start_inspect(
    s: StartSessionView,
    step: StepView<SessionOpView, SessionView>,
) -> StepView<StartSessionView, SessionView> {
    match step {
        StepView::Run(effect, op) => StepView::Run(
            effect,
            start_in(s, StartPhaseView::Inspecting(op)),
        ),
        StepView::Finish(r) => StepView::Finish(r),
        StepView::Mismatch => StepView::Mismatch,
    }
}

/// The step that follows an answer.
pub open spec fn start_next(s: StartSessionView, reply: ReplyView) -> StepView<
    StartSessionView,
    SessionView,
> {
    match (s.phase, reply) {
        (_, ReplyView::Failed(e)) => StepView::Finish(Err(e)),
        (StartPhaseView::Resolving, ReplyView::Resolved { repo, workspace }) => StepView::Run(
            EffectView::ReadTime,
            start_in(s, StartPhaseView::Naming { repo, workspace }),
        ),
        (StartPhaseView::Naming { repo, workspace }, ReplyView::Time { secs, millis }) => {
            let id = sessions::session_id(secs as nat, millis as nat);
            StepView::Run(
                make_files(paths::joined_path(sessions_dir(s.repos, repo), id)),
                start_in(s, StartPhaseView::Making { repo, workspace, id }),
            )
        },
        (StartPhaseView::Making { repo, workspace, id }, ReplyView::Done) => StepView::Run(
            EffectView::ReadClock,
            start_in(s, StartPhaseView::Stamping { repo, workspace, id }),
        ),
        (StartPhaseView::Stamping { repo, workspace, id }, ReplyView::Clock(now)) => {
            let session = sessions::prepared(
                sessions_dir(s.repos, repo),
                repo,
                workspace,
                id,
                s.command,
                now,
            );
            let job = SessionJobView {
                repo,
                workspace,
                db_path: db_path(s.repos.paths, repo),
                session,
            };
            StepView::Run(
                EffectView::InsertSession {
                    db_path: job.db_path,
                    record: sessions::starting_row(session, sessions::json_list_text(s.command)),
                },
                start_in(s, StartPhaseView::Inserting(job)),
            )
        },
        (StartPhaseView::Inserting(job), ReplyView::Done) => StepView::Run(
            EffectView::SpawnSupervisor {
                log_path: paths::joined_path(job.session.path, "supervisor.log"@),
                args: sessions::serve_args(job.repo, job.db_path, job.workspace, job.session),
            },
            start_in(s, StartPhaseView::Spawning(job)),
        ),
        (StartPhaseView::Spawning(job), ReplyView::Done) => StepView::Run(
            EffectView::ReadInstant,
            start_in(s, StartPhaseView::Waiting(job)),
        ),
        (StartPhaseView::Waiting(job), ReplyView::Instant(since)) => StepView::Run(
            EffectView::PathExists(paths::joined_path(job.session.path, "ready"@)),
            start_in(s, StartPhaseView::Probing { job, since }),
        ),
        (StartPhaseView::Probing { job, since }, ReplyView::Exists(exists)) => if exists {
            StepView::Run(
                EffectView::ReadFile(paths::joined_path(job.session.path, "child.pid"@)),
                start_in(s, StartPhaseView::ReadingPid(job)),
            )
        } else {
            StepView::Run(
                EffectView::ReadInstant,
                start_in(s, StartPhaseView::Timing { job, since }),
            )
        },
        (StartPhaseView::Timing { job, since }, ReplyView::Instant(now)) => if now as int >= since
            + patience() {
            StepView::Run(EffectView::ReadClock, start_in(s, StartPhaseView::GivingUp(job)))
        } else {
            StepView::Run(
                EffectView::Sleep(50),
                start_in(s, StartPhaseView::Pausing { job, since }),
            )
        },
        (StartPhaseView::Pausing { job, since }, ReplyView::Done) => StepView::Run(
            EffectView::PathExists(paths::joined_path(job.session.path, "ready"@)),
            start_in(s, StartPhaseView::Probing { job, since }),
        ),
        (StartPhaseView::GivingUp(job), ReplyView::Clock(now)) => StepView::Run(
            EffectView::FailSession {
                db_path: job.db_path,
                id: job.session.id,
                stopped_at: now,
            },
            start_in(s, StartPhaseView::Failing(job)),
        ),
        (StartPhaseView::Failing(job), ReplyView::Done) => StepView::Run(
            EffectView::ReadFile(paths::joined_path(job.session.path, "supervisor.log"@)),
            start_in(s, StartPhaseView::ReadingLog(job)),
        ),
        (StartPhaseView::ReadingLog(job), ReplyView::Text(contents)) => StepView::Finish(
            Err(sessions::not_ready(job.session.id, sessions::log_detail(contents))),
        ),
        (StartPhaseView::ReadingPid(job), ReplyView::Text(contents)) => StepView::Run(
            EffectView::RunSession {
                db_path: job.db_path,
                id: job.session.id,
                pid: match sessions::pid_in(contents) {
                    Some(pid) => Some(pid as i64),
                    None => None,
                },
                socket_path: job.session.socket_path,
            },
            start_in(s, StartPhaseView::Recording(job)),
        ),
        (StartPhaseView::Recording(job), ReplyView::Done) => start_inspect(
            s,
            op_start(s.repos, SessionTask::Inspect, job.session.id),
        ),
        (StartPhaseView::Inspecting(op), _) => start_inspect(s, op_next(op, reply)),
        _ => StepView::Mismatch,
    }
}

fn text_option(value: &Option<String>) -> (r: Option<&str>)
    ensures
        r.deep_view() == value.deep_view(),
{
    match value {
        Some(value) => Some(value.as_str()),
        None => None,
    }
}

fn make_session_files(dir: String) -> (r: Effect)
    ensures
        r@ == make_files(dir@),
{
    let log = paths::join_path(dir.as_str(), "log");
    let supervisor_log = paths::join_path(dir.as_str(), "supervisor.log");
    let pid = paths::join_path(dir.as_str(), "child.pid");
    let ready = paths::join_path(dir.as_str(), "ready");
    let keep = vec![log, supervisor_log];
    let clear = vec![pid, ready];
    proof {
        assert(keep.deep_view() =~= seq![
            paths::joined_path(dir@, "log"@),
            paths::joined_path(dir@, "supervisor.log"@),
        ]);
        assert(clear.deep_view() =~= seq![
            paths::joined_path(dir@, "child.pid"@),
            paths::joined_path(dir@, "ready"@),
        ]);
    }
    Effect::MakeFiles { dir, keep, clear }
}

impl SessionStore {
    /// Begins to start a command in a workspace.
    pub fn create(&self, workspace: &str, command: &Vec<String>) -> (r: Step<StartSession, Session>)
        ensures
            r@ == start_start(self.repos@, workspace@, command.deep_view()),
    {
        if command.len() == 0 {
            return Step::Finish(Err(SwarmError::InvalidSession("missing command".to_owned())));
        }
        let repos = RepositoryStore {
            paths: self.repos.paths.clone(),
            rows: self.repos.rows.clone(),
        };
        Step::Run(
            Effect::ResolveWorkspace(workspace.to_owned()),
            StartSession { repos, command: command.clone(), phase: StartPhase::Resolving },
        )
    }
}

impl StartSession {
    fn inspected(
        repos: RepositoryStore,
        command: Vec<String>,
        step: Step<SessionOp, Session>,
    ) -> (r: Step<StartSession, Session>)
        ensures
            forall|s: StartSessionView|
                s.repos == repos@ && s.command == command.deep_view() ==> r@
                    == #[trigger] start_inspect(s, step@),
    {
        match step {
            Step::Run(effect, op) => Step::Run(
                effect,
                StartSession { repos, command, phase: StartPhase::Inspecting(op) },
            ),
            Step::Finish(Ok(session)) => Step::Finish(Ok(session)),
            Step::Finish(Err(e)) => Step::Finish(Err(e)),
            Step::Mismatch => Step::Mismatch,
        }
    }

    /// The step that follows an answer.
    pub fn resume(self, reply: Reply) -> (r: Step<StartSession, Session>)
        ensures
            r@ == start_next(self@, reply@),
    {
        let StartSession { repos, command, phase } = self;
        match (phase, reply) {
            (_, Reply::Failed(e)) => Step::Finish(Err(e)),
            (StartPhase::Resolving, Reply::Resolved { repo, workspace }) => Step::Run(
                Effect::ReadTime,
                StartSession { repos, command, phase: StartPhase::Naming { repo, workspace } },
            ),
            (StartPhase::Naming { repo, workspace }, Reply::Time { secs, millis }) => {
                let id = sessions::new_session_id(secs, millis);
                let dir = repos.sessions_dir(&repo);
                let effect = make_session_files(paths::join_path(dir.as_str(), id.as_str()));
                Step::Run(
                    effect,
                    StartSession {
                        repos,
                        command,
                        phase: StartPhase::Making { repo, workspace, id },
                    },
                )
            },
            (StartPhase::Making { repo, workspace, id }, Reply::Done) => Step::Run(
                Effect::ReadClock,
                StartSession {
                    repos,
                    command,
                    phase: StartPhase::Stamping { repo, workspace, id },
                },
            ),
            (StartPhase::Stamping { repo, workspace, id }, Reply::Clock(now)) => {
                let dir = repos.sessions_dir(&repo);
                let session = sessions::prepare_session(
                    dir.as_str(),
                    &repo,
                    &workspace,
                    id.as_str(),
                    &command,
                    now,
                );
                match sessions::row_from_session(&session) {
                    Err(e) => Step::Finish(Err(e)),
                    Ok(row) => {
                        let path = repos.repo_db_path(&repo);
                        Step::Run(
                            Effect::InsertSession { db_path: path.clone(), record: row },
                            StartSession {
                                repos,
                                command,
                                phase: StartPhase::Inserting(
                                    SessionJob { repo, workspace, db_path: path, session },
                                ),
                            },
                        )
                    },
                }
            },
            (StartPhase::Inserting(job), Reply::Done) => {
                let args = sessions::supervisor_args(
                    &job.repo,
                    job.db_path.as_str(),
                    &job.workspace,
                    &job.session,
                );
                let log_path = paths::join_path(job.session.path.as_str(), "supervisor.log");
                Step::Run(
                    Effect::SpawnSupervisor { log_path, args },
                    StartSession { repos, command, phase: StartPhase::Spawning(job) },
                )
            },
            (StartPhase::Spawning(job), Reply::Done) => Step::Run(
                Effect::ReadInstant,
                StartSession { repos, command, phase: StartPhase::Waiting(job) },
            ),
            (StartPhase::Waiting(job), Reply::Instant(since)) => {
                let ready = paths::join_path(job.session.path.as_str(), "ready");
                Step::Run(
                    Effect::PathExists(ready),
                    StartSession { repos, command, phase: StartPhase::Probing { job, since } },
                )
            },
            (StartPhase::Probing { job, since }, Reply::Exists(exists)) => if exists {
                let pid = paths::join_path(job.session.path.as_str(), "child.pid");
                Step::Run(
                    Effect::ReadFile(pid),
                    StartSession { repos, command, phase: StartPhase::ReadingPid(job) },
                )
            } else {
                Step::Run(
                    Effect::ReadInstant,
                    StartSession { repos, command, phase: StartPhase::Timing { job, since } },
                )
            },
            (StartPhase::Timing { job, since }, Reply::Instant(now)) => if now >= since && now
                - since >= 3_000_000_000 {
                Step::Run(
                    Effect::ReadClock,
                    StartSession { repos, command, phase: StartPhase::GivingUp(job) },
                )
            } else {
                Step::Run(
                    Effect::Sleep(50),
                    StartSession { repos, command, phase: StartPhase::Pausing { job, since } },
                )
            },
            (StartPhase::Pausing { job, since }, Reply::Done) => {
                let ready = paths::join_path(job.session.path.as_str(), "ready");
                Step::Run(
                    Effect::PathExists(ready),
                    StartSession { repos, command, phase: StartPhase::Probing { job, since } },
                )
            },
            (StartPhase::GivingUp(job), Reply::Clock(now)) => Step::Run(
                Effect::FailSession {
                    db_path: job.db_path.clone(),
                    id: job.session.id.clone(),
                    stopped_at: now,
                },
                StartSession { repos, command, phase: StartPhase::Failing(job) },
            ),
            (StartPhase::Failing(job), Reply::Done) => {
                let log = paths::join_path(job.session.path.as_str(), "supervisor.log");
                Step::Run(
                    Effect::ReadFile(log),
                    StartSession { repos, command, phase: StartPhase::ReadingLog(job) },
                )
            },
            (StartPhase::ReadingLog(job), Reply::Text(contents)) => {
                let detail = sessions::read_supervisor_log(text_option(&contents));
                Step::Finish(
                    Err(sessions::not_ready_error(job.session.id.as_str(), detail.as_str())),
                )
            },
            (StartPhase::ReadingPid(job), Reply::Text(contents)) => {
                let pid = sessions::parse_pid(text_option(&contents));
                Step::Run(
                    Effect::RunSession {
                        db_path: job.db_path.clone(),
                        id: job.session.id.clone(),
                        pid,
                        socket_path: job.session.socket_path.clone(),
                    },
                    StartSession { repos, command, phase: StartPhase::Recording(job) },
                )
            },
            (StartPhase::Recording(job), Reply::Done) => {
                let step = begin_op(
                    &repos.paths,
                    &repos.rows,
                    SessionTask::Inspect,
                    job.session.id.as_str(),
                );
                StartSession::inspected(repos, command, step)
            },
            (StartPhase::Inspecting(op), reply) => {
                let step = op.resume(reply);
                StartSession::inspected(repos, command, step)
            },
            _ => Step::Mismatch,
        }
    }
}

/// A session that has not ended is not removed.
pub proof fn law_running_session_stays(db_path: Seq<char>, session: SessionView)
    requires
        sessions::is_live(session.status),
    ensures
        op_current(SessionTask::Remove, db_path, session) == StepView::<
            SessionOpView,
            SessionView,
        >::Finish(Err(SwarmErrorView::SessionRunning(session.id))),
{
}

/// A session that was stopped can be removed.
pub proof fn law_stopped_session_can_be_removed(
    db_path: Seq<char>,
    session: SessionView,
    now: i64,
)
    ensures
        op_found(
            SessionTask::Remove,
            (FoundSessionView { db_path, session: stopped(session, now) }),
        ) == StepView::<SessionOpView, SessionView>::Run(
            EffectView::DeleteSession { db_path, id: session.id },
            op_in(SessionTask::Remove, SessionPhaseView::Deleting(stopped(session, now))),
        ),
{
    sessions::law_statuses_are_apart("stopped"@);
}

/// Stopping a session that has ended changes nothing.
pub proof fn law_stop_twice_is_stop_once(db_path: Seq<char>, session: SessionView, now: i64)
    ensures
        op_found(
            SessionTask::Stop,
            (FoundSessionView { db_path, session: stopped(session, now) }),
        ) == StepView::<SessionOpView, SessionView>::Finish(Ok(stopped(session, now))),
{
    sessions::law_statuses_are_apart("stopped"@);
}

/// Stopping a session whose process is known asks for the end of this process,
/// then records that the session is stopped.
pub proof fn law_stop_run(s: SessionOpView, found: FoundSessionView, pid: u32, now: i64)
    requires
        s.task == SessionTask::Stop,
        sessions::is_live(found.session.status),
        found.session.pid == Some(pid),
    ensures
        ({
            let rule = |s: SessionOpView, reply: ReplyView| op_next(s, reply);
            let replies = seq![ReplyView::Done, ReplyView::Clock(now), ReplyView::Done];
            &&& effects::asked(op_found(s.task, found), rule, replies) == seq![
                EffectView::Terminate(pid),
                EffectView::ReadClock,
                EffectView::EndSession {
                    db_path: found.db_path,
                    id: found.session.id,
                    status: "stopped"@,
                    stopped_at: now,
                },
            ]
            &&& effects::reached(op_found(s.task, found), rule, replies) == StepView::<
                SessionOpView,
                SessionView,
            >::Finish(Ok(stopped(found.session, now)))
        }),
{
    let rule = |s: SessionOpView, reply: ReplyView| op_next(s, reply);
    let replies = seq![ReplyView::Done, ReplyView::Clock(now), ReplyView::Done];
    reveal(op_next);
    reveal_with_fuel(effects::asked, 5);
    reveal_with_fuel(effects::reached, 5);
    assert(replies.skip(1).skip(1).skip(1).len() == 0);
    assert(effects::asked(op_found(s.task, found), rule, replies) =~= seq![
        EffectView::Terminate(pid),
        EffectView::ReadClock,
        EffectView::EndSession {
            db_path: found.db_path,
            id: found.session.id,
            status: "stopped"@,
            stopped_at: now,
        },
    ]);
}

/// Only a session that has not ended, whose process is known and gone, is
/// recorded as exited. Every other one stays as it is.
pub proof fn law_refresh_ends_only_what_is_gone(found: FoundSessionView, reply: ReplyView)
    ensures
        !sessions::is_live(found.session.status) || found.session.pid is None ==> refresh_start(
            found,
        ) == StepView::<RefreshView, SessionView>::Finish(Ok(found.session)),
        refresh_next(RefreshView::Checking(found), ReplyView::Exists(true)) == StepView::<
            RefreshView,
            SessionView,
        >::Finish(Ok(found.session)),
        refresh_next(RefreshView::Checking(found), reply) matches StepView::Run(_, _)
            ==> reply == ReplyView::Exists(false),
{
}

/// The identifiers of the sessions of a list that have ended.
pub open spec fn ended(sessions: Seq<SessionView>) -> Seq<Seq<char>>
    decreases sessions.len(),
{
    if sessions.len() == 0 {
        seq![]
    } else if sessions::is_terminal(sessions[0].status) {
        seq![sessions[0].id] + ended(sessions.skip(1))
    } else {
        ended(sessions.skip(1))
    }
}

/// Pruning removes each session of the list that has ended, in the order of the
/// list, and no other; its result is their number.
pub proof fn law_prune_removes_what_ended(
    repos: RepositoryStoreView,
    removed: Seq<Seq<char>>,
    sessions: Seq<SessionView>,
)
    ensures
        match prune_rest(repos, removed, sessions) {
            StepView::Run(_, s) => s.phase matches PrunePhaseView::Removing { op, id, rest }
                && s.removed + seq![id] + ended(rest) == removed + ended(sessions),
            StepView::Finish(Ok(n)) => ended(sessions).len() == 0 && n == removed.len() as usize,
            StepView::Finish(Err(_)) => ended(sessions).len() > 0,
            StepView::Mismatch => false,
        },
    decreases sessions.len(),
{
    if sessions.len() > 0 {
        if !sessions::is_terminal(sessions[0].status) {
            law_prune_removes_what_ended(repos, removed, sessions.skip(1));
        } else {
            let id = sessions[0].id;
            let rest = sessions.skip(1);
            assert(removed + seq![id] + ended(rest) =~= removed + (seq![id] + ended(rest)));
        }
    }
}

/// Once the removal of a session is through, pruning goes on with the rest.
pub proof fn law_prune_goes_on(s: PruneSessionsView, reply: ReplyView, session: SessionView)
    requires
        s.phase matches PrunePhaseView::Removing { op, .. } && op_next(op, reply) == StepView::<
            SessionOpView,
            SessionView,
        >::Finish(Ok(session)),
    ensures
        s.phase matches PrunePhaseView::Removing { op, id, rest } && prune_next(s, reply)
            == prune_rest(s.repos, s.removed.push(id), rest),
{
}

/// A session gets its name and its files, and is recorded as starting, before
/// its supervisor is spawned.
pub proof fn law_session_is_recorded_before_it_runs(
    s: StartSessionView,
    repo: RepositoryView,
    workspace: WorkspaceView,
    secs: u64,
    millis: u32,
    now: i64,
)
    ensures
        ({
            let id = sessions::session_id(secs as nat, millis as nat);
            let dir = sessions_dir(s.repos, repo);
            let db = db_path(s.repos.paths, repo);
            let session = sessions::prepared(dir, repo, workspace, id, s.command, now);
            let job = SessionJobView { repo, workspace, db_path: db, session };
            let naming = start_in(s, StartPhaseView::Naming { repo, workspace });
            let making = start_in(s, StartPhaseView::Making { repo, workspace, id });
            let stamping = start_in(s, StartPhaseView::Stamping { repo, workspace, id });
            let inserting = start_in(s, StartPhaseView::Inserting(job));
            &&& start_next(naming, ReplyView::Time { secs, millis }) == StepView::<
                StartSessionView,
                SessionView,
            >::Run(make_files(paths::joined_path(dir, id)), making)
            &&& start_next(making, ReplyView::Done) == StepView::<
                StartSessionView,
                SessionView,
            >::Run(EffectView::ReadClock, stamping)
            &&& start_next(stamping, ReplyView::Clock(now)) == StepView::<
                StartSessionView,
                SessionView,
            >::Run(
                EffectView::InsertSession {
                    db_path: db,
                    record: sessions::starting_row(session, sessions::json_list_text(s.command)),
                },
                inserting,
            )
            &&& start_next(inserting, ReplyView::Done) == StepView::<
                StartSessionView,
                SessionView,
            >::Run(
                EffectView::SpawnSupervisor {
                    log_path: paths::joined_path(session.path, "supervisor.log"@),
                    args: sessions::serve_args(repo, db, workspace, session),
                },
                start_in(s, StartPhaseView::Spawning(job)),
            )
        }),
{
}

/// A session is recorded as running, with the number in its process file, only
/// once it has shown its sign of life.
pub proof fn law_session_runs_once_it_is_ready(
    s: StartSessionView,
    job: SessionJobView,
    since: u64,
    contents: Option<Seq<char>>,
    reply: ReplyView,
)
    ensures
        ({
            let probing = start_in(s, StartPhaseView::Probing { job, since });
            let reading = start_in(s, StartPhaseView::ReadingPid(job));
            &&& start_next(probing, ReplyView::Exists(true)) == StepView::<
                StartSessionView,
                SessionView,
            >::Run(
                EffectView::ReadFile(paths::joined_path(job.session.path, "child.pid"@)),
                reading,
            )
            &&& start_next(reading, ReplyView::Text(contents)) == StepView::<
                StartSessionView,
                SessionView,
            >::Run(
                EffectView::RunSession {
                    db_path: job.db_path,
                    id: job.session.id,
                    pid: match sessions::pid_in(contents) {
                        Some(pid) => Some(pid as i64),
                        None => None,
                    },
                    socket_path: job.session.socket_path,
                },
                start_in(s, StartPhaseView::Recording(job)),
            )
        }),
        start_next(s, reply) matches StepView::Run(effect, next) ==> (next.phase is ReadingPid
            ==> s.phase is Probing && reply == ReplyView::Exists(true)),
        start_next(s, reply) matches StepView::Run(effect, next) ==> (next.phase is Recording
            ==> s.phase is ReadingPid),
{
}

/// A session that shows no sign of life is given up only once its patience is
/// over, and until then it is looked for again.
pub proof fn law_start_waits(s: StartSessionView, job: SessionJobView, since: u64, now: u64)
    requires
        s.phase == (StartPhaseView::Timing { job, since }),
    ensures
        now < since + patience() ==> start_next(s, ReplyView::Instant(now)) == StepView::<
            StartSessionView,
            SessionView,
        >::Run(EffectView::Sleep(50), start_in(s, StartPhaseView::Pausing { job, since })),
        now >= since + patience() ==> start_next(s, ReplyView::Instant(now)) == StepView::<
            StartSessionView,
            SessionView,
        >::Run(EffectView::ReadClock, start_in(s, StartPhaseView::GivingUp(job))),
{
}

/// Giving a session up marks only a session that is still starting.
pub proof fn law_giving_up_spares_other_sessions(
    rows: Seq<SessionRowView>,
    db_path: Seq<char>,
    id: Seq<char>,
    stopped_at: i64,
    i: int,
)
    requires
        0 <= i < rows.len(),
        rows[i].id != id || rows[i].status != "starting"@,
    ensures
        sessions::rows_after(rows, EffectView::FailSession { db_path, id, stopped_at })[i]
            == rows[i],
{
}

/// A session that was recorded as stopped reads back as stopped.
pub proof fn law_recorded_stop_reads_back(
    repo: RepositoryView,
    rows: Seq<SessionRowView>,
    i: int,
    session: SessionView,
    db_path: Seq<char>,
    now: i64,
)
    requires
        0 <= i < rows.len(),
        sessions::session_of(repo, rows[i]) == Ok::<_, SwarmErrorView>(session),
    ensures
        sessions::session_of(
            repo,
            sessions::rows_after(
                rows,
                EffectView::EndSession {
                    db_path,
                    id: session.id,
                    status: "stopped"@,
                    stopped_at: now,
                },
            )[i],
        ) == Ok::<_, SwarmErrorView>(stopped(session, now)),
{
}

/// How a listing of sessions goes on.
pub open spec fn list_sessions_rule() -> spec_fn(ListSessionsView, ReplyView) -> StepView<
    ListSessionsView,
    Seq<SessionView>,
> {
    |s: ListSessionsView, reply: ReplyView| list_sessions_next(s, reply)
}

/// Whether the process of a session is looked for: the session has not ended and its
/// process is known.
pub open spec fn looked_for(session: SessionView) -> bool {
    (session.status == "running"@ || session.status == "starting"@) && session.pid is Some
}

/// What is heard of a session's process: whether it is there, and where it is not, the time
/// unless the session has one, and that its end is recorded.
pub open spec fn sighting(session: SessionView, seen: (bool, i64)) -> Seq<ReplyView> {
    if !looked_for(session) {
        seq![]
    } else if seen.0 {
        seq![ReplyView::Exists(true)]
    } else if session.stopped_at is Some {
        seq![ReplyView::Exists(false), ReplyView::Done]
    } else {
        seq![ReplyView::Exists(false), ReplyView::Clock(seen.1), ReplyView::Done]
    }
}

/// What has to be asked for a session whose process is seen so: whether the process is
/// there, and where it is not, the time unless the session has one, and the record of the
/// session's end.
pub open spec fn inquiry(db_path: Seq<char>, session: SessionView, seen: (bool, i64)) -> Seq<
    EffectView,
> {
    let ask = EffectView::ProcessExists(session.pid->0);
    let end = |stopped_at: i64|
        EffectView::EndSession { db_path, id: session.id, status: "exited"@, stopped_at };
    if !looked_for(session) {
        seq![]
    } else if seen.0 {
        seq![ask]
    } else if session.stopped_at is Some {
        seq![ask, end(session.stopped_at->0)]
    } else {
        seq![ask, EffectView::ReadClock, end(seen.1)]
    }
}

/// A session whose process is seen so: one whose process is gone has exited.
pub open spec fn as_seen(session: SessionView, seen: (bool, i64)) -> SessionView {
    if looked_for(session) && !seen.0 {
        SessionView {
            status: "exited"@,
            pid: None,
            stopped_at: Some(
                if session.stopped_at is Some {
                    session.stopped_at->0
                } else {
                    seen.1
                },
            ),
            ..session
        }
    } else {
        session
    }
}

/// The session in a row that can be read.
pub open spec fn read_session(repo: RepositoryView, row: SessionRowView) -> SessionView {
    sessions::session_of(repo, row)->Ok_0
}

/// Whether the rows of a repository can be read, with a sighting for each.
pub open spec fn readable(
    repo: RepositoryView,
    rows: Seq<SessionRowView>,
    seen: Seq<(bool, i64)>,
) -> bool {
    &&& seen.len() == rows.len()
    &&& forall|i: int| 0 <= i < rows.len() ==> sessions::session_of(repo, #[trigger] rows[i]) is Ok
}

/// What is heard of the processes of a repository's rows, in their order.
pub open spec fn row_sightings(
    repo: RepositoryView,
    rows: Seq<SessionRowView>,
    seen: Seq<(bool, i64)>,
) -> Seq<ReplyView>
    decreases rows.len(),
{
    if rows.len() == 0 {
        seq![]
    } else {
        sighting(read_session(repo, rows[0]), seen[0]) + row_sightings(
            repo,
            rows.skip(1),
            seen.skip(1),
        )
    }
}

/// What has to be asked for the rows of a repository, in their order.
pub open spec fn row_inquiries(
    db_path: Seq<char>,
    repo: RepositoryView,
    rows: Seq<SessionRowView>,
    seen: Seq<(bool, i64)>,
) -> Seq<EffectView>
    decreases rows.len(),
{
    if rows.len() == 0 {
        seq![]
    } else {
        inquiry(db_path, read_session(repo, rows[0]), seen[0]) + row_inquiries(
            db_path,
            repo,
            rows.skip(1),
            seen.skip(1),
        )
    }
}

/// The sessions of a repository's rows as they are seen, in their order.
pub open spec fn rows_as_seen(
    repo: RepositoryView,
    rows: Seq<SessionRowView>,
    seen: Seq<(bool, i64)>,
) -> Seq<SessionView> {
    Seq::new(rows.len(), |i: int| as_seen(read_session(repo, rows[i]), seen[i]))
}

#[verifier::spinoff_prover]
#[verifier::rlimit(60)]
proof fn lemma_list_row(
    paths: SwarmPathsView,
    workspace: Option<Seq<char>>,
    repos: Seq<RepositoryView>,
    done: Seq<SessionView>,
    rows: Seq<SessionRowView>,
    seen: (bool, i64),
    tail: Seq<ReplyView>,
)
    requires
        repos.len() > 0,
        rows.len() > 0,
        sessions::session_of(repos[0], rows[0]) is Ok,
    ensures
        ({
            let session = read_session(repos[0], rows[0]);
            let replies = sighting(session, seen) + tail;
            let step = list_rows(paths, workspace, repos, done, rows);
            let next = list_rows(
                paths,
                workspace,
                repos,
                done.push(as_seen(session, seen)),
                rows.skip(1),
            );
            let db = db_path(paths, repos[0]);
            &&& effects::asked(step, list_sessions_rule(), replies) == inquiry(db, session, seen)
                + effects::asked(next, list_sessions_rule(), tail)
            &&& effects::reached(step, list_sessions_rule(), replies) == effects::reached(
                next,
                list_sessions_rule(),
                tail,
            )
        }),
{
    let session = read_session(repos[0], rows[0]);
    let replies = sighting(session, seen) + tail;
    let step = list_rows(paths, workspace, repos, done, rows);
    let next = list_rows(
        paths,
        workspace,
        repos,
        done.push(as_seen(session, seen)),
        rows.skip(1),
    );
    let db = db_path(paths, repos[0]);
    let rule = list_sessions_rule();
    let rest = effects::asked(next, rule, tail);
    let looking = |refresh: RefreshView| ListSessionsView {
        paths,
        workspace,
        repos,
        done,
        phase: ListSessionsPhaseView::Refreshing { refresh, rest: rows.skip(1) },
    };
    let found = FoundSessionView { db_path: db, session };
    if !looked_for(session) {
        assert(replies =~= tail);
        assert(step == next);
        assert(inquiry(db, session, seen) + rest =~= rest);
    } else {
        let ask = EffectView::ProcessExists(session.pid->0);
        let checking = looking(RefreshView::Checking(found));
        assert(step == StepView::<ListSessionsView, Seq<SessionView>>::Run(ask, checking));
        if seen.0 {
            assert(replies =~= seq![ReplyView::Exists(true)] + tail);
            effects::lemma_one_reply(ask, checking, rule, ReplyView::Exists(true), tail);
            assert(list_sessions_next(checking, ReplyView::Exists(true)) == next);
            assert(inquiry(db, session, seen) =~= seq![ask]);
        } else {
            let stopped_at = if session.stopped_at is Some {
                session.stopped_at->0
            } else {
                seen.1
            };
            let end = EffectView::EndSession {
                db_path: db,
                id: session.id,
                status: "exited"@,
                stopped_at,
            };
            let last = seq![ReplyView::Done] + tail;
            let recording = looking(RefreshView::Recording(gone(session, stopped_at)));
            effects::lemma_one_reply(end, recording, rule, ReplyView::Done, tail);
            assert(list_sessions_next(recording, ReplyView::Done) == next);
            if session.stopped_at is Some {
                assert(replies =~= seq![ReplyView::Exists(false)] + last);
                effects::lemma_one_reply(ask, checking, rule, ReplyView::Exists(false), last);
                assert(seq![ask] + (seq![end] + rest) =~= inquiry(db, session, seen) + rest);
            } else {
                let clock = seq![ReplyView::Clock(seen.1)] + last;
                let stamping = looking(RefreshView::Stamping(found));
                assert(replies =~= seq![ReplyView::Exists(false)] + clock);
                effects::lemma_one_reply(ask, checking, rule, ReplyView::Exists(false), clock);
                effects::lemma_one_reply(
                    EffectView::ReadClock,
                    stamping,
                    rule,
                    ReplyView::Clock(seen.1),
                    last,
                );
                assert(seq![ask] + (seq![EffectView::ReadClock] + (seq![end] + rest)) =~= inquiry(
                    db,
                    session,
                    seen,
                ) + rest);
            }
        }
    }
}

#[verifier::spinoff_prover]
#[verifier::rlimit(60)]
proof fn lemma_list_rows(
    paths: SwarmPathsView,
    workspace: Option<Seq<char>>,
    repos: Seq<RepositoryView>,
    done: Seq<SessionView>,
    rows: Seq<SessionRowView>,
    seen: Seq<(bool, i64)>,
    tail: Seq<ReplyView>,
)
    requires
        repos.len() > 0,
        readable(repos[0], rows, seen),
    ensures
        ({
            let replies = row_sightings(repos[0], rows, seen) + tail;
            let step = list_rows(paths, workspace, repos, done, rows);
            let next = list_repos(
                paths,
                workspace,
                repos.skip(1),
                done + rows_as_seen(repos[0], rows, seen),
            );
            let db = db_path(paths, repos[0]);
            &&& effects::asked(step, list_sessions_rule(), replies) == row_inquiries(
                db,
                repos[0],
                rows,
                seen,
            ) + effects::asked(next, list_sessions_rule(), tail)
            &&& effects::reached(step, list_sessions_rule(), replies) == effects::reached(
                next,
                list_sessions_rule(),
                tail,
            )
        }),
    decreases rows.len(),
{
    let rule = list_sessions_rule();
    let db = db_path(paths, repos[0]);
    let replies = row_sightings(repos[0], rows, seen) + tail;
    if rows.len() == 0 {
        assert(replies =~= tail);
        assert(done + rows_as_seen(repos[0], rows, seen) =~= done);
        let next = list_repos(paths, workspace, repos.skip(1), done);
        assert(row_inquiries(db, repos[0], rows, seen) + effects::asked(next, rule, tail)
            =~= effects::asked(next, rule, tail));
    } else {
        let session = read_session(repos[0], rows[0]);
        let here = as_seen(session, seen[0]);
        let rest = row_sightings(repos[0], rows.skip(1), seen.skip(1)) + tail;
        assert forall|i: int| 0 <= i < rows.skip(1).len() implies sessions::session_of(
            repos[0],
            #[trigger] rows.skip(1)[i],
        ) is Ok by {
            assert(rows.skip(1)[i] == rows[i + 1]);
        }
        lemma_list_row(paths, workspace, repos, done, rows, seen[0], rest);
        lemma_list_rows(
            paths,
            workspace,
            repos,
            done.push(here),
            rows.skip(1),
            seen.skip(1),
            tail,
        );
        assert(sighting(session, seen[0]) + rest =~= replies);
        assert(done.push(here) + rows_as_seen(repos[0], rows.skip(1), seen.skip(1)) =~= done
            + rows_as_seen(repos[0], rows, seen));
        let next = list_repos(
            paths,
            workspace,
            repos.skip(1),
            done + rows_as_seen(repos[0], rows, seen),
        );
        assert(inquiry(db, session, seen[0]) + (row_inquiries(
            db,
            repos[0],
            rows.skip(1),
            seen.skip(1),
        ) + effects::asked(next, rule, tail)) =~= row_inquiries(db, repos[0], rows, seen)
            + effects::asked(next, rule, tail));
    }
}

/// What a listing over repositories hears: of each, its rows and then their processes.
pub open spec fn listing_replies(
    repos: Seq<RepositoryView>,
    rows: Seq<Seq<SessionRowView>>,
    seen: Seq<Seq<(bool, i64)>>,
) -> Seq<ReplyView>
    decreases repos.len(),
{
    if repos.len() == 0 {
        seq![]
    } else {
        seq![ReplyView::SessionRows(rows[0])] + row_sightings(repos[0], rows[0], seen[0])
            + listing_replies(repos.skip(1), rows.skip(1), seen.skip(1))
    }
}

/// What a listing over repositories has to ask for: of each, its rows and then their
/// processes.
pub open spec fn listing_effects(
    repos_dir: Seq<char>,
    workspace: Option<Seq<char>>,
    repos: Seq<RepositoryView>,
    rows: Seq<Seq<SessionRowView>>,
    seen: Seq<Seq<(bool, i64)>>,
) -> Seq<EffectView>
    decreases repos.len(),
{
    if repos.len() == 0 {
        seq![]
    } else {
        let db = paths::joined_path(repos::repository_dir(repos_dir, repos[0]), "repo.db"@);
        seq![EffectView::ListSessions { db_path: db, workspace }] + row_inquiries(
            db,
            repos[0],
            rows[0],
            seen[0],
        ) + listing_effects(repos_dir, workspace, repos.skip(1), rows.skip(1), seen.skip(1))
    }
}

/// Whether all rows of repositories can be read, with a sighting for each.
pub open spec fn all_readable(
    repos: Seq<RepositoryView>,
    rows: Seq<Seq<SessionRowView>>,
    seen: Seq<Seq<(bool, i64)>>,
) -> bool {
    &&& rows.len() == repos.len()
    &&& seen.len() == repos.len()
    &&& forall|i: int| 0 <= i < repos.len() ==> readable(repos[i], #[trigger] rows[i], seen[i])
}

/// The sessions of all rows of repositories as they are seen.
pub open spec fn all_as_seen(
    repos: Seq<RepositoryView>,
    rows: Seq<Seq<SessionRowView>>,
    seen: Seq<Seq<(bool, i64)>>,
) -> Seq<SessionView> {
    Seq::new(repos.len(), |i: int| rows_as_seen(repos[i], rows[i], seen[i])).flatten()
}

proof fn lemma_list_repos(
    paths: SwarmPathsView,
    workspace: Option<Seq<char>>,
    repos: Seq<RepositoryView>,
    done: Seq<SessionView>,
    rows: Seq<Seq<SessionRowView>>,
    seen: Seq<Seq<(bool, i64)>>,
)
    requires
        all_readable(repos, rows, seen),
    ensures
        ({
            let step = list_repos(paths, workspace, repos, done);
            let replies = listing_replies(repos, rows, seen);
            &&& effects::asked(step, list_sessions_rule(), replies) == listing_effects(
                paths.repos_dir,
                workspace,
                repos,
                rows,
                seen,
            )
            &&& effects::reached(step, list_sessions_rule(), replies) == StepView::<
                ListSessionsView,
                Seq<SessionView>,
            >::Finish(Ok(listed(workspace, done + all_as_seen(repos, rows, seen))))
        }),
    decreases repos.len(),
{
    let rule = list_sessions_rule();
    let step = list_repos(paths, workspace, repos, done);
    let replies = listing_replies(repos, rows, seen);
    let each = Seq::new(repos.len(), |i: int| rows_as_seen(repos[i], rows[i], seen[i]));
    if repos.len() == 0 {
        assert(done + all_as_seen(repos, rows, seen) =~= done);
    } else {
        assert(readable(repos[0], rows[0], seen[0]));
        let tail = listing_replies(repos.skip(1), rows.skip(1), seen.skip(1));
        let here = rows_as_seen(repos[0], rows[0], seen[0]);
        assert forall|i: int| 0 <= i < repos.skip(1).len() implies readable(
            repos.skip(1)[i],
            #[trigger] rows.skip(1)[i],
            seen.skip(1)[i],
        ) by {
            assert(rows.skip(1)[i] == rows[i + 1]);
        }
        lemma_list_rows(paths, workspace, repos, done, rows[0], seen[0], tail);
        lemma_list_repos(
            paths,
            workspace,
            repos.skip(1),
            done + here,
            rows.skip(1),
            seen.skip(1),
        );
        assert(replies.skip(1) =~= row_sightings(repos[0], rows[0], seen[0]) + tail);
        assert(replies[0] == ReplyView::SessionRows(rows[0]));
        assert(each.drop_first() =~= Seq::new(
            repos.skip(1).len(),
            |i: int| rows_as_seen(repos.skip(1)[i], rows.skip(1)[i], seen.skip(1)[i]),
        ));
        assert(each.first() == here);
        assert((done + here) + all_as_seen(repos.skip(1), rows.skip(1), seen.skip(1)) =~= done
            + all_as_seen(repos, rows, seen));
        assert(effects::asked(step, rule, replies) =~= listing_effects(
            paths.repos_dir,
            workspace,
            repos,
            rows,
            seen,
        ));
    }
}

/// A listing over all repositories asks for the sessions of every repository that is known,
/// once each and in their order, and for the processes of those sessions that have not
/// ended. Its result has the sessions of all rows, each once, as they are seen, in the order
/// of their creation.
pub proof fn law_listing_goes_over_all_repositories(
    store: RepositoryStoreView,
    rows: Seq<Seq<SessionRowView>>,
    seen: Seq<Seq<(bool, i64)>>,
)
    requires
        all_readable(store.rows, rows, seen),
    ensures
        ({
            let start = list_sessions_start(store, None);
            let replies = listing_replies(store.rows, rows, seen);
            &&& effects::asked(start, list_sessions_rule(), replies) == listing_effects(
                store.paths.repos_dir,
                None,
                store.rows,
                rows,
                seen,
            )
            &&& effects::reached(start, list_sessions_rule(), replies) matches StepView::Finish(
                Ok(result),
            )
            &&& result.to_multiset() == all_as_seen(store.rows, rows, seen).to_multiset()
            &&& forall|i: int, j: int|
                0 <= i < j < result.len() ==> (#[trigger] result[i]).created_at <= (
                #[trigger] result[j]).created_at
        }),
{
    lemma_list_repos(store.paths, None, store.rows, seq![], rows, seen);
    let all = all_as_seen(store.rows, rows, seen);
    assert(Seq::<SessionView>::empty() + all =~= all);
    sessions::law_sorting_orders_sessions(all);
}

proof fn lemma_ended_rows(
    db: Seq<char>,
    repo: RepositoryView,
    rows: Seq<SessionRowView>,
    seen: Seq<(bool, i64)>,
)
    requires
        readable(repo, rows, seen),
        forall|i: int|
            0 <= i < rows.len() ==> (#[trigger] rows[i]).status == "stopped"@ || rows[i].status
                == "failed"@ || rows[i].status == "exited"@,
    ensures
        row_sightings(repo, rows, seen) == Seq::<ReplyView>::empty(),
        row_inquiries(db, repo, rows, seen) == Seq::<EffectView>::empty(),
        rows_as_seen(repo, rows, seen) == Seq::new(
            rows.len(),
            |i: int| read_session(repo, rows[i]),
        ),
    decreases rows.len(),
{
    reveal_strlit("running");
    reveal_strlit("starting");
    reveal_strlit("stopped");
    reveal_strlit("failed");
    reveal_strlit("exited");
    assert("stopped"@[2] == 'o' && "failed"@[2] == 'i' && "exited"@[2] == 'i');
    assert("stopped"@[0] == 's' && "failed"@[0] == 'f' && "exited"@[0] == 'e');
    assert("running"@[0] == 'r' && "starting"@[0] == 's' && "starting"@[2] == 'a');
    assert forall|i: int| 0 <= i < rows.len() implies !looked_for(
        #[trigger] read_session(repo, rows[i]),
    ) by {
        assert(sessions::session_of(repo, rows[i]) is Ok);
    }
    assert(rows_as_seen(repo, rows, seen) =~= Seq::new(
        rows.len(),
        |i: int| read_session(repo, rows[i]),
    ));
    if rows.len() > 0 {
        assert(!looked_for(read_session(repo, rows[0])));
        assert forall|i: int| 0 <= i < rows.skip(1).len() implies sessions::session_of(
            repo,
            #[trigger] rows.skip(1)[i],
        ) is Ok by {
            assert(rows.skip(1)[i] == rows[i + 1]);
        }
        assert forall|i: int| 0 <= i < rows.skip(1).len() implies (
        #[trigger] rows.skip(1)[i]).status == "stopped"@ || rows.skip(1)[i].status == "failed"@
            || rows.skip(1)[i].status == "exited"@ by {
            assert(rows.skip(1)[i] == rows[i + 1]);
        }
        lemma_ended_rows(db, repo, rows.skip(1), seen.skip(1));
        assert(row_sightings(repo, rows, seen) =~= seq![]);
        assert(row_inquiries(db, repo, rows, seen) =~= seq![]);
    }
}

/// Where each repository answers with rows of sessions that have ended, a listing over all
/// repositories asks for nothing but the rows of each, and its result is exactly the
/// sessions of all these rows, in the order of their creation.
pub proof fn law_listing_gives_the_sessions_of_all_rows(
    store: RepositoryStoreView,
    rows: Seq<Seq<SessionRowView>>,
)
    requires
        rows.len() == store.rows.len(),
        forall|i: int, j: int|
            0 <= i < rows.len() && 0 <= j < rows[i].len() ==> {
                let row = #[trigger] rows[i][j];
                sessions::session_of(store.rows[i], row) is Ok && (row.status == "stopped"@
                    || row.status == "failed"@ || row.status == "exited"@)
            },
    ensures
        ({
            let start = list_sessions_start(store, None);
            let replies = Seq::new(
                rows.len(),
                |i: int| ReplyView::SessionRows(rows[i]),
            );
            &&& effects::asked(start, list_sessions_rule(), replies) == Seq::new(
                store.rows.len(),
                |i: int|
                    EffectView::ListSessions {
                        db_path: paths::joined_path(
                            repos::repository_dir(store.paths.repos_dir, store.rows[i]),
                            "repo.db"@,
                        ),
                        workspace: None,
                    },
            )
            &&& effects::reached(start, list_sessions_rule(), replies) matches StepView::Finish(
                Ok(result),
            )
            &&& result.to_multiset() == Seq::new(
                rows.len(),
                |i: int|
                    Seq::new(
                        rows[i].len(),
                        |j: int| sessions::session_of(store.rows[i], rows[i][j])->Ok_0,
                    ),
            ).flatten().to_multiset()
            &&& forall|i: int, j: int|
                0 <= i < j < result.len() ==> (#[trigger] result[i]).created_at <= (
                #[trigger] result[j]).created_at
        }),
{
    let seen = Seq::new(rows.len(), |i: int| Seq::new(rows[i].len(), |j: int| (true, 0i64)));
    assert(all_readable(store.rows, rows, seen)) by {
        assert forall|i: int| 0 <= i < store.rows.len() implies readable(
            store.rows[i],
            #[trigger] rows[i],
            seen[i],
        ) by {
            assert forall|j: int| 0 <= j < rows[i].len() implies sessions::session_of(
                store.rows[i],
                #[trigger] rows[i][j],
            ) is Ok by {}
        }
    }
    law_listing_goes_over_all_repositories(store, rows, seen);
    lemma_ended_listing(store.paths.repos_dir, store.rows, rows, seen);
    let each = Seq::new(store.rows.len(), |i: int| rows_as_seen(store.rows[i], rows[i], seen[i]));
    let all = Seq::new(
        rows.len(),
        |i: int|
            Seq::new(
                rows[i].len(),
                |j: int| sessions::session_of(store.rows[i], rows[i][j])->Ok_0,
            ),
    );
    assert forall|i: int| 0 <= i < each.len() implies #[trigger] each[i] == all[i] by {
        assert(readable(store.rows[i], rows[i], seen[i]));
        assert forall|j: int| 0 <= j < rows[i].len() implies (
        #[trigger] rows[i][j]).status == "stopped"@ || rows[i][j].status == "failed"@
            || rows[i][j].status == "exited"@ by {}
        lemma_ended_rows(""@, store.rows[i], rows[i], seen[i]);
        assert(each[i] =~= all[i]);
    }
    assert(each =~= all);
}

proof fn lemma_ended_listing(
    repos_dir: Seq<char>,
    repos: Seq<RepositoryView>,
    rows: Seq<Seq<SessionRowView>>,
    seen: Seq<Seq<(bool, i64)>>,
)
    requires
        all_readable(repos, rows, seen),
        forall|i: int, j: int|
            0 <= i < rows.len() && 0 <= j < rows[i].len() ==> (
            #[trigger] rows[i][j]).status == "stopped"@ || rows[i][j].status == "failed"@
                || rows[i][j].status == "exited"@,
    ensures
        listing_replies(repos, rows, seen) == Seq::new(
            rows.len(),
            |i: int| ReplyView::SessionRows(rows[i]),
        ),
        listing_effects(repos_dir, None, repos, rows, seen) == Seq::new(
            repos.len(),
            |i: int|
                EffectView::ListSessions {
                    db_path: paths::joined_path(
                        repos::repository_dir(repos_dir, repos[i]),
                        "repo.db"@,
                    ),
                    workspace: None,
                },
        ),
    decreases repos.len(),
{
    let replies = Seq::new(rows.len(), |i: int| ReplyView::SessionRows(rows[i]));
    let effects = Seq::new(
        repos.len(),
        |i: int|
            EffectView::ListSessions {
                db_path: paths::joined_path(repos::repository_dir(repos_dir, repos[i]), "repo.db"@),
                workspace: None,
            },
    );
    if repos.len() > 0 {
        assert(readable(repos[0], rows[0], seen[0]));
        assert forall|j: int| 0 <= j < rows[0].len() implies (
        #[trigger] rows[0][j]).status == "stopped"@ || rows[0][j].status == "failed"@
            || rows[0][j].status == "exited"@ by {}
        let db = paths::joined_path(repos::repository_dir(repos_dir, repos[0]), "repo.db"@);
        lemma_ended_rows(db, repos[0], rows[0], seen[0]);
        assert forall|i: int| 0 <= i < repos.skip(1).len() implies readable(
            repos.skip(1)[i],
            #[trigger] rows.skip(1)[i],
            seen.skip(1)[i],
        ) by {
            assert(rows.skip(1)[i] == rows[i + 1]);
        }
        assert forall|i: int, j: int|
            0 <= i < rows.skip(1).len() && 0 <= j < rows.skip(1)[i].len() implies (
        #[trigger] rows.skip(1)[i][j]).status == "stopped"@ || rows.skip(1)[i][j].status
            == "failed"@ || rows.skip(1)[i][j].status == "exited"@ by {
            assert(rows.skip(1)[i][j] == rows[i + 1][j]);
        }
        lemma_ended_listing(repos_dir, repos.skip(1), rows.skip(1), seen.skip(1));
        assert(listing_replies(repos, rows, seen) =~= replies);
        assert(listing_effects(repos_dir, None, repos, rows, seen) =~= effects);
    } else {
        assert(listing_replies(repos, rows, seen) =~= replies);
        assert(listing_effects(repos_dir, None, repos, rows, seen) =~= effects);
    }
}

/// A listing for a workspace resolves the workspace and asks for the rows of that workspace
/// in its repository alone. Its result has their sessions as they are seen, in the order of
/// the rows.
pub proof fn law_listing_for_a_workspace(
    store: RepositoryStoreView,
    reference: Seq<char>,
    repo: RepositoryView,
    workspace: WorkspaceView,
    rows: Seq<SessionRowView>,
    seen: Seq<(bool, i64)>,
)
    requires
        readable(repo, rows, seen),
    ensures
        ({
            let start = list_sessions_start(store, Some(reference));
            let replies = seq![
                ReplyView::Resolved { repo, workspace },
                ReplyView::SessionRows(rows),
            ] + row_sightings(repo, rows, seen);
            let db = paths::joined_path(
                repos::repository_dir(store.paths.repos_dir, repo),
                "repo.db"@,
            );
            &&& effects::asked(start, list_sessions_rule(), replies) == seq![
                EffectView::ResolveWorkspace(reference),
                EffectView::ListSessions { db_path: db, workspace: Some(workspace.name) },
            ] + row_inquiries(db, repo, rows, seen)
            &&& effects::reached(start, list_sessions_rule(), replies) == StepView::<
                ListSessionsView,
                Seq<SessionView>,
            >::Finish(
                Ok(Seq::new(rows.len(), |i: int| as_seen(read_session(repo, rows[i]), seen[i]))),
            )
        }),
{
    let rule = list_sessions_rule();
    let start = list_sessions_start(store, Some(reference));
    let named = Some(workspace.name);
    let rest = seq![ReplyView::SessionRows(rows)] + row_sightings(repo, rows, seen);
    let replies = seq![
        ReplyView::Resolved { repo, workspace },
        ReplyView::SessionRows(rows),
    ] + row_sightings(repo, rows, seen);
    let db = paths::joined_path(repos::repository_dir(store.paths.repos_dir, repo), "repo.db"@);
    assert(all_readable(seq![repo], seq![rows], seq![seen]));
    lemma_list_repos(store.paths, named, seq![repo], seq![], seq![rows], seq![seen]);
    assert(seq![repo].skip(1) =~= seq![]);
    reveal_with_fuel(listing_replies, 2);
    reveal_with_fuel(listing_effects, 2);
    assert(listing_replies(seq![repo], seq![rows], seq![seen]) =~= rest);
    assert(replies.skip(1) =~= rest);
    let next = list_repos(store.paths, named, seq![repo], seq![]);
    assert(list_sessions_next(start->Run_1, replies[0]) == next);
    assert(effects::asked(start, rule, replies) =~= seq![
        EffectView::ResolveWorkspace(reference),
        EffectView::ListSessions { db_path: db, workspace: named },
    ] + row_inquiries(db, repo, rows, seen));
    let each = Seq::new(
        1,
        |i: int| rows_as_seen(seq![repo][i], seq![rows][i], seq![seen][i]),
    );
    assert(each =~= seq![rows_as_seen(repo, rows, seen)]);
    each.lemma_flatten_one_element();
    assert(Seq::<SessionView>::empty() + each.flatten() =~= rows_as_seen(repo, rows, seen));
}

/// How an operation on a session goes on.
pub open spec fn op_rule() -> spec_fn(SessionOpView, ReplyView) -> StepView<
    SessionOpView,
    SessionView,
> {
    |s: SessionOpView, reply: ReplyView| op_next(s, reply)
}

proof fn lemma_find(
    paths: SwarmPathsView,
    task: SessionTask,
    id: Seq<char>,
    repos: Seq<RepositoryView>,
    k: nat,
    tail: Seq<ReplyView>,
)
    requires
        k < repos.len(),
    ensures
        ({
            let step = |repos: Seq<RepositoryView>| StepView::<SessionOpView, SessionView>::Run(
                EffectView::FindSession { db_path: db_path(paths, repos[0]), id },
                op_in(task, SessionPhaseView::Finding(FindView { paths, id, repos })),
            );
            let replies = Seq::new(k, |i: int| ReplyView::FoundSession(None)) + tail;
            &&& effects::asked(step(repos), op_rule(), replies) == Seq::new(
                k,
                |i: int| EffectView::FindSession { db_path: db_path(paths, repos[i]), id },
            ) + effects::asked(step(repos.skip(k as int)), op_rule(), tail)
            &&& effects::reached(step(repos), op_rule(), replies) == effects::reached(
                step(repos.skip(k as int)),
                op_rule(),
                tail,
            )
        }),
    decreases k,
{
    let step = |repos: Seq<RepositoryView>| StepView::<SessionOpView, SessionView>::Run(
        EffectView::FindSession { db_path: db_path(paths, repos[0]), id },
        op_in(task, SessionPhaseView::Finding(FindView { paths, id, repos })),
    );
    let none = ReplyView::FoundSession(None);
    let replies = Seq::new(k, |i: int| none) + tail;
    let asks = Seq::new(
        k,
        |i: int| EffectView::FindSession { db_path: db_path(paths, repos[i]), id },
    );
    if k == 0 {
        assert(replies =~= tail);
        assert(repos.skip(0) =~= repos);
        assert(asks + effects::asked(step(repos), op_rule(), tail) =~= effects::asked(
            step(repos),
            op_rule(),
            tail,
        ));
    } else {
        let fewer = (k - 1) as nat;
        lemma_find(paths, task, id, repos.skip(1), fewer, tail);
        reveal(op_next);
        assert(op_next(step(repos)->Run_1, none) == step(repos.skip(1)));
        assert(replies[0] == none);
        assert(replies.skip(1) =~= Seq::new(fewer, |i: int| none) + tail);
        assert(repos.skip(1).skip(fewer as int) =~= repos.skip(k as int));
        assert(effects::asked(step(repos), op_rule(), replies) =~= asks + effects::asked(
            step(repos.skip(k as int)),
            op_rule(),
            tail,
        ));
    }
}

/// Whatever is done with a session, it is looked for by its identifier in one repository
/// after the other, in their order, until one has it, and then the operation goes on with
/// the session that this repository's row records.
pub proof fn law_session_is_looked_for_in_order(
    store: RepositoryStoreView,
    task: SessionTask,
    id: Seq<char>,
    k: nat,
    row: SessionRowView,
    session: SessionView,
    tail: Seq<ReplyView>,
)
    requires
        k < store.rows.len(),
        sessions::session_of(store.rows[k as int], row) == Ok::<_, SwarmErrorView>(session),
    ensures
        ({
            let db = |i: int|
                paths::joined_path(
                    repos::repository_dir(store.paths.repos_dir, store.rows[i]),
                    "repo.db"@,
                );
            let start = op_start(store, task, id);
            let replies = Seq::new(k, |i: int| ReplyView::FoundSession(None)) + seq![
                ReplyView::FoundSession(Some(row)),
            ] + tail;
            let next = op_found(task, FoundSessionView { db_path: db(k as int), session });
            &&& effects::asked(start, op_rule(), replies) == Seq::new(
                k + 1,
                |i: int| EffectView::FindSession { db_path: db(i), id },
            ) + effects::asked(next, op_rule(), tail)
            &&& effects::reached(start, op_rule(), replies) == effects::reached(
                next,
                op_rule(),
                tail,
            )
        }),
{
    let start = op_start(store, task, id);
    let some = ReplyView::FoundSession(Some(row));
    let rest = seq![some] + tail;
    let replies = Seq::new(k, |i: int| ReplyView::FoundSession(None)) + seq![some] + tail;
    assert(replies =~= Seq::new(k, |i: int| ReplyView::FoundSession(None)) + rest);
    lemma_find(store.paths, task, id, store.rows, k, rest);
    let left = store.rows.skip(k as int);
    let found = FoundSessionView { db_path: db_path(store.paths, store.rows[k as int]), session };
    let here = op_in(
        task,
        SessionPhaseView::Finding(FindView { paths: store.paths, id, repos: left }),
    );
    reveal(op_next);
    assert(left[0] == store.rows[k as int]);
    assert(op_next(here, some) == op_found(task, found));
    assert(rest.skip(1) =~= tail);
    assert(rest[0] == some);
    assert(effects::asked(start, op_rule(), replies) =~= Seq::new(
        k + 1,
        |i: int| EffectView::FindSession { db_path: db_path(store.paths, store.rows[i]), id },
    ) + effects::asked(op_found(task, found), op_rule(), tail));
}

/// A session that no repository has is not found, once every repository was asked.
pub proof fn law_unknown_session_is_not_found(
    store: RepositoryStoreView,
    task: SessionTask,
    id: Seq<char>,
)
    ensures
        ({
            let replies = Seq::new(
                store.rows.len(),
                |i: int| ReplyView::FoundSession(None),
            );
            &&& effects::asked(op_start(store, task, id), op_rule(), replies) == Seq::new(
                store.rows.len(),
                |i: int|
                    EffectView::FindSession {
                        db_path: paths::joined_path(
                            repos::repository_dir(store.paths.repos_dir, store.rows[i]),
                            "repo.db"@,
                        ),
                        id,
                    },
            )
            &&& effects::reached(op_start(store, task, id), op_rule(), replies) == StepView::<
                SessionOpView,
                SessionView,
            >::Finish(Err(SwarmErrorView::SessionNotFound(id)))
        }),
{
    let none = ReplyView::FoundSession(None);
    let n = store.rows.len();
    let replies = Seq::new(n, |i: int| none);
    let asks = Seq::new(
        n,
        |i: int| EffectView::FindSession { db_path: db_path(store.paths, store.rows[i]), id },
    );
    if n == 0 {
        assert(effects::asked(op_start(store, task, id), op_rule(), replies) =~= asks);
    } else {
        let k = (n - 1) as nat;
        let tail = seq![none];
        lemma_find(store.paths, task, id, store.rows, k, tail);
        assert(replies =~= Seq::new(k, |i: int| none) + tail);
        let left = store.rows.skip(k as int);
        let here = op_in(
            task,
            SessionPhaseView::Finding(FindView { paths: store.paths, id, repos: left }),
        );
        reveal(op_next);
        reveal_with_fuel(effects::asked, 2);
        reveal_with_fuel(effects::reached, 2);
        assert(left.skip(1).len() == 0);
        assert(op_next(here, none) == StepView::<SessionOpView, SessionView>::Finish(
            Err(SwarmErrorView::SessionNotFound(id)),
        ));
        assert(effects::asked(op_start(store, task, id), op_rule(), replies) =~= asks);
    }
}

#[verifier::spinoff_prover]
#[verifier::rlimit(60)]
proof fn lemma_op_refresh(task: SessionTask, found: FoundSessionView, seen: (bool, i64), tail: Seq<
    ReplyView,
>)
    requires
        task != SessionTask::Stop,
    ensures
        ({
            let next = op_current(task, found.db_path, as_seen(found.session, seen));
            let replies = sighting(found.session, seen) + tail;
            &&& effects::asked(op_found(task, found), op_rule(), replies) == inquiry(
                found.db_path,
                found.session,
                seen,
            ) + effects::asked(next, op_rule(), tail)
            &&& effects::reached(op_found(task, found), op_rule(), replies) == effects::reached(
                next,
                op_rule(),
                tail,
            )
        }),
{
    let session = found.session;
    let step = op_found(task, found);
    let next = op_current(task, found.db_path, as_seen(session, seen));
    let replies = sighting(session, seen) + tail;
    let asks = inquiry(found.db_path, session, seen);
    let rule = op_rule();
    let rest = effects::asked(next, rule, tail);
    let db = found.db_path;
    let looking = |refresh: RefreshView|
        op_in(task, SessionPhaseView::Refreshing { db_path: db, refresh });
    reveal(op_next);
    if !looked_for(session) {
        assert(replies =~= tail);
        assert(step == next);
        assert(asks + rest =~= rest);
    } else {
        let ask = EffectView::ProcessExists(session.pid->0);
        let checking = looking(RefreshView::Checking(found));
        assert(step == StepView::<SessionOpView, SessionView>::Run(ask, checking));
        if seen.0 {
            assert(replies =~= seq![ReplyView::Exists(true)] + tail);
            effects::lemma_one_reply(ask, checking, rule, ReplyView::Exists(true), tail);
            assert(op_next(checking, ReplyView::Exists(true)) == next);
            assert(asks =~= seq![ask]);
        } else {
            let stopped_at = if session.stopped_at is Some {
                session.stopped_at->0
            } else {
                seen.1
            };
            let end = EffectView::EndSession {
                db_path: db,
                id: session.id,
                status: "exited"@,
                stopped_at,
            };
            let last = seq![ReplyView::Done] + tail;
            let recording = looking(RefreshView::Recording(gone(session, stopped_at)));
            effects::lemma_one_reply(end, recording, rule, ReplyView::Done, tail);
            assert(op_next(recording, ReplyView::Done) == next);
            if session.stopped_at is Some {
                assert(replies =~= seq![ReplyView::Exists(false)] + last);
                effects::lemma_one_reply(ask, checking, rule, ReplyView::Exists(false), last);
                assert(op_next(checking, ReplyView::Exists(false)) == StepView::<
                    SessionOpView,
                    SessionView,
                >::Run(end, recording));
                assert(seq![ask] + (seq![end] + rest) =~= asks + rest);
            } else {
                let clock = seq![ReplyView::Clock(seen.1)] + last;
                let stamping = looking(RefreshView::Stamping(found));
                assert(replies =~= seq![ReplyView::Exists(false)] + clock);
                effects::lemma_one_reply(ask, checking, rule, ReplyView::Exists(false), clock);
                effects::lemma_one_reply(
                    EffectView::ReadClock,
                    stamping,
                    rule,
                    ReplyView::Clock(seen.1),
                    last,
                );
                assert(op_next(stamping, ReplyView::Clock(seen.1)) == StepView::<
                    SessionOpView,
                    SessionView,
                >::Run(end, recording));
                assert(seq![ask] + (seq![EffectView::ReadClock] + (seq![end] + rest)) =~= asks
                    + rest);
            }
        }
    }
}

/// A look at a session asks for its process where the session has not ended, and gives the
/// session as it is seen.
pub proof fn law_look_written_out(found: FoundSessionView, seen: (bool, i64))
    ensures
        ({
            let step = op_found(SessionTask::Inspect, found);
            let replies = sighting(found.session, seen);
            &&& effects::asked(step, op_rule(), replies) == inquiry(
                found.db_path,
                found.session,
                seen,
            )
            &&& effects::reached(step, op_rule(), replies) == StepView::<
                SessionOpView,
                SessionView,
            >::Finish(Ok(as_seen(found.session, seen)))
        }),
{
    let none = Seq::<ReplyView>::empty();
    lemma_op_refresh(SessionTask::Inspect, found, seen, none);
    assert(sighting(found.session, seen) + none =~= sighting(found.session, seen));
    let asks = inquiry(found.db_path, found.session, seen);
    assert(asks + Seq::<EffectView>::empty() =~= asks);
}

/// Stopping a session that has not ended ends its process where it is known, and records
/// under its identifier, in its own database, that it was stopped at the time that was
/// heard. A session that has ended stays as it is.
pub proof fn law_stop_written_out(found: FoundSessionView, now: i64)
    ensures
        ({
            let step = op_found(SessionTask::Stop, found);
            let session = found.session;
            let live = session.status == "running"@ || session.status == "starting"@;
            let end = EffectView::EndSession {
                db_path: found.db_path,
                id: session.id,
                status: "stopped"@,
                stopped_at: now,
            };
            let stopped = SessionView {
                status: "stopped"@,
                pid: None,
                stopped_at: Some(now),
                ..session
            };
            let known = seq![ReplyView::Done, ReplyView::Clock(now), ReplyView::Done];
            let unknown = seq![ReplyView::Clock(now), ReplyView::Done];
            &&& !live ==> step == StepView::<SessionOpView, SessionView>::Finish(Ok(session))
            &&& live && session.pid is Some ==> effects::asked(step, op_rule(), known) == seq![
                EffectView::Terminate(session.pid->0),
                EffectView::ReadClock,
                end,
            ] && effects::reached(step, op_rule(), known) == StepView::<
                SessionOpView,
                SessionView,
            >::Finish(Ok(stopped))
            &&& live && session.pid is None ==> effects::asked(step, op_rule(), unknown) == seq![
                EffectView::ReadClock,
                end,
            ] && effects::reached(step, op_rule(), unknown) == StepView::<
                SessionOpView,
                SessionView,
            >::Finish(Ok(stopped))
        }),
{
    let step = op_found(SessionTask::Stop, found);
    let session = found.session;
    let end = EffectView::EndSession {
        db_path: found.db_path,
        id: session.id,
        status: "stopped"@,
        stopped_at: now,
    };
    let known = seq![ReplyView::Done, ReplyView::Clock(now), ReplyView::Done];
    let unknown = seq![ReplyView::Clock(now), ReplyView::Done];
    reveal(op_next);
    reveal_with_fuel(effects::asked, 5);
    reveal_with_fuel(effects::reached, 5);
    assert(known.skip(1).skip(1).skip(1).len() == 0);
    assert(unknown.skip(1).skip(1).len() == 0);
    if sessions::is_live(session.status) {
        if session.pid is Some {
            assert(effects::asked(step, op_rule(), known) =~= seq![
                EffectView::Terminate(session.pid->0),
                EffectView::ReadClock,
                end,
            ]);
        } else {
            assert(effects::asked(step, op_rule(), unknown) =~= seq![EffectView::ReadClock, end]);
        }
    }
}

/// Removing a session looks at it first. One that has not ended is refused; of another one
/// the row is deleted and then its directory is removed, where there is one.
#[verifier::spinoff_prover]
#[verifier::rlimit(60)]
pub proof fn law_remove_session_written_out(
    found: FoundSessionView,
    seen: (bool, i64),
    exists: bool,
)
    ensures
        ({
            let step = op_found(SessionTask::Remove, found);
            let session = as_seen(found.session, seen);
            let look = sighting(found.session, seen);
            let asks = inquiry(found.db_path, found.session, seen);
            let live = session.status == "running"@ || session.status == "starting"@;
            let replies = look + seq![ReplyView::Done, ReplyView::Exists(exists)] + if exists {
                seq![ReplyView::Done]
            } else {
                seq![]
            };
            &&& live ==> effects::asked(step, op_rule(), look) == asks && effects::reached(
                step,
                op_rule(),
                look,
            ) == StepView::<SessionOpView, SessionView>::Finish(
                Err(SwarmErrorView::SessionRunning(session.id)),
            )
            &&& !live ==> effects::asked(step, op_rule(), replies) == asks + seq![
                EffectView::DeleteSession { db_path: found.db_path, id: session.id },
                EffectView::PathExists(session.path),
            ] + (if exists {
                seq![EffectView::RemoveDir(session.path)]
            } else {
                seq![]
            }) && effects::reached(step, op_rule(), replies) == StepView::<
                SessionOpView,
                SessionView,
            >::Finish(Ok(session))
        }),
{
    let step = op_found(SessionTask::Remove, found);
    let session = as_seen(found.session, seen);
    let look = sighting(found.session, seen);
    let asks = inquiry(found.db_path, found.session, seen);
    let none = Seq::<ReplyView>::empty();
    let tail = seq![ReplyView::Done, ReplyView::Exists(exists)] + if exists {
        seq![ReplyView::Done]
    } else {
        seq![]
    };
    let replies = look + seq![ReplyView::Done, ReplyView::Exists(exists)] + if exists {
        seq![ReplyView::Done]
    } else {
        seq![]
    };
    lemma_op_refresh(SessionTask::Remove, found, seen, none);
    lemma_op_refresh(SessionTask::Remove, found, seen, tail);
    assert(look + none =~= look);
    assert(look + tail =~= replies);
    let next = op_current(SessionTask::Remove, found.db_path, session);
    reveal(op_next);
    if sessions::is_live(session.status) {
        assert(asks + effects::asked(next, op_rule(), none) =~= asks);
    } else {
        reveal_with_fuel(effects::asked, 5);
        reveal_with_fuel(effects::reached, 5);
        assert(tail.skip(1)[0] == ReplyView::Exists(exists));
        if exists {
            assert(tail.skip(1).skip(1)[0] == ReplyView::Done);
            assert(tail.skip(1).skip(1).skip(1).len() == 0);
        } else {
            assert(tail.skip(1).skip(1).len() == 0);
        }
        assert(effects::asked(step, op_rule(), replies) =~= asks + seq![
            EffectView::DeleteSession { db_path: found.db_path, id: session.id },
            EffectView::PathExists(session.path),
        ] + (if exists {
            seq![EffectView::RemoveDir(session.path)]
        } else {
            seq![]
        }));
    }
}

/// Attaching to a session looks at it first. One that runs is attached to at its own
/// socket, where there is one; of every other one its own log is shown.
#[verifier::spinoff_prover]
#[verifier::rlimit(60)]
pub proof fn law_attach_written_out(found: FoundSessionView, seen: (bool, i64), exists: bool)
    ensures
        ({
            let step = op_found(SessionTask::Attach, found);
            let session = as_seen(found.session, seen);
            let look = sighting(found.session, seen);
            let asks = inquiry(found.db_path, found.session, seen);
            let running = session.status == "running"@;
            let replies = look + (if running {
                seq![ReplyView::Exists(exists)]
            } else {
                seq![]
            }) + seq![ReplyView::Done];
            &&& effects::asked(step, op_rule(), replies) == asks + (if running {
                seq![EffectView::PathExists(session.socket_path)]
            } else {
                seq![]
            }) + seq![
                if running && exists {
                    EffectView::AttachSocket(session.socket_path)
                } else {
                    EffectView::PrintFile(session.log_path)
                },
            ]
            &&& effects::reached(step, op_rule(), replies) == StepView::<
                SessionOpView,
                SessionView,
            >::Finish(Ok(session))
        }),
{
    let step = op_found(SessionTask::Attach, found);
    let session = as_seen(found.session, seen);
    let look = sighting(found.session, seen);
    let asks = inquiry(found.db_path, found.session, seen);
    let running = session.status == "running"@;
    let first: Seq<ReplyView> = if running {
        seq![ReplyView::Exists(exists)]
    } else {
        seq![]
    };
    let tail = first + seq![ReplyView::Done];
    let replies = look + first + seq![ReplyView::Done];
    lemma_op_refresh(SessionTask::Attach, found, seen, tail);
    assert(look + tail =~= replies);
    reveal(op_next);
    reveal_with_fuel(effects::asked, 4);
    reveal_with_fuel(effects::reached, 4);
    if running {
        assert(tail.skip(1)[0] == ReplyView::Done);
        assert(tail.skip(1).skip(1).len() == 0);
    } else {
        assert(tail.skip(1).len() == 0);
    }
    assert(effects::asked(step, op_rule(), replies) =~= asks + (if running {
        seq![EffectView::PathExists(session.socket_path)]
    } else {
        seq![]
    }) + seq![
        if running && exists {
            EffectView::AttachSocket(session.socket_path)
        } else {
            EffectView::PrintFile(session.log_path)
        },
    ]);
}

/// Pruning removes sessions that have ended and no others: what it asks for first, for the
/// first session of a list whose status is `stopped`, `failed` or `exited`, is what the
/// removal of this session asks for, and the sessions behind it are left to do. With none
/// such, it ends with the number of those that are gone.
pub proof fn law_pruning_begins_with_the_first_that_ended(
    repos: RepositoryStoreView,
    removed: Seq<Seq<char>>,
    before: Seq<SessionView>,
    session: SessionView,
    after: Seq<SessionView>,
)
    requires
        repos.rows.len() > 0,
        forall|i: int|
            0 <= i < before.len() ==> (#[trigger] before[i]).status != "stopped"@
                && before[i].status != "failed"@ && before[i].status != "exited"@,
        session.status == "stopped"@ || session.status == "failed"@ || session.status
            == "exited"@,
    ensures
        ({
            &&& prune_rest(repos, removed, before + seq![session] + after) matches StepView::Run(
                effect,
                s,
            )
            &&& op_start(repos, SessionTask::Remove, session.id) matches StepView::Run(first, op)
            &&& effect == first
            &&& s == (PruneSessionsView {
                repos,
                removed,
                phase: PrunePhaseView::Removing { op, id: session.id, rest: after },
            })
        }),
        prune_rest(repos, removed, before) == StepView::<PruneSessionsView, usize>::Finish(
            Ok(removed.len() as usize),
        ),
    decreases before.len(),
{
    let all = before + seq![session] + after;
    if before.len() == 0 {
        assert(all[0] == session);
        assert(all.skip(1) =~= after);
    } else {
        assert(all[0] == before[0]);
        assert(all.skip(1) =~= before.skip(1) + seq![session] + after);
        assert forall|i: int| 0 <= i < before.skip(1).len() implies (
        #[trigger] before.skip(1)[i]).status != "stopped"@ && before.skip(1)[i].status
            != "failed"@ && before.skip(1)[i].status != "exited"@ by {
            assert(before.skip(1)[i] == before[i + 1]);
        }
        law_pruning_begins_with_the_first_that_ended(
            repos,
            removed,
            before.skip(1),
            session,
            after,
        );
    }
}

/// Pruning lists the sessions of all repositories first, and begins to remove once it has
/// the list.
pub proof fn law_pruning_goes_over_the_listing(
    repos: RepositoryStoreView,
    s: PruneSessionsView,
    list: ListSessionsView,
    reply: ReplyView,
)
    requires
        s.phase == PrunePhaseView::Listing(list),
    ensures
        match list_sessions_next(list, reply) {
            StepView::Run(effect, next) => prune_next(s, reply) == StepView::<
                PruneSessionsView,
                usize,
            >::Run(
                effect,
                PruneSessionsView {
                    repos: s.repos,
                    removed: seq![],
                    phase: PrunePhaseView::Listing(next),
                },
            ),
            StepView::Finish(Ok(sessions)) => prune_next(s, reply) == prune_rest(
                s.repos,
                seq![],
                sessions,
            ),
            StepView::Finish(Err(e)) => prune_next(s, reply) == StepView::<
                PruneSessionsView,
                usize,
            >::Finish(Err(e)),
            StepView::Mismatch => prune_next(s, reply) is Mismatch,
        },
{
}

/// How the start of a session goes on.
pub open spec fn start_rule() -> spec_fn(StartSessionView, ReplyView) -> StepView<
    StartSessionView,
    SessionView,
> {
    |s: StartSessionView, reply: ReplyView| start_next(s, reply)
}

/// The session that a command in a workspace begins as: named by the time, in a directory
/// of its own name, with its log and its socket there, without a process and an end.
pub open spec fn new_session(
    repos_dir: Seq<char>,
    repo: RepositoryView,
    workspace: WorkspaceView,
    id: Seq<char>,
    command: Seq<Seq<char>>,
    now: i64,
) -> SessionView {
    let all = paths::joined_path(repos::repository_dir(repos_dir, repo), "sessions"@);
    let path = paths::joined_path(all, id);
    SessionView {
        id,
        repository: repo.host + "/"@ + repo.owner + "/"@ + repo.name,
        repository_alias: if repo.alias is Some {
            repo.alias->0
        } else {
            repo.name
        },
        workspace: workspace.name,
        command,
        path,
        log_path: paths::joined_path(path, "log"@),
        socket_path: paths::joined_path(path, "sock"@),
        pid: None,
        status: "starting"@,
        exit_code: None,
        created_at: now,
        stopped_at: None,
    }
}

/// A command starts in a workspace in these steps: the workspace is resolved, the session is
/// named by the time, its directory gets its logs and loses what an earlier process left, it
/// is recorded as starting, and its supervisor is spawned with all that it serves. Then its
/// sign of life is looked for.
#[verifier::spinoff_prover]
#[verifier::rlimit(60)]
pub proof fn law_start_written_out(
    repos: RepositoryStoreView,
    reference: Seq<char>,
    command: Seq<Seq<char>>,
    repo: RepositoryView,
    workspace: WorkspaceView,
    secs: u64,
    millis: u32,
    now: i64,
    since: u64,
)
    requires
        command.len() > 0,
    ensures
        ({
            let id = "s"@ + text::hex(secs as nat) + text::hex(millis as nat);
            let db = paths::joined_path(
                repos::repository_dir(repos.paths.repos_dir, repo),
                "repo.db"@,
            );
            let session = new_session(repos.paths.repos_dir, repo, workspace, id, command, now);
            let start = start_start(repos, reference, command);
            let replies = seq![
                ReplyView::Resolved { repo, workspace },
                ReplyView::Time { secs, millis },
                ReplyView::Done,
                ReplyView::Clock(now),
                ReplyView::Done,
                ReplyView::Done,
                ReplyView::Instant(since),
            ];
            &&& effects::asked(start, start_rule(), replies) == seq![
                EffectView::ResolveWorkspace(reference),
                EffectView::ReadTime,
                EffectView::MakeFiles {
                    dir: session.path,
                    keep: seq![
                        paths::joined_path(session.path, "log"@),
                        paths::joined_path(session.path, "supervisor.log"@),
                    ],
                    clear: seq![
                        paths::joined_path(session.path, "child.pid"@),
                        paths::joined_path(session.path, "ready"@),
                    ],
                },
                EffectView::ReadClock,
                EffectView::InsertSession {
                    db_path: db,
                    record: SessionRowView {
                        id,
                        workspace_name: workspace.name,
                        command_json: sessions::json_list_text(command),
                        path: session.path,
                        log_path: session.log_path,
                        socket_path: session.socket_path,
                        pid: None,
                        status: "starting"@,
                        exit_code: None,
                        created_at: now,
                        stopped_at: None,
                    },
                },
                EffectView::SpawnSupervisor {
                    log_path: paths::joined_path(session.path, "supervisor.log"@),
                    args: seq![
                        "session"@,
                        "serve"@,
                        session.repository,
                        db,
                        workspace.name,
                        id,
                        session.path,
                        workspace.path,
                        "--"@,
                    ] + command,
                },
                EffectView::ReadInstant,
                EffectView::PathExists(paths::joined_path(session.path, "ready"@)),
            ]
            &&& effects::reached(start, start_rule(), replies) matches StepView::Run(_, s)
            &&& s == (StartSessionView {
                repos,
                command,
                phase: StartPhaseView::Probing {
                    job: SessionJobView { repo, workspace, db_path: db, session },
                    since,
                },
            })
        }),
{
    let id = sessions::session_id(secs as nat, millis as nat);
    let job = new_job(repos, repo, workspace, id, command, now);
    let none = Seq::<ReplyView>::empty();
    let tail = seq![ReplyView::Done, ReplyView::Done, ReplyView::Instant(since)];
    let head = seq![
        ReplyView::Resolved { repo, workspace },
        ReplyView::Time { secs, millis },
        ReplyView::Done,
        ReplyView::Clock(now),
    ];
    lemma_start_records(repos, reference, command, repo, workspace, secs, millis, now, tail);
    lemma_start_spawns(repos, command, job, since);
    assert(head + tail =~= seq![
        ReplyView::Resolved { repo, workspace },
        ReplyView::Time { secs, millis },
        ReplyView::Done,
        ReplyView::Clock(now),
        ReplyView::Done,
        ReplyView::Done,
        ReplyView::Instant(since),
    ]);
    let e0 = EffectView::ResolveWorkspace(reference);
    let e2 = make_files(job.session.path);
    let e4 = EffectView::InsertSession {
        db_path: job.db_path,
        record: sessions::starting_row(job.session, sessions::json_list_text(command)),
    };
    let e5 = EffectView::SpawnSupervisor {
        log_path: paths::joined_path(job.session.path, "supervisor.log"@),
        args: sessions::serve_args(repo, job.db_path, workspace, job.session),
    };
    let e7 = EffectView::PathExists(paths::joined_path(job.session.path, "ready"@));
    assert(seq![e0, EffectView::ReadTime, e2, EffectView::ReadClock] + seq![
        e4,
        e5,
        EffectView::ReadInstant,
        e7,
    ] =~= seq![
        e0,
        EffectView::ReadTime,
        e2,
        EffectView::ReadClock,
        e4,
        e5,
        EffectView::ReadInstant,
        e7,
    ]);
}

/// What is known of a session once it is recorded.
spec fn new_job(
    repos: RepositoryStoreView,
    repo: RepositoryView,
    workspace: WorkspaceView,
    id: Seq<char>,
    command: Seq<Seq<char>>,
    now: i64,
) -> SessionJobView {
    SessionJobView {
        repo,
        workspace,
        db_path: db_path(repos.paths, repo),
        session: sessions::prepared(sessions_dir(repos, repo), repo, workspace, id, command, now),
    }
}

/// The step that records a new session.
spec fn recording_step(
    repos: RepositoryStoreView,
    command: Seq<Seq<char>>,
    job: SessionJobView,
) -> StepView<StartSessionView, SessionView> {
    StepView::Run(
        EffectView::InsertSession {
            db_path: job.db_path,
            record: sessions::starting_row(job.session, sessions::json_list_text(command)),
        },
        StartSessionView { repos, command, phase: StartPhaseView::Inserting(job) },
    )
}

#[verifier::spinoff_prover]
#[verifier::rlimit(60)]
proof fn lemma_start_records(
    repos: RepositoryStoreView,
    reference: Seq<char>,
    command: Seq<Seq<char>>,
    repo: RepositoryView,
    workspace: WorkspaceView,
    secs: u64,
    millis: u32,
    now: i64,
    tail: Seq<ReplyView>,
)
    requires
        command.len() > 0,
    ensures
        ({
            let id = sessions::session_id(secs as nat, millis as nat);
            let job = new_job(repos, repo, workspace, id, command, now);
            let next = recording_step(repos, command, job);
            let start = start_start(repos, reference, command);
            let replies = seq![
                ReplyView::Resolved { repo, workspace },
                ReplyView::Time { secs, millis },
                ReplyView::Done,
                ReplyView::Clock(now),
            ] + tail;
            &&& effects::asked(start, start_rule(), replies) == seq![
                EffectView::ResolveWorkspace(reference),
                EffectView::ReadTime,
                make_files(job.session.path),
                EffectView::ReadClock,
            ] + effects::asked(next, start_rule(), tail)
            &&& effects::reached(start, start_rule(), replies) == effects::reached(
                next,
                start_rule(),
                tail,
            )
        }),
{
    let id = sessions::session_id(secs as nat, millis as nat);
    let job = new_job(repos, repo, workspace, id, command, now);
    let next = recording_step(repos, command, job);
    let rule = start_rule();
    let at = |phase: StartPhaseView| StartSessionView { repos, command, phase };
    let e0 = EffectView::ResolveWorkspace(reference);
    let e2 = make_files(job.session.path);
    let r0 = ReplyView::Resolved { repo, workspace };
    let r1 = ReplyView::Time { secs, millis };
    let t3 = seq![ReplyView::Clock(now)] + tail;
    let t2 = seq![ReplyView::Done] + t3;
    let t1 = seq![r1] + t2;
    assert(seq![r0, r1, ReplyView::Done, ReplyView::Clock(now)] + tail =~= seq![r0] + t1);
    let naming = at(StartPhaseView::Naming { repo, workspace });
    let making = at(StartPhaseView::Making { repo, workspace, id });
    let stamping = at(StartPhaseView::Stamping { repo, workspace, id });
    effects::lemma_one_reply(e0, at(StartPhaseView::Resolving), rule, r0, t1);
    assert(start_next(at(StartPhaseView::Resolving), r0) == StepView::<
        StartSessionView,
        SessionView,
    >::Run(EffectView::ReadTime, naming));
    effects::lemma_one_reply(EffectView::ReadTime, naming, rule, r1, t2);
    assert(start_next(naming, r1) == StepView::<StartSessionView, SessionView>::Run(e2, making));
    effects::lemma_one_reply(e2, making, rule, ReplyView::Done, t3);
    assert(start_next(making, ReplyView::Done) == StepView::<StartSessionView, SessionView>::Run(
        EffectView::ReadClock,
        stamping,
    ));
    effects::lemma_one_reply(EffectView::ReadClock, stamping, rule, ReplyView::Clock(now), tail);
    assert(start_next(stamping, ReplyView::Clock(now)) == next);
    let rest = effects::asked(next, rule, tail);
    assert(seq![e0] + (seq![EffectView::ReadTime] + (seq![e2] + (seq![EffectView::ReadClock]
        + rest))) =~= seq![e0, EffectView::ReadTime, e2, EffectView::ReadClock] + rest);
}

#[verifier::spinoff_prover]
#[verifier::rlimit(30)]
proof fn lemma_start_spawns(
    repos: RepositoryStoreView,
    command: Seq<Seq<char>>,
    job: SessionJobView,
    since: u64,
)
    ensures
        ({
            let start = recording_step(repos, command, job);
            let replies = seq![ReplyView::Done, ReplyView::Done, ReplyView::Instant(since)];
            let ready = EffectView::PathExists(paths::joined_path(job.session.path, "ready"@));
            &&& effects::asked(start, start_rule(), replies) == seq![
                start->Run_0,
                EffectView::SpawnSupervisor {
                    log_path: paths::joined_path(job.session.path, "supervisor.log"@),
                    args: sessions::serve_args(job.repo, job.db_path, job.workspace, job.session),
                },
                EffectView::ReadInstant,
                ready,
            ]
            &&& effects::reached(start, start_rule(), replies) == StepView::<
                StartSessionView,
                SessionView,
            >::Run(
                ready,
                StartSessionView {
                    repos,
                    command,
                    phase: StartPhaseView::Probing { job, since },
                },
            )
        }),
{
    let rule = start_rule();
    let at = |phase: StartPhaseView| StartSessionView { repos, command, phase };
    let e4 = recording_step(repos, command, job)->Run_0;
    let e5 = EffectView::SpawnSupervisor {
        log_path: paths::joined_path(job.session.path, "supervisor.log"@),
        args: sessions::serve_args(job.repo, job.db_path, job.workspace, job.session),
    };
    let e7 = EffectView::PathExists(paths::joined_path(job.session.path, "ready"@));
    let none = Seq::<ReplyView>::empty();
    let t2 = seq![ReplyView::Instant(since)] + none;
    let t1 = seq![ReplyView::Done] + t2;
    assert(seq![ReplyView::Done, ReplyView::Done, ReplyView::Instant(since)] =~= seq![
        ReplyView::Done,
    ] + t1);
    let inserting = at(StartPhaseView::Inserting(job));
    let spawning = at(StartPhaseView::Spawning(job));
    let waiting = at(StartPhaseView::Waiting(job));
    let probing = at(StartPhaseView::Probing { job, since });
    effects::lemma_one_reply(e4, inserting, rule, ReplyView::Done, t1);
    assert(start_next(inserting, ReplyView::Done) == StepView::<
        StartSessionView,
        SessionView,
    >::Run(e5, spawning));
    effects::lemma_one_reply(e5, spawning, rule, ReplyView::Done, t2);
    assert(start_next(spawning, ReplyView::Done) == StepView::<
        StartSessionView,
        SessionView,
    >::Run(EffectView::ReadInstant, waiting));
    effects::lemma_one_reply(
        EffectView::ReadInstant,
        waiting,
        rule,
        ReplyView::Instant(since),
        none,
    );
    assert(start_next(waiting, ReplyView::Instant(since)) == StepView::<
        StartSessionView,
        SessionView,
    >::Run(e7, probing));
    assert(seq![e4] + (seq![e5] + (seq![EffectView::ReadInstant] + seq![e7])) =~= seq![
        e4,
        e5,
        EffectView::ReadInstant,
        e7,
    ]);
}

/// A command without a word is refused before anything is asked for.
pub proof fn law_start_needs_a_command(repos: RepositoryStoreView, reference: Seq<char>)
    ensures
        start_start(repos, reference, seq![]) == StepView::<StartSessionView, SessionView>::Finish(
            Err(SwarmErrorView::InvalidSession("missing command"@)),
        ),
{
}

/// A session that shows its sign of life is recorded as running, under its identifier, with
/// the number in its process file where that can be read and with its socket, and is then
/// looked at.
pub proof fn law_ready_session_runs(
    s: StartSessionView,
    job: SessionJobView,
    since: u64,
    contents: Option<Seq<char>>,
    pid: Option<i64>,
)
    requires
        s.phase == (StartPhaseView::Probing { job, since }),
        match (contents, pid) {
            (Some(contents), Some(pid)) => exists|front: Seq<char>, back: Seq<char>|
                text::blank(front) && text::blank(back) && contents == #[trigger] (front
                    + text::signed_decimal(pid as int) + back),
            (Some(contents), None) => text::blank(contents),
            (None, Some(_)) => false,
            (None, None) => true,
        },
    ensures
        ({
            &&& start_next(s, ReplyView::Exists(true)) matches StepView::Run(read, reading)
            &&& read == EffectView::ReadFile(paths::joined_path(job.session.path, "child.pid"@))
            &&& start_next(reading, ReplyView::Text(contents)) matches StepView::Run(run, running)
            &&& run == (EffectView::RunSession {
                db_path: job.db_path,
                id: job.session.id,
                pid,
                socket_path: job.session.socket_path,
            })
            &&& start_next(running, ReplyView::Done) == start_inspect(
                running,
                op_start(s.repos, SessionTask::Inspect, job.session.id),
            )
        }),
{
    match (contents, pid) {
        (Some(contents), Some(pid)) => {
            let (front, back) = choose|front: Seq<char>, back: Seq<char>|
                text::blank(front) && text::blank(back) && contents == #[trigger] (front
                    + text::signed_decimal(pid as int) + back);
            sessions::law_process_file_reads_back(pid, front, back);
        },
        (Some(contents), None) => {
            text::lemma_trimmed_blank(contents);
        },
        _ => {},
    }
}

/// A session is given three seconds. Until they are over, its sign of life is looked for
/// again after a pause of fifty milliseconds; then the session is recorded as failed at the
/// time that is heard, and the error has its identifier and the last line of its
/// supervisor's log.
pub proof fn law_session_is_given_three_seconds(
    s: StartSessionView,
    job: SessionJobView,
    since: u64,
    instant: u64,
    now: i64,
    contents: Option<Seq<char>>,
)
    requires
        s.phase == (StartPhaseView::Probing { job, since }),
    ensures
        ({
            let ready = EffectView::PathExists(paths::joined_path(job.session.path, "ready"@));
            &&& start_next(s, ReplyView::Exists(false)) matches StepView::Run(time, timing)
            &&& time == EffectView::ReadInstant
            &&& start_next(timing, ReplyView::Instant(instant)) matches StepView::Run(
                effect,
                waiting,
            )
            &&& instant - since < 3_000_000_000 ==> effect == EffectView::Sleep(50) && start_next(
                waiting,
                ReplyView::Done,
            ) == StepView::<StartSessionView, SessionView>::Run(ready, s)
            &&& instant - since >= 3_000_000_000 ==> {
                &&& effect == EffectView::ReadClock
                &&& start_next(waiting, ReplyView::Clock(now)) matches StepView::Run(fail, failing)
                &&& fail == (EffectView::FailSession {
                    db_path: job.db_path,
                    id: job.session.id,
                    stopped_at: now,
                })
                &&& start_next(failing, ReplyView::Done) matches StepView::Run(read, reading)
                &&& read == EffectView::ReadFile(
                    paths::joined_path(job.session.path, "supervisor.log"@),
                )
                &&& start_next(reading, ReplyView::Text(contents)) == StepView::<
                    StartSessionView,
                    SessionView,
                >::Finish(
                    Err(
                        SwarmErrorView::InvalidSession(
                            "session `"@ + job.session.id + "` did not become ready"@
                                + sessions::log_detail(contents),
                        ),
                    ),
                )
            }
        }),
{
}

/// Whatever a task on sessions waits for, a failure ends it, and is its result.
pub proof fn law_failures_end_tasks(
    find: FindView,
    refresh: RefreshView,
    op: SessionOpView,
    list: ListSessionsView,
    prune: PruneSessionsView,
    start: StartSessionView,
    e: SwarmErrorView,
)
    ensures
        find_next(find, ReplyView::Failed(e)) == StepView::<FindView, FoundSessionView>::Finish(
            Err(e),
        ),
        refresh_next(refresh, ReplyView::Failed(e)) == StepView::<RefreshView, SessionView>::Finish(
            Err(e),
        ),
        op_next(op, ReplyView::Failed(e)) == StepView::<SessionOpView, SessionView>::Finish(Err(e)),
        list_sessions_next(list, ReplyView::Failed(e)) == StepView::<
            ListSessionsView,
            Seq<SessionView>,
        >::Finish(Err(e)),
        prune_next(prune, ReplyView::Failed(e)) == StepView::<PruneSessionsView, usize>::Finish(
            Err(e),
        ),
        start_next(start, ReplyView::Failed(e)) == StepView::<StartSessionView, SessionView>::Finish(
            Err(e),
        ),
{
    reveal(op_next);
}

/// A row whose command cannot be read ends the task that reads it.
pub proof fn law_unreadable_rows_end_tasks(
    find: FindView,
    list: ListSessionsView,
    row: SessionRowView,
    rest: Seq<SessionRowView>,
    message: Seq<char>,
)
    requires
        sessions::json_list(row.command_json) == Err::<Seq<Seq<char>>, Seq<char>>(message),
        find.repos.len() > 0,
        list.repos.len() > 0,
        list.phase is Reading,
    ensures
        find_next(find, ReplyView::FoundSession(Some(row))) == StepView::<
            FindView,
            FoundSessionView,
        >::Finish(Err(SwarmErrorView::Json(message))),
        list_sessions_next(list, ReplyView::SessionRows(seq![row] + rest)) == StepView::<
            ListSessionsView,
            Seq<SessionView>,
        >::Finish(Err(SwarmErrorView::Json(message))),
{
    assert((seq![row] + rest)[0] == row);
}

/// A session that was removed counts, and the pruning goes on with what is behind it: where
/// nothing behind it has ended, the count is one more than before.
pub proof fn law_pruning_counts_what_is_removed(
    s: PruneSessionsView,
    op: SessionOpView,
    id: Seq<char>,
    rest: Seq<SessionView>,
    reply: ReplyView,
    session: SessionView,
)
    requires
        s.repos.rows.len() > 0,
        s.removed.len() < usize::MAX,
        s.phase == (PrunePhaseView::Removing { op, id, rest }),
        op_next(op, reply) == StepView::<SessionOpView, SessionView>::Finish(Ok(session)),
        forall|i: int|
            0 <= i < rest.len() ==> (#[trigger] rest[i]).status != "stopped"@ && rest[i].status
                != "failed"@ && rest[i].status != "exited"@,
    ensures
        prune_next(s, reply) == StepView::<PruneSessionsView, usize>::Finish(
            Ok((s.removed.len() + 1) as usize),
        ),
{
    law_pruning_begins_with_the_first_that_ended(
        s.repos,
        s.removed.push(id),
        rest,
        SessionView { status: "exited"@, ..session },
        seq![],
    );
}

} // verus!
