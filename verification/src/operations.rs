//! The operations on workspaces: creating, cloning, renaming, removing,
//! listing and looking at them.

use crate::effects;
use crate::effects::{Effect, EffectView, Reply, ReplyView, Step, StepView};
use crate::error::{SwarmError, SwarmErrorView};
use crate::paths;
use crate::repos;
use crate::repos::{Repository, RepositoryStoreView, RepositoryView};
use crate::seqs;
use crate::text;
use crate::workspaces;
use crate::workspaces::{
    Lookup, LookupView, Place, PlaceView, Workspace, WorkspaceRow, WorkspaceRowView,
    WorkspaceStore, WorkspaceView,
};
use vstd::prelude::*;

verus! {

/// The path of a workspace.
pub open spec fn workspace_path(place: PlaceView, name: Seq<char>) -> Seq<char> {
    paths::joined_path(place.workspaces_dir, name)
}

/// The row of a new workspace. It is on a branch of its own name.
pub open spec fn new_row(place: PlaceView, name: Seq<char>, created_at: i64) -> WorkspaceRowView {
    WorkspaceRowView {
        name,
        branch: name,
        path: workspace_path(place, name),
        created_at,
    }
}

/// Has git work in the directory of the workspaces.
pub open spec fn worktree_command(
    place: PlaceView,
    name: Seq<char>,
    args: Seq<Seq<char>>,
) -> EffectView {
    EffectView::RunGit { cwd: paths::parent_path(workspace_path(place, name)), args }
}

/// Asks for the default branch of the remote.
pub open spec fn head_command(place: PlaceView) -> EffectView {
    workspaces::repository_command(
        place,
        seq!["symbolic-ref"@, "--short"@, "refs/remotes/origin/HEAD"@],
    )
}

/// Adds the worktree of a new workspace.
pub open spec fn add_command(
    place: PlaceView,
    name: Seq<char>,
    default_branch: Seq<char>,
) -> EffectView {
    worktree_command(
        place,
        name,
        workspaces::worktree_add_args(
            place.bare_repo_path,
            workspace_path(place, name),
            name,
            default_branch,
        ),
    )
}

/// Adds the worktree of a cloned workspace.
pub open spec fn clone_command(place: PlaceView, name: Seq<char>, head: Seq<char>) -> EffectView {
    worktree_command(
        place,
        name,
        workspaces::clone_worktree_add_args(
            place.bare_repo_path,
            workspace_path(place, name),
            name,
            head,
        ),
    )
}

fn new_path(place: &Place, name: &str) -> (r: String)
    ensures
        r@ == workspace_path(place@, name@),
{
    paths::join_path(place.workspaces_dir.as_str(), name)
}

fn make_row(place: &Place, name: &str, created_at: i64) -> (r: WorkspaceRow)
    ensures
        r@ == new_row(place@, name@, created_at),
{
    WorkspaceRow {
        name: name.to_owned(),
        branch: name.to_owned(),
        path: new_path(place, name),
        created_at,
    }
}

fn materialize(place: &Place, name: &str, args: Vec<String>) -> (r: Effect)
    ensures
        r@ == worktree_command(place@, name@, args.deep_view()),
{
    let path = new_path(place, name);
    Effect::RunGit { cwd: paths::parent(path.as_str()), args }
}

/// What the making of a workspace waits for, once the tables are open: the
/// sync, the name of the remote's head, a look at a workspace that has the
/// name, the workspaces' directory, a look at the path, the worktree, the clock
/// and the record.
#[derive(Debug)]
pub enum CreatePhase {
    Opening,
    Syncing,
    ReadingHead,
    Clashing { name: String, lookup: Lookup },
    MakingDir { name: String, default_branch: String },
    Probing { name: String, default_branch: String },
    Adding { name: String },
    Stamping { name: String },
    Inserting(WorkspaceRow),
}

/// What a `CreatePhase` holds.
#[verifier::ext_equal]
pub enum CreatePhaseView {
    Opening,
    Syncing,
    ReadingHead,
    Clashing { name: Seq<char>, lookup: LookupView },
    MakingDir { name: Seq<char>, default_branch: Seq<char> },
    Probing { name: Seq<char>, default_branch: Seq<char> },
    Adding { name: Seq<char> },
    Stamping { name: Seq<char> },
    Inserting(WorkspaceRowView),
}

impl View for CreatePhase {
    type V = CreatePhaseView;

    open spec fn view(&self) -> CreatePhaseView {
        match self {
            CreatePhase::Opening => CreatePhaseView::Opening,
            CreatePhase::Syncing => CreatePhaseView::Syncing,
            CreatePhase::ReadingHead => CreatePhaseView::ReadingHead,
            CreatePhase::Clashing { name, lookup } => CreatePhaseView::Clashing {
                name: name@,
                lookup: lookup@,
            },
            CreatePhase::MakingDir { name, default_branch } => CreatePhaseView::MakingDir {
                name: name@,
                default_branch: default_branch@,
            },
            CreatePhase::Probing { name, default_branch } => CreatePhaseView::Probing {
                name: name@,
                default_branch: default_branch@,
            },
            CreatePhase::Adding { name } => CreatePhaseView::Adding {
                name: name@,
            },
            CreatePhase::Stamping { name } => CreatePhaseView::Stamping {
                name: name@,
            },
            CreatePhase::Inserting(a) => CreatePhaseView::Inserting(a@),
        }
    }
}

impl DeepView for CreatePhase {
    type V = CreatePhaseView;

    open spec fn deep_view(&self) -> CreatePhaseView {
        self@
    }
}

impl Clone for CreatePhase {
    fn clone(&self) -> (r: Self)
        ensures
            r@ == self@,
    {
        match self {
            CreatePhase::Opening => CreatePhase::Opening,
            CreatePhase::Syncing => CreatePhase::Syncing,
            CreatePhase::ReadingHead => CreatePhase::ReadingHead,
            CreatePhase::Clashing { name, lookup } => CreatePhase::Clashing {
                name: name.clone(),
                lookup: lookup.clone(),
            },
            CreatePhase::MakingDir { name, default_branch } => CreatePhase::MakingDir {
                name: name.clone(),
                default_branch: default_branch.clone(),
            },
            CreatePhase::Probing { name, default_branch } => CreatePhase::Probing {
                name: name.clone(),
                default_branch: default_branch.clone(),
            },
            CreatePhase::Adding { name } => CreatePhase::Adding {
                name: name.clone(),
            },
            CreatePhase::Stamping { name } => CreatePhase::Stamping {
                name: name.clone(),
            },
            CreatePhase::Inserting(a) => CreatePhase::Inserting(a.clone()),
        }
    }
}

/// A workspace being made.
#[derive(Debug)]
pub struct Create {
    pub place: Place,
    pub wanted: Option<String>,
    pub rows: Vec<WorkspaceRow>,
    pub phase: CreatePhase,
}

/// What a `Create` holds.
#[verifier::ext_equal]
pub struct CreateView {
    pub place: PlaceView,
    pub wanted: Option<Seq<char>>,
    pub rows: Seq<WorkspaceRowView>,
    pub phase: CreatePhaseView,
}

impl View for Create {
    type V = CreateView;

    open spec fn view(&self) -> CreateView {
        CreateView {
            place: self.place@,
            wanted: self.wanted.deep_view(),
            rows: self.rows.deep_view(),
            phase: self.phase@,
        }
    }
}

impl DeepView for Create {
    type V = CreateView;

    open spec fn deep_view(&self) -> CreateView {
        self@
    }
}

impl Clone for Create {
    fn clone(&self) -> (r: Self)
        ensures
            r@ == self@,
    {
        Create {
            place: self.place.clone(),
            wanted: self.wanted.clone(),
            rows: self.rows.clone(),
            phase: self.phase.clone(),
        }
    }
}

/// The operation in another phase.
pub open spec fn create_in(s: CreateView, phase: CreatePhaseView) -> CreateView {
    CreateView { phase, ..s }
}

/// The first step of making a workspace.
pub open spec fn create_start(
    store: RepositoryStoreView,
    repository: Seq<char>,
    name: Option<Seq<char>>,
) -> StepView<CreateView, WorkspaceView> {
    match repos::required(store.rows, repository) {
        Err(e) => StepView::Finish(Err(e)),
        Ok(repo) => {
            let place = workspaces::place_of(store.paths.repos_dir, repo);
            StepView::Run(
                EffectView::OpenWorkspaces(place.db_path),
                CreateView { place, wanted: name, rows: seq![], phase: CreatePhaseView::Opening },
            )
        },
    }
}

/// The step once the name is known: a name that a row has clashes, another one
/// gets its place.
pub open spec fn create_named(
    s: CreateView,
    name: Seq<char>,
    default_branch: Seq<char>,
) -> StepView<CreateView, WorkspaceView> {
    match workspaces::row_named(s.rows, name) {
        Some(row) => StepView::Run(
            EffectView::CurrentBranch(row.path),
            create_in(s, CreatePhaseView::Clashing { name, lookup: LookupView::Branch(row) }),
        ),
        None => StepView::Run(
            EffectView::CreateDir(s.place.workspaces_dir),
            create_in(s, CreatePhaseView::MakingDir { name, default_branch }),
        ),
    }
}

/// The step that follows a reply.
pub open spec fn create_next(s: CreateView, reply: ReplyView) -> StepView<
    CreateView,
    WorkspaceView,
> {
    match (s.phase, reply) {
        (CreatePhaseView::Clashing { name, lookup }, _) => match workspaces::lookup_next(
            s.place.repo,
            lookup,
            reply,
        ) {
            StepView::Run(effect, lookup) => StepView::Run(
                effect,
                create_in(s, CreatePhaseView::Clashing { name, lookup }),
            ),
            StepView::Finish(Ok(_)) => StepView::Finish(
                Err(workspaces::duplicate_workspace(s.place.repo, name)),
            ),
            StepView::Finish(Err(e)) => StepView::Finish(Err(e)),
            StepView::Mismatch => StepView::Mismatch,
        },
        (_, ReplyView::Failed(e)) => StepView::Finish(Err(e)),
        (CreatePhaseView::Opening, ReplyView::Rows(rows)) => StepView::Run(
            EffectView::SyncRepository(s.place.repo),
            CreateView { rows, phase: CreatePhaseView::Syncing, ..s },
        ),
        (CreatePhaseView::Syncing, ReplyView::Done) => StepView::Run(
            head_command(s.place),
            create_in(s, CreatePhaseView::ReadingHead),
        ),
        (CreatePhaseView::ReadingHead, ReplyView::Output(output)) => match effects::git_outcome(
            output,
        ) {
            Err(e) => StepView::Finish(Err(e)),
            Ok(head) => {
                let default_branch = workspaces::default_branch_of(head);
                match workspaces::resolved_workspace_name(s.wanted, default_branch) {
                    Err(e) => StepView::Finish(Err(e)),
                    Ok(name) => create_named(s, name, default_branch),
                }
            },
        },
        (CreatePhaseView::MakingDir { name, default_branch }, ReplyView::Done) => StepView::Run(
            EffectView::PathExists(workspace_path(s.place, name)),
            create_in(s, CreatePhaseView::Probing { name, default_branch }),
        ),
        (CreatePhaseView::Probing { name, default_branch }, ReplyView::Exists(exists)) => if exists {
            StepView::Finish(Err(workspaces::duplicate_workspace(s.place.repo, name)))
        } else {
            StepView::Run(
                add_command(s.place, name, default_branch),
                create_in(s, CreatePhaseView::Adding { name }),
            )
        },
        (CreatePhaseView::Adding { name }, ReplyView::Output(output)) => match effects::git_outcome(
            output,
        ) {
            Err(e) => StepView::Finish(Err(e)),
            Ok(_) => StepView::Run(
                EffectView::ReadClock,
                create_in(s, CreatePhaseView::Stamping { name }),
            ),
        },
        (CreatePhaseView::Stamping { name }, ReplyView::Clock(now)) => {
            let row = new_row(s.place, name, now);
            StepView::Run(
                EffectView::InsertWorkspace(row),
                create_in(s, CreatePhaseView::Inserting(row)),
            )
        },
        (CreatePhaseView::Inserting(row), ReplyView::Done) => StepView::Finish(
            Ok(workspaces::workspace_of(s.place.repo, row)),
        ),
        _ => StepView::Mismatch,
    }
}

impl WorkspaceStore {
    /// Begins to make a workspace of a repository.
    pub fn create(&self, repository: &str, name: Option<&str>) -> (r: Step<Create, Workspace>)
        ensures
            r@ == create_start(self.repos@, repository@, name.deep_view()),
    {
        match self.repos.require_repository(repository) {
            Err(e) => Step::Finish(Err(e)),
            Ok(repo) => {
                let place = self.place(repo);
                let wanted: Option<String> = match name {
                    Some(name) => Some(name.to_owned()),
                    None => None,
                };
                let rows: Vec<WorkspaceRow> = Vec::new();
                proof {
                    assert(rows.deep_view() =~= seq![]);
                }
                Step::Run(
                    Effect::OpenWorkspaces(place.db_path.clone()),
                    Create { place, wanted, rows, phase: CreatePhase::Opening },
                )
            },
        }
    }
}

impl Create {
    fn named(self, name: String, default_branch: String) -> (r: Step<Create, Workspace>)
        ensures
            r@ == create_named(self@, name@, default_branch@),
    {
        let Create { place, wanted, rows, .. } = self;
        match workspaces::find_row(&rows, name.as_str()) {
            Some(row) => Step::Run(
                Effect::CurrentBranch(row.path.clone()),
                Create {
                    place,
                    wanted,
                    rows,
                    phase: CreatePhase::Clashing { name, lookup: Lookup::Branch(row) },
                },
            ),
            None => Step::Run(
                Effect::CreateDir(place.workspaces_dir.clone()),
                Create {
                    place,
                    wanted,
                    rows,
                    phase: CreatePhase::MakingDir { name, default_branch },
                },
            ),
        }
    }

    /// The step that follows a reply.
    pub fn resume(self, reply: Reply) -> (r: Step<Create, Workspace>)
        ensures
            r@ == create_next(self@, reply@),
    {
        let Create { place, wanted, rows, phase } = self;
        match (phase, reply) {
            (CreatePhase::Clashing { name, lookup }, reply) => match lookup.resume(
                &place.repo,
                reply,
            ) {
                Step::Run(effect, lookup) => Step::Run(
                    effect,
                    Create { place, wanted, rows, phase: CreatePhase::Clashing { name, lookup } },
                ),
                Step::Finish(Ok(_)) => Step::Finish(
                    Err(workspaces::duplicate_error(&place.repo, name.as_str())),
                ),
                Step::Finish(Err(e)) => Step::Finish(Err(e)),
                Step::Mismatch => Step::Mismatch,
            },
            (_, Reply::Failed(e)) => Step::Finish(Err(e)),
            (CreatePhase::Opening, Reply::Rows(rows)) => Step::Run(
                Effect::SyncRepository(place.repo.clone()),
                Create { place, wanted, rows, phase: CreatePhase::Syncing },
            ),
            (CreatePhase::Syncing, Reply::Done) => {
                let args = vec![
                    "symbolic-ref".to_owned(),
                    "--short".to_owned(),
                    "refs/remotes/origin/HEAD".to_owned(),
                ];
                proof {
                    assert(args.deep_view()
                        =~= seq!["symbolic-ref"@, "--short"@, "refs/remotes/origin/HEAD"@]);
                }
                let effect = place.command(args);
                Step::Run(effect, Create { place, wanted, rows, phase: CreatePhase::ReadingHead })
            },
            (CreatePhase::ReadingHead, Reply::Output(output)) => match effects::git_result(
                &output,
            ) {
                Err(e) => Step::Finish(Err(e)),
                Ok(head) => {
                    let branch = workspaces::default_branch(head.as_str());
                    let wanted_text: Option<&str> = match &wanted {
                        Some(name) => Some(name.as_str()),
                        None => None,
                    };
                    match workspaces::resolve_workspace_name(wanted_text, branch.as_str()) {
                        Err(e) => Step::Finish(Err(e)),
                        Ok(name) => Create {
                            place,
                            wanted,
                            rows,
                            phase: CreatePhase::ReadingHead,
                        }.named(name, branch),
                    }
                },
            },
            (CreatePhase::MakingDir { name, default_branch }, Reply::Done) => {
                let path = new_path(&place, name.as_str());
                Step::Run(
                    Effect::PathExists(path),
                    Create {
                        place,
                        wanted,
                        rows,
                        phase: CreatePhase::Probing { name, default_branch },
                    },
                )
            },
            (CreatePhase::Probing { name, default_branch }, Reply::Exists(exists)) => if exists {
                Step::Finish(Err(workspaces::duplicate_error(&place.repo, name.as_str())))
            } else {
                let path = new_path(&place, name.as_str());
                match workspaces::build_worktree_add_args(
                    place.bare_repo_path.as_str(),
                    path.as_str(),
                    name.as_str(),
                    default_branch.as_str(),
                ) {
                    Err(e) => Step::Finish(Err(e)),
                    Ok(args) => {
                        let effect = materialize(&place, name.as_str(), args);
                        Step::Run(
                            effect,
                            Create { place, wanted, rows, phase: CreatePhase::Adding { name } },
                        )
                    },
                }
            },
            (CreatePhase::Adding { name }, Reply::Output(output)) => match effects::git_result(
                &output,
            ) {
                Err(e) => Step::Finish(Err(e)),
                Ok(_) => Step::Run(
                    Effect::ReadClock,
                    Create { place, wanted, rows, phase: CreatePhase::Stamping { name } },
                ),
            },
            (CreatePhase::Stamping { name }, Reply::Clock(now)) => {
                let row = make_row(&place, name.as_str(), now);
                Step::Run(
                    Effect::InsertWorkspace(row.clone()),
                    Create { place, wanted, rows, phase: CreatePhase::Inserting(row) },
                )
            },
            (CreatePhase::Inserting(row), Reply::Done) => Step::Finish(
                Ok(workspaces::make_workspace(&place.repo, &row)),
            ),
            _ => Step::Mismatch,
        }
    }
}

/// What the cloning of a workspace waits for: the tables, the source, a look at
/// a workspace that has the name, the workspaces' directory, a look at the
/// path, the source's commit, the worktree, the clock and the record.
#[derive(Debug)]
pub enum ClonePhase {
    Opening,
    Finding(Lookup),
    Clashing { name: String, lookup: Lookup },
    MakingDir { source: Workspace, name: String },
    Probing { source: Workspace, name: String },
    ReadingHead { name: String },
    Adding { name: String },
    Stamping { name: String },
    Inserting(WorkspaceRow),
}

/// What a `ClonePhase` holds.
#[verifier::ext_equal]
pub enum ClonePhaseView {
    Opening,
    Finding(LookupView),
    Clashing { name: Seq<char>, lookup: LookupView },
    MakingDir { source: WorkspaceView, name: Seq<char> },
    Probing { source: WorkspaceView, name: Seq<char> },
    ReadingHead { name: Seq<char> },
    Adding { name: Seq<char> },
    Stamping { name: Seq<char> },
    Inserting(WorkspaceRowView),
}

impl View for ClonePhase {
    type V = ClonePhaseView;

    open spec fn view(&self) -> ClonePhaseView {
        match self {
            ClonePhase::Opening => ClonePhaseView::Opening,
            ClonePhase::Finding(a) => ClonePhaseView::Finding(a@),
            ClonePhase::Clashing { name, lookup } => ClonePhaseView::Clashing {
                name: name@,
                lookup: lookup@,
            },
            ClonePhase::MakingDir { source, name } => ClonePhaseView::MakingDir {
                source: source@,
                name: name@,
            },
            ClonePhase::Probing { source, name } => ClonePhaseView::Probing {
                source: source@,
                name: name@,
            },
            ClonePhase::ReadingHead { name } => ClonePhaseView::ReadingHead {
                name: name@,
            },
            ClonePhase::Adding { name } => ClonePhaseView::Adding {
                name: name@,
            },
            ClonePhase::Stamping { name } => ClonePhaseView::Stamping {
                name: name@,
            },
            ClonePhase::Inserting(a) => ClonePhaseView::Inserting(a@),
        }
    }
}

impl DeepView for ClonePhase {
    type V = ClonePhaseView;

    open spec fn deep_view(&self) -> ClonePhaseView {
        self@
    }
}

impl Clone for ClonePhase {
    fn clone(&self) -> (r: Self)
        ensures
            r@ == self@,
    {
        match self {
            ClonePhase::Opening => ClonePhase::Opening,
            ClonePhase::Finding(a) => ClonePhase::Finding(a.clone()),
            ClonePhase::Clashing { name, lookup } => ClonePhase::Clashing {
                name: name.clone(),
                lookup: lookup.clone(),
            },
            ClonePhase::MakingDir { source, name } => ClonePhase::MakingDir {
                source: source.clone(),
                name: name.clone(),
            },
            ClonePhase::Probing { source, name } => ClonePhase::Probing {
                source: source.clone(),
                name: name.clone(),
            },
            ClonePhase::ReadingHead { name } => ClonePhase::ReadingHead {
                name: name.clone(),
            },
            ClonePhase::Adding { name } => ClonePhase::Adding {
                name: name.clone(),
            },
            ClonePhase::Stamping { name } => ClonePhase::Stamping {
                name: name.clone(),
            },
            ClonePhase::Inserting(a) => ClonePhase::Inserting(a.clone()),
        }
    }
}

/// A workspace being cloned.
#[derive(Debug)]
pub struct CloneWorkspace {
    pub place: Place,
    pub reference: String,
    pub source_name: String,
    pub wanted: String,
    pub rows: Vec<WorkspaceRow>,
    pub phase: ClonePhase,
}

/// What a `CloneWorkspace` holds.
#[verifier::ext_equal]
pub struct CloneWorkspaceView {
    pub place: PlaceView,
    pub reference: Seq<char>,
    pub source_name: Seq<char>,
    pub wanted: Seq<char>,
    pub rows: Seq<WorkspaceRowView>,
    pub phase: ClonePhaseView,
}

impl View for CloneWorkspace {
    type V = CloneWorkspaceView;

    open spec fn view(&self) -> CloneWorkspaceView {
        CloneWorkspaceView {
            place: self.place@,
            reference: self.reference@,
            source_name: self.source_name@,
            wanted: self.wanted@,
            rows: self.rows.deep_view(),
            phase: self.phase@,
        }
    }
}

impl DeepView for CloneWorkspace {
    type V = CloneWorkspaceView;

    open spec fn deep_view(&self) -> CloneWorkspaceView {
        self@
    }
}

impl Clone for CloneWorkspace {
    fn clone(&self) -> (r: Self)
        ensures
            r@ == self@,
    {
        CloneWorkspace {
            place: self.place.clone(),
            reference: self.reference.clone(),
            source_name: self.source_name.clone(),
            wanted: self.wanted.clone(),
            rows: self.rows.clone(),
            phase: self.phase.clone(),
        }
    }
}

/// The operation in another phase.
pub open spec fn clone_in(s: CloneWorkspaceView, phase: ClonePhaseView) -> CloneWorkspaceView {
    CloneWorkspaceView { phase, ..s }
}

/// The first step of cloning a workspace.
pub open spec fn clone_start(
    store: RepositoryStoreView,
    workspace: Seq<char>,
    name: Seq<char>,
) -> StepView<CloneWorkspaceView, WorkspaceView> {
    match workspaces::located(store, workspace) {
        Err(e) => StepView::Finish(Err(e)),
        Ok((place, source_name)) => StepView::Run(
            EffectView::OpenWorkspaces(place.db_path),
            CloneWorkspaceView {
                place,
                reference: workspace,
                source_name,
                wanted: name,
                rows: seq![],
                phase: ClonePhaseView::Opening,
            },
        ),
    }
}

/// The step once the source is known.
pub open spec fn clone_found(s: CloneWorkspaceView, source: WorkspaceView) -> StepView<
    CloneWorkspaceView,
    WorkspaceView,
> {
    match workspaces::resolved_workspace_name(Some(s.wanted), source.branch) {
        Err(e) => StepView::Finish(Err(e)),
        Ok(name) => match workspaces::row_named(s.rows, name) {
            Some(row) => StepView::Run(
                EffectView::CurrentBranch(row.path),
                clone_in(s, ClonePhaseView::Clashing { name, lookup: LookupView::Branch(row) }),
            ),
            None => StepView::Run(
                EffectView::CreateDir(s.place.workspaces_dir),
                clone_in(s, ClonePhaseView::MakingDir { source, name }),
            ),
        },
    }
}

/// The step that follows a reply.
pub open spec fn clone_next(s: CloneWorkspaceView, reply: ReplyView) -> StepView<
    CloneWorkspaceView,
    WorkspaceView,
> {
    match (s.phase, reply) {
        (ClonePhaseView::Finding(lookup), _) => match workspaces::lookup_next(
            s.place.repo,
            lookup,
            reply,
        ) {
            StepView::Run(effect, lookup) => StepView::Run(
                effect,
                clone_in(s, ClonePhaseView::Finding(lookup)),
            ),
            StepView::Finish(Ok(source)) => clone_found(s, source),
            StepView::Finish(Err(e)) => StepView::Finish(Err(e)),
            StepView::Mismatch => StepView::Mismatch,
        },
        (ClonePhaseView::Clashing { name, lookup }, _) => match workspaces::lookup_next(
            s.place.repo,
            lookup,
            reply,
        ) {
            StepView::Run(effect, lookup) => StepView::Run(
                effect,
                clone_in(s, ClonePhaseView::Clashing { name, lookup }),
            ),
            StepView::Finish(Ok(_)) => StepView::Finish(
                Err(workspaces::duplicate_workspace(s.place.repo, name)),
            ),
            StepView::Finish(Err(e)) => StepView::Finish(Err(e)),
            StepView::Mismatch => StepView::Mismatch,
        },
        (_, ReplyView::Failed(e)) => StepView::Finish(Err(e)),
        (ClonePhaseView::Opening, ReplyView::Rows(rows)) => match workspaces::row_named(
            rows,
            s.source_name,
        ) {
            None => StepView::Finish(Err(SwarmErrorView::WorkspaceNotFound(s.reference))),
            Some(row) => StepView::Run(
                EffectView::CurrentBranch(row.path),
                CloneWorkspaceView {
                    rows,
                    phase: ClonePhaseView::Finding(LookupView::Branch(row)),
                    ..s
                },
            ),
        },
        (ClonePhaseView::MakingDir { source, name }, ReplyView::Done) => StepView::Run(
            EffectView::PathExists(workspace_path(s.place, name)),
            clone_in(s, ClonePhaseView::Probing { source, name }),
        ),
        (ClonePhaseView::Probing { source, name }, ReplyView::Exists(exists)) => if exists {
            StepView::Finish(Err(workspaces::duplicate_workspace(s.place.repo, name)))
        } else {
            StepView::Run(
                EffectView::RunGit { cwd: Some(source.path), args: seq!["rev-parse"@, "HEAD"@] },
                clone_in(s, ClonePhaseView::ReadingHead { name }),
            )
        },
        (ClonePhaseView::ReadingHead { name }, ReplyView::Output(output)) => {
            match effects::git_outcome(output) {
                Err(e) => StepView::Finish(Err(e)),
                Ok(head) => StepView::Run(
                    clone_command(s.place, name, head),
                    clone_in(s, ClonePhaseView::Adding { name }),
                ),
            }
        },
        (ClonePhaseView::Adding { name }, ReplyView::Output(output)) => match effects::git_outcome(
            output,
        ) {
            Err(e) => StepView::Finish(Err(e)),
            Ok(_) => StepView::Run(
                EffectView::ReadClock,
                clone_in(s, ClonePhaseView::Stamping { name }),
            ),
        },
        (ClonePhaseView::Stamping { name }, ReplyView::Clock(now)) => {
            let row = new_row(s.place, name, now);
            StepView::Run(
                EffectView::InsertWorkspace(row),
                clone_in(s, ClonePhaseView::Inserting(row)),
            )
        },
        (ClonePhaseView::Inserting(row), ReplyView::Done) => StepView::Finish(
            Ok(workspaces::workspace_of(s.place.repo, row)),
        ),
        _ => StepView::Mismatch,
    }
}

impl WorkspaceStore {
    /// Begins to clone a workspace under a new name.
    pub fn clone(&self, workspace: &str, name: &str) -> (r: Step<CloneWorkspace, Workspace>)
        ensures
            r@ == clone_start(self.repos@, workspace@, name@),
    {
        match self.locate(workspace) {
            Err(e) => Step::Finish(Err(e)),
            Ok((place, source_name)) => {
                let rows: Vec<WorkspaceRow> = Vec::new();
                proof {
                    assert(rows.deep_view() =~= seq![]);
                }
                Step::Run(
                    Effect::OpenWorkspaces(place.db_path.clone()),
                    CloneWorkspace {
                        place,
                        reference: workspace.to_owned(),
                        source_name,
                        wanted: name.to_owned(),
                        rows,
                        phase: ClonePhase::Opening,
                    },
                )
            },
        }
    }
}

impl CloneWorkspace {
    fn found(self, source: Workspace) -> (r: Step<CloneWorkspace, Workspace>)
        ensures
            r@ == clone_found(self@, source@),
    {
        let CloneWorkspace { place, reference, source_name, wanted, rows, .. } = self;
        match workspaces::resolve_workspace_name(Some(wanted.as_str()), source.branch.as_str()) {
            Err(e) => Step::Finish(Err(e)),
            Ok(name) => match workspaces::find_row(&rows, name.as_str()) {
                Some(row) => Step::Run(
                    Effect::CurrentBranch(row.path.clone()),
                    CloneWorkspace {
                        place,
                        reference,
                        source_name,
                        wanted,
                        rows,
                        phase: ClonePhase::Clashing { name, lookup: Lookup::Branch(row) },
                    },
                ),
                None => Step::Run(
                    Effect::CreateDir(place.workspaces_dir.clone()),
                    CloneWorkspace {
                        place,
                        reference,
                        source_name,
                        wanted,
                        rows,
                        phase: ClonePhase::MakingDir { source, name },
                    },
                ),
            },
        }
    }

    fn enter(self, phase: ClonePhase) -> (r: CloneWorkspace)
        ensures
            r@ == clone_in(self@, phase@),
    {
        let CloneWorkspace { place, reference, source_name, wanted, rows, .. } = self;
        CloneWorkspace { place, reference, source_name, wanted, rows, phase }
    }

    /// The step that follows a reply.
    pub fn resume(self, reply: Reply) -> (r: Step<CloneWorkspace, Workspace>)
        ensures
            r@ == clone_next(self@, reply@),
    {
        let phase = self.phase.clone();
        match (phase, reply) {
            (ClonePhase::Finding(lookup), reply) => match lookup.resume(&self.place.repo, reply) {
                Step::Run(effect, lookup) => Step::Run(
                    effect,
                    self.enter(ClonePhase::Finding(lookup)),
                ),
                Step::Finish(Ok(source)) => self.found(source),
                Step::Finish(Err(e)) => Step::Finish(Err(e)),
                Step::Mismatch => Step::Mismatch,
            },
            (ClonePhase::Clashing { name, lookup }, reply) => match lookup.resume(
                &self.place.repo,
                reply,
            ) {
                Step::Run(effect, lookup) => Step::Run(
                    effect,
                    self.enter(ClonePhase::Clashing { name, lookup }),
                ),
                Step::Finish(Ok(_)) => Step::Finish(
                    Err(workspaces::duplicate_error(&self.place.repo, name.as_str())),
                ),
                Step::Finish(Err(e)) => Step::Finish(Err(e)),
                Step::Mismatch => Step::Mismatch,
            },
            (_, Reply::Failed(e)) => Step::Finish(Err(e)),
            (ClonePhase::Opening, Reply::Rows(rows)) => match workspaces::find_row(
                &rows,
                self.source_name.as_str(),
            ) {
                None => Step::Finish(Err(SwarmError::WorkspaceNotFound(self.reference))),
                Some(row) => {
                    let CloneWorkspace { place, reference, source_name, wanted, .. } = self;
                    Step::Run(
                        Effect::CurrentBranch(row.path.clone()),
                        CloneWorkspace {
                            place,
                            reference,
                            source_name,
                            wanted,
                            rows,
                            phase: ClonePhase::Finding(Lookup::Branch(row)),
                        },
                    )
                },
            },
            (ClonePhase::MakingDir { source, name }, Reply::Done) => {
                let path = new_path(&self.place, name.as_str());
                Step::Run(
                    Effect::PathExists(path),
                    self.enter(ClonePhase::Probing { source, name }),
                )
            },
            (ClonePhase::Probing { source, name }, Reply::Exists(exists)) => if exists {
                Step::Finish(Err(workspaces::duplicate_error(&self.place.repo, name.as_str())))
            } else {
                let args = vec!["rev-parse".to_owned(), "HEAD".to_owned()];
                proof {
                    assert(args.deep_view() =~= seq!["rev-parse"@, "HEAD"@]);
                }
                Step::Run(
                    Effect::RunGit { cwd: Some(source.path), args },
                    self.enter(ClonePhase::ReadingHead { name }),
                )
            },
            (ClonePhase::ReadingHead { name }, Reply::Output(output)) => {
                match effects::git_result(&output) {
                    Err(e) => Step::Finish(Err(e)),
                    Ok(head) => {
                        let path = new_path(&self.place, name.as_str());
                        match workspaces::build_clone_worktree_add_args(
                            self.place.bare_repo_path.as_str(),
                            path.as_str(),
                            name.as_str(),
                            head.as_str(),
                        ) {
                            Err(e) => Step::Finish(Err(e)),
                            Ok(args) => {
                                let effect = materialize(&self.place, name.as_str(), args);
                                Step::Run(effect, self.enter(ClonePhase::Adding { name }))
                            },
                        }
                    },
                }
            },
            (ClonePhase::Adding { name }, Reply::Output(output)) => match effects::git_result(
                &output,
            ) {
                Err(e) => Step::Finish(Err(e)),
                Ok(_) => Step::Run(
                    Effect::ReadClock,
                    self.enter(ClonePhase::Stamping { name }),
                ),
            },
            (ClonePhase::Stamping { name }, Reply::Clock(now)) => {
                let row = make_row(&self.place, name.as_str(), now);
                Step::Run(
                    Effect::InsertWorkspace(row.clone()),
                    self.enter(ClonePhase::Inserting(row)),
                )
            },
            (ClonePhase::Inserting(row), Reply::Done) => Step::Finish(
                Ok(workspaces::make_workspace(&self.place.repo, &row)),
            ),
            _ => Step::Mismatch,
        }
    }
}

/// What the renaming of a workspace waits for: the tables, the workspace, a
/// look at a workspace that has the new name, the number of its sessions, the
/// renaming of its branch, the move of its worktree and the record.
#[derive(Debug)]
pub enum RenamePhase {
    Opening,
    Finding(Lookup),
    Clashing { name: String, lookup: Lookup },
    Counting { source: Workspace, name: String },
    RenamingBranch { source: Workspace, row: WorkspaceRow },
    Moving { source: Workspace, row: WorkspaceRow },
    Updating(WorkspaceRow),
}

/// What a `RenamePhase` holds.
#[verifier::ext_equal]
pub enum RenamePhaseView {
    Opening,
    Finding(LookupView),
    Clashing { name: Seq<char>, lookup: LookupView },
    Counting { source: WorkspaceView, name: Seq<char> },
    RenamingBranch { source: WorkspaceView, row: WorkspaceRowView },
    Moving { source: WorkspaceView, row: WorkspaceRowView },
    Updating(WorkspaceRowView),
}

impl View for RenamePhase {
    type V = RenamePhaseView;

    open spec fn view(&self) -> RenamePhaseView {
        match self {
            RenamePhase::Opening => RenamePhaseView::Opening,
            RenamePhase::Finding(a) => RenamePhaseView::Finding(a@),
            RenamePhase::Clashing { name, lookup } => RenamePhaseView::Clashing {
                name: name@,
                lookup: lookup@,
            },
            RenamePhase::Counting { source, name } => RenamePhaseView::Counting {
                source: source@,
                name: name@,
            },
            RenamePhase::RenamingBranch { source, row } => RenamePhaseView::RenamingBranch {
                source: source@,
                row: row@,
            },
            RenamePhase::Moving { source, row } => RenamePhaseView::Moving {
                source: source@,
                row: row@,
            },
            RenamePhase::Updating(a) => RenamePhaseView::Updating(a@),
        }
    }
}

impl DeepView for RenamePhase {
    type V = RenamePhaseView;

    open spec fn deep_view(&self) -> RenamePhaseView {
        self@
    }
}

impl Clone for RenamePhase {
    fn clone(&self) -> (r: Self)
        ensures
            r@ == self@,
    {
        match self {
            RenamePhase::Opening => RenamePhase::Opening,
            RenamePhase::Finding(a) => RenamePhase::Finding(a.clone()),
            RenamePhase::Clashing { name, lookup } => RenamePhase::Clashing {
                name: name.clone(),
                lookup: lookup.clone(),
            },
            RenamePhase::Counting { source, name } => RenamePhase::Counting {
                source: source.clone(),
                name: name.clone(),
            },
            RenamePhase::RenamingBranch { source, row } => RenamePhase::RenamingBranch {
                source: source.clone(),
                row: row.clone(),
            },
            RenamePhase::Moving { source, row } => RenamePhase::Moving {
                source: source.clone(),
                row: row.clone(),
            },
            RenamePhase::Updating(a) => RenamePhase::Updating(a.clone()),
        }
    }
}

/// A workspace being renamed.
#[derive(Debug)]
pub struct Rename {
    pub place: Place,
    pub reference: String,
    pub source_name: String,
    pub wanted: String,
    pub rows: Vec<WorkspaceRow>,
    pub phase: RenamePhase,
}

/// What a `Rename` holds.
#[verifier::ext_equal]
pub struct RenameView {
    pub place: PlaceView,
    pub reference: Seq<char>,
    pub source_name: Seq<char>,
    pub wanted: Seq<char>,
    pub rows: Seq<WorkspaceRowView>,
    pub phase: RenamePhaseView,
}

impl View for Rename {
    type V = RenameView;

    open spec fn view(&self) -> RenameView {
        RenameView {
            place: self.place@,
            reference: self.reference@,
            source_name: self.source_name@,
            wanted: self.wanted@,
            rows: self.rows.deep_view(),
            phase: self.phase@,
        }
    }
}

impl DeepView for Rename {
    type V = RenameView;

    open spec fn deep_view(&self) -> RenameView {
        self@
    }
}

impl Clone for Rename {
    fn clone(&self) -> (r: Self)
        ensures
            r@ == self@,
    {
        Rename {
            place: self.place.clone(),
            reference: self.reference.clone(),
            source_name: self.source_name.clone(),
            wanted: self.wanted.clone(),
            rows: self.rows.clone(),
            phase: self.phase.clone(),
        }
    }
}

/// The operation in another phase.
pub open spec fn rename_in(s: RenameView, phase: RenamePhaseView) -> RenameView {
    RenameView { phase, ..s }
}

/// The first step of renaming a workspace.
pub open spec fn rename_start(
    store: RepositoryStoreView,
    workspace: Seq<char>,
    new_name: Seq<char>,
) -> StepView<RenameView, WorkspaceView> {
    match workspaces::located(store, workspace) {
        Err(e) => StepView::Finish(Err(e)),
        Ok((place, source_name)) => StepView::Run(
            EffectView::OpenWorkspaces(place.db_path),
            RenameView {
                place,
                reference: workspace,
                source_name,
                wanted: new_name,
                rows: seq![],
                phase: RenamePhaseView::Opening,
            },
        ),
    }
}

/// The step once the workspace is known. Its own name changes nothing.
pub open spec fn rename_found(s: RenameView, source: WorkspaceView) -> StepView<
    RenameView,
    WorkspaceView,
> {
    match workspaces::resolved_workspace_name(Some(s.wanted), source.branch) {
        Err(e) => StepView::Finish(Err(e)),
        Ok(name) => if name == source.name {
            StepView::Finish(Ok(source))
        } else {
            match workspaces::row_named(s.rows, name) {
                Some(row) => StepView::Run(
                    EffectView::CurrentBranch(row.path),
                    rename_in(
                        s,
                        RenamePhaseView::Clashing { name, lookup: LookupView::Branch(row) },
                    ),
                ),
                None => StepView::Run(
                    EffectView::CountSessions(source.name),
                    rename_in(s, RenamePhaseView::Counting { source, name }),
                ),
            }
        },
    }
}

/// Renames the branch of a workspace.
pub open spec fn rename_branch_command(
    place: PlaceView,
    source: WorkspaceView,
    name: Seq<char>,
) -> EffectView {
    workspaces::repository_command(place, seq!["branch"@, "-m"@, source.branch, name])
}

/// Moves the worktree of a workspace.
pub open spec fn move_command(
    place: PlaceView,
    source: WorkspaceView,
    path: Seq<char>,
) -> EffectView {
    workspaces::repository_command(place, seq!["worktree"@, "move"@, source.path, path])
}

/// The step once the sessions are counted. A workspace with sessions keeps its
/// name; another one gets its new name beside its present path.
pub open spec fn rename_counted(
    s: RenameView,
    source: WorkspaceView,
    name: Seq<char>,
    sessions: i64,
) -> StepView<RenameView, WorkspaceView> {
    if sessions > 0 {
        StepView::Finish(
            Err(
                SwarmErrorView::InvalidWorkspace(
                    "cannot rename workspace `"@ + source.name + "` with sessions"@,
                ),
            ),
        )
    } else {
        match paths::parent_path(source.path) {
            None => StepView::Finish(Err(SwarmErrorView::PathResolution)),
            Some(parent) => StepView::Run(
                rename_branch_command(s.place, source, name),
                rename_in(
                    s,
                    RenamePhaseView::RenamingBranch {
                        source,
                        row: WorkspaceRowView {
                            name,
                            branch: name,
                            path: paths::joined_path(parent, name),
                            created_at: source.created_at,
                        },
                    },
                ),
            ),
        }
    }
}

/// The step that follows a reply.
pub open spec fn rename_next(s: RenameView, reply: ReplyView) -> StepView<
    RenameView,
    WorkspaceView,
> {
    match (s.phase, reply) {
        (RenamePhaseView::Finding(lookup), _) => match workspaces::lookup_next(
            s.place.repo,
            lookup,
            reply,
        ) {
            StepView::Run(effect, lookup) => StepView::Run(
                effect,
                rename_in(s, RenamePhaseView::Finding(lookup)),
            ),
            StepView::Finish(Ok(source)) => rename_found(s, source),
            StepView::Finish(Err(e)) => StepView::Finish(Err(e)),
            StepView::Mismatch => StepView::Mismatch,
        },
        (RenamePhaseView::Clashing { name, lookup }, _) => match workspaces::lookup_next(
            s.place.repo,
            lookup,
            reply,
        ) {
            StepView::Run(effect, lookup) => StepView::Run(
                effect,
                rename_in(s, RenamePhaseView::Clashing { name, lookup }),
            ),
            StepView::Finish(Ok(_)) => StepView::Finish(
                Err(workspaces::duplicate_workspace(s.place.repo, name)),
            ),
            StepView::Finish(Err(e)) => StepView::Finish(Err(e)),
            StepView::Mismatch => StepView::Mismatch,
        },
        (_, ReplyView::Failed(e)) => StepView::Finish(Err(e)),
        (RenamePhaseView::Opening, ReplyView::Rows(rows)) => match workspaces::row_named(
            rows,
            s.source_name,
        ) {
            None => StepView::Finish(Err(SwarmErrorView::WorkspaceNotFound(s.reference))),
            Some(row) => StepView::Run(
                EffectView::CurrentBranch(row.path),
                RenameView {
                    rows,
                    phase: RenamePhaseView::Finding(LookupView::Branch(row)),
                    ..s
                },
            ),
        },
        (RenamePhaseView::Counting { source, name }, ReplyView::Count(sessions)) => rename_counted(
            s,
            source,
            name,
            sessions,
        ),
        (RenamePhaseView::RenamingBranch { source, row }, ReplyView::Output(output)) => {
            match effects::git_outcome(output) {
                Err(e) => StepView::Finish(Err(e)),
                Ok(_) => StepView::Run(
                    move_command(s.place, source, row.path),
                    rename_in(s, RenamePhaseView::Moving { source, row }),
                ),
            }
        },
        (RenamePhaseView::Moving { source, row }, ReplyView::Output(output)) => {
            match effects::git_outcome(output) {
                Err(e) => StepView::Finish(Err(e)),
                Ok(_) => StepView::Run(
                    EffectView::UpdateWorkspace { name: source.name, row },
                    rename_in(s, RenamePhaseView::Updating(row)),
                ),
            }
        },
        (RenamePhaseView::Updating(row), ReplyView::Done) => StepView::Finish(
            Ok(workspaces::workspace_of(s.place.repo, row)),
        ),
        _ => StepView::Mismatch,
    }
}

impl WorkspaceStore {
    /// Begins to rename a workspace.
    pub fn rename(&self, workspace: &str, new_name: &str) -> (r: Step<Rename, Workspace>)
        ensures
            r@ == rename_start(self.repos@, workspace@, new_name@),
    {
        match self.locate(workspace) {
            Err(e) => Step::Finish(Err(e)),
            Ok((place, source_name)) => {
                let rows: Vec<WorkspaceRow> = Vec::new();
                proof {
                    assert(rows.deep_view() =~= seq![]);
                }
                Step::Run(
                    Effect::OpenWorkspaces(place.db_path.clone()),
                    Rename {
                        place,
                        reference: workspace.to_owned(),
                        source_name,
                        wanted: new_name.to_owned(),
                        rows,
                        phase: RenamePhase::Opening,
                    },
                )
            },
        }
    }
}

impl Rename {
    fn enter(self, phase: RenamePhase) -> (r: Rename)
        ensures
            r@ == rename_in(self@, phase@),
    {
        let Rename { place, reference, source_name, wanted, rows, .. } = self;
        Rename { place, reference, source_name, wanted, rows, phase }
    }

    fn found(self, source: Workspace) -> (r: Step<Rename, Workspace>)
        ensures
            r@ == rename_found(self@, source@),
    {
        match workspaces::resolve_workspace_name(
            Some(self.wanted.as_str()),
            source.branch.as_str(),
        ) {
            Err(e) => Step::Finish(Err(e)),
            Ok(name) => if name == source.name {
                Step::Finish(Ok(source))
            } else {
                match workspaces::find_row(&self.rows, name.as_str()) {
                    Some(row) => Step::Run(
                        Effect::CurrentBranch(row.path.clone()),
                        self.enter(RenamePhase::Clashing { name, lookup: Lookup::Branch(row) }),
                    ),
                    None => Step::Run(
                        Effect::CountSessions(source.name.clone()),
                        self.enter(RenamePhase::Counting { source, name }),
                    ),
                }
            },
        }
    }

    fn counted(self, source: Workspace, name: String, sessions: i64) -> (r: Step<Rename, Workspace>)
        ensures
            r@ == rename_counted(self@, source@, name@, sessions),
    {
        if sessions > 0 {
            let mut message = "cannot rename workspace `".to_owned();
            message.append(source.name.as_str());
            message.append("` with sessions");
            return Step::Finish(Err(SwarmError::InvalidWorkspace(message)));
        }
        match paths::parent(source.path.as_str()) {
            None => Step::Finish(Err(SwarmError::PathResolution)),
            Some(parent) => {
                let row = WorkspaceRow {
                    path: paths::join_path(parent.as_str(), name.as_str()),
                    name: name.clone(),
                    branch: name.clone(),
                    created_at: source.created_at,
                };
                let args = vec!["branch".to_owned(), "-m".to_owned(), source.branch.clone(), name];
                proof {
                    assert(args.deep_view() =~= seq!["branch"@, "-m"@, source@.branch, name@]);
                }
                let effect = self.place.command(args);
                Step::Run(effect, self.enter(RenamePhase::RenamingBranch { source, row }))
            },
        }
    }

    /// The step that follows a reply.
    pub fn resume(self, reply: Reply) -> (r: Step<Rename, Workspace>)
        ensures
            r@ == rename_next(self@, reply@),
    {
        let phase = self.phase.clone();
        match (phase, reply) {
            (RenamePhase::Finding(lookup), reply) => match lookup.resume(&self.place.repo, reply) {
                Step::Run(effect, lookup) => Step::Run(
                    effect,
                    self.enter(RenamePhase::Finding(lookup)),
                ),
                Step::Finish(Ok(source)) => self.found(source),
                Step::Finish(Err(e)) => Step::Finish(Err(e)),
                Step::Mismatch => Step::Mismatch,
            },
            (RenamePhase::Clashing { name, lookup }, reply) => match lookup.resume(
                &self.place.repo,
                reply,
            ) {
                Step::Run(effect, lookup) => Step::Run(
                    effect,
                    self.enter(RenamePhase::Clashing { name, lookup }),
                ),
                Step::Finish(Ok(_)) => Step::Finish(
                    Err(workspaces::duplicate_error(&self.place.repo, name.as_str())),
                ),
                Step::Finish(Err(e)) => Step::Finish(Err(e)),
                Step::Mismatch => Step::Mismatch,
            },
            (_, Reply::Failed(e)) => Step::Finish(Err(e)),
            (RenamePhase::Opening, Reply::Rows(rows)) => match workspaces::find_row(
                &rows,
                self.source_name.as_str(),
            ) {
                None => Step::Finish(Err(SwarmError::WorkspaceNotFound(self.reference))),
                Some(row) => {
                    let Rename { place, reference, source_name, wanted, .. } = self;
                    Step::Run(
                        Effect::CurrentBranch(row.path.clone()),
                        Rename {
                            place,
                            reference,
                            source_name,
                            wanted,
                            rows,
                            phase: RenamePhase::Finding(Lookup::Branch(row)),
                        },
                    )
                },
            },
            (RenamePhase::Counting { source, name }, Reply::Count(sessions)) => self.counted(
                source,
                name,
                sessions,
            ),
            (RenamePhase::RenamingBranch { source, row }, Reply::Output(output)) => {
                match effects::git_result(&output) {
                    Err(e) => Step::Finish(Err(e)),
                    Ok(_) => {
                        let args = vec![
                            "worktree".to_owned(),
                            "move".to_owned(),
                            source.path.clone(),
                            row.path.clone(),
                        ];
                        proof {
                            assert(args.deep_view()
                                =~= seq!["worktree"@, "move"@, source@.path, row@.path]);
                        }
                        let effect = self.place.command(args);
                        Step::Run(effect, self.enter(RenamePhase::Moving { source, row }))
                    },
                }
            },
            (RenamePhase::Moving { source, row }, Reply::Output(output)) => {
                match effects::git_result(&output) {
                    Err(e) => Step::Finish(Err(e)),
                    Ok(_) => Step::Run(
                        Effect::UpdateWorkspace { name: source.name, row: row.clone() },
                        self.enter(RenamePhase::Updating(row)),
                    ),
                }
            },
            (RenamePhase::Updating(row), Reply::Done) => Step::Finish(
                Ok(workspaces::make_workspace(&self.place.repo, &row)),
            ),
            _ => Step::Mismatch,
        }
    }
}

/// What the removal of a workspace, or a look at it, waits for: the tables, the
/// workspace, the removal of its worktree and that of its record.
#[derive(Debug)]
pub enum RemovePhase {
    Opening,
    Finding(Lookup),
    Removing(Workspace),
    Deleting(Workspace),
}

/// What a `RemovePhase` holds.
#[verifier::ext_equal]
pub enum RemovePhaseView {
    Opening,
    Finding(LookupView),
    Removing(WorkspaceView),
    Deleting(WorkspaceView),
}

impl View for RemovePhase {
    type V = RemovePhaseView;

    open spec fn view(&self) -> RemovePhaseView {
        match self {
            RemovePhase::Opening => RemovePhaseView::Opening,
            RemovePhase::Finding(a) => RemovePhaseView::Finding(a@),
            RemovePhase::Removing(a) => RemovePhaseView::Removing(a@),
            RemovePhase::Deleting(a) => RemovePhaseView::Deleting(a@),
        }
    }
}

impl DeepView for RemovePhase {
    type V = RemovePhaseView;

    open spec fn deep_view(&self) -> RemovePhaseView {
        self@
    }
}

impl Clone for RemovePhase {
    fn clone(&self) -> (r: Self)
        ensures
            r@ == self@,
    {
        match self {
            RemovePhase::Opening => RemovePhase::Opening,
            RemovePhase::Finding(a) => RemovePhase::Finding(a.clone()),
            RemovePhase::Removing(a) => RemovePhase::Removing(a.clone()),
            RemovePhase::Deleting(a) => RemovePhase::Deleting(a.clone()),
        }
    }
}

/// A workspace being looked at or removed.
#[derive(Debug)]
pub struct Remove {
    pub place: Place,
    pub reference: String,
    pub name: String,
    pub keep: bool,
    pub phase: RemovePhase,
}

/// What a `Remove` holds.
#[verifier::ext_equal]
pub struct RemoveView {
    pub place: PlaceView,
    pub reference: Seq<char>,
    pub name: Seq<char>,
    pub keep: bool,
    pub phase: RemovePhaseView,
}

impl View for Remove {
    type V = RemoveView;

    open spec fn view(&self) -> RemoveView {
        RemoveView {
            place: self.place@,
            reference: self.reference@,
            name: self.name@,
            keep: self.keep,
            phase: self.phase@,
        }
    }
}

impl DeepView for Remove {
    type V = RemoveView;

    open spec fn deep_view(&self) -> RemoveView {
        self@
    }
}

impl Clone for Remove {
    fn clone(&self) -> (r: Self)
        ensures
            r@ == self@,
    {
        Remove {
            place: self.place.clone(),
            reference: self.reference.clone(),
            name: self.name.clone(),
            keep: self.keep,
            phase: self.phase.clone(),
        }
    }
}

/// The operation in another phase.
pub open spec fn remove_in(s: RemoveView, phase: RemovePhaseView) -> RemoveView {
    RemoveView { phase, ..s }
}

/// The first step of a look at a workspace (which keeps it) or of its removal.
pub open spec fn remove_start(
    store: RepositoryStoreView,
    workspace: Seq<char>,
    keep: bool,
) -> StepView<RemoveView, WorkspaceView> {
    match workspaces::located(store, workspace) {
        Err(e) => StepView::Finish(Err(e)),
        Ok((place, name)) => StepView::Run(
            EffectView::OpenWorkspaces(place.db_path),
            RemoveView { place, reference: workspace, name, keep, phase: RemovePhaseView::Opening },
        ),
    }
}

/// Removes the worktree of a workspace.
pub open spec fn remove_command(place: PlaceView, workspace: WorkspaceView) -> EffectView {
    workspaces::repository_command(
        place,
        seq!["worktree"@, "remove"@, "--force"@, workspace.path],
    )
}

/// The step that follows a reply.
pub open spec fn remove_next(s: RemoveView, reply: ReplyView) -> StepView<
    RemoveView,
    WorkspaceView,
> {
    match (s.phase, reply) {
        (RemovePhaseView::Finding(lookup), _) => match workspaces::lookup_next(
            s.place.repo,
            lookup,
            reply,
        ) {
            StepView::Run(effect, lookup) => StepView::Run(
                effect,
                remove_in(s, RemovePhaseView::Finding(lookup)),
            ),
            StepView::Finish(Ok(workspace)) => if s.keep {
                StepView::Finish(Ok(workspace))
            } else {
                StepView::Run(
                    remove_command(s.place, workspace),
                    remove_in(s, RemovePhaseView::Removing(workspace)),
                )
            },
            StepView::Finish(Err(e)) => StepView::Finish(Err(e)),
            StepView::Mismatch => StepView::Mismatch,
        },
        (_, ReplyView::Failed(e)) => StepView::Finish(Err(e)),
        (RemovePhaseView::Opening, ReplyView::Rows(rows)) => match workspaces::row_named(
            rows,
            s.name,
        ) {
            None => StepView::Finish(Err(SwarmErrorView::WorkspaceNotFound(s.reference))),
            Some(row) => StepView::Run(
                EffectView::CurrentBranch(row.path),
                remove_in(s, RemovePhaseView::Finding(LookupView::Branch(row))),
            ),
        },
        (RemovePhaseView::Removing(workspace), ReplyView::Output(output)) => {
            match effects::git_outcome(output) {
                Err(e) => StepView::Finish(Err(e)),
                Ok(_) => StepView::Run(
                    EffectView::DeleteWorkspace(workspace.name),
                    remove_in(s, RemovePhaseView::Deleting(workspace)),
                ),
            }
        },
        (RemovePhaseView::Deleting(workspace), ReplyView::Done) => StepView::Finish(Ok(workspace)),
        _ => StepView::Mismatch,
    }
}

impl WorkspaceStore {
    fn begin(&self, workspace: &str, keep: bool) -> (r: Step<Remove, Workspace>)
        ensures
            r@ == remove_start(self.repos@, workspace@, keep),
    {
        match self.locate(workspace) {
            Err(e) => Step::Finish(Err(e)),
            Ok((place, name)) => Step::Run(
                Effect::OpenWorkspaces(place.db_path.clone()),
                Remove {
                    place,
                    reference: workspace.to_owned(),
                    name,
                    keep,
                    phase: RemovePhase::Opening,
                },
            ),
        }
    }

    /// Begins to look at a workspace.
    pub fn info(&self, workspace: &str) -> (r: Step<Remove, Workspace>)
        ensures
            r@ == remove_start(self.repos@, workspace@, true),
    {
        self.begin(workspace, true)
    }

    /// Begins to remove a workspace.
    pub fn remove(&self, workspace: &str) -> (r: Step<Remove, Workspace>)
        ensures
            r@ == remove_start(self.repos@, workspace@, false),
    {
        self.begin(workspace, false)
    }

    /// The repository of a workspace, and the first step of a look at the
    /// workspace.
    pub fn resolve_reference(&self, workspace: &str) -> (r: Result<
        (Repository, Step<Remove, Workspace>),
        SwarmError,
    >)
        ensures
            match workspaces::located(self.repos@, workspace@) {
                Ok(l) => r matches Ok(p) && p.0@ == l.0.repo && p.1@ == remove_start(
                    self.repos@,
                    workspace@,
                    true,
                ),
                Err(e) => r matches Err(x) && x@ == e,
            },
    {
        match self.locate(workspace) {
            Err(e) => Err(e),
            Ok((place, _)) => Ok((place.repo, self.begin(workspace, true))),
        }
    }
}

impl Remove {
    fn enter(self, phase: RemovePhase) -> (r: Remove)
        ensures
            r@ == remove_in(self@, phase@),
    {
        let Remove { place, reference, name, keep, .. } = self;
        Remove { place, reference, name, keep, phase }
    }

    /// The step that follows a reply.
    pub fn resume(self, reply: Reply) -> (r: Step<Remove, Workspace>)
        ensures
            r@ == remove_next(self@, reply@),
    {
        let phase = self.phase.clone();
        match (phase, reply) {
            (RemovePhase::Finding(lookup), reply) => match lookup.resume(&self.place.repo, reply) {
                Step::Run(effect, lookup) => Step::Run(
                    effect,
                    self.enter(RemovePhase::Finding(lookup)),
                ),
                Step::Finish(Ok(workspace)) => if self.keep {
                    Step::Finish(Ok(workspace))
                } else {
                    let args = vec![
                        "worktree".to_owned(),
                        "remove".to_owned(),
                        "--force".to_owned(),
                        workspace.path.clone(),
                    ];
                    proof {
                        assert(args.deep_view()
                            =~= seq!["worktree"@, "remove"@, "--force"@, workspace@.path]);
                    }
                    let effect = self.place.command(args);
                    Step::Run(effect, self.enter(RemovePhase::Removing(workspace)))
                },
                Step::Finish(Err(e)) => Step::Finish(Err(e)),
                Step::Mismatch => Step::Mismatch,
            },
            (_, Reply::Failed(e)) => Step::Finish(Err(e)),
            (RemovePhase::Opening, Reply::Rows(rows)) => match workspaces::find_row(
                &rows,
                self.name.as_str(),
            ) {
                None => Step::Finish(Err(SwarmError::WorkspaceNotFound(self.reference))),
                Some(row) => Step::Run(
                    Effect::CurrentBranch(row.path.clone()),
                    self.enter(RemovePhase::Finding(Lookup::Branch(row))),
                ),
            },
            (RemovePhase::Removing(workspace), Reply::Output(output)) => {
                match effects::git_result(&output) {
                    Err(e) => Step::Finish(Err(e)),
                    Ok(_) => Step::Run(
                        Effect::DeleteWorkspace(workspace.name.clone()),
                        self.enter(RemovePhase::Deleting(workspace)),
                    ),
                }
            },
            (RemovePhase::Deleting(workspace), Reply::Done) => Step::Finish(Ok(workspace)),
            _ => Step::Mismatch,
        }
    }
}

/// What the listing of workspaces waits for: the tables, or a look at one row
/// after those that are done and before the rest.
#[derive(Debug)]
pub enum ListPhase {
    Opening,
    Looking { done: Vec<Workspace>, lookup: Lookup, rest: Vec<WorkspaceRow> },
}

/// What a `ListPhase` holds.
#[verifier::ext_equal]
pub enum ListPhaseView {
    Opening,
    Looking { done: Seq<WorkspaceView>, lookup: LookupView, rest: Seq<WorkspaceRowView> },
}

impl View for ListPhase {
    type V = ListPhaseView;

    open spec fn view(&self) -> ListPhaseView {
        match self {
            ListPhase::Opening => ListPhaseView::Opening,
            ListPhase::Looking { done, lookup, rest } => ListPhaseView::Looking {
                done: done.deep_view(),
                lookup: lookup@,
                rest: rest.deep_view(),
            },
        }
    }
}

impl DeepView for ListPhase {
    type V = ListPhaseView;

    open spec fn deep_view(&self) -> ListPhaseView {
        self@
    }
}

impl Clone for ListPhase {
    fn clone(&self) -> (r: Self)
        ensures
            r@ == self@,
    {
        match self {
            ListPhase::Opening => ListPhase::Opening,
            ListPhase::Looking { done, lookup, rest } => ListPhase::Looking {
                done: done.clone(),
                lookup: lookup.clone(),
                rest: rest.clone(),
            },
        }
    }
}

/// The workspaces of a repository being listed.
#[derive(Debug)]
pub struct ListWorkspaces {
    pub repo: Repository,
    pub phase: ListPhase,
}

/// What a `ListWorkspaces` holds.
#[verifier::ext_equal]
pub struct ListWorkspacesView {
    pub repo: RepositoryView,
    pub phase: ListPhaseView,
}

impl View for ListWorkspaces {
    type V = ListWorkspacesView;

    open spec fn view(&self) -> ListWorkspacesView {
        ListWorkspacesView {
            repo: self.repo@,
            phase: self.phase@,
        }
    }
}

impl DeepView for ListWorkspaces {
    type V = ListWorkspacesView;

    open spec fn deep_view(&self) -> ListWorkspacesView {
        self@
    }
}

impl Clone for ListWorkspaces {
    fn clone(&self) -> (r: Self)
        ensures
            r@ == self@,
    {
        ListWorkspaces {
            repo: self.repo.clone(),
            phase: self.phase.clone(),
        }
    }
}

/// The first step of listing the workspaces of a repository.
pub open spec fn list_start(store: RepositoryStoreView, repository: Seq<char>) -> StepView<
    ListWorkspacesView,
    Seq<WorkspaceView>,
> {
    match repos::required(store.rows, repository) {
        Err(e) => StepView::Finish(Err(e)),
        Ok(repo) => StepView::Run(
            EffectView::OpenWorkspaces(
                workspaces::place_of(store.paths.repos_dir, repo).db_path,
            ),
            ListWorkspacesView { repo, phase: ListPhaseView::Opening },
        ),
    }
}

/// The step once some workspaces are done: a look at the next row, or the end.
pub open spec fn list_rest(
    repo: RepositoryView,
    done: Seq<WorkspaceView>,
    rows: Seq<WorkspaceRowView>,
) -> StepView<ListWorkspacesView, Seq<WorkspaceView>> {
    if rows.len() == 0 {
        StepView::Finish(Ok(done))
    } else {
        StepView::Run(
            EffectView::CurrentBranch(rows[0].path),
            ListWorkspacesView {
                repo,
                phase: ListPhaseView::Looking {
                    done,
                    lookup: LookupView::Branch(rows[0]),
                    rest: rows.skip(1),
                },
            },
        )
    }
}

/// The step that follows a reply.
pub open spec fn list_next(s: ListWorkspacesView, reply: ReplyView) -> StepView<
    ListWorkspacesView,
    Seq<WorkspaceView>,
> {
    match (s.phase, reply) {
        (ListPhaseView::Opening, ReplyView::Failed(e)) => StepView::Finish(Err(e)),
        (ListPhaseView::Opening, ReplyView::Rows(rows)) => list_rest(s.repo, seq![], rows),
        (ListPhaseView::Looking { done, lookup, rest }, _) => match workspaces::lookup_next(
            s.repo,
            lookup,
            reply,
        ) {
            StepView::Run(effect, lookup) => StepView::Run(
                effect,
                ListWorkspacesView {
                    repo: s.repo,
                    phase: ListPhaseView::Looking { done, lookup, rest },
                },
            ),
            StepView::Finish(Ok(workspace)) => list_rest(s.repo, done.push(workspace), rest),
            StepView::Finish(Err(e)) => StepView::Finish(Err(e)),
            StepView::Mismatch => StepView::Mismatch,
        },
        _ => StepView::Mismatch,
    }
}

/// What a step of a listing holds.
pub open spec fn list_step(step: Step<ListWorkspaces, Vec<Workspace>>) -> StepView<
    ListWorkspacesView,
    Seq<WorkspaceView>,
> {
    match step {
        Step::Run(effect, state) => StepView::Run(effect@, state@),
        Step::Finish(Ok(list)) => StepView::Finish(Ok(list.deep_view())),
        Step::Finish(Err(e)) => StepView::Finish(Err(e@)),
        Step::Mismatch => StepView::Mismatch,
    }
}

fn list_remaining(repo: Repository, done: Vec<Workspace>, rows: Vec<WorkspaceRow>) -> (r: Step<
    ListWorkspaces,
    Vec<Workspace>,
>)
    ensures
        list_step(r) == list_rest(repo@, done.deep_view(), rows.deep_view()),
{
    if rows.len() == 0 {
        return Step::Finish(Ok(done));
    }
    let ghost all = rows.deep_view();
    let mut rows = rows;
    let row = rows.remove(0);
    proof {
        assert(all[0] == row@);
        assert(rows.deep_view() =~= all.skip(1));
    }
    Step::Run(
        Effect::CurrentBranch(row.path.clone()),
        ListWorkspaces {
            repo,
            phase: ListPhase::Looking { done, lookup: Lookup::Branch(row), rest: rows },
        },
    )
}

impl WorkspaceStore {
    /// Begins to list the workspaces of a repository.
    pub fn list(&self, repository: &str) -> (r: Step<ListWorkspaces, Vec<Workspace>>)
        ensures
            list_step(r) == list_start(self.repos@, repository@),
    {
        match self.repos.require_repository(repository) {
            Err(e) => Step::Finish(Err(e)),
            Ok(repo) => Step::Run(
                Effect::OpenWorkspaces(self.repos.repo_db_path(&repo)),
                ListWorkspaces { repo, phase: ListPhase::Opening },
            ),
        }
    }
}

impl ListWorkspaces {
    /// The step that follows a reply.
    pub fn resume(self, reply: Reply) -> (r: Step<ListWorkspaces, Vec<Workspace>>)
        ensures
            list_step(r) == list_next(self@, reply@),
    {
        let ListWorkspaces { repo, phase } = self;
        match (phase, reply) {
            (ListPhase::Opening, Reply::Failed(e)) => Step::Finish(Err(e)),
            (ListPhase::Opening, Reply::Rows(rows)) => {
                let done: Vec<Workspace> = Vec::new();
                proof {
                    assert(done.deep_view() =~= seq![]);
                }
                list_remaining(repo, done, rows)
            },
            (ListPhase::Looking { done, lookup, rest }, reply) => match lookup.resume(
                &repo,
                reply,
            ) {
                Step::Run(effect, lookup) => Step::Run(
                    effect,
                    ListWorkspaces { repo, phase: ListPhase::Looking { done, lookup, rest } },
                ),
                Step::Finish(Ok(workspace)) => {
                    let ghost before = done.deep_view();
                    let mut done = done;
                    done.push(workspace);
                    proof {
                        assert(done.deep_view() =~= before.push(workspace@));
                    }
                    list_remaining(repo, done, rest)
                },
                Step::Finish(Err(e)) => Step::Finish(Err(e)),
                Step::Mismatch => Step::Mismatch,
            },
            _ => Step::Mismatch,
        }
    }
}

/// No two rows have the same name.
pub open spec fn names_unique(rows: Seq<WorkspaceRowView>) -> bool {
    forall|i: int, j: int|
        0 <= i < j < rows.len() ==> (#[trigger] rows[i]).name != (#[trigger] rows[j]).name
}

/// A name that no row has, and that can name a workspace.
pub open spec fn fresh_name(rows: Seq<WorkspaceRowView>, name: Seq<char>) -> bool {
    workspaces::row_named(rows, name) is None && workspaces::workspace_name_valid(name)
}

/// A row with a name that no other row has keeps the names apart.
pub proof fn lemma_fresh_row(rows: Seq<WorkspaceRowView>, row: WorkspaceRowView)
    requires
        names_unique(rows),
        fresh_name(rows, row.name),
    ensures
        names_unique(rows.push(row)),
{
    let p = workspaces::has_name(row.name);
    seqs::lemma_first_index(rows, p);
    let out = rows.push(row);
    assert forall|i: int, j: int| 0 <= i < j < out.len() implies (#[trigger] out[i]).name != (
    #[trigger] out[j]).name by {
        if j == rows.len() {
            assert(!p(rows[i]));
        }
    }
}

/// Once a name is chosen, no row has it.
pub open spec fn create_fresh(s: CreateView) -> bool {
    match s.phase {
        CreatePhaseView::MakingDir { name, .. } => fresh_name(s.rows, name),
        CreatePhaseView::Probing { name, .. } => fresh_name(s.rows, name),
        CreatePhaseView::Adding { name } => fresh_name(s.rows, name),
        CreatePhaseView::Stamping { name } => fresh_name(s.rows, name),
        CreatePhaseView::Inserting(row) => fresh_name(s.rows, row.name),
        _ => true,
    }
}

/// Making a workspace records a row only under a name that no row has, at the
/// path of that name, so that names stay apart.
pub proof fn law_created_names_stay_apart(s: CreateView, reply: ReplyView)
    requires
        create_fresh(s),
    ensures
        create_next(s, reply) matches StepView::Run(effect, next) ==> create_fresh(next) && (
        effect matches EffectView::InsertWorkspace(row) ==> fresh_name(next.rows, row.name)
            && row.path == workspace_path(s.place, row.name) && (names_unique(next.rows)
            ==> names_unique(next.rows.push(row)))),
{
    if let StepView::Run(effect, next) = create_next(s, reply) {
        if let EffectView::InsertWorkspace(row) = effect {
            if names_unique(next.rows) {
                lemma_fresh_row(next.rows, row);
            }
        }
    }
}

/// The first step of making a workspace has chosen no name yet.
pub proof fn law_create_starts_fresh(
    store: RepositoryStoreView,
    repository: Seq<char>,
    name: Option<Seq<char>>,
)
    ensures
        create_start(store, repository, name) matches StepView::Run(_, s) ==> create_fresh(s),
{
}

/// A worktree is added only where nothing stands at its path.
pub proof fn law_worktree_needs_free_path(s: CreateView, t: CloneWorkspaceView, reply: ReplyView)
    ensures
        create_next(s, reply) matches StepView::Run(_, next) ==> (next.phase is Adding ==> (
        s.phase is Probing && reply == ReplyView::Exists(false))),
        clone_next(t, reply) matches StepView::Run(_, next) ==> (next.phase is ReadingHead ==> (
        t.phase is Probing && reply == ReplyView::Exists(false))),
        clone_next(t, reply) matches StepView::Run(_, next) ==> (next.phase is Adding
            ==> t.phase is ReadingHead && effects::succeeded(reply)),
{
}

/// Once a name is chosen, no row has it.
pub open spec fn clone_fresh(s: CloneWorkspaceView) -> bool {
    match s.phase {
        ClonePhaseView::MakingDir { name, .. } => fresh_name(s.rows, name),
        ClonePhaseView::Probing { name, .. } => fresh_name(s.rows, name),
        ClonePhaseView::ReadingHead { name } => fresh_name(s.rows, name),
        ClonePhaseView::Adding { name } => fresh_name(s.rows, name),
        ClonePhaseView::Stamping { name } => fresh_name(s.rows, name),
        ClonePhaseView::Inserting(row) => fresh_name(s.rows, row.name),
        _ => true,
    }
}

/// Cloning a workspace records a row only under a name that no row has, at the
/// path of that name, so that names stay apart.
pub proof fn law_cloned_names_stay_apart(s: CloneWorkspaceView, reply: ReplyView)
    requires
        clone_fresh(s),
    ensures
        clone_next(s, reply) matches StepView::Run(effect, next) ==> clone_fresh(next) && (
        effect matches EffectView::InsertWorkspace(row) ==> fresh_name(next.rows, row.name)
            && row.path == workspace_path(s.place, row.name) && (names_unique(next.rows)
            ==> names_unique(next.rows.push(row)))),
{
    if let StepView::Run(effect, next) = clone_next(s, reply) {
        if let EffectView::InsertWorkspace(row) = effect {
            if names_unique(next.rows) {
                lemma_fresh_row(next.rows, row);
            }
        }
    }
}

/// Once a new name is chosen, no row has it.
pub open spec fn rename_fresh(s: RenameView) -> bool {
    match s.phase {
        RenamePhaseView::Counting { name, .. } => fresh_name(s.rows, name),
        RenamePhaseView::RenamingBranch { row, .. } => fresh_name(s.rows, row.name),
        RenamePhaseView::Moving { row, .. } => fresh_name(s.rows, row.name),
        RenamePhaseView::Updating(row) => fresh_name(s.rows, row.name),
        _ => true,
    }
}

/// Renaming a workspace gives it only a name that no row has.
pub proof fn law_renamed_names_stay_apart(s: RenameView, reply: ReplyView)
    requires
        rename_fresh(s),
    ensures
        rename_next(s, reply) matches StepView::Run(effect, next) ==> rename_fresh(next) && (
        effect matches EffectView::UpdateWorkspace { row, .. } ==> fresh_name(next.rows, row.name)),
{
}

/// A workspace with sessions keeps its name: nothing is asked of git.
pub proof fn law_workspace_with_sessions_keeps_its_name(
    s: RenameView,
    source: WorkspaceView,
    name: Seq<char>,
    sessions: i64,
)
    requires
        sessions > 0,
        s.phase == (RenamePhaseView::Counting { source, name }),
    ensures
        rename_next(s, ReplyView::Count(sessions)) matches StepView::Finish(Err(e)) && e
            is InvalidWorkspace,
{
}

/// Renaming a workspace to its own name gives it back as it is.
pub proof fn law_own_name_changes_nothing(s: RenameView, source: WorkspaceView)
    requires
        workspaces::workspace_name_valid(source.name),
        text::trimmed(s.wanted) == source.name,
    ensures
        rename_found(s, source) == StepView::<RenameView, WorkspaceView>::Finish(Ok(source)),
{
}

/// How making a workspace goes on.
pub open spec fn create_rule() -> spec_fn(CreateView, ReplyView) -> StepView<
    CreateView,
    WorkspaceView,
> {
    |s: CreateView, reply: ReplyView| create_next(s, reply)
}

/// A workspace is made by syncing the repository, asking for the default
/// branch, adding a worktree on a branch of the workspace's name that starts at
/// the remote's default branch, and recording it.
pub proof fn law_create_run(
    s: CreateView,
    rows: Seq<WorkspaceRowView>,
    head: ReplyView,
    name: Seq<char>,
    add: ReplyView,
    now: i64,
)
    requires
        s.phase is Opening,
        effects::succeeded(head),
        effects::succeeded(add),
        workspaces::resolved_workspace_name(
            s.wanted,
            workspaces::default_branch_of(effects::written(head)),
        ) == Ok::<_, SwarmErrorView>(name),
        workspaces::row_named(rows, name) is None,
    ensures
        ({
            let branch = workspaces::default_branch_of(effects::written(head));
            let start = StepView::Run(EffectView::OpenWorkspaces(s.place.db_path), s);
            let replies = seq![
                ReplyView::Rows(rows),
                ReplyView::Done,
                head,
                ReplyView::Done,
                ReplyView::Exists(false),
                add,
                ReplyView::Clock(now),
                ReplyView::Done,
            ];
            &&& effects::asked(start, create_rule(), replies) == seq![
                EffectView::OpenWorkspaces(s.place.db_path),
                EffectView::SyncRepository(s.place.repo),
                head_command(s.place),
                EffectView::CreateDir(s.place.workspaces_dir),
                EffectView::PathExists(workspace_path(s.place, name)),
                add_command(s.place, name, branch),
                EffectView::ReadClock,
                EffectView::InsertWorkspace(new_row(s.place, name, now)),
            ]
            &&& effects::reached(start, create_rule(), replies) == StepView::<
                CreateView,
                WorkspaceView,
            >::Finish(Ok(workspaces::workspace_of(s.place.repo, new_row(s.place, name, now))))
        }),
{
    let branch = workspaces::default_branch_of(effects::written(head));
    let start = StepView::Run(EffectView::OpenWorkspaces(s.place.db_path), s);
    let replies = seq![
        ReplyView::Rows(rows),
        ReplyView::Done,
        head,
        ReplyView::Done,
        ReplyView::Exists(false),
        add,
        ReplyView::Clock(now),
        ReplyView::Done,
    ];
    reveal_with_fuel(effects::asked, 10);
    reveal_with_fuel(effects::reached, 10);
    assert(replies.skip(1).skip(1).skip(1).skip(1).skip(1).skip(1).skip(1).skip(1).len() == 0);
    assert(effects::asked(start, create_rule(), replies) =~= seq![
        EffectView::OpenWorkspaces(s.place.db_path),
        EffectView::SyncRepository(s.place.repo),
        head_command(s.place),
        EffectView::CreateDir(s.place.workspaces_dir),
        EffectView::PathExists(workspace_path(s.place, name)),
        add_command(s.place, name, branch),
        EffectView::ReadClock,
        EffectView::InsertWorkspace(new_row(s.place, name, now)),
    ]);
}

/// How cloning a workspace goes on.
pub open spec fn clone_rule() -> spec_fn(CloneWorkspaceView, ReplyView) -> StepView<
    CloneWorkspaceView,
    WorkspaceView,
> {
    |s: CloneWorkspaceView, reply: ReplyView| clone_next(s, reply)
}

/// A workspace is cloned by asking for the source's current commit, adding a
/// worktree on a new branch of the clone's name that starts at this commit, and
/// recording it.
pub proof fn law_clone_run(
    s: CloneWorkspaceView,
    rows: Seq<WorkspaceRowView>,
    source: WorkspaceRowView,
    name: Seq<char>,
    head: ReplyView,
    add: ReplyView,
    now: i64,
)
    requires
        s.phase is Opening,
        workspaces::row_named(rows, s.source_name) == Some(source),
        workspaces::resolved_workspace_name(Some(s.wanted), source.branch) == Ok::<
            _,
            SwarmErrorView,
        >(name),
        workspaces::row_named(rows, name) is None,
        effects::succeeded(head),
        effects::succeeded(add),
    ensures
        ({
            let start = StepView::Run(EffectView::OpenWorkspaces(s.place.db_path), s);
            let replies = seq![
                ReplyView::Rows(rows),
                ReplyView::Branch(source.branch),
                ReplyView::Done,
                ReplyView::Exists(false),
                head,
                add,
                ReplyView::Clock(now),
                ReplyView::Done,
            ];
            &&& effects::asked(start, clone_rule(), replies) == seq![
                EffectView::OpenWorkspaces(s.place.db_path),
                EffectView::CurrentBranch(source.path),
                EffectView::CreateDir(s.place.workspaces_dir),
                EffectView::PathExists(workspace_path(s.place, name)),
                EffectView::RunGit { cwd: Some(source.path), args: seq!["rev-parse"@, "HEAD"@] },
                clone_command(s.place, name, effects::written(head)),
                EffectView::ReadClock,
                EffectView::InsertWorkspace(new_row(s.place, name, now)),
            ]
            &&& effects::reached(start, clone_rule(), replies) == StepView::<
                CloneWorkspaceView,
                WorkspaceView,
            >::Finish(Ok(workspaces::workspace_of(s.place.repo, new_row(s.place, name, now))))
        }),
{
    let start = StepView::Run(EffectView::OpenWorkspaces(s.place.db_path), s);
    let replies = seq![
        ReplyView::Rows(rows),
        ReplyView::Branch(source.branch),
        ReplyView::Done,
        ReplyView::Exists(false),
        head,
        add,
        ReplyView::Clock(now),
        ReplyView::Done,
    ];
    reveal_with_fuel(effects::asked, 10);
    reveal_with_fuel(effects::reached, 10);
    assert(replies.skip(1).skip(1).skip(1).skip(1).skip(1).skip(1).skip(1).skip(1).len() == 0);
    assert(effects::asked(start, clone_rule(), replies) =~= seq![
        EffectView::OpenWorkspaces(s.place.db_path),
        EffectView::CurrentBranch(source.path),
        EffectView::CreateDir(s.place.workspaces_dir),
        EffectView::PathExists(workspace_path(s.place, name)),
        EffectView::RunGit { cwd: Some(source.path), args: seq!["rev-parse"@, "HEAD"@] },
        clone_command(s.place, name, effects::written(head)),
        EffectView::ReadClock,
        EffectView::InsertWorkspace(new_row(s.place, name, now)),
    ]);
}

/// How renaming a workspace goes on.
pub open spec fn rename_rule() -> spec_fn(RenameView, ReplyView) -> StepView<
    RenameView,
    WorkspaceView,
> {
    |s: RenameView, reply: ReplyView| rename_next(s, reply)
}

/// A workspace without sessions is renamed by renaming its branch, moving its
/// worktree beside its present path and recording both; its creation time
/// stays.
pub proof fn law_rename_run(
    s: RenameView,
    rows: Seq<WorkspaceRowView>,
    source: WorkspaceRowView,
    name: Seq<char>,
    parent: Seq<char>,
    renamed: ReplyView,
    moved: ReplyView,
)
    requires
        s.phase is Opening,
        workspaces::row_named(rows, s.source_name) == Some(source),
        workspaces::resolved_workspace_name(Some(s.wanted), source.branch) == Ok::<
            _,
            SwarmErrorView,
        >(name),
        name != source.name,
        workspaces::row_named(rows, name) is None,
        paths::parent_path(source.path) == Some(parent),
        effects::succeeded(renamed),
        effects::succeeded(moved),
    ensures
        ({
            let start = StepView::Run(EffectView::OpenWorkspaces(s.place.db_path), s);
            let row = WorkspaceRowView {
                name,
                branch: name,
                path: paths::joined_path(parent, name),
                created_at: source.created_at,
            };
            let workspace = workspaces::workspace_of(s.place.repo, source);
            let replies = seq![
                ReplyView::Rows(rows),
                ReplyView::Branch(source.branch),
                ReplyView::Count(0),
                renamed,
                moved,
                ReplyView::Done,
            ];
            &&& effects::asked(start, rename_rule(), replies) == seq![
                EffectView::OpenWorkspaces(s.place.db_path),
                EffectView::CurrentBranch(source.path),
                EffectView::CountSessions(source.name),
                rename_branch_command(s.place, workspace, name),
                move_command(s.place, workspace, row.path),
                EffectView::UpdateWorkspace { name: source.name, row },
            ]
            &&& effects::reached(start, rename_rule(), replies) == StepView::<
                RenameView,
                WorkspaceView,
            >::Finish(Ok(workspaces::workspace_of(s.place.repo, row)))
        }),
{
    let start = StepView::Run(EffectView::OpenWorkspaces(s.place.db_path), s);
    let row = WorkspaceRowView {
        name,
        branch: name,
        path: paths::joined_path(parent, name),
        created_at: source.created_at,
    };
    let workspace = workspaces::workspace_of(s.place.repo, source);
    let replies = seq![
        ReplyView::Rows(rows),
        ReplyView::Branch(source.branch),
        ReplyView::Count(0),
        renamed,
        moved,
        ReplyView::Done,
    ];
    reveal_with_fuel(effects::asked, 8);
    reveal_with_fuel(effects::reached, 8);
    assert(replies.skip(1).skip(1).skip(1).skip(1).skip(1).skip(1).len() == 0);
    assert(effects::asked(start, rename_rule(), replies) =~= seq![
        EffectView::OpenWorkspaces(s.place.db_path),
        EffectView::CurrentBranch(source.path),
        EffectView::CountSessions(source.name),
        rename_branch_command(s.place, workspace, name),
        move_command(s.place, workspace, row.path),
        EffectView::UpdateWorkspace { name: source.name, row },
    ]);
}

/// The record of a workspace is deleted only once git has removed its worktree,
/// and a look at a workspace asks for neither.
pub proof fn law_record_outlives_worktree(s: RemoveView, reply: ReplyView)
    ensures
        remove_next(s, reply) matches StepView::Run(effect, _) ==> (
        effect matches EffectView::DeleteWorkspace(name) ==> (
        s.phase matches RemovePhaseView::Removing(workspace) && workspace.name == name
            && effects::succeeded(reply))),
        s.keep && (s.phase is Opening || s.phase is Finding) ==> (remove_next(
            s,
            reply,
        ) matches StepView::Run(_, next) ==> next.keep && (next.phase is Opening
            || next.phase is Finding)),
{
}

/// How a listing goes on.
pub open spec fn list_rule() -> spec_fn(ListWorkspacesView, ReplyView) -> StepView<
    ListWorkspacesView,
    Seq<WorkspaceView>,
> {
    |s: ListWorkspacesView, reply: ReplyView| list_next(s, reply)
}

/// A listing gives the rows' workspaces in the order of the rows.
pub proof fn law_list_keeps_order(
    repo: RepositoryView,
    done: Seq<WorkspaceView>,
    rows: Seq<WorkspaceRowView>,
    replies: Seq<ReplyView>,
)
    requires
        replies.len() == rows.len(),
        forall|i: int|
            0 <= i < rows.len() ==> #[trigger] replies[i] == ReplyView::Branch(rows[i].branch),
    ensures
        effects::reached(list_rest(repo, done, rows), list_rule(), replies) == StepView::<
            ListWorkspacesView,
            Seq<WorkspaceView>,
        >::Finish(
            Ok(
                done + Seq::new(
                    rows.len(),
                    |i: int| workspaces::workspace_of(repo, rows[i]),
                ),
            ),
        ),
    decreases rows.len(),
{
    let all = Seq::new(rows.len(), |i: int| workspaces::workspace_of(repo, rows[i]));
    if rows.len() == 0 {
        assert(done + all =~= done);
    } else {
        let first = workspaces::workspace_of(repo, rows[0]);
        let rest = rows.skip(1);
        assert(replies[0] == ReplyView::Branch(rows[0].branch));
        assert forall|i: int| 0 <= i < rest.len() implies #[trigger] replies.skip(1)[i]
            == ReplyView::Branch(rest[i].branch) by {
            assert(replies[i + 1] == ReplyView::Branch(rows[i + 1].branch));
        }
        law_list_keeps_order(repo, done.push(first), rest, replies.skip(1));
        let tail = Seq::new(rest.len(), |i: int| workspaces::workspace_of(repo, rest[i]));
        assert(done.push(first) + tail =~= done + all);
    }
}

/// Two workspaces of a repository share a path only if they share their name.
pub proof fn law_workspace_paths_are_apart(place: PlaceView, a: Seq<char>, b: Seq<char>)
    requires
        workspaces::workspace_name_valid(a),
        workspaces::workspace_name_valid(b),
    ensures
        workspace_path(place, a) == workspace_path(place, b) <==> a == b,
{
    assert(a.contains(a[0]));
    assert(b.contains(b[0]));
    let dir = place.workspaces_dir;
    let base = if dir.len() == 0 || dir.last() == '/' {
        dir
    } else {
        dir.push('/')
    };
    if workspace_path(place, a) == workspace_path(place, b) {
        assert(a =~= (base + a).skip(base.len() as int));
        assert(b =~= (base + b).skip(base.len() as int));
    }
}

proof fn lemma_no_row_named(rows: Seq<WorkspaceRowView>, name: Seq<char>)
    requires
        forall|i: int| 0 <= i < rows.len() ==> (#[trigger] rows[i]).name != name,
    ensures
        workspaces::row_named(rows, name) is None,
{
    seqs::lemma_first_index(rows, workspaces::has_name(name));
}

/// A workspace starts at the branch that git names as the remote's default, and takes that
/// branch's name where no other was asked for. Written out, a repository is opened and
/// synced, git is asked for the remote's head, a worktree is added at the workspace's own
/// path on a branch of the workspace's name that is reset to the remote's branch, and a
/// row with the name, the branch, the path and the time is recorded and handed back.
pub proof fn law_create_written_out(
    store: RepositoryStoreView,
    repository: Seq<char>,
    wanted: Option<Seq<char>>,
    repo: RepositoryView,
    rows: Seq<WorkspaceRowView>,
    head: effects::CommandOutputView,
    branch: Seq<char>,
    name: Seq<char>,
    add: effects::CommandOutputView,
    now: i64,
)
    requires
        repos::resolved(store.rows, repository) == Some(repo),
        branch.len() > 0 ==> !text::whitespace(branch[0]) && !text::whitespace(branch.last()),
        head.success,
        text::lossy_text(head.stdout) == "origin/"@ + branch || text::lossy_text(head.stdout)
            == "origin/"@ + branch + "\n"@,
        name == (match wanted {
            Some(wanted) => text::trimmed(wanted),
            None => branch,
        }),
        workspaces::workspace_name_valid(name),
        forall|i: int| 0 <= i < rows.len() ==> (#[trigger] rows[i]).name != name,
        add.success,
    ensures
        ({
            let dir = repos::repository_dir(store.paths.repos_dir, repo);
            let bare = "--git-dir="@ + paths::joined_path(dir, "source.git"@);
            let all = paths::joined_path(dir, "workspaces"@);
            let path = paths::joined_path(all, name);
            let start = create_start(store, repository, wanted);
            let replies = seq![
                ReplyView::Rows(rows),
                ReplyView::Done,
                ReplyView::Output(head),
                ReplyView::Done,
                ReplyView::Exists(false),
                ReplyView::Output(add),
                ReplyView::Clock(now),
                ReplyView::Done,
            ];
            &&& effects::asked(start, create_rule(), replies) == seq![
                EffectView::OpenWorkspaces(paths::joined_path(dir, "repo.db"@)),
                EffectView::SyncRepository(repo),
                EffectView::RunGit {
                    cwd: Some(dir),
                    args: seq![
                        bare,
                        "symbolic-ref"@,
                        "--short"@,
                        "refs/remotes/origin/HEAD"@,
                    ],
                },
                EffectView::CreateDir(all),
                EffectView::PathExists(path),
                EffectView::RunGit {
                    cwd: paths::parent_path(path),
                    args: seq![
                        bare,
                        "worktree"@,
                        "add"@,
                        "-B"@,
                        name,
                        path,
                        "refs/remotes/origin/"@ + branch,
                    ],
                },
                EffectView::ReadClock,
                EffectView::InsertWorkspace(
                    WorkspaceRowView { name, branch: name, path, created_at: now },
                ),
            ]
            &&& effects::reached(start, create_rule(), replies) == StepView::<
                CreateView,
                WorkspaceView,
            >::Finish(
                Ok(
                    WorkspaceView {
                        repository: repo.host + "/"@ + repo.owner + "/"@ + repo.name,
                        repository_alias: if repo.alias is Some {
                            repo.alias->0
                        } else {
                            repo.name
                        },
                        name,
                        branch: name,
                        path,
                        created_at: now,
                    },
                ),
            )
        }),
{
    let none = Seq::<char>::empty();
    workspaces::law_default_branch_is_what_git_names(branch, none, none);
    text::lemma_trimmed_twice(text::lossy_text(head.stdout));
    lemma_no_row_named(rows, name);
    text::lemma_trimmed_fixed(branch);
    if let Some(w) = wanted {
        text::lemma_trimmed_twice(w);
    }
    let place = workspaces::place_of(store.paths.repos_dir, repo);
    let s = CreateView { place, wanted, rows: seq![], phase: CreatePhaseView::Opening };
    let out = ReplyView::Output(head);
    assert(workspaces::default_branch_of(effects::written(out)) == branch);
    law_create_run(s, rows, out, name, ReplyView::Output(add), now);
    let bare = effects::git_dir(place.bare_repo_path);
    assert(seq![bare] + seq!["symbolic-ref"@, "--short"@, "refs/remotes/origin/HEAD"@] =~= seq![
        bare,
        "symbolic-ref"@,
        "--short"@,
        "refs/remotes/origin/HEAD"@,
    ]);
}

/// Renaming a workspace asks git first to rename its branch, the present name before the
/// new one, and then to move its worktree, the present path before the new one. What is
/// recorded under the present name is the new name with the branch that then exists.
pub proof fn law_rename_written_out(
    store: RepositoryStoreView,
    workspace: Seq<char>,
    place: PlaceView,
    source: WorkspaceRowView,
    wanted: Seq<char>,
    rows: Seq<WorkspaceRowView>,
    parent: Seq<char>,
    renamed: effects::CommandOutputView,
    moved: effects::CommandOutputView,
)
    requires
        workspaces::located(store, workspace) == Ok::<_, SwarmErrorView>((place, source.name)),
        workspaces::row_named(rows, source.name) == Some(source),
        workspaces::workspace_name_valid(text::trimmed(wanted)),
        text::trimmed(wanted) != source.name,
        forall|i: int| 0 <= i < rows.len() ==> (#[trigger] rows[i]).name != text::trimmed(wanted),
        paths::parent_path(source.path) == Some(parent),
        renamed.success,
        moved.success,
    ensures
        ({
            let name = text::trimmed(wanted);
            let path = paths::joined_path(parent, name);
            let bare = "--git-dir="@ + place.bare_repo_path;
            let row = WorkspaceRowView {
                name,
                branch: name,
                path,
                created_at: source.created_at,
            };
            let start = rename_start(store, workspace, wanted);
            let replies = seq![
                ReplyView::Rows(rows),
                ReplyView::Branch(source.branch),
                ReplyView::Count(0),
                ReplyView::Output(renamed),
                ReplyView::Output(moved),
                ReplyView::Done,
            ];
            &&& effects::asked(start, rename_rule(), replies) == seq![
                EffectView::OpenWorkspaces(place.db_path),
                EffectView::CurrentBranch(source.path),
                EffectView::CountSessions(source.name),
                EffectView::RunGit {
                    cwd: Some(place.repo_dir),
                    args: seq![bare, "branch"@, "-m"@, source.branch, name],
                },
                EffectView::RunGit {
                    cwd: Some(place.repo_dir),
                    args: seq![bare, "worktree"@, "move"@, source.path, path],
                },
                EffectView::UpdateWorkspace { name: source.name, row },
            ]
            &&& effects::reached(start, rename_rule(), replies) == StepView::<
                RenameView,
                WorkspaceView,
            >::Finish(
                Ok(
                    WorkspaceView {
                        repository: place.repo.host + "/"@ + place.repo.owner + "/"@
                            + place.repo.name,
                        repository_alias: if place.repo.alias is Some {
                            place.repo.alias->0
                        } else {
                            place.repo.name
                        },
                        name,
                        branch: name,
                        path,
                        created_at: source.created_at,
                    },
                ),
            )
        }),
{
    let name = text::trimmed(wanted);
    let path = paths::joined_path(parent, name);
    lemma_no_row_named(rows, name);
    let s = RenameView {
        place,
        reference: workspace,
        source_name: source.name,
        wanted,
        rows: seq![],
        phase: RenamePhaseView::Opening,
    };
    law_rename_run(
        s,
        rows,
        source,
        name,
        parent,
        ReplyView::Output(renamed),
        ReplyView::Output(moved),
    );
    let bare = effects::git_dir(place.bare_repo_path);
    assert(seq![bare] + seq!["branch"@, "-m"@, source.branch, name] =~= seq![
        bare,
        "branch"@,
        "-m"@,
        source.branch,
        name,
    ]);
    assert(seq![bare] + seq!["worktree"@, "move"@, source.path, path] =~= seq![
        bare,
        "worktree"@,
        "move"@,
        source.path,
        path,
    ]);
}

/// With no session in the way, renaming asks git for the branch first: in the repository's
/// directory, on its bare clone, the present branch before the new name.
pub proof fn law_rename_begins_with_the_branch(
    s: RenameView,
    source: WorkspaceView,
    name: Seq<char>,
    sessions: i64,
    parent: Seq<char>,
)
    requires
        s.phase == (RenamePhaseView::Counting { source, name }),
        sessions <= 0,
        paths::parent_path(source.path) == Some(parent),
    ensures
        rename_next(s, ReplyView::Count(sessions)) == StepView::<RenameView, WorkspaceView>::Run(
            EffectView::RunGit {
                cwd: Some(s.place.repo_dir),
                args: seq![
                    "--git-dir="@ + s.place.bare_repo_path,
                    "branch"@,
                    "-m"@,
                    source.branch,
                    name,
                ],
            },
            RenameView {
                phase: RenamePhaseView::RenamingBranch {
                    source,
                    row: WorkspaceRowView {
                        name,
                        branch: name,
                        path: paths::joined_path(parent, name),
                        created_at: source.created_at,
                    },
                },
                ..s
            },
        ),
{
    let bare = effects::git_dir(s.place.bare_repo_path);
    assert(seq![bare] + seq!["branch"@, "-m"@, source.branch, name] =~= seq![
        bare,
        "branch"@,
        "-m"@,
        source.branch,
        name,
    ]);
}

/// What git keeps of branches once it was asked to rename one: the name behind the present
/// one takes its place.
pub open spec fn branches_after(branches: Set<Seq<char>>, effect: EffectView) -> Set<Seq<char>> {
    match effect {
        EffectView::RunGit { args, .. } => if args.len() == 5 && args[1] == "branch"@ && args[2]
            == "-m"@ && branches.contains(args[3]) {
            branches.remove(args[3]).insert(args[4])
        } else {
            branches
        },
        _ => branches,
    }
}

/// Once git has renamed the branch, the branch that is recorded for the workspace exists
/// and the one that it was on does not.
pub proof fn law_renamed_branch_exists(
    s: RenameView,
    source: WorkspaceView,
    name: Seq<char>,
    parent: Seq<char>,
    branches: Set<Seq<char>>,
)
    requires
        s.phase == (RenamePhaseView::Counting { source, name }),
        paths::parent_path(source.path) == Some(parent),
        branches.contains(source.branch),
        source.branch != name,
    ensures
        ({
            &&& rename_next(s, ReplyView::Count(0)) matches StepView::Run(effect, next)
            &&& next.phase matches RenamePhaseView::RenamingBranch { row, .. }
            &&& branches_after(branches, effect).contains(row.branch)
            &&& !branches_after(branches, effect).contains(source.branch)
        }),
{
    law_rename_begins_with_the_branch(s, source, name, 0, parent);
}

/// Cloning a workspace, written out: git is asked in the source's checkout for its commit,
/// and a worktree is added at the clone's own path on a new branch of the clone's name that
/// starts at this commit.
pub proof fn law_clone_written_out(
    store: RepositoryStoreView,
    workspace: Seq<char>,
    place: PlaceView,
    source: WorkspaceRowView,
    wanted: Seq<char>,
    rows: Seq<WorkspaceRowView>,
    head: effects::CommandOutputView,
    add: effects::CommandOutputView,
    now: i64,
)
    requires
        workspaces::located(store, workspace) == Ok::<_, SwarmErrorView>((place, source.name)),
        workspaces::row_named(rows, source.name) == Some(source),
        workspaces::workspace_name_valid(text::trimmed(wanted)),
        forall|i: int| 0 <= i < rows.len() ==> (#[trigger] rows[i]).name != text::trimmed(wanted),
        head.success,
        add.success,
    ensures
        ({
            let name = text::trimmed(wanted);
            let path = paths::joined_path(place.workspaces_dir, name);
            let start = clone_start(store, workspace, wanted);
            let replies = seq![
                ReplyView::Rows(rows),
                ReplyView::Branch(source.branch),
                ReplyView::Done,
                ReplyView::Exists(false),
                ReplyView::Output(head),
                ReplyView::Output(add),
                ReplyView::Clock(now),
                ReplyView::Done,
            ];
            &&& effects::asked(start, clone_rule(), replies) == seq![
                EffectView::OpenWorkspaces(place.db_path),
                EffectView::CurrentBranch(source.path),
                EffectView::CreateDir(place.workspaces_dir),
                EffectView::PathExists(path),
                EffectView::RunGit { cwd: Some(source.path), args: seq!["rev-parse"@, "HEAD"@] },
                EffectView::RunGit {
                    cwd: paths::parent_path(path),
                    args: seq![
                        "--git-dir="@ + place.bare_repo_path,
                        "worktree"@,
                        "add"@,
                        "-b"@,
                        name,
                        path,
                        text::trimmed(text::lossy_text(head.stdout)),
                    ],
                },
                EffectView::ReadClock,
                EffectView::InsertWorkspace(
                    WorkspaceRowView { name, branch: name, path, created_at: now },
                ),
            ]
            &&& effects::reached(start, clone_rule(), replies) == StepView::<
                CloneWorkspaceView,
                WorkspaceView,
            >::Finish(
                Ok(
                    WorkspaceView {
                        repository: place.repo.host + "/"@ + place.repo.owner + "/"@
                            + place.repo.name,
                        repository_alias: if place.repo.alias is Some {
                            place.repo.alias->0
                        } else {
                            place.repo.name
                        },
                        name,
                        branch: name,
                        path,
                        created_at: now,
                    },
                ),
            )
        }),
{
    let name = text::trimmed(wanted);
    lemma_no_row_named(rows, name);
    let s = CloneWorkspaceView {
        place,
        reference: workspace,
        source_name: source.name,
        wanted,
        rows: seq![],
        phase: ClonePhaseView::Opening,
    };
    law_clone_run(
        s,
        rows,
        source,
        name,
        ReplyView::Output(head),
        ReplyView::Output(add),
        now,
    );
}

/// How a removal or a look at a workspace goes on.
pub open spec fn remove_rule() -> spec_fn(RemoveView, ReplyView) -> StepView<
    RemoveView,
    WorkspaceView,
> {
    |s: RemoveView, reply: ReplyView| remove_next(s, reply)
}

/// Removing a workspace, written out: git is told to remove its worktree, whatever the
/// state of it, and its row is deleted; what it was is handed back. A look at it asks for
/// its branch alone.
pub proof fn law_remove_written_out(
    store: RepositoryStoreView,
    workspace: Seq<char>,
    place: PlaceView,
    row: WorkspaceRowView,
    rows: Seq<WorkspaceRowView>,
    removed: effects::CommandOutputView,
)
    requires
        workspaces::located(store, workspace) == Ok::<_, SwarmErrorView>((place, row.name)),
        workspaces::row_named(rows, row.name) == Some(row),
        removed.success,
    ensures
        ({
            let found = WorkspaceView {
                repository: place.repo.host + "/"@ + place.repo.owner + "/"@ + place.repo.name,
                repository_alias: if place.repo.alias is Some {
                    place.repo.alias->0
                } else {
                    place.repo.name
                },
                name: row.name,
                branch: row.branch,
                path: row.path,
                created_at: row.created_at,
            };
            let look = seq![ReplyView::Rows(rows), ReplyView::Branch(row.branch)];
            let replies = look + seq![ReplyView::Output(removed), ReplyView::Done];
            &&& effects::asked(remove_start(store, workspace, true), remove_rule(), look) == seq![
                EffectView::OpenWorkspaces(place.db_path),
                EffectView::CurrentBranch(row.path),
            ]
            &&& effects::reached(remove_start(store, workspace, true), remove_rule(), look)
                == StepView::<RemoveView, WorkspaceView>::Finish(Ok(found))
            &&& effects::asked(remove_start(store, workspace, false), remove_rule(), replies)
                == seq![
                EffectView::OpenWorkspaces(place.db_path),
                EffectView::CurrentBranch(row.path),
                EffectView::RunGit {
                    cwd: Some(place.repo_dir),
                    args: seq![
                        "--git-dir="@ + place.bare_repo_path,
                        "worktree"@,
                        "remove"@,
                        "--force"@,
                        row.path,
                    ],
                },
                EffectView::DeleteWorkspace(row.name),
            ]
            &&& effects::reached(remove_start(store, workspace, false), remove_rule(), replies)
                == StepView::<RemoveView, WorkspaceView>::Finish(Ok(found))
        }),
{
    let look = seq![ReplyView::Rows(rows), ReplyView::Branch(row.branch)];
    let replies = look + seq![ReplyView::Output(removed), ReplyView::Done];
    reveal_with_fuel(effects::asked, 6);
    reveal_with_fuel(effects::reached, 6);
    assert(look.skip(1).skip(1).len() == 0);
    assert(replies.skip(1).skip(1).skip(1).skip(1).len() == 0);
    let bare = effects::git_dir(place.bare_repo_path);
    let args = seq![bare, "worktree"@, "remove"@, "--force"@, row.path];
    assert(seq![bare] + seq!["worktree"@, "remove"@, "--force"@, row.path] =~= args);
    assert(effects::asked(remove_start(store, workspace, true), remove_rule(), look) =~= seq![
        EffectView::OpenWorkspaces(place.db_path),
        EffectView::CurrentBranch(row.path),
    ]);
    assert(effects::asked(remove_start(store, workspace, false), remove_rule(), replies) =~= seq![
        EffectView::OpenWorkspaces(place.db_path),
        EffectView::CurrentBranch(row.path),
        EffectView::RunGit { cwd: Some(place.repo_dir), args },
        EffectView::DeleteWorkspace(row.name),
    ]);
}

/// A workspace that is not there cannot be cloned, renamed, removed or looked at: the error
/// says what was asked for.
pub proof fn law_missing_workspaces_are_not_found(
    clone: CloneWorkspaceView,
    rename: RenameView,
    remove: RemoveView,
    rows: Seq<WorkspaceRowView>,
)
    requires
        clone.phase is Opening,
        rename.phase is Opening,
        remove.phase is Opening,
    ensures
        (forall|i: int| 0 <= i < rows.len() ==> (#[trigger] rows[i]).name != clone.source_name)
            ==> clone_next(clone, ReplyView::Rows(rows)) == StepView::<
            CloneWorkspaceView,
            WorkspaceView,
        >::Finish(Err(SwarmErrorView::WorkspaceNotFound(clone.reference))),
        (forall|i: int| 0 <= i < rows.len() ==> (#[trigger] rows[i]).name != rename.source_name)
            ==> rename_next(rename, ReplyView::Rows(rows)) == StepView::<
            RenameView,
            WorkspaceView,
        >::Finish(Err(SwarmErrorView::WorkspaceNotFound(rename.reference))),
        (forall|i: int| 0 <= i < rows.len() ==> (#[trigger] rows[i]).name != remove.name)
            ==> remove_next(remove, ReplyView::Rows(rows)) == StepView::<
            RemoveView,
            WorkspaceView,
        >::Finish(Err(SwarmErrorView::WorkspaceNotFound(remove.reference))),
{
    seqs::lemma_first_index(rows, workspaces::has_name(clone.source_name));
    seqs::lemma_first_index(rows, workspaces::has_name(rename.source_name));
    seqs::lemma_first_index(rows, workspaces::has_name(remove.name));
}

/// A name that another workspace has is refused once that workspace was looked at: nothing
/// is asked of git but its branch, and the error names the repository as it is shown and the
/// name that is taken. So is a path at which something stands.
pub proof fn law_taken_names_are_refused(
    s: CreateView,
    t: CloneWorkspaceView,
    u: RenameView,
    name: Seq<char>,
    row: WorkspaceRowView,
    source: WorkspaceView,
    branch: Seq<char>,
)
    requires
        row.name == name,
        workspaces::row_named(s.rows, name) == Some(row),
        workspaces::row_named(t.rows, name) == Some(row),
        workspaces::row_named(u.rows, name) == Some(row),
        workspaces::workspace_name_valid(name),
        t.wanted == name,
        u.wanted == name,
        source.name != name,
    ensures
        ({
            let shown = |repo: RepositoryView|
                if repo.alias is Some {
                    repo.alias->0
                } else {
                    repo.name
                };
            let taken = |repo: RepositoryView|
                SwarmErrorView::DuplicateWorkspace(shown(repo) + ":"@ + name);
            &&& effects::asked(
                create_named(s, name, branch),
                create_rule(),
                seq![ReplyView::Branch(row.branch)],
            ) == seq![EffectView::CurrentBranch(row.path)]
            &&& effects::reached(
                create_named(s, name, branch),
                create_rule(),
                seq![ReplyView::Branch(row.branch)],
            ) == StepView::<CreateView, WorkspaceView>::Finish(Err(taken(s.place.repo)))
            &&& effects::reached(
                clone_found(t, source),
                clone_rule(),
                seq![ReplyView::Branch(row.branch)],
            ) == StepView::<CloneWorkspaceView, WorkspaceView>::Finish(Err(taken(t.place.repo)))
            &&& effects::reached(
                rename_found(u, source),
                rename_rule(),
                seq![ReplyView::Branch(row.branch)],
            ) == StepView::<RenameView, WorkspaceView>::Finish(Err(taken(u.place.repo)))
            &&& s.phase == (CreatePhaseView::Probing { name, default_branch: branch })
                ==> create_next(s, ReplyView::Exists(true)) == StepView::<
                CreateView,
                WorkspaceView,
            >::Finish(Err(taken(s.place.repo)))
            &&& t.phase == (ClonePhaseView::Probing { source, name }) ==> clone_next(
                t,
                ReplyView::Exists(true),
            ) == StepView::<CloneWorkspaceView, WorkspaceView>::Finish(Err(taken(t.place.repo)))
        }),
{
    reveal_with_fuel(effects::asked, 3);
    reveal_with_fuel(effects::reached, 3);
    let one = seq![ReplyView::Branch(row.branch)];
    assert(one.skip(1).len() == 0);
    assert forall|i: int| 0 <= i < name.len() implies !text::whitespace(#[trigger] name[i]) by {}
    text::lemma_trimmed_fixed(name);
    assert(effects::asked(create_named(s, name, branch), create_rule(), one) =~= seq![
        EffectView::CurrentBranch(row.path),
    ]);
}

/// A listing opens the repository's tables, asks for the current branch of every row once
/// and in the order of the rows, and gives each workspace with the branch that it heard; a
/// row is changed exactly where its branch was another one.
pub proof fn law_list_asks_for_every_row(
    repo: RepositoryView,
    done: Seq<WorkspaceView>,
    rows: Seq<WorkspaceRowView>,
    branches: Seq<Seq<char>>,
)
    requires
        branches.len() == rows.len(),
    ensures
        effects::asked(list_rest(repo, done, rows), list_rule(), list_replies(rows, branches))
            == list_effects(rows, branches),
        effects::reached(list_rest(repo, done, rows), list_rule(), list_replies(rows, branches))
            == StepView::<ListWorkspacesView, Seq<WorkspaceView>>::Finish(
            Ok(
                done + Seq::new(
                    rows.len(),
                    |i: int|
                        WorkspaceView {
                            repository: repo.host + "/"@ + repo.owner + "/"@ + repo.name,
                            repository_alias: if repo.alias is Some {
                                repo.alias->0
                            } else {
                                repo.name
                            },
                            name: rows[i].name,
                            branch: branches[i],
                            path: rows[i].path,
                            created_at: rows[i].created_at,
                        },
                ),
            ),
        ),
    decreases rows.len(),
{
    let replies = list_replies(rows, branches);
    let shown = |rows: Seq<WorkspaceRowView>, branches: Seq<Seq<char>>| Seq::new(
        rows.len(),
        |i: int|
            WorkspaceView {
                repository: repo.host + "/"@ + repo.owner + "/"@ + repo.name,
                repository_alias: if repo.alias is Some {
                    repo.alias->0
                } else {
                    repo.name
                },
                name: rows[i].name,
                branch: branches[i],
                path: rows[i].path,
                created_at: rows[i].created_at,
            },
    );
    if rows.len() == 0 {
        assert(done + shown(rows, branches) =~= done);
    } else {
        let row = WorkspaceRowView { branch: branches[0], ..rows[0] };
        let here = workspaces::workspace_of(repo, row);
        let rest = list_replies(rows.skip(1), branches.skip(1));
        law_list_asks_for_every_row(repo, done.push(here), rows.skip(1), branches.skip(1));
        assert(done.push(here) + shown(rows.skip(1), branches.skip(1)) =~= done + shown(
            rows,
            branches,
        ));
        reveal_with_fuel(effects::asked, 3);
        reveal_with_fuel(effects::reached, 3);
        let next = list_rest(repo, done.push(here), rows.skip(1));
        let step = list_rest(repo, done, rows);
        if branches[0] == rows[0].branch {
            assert(replies.skip(1) =~= rest);
            assert(here == workspaces::workspace_of(repo, rows[0]));
            assert(list_next(step->Run_1, replies[0]) == next);
            assert(effects::asked(step, list_rule(), replies) =~= list_effects(rows, branches));
        } else {
            assert(replies.skip(1).skip(1) =~= rest);
            let again = list_next(step->Run_1, replies[0]);
            assert(replies.skip(1)[0] == ReplyView::Done);
            assert(list_next(again->Run_1, ReplyView::Done) == next);
            assert(effects::asked(again, list_rule(), replies.skip(1)) =~= seq![
                EffectView::UpdateBranch { name: rows[0].name, branch: branches[0] },
            ] + effects::asked(next, list_rule(), rest));
            assert(effects::asked(step, list_rule(), replies) =~= list_effects(rows, branches));
        }
    }
}

/// What a listing hears where the rows' checkouts are on the given branches.
pub open spec fn list_replies(
    rows: Seq<WorkspaceRowView>,
    branches: Seq<Seq<char>>,
) -> Seq<ReplyView>
    decreases rows.len(),
{
    if rows.len() == 0 {
        seq![]
    } else {
        seq![ReplyView::Branch(branches[0])] + (if branches[0] == rows[0].branch {
            seq![]
        } else {
            seq![ReplyView::Done]
        }) + list_replies(rows.skip(1), branches.skip(1))
    }
}

/// What a listing has to ask for where the rows' checkouts are on the given branches.
pub open spec fn list_effects(
    rows: Seq<WorkspaceRowView>,
    branches: Seq<Seq<char>>,
) -> Seq<EffectView>
    decreases rows.len(),
{
    if rows.len() == 0 {
        seq![]
    } else {
        seq![EffectView::CurrentBranch(rows[0].path)] + (if branches[0] == rows[0].branch {
            seq![]
        } else {
            seq![EffectView::UpdateBranch { name: rows[0].name, branch: branches[0] }]
        }) + list_effects(rows.skip(1), branches.skip(1))
    }
}

/// A listing begins with the tables of the repository that is named, and ends at once where
/// no such repository is known.
pub proof fn law_list_begins_with_the_repository(
    store: RepositoryStoreView,
    repository: Seq<char>,
    rows: Seq<WorkspaceRowView>,
)
    ensures
        match repos::resolved(store.rows, repository) {
            None => list_start(store, repository) == StepView::<
                ListWorkspacesView,
                Seq<WorkspaceView>,
            >::Finish(Err(SwarmErrorView::RepositoryNotFound(repository))),
            Some(repo) => {
                &&& list_start(store, repository) matches StepView::Run(effect, s)
                &&& effect == EffectView::OpenWorkspaces(
                    paths::joined_path(
                        repos::repository_dir(store.paths.repos_dir, repo),
                        "repo.db"@,
                    ),
                )
                &&& list_next(s, ReplyView::Rows(rows)) == list_rest(repo, seq![], rows)
            },
        },
{
}

/// Whatever an operation waits for, a failure ends it, and is its result.
pub proof fn law_failures_end_operations(
    create: CreateView,
    clone: CloneWorkspaceView,
    rename: RenameView,
    remove: RemoveView,
    list: ListWorkspacesView,
    e: SwarmErrorView,
)
    ensures
        create_next(create, ReplyView::Failed(e)) == StepView::<CreateView, WorkspaceView>::Finish(
            Err(e),
        ),
        clone_next(clone, ReplyView::Failed(e)) == StepView::<
            CloneWorkspaceView,
            WorkspaceView,
        >::Finish(Err(e)),
        rename_next(rename, ReplyView::Failed(e)) == StepView::<RenameView, WorkspaceView>::Finish(
            Err(e),
        ),
        remove_next(remove, ReplyView::Failed(e)) == StepView::<RemoveView, WorkspaceView>::Finish(
            Err(e),
        ),
        list_next(list, ReplyView::Failed(e)) == StepView::<
            ListWorkspacesView,
            Seq<WorkspaceView>,
        >::Finish(Err(e)),
{
}

/// A git command that fails ends the operation that ran it, with what git told of it.
pub proof fn law_failed_git_commands_end_operations(
    create: CreateView,
    clone: CloneWorkspaceView,
    rename: RenameView,
    remove: RemoveView,
    output: effects::CommandOutputView,
)
    requires
        !output.success,
    ensures
        ({
            let reply = ReplyView::Output(output);
            let stderr = text::trimmed(text::lossy_text(output.stderr));
            let stdout = text::trimmed(text::lossy_text(output.stdout));
            let told = SwarmErrorView::Git(
                if stderr.len() > 0 {
                    stderr
                } else if stdout.len() > 0 {
                    stdout
                } else {
                    "exit status "@ + output.status
                },
            );
            &&& create.phase is ReadingHead || create.phase is Adding ==> create_next(create, reply)
                == StepView::<CreateView, WorkspaceView>::Finish(Err(told))
            &&& clone.phase is ReadingHead || clone.phase is Adding ==> clone_next(clone, reply)
                == StepView::<CloneWorkspaceView, WorkspaceView>::Finish(Err(told))
            &&& rename.phase is RenamingBranch || rename.phase is Moving ==> rename_next(
                rename,
                reply,
            ) == StepView::<RenameView, WorkspaceView>::Finish(Err(told))
            &&& remove.phase is Removing ==> remove_next(remove, reply) == StepView::<
                RemoveView,
                WorkspaceView,
            >::Finish(Err(told))
        }),
{
}

/// A workspace whose directory is already there is refused, and so is one whose name a row
/// has, once that row's branch was looked at.
pub proof fn law_clashes_end_operations(
    create: CreateView,
    clone: CloneWorkspaceView,
    rename: RenameView,
    name: Seq<char>,
    row: WorkspaceRowView,
    default_branch: Seq<char>,
    source: WorkspaceView,
)
    ensures
        ({
            let taken = |place: PlaceView|
                SwarmErrorView::DuplicateWorkspace(
                    (if place.repo.alias is Some {
                        place.repo.alias->0
                    } else {
                        place.repo.name
                    }) + ":"@ + name,
                );
            let there = ReplyView::Exists(true);
            let same = ReplyView::Branch(row.branch);
            let lookup = LookupView::Branch(row);
            &&& create.phase == (CreatePhaseView::Probing { name, default_branch }) ==> create_next(
                create,
                there,
            ) == StepView::<CreateView, WorkspaceView>::Finish(Err(taken(create.place)))
            &&& clone.phase == (ClonePhaseView::Probing { source, name }) ==> clone_next(
                clone,
                there,
            ) == StepView::<CloneWorkspaceView, WorkspaceView>::Finish(Err(taken(clone.place)))
            &&& create.phase == (CreatePhaseView::Clashing { name, lookup }) ==> create_next(
                create,
                same,
            ) == StepView::<CreateView, WorkspaceView>::Finish(Err(taken(create.place)))
            &&& clone.phase == (ClonePhaseView::Clashing { name, lookup }) ==> clone_next(
                clone,
                same,
            ) == StepView::<CloneWorkspaceView, WorkspaceView>::Finish(Err(taken(clone.place)))
            &&& rename.phase == (RenamePhaseView::Clashing { name, lookup }) ==> rename_next(
                rename,
                same,
            ) == StepView::<RenameView, WorkspaceView>::Finish(Err(taken(rename.place)))
        }),
{
}

/// A workspace keeps its name where it is asked to: nothing is done, and the workspace is the
/// result. One that has sessions is not renamed.
pub proof fn law_when_nothing_is_renamed(
    s: RenameView,
    source: WorkspaceView,
    name: Seq<char>,
    sessions: i64,
)
    ensures
        text::trimmed(s.wanted) == source.name && workspaces::workspace_name_valid(source.name)
            ==> rename_found(s, source) == StepView::<RenameView, WorkspaceView>::Finish(
            Ok(source),
        ),
        s.phase == (RenamePhaseView::Counting { source, name }) && sessions > 0 ==> rename_next(
            s,
            ReplyView::Count(sessions),
        ) == StepView::<RenameView, WorkspaceView>::Finish(
            Err(
                SwarmErrorView::InvalidWorkspace(
                    "cannot rename workspace `"@ + source.name + "` with sessions"@,
                ),
            ),
        ),
        s.phase == (RenamePhaseView::Counting { source, name }) && sessions <= 0
            && paths::parent_path(source.path) is Some ==> rename_next(
            s,
            ReplyView::Count(sessions),
        ) is Run,
{
}

} // verus!
