//! Workspaces: the local checkouts of a repository.

use crate::effects;
use crate::effects::{Effect, EffectView, Reply, ReplyView, Step, StepView};
use crate::error;
use crate::error::{SwarmError, SwarmErrorView};
use crate::paths;
use crate::repos;
use crate::repos::{Repository, RepositoryStore, RepositoryStoreView, RepositoryView};
use crate::seqs;
use crate::text;
use vstd::prelude::*;

verus! {

/// A workspace of a repository.
#[derive(Debug)]
pub struct Workspace {
    pub repository: String,
    pub repository_alias: String,
    pub name: String,
    pub branch: String,
    pub path: String,
    pub created_at: i64,
}

/// What a `Workspace` holds.
#[verifier::ext_equal]
pub struct WorkspaceView {
    pub repository: Seq<char>,
    pub repository_alias: Seq<char>,
    pub name: Seq<char>,
    pub branch: Seq<char>,
    pub path: Seq<char>,
    pub created_at: i64,
}

impl View for Workspace {
    type V = WorkspaceView;

    open spec fn view(&self) -> WorkspaceView {
        WorkspaceView {
            repository: self.repository@,
            repository_alias: self.repository_alias@,
            name: self.name@,
            branch: self.branch@,
            path: self.path@,
            created_at: self.created_at,
        }
    }
}

impl DeepView for Workspace {
    type V = WorkspaceView;

    open spec fn deep_view(&self) -> WorkspaceView {
        self@
    }
}

impl Clone for Workspace {
    fn clone(&self) -> (r: Self)
        ensures
            r@ == self@,
    {
        Workspace {
            repository: self.repository.clone(),
            repository_alias: self.repository_alias.clone(),
            name: self.name.clone(),
            branch: self.branch.clone(),
            path: self.path.clone(),
            created_at: self.created_at,
        }
    }
}

/// A workspace as a repository's database records it.
#[derive(Debug)]
pub struct WorkspaceRow {
    pub name: String,
    pub branch: String,
    pub path: String,
    pub created_at: i64,
}

/// What a `WorkspaceRow` holds.
#[verifier::ext_equal]
pub struct WorkspaceRowView {
    pub name: Seq<char>,
    pub branch: Seq<char>,
    pub path: Seq<char>,
    pub created_at: i64,
}

impl View for WorkspaceRow {
    type V = WorkspaceRowView;

    open spec fn view(&self) -> WorkspaceRowView {
        WorkspaceRowView {
            name: self.name@,
            branch: self.branch@,
            path: self.path@,
            created_at: self.created_at,
        }
    }
}

impl DeepView for WorkspaceRow {
    type V = WorkspaceRowView;

    open spec fn deep_view(&self) -> WorkspaceRowView {
        self@
    }
}

impl Clone for WorkspaceRow {
    fn clone(&self) -> (r: Self)
        ensures
            r@ == self@,
    {
        WorkspaceRow {
            name: self.name.clone(),
            branch: self.branch.clone(),
            path: self.path.clone(),
            created_at: self.created_at,
        }
    }
}

/// A workspace as it is referred to: its repository and its name.
#[derive(Debug)]
pub struct WorkspaceReference {
    pub repository: String,
    pub workspace: String,
}

/// What a `WorkspaceReference` holds.
#[verifier::ext_equal]
pub struct WorkspaceReferenceView {
    pub repository: Seq<char>,
    pub workspace: Seq<char>,
}

impl View for WorkspaceReference {
    type V = WorkspaceReferenceView;

    open spec fn view(&self) -> WorkspaceReferenceView {
        WorkspaceReferenceView {
            repository: self.repository@,
            workspace: self.workspace@,
        }
    }
}

impl DeepView for WorkspaceReference {
    type V = WorkspaceReferenceView;

    open spec fn deep_view(&self) -> WorkspaceReferenceView {
        self@
    }
}

impl Clone for WorkspaceReference {
    fn clone(&self) -> (r: Self)
        ensures
            r@ == self@,
    {
        WorkspaceReference {
            repository: self.repository.clone(),
            workspace: self.workspace.clone(),
        }
    }
}

/// The workspaces of the repositories that are known.
pub struct WorkspaceStore {
    pub repos: RepositoryStore,
}

/// What a reference names: what stands before and after the last `:`, else the
/// last `/`, without white space around it.
pub open spec fn workspace_reference(input: Seq<char>) -> Result<
    WorkspaceReferenceView,
    SwarmErrorView,
> {
    let halves = match text::last_halves(input, ':') {
        Some(halves) => Some(halves),
        None => text::last_halves(input, '/'),
    };
    match halves {
        None => Err(SwarmErrorView::InvalidWorkspaceReference(input)),
        Some((repository, workspace)) => if text::trimmed(repository).len() == 0 || text::trimmed(
            workspace,
        ).len() == 0 {
            Err(SwarmErrorView::InvalidWorkspaceReference(input))
        } else {
            Ok(
                WorkspaceReferenceView {
                    repository: text::trimmed(repository),
                    workspace: text::trimmed(workspace),
                },
            )
        },
    }
}

/// `<repository>:<name>` of a workspace.
pub open spec fn full_reference(workspace: WorkspaceView) -> Seq<char> {
    workspace.repository + ":"@ + workspace.name
}

/// How a workspace is referred to.
pub fn reference_to(workspace: &Workspace) -> (r: String)
    ensures
        r@ == full_reference(workspace@),
{
    let mut out = workspace.repository.clone();
    out.append(":");
    out.append(workspace.name.as_str());
    out
}

/// Reads a workspace reference.
pub fn parse_workspace_reference(input: &str) -> (r: Result<WorkspaceReference, SwarmError>)
    ensures
        error::result_view(r) == workspace_reference(input@),
{
    let split = match text::rsplit_once(input, ':') {
        Some(split) => Some(split),
        None => text::rsplit_once(input, '/'),
    };
    match split {
        None => Err(SwarmError::InvalidWorkspaceReference(input.to_owned())),
        Some((repository, workspace)) => {
            let repository = text::trim(repository);
            let workspace = text::trim(workspace);
            if repository.unicode_len() == 0 || workspace.unicode_len() == 0 {
                return Err(SwarmError::InvalidWorkspaceReference(input.to_owned()));
            }
            Ok(
                WorkspaceReference {
                    repository: repository.to_owned(),
                    workspace: workspace.to_owned(),
                },
            )
        },
    }
}

/// Whether a text can name a workspace.
pub open spec fn workspace_name_valid(name: Seq<char>) -> bool {
    &&& name.len() > 0
    &&& !name.contains('/')
    &&& !name.contains('\\')
    &&& !name.contains(':')
    &&& !text::has_whitespace(name)
}

/// The name of a workspace: the one that was asked for, else the default
/// branch, without white space around it.
pub open spec fn resolved_workspace_name(
    name: Option<Seq<char>>,
    default_branch: Seq<char>,
) -> Result<Seq<char>, SwarmErrorView> {
    let wanted = text::trimmed(
        match name {
            Some(name) => name,
            None => default_branch,
        },
    );
    if workspace_name_valid(wanted) {
        Ok(wanted)
    } else {
        Err(SwarmErrorView::InvalidWorkspace(wanted))
    }
}

/// Decides the name of a workspace.
pub fn resolve_workspace_name(name: Option<&str>, default_branch: &str) -> (r: Result<
    String,
    SwarmError,
>)
    ensures
        error::result_view(r) == resolved_workspace_name(name.deep_view(), default_branch@),
{
    let wanted = text::trim(
        match name {
            Some(name) => name,
            None => default_branch,
        },
    );
    if wanted.unicode_len() == 0 || text::contains_char(wanted, '/') || text::contains_char(
        wanted,
        '\\',
    ) || text::contains_char(wanted, ':') || text::contains_whitespace(wanted) {
        return Err(SwarmError::InvalidWorkspace(wanted.to_owned()));
    }
    Ok(wanted.to_owned())
}

/// The arguments that add a worktree on a branch that is reset to the tip of
/// the remote's default branch.
pub open spec fn worktree_add_args(
    bare_repo_path: Seq<char>,
    workspace_path: Seq<char>,
    workspace_name: Seq<char>,
    default_branch: Seq<char>,
) -> Seq<Seq<char>> {
    seq![
        effects::git_dir(bare_repo_path),
        "worktree"@,
        "add"@,
        "-B"@,
        workspace_name,
        workspace_path,
        "refs/remotes/origin/"@ + default_branch,
    ]
}

/// The arguments that add a worktree on a new branch from a commit.
pub open spec fn clone_worktree_add_args(
    bare_repo_path: Seq<char>,
    workspace_path: Seq<char>,
    workspace_name: Seq<char>,
    source_head: Seq<char>,
) -> Seq<Seq<char>> {
    seq![
        effects::git_dir(bare_repo_path),
        "worktree"@,
        "add"@,
        "-b"@,
        workspace_name,
        workspace_path,
        source_head,
    ]
}

/// The arguments that add the worktree of a new workspace.
pub fn build_worktree_add_args(
    bare_repo_path: &str,
    workspace_path: &str,
    workspace_name: &str,
    default_branch: &str,
) -> (r: Result<Vec<String>, SwarmError>)
    ensures
        r matches Ok(args) && args.deep_view() == worktree_add_args(
            bare_repo_path@,
            workspace_path@,
            workspace_name@,
            default_branch@,
        ),
{
    let mut upstream = "refs/remotes/origin/".to_owned();
    upstream.append(default_branch);
    let args = vec![
        effects::git_dir_arg(bare_repo_path),
        "worktree".to_owned(),
        "add".to_owned(),
        "-B".to_owned(),
        workspace_name.to_owned(),
        workspace_path.to_owned(),
        upstream,
    ];
    proof {
        assert(args.deep_view() =~= worktree_add_args(
            bare_repo_path@,
            workspace_path@,
            workspace_name@,
            default_branch@,
        ));
    }
    Ok(args)
}

/// The arguments that add the worktree of a cloned workspace.
pub fn build_clone_worktree_add_args(
    bare_repo_path: &str,
    workspace_path: &str,
    workspace_name: &str,
    source_head: &str,
) -> (r: Result<Vec<String>, SwarmError>)
    ensures
        r matches Ok(args) && args.deep_view() == clone_worktree_add_args(
            bare_repo_path@,
            workspace_path@,
            workspace_name@,
            source_head@,
        ),
{
    let args = vec![
        effects::git_dir_arg(bare_repo_path),
        "worktree".to_owned(),
        "add".to_owned(),
        "-b".to_owned(),
        workspace_name.to_owned(),
        workspace_path.to_owned(),
        source_head.to_owned(),
    ];
    proof {
        assert(args.deep_view() =~= clone_worktree_add_args(
            bare_repo_path@,
            workspace_path@,
            workspace_name@,
            source_head@,
        ));
    }
    Ok(args)
}

/// The default branch in the name of the remote's head.
pub open spec fn default_branch_of(head: Seq<char>) -> Seq<char> {
    match text::without_prefix(text::trimmed(head), "origin/"@) {
        Some(branch) => branch,
        None => text::trimmed(head),
    }
}

pub(crate) fn default_branch(head: &str) -> (r: String)
    ensures
        r@ == default_branch_of(head@),
{
    let head = text::trim(head);
    match text::strip_prefix(head, "origin/") {
        Some(branch) => branch.to_owned(),
        None => head.to_owned(),
    }
}

/// The current branch of a checkout, being asked for: first by name, then, where
/// no branch is checked out, by the short name of its commit.
#[derive(Debug)]
pub enum BranchQuery {
    ByName(String),
    ByCommit(String),
}

/// What a `BranchQuery` holds.
#[verifier::ext_equal]
pub enum BranchQueryView {
    ByName(Seq<char>),
    ByCommit(Seq<char>),
}

impl View for BranchQuery {
    type V = BranchQueryView;

    open spec fn view(&self) -> BranchQueryView {
        match self {
            BranchQuery::ByName(a) => BranchQueryView::ByName(a@),
            BranchQuery::ByCommit(a) => BranchQueryView::ByCommit(a@),
        }
    }
}

impl DeepView for BranchQuery {
    type V = BranchQueryView;

    open spec fn deep_view(&self) -> BranchQueryView {
        self@
    }
}

impl Clone for BranchQuery {
    fn clone(&self) -> (r: Self)
        ensures
            r@ == self@,
    {
        match self {
            BranchQuery::ByName(a) => BranchQuery::ByName(a.clone()),
            BranchQuery::ByCommit(a) => BranchQuery::ByCommit(a.clone()),
        }
    }
}

/// The first step of asking for a branch.
pub open spec fn branch_start(path: Seq<char>) -> StepView<BranchQueryView, Seq<char>> {
    StepView::Run(
        EffectView::RunGit { cwd: Some(path), args: seq!["branch"@, "--show-current"@] },
        BranchQueryView::ByName(path),
    )
}

/// The step that follows an answer.
pub open spec fn branch_next(query: BranchQueryView, reply: ReplyView) -> StepView<
    BranchQueryView,
    Seq<char>,
> {
    match (query, reply) {
        (_, ReplyView::Failed(e)) => StepView::Finish(Err(e)),
        (BranchQueryView::ByName(path), ReplyView::Output(output)) => match effects::git_outcome(
            output,
        ) {
            Ok(branch) => if branch.len() > 0 {
                StepView::Finish(Ok(branch))
            } else {
                StepView::Run(
                    EffectView::RunGit {
                        cwd: Some(path),
                        args: seq!["rev-parse"@, "--short"@, "HEAD"@],
                    },
                    BranchQueryView::ByCommit(path),
                )
            },
            Err(e) => StepView::Finish(Err(e)),
        },
        (BranchQueryView::ByCommit(_), ReplyView::Output(output)) => StepView::Finish(
            effects::git_outcome(output),
        ),
        _ => StepView::Mismatch,
    }
}

/// Begins to ask for the current branch of a checkout.
pub fn git_current_branch(path: &str) -> (r: Step<BranchQuery, String>)
    ensures
        r@ == branch_start(path@),
{
    let args = vec!["branch".to_owned(), "--show-current".to_owned()];
    proof {
        assert(args.deep_view() =~= seq!["branch"@, "--show-current"@]);
    }
    Step::Run(
        Effect::RunGit { cwd: Some(path.to_owned()), args },
        BranchQuery::ByName(path.to_owned()),
    )
}

impl BranchQuery {
    /// The step that follows an answer.
    pub fn resume(self, reply: Reply) -> (r: Step<BranchQuery, String>)
        ensures
            r@ == branch_next(self@, reply@),
    {
        match (self, reply) {
            (_, Reply::Failed(e)) => Step::Finish(Err(e)),
            (BranchQuery::ByName(path), Reply::Output(output)) => match effects::git_result(
                &output,
            ) {
                Ok(branch) => if branch.as_str().unicode_len() > 0 {
                    Step::Finish(Ok(branch))
                } else {
                    let args = vec!["rev-parse".to_owned(), "--short".to_owned(), "HEAD".to_owned()];
                    proof {
                        assert(args.deep_view() =~= seq!["rev-parse"@, "--short"@, "HEAD"@]);
                    }
                    Step::Run(
                        Effect::RunGit { cwd: Some(path.clone()), args },
                        BranchQuery::ByCommit(path),
                    )
                },
                Err(e) => Step::Finish(Err(e)),
            },
            (BranchQuery::ByCommit(_), Reply::Output(output)) => match effects::git_result(
                &output,
            ) {
                Ok(branch) => Step::Finish(Ok(branch)),
                Err(e) => Step::Finish(Err(e)),
            },
            _ => Step::Mismatch,
        }
    }
}

/// A repository and the places of its files.
#[derive(Debug)]
pub struct Place {
    pub repo: Repository,
    pub repo_dir: String,
    pub bare_repo_path: String,
    pub workspaces_dir: String,
    pub db_path: String,
}

/// What a `Place` holds.
#[verifier::ext_equal]
pub struct PlaceView {
    pub repo: RepositoryView,
    pub repo_dir: Seq<char>,
    pub bare_repo_path: Seq<char>,
    pub workspaces_dir: Seq<char>,
    pub db_path: Seq<char>,
}

impl View for Place {
    type V = PlaceView;

    open spec fn view(&self) -> PlaceView {
        PlaceView {
            repo: self.repo@,
            repo_dir: self.repo_dir@,
            bare_repo_path: self.bare_repo_path@,
            workspaces_dir: self.workspaces_dir@,
            db_path: self.db_path@,
        }
    }
}

impl DeepView for Place {
    type V = PlaceView;

    open spec fn deep_view(&self) -> PlaceView {
        self@
    }
}

impl Clone for Place {
    fn clone(&self) -> (r: Self)
        ensures
            r@ == self@,
    {
        Place {
            repo: self.repo.clone(),
            repo_dir: self.repo_dir.clone(),
            bare_repo_path: self.bare_repo_path.clone(),
            workspaces_dir: self.workspaces_dir.clone(),
            db_path: self.db_path.clone(),
        }
    }
}

/// The places of a repository.
pub open spec fn place_of(repos_dir: Seq<char>, repo: RepositoryView) -> PlaceView {
    let dir = repos::repository_dir(repos_dir, repo);
    PlaceView {
        repo,
        repo_dir: dir,
        bare_repo_path: paths::joined_path(dir, "source.git"@),
        workspaces_dir: paths::joined_path(dir, "workspaces"@),
        db_path: paths::joined_path(dir, "repo.db"@),
    }
}

/// The workspace that a row records.
pub open spec fn workspace_of(repo: RepositoryView, row: WorkspaceRowView) -> WorkspaceView {
    WorkspaceView {
        repository: repos::canonical_name(repo),
        repository_alias: repos::shown_name(repo),
        name: row.name,
        branch: row.branch,
        path: row.path,
        created_at: row.created_at,
    }
}

/// The error that a name is taken.
pub open spec fn duplicate_workspace(repo: RepositoryView, name: Seq<char>) -> SwarmErrorView {
    SwarmErrorView::DuplicateWorkspace(repos::shown_name(repo) + ":"@ + name)
}

/// Tells rows with a given name.
pub open spec fn has_name(name: Seq<char>) -> spec_fn(WorkspaceRowView) -> bool {
    |row: WorkspaceRowView| row.name == name
}

/// The row with a given name.
pub open spec fn row_named(rows: Seq<WorkspaceRowView>, name: Seq<char>) -> Option<
    WorkspaceRowView,
> {
    seqs::first(rows, has_name(name))
}

/// Has git change a repository.
pub open spec fn repository_command(place: PlaceView, args: Seq<Seq<char>>) -> EffectView {
    EffectView::RunGit {
        cwd: Some(place.repo_dir),
        args: seq![effects::git_dir(place.bare_repo_path)] + args,
    }
}

pub(crate) fn make_workspace(repo: &Repository, row: &WorkspaceRow) -> (r: Workspace)
    ensures
        r@ == workspace_of(repo@, row@),
{
    Workspace {
        repository: repo.canonical(),
        repository_alias: repo.display_name(),
        name: row.name.clone(),
        branch: row.branch.clone(),
        path: row.path.clone(),
        created_at: row.created_at,
    }
}

pub(crate) fn duplicate_error(repo: &Repository, name: &str) -> (r: SwarmError)
    ensures
        r@ == duplicate_workspace(repo@, name@),
{
    let mut out = repo.display_name();
    out.append(":");
    out.append(name);
    SwarmError::DuplicateWorkspace(out)
}

pub(crate) fn find_row(rows: &Vec<WorkspaceRow>, name: &str) -> (r: Option<WorkspaceRow>)
    ensures
        r.deep_view() == row_named(rows.deep_view(), name@),
{
    let ghost all = rows.deep_view();
    let ghost p = has_name(name@);
    let mut i: usize = 0;
    while i < rows.len()
        invariant
            i <= rows.len(),
            all == rows.deep_view(),
            p == has_name(name@),
            forall|j: int| 0 <= j < i ==> !p(#[trigger] all[j]),
        decreases rows.len() - i,
    {
        proof {
            assert(all[i as int] == rows@[i as int]@);
        }
        if text::same(rows[i].name.as_str(), name) {
            proof {
                seqs::lemma_first_index_is(all, p, i as int);
            }
            return Some(rows[i].clone());
        }
        i += 1;
    }
    proof {
        seqs::lemma_first_index_is(all, p, i as int);
    }
    None
}

impl Place {
    pub(crate) fn command(&self, args: Vec<String>) -> (r: Effect)
        ensures
            r@ == repository_command(self@, args.deep_view()),
    {
        let mut all: Vec<String> = vec![effects::git_dir_arg(self.bare_repo_path.as_str())];
        let ghost tail = args.deep_view();
        let mut args = args;
        all.append(&mut args);
        proof {
            assert(all.deep_view() =~= seq![effects::git_dir(self@.bare_repo_path)] + tail);
        }
        Effect::RunGit { cwd: Some(self.repo_dir.clone()), args: all }
    }
}

/// A row being brought up to date with its checkout: waiting for the current
/// branch, or for the record of a branch that changed.
#[derive(Debug)]
pub enum Lookup {
    Branch(WorkspaceRow),
    Record { row: WorkspaceRow, branch: String },
}

/// What a `Lookup` holds.
#[verifier::ext_equal]
pub enum LookupView {
    Branch(WorkspaceRowView),
    Record { row: WorkspaceRowView, branch: Seq<char> },
}

impl View for Lookup {
    type V = LookupView;

    open spec fn view(&self) -> LookupView {
        match self {
            Lookup::Branch(a) => LookupView::Branch(a@),
            Lookup::Record { row, branch } => LookupView::Record {
                row: row@,
                branch: branch@,
            },
        }
    }
}

impl DeepView for Lookup {
    type V = LookupView;

    open spec fn deep_view(&self) -> LookupView {
        self@
    }
}

impl Clone for Lookup {
    fn clone(&self) -> (r: Self)
        ensures
            r@ == self@,
    {
        match self {
            Lookup::Branch(a) => Lookup::Branch(a.clone()),
            Lookup::Record { row, branch } => Lookup::Record {
                row: row.clone(),
                branch: branch.clone(),
            },
        }
    }
}

/// The step that follows a reply. A row whose branch is no longer the current
/// one is recorded with the current one.
pub open spec fn lookup_next(
    repo: RepositoryView,
    lookup: LookupView,
    reply: ReplyView,
) -> StepView<LookupView, WorkspaceView> {
    match (lookup, reply) {
        (_, ReplyView::Failed(e)) => StepView::Finish(Err(e)),
        (LookupView::Branch(row), ReplyView::Branch(branch)) => if branch == row.branch {
            StepView::Finish(Ok(workspace_of(repo, row)))
        } else {
            StepView::Run(
                EffectView::UpdateBranch { name: row.name, branch },
                LookupView::Record { row, branch },
            )
        },
        (LookupView::Record { row, branch }, ReplyView::Done) => StepView::Finish(
            Ok(workspace_of(repo, WorkspaceRowView { branch, ..row })),
        ),
        _ => StepView::Mismatch,
    }
}

impl Lookup {
    pub(crate) fn resume(self, repo: &Repository, reply: Reply) -> (r: Step<Lookup, Workspace>)
        ensures
            r@ == lookup_next(repo@, self@, reply@),
    {
        match (self, reply) {
            (_, Reply::Failed(e)) => Step::Finish(Err(e)),
            (Lookup::Branch(row), Reply::Branch(branch)) => if branch == row.branch {
                Step::Finish(Ok(make_workspace(repo, &row)))
            } else {
                Step::Run(
                    Effect::UpdateBranch { name: row.name.clone(), branch: branch.clone() },
                    Lookup::Record { row, branch },
                )
            },
            (Lookup::Record { row, branch }, Reply::Done) => {
                let mut row = row;
                row.branch = branch;
                Step::Finish(Ok(make_workspace(repo, &row)))
            },
            _ => Step::Mismatch,
        }
    }
}

impl WorkspaceStore {
    /// The store over an index.
    pub fn open(repos: RepositoryStore) -> (r: Self)
        ensures
            r.repos@ == repos@,
    {
        WorkspaceStore { repos }
    }

    pub(crate) fn place(&self, repo: Repository) -> (r: Place)
        ensures
            r@ == place_of(self.repos@.paths.repos_dir, repo@),
    {
        Place {
            repo_dir: self.repos.repo_dir(&repo),
            bare_repo_path: self.repos.bare_repo_path(&repo),
            workspaces_dir: self.repos.workspaces_dir(&repo),
            db_path: self.repos.repo_db_path(&repo),
            repo,
        }
    }

    /// The place and the name that a workspace reference gives.
    pub(crate) fn locate(&self, workspace: &str) -> (r: Result<(Place, String), SwarmError>)
        ensures
            match located(self.repos@, workspace@) {
                Ok(l) => r matches Ok(p) && p.0@ == l.0 && p.1@ == l.1,
                Err(e) => r matches Err(x) && x@ == e,
            },
    {
        match parse_workspace_reference(workspace) {
            Err(e) => Err(e),
            Ok(reference) => match self.repos.require_repository(reference.repository.as_str()) {
                Err(e) => Err(e),
                Ok(repo) => Ok((self.place(repo), reference.workspace)),
            },
        }
    }
}

/// The place and the name that a workspace reference gives.
pub open spec fn located(store: RepositoryStoreView, workspace: Seq<char>) -> Result<
    (PlaceView, Seq<char>),
    SwarmErrorView,
> {
    match workspace_reference(workspace) {
        Err(e) => Err(e),
        Ok(reference) => match repos::required(store.rows, reference.repository) {
            Err(e) => Err(e),
            Ok(repo) => Ok((place_of(store.paths.repos_dir, repo), reference.workspace)),
        },
    }
}

/// A name that was accepted is accepted again as it is, and it holds no
/// separator and no white space.
pub proof fn law_accepted_name_is_stable(
    name: Option<Seq<char>>,
    default_branch: Seq<char>,
    other_branch: Seq<char>,
)
    ensures
        resolved_workspace_name(name, default_branch) matches Ok(n) ==> workspace_name_valid(n)
            && resolved_workspace_name(Some(n), other_branch) == Ok::<_, SwarmErrorView>(n),
{
    if let Ok(n) = resolved_workspace_name(name, default_branch) {
        let wanted = match name {
            Some(name) => name,
            None => default_branch,
        };
        text::lemma_trimmed_twice(wanted);
    }
}

/// A repository and a workspace name with a `:` between them read back.
pub proof fn law_workspace_reference_reads_back(repository: Seq<char>, workspace: Seq<char>)
    requires
        repository.len() > 0,
        text::trimmed(repository) == repository,
        workspace_name_valid(workspace),
    ensures
        workspace_reference(repository + ":"@ + workspace) == Ok::<_, SwarmErrorView>(
            (WorkspaceReferenceView { repository, workspace }),
        ),
{
    reveal_strlit(":");
    let s = repository + ":"@ + workspace;
    let i = repository.len() as int;
    assert(s[i] == ':');
    assert forall|j: int| i < j < s.len() implies s[j] != ':' by {
        assert(s[j] == workspace[j - i - 1]);
        assert(workspace.contains(workspace[j - i - 1]));
    }
    text::lemma_last_index_of_is(s, ':', i);
    assert(s.take(i) =~= repository);
    assert(s.skip(i + 1) =~= workspace);
    assert(!text::whitespace(workspace[0]) && !text::whitespace(workspace[workspace.len() - 1]));
    text::lemma_trimmed_fixed(workspace);
}

/// The same with a `/`, where the repository is written without a `:`.
pub proof fn law_workspace_path_reference_reads_back(repository: Seq<char>, workspace: Seq<char>)
    requires
        repository.len() > 0,
        text::trimmed(repository) == repository,
        !repository.contains(':'),
        workspace_name_valid(workspace),
    ensures
        workspace_reference(repository + "/"@ + workspace) == Ok::<_, SwarmErrorView>(
            (WorkspaceReferenceView { repository, workspace }),
        ),
{
    reveal_strlit("/");
    let s = repository + "/"@ + workspace;
    let i = repository.len() as int;
    assert(s[i] == '/');
    assert forall|j: int| i < j < s.len() implies s[j] != '/' && s[j] != ':' by {
        assert(s[j] == workspace[j - i - 1]);
        assert(workspace.contains(workspace[j - i - 1]));
    }
    assert forall|j: int| 0 <= j < i implies s[j] != ':' by {
        assert(s[j] == repository[j]);
        assert(repository.contains(repository[j]));
    }
    text::lemma_last_index_of_is(s, ':', -1);
    text::lemma_last_index_of_is(s, '/', i);
    assert(s.take(i) =~= repository);
    assert(s.skip(i + 1) =~= workspace);
    assert(!text::whitespace(workspace[0]) && !text::whitespace(workspace[workspace.len() - 1]));
    text::lemma_trimmed_fixed(workspace);
}

/// Where git names the remote's head with the remote before a branch, the default branch
/// is that branch, whatever it is called and whatever white space stands around the
/// answer. An answer without the remote is the branch itself.
#[verifier::spinoff_prover]
#[verifier::rlimit(40)]
pub proof fn law_default_branch_is_what_git_names(
    branch: Seq<char>,
    front: Seq<char>,
    back: Seq<char>,
)
    requires
        branch.len() > 0 ==> !text::whitespace(branch[0]) && !text::whitespace(branch.last()),
        text::blank(front),
        text::blank(back),
    ensures
        default_branch_of(front + ("origin/"@ + branch) + back) == branch,
        default_branch_of("origin/"@ + branch) == branch,
        default_branch_of("origin/"@ + branch + "\n"@) == branch,
        !"origin/"@.is_prefix_of(branch) ==> default_branch_of(front + branch + back) == branch,
{
    let named = "origin/"@ + branch;
    let none = Seq::<char>::empty();
    lemma_origin_name(branch);
    text::law_trimming_keeps_the_inside(front, named, back);
    text::law_trimming_keeps_the_inside(none, named, none);
    assert(none + named + none =~= named);
    assert(text::blank("\n"@)) by {
        reveal_strlit("\n");
    }
    text::law_trimming_keeps_the_inside(none, named, "\n"@);
    assert(none + named + "\n"@ =~= named + "\n"@);
    text::law_trimming_keeps_the_inside(front, branch, back);
}

proof fn lemma_origin_name(branch: Seq<char>)
    requires
        branch.len() > 0 ==> !text::whitespace(branch.last()),
    ensures
        ({
            let named = "origin/"@ + branch;
            &&& named.len() > 0
            &&& !text::whitespace(named[0])
            &&& !text::whitespace(named.last())
            &&& text::without_prefix(named, "origin/"@) == Some(branch)
        }),
{
    reveal_strlit("origin/");
    let named = "origin/"@ + branch;
    assert(named[0] == 'o');
    assert(named.last() == if branch.len() > 0 {
        branch.last()
    } else {
        '/'
    });
    text::law_prefixes_and_suffixes("origin/"@, branch);
}

/// The arguments that add worktrees, written out: a new workspace is on a branch of its
/// name that is reset to the remote's default branch, a cloned one on a new branch of its
/// name that starts at a commit.
pub proof fn law_worktree_arguments(
    bare_repo_path: Seq<char>,
    workspace_path: Seq<char>,
    workspace_name: Seq<char>,
    start: Seq<char>,
)
    ensures
        worktree_add_args(bare_repo_path, workspace_path, workspace_name, start) == seq![
            "--git-dir="@ + bare_repo_path,
            "worktree"@,
            "add"@,
            "-B"@,
            workspace_name,
            workspace_path,
            "refs/remotes/origin/"@ + start,
        ],
        clone_worktree_add_args(bare_repo_path, workspace_path, workspace_name, start) == seq![
            "--git-dir="@ + bare_repo_path,
            "worktree"@,
            "add"@,
            "-b"@,
            workspace_name,
            workspace_path,
            start,
        ],
{
}

/// The files of a repository stand in its directory, which is that of its host, its owner
/// and its name below the directory of all repositories.
pub proof fn law_places_of_a_repository(repos_dir: Seq<char>, repo: RepositoryView)
    requires
        repos::segment(repo.host),
        repos::segment(repo.owner),
        repos::segment(repo.name),
        repos_dir.len() > 0,
        repos_dir.last() != '/',
    ensures
        ({
            let dir = repos_dir + "/"@ + repo.host + "/"@ + repo.owner + "/"@ + repo.name;
            place_of(repos_dir, repo) == (PlaceView {
                repo,
                repo_dir: dir,
                bare_repo_path: dir + "/source.git"@,
                workspaces_dir: dir + "/workspaces"@,
                db_path: dir + "/repo.db"@,
            })
        }),
{
    reveal_strlit("/");
    reveal_strlit("source.git");
    reveal_strlit("/source.git");
    reveal_strlit("workspaces");
    reveal_strlit("/workspaces");
    reveal_strlit("repo.db");
    reveal_strlit("/repo.db");
    let dir = repos_dir + "/"@ + repo.host + "/"@ + repo.owner + "/"@ + repo.name;
    assert(!(repo.host[0] == '/') && !(repo.owner[0] == '/') && !(repo.name[0] == '/')) by {
        assert(repo.host.contains(repo.host[0]));
        assert(repo.owner.contains(repo.owner[0]));
        assert(repo.name.contains(repo.name[0]));
    }
    assert(repo.host.last() != '/' && repo.owner.last() != '/' && repo.name.last() != '/') by {
        assert(repo.host.contains(repo.host.last()));
        assert(repo.owner.contains(repo.owner.last()));
        assert(repo.name.contains(repo.name.last()));
    }
    let a = repos_dir.push('/') + repo.host;
    let b = a.push('/') + repo.owner;
    assert(a.last() == repo.host.last());
    assert(b.last() == repo.owner.last());
    assert(b.push('/') + repo.name =~= dir);
    assert(repos::repository_dir(repos_dir, repo) == dir);
    assert(dir.last() == repo.name.last());
    assert(dir.push('/') + "source.git"@ =~= dir + "/source.git"@);
    assert(dir.push('/') + "workspaces"@ =~= dir + "/workspaces"@);
    assert(dir.push('/') + "repo.db"@ =~= dir + "/repo.db"@);
}

/// A workspace has the name, the branch, the path and the time of its row, under the
/// canonical name of its repository and the name that the repository is shown by.
pub proof fn law_workspace_has_what_its_row_has(repo: RepositoryView, row: WorkspaceRowView)
    ensures
        workspace_of(repo, row) == (WorkspaceView {
            repository: repo.host + "/"@ + repo.owner + "/"@ + repo.name,
            repository_alias: if repo.alias is Some {
                repo.alias->0
            } else {
                repo.name
            },
            name: row.name,
            branch: row.branch,
            path: row.path,
            created_at: row.created_at,
        }),
        full_reference(workspace_of(repo, row)) == repo.host + "/"@ + repo.owner + "/"@ + repo.name
            + ":"@ + row.name,
        duplicate_workspace(repo, row.name) == SwarmErrorView::DuplicateWorkspace(
            workspace_of(repo, row).repository_alias + ":"@ + row.name,
        ),
{
}

/// A workspace is on the branch that its checkout is on. Where the row says otherwise, the
/// row of that name, and nothing but its branch, is changed before the workspace is handed
/// back.
pub proof fn law_looking_brings_the_branch_up_to_date(
    repo: RepositoryView,
    row: WorkspaceRowView,
    branch: Seq<char>,
)
    ensures
        ({
            let current = workspace_of(repo, WorkspaceRowView { branch, ..row });
            let step = lookup_next(repo, LookupView::Branch(row), ReplyView::Branch(branch));
            if branch == row.branch {
                step == StepView::<LookupView, WorkspaceView>::Finish(Ok(current))
            } else {
                &&& step matches StepView::Run(effect, next)
                &&& effect == (EffectView::UpdateBranch { name: row.name, branch })
                &&& lookup_next(repo, next, ReplyView::Done) == StepView::<
                    LookupView,
                    WorkspaceView,
                >::Finish(Ok(current))
            }
        }),
{
}

/// The row that is found under a name is the first one that has it, and one is found
/// wherever there is one.
pub proof fn law_row_is_found_by_its_name(rows: Seq<WorkspaceRowView>, name: Seq<char>)
    ensures
        match row_named(rows, name) {
            Some(row) => row.name == name && exists|i: int|
                0 <= i < rows.len() && #[trigger] rows[i] == row && forall|j: int|
                    0 <= j < i ==> (#[trigger] rows[j]).name != name,
            None => forall|i: int| 0 <= i < rows.len() ==> (#[trigger] rows[i]).name != name,
        },
{
    seqs::lemma_first_index(rows, has_name(name));
}

/// The name of a workspace is what was asked for without white space around it, else the
/// default branch. It is refused, as it reads then, where it is empty or holds a `/`, a
/// `\`, a `:` or white space.
pub proof fn law_workspace_name_is_the_one_asked_for(wanted: Seq<char>, branch: Seq<char>)
    ensures
        ({
            let name = text::trimmed(wanted);
            let refused = name == Seq::<char>::empty() || name.contains('/') || name.contains('\\')
                || name.contains(':') || exists|i: int|
                0 <= i < name.len() && text::whitespace(#[trigger] name[i]);
            &&& resolved_workspace_name(Some(wanted), branch) == (if refused {
                Err::<Seq<char>, _>(SwarmErrorView::InvalidWorkspace(name))
            } else {
                Ok(name)
            })
            &&& resolved_workspace_name(None, wanted) == resolved_workspace_name(
                Some(wanted),
                branch,
            )
        }),
{
    let name = text::trimmed(wanted);
    assert(name.len() == 0 ==> name =~= Seq::<char>::empty());
}

/// The current branch of a checkout is asked for by name, in the checkout; where none is
/// checked out the short name of its commit takes its place. An answer of git is taken
/// without white space around it.
pub proof fn law_branch_is_asked_for_in_the_checkout(
    path: Seq<char>,
    output: effects::CommandOutputView,
)
    requires
        output.success,
    ensures
        ({
            let answer = text::trimmed(text::lossy_text(output.stdout));
            &&& branch_start(path) matches StepView::Run(first, by_name)
            &&& first == (EffectView::RunGit {
                cwd: Some(path),
                args: seq!["branch"@, "--show-current"@],
            })
            &&& answer.len() > 0 ==> branch_next(by_name, ReplyView::Output(output)) == StepView::<
                BranchQueryView,
                Seq<char>,
            >::Finish(Ok(answer))
            &&& answer.len() == 0 ==> {
                &&& branch_next(by_name, ReplyView::Output(output)) matches StepView::Run(
                    second,
                    by_commit,
                )
                &&& second == (EffectView::RunGit {
                    cwd: Some(path),
                    args: seq!["rev-parse"@, "--short"@, "HEAD"@],
                })
                &&& forall|last: effects::CommandOutputView|
                    last.success ==> #[trigger] branch_next(by_commit, ReplyView::Output(last))
                        == StepView::<BranchQueryView, Seq<char>>::Finish(
                        Ok(text::trimmed(text::lossy_text(last.stdout))),
                    )
            }
        }),
{
}

/// A reference names the place of the repository that stands before the last `:` and the
/// workspace behind it. Where the repository is not known, the error says which.
pub proof fn law_reference_leads_to_its_repository(
    store: RepositoryStoreView,
    repository: Seq<char>,
    workspace: Seq<char>,
)
    requires
        repository.len() > 0,
        text::trimmed(repository) == repository,
        workspace_name_valid(workspace),
    ensures
        located(store, repository + ":"@ + workspace) == (match repos::resolved(
            store.rows,
            repository,
        ) {
            Some(repo) => Ok((place_of(store.paths.repos_dir, repo), workspace)),
            None => Err(SwarmErrorView::RepositoryNotFound(repository)),
        }),
{
    law_workspace_reference_reads_back(repository, workspace);
}

/// A reference without a separator, or with nothing but white space before or behind the last
/// one, is refused as it was written. A `:` goes before a `/`.
pub proof fn law_references_that_are_refused(
    store: RepositoryStoreView,
    input: Seq<char>,
    a: Seq<char>,
    b: Seq<char>,
)
    ensures
        ({
            let refused = |r: Seq<char>|
                located(store, r) == Err::<(PlaceView, Seq<char>), SwarmErrorView>(
                    SwarmErrorView::InvalidWorkspaceReference(r),
                );
            &&& !input.contains(':') && !input.contains('/') ==> refused(input)
            &&& !b.contains(':') && (text::blank(a) || text::blank(b)) ==> refused(
                a + seq![':'] + b,
            )
            &&& !a.contains(':') && !b.contains(':') && !b.contains('/') && (text::blank(a)
                || text::blank(b)) ==> refused(a + seq!['/'] + b)
        }),
{
    text::law_cutting_at_a_character(input, ':', input);
    text::law_cutting_at_a_character(input, '/', input);
    text::law_cutting_at_a_character(a, ':', b);
    text::law_cutting_at_a_character(a, '/', b);
    text::lemma_trimmed_blank(a);
    text::lemma_trimmed_blank(b);
    if !a.contains(':') && !b.contains(':') {
        let s = a + seq!['/'] + b;
        if s.contains(':') {
            let k = choose|k: int| 0 <= k < s.len() && s[k] == ':';
            if k < a.len() {
                assert(a.contains(a[k]));
            } else if k > a.len() {
                assert(b.contains(b[k - a.len() - 1]));
            }
        }
        text::law_cutting_at_a_character(s, ':', s);
    }
}

/// Whatever is waited for, a failure ends the asking, and is its result.
pub proof fn law_failures_end_the_asking(
    query: BranchQueryView,
    repo: RepositoryView,
    lookup: LookupView,
    e: SwarmErrorView,
)
    ensures
        branch_next(query, ReplyView::Failed(e)) == StepView::<BranchQueryView, Seq<char>>::Finish(
            Err(e),
        ),
        lookup_next(repo, lookup, ReplyView::Failed(e)) == StepView::<
            LookupView,
            WorkspaceView,
        >::Finish(Err(e)),
{
}

} // verus!
