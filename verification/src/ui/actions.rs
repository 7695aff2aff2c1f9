//! What the window does when it is used, and when what was asked for is done.

use crate::error;
use crate::error::{SwarmError, SwarmErrorView};
use crate::seqs;
use crate::text;
use crate::ui::app;
use crate::ui::app::{
    AppState, AppStateView, Outcome, OutcomeView, Redraw, RedrawView, RepositoryFormState,
    RepositoryFormStateView,
};
use crate::ui::data::{
    SessionEntry, SessionEntryView, WorkspaceEntry, WorkspaceEntryView, WorkspaceGroup,
    WorkspaceGroupView,
};
use crate::ui::ghostty::{Key, Modifiers};
use crate::ui::lookups;
use vstd::prelude::*;

verus! {

/// What was shown when a repository began to be synced.
#[derive(Debug)]
pub struct SyncTicket {
    pub workspace: Option<String>,
    pub session: Option<String>,
}

/// What a `SyncTicket` holds.
#[verifier::ext_equal]
pub struct SyncTicketView {
    pub workspace: Option<Seq<char>>,
    pub session: Option<Seq<char>>,
}

impl View for SyncTicket {
    type V = SyncTicketView;

    open spec fn view(&self) -> SyncTicketView {
        SyncTicketView {
            workspace: self.workspace.deep_view(),
            session: self.session.deep_view(),
        }
    }
}

impl DeepView for SyncTicket {
    type V = SyncTicketView;

    open spec fn deep_view(&self) -> SyncTicketView {
        self@
    }
}

impl Clone for SyncTicket {
    fn clone(&self) -> (r: Self)
        ensures
            r@ == self@,
    {
        SyncTicket {
            workspace: self.workspace.clone(),
            session: self.session.clone(),
        }
    }
}

/// What is heard of a repository that is being synced.
#[derive(Debug)]
pub enum SyncReply {
    Waiting,
    Done,
    Failed(SwarmError),
    Gone,
}

/// What a `SyncReply` holds.
#[verifier::ext_equal]
pub enum SyncReplyView {
    Waiting,
    Done,
    Failed(SwarmErrorView),
    Gone,
}

impl View for SyncReply {
    type V = SyncReplyView;

    open spec fn view(&self) -> SyncReplyView {
        match self {
            SyncReply::Waiting => SyncReplyView::Waiting,
            SyncReply::Done => SyncReplyView::Done,
            SyncReply::Failed(a) => SyncReplyView::Failed(a@),
            SyncReply::Gone => SyncReplyView::Gone,
        }
    }
}

impl DeepView for SyncReply {
    type V = SyncReplyView;

    open spec fn deep_view(&self) -> SyncReplyView {
        self@
    }
}

impl Clone for SyncReply {
    fn clone(&self) -> (r: Self)
        ensures
            r@ == self@,
    {
        match self {
            SyncReply::Waiting => SyncReply::Waiting,
            SyncReply::Done => SyncReply::Done,
            SyncReply::Failed(a) => SyncReply::Failed(a.clone()),
            SyncReply::Gone => SyncReply::Gone,
        }
    }
}

/// What follows the end of an edit: a new name, or none.
#[derive(Debug)]
pub enum RenameStep {
    Rename(String),
    Leave(Redraw),
}

/// What a `RenameStep` holds.
#[verifier::ext_equal]
pub enum RenameStepView {
    Rename(Seq<char>),
    Leave(RedrawView),
}

impl View for RenameStep {
    type V = RenameStepView;

    open spec fn view(&self) -> RenameStepView {
        match self {
            RenameStep::Rename(a) => RenameStepView::Rename(a@),
            RenameStep::Leave(a) => RenameStepView::Leave(a@),
        }
    }
}

impl DeepView for RenameStep {
    type V = RenameStepView;

    open spec fn deep_view(&self) -> RenameStepView {
        self@
    }
}

impl Clone for RenameStep {
    fn clone(&self) -> (r: Self)
        ensures
            r@ == self@,
    {
        match self {
            RenameStep::Rename(a) => RenameStep::Rename(a.clone()),
            RenameStep::Leave(a) => RenameStep::Leave(a.clone()),
        }
    }
}

/// What the form for a new repository asks for.
#[derive(Debug)]
pub struct Submission {
    pub repository: String,
    pub alias: Option<String>,
}

/// What a `Submission` holds.
#[verifier::ext_equal]
pub struct SubmissionView {
    pub repository: Seq<char>,
    pub alias: Option<Seq<char>>,
}

impl View for Submission {
    type V = SubmissionView;

    open spec fn view(&self) -> SubmissionView {
        SubmissionView {
            repository: self.repository@,
            alias: self.alias.deep_view(),
        }
    }
}

impl DeepView for Submission {
    type V = SubmissionView;

    open spec fn deep_view(&self) -> SubmissionView {
        self@
    }
}

impl Clone for Submission {
    fn clone(&self) -> (r: Self)
        ensures
            r@ == self@,
    {
        Submission {
            repository: self.repository.clone(),
            alias: self.alias.clone(),
        }
    }
}

/// A way through the sessions of a workspace.
#[derive(Debug, Clone, Copy, PartialEq, Eq, Structural)]
pub enum Turn {
    Previous,
    Next,
}

/// An outcome that draws what is known anew.
pub open spec fn render(workspace: Option<Seq<char>>, session: Option<Seq<char>>) -> OutcomeView {
    OutcomeView { redraw: RedrawView::Render { workspace, session }, report: None }
}

/// An outcome that loads the workspaces and draws them anew.
pub open spec fn refresh(workspace: Option<Seq<char>>, session: Option<Seq<char>>) -> OutcomeView {
    OutcomeView { redraw: RedrawView::Refresh { workspace, session }, report: None }
}

/// An outcome that reports a failure too.
pub open spec fn reporting(
    outcome: OutcomeView,
    what: Seq<char>,
    e: SwarmErrorView,
) -> OutcomeView {
    OutcomeView { report: Some(what + error::error_message(e)), ..outcome }
}

fn report(what: &str, e: &SwarmError) -> (r: Option<String>)
    ensures
        r.deep_view() == Some(what@ + error::error_message(e@)),
{
    let mut out = what.to_owned();
    out.append(e.message().as_str());
    Some(out)
}

/// The place of the first workspace that a text refers to, among all groups or
/// those of one repository: the group, and the workspace in it.
pub open spec fn place(
    groups: Seq<WorkspaceGroupView>,
    within: Option<Seq<char>>,
    workspace_ref: Seq<char>,
) -> Option<(int, int)>
    decreases groups.len(),
{
    if groups.len() == 0 {
        None
    } else {
        let at = seqs::first_index(groups[0].workspaces, app::has_ref(workspace_ref));
        if (within is None || within == Some(groups[0].repo_canonical)) && at
            < groups[0].workspaces.len() {
            Some((0, at))
        } else {
            match place(groups.skip(1), within, workspace_ref) {
                Some((g, w)) => Some((g + 1, w)),
                None => None,
            }
        }
    }
}

fn find_in_group(group: &WorkspaceGroup, workspace_ref: &str) -> (r: Option<usize>)
    ensures
        ({
            let at = seqs::first_index(group@.workspaces, app::has_ref(workspace_ref@));
            match r {
                Some(i) => i == at && at < group@.workspaces.len(),
                None => at == group@.workspaces.len(),
            }
        }),
{
    let ghost p = app::has_ref(workspace_ref@);
    let mut i: usize = 0;
    while i < group.workspaces.len()
        invariant
            i <= group.workspaces@.len(),
            p == app::has_ref(workspace_ref@),
            forall|j: int| 0 <= j < i ==> !p(#[trigger] group@.workspaces[j]),
        decreases group.workspaces.len() - i,
    {
        proof {
            assert(group@.workspaces[i as int] == group.workspaces@[i as int]@);
        }
        if text::same(app::workspace_ref(&group.workspaces[i]).as_str(), workspace_ref) {
            proof {
                seqs::lemma_first_index_is(group@.workspaces, p, i as int);
            }
            return Some(i);
        }
        i += 1;
    }
    proof {
        seqs::lemma_first_index_is(group@.workspaces, p, i as int);
    }
    None
}

/// Finds the first workspace that a text refers to.
pub fn locate(
    groups: &Vec<WorkspaceGroup>,
    within: &Option<String>,
    workspace_ref: &str,
) -> (r: Option<(usize, usize)>)
    ensures
        match r {
            Some((g, w)) => {
                &&& place(groups.deep_view(), within.deep_view(), workspace_ref@) == Some(
                    (g as int, w as int),
                )
                &&& g < groups@.len()
                &&& w < groups@[g as int].workspaces@.len()
            },
            None => place(groups.deep_view(), within.deep_view(), workspace_ref@) is None,
        },
{
    let ghost all = groups.deep_view();
    let mut i: usize = 0;
    proof {
        assert(all.skip(0) =~= all);
    }
    while i < groups.len()
        invariant
            i <= groups.len(),
            all == groups.deep_view(),
            place(all, within.deep_view(), workspace_ref@) == (match place(
                all.skip(i as int),
                within.deep_view(),
                workspace_ref@,
            ) {
                Some((g, w)) => Some((g + i, w)),
                None => None,
            }),
        decreases groups.len() - i,
    {
        proof {
            assert(all.skip(i as int)[0] == groups@[i as int]@);
            assert(all.skip(i as int).skip(1) =~= all.skip(i + 1));
        }
        let fits: bool = match within {
            Some(repo) => text::same(repo.as_str(), groups[i].repo_canonical.as_str()),
            None => true,
        };
        let found = find_in_group(&groups[i], workspace_ref);
        if fits {
            if let Some(w) = found {
                return Some((i, w));
            }
        }
        i += 1;
    }
    None
}

/// The groups with one workspace replaced.
pub open spec fn replacing(
    groups: Seq<WorkspaceGroupView>,
    at: Option<(int, int)>,
    change: spec_fn(WorkspaceEntryView) -> WorkspaceEntryView,
) -> Seq<WorkspaceGroupView> {
    match at {
        Some((g, w)) => groups.update(
            g,
            WorkspaceGroupView {
                workspaces: groups[g].workspaces.update(w, change(groups[g].workspaces[w])),
                ..groups[g]
            },
        ),
        None => groups,
    }
}

fn replace_workspace(groups: &mut Vec<WorkspaceGroup>, g: usize, w: usize, entry: WorkspaceEntry)
    requires
        g < old(groups)@.len(),
        w < old(groups)@[g as int].workspaces@.len(),
    ensures
        final(groups).deep_view() == old(groups).deep_view().update(
            g as int,
            (WorkspaceGroupView {
                workspaces: old(groups).deep_view()[g as int].workspaces.update(w as int, entry@),
                ..old(groups).deep_view()[g as int]
            }),
        ),
{
    let ghost before = groups.deep_view();
    let mut group = groups[g].clone();
    let ghost whole = group@;
    proof {
        assert(before[g as int] == groups@[g as int]@);
        assert(whole == groups@[g as int]@);
        assert(group@.workspaces.len() == groups@[g as int]@.workspaces.len());
    }
    group.workspaces.set(w, entry);
    proof {
        assert(group@.workspaces =~= whole.workspaces.update(w as int, entry@));
    }
    groups.set(g, group);
    proof {
        assert(groups.deep_view() =~= before.update(
            g as int,
            WorkspaceGroupView {
                workspaces: before[g as int].workspaces.update(w as int, entry@),
                ..before[g as int]
            },
        ));
    }
}

/// A workspace on another branch.
pub open spec fn on_branch(branch: Seq<char>) -> spec_fn(WorkspaceEntryView) -> WorkspaceEntryView {
    |workspace: WorkspaceEntryView| WorkspaceEntryView { branch, ..workspace }
}

/// A workspace with one more session.
pub open spec fn with_session(session: SessionEntryView) -> spec_fn(
    WorkspaceEntryView,
) -> WorkspaceEntryView {
    |workspace: WorkspaceEntryView|
        WorkspaceEntryView { sessions: workspace.sessions.push(session), ..workspace }
}

/// Whether a session has another id.
pub open spec fn other_session(id: Seq<char>) -> spec_fn(SessionEntryView) -> bool {
    |session: SessionEntryView| session.id != id
}

/// A workspace without the sessions of an id.
pub open spec fn without_session(id: Seq<char>) -> spec_fn(
    WorkspaceEntryView,
) -> WorkspaceEntryView {
    |workspace: WorkspaceEntryView|
        WorkspaceEntryView { sessions: workspace.sessions.filter(other_session(id)), ..workspace }
}

/// Whether a workspace is referred to by another text.
pub open spec fn other_workspace(workspace_ref: Seq<char>) -> spec_fn(WorkspaceEntryView) -> bool {
    |workspace: WorkspaceEntryView| app::ref_of(workspace) != workspace_ref
}

/// A group with one more workspace.
pub open spec fn group_with(
    group: WorkspaceGroupView,
    workspace: WorkspaceEntryView,
) -> WorkspaceGroupView {
    WorkspaceGroupView {
        workspaces: group.workspaces.push(workspace),
        workspace_count: (group.workspaces.len() + 1) as usize,
        ..group
    }
}

/// A group without the workspaces that a text refers to.
pub open spec fn group_without(
    group: WorkspaceGroupView,
    workspace_ref: Seq<char>,
) -> WorkspaceGroupView {
    let kept = group.workspaces.filter(other_workspace(workspace_ref));
    WorkspaceGroupView { workspaces: kept, workspace_count: kept.len() as usize, ..group }
}

/// Whether a group is that of a repository.
pub open spec fn of_repository(repo: Seq<char>) -> spec_fn(WorkspaceGroupView) -> bool {
    |group: WorkspaceGroupView| group.repo_canonical == repo
}

/// The groups with one more workspace: at the end of the first group of its
/// repository.
pub open spec fn with_workspace(
    groups: Seq<WorkspaceGroupView>,
    workspace: WorkspaceEntryView,
) -> Seq<WorkspaceGroupView> {
    let g = seqs::first_index(groups, of_repository(workspace.repo_canonical));
    if g < groups.len() {
        groups.update(g, group_with(groups[g], workspace))
    } else {
        groups
    }
}

/// The groups without the workspaces that a text refers to.
pub open spec fn without_workspace(
    groups: Seq<WorkspaceGroupView>,
    workspace_ref: Seq<char>,
) -> Seq<WorkspaceGroupView> {
    Seq::new(groups.len(), |i: int| group_without(groups[i], workspace_ref))
}

fn find_repository(groups: &Vec<WorkspaceGroup>, repo: &str) -> (r: Option<usize>)
    ensures
        ({
            let at = seqs::first_index(groups.deep_view(), of_repository(repo@));
            match r {
                Some(i) => i == at && at < groups@.len(),
                None => at == groups@.len(),
            }
        }),
{
    let ghost p = of_repository(repo@);
    let ghost all = groups.deep_view();
    let mut i: usize = 0;
    while i < groups.len()
        invariant
            i <= groups.len(),
            all == groups.deep_view(),
            p == of_repository(repo@),
            forall|j: int| 0 <= j < i ==> !p(#[trigger] all[j]),
        decreases groups.len() - i,
    {
        proof {
            assert(all[i as int] == groups@[i as int]@);
        }
        if text::same(groups[i].repo_canonical.as_str(), repo) {
            proof {
                seqs::lemma_first_index_is(all, p, i as int);
            }
            return Some(i);
        }
        i += 1;
    }
    proof {
        seqs::lemma_first_index_is(all, p, i as int);
    }
    None
}

fn add_workspace(groups: &mut Vec<WorkspaceGroup>, workspace: WorkspaceEntry)
    ensures
        final(groups).deep_view() == with_workspace(old(groups).deep_view(), workspace@),
{
    let ghost before = groups.deep_view();
    let ghost added = workspace@;
    if let Some(g) = find_repository(groups, workspace.repo_canonical.as_str()) {
        let mut group = groups[g].clone();
        let ghost whole = group@;
        proof {
            assert(before[g as int] == groups@[g as int]@);
        }
        group.workspaces.push(workspace);
        group.workspace_count = group.workspaces.len();
        proof {
            assert(group@.workspaces =~= whole.workspaces.push(added));
            assert(group@ =~= group_with(whole, added));
        }
        groups.set(g, group);
        proof {
            assert(groups.deep_view() =~= before.update(
                g as int,
                group_with(before[g as int], added),
            ));
        }
    }
}

fn drop_workspaces(workspaces: &Vec<WorkspaceEntry>, workspace_ref: &str) -> (r: Vec<
    WorkspaceEntry,
>)
    ensures
        r.deep_view() == workspaces.deep_view().filter(other_workspace(workspace_ref@)),
{
    let ghost p = other_workspace(workspace_ref@);
    let ghost all = workspaces.deep_view();
    let mut out: Vec<WorkspaceEntry> = Vec::new();
    let mut i: usize = 0;
    proof {
        reveal(Seq::filter);
        assert(all.take(0) =~= seq![]);
        assert(out.deep_view() =~= seq![]);
    }
    while i < workspaces.len()
        invariant
            i <= workspaces.len(),
            all == workspaces.deep_view(),
            p == other_workspace(workspace_ref@),
            out.deep_view() == all.take(i as int).filter(p),
        decreases workspaces.len() - i,
    {
        let ghost before = out.deep_view();
        proof {
            reveal(Seq::filter);
            assert(all.take(i + 1).drop_last() =~= all.take(i as int));
            assert(all.take(i + 1).last() == workspaces@[i as int]@);
        }
        if !text::same(app::workspace_ref(&workspaces[i]).as_str(), workspace_ref) {
            out.push(workspaces[i].clone());
            proof {
                assert(out.deep_view() =~= before.push(workspaces@[i as int]@));
            }
        }
        i += 1;
    }
    proof {
        assert(all.take(i as int) =~= all);
    }
    out
}

fn drop_sessions(sessions: &Vec<SessionEntry>, id: &str) -> (r: Vec<SessionEntry>)
    ensures
        r.deep_view() == sessions.deep_view().filter(other_session(id@)),
{
    let ghost p = other_session(id@);
    let ghost all = sessions.deep_view();
    let mut out: Vec<SessionEntry> = Vec::new();
    let mut i: usize = 0;
    proof {
        reveal(Seq::filter);
        assert(all.take(0) =~= seq![]);
        assert(out.deep_view() =~= seq![]);
    }
    while i < sessions.len()
        invariant
            i <= sessions.len(),
            all == sessions.deep_view(),
            p == other_session(id@),
            out.deep_view() == all.take(i as int).filter(p),
        decreases sessions.len() - i,
    {
        let ghost before = out.deep_view();
        proof {
            reveal(Seq::filter);
            assert(all.take(i + 1).drop_last() =~= all.take(i as int));
            assert(all.take(i + 1).last() == sessions@[i as int]@);
        }
        if !text::same(sessions[i].id.as_str(), id) {
            out.push(sessions[i].clone());
            proof {
                assert(out.deep_view() =~= before.push(sessions@[i as int]@));
            }
        }
        i += 1;
    }
    proof {
        assert(all.take(i as int) =~= all);
    }
    out
}

fn remove_workspaces(groups: &mut Vec<WorkspaceGroup>, workspace_ref: &str)
    ensures
        final(groups).deep_view() == without_workspace(old(groups).deep_view(), workspace_ref@),
{
    let ghost all = groups.deep_view();
    let ghost goal = without_workspace(all, workspace_ref@);
    let mut i: usize = 0;
    while i < groups.len()
        invariant
            i <= groups.len(),
            groups@.len() == all.len(),
            goal == without_workspace(all, workspace_ref@),
            forall|j: int| 0 <= j < i ==> #[trigger] groups.deep_view()[j] == goal[j],
            forall|j: int| i <= j < all.len() ==> #[trigger] groups.deep_view()[j] == all[j],
        decreases groups.len() - i,
    {
        let ghost before = groups.deep_view();
        proof {
            assert(before[i as int] == groups@[i as int]@);
        }
        let mut group = groups[i].clone();
        let kept = drop_workspaces(&group.workspaces, workspace_ref);
        group.workspace_count = kept.len();
        group.workspaces = kept;
        proof {
            assert(group@ =~= group_without(all[i as int], workspace_ref@));
        }
        groups.set(i, group);
        proof {
            assert(groups.deep_view() =~= before.update(i as int, goal[i as int]));
        }
        i += 1;
    }
    proof {
        assert(groups.deep_view() =~= goal);
    }
}

/// What the window knows once a workspace was created. It is selected, and its name
/// can be edited.
pub open spec fn created(s: AppStateView, workspace: WorkspaceEntryView) -> AppStateView {
    let r = app::ref_of(workspace);
    app::remembering(
        AppStateView {
            workspace_groups: with_workspace(s.workspace_groups, workspace),
            selected_workspace: Some(r),
            editing_workspace: Some(r),
            ..s
        },
        r,
        first_session(workspace),
    )
}

/// The first session of a workspace.
pub open spec fn first_session(workspace: WorkspaceEntryView) -> Option<Seq<char>> {
    if workspace.sessions.len() == 0 {
        None
    } else {
        Some(workspace.sessions[0].id)
    }
}

/// What the window knows once a workspace was renamed. What was known of its pull
/// request is dropped, and its session stays selected.
pub open spec fn renamed(
    s: AppStateView,
    current: Seq<char>,
    workspace: WorkspaceEntryView,
) -> AppStateView {
    let next = app::ref_of(workspace);
    let cleared = lookups::forgetting(s, current);
    let remembered = if s.selected_sessions.contains_key(current) {
        Some(s.selected_sessions[current])
    } else {
        None
    };
    app::remembering(
        AppStateView {
            workspace_groups: replacing(
                s.workspace_groups,
                place(s.workspace_groups, Some(workspace.repo_canonical), current),
                |w: WorkspaceEntryView| workspace,
            ),
            selected_workspace: Some(next),
            selected_sessions: s.selected_sessions.remove(current),
            ..cleared
        },
        next,
        remembered,
    )
}

/// The workspace that is selected once one was removed: the one that was, else the
/// first.
pub open spec fn next_selected(
    selected: Option<Seq<char>>,
    removed: Seq<char>,
    groups: Seq<WorkspaceGroupView>,
) -> Option<Seq<char>> {
    if selected is Some && selected != Some(removed) {
        selected
    } else {
        match app::first_shown(groups) {
            Some(workspace) => Some(app::ref_of(workspace)),
            None => None,
        }
    }
}

/// What the window knows once a workspace was removed.
pub open spec fn removed(s: AppStateView, workspace_ref: Seq<char>) -> AppStateView {
    let groups = without_workspace(s.workspace_groups, workspace_ref);
    let cleared = lookups::forgetting(s, workspace_ref);
    AppStateView {
        workspace_groups: groups,
        selected_workspace: next_selected(s.selected_workspace, workspace_ref, groups),
        editing_workspace: None,
        selected_sessions: s.selected_sessions.remove(workspace_ref),
        selected_session: None,
        ..cleared
    }
}

/// What the window knows once a repository was collapsed or expanded.
pub open spec fn toggled(s: AppStateView, repo: Seq<char>, collapsed: bool) -> AppStateView {
    let g = seqs::first_index(s.workspace_groups, of_repository(repo));
    AppStateView {
        workspace_groups: if g < s.workspace_groups.len() {
            s.workspace_groups.update(
                g,
                WorkspaceGroupView { collapsed: !collapsed, ..s.workspace_groups[g] },
            )
        } else {
            s.workspace_groups
        },
        editing_workspace: None,
        selected_session: None,
        ..s
    }
}

/// What the window knows once a session was created. It is selected.
pub open spec fn session_created(
    s: AppStateView,
    workspace_ref: Seq<char>,
    session: SessionEntryView,
) -> AppStateView {
    app::remembering(
        AppStateView {
            workspace_groups: replacing(
                s.workspace_groups,
                place(s.workspace_groups, None, workspace_ref),
                with_session(session),
            ),
            selected_workspace: Some(workspace_ref),
            ..s
        },
        workspace_ref,
        Some(session.id),
    )
}

/// Whether an id is another one.
pub open spec fn other_id(closed: Seq<char>) -> spec_fn(Seq<char>) -> bool {
    |id: Seq<char>| id != closed
}

/// The session that is shown once one is closed: the first other one.
pub open spec fn session_after(ids: Seq<Seq<char>>, closed: Seq<char>) -> Option<Seq<char>> {
    seqs::first(ids, other_id(closed))
}

/// What the window knows once a session was closed.
pub open spec fn session_closed(
    s: AppStateView,
    workspace_ref: Seq<char>,
    ids: Seq<Seq<char>>,
    closed: Seq<char>,
) -> AppStateView {
    app::remembering(
        AppStateView {
            workspace_groups: replacing(
                s.workspace_groups,
                place(s.workspace_groups, None, workspace_ref),
                without_session(closed),
            ),
            selected_workspace: Some(workspace_ref),
            ..s
        },
        workspace_ref,
        session_after(ids, closed),
    )
}

/// The session that is shown once a session of a workspace is closed.
pub fn next_session(ids: &Vec<String>, closed: &str) -> (r: Option<String>)
    ensures
        r.deep_view() == session_after(ids.deep_view(), closed@),
{
    let ghost p = other_id(closed@);
    let ghost all = ids.deep_view();
    let mut i: usize = 0;
    while i < ids.len()
        invariant
            i <= ids.len(),
            all == ids.deep_view(),
            p == other_id(closed@),
            forall|j: int| 0 <= j < i ==> !p(#[trigger] all[j]),
        decreases ids.len() - i,
    {
        proof {
            assert(all[i as int] == ids@[i as int]@);
        }
        if !text::same(ids[i].as_str(), closed) {
            proof {
                seqs::lemma_first_index_is(all, p, i as int);
            }
            return Some(ids[i].clone());
        }
        i += 1;
    }
    proof {
        seqs::lemma_first_index_is(all, p, i as int);
    }
    None
}

/// The way through the sessions that a key asks for: `Ctrl-PageUp` and
/// `Ctrl-PageDown`.
pub fn session_turn(key: Key, modifiers: Modifiers) -> (r: Option<Turn>)
    ensures
        r == (if !modifiers.control {
            None
        } else if key == Key::PageUp {
            Some(Turn::Previous)
        } else if key == Key::PageDown {
            Some(Turn::Next)
        } else {
            None
        }),
{
    if !modifiers.control {
        return None;
    }
    if key == Key::PageUp {
        Some(Turn::Previous)
    } else if key == Key::PageDown {
        Some(Turn::Next)
    } else {
        None
    }
}

/// Whether a session has an id.
pub open spec fn has_id(id: Seq<char>) -> spec_fn(SessionEntryView) -> bool {
    |session: SessionEntryView| session.id == id
}

/// The position of the selected session. Where none is selected, or one that is not
/// there, it is the first.
pub open spec fn session_index(
    sessions: Seq<SessionEntryView>,
    selected: Option<Seq<char>>,
) -> int {
    match selected {
        Some(id) => {
            let at = seqs::first_index(sessions, has_id(id));
            if at < sessions.len() {
                at
            } else {
                0
            }
        },
        None => 0,
    }
}

/// The position before or behind another one, round the ends.
pub open spec fn turned_index(index: int, turn: Turn, count: int) -> int {
    match turn {
        Turn::Previous => (index - 1) % count,
        Turn::Next => (index + 1) % count,
    }
}

/// The session that a turn leads to. There is none to go to where there is but one.
pub open spec fn turn_target(s: AppStateView, turn: Turn) -> Option<(Seq<char>, Seq<char>)> {
    match s.selected_workspace {
        None => None,
        Some(r) => match app::workspace_by_ref(s.workspace_groups, r) {
            None => None,
            Some(workspace) => if workspace.sessions.len() < 2 {
                None
            } else {
                let index = session_index(workspace.sessions, s.selected_session);
                let next = turned_index(index, turn, workspace.sessions.len() as int);
                Some((r, workspace.sessions[next].id))
            },
        },
    }
}

/// What the window knows once a turn was made.
pub open spec fn turning(s: AppStateView, turn: Turn) -> AppStateView {
    match turn_target(s, turn) {
        Some((r, id)) => app::remembering(s, r, Some(id)),
        None => s,
    }
}

fn find_session(sessions: &Vec<SessionEntry>, selected: &Option<String>) -> (r: usize)
    requires
        sessions@.len() > 0,
    ensures
        r == session_index(sessions.deep_view(), selected.deep_view()),
        r < sessions@.len(),
{
    match selected {
        None => 0,
        Some(id) => {
            let ghost p = has_id(id@);
            let ghost all = sessions.deep_view();
            let mut i: usize = 0;
            while i < sessions.len()
                invariant
                    i <= sessions.len(),
                    all == sessions.deep_view(),
                    p == has_id(id@),
                    forall|j: int| 0 <= j < i ==> !p(#[trigger] all[j]),
                    selected.deep_view() == Some(id@),
                decreases sessions.len() - i,
            {
                proof {
                    assert(all[i as int] == sessions@[i as int]@);
                }
                if text::same(sessions[i].id.as_str(), id.as_str()) {
                    proof {
                        seqs::lemma_first_index_is(all, p, i as int);
                    }
                    return i;
                }
                i += 1;
            }
            proof {
                seqs::lemma_first_index_is(all, p, i as int);
            }
            0
        },
    }
}

/// The form once it was opened or closed.
pub open spec fn form_shown(s: AppStateView, expanded: bool) -> AppStateView {
    AppStateView {
        repository_form: RepositoryFormStateView { expanded, error: None, ..s.repository_form },
        ..s
    }
}

/// What the form asks for. An alias of nothing but white space is none.
pub open spec fn submission(repository: Seq<char>, alias: Seq<char>) -> SubmissionView {
    SubmissionView {
        repository: text::trimmed(repository),
        alias: if text::trimmed(alias).len() == 0 {
            None
        } else {
            Some(text::trimmed(alias))
        },
    }
}

impl AppState {
    /// Takes in the branch of a workspace.
    pub fn update_cached_workspace_branch(&mut self, workspace_ref: &str, branch: &str)
        ensures
            final(self)@ == (AppStateView {
                workspace_groups: replacing(
                    old(self)@.workspace_groups,
                    place(old(self)@.workspace_groups, None, workspace_ref@),
                    on_branch(branch@),
                ),
                ..old(self)@
            }),
    {
        if let Some((g, w)) = locate(&self.workspace_groups, &None, workspace_ref) {
            let mut entry = self.workspace_groups[g].workspaces[w].clone();
            proof {
                assert(self@.workspace_groups[g as int].workspaces[w as int]
                    == self.workspace_groups@[g as int].workspaces@[w as int]@);
            }
            entry.branch = branch.to_owned();
            replace_workspace(&mut self.workspace_groups, g, w, entry);
        }
    }

    /// Takes in the branch of a workspace that moved to it: what was known of its
    /// pull request is dropped.
    pub fn branch_changed(&mut self, workspace_ref: &str, branch: &str)
        ensures
            final(self)@ == ({
                let cleared = lookups::forgetting(old(self)@, workspace_ref@);
                AppStateView {
                    workspace_groups: replacing(
                        old(self)@.workspace_groups,
                        place(old(self)@.workspace_groups, None, workspace_ref@),
                        on_branch(branch@),
                    ),
                    ..cleared
                }
            }),
    {
        self.clear_workspace_pr_status(workspace_ref);
        self.update_cached_workspace_branch(workspace_ref, branch);
    }

    fn select_created(&mut self, workspace: WorkspaceEntry) -> (r: Outcome)
        ensures
            final(self)@ == created(old(self)@, workspace@),
            r@ == render(Some(app::ref_of(workspace@)), first_session(workspace@)),
    {
        let id = app::workspace_ref(&workspace);
        let session: Option<String> = if workspace.sessions.len() == 0 {
            None
        } else {
            proof {
                assert(workspace@.sessions[0] == workspace.sessions@[0]@);
            }
            Some(workspace.sessions[0].id.clone())
        };
        add_workspace(&mut self.workspace_groups, workspace);
        self.selected_workspace = Some(id.clone());
        self.editing_workspace = Some(id.clone());
        self.remember_selected_session(id.as_str(), session.clone());
        Outcome { redraw: Redraw::Render { workspace: Some(id), session }, report: None }
    }

    /// Ends the creation of a workspace.
    pub fn create_and_edit_workspace(&mut self, result: Result<WorkspaceEntry, SwarmError>) -> (r:
        Outcome)
        ensures
            match result {
                Ok(workspace) => {
                    &&& final(self)@ == created(old(self)@, workspace@)
                    &&& r@ == render(Some(app::ref_of(workspace@)), first_session(workspace@))
                },
                Err(e) => {
                    &&& final(self)@ == old(self)@
                    &&& r@ == reporting(
                        (OutcomeView { redraw: RedrawView::Nothing, report: None }),
                        "failed to create workspace: "@,
                        e@,
                    )
                },
            },
    {
        match result {
            Ok(workspace) => self.select_created(workspace),
            Err(e) => Outcome {
                redraw: Redraw::Nothing,
                report: report("failed to create workspace: ", &e),
            },
        }
    }

    /// Ends the cloning of a workspace.
    pub fn clone_and_edit_workspace(
        &mut self,
        source_ref: &str,
        result: Result<WorkspaceEntry, SwarmError>,
    ) -> (r: Outcome)
        ensures
            match result {
                Ok(workspace) => {
                    &&& final(self)@ == created(old(self)@, workspace@)
                    &&& r@ == render(Some(app::ref_of(workspace@)), first_session(workspace@))
                },
                Err(e) => {
                    &&& final(self)@ == old(self)@
                    &&& r@ == reporting(
                        render(Some(source_ref@), None),
                        "failed to clone workspace: "@,
                        e@,
                    )
                },
            },
    {
        match result {
            Ok(workspace) => self.select_created(workspace),
            Err(e) => Outcome {
                redraw: Redraw::Render { workspace: Some(source_ref.to_owned()), session: None },
                report: report("failed to clone workspace: ", &e),
            },
        }
    }

    /// Begins to sync a repository, unless it is being synced. What is shown then is
    /// shown again at once, and once more when it is done.
    pub fn begin_sync(&mut self, repo_canonical: &str) -> (r: Option<SyncTicket>)
        ensures
            final(self)@ == (AppStateView {
                syncing_repositories: old(self)@.syncing_repositories.insert(repo_canonical@),
                ..old(self)@
            }),
            r.deep_view() == (if old(self)@.syncing_repositories.contains(repo_canonical@) {
                None
            } else {
                Some(
                    SyncTicketView {
                        workspace: old(self)@.selected_workspace,
                        session: old(self)@.selected_session,
                    },
                )
            }),
    {
        if !self.syncing_repositories.insert(repo_canonical) {
            return None;
        }
        Some(
            SyncTicket {
                workspace: self.selected_workspace.clone(),
                session: self.selected_session.clone(),
            },
        )
    }

    /// Goes on with a repository that is being synced. While nothing is heard of it,
    /// nothing happens.
    pub fn finish_sync(
        &mut self,
        repo_canonical: &str,
        ticket: &SyncTicket,
        reply: SyncReply,
    ) -> (r: Option<Outcome>)
        ensures
            reply@ is Waiting ==> r is None && final(self)@ == old(self)@,
            !(reply@ is Waiting) ==> {
                &&& final(self)@ == (AppStateView {
                    syncing_repositories: old(self)@.syncing_repositories.remove(repo_canonical@),
                    ..old(self)@
                })
                &&& r.deep_view() == Some(
                    match reply@ {
                        SyncReplyView::Failed(e) => reporting(
                            refresh(ticket@.workspace, ticket@.session),
                            "failed to sync repository: "@,
                            e,
                        ),
                        _ => refresh(ticket@.workspace, ticket@.session),
                    },
                )
            },
    {
        let report = match &reply {
            SyncReply::Waiting => {
                return None;
            },
            SyncReply::Failed(e) => report("failed to sync repository: ", e),
            SyncReply::Done => None,
            SyncReply::Gone => None,
        };
        self.syncing_repositories.remove(repo_canonical);
        Some(
            Outcome {
                redraw: Redraw::Refresh {
                    workspace: ticket.workspace.clone(),
                    session: ticket.session.clone(),
                },
                report,
            },
        )
    }

    /// Ends collapsing or expanding a repository.
    pub fn toggle_repo_collapsed(
        &mut self,
        repo_canonical: &str,
        collapsed: bool,
        result: Result<(), SwarmError>,
    ) -> (r: Outcome)
        ensures
            match result {
                Ok(_) => {
                    &&& final(self)@ == toggled(old(self)@, repo_canonical@, collapsed)
                    &&& r@ == render(None, None)
                },
                Err(e) => {
                    &&& final(self)@ == old(self)@
                    &&& r@ == reporting(
                        render(old(self)@.selected_workspace, None),
                        "failed to toggle repository collapse: "@,
                        e@,
                    )
                },
            },
    {
        match result {
            Ok(_) => {
                let ghost before = self.workspace_groups.deep_view();
                if let Some(g) = find_repository(&self.workspace_groups, repo_canonical) {
                    let mut group = self.workspace_groups[g].clone();
                    proof {
                        assert(before[g as int] == self.workspace_groups@[g as int]@);
                    }
                    group.collapsed = !collapsed;
                    proof {
                        assert(group@ =~= (WorkspaceGroupView {
                            collapsed: !collapsed,
                            ..before[g as int]
                        }));
                    }
                    self.workspace_groups.set(g, group);
                    proof {
                        assert(self.workspace_groups.deep_view() =~= before.update(
                            g as int,
                            WorkspaceGroupView { collapsed: !collapsed, ..before[g as int] },
                        ));
                    }
                }
                self.editing_workspace = None;
                self.selected_session = None;
                Outcome { redraw: Redraw::Render { workspace: None, session: None }, report: None }
            },
            Err(e) => Outcome {
                redraw: Redraw::Render {
                    workspace: self.selected_workspace.clone(),
                    session: None,
                },
                report: report("failed to toggle repository collapse: ", &e),
            },
        }
    }

    /// Ends the edit of a workspace's name. A name of nothing but white space is
    /// none.
    pub fn begin_rename(&mut self, current_ref: &str, next_name: &str) -> (r: RenameStep)
        ensures
            final(self)@ == (AppStateView { editing_workspace: None, ..old(self)@ }),
            r@ == (if text::trimmed(next_name@).len() == 0 {
                RenameStepView::Leave(
                    RedrawView::Render { workspace: Some(current_ref@), session: None },
                )
            } else {
                RenameStepView::Rename(text::trimmed(next_name@))
            }),
    {
        let name = text::trim(next_name);
        self.editing_workspace = None;
        if name.unicode_len() == 0 {
            return RenameStep::Leave(
                Redraw::Render { workspace: Some(current_ref.to_owned()), session: None },
            );
        }
        RenameStep::Rename(name.to_owned())
    }

    /// Ends the renaming of a workspace.
    pub fn commit_workspace_rename(
        &mut self,
        current_ref: &str,
        result: Result<WorkspaceEntry, SwarmError>,
    ) -> (r: Outcome)
        ensures
            match result {
                Ok(workspace) => {
                    &&& final(self)@ == renamed(old(self)@, current_ref@, workspace@)
                    &&& r@ == render(Some(app::ref_of(workspace@)), None)
                },
                Err(e) => {
                    &&& final(self)@ == (AppStateView {
                        editing_workspace: Some(current_ref@),
                        ..old(self)@
                    })
                    &&& r@ == reporting(
                        render(Some(current_ref@), None),
                        "failed to rename workspace: "@,
                        e@,
                    )
                },
            },
    {
        match result {
            Ok(workspace) => {
                let ghost given = workspace@;
                let ghost start = self@;
                let next = app::workspace_ref(&workspace);
                self.clear_workspace_pr_status(current_ref);
                let within: Option<String> = Some(workspace.repo_canonical.clone());
                if let Some((g, w)) = locate(&self.workspace_groups, &within, current_ref) {
                    replace_workspace(&mut self.workspace_groups, g, w, workspace);
                }
                self.selected_workspace = Some(next.clone());
                let remembered = self.selected_sessions.remove(current_ref);
                self.remember_selected_session(next.as_str(), remembered);
                proof {
                    assert(self@ =~= renamed(start, current_ref@, given));
                }
                Outcome {
                    redraw: Redraw::Render { workspace: Some(next), session: None },
                    report: None,
                }
            },
            Err(e) => {
                self.editing_workspace = Some(current_ref.to_owned());
                Outcome {
                    redraw: Redraw::Render {
                        workspace: Some(current_ref.to_owned()),
                        session: None,
                    },
                    report: report("failed to rename workspace: ", &e),
                }
            },
        }
    }

    /// Ends the removal of a workspace.
    pub fn remove_selected_workspace(
        &mut self,
        removed_ref: &str,
        result: Result<WorkspaceEntry, SwarmError>,
    ) -> (r: Outcome)
        ensures
            match result {
                Ok(_) => {
                    &&& final(self)@ == removed(old(self)@, removed_ref@)
                    &&& r@ == render(final(self)@.selected_workspace, None)
                },
                Err(e) => {
                    &&& final(self)@ == old(self)@
                    &&& r@ == reporting(
                        refresh(Some(removed_ref@), None),
                        "failed to remove workspace: "@,
                        e@,
                    )
                },
            },
    {
        match result {
            Ok(_) => {
                let ghost start = self@;
                self.clear_workspace_pr_status(removed_ref);
                remove_workspaces(&mut self.workspace_groups, removed_ref);
                let kept: Option<String> = match &self.selected_workspace {
                    Some(selected) => if text::same(selected.as_str(), removed_ref) {
                        None
                    } else {
                        Some(selected.clone())
                    },
                    None => None,
                };
                let next: Option<String> = match kept {
                    Some(selected) => Some(selected),
                    None => match first_workspace_ref(&self.workspace_groups) {
                        Some(first) => Some(first),
                        None => None,
                    },
                };
                self.selected_workspace = next.clone();
                self.editing_workspace = None;
                let _ = self.selected_sessions.remove(removed_ref);
                self.selected_session = None;
                proof {
                    assert(self@ =~= removed(start, removed_ref@));
                }
                Outcome {
                    redraw: Redraw::Render { workspace: next, session: None },
                    report: None,
                }
            },
            Err(e) => Outcome {
                redraw: Redraw::Refresh {
                    workspace: Some(removed_ref.to_owned()),
                    session: None,
                },
                report: report("failed to remove workspace: ", &e),
            },
        }
    }

    /// Ends the creation of a session.
    pub fn create_and_select_session(
        &mut self,
        workspace_id: &str,
        result: Result<SessionEntry, SwarmError>,
    ) -> (r: Outcome)
        ensures
            match result {
                Ok(session) => {
                    &&& final(self)@ == session_created(old(self)@, workspace_id@, session@)
                    &&& r@ == render(Some(workspace_id@), Some(session@.id))
                },
                Err(e) => {
                    &&& final(self)@ == old(self)@
                    &&& r@ == reporting(
                        (OutcomeView { redraw: RedrawView::Nothing, report: None }),
                        "failed to create session: "@,
                        e@,
                    )
                },
            },
    {
        match result {
            Ok(session) => {
                let ghost given = session@;
                let id = session.id.clone();
                if let Some((g, w)) = locate(&self.workspace_groups, &None, workspace_id) {
                    let mut entry = self.workspace_groups[g].workspaces[w].clone();
                    let ghost whole = entry@;
                    proof {
                        assert(self@.workspace_groups[g as int].workspaces[w as int]
                            == self.workspace_groups@[g as int].workspaces@[w as int]@);
                    }
                    entry.sessions.push(session);
                    proof {
                        assert(entry@.sessions =~= whole.sessions.push(given));
                    }
                    replace_workspace(&mut self.workspace_groups, g, w, entry);
                }
                self.selected_workspace = Some(workspace_id.to_owned());
                self.remember_selected_session(workspace_id, Some(id.clone()));
                Outcome {
                    redraw: Redraw::Render {
                        workspace: Some(workspace_id.to_owned()),
                        session: Some(id),
                    },
                    report: None,
                }
            },
            Err(e) => Outcome {
                redraw: Redraw::Nothing,
                report: report("failed to create session: ", &e),
            },
        }
    }

    /// Ends the closing of a session.
    pub fn close_specific_session(
        &mut self,
        workspace_id: &str,
        session_ids: &Vec<String>,
        session_id: &str,
        result: Result<SessionEntry, SwarmError>,
    ) -> (r: Outcome)
        ensures
            match result {
                Ok(_) => {
                    &&& final(self)@ == session_closed(
                        old(self)@,
                        workspace_id@,
                        session_ids.deep_view(),
                        session_id@,
                    )
                    &&& r@ == render(
                        Some(workspace_id@),
                        session_after(session_ids.deep_view(), session_id@),
                    )
                },
                Err(e) => {
                    &&& final(self)@ == old(self)@
                    &&& r@ == reporting(
                        (OutcomeView { redraw: RedrawView::Nothing, report: None }),
                        "failed to close session: "@,
                        e@,
                    )
                },
            },
    {
        let next = next_session(session_ids, session_id);
        match result {
            Ok(_) => {
                if let Some((g, w)) = locate(&self.workspace_groups, &None, workspace_id) {
                    let mut entry = self.workspace_groups[g].workspaces[w].clone();
                    proof {
                        assert(self@.workspace_groups[g as int].workspaces[w as int]
                            == self.workspace_groups@[g as int].workspaces@[w as int]@);
                    }
                    entry.sessions = drop_sessions(&entry.sessions, session_id);
                    replace_workspace(&mut self.workspace_groups, g, w, entry);
                }
                self.selected_workspace = Some(workspace_id.to_owned());
                self.remember_selected_session(workspace_id, next.clone());
                Outcome {
                    redraw: Redraw::Render {
                        workspace: Some(workspace_id.to_owned()),
                        session: next,
                    },
                    report: None,
                }
            },
            Err(e) => Outcome {
                redraw: Redraw::Nothing,
                report: report("failed to close session: ", &e),
            },
        }
    }

    /// Goes to the session before or behind the selected one.
    pub fn cycle_selected_session(&mut self, turn: Turn) -> (r: Redraw)
        ensures
            final(self)@ == turning(old(self)@, turn),
            r@ == (match turn_target(old(self)@, turn) {
                Some((workspace, id)) => RedrawView::Refresh {
                    workspace: Some(workspace),
                    session: Some(id),
                },
                None => RedrawView::Nothing,
            }),
    {
        let id = match &self.selected_workspace {
            Some(id) => id.clone(),
            None => {
                return Redraw::Nothing;
            },
        };
        let workspace = match app::find_workspace_by_ref(&self.workspace_groups, id.as_str()) {
            Some(workspace) => workspace,
            None => {
                return Redraw::Nothing;
            },
        };
        let count: usize = workspace.sessions.len();
        if count < 2 {
            return Redraw::Nothing;
        }
        let index: usize = find_session(&workspace.sessions, &self.selected_session);
        let next: usize = match turn {
            Turn::Previous => if index == 0 {
                count - 1
            } else {
                index - 1
            },
            Turn::Next => if index == count - 1 {
                0
            } else {
                index + 1
            },
        };
        proof {
            lemma_turned_index(index as int, turn, count as int);
            assert(workspace@.sessions[next as int] == workspace.sessions@[next as int]@);
        }
        let session = workspace.sessions[next].id.clone();
        self.remember_selected_session(id.as_str(), Some(session.clone()));
        Redraw::Refresh { workspace: Some(id), session: Some(session) }
    }

    /// Takes in that the row of a workspace was selected. Where it was already,
    /// nothing happens. Otherwise returns the session to show, if one was selected
    /// in it before.
    pub fn select_row(&mut self, workspace: &WorkspaceEntry) -> (r: Option<Option<String>>)
        ensures
            ({
                let id = app::ref_of(workspace@);
                let session = app::preferred_session(old(self)@, id, None);
                if lookups::selects(old(self)@, id) {
                    final(self)@ == old(self)@ && r is None
                } else {
                    &&& final(self)@ == (AppStateView {
                        selected_workspace: Some(id),
                        selected_session: session,
                        ..old(self)@
                    })
                    &&& r matches Some(shown) && shown.deep_view() == session
                }
            }),
    {
        let id = app::workspace_ref(workspace);
        if self.is_selected(id.as_str()) {
            return None;
        }
        let session = self.preferred_session_for_workspace(id.as_str(), None);
        self.selected_workspace = Some(id);
        self.selected_session = session.clone();
        Some(session)
    }

    /// Takes in that another session can be seen.
    pub fn visible_session_changed(&mut self, session: Option<String>)
        ensures
            final(self)@ == (match old(self)@.selected_workspace {
                Some(id) => app::remembering(old(self)@, id, session.deep_view()),
                None => AppStateView { selected_session: session.deep_view(), ..old(self)@ },
            }),
    {
        match &self.selected_workspace {
            Some(id) => {
                let id = id.clone();
                self.remember_selected_session(id.as_str(), session);
            },
            None => {
                self.selected_session = session;
            },
        }
    }

    /// Opens the form for a new repository, or closes it.
    pub fn show_repository_form(&mut self, expanded: bool) -> (r: Redraw)
        ensures
            final(self)@ == form_shown(old(self)@, expanded),
            r@ == (RedrawView::Refresh {
                workspace: old(self)@.selected_workspace,
                session: None,
            }),
    {
        self.repository_form.expanded = expanded;
        self.repository_form.error = None;
        Redraw::Refresh { workspace: self.selected_workspace.clone(), session: None }
    }

    /// Takes in what was typed as the repository.
    pub fn repository_typed(&mut self, repository: &str)
        ensures
            final(self)@ == (AppStateView {
                repository_form: RepositoryFormStateView {
                    repository: repository@,
                    error: None,
                    ..old(self)@.repository_form
                },
                ..old(self)@
            }),
    {
        self.repository_form.repository = repository.to_owned();
        self.repository_form.error = None;
    }

    /// Takes in what was typed as the alias.
    pub fn alias_typed(&mut self, alias: &str)
        ensures
            final(self)@ == (AppStateView {
                repository_form: RepositoryFormStateView {
                    alias: alias@,
                    error: None,
                    ..old(self)@.repository_form
                },
                ..old(self)@
            }),
    {
        self.repository_form.alias = alias.to_owned();
        self.repository_form.error = None;
    }

    /// Reads the form: what it asks for, without white space around it.
    pub fn submit_repository_form(&mut self, repository: &str, alias: &str) -> (r: Submission)
        ensures
            r@ == submission(repository@, alias@),
            final(self)@ == (AppStateView {
                repository_form: RepositoryFormStateView {
                    repository: text::trimmed(repository@),
                    alias: text::trimmed(alias@),
                    error: None,
                    ..old(self)@.repository_form
                },
                ..old(self)@
            }),
    {
        let repository = text::trim(repository);
        let alias = text::trim(alias);
        self.repository_form.repository = repository.to_owned();
        self.repository_form.alias = alias.to_owned();
        self.repository_form.error = None;
        Submission {
            repository: repository.to_owned(),
            alias: if alias.unicode_len() == 0 {
                None
            } else {
                Some(alias.to_owned())
            },
        }
    }

    /// Ends the form: a repository that was added clears it, a failure stands in it.
    pub fn repository_added(&mut self, result: Result<(), SwarmError>) -> (r: Redraw)
        ensures
            final(self)@ == (AppStateView {
                repository_form: match result {
                    Ok(_) => app::blank_form(),
                    Err(e) => RepositoryFormStateView {
                        error: Some(error::error_message(e@)),
                        ..old(self)@.repository_form
                    },
                },
                ..old(self)@
            }),
            r@ == (RedrawView::Refresh {
                workspace: old(self)@.selected_workspace,
                session: None,
            }),
    {
        match result {
            Ok(_) => {
                self.repository_form = RepositoryFormState::blank();
            },
            Err(e) => {
                self.repository_form.error = Some(e.message());
            },
        }
        Redraw::Refresh { workspace: self.selected_workspace.clone(), session: None }
    }
}

fn first_workspace_ref(groups: &Vec<WorkspaceGroup>) -> (r: Option<String>)
    ensures
        r.deep_view() == (match app::first_shown(groups.deep_view()) {
            Some(workspace) => Some(app::ref_of(workspace)),
            None => None,
        }),
{
    match app::first_workspace(groups) {
        Some(workspace) => Some(app::workspace_ref(&workspace)),
        None => None,
    }
}

proof fn lemma_turned_index(index: int, turn: Turn, count: int)
    requires
        0 <= index < count,
        count >= 2,
    ensures
        turned_index(index, turn, count) == (match turn {
            Turn::Previous => if index == 0 {
                count - 1
            } else {
                index - 1
            },
            Turn::Next => if index == count - 1 {
                0
            } else {
                index + 1
            },
        }),
{
    match turn {
        Turn::Previous => {
            if index == 0 {
                vstd::arithmetic::div_mod::lemma_mod_add_multiples_vanish(-1, count);
                vstd::arithmetic::div_mod::lemma_small_mod((count - 1) as nat, count as nat);
            } else {
                vstd::arithmetic::div_mod::lemma_small_mod((index - 1) as nat, count as nat);
            }
        },
        Turn::Next => {
            if index == count - 1 {
                vstd::arithmetic::div_mod::lemma_mod_self_0(count);
            } else {
                vstd::arithmetic::div_mod::lemma_small_mod((index + 1) as nat, count as nat);
            }
        },
    }
}

/// Whether each group tells how many workspaces it has.
pub open spec fn counts_agree(groups: Seq<WorkspaceGroupView>) -> bool {
    forall|i: int|
        0 <= i < groups.len() ==> (#[trigger] groups[i]).workspace_count
            == groups[i].workspaces.len()
}

/// Each group goes on telling how many workspaces it has, whatever is done to them.
pub proof fn law_counts_are_kept(
    s: AppStateView,
    workspace: WorkspaceEntryView,
    session: SessionEntryView,
    workspace_ref: Seq<char>,
    ids: Seq<Seq<char>>,
    id: Seq<char>,
    collapsed: bool,
)
    requires
        counts_agree(s.workspace_groups),
        forall|i: int|
            0 <= i < s.workspace_groups.len() ==> (
            #[trigger] s.workspace_groups[i]).workspaces.len() < usize::MAX,
    ensures
        counts_agree(created(s, workspace).workspace_groups),
        counts_agree(renamed(s, workspace_ref, workspace).workspace_groups),
        counts_agree(removed(s, workspace_ref).workspace_groups),
        counts_agree(toggled(s, id, collapsed).workspace_groups),
        counts_agree(session_created(s, workspace_ref, session).workspace_groups),
        counts_agree(session_closed(s, workspace_ref, ids, id).workspace_groups),
{
    let groups = s.workspace_groups;
    seqs::lemma_first_index(groups, of_repository(workspace.repo_canonical));
    seqs::lemma_first_index(groups, of_repository(id));
    lemma_place(groups, Some(workspace.repo_canonical), workspace_ref);
    lemma_place(groups, None, workspace_ref);
    assert forall|i: int| 0 <= i < groups.len() implies (
    #[trigger] removed(s, workspace_ref).workspace_groups[i]).workspace_count == removed(
        s,
        workspace_ref,
    ).workspace_groups[i].workspaces.len() by {
        groups[i].workspaces.lemma_filter_len(other_workspace(workspace_ref));
        assert(groups[i].workspaces.len() < usize::MAX);
    }
}

proof fn lemma_place(
    groups: Seq<WorkspaceGroupView>,
    within: Option<Seq<char>>,
    workspace_ref: Seq<char>,
)
    ensures
        place(groups, within, workspace_ref) matches Some((g, w)) ==> 0 <= g < groups.len() && 0
            <= w < groups[g].workspaces.len(),
    decreases groups.len(),
{
    if groups.len() > 0 {
        seqs::lemma_first_index(groups[0].workspaces, app::has_ref(workspace_ref));
        lemma_place(groups.skip(1), within, workspace_ref);
    }
}

proof fn lemma_shown_without(groups: Seq<WorkspaceGroupView>, workspace_ref: Seq<char>)
    ensures
        app::shown_workspaces(without_workspace(groups, workspace_ref)) == app::shown_workspaces(
            groups,
        ).filter(other_workspace(workspace_ref)),
    decreases groups.len(),
{
    let p = other_workspace(workspace_ref);
    let after = without_workspace(groups, workspace_ref);
    if groups.len() == 0 {
        reveal(Seq::filter);
        assert(app::shown_workspaces(groups).filter(p) =~= seq![]);
    } else {
        lemma_shown_without(groups.drop_last(), workspace_ref);
        assert(after.drop_last() =~= without_workspace(groups.drop_last(), workspace_ref));
        Seq::filter_distributes_over_add(
            app::shown_workspaces(groups.drop_last()),
            groups.last().workspaces,
            p,
        );
    }
}

/// A workspace that was removed is shown no more, and every other one still is.
pub proof fn law_removed_workspace_is_gone(
    s: AppStateView,
    workspace_ref: Seq<char>,
    workspace: WorkspaceEntryView,
)
    ensures
        app::shown_workspaces(removed(s, workspace_ref).workspace_groups).contains(workspace)
            <==> app::shown_workspaces(s.workspace_groups).contains(workspace) && app::ref_of(
            workspace,
        ) != workspace_ref,
        app::workspace_by_ref(removed(s, workspace_ref).workspace_groups, workspace_ref) is None,
        !lookups::selects(removed(s, workspace_ref), workspace_ref),
{
    let all = app::shown_workspaces(s.workspace_groups);
    let p = other_workspace(workspace_ref);
    let after = app::shown_workspaces(removed(s, workspace_ref).workspace_groups);
    lemma_shown_without(s.workspace_groups, workspace_ref);
    if all.contains(workspace) && p(workspace) {
        let i = choose|i: int| 0 <= i < all.len() && all[i] == workspace;
        all.lemma_filter_contains(p, i);
    }
    if after.contains(workspace) {
        let i = choose|i: int| 0 <= i < after.len() && after[i] == workspace;
        all.lemma_filter_pred(p, i);
        all.lemma_filter_contains_rev(p, workspace);
    }
    assert forall|j: int| 0 <= j < after.len() implies !app::has_ref(workspace_ref)(
        #[trigger] after[j],
    ) by {
        all.lemma_filter_pred(p, j);
    }
    seqs::lemma_first_index_is(after, app::has_ref(workspace_ref), after.len() as int);
    if after.len() > 0 {
        all.lemma_filter_pred(p, 0);
    }
}

proof fn lemma_shown_contains(groups: Seq<WorkspaceGroupView>, workspace: WorkspaceEntryView)
    ensures
        app::shown_workspaces(groups).contains(workspace) <==> exists|g: int|
            0 <= g < groups.len() && (#[trigger] groups[g]).workspaces.contains(workspace),
    decreases groups.len(),
{
    if groups.len() > 0 {
        let head = groups.drop_last();
        let a = app::shown_workspaces(head);
        let b = groups.last().workspaces;
        lemma_shown_contains(head, workspace);
        if (a + b).contains(workspace) {
            let i = choose|i: int| 0 <= i < (a + b).len() && (a + b)[i] == workspace;
            if i < a.len() {
                assert(a[i] == workspace);
                assert(a.contains(workspace));
                let g = choose|g: int|
                    0 <= g < head.len() && (#[trigger] head[g]).workspaces.contains(workspace);
                assert(groups[g].workspaces.contains(workspace));
            } else {
                assert(b[i - a.len()] == workspace);
                assert(groups[groups.len() - 1].workspaces.contains(workspace));
            }
        }
        if exists|g: int|
            0 <= g < groups.len() && (#[trigger] groups[g]).workspaces.contains(workspace) {
            let g = choose|g: int|
                0 <= g < groups.len() && (#[trigger] groups[g]).workspaces.contains(workspace);
            if g < head.len() {
                assert(head[g].workspaces.contains(workspace));
                let i = choose|i: int| 0 <= i < a.len() && a[i] == workspace;
                assert((a + b)[i] == workspace);
            } else {
                let i = choose|i: int| 0 <= i < b.len() && b[i] == workspace;
                assert((a + b)[a.len() + i] == workspace);
            }
        }
    }
}

/// A workspace that was created is found by its reference and can be edited, where
/// its repository is shown and no other workspace had the reference.
pub proof fn law_created_workspace_is_found(s: AppStateView, workspace: WorkspaceEntryView)
    requires
        seqs::any(s.workspace_groups, of_repository(workspace.repo_canonical)),
        app::workspace_by_ref(s.workspace_groups, app::ref_of(workspace)) is None,
    ensures
        app::workspace_by_ref(created(s, workspace).workspace_groups, app::ref_of(workspace))
            == Some(workspace),
        app::chosen_workspace(
            created(s, workspace).workspace_groups,
            Some(app::ref_of(workspace)),
            created(s, workspace).selected_workspace,
        ) == Some(workspace),
        created(s, workspace).editing_workspace == Some(app::ref_of(workspace)),
{
    let r = app::ref_of(workspace);
    let p = app::has_ref(r);
    let before = s.workspace_groups;
    let after = created(s, workspace).workspace_groups;
    let q = of_repository(workspace.repo_canonical);
    seqs::lemma_first_index(before, q);
    let g = seqs::first_index(before, q);
    let all = app::shown_workspaces(after);
    assert(after[g].workspaces == before[g].workspaces.push(workspace));
    assert(after[g].workspaces[before[g].workspaces.len() as int] == workspace);
    assert(after[g].workspaces.contains(workspace));
    lemma_shown_contains(after, workspace);
    let at = choose|at: int| 0 <= at < all.len() && all[at] == workspace;
    assert(p(all[at]));
    seqs::lemma_first_index(all, p);
    let i = seqs::first_index(all, p);
    let found = all[i];
    assert(all.contains(found));
    lemma_shown_contains(after, found);
    let h = choose|h: int| 0 <= h < after.len() && (#[trigger] after[h]).workspaces.contains(found);
    if found != workspace {
        let k = choose|k: int|
            0 <= k < after[h].workspaces.len() && after[h].workspaces[k] == found;
        assert(before[h].workspaces.contains(found)) by {
            assert(before[h].workspaces[k] == found);
        }
        lemma_shown_contains(before, found);
        let was = app::shown_workspaces(before);
        let j = choose|j: int| 0 <= j < was.len() && was[j] == found;
        assert(p(was[j]));
        seqs::lemma_first_index(was, p);
    }
}

/// Going on to the next session and back again, or the other way round, ends at the
/// session where it began.
pub proof fn law_turning_back_returns(s: AppStateView, workspace: WorkspaceEntryView, index: int)
    requires
        s.selected_workspace matches Some(r) && app::workspace_by_ref(s.workspace_groups, r)
            == Some(workspace),
        workspace.sessions.len() >= 2,
        0 <= index < workspace.sessions.len(),
        s.selected_session == Some(workspace.sessions[index].id),
        forall|i: int, j: int|
            0 <= i < j < workspace.sessions.len() ==> (#[trigger] workspace.sessions[i]).id != (
            #[trigger] workspace.sessions[j]).id,
    ensures
        turning(turning(s, Turn::Next), Turn::Previous).selected_session == s.selected_session,
        turning(turning(s, Turn::Previous), Turn::Next).selected_session == s.selected_session,
        turning(s, Turn::Next).selected_session != s.selected_session,
{
    let sessions = workspace.sessions;
    let count = sessions.len() as int;
    lemma_session_index(sessions, index);
    lemma_turned_index(index, Turn::Next, count);
    lemma_turned_index(index, Turn::Previous, count);
    let next = turned_index(index, Turn::Next, count);
    let previous = turned_index(index, Turn::Previous, count);
    lemma_session_index(sessions, next);
    lemma_session_index(sessions, previous);
    lemma_turned_index(next, Turn::Previous, count);
    lemma_turned_index(previous, Turn::Next, count);
    assert(sessions[next].id != sessions[index].id);
}

proof fn lemma_session_index(sessions: Seq<SessionEntryView>, index: int)
    requires
        0 <= index < sessions.len(),
        forall|i: int, j: int|
            0 <= i < j < sessions.len() ==> (#[trigger] sessions[i]).id != (
            #[trigger] sessions[j]).id,
    ensures
        session_index(sessions, Some(sessions[index].id)) == index,
{
    seqs::lemma_first_index_is(sessions, has_id(sessions[index].id), index);
}

/// The session that was selected in a workspace is shown again when the workspace is
/// come back to, whatever was selected in others meanwhile.
pub proof fn law_selected_session_is_remembered(
    s: AppStateView,
    workspace_ref: Seq<char>,
    id: Seq<char>,
    other_ref: Seq<char>,
    other: Option<Seq<char>>,
)
    requires
        other_ref != workspace_ref,
    ensures
        app::preferred_session(
            app::remembering(app::remembering(s, workspace_ref, Some(id)), other_ref, other),
            workspace_ref,
            None,
        ) == Some(id),
{
}

/// What stands in the form for a new repository stays there while the window is used
/// for something else, and while the form is closed.
pub proof fn law_form_persists(
    s: AppStateView,
    workspace: WorkspaceEntryView,
    session: SessionEntryView,
    workspace_ref: Seq<char>,
    ids: Seq<Seq<char>>,
    id: Seq<char>,
    collapsed: bool,
    turn: Turn,
    expanded: bool,
)
    ensures
        created(s, workspace).repository_form == s.repository_form,
        renamed(s, workspace_ref, workspace).repository_form == s.repository_form,
        removed(s, workspace_ref).repository_form == s.repository_form,
        toggled(s, id, collapsed).repository_form == s.repository_form,
        session_created(s, workspace_ref, session).repository_form == s.repository_form,
        session_closed(s, workspace_ref, ids, id).repository_form == s.repository_form,
        turning(s, turn).repository_form == s.repository_form,
        app::rendering(s, Some(workspace_ref)).repository_form == s.repository_form,
        form_shown(s, expanded).repository_form.repository == s.repository_form.repository,
        form_shown(s, expanded).repository_form.alias == s.repository_form.alias,
{
}

/// Collapsing a repository and expanding it again shows its group as before.
pub proof fn law_expanding_undoes_collapsing(s: AppStateView, repo: Seq<char>)
    requires
        forall|i: int|
            0 <= i < s.workspace_groups.len() ==> !(#[trigger] s.workspace_groups[i]).collapsed,
    ensures
        toggled(toggled(s, repo, false), repo, true).workspace_groups == s.workspace_groups,
{
    let groups = s.workspace_groups;
    let p = of_repository(repo);
    seqs::lemma_first_index(groups, p);
    let g = seqs::first_index(groups, p);
    let once = toggled(s, repo, false).workspace_groups;
    assert forall|j: int| 0 <= j < g implies !p(#[trigger] once[j]) by {
        assert(!p(groups[j]));
    }
    if g < groups.len() {
        seqs::lemma_first_index_is(once, p, g);
        assert(toggled(toggled(s, repo, false), repo, true).workspace_groups =~= groups);
    }
}

/// The place of a workspace is that of the first one that has the reference, in the first group
/// that holds one; where only the groups of one repository count, the others are passed over.
pub proof fn law_place_of_a_workspace(
    groups: Seq<WorkspaceGroupView>,
    within: Option<Seq<char>>,
    workspace_ref: Seq<char>,
)
    ensures
        ({
            let counts = |group: WorkspaceGroupView|
                within is None || within == Some(group.repo_canonical);
            let refers = |w: WorkspaceEntryView| w.repo_canonical + ":"@ + w.name == workspace_ref;
            match place(groups, within, workspace_ref) {
                Some((g, w)) => {
                    &&& 0 <= g < groups.len()
                    &&& counts(groups[g])
                    &&& 0 <= w < groups[g].workspaces.len()
                    &&& refers(groups[g].workspaces[w])
                    &&& forall|j: int| 0 <= j < w ==> !refers(#[trigger] groups[g].workspaces[j])
                    &&& forall|i: int, j: int|
                        0 <= i < g && counts(groups[i]) && 0 <= j < groups[i].workspaces.len()
                            ==> !refers(#[trigger] groups[i].workspaces[j])
                },
                None => forall|i: int, j: int|
                    0 <= i < groups.len() && counts(groups[i]) && 0 <= j
                        < groups[i].workspaces.len() ==> !refers(
                        #[trigger] groups[i].workspaces[j],
                    ),
            }
        }),
    decreases groups.len(),
{
    let counts = |group: WorkspaceGroupView|
        within is None || within == Some(group.repo_canonical);
    let refers = |w: WorkspaceEntryView| w.repo_canonical + ":"@ + w.name == workspace_ref;
    if groups.len() > 0 {
        let first = groups[0].workspaces;
        seqs::lemma_first_index(first, app::has_ref(workspace_ref));
        let at = seqs::first_index(first, app::has_ref(workspace_ref));
        if counts(groups[0]) && at < first.len() {
        } else {
            let rest = groups.skip(1);
            law_place_of_a_workspace(rest, within, workspace_ref);
            assert forall|j: int|
                counts(groups[0]) && 0 <= j < first.len() implies !refers(#[trigger] first[j]) by {
                assert(!app::has_ref(workspace_ref)(first[j]));
            }
            match place(rest, within, workspace_ref) {
                Some((g, w)) => {
                    assert(groups[g + 1] == rest[g]);
                    assert forall|i: int, j: int|
                        0 <= i < g + 1 && counts(groups[i]) && 0 <= j
                            < groups[i].workspaces.len() implies !refers(
                        #[trigger] groups[i].workspaces[j],
                    ) by {
                        if i > 0 {
                            assert(rest[i - 1] == groups[i]);
                            assert(!refers(rest[i - 1].workspaces[j]));
                        }
                    }
                },
                None => {
                    assert forall|i: int, j: int|
                        0 <= i < groups.len() && counts(groups[i]) && 0 <= j
                            < groups[i].workspaces.len() implies !refers(
                        #[trigger] groups[i].workspaces[j],
                    ) by {
                        if i > 0 {
                            assert(rest[i - 1] == groups[i]);
                            assert(!refers(rest[i - 1].workspaces[j]));
                        }
                    }
                },
            }
        }
    }
}

/// Replacing a workspace changes that one entry, and nothing else of its group or of any other.
pub proof fn law_replacing_changes_one_entry(
    groups: Seq<WorkspaceGroupView>,
    g: int,
    w: int,
    change: spec_fn(WorkspaceEntryView) -> WorkspaceEntryView,
    i: int,
)
    requires
        0 <= g < groups.len(),
        0 <= w < groups[g].workspaces.len(),
        0 <= i < groups.len(),
    ensures
        ({
            let after = replacing(groups, Some((g, w)), change);
            &&& after.len() == groups.len()
            &&& i != g ==> after[i] == groups[i]
            &&& after[g] == (WorkspaceGroupView {
                workspaces: groups[g].workspaces.update(w, change(groups[g].workspaces[w])),
                ..groups[g]
            })
            &&& replacing(groups, None, change) == groups
        }),
{
}

/// A workspace that was created stands at the end of its repository's first group, which counts
/// it; every other group is as it was. It is selected and edited, and its first session is the
/// one that is shown.
pub proof fn law_created_workspace_written_out(
    s: AppStateView,
    workspace: WorkspaceEntryView,
    g: int,
    i: int,
)
    requires
        0 <= g < s.workspace_groups.len(),
        s.workspace_groups[g].repo_canonical == workspace.repo_canonical,
        forall|k: int|
            0 <= k < g ==> (#[trigger] s.workspace_groups[k]).repo_canonical
                != workspace.repo_canonical,
        0 <= i < s.workspace_groups.len(),
        s.workspace_groups[g].workspaces.len() < usize::MAX,
    ensures
        ({
            let after = created(s, workspace);
            let r = workspace.repo_canonical + ":"@ + workspace.name;
            let before = s.workspace_groups[g];
            &&& after.workspace_groups.len() == s.workspace_groups.len()
            &&& after.workspace_groups[g].workspaces == before.workspaces + seq![workspace]
            &&& after.workspace_groups[g].workspace_count == before.workspaces.len() + 1
            &&& after.workspace_groups[g].repo_label == before.repo_label
            &&& after.workspace_groups[g].repo_canonical == before.repo_canonical
            &&& after.workspace_groups[g].repo_status == before.repo_status
            &&& after.workspace_groups[g].collapsed == before.collapsed
            &&& i != g ==> after.workspace_groups[i] == s.workspace_groups[i]
            &&& after.selected_workspace == Some(r)
            &&& after.editing_workspace == Some(r)
            &&& workspace.sessions.len() > 0 ==> after.selected_session == Some(
                workspace.sessions[0].id,
            )
            &&& workspace.sessions.len() == 0 ==> after.selected_session is None
            &&& after.syncing_repositories == s.syncing_repositories
            &&& after.pr_statuses == s.pr_statuses
            &&& after.pending_pr_lookups == s.pending_pr_lookups
        }),
{
    seqs::lemma_first_index_is(
        s.workspace_groups,
        of_repository(workspace.repo_canonical),
        g,
    );
    let before = s.workspace_groups[g];
    assert(before.workspaces.push(workspace) =~= before.workspaces + seq![workspace]);
}

/// A workspace that was renamed stands where it stood, under its new reference: it is selected,
/// the session that was remembered for it is remembered for it still and is the one that is
/// shown, and nothing is kept under the old reference.
pub proof fn law_renamed_workspace_written_out(
    s: AppStateView,
    current: Seq<char>,
    workspace: WorkspaceEntryView,
    g: int,
    w: int,
)
    requires
        place(s.workspace_groups, Some(workspace.repo_canonical), current) == Some((g, w)),
        current != workspace.repo_canonical + ":"@ + workspace.name,
    ensures
        ({
            let after = renamed(s, current, workspace);
            let next = workspace.repo_canonical + ":"@ + workspace.name;
            let remembered = s.selected_sessions.contains_key(current);
            &&& after.workspace_groups.len() == s.workspace_groups.len()
            &&& after.workspace_groups[g].workspaces == s.workspace_groups[g].workspaces.update(
                w,
                workspace,
            )
            &&& forall|i: int|
                0 <= i < s.workspace_groups.len() && i != g ==> #[trigger] after.workspace_groups[i]
                    == s.workspace_groups[i]
            &&& after.selected_workspace == Some(next)
            &&& remembered ==> after.selected_session == Some(s.selected_sessions[current])
                && after.selected_sessions.contains_key(next) && after.selected_sessions[next]
                == s.selected_sessions[current]
            &&& !remembered ==> after.selected_session is None
                && !after.selected_sessions.contains_key(next)
            &&& !after.selected_sessions.contains_key(current)
            &&& !after.pr_statuses.contains_key(current)
            &&& !after.pending_pr_lookups.contains(current)
            &&& after.editing_workspace == s.editing_workspace
        }),
{
    lemma_place(s.workspace_groups, Some(workspace.repo_canonical), current);
}

/// Once a workspace was removed nothing is kept under its reference. The workspace that was
/// selected stays selected unless it is the one that was removed; then the first that is left
/// is. Nothing is edited, and no session is selected.
pub proof fn law_removed_workspace_written_out(s: AppStateView, workspace_ref: Seq<char>, i: int)
    requires
        0 <= i < s.workspace_groups.len(),
        s.workspace_groups[i].workspaces.len() <= usize::MAX,
    ensures
        ({
            let after = removed(s, workspace_ref);
            let left = app::shown_workspaces(after.workspace_groups);
            let kept = s.workspace_groups[i].workspaces.filter(
                |w: WorkspaceEntryView| w.repo_canonical + ":"@ + w.name != workspace_ref,
            );
            &&& after.workspace_groups.len() == s.workspace_groups.len()
            &&& after.workspace_groups[i].workspaces == kept
            &&& after.workspace_groups[i].workspace_count == kept.len()
            &&& after.workspace_groups[i].repo_canonical == s.workspace_groups[i].repo_canonical
            &&& s.selected_workspace is Some && s.selected_workspace != Some(workspace_ref)
                ==> after.selected_workspace == s.selected_workspace
            &&& s.selected_workspace is None || s.selected_workspace == Some(workspace_ref) ==> (
            if left.len() > 0 {
                after.selected_workspace == Some(left[0].repo_canonical + ":"@ + left[0].name)
            } else {
                after.selected_workspace is None
            })
            &&& after.editing_workspace is None
            &&& after.selected_session is None
            &&& !after.selected_sessions.contains_key(workspace_ref)
            &&& !after.pr_statuses.contains_key(workspace_ref)
            &&& !after.pending_pr_lookups.contains(workspace_ref)
        }),
{
    let workspaces = s.workspace_groups[i].workspaces;
    let other = |w: WorkspaceEntryView| w.repo_canonical + ":"@ + w.name != workspace_ref;
    assert(other_workspace(workspace_ref) =~= other);
    workspaces.lemma_filter_len(other);
}

/// Toggling a repository turns the first group of it over and no other group, and nothing is
/// edited or selected of sessions then.
pub proof fn law_toggled_repository_written_out(
    s: AppStateView,
    repo: Seq<char>,
    collapsed: bool,
    g: int,
    i: int,
)
    requires
        0 <= g < s.workspace_groups.len(),
        s.workspace_groups[g].repo_canonical == repo,
        forall|k: int|
            0 <= k < g ==> (#[trigger] s.workspace_groups[k]).repo_canonical != repo,
        0 <= i < s.workspace_groups.len(),
    ensures
        ({
            let after = toggled(s, repo, collapsed);
            &&& after.workspace_groups.len() == s.workspace_groups.len()
            &&& after.workspace_groups[g] == (WorkspaceGroupView {
                collapsed: !collapsed,
                ..s.workspace_groups[g]
            })
            &&& i != g ==> after.workspace_groups[i] == s.workspace_groups[i]
            &&& after.editing_workspace is None
            &&& after.selected_session is None
            &&& after.selected_workspace == s.selected_workspace
        }),
{
    seqs::lemma_first_index_is(s.workspace_groups, of_repository(repo), g);
}

/// A session that was created stands behind the others of its workspace, and both are selected.
/// A session that was closed is gone from its workspace, the others are there in their order,
/// and the first other one is shown.
pub proof fn law_sessions_come_and_go(
    s: AppStateView,
    workspace_ref: Seq<char>,
    session: SessionEntryView,
    ids: Seq<Seq<char>>,
    closed: Seq<char>,
    g: int,
    w: int,
)
    requires
        place(s.workspace_groups, None, workspace_ref) == Some((g, w)),
    ensures
        ({
            let with = session_created(s, workspace_ref, session);
            let without = session_closed(s, workspace_ref, ids, closed);
            let before = s.workspace_groups[g].workspaces[w];
            &&& with.workspace_groups[g].workspaces[w] == (WorkspaceEntryView {
                sessions: before.sessions + seq![session],
                ..before
            })
            &&& with.selected_workspace == Some(workspace_ref)
            &&& with.selected_session == Some(session.id)
            &&& without.workspace_groups[g].workspaces[w] == (WorkspaceEntryView {
                sessions: before.sessions.filter(|x: SessionEntryView| x.id != closed),
                ..before
            })
            &&& without.selected_workspace == Some(workspace_ref)
            &&& without.selected_session == session_after(ids, closed)
            &&& forall|i: int|
                0 <= i < s.workspace_groups.len() && i != g ==> #[trigger] with.workspace_groups[i]
                    == s.workspace_groups[i] && without.workspace_groups[i]
                    == s.workspace_groups[i]
        }),
{
    lemma_place(s.workspace_groups, None, workspace_ref);
    let before = s.workspace_groups[g].workspaces[w];
    assert(before.sessions.push(session) =~= before.sessions + seq![session]);
    assert(other_session(closed) =~= (|x: SessionEntryView| x.id != closed));
}

/// The session that is shown once one is closed is the first of the others, where there is one.
pub proof fn law_first_other_session_follows(
    front: Seq<Seq<char>>,
    next: Seq<char>,
    back: Seq<Seq<char>>,
    closed: Seq<char>,
)
    requires
        forall|i: int| 0 <= i < front.len() ==> #[trigger] front[i] == closed,
        next != closed,
    ensures
        session_after(front + seq![next] + back, closed) == Some(next),
        session_after(front, closed) is None,
{
    let all = front + seq![next] + back;
    let other = other_id(closed);
    assert(all[front.len() as int] == next);
    assert forall|j: int| 0 <= j < front.len() implies !other(#[trigger] all[j]) by {
        assert(all[j] == front[j]);
    }
    seqs::lemma_first_index_is(all, other, front.len() as int);
    seqs::lemma_first_index_is(front, other, front.len() as int);
}

/// Turning goes one session on or back, and from the one end to the other.
pub proof fn law_turning_goes_round(s: AppStateView, workspace: WorkspaceEntryView, index: int)
    requires
        s.selected_workspace matches Some(r) && app::workspace_by_ref(s.workspace_groups, r)
            == Some(workspace),
        workspace.sessions.len() >= 2,
        0 <= index < workspace.sessions.len(),
        s.selected_session == Some(workspace.sessions[index].id),
        forall|i: int, j: int|
            0 <= i < j < workspace.sessions.len() ==> (#[trigger] workspace.sessions[i]).id != (
            #[trigger] workspace.sessions[j]).id,
    ensures
        ({
            let n = workspace.sessions.len() as int;
            let r = s.selected_workspace->0;
            let next = if index + 1 < n {
                index + 1
            } else {
                0
            };
            let previous = if index > 0 {
                index - 1
            } else {
                n - 1
            };
            &&& turn_target(s, Turn::Next) == Some((r, workspace.sessions[next].id))
            &&& turn_target(s, Turn::Previous) == Some((r, workspace.sessions[previous].id))
            &&& turning(s, Turn::Next).selected_session == Some(workspace.sessions[next].id)
            &&& turning(s, Turn::Previous).selected_session == Some(
                workspace.sessions[previous].id,
            )
        }),
{
    let n = workspace.sessions.len() as int;
    lemma_session_index(workspace.sessions, index);
    lemma_turned_index(index, Turn::Next, n);
    lemma_turned_index(index, Turn::Previous, n);
}

/// The form asks for what stands in it without white space around it; a blank alias is none.
pub proof fn law_form_is_read_without_white_space(repository: Seq<char>, alias: Seq<char>)
    ensures
        submission(repository, alias).repository == text::trimmed(repository),
        text::blank(alias) ==> submission(repository, alias).alias is None,
        !text::blank(alias) ==> submission(repository, alias).alias == Some(text::trimmed(alias)),
{
    text::lemma_trimmed_blank(alias);
}

/// Opening or closing the form keeps what stands in it and drops the error.
pub proof fn law_form_opens_and_closes(s: AppStateView, expanded: bool)
    ensures
        form_shown(s, expanded) == (AppStateView {
            repository_form: RepositoryFormStateView {
                expanded,
                repository: s.repository_form.repository,
                alias: s.repository_form.alias,
                error: None,
            },
            ..s
        }),
{
}

/// What follows an action: what is drawn, and with a failure its message behind a word about
/// what failed.
pub proof fn law_outcomes(
    workspace: Option<Seq<char>>,
    session: Option<Seq<char>>,
    what: Seq<char>,
    e: SwarmErrorView,
)
    ensures
        render(workspace, session) == (OutcomeView {
            redraw: RedrawView::Render { workspace, session },
            report: None,
        }),
        refresh(workspace, session) == (OutcomeView {
            redraw: RedrawView::Refresh { workspace, session },
            report: None,
        }),
        reporting(render(workspace, session), what, e) == (OutcomeView {
            redraw: RedrawView::Render { workspace, session },
            report: Some(what + error::error_message(e)),
        }),
{
}

/// A workspace on another branch differs from what it was in its branch alone.
pub proof fn law_branch_changes_alone(workspace: WorkspaceEntryView, branch: Seq<char>)
    ensures
        on_branch(branch)(workspace) == (WorkspaceEntryView {
            repo_canonical: workspace.repo_canonical,
            name: workspace.name,
            branch,
            path: workspace.path,
            sessions: workspace.sessions,
        }),
{
}

} // verus!
