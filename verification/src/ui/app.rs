//! What the window knows: the workspaces that it shows, what is selected and
//! edited, the form for a new repository, and what is known of pull requests.

use crate::seqs;
use crate::table::{TextMap, TextSet};
use crate::text;
use crate::ui::data::{SessionEntryView, WorkspaceEntry, WorkspaceEntryView, WorkspaceGroup, WorkspaceGroupView};
use crate::forges::github::{PullRequestStatus, PullRequestStatusView};
use vstd::prelude::*;

verus! {

/// The form for a new repository.
#[derive(Debug)]
pub struct RepositoryFormState {
    pub expanded: bool,
    pub repository: String,
    pub alias: String,
    pub error: Option<String>,
}

/// What a `RepositoryFormState` holds.
#[verifier::ext_equal]
pub struct RepositoryFormStateView {
    pub expanded: bool,
    pub repository: Seq<char>,
    pub alias: Seq<char>,
    pub error: Option<Seq<char>>,
}

impl View for RepositoryFormState {
    type V = RepositoryFormStateView;

    open spec fn view(&self) -> RepositoryFormStateView {
        RepositoryFormStateView {
            expanded: self.expanded,
            repository: self.repository@,
            alias: self.alias@,
            error: self.error.deep_view(),
        }
    }
}

impl DeepView for RepositoryFormState {
    type V = RepositoryFormStateView;

    open spec fn deep_view(&self) -> RepositoryFormStateView {
        self@
    }
}

impl Clone for RepositoryFormState {
    fn clone(&self) -> (r: Self)
        ensures
            r@ == self@,
    {
        RepositoryFormState {
            expanded: self.expanded,
            repository: self.repository.clone(),
            alias: self.alias.clone(),
            error: self.error.clone(),
        }
    }
}

/// What is known of a workspace's pull request.
#[derive(Debug)]
pub enum WorkspacePrState {
    Loading,
    Absent,
    Ready(PullRequestStatus),
}

/// What a `WorkspacePrState` holds.
#[verifier::ext_equal]
pub enum WorkspacePrStateView {
    Loading,
    Absent,
    Ready(PullRequestStatusView),
}

impl View for WorkspacePrState {
    type V = WorkspacePrStateView;

    open spec fn view(&self) -> WorkspacePrStateView {
        match self {
            WorkspacePrState::Loading => WorkspacePrStateView::Loading,
            WorkspacePrState::Absent => WorkspacePrStateView::Absent,
            WorkspacePrState::Ready(a) => WorkspacePrStateView::Ready(a@),
        }
    }
}

impl DeepView for WorkspacePrState {
    type V = WorkspacePrStateView;

    open spec fn deep_view(&self) -> WorkspacePrStateView {
        self@
    }
}

impl Clone for WorkspacePrState {
    fn clone(&self) -> (r: Self)
        ensures
            r@ == self@,
    {
        match self {
            WorkspacePrState::Loading => WorkspacePrState::Loading,
            WorkspacePrState::Absent => WorkspacePrState::Absent,
            WorkspacePrState::Ready(a) => WorkspacePrState::Ready(a.clone()),
        }
    }
}

/// What is known of a workspace's pull request, since when, and of which commit.
/// A time is a number of nanoseconds.
#[derive(Debug)]
pub struct CachedPrStatus {
    pub state: WorkspacePrState,
    pub fetched_at: u64,
    pub head: Option<String>,
}

/// What a `CachedPrStatus` holds.
#[verifier::ext_equal]
pub struct CachedPrStatusView {
    pub state: WorkspacePrStateView,
    pub fetched_at: u64,
    pub head: Option<Seq<char>>,
}

impl View for CachedPrStatus {
    type V = CachedPrStatusView;

    open spec fn view(&self) -> CachedPrStatusView {
        CachedPrStatusView {
            state: self.state@,
            fetched_at: self.fetched_at,
            head: self.head.deep_view(),
        }
    }
}

impl DeepView for CachedPrStatus {
    type V = CachedPrStatusView;

    open spec fn deep_view(&self) -> CachedPrStatusView {
        self@
    }
}

impl Clone for CachedPrStatus {
    fn clone(&self) -> (r: Self)
        ensures
            r@ == self@,
    {
        CachedPrStatus {
            state: self.state.clone(),
            fetched_at: self.fetched_at,
            head: self.head.clone(),
        }
    }
}

/// What a lookup of a workspace's pull request gave.
#[derive(Debug)]
pub struct WorkspacePrUpdate {
    pub workspace_ref: String,
    pub status: Option<PullRequestStatus>,
    pub head: Option<String>,
}

/// What a `WorkspacePrUpdate` holds.
#[verifier::ext_equal]
pub struct WorkspacePrUpdateView {
    pub workspace_ref: Seq<char>,
    pub status: Option<PullRequestStatusView>,
    pub head: Option<Seq<char>>,
}

impl View for WorkspacePrUpdate {
    type V = WorkspacePrUpdateView;

    open spec fn view(&self) -> WorkspacePrUpdateView {
        WorkspacePrUpdateView {
            workspace_ref: self.workspace_ref@,
            status: self.status.deep_view(),
            head: self.head.deep_view(),
        }
    }
}

impl DeepView for WorkspacePrUpdate {
    type V = WorkspacePrUpdateView;

    open spec fn deep_view(&self) -> WorkspacePrUpdateView {
        self@
    }
}

impl Clone for WorkspacePrUpdate {
    fn clone(&self) -> (r: Self)
        ensures
            r@ == self@,
    {
        WorkspacePrUpdate {
            workspace_ref: self.workspace_ref.clone(),
            status: self.status.clone(),
            head: self.head.clone(),
        }
    }
}

/// What is drawn anew: all after the workspaces were loaded again, all as it is
/// known, or nothing.
#[derive(Debug)]
pub enum Redraw {
    Refresh { workspace: Option<String>, session: Option<String> },
    Render { workspace: Option<String>, session: Option<String> },
    Nothing,
}

/// What a `Redraw` holds.
#[verifier::ext_equal]
pub enum RedrawView {
    Refresh { workspace: Option<Seq<char>>, session: Option<Seq<char>> },
    Render { workspace: Option<Seq<char>>, session: Option<Seq<char>> },
    Nothing,
}

impl View for Redraw {
    type V = RedrawView;

    open spec fn view(&self) -> RedrawView {
        match self {
            Redraw::Refresh { workspace, session } => RedrawView::Refresh {
                workspace: workspace.deep_view(),
                session: session.deep_view(),
            },
            Redraw::Render { workspace, session } => RedrawView::Render {
                workspace: workspace.deep_view(),
                session: session.deep_view(),
            },
            Redraw::Nothing => RedrawView::Nothing,
        }
    }
}

impl DeepView for Redraw {
    type V = RedrawView;

    open spec fn deep_view(&self) -> RedrawView {
        self@
    }
}

impl Clone for Redraw {
    fn clone(&self) -> (r: Self)
        ensures
            r@ == self@,
    {
        match self {
            Redraw::Refresh { workspace, session } => Redraw::Refresh {
                workspace: workspace.clone(),
                session: session.clone(),
            },
            Redraw::Render { workspace, session } => Redraw::Render {
                workspace: workspace.clone(),
                session: session.clone(),
            },
            Redraw::Nothing => Redraw::Nothing,
        }
    }
}

/// What follows an action: what is drawn anew, and what is reported.
#[derive(Debug)]
pub struct Outcome {
    pub redraw: Redraw,
    pub report: Option<String>,
}

/// What an `Outcome` holds.
#[verifier::ext_equal]
pub struct OutcomeView {
    pub redraw: RedrawView,
    pub report: Option<Seq<char>>,
}

impl View for Outcome {
    type V = OutcomeView;

    open spec fn view(&self) -> OutcomeView {
        OutcomeView {
            redraw: self.redraw@,
            report: self.report.deep_view(),
        }
    }
}

impl DeepView for Outcome {
    type V = OutcomeView;

    open spec fn deep_view(&self) -> OutcomeView {
        self@
    }
}

impl Clone for Outcome {
    fn clone(&self) -> (r: Self)
        ensures
            r@ == self@,
    {
        Outcome {
            redraw: self.redraw.clone(),
            report: self.report.clone(),
        }
    }
}

/// What the window knows.
#[derive(Debug)]
pub struct AppState {
    pub workspace_groups: Vec<WorkspaceGroup>,
    pub selected_workspace: Option<String>,
    pub editing_workspace: Option<String>,
    pub selected_session: Option<String>,
    pub selected_sessions: TextMap<String>,
    pub repository_form: RepositoryFormState,
    pub syncing_repositories: TextSet,
    pub pr_statuses: TextMap<CachedPrStatus>,
    pub pending_pr_lookups: TextSet,
}

/// What an `AppState` holds.
#[verifier::ext_equal]
pub struct AppStateView {
    pub workspace_groups: Seq<WorkspaceGroupView>,
    pub selected_workspace: Option<Seq<char>>,
    pub editing_workspace: Option<Seq<char>>,
    pub selected_session: Option<Seq<char>>,
    pub selected_sessions: Map<Seq<char>, Seq<char>>,
    pub repository_form: RepositoryFormStateView,
    pub syncing_repositories: Set<Seq<char>>,
    pub pr_statuses: Map<Seq<char>, CachedPrStatusView>,
    pub pending_pr_lookups: Set<Seq<char>>,
}

impl View for AppState {
    type V = AppStateView;

    open spec fn view(&self) -> AppStateView {
        AppStateView {
            workspace_groups: self.workspace_groups.deep_view(),
            selected_workspace: self.selected_workspace.deep_view(),
            editing_workspace: self.editing_workspace.deep_view(),
            selected_session: self.selected_session.deep_view(),
            selected_sessions: self.selected_sessions@,
            repository_form: self.repository_form@,
            syncing_repositories: self.syncing_repositories@,
            pr_statuses: self.pr_statuses@,
            pending_pr_lookups: self.pending_pr_lookups@,
        }
    }
}

/// The form as it first stands.
pub open spec fn blank_form() -> RepositoryFormStateView {
    RepositoryFormStateView { expanded: false, repository: seq![], alias: seq![], error: None }
}

/// What the window knows at first: nothing.
pub open spec fn blank_state() -> AppStateView {
    AppStateView {
        workspace_groups: seq![],
        selected_workspace: None,
        editing_workspace: None,
        selected_session: None,
        selected_sessions: Map::empty(),
        repository_form: blank_form(),
        syncing_repositories: Set::empty(),
        pr_statuses: Map::empty(),
        pending_pr_lookups: Set::empty(),
    }
}

impl RepositoryFormState {
    /// The form as it first stands.
    pub fn blank() -> (r: Self)
        ensures
            r@ == blank_form(),
    {
        let r = RepositoryFormState {
            expanded: false,
            repository: String::new(),
            alias: String::new(),
            error: None,
        };
        proof {
            assert(r@ =~= blank_form());
        }
        r
    }
}

/// `<repository>:<name>`.
pub open spec fn ref_of(workspace: WorkspaceEntryView) -> Seq<char> {
    workspace.repo_canonical + ":"@ + workspace.name
}

/// How a workspace is referred to.
pub fn workspace_ref(workspace: &WorkspaceEntry) -> (r: String)
    ensures
        r@ == ref_of(workspace@),
{
    let mut out = workspace.repo_canonical.clone();
    out.append(":");
    out.append(workspace.name.as_str());
    out
}

/// Whether a workspace is referred to by a text.
pub open spec fn has_ref(workspace_ref: Seq<char>) -> spec_fn(WorkspaceEntryView) -> bool {
    |workspace: WorkspaceEntryView| ref_of(workspace) == workspace_ref
}

/// The workspaces of all groups, in their order.
pub open spec fn shown_workspaces(groups: Seq<WorkspaceGroupView>) -> Seq<WorkspaceEntryView>
    decreases groups.len(),
{
    if groups.len() == 0 {
        seq![]
    } else {
        shown_workspaces(groups.drop_last()) + groups.last().workspaces
    }
}

/// The workspaces of all groups, in their order.
pub fn all_workspaces(groups: &Vec<WorkspaceGroup>) -> (r: Vec<WorkspaceEntry>)
    ensures
        r.deep_view() == shown_workspaces(groups.deep_view()),
{
    let mut out: Vec<WorkspaceEntry> = Vec::new();
    let ghost all = groups.deep_view();
    let mut i: usize = 0;
    proof {
        assert(all.take(0) =~= seq![]);
        assert(out.deep_view() =~= seq![]);
    }
    while i < groups.len()
        invariant
            i <= groups.len(),
            all == groups.deep_view(),
            out.deep_view() == shown_workspaces(all.take(i as int)),
        decreases groups.len() - i,
    {
        let ghost before = out.deep_view();
        proof {
            assert(all.take(i + 1).drop_last() =~= all.take(i as int));
            assert(all[i as int] == groups@[i as int]@);
        }
        let mut j: usize = 0;
        proof {
            assert(before + groups@[i as int]@.workspaces.take(0) =~= before);
        }
        while j < groups[i].workspaces.len()
            invariant
                i < groups.len(),
                j <= groups@[i as int].workspaces@.len(),
                out.deep_view() == before + groups@[i as int]@.workspaces.take(j as int),
            decreases groups[i as int].workspaces.len() - j,
        {
            let ghost earlier = out.deep_view();
            out.push(groups[i].workspaces[j].clone());
            proof {
                let source = groups@[i as int]@.workspaces;
                assert(source[j as int] == groups@[i as int].workspaces@[j as int]@);
                assert(out.deep_view() =~= earlier.push(source[j as int]));
                assert(out.deep_view() =~= before + source.take(j + 1));
            }
            j += 1;
        }
        proof {
            assert(groups@[i as int]@.workspaces.take(j as int) =~= groups@[i as int]@.workspaces);
        }
        i += 1;
    }
    proof {
        assert(all.take(i as int) =~= all);
    }
    out
}

/// The first workspace that a text refers to.
pub open spec fn workspace_by_ref(
    groups: Seq<WorkspaceGroupView>,
    workspace_ref: Seq<char>,
) -> Option<WorkspaceEntryView> {
    seqs::first(shown_workspaces(groups), has_ref(workspace_ref))
}

/// Finds the first workspace that a text refers to.
pub fn find_workspace_by_ref(groups: &Vec<WorkspaceGroup>, selected_ref: &str) -> (r: Option<
    WorkspaceEntry,
>)
    ensures
        r.deep_view() == workspace_by_ref(groups.deep_view(), selected_ref@),
{
    let all = all_workspaces(groups);
    let ghost p = has_ref(selected_ref@);
    let mut i: usize = 0;
    while i < all.len()
        invariant
            i <= all.len(),
            p == has_ref(selected_ref@),
            all.deep_view() == shown_workspaces(groups.deep_view()),
            forall|j: int| 0 <= j < i ==> !p(#[trigger] all.deep_view()[j]),
        decreases all.len() - i,
    {
        proof {
            assert(all.deep_view()[i as int] == all@[i as int]@);
        }
        if text::same(workspace_ref(&all[i]).as_str(), selected_ref) {
            proof {
                seqs::lemma_first_index_is(all.deep_view(), p, i as int);
            }
            return Some(all[i].clone());
        }
        i += 1;
    }
    proof {
        seqs::lemma_first_index_is(all.deep_view(), p, i as int);
    }
    None
}

/// The first workspace of all.
pub open spec fn first_shown(groups: Seq<WorkspaceGroupView>) -> Option<WorkspaceEntryView> {
    let all = shown_workspaces(groups);
    if all.len() == 0 {
        None
    } else {
        Some(all[0])
    }
}

/// The first workspace of all.
pub fn first_workspace(groups: &Vec<WorkspaceGroup>) -> (r: Option<WorkspaceEntry>)
    ensures
        r.deep_view() == first_shown(groups.deep_view()),
{
    let all = all_workspaces(groups);
    if all.len() == 0 {
        None
    } else {
        proof {
            assert(all.deep_view()[0] == all@[0]@);
        }
        Some(all[0].clone())
    }
}

/// The workspace that is shown: the one asked for, else the one that is selected,
/// if it is there, else the first.
pub open spec fn chosen_workspace(
    groups: Seq<WorkspaceGroupView>,
    preferred: Option<Seq<char>>,
    selected: Option<Seq<char>>,
) -> Option<WorkspaceEntryView> {
    let wanted = if preferred is Some {
        preferred
    } else {
        selected
    };
    match wanted {
        Some(workspace_ref) => match workspace_by_ref(groups, workspace_ref) {
            Some(workspace) => Some(workspace),
            None => first_shown(groups),
        },
        None => first_shown(groups),
    }
}

/// What the window knows once a session of a workspace was selected, or none.
pub open spec fn remembering(
    s: AppStateView,
    workspace_ref: Seq<char>,
    session: Option<Seq<char>>,
) -> AppStateView {
    AppStateView {
        selected_session: session,
        selected_sessions: match session {
            Some(id) => s.selected_sessions.insert(workspace_ref, id),
            None => s.selected_sessions.remove(workspace_ref),
        },
        ..s
    }
}

/// The session of a workspace that is shown if it is still there: the one asked
/// for, else the one that was last selected.
pub open spec fn preferred_session(
    s: AppStateView,
    workspace_ref: Seq<char>,
    preferred: Option<Seq<char>>,
) -> Option<Seq<char>> {
    match preferred {
        Some(id) => Some(id),
        None => if s.selected_sessions.contains_key(workspace_ref) {
            Some(s.selected_sessions[workspace_ref])
        } else {
            None
        },
    }
}

/// What the window knows once it is about to draw a workspace, or none.
pub open spec fn rendering(s: AppStateView, preferred: Option<Seq<char>>) -> AppStateView {
    match chosen_workspace(s.workspace_groups, preferred, s.selected_workspace) {
        Some(workspace) => AppStateView { selected_workspace: Some(ref_of(workspace)), ..s },
        None => AppStateView {
            selected_workspace: None,
            editing_workspace: None,
            selected_session: None,
            ..s
        },
    }
}

impl AppState {
    /// What the window knows at first.
    pub fn new() -> (r: Self)
        ensures
            r@ == blank_state(),
    {
        let r = AppState {
            workspace_groups: Vec::new(),
            selected_workspace: None,
            editing_workspace: None,
            selected_session: None,
            selected_sessions: TextMap::new(),
            repository_form: RepositoryFormState::blank(),
            syncing_repositories: TextSet::new(),
            pr_statuses: TextMap::new(),
            pending_pr_lookups: TextSet::new(),
        };
        proof {
            assert(r@ =~= blank_state());
        }
        r
    }

    /// Selects a session of a workspace, or none.
    pub fn remember_selected_session(&mut self, workspace_ref: &str, session_id: Option<String>)
        ensures
            final(self)@ == remembering(old(self)@, workspace_ref@, session_id.deep_view()),
    {
        self.selected_session = session_id.clone();
        match session_id {
            Some(id) => self.selected_sessions.insert(workspace_ref, id),
            None => {
                let _ = self.selected_sessions.remove(workspace_ref);
            },
        }
        proof {
            assert(self@ =~= remembering(old(self)@, workspace_ref@, session_id.deep_view()));
        }
    }

    /// The session of a workspace that is shown if it is still there.
    pub fn preferred_session_for_workspace(
        &self,
        workspace_ref: &str,
        preferred: Option<String>,
    ) -> (r: Option<String>)
        ensures
            r.deep_view() == preferred_session(self@, workspace_ref@, preferred.deep_view()),
    {
        match preferred {
            Some(id) => Some(id),
            None => match self.selected_sessions.get(workspace_ref) {
                Some(id) => Some(id.clone()),
                None => None,
            },
        }
    }

    /// The workspace that is shown.
    pub fn choose_workspace(&self, preferred: &Option<String>) -> (r: Option<WorkspaceEntry>)
        ensures
            r.deep_view() == chosen_workspace(
                self@.workspace_groups,
                preferred.deep_view(),
                self@.selected_workspace,
            ),
    {
        let found = match preferred {
            Some(workspace_ref) => find_workspace_by_ref(
                &self.workspace_groups,
                workspace_ref.as_str(),
            ),
            None => match &self.selected_workspace {
                Some(workspace_ref) => find_workspace_by_ref(
                    &self.workspace_groups,
                    workspace_ref.as_str(),
                ),
                None => None,
            },
        };
        match found {
            Some(workspace) => Some(workspace),
            None => first_workspace(&self.workspace_groups),
        }
    }

    /// Gets ready to draw: picks the workspace that is shown and selects it.
    pub fn render_ui(&mut self, preferred: Option<String>) -> (r: Option<WorkspaceEntry>)
        ensures
            r.deep_view() == chosen_workspace(
                old(self)@.workspace_groups,
                preferred.deep_view(),
                old(self)@.selected_workspace,
            ),
            final(self)@ == rendering(old(self)@, preferred.deep_view()),
    {
        let chosen = self.choose_workspace(&preferred);
        match &chosen {
            Some(workspace) => {
                self.selected_workspace = Some(workspace_ref(workspace));
            },
            None => {
                self.selected_workspace = None;
                self.editing_workspace = None;
                self.selected_session = None;
            },
        }
        proof {
            assert(self@ =~= rendering(old(self)@, preferred.deep_view()));
        }
        chosen
    }

    /// Takes in the workspaces that were loaded. Where they could not be, what
    /// was known stays, and the failure is told.
    pub fn show_groups(
        &mut self,
        loaded: Result<Vec<WorkspaceGroup>, crate::error::SwarmError>,
    ) -> (r: Option<String>)
        ensures
            match loaded {
                Ok(groups) => r is None && final(self)@ == (AppStateView {
                    workspace_groups: groups.deep_view(),
                    ..old(self)@
                }),
                Err(e) => final(self)@ == old(self)@ && r.deep_view() == Some(
                    "failed to load workspaces: "@ + crate::error::error_message(e@),
                ),
            },
    {
        match loaded {
            Ok(groups) => {
                self.workspace_groups = groups;
                None
            },
            Err(e) => {
                let mut out = "failed to load workspaces: ".to_owned();
                out.append(e.message().as_str());
                Some(out)
            },
        }
    }
}

/// All workspaces are those of the groups, one group behind the other.
pub proof fn law_workspaces_of_all_groups(groups: Seq<WorkspaceGroupView>)
    ensures
        shown_workspaces(groups) == groups.map_values(
            |group: WorkspaceGroupView| group.workspaces,
        ).flatten(),
    decreases groups.len(),
{
    let each = |group: WorkspaceGroupView| group.workspaces;
    let all = groups.map_values(each);
    all.lemma_flatten_and_flatten_alt_are_equivalent();
    if groups.len() > 0 {
        let front = groups.drop_last();
        law_workspaces_of_all_groups(front);
        assert(all.drop_last() =~= front.map_values(each));
        all.drop_last().lemma_flatten_and_flatten_alt_are_equivalent();
        assert(all.last() == groups.last().workspaces);
    }
}

/// A workspace is referred to by its repository and its name with a `:` between them, and the
/// first one that has the reference is found.
pub proof fn law_workspace_is_found_by_its_reference(
    groups: Seq<WorkspaceGroupView>,
    workspace_ref: Seq<char>,
)
    ensures
        ({
            let all = shown_workspaces(groups);
            let refers = |w: WorkspaceEntryView| w.repo_canonical + ":"@ + w.name == workspace_ref;
            match workspace_by_ref(groups, workspace_ref) {
                Some(workspace) => refers(workspace) && exists|i: int|
                    0 <= i < all.len() && #[trigger] all[i] == workspace && forall|j: int|
                        0 <= j < i ==> !refers(#[trigger] all[j]),
                None => forall|i: int| 0 <= i < all.len() ==> !refers(#[trigger] all[i]),
            }
        }),
{
    seqs::lemma_first_index(shown_workspaces(groups), has_ref(workspace_ref));
}

/// The workspace that is shown is the one that is asked for, where it is there; without one
/// asked for it is the one that is selected, where it is there; else it is the first.
pub proof fn law_workspace_that_is_shown(
    groups: Seq<WorkspaceGroupView>,
    asked: Seq<char>,
    selected: Option<Seq<char>>,
    workspace: WorkspaceEntryView,
)
    ensures
        workspace_by_ref(groups, asked) == Some(workspace) ==> chosen_workspace(
            groups,
            Some(asked),
            selected,
        ) == Some(workspace) && chosen_workspace(groups, None, Some(asked)) == Some(workspace),
        workspace_by_ref(groups, asked) is None ==> {
            let all = shown_workspaces(groups);
            let first = if all.len() > 0 {
                Some(all[0])
            } else {
                None
            };
            &&& chosen_workspace(groups, Some(asked), selected) == first
            &&& chosen_workspace(groups, None, Some(asked)) == first
            &&& chosen_workspace(groups, None, None) == first
        },
{
}

/// Drawing selects the workspace that is shown and changes nothing else; with none to show,
/// nothing is selected or edited.
pub proof fn law_drawing_selects_what_is_shown(s: AppStateView, preferred: Option<Seq<char>>)
    ensures
        ({
            let after = rendering(s, preferred);
            let shown = chosen_workspace(s.workspace_groups, preferred, s.selected_workspace);
            &&& shown matches Some(w) ==> after == (AppStateView {
                selected_workspace: Some(w.repo_canonical + ":"@ + w.name),
                ..s
            })
            &&& shown is None ==> after == (AppStateView {
                selected_workspace: None,
                editing_workspace: None,
                selected_session: None,
                ..s
            })
        }),
{
}

/// Selecting a session remembers it for its workspace, selecting none forgets it, and what is
/// remembered for every other workspace stays. What is asked for goes before what is
/// remembered.
pub proof fn law_sessions_are_remembered_by_workspace(
    s: AppStateView,
    workspace_ref: Seq<char>,
    id: Seq<char>,
    other: Seq<char>,
)
    requires
        other != workspace_ref,
    ensures
        ({
            let on = remembering(s, workspace_ref, Some(id));
            let off = remembering(s, workspace_ref, None);
            &&& on.selected_session == Some(id)
            &&& off.selected_session is None
            &&& preferred_session(on, workspace_ref, None) == Some(id)
            &&& preferred_session(off, workspace_ref, None) is None
            &&& preferred_session(s, workspace_ref, Some(id)) == Some(id)
            &&& preferred_session(on, other, None) == preferred_session(s, other, None)
            &&& preferred_session(off, other, None) == preferred_session(s, other, None)
            &&& AppStateView {
                selected_session: s.selected_session,
                selected_sessions: s.selected_sessions,
                ..on
            } == s
            &&& AppStateView {
                selected_session: s.selected_session,
                selected_sessions: s.selected_sessions,
                ..off
            } == s
        }),
{
}

/// At first nothing is known, nothing is selected, and the form is closed and empty.
pub proof fn law_window_begins_empty()
    ensures
        ({
            let s = blank_state();
            &&& s.workspace_groups.len() == 0
            &&& s.selected_workspace is None
            &&& s.editing_workspace is None
            &&& s.selected_session is None
            &&& s.selected_sessions.dom() == Set::<Seq<char>>::empty()
            &&& s.repository_form.repository.len() == 0
            &&& s.repository_form.alias.len() == 0
            &&& s.repository_form.error is None
            &&& !s.repository_form.expanded
            &&& s.syncing_repositories == Set::<Seq<char>>::empty()
            &&& s.pr_statuses.dom() == Set::<Seq<char>>::empty()
            &&& s.pending_pr_lookups == Set::<Seq<char>>::empty()
        }),
{
    assert(blank_state().selected_sessions.dom() =~= Set::<Seq<char>>::empty());
    assert(blank_state().pr_statuses.dom() =~= Set::<Seq<char>>::empty());
}

} // verus!
