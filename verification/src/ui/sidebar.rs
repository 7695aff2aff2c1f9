//! The side bar: a row for each repository and each of its workspaces, and the
//! form for a new repository.

use crate::forges::github::PullRequestStatusState;
use crate::table::TextMap;
use crate::text;
use crate::ui::app;
use crate::ui::app::{
    AppState, AppStateView, RepositoryFormState, RepositoryFormStateView, WorkspacePrState,
    WorkspacePrStateView,
};
use crate::ui::data::{WorkspaceEntry, WorkspaceEntryView, WorkspaceGroup, WorkspaceGroupView};
use crate::ui::lookups;
use vstd::prelude::*;

verus! {

/// When a repository was last synced, as its row tells it.
#[derive(Debug)]
pub struct RepoMeta {
    pub text: String,
    pub tooltip: String,
}

/// What a `RepoMeta` holds.
#[verifier::ext_equal]
pub struct RepoMetaView {
    pub text: Seq<char>,
    pub tooltip: Seq<char>,
}

impl View for RepoMeta {
    type V = RepoMetaView;

    open spec fn view(&self) -> RepoMetaView {
        RepoMetaView {
            text: self.text@,
            tooltip: self.tooltip@,
        }
    }
}

impl DeepView for RepoMeta {
    type V = RepoMetaView;

    open spec fn deep_view(&self) -> RepoMetaView {
        self@
    }
}

impl Clone for RepoMeta {
    fn clone(&self) -> (r: Self)
        ensures
            r@ == self@,
    {
        RepoMeta {
            text: self.text.clone(),
            tooltip: self.tooltip.clone(),
        }
    }
}

/// The row of a repository. A button for syncing without an icon has a spinner.
#[derive(Debug)]
pub struct RepoRowModel {
    pub label: String,
    pub repo_canonical: String,
    pub meta: Option<RepoMeta>,
    pub sync_sensitive: bool,
    pub sync_tooltip: String,
    pub sync_icon: Option<String>,
    pub toggle_tooltip: String,
    pub toggle_icon: String,
    pub collapsed: bool,
}

/// What a `RepoRowModel` holds.
#[verifier::ext_equal]
pub struct RepoRowModelView {
    pub label: Seq<char>,
    pub repo_canonical: Seq<char>,
    pub meta: Option<RepoMetaView>,
    pub sync_sensitive: bool,
    pub sync_tooltip: Seq<char>,
    pub sync_icon: Option<Seq<char>>,
    pub toggle_tooltip: Seq<char>,
    pub toggle_icon: Seq<char>,
    pub collapsed: bool,
}

impl View for RepoRowModel {
    type V = RepoRowModelView;

    open spec fn view(&self) -> RepoRowModelView {
        RepoRowModelView {
            label: self.label@,
            repo_canonical: self.repo_canonical@,
            meta: self.meta.deep_view(),
            sync_sensitive: self.sync_sensitive,
            sync_tooltip: self.sync_tooltip@,
            sync_icon: self.sync_icon.deep_view(),
            toggle_tooltip: self.toggle_tooltip@,
            toggle_icon: self.toggle_icon@,
            collapsed: self.collapsed,
        }
    }
}

impl DeepView for RepoRowModel {
    type V = RepoRowModelView;

    open spec fn deep_view(&self) -> RepoRowModelView {
        self@
    }
}

impl Clone for RepoRowModel {
    fn clone(&self) -> (r: Self)
        ensures
            r@ == self@,
    {
        RepoRowModel {
            label: self.label.clone(),
            repo_canonical: self.repo_canonical.clone(),
            meta: self.meta.clone(),
            sync_sensitive: self.sync_sensitive,
            sync_tooltip: self.sync_tooltip.clone(),
            sync_icon: self.sync_icon.clone(),
            toggle_tooltip: self.toggle_tooltip.clone(),
            toggle_icon: self.toggle_icon.clone(),
            collapsed: self.collapsed,
        }
    }
}

/// The mark that tells the state of a pull request.
#[derive(Debug)]
pub struct Indicator {
    pub class: Option<String>,
    pub tooltip: String,
}

/// What an `Indicator` holds.
#[verifier::ext_equal]
pub struct IndicatorView {
    pub class: Option<Seq<char>>,
    pub tooltip: Seq<char>,
}

impl View for Indicator {
    type V = IndicatorView;

    open spec fn view(&self) -> IndicatorView {
        IndicatorView {
            class: self.class.deep_view(),
            tooltip: self.tooltip@,
        }
    }
}

impl DeepView for Indicator {
    type V = IndicatorView;

    open spec fn deep_view(&self) -> IndicatorView {
        self@
    }
}

impl Clone for Indicator {
    fn clone(&self) -> (r: Self)
        ensures
            r@ == self@,
    {
        Indicator {
            class: self.class.clone(),
            tooltip: self.tooltip.clone(),
        }
    }
}

/// The row of a workspace. It has an entry for a new name while it is edited, else
/// a line about the workspace. The actions of the selected row can be seen.
#[derive(Debug)]
pub struct WorkspaceRowModel {
    pub workspace: WorkspaceEntry,
    pub entry: Option<String>,
    pub meta: Option<String>,
    pub selected: bool,
    pub indicator: Indicator,
}

/// What a `WorkspaceRowModel` holds.
#[verifier::ext_equal]
pub struct WorkspaceRowModelView {
    pub workspace: WorkspaceEntryView,
    pub entry: Option<Seq<char>>,
    pub meta: Option<Seq<char>>,
    pub selected: bool,
    pub indicator: IndicatorView,
}

impl View for WorkspaceRowModel {
    type V = WorkspaceRowModelView;

    open spec fn view(&self) -> WorkspaceRowModelView {
        WorkspaceRowModelView {
            workspace: self.workspace@,
            entry: self.entry.deep_view(),
            meta: self.meta.deep_view(),
            selected: self.selected,
            indicator: self.indicator@,
        }
    }
}

impl DeepView for WorkspaceRowModel {
    type V = WorkspaceRowModelView;

    open spec fn deep_view(&self) -> WorkspaceRowModelView {
        self@
    }
}

impl Clone for WorkspaceRowModel {
    fn clone(&self) -> (r: Self)
        ensures
            r@ == self@,
    {
        WorkspaceRowModel {
            workspace: self.workspace.clone(),
            entry: self.entry.clone(),
            meta: self.meta.clone(),
            selected: self.selected,
            indicator: self.indicator.clone(),
        }
    }
}

/// A row of the side bar.
#[derive(Debug)]
pub enum SidebarRow {
    Repo(RepoRowModel),
    Workspace(WorkspaceRowModel),
}

/// What a `SidebarRow` holds.
#[verifier::ext_equal]
pub enum SidebarRowView {
    Repo(RepoRowModelView),
    Workspace(WorkspaceRowModelView),
}

impl View for SidebarRow {
    type V = SidebarRowView;

    open spec fn view(&self) -> SidebarRowView {
        match self {
            SidebarRow::Repo(a) => SidebarRowView::Repo(a@),
            SidebarRow::Workspace(a) => SidebarRowView::Workspace(a@),
        }
    }
}

impl DeepView for SidebarRow {
    type V = SidebarRowView;

    open spec fn deep_view(&self) -> SidebarRowView {
        self@
    }
}

impl Clone for SidebarRow {
    fn clone(&self) -> (r: Self)
        ensures
            r@ == self@,
    {
        match self {
            SidebarRow::Repo(a) => SidebarRow::Repo(a.clone()),
            SidebarRow::Workspace(a) => SidebarRow::Workspace(a.clone()),
        }
    }
}

/// The form for a new repository.
#[derive(Debug)]
pub struct FormModel {
    pub repository: String,
    pub alias: String,
    pub error: Option<String>,
    pub cancel: bool,
}

/// What a `FormModel` holds.
#[verifier::ext_equal]
pub struct FormModelView {
    pub repository: Seq<char>,
    pub alias: Seq<char>,
    pub error: Option<Seq<char>>,
    pub cancel: bool,
}

impl View for FormModel {
    type V = FormModelView;

    open spec fn view(&self) -> FormModelView {
        FormModelView {
            repository: self.repository@,
            alias: self.alias@,
            error: self.error.deep_view(),
            cancel: self.cancel,
        }
    }
}

impl DeepView for FormModel {
    type V = FormModelView;

    open spec fn deep_view(&self) -> FormModelView {
        self@
    }
}

impl Clone for FormModel {
    fn clone(&self) -> (r: Self)
        ensures
            r@ == self@,
    {
        FormModel {
            repository: self.repository.clone(),
            alias: self.alias.clone(),
            error: self.error.clone(),
            cancel: self.cancel,
        }
    }
}

/// The side bar.
#[derive(Debug)]
pub struct SidebarModel {
    pub add_button: bool,
    pub form: Option<FormModel>,
    pub rows: Vec<SidebarRow>,
    pub hint: Option<String>,
}

/// What a `SidebarModel` holds.
#[verifier::ext_equal]
pub struct SidebarModelView {
    pub add_button: bool,
    pub form: Option<FormModelView>,
    pub rows: Seq<SidebarRowView>,
    pub hint: Option<Seq<char>>,
}

impl View for SidebarModel {
    type V = SidebarModelView;

    open spec fn view(&self) -> SidebarModelView {
        SidebarModelView {
            add_button: self.add_button,
            form: self.form.deep_view(),
            rows: self.rows.deep_view(),
            hint: self.hint.deep_view(),
        }
    }
}

impl DeepView for SidebarModel {
    type V = SidebarModelView;

    open spec fn deep_view(&self) -> SidebarModelView {
        self@
    }
}

impl Clone for SidebarModel {
    fn clone(&self) -> (r: Self)
        ensures
            r@ == self@,
    {
        SidebarModel {
            add_button: self.add_button,
            form: self.form.clone(),
            rows: self.rows.clone(),
            hint: self.hint.clone(),
        }
    }
}

/// What a row of the side bar is of.
#[derive(Debug)]
pub enum SidebarItem {
    Repo(WorkspaceGroup),
    Workspace(WorkspaceEntry),
}

/// What a `SidebarItem` holds.
#[verifier::ext_equal]
pub enum SidebarItemView {
    Repo(WorkspaceGroupView),
    Workspace(WorkspaceEntryView),
}

impl View for SidebarItem {
    type V = SidebarItemView;

    open spec fn view(&self) -> SidebarItemView {
        match self {
            SidebarItem::Repo(a) => SidebarItemView::Repo(a@),
            SidebarItem::Workspace(a) => SidebarItemView::Workspace(a@),
        }
    }
}

impl DeepView for SidebarItem {
    type V = SidebarItemView;

    open spec fn deep_view(&self) -> SidebarItemView {
        self@
    }
}

impl Clone for SidebarItem {
    fn clone(&self) -> (r: Self)
        ensures
            r@ == self@,
    {
        match self {
            SidebarItem::Repo(a) => SidebarItem::Repo(a.clone()),
            SidebarItem::Workspace(a) => SidebarItem::Workspace(a.clone()),
        }
    }
}

/// The upper case of a text.
pub uninterp spec fn uppercase_text(s: Seq<char>) -> Seq<char>;

/// Calls `str::to_uppercase`, whose result depends on the text alone.
#[verifier::external_body]
fn uppercase(s: &str) -> (r: String)
    ensures
        r@ == uppercase_text(s@),
{
    s.to_uppercase()
}

/// The row of a repository.
pub open spec fn repo_row(
    label: Seq<char>,
    repo_canonical: Seq<char>,
    repo_status: Option<Seq<char>>,
    is_syncing: bool,
    collapsed: bool,
) -> RepoRowModelView {
    repo_row_labelled(uppercase_text(label), repo_canonical, repo_status, is_syncing, collapsed)
}

/// The row of a repository, by the label that it shows.
pub open spec fn repo_row_labelled(
    label: Seq<char>,
    repo_canonical: Seq<char>,
    repo_status: Option<Seq<char>>,
    is_syncing: bool,
    collapsed: bool,
) -> RepoRowModelView {
    RepoRowModelView {
        label,
        repo_canonical,
        meta: if is_syncing {
            Some(RepoMetaView { text: "Syncing ..."@, tooltip: "Syncing ..."@ })
        } else {
            match repo_status {
                Some(status) => Some(
                    RepoMetaView { text: status, tooltip: "Last synced "@ + status },
                ),
                None => None,
            }
        },
        sync_sensitive: !is_syncing,
        sync_tooltip: if is_syncing {
            "Syncing ..."@
        } else {
            "Sync repository"@
        },
        sync_icon: if is_syncing {
            None
        } else {
            Some("view-refresh-symbolic"@)
        },
        toggle_tooltip: if collapsed {
            "Expand repository"@
        } else {
            "Collapse repository"@
        },
        toggle_icon: if collapsed {
            "pan-end-symbolic"@
        } else {
            "pan-down-symbolic"@
        },
        collapsed,
    }
}

/// The row of a repository, by the label that it shows.
pub fn labelled_repo_row(
    label: String,
    repo_canonical: &str,
    repo_status: Option<String>,
    is_syncing: bool,
    collapsed: bool,
) -> (r: RepoRowModel)
    ensures
        r@ == repo_row_labelled(
            label@,
            repo_canonical@,
            repo_status.deep_view(),
            is_syncing,
            collapsed,
        ),
{
    let meta: Option<RepoMeta> = if is_syncing {
        Some(RepoMeta { text: "Syncing ...".to_owned(), tooltip: "Syncing ...".to_owned() })
    } else {
        match repo_status {
            Some(status) => {
                let mut tooltip = "Last synced ".to_owned();
                tooltip.append(status.as_str());
                Some(RepoMeta { text: status, tooltip })
            },
            None => None,
        }
    };
    RepoRowModel {
        label,
        repo_canonical: repo_canonical.to_owned(),
        meta,
        sync_sensitive: !is_syncing,
        sync_tooltip: if is_syncing {
            "Syncing ...".to_owned()
        } else {
            "Sync repository".to_owned()
        },
        sync_icon: if is_syncing {
            None
        } else {
            Some("view-refresh-symbolic".to_owned())
        },
        toggle_tooltip: if collapsed {
            "Expand repository".to_owned()
        } else {
            "Collapse repository".to_owned()
        },
        toggle_icon: if collapsed {
            "pan-end-symbolic".to_owned()
        } else {
            "pan-down-symbolic".to_owned()
        },
        collapsed,
    }
}

/// The row of a repository.
pub fn build_repo_row(
    repo_label: &str,
    repo_canonical: &str,
    repo_status: Option<String>,
    is_syncing: bool,
    collapsed: bool,
) -> (r: RepoRowModel)
    ensures
        r@ == repo_row(
            repo_label@,
            repo_canonical@,
            repo_status.deep_view(),
            is_syncing,
            collapsed,
        ),
{
    labelled_repo_row(uppercase(repo_label), repo_canonical, repo_status, is_syncing, collapsed)
}

/// The mark that tells the state of a pull request.
pub open spec fn indicator_of(state: WorkspacePrStateView) -> IndicatorView {
    match state {
        WorkspacePrStateView::Loading => IndicatorView {
            class: None,
            tooltip: "Loading pull request status..."@,
        },
        WorkspacePrStateView::Absent => IndicatorView { class: None, tooltip: "No pull request"@ },
        WorkspacePrStateView::Ready(status) => IndicatorView {
            class: Some(
                match status.state {
                    PullRequestStatusState::Success => "workspace-pr-success"@,
                    PullRequestStatusState::Pending => "workspace-pr-pending"@,
                    PullRequestStatusState::Failure => "workspace-pr-failure"@,
                    PullRequestStatusState::Merged => "workspace-pr-merged"@,
                },
            ),
            tooltip: match status.url {
                Some(url) => status.summary + "\n"@ + url,
                None => status.summary,
            },
        },
    }
}

/// The mark that tells the state of a pull request.
pub fn build_workspace_status_indicator(state: WorkspacePrState) -> (r: Indicator)
    ensures
        r@ == indicator_of(state@),
{
    match state {
        WorkspacePrState::Loading => Indicator {
            class: None,
            tooltip: "Loading pull request status...".to_owned(),
        },
        WorkspacePrState::Absent => Indicator {
            class: None,
            tooltip: "No pull request".to_owned(),
        },
        WorkspacePrState::Ready(status) => {
            let class = match status.state {
                PullRequestStatusState::Success => "workspace-pr-success".to_owned(),
                PullRequestStatusState::Pending => "workspace-pr-pending".to_owned(),
                PullRequestStatusState::Failure => "workspace-pr-failure".to_owned(),
                PullRequestStatusState::Merged => "workspace-pr-merged".to_owned(),
            };
            let mut tooltip = status.summary.clone();
            if let Some(url) = &status.url {
                tooltip.append("\n");
                tooltip.append(url.as_str());
            }
            Indicator { class: Some(class), tooltip }
        },
    }
}

/// The line about a workspace: its name and the number of its sessions.
pub open spec fn meta_line(name: Seq<char>, session_count: nat) -> Seq<char> {
    name + "  \u{2022}  "@ + text::decimal(session_count) + " sessions"@
}

/// The line about a workspace.
pub fn workspace_meta_text(name: &str, session_count: usize) -> (r: String)
    ensures
        r@ == meta_line(name@, session_count as nat),
{
    let mut out = name.to_owned();
    out.append("  \u{2022}  ");
    out.append(text::decimal_text(session_count as u64).as_str());
    out.append(" sessions");
    out
}

/// The row of a workspace.
pub open spec fn workspace_row(
    workspace: WorkspaceEntryView,
    is_editing: bool,
    is_selected: bool,
    state: WorkspacePrStateView,
) -> WorkspaceRowModelView {
    WorkspaceRowModelView {
        workspace,
        entry: if is_editing {
            Some(workspace.name)
        } else {
            None
        },
        meta: if is_editing {
            None
        } else {
            Some(meta_line(workspace.name, workspace.sessions.len()))
        },
        selected: is_selected,
        indicator: indicator_of(state),
    }
}

/// The row of a workspace.
pub fn build_workspace_row(
    workspace: &WorkspaceEntry,
    is_editing: bool,
    is_selected: bool,
    state: WorkspacePrState,
) -> (r: WorkspaceRowModel)
    ensures
        r@ == workspace_row(workspace@, is_editing, is_selected, state@),
{
    WorkspaceRowModel {
        workspace: workspace.clone(),
        entry: if is_editing {
            Some(workspace.name.clone())
        } else {
            None
        },
        meta: if is_editing {
            None
        } else {
            Some(workspace_meta_text(workspace.name.as_str(), workspace.sessions.len()))
        },
        selected: is_selected,
        indicator: build_workspace_status_indicator(state),
    }
}

/// The form for a new repository. It cannot be closed while there is no
/// repository.
pub open spec fn form_model(form: RepositoryFormStateView, groups_empty: bool) -> FormModelView {
    FormModelView {
        repository: form.repository,
        alias: form.alias,
        error: form.error,
        cancel: !groups_empty,
    }
}

/// The form for a new repository.
pub fn build_repository_form(form: &RepositoryFormState, groups_empty: bool) -> (r: FormModel)
    ensures
        r@ == form_model(form@, groups_empty),
{
    FormModel {
        repository: form.repository.clone(),
        alias: form.alias.clone(),
        error: form.error.clone(),
        cancel: !groups_empty,
    }
}

/// What the rows of the side bar are of: each repository, with its workspaces
/// behind it unless it is collapsed.
pub open spec fn sidebar_items(groups: Seq<WorkspaceGroupView>) -> Seq<SidebarItemView>
    decreases groups.len(),
{
    if groups.len() == 0 {
        seq![]
    } else {
        sidebar_items(groups.drop_last()) + seq![SidebarItemView::Repo(groups.last())] + (
        if groups.last().collapsed {
            seq![]
        } else {
            workspace_items(groups.last().workspaces)
        })
    }
}

/// The workspaces as what rows are of.
pub open spec fn workspace_items(workspaces: Seq<WorkspaceEntryView>) -> Seq<SidebarItemView> {
    Seq::new(workspaces.len(), |i: int| SidebarItemView::Workspace(workspaces[i]))
}

fn list_items(groups: &Vec<WorkspaceGroup>) -> (r: Vec<SidebarItem>)
    ensures
        r.deep_view() == sidebar_items(groups.deep_view()),
{
    let mut out: Vec<SidebarItem> = Vec::new();
    let ghost all = groups.deep_view();
    let mut i: usize = 0;
    proof {
        assert(all.take(0) =~= seq![]);
        assert(out.deep_view() =~= seq![]);
    }
    while i < groups.len()
        invariant
            i <= groups.len(),
            all == groups.deep_view(),
            out.deep_view() == sidebar_items(all.take(i as int)),
        decreases groups.len() - i,
    {
        proof {
            assert(all.take(i + 1).drop_last() =~= all.take(i as int));
            assert(all.take(i + 1).last() == groups@[i as int]@);
        }
        let ghost earlier = out.deep_view();
        out.push(SidebarItem::Repo(groups[i].clone()));
        let ghost before = out.deep_view();
        let ghost source = groups@[i as int]@.workspaces;
        proof {
            assert(before =~= earlier + seq![SidebarItemView::Repo(groups@[i as int]@)]);
        }
        if !groups[i].collapsed {
            let mut j: usize = 0;
            proof {
                assert(before + workspace_items(source.take(0)) =~= before);
            }
            while j < groups[i].workspaces.len()
                invariant
                    i < groups.len(),
                    j <= groups@[i as int].workspaces@.len(),
                    source == groups@[i as int]@.workspaces,
                    out.deep_view() == before + workspace_items(source.take(j as int)),
                decreases groups[i as int].workspaces.len() - j,
            {
                let ghost so_far = out.deep_view();
                out.push(SidebarItem::Workspace(groups[i].workspaces[j].clone()));
                proof {
                    assert(source[j as int] == groups@[i as int].workspaces@[j as int]@);
                    assert(out.deep_view() =~= so_far.push(
                        SidebarItemView::Workspace(source[j as int]),
                    ));
                    assert(out.deep_view() =~= before + workspace_items(source.take(j + 1)));
                }
                j += 1;
            }
            proof {
                assert(source.take(j as int) =~= source);
            }
        } else {
            proof {
                assert(out.deep_view() =~= before + Seq::<SidebarItemView>::empty());
            }
        }
        i += 1;
    }
    proof {
        assert(all.take(i as int) =~= all);
    }
    out
}

/// What the window knows once the given rows were drawn: lookups that are due were
/// asked for.
pub open spec fn after_rows(
    s: AppStateView,
    items: Seq<SidebarItemView>,
    now: u64,
    heads: Map<Seq<char>, Seq<char>>,
) -> AppStateView
    decreases items.len(),
{
    if items.len() == 0 {
        s
    } else {
        let before = after_rows(s, items.drop_last(), now, heads);
        match items.last() {
            SidebarItemView::Repo(_) => before,
            SidebarItemView::Workspace(workspace) => lookups::after_showing(
                before,
                app::ref_of(workspace),
                now,
                lookups::head_at(heads, workspace.path),
            ),
        }
    }
}

/// The lookups that drawing the given rows starts.
pub open spec fn rows_start(
    s: AppStateView,
    items: Seq<SidebarItemView>,
    now: u64,
    heads: Map<Seq<char>, Seq<char>>,
) -> Seq<WorkspaceEntryView>
    decreases items.len(),
{
    if items.len() == 0 {
        seq![]
    } else {
        let earlier = rows_start(s, items.drop_last(), now, heads);
        match items.last() {
            SidebarItemView::Repo(_) => earlier,
            SidebarItemView::Workspace(workspace) => if lookups::showing_starts(
                after_rows(s, items.drop_last(), now, heads),
                app::ref_of(workspace),
                now,
                lookups::head_at(heads, workspace.path),
            ) {
                earlier.push(workspace)
            } else {
                earlier
            },
        }
    }
}

/// One row of the side bar. The row of the shown workspace is selected, by its
/// path.
pub open spec fn row_of(
    s: AppStateView,
    item: SidebarItemView,
    shown: Option<WorkspaceEntryView>,
) -> SidebarRowView {
    match item {
        SidebarItemView::Repo(group) => SidebarRowView::Repo(
            repo_row(
                group.repo_label,
                group.repo_canonical,
                group.repo_status,
                s.syncing_repositories.contains(group.repo_canonical),
                group.collapsed,
            ),
        ),
        SidebarItemView::Workspace(workspace) => SidebarRowView::Workspace(
            workspace_row(
                workspace,
                s.editing_workspace == Some(app::ref_of(workspace)),
                shown matches Some(w) && w.path == workspace.path,
                lookups::shown_state(s, app::ref_of(workspace)),
            ),
        ),
    }
}

/// The rows of the side bar.
pub open spec fn rows_of(
    s: AppStateView,
    items: Seq<SidebarItemView>,
    shown: Option<WorkspaceEntryView>,
    now: u64,
    heads: Map<Seq<char>, Seq<char>>,
) -> Seq<SidebarRowView> {
    Seq::new(
        items.len(),
        |i: int| row_of(after_rows(s, items.take(i), now, heads), items[i], shown),
    )
}

/// The side bar.
pub open spec fn sidebar_of(
    s: AppStateView,
    shown: Option<WorkspaceEntryView>,
    now: u64,
    heads: Map<Seq<char>, Seq<char>>,
) -> SidebarModelView {
    let empty = s.workspace_groups.len() == 0;
    SidebarModelView {
        add_button: !empty,
        form: if s.repository_form.expanded || empty {
            Some(form_model(s.repository_form, empty))
        } else {
            None
        },
        rows: rows_of(s, sidebar_items(s.workspace_groups), shown, now, heads),
        hint: if empty {
            Some("Add a repository to start creating workspaces."@)
        } else {
            None
        },
    }
}

impl AppState {
    fn build_row(
        &mut self,
        item: &SidebarItem,
        shown: &Option<WorkspaceEntry>,
        now: u64,
        heads: &TextMap<String>,
    ) -> (r: (SidebarRow, bool))
        ensures
            r.0@ == row_of(old(self)@, item@, shown.deep_view()),
            match item@ {
                SidebarItemView::Repo(_) => final(self)@ == old(self)@ && !r.1,
                SidebarItemView::Workspace(workspace) => {
                    &&& final(self)@ == lookups::after_showing(
                        old(self)@,
                        app::ref_of(workspace),
                        now,
                        lookups::head_at(heads@, workspace.path),
                    )
                    &&& r.1 == lookups::showing_starts(
                        old(self)@,
                        app::ref_of(workspace),
                        now,
                        lookups::head_at(heads@, workspace.path),
                    )
                },
            },
    {
        match item {
            SidebarItem::Repo(group) => {
                let row = build_repo_row(
                    group.repo_label.as_str(),
                    group.repo_canonical.as_str(),
                    group.repo_status.clone(),
                    self.syncing_repositories.contains(group.repo_canonical.as_str()),
                    group.collapsed,
                );
                (SidebarRow::Repo(row), false)
            },
            SidebarItem::Workspace(workspace) => {
                let id = app::workspace_ref(workspace);
                let is_editing: bool = match &self.editing_workspace {
                    Some(editing) => text::same(editing.as_str(), id.as_str()),
                    None => false,
                };
                let is_selected: bool = match shown {
                    Some(w) => text::same(w.path.as_str(), workspace.path.as_str()),
                    None => false,
                };
                let snapshot = self.workspace_pr_snapshot(
                    workspace,
                    now,
                    heads.get(workspace.path.as_str()),
                );
                let row = build_workspace_row(workspace, is_editing, is_selected, snapshot.state);
                (SidebarRow::Workspace(row), snapshot.starts)
            },
        }
    }

    /// The side bar around the workspace that is shown, and the workspaces whose
    /// lookup it starts.
    pub fn build_sidebar(
        &mut self,
        shown: &Option<WorkspaceEntry>,
        now: u64,
        heads: &TextMap<String>,
    ) -> (r: (SidebarModel, Vec<WorkspaceEntry>))
        ensures
            r.0@ == sidebar_of(old(self)@, shown.deep_view(), now, heads@),
            r.1.deep_view() == rows_start(
                old(self)@,
                sidebar_items(old(self)@.workspace_groups),
                now,
                heads@,
            ),
            final(self)@ == after_rows(
                old(self)@,
                sidebar_items(old(self)@.workspace_groups),
                now,
                heads@,
            ),
    {
        let ghost start = self@;
        let groups_empty: bool = self.workspace_groups.len() == 0;
        let form: Option<FormModel> = if self.repository_form.expanded || groups_empty {
            Some(build_repository_form(&self.repository_form, groups_empty))
        } else {
            None
        };
        let items = list_items(&self.workspace_groups);
        let ghost all = items.deep_view();
        let mut rows: Vec<SidebarRow> = Vec::new();
        let mut started: Vec<WorkspaceEntry> = Vec::new();
        let mut i: usize = 0;
        proof {
            assert(all.take(0) =~= seq![]);
            assert(rows.deep_view() =~= rows_of(
                start,
                all,
                shown.deep_view(),
                now,
                heads@,
            ).take(0));
            assert(started.deep_view() =~= seq![]);
        }
        while i < items.len()
            invariant
                i <= items.len(),
                all == items.deep_view(),
                self@ == after_rows(start, all.take(i as int), now, heads@),
                rows.deep_view() == rows_of(start, all, shown.deep_view(), now, heads@).take(
                    i as int,
                ),
                started.deep_view() == rows_start(start, all.take(i as int), now, heads@),
            decreases items.len() - i,
        {
            let ghost rows_before = rows.deep_view();
            let ghost started_before = started.deep_view();
            proof {
                assert(all[i as int] == items@[i as int]@);
                assert(all.take(i + 1).drop_last() =~= all.take(i as int));
                assert(all.take(i + 1).last() == items@[i as int]@);
            }
            let (row, starts) = self.build_row(&items[i], shown, now, heads);
            rows.push(row);
            if starts {
                if let SidebarItem::Workspace(workspace) = &items[i] {
                    started.push(workspace.clone());
                    proof {
                        assert(started.deep_view() =~= started_before.push(workspace@));
                    }
                }
            }
            proof {
                let whole = rows_of(start, all, shown.deep_view(), now, heads@);
                assert(rows.deep_view() =~= rows_before.push(whole[i as int]));
                assert(rows.deep_view() =~= whole.take(i + 1));
            }
            i += 1;
        }
        proof {
            assert(all.take(i as int) =~= all);
            let whole = rows_of(start, all, shown.deep_view(), now, heads@);
            assert(whole.take(i as int) =~= whole);
        }
        let hint: Option<String> = if groups_empty {
            Some("Add a repository to start creating workspaces.".to_owned())
        } else {
            None
        };
        (SidebarModel { add_button: !groups_empty, form, rows, hint }, started)
    }
}

/// A collapsed repository has one row, an expanded one a row for itself and one for
/// each of its workspaces.
pub proof fn law_collapsed_repositories_hide_workspaces(groups: Seq<WorkspaceGroupView>)
    requires
        groups.len() > 0,
    ensures
        sidebar_items(groups).len() == sidebar_items(groups.drop_last()).len() + 1 + (if groups.last().collapsed {
            0
        } else {
            groups.last().workspaces.len() as int
        }),
        sidebar_items(groups)[sidebar_items(groups.drop_last()).len() as int]
            == SidebarItemView::Repo(groups.last()),
{
}

/// The form for a new repository can always be reached: it is shown where there is
/// no repository, and a button for it where there is one.
pub proof fn law_form_can_be_reached(
    s: AppStateView,
    shown: Option<WorkspaceEntryView>,
    now: u64,
    heads: Map<Seq<char>, Seq<char>>,
)
    ensures
        ({
            let sidebar = sidebar_of(s, shown, now, heads);
            sidebar.add_button || sidebar.form is Some
        }),
{
}

/// The row of a repository: while it is synced it says so and cannot be synced again, else it
/// says when it was synced last, where that is known. Its toggle expands it where it is
/// collapsed and collapses it where it is not.
pub proof fn law_repository_rows(
    label: Seq<char>,
    canonical: Seq<char>,
    status: Seq<char>,
    is_syncing: bool,
    collapsed: bool,
)
    ensures
        ({
            let row = repo_row_labelled(label, canonical, Some(status), is_syncing, collapsed);
            let fresh = repo_row_labelled(label, canonical, None, is_syncing, collapsed);
            &&& row.label == label && row.repo_canonical == canonical && row.collapsed == collapsed
            &&& is_syncing ==> row.meta == Some(
                (RepoMetaView { text: "Syncing ..."@, tooltip: "Syncing ..."@ }),
            ) && fresh.meta == row.meta
            &&& !is_syncing ==> row.meta == Some(
                (RepoMetaView { text: status, tooltip: "Last synced "@ + status }),
            ) && fresh.meta is None
            &&& row.sync_sensitive == !is_syncing
            &&& is_syncing ==> row.sync_tooltip == "Syncing ..."@ && row.sync_icon is None
            &&& !is_syncing ==> row.sync_tooltip == "Sync repository"@ && row.sync_icon == Some(
                "view-refresh-symbolic"@,
            )
            &&& collapsed ==> row.toggle_tooltip == "Expand repository"@ && row.toggle_icon
                == "pan-end-symbolic"@
            &&& !collapsed ==> row.toggle_tooltip == "Collapse repository"@ && row.toggle_icon
                == "pan-down-symbolic"@
            &&& repo_row(label, canonical, Some(status), is_syncing, collapsed)
                == repo_row_labelled(
                uppercase_text(label),
                canonical,
                Some(status),
                is_syncing,
                collapsed,
            )
        }),
{
}

/// The mark of a pull request has a class of its own for each state, and tells the summary with
/// the address below it where it is known; without a pull request it has none.
pub proof fn law_marks_of_pull_requests(state: WorkspacePrStateView)
    ensures
        state is Loading ==> indicator_of(state) == (IndicatorView {
            class: None,
            tooltip: "Loading pull request status..."@,
        }),
        state is Absent ==> indicator_of(state) == (IndicatorView {
            class: None,
            tooltip: "No pull request"@,
        }),
        state matches WorkspacePrStateView::Ready(status) ==> {
            let mark = indicator_of(state);
            &&& status.url matches Some(url) ==> mark.tooltip == status.summary + seq!['\n'] + url
            &&& status.url is None ==> mark.tooltip == status.summary
            &&& status.state == PullRequestStatusState::Success ==> mark.class == Some(
                "workspace-pr-success"@,
            )
            &&& status.state == PullRequestStatusState::Pending ==> mark.class == Some(
                "workspace-pr-pending"@,
            )
            &&& status.state == PullRequestStatusState::Failure ==> mark.class == Some(
                "workspace-pr-failure"@,
            )
            &&& status.state == PullRequestStatusState::Merged ==> mark.class == Some(
                "workspace-pr-merged"@,
            )
        },
{
    reveal_strlit("\n");
    assert("\n"@ =~= seq!['\n']);
}

/// The row of a workspace has an entry with its name while it is edited, and else a line with
/// its name and the number of its sessions; one of the two, never both.
pub proof fn law_workspace_rows(
    workspace: WorkspaceEntryView,
    is_editing: bool,
    is_selected: bool,
    state: WorkspacePrStateView,
)
    ensures
        ({
            let row = workspace_row(workspace, is_editing, is_selected, state);
            &&& row.workspace == workspace
            &&& row.selected == is_selected
            &&& row.indicator == indicator_of(state)
            &&& is_editing ==> row.entry == Some(workspace.name) && row.meta is None
            &&& !is_editing ==> row.entry is None && row.meta == Some(
                workspace.name + "  \u{2022}  "@ + text::decimal(workspace.sessions.len())
                    + " sessions"@,
            )
        }),
{
}

/// The side bar has a row for each repository in their order, and behind it, unless it is
/// collapsed, a row for each of its workspaces in theirs.
pub proof fn law_rows_follow_the_groups(
    groups: Seq<WorkspaceGroupView>,
    group: WorkspaceGroupView,
)
    ensures
        sidebar_items(seq![]) == Seq::<SidebarItemView>::empty(),
        sidebar_items(groups + seq![group]) == sidebar_items(groups) + seq![
            SidebarItemView::Repo(group),
        ] + if group.collapsed {
            Seq::<SidebarItemView>::empty()
        } else {
            group.workspaces.map_values(
                |w: WorkspaceEntryView| SidebarItemView::Workspace(w),
            )
        },
{
    let all = groups + seq![group];
    assert(all.drop_last() =~= groups);
    assert(workspace_items(group.workspaces) =~= group.workspaces.map_values(
        |w: WorkspaceEntryView| SidebarItemView::Workspace(w),
    ));
}

/// A row shows what is known of its own repository or workspace: a repository whether it is
/// being synced, a workspace whether it is edited and, by its path, whether it is the one that
/// is shown.
pub proof fn law_rows_show_their_own(
    s: AppStateView,
    group: WorkspaceGroupView,
    workspace: WorkspaceEntryView,
    shown: Option<WorkspaceEntryView>,
)
    ensures
        ({
            let r = workspace.repo_canonical + ":"@ + workspace.name;
            &&& row_of(s, SidebarItemView::Repo(group), shown) == SidebarRowView::Repo(
                repo_row(
                    group.repo_label,
                    group.repo_canonical,
                    group.repo_status,
                    s.syncing_repositories.contains(group.repo_canonical),
                    group.collapsed,
                ),
            )
            &&& row_of(s, SidebarItemView::Workspace(workspace), shown) matches
                SidebarRowView::Workspace(row)
            &&& row.workspace == workspace
            &&& row.entry is Some <==> s.editing_workspace == Some(r)
            &&& row.selected <==> (shown is Some && shown->0.path == workspace.path)
            &&& row.indicator == indicator_of(lookups::shown_state(s, r))
        }),
{
}

/// The side bar without a repository has the form, which cannot be closed, and a hint; with one
/// it has a button that opens the form, and the form while it is open.
pub proof fn law_side_bar_around_the_rows(
    s: AppStateView,
    shown: Option<WorkspaceEntryView>,
    now: u64,
    heads: Map<Seq<char>, Seq<char>>,
)
    ensures
        ({
            let bar = sidebar_of(s, shown, now, heads);
            let empty = s.workspace_groups.len() == 0;
            let form = s.repository_form;
            &&& bar.add_button == !empty
            &&& bar.form is Some <==> empty || form.expanded
            &&& bar.form matches Some(model) ==> model == (FormModelView {
                repository: form.repository,
                alias: form.alias,
                error: form.error,
                cancel: !empty,
            })
            &&& empty ==> bar.hint == Some("Add a repository to start creating workspaces."@)
            &&& !empty ==> bar.hint is None
            &&& bar.rows.len() == sidebar_items(s.workspace_groups).len()
        }),
{
}

/// Drawing rows changes nothing but what is known of pull requests: it asks for the lookup of a
/// workspace whose row is drawn where it is due then, and for no other.
pub proof fn law_drawing_rows_asks_for_lookups(
    s: AppStateView,
    items: Seq<SidebarItemView>,
    now: u64,
    heads: Map<Seq<char>, Seq<char>>,
    workspace: WorkspaceEntryView,
    group: WorkspaceGroupView,
)
    ensures
        ({
            let before = after_rows(s, items, now, heads);
            let r = workspace.repo_canonical + ":"@ + workspace.name;
            let head = if heads.contains_key(workspace.path) {
                Some(heads[workspace.path])
            } else {
                None
            };
            let drawn = items + seq![SidebarItemView::Workspace(workspace)];
            &&& after_rows(s, seq![], now, heads) == s
            &&& rows_start(s, seq![], now, heads) == Seq::<WorkspaceEntryView>::empty()
            &&& after_rows(s, items + seq![SidebarItemView::Repo(group)], now, heads) == before
            &&& rows_start(s, items + seq![SidebarItemView::Repo(group)], now, heads)
                == rows_start(s, items, now, heads)
            &&& after_rows(s, drawn, now, heads) == lookups::after_showing(before, r, now, head)
            &&& rows_start(s, drawn, now, heads) == rows_start(s, items, now, heads) + (
            if lookups::is_due(before, r, now, head) && !before.pending_pr_lookups.contains(r) {
                seq![workspace]
            } else {
                Seq::<WorkspaceEntryView>::empty()
            })
        }),
{
    let drawn = items + seq![SidebarItemView::Workspace(workspace)];
    let titled = items + seq![SidebarItemView::Repo(group)];
    assert(drawn.drop_last() =~= items);
    assert(titled.drop_last() =~= items);
    let earlier = rows_start(s, items, now, heads);
    assert(earlier.push(workspace) =~= earlier + seq![workspace]);
    assert(earlier + Seq::<WorkspaceEntryView>::empty() =~= earlier);
}

} // verus!
