//! The panel of the selected workspace: a terminal and a tab for each of its
//! sessions.

use crate::forges::github::{PullRequestStatus, PullRequestStatusView};
use crate::repos;
use crate::seqs;
use crate::table::TextSet;
use crate::text;
use crate::ui::actions;
use crate::ui::app;
use crate::ui::app::{AppState, AppStateView, WorkspacePrState, WorkspacePrStateView};
use crate::ui::data::{SessionEntry, SessionEntryView, WorkspaceEntry, WorkspaceEntryView};
use crate::ui::lookups;
use vstd::prelude::*;

verus! {

/// The link to a pull request.
#[derive(Debug)]
pub struct LinkModel {
    pub label: String,
    pub url: String,
}

/// What a `LinkModel` holds.
#[verifier::ext_equal]
pub struct LinkModelView {
    pub label: Seq<char>,
    pub url: Seq<char>,
}

impl View for LinkModel {
    type V = LinkModelView;

    open spec fn view(&self) -> LinkModelView {
        LinkModelView {
            label: self.label@,
            url: self.url@,
        }
    }
}

impl DeepView for LinkModel {
    type V = LinkModelView;

    open spec fn deep_view(&self) -> LinkModelView {
        self@
    }
}

impl Clone for LinkModel {
    fn clone(&self) -> (r: Self)
        ensures
            r@ == self@,
    {
        LinkModel {
            label: self.label.clone(),
            url: self.url.clone(),
        }
    }
}

/// The tab of a session.
#[derive(Debug)]
pub struct TabModel {
    pub id: String,
    pub program: String,
    pub active: bool,
}

/// What a `TabModel` holds.
#[verifier::ext_equal]
pub struct TabModelView {
    pub id: Seq<char>,
    pub program: Seq<char>,
    pub active: bool,
}

impl View for TabModel {
    type V = TabModelView;

    open spec fn view(&self) -> TabModelView {
        TabModelView {
            id: self.id@,
            program: self.program@,
            active: self.active,
        }
    }
}

impl DeepView for TabModel {
    type V = TabModelView;

    open spec fn deep_view(&self) -> TabModelView {
        self@
    }
}

impl Clone for TabModel {
    fn clone(&self) -> (r: Self)
        ensures
            r@ == self@,
    {
        TabModel {
            id: self.id.clone(),
            program: self.program.clone(),
            active: self.active,
        }
    }
}

/// The program of a session.
#[derive(Debug)]
pub struct SessionLabel {
    pub id: String,
    pub program: String,
}

/// What a `SessionLabel` holds.
#[verifier::ext_equal]
pub struct SessionLabelView {
    pub id: Seq<char>,
    pub program: Seq<char>,
}

impl View for SessionLabel {
    type V = SessionLabelView;

    open spec fn view(&self) -> SessionLabelView {
        SessionLabelView {
            id: self.id@,
            program: self.program@,
        }
    }
}

impl DeepView for SessionLabel {
    type V = SessionLabelView;

    open spec fn deep_view(&self) -> SessionLabelView {
        self@
    }
}

impl Clone for SessionLabel {
    fn clone(&self) -> (r: Self)
        ensures
            r@ == self@,
    {
        SessionLabel {
            id: self.id.clone(),
            program: self.program.clone(),
        }
    }
}

/// How the panel is drawn: the terminals that are there stay, and another one may be
/// shown; or a workspace without sessions gets a placeholder; or all terminals and
/// tabs are put in anew.
#[derive(Debug)]
pub enum PanelModel {
    InPlace { link: Option<LinkModel>, show: Option<String> },
    Empty { link: Option<LinkModel>, placeholder: SessionEntry },
    Rebuilt { link: Option<LinkModel>, tabs: Vec<TabModel>, selected: String },
}

/// What a `PanelModel` holds.
#[verifier::ext_equal]
pub enum PanelModelView {
    InPlace { link: Option<LinkModelView>, show: Option<Seq<char>> },
    Empty { link: Option<LinkModelView>, placeholder: SessionEntryView },
    Rebuilt { link: Option<LinkModelView>, tabs: Seq<TabModelView>, selected: Seq<char> },
}

impl View for PanelModel {
    type V = PanelModelView;

    open spec fn view(&self) -> PanelModelView {
        match self {
            PanelModel::InPlace { link, show } => PanelModelView::InPlace {
                link: link.deep_view(),
                show: show.deep_view(),
            },
            PanelModel::Empty { link, placeholder } => PanelModelView::Empty {
                link: link.deep_view(),
                placeholder: placeholder@,
            },
            PanelModel::Rebuilt { link, tabs, selected } => PanelModelView::Rebuilt {
                link: link.deep_view(),
                tabs: tabs.deep_view(),
                selected: selected@,
            },
        }
    }
}

impl DeepView for PanelModel {
    type V = PanelModelView;

    open spec fn deep_view(&self) -> PanelModelView {
        self@
    }
}

impl Clone for PanelModel {
    fn clone(&self) -> (r: Self)
        ensures
            r@ == self@,
    {
        match self {
            PanelModel::InPlace { link, show } => PanelModel::InPlace {
                link: link.clone(),
                show: show.clone(),
            },
            PanelModel::Empty { link, placeholder } => PanelModel::Empty {
                link: link.clone(),
                placeholder: placeholder.clone(),
            },
            PanelModel::Rebuilt { link, tabs, selected } => PanelModel::Rebuilt {
                link: link.clone(),
                tabs: tabs.clone(),
                selected: selected.clone(),
            },
        }
    }
}

/// The link to a pull request, where its address is known.
pub open spec fn link_of(status: PullRequestStatusView) -> Option<LinkModelView> {
    match status.url {
        Some(url) => Some(
            LinkModelView { label: "PR #"@ + text::decimal(status.number as nat), url },
        ),
        None => None,
    }
}

/// The link to a pull request.
pub fn build_workspace_pr_link(status: &PullRequestStatus) -> (r: Option<LinkModel>)
    ensures
        r.deep_view() == link_of(status@),
{
    match &status.url {
        Some(url) => {
            let mut label = "PR #".to_owned();
            label.append(text::decimal_text(status.number).as_str());
            Some(LinkModel { label, url: url.clone() })
        },
        None => None,
    }
}

/// The link that is shown for what is known of a pull request.
pub open spec fn shown_link(state: WorkspacePrStateView) -> Option<LinkModelView> {
    match state {
        WorkspacePrStateView::Ready(status) => link_of(status),
        _ => None,
    }
}

fn build_link(state: &WorkspacePrState) -> (r: Option<LinkModel>)
    ensures
        r.deep_view() == shown_link(state@),
{
    match state {
        WorkspacePrState::Ready(status) => build_workspace_pr_link(status),
        WorkspacePrState::Loading => None,
        WorkspacePrState::Absent => None,
    }
}

/// What stands for a session where there is none.
pub open spec fn no_session() -> SessionEntryView {
    SessionEntryView {
        id: "No sessions"@,
        pid: None,
        program: "No sessions"@,
        status: "idle"@,
        log_path: seq![],
        socket_path: seq![],
    }
}

/// Whether the terminals that are there are those of the sessions.
pub open spec fn in_place(sessions: Seq<SessionEntryView>, names: Seq<Seq<char>>) -> bool {
    &&& sessions.len() > 0
    &&& names.len() == sessions.len()
    &&& forall|i: int| 0 <= i < sessions.len() ==> names.contains((#[trigger] sessions[i]).id)
}

/// Whether one of the sessions has an id.
pub open spec fn holds(sessions: Seq<SessionEntryView>, id: Seq<char>) -> bool {
    seqs::any(sessions, actions::has_id(id))
}

fn has_session(sessions: &Vec<SessionEntry>, id: &str) -> (r: bool)
    ensures
        r == holds(sessions.deep_view(), id@),
{
    let ghost all = sessions.deep_view();
    let ghost p = actions::has_id(id@);
    let mut i: usize = 0;
    while i < sessions.len()
        invariant
            i <= sessions.len(),
            all == sessions.deep_view(),
            p == actions::has_id(id@),
            forall|j: int| 0 <= j < i ==> !p(#[trigger] all[j]),
        decreases sessions.len() - i,
    {
        proof {
            assert(all[i as int] == sessions@[i as int]@);
        }
        if text::same(sessions[i].id.as_str(), id) {
            proof {
                assert(p(all[i as int]));
            }
            return true;
        }
        i += 1;
    }
    false
}

/// Tells whether the terminals that are there are those of the sessions.
pub fn can_refresh_in_place(sessions: &Vec<SessionEntry>, names: &Vec<String>) -> (r: bool)
    ensures
        r == in_place(sessions.deep_view(), names.deep_view()),
{
    let ghost all = sessions.deep_view();
    if sessions.len() == 0 || names.len() != sessions.len() {
        return false;
    }
    let mut i: usize = 0;
    while i < sessions.len()
        invariant
            i <= sessions.len(),
            all == sessions.deep_view(),
            forall|j: int| 0 <= j < i ==> names.deep_view().contains((#[trigger] all[j]).id),
        decreases sessions.len() - i,
    {
        proof {
            assert(all[i as int] == sessions@[i as int]@);
        }
        if !repos::has_column(names, sessions[i].id.as_str()) {
            return false;
        }
        i += 1;
    }
    true
}

/// The session that is shown: the one asked for or selected before, if it is there,
/// else the first.
pub open spec fn shown_session(
    s: AppStateView,
    workspace: WorkspaceEntryView,
    preferred: Option<Seq<char>>,
) -> Seq<char> {
    match app::preferred_session(s, app::ref_of(workspace), preferred) {
        Some(id) => if holds(workspace.sessions, id) {
            id
        } else {
            workspace.sessions[0].id
        },
        None => workspace.sessions[0].id,
    }
}

/// The tabs of the sessions.
pub open spec fn tabs_of(sessions: Seq<SessionEntryView>, selected: Seq<char>) -> Seq<
    TabModelView,
> {
    Seq::new(
        sessions.len(),
        |i: int|
            TabModelView {
                id: sessions[i].id,
                program: sessions[i].program,
                active: sessions[i].id == selected,
            },
    )
}

fn build_tabs(sessions: &Vec<SessionEntry>, selected: &str) -> (r: Vec<TabModel>)
    ensures
        r.deep_view() == tabs_of(sessions.deep_view(), selected@),
{
    let ghost goal = tabs_of(sessions.deep_view(), selected@);
    let mut out: Vec<TabModel> = Vec::new();
    let mut i: usize = 0;
    proof {
        assert(out.deep_view() =~= goal.take(0));
    }
    while i < sessions.len()
        invariant
            i <= sessions.len(),
            goal == tabs_of(sessions.deep_view(), selected@),
            out.deep_view() == goal.take(i as int),
        decreases sessions.len() - i,
    {
        let ghost before = out.deep_view();
        let session = &sessions[i];
        out.push(
            TabModel {
                id: session.id.clone(),
                program: session.program.clone(),
                active: text::same(session.id.as_str(), selected),
            },
        );
        proof {
            assert(sessions.deep_view()[i as int] == sessions@[i as int]@);
            assert(out.deep_view() =~= before.push(goal[i as int]));
            assert(out.deep_view() =~= goal.take(i + 1));
        }
        i += 1;
    }
    proof {
        assert(goal.take(i as int) =~= goal);
    }
    out
}

/// How the panel is drawn, from what is known once the pull request was shown.
pub open spec fn panel_of(
    s: AppStateView,
    link: Option<LinkModelView>,
    workspace: WorkspaceEntryView,
    preferred: Option<Seq<char>>,
    names: Seq<Seq<char>>,
    visible: Option<Seq<char>>,
) -> PanelModelView {
    if in_place(workspace.sessions, names) {
        PanelModelView::InPlace {
            link,
            show: match preferred {
                Some(id) => if holds(workspace.sessions, id) && visible != preferred {
                    preferred
                } else {
                    None
                },
                None => None,
            },
        }
    } else if workspace.sessions.len() == 0 {
        PanelModelView::Empty { link, placeholder: no_session() }
    } else {
        let selected = shown_session(s, workspace, preferred);
        PanelModelView::Rebuilt { link, tabs: tabs_of(workspace.sessions, selected), selected }
    }
}

/// What the window knows once the panel is drawn: which session is selected.
pub open spec fn after_panel(
    s: AppStateView,
    workspace: WorkspaceEntryView,
    preferred: Option<Seq<char>>,
    names: Seq<Seq<char>>,
) -> AppStateView {
    let r = app::ref_of(workspace);
    if in_place(workspace.sessions, names) {
        match preferred {
            Some(id) => if holds(workspace.sessions, id) {
                app::remembering(s, r, preferred)
            } else {
                s
            },
            None => s,
        }
    } else if workspace.sessions.len() == 0 {
        s
    } else {
        app::remembering(s, r, Some(shown_session(s, workspace, preferred)))
    }
}

impl AppState {
    /// Draws the panel of a workspace over the terminals that are there, of which one
    /// can be seen. Returns how, and whether a lookup of its pull request starts.
    pub fn render_workspace(
        &mut self,
        workspace: &WorkspaceEntry,
        preferred: Option<String>,
        names: &Vec<String>,
        visible: Option<String>,
        now: u64,
        head: Option<&String>,
    ) -> (r: (PanelModel, bool))
        ensures
            ({
                let id = app::ref_of(workspace@);
                let commit = match head {
                    Some(h) => Some(h@),
                    None => None,
                };
                let s = lookups::after_showing(old(self)@, id, now, commit);
                &&& r.0@ == panel_of(
                    s,
                    shown_link(lookups::shown_state(old(self)@, id)),
                    workspace@,
                    preferred.deep_view(),
                    names.deep_view(),
                    visible.deep_view(),
                )
                &&& r.1 == lookups::showing_starts(old(self)@, id, now, commit)
                &&& final(self)@ == after_panel(
                    s,
                    workspace@,
                    preferred.deep_view(),
                    names.deep_view(),
                )
            }),
    {
        let id = app::workspace_ref(workspace);
        let snapshot = self.workspace_pr_snapshot(workspace, now, head);
        let link = build_link(&snapshot.state);
        if can_refresh_in_place(&workspace.sessions, names) {
            let mut show: Option<String> = None;
            if let Some(requested) = &preferred {
                if has_session(&workspace.sessions, requested.as_str()) {
                    self.remember_selected_session(id.as_str(), Some(requested.clone()));
                    let seen: bool = match &visible {
                        Some(name) => text::same(name.as_str(), requested.as_str()),
                        None => false,
                    };
                    if !seen {
                        show = Some(requested.clone());
                    }
                }
            }
            return (PanelModel::InPlace { link, show }, snapshot.starts);
        }
        if workspace.sessions.len() == 0 {
            let placeholder = SessionEntry {
                id: "No sessions".to_owned(),
                pid: None,
                program: "No sessions".to_owned(),
                status: "idle".to_owned(),
                log_path: String::new(),
                socket_path: String::new(),
            };
            proof {
                assert(placeholder@ =~= no_session());
            }
            return (PanelModel::Empty { link, placeholder }, snapshot.starts);
        }
        proof {
            assert(workspace@.sessions[0] == workspace.sessions@[0]@);
        }
        let selected: String = match self.preferred_session_for_workspace(id.as_str(), preferred) {
            Some(wanted) => if has_session(&workspace.sessions, wanted.as_str()) {
                wanted
            } else {
                workspace.sessions[0].id.clone()
            },
            None => workspace.sessions[0].id.clone(),
        };
        self.remember_selected_session(id.as_str(), Some(selected.clone()));
        let tabs = build_tabs(&workspace.sessions, selected.as_str());
        (PanelModel::Rebuilt { link, tabs, selected }, snapshot.starts)
    }
}

/// The program that a tab shows: the one in the foreground of the session's terminal,
/// else the one that was shown at first.
pub fn tab_program(foreground: Option<String>, fallback: &str) -> (r: String)
    ensures
        r@ == (match foreground.deep_view() {
            Some(program) => program,
            None => fallback@,
        }),
{
    match foreground {
        Some(program) => program,
        None => fallback.to_owned(),
    }
}

/// Whether a label is that of a session.
pub open spec fn labels(id: Seq<char>) -> spec_fn(SessionLabelView) -> bool {
    |label: SessionLabelView| label.id == id
}

/// The label that a tab gets: the first one of its session, unless the tab has it
/// already.
pub open spec fn new_label(
    programs: Seq<SessionLabelView>,
    id: Seq<char>,
    current: Option<Seq<char>>,
) -> Option<Seq<char>> {
    match seqs::first(programs, labels(id)) {
        Some(label) => if current == Some(label.program) {
            None
        } else {
            Some(label.program)
        },
        None => None,
    }
}

/// The label that the tab of a session gets, if it changes.
pub fn sync_session_tab_label(
    programs: &Vec<SessionLabel>,
    id: &str,
    current: Option<String>,
) -> (r: Option<String>)
    ensures
        r.deep_view() == new_label(programs.deep_view(), id@, current.deep_view()),
{
    let ghost all = programs.deep_view();
    let ghost p = labels(id@);
    let mut i: usize = 0;
    while i < programs.len()
        invariant
            i <= programs.len(),
            all == programs.deep_view(),
            p == labels(id@),
            forall|j: int| 0 <= j < i ==> !p(#[trigger] all[j]),
        decreases programs.len() - i,
    {
        proof {
            assert(all[i as int] == programs@[i as int]@);
        }
        if text::same(programs[i].id.as_str(), id) {
            proof {
                seqs::lemma_first_index_is(all, p, i as int);
            }
            let same: bool = match &current {
                Some(label) => text::same(label.as_str(), programs[i].program.as_str()),
                None => false,
            };
            if same {
                return None;
            }
            return Some(programs[i].program.clone());
        }
        i += 1;
    }
    proof {
        seqs::lemma_first_index_is(all, p, i as int);
    }
    None
}

/// The ids of sessions, in their order.
pub open spec fn ids_of(sessions: Seq<SessionEntryView>) -> Seq<Seq<char>> {
    Seq::new(sessions.len(), |i: int| sessions[i].id)
}

/// Which of the sessions that are shown get a new terminal: those that have none yet,
/// from before or from further ahead.
pub open spec fn makes(known: Set<Seq<char>>, ids: Seq<Seq<char>>) -> Seq<bool> {
    Seq::new(ids.len(), |i: int| !known.contains(ids[i]) && !ids.take(i).contains(ids[i]))
}

/// The sessions that have a terminal.
#[derive(Debug)]
pub struct Terminals {
    pub known: TextSet,
}

impl View for Terminals {
    type V = Set<Seq<char>>;

    open spec fn view(&self) -> Set<Seq<char>> {
        self.known@
    }
}

impl Terminals {
    /// No session has a terminal at first.
    pub fn new() -> (r: Self)
        ensures
            r@ == Set::<Seq<char>>::empty(),
    {
        Terminals { known: TextSet::new() }
    }

    /// Shows sessions, and tells of each whether its terminal is made or is there.
    pub fn show(&mut self, sessions: &Vec<SessionEntry>) -> (r: Vec<bool>)
        ensures
            r@ == makes(old(self)@, ids_of(sessions.deep_view())),
            final(self)@ == old(self)@.union(ids_of(sessions.deep_view()).to_set()),
    {
        let ghost before = self@;
        let ghost ids = ids_of(sessions.deep_view());
        let mut out: Vec<bool> = Vec::new();
        let mut i: usize = 0;
        proof {
            assert(ids.take(0).to_set() =~= Set::<Seq<char>>::empty());
            assert(self@ =~= before.union(ids.take(0).to_set()));
            assert(out@ =~= makes(before, ids).take(0));
        }
        while i < sessions.len()
            invariant
                i <= sessions.len(),
                ids == ids_of(sessions.deep_view()),
                self@ == before.union(ids.take(i as int).to_set()),
                out@ == makes(before, ids).take(i as int),
            decreases sessions.len() - i,
        {
            let ghost seen = ids.take(i as int);
            proof {
                assert(sessions.deep_view()[i as int] == sessions@[i as int]@);
            }
            let made: bool = self.known.insert(sessions[i].id.as_str());
            out.push(made);
            i += 1;
            proof {
                let id = ids[i - 1];
                assert(ids.take(i as int) =~= seen.push(id));
                assert forall|x: Seq<char>| #[trigger] seen.push(id).contains(x) <==> seen.contains(
                    x,
                ) || x == id by {
                    if seen.contains(x) {
                        let j = choose|j: int| 0 <= j < seen.len() && seen[j] == x;
                        assert(seen.push(id)[j] == x);
                    }
                    assert(seen.push(id)[seen.len() as int] == id);
                }
                assert(self@ =~= before.union(ids.take(i as int).to_set()));
                assert(made == makes(before, ids)[i - 1]);
                assert(out@ =~= makes(before, ids).take(i as int));
            }
        }
        proof {
            assert(ids.take(i as int) =~= ids);
            assert(makes(before, ids).take(i as int) =~= makes(before, ids));
        }
        out
    }

    /// Lets go of the terminal of a session that is closed.
    pub fn close(&mut self, id: &str)
        ensures
            final(self)@ == old(self)@.remove(id@),
    {
        self.known.remove(id);
    }
}

/// What happens to terminals: sessions are shown, or one is closed.
pub enum TerminalEvent {
    Shown(Seq<Seq<char>>),
    Closed(Seq<char>),
}

/// The sessions that have a terminal once an event has happened.
pub open spec fn known_after(known: Set<Seq<char>>, event: TerminalEvent) -> Set<Seq<char>> {
    match event {
        TerminalEvent::Shown(ids) => known.union(ids.to_set()),
        TerminalEvent::Closed(id) => known.remove(id),
    }
}

/// The sessions that have a terminal once events have happened.
pub open spec fn known_in(known: Set<Seq<char>>, events: Seq<TerminalEvent>) -> Set<Seq<char>>
    decreases events.len(),
{
    if events.len() == 0 {
        known
    } else {
        known_after(known_in(known, events.drop_last()), events.last())
    }
}

/// Whether a terminal is made for a session where some are shown.
pub open spec fn made_for(known: Set<Seq<char>>, ids: Seq<Seq<char>>, id: Seq<char>) -> bool {
    exists|i: int| 0 <= i < ids.len() && #[trigger] ids[i] == id && makes(known, ids)[i]
}

/// Whether an event makes a terminal for a session.
pub open spec fn makes_for(known: Set<Seq<char>>, event: TerminalEvent, id: Seq<char>) -> bool {
    match event {
        TerminalEvent::Shown(ids) => made_for(known, ids, id),
        TerminalEvent::Closed(_) => false,
    }
}

/// A session that is shown has a terminal from there on, and it is made once, where it
/// had none.
pub proof fn law_shown_session_gets_one_terminal(known: Set<Seq<char>>, ids: Seq<Seq<char>>)
    ensures
        forall|i: int, j: int|
            0 <= i < ids.len() && 0 <= j < ids.len() && ids[i] == ids[j] && #[trigger] makes(
                known,
                ids,
            )[i] && #[trigger] makes(known, ids)[j] ==> i == j,
        forall|id: Seq<char>|
            ids.contains(id) ==> (made_for(known, ids, id) <==> !known.contains(id)),
        forall|id: Seq<char>|
            ids.contains(id) ==> #[trigger] known_after(known, TerminalEvent::Shown(ids)).contains(
                id,
            ),
{
    assert forall|i: int, j: int|
        0 <= i < ids.len() && 0 <= j < ids.len() && ids[i] == ids[j] && #[trigger] makes(
            known,
            ids,
        )[i] && #[trigger] makes(known, ids)[j] implies i == j by {
        if i < j {
            assert(ids.take(j)[i] == ids[j]);
        }
        if j < i {
            assert(ids.take(i)[j] == ids[i]);
        }
    }
    assert forall|id: Seq<char>| ids.contains(id) implies (made_for(known, ids, id)
        <==> !known.contains(id)) by {
        let at = choose|k: int| 0 <= k < ids.len() && ids[k] == id;
        lemma_first_place(ids, id, at);
        let i = choose|i: int|
            0 <= i <= at && ids[i] == id && !(#[trigger] ids.take(i)).contains(id);
        if !known.contains(id) {
            assert(makes(known, ids)[i]);
        }
    }
}

proof fn lemma_first_place(ids: Seq<Seq<char>>, id: Seq<char>, at: int)
    requires
        0 <= at < ids.len(),
        ids[at] == id,
    ensures
        exists|i: int| 0 <= i <= at && ids[i] == id && !(#[trigger] ids.take(i)).contains(id),
    decreases at,
{
    if ids.take(at).contains(id) {
        let j = choose|j: int| 0 <= j < at && ids.take(at)[j] == id;
        assert(ids[j] == id);
        lemma_first_place(ids, id, j);
    } else {
        assert(!ids.take(at).contains(id));
    }
}

/// A session that has a terminal keeps it through everything that is shown, until it
/// is closed: no other one is made for it.
pub proof fn law_terminal_lasts_until_it_is_closed(
    known: Set<Seq<char>>,
    events: Seq<TerminalEvent>,
    id: Seq<char>,
)
    requires
        known.contains(id),
        forall|k: int| 0 <= k < events.len() ==> #[trigger] events[k] != TerminalEvent::Closed(id),
    ensures
        known_in(known, events).contains(id),
        forall|k: int|
            0 <= k < events.len() ==> !makes_for(
                known_in(known, events.take(k)),
                #[trigger] events[k],
                id,
            ),
    decreases events.len(),
{
    if events.len() > 0 {
        let n = events.len() - 1;
        let front = events.drop_last();
        assert forall|k: int| 0 <= k < front.len() implies #[trigger] front[k]
            != TerminalEvent::Closed(id) by {
            assert(front[k] == events[k]);
        }
        law_terminal_lasts_until_it_is_closed(known, front, id);
        assert(events[n] != TerminalEvent::Closed(id));
        assert(events.take(n) =~= front);
        assert forall|k: int| 0 <= k < events.len() implies !makes_for(
            known_in(known, events.take(k)),
            #[trigger] events[k],
            id,
        ) by {
            if k < n {
                assert(front[k] == events[k]);
                assert(front.take(k) =~= events.take(k));
            }
        }
    }
}

/// Drawing a workspace again whose terminals are there leaves them where they are, so
/// that the one that has the focus keeps it. Which session can be seen and is
/// remembered changes only where one of its sessions is asked for, and then to that one.
pub proof fn law_terminals_stay_where_they_are(
    s: AppStateView,
    link: Option<LinkModelView>,
    workspace: WorkspaceEntryView,
    preferred: Option<Seq<char>>,
    names: Seq<Seq<char>>,
    visible: Option<Seq<char>>,
)
    requires
        workspace.sessions.len() > 0,
        names.len() == workspace.sessions.len(),
        forall|i: int|
            0 <= i < workspace.sessions.len() ==> names.contains(
                (#[trigger] workspace.sessions[i]).id,
            ),
    ensures
        ({
            let asked = preferred matches Some(id) && holds(workspace.sessions, id);
            &&& panel_of(s, link, workspace, preferred, names, visible) == (
            PanelModelView::InPlace {
                link,
                show: if asked && visible != preferred {
                    preferred
                } else {
                    None
                },
            })
            &&& after_panel(s, workspace, preferred, names) == (if asked {
                app::remembering(s, app::ref_of(workspace), preferred)
            } else {
                s
            })
        }),
{
}

/// The session that a panel shows is one of the workspace's, and its tab is active.
pub proof fn law_shown_session_is_there(
    s: AppStateView,
    workspace: WorkspaceEntryView,
    preferred: Option<Seq<char>>,
)
    requires
        workspace.sessions.len() > 0,
    ensures
        holds(workspace.sessions, shown_session(s, workspace, preferred)),
        exists|i: int|
            0 <= i < workspace.sessions.len() && (#[trigger] tabs_of(
                workspace.sessions,
                shown_session(s, workspace, preferred),
            )[i]).active,
{
    let selected = shown_session(s, workspace, preferred);
    let p = actions::has_id(selected);
    assert(p(workspace.sessions[0]) || holds(workspace.sessions, selected));
    let i = choose|i: int| 0 <= i < workspace.sessions.len() && p(#[trigger] workspace.sessions[i]);
    assert(tabs_of(workspace.sessions, selected)[i].active);
}

/// A pull request whose address is known has a link with its number; one that is not known, or
/// has no address, has none.
pub proof fn law_links_to_pull_requests(state: WorkspacePrStateView)
    ensures
        state matches WorkspacePrStateView::Ready(status) ==> (match status.url {
            Some(url) => shown_link(state) == Some(
                (LinkModelView { label: "PR #"@ + text::decimal(status.number as nat), url }),
            ),
            None => shown_link(state) is None,
        }),
        !(state is Ready) ==> shown_link(state) is None,
{
}

/// A workspace without sessions shows a placeholder; with sessions, each has a tab with its
/// program, in their order, and exactly the tabs of the session that is shown are active. That
/// is the one asked for where it is there, else the one that was selected last where it is
/// there, else the first.
pub proof fn law_panel_written_out(
    s: AppStateView,
    link: Option<LinkModelView>,
    workspace: WorkspaceEntryView,
    preferred: Option<Seq<char>>,
    names: Seq<Seq<char>>,
    visible: Option<Seq<char>>,
)
    requires
        names.len() != workspace.sessions.len(),
    ensures
        ({
            let panel = panel_of(s, link, workspace, preferred, names, visible);
            let r = workspace.repo_canonical + ":"@ + workspace.name;
            let sessions = workspace.sessions;
            let there = |id: Seq<char>| exists|i: int|
                0 <= i < sessions.len() && (#[trigger] sessions[i]).id == id;
            let wanted = if preferred is Some {
                preferred
            } else if s.selected_sessions.contains_key(r) {
                Some(s.selected_sessions[r])
            } else {
                None
            };
            &&& sessions.len() == 0 ==> panel == (PanelModelView::Empty {
                link,
                placeholder: SessionEntryView {
                    id: "No sessions"@,
                    pid: None,
                    program: "No sessions"@,
                    status: "idle"@,
                    log_path: seq![],
                    socket_path: seq![],
                },
            }) && after_panel(s, workspace, preferred, names) == s
            &&& sessions.len() > 0 ==> {
                &&& panel matches PanelModelView::Rebuilt { link: shown, tabs, selected }
                &&& shown == link
                &&& tabs.len() == sessions.len()
                &&& forall|i: int|
                    0 <= i < tabs.len() ==> (#[trigger] tabs[i]).id == sessions[i].id
                        && tabs[i].program == sessions[i].program && (tabs[i].active
                        <==> sessions[i].id == selected)
                &&& wanted is Some && there(wanted->0) ==> selected == wanted->0
                &&& !(wanted is Some && there(wanted->0)) ==> selected == sessions[0].id
                &&& after_panel(s, workspace, preferred, names).selected_session == Some(selected)
            }
        }),
{
    let sessions = workspace.sessions;
    assert forall|id: Seq<char>| #[trigger]
        holds(sessions, id) == (exists|i: int|
            0 <= i < sessions.len() && (#[trigger] sessions[i]).id == id) by {
        if holds(sessions, id) {
            let i = choose|i: int| 0 <= i < sessions.len() && actions::has_id(id)(sessions[i]);
            assert(sessions[i].id == id);
        }
        if exists|i: int| 0 <= i < sessions.len() && (#[trigger] sessions[i]).id == id {
            let i = choose|i: int| 0 <= i < sessions.len() && (#[trigger] sessions[i]).id == id;
            assert(actions::has_id(id)(sessions[i]));
        }
    }
    assert(sessions.len() == 0 ==> no_session().log_path =~= seq![]);
}

/// The terminals stay where they are only where there are as many as sessions, of which there
/// are some, and every session has one.
pub proof fn law_when_terminals_stay(
    sessions: Seq<SessionEntryView>,
    names: Seq<Seq<char>>,
    k: int,
)
    requires
        0 <= k < sessions.len(),
    ensures
        !names.contains(sessions[k].id) ==> !in_place(sessions, names),
        names.len() != sessions.len() ==> !in_place(sessions, names),
        !in_place(seq![], names),
        names == sessions.map_values(|session: SessionEntryView| session.id) ==> in_place(
            sessions,
            names,
        ),
{
    if names == sessions.map_values(|session: SessionEntryView| session.id) {
        assert forall|i: int| 0 <= i < sessions.len() implies names.contains(
            (#[trigger] sessions[i]).id,
        ) by {
            assert(names[i] == sessions[i].id);
        }
    }
}

/// A tab gets the label of its session where that is another than it has, and keeps the one it
/// has where the session has none.
pub proof fn law_labels_of_tabs(
    front: Seq<SessionLabelView>,
    label: SessionLabelView,
    back: Seq<SessionLabelView>,
    current: Option<Seq<char>>,
)
    requires
        forall|i: int| 0 <= i < front.len() ==> (#[trigger] front[i]).id != label.id,
    ensures
        new_label(front + seq![label] + back, label.id, current) == (if current == Some(
            label.program,
        ) {
            None
        } else {
            Some(label.program)
        }),
        new_label(front, label.id, current) is None,
{
    let all = front + seq![label] + back;
    assert(all[front.len() as int] == label);
    assert forall|j: int| 0 <= j < front.len() implies !labels(label.id)(#[trigger] all[j]) by {
        assert(all[j] == front[j]);
    }
    seqs::lemma_first_index_is(all, labels(label.id), front.len() as int);
    seqs::lemma_first_index_is(front, labels(label.id), front.len() as int);
}

} // verus!
