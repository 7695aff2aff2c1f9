//! When the pull request of a workspace is looked up, and what is kept of the
//! answer.

use crate::forges::github::PullRequestStatusState;
use crate::table::TextMap;
use crate::text;
use crate::ui::app;
use crate::ui::app::{
    AppState, AppStateView, CachedPrStatus, CachedPrStatusView, WorkspacePrState,
    WorkspacePrStateView, WorkspacePrUpdate, WorkspacePrUpdateView,
};
use crate::ui::data::{WorkspaceEntry, WorkspaceEntryView};
use vstd::prelude::*;

verus! {

/// How many lookups the scheduler lets run at once.
pub const MAX_PENDING_PR_LOOKUPS: usize = 2;

/// How long what is known of the selected workspace holds, in nanoseconds.
pub const SELECTED_PR_STATUS_TTL: u64 = 5_000_000_000;

/// How long a pull request with pending checks is taken to have them.
pub const PENDING_PR_STATUS_TTL: u64 = 15_000_000_000;

/// How long a pull request with settled checks is taken to have them.
pub const SETTLED_PR_STATUS_TTL: u64 = 180_000_000_000;

/// How long a merged pull request is taken to be one.
pub const MERGED_PR_STATUS_TTL: u64 = 300_000_000_000;

/// How long a workspace is taken to have no pull request.
pub const NO_PR_STATUS_TTL: u64 = 300_000_000_000;

/// How long an answer is waited for.
pub const LOADING_PR_STATUS_TTL: u64 = 10_000_000_000;

/// How long what is known of a pull request holds.
pub open spec fn ttl(state: WorkspacePrStateView, selected: bool) -> u64 {
    if selected {
        SELECTED_PR_STATUS_TTL
    } else {
        match state {
            WorkspacePrStateView::Loading => LOADING_PR_STATUS_TTL,
            WorkspacePrStateView::Absent => NO_PR_STATUS_TTL,
            WorkspacePrStateView::Ready(status) => match status.state {
                PullRequestStatusState::Pending => PENDING_PR_STATUS_TTL,
                PullRequestStatusState::Success => SETTLED_PR_STATUS_TTL,
                PullRequestStatusState::Failure => SETTLED_PR_STATUS_TTL,
                PullRequestStatusState::Merged => MERGED_PR_STATUS_TTL,
            },
        }
    }
}

/// How long what is known of a pull request holds.
pub fn pr_status_ttl(state: &WorkspacePrState, is_selected: bool) -> (r: u64)
    ensures
        r == ttl(state@, is_selected),
{
    if is_selected {
        return SELECTED_PR_STATUS_TTL;
    }
    match state {
        WorkspacePrState::Loading => LOADING_PR_STATUS_TTL,
        WorkspacePrState::Absent => NO_PR_STATUS_TTL,
        WorkspacePrState::Ready(status) => match status.state {
            PullRequestStatusState::Pending => PENDING_PR_STATUS_TTL,
            PullRequestStatusState::Success => SETTLED_PR_STATUS_TTL,
            PullRequestStatusState::Failure => SETTLED_PR_STATUS_TTL,
            PullRequestStatusState::Merged => MERGED_PR_STATUS_TTL,
        },
    }
}

/// Whether what is known of a pull request no longer holds.
pub open spec fn outdated(entry: CachedPrStatusView, selected: bool, now: u64) -> bool {
    now - entry.fetched_at >= ttl(entry.state, selected)
}

/// Whether what is known is of another commit than the current one. Where that
/// cannot be told, it is not.
pub open spec fn head_moved(entry: CachedPrStatusView, head: Option<Seq<char>>) -> bool {
    head is Some && entry.head != head
}

/// Tells whether what is known is of another commit than the current one.
pub fn workspace_pr_head_changed(cached: &CachedPrStatus, head: Option<&String>) -> (r: bool)
    ensures
        r == head_moved(
            cached@,
            match head {
                Some(h) => Some(h@),
                None => None,
            },
        ),
{
    match head {
        None => false,
        Some(head) => match &cached.head {
            None => true,
            Some(known) => !text::same(known.as_str(), head.as_str()),
        },
    }
}

/// Whether a workspace is the selected one.
pub open spec fn selects(s: AppStateView, workspace_ref: Seq<char>) -> bool {
    s.selected_workspace == Some(workspace_ref)
}

/// Whether the pull request of a workspace is to be looked up: nothing is known of
/// it, or what is known no longer holds, or the selected workspace is at another
/// commit.
pub open spec fn is_due(
    s: AppStateView,
    workspace_ref: Seq<char>,
    now: u64,
    head: Option<Seq<char>>,
) -> bool {
    s.pr_statuses.contains_key(workspace_ref) ==> {
        let entry = s.pr_statuses[workspace_ref];
        ||| selects(s, workspace_ref) && head_moved(entry, head)
        ||| outdated(entry, selects(s, workspace_ref), now)
    }
}

/// What the window knows once a lookup was asked for. One that runs already is not
/// started again.
pub open spec fn requesting(
    s: AppStateView,
    workspace_ref: Seq<char>,
    mark_loading: bool,
    now: u64,
) -> AppStateView {
    if s.pending_pr_lookups.contains(workspace_ref) {
        s
    } else {
        AppStateView {
            pending_pr_lookups: s.pending_pr_lookups.insert(workspace_ref),
            pr_statuses: if mark_loading {
                s.pr_statuses.insert(
                    workspace_ref,
                    CachedPrStatusView {
                        state: WorkspacePrStateView::Loading,
                        fetched_at: now,
                        head: None,
                    },
                )
            } else {
                s.pr_statuses
            },
            ..s
        }
    }
}

/// What is shown of a workspace's pull request.
pub open spec fn shown_state(s: AppStateView, workspace_ref: Seq<char>) -> WorkspacePrStateView {
    if s.pr_statuses.contains_key(workspace_ref) {
        s.pr_statuses[workspace_ref].state
    } else {
        WorkspacePrStateView::Loading
    }
}

/// What the window knows once a workspace's pull request was shown.
pub open spec fn after_showing(
    s: AppStateView,
    workspace_ref: Seq<char>,
    now: u64,
    head: Option<Seq<char>>,
) -> AppStateView {
    if is_due(s, workspace_ref, now, head) {
        requesting(s, workspace_ref, !s.pr_statuses.contains_key(workspace_ref), now)
    } else {
        s
    }
}

/// Whether showing a workspace's pull request starts a lookup.
pub open spec fn showing_starts(
    s: AppStateView,
    workspace_ref: Seq<char>,
    now: u64,
    head: Option<Seq<char>>,
) -> bool {
    is_due(s, workspace_ref, now, head) && !s.pending_pr_lookups.contains(workspace_ref)
}

/// What is shown of a workspace's pull request, and whether a lookup starts.
#[derive(Debug)]
pub struct Snapshot {
    pub state: WorkspacePrState,
    pub starts: bool,
}

/// The commit of the worktree at a path, where it is known.
pub open spec fn head_at(heads: Map<Seq<char>, Seq<char>>, path: Seq<char>) -> Option<Seq<char>> {
    if heads.contains_key(path) {
        Some(heads[path])
    } else {
        None
    }
}

/// Whether a workspace is due and no lookup of it runs. Of these, the selected
/// ones or the others.
pub open spec fn waits(
    s: AppStateView,
    now: u64,
    heads: Map<Seq<char>, Seq<char>>,
    selected: bool,
) -> spec_fn(WorkspaceEntryView) -> bool {
    |workspace: WorkspaceEntryView|
        {
            let r = app::ref_of(workspace);
            &&& !s.pending_pr_lookups.contains(r)
            &&& selects(s, r) == selected
            &&& is_due(s, r, now, head_at(heads, workspace.path))
        }
}

/// The workspaces that are due and not looked up yet, the selected one first, then
/// the others in their order.
pub open spec fn due_workspaces(
    s: AppStateView,
    now: u64,
    heads: Map<Seq<char>, Seq<char>>,
) -> Seq<WorkspaceEntryView> {
    let all = app::shown_workspaces(s.workspace_groups);
    all.filter(waits(s, now, heads, true)) + all.filter(waits(s, now, heads, false))
}

/// How many more lookups the scheduler may start.
pub open spec fn free_slots(s: AppStateView) -> int {
    if s.pending_pr_lookups.len() >= MAX_PENDING_PR_LOOKUPS {
        0
    } else {
        MAX_PENDING_PR_LOOKUPS - s.pending_pr_lookups.len()
    }
}

/// What the window knows once lookups of the given workspaces were asked for.
pub open spec fn asking(
    s: AppStateView,
    workspaces: Seq<WorkspaceEntryView>,
    now: u64,
) -> AppStateView
    decreases workspaces.len(),
{
    if workspaces.len() == 0 {
        s
    } else {
        requesting(
            asking(s, workspaces.drop_last(), now),
            app::ref_of(workspaces.last()),
            false,
            now,
        )
    }
}

/// The lookups that start when the given workspaces are asked for in turn.
pub open spec fn asking_starts(
    s: AppStateView,
    workspaces: Seq<WorkspaceEntryView>,
    now: u64,
) -> Seq<WorkspaceEntryView>
    decreases workspaces.len(),
{
    if workspaces.len() == 0 {
        seq![]
    } else {
        let before = asking_starts(s, workspaces.drop_last(), now);
        if asking(s, workspaces.drop_last(), now).pending_pr_lookups.contains(
            app::ref_of(workspaces.last()),
        ) {
            before
        } else {
            before.push(workspaces.last())
        }
    }
}

/// The workspaces that the scheduler asks for.
pub open spec fn scheduled(
    s: AppStateView,
    now: u64,
    heads: Map<Seq<char>, Seq<char>>,
) -> Seq<WorkspaceEntryView> {
    let due = due_workspaces(s, now, heads);
    if due.len() <= free_slots(s) {
        due
    } else {
        due.take(free_slots(s))
    }
}

/// What the window knows once a lookup gave an answer.
pub open spec fn answered(s: AppStateView, update: WorkspacePrUpdateView, now: u64) -> AppStateView {
    AppStateView {
        pending_pr_lookups: s.pending_pr_lookups.remove(update.workspace_ref),
        pr_statuses: s.pr_statuses.insert(
            update.workspace_ref,
            CachedPrStatusView {
                state: match update.status {
                    Some(status) => WorkspacePrStateView::Ready(status),
                    None => WorkspacePrStateView::Absent,
                },
                fetched_at: now,
                head: update.head,
            },
        ),
        ..s
    }
}

/// What the window knows once what it knew of a workspace's pull request was
/// dropped.
pub open spec fn forgetting(s: AppStateView, workspace_ref: Seq<char>) -> AppStateView {
    AppStateView {
        pr_statuses: s.pr_statuses.remove(workspace_ref),
        pending_pr_lookups: s.pending_pr_lookups.remove(workspace_ref),
        ..s
    }
}

impl AppState {
    /// Tells whether a workspace is the selected one.
    pub fn is_selected(&self, workspace_ref: &str) -> (r: bool)
        ensures
            r == selects(self@, workspace_ref@),
    {
        match &self.selected_workspace {
            Some(selected) => text::same(selected.as_str(), workspace_ref),
            None => false,
        }
    }

    /// Tells whether the commit of a workspace bears on its lookup: it is selected,
    /// and something is known of it.
    pub fn wants_head(&self, workspace: &WorkspaceEntry) -> (r: bool)
        ensures
            r == (selects(self@, app::ref_of(workspace@)) && self@.pr_statuses.contains_key(
                app::ref_of(workspace@),
            )),
    {
        let id = app::workspace_ref(workspace);
        self.is_selected(id.as_str()) && self.pr_statuses.get(id.as_str()).is_some()
    }

    /// Tells whether the pull request of a workspace is to be looked up.
    pub fn pr_status_is_due(&self, workspace_ref: &str, now: u64, head: Option<&String>) -> (r: bool)
        ensures
            r == is_due(
                self@,
                workspace_ref@,
                now,
                match head {
                    Some(h) => Some(h@),
                    None => None,
                },
            ),
    {
        match self.pr_statuses.get(workspace_ref) {
            None => true,
            Some(entry) => {
                let selected: bool = self.is_selected(workspace_ref);
                if selected && workspace_pr_head_changed(entry, head) {
                    true
                } else {
                    now >= entry.fetched_at && now - entry.fetched_at >= pr_status_ttl(
                        &entry.state,
                        selected,
                    )
                }
            },
        }
    }

    /// Asks for a lookup, and tells whether it starts.
    pub fn request_workspace_pr_status(
        &mut self,
        workspace_ref: &str,
        mark_loading: bool,
        now: u64,
    ) -> (r: bool)
        ensures
            final(self)@ == requesting(old(self)@, workspace_ref@, mark_loading, now),
            r == !old(self)@.pending_pr_lookups.contains(workspace_ref@),
    {
        if self.pending_pr_lookups.contains(workspace_ref) {
            return false;
        }
        let _ = self.pending_pr_lookups.insert(workspace_ref);
        if mark_loading {
            self.pr_statuses.insert(
                workspace_ref,
                CachedPrStatus { state: WorkspacePrState::Loading, fetched_at: now, head: None },
            );
        }
        proof {
            assert(self@ =~= requesting(old(self)@, workspace_ref@, mark_loading, now));
        }
        true
    }

    /// What is shown of a workspace's pull request, and whether a lookup starts.
    pub fn workspace_pr_snapshot(
        &mut self,
        workspace: &WorkspaceEntry,
        now: u64,
        head: Option<&String>,
    ) -> (r: Snapshot)
        ensures
            r.state@ == shown_state(old(self)@, app::ref_of(workspace@)),
            r.starts == showing_starts(
                old(self)@,
                app::ref_of(workspace@),
                now,
                match head {
                    Some(h) => Some(h@),
                    None => None,
                },
            ),
            final(self)@ == after_showing(
                old(self)@,
                app::ref_of(workspace@),
                now,
                match head {
                    Some(h) => Some(h@),
                    None => None,
                },
            ),
    {
        let id = app::workspace_ref(workspace);
        let due: bool = self.pr_status_is_due(id.as_str(), now, head);
        let (state, known): (WorkspacePrState, bool) = match self.pr_statuses.get(id.as_str()) {
            Some(entry) => (entry.state.clone(), true),
            None => (WorkspacePrState::Loading, false),
        };
        let starts: bool = due && self.request_workspace_pr_status(id.as_str(), !known, now);
        Snapshot { state, starts }
    }

    /// The workspaces that are due and not looked up yet, the selected one first.
    pub fn due_pr_status_workspaces(&self, now: u64, heads: &TextMap<String>) -> (r: Vec<
        WorkspaceEntry,
    >)
        ensures
            r.deep_view() == due_workspaces(self@, now, heads@),
    {
        let all = app::all_workspaces(&self.workspace_groups);
        let mut selected: Vec<WorkspaceEntry> = Vec::new();
        let mut rest: Vec<WorkspaceEntry> = Vec::new();
        let ghost chosen = waits(self@, now, heads@, true);
        let ghost other = waits(self@, now, heads@, false);
        let ghost view = all.deep_view();
        let mut i: usize = 0;
        proof {
            reveal(Seq::filter);
            assert(view.take(0) =~= seq![]);
            assert(selected.deep_view() =~= seq![]);
            assert(rest.deep_view() =~= seq![]);
        }
        while i < all.len()
            invariant
                i <= all.len(),
                view == all.deep_view(),
                chosen == waits(self@, now, heads@, true),
                other == waits(self@, now, heads@, false),
                selected.deep_view() == view.take(i as int).filter(chosen),
                rest.deep_view() == view.take(i as int).filter(other),
            decreases all.len() - i,
        {
            let workspace = &all[i];
            let ghost w = workspace@;
            proof {
                reveal(Seq::filter);
                assert(view[i as int] == w);
                assert(view.take(i + 1).drop_last() =~= view.take(i as int));
                assert(view.take(i + 1).last() == w);
            }
            let ghost selected_before = selected.deep_view();
            let ghost rest_before = rest.deep_view();
            let id = app::workspace_ref(workspace);
            let head = heads.get(workspace.path.as_str());
            proof {
                assert((match head {
                    Some(h) => Some(h@),
                    None => None,
                }) == head_at(heads@, w.path));
            }
            if !self.pending_pr_lookups.contains(id.as_str()) && self.pr_status_is_due(
                id.as_str(),
                now,
                head,
            ) {
                if self.is_selected(id.as_str()) {
                    selected.push(workspace.clone());
                    proof {
                        assert(selected.deep_view() =~= selected_before.push(w));
                    }
                } else {
                    rest.push(workspace.clone());
                    proof {
                        assert(rest.deep_view() =~= rest_before.push(w));
                    }
                }
            }
            i += 1;
        }
        let ghost first = selected.deep_view();
        let ghost then_rest = rest.deep_view();
        selected.append(&mut rest);
        proof {
            assert(view.take(i as int) =~= view);
            assert(selected.deep_view() =~= first + then_rest);
        }
        selected
    }

    /// Starts lookups of workspaces that are due, as many as may still run at once.
    /// Returns those whose lookup starts.
    pub fn schedule_due_pr_status_lookups(&mut self, now: u64, heads: &TextMap<String>) -> (r: Vec<
        WorkspaceEntry,
    >)
        ensures
            r.deep_view() == asking_starts(old(self)@, scheduled(old(self)@, now, heads@), now),
            final(self)@ == asking(old(self)@, scheduled(old(self)@, now, heads@), now),
    {
        let ghost start = self@;
        let running: usize = self.pending_pr_lookups.len();
        let slots: usize = if running >= MAX_PENDING_PR_LOOKUPS {
            0
        } else {
            MAX_PENDING_PR_LOOKUPS - running
        };
        let due = self.due_pr_status_workspaces(now, heads);
        let count: usize = if due.len() <= slots {
            due.len()
        } else {
            slots
        };
        let ghost view = due.deep_view();
        let ghost asked = scheduled(start, now, heads@);
        proof {
            assert(view.take(count as int) =~= asked);
        }
        let mut started: Vec<WorkspaceEntry> = Vec::new();
        let mut i: usize = 0;
        proof {
            assert(asked.take(0) =~= seq![]);
            assert(started.deep_view() =~= seq![]);
        }
        while i < count
            invariant
                i <= count <= due.len(),
                view == due.deep_view(),
                asked == view.take(count as int),
                self@ == asking(start, asked.take(i as int), now),
                started.deep_view() == asking_starts(start, asked.take(i as int), now),
            decreases count - i,
        {
            proof {
                assert(asked[i as int] == due@[i as int]@);
                assert(asked.take(i + 1).drop_last() =~= asked.take(i as int));
                assert(asked.take(i + 1).last() == due@[i as int]@);
            }
            let ghost before = started.deep_view();
            let id = app::workspace_ref(&due[i]);
            if self.request_workspace_pr_status(id.as_str(), false, now) {
                started.push(due[i].clone());
                proof {
                    assert(started.deep_view() =~= before.push(due@[i as int]@));
                }
            }
            i += 1;
        }
        proof {
            assert(asked.take(i as int) =~= asked);
        }
        started
    }

    /// Takes in the answer of a lookup.
    pub fn take_pr_update(&mut self, update: WorkspacePrUpdate, now: u64)
        ensures
            final(self)@ == answered(old(self)@, update@, now),
    {
        let ghost given = update@;
        self.pending_pr_lookups.remove(update.workspace_ref.as_str());
        let state = match update.status {
            Some(status) => WorkspacePrState::Ready(status),
            None => WorkspacePrState::Absent,
        };
        self.pr_statuses.insert(
            update.workspace_ref.as_str(),
            CachedPrStatus { state, fetched_at: now, head: update.head },
        );
        proof {
            assert(self@ =~= answered(old(self)@, given, now));
        }
    }

    /// Drops what is known of a workspace's pull request.
    pub fn clear_workspace_pr_status(&mut self, workspace_ref: &str)
        ensures
            final(self)@ == forgetting(old(self)@, workspace_ref@),
    {
        let _ = self.pr_statuses.remove(workspace_ref);
        self.pending_pr_lookups.remove(workspace_ref);
        proof {
            assert(self@ =~= forgetting(old(self)@, workspace_ref@));
        }
    }
}

/// The scheduler never lets more lookups run than it may: it starts none where as
/// many run already, and no more than are free otherwise.
pub proof fn law_lookups_are_bounded(
    s: AppStateView,
    now: u64,
    heads: Map<Seq<char>, Seq<char>>,
)
    requires
        s.pending_pr_lookups.finite(),
    ensures
        ({
            let after = asking(s, scheduled(s, now, heads), now).pending_pr_lookups;
            &&& after.finite()
            &&& s.pending_pr_lookups.subset_of(after)
            &&& s.pending_pr_lookups.len() <= MAX_PENDING_PR_LOOKUPS ==> after.len()
                <= MAX_PENDING_PR_LOOKUPS
            &&& s.pending_pr_lookups.len() >= MAX_PENDING_PR_LOOKUPS ==> after
                == s.pending_pr_lookups
        }),
{
    lemma_asking(s, scheduled(s, now, heads), now);
}

proof fn lemma_asking(s: AppStateView, workspaces: Seq<WorkspaceEntryView>, now: u64)
    requires
        s.pending_pr_lookups.finite(),
    ensures
        ({
            let after = asking(s, workspaces, now).pending_pr_lookups;
            &&& after.finite()
            &&& s.pending_pr_lookups.subset_of(after)
            &&& after.len() <= s.pending_pr_lookups.len() + workspaces.len()
        }),
    decreases workspaces.len(),
{
    if workspaces.len() > 0 {
        lemma_asking(s, workspaces.drop_last(), now);
    }
}

/// A workspace whose lookup runs is not due, so that none is looked up twice at
/// once.
pub proof fn law_running_lookups_are_not_due(
    s: AppStateView,
    now: u64,
    heads: Map<Seq<char>, Seq<char>>,
    i: int,
)
    requires
        0 <= i < due_workspaces(s, now, heads).len(),
    ensures
        !s.pending_pr_lookups.contains(app::ref_of(due_workspaces(s, now, heads)[i])),
        is_due(
            s,
            app::ref_of(due_workspaces(s, now, heads)[i]),
            now,
            head_at(heads, due_workspaces(s, now, heads)[i].path),
        ),
{
    let all = app::shown_workspaces(s.workspace_groups);
    let first = all.filter(waits(s, now, heads, true));
    if i < first.len() {
        all.lemma_filter_pred(waits(s, now, heads, true), i);
    } else {
        all.lemma_filter_pred(waits(s, now, heads, false), i - first.len());
    }
}

/// The selected workspace comes first: where it is due and not looked up yet, the
/// scheduler looks no other one up before it.
pub proof fn law_selected_workspace_comes_first(
    s: AppStateView,
    now: u64,
    heads: Map<Seq<char>, Seq<char>>,
    i: int,
)
    requires
        0 <= i < app::shown_workspaces(s.workspace_groups).len(),
        ({
            let w = app::shown_workspaces(s.workspace_groups)[i];
            &&& selects(s, app::ref_of(w))
            &&& !s.pending_pr_lookups.contains(app::ref_of(w))
            &&& is_due(s, app::ref_of(w), now, head_at(heads, w.path))
        }),
    ensures
        due_workspaces(s, now, heads).len() > 0,
        selects(s, app::ref_of(due_workspaces(s, now, heads)[0])),
{
    let all = app::shown_workspaces(s.workspace_groups);
    let p = waits(s, now, heads, true);
    let first = all.filter(p);
    assert(p(all[i]));
    all.lemma_filter_contains(p, i);
    all.lemma_filter_pred(p, 0);
}

/// An answer settles a lookup: none runs any more, what was answered is shown, and
/// until it no longer holds the workspace is not due at the commit that the answer
/// is of.
pub proof fn law_answer_settles_lookup(s: AppStateView, update: WorkspacePrUpdateView, now: u64)
    ensures
        ({
            let after = answered(s, update, now);
            &&& !after.pending_pr_lookups.contains(update.workspace_ref)
            &&& shown_state(after, update.workspace_ref) == (match update.status {
                Some(status) => WorkspacePrStateView::Ready(status),
                None => WorkspacePrStateView::Absent,
            })
            &&& forall|later: u64|
                now <= later < now + SELECTED_PR_STATUS_TTL ==> !#[trigger] is_due(
                    after,
                    update.workspace_ref,
                    later,
                    update.head,
                )
        }),
{
}

/// What was known of a workspace's pull request is dropped whole: it is due again
/// and shown as loading.
pub proof fn law_forgotten_workspace_is_due(
    s: AppStateView,
    workspace_ref: Seq<char>,
    now: u64,
    head: Option<Seq<char>>,
)
    ensures
        is_due(forgetting(s, workspace_ref), workspace_ref, now, head),
        showing_starts(forgetting(s, workspace_ref), workspace_ref, now, head),
        shown_state(forgetting(s, workspace_ref), workspace_ref) == WorkspacePrStateView::Loading,
{
}

/// How long what is known of a pull request holds, in seconds: five for the selected workspace,
/// ten while it is loading, fifteen while checks are pending, three minutes once they are
/// settled, and five minutes where it is merged or there is none.
pub proof fn law_times_to_live(state: WorkspacePrStateView)
    ensures
        ({
            let second: int = 1_000_000_000;
            &&& ttl(state, true) == 5 * second
            &&& state is Loading ==> ttl(state, false) == 10 * second
            &&& state is Absent ==> ttl(state, false) == 300 * second
            &&& state matches WorkspacePrStateView::Ready(status) ==> {
                &&& status.state == PullRequestStatusState::Pending ==> ttl(state, false) == 15
                    * second
                &&& status.state == PullRequestStatusState::Success ==> ttl(state, false) == 180
                    * second
                &&& status.state == PullRequestStatusState::Failure ==> ttl(state, false) == 180
                    * second
                &&& status.state == PullRequestStatusState::Merged ==> ttl(state, false) == 300
                    * second
            }
            &&& MAX_PENDING_PR_LOOKUPS == 2
        }),
{
}

/// The pull request of a workspace is looked up where nothing is known of it, where what is
/// known is as old as it may become, and where the selected workspace has moved to another
/// commit.
pub proof fn law_when_a_lookup_is_due(
    s: AppStateView,
    workspace_ref: Seq<char>,
    now: u64,
    head: Option<Seq<char>>,
)
    ensures
        ({
            let selected = s.selected_workspace == Some(workspace_ref);
            &&& !s.pr_statuses.contains_key(workspace_ref) ==> is_due(s, workspace_ref, now, head)
            &&& s.pr_statuses.contains_key(workspace_ref) ==> {
                let entry = s.pr_statuses[workspace_ref];
                is_due(s, workspace_ref, now, head) <==> now - entry.fetched_at >= ttl(
                    entry.state,
                    selected,
                ) || (selected && head is Some && head != entry.head)
            }
        }),
{
}

/// Asking for a lookup that does not run yet notes that it runs, and, where it is asked to, that
/// the pull request is loading since then; everything else stays. One that runs is not asked
/// for again.
pub proof fn law_asking_for_a_lookup(
    s: AppStateView,
    workspace_ref: Seq<char>,
    mark_loading: bool,
    now: u64,
)
    ensures
        ({
            let after = requesting(s, workspace_ref, mark_loading, now);
            &&& s.pending_pr_lookups.contains(workspace_ref) ==> after == s
            &&& !s.pending_pr_lookups.contains(workspace_ref) ==> {
                &&& after.pending_pr_lookups == s.pending_pr_lookups.insert(workspace_ref)
                &&& !mark_loading ==> after.pr_statuses == s.pr_statuses
                &&& mark_loading ==> after.pr_statuses == s.pr_statuses.insert(
                    workspace_ref,
                    CachedPrStatusView {
                        state: WorkspacePrStateView::Loading,
                        fetched_at: now,
                        head: None,
                    },
                )
                &&& AppStateView {
                    pending_pr_lookups: s.pending_pr_lookups,
                    pr_statuses: s.pr_statuses,
                    ..after
                } == s
            }
        }),
{
}

/// Showing a workspace tells what is known of its pull request, or that it is loading where
/// nothing is known, and asks for a lookup exactly where one is due.
pub proof fn law_showing_asks_where_it_is_due(
    s: AppStateView,
    workspace_ref: Seq<char>,
    now: u64,
    head: Option<Seq<char>>,
)
    ensures
        ({
            let known = s.pr_statuses.contains_key(workspace_ref);
            let after = after_showing(s, workspace_ref, now, head);
            &&& known ==> shown_state(s, workspace_ref) == s.pr_statuses[workspace_ref].state
            &&& !known ==> shown_state(s, workspace_ref) is Loading
            &&& is_due(s, workspace_ref, now, head) ==> after.pending_pr_lookups.contains(
                workspace_ref,
            )
            &&& !is_due(s, workspace_ref, now, head) ==> after == s
            &&& showing_starts(s, workspace_ref, now, head) <==> is_due(s, workspace_ref, now, head)
                && !s.pending_pr_lookups.contains(workspace_ref)
            &&& known ==> after.pr_statuses == s.pr_statuses
            &&& !known && !s.pending_pr_lookups.contains(workspace_ref) ==> (
            after.pr_statuses.contains_key(workspace_ref)
                && after.pr_statuses[workspace_ref].state is Loading
                && after.pr_statuses[workspace_ref].fetched_at == now)
        }),
{
}

/// The workspaces that are due are exactly those that are shown, wait for no answer and need a
/// lookup: every one of them is among them, and no other.
pub proof fn law_due_workspaces_are_complete(
    s: AppStateView,
    now: u64,
    heads: Map<Seq<char>, Seq<char>>,
    workspace: WorkspaceEntryView,
)
    ensures
        ({
            let r = workspace.repo_canonical + ":"@ + workspace.name;
            let head = if heads.contains_key(workspace.path) {
                Some(heads[workspace.path])
            } else {
                None
            };
            due_workspaces(s, now, heads).contains(workspace) <==> app::shown_workspaces(
                s.workspace_groups,
            ).contains(workspace) && !s.pending_pr_lookups.contains(r) && is_due(s, r, now, head)
        }),
{
    let all = app::shown_workspaces(s.workspace_groups);
    let first = all.filter(waits(s, now, heads, true));
    let rest = all.filter(waits(s, now, heads, false));
    let due = due_workspaces(s, now, heads);
    let r = app::ref_of(workspace);
    if due.contains(workspace) {
        let k = choose|k: int| 0 <= k < due.len() && due[k] == workspace;
        if k < first.len() {
            all.lemma_filter_pred(waits(s, now, heads, true), k);
            all.lemma_filter_contains_rev(waits(s, now, heads, true), workspace);
        } else {
            all.lemma_filter_pred(waits(s, now, heads, false), k - first.len());
            all.lemma_filter_contains_rev(waits(s, now, heads, false), workspace);
        }
    }
    if all.contains(workspace) && !s.pending_pr_lookups.contains(r) && is_due(
        s,
        r,
        now,
        head_at(heads, workspace.path),
    ) {
        let k = choose|k: int| 0 <= k < all.len() && all[k] == workspace;
        if selects(s, r) {
            all.lemma_filter_contains(waits(s, now, heads, true), k);
            let j = choose|j: int| 0 <= j < first.len() && first[j] == workspace;
            assert(due[j] == workspace);
        } else {
            all.lemma_filter_contains(waits(s, now, heads, false), k);
            let j = choose|j: int| 0 <= j < rest.len() && rest[j] == workspace;
            assert(due[first.len() + j] == workspace);
        }
    }
}

/// The scheduler takes the first of those that are due, as many as may still run: up to two at
/// once.
pub proof fn law_scheduler_fills_the_free_places(
    s: AppStateView,
    now: u64,
    heads: Map<Seq<char>, Seq<char>>,
)
    ensures
        ({
            let due = due_workspaces(s, now, heads);
            let running = s.pending_pr_lookups.len();
            let free = if running >= 2 {
                0
            } else {
                2 - running
            };
            &&& scheduled(s, now, heads).len() == (if due.len() < free {
                due.len() as int
            } else {
                free
            })
            &&& forall|i: int|
                0 <= i < scheduled(s, now, heads).len() ==> #[trigger] scheduled(s, now, heads)[i]
                    == due[i]
        }),
{
}

/// An answer is kept with its time and its commit under its workspace, and nothing else
/// changes; what is dropped leaves nothing behind.
pub proof fn law_answers_are_kept(
    s: AppStateView,
    update: WorkspacePrUpdateView,
    now: u64,
    other: Seq<char>,
)
    requires
        other != update.workspace_ref,
    ensures
        ({
            let r = update.workspace_ref;
            let after = answered(s, update, now);
            let dropped = forgetting(s, r);
            &&& after.pr_statuses.contains_key(r)
            &&& after.pr_statuses[r].fetched_at == now
            &&& after.pr_statuses[r].head == update.head
            &&& update.status matches Some(status) ==> after.pr_statuses[r].state
                == WorkspacePrStateView::Ready(status)
            &&& update.status is None ==> after.pr_statuses[r].state is Absent
            &&& shown_state(after, other) == shown_state(s, other)
            &&& shown_state(dropped, other) == shown_state(s, other)
            &&& after.pending_pr_lookups.contains(other) <==> s.pending_pr_lookups.contains(other)
            &&& dropped.pending_pr_lookups.contains(other) <==> s.pending_pr_lookups.contains(
                other,
            )
            &&& !dropped.pending_pr_lookups.contains(r)
            &&& AppStateView {
                pending_pr_lookups: s.pending_pr_lookups,
                pr_statuses: s.pr_statuses,
                ..after
            } == s
            &&& AppStateView {
                pending_pr_lookups: s.pending_pr_lookups,
                pr_statuses: s.pr_statuses,
                ..dropped
            } == s
        }),
{
}

/// Each workspace that is asked for runs afterwards, and a lookup starts for exactly those that
/// did not run before, each once.
pub proof fn law_asking_starts_each_once(
    s: AppStateView,
    workspaces: Seq<WorkspaceEntryView>,
    now: u64,
    workspace_ref: Seq<char>,
)
    ensures
        ({
            let after = asking(s, workspaces, now);
            let starts = asking_starts(s, workspaces, now);
            let asked = exists|i: int|
                0 <= i < workspaces.len() && app::ref_of(#[trigger] workspaces[i])
                    == workspace_ref;
            let started = exists|i: int|
                0 <= i < starts.len() && app::ref_of(#[trigger] starts[i]) == workspace_ref;
            &&& after.pending_pr_lookups.contains(workspace_ref)
                <==> s.pending_pr_lookups.contains(workspace_ref) || asked
            &&& started <==> asked && !s.pending_pr_lookups.contains(workspace_ref)
            &&& after.pr_statuses == s.pr_statuses
            &&& forall|i: int, j: int|
                0 <= i < j < starts.len() && app::ref_of(#[trigger] starts[i]) == workspace_ref
                    ==> app::ref_of(#[trigger] starts[j]) != workspace_ref
        }),
    decreases workspaces.len(),
{
    if workspaces.len() > 0 {
        let front = workspaces.drop_last();
        let last = workspaces.last();
        law_asking_starts_each_once(s, front, now, workspace_ref);
        let before = asking_starts(s, front, now);
        let starts = asking_starts(s, workspaces, now);
        let asked_before = exists|i: int|
            0 <= i < front.len() && app::ref_of(#[trigger] front[i]) == workspace_ref;
        let asked = exists|i: int|
            0 <= i < workspaces.len() && app::ref_of(#[trigger] workspaces[i]) == workspace_ref;
        if asked_before {
            let i = choose|i: int|
                0 <= i < front.len() && app::ref_of(#[trigger] front[i]) == workspace_ref;
            assert(workspaces[i] == front[i]);
        }
        if app::ref_of(last) == workspace_ref {
            assert(workspaces[workspaces.len() - 1] == last);
        }
        if asked && !asked_before {
            let i = choose|i: int|
                0 <= i < workspaces.len() && app::ref_of(#[trigger] workspaces[i])
                    == workspace_ref;
            if i < front.len() {
                assert(front[i] == workspaces[i]);
            }
        }
        if asking(s, front, now).pending_pr_lookups.contains(app::ref_of(last)) {
            assert(starts == before);
        } else {
            assert(starts == before.push(last));
            assert(starts[before.len() as int] == last);
            assert forall|i: int| 0 <= i < before.len() implies starts[i] == before[i] by {}
            if exists|i: int|
                0 <= i < before.len() && app::ref_of(#[trigger] before[i]) == workspace_ref {
                let i = choose|i: int|
                    0 <= i < before.len() && app::ref_of(#[trigger] before[i]) == workspace_ref;
                assert(starts[i] == before[i]);
            }
        }
    }
}

} // verus!
