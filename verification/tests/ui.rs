use swarm::effects::{CommandOutput, Effect, Reply, Step};
use swarm::error::SwarmError;
use swarm::forges::github::{PullRequestStatus, PullRequestStatusState};
use swarm::repos::RepositoryStore;
use swarm::sessions::Session;
use swarm::table::TextMap;
use swarm::ui::actions::{session_turn, RenameStep, SyncReply, Turn};
use swarm::ui::app::{workspace_ref, AppState, Redraw, WorkspacePrState, WorkspacePrUpdate};
use swarm::ui::data::{
    args_label, command_program, current_workspace_branch, current_workspace_head, foreground_pid, foreground_place, format_elapsed,
    format_relative_sync_time, parse_proc_stat, process_cmdline_label, process_label,
    sync_marker_paths, workspace_head_path, Foreground, ProcStat, Process, SessionEntry,
    WorkspaceEntry, WorkspaceGroup,
};
use swarm::ui::ghostty::{
    after_read, block_cursor_fill, color_to_hex, connects_to_socket, cursor_color, draws_text,
    encode_ctrl_char, encode_key, handle_adjustment_change, is_paste_shortcut, resolved_colors,
    scroll_by_delta, select_terminal_font_family, should_follow_output, sync_scrollbar,
    theme_escape, tty_path, AfterRead, Key, Modifiers, Rgb, Scroll, ScrollPosition, SocketRead,
};
use swarm::ui::jobs::{
    clone_workspace, close_session, create_workspace, load_session_programs, load_workspace_groups,
    remove_workspace, rename_workspace, JobEffect, JobReply, JobStep, LiveSession, LoadedRepository,
    LoadedWorkspace,
};
use swarm::ui::lookups::pr_status_ttl;
use swarm::ui::names::{next_workspace_clone_name, next_workspace_placeholder};
use swarm::ui::sidebar::{build_repo_row, SidebarRow};
use swarm::ui::workspace_panel::{
    build_workspace_pr_link, sync_session_tab_label, tab_program, PanelModel, SessionLabel, Terminals,
};
use swarm::workspaces::Workspace;

const SECOND: u64 = 1_000_000_000;

fn session(id: &str) -> SessionEntry {
    SessionEntry {
        id: id.to_string(),
        pid: None,
        program: "bash".to_string(),
        status: "running".to_string(),
        log_path: String::new(),
        socket_path: String::new(),
    }
}

fn workspace(repo: &str, name: &str, ids: &[&str]) -> WorkspaceEntry {
    WorkspaceEntry {
        repo_canonical: repo.to_string(),
        name: name.to_string(),
        branch: name.to_string(),
        path: format!("/w/{repo}/{name}"),
        sessions: ids.iter().map(|id| session(id)).collect(),
    }
}

fn group(repo: &str, workspaces: Vec<WorkspaceEntry>) -> WorkspaceGroup {
    WorkspaceGroup {
        repo_label: repo.to_string(),
        repo_canonical: repo.to_string(),
        repo_status: None,
        collapsed: false,
        workspace_count: workspaces.len(),
        workspaces,
    }
}

fn state() -> AppState {
    let mut state = AppState::new();
    let groups = vec![
        group("a", vec![workspace("a", "main", &["s1", "s2", "s3"]), workspace("a", "x", &[])]),
        group("b", vec![workspace("b", "main", &["t1"])]),
    ];
    assert!(state.show_groups(Ok(groups)).is_none());
    state
}

fn status(state: PullRequestStatusState, url: Option<&str>) -> PullRequestStatus {
    PullRequestStatus {
        number: 7,
        state,
        summary: "PR #7 checks passing".to_string(),
        url: url.map(str::to_string),
    }
}

fn keys(control: bool, shift: bool, alt: bool) -> Modifiers {
    Modifiers { control, shift, alt }
}

fn no_heads() -> TextMap<String> {
    TextMap::new()
}

#[test]
fn the_first_workspace_is_shown_at_first() {
    let mut state = state();
    let shown = state.render_ui(None).unwrap();
    assert_eq!(workspace_ref(&shown), "a:main");
    assert_eq!(state.selected_workspace.as_deref(), Some("a:main"));
    let shown = state.render_ui(Some("b:main".to_string())).unwrap();
    assert_eq!(workspace_ref(&shown), "b:main");
    let shown = state.render_ui(None).unwrap();
    assert_eq!(workspace_ref(&shown), "b:main");
    let shown = state.render_ui(Some("b:gone".to_string())).unwrap();
    assert_eq!(workspace_ref(&shown), "a:main");
}

#[test]
fn an_empty_window_shows_nothing() {
    let mut state = AppState::new();
    assert!(state.render_ui(Some("a:main".to_string())).is_none());
    assert_eq!(state.selected_workspace, None);
    let failed = state.show_groups(Err(SwarmError::PathResolution));
    assert_eq!(
        failed.as_deref(),
        Some("failed to load workspaces: failed to resolve swarm data directory")
    );
}

#[test]
fn the_selected_session_is_remembered() {
    let mut state = state();
    state.render_ui(None);
    state.remember_selected_session("a:main", Some("s2".to_string()));
    let other = workspace("b", "main", &["t1"]);
    assert_eq!(state.select_row(&other), Some(None));
    let back = workspace("a", "main", &["s1", "s2", "s3"]);
    assert_eq!(state.select_row(&back), Some(Some("s2".to_string())));
    assert_eq!(state.select_row(&back), None);
}

#[test]
fn the_session_that_can_be_seen_is_remembered() {
    let mut state = state();
    state.render_ui(None);
    state.visible_session_changed(Some("s3".to_string()));
    assert_eq!(state.selected_session.as_deref(), Some("s3"));
    assert_eq!(
        state.preferred_session_for_workspace("a:main", None).as_deref(),
        Some("s3")
    );
    state.visible_session_changed(None);
    assert_eq!(state.selected_session, None);
    assert_eq!(state.preferred_session_for_workspace("a:main", None), None);
}

#[test]
fn a_workspace_tells_its_branch_and_its_commit() {
    let said = |text: &str| {
        Reply::Output(CommandOutput {
            success: true,
            status: "exit status: 0".to_string(),
            stdout: text.as_bytes().to_vec(),
            stderr: vec![],
        })
    };
    let branch = match current_workspace_branch("/w") {
        Step::Run(Effect::RunGit { args, .. }, state) => {
            assert_eq!(args, vec!["branch", "--show-current"]);
            state.resume(said("topic\n"))
        }
        other => panic!("unexpected {other:?}"),
    };
    assert!(matches!(branch, Step::Finish(Ok(name)) if name == "topic"));
    let head = match current_workspace_head("/w") {
        Step::Run(Effect::RunGit { cwd, args }, state) => {
            assert_eq!(cwd.as_deref(), Some("/w"));
            assert_eq!(args, vec!["rev-parse", "HEAD"]);
            state.resume(said("abc123\n"))
        }
        other => panic!("unexpected {other:?}"),
    };
    assert!(matches!(head, Step::Finish(Ok(commit)) if commit == "abc123"));
}

#[test]
fn sessions_are_cycled_round_the_ends() {
    let mut state = state();
    state.render_ui(None);
    state.remember_selected_session("a:main", Some("s3".to_string()));
    match state.cycle_selected_session(Turn::Next) {
        Redraw::Refresh { workspace, session } => {
            assert_eq!(workspace.as_deref(), Some("a:main"));
            assert_eq!(session.as_deref(), Some("s1"));
        }
        other => panic!("unexpected {other:?}"),
    }
    state.cycle_selected_session(Turn::Previous);
    assert_eq!(state.selected_session.as_deref(), Some("s3"));
    state.render_ui(Some("b:main".to_string()));
    assert!(matches!(state.cycle_selected_session(Turn::Next), Redraw::Nothing));
    assert_eq!(session_turn(Key::PageUp, keys(true, false, false)), Some(Turn::Previous));
    assert_eq!(session_turn(Key::PageDown, keys(true, false, false)), Some(Turn::Next));
    assert_eq!(session_turn(Key::PageDown, keys(false, false, false)), None);
    assert_eq!(session_turn(Key::Home, keys(true, false, false)), None);
}

#[test]
fn what_is_known_of_pull_requests_grows_old() {
    let ready = |s| WorkspacePrState::Ready(status(s, None));
    assert_eq!(pr_status_ttl(&WorkspacePrState::Loading, true), 5 * SECOND);
    assert_eq!(pr_status_ttl(&WorkspacePrState::Loading, false), 10 * SECOND);
    assert_eq!(pr_status_ttl(&WorkspacePrState::Absent, false), 300 * SECOND);
    assert_eq!(pr_status_ttl(&ready(PullRequestStatusState::Pending), false), 15 * SECOND);
    assert_eq!(pr_status_ttl(&ready(PullRequestStatusState::Success), false), 180 * SECOND);
    assert_eq!(pr_status_ttl(&ready(PullRequestStatusState::Failure), false), 180 * SECOND);
    assert_eq!(pr_status_ttl(&ready(PullRequestStatusState::Merged), false), 300 * SECOND);
}

#[test]
fn two_lookups_run_at_once_and_the_selected_workspace_comes_first() {
    let mut state = state();
    state.render_ui(Some("b:main".to_string()));
    let started = state.schedule_due_pr_status_lookups(0, &no_heads());
    let refs: Vec<String> = started.iter().map(workspace_ref).collect();
    assert_eq!(refs, vec!["b:main", "a:main"]);
    assert!(state.schedule_due_pr_status_lookups(0, &no_heads()).is_empty());
    state.take_pr_update(
        WorkspacePrUpdate {
            workspace_ref: "b:main".to_string(),
            status: None,
            head: Some("h1".to_string()),
        },
        10,
    );
    let started = state.schedule_due_pr_status_lookups(11, &no_heads());
    let refs: Vec<String> = started.iter().map(workspace_ref).collect();
    assert_eq!(refs, vec!["a:x"]);
}

#[test]
fn a_new_commit_of_the_selected_workspace_is_looked_up() {
    let mut state = state();
    state.render_ui(Some("b:main".to_string()));
    let shown = workspace("b", "main", &["t1"]);
    let first = state.workspace_pr_snapshot(&shown, 0, None);
    assert!(first.starts);
    assert!(matches!(first.state, WorkspacePrState::Loading));
    assert!(state.wants_head(&shown));
    state.take_pr_update(
        WorkspacePrUpdate {
            workspace_ref: "b:main".to_string(),
            status: Some(status(PullRequestStatusState::Success, None)),
            head: Some("h1".to_string()),
        },
        SECOND,
    );
    let same = "h1".to_string();
    let moved = "h2".to_string();
    assert!(!state.workspace_pr_snapshot(&shown, 2 * SECOND, Some(&same)).starts);
    let snapshot = state.workspace_pr_snapshot(&shown, 2 * SECOND, Some(&moved));
    assert!(snapshot.starts);
    assert!(matches!(snapshot.state, WorkspacePrState::Ready(_)));
    assert!(!state.workspace_pr_snapshot(&shown, 2 * SECOND, Some(&moved)).starts);
    state.clear_workspace_pr_status("b:main");
    assert!(state.workspace_pr_snapshot(&shown, 2 * SECOND, Some(&same)).starts);
}

#[test]
fn the_side_bar_lists_repositories_and_workspaces() {
    let mut state = state();
    state.workspace_groups[1].collapsed = true;
    state.workspace_groups[0].repo_status = Some("2 days ago".to_string());
    let shown = state.render_ui(None);
    state.editing_workspace = Some("a:x".to_string());
    assert!(state.begin_sync("b").is_some());
    let (sidebar, started) = state.build_sidebar(&shown, 0, &no_heads());
    assert!(sidebar.add_button);
    assert!(sidebar.form.is_none());
    assert!(sidebar.hint.is_none());
    assert_eq!(sidebar.rows.len(), 4);
    assert_eq!(started.len(), 2);
    match &sidebar.rows[0] {
        SidebarRow::Repo(row) => {
            assert_eq!(row.label, "A");
            let meta = row.meta.as_ref().unwrap();
            assert_eq!(meta.text, "2 days ago");
            assert_eq!(meta.tooltip, "Last synced 2 days ago");
            assert!(row.sync_sensitive);
            assert_eq!(row.toggle_icon, "pan-down-symbolic");
        }
        other => panic!("unexpected {other:?}"),
    }
    match &sidebar.rows[1] {
        SidebarRow::Workspace(row) => {
            assert!(row.selected);
            assert_eq!(row.meta.as_deref(), Some("main  •  3 sessions"));
            assert_eq!(row.indicator.tooltip, "Loading pull request status...");
        }
        other => panic!("unexpected {other:?}"),
    }
    match &sidebar.rows[2] {
        SidebarRow::Workspace(row) => {
            assert!(!row.selected);
            assert_eq!(row.entry.as_deref(), Some("x"));
            assert_eq!(row.meta, None);
        }
        other => panic!("unexpected {other:?}"),
    }
    match &sidebar.rows[3] {
        SidebarRow::Repo(row) => {
            assert_eq!(row.sync_tooltip, "Syncing ...");
            assert_eq!(row.sync_icon, None);
            assert_eq!(row.toggle_tooltip, "Expand repository");
        }
        other => panic!("unexpected {other:?}"),
    }
}

#[test]
fn an_empty_side_bar_asks_for_a_repository() {
    let mut state = AppState::new();
    let (sidebar, started) = state.build_sidebar(&None, 0, &no_heads());
    assert!(!sidebar.add_button);
    assert!(!sidebar.form.unwrap().cancel);
    assert_eq!(
        sidebar.hint.as_deref(),
        Some("Add a repository to start creating workspaces.")
    );
    assert!(started.is_empty());
}

#[test]
fn labels_of_repositories_are_in_upper_case() {
    assert_eq!(build_repo_row("straße", "c", None, false, false).label, "STRASSE");
}

#[test]
fn the_form_keeps_what_was_typed() {
    let mut state = state();
    state.render_ui(None);
    assert!(matches!(state.show_repository_form(true), Redraw::Refresh { .. }));
    state.repository_typed("github.com/a/b");
    state.alias_typed("  ");
    state.cycle_selected_session(Turn::Next);
    state.show_repository_form(false);
    assert_eq!(state.repository_form.repository, "github.com/a/b");
    let asked = state.submit_repository_form(" github.com/a/b ", "  ");
    assert_eq!(asked.repository, "github.com/a/b");
    assert_eq!(asked.alias, None);
    state.repository_added(Err(SwarmError::DuplicateAlias("b".to_string())));
    assert_eq!(state.repository_form.error.as_deref(), Some("alias `b` already exists"));
    state.repository_added(Ok(()));
    assert_eq!(state.repository_form.repository, "");
    assert!(!state.repository_form.expanded);
    assert_eq!(
        state.submit_repository_form("x", " y ").alias.as_deref(),
        Some("y")
    );
}

#[test]
fn a_created_workspace_is_selected_and_edited() {
    let mut state = state();
    let outcome = state.create_and_edit_workspace(Ok(workspace("b", "new", &["n1"])));
    assert_eq!(state.workspace_groups[1].workspace_count, 2);
    assert_eq!(state.editing_workspace.as_deref(), Some("b:new"));
    assert_eq!(state.selected_session.as_deref(), Some("n1"));
    assert!(matches!(outcome.redraw, Redraw::Render { workspace: Some(w), .. } if w == "b:new"));
    let outcome = state.create_and_edit_workspace(Err(SwarmError::PathResolution));
    assert!(matches!(outcome.redraw, Redraw::Nothing));
    assert_eq!(
        outcome.report.as_deref(),
        Some("failed to create workspace: failed to resolve swarm data directory")
    );
    let outcome = state.clone_and_edit_workspace("a:main", Err(SwarmError::PathResolution));
    assert!(matches!(outcome.redraw, Redraw::Render { workspace: Some(w), .. } if w == "a:main"));
}

#[test]
fn a_removed_workspace_is_gone() {
    let mut state = state();
    state.render_ui(None);
    let outcome = state.remove_selected_workspace("a:main", Ok(workspace("a", "main", &[])));
    assert_eq!(state.workspace_groups[0].workspace_count, 1);
    assert_eq!(state.selected_workspace.as_deref(), Some("a:x"));
    assert!(matches!(outcome.redraw, Redraw::Render { workspace: Some(w), .. } if w == "a:x"));
    let outcome = state.remove_selected_workspace("b:main", Err(SwarmError::PathResolution));
    assert!(matches!(outcome.redraw, Redraw::Refresh { .. }));
    assert_eq!(state.workspace_groups[1].workspace_count, 1);
}

#[test]
fn a_renamed_workspace_keeps_its_session() {
    let mut state = state();
    state.render_ui(None);
    state.remember_selected_session("a:main", Some("s2".to_string()));
    assert!(matches!(state.begin_rename("a:main", "  "), RenameStep::Leave(_)));
    assert!(matches!(state.begin_rename("a:main", " y "), RenameStep::Rename(name) if name == "y"));
    state.commit_workspace_rename("a:main", Ok(workspace("a", "y", &["s1", "s2", "s3"])));
    assert_eq!(state.workspace_groups[0].workspaces[0].name, "y");
    assert_eq!(state.selected_workspace.as_deref(), Some("a:y"));
    assert_eq!(state.selected_session.as_deref(), Some("s2"));
    state.commit_workspace_rename("a:x", Err(SwarmError::PathResolution));
    assert_eq!(state.editing_workspace.as_deref(), Some("a:x"));
}

#[test]
fn a_repository_is_synced_once_at_a_time() {
    let mut state = state();
    state.render_ui(None);
    let ticket = state.begin_sync("a").unwrap();
    assert!(state.begin_sync("a").is_none());
    assert!(state.finish_sync("a", &ticket, SyncReply::Waiting).is_none());
    let outcome = state
        .finish_sync("a", &ticket, SyncReply::Failed(SwarmError::PathResolution))
        .unwrap();
    assert_eq!(
        outcome.report.as_deref(),
        Some("failed to sync repository: failed to resolve swarm data directory")
    );
    assert!(state.begin_sync("a").is_some());
}

#[test]
fn expanding_shows_a_collapsed_group_again() {
    let mut state = state();
    state.toggle_repo_collapsed("a", false, Ok(()));
    assert!(state.workspace_groups[0].collapsed);
    state.toggle_repo_collapsed("a", true, Ok(()));
    assert!(!state.workspace_groups[0].collapsed);
    let outcome = state.toggle_repo_collapsed("a", false, Err(SwarmError::PathResolution));
    assert!(!state.workspace_groups[0].collapsed);
    assert!(outcome.report.is_some());
}

#[test]
fn sessions_come_and_go() {
    let mut state = state();
    state.create_and_select_session("b:main", Ok(session("t2")));
    assert_eq!(state.workspace_groups[1].workspaces[0].sessions.len(), 2);
    assert_eq!(state.selected_session.as_deref(), Some("t2"));
    let ids = vec!["t1".to_string(), "t2".to_string()];
    state.close_specific_session("b:main", &ids, "t2", Ok(session("t2")));
    assert_eq!(state.workspace_groups[1].workspaces[0].sessions.len(), 1);
    assert_eq!(state.selected_session.as_deref(), Some("t1"));
    let outcome = state.create_and_select_session("b:main", Err(SwarmError::PathResolution));
    assert!(outcome.report.is_some());
    let outcome =
        state.close_specific_session("b:main", &ids, "t1", Err(SwarmError::PathResolution));
    assert!(outcome.report.unwrap().starts_with("failed to close session: "));
}

#[test]
fn a_moved_branch_is_shown() {
    let mut state = state();
    state.branch_changed("a:x", "topic");
    assert_eq!(state.workspace_groups[0].workspaces[1].branch, "topic");
}

#[test]
fn terminals_stay_where_they_are() {
    let mut state = state();
    let shown = state.render_ui(None).unwrap();
    let (panel, starts) = state.render_workspace(&shown, None, &vec![], None, 0, None);
    assert!(starts);
    match panel {
        PanelModel::Rebuilt { tabs, selected, link } => {
            assert_eq!(selected, "s1");
            assert_eq!(tabs.len(), 3);
            assert!(tabs[0].active && !tabs[1].active);
            assert!(link.is_none());
        }
        other => panic!("unexpected {other:?}"),
    }
    let names: Vec<String> = ["s1", "s2", "s3"].iter().map(|s| s.to_string()).collect();
    let (panel, _) = state.render_workspace(&shown, None, &names, Some("s2".to_string()), 0, None);
    assert!(matches!(panel, PanelModel::InPlace { show: None, .. }));
    let (panel, _) = state.render_workspace(
        &shown,
        Some("s3".to_string()),
        &names,
        Some("s2".to_string()),
        0,
        None,
    );
    assert!(matches!(panel, PanelModel::InPlace { show: Some(s), .. } if s == "s3"));
    let empty = workspace("a", "x", &[]);
    let (panel, _) = state.render_workspace(&empty, None, &names, None, 0, None);
    match panel {
        PanelModel::Empty { placeholder, .. } => assert_eq!(placeholder.id, "No sessions"),
        other => panic!("unexpected {other:?}"),
    }
}

#[test]
fn terminals_stay_in_whatever_order_they_stand() {
    let mut state = state();
    let shown = state.render_ui(None).unwrap();
    let names: Vec<String> = ["s3", "s1", "s2"].iter().map(|s| s.to_string()).collect();
    let (panel, _) = state.render_workspace(
        &shown,
        Some("gone".to_string()),
        &names,
        Some("s2".to_string()),
        0,
        None,
    );
    assert!(matches!(panel, PanelModel::InPlace { show: None, .. }));
    assert_eq!(state.selected_session, None);
}

#[test]
fn a_session_has_one_terminal_until_it_is_closed() {
    let mut terminals = Terminals::new();
    let both = vec![session("s1"), session("s2")];
    assert_eq!(terminals.show(&both), vec![true, true]);
    assert_eq!(terminals.show(&vec![session("s3"), session("s1")]), vec![true, false]);
    assert_eq!(terminals.show(&both), vec![false, false]);
    terminals.close("s1");
    assert_eq!(terminals.show(&both), vec![true, false]);
    assert_eq!(terminals.show(&vec![session("s4"), session("s4")]), vec![true, false]);
}

#[test]
fn pull_requests_are_linked() {
    let link = build_workspace_pr_link(&status(PullRequestStatusState::Success, Some("u"))).unwrap();
    assert_eq!(link.label, "PR #7");
    assert_eq!(link.url, "u");
    assert!(build_workspace_pr_link(&status(PullRequestStatusState::Success, None)).is_none());
}

#[test]
fn tabs_show_the_program_in_the_foreground() {
    let programs = vec![SessionLabel { id: "s1".to_string(), program: "vim".to_string() }];
    assert_eq!(
        sync_session_tab_label(&programs, "s1", Some("bash".to_string())).as_deref(),
        Some("vim")
    );
    assert_eq!(sync_session_tab_label(&programs, "s1", Some("vim".to_string())), None);
    assert_eq!(sync_session_tab_label(&programs, "s2", None), None);
    assert_eq!(tab_program(None, "bash"), "bash");
    assert_eq!(tab_program(Some("vim".to_string()), "bash"), "vim");
}

#[test]
fn new_names_are_free() {
    let groups = vec![group("a", vec![workspace("a", "new-1", &[]), workspace("a", "main", &[])])];
    assert_eq!(next_workspace_placeholder(&groups), "new-2");
    assert_eq!(next_workspace_placeholder(&vec![]), "new-1");
    let source = workspace("a", "main", &[]);
    let directories = vec!["main-1".to_string(), "main-3".to_string()];
    assert_eq!(next_workspace_clone_name(&groups, &source, &directories), "main-2");
    assert_eq!(next_workspace_clone_name(&groups, &source, &vec![]), "main-1");
}

fn live(id: &str) -> LiveSession {
    LiveSession {
        session: Session {
            id: id.to_string(),
            repository: "github.com/p/s".to_string(),
            repository_alias: "s".to_string(),
            workspace: "main".to_string(),
            command: vec!["/bin/bash".to_string(), "-l".to_string()],
            path: String::new(),
            log_path: "log".to_string(),
            socket_path: "sock".to_string(),
            pid: Some(3),
            status: "running".to_string(),
            exit_code: None,
            created_at: 0,
            stopped_at: None,
        },
        foreground: None,
    }
}

fn made() -> Workspace {
    Workspace {
        repository: "github.com/p/s".to_string(),
        repository_alias: "s".to_string(),
        name: "main".to_string(),
        branch: "main".to_string(),
        path: "/w".to_string(),
        created_at: 0,
    }
}

fn repos() -> RepositoryStore {
    let mut store = RepositoryStore::open("/data", vec![]).unwrap();
    store.add("github.com/p/s", None).unwrap();
    store
}

#[test]
fn groups_are_loaded_in_order() {
    let repo = repos().require_repository("s").unwrap();
    let loaded = vec![LoadedRepository {
        repo,
        status: Some("just now".to_string()),
        workspaces: vec![LoadedWorkspace { workspace: made(), sessions: vec![live("s1")] }],
    }];
    let groups = load_workspace_groups(&loaded);
    assert_eq!(groups.len(), 1);
    assert_eq!(groups[0].repo_label, "s");
    assert_eq!(groups[0].repo_canonical, "github.com/p/s");
    assert_eq!(groups[0].workspace_count, 1);
    assert_eq!(groups[0].workspaces[0].sessions[0].program, "bash");
    assert_eq!(load_session_programs(&vec![live("s1")])[0].program, "bash");
}

#[test]
fn a_default_session_that_fails_is_only_reported() {
    let state = match create_workspace(repos(), "s", None) {
        JobStep::Run(JobEffect::CreateWorkspace { .. }, state) => state,
        other => panic!("unexpected {other:?}"),
    };
    let state = match state.resume(JobReply::Workspace(made())) {
        JobStep::Run(JobEffect::CreateSession(reference), state) => {
            assert_eq!(reference, "github.com/p/s:main");
            state
        }
        other => panic!("unexpected {other:?}"),
    };
    let state = match state.resume(JobReply::Failed(SwarmError::PathResolution)) {
        JobStep::Run(JobEffect::Report(text), state) => {
            assert_eq!(
                text,
                "failed to create default session for github.com/p/s:main: failed to resolve swarm data directory"
            );
            state
        }
        other => panic!("unexpected {other:?}"),
    };
    let state = match state.resume(JobReply::Done) {
        JobStep::Run(JobEffect::ListSessions(_), state) => state,
        other => panic!("unexpected {other:?}"),
    };
    match state.resume(JobReply::Sessions(vec![])) {
        JobStep::Finish(Ok(entry)) => {
            assert_eq!(entry.repo_canonical, "github.com/p/s");
            assert!(entry.sessions.is_empty());
        }
        other => panic!("unexpected {other:?}"),
    }
    assert!(matches!(create_workspace(repos(), "nothing", None), JobStep::Finish(Err(_))));
    assert!(matches!(
        clone_workspace(repos(), "s:main", "x"),
        JobStep::Run(JobEffect::CloneWorkspace { .. }, _)
    ));
    assert!(matches!(
        rename_workspace(repos(), "s:main", "x"),
        JobStep::Run(JobEffect::RenameWorkspace { .. }, _)
    ));
}

#[test]
fn sessions_go_before_their_workspace() {
    let mut asked: Vec<String> = Vec::new();
    let mut step = remove_workspace(repos(), "s:main");
    for _ in 0..10 {
        step = match step {
            JobStep::Run(effect, state) => {
                asked.push(format!("{effect:?}"));
                let reply = match effect {
                    JobEffect::ListSessions(_) => JobReply::Sessions(vec![live("a"), live("b")]),
                    JobEffect::StopSession(_) => JobReply::Done,
                    JobEffect::RemoveSession(id) => JobReply::Session(live(&id)),
                    JobEffect::RemoveWorkspace(_) => JobReply::Workspace(made()),
                    _ => panic!("not asked for"),
                };
                state.resume(reply)
            }
            other => other,
        };
    }
    assert!(matches!(step, JobStep::Finish(Ok(_))));
    assert_eq!(
        asked,
        vec![
            "ListSessions(\"s:main\")",
            "StopSession(\"a\")",
            "RemoveSession(\"a\")",
            "StopSession(\"b\")",
            "RemoveSession(\"b\")",
            "RemoveWorkspace(\"s:main\")",
        ]
    );
}

#[test]
fn closing_stops_a_session_first() {
    let state = match close_session("a") {
        JobStep::Run(JobEffect::StopSession(_), state) => state,
        other => panic!("unexpected {other:?}"),
    };
    let state = match state.resume(JobReply::Done) {
        JobStep::Run(JobEffect::RemoveSession(_), state) => state,
        other => panic!("unexpected {other:?}"),
    };
    assert!(matches!(
        state.resume(JobReply::Session(live("a"))),
        JobStep::Finish(Ok(entry)) if entry.id == "a"
    ));
}

#[test]
fn times_are_told_in_the_largest_unit() {
    let minute = 60;
    let hour = 60 * minute;
    let day = 24 * hour;
    for (seconds, told) in [
        (0, "just now"),
        (59, "just now"),
        (minute, "1 minute ago"),
        (59 * minute, "59 minutes ago"),
        (hour, "1 hour ago"),
        (day, "1 day ago"),
        (6 * day, "6 days ago"),
        (7 * day, "1 week ago"),
        (34 * day, "4 weeks ago"),
        (35 * day, "1 month ago"),
        (359 * day, "11 months ago"),
        (360 * day, "1 year ago"),
        (800 * day, "2 years ago"),
    ] {
        assert_eq!(format_elapsed(seconds), told);
    }
    assert_eq!(format_relative_sync_time(None), "just now");
    assert_eq!(format_relative_sync_time(Some(61)), "1 minute ago");
    assert_eq!(
        sync_marker_paths("/b"),
        vec!["/b/FETCH_HEAD", "/b/HEAD", "/b/refs/remotes/origin/HEAD"]
    );
}

#[test]
fn processes_are_found_in_the_foreground() {
    let stat = parse_proc_stat("12 (a (b) c) S 1 34 12 99 56 0").unwrap();
    assert_eq!((stat.pgrp, stat.tty_nr, stat.tpgid), (34, 99, 56));
    assert!(parse_proc_stat("12 a S 1 34 12 99 56").is_none());
    assert!(parse_proc_stat("12 (a) S 1 x 12 99 56").is_none());
    assert_eq!(foreground_place(stat), Foreground::Other);
    let own = ProcStat { pgrp: 5, tty_nr: 1, tpgid: 5 };
    assert_eq!(foreground_place(own), Foreground::Own);
    let nobody = ProcStat { pgrp: 5, tty_nr: 0, tpgid: 5 };
    assert_eq!(foreground_place(nobody), Foreground::Nobody);
    let at = |pid, pgrp| Process { pid, stat: ProcStat { pgrp, tty_nr: 99, tpgid: 56 } };
    assert_eq!(foreground_pid(stat, &vec![at(70, 56), at(60, 56)]), Some(60));
    assert_eq!(foreground_pid(stat, &vec![at(40, 56), at(56, 56)]), Some(56));
    assert_eq!(foreground_pid(stat, &vec![at(40, 1)]), None);
}

#[test]
fn programs_are_named_by_their_command() {
    let args = |list: &[&str]| list.iter().map(|a| a.to_string()).collect::<Vec<_>>();
    assert_eq!(command_program(&args(&["/bin/zsh", "-l"])), "zsh");
    assert_eq!(command_program(&args(&[])), "session");
    assert_eq!(args_label(&args(&["/usr/bin/python3", "-u", "/x/run.py"])).as_deref(), Some("run.py"));
    assert_eq!(args_label(&args(&["/usr/bin/vim", "x"])).as_deref(), Some("vim"));
    assert_eq!(process_cmdline_label(&b"/bin/bash\0-c\0".to_vec()).as_deref(), Some("bash"));
    assert_eq!(process_cmdline_label(&vec![0xff, 0]), None);
    assert_eq!(process_label(Some(vec![]), Some("/usr/bin/top"), None).as_deref(), Some("top"));
    assert_eq!(process_label(None, None, Some(" kworker \n")).as_deref(), Some("kworker"));
    assert_eq!(process_label(None, None, Some(" ")), None);
}

#[test]
fn the_head_of_a_worktree_is_found() {
    assert_eq!(workspace_head_path("/w", None).unwrap(), "/w/.git/HEAD");
    assert_eq!(
        workspace_head_path("/w", Some("gitdir: /r/worktrees/w\n")).unwrap(),
        "/r/worktrees/w/HEAD"
    );
    assert_eq!(
        workspace_head_path("/w", Some("gitdir: ../r\n")).unwrap(),
        "/w/../r/HEAD"
    );
    let error = workspace_head_path("/w", Some("nonsense")).err().unwrap();
    assert_eq!(error.message(), "git command failed: invalid gitdir file at /w/.git");
}

#[test]
fn keys_are_encoded() {
    let plain = keys(false, false, false);
    for (key, bytes) in [
        (Key::Return, b"\r".to_vec()),
        (Key::Tab, b"\t".to_vec()),
        (Key::BackSpace, vec![0x7f]),
        (Key::Escape, vec![0x1b]),
        (Key::Up, b"\x1b[A".to_vec()),
        (Key::Down, b"\x1b[B".to_vec()),
        (Key::Right, b"\x1b[C".to_vec()),
        (Key::Left, b"\x1b[D".to_vec()),
        (Key::Home, b"\x1b[H".to_vec()),
        (Key::End, b"\x1b[F".to_vec()),
        (Key::PageUp, b"\x1b[5~".to_vec()),
        (Key::PageDown, b"\x1b[6~".to_vec()),
        (Key::Delete, b"\x1b[3~".to_vec()),
        (Key::Insert, vec![]),
        (Key::Unknown, vec![]),
        (Key::Character('é'), "é".as_bytes().to_vec()),
    ] {
        assert_eq!(encode_key(key, plain), bytes);
    }
    assert_eq!(encode_key(Key::Character('c'), keys(true, false, false)), vec![3]);
    assert!(encode_key(Key::Character('1'), keys(true, false, false)).is_empty());
    assert_eq!(encode_key(Key::Character('x'), keys(false, false, true)), b"\x1bx".to_vec());
    assert_eq!(encode_ctrl_char('@'), Some(0));
    assert_eq!(encode_ctrl_char(']'), Some(0x1d));
    assert_eq!(encode_ctrl_char('Z'), Some(26));
    assert!(is_paste_shortcut(Key::Character('v'), keys(true, true, false)));
    assert!(is_paste_shortcut(Key::Insert, keys(false, true, false)));
    assert!(!is_paste_shortcut(Key::Insert, keys(false, true, true)));
    assert!(!is_paste_shortcut(Key::Character('v'), keys(true, false, false)));
}

#[test]
fn terminals_scroll() {
    let at = |offset| ScrollPosition { total: 100, offset, len: 20 };
    assert!(should_follow_output(Some(at(80)), false));
    assert!(!should_follow_output(Some(at(79)), false));
    assert!(!should_follow_output(Some(at(80)), true));
    assert!(!should_follow_output(None, false));
    assert_eq!(handle_adjustment_change(at(10), 10), Scroll::Stay);
    assert_eq!(handle_adjustment_change(at(10), 0), Scroll::Top);
    assert_eq!(handle_adjustment_change(at(10), 500), Scroll::Bottom);
    assert_eq!(handle_adjustment_change(at(10), 7), Scroll::Delta(-3));
    assert_eq!(scroll_by_delta(1, false), Scroll::Delta(3));
    assert_eq!(scroll_by_delta(-1, false), Scroll::Delta(-3));
    assert_eq!(scroll_by_delta(1, true), Scroll::Stay);
    let bar = sync_scrollbar(at(10), false);
    assert_eq!((bar.upper, bar.page_size, bar.value, bar.visible), (100, 20, 10, true));
    assert!(!sync_scrollbar(at(10), true).visible);
}

#[test]
fn terminals_have_colours() {
    let fg = Rgb { r: 1, g: 2, b: 240 };
    let bg = Rgb { r: 9, g: 9, b: 9 };
    assert_eq!(color_to_hex(fg), "#0102f0");
    assert_eq!(resolved_colors(None, None, true, fg, bg), (bg, fg));
    assert_eq!(resolved_colors(Some(bg), None, false, fg, bg), (bg, bg));
    assert_eq!(block_cursor_fill(fg), Rgb { r: 25, g: 26, b: 255 });
    assert_eq!(cursor_color(None, Some(bg), fg), bg);
    assert_eq!(cursor_color(None, None, fg), fg);
    assert!(draws_text(false, "a"));
    assert!(!draws_text(false, " "));
    assert!(!draws_text(false, ""));
    assert!(!draws_text(true, "a"));
    let theme = theme_escape();
    assert!(theme.starts_with("\u{1b}]10;#e6edf3\u{7}\u{1b}]11;#10141c\u{7}\u{1b}]12;#8bc2ff\u{7}\u{1b}]4;0;#222833\u{7}"));
    assert!(theme.ends_with("\u{1b}]4;15;#f4f8fc\u{7}"));
}

#[test]
fn terminals_pick_a_font_and_a_socket() {
    let families = vec!["Menlo".to_string(), "JetBrains Mono".to_string()];
    assert_eq!(select_terminal_font_family(&families), "JetBrains Mono");
    assert_eq!(select_terminal_font_family(&vec![]), "Monospace");
    assert!(connects_to_socket("running", true));
    assert!(!connects_to_socket("exited", true));
    assert!(!connects_to_socket("starting", false));
    assert_eq!(after_read(SocketRead::Data), AfterRead::Feed);
    assert_eq!(after_read(SocketRead::Closed), AfterRead::Close);
    assert_eq!(after_read(SocketRead::WouldBlock), AfterRead::Stop);
    assert_eq!(after_read(SocketRead::Interrupted), AfterRead::Again);
    assert_eq!(after_read(SocketRead::Failed), AfterRead::Close);
    assert_eq!(tty_path(12), "/proc/12/fd/0");
}
