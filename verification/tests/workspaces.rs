use swarm::effects::{CommandOutput, Effect, Reply, Step};
use swarm::operations::{Create, Rename};
use swarm::repos::{Repository, RepositoryStore};
use swarm::workspaces::{
    build_clone_worktree_add_args, build_worktree_add_args, git_current_branch,
    parse_workspace_reference, reference_to, resolve_workspace_name, Workspace, WorkspaceRow,
    WorkspaceStore,
};

fn output(success: bool, stdout: &str, stderr: &str) -> Reply {
    Reply::Output(CommandOutput {
        success,
        status: if success { "exit status: 0" } else { "exit status: 128" }.to_string(),
        stdout: stdout.as_bytes().to_vec(),
        stderr: stderr.as_bytes().to_vec(),
    })
}

fn repos() -> RepositoryStore {
    let mut store = RepositoryStore::open("/data", vec![]).unwrap();
    store.add("github.com/penberg/swarm", None).unwrap();
    store
}

fn row(name: &str, branch: &str) -> WorkspaceRow {
    WorkspaceRow {
        name: name.to_string(),
        branch: branch.to_string(),
        path: format!("/data/repos/github.com/penberg/swarm/workspaces/{name}"),
        created_at: 5,
    }
}

fn ask<P, T>(step: Step<P, T>) -> (Effect, P) {
    match step {
        Step::Run(effect, state) => (effect, state),
        Step::Finish(_) => panic!("the operation should go on"),
        Step::Mismatch => panic!("the reply should fit"),
    }
}

#[test]
fn default_branch_workspace_is_reset_to_origin_tip() {
    let bare_repo_path = "/tmp/swarm-workspaces-test";
    let workspace_path = "/tmp/swarm-test-main";

    let args = build_worktree_add_args(bare_repo_path, workspace_path, "main", "main").unwrap();

    assert_eq!(
        args,
        vec![
            format!("--git-dir={bare_repo_path}"),
            "worktree".to_string(),
            "add".to_string(),
            "-B".to_string(),
            "main".to_string(),
            workspace_path.to_string(),
            "refs/remotes/origin/main".to_string(),
        ]
    );
}

#[test]
fn new_workspace_branches_from_origin_default_branch() {
    let bare_repo_path = "/tmp/swarm-workspaces-test";
    let workspace_path = "/tmp/swarm-test-feature";

    let args = build_worktree_add_args(bare_repo_path, workspace_path, "feature", "main").unwrap();

    assert_eq!(
        args,
        vec![
            format!("--git-dir={bare_repo_path}"),
            "worktree".to_string(),
            "add".to_string(),
            "-B".to_string(),
            "feature".to_string(),
            workspace_path.to_string(),
            "refs/remotes/origin/main".to_string(),
        ]
    );
}

#[test]
fn orphan_workspace_branch_is_reset_to_origin_default_branch() {
    let bare_repo_path = "/tmp/swarm-workspaces-test";
    let workspace_path = "/tmp/swarm-test-existing";

    let args = build_worktree_add_args(bare_repo_path, workspace_path, "existing", "main").unwrap();

    assert_eq!(
        args,
        vec![
            format!("--git-dir={bare_repo_path}"),
            "worktree".to_string(),
            "add".to_string(),
            "-B".to_string(),
            "existing".to_string(),
            workspace_path.to_string(),
            "refs/remotes/origin/main".to_string(),
        ]
    );
}

#[test]
fn cloned_workspace_branches_from_source_head() {
    let bare_repo_path = "/tmp/swarm-workspaces-test";
    let workspace_path = "/tmp/swarm-test-clone";

    let args = build_clone_worktree_add_args(
        bare_repo_path,
        workspace_path,
        "feature-copy",
        "abc123def456",
    )
    .unwrap();

    assert_eq!(
        args,
        vec![
            format!("--git-dir={bare_repo_path}"),
            "worktree".to_string(),
            "add".to_string(),
            "-b".to_string(),
            "feature-copy".to_string(),
            workspace_path.to_string(),
            "abc123def456".to_string(),
        ]
    );
}

#[test]
fn references_are_read() {
    let reference = parse_workspace_reference("swarm:main").unwrap();
    assert_eq!(reference.repository, "swarm");
    assert_eq!(reference.workspace, "main");
    let reference = parse_workspace_reference("github.com/penberg/swarm/main").unwrap();
    assert_eq!(reference.repository, "github.com/penberg/swarm");
    assert_eq!(reference.workspace, "main");
    let error = parse_workspace_reference("main").err().unwrap();
    assert_eq!(
        error.message(),
        "invalid workspace reference `main`; expected <repo>:<workspace>"
    );
    assert_eq!(error.exit_code(), 2);
}

#[test]
fn a_written_reference_reads_back() {
    let workspace = Workspace {
        repository: "github.com/penberg/swarm".to_string(),
        repository_alias: "swarm".to_string(),
        name: "feature".to_string(),
        branch: "feature".to_string(),
        path: "/x".to_string(),
        created_at: 0,
    };
    let reference = parse_workspace_reference(&reference_to(&workspace)).unwrap();
    assert_eq!(reference.repository, "github.com/penberg/swarm");
    assert_eq!(reference.workspace, "feature");
}

#[test]
fn names_are_checked() {
    assert_eq!(resolve_workspace_name(None, "main").unwrap(), "main");
    assert_eq!(resolve_workspace_name(Some(" x "), "main").unwrap(), "x");
    for name in ["", " ", "a/b", "a\\b", "a:b", "a b"] {
        let error = resolve_workspace_name(Some(name), "main").err().unwrap();
        assert_eq!(error.message(), format!("invalid workspace `{}`", name.trim()));
    }
}

#[test]
fn a_detached_head_is_told_by_its_commit() {
    let (effect, state) = ask(git_current_branch("/w"));
    match effect {
        Effect::RunGit { cwd, args } => {
            assert_eq!(cwd.as_deref(), Some("/w"));
            assert_eq!(args, vec!["branch", "--show-current"]);
        }
        other => panic!("unexpected {other:?}"),
    }
    let (effect, state) = ask(state.resume(output(true, "\n", "")));
    match effect {
        Effect::RunGit { args, .. } => assert_eq!(args, vec!["rev-parse", "--short", "HEAD"]),
        other => panic!("unexpected {other:?}"),
    }
    match state.resume(output(true, "abc123\n", "")) {
        Step::Finish(Ok(branch)) => assert_eq!(branch, "abc123"),
        _ => panic!("the commit is the branch"),
    }
}

#[test]
fn a_failed_git_command_tells_why() {
    let (_, state) = ask(git_current_branch("/w"));
    match state.resume(output(false, "out\n", " fatal: no repository \n")) {
        Step::Finish(Err(e)) => {
            assert_eq!(e.message(), "git command failed: fatal: no repository")
        }
        _ => panic!("it fails"),
    }
    let (_, state) = ask(git_current_branch("/w"));
    match state.resume(output(false, "", "")) {
        Step::Finish(Err(e)) => {
            assert_eq!(e.message(), "git command failed: exit status exit status: 128")
        }
        _ => panic!("it fails"),
    }
}

fn create_until_probe(name: Option<&str>, rows: Vec<WorkspaceRow>) -> (Vec<Effect>, Step<Create, Workspace>) {
    let store = WorkspaceStore::open(repos());
    let mut asked = Vec::new();
    let mut step = store.create("swarm", name);
    for _ in 0..20 {
        let (effect, state) = match step {
            Step::Run(effect, state) => (effect, state),
            other => return (asked, other),
        };
        let reply = match &effect {
            Effect::OpenWorkspaces(_) => Reply::Rows(rows.clone()),
            Effect::SyncRepository(_) => Reply::Done,
            Effect::RunGit { args, .. } => {
                if args.iter().any(|a| a == "worktree") {
                    output(true, "", "")
                } else {
                    output(true, "origin/main\n", "")
                }
            }
            Effect::CreateDir(_) => Reply::Done,
            Effect::PathExists(_) => Reply::Exists(false),
            Effect::ReadClock => Reply::Clock(77),
            Effect::InsertWorkspace(_) => Reply::Done,
            Effect::CurrentBranch(_) => Reply::Branch("main".to_string()),
            other => panic!("unexpected {other:?}"),
        };
        asked.push(effect);
        step = state.resume(reply);
    }
    panic!("the operation does not end");
}

#[test]
fn a_workspace_is_created_from_the_default_branch() {
    let (asked, end) = create_until_probe(None, vec![]);
    let workspace = match end {
        Step::Finish(Ok(workspace)) => workspace,
        other => panic!("unexpected {other:?}"),
    };
    assert_eq!(workspace.name, "main");
    assert_eq!(workspace.branch, "main");
    assert_eq!(workspace.repository, "github.com/penberg/swarm");
    assert_eq!(workspace.repository_alias, "swarm");
    assert_eq!(
        workspace.path,
        "/data/repos/github.com/penberg/swarm/workspaces/main"
    );
    assert_eq!(workspace.created_at, 77);
    assert!(matches!(asked.last(), Some(Effect::InsertWorkspace(_))));
    let worktree = asked
        .iter()
        .position(|e| matches!(e, Effect::RunGit { args, .. } if args.iter().any(|a| a == "add")))
        .unwrap();
    let probe = asked.iter().position(|e| matches!(e, Effect::PathExists(_))).unwrap();
    assert!(probe < worktree);
}

#[test]
fn a_name_that_is_taken_is_refused() {
    let (_, end) = create_until_probe(Some("x"), vec![row("x", "main")]);
    match end {
        Step::Finish(Err(e)) => assert_eq!(
            e.message(),
            "workspace `swarm:x` already exists"
        ),
        other => panic!("unexpected {other:?}"),
    }
}

#[test]
fn an_unknown_repository_is_refused_at_once() {
    let store = WorkspaceStore::open(repos());
    match store.create("nothing", None) {
        Step::Finish(Err(e)) => assert_eq!(e.exit_code(), 3),
        other => panic!("unexpected {other:?}"),
    }
    match store.list("nothing") {
        Step::Finish(Err(e)) => assert_eq!(e.exit_code(), 3),
        other => panic!("unexpected {other:?}"),
    }
    match store.info("x") {
        Step::Finish(Err(e)) => assert_eq!(e.exit_code(), 2),
        other => panic!("unexpected {other:?}"),
    }
}

fn rename(sessions: i64) -> (Vec<Effect>, Step<Rename, Workspace>) {
    let store = WorkspaceStore::open(repos());
    let mut asked = Vec::new();
    let mut step = store.rename("swarm:old", "new");
    for _ in 0..20 {
        let (effect, state) = match step {
            Step::Run(effect, state) => (effect, state),
            other => return (asked, other),
        };
        let reply = match &effect {
            Effect::OpenWorkspaces(_) => Reply::Rows(vec![row("old", "topic")]),
            Effect::CurrentBranch(_) => Reply::Branch("topic".to_string()),
            Effect::CountSessions(_) => Reply::Count(sessions),
            Effect::PathExists(_) => Reply::Exists(false),
            Effect::RunGit { .. } => output(true, "", ""),
            Effect::UpdateWorkspace { .. } => Reply::Done,
            Effect::CreateDir(_) => Reply::Done,
            other => panic!("unexpected {other:?}"),
        };
        asked.push(effect);
        step = state.resume(reply);
    }
    panic!("the operation does not end");
}

#[test]
fn a_workspace_is_renamed_with_its_directory() {
    let (asked, end) = rename(0);
    match end {
        Step::Finish(Ok(workspace)) => {
            assert_eq!(workspace.name, "new");
            assert_eq!(
                workspace.path,
                "/data/repos/github.com/penberg/swarm/workspaces/new"
            );
        }
        other => panic!("unexpected {other:?}"),
    }
    assert!(asked.iter().any(|e| matches!(e, Effect::UpdateWorkspace { name, .. } if name == "old")));
}

#[test]
fn a_workspace_with_sessions_keeps_its_name() {
    let (asked, end) = rename(2);
    assert!(matches!(end, Step::Finish(Err(_))));
    assert!(!asked.iter().any(|e| matches!(e, Effect::UpdateWorkspace { .. })));
}

fn sync(exists: bool, bare: &str, has_remote: bool) -> Vec<String> {
    let (repo, step): (Repository, _) = repos().sync("swarm").unwrap();
    assert_eq!(repo.canonical(), "github.com/penberg/swarm");
    let mut asked: Vec<String> = Vec::new();
    let mut present = exists;
    let mut step = step;
    for _ in 0..20 {
        let (effect, state) = match step {
            Step::Run(effect, state) => (effect, state),
            Step::Finish(result) => {
                result.unwrap();
                return asked;
            }
            Step::Mismatch => panic!("replies fit"),
        };
        let reply = match &effect {
            Effect::PathExists(_) => Reply::Exists(present),
            Effect::CreateDir(_) => Reply::Done,
            Effect::RemoveDir(path) => {
                asked.push(format!("remove {path}"));
                present = false;
                Reply::Done
            }
            Effect::RunGit { args, .. } => {
                asked.push(args.join(" "));
                if args.iter().any(|a| a == "rev-parse") {
                    output(true, bare, "")
                } else {
                    output(has_remote || !args.iter().any(|a| a == "get-url"), "", "")
                }
            }
            other => panic!("unexpected {other:?}"),
        };
        step = state.resume(reply);
    }
    panic!("the operation does not end");
}

const SOURCE: &str = "/data/repos/github.com/penberg/swarm/source.git";

fn first_sync() -> Vec<String> {
    vec![
        format!("init --bare {SOURCE}"),
        format!("--git-dir={SOURCE} remote add origin https://github.com/penberg/swarm.git"),
        format!("--git-dir={SOURCE} fetch origin --prune +refs/heads/*:refs/remotes/origin/*"),
        format!("--git-dir={SOURCE} remote set-head origin --auto"),
    ]
}

#[test]
fn a_first_sync_clones_and_a_later_one_fetches() {
    assert_eq!(sync(false, "", true), first_sync());
    let mut later = vec![
        format!("--git-dir={SOURCE} rev-parse --is-bare-repository"),
        format!("--git-dir={SOURCE} remote get-url origin"),
    ];
    later.extend(fetches());
    assert_eq!(sync(true, "true\n", true), later);
}

fn fetches() -> Vec<String> {
    vec![
        first_sync()[2].clone(),
        format!("--git-dir={SOURCE} fetch --all --prune"),
        first_sync()[3].clone(),
    ]
}

#[test]
fn a_clone_without_its_remote_gets_it_and_fetches_all() {
    let asked = sync(true, "true\n", false);
    assert_eq!(asked[2], first_sync()[1]);
    assert_eq!(asked[3..], fetches()[..]);
}

#[test]
fn a_source_that_is_not_bare_is_made_anew() {
    let asked = sync(true, "false\n", true);
    assert_eq!(asked[1], format!("remove {SOURCE}"));
    assert_eq!(asked[2..], first_sync()[..]);
}

fn path(name: &str) -> String {
    format!("/data/repos/github.com/penberg/swarm/workspaces/{name}")
}

fn reply_to(effect: &Effect, rows: &[WorkspaceRow]) -> Reply {
    match effect {
        Effect::OpenWorkspaces(db) => {
            assert_eq!(db, "/data/repos/github.com/penberg/swarm/repo.db");
            Reply::Rows(rows.to_vec())
        }
        Effect::CurrentBranch(_) => Reply::Branch("topic".to_string()),
        Effect::PathExists(_) => Reply::Exists(false),
        Effect::RunGit { args, .. } if args[0] == "rev-parse" => output(true, "abc123\n", ""),
        Effect::RunGit { .. } => output(true, "", ""),
        Effect::ReadClock => Reply::Clock(8),
        _ => Reply::Done,
    }
}

#[test]
fn a_workspace_is_cloned_from_the_head_of_its_source() {
    let store = WorkspaceStore::open(repos());
    let mut asked = Vec::new();
    let mut step = store.clone("swarm:old", "copy");
    while let Step::Run(effect, state) = step {
        let reply = reply_to(&effect, &[row("old", "topic")]);
        asked.push(effect);
        step = state.resume(reply);
    }
    let workspace = match step {
        Step::Finish(Ok(workspace)) => workspace,
        other => panic!("unexpected {other:?}"),
    };
    assert_eq!(workspace.name, "copy");
    assert_eq!(workspace.branch, "copy");
    assert_eq!(workspace.path, path("copy"));
    assert_eq!(workspace.created_at, 8);
    assert!(asked.iter().any(|e| matches!(e, Effect::RunGit { cwd, args }
        if *cwd == Some(path("old")) && *args == vec!["rev-parse", "HEAD"])));
    assert!(asked.iter().any(|e| matches!(e, Effect::RunGit { args, .. }
        if args.last().map(String::as_str) == Some("abc123") && args.contains(&path("copy")))));
    assert!(matches!(asked.last(), Some(Effect::InsertWorkspace(_))));
}

#[test]
fn workspaces_are_listed_in_order_with_their_current_branch() {
    let store = WorkspaceStore::open(repos());
    let mut updated = Vec::new();
    let mut step = store.list("swarm");
    while let Step::Run(effect, state) = step {
        let reply = reply_to(&effect, &[row("b", "topic"), row("a", "main")]);
        if let Effect::UpdateBranch { name, branch } = &effect {
            updated.push((name.clone(), branch.clone()));
        }
        step = state.resume(reply);
    }
    match step {
        Step::Finish(Ok(list)) => {
            let shown: Vec<(String, String)> = list.into_iter().map(|w| (w.name, w.branch)).collect();
            assert_eq!(
                shown,
                vec![
                    ("b".to_string(), "topic".to_string()),
                    ("a".to_string(), "topic".to_string())
                ]
            );
        }
        other => panic!("unexpected {other:?}"),
    }
    assert_eq!(updated, vec![("a".to_string(), "topic".to_string())]);
}

#[test]
fn a_worktree_goes_before_its_record() {
    let store = WorkspaceStore::open(repos());
    let mut asked = Vec::new();
    let mut step = store.remove("swarm:old");
    while let Step::Run(effect, state) = step {
        let reply = reply_to(&effect, &[row("old", "topic")]);
        asked.push(effect);
        step = state.resume(reply);
    }
    assert!(matches!(step, Step::Finish(Ok(_))));
    let worktree = asked
        .iter()
        .position(|e| matches!(e, Effect::RunGit { args, .. } if args.ends_with(&[
            "worktree".to_string(), "remove".to_string(), "--force".to_string(), path("old")
        ])))
        .unwrap();
    let record = asked
        .iter()
        .position(|e| matches!(e, Effect::DeleteWorkspace(name) if name == "old"))
        .unwrap();
    assert!(worktree < record);
}

#[test]
fn a_worktree_that_stays_keeps_its_record() {
    let store = WorkspaceStore::open(repos());
    let mut step = store.remove("swarm:old");
    while let Step::Run(effect, state) = step {
        assert!(!matches!(effect, Effect::DeleteWorkspace(_)));
        let reply = match &effect {
            Effect::RunGit { .. } => output(false, "", "fatal: locked"),
            other => reply_to(other, &[row("old", "topic")]),
        };
        step = state.resume(reply);
    }
    match step {
        Step::Finish(Err(e)) => assert_eq!(e.message(), "git command failed: fatal: locked"),
        other => panic!("unexpected {other:?}"),
    }
}

#[test]
fn a_reference_is_resolved_to_its_workspace() {
    let store = WorkspaceStore::open(repos());
    let (repo, mut step) = store.resolve_reference("swarm/old").unwrap();
    assert_eq!(repo.canonical(), "github.com/penberg/swarm");
    while let Step::Run(effect, state) = step {
        step = state.resume(reply_to(&effect, &[row("old", "topic")]));
    }
    match step {
        Step::Finish(Ok(workspace)) => assert_eq!(workspace.path, path("old")),
        other => panic!("unexpected {other:?}"),
    }
    let (_, mut step) = store.resolve_reference("swarm:gone").unwrap();
    while let Step::Run(effect, state) = step {
        step = state.resume(reply_to(&effect, &[row("old", "topic")]));
    }
    match step {
        Step::Finish(Err(e)) => assert_eq!(e.message(), "workspace `swarm:gone` not found"),
        other => panic!("unexpected {other:?}"),
    }
    assert_eq!(store.resolve_reference("other:old").err().unwrap().exit_code(), 3);
}

#[test]
fn its_own_name_changes_nothing() {
    let store = WorkspaceStore::open(repos());
    let mut step = store.rename("swarm:old", "old");
    while let Step::Run(effect, state) = step {
        assert!(!matches!(effect, Effect::UpdateWorkspace { .. } | Effect::RunGit { .. }));
        step = state.resume(reply_to(&effect, &[row("old", "topic")]));
    }
    match step {
        Step::Finish(Ok(workspace)) => assert_eq!(workspace.path, path("old")),
        other => panic!("unexpected {other:?}"),
    }
}
