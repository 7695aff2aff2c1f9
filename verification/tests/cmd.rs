use swarm::cmd::run::{failure_line, run, Answer, Output, RunStep, Task};
use swarm::error::SwarmError;
use swarm::opts::{
    Command, PruneCommand, PruneSubcommand, RepoCommand, RepoSubcommand, SessionCommand,
    SessionSubcommand, WorkspaceCommand, WorkspaceSubcommand,
};
use swarm::repos::Repository;
use swarm::sessions::Session;
use swarm::workspaces::Workspace;

fn repo() -> Repository {
    Repository {
        host: "github.com".to_string(),
        owner: "penberg".to_string(),
        name: "swarm".to_string(),
        alias: Some("swarm".to_string()),
        remote_url: None,
        collapsed: false,
    }
}

fn workspace() -> Workspace {
    Workspace {
        repository: "github.com/penberg/swarm".to_string(),
        repository_alias: "swarm".to_string(),
        name: "main".to_string(),
        branch: "main".to_string(),
        path: "/w/main".to_string(),
        created_at: 17,
    }
}

fn session() -> Session {
    Session {
        id: "s1".to_string(),
        repository: "github.com/penberg/swarm".to_string(),
        repository_alias: "swarm".to_string(),
        workspace: "main".to_string(),
        command: vec!["cargo".to_string(), "test".to_string()],
        path: "/s/s1".to_string(),
        log_path: "/s/s1/log".to_string(),
        socket_path: "/s/s1/sock".to_string(),
        pid: Some(42),
        status: "running".to_string(),
        exit_code: None,
        created_at: 17,
        stopped_at: None,
    }
}

fn repo_command(command: RepoSubcommand) -> Command {
    Command::Repo(RepoCommand { command })
}

fn workspace_command(command: WorkspaceSubcommand) -> Command {
    Command::Workspace(WorkspaceCommand { command })
}

fn session_command(command: SessionSubcommand) -> Command {
    Command::Session(SessionCommand { command })
}

fn end(step: RunStep) -> Vec<String> {
    match step {
        RunStep::Finish(Ok(Output::Lines(lines))) => lines,
        other => panic!("unexpected {other:?}"),
    }
}

fn answer(command: Command, reply: Answer) -> RunStep {
    match run(command) {
        RunStep::Ask(lines, _, state) => {
            assert!(lines.is_empty());
            state.resume(reply)
        }
        other => panic!("unexpected {other:?}"),
    }
}

#[test]
fn commands_on_repositories_print_what_the_manual_shows() {
    let add = RepoSubcommand::Add { repository: "x".to_string(), alias: None };
    assert_eq!(end(answer(repo_command(add), Answer::Repository(repo()))), vec!["Added repo swarm"]);
    let sync = RepoSubcommand::Sync { repository: "x".to_string() };
    assert_eq!(end(answer(repo_command(sync), Answer::Repository(repo()))), vec!["Synced repo swarm"]);
    let remove = RepoSubcommand::Remove { repository: "x".to_string() };
    assert_eq!(
        end(answer(repo_command(remove), Answer::Repository(repo()))),
        vec!["Removed repo swarm"]
    );
    let list = RepoSubcommand::List { json: false };
    let mut nameless = repo();
    nameless.alias = None;
    assert_eq!(
        end(answer(repo_command(list), Answer::Repositories(vec![repo(), nameless]))),
        vec![
            "ALIAS            REPOSITORY",
            "swarm            github.com/penberg/swarm",
            "-                github.com/penberg/swarm",
        ]
    );
    let json = RepoSubcommand::List { json: true };
    assert!(matches!(
        answer(repo_command(json), Answer::Repositories(vec![])),
        RunStep::Finish(Ok(Output::Repositories(_)))
    ));
}

#[test]
fn new_workspaces_get_a_session() {
    let create = WorkspaceSubcommand::Create { repository: "swarm".to_string(), name: None };
    let step = answer(workspace_command(create), Answer::Workspace(workspace()));
    let state = match step {
        RunStep::Ask(lines, Task::StartDefaultSession(reference), state) => {
            assert_eq!(lines, vec!["Created workspace main for swarm"]);
            assert_eq!(reference, "github.com/penberg/swarm:main");
            state
        }
        other => panic!("unexpected {other:?}"),
    };
    assert_eq!(end(state.resume(Answer::Session(session()))), vec!["Created session s1"]);
    let clone = WorkspaceSubcommand::Clone {
        workspace: "swarm:main".to_string(),
        name: "feature-x".to_string(),
    };
    let mut made = workspace();
    made.name = "feature-x".to_string();
    match answer(workspace_command(clone), Answer::Workspace(made)) {
        RunStep::Ask(lines, _, _) => {
            assert_eq!(lines, vec!["Cloned workspace swarm:main to feature-x for swarm"])
        }
        other => panic!("unexpected {other:?}"),
    }
}

#[test]
fn workspaces_are_shown() {
    let info = WorkspaceSubcommand::Info { workspace: "x".to_string() };
    assert_eq!(
        end(answer(workspace_command(info), Answer::Workspace(workspace()))),
        vec![
            "Repository: github.com/penberg/swarm",
            "Workspace: main",
            "Branch: main",
            "Path: /w/main",
            "Created: 17",
        ]
    );
    let list = WorkspaceSubcommand::List { repository: "swarm".to_string(), json: false };
    assert_eq!(
        end(answer(workspace_command(list), Answer::Workspaces(vec![workspace()]))),
        vec![
            format!("{:<20} {:<20} PATH", "WORKSPACE", "BRANCH"),
            format!("{:<20} {:<20} /w/main", "main", "main"),
        ]
    );
    let remove = WorkspaceSubcommand::Remove { workspace: "x".to_string() };
    assert_eq!(
        end(answer(workspace_command(remove), Answer::Workspace(workspace()))),
        vec!["Removed workspace main from swarm"]
    );
}

#[test]
fn sessions_are_shown() {
    let list = SessionSubcommand::List { workspace: None, json: false };
    let mut idle = session();
    idle.pid = None;
    assert_eq!(
        end(answer(session_command(list), Answer::Sessions(vec![session(), idle]))),
        vec![
            format!(
                "{:<18} {:<12} {:<12} {:<20} COMMAND",
                "SESSION", "STATUS", "WORKSPACE", "PID"
            ),
            format!("{:<18} {:<12} {:<12} {:<20} cargo test", "s1", "running", "main", "42"),
            format!("{:<18} {:<12} {:<12} {:<20} cargo test", "s1", "running", "main", "-"),
        ]
    );
    let info = SessionSubcommand::Info { session: "s1".to_string() };
    let mut ended = session();
    ended.exit_code = Some(-1);
    assert_eq!(
        end(answer(session_command(info), Answer::Session(ended))),
        vec![
            "Session: s1",
            "Repository: github.com/penberg/swarm",
            "Workspace: main",
            "Status: running",
            "PID: 42",
            "Path: /s/s1",
            "Log: /s/s1/log",
            "Command: cargo test",
            "Created: 17",
            "Exited: -1",
        ]
    );
    let create = SessionSubcommand::Create {
        workspace: "swarm:main".to_string(),
        command: vec!["bash".to_string()],
    };
    assert_eq!(
        end(answer(session_command(create), Answer::Session(session()))),
        vec!["Created session s1"]
    );
    let stop = SessionSubcommand::Stop { session: "s1".to_string() };
    assert_eq!(
        end(answer(session_command(stop), Answer::Session(session()))),
        vec!["Stopped session s1"]
    );
    let remove = SessionSubcommand::Remove { session: "s1".to_string() };
    assert_eq!(
        end(answer(session_command(remove), Answer::Session(session()))),
        vec!["Removed session s1"]
    );
    let attach = SessionSubcommand::Attach { session: "s1".to_string(), follow: true };
    assert!(end(answer(session_command(attach), Answer::Done)).is_empty());
}

#[test]
fn pruning_tells_how_many() {
    let prune = Command::Prune(PruneCommand { command: PruneSubcommand::Sessions });
    assert_eq!(end(answer(prune, Answer::Count(2))), vec!["Pruned 2 sessions"]);
}

#[test]
fn a_failure_ends_a_command() {
    let add = RepoSubcommand::Add { repository: "x".to_string(), alias: None };
    match answer(repo_command(add), Answer::Failed(SwarmError::PathResolution)) {
        RunStep::Finish(Err(e)) => {
            assert_eq!(failure_line(&e), "error: failed to resolve swarm data directory");
            assert_eq!(e.exit_code(), 1);
        }
        other => panic!("unexpected {other:?}"),
    }
    let add = RepoSubcommand::Add { repository: "x".to_string(), alias: None };
    assert!(matches!(answer(repo_command(add), Answer::Done), RunStep::Mismatch));
}

#[test]
fn errors_have_messages_and_exit_codes() {
    let text = || "x".to_string();
    let cases: Vec<(SwarmError, &str, i32)> = vec![
        (SwarmError::Io(text()), "x", 1),
        (SwarmError::Json(text()), "x", 1),
        (SwarmError::Turso(text()), "x", 1),
        (
            SwarmError::Database { path: text(), operation: text(), source: text() },
            "database `x` x failed: x",
            1,
        ),
        (
            SwarmError::InvalidRepository(text()),
            "invalid repository `x`; expected host/owner/name",
            2,
        ),
        (SwarmError::DuplicateRepository(text()), "repository `x` already exists", 4),
        (SwarmError::DuplicateAlias(text()), "alias `x` already exists", 4),
        (SwarmError::RepositoryNotFound(text()), "repository `x` not found", 3),
        (SwarmError::InvalidWorkspace(text()), "invalid workspace `x`", 2),
        (
            SwarmError::InvalidWorkspaceReference(text()),
            "invalid workspace reference `x`; expected <repo>:<workspace>",
            2,
        ),
        (SwarmError::DuplicateWorkspace(text()), "workspace `x` already exists", 1),
        (SwarmError::WorkspaceNotFound(text()), "workspace `x` not found", 1),
        (SwarmError::InvalidSession(text()), "invalid session `x`", 1),
        (SwarmError::SessionNotFound(text()), "session `x` not found", 1),
        (SwarmError::SessionRunning(text()), "session `x` is still running", 1),
        (SwarmError::Git(text()), "git command failed: x", 1),
        (SwarmError::PathResolution, "failed to resolve swarm data directory", 1),
    ];
    for (error, message, code) in cases {
        assert_eq!(error.message(), message);
        assert_eq!(error.exit_code(), code);
    }
}
