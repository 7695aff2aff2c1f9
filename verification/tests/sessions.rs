use swarm::effects::{Effect, Reply, Step};
use swarm::prune::PruneStore;
use swarm::repos::{Repository, RepositoryStore};
use swarm::session_ops::{SessionOp, SessionStore, StartSession};
use swarm::sessions::{
    default_session_command, new_session_id, not_ready_error, parse_pid, prepare_session,
    read_supervisor_log, render_session_meta_toml, row_from_session, session_from_row,
    sort_sessions, status_is_live, status_is_terminal, supervisor_args, Session, SessionRow,
};
use swarm::workspaces::Workspace;

fn repos() -> RepositoryStore {
    let mut store = RepositoryStore::open("/data", vec![]).unwrap();
    store.add("github.com/penberg/swarm", None).unwrap();
    store
}

fn repo() -> Repository {
    repos().require_repository("swarm").unwrap()
}

fn workspace() -> Workspace {
    Workspace {
        repository: "github.com/penberg/swarm".to_string(),
        repository_alias: "swarm".to_string(),
        name: "main".to_string(),
        branch: "main".to_string(),
        path: "/w/main".to_string(),
        created_at: 1,
    }
}

fn row(id: &str, status: &str, pid: Option<i64>) -> SessionRow {
    SessionRow {
        id: id.to_string(),
        workspace_name: "main".to_string(),
        command_json: "[\"bash\",\"-l\"]".to_string(),
        path: format!("/s/{id}"),
        log_path: format!("/s/{id}/log"),
        socket_path: format!("/s/{id}/sock"),
        pid,
        status: status.to_string(),
        exit_code: None,
        created_at: 3,
        stopped_at: None,
    }
}

fn session(id: &str, created_at: i64) -> Session {
    let mut session = prepare_session("/s", &repo(), &workspace(), id, &vec!["x".to_string()], 0);
    session.created_at = created_at;
    session
}

fn play(
    step: Step<SessionOp, Session>,
    record: &SessionRow,
    alive: bool,
) -> (Vec<Effect>, Step<SessionOp, Session>) {
    let mut asked = Vec::new();
    let mut step = step;
    let mut signalled = false;
    for _ in 0..60 {
        let (effect, state) = match step {
            Step::Run(effect, state) => (effect, state),
            other => return (asked, other),
        };
        let reply = match &effect {
            Effect::FindSession { .. } => Reply::FoundSession(Some(record.clone())),
            Effect::ProcessExists(_) => Reply::Exists(alive && !signalled),
            Effect::Terminate(_) => {
                signalled = true;
                Reply::Done
            }
            Effect::ReadClock => Reply::Clock(99),
            Effect::ReadInstant => Reply::Instant(0),
            Effect::PathExists(_) => Reply::Exists(true),
            _ => Reply::Done,
        };
        asked.push(effect);
        step = state.resume(reply);
    }
    panic!("the operation does not end");
}

#[test]
fn the_default_command_is_a_login_shell() {
    assert_eq!(default_session_command(Some("/bin/zsh")), vec!["/bin/zsh", "-l"]);
    assert_eq!(default_session_command(None), vec!["/bin/bash", "-l"]);
}

#[test]
fn statuses_are_live_or_terminal() {
    for status in ["starting", "running"] {
        assert!(status_is_live(status));
        assert!(!status_is_terminal(status));
    }
    for status in ["stopped", "failed", "exited"] {
        assert!(status_is_terminal(status));
        assert!(!status_is_live(status));
    }
    assert!(!status_is_live("idle"));
    assert!(!status_is_terminal("idle"));
}

#[test]
fn session_ids_tell_their_time() {
    assert_eq!(new_session_id(0x1234, 0x1f), "s12341f");
    assert_eq!(new_session_id(1, 999), format!("s{:x}{:x}", 1, 999));
    assert_ne!(new_session_id(0x1234, 5), new_session_id(0x1235, 5));
}

#[test]
fn a_recorded_session_reads_back() {
    let first = session("s1", 7);
    let row = row_from_session(&first).unwrap();
    assert_eq!(row.command_json, "[\"x\"]");
    let second = session_from_row(&repo(), &row).unwrap();
    assert_eq!(second.id, first.id);
    assert_eq!(second.command, first.command);
    assert_eq!(second.created_at, 7);
    assert_eq!(second.repository, "github.com/penberg/swarm");
}

#[test]
fn commands_are_recorded_with_escapes() {
    let mut first = session("s1", 7);
    first.command = vec!["a \"b\"".to_string(), "\n".to_string()];
    let row = row_from_session(&first).unwrap();
    assert_eq!(row.command_json, "[\"a \\\"b\\\"\",\"\\n\"]");
    assert_eq!(session_from_row(&repo(), &row).unwrap().command, first.command);
}

#[test]
fn a_command_that_cannot_be_read_is_an_error() {
    let mut record = row("s1", "running", None);
    record.command_json = "[1]".to_string();
    let error = session_from_row(&repo(), &record).err().unwrap();
    let expected = serde_json::from_str::<Vec<String>>("[1]").err().unwrap();
    assert_eq!(error.message(), expected.to_string());
}

#[test]
fn a_session_is_prepared_under_its_directory() {
    let session = session("s9", 0);
    assert_eq!(session.path, "/s/s9");
    assert_eq!(session.log_path, "/s/s9/log");
    assert_eq!(session.socket_path, "/s/s9/sock");
    assert_eq!(session.status, "starting");
    assert_eq!(
        supervisor_args(&repo(), "/data/repo.db", &workspace(), &session),
        vec![
            "session", "serve", "github.com/penberg/swarm", "/data/repo.db", "main", "s9", "/s/s9",
            "/w/main", "--", "x"
        ]
    );
}

#[test]
fn a_session_that_does_not_start_tells_the_last_line_of_its_log() {
    assert_eq!(read_supervisor_log(Some("one\ntwo\n")), ": two");
    assert_eq!(read_supervisor_log(Some(" \n")), "");
    assert_eq!(read_supervisor_log(None), "");
    assert_eq!(
        not_ready_error("s1", ": two").message(),
        "invalid session `session `s1` did not become ready: two`"
    );
}

#[test]
fn process_files_hold_a_number() {
    assert_eq!(parse_pid(Some(" 42\n")), Some(42));
    assert_eq!(parse_pid(Some("x")), None);
    assert_eq!(parse_pid(None), None);
}

#[test]
fn metadata_of_a_session_is_quoted() {
    assert_eq!(
        render_session_meta_toml(
            "github.com/a/b",
            "main",
            "s1",
            &vec!["sh".to_string(), "-c".to_string(), "\"".to_string()],
            "/s/log",
            "/s/sock",
            12
        ),
        "id = \"s1\"\nrepository = \"github.com/a/b\"\nworkspace = \"main\"\npid = 12\nlog = \"/s/log\"\nsocket = \"/s/sock\"\ncommand = [\"sh\", \"-c\", \"\\\"\"]\n"
    );
}

#[test]
fn sessions_are_sorted_by_their_creation() {
    let sorted = sort_sessions(vec![session("c", 3), session("a", 1), session("b", 1)]);
    let ids: Vec<String> = sorted.into_iter().map(|s| s.id).collect();
    assert_eq!(ids, vec!["a", "b", "c"]);
}

#[test]
fn a_running_session_can_not_be_removed() {
    let store = SessionStore::open(repos());
    let (asked, end) = play(store.remove("s1"), &row("s1", "running", Some(5)), true);
    match end {
        Step::Finish(Err(e)) => assert_eq!(e.message(), "session `s1` is still running"),
        other => panic!("unexpected {other:?}"),
    }
    assert!(!asked.iter().any(|e| matches!(e, Effect::DeleteSession { .. })));
}

#[test]
fn a_stopped_session_can_be_removed() {
    let store = SessionStore::open(repos());
    let (asked, end) = play(store.remove("s1"), &row("s1", "stopped", Some(5)), false);
    assert!(matches!(end, Step::Finish(Ok(_))));
    assert!(asked.iter().any(|e| matches!(e, Effect::DeleteSession { id, .. } if id == "s1")));
}

#[test]
fn stopping_ends_the_process_and_records_it() {
    let store = SessionStore::open(repos());
    let (asked, end) = play(store.stop("s1"), &row("s1", "running", Some(5)), true);
    match end {
        Step::Finish(Ok(session)) => assert_eq!(session.status, "stopped"),
        other => panic!("unexpected {other:?}"),
    }
    assert!(asked.iter().any(|e| matches!(e, Effect::Terminate(5))));
    assert!(asked
        .iter()
        .any(|e| matches!(e, Effect::EndSession { status, .. } if status == "stopped")));
}

#[test]
fn a_session_that_is_gone_is_not_found() {
    let store = SessionStore::open(repos());
    let mut step = store.info("s1");
    for _ in 0..5 {
        step = match step {
            Step::Run(_, state) => state.resume(Reply::FoundSession(None)),
            other => other,
        };
    }
    match step {
        Step::Finish(Err(e)) => assert_eq!(e.message(), "session `s1` not found"),
        other => panic!("unexpected {other:?}"),
    }
}

#[test]
fn a_session_needs_a_command() {
    let store = SessionStore::open(repos());
    match store.create("swarm:main", &vec![]) {
        Step::Finish(Err(e)) => assert_eq!(e.message(), "invalid session `missing command`"),
        other => panic!("unexpected {other:?}"),
    }
}

#[test]
fn pruning_removes_what_has_ended() {
    let store = PruneStore::open(repos());
    let mut step = store.sessions();
    let mut deleted: Vec<String> = Vec::new();
    let records = vec![
        row("a", "exited", None),
        row("b", "running", Some(1)),
        row("c", "failed", None),
    ];
    for _ in 0..60 {
        step = match step {
            Step::Run(effect, state) => {
                let reply = match &effect {
                    Effect::ListSessions { .. } => Reply::SessionRows(records.clone()),
                    Effect::FindSession { id, .. } => Reply::FoundSession(
                        records.iter().find(|r| &r.id == id).cloned(),
                    ),
                    Effect::ProcessExists(_) => Reply::Exists(true),
                    Effect::ReadClock => Reply::Clock(1),
                    Effect::PathExists(_) => Reply::Exists(true),
                    Effect::DeleteSession { id, .. } => {
                        deleted.push(id.clone());
                        Reply::Done
                    }
                    _ => Reply::Done,
                };
                state.resume(reply)
            }
            other => other,
        };
    }
    match step {
        Step::Finish(Ok(count)) => assert_eq!(count, 2),
        other => panic!("unexpected {other:?}"),
    }
    assert_eq!(deleted, vec!["a", "c"]);
}

fn start(ready_after: usize, log: &str) -> (Vec<Effect>, Step<StartSession, Session>) {
    let store = SessionStore::open(repos());
    let mut asked = Vec::new();
    let mut recorded: Option<SessionRow> = None;
    let mut probes: usize = 0;
    let mut instant: u64 = 0;
    let mut step = store.create("swarm:main", &vec!["make".to_string()]);
    for _ in 0..400 {
        let (effect, state) = match step {
            Step::Run(effect, state) => (effect, state),
            other => return (asked, other),
        };
        let reply = match &effect {
            Effect::ResolveWorkspace(reference) => {
                assert_eq!(reference, "swarm:main");
                Reply::Resolved { repo: repo(), workspace: workspace() }
            }
            Effect::ReadTime => Reply::Time { secs: 0x10, millis: 0x2 },
            Effect::ReadClock => Reply::Clock(7),
            Effect::ReadInstant => {
                instant += 500_000_000;
                Reply::Instant(instant)
            }
            Effect::PathExists(_) => {
                probes += 1;
                Reply::Exists(probes > ready_after)
            }
            Effect::InsertSession { record, .. } => {
                recorded = Some(record.clone());
                Reply::Done
            }
            Effect::RunSession { pid, .. } => {
                let mut record = recorded.clone().unwrap();
                record.pid = *pid;
                record.status = "running".to_string();
                recorded = Some(record);
                Reply::Done
            }
            Effect::ReadFile(path) if path.ends_with("child.pid") => {
                Reply::Text(Some("42\n".to_string()))
            }
            Effect::ReadFile(_) => Reply::Text(Some(log.to_string())),
            Effect::FindSession { .. } => Reply::FoundSession(recorded.clone()),
            Effect::ProcessExists(_) => Reply::Exists(true),
            _ => Reply::Done,
        };
        asked.push(effect);
        step = state.resume(reply);
    }
    panic!("the operation does not end");
}

#[test]
fn a_session_is_recorded_before_it_runs() {
    let (asked, end) = start(2, "");
    match end {
        Step::Finish(Ok(session)) => {
            assert_eq!(session.id, "s102");
            assert_eq!(session.status, "running");
            assert_eq!(session.pid, Some(42));
            assert_eq!(session.command, vec!["make"]);
            assert_eq!(session.created_at, 7);
        }
        other => panic!("unexpected {other:?}"),
    }
    let recorded = asked.iter().position(|e| matches!(e, Effect::InsertSession { .. })).unwrap();
    let spawned = asked.iter().position(|e| matches!(e, Effect::SpawnSupervisor { .. })).unwrap();
    let running = asked.iter().position(|e| matches!(e, Effect::RunSession { .. })).unwrap();
    assert!(recorded < spawned && spawned < running);
    assert_eq!(asked.iter().filter(|e| matches!(e, Effect::Sleep(50))).count(), 2);
    assert!(!asked.iter().any(|e| matches!(e, Effect::FailSession { .. })));
}

#[test]
fn a_session_without_a_sign_of_life_is_given_up() {
    let (asked, end) = start(1000, "starting\nno such file\n");
    match end {
        Step::Finish(Err(e)) => assert_eq!(
            e.message(),
            "invalid session `session `s102` did not become ready: no such file`"
        ),
        other => panic!("unexpected {other:?}"),
    }
    assert!(asked.iter().any(|e| matches!(e, Effect::FailSession { id, stopped_at: 7, .. } if id == "s102")));
    assert!(!asked.iter().any(|e| matches!(e, Effect::RunSession { .. })));
    assert_eq!(asked.iter().filter(|e| matches!(e, Effect::Sleep(_))).count(), 5);
}

#[test]
fn a_session_whose_process_is_gone_has_exited() {
    let store = SessionStore::open(repos());
    let (asked, end) = play(store.info("s1"), &row("s1", "running", Some(5)), false);
    match end {
        Step::Finish(Ok(session)) => {
            assert_eq!(session.status, "exited");
            assert_eq!(session.pid, None);
            assert_eq!(session.stopped_at, Some(99));
        }
        other => panic!("unexpected {other:?}"),
    }
    assert!(asked.iter().any(|e| matches!(e, Effect::EndSession { status, .. } if status == "exited")));
    let (asked, end) = play(store.info("s1"), &row("s1", "running", Some(5)), true);
    match end {
        Step::Finish(Ok(session)) => assert_eq!(session.status, "running"),
        other => panic!("unexpected {other:?}"),
    }
    assert!(!asked.iter().any(|e| matches!(e, Effect::EndSession { .. })));
}

#[test]
fn a_stopped_session_is_not_stopped_again() {
    let store = SessionStore::open(repos());
    let mut record = row("s1", "stopped", None);
    record.stopped_at = Some(50);
    let (asked, end) = play(store.stop("s1"), &record, true);
    match end {
        Step::Finish(Ok(session)) => {
            assert_eq!(session.status, "stopped");
            assert_eq!(session.stopped_at, Some(50));
        }
        other => panic!("unexpected {other:?}"),
    }
    assert!(!asked.iter().any(|e| matches!(e, Effect::Terminate(_) | Effect::EndSession { .. })));
}

#[test]
fn a_running_session_is_attached_and_an_ended_one_is_printed() {
    let store = SessionStore::open(repos());
    let (asked, end) = play(store.attach("s1"), &row("s1", "running", Some(5)), true);
    assert!(matches!(end, Step::Finish(Ok(_))));
    assert!(matches!(asked.last(), Some(Effect::AttachSocket(path)) if path == "/s/s1/sock"));
    let (asked, end) = play(store.attach("s1"), &row("s1", "exited", None), false);
    assert!(matches!(end, Step::Finish(Ok(_))));
    assert!(matches!(asked.last(), Some(Effect::PrintFile(path)) if path == "/s/s1/log"));
}

#[test]
fn sessions_of_one_workspace_are_listed() {
    let store = SessionStore::open(repos());
    let mut asked = Vec::new();
    let mut step = store.list(Some("swarm:main"));
    for _ in 0..20 {
        step = match step {
            Step::Run(effect, state) => {
                let reply = match &effect {
                    Effect::ResolveWorkspace(_) => {
                        Reply::Resolved { repo: repo(), workspace: workspace() }
                    }
                    Effect::ListSessions { .. } => {
                        Reply::SessionRows(vec![row("b", "exited", None), row("a", "failed", None)])
                    }
                    other => panic!("unexpected {other:?}"),
                };
                asked.push(effect);
                state.resume(reply)
            }
            other => other,
        };
    }
    match step {
        Step::Finish(Ok(list)) => {
            let ids: Vec<String> = list.into_iter().map(|s| s.id).collect();
            assert_eq!(ids, vec!["b", "a"]);
        }
        other => panic!("unexpected {other:?}"),
    }
    assert!(matches!(asked.last(), Some(Effect::ListSessions { db_path, workspace })
        if db_path == "/data/repos/github.com/penberg/swarm/repo.db"
            && workspace.as_deref() == Some("main")));
}
