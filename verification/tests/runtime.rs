use swarm::attach::{attach_banner, attach_to_socket, AttachEffect, AttachReply, AttachStep};
use swarm::bindings::{binding_plan, header_search, headers_of_build, HeaderSearch};
use swarm::effects::Effect;
use swarm::error::SwarmError;
use swarm::runtime::{
    can_pass, child_environment, decode_wait_status, initial_window_size, process_exists,
    reap_process, serve_runtime, shared_target_dir, spawned_child, supervisor_executable,
    terminate_process, workspace_prompt, CallFailure, ProcessError, WaitOutcome, WindowSize,
};
use swarm::schema::{migrate_repo_db, SchemaEffect, SchemaReply, SchemaStep};
use swarm::serve_loop::{session_event_loop, LoopEffect, LoopReply, LoopStep, ServeLoop};

fn failure(error: ProcessError) -> CallFailure {
    CallFailure { error, message: "call failed".to_string() }
}

#[test]
fn a_session_is_served_from_its_directory() {
    let paths = serve_runtime("/s/1", &vec!["sh".to_string()]).unwrap();
    assert_eq!(paths.socket_path, "/s/1/sock");
    assert_eq!(paths.log_path, "/s/1/log");
    assert_eq!(paths.pid_path, "/s/1/child.pid");
    assert_eq!(paths.meta_path, "/s/1/meta.toml");
    assert_eq!(paths.ready_path, "/s/1/ready");
    let error = serve_runtime("/s/1", &vec![]).err().unwrap();
    assert_eq!(error.message(), "invalid session `missing command`");
}

#[test]
fn a_process_that_is_gone_needs_no_end() {
    assert!(terminate_process(None).is_ok());
    assert!(terminate_process(Some(failure(ProcessError::NoSuchProcess))).is_ok());
    assert!(terminate_process(Some(failure(ProcessError::NotPermitted))).is_err());
    assert!(process_exists(None).unwrap());
    assert!(process_exists(Some(failure(ProcessError::NotPermitted))).unwrap());
    assert!(!process_exists(Some(failure(ProcessError::NoSuchProcess))).unwrap());
    assert!(process_exists(Some(failure(ProcessError::Other))).is_err());
}

#[test]
fn ended_children_are_reaped() {
    assert_eq!(reap_process(WaitOutcome::Running).unwrap(), None);
    assert_eq!(reap_process(WaitOutcome::Ended(256)).unwrap(), Some(256));
    assert_eq!(
        reap_process(WaitOutcome::Failed(failure(ProcessError::NoChild))).unwrap(),
        Some(0)
    );
    assert!(reap_process(WaitOutcome::Failed(failure(ProcessError::Other))).is_err());
}

#[test]
fn wait_statuses_are_decoded() {
    assert_eq!(decode_wait_status(0), Some(0));
    assert_eq!(decode_wait_status(3 << 8), Some(3));
    assert_eq!(decode_wait_status(9), Some(137));
    assert_eq!(decode_wait_status(15 | 0x80), Some(143));
    assert_eq!(decode_wait_status(0x7f), None);
    for status in 0..0x10000 {
        let expected = if libc::WIFEXITED(status) {
            Some(libc::WEXITSTATUS(status))
        } else if libc::WIFSIGNALED(status) {
            Some(128 + libc::WTERMSIG(status))
        } else {
            None
        };
        assert_eq!(decode_wait_status(status), expected);
    }
}

#[test]
fn a_terminal_has_a_size_at_first() {
    let size = initial_window_size(None);
    assert_eq!((size.rows, size.cols), (24, 80));
    let given = WindowSize { rows: 3, cols: 4, width: 5, height: 6 };
    assert_eq!(initial_window_size(Some(given)), given);
}

#[test]
fn the_environment_tells_the_workspace() {
    assert_eq!(workspace_prompt("/r/workspaces/main").as_deref(), Some("main> "));
    assert_eq!(workspace_prompt("/"), None);
    assert_eq!(shared_target_dir("/r/workspaces/main").as_deref(), Some("/r/target"));
    let plain = child_environment("/r/workspaces/main", false);
    assert_eq!(plain.len(), 1);
    assert_eq!(plain[0].name, "PS1");
    let cargo = child_environment("/r/workspaces/main", true);
    assert_eq!(cargo[1].name, "CARGO_TARGET_DIR");
    assert_eq!(cargo[1].value, "/r/target");
    assert!(!cargo[1].replace);
    assert!(can_pass(&vec!["a".to_string()]));
    assert!(!can_pass(&vec!["a\0".to_string()]));
}

#[test]
fn a_fork_gives_a_child_or_an_error() {
    assert_eq!(spawned_child(7, 3, "").unwrap(), 7);
    assert!(matches!(spawned_child(-1, 3, "no fork"), Err(SwarmError::Io(_))));
    assert!(matches!(spawned_child(7, -1, ""), Err(SwarmError::InvalidSession(_))));
}

#[test]
fn the_supervisor_stands_beside_the_program() {
    assert_eq!(supervisor_executable("/usr/bin/swarm-ui", true), "/usr/bin/swarmctl");
    assert_eq!(supervisor_executable("/usr/bin/swarm-ui", false), "/usr/bin/swarm-ui");
}

#[test]
fn what_a_session_writes_is_logged_before_it_is_sent() {
    let mut asked: Vec<String> = Vec::new();
    let mut step = session_event_loop("/r/repo.db", "s1");
    let mut accepted = false;
    for _ in 0..20 {
        step = match step {
            LoopStep::Run(effect, state) => {
                asked.push(format!("{effect:?}"));
                let reply = match effect {
                    LoopEffect::Poll(clients) => LoopReply::Polled {
                        listener: !accepted,
                        terminal: accepted,
                        clients: vec![false; clients.len()],
                    },
                    LoopEffect::ReadTerminal => LoopReply::Bytes(b"hi".to_vec()),
                    LoopEffect::SendClient { .. } => LoopReply::Sent(true),
                    LoopEffect::Accept if accepted => LoopReply::NoClient,
                    LoopEffect::Accept => {
                        accepted = true;
                        LoopReply::Accepted(4)
                    }
                    LoopEffect::Reap => LoopReply::Reaped(None),
                    _ => LoopReply::Done,
                };
                state.resume(reply)
            }
            other => panic!("unexpected {other:?}"),
        };
    }
    let log = asked.iter().position(|e| e.starts_with("AppendLog")).unwrap();
    let send = asked.iter().position(|e| e.starts_with("SendClient")).unwrap();
    assert!(log < send);
    assert!(asked[send].contains("client: 4"));
    assert!(asked[send].contains("[104, 105]"));
}

fn run(step: LoopStep) -> (LoopEffect, ServeLoop) {
    match step {
        LoopStep::Run(effect, state) => (effect, state),
        other => panic!("unexpected {other:?}"),
    }
}

fn polling_with(clients: &[u64]) -> ServeLoop {
    let (_, state) = run(session_event_loop("/r/repo.db", "s1"));
    let reply = LoopReply::Polled { listener: true, terminal: false, clients: vec![] };
    let (_, mut state) = run(state.resume(reply));
    for client in clients {
        state = run(state.resume(LoopReply::Accepted(*client))).1;
    }
    let (_, state) = run(state.resume(LoopReply::NoClient));
    let (effect, state) = run(state.resume(LoopReply::Reaped(None)));
    assert!(matches!(effect, LoopEffect::Poll(all) if all == clients));
    state
}

fn sent_to(state: ServeLoop, ready: &[bool], answers: &[bool]) -> (LoopEffect, ServeLoop) {
    let reply = LoopReply::Polled { listener: false, terminal: true, clients: ready.to_vec() };
    let (_, state) = run(state.resume(reply));
    let (_, state) = run(state.resume(LoopReply::Bytes(vec![7])));
    let (mut effect, mut state) = run(state.resume(LoopReply::Done));
    for answer in answers {
        assert!(matches!(effect, LoopEffect::SendClient { .. }));
        (effect, state) = run(state.resume(LoopReply::Sent(*answer)));
    }
    (effect, state)
}

#[test]
fn a_client_that_closes_while_it_is_sent_to_leaves_the_session() {
    let (effect, state) = sent_to(polling_with(&[4]), &[true], &[false]);
    assert!(matches!(effect, LoopEffect::Reap));
    let (effect, _) = run(state.resume(LoopReply::Reaped(None)));
    assert!(matches!(effect, LoopEffect::Poll(clients) if clients.is_empty()));
}

#[test]
fn the_other_clients_stay_with_what_was_ready_of_them() {
    let (effect, state) =
        sent_to(polling_with(&[4, 5, 6, 7]), &[true, true, false, true], &[false, true, true, true]);
    assert!(matches!(effect, LoopEffect::ReadClient(7)));
    let (effect, state) = run(state.resume(LoopReply::Quiet));
    assert!(matches!(effect, LoopEffect::ReadClient(5)));
    let (effect, state) = run(state.resume(LoopReply::Bytes(b"x".to_vec())));
    assert!(matches!(effect, LoopEffect::WriteTerminal(bytes) if bytes == b"x"));
    let (effect, state) = run(state.resume(LoopReply::Done));
    assert!(matches!(effect, LoopEffect::Reap));
    let (effect, _) = run(state.resume(LoopReply::Reaped(None)));
    assert!(matches!(effect, LoopEffect::Poll(clients) if clients == [5, 6, 7]));
}

#[test]
fn clients_that_end_while_they_are_read_are_dropped_one_by_one() {
    let state = polling_with(&[4, 5, 6]);
    let reply =
        LoopReply::Polled { listener: false, terminal: false, clients: vec![true, false, true] };
    let (effect, state) = run(state.resume(reply));
    assert!(matches!(effect, LoopEffect::ReadClient(6)));
    let (effect, state) = run(state.resume(LoopReply::Bytes(vec![])));
    assert!(matches!(effect, LoopEffect::ReadClient(4)));
    let (effect, state) = run(state.resume(LoopReply::Broken));
    assert!(matches!(effect, LoopEffect::Reap));
    let (effect, _) = run(state.resume(LoopReply::Reaped(None)));
    assert!(matches!(effect, LoopEffect::Poll(clients) if clients == [5]));
}

#[test]
fn the_loop_ends_once_the_exit_is_recorded() {
    let state = polling_with(&[]);
    let reply = LoopReply::Polled { listener: false, terminal: false, clients: vec![] };
    let (effect, state) = run(state.resume(reply));
    assert!(matches!(effect, LoopEffect::Reap));
    let (_, state) = run(state.resume(LoopReply::Reaped(Some(0x300))));
    let (effect, state) = run(state.resume(LoopReply::Clock(9)));
    match effect {
        LoopEffect::Record(Effect::ExitSession { db_path, id, exit_code, stopped_at }) => {
            assert_eq!((db_path.as_str(), id.as_str()), ("/r/repo.db", "s1"));
            assert_eq!((exit_code, stopped_at), (Some(3), 9));
        }
        other => panic!("unexpected {other:?}"),
    }
    assert!(matches!(state.resume(LoopReply::Done), LoopStep::Finish(Ok(()))));
}

#[test]
fn a_signal_is_recorded_and_a_failed_record_is_told() {
    let reply = LoopReply::Polled { listener: false, terminal: false, clients: vec![] };
    let (_, state) = run(polling_with(&[]).resume(reply));
    let (_, state) = run(state.resume(LoopReply::Reaped(Some(9))));
    let (effect, state) = run(state.resume(LoopReply::Clock(5)));
    assert!(matches!(
        effect,
        LoopEffect::Record(Effect::ExitSession { exit_code: Some(137), stopped_at: 5, .. })
    ));
    let failed = LoopReply::Failed(SwarmError::Io("locked".to_string()));
    assert!(matches!(state.resume(failed), LoopStep::Finish(Err(SwarmError::Io(_)))));
}

#[test]
fn the_log_gets_what_the_terminal_writes_in_order() {
    let mut step = LoopStep::Run(LoopEffect::Poll(vec![]), polling_with(&[]));
    let mut chunks = vec![b"ab".to_vec(), vec![], b"c".to_vec()].into_iter();
    let mut log: Vec<u8> = Vec::new();
    let mut ended = false;
    let end = loop {
        let (effect, state) = match step {
            LoopStep::Run(effect, state) => (effect, state),
            other => break other,
        };
        step = state.resume(match effect {
            LoopEffect::Poll(_) => {
                LoopReply::Polled { listener: false, terminal: true, clients: vec![] }
            }
            LoopEffect::ReadTerminal => {
                let chunk = chunks.next();
                ended = chunk.is_none();
                LoopReply::Bytes(chunk.unwrap_or_default())
            }
            LoopEffect::AppendLog(bytes) => {
                log.extend(bytes);
                LoopReply::Done
            }
            LoopEffect::Reap => LoopReply::Reaped(if ended { Some(0) } else { None }),
            LoopEffect::ReadClock => LoopReply::Clock(1),
            _ => LoopReply::Done,
        });
    };
    assert!(matches!(end, LoopStep::Finish(Ok(()))));
    assert_eq!(log, b"abc");
}

#[test]
fn an_answer_that_does_not_fit_is_a_mismatch() {
    let reply = LoopReply::Polled { listener: false, terminal: true, clients: vec![true] };
    assert!(matches!(polling_with(&[4, 5]).resume(reply), LoopStep::Mismatch));
    assert!(matches!(polling_with(&[]).resume(LoopReply::Done), LoopStep::Mismatch));
}

#[test]
fn what_is_typed_is_sent_up_to_the_detach_byte() {
    assert_eq!(attach_banner(), "[attached, press Ctrl-] to detach]\r\n");
    let state = match attach_to_socket() {
        AttachStep::Run(AttachEffect::Wait, state) => state,
        other => panic!("unexpected {other:?}"),
    };
    let state = match state.resume(AttachReply::Ready { input: true, session: false }) {
        AttachStep::Run(AttachEffect::ReadInput, state) => state,
        other => panic!("unexpected {other:?}"),
    };
    let (sent, state) = match state.resume(AttachReply::Bytes(b"ab\x1dcd".to_vec())) {
        AttachStep::Run(AttachEffect::Send(bytes), state) => (bytes, state),
        other => panic!("unexpected {other:?}"),
    };
    assert_eq!(sent, b"ab");
    assert!(matches!(
        state.resume(AttachReply::Done),
        AttachStep::Finish { result: Ok(()), .. }
    ));
}

#[test]
fn tables_with_other_columns_are_made_anew() {
    let mut batches = 0;
    let mut step = migrate_repo_db("/data/repo.db");
    for _ in 0..10 {
        step = match step {
            SchemaStep::Run(SchemaEffect::Batch(sql), state) => {
                batches += 1;
                if batches == 2 {
                    assert!(sql.starts_with("DROP TABLE workspaces; CREATE TABLE workspaces ("));
                }
                state.resume(SchemaReply::Done)
            }
            SchemaStep::Run(SchemaEffect::Columns(table), state) => {
                let columns: Vec<String> = if table == "workspaces" {
                    vec!["name".to_string()]
                } else {
                    [
                        "id", "workspace_name", "command_json", "path", "log_path", "socket_path",
                        "pid", "status", "exit_code", "created_at", "stopped_at",
                    ]
                    .iter()
                    .map(|c| c.to_string())
                    .collect()
                };
                state.resume(SchemaReply::Columns(columns))
            }
            other => other,
        };
    }
    assert!(matches!(step, SchemaStep::Finish(Ok(()))));
    assert_eq!(batches, 2);
}

#[test]
fn a_failed_migration_tells_what_it_did() {
    let state = match migrate_repo_db("/data/repo.db") {
        SchemaStep::Run(_, state) => state,
        other => panic!("unexpected {other:?}"),
    };
    match state.resume(SchemaReply::Failed("locked".to_string())) {
        SchemaStep::Finish(Err(e)) => assert_eq!(
            e.message(),
            "database `/data/repo.db` initialize schema failed: locked"
        ),
        other => panic!("unexpected {other:?}"),
    }
}

#[test]
fn headers_are_searched_for_in_order() {
    let given = header_search(Some("/h".to_string()), Some("/s".to_string()), "/r/a/b");
    assert!(matches!(given, HeaderSearch::Given(dir) if dir == "/h"));
    let sources = header_search(None, Some("/s".to_string()), "/r/a/b");
    assert!(matches!(sources, HeaderSearch::Given(dir) if dir == "/s/zig-out/include"));
    let builds = header_search(None, None, "/r/a/b");
    assert!(matches!(builds, HeaderSearch::Builds(dir) if dir == "/r/target/debug/build"));
    assert!(matches!(header_search(None, None, "/"), HeaderSearch::Rootless));
    assert_eq!(
        headers_of_build("libghostty-vt-sys-12", "/b/x").as_deref(),
        Some("/b/x/out/ghostty-install/include")
    );
    assert_eq!(headers_of_build("other", "/b/x"), None);
    let plan = binding_plan("/h", "/c");
    assert_eq!(plan.header, "/h/ghostty/vt.h");
    assert_eq!(plan.search_arg, "-I/h");
    assert_eq!(plan.output, "/c/src/bindings.rs");
}
