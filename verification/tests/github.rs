use swarm::effects::CommandOutput;
use swarm::forges::github::{
    branch_name, commit_count, create_pull_request, format_command_stderr, github_remote_query,
    is_github_remote, is_github_workspace, parse_pull_request_status, pull_request_status,
    summarize_checks, workspace_commits_ahead, workspace_pull_request_status, Check, CreateOutcome,
    ForgeCommand, ForgeReply, ForgeStep, Payload, PullRequestStatusState,
};

fn check(conclusion: Option<&str>, status: Option<&str>) -> Check {
    Check {
        conclusion: conclusion.map(str::to_string),
        status: status.map(str::to_string),
        state: None,
    }
}

fn ran(success: bool, stdout: &str, stderr: &str) -> ForgeReply {
    ForgeReply::Ran(CommandOutput {
        success,
        status: if success { "exit status: 0" } else { "exit status: 1" }.to_string(),
        stdout: stdout.as_bytes().to_vec(),
        stderr: stderr.as_bytes().to_vec(),
    })
}

fn line(command: &ForgeCommand) -> String {
    format!("{} {}", command.program, command.args.join(" "))
}

fn object(fields: &[(&str, serde_json::Value)]) -> serde_json::Value {
    let mut map = serde_json::Map::new();
    for (key, value) in fields {
        map.insert(key.to_string(), value.clone());
    }
    serde_json::Value::Object(map)
}

fn text(value: &str) -> serde_json::Value {
    serde_json::Value::String(value.to_string())
}

#[test]
fn reports_failing_checks() {
    let checks = vec![
        check(Some("SUCCESS"), Some("COMPLETED")),
        check(Some("FAILURE"), Some("COMPLETED")),
    ];

    assert_eq!(summarize_checks(&checks), PullRequestStatusState::Failure);
}

#[test]
fn reports_pending_checks() {
    let checks = vec![check(None, Some("IN_PROGRESS"))];

    assert_eq!(summarize_checks(&checks), PullRequestStatusState::Pending);
}

#[test]
fn reports_successful_checks() {
    let checks = vec![
        check(Some("SUCCESS"), Some("COMPLETED")),
        check(Some("SKIPPED"), Some("COMPLETED")),
    ];

    assert_eq!(summarize_checks(&checks), PullRequestStatusState::Success);
}

#[test]
fn a_failure_decides_whatever_the_order() {
    let failing = check(Some("TIMED_OUT"), Some("COMPLETED"));
    let pending = check(None, Some("QUEUED"));
    let passing = check(Some("NEUTRAL"), Some("COMPLETED"));
    assert_eq!(
        summarize_checks(&vec![pending.clone(), failing.clone(), passing.clone()]),
        PullRequestStatusState::Failure
    );
    assert_eq!(
        summarize_checks(&vec![failing, passing, pending]),
        PullRequestStatusState::Failure
    );
    assert_eq!(summarize_checks(&vec![]), PullRequestStatusState::Pending);
}

#[test]
fn parses_open_pull_request_payload() {
    let payload = object(&[
        ("number", serde_json::Value::from(42)),
        ("state", text("OPEN")),
        (
            "statusCheckRollup",
            serde_json::Value::Array(vec![object(&[
                ("conclusion", text("SUCCESS")),
                ("status", text("COMPLETED")),
            ])]),
        ),
        ("url", text("https://github.com/example/repo/pull/42")),
    ]);

    let status = parse_pull_request_status(&payload.to_string().into_bytes())
        .expect("payload should parse")
        .expect("status should exist");

    assert_eq!(status.number, 42);
    assert_eq!(status.state, PullRequestStatusState::Success);
    assert_eq!(status.summary, "PR #42 checks passing");
    assert_eq!(
        status.url.as_deref(),
        Some("https://github.com/example/repo/pull/42")
    );
}

#[test]
fn parses_merged_pull_request_payload() {
    let payload = object(&[
        ("number", serde_json::Value::from(42)),
        ("state", text("MERGED")),
        ("statusCheckRollup", serde_json::Value::Array(vec![])),
    ]);

    let status = parse_pull_request_status(&payload.to_string().into_bytes())
        .expect("payload should parse")
        .expect("status should exist");

    assert_eq!(status.number, 42);
    assert_eq!(status.state, PullRequestStatusState::Merged);
    assert_eq!(status.summary, "PR #42 merged");
}

#[test]
fn ignores_closed_pull_requests() {
    let payload = object(&[
        ("number", serde_json::Value::from(42)),
        ("state", text("CLOSED")),
        ("statusCheckRollup", serde_json::Value::Array(vec![])),
    ]);

    let status = parse_pull_request_status(&payload.to_string().into_bytes())
        .expect("payload should parse");

    assert!(status.is_none());
}

#[test]
fn a_payload_that_is_no_json_is_an_error() {
    let error = parse_pull_request_status(&b"{".to_vec()).err().expect("should fail");
    let expected = serde_json::from_slice::<serde_json::Value>(b"{").err().unwrap();
    assert_eq!(error.message(), expected.to_string());
    assert_eq!(error.exit_code(), 1);
}

#[test]
fn a_payload_without_a_number_has_no_status() {
    let payload = object(&[("state", text("OPEN"))]);
    let status = parse_pull_request_status(&payload.to_string().into_bytes()).unwrap();
    assert!(status.is_none());
    let payload = object(&[("number", text("42")), ("state", text("OPEN"))]);
    let status = parse_pull_request_status(&payload.to_string().into_bytes()).unwrap();
    assert!(status.is_none());
}

#[test]
fn an_open_pull_request_with_a_running_check_is_pending() {
    let status = pull_request_status(&Payload {
        number: Some(7),
        state: Some("OPEN".to_string()),
        url: None,
        checks: vec![check(None, Some("IN_PROGRESS"))],
    })
    .unwrap();
    assert_eq!(status.summary, "PR #7 checks pending");
    assert_eq!(status.state, PullRequestStatusState::Pending);
}

#[test]
fn drops_warning_lines_when_real_error_exists() {
    let stderr = br#"
Warning: 1 uncommitted change
aborted: you must first push the current branch to a remote, or use the --head flag
"#;

    assert_eq!(
        format_command_stderr(&stderr.to_vec()),
        "aborted: you must first push the current branch to a remote, or use the --head flag"
    );
}

#[test]
fn keeps_warning_when_it_is_the_only_output() {
    let stderr = b"Warning: 1 uncommitted change\n";

    assert_eq!(
        format_command_stderr(&stderr.to_vec()),
        "Warning: 1 uncommitted change"
    );
}

#[test]
fn error_output_settles() {
    for stderr in ["", " \r\n\t\n", " a \r\n\nWarning: b\n c", "Warning: a\n Warning: b \n"] {
        let once = format_command_stderr(&stderr.as_bytes().to_vec());
        assert_eq!(format_command_stderr(&once.as_bytes().to_vec()), once);
        assert_eq!(once.is_empty(), stderr.trim().is_empty());
    }
    let stderr = " a \r\n\nWarning: b\n c".as_bytes().to_vec();
    assert_eq!(format_command_stderr(&stderr), "a\nc");
}

#[test]
fn error_output_that_is_no_text_is_read_with_replacements() {
    assert_eq!(format_command_stderr(&vec![b'a', 0xff, b'b']), "a\u{fffd}b");
}

#[test]
fn only_github_remotes_are_asked() {
    assert!(is_github_remote("git@github.com:penberg/swarm.git"));
    assert!(is_github_remote("https://github.com/penberg/swarm.git"));
    assert!(!is_github_remote("https://gitlab.com/penberg/swarm.git"));
    assert!(is_github_workspace(&ran(true, "https://github.com/a/b.git\n", "")));
    assert!(!is_github_workspace(&ran(false, "https://github.com/a/b.git\n", "")));
    assert!(!is_github_workspace(&ForgeReply::Unstarted("no git".to_string())));
    assert_eq!(github_remote_query().program, "git");
}

#[test]
fn a_workspace_elsewhere_has_no_status() {
    let state = match workspace_pull_request_status() {
        ForgeStep::Run(_, state) => state,
        _ => panic!("the remote is asked for first"),
    };
    match state.resume(ran(true, "https://gitlab.com/a/b.git", "")) {
        ForgeStep::Finish(status) => assert!(status.is_none()),
        _ => panic!("nothing more is asked"),
    }
}

#[test]
fn a_workspace_on_github_has_the_status_of_its_pull_request() {
    let state = match workspace_pull_request_status() {
        ForgeStep::Run(_, state) => state,
        _ => panic!("the remote is asked for first"),
    };
    let (command, state) = match state.resume(ran(true, "git@github.com:a/b.git", "")) {
        ForgeStep::Run(command, state) => (command, state),
        _ => panic!("the pull request is asked for"),
    };
    assert_eq!(command.program, "gh");
    match state.resume(ran(true, "{\"number\":3,\"state\":\"MERGED\"}", "")) {
        ForgeStep::Finish(status) => assert_eq!(status.unwrap().summary, "PR #3 merged"),
        _ => panic!("nothing more is asked"),
    }
}

#[test]
fn commits_ahead_are_counted() {
    assert_eq!(commit_count(true, " 12\n"), Some(12));
    assert_eq!(commit_count(false, "12"), None);
    assert_eq!(commit_count(true, "many"), None);
    assert!(matches!(workspace_commits_ahead(), ForgeStep::Run(_, _)));
}

#[test]
fn a_detached_workspace_has_no_branch() {
    assert_eq!(branch_name(true, "", "main\n", "").unwrap(), "main");
    assert!(branch_name(true, "", " \n", "").is_err());
    assert!(branch_name(false, "exit status: 1", "", "fatal").is_err());
}

#[test]
fn the_branch_is_pushed_before_the_pull_request_is_made() {
    let mut step = create_pull_request();
    let mut asked: Vec<String> = Vec::new();
    let mut rounds = 0;
    let outcome = loop {
        rounds += 1;
        assert!(rounds < 20);
        match step {
            ForgeStep::Run(command, state) => {
                let asked_for = line(&command);
                let reply = if asked_for.contains("remote.origin.url") {
                    ran(true, "git@github.com:a/b.git\n", "")
                } else if asked_for.contains("show-current") {
                    ran(true, "feature\n", "")
                } else if asked_for.starts_with("gh ") {
                    ran(true, "https://github.com/a/b/pull/9\n", "")
                } else {
                    ran(true, "origin/main\n", "")
                };
                asked.push(asked_for);
                step = state.resume(reply);
            }
            ForgeStep::Finish(outcome) => break outcome,
        }
    };
    let push = asked.iter().position(|c| c.contains("push")).unwrap();
    let made = asked.iter().position(|c| c.starts_with("gh pr create")).unwrap();
    assert!(push < made);
    assert!(matches!(outcome, CreateOutcome::Created));
}
