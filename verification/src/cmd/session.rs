//! What the commands on sessions print.

use crate::cmd::table;
use crate::sessions::{Session, SessionView};
use crate::text;
use vstd::prelude::*;

verus! {

/// The process of a session, or `-`.
pub open spec fn pid_text(pid: Option<u32>) -> Seq<char> {
    match pid {
        Some(n) => text::decimal(n as nat),
        None => "-"@,
    }
}

/// How a session ended, or `-`.
pub open spec fn exit_text(exit_code: Option<i32>) -> Seq<char> {
    match exit_code {
        Some(n) => text::signed_decimal(n as int),
        None => "-"@,
    }
}

/// The line of a session.
pub open spec fn session_line(session: SessionView) -> Seq<char> {
    table::padded(session.id, 18) + " "@ + table::padded(session.status, 12) + " "@
        + table::padded(session.workspace, 12) + " "@ + table::padded(pid_text(session.pid), 20)
        + " "@ + text::joined(session.command, " "@)
}

/// The table of sessions.
pub open spec fn session_table(all: Seq<SessionView>) -> Seq<Seq<char>> {
    seq![
        table::padded("SESSION"@, 18) + " "@ + table::padded("STATUS"@, 12) + " "@
            + table::padded("WORKSPACE"@, 12) + " "@ + table::padded("PID"@, 20) + " COMMAND"@,
    ] + Seq::new(all.len(), |i: int| session_line(all[i]))
}

/// What there is to tell of a session.
pub open spec fn session_info(session: SessionView) -> Seq<Seq<char>> {
    seq![
        "Session: "@ + session.id,
        "Repository: "@ + session.repository,
        "Workspace: "@ + session.workspace,
        "Status: "@ + session.status,
        "PID: "@ + pid_text(session.pid),
        "Path: "@ + session.path,
        "Log: "@ + session.log_path,
        "Command: "@ + text::joined(session.command, " "@),
        "Created: "@ + text::signed_decimal(session.created_at as int),
        "Exited: "@ + exit_text(session.exit_code),
    ]
}

/// A word about a session, and its id.
pub open spec fn about(word: Seq<char>, session: SessionView) -> Seq<char> {
    word + session.id
}

/// Tells what was done to a session, by its id.
pub fn tell(word: &str, session: &Session) -> (r: String)
    ensures
        r@ == about(word@, session@),
{
    table::labelled(word, session.id.as_str())
}

fn render_pid(pid: Option<u32>) -> (r: String)
    ensures
        r@ == pid_text(pid),
{
    match pid {
        Some(n) => text::decimal_text(n as u64),
        None => "-".to_owned(),
    }
}

fn render_exit(exit_code: Option<i32>) -> (r: String)
    ensures
        r@ == exit_text(exit_code),
{
    match exit_code {
        Some(n) => text::signed_text(n as i64),
        None => "-".to_owned(),
    }
}

/// Tells what there is to tell of a session.
pub fn info(session: &Session) -> (r: Vec<String>)
    ensures
        r.deep_view() == session_info(session@),
{
    let r = vec![
        table::labelled("Session: ", session.id.as_str()),
        table::labelled("Repository: ", session.repository.as_str()),
        table::labelled("Workspace: ", session.workspace.as_str()),
        table::labelled("Status: ", session.status.as_str()),
        table::labelled("PID: ", render_pid(session.pid).as_str()),
        table::labelled("Path: ", session.path.as_str()),
        table::labelled("Log: ", session.log_path.as_str()),
        table::labelled("Command: ", text::join(&session.command, " ").as_str()),
        table::labelled("Created: ", text::signed_text(session.created_at).as_str()),
        table::labelled("Exited: ", render_exit(session.exit_code).as_str()),
    ];
    proof {
        assert(r.deep_view() =~= session_info(session@));
    }
    r
}

fn line_of(session: &Session) -> (r: String)
    ensures
        r@ == session_line(session@),
{
    let mut line = table::pad(session.id.as_str(), 18);
    line.append(" ");
    line.append(table::pad(session.status.as_str(), 12).as_str());
    line.append(" ");
    line.append(table::pad(session.workspace.as_str(), 12).as_str());
    line.append(" ");
    line.append(table::pad(render_pid(session.pid).as_str(), 20).as_str());
    line.append(" ");
    line.append(text::join(&session.command, " ").as_str());
    line
}

/// The table of sessions.
pub fn list(all: &Vec<Session>) -> (r: Vec<String>)
    ensures
        r.deep_view() == session_table(all.deep_view()),
{
    let ghost goal = session_table(all.deep_view());
    let mut out: Vec<String> = Vec::new();
    let mut head = table::pad("SESSION", 18);
    head.append(" ");
    head.append(table::pad("STATUS", 12).as_str());
    head.append(" ");
    head.append(table::pad("WORKSPACE", 12).as_str());
    head.append(" ");
    head.append(table::pad("PID", 20).as_str());
    head.append(" COMMAND");
    out.push(head);
    let mut i: usize = 0;
    proof {
        assert(out.deep_view() =~= goal.take(1));
    }
    while i < all.len()
        invariant
            i <= all.len(),
            goal == session_table(all.deep_view()),
            out.deep_view() == goal.take(i + 1),
        decreases all.len() - i,
    {
        let ghost before = out.deep_view();
        proof {
            assert(all.deep_view()[i as int] == all@[i as int]@);
            assert(goal[i + 1] == session_line(all@[i as int]@));
        }
        out.push(line_of(&all[i]));
        proof {
            assert(out.deep_view() =~= before.push(goal[i + 1]));
            assert(out.deep_view() =~= goal.take(i + 2));
        }
        i += 1;
    }
    proof {
        assert(goal.take(i + 1) =~= goal);
    }
    out
}

} // verus!
