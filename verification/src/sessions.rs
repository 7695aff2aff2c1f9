//! Sessions: the commands that run in workspaces.

use crate::error;
use crate::error::{SwarmError, SwarmErrorView};
use crate::paths;
use crate::repos;
use crate::repos::{Repository, RepositoryView};
use crate::text;
use crate::workspaces::{Workspace, WorkspaceView};
use vstd::prelude::*;

verus! {

/// A command that runs, or ran, in a workspace.
#[derive(Debug)]
pub struct Session {
    pub id: String,
    pub repository: String,
    pub repository_alias: String,
    pub workspace: String,
    pub command: Vec<String>,
    pub path: String,
    pub log_path: String,
    pub socket_path: String,
    pub pid: Option<u32>,
    pub status: String,
    pub exit_code: Option<i32>,
    pub created_at: i64,
    pub stopped_at: Option<i64>,
}

/// What a `Session` holds.
#[verifier::ext_equal]
pub struct SessionView {
    pub id: Seq<char>,
    pub repository: Seq<char>,
    pub repository_alias: Seq<char>,
    pub workspace: Seq<char>,
    pub command: Seq<Seq<char>>,
    pub path: Seq<char>,
    pub log_path: Seq<char>,
    pub socket_path: Seq<char>,
    pub pid: Option<u32>,
    pub status: Seq<char>,
    pub exit_code: Option<i32>,
    pub created_at: i64,
    pub stopped_at: Option<i64>,
}

impl View for Session {
    type V = SessionView;

    open spec fn view(&self) -> SessionView {
        SessionView {
            id: self.id@,
            repository: self.repository@,
            repository_alias: self.repository_alias@,
            workspace: self.workspace@,
            command: self.command.deep_view(),
            path: self.path@,
            log_path: self.log_path@,
            socket_path: self.socket_path@,
            pid: self.pid,
            status: self.status@,
            exit_code: self.exit_code,
            created_at: self.created_at,
            stopped_at: self.stopped_at,
        }
    }
}

impl DeepView for Session {
    type V = SessionView;

    open spec fn deep_view(&self) -> SessionView {
        self@
    }
}

impl Clone for Session {
    fn clone(&self) -> (r: Self)
        ensures
            r@ == self@,
    {
        Session {
            id: self.id.clone(),
            repository: self.repository.clone(),
            repository_alias: self.repository_alias.clone(),
            workspace: self.workspace.clone(),
            command: self.command.clone(),
            path: self.path.clone(),
            log_path: self.log_path.clone(),
            socket_path: self.socket_path.clone(),
            pid: self.pid,
            status: self.status.clone(),
            exit_code: self.exit_code,
            created_at: self.created_at,
            stopped_at: self.stopped_at,
        }
    }
}

/// A session as a repository's database records it.
#[derive(Debug)]
pub struct SessionRow {
    pub id: String,
    pub workspace_name: String,
    pub command_json: String,
    pub path: String,
    pub log_path: String,
    pub socket_path: String,
    pub pid: Option<i64>,
    pub status: String,
    pub exit_code: Option<i64>,
    pub created_at: i64,
    pub stopped_at: Option<i64>,
}

/// What a `SessionRow` holds.
#[verifier::ext_equal]
pub struct SessionRowView {
    pub id: Seq<char>,
    pub workspace_name: Seq<char>,
    pub command_json: Seq<char>,
    pub path: Seq<char>,
    pub log_path: Seq<char>,
    pub socket_path: Seq<char>,
    pub pid: Option<i64>,
    pub status: Seq<char>,
    pub exit_code: Option<i64>,
    pub created_at: i64,
    pub stopped_at: Option<i64>,
}

impl View for SessionRow {
    type V = SessionRowView;

    open spec fn view(&self) -> SessionRowView {
        SessionRowView {
            id: self.id@,
            workspace_name: self.workspace_name@,
            command_json: self.command_json@,
            path: self.path@,
            log_path: self.log_path@,
            socket_path: self.socket_path@,
            pid: self.pid,
            status: self.status@,
            exit_code: self.exit_code,
            created_at: self.created_at,
            stopped_at: self.stopped_at,
        }
    }
}

impl DeepView for SessionRow {
    type V = SessionRowView;

    open spec fn deep_view(&self) -> SessionRowView {
        self@
    }
}

impl Clone for SessionRow {
    fn clone(&self) -> (r: Self)
        ensures
            r@ == self@,
    {
        SessionRow {
            id: self.id.clone(),
            workspace_name: self.workspace_name.clone(),
            command_json: self.command_json.clone(),
            path: self.path.clone(),
            log_path: self.log_path.clone(),
            socket_path: self.socket_path.clone(),
            pid: self.pid,
            status: self.status.clone(),
            exit_code: self.exit_code,
            created_at: self.created_at,
            stopped_at: self.stopped_at,
        }
    }
}

/// Whether a status is that of a session that has not ended.
pub open spec fn is_live(status: Seq<char>) -> bool {
    status == "running"@ || status == "starting"@
}

/// Whether a status is that of a session that has ended.
pub open spec fn is_terminal(status: Seq<char>) -> bool {
    status == "stopped"@ || status == "failed"@ || status == "exited"@
}

/// Tells whether a status is that of a session that has not ended.
pub fn status_is_live(status: &str) -> (r: bool)
    ensures
        r == is_live(status@),
{
    text::same(status, "running") || text::same(status, "starting")
}

/// Tells whether a status is that of a session that has ended.
pub fn status_is_terminal(status: &str) -> (r: bool)
    ensures
        r == is_terminal(status@),
{
    text::same(status, "stopped") || text::same(status, "failed") || text::same(status, "exited")
}

/// The command of a session that nobody chose one for: the login shell.
pub open spec fn login_command(shell: Option<Seq<char>>) -> Seq<Seq<char>> {
    match shell {
        Some(shell) => seq![shell, "-l"@],
        None => seq!["/bin/bash"@, "-l"@],
    }
}

/// The command of a session that nobody chose one for, from the user's shell.
pub fn default_session_command(shell: Option<&str>) -> (r: Vec<String>)
    ensures
        r.deep_view() == login_command(shell.deep_view()),
{
    let program = match shell {
        Some(shell) => shell.to_owned(),
        None => "/bin/bash".to_owned(),
    };
    let r = vec![program, "-l".to_owned()];
    proof {
        assert(r.deep_view() =~= login_command(shell.deep_view()));
    }
    r
}

/// The JSON text of a list of texts.
pub uninterp spec fn json_list_text(list: Seq<Seq<char>>) -> Seq<char>;

/// The list of texts that a JSON text holds, or the message that tells why it
/// holds none.
pub uninterp spec fn json_list(json: Seq<char>) -> Result<Seq<Seq<char>>, Seq<char>>;

/// A text was read as a list.
pub open spec fn reads_as(r: Result<Seq<Seq<char>>, Seq<char>>, list: Seq<Seq<char>>) -> bool {
    r == Ok::<Seq<Seq<char>>, Seq<char>>(list)
}

/// A text could not be read.
pub open spec fn fails_as(r: Result<Seq<Seq<char>>, Seq<char>>, message: Seq<char>) -> bool {
    r == Err::<Seq<Seq<char>>, Seq<char>>(message)
}

/// `serde_json::to_string` of a list of strings: it succeeds, with a text that
/// reads back as the list.
#[verifier::external_body]
fn encode_list(list: &Vec<String>) -> (r: Result<String, String>)
    ensures
        r is Ok,
        r->Ok_0@ == json_list_text(list.deep_view()),
        reads_as(json_list(r->Ok_0@), list.deep_view()),
{
    serde_json::to_string(list).map_err(|e| e.to_string())
}

/// `serde_json::from_str` into a list of strings: the list, or the message of
/// the error. Both are functions of the text.
#[verifier::external_body]
fn decode_list(json: &str) -> (r: Result<Vec<String>, String>)
    ensures
        match r {
            Ok(list) => reads_as(json_list(json@), list.deep_view()),
            Err(message) => fails_as(json_list(json@), message@),
        },
{
    serde_json::from_str(json).map_err(|e: serde_json::Error| e.to_string())
}

/// A process number as a table records it.
pub open spec fn pid_of(pid: Option<i64>) -> Option<u32> {
    match pid {
        Some(pid) => Some(pid as u32),
        None => None,
    }
}

/// An exit code as a table records it.
pub open spec fn exit_code_of(code: Option<i64>) -> Option<i32> {
    match code {
        Some(code) => Some(code as i32),
        None => None,
    }
}

/// The session that a row records, given what its command reads as.
pub open spec fn session_with_command(
    repo: RepositoryView,
    row: SessionRowView,
    command: Result<Seq<Seq<char>>, Seq<char>>,
) -> Result<SessionView, SwarmErrorView> {
    match command {
        Err(message) => Err(SwarmErrorView::Json(message)),
        Ok(command) => Ok(
            SessionView {
                id: row.id,
                repository: repos::canonical_name(repo),
                repository_alias: repos::shown_name(repo),
                workspace: row.workspace_name,
                command,
                path: row.path,
                log_path: row.log_path,
                socket_path: row.socket_path,
                pid: pid_of(row.pid),
                status: row.status,
                exit_code: exit_code_of(row.exit_code),
                created_at: row.created_at,
                stopped_at: row.stopped_at,
            },
        ),
    }
}

/// The session that a row records.
pub open spec fn session_of(repo: RepositoryView, row: SessionRowView) -> Result<
    SessionView,
    SwarmErrorView,
> {
    session_with_command(repo, row, json_list(row.command_json))
}

/// The session that a row records, given its command.
pub fn session_from_parts(repo: &Repository, row: &SessionRow, command: Vec<String>) -> (r: Session)
    ensures
        session_with_command(repo@, row@, Ok(command.deep_view())) == Ok::<_, SwarmErrorView>(r@),
{
    Session {
        id: row.id.clone(),
        repository: repo.canonical(),
        repository_alias: repo.display_name(),
        workspace: row.workspace_name.clone(),
        command,
        path: row.path.clone(),
        log_path: row.log_path.clone(),
        socket_path: row.socket_path.clone(),
        pid: match row.pid {
            Some(pid) => Some(
                #[verifier::truncate]
                (pid as u32),
            ),
            None => None,
        },
        status: row.status.clone(),
        exit_code: match row.exit_code {
            Some(code) => Some(
                #[verifier::truncate]
                (code as i32),
            ),
            None => None,
        },
        created_at: row.created_at,
        stopped_at: row.stopped_at,
    }
}

/// The session that a row records.
pub fn session_from_row(repo: &Repository, row: &SessionRow) -> (r: Result<Session, SwarmError>)
    ensures
        error::result_view(r) == session_of(repo@, row@),
{
    match decode_list(row.command_json.as_str()) {
        Ok(command) => Ok(session_from_parts(repo, row, command)),
        Err(message) => Err(SwarmError::Json(message)),
    }
}

/// The row that records a new session, given the JSON text of its command.
pub open spec fn starting_row(session: SessionView, command_json: Seq<char>) -> SessionRowView {
    SessionRowView {
        id: session.id,
        workspace_name: session.workspace,
        command_json,
        path: session.path,
        log_path: session.log_path,
        socket_path: session.socket_path,
        pid: None,
        status: "starting"@,
        exit_code: None,
        created_at: session.created_at,
        stopped_at: None,
    }
}

/// The row that records a new session.
pub fn row_from_session(session: &Session) -> (r: Result<SessionRow, SwarmError>)
    ensures
        r matches Ok(row) && row@ == starting_row(session@, json_list_text(session@.command))
            && reads_as(json_list(row@.command_json), session@.command),
{
    match encode_list(&session.command) {
        Err(message) => Err(SwarmError::Json(message)),
        Ok(command_json) => Ok(
            SessionRow {
                id: session.id.clone(),
                workspace_name: session.workspace.clone(),
                command_json,
                path: session.path.clone(),
                log_path: session.log_path.clone(),
                socket_path: session.socket_path.clone(),
                pid: None,
                status: "starting".to_owned(),
                exit_code: None,
                created_at: session.created_at,
                stopped_at: None,
            },
        ),
    }
}

/// The identifier of a session that begins at a time.
pub open spec fn session_id(secs: nat, millis: nat) -> Seq<char> {
    "s"@ + text::hex(secs) + text::hex(millis)
}

/// The identifier of a session that begins at a time.
pub fn new_session_id(secs: u64, millis: u32) -> (r: String)
    ensures
        r@ == session_id(secs as nat, millis as nat),
{
    let mut out = "s".to_owned();
    out.append(text::hex_text(secs).as_str());
    out.append(text::hex_text(millis as u64).as_str());
    out
}

/// A session before its command is started.
pub open spec fn prepared(
    sessions_dir: Seq<char>,
    repo: RepositoryView,
    workspace: WorkspaceView,
    id: Seq<char>,
    command: Seq<Seq<char>>,
    created_at: i64,
) -> SessionView {
    let path = paths::joined_path(sessions_dir, id);
    SessionView {
        id,
        repository: repos::canonical_name(repo),
        repository_alias: repos::shown_name(repo),
        workspace: workspace.name,
        command,
        path,
        log_path: paths::joined_path(path, "log"@),
        socket_path: paths::joined_path(path, "sock"@),
        pid: None,
        status: "starting"@,
        exit_code: None,
        created_at,
        stopped_at: None,
    }
}

/// A session before its command is started.
pub fn prepare_session(
    sessions_dir: &str,
    repo: &Repository,
    workspace: &Workspace,
    id: &str,
    command: &Vec<String>,
    created_at: i64,
) -> (r: Session)
    ensures
        r@ == prepared(
            sessions_dir@,
            repo@,
            workspace@,
            id@,
            command.deep_view(),
            created_at,
        ),
{
    let path = paths::join_path(sessions_dir, id);
    Session {
        id: id.to_owned(),
        repository: repo.canonical(),
        repository_alias: repo.display_name(),
        workspace: workspace.name.clone(),
        command: command.clone(),
        log_path: paths::join_path(path.as_str(), "log"),
        socket_path: paths::join_path(path.as_str(), "sock"),
        path,
        pid: None,
        status: "starting".to_owned(),
        exit_code: None,
        created_at,
        stopped_at: None,
    }
}

/// The arguments of the process that serves a session.
pub open spec fn serve_args(
    repo: RepositoryView,
    db_path: Seq<char>,
    workspace: WorkspaceView,
    session: SessionView,
) -> Seq<Seq<char>> {
    seq![
        "session"@,
        "serve"@,
        repos::canonical_name(repo),
        db_path,
        workspace.name,
        session.id,
        session.path,
        workspace.path,
        "--"@,
    ] + session.command
}

/// The arguments of the process that serves a session.
pub fn supervisor_args(
    repo: &Repository,
    db_path: &str,
    workspace: &Workspace,
    session: &Session,
) -> (r: Vec<String>)
    ensures
        r.deep_view() == serve_args(repo@, db_path@, workspace@, session@),
{
    let mut args = vec![
        "session".to_owned(),
        "serve".to_owned(),
        repo.canonical(),
        db_path.to_owned(),
        workspace.name.clone(),
        session.id.clone(),
        session.path.clone(),
        workspace.path.clone(),
        "--".to_owned(),
    ];
    let mut command = session.command.clone();
    args.append(&mut command);
    proof {
        assert(args.deep_view() =~= serve_args(repo@, db_path@, workspace@, session@));
    }
    args
}

/// What a supervisor's log adds to an error: its last line.
pub open spec fn log_detail(contents: Option<Seq<char>>) -> Seq<char> {
    match contents {
        None => ""@,
        Some(contents) => {
            let t = text::trimmed(contents);
            if t.len() == 0 {
                ""@
            } else {
                let lines = text::line_list(t);
                ": "@ + if lines.len() > 0 {
                    lines.last()
                } else {
                    t
                }
            }
        },
    }
}

/// What a supervisor's log adds to an error.
pub fn read_supervisor_log(contents: Option<&str>) -> (r: String)
    ensures
        r@ == log_detail(contents.deep_view()),
{
    match contents {
        None => "".to_owned(),
        Some(contents) => {
            let t = text::trim(contents);
            if t.unicode_len() == 0 {
                return "".to_owned();
            }
            let lines = text::lines(t);
            let mut out = ": ".to_owned();
            if lines.len() > 0 {
                proof {
                    let k = lines.len() - 1;
                    assert(lines.deep_view()[k] == lines@[k]@);
                }
                out.append(lines[lines.len() - 1].as_str());
            } else {
                out.append(t);
            }
            out
        },
    }
}

/// The error of a session that did not start in time.
pub open spec fn not_ready(id: Seq<char>, detail: Seq<char>) -> SwarmErrorView {
    SwarmErrorView::InvalidSession("session `"@ + id + "` did not become ready"@ + detail)
}

/// The error of a session that did not start in time.
pub fn not_ready_error(id: &str, detail: &str) -> (r: SwarmError)
    ensures
        r@ == not_ready(id@, detail@),
{
    let mut out = "session `".to_owned();
    out.append(id);
    out.append("` did not become ready");
    out.append(detail);
    SwarmError::InvalidSession(out)
}

/// The number in a process file.
pub open spec fn pid_in(contents: Option<Seq<char>>) -> Option<int> {
    match contents {
        Some(contents) => text::integer_within(
            text::trimmed(contents),
            i64::MIN as int,
            i64::MAX as int,
        ),
        None => None,
    }
}

/// Reads the number in a process file.
pub fn parse_pid(contents: Option<&str>) -> (r: Option<i64>)
    ensures
        match r {
            Some(pid) => pid_in(contents.deep_view()) == Some(pid as int),
            None => pid_in(contents.deep_view()) is None,
        },
{
    match contents {
        Some(contents) => text::parse_integer(text::trim(contents), i64::MIN, i64::MAX),
        None => None,
    }
}

/// The texts of a list in quotes, between square brackets.
pub open spec fn quoted_list(list: Seq<Seq<char>>) -> Seq<char> {
    "["@ + text::joined(list, ", "@) + "]"@
}

/// Each text of a list in quotes.
pub open spec fn each_quoted(list: Seq<Seq<char>>) -> Seq<Seq<char>> {
    Seq::new(list.len(), |i: int| text::quoted_text(list[i]))
}

/// The metadata file of a session, from values that are already in quotes.
pub open spec fn session_meta(
    id: Seq<char>,
    repository: Seq<char>,
    workspace: Seq<char>,
    pid: nat,
    log: Seq<char>,
    socket: Seq<char>,
    command: Seq<Seq<char>>,
) -> Seq<char> {
    repos::meta_line("id"@, id) + repos::meta_line("repository"@, repository) + repos::meta_line(
        "workspace"@,
        workspace,
    ) + repos::meta_line("pid"@, text::decimal(pid)) + repos::meta_line("log"@, log)
        + repos::meta_line("socket"@, socket) + repos::meta_line("command"@, quoted_list(command))
}

/// Writes the metadata file of a session from values that are already in
/// quotes.
pub fn render_session_meta_values(
    id: &str,
    repository: &str,
    workspace: &str,
    pid: u32,
    log: &str,
    socket: &str,
    command: &Vec<String>,
) -> (r: String)
    ensures
        r@ == session_meta(
            id@,
            repository@,
            workspace@,
            pid as nat,
            log@,
            socket@,
            command.deep_view(),
        ),
{
    let mut list = "[".to_owned();
    list.append(text::join(command, ", ").as_str());
    list.append("]");
    let mut out = repos::render_meta_line("id", id);
    out.append(repos::render_meta_line("repository", repository).as_str());
    out.append(repos::render_meta_line("workspace", workspace).as_str());
    out.append(repos::render_meta_line("pid", text::decimal_text(pid as u64).as_str()).as_str());
    out.append(repos::render_meta_line("log", log).as_str());
    out.append(repos::render_meta_line("socket", socket).as_str());
    out.append(repos::render_meta_line("command", list.as_str()).as_str());
    out
}

fn quote_each(list: &Vec<String>) -> (r: Vec<String>)
    ensures
        r.deep_view() == each_quoted(list.deep_view()),
{
    let mut out: Vec<String> = Vec::new();
    let mut i: usize = 0;
    while i < list.len()
        invariant
            i <= list.len(),
            out.deep_view() =~= each_quoted(list.deep_view()).take(i as int),
        decreases list.len() - i,
    {
        let ghost before = out.deep_view();
        out.push(text::quote(list[i].as_str()));
        proof {
            assert(list.deep_view()[i as int] == list@[i as int]@);
            assert(out.deep_view() =~= before.push(text::quoted_text(list@[i as int]@)));
        }
        i += 1;
    }
    out
}

/// The metadata file of a session.
pub fn render_session_meta_toml(
    repository: &str,
    workspace: &str,
    id: &str,
    command: &Vec<String>,
    log_path: &str,
    socket_path: &str,
    pid: u32,
) -> (r: String)
    ensures
        r@ == session_meta(
            text::quoted_text(id@),
            text::quoted_text(repository@),
            text::quoted_text(workspace@),
            pid as nat,
            text::quoted_text(log_path@),
            text::quoted_text(socket_path@),
            each_quoted(command.deep_view()),
        ),
{
    let id = text::quote(id);
    let repository = text::quote(repository);
    let workspace = text::quote(workspace);
    let log = text::quote(log_path);
    let socket = text::quote(socket_path);
    let list = quote_each(command);
    render_session_meta_values(
        id.as_str(),
        repository.as_str(),
        workspace.as_str(),
        pid,
        log.as_str(),
        socket.as_str(),
        &list,
    )
}

/// Whether sessions stand in the order of their creation.
pub open spec fn by_creation(sessions: Seq<SessionView>) -> bool {
    forall|i: int, j: int|
        0 <= i < j < sessions.len() ==> (#[trigger] sessions[i]).created_at <= (
        #[trigger] sessions[j]).created_at
}

/// How many sessions of an ordered list were created no later than a time.
pub open spec fn place_after(sessions: Seq<SessionView>, created_at: i64) -> int
    decreases sessions.len(),
{
    if sessions.len() == 0 || sessions.last().created_at <= created_at {
        sessions.len() as int
    } else {
        place_after(sessions.drop_last(), created_at)
    }
}

/// The sessions in the order of their creation. Sessions of the same time keep
/// their order.
pub open spec fn sorted_by_creation(sessions: Seq<SessionView>) -> Seq<SessionView>
    decreases sessions.len(),
{
    if sessions.len() == 0 {
        sessions
    } else {
        let rest = sorted_by_creation(sessions.drop_last());
        rest.insert(place_after(rest, sessions.last().created_at), sessions.last())
    }
}

proof fn lemma_place_after(sessions: Seq<SessionView>, created_at: i64)
    requires
        by_creation(sessions),
    ensures
        0 <= place_after(sessions, created_at) <= sessions.len(),
        forall|i: int|
            0 <= i < place_after(sessions, created_at) ==> (#[trigger] sessions[i]).created_at
                <= created_at,
        forall|i: int|
            place_after(sessions, created_at) <= i < sessions.len() ==> (
            #[trigger] sessions[i]).created_at > created_at,
    decreases sessions.len(),
{
    if sessions.len() > 0 && sessions.last().created_at > created_at {
        let rest = sessions.drop_last();
        assert forall|i: int, j: int| 0 <= i < j < rest.len() implies (
        #[trigger] rest[i]).created_at <= (#[trigger] rest[j]).created_at by {
            assert(rest[i] == sessions[i] && rest[j] == sessions[j]);
        }
        lemma_place_after(rest, created_at);
        let k = place_after(rest, created_at);
        assert forall|i: int| 0 <= i < k implies (#[trigger] sessions[i]).created_at
            <= created_at by {
            assert(rest[i] == sessions[i]);
        }
        assert forall|i: int| k <= i < sessions.len() implies (#[trigger] sessions[i]).created_at
            > created_at by {
            if i < rest.len() {
                assert(rest[i] == sessions[i]);
            }
        }
    }
}

proof fn lemma_place_after_is(sessions: Seq<SessionView>, created_at: i64, k: int)
    requires
        by_creation(sessions),
        0 <= k <= sessions.len(),
        k > 0 ==> sessions[k - 1].created_at <= created_at,
        forall|i: int| k <= i < sessions.len() ==> (#[trigger] sessions[i]).created_at > created_at,
    ensures
        place_after(sessions, created_at) == k,
{
    lemma_place_after(sessions, created_at);
    let p = place_after(sessions, created_at);
    if p < k {
        assert(sessions[p].created_at > created_at);
        assert(sessions[p].created_at <= sessions[k - 1].created_at) by {
            if p < k - 1 {
            }
        }
    }
    if k < p {
        assert(sessions[k].created_at > created_at);
    }
}

/// Sorting orders sessions by their creation and keeps what they are.
pub proof fn law_sorting_orders_sessions(sessions: Seq<SessionView>)
    ensures
        by_creation(sorted_by_creation(sessions)),
        sorted_by_creation(sessions).to_multiset() == sessions.to_multiset(),
        sorted_by_creation(sessions).len() == sessions.len(),
    decreases sessions.len(),
{
    if sessions.len() > 0 {
        let rest = sorted_by_creation(sessions.drop_last());
        let last = sessions.last();
        law_sorting_orders_sessions(sessions.drop_last());
        lemma_place_after(rest, last.created_at);
        let k = place_after(rest, last.created_at);
        let out = rest.insert(k, last);
        assert forall|i: int, j: int| 0 <= i < j < out.len() implies (
        #[trigger] out[i]).created_at <= (#[trigger] out[j]).created_at by {
            if i < k && j > k {
                assert(out[i] == rest[i] && out[j] == rest[j - 1]);
            } else if i > k {
                assert(out[i] == rest[i - 1] && out[j] == rest[j - 1]);
            } else if i == k {
                assert(out[j] == rest[j - 1]);
            } else if j == k {
                assert(out[i] == rest[i]);
            } else {
                assert(out[i] == rest[i] && out[j] == rest[j]);
            }
        }
        vstd::seq_lib::to_multiset_insert(rest, k, last);
        assert(sessions =~= sessions.drop_last().push(last));
        vstd::seq_lib::to_multiset_build(sessions.drop_last(), last);
    }
}

/// Sorts sessions by their creation.
pub fn sort_sessions(sessions: Vec<Session>) -> (r: Vec<Session>)
    ensures
        r.deep_view() == sorted_by_creation(sessions.deep_view()),
{
    let ghost all = sessions.deep_view();
    let mut out: Vec<Session> = Vec::new();
    let mut i: usize = 0;
    proof {
        assert(all.take(0) =~= out.deep_view());
    }
    while i < sessions.len()
        invariant
            i <= sessions.len(),
            all == sessions.deep_view(),
            out.deep_view() == sorted_by_creation(all.take(i as int)),
        decreases sessions.len() - i,
    {
        let ghost before = out.deep_view();
        let session = sessions[i].clone();
        let mut k: usize = out.len();
        proof {
            law_sorting_orders_sessions(all.take(i as int));
            assert(all[i as int] == sessions@[i as int]@);
        }
        while k > 0 && out[k - 1].created_at > session.created_at
            invariant
                k <= out.len(),
                before == out.deep_view(),
                forall|j: int|
                    k <= j < before.len() ==> (#[trigger] before[j]).created_at
                        > session.created_at,
            decreases k,
        {
            proof {
                assert(before[k - 1] == out@[k - 1]@);
            }
            k -= 1;
        }
        proof {
            if k > 0 {
                assert(before[k - 1] == out@[k - 1]@);
            }
            lemma_place_after_is(before, session.created_at, k as int);
            assert(all.take(i + 1).drop_last() =~= all.take(i as int));
            assert(all.take(i + 1).last() == all[i as int]);
        }
        let ghost added = session@;
        out.insert(k, session);
        proof {
            assert(out.deep_view() =~= before.insert(k as int, added));
        }
        i += 1;
    }
    proof {
        assert(all.take(all.len() as int) =~= all);
    }
    out
}

/// What is recorded of a session reads back, but for its number and its end,
/// which a new session does not have.
pub proof fn law_session_row_reads_back(
    repo: RepositoryView,
    session: SessionView,
    command_json: Seq<char>,
)
    requires
        reads_as(json_list(command_json), session.command),
        session.repository == repos::canonical_name(repo),
        session.repository_alias == repos::shown_name(repo),
        session.pid is None,
        session.status == "starting"@,
        session.exit_code is None,
        session.stopped_at is None,
    ensures
        session_of(repo, starting_row(session, command_json)) == Ok::<_, SwarmErrorView>(session),
{
}

/// No status is both that of a session that runs and that of one that ended.
pub proof fn law_statuses_are_apart(status: Seq<char>)
    ensures
        !(is_live(status) && is_terminal(status)),
{
    reveal_strlit("running");
    reveal_strlit("starting");
    reveal_strlit("stopped");
    reveal_strlit("failed");
    reveal_strlit("exited");
    if status == "starting"@ && status == "stopped"@ {
        assert("starting"@.len() == "stopped"@.len());
    }
    assert("running"@[0] == 'r' && "starting"@.len() == 8);
    assert("stopped"@[0] == 's' && "failed"@[0] == 'f' && "exited"@[0] == 'e');
    assert("stopped"@.len() == 7 && "failed"@.len() == 6 && "exited"@.len() == 6);
}

/// Sessions that begin at different times have different identifiers, as long
/// as their seconds have the same number of hexadecimal digits.
pub proof fn law_session_ids_are_apart(s1: nat, m1: nat, s2: nat, m2: nat)
    requires
        text::hex(s1).len() == text::hex(s2).len(),
    ensures
        session_id(s1, m1) == session_id(s2, m2) <==> s1 == s2 && m1 == m2,
{
    if session_id(s1, m1) == session_id(s2, m2) {
        reveal_strlit("s");
        let a = session_id(s1, m1);
        let n = text::hex(s1).len() as int;
        assert(text::hex(s1) =~= a.subrange(1, 1 + n));
        assert(text::hex(s2) =~= a.subrange(1, 1 + n));
        assert(text::hex(m1) =~= a.skip(1 + n));
        assert(text::hex(m2) =~= a.skip(1 + n));
        text::lemma_hex_injective(s1, s2);
        text::lemma_hex_injective(m1, m2);
    }
}

/// What an effect does to the rows of the database that it names.
pub open spec fn rows_after(
    rows: Seq<SessionRowView>,
    effect: crate::effects::EffectView,
) -> Seq<SessionRowView> {
    match effect {
        crate::effects::EffectView::InsertSession { record, .. } => rows.push(record),
        crate::effects::EffectView::EndSession { id, status, stopped_at, .. } => rows.map_values(
            |row: SessionRowView|
                if row.id == id {
                    SessionRowView { pid: None, status, stopped_at: Some(stopped_at), ..row }
                } else {
                    row
                },
        ),
        crate::effects::EffectView::FailSession { id, stopped_at, .. } => rows.map_values(
            |row: SessionRowView|
                if row.id == id && row.status == "starting"@ {
                    SessionRowView { status: "failed"@, stopped_at: Some(stopped_at), ..row }
                } else {
                    row
                },
        ),
        crate::effects::EffectView::RunSession { id, pid, socket_path, .. } => rows.map_values(
            |row: SessionRowView|
                if row.id == id {
                    SessionRowView { pid, status: "running"@, socket_path, ..row }
                } else {
                    row
                },
        ),
        crate::effects::EffectView::ExitSession { id, exit_code, stopped_at, .. } => rows.map_values(
            |row: SessionRowView|
                if row.id == id {
                    SessionRowView {
                        pid: None,
                        status: "exited"@,
                        exit_code,
                        stopped_at: Some(stopped_at),
                        ..row
                    }
                } else {
                    row
                },
        ),
        crate::effects::EffectView::DeleteSession { id, .. } => rows.filter(
            |row: SessionRowView| row.id != id,
        ),
        _ => rows,
    }
}

/// A session runs or is about to where its status is `running` or `starting`; it has ended
/// where its status is `stopped`, `failed` or `exited`.
pub proof fn law_statuses(status: Seq<char>)
    ensures
        is_live(status) <==> seq!["running"@, "starting"@].contains(status),
        is_terminal(status) <==> seq!["stopped"@, "failed"@, "exited"@].contains(status),
{
    let live = seq!["running"@, "starting"@];
    let ended = seq!["stopped"@, "failed"@, "exited"@];
    assert(live[0] == "running"@ && live[1] == "starting"@);
    assert(ended[0] == "stopped"@ && ended[1] == "failed"@ && ended[2] == "exited"@);
}

/// Without a command of its own a session is a login shell: the user's where there is one,
/// else `/bin/bash`.
pub proof fn law_login_shell(shell: Seq<char>)
    ensures
        login_command(Some(shell)) == seq![shell, "-l"@],
        login_command(None) == seq!["/bin/bash"@, "-l"@],
{
}

/// A session has what its row has, under its repository's names, and the command that is
/// read from the row; a row whose command cannot be read is an error with the reason.
pub proof fn law_session_has_what_its_row_has(
    repo: RepositoryView,
    row: SessionRowView,
    command: Seq<Seq<char>>,
    message: Seq<char>,
)
    ensures
        session_with_command(repo, row, Ok(command)) == Ok::<_, SwarmErrorView>(
            (SessionView {
                id: row.id,
                repository: repo.host + "/"@ + repo.owner + "/"@ + repo.name,
                repository_alias: if repo.alias is Some {
                    repo.alias->0
                } else {
                    repo.name
                },
                workspace: row.workspace_name,
                command,
                path: row.path,
                log_path: row.log_path,
                socket_path: row.socket_path,
                pid: if row.pid is Some {
                    Some(row.pid->0 as u32)
                } else {
                    None
                },
                status: row.status,
                exit_code: if row.exit_code is Some {
                    Some(row.exit_code->0 as i32)
                } else {
                    None
                },
                created_at: row.created_at,
                stopped_at: row.stopped_at,
            }),
        ),
        session_with_command(repo, row, Err(message)) == Err::<SessionView, _>(
            SwarmErrorView::Json(message),
        ),
        json_list(row.command_json) == Ok::<Seq<Seq<char>>, Seq<char>>(command) ==> session_of(
            repo,
            row,
        ) == session_with_command(repo, row, Ok(command)),
        json_list(row.command_json) == Err::<Seq<Seq<char>>, Seq<char>>(message) ==> session_of(
            repo,
            row,
        ) == Err::<SessionView, _>(SwarmErrorView::Json(message)),
{
}

/// A number in a row that is one of a process, or an exit code, is kept as it is.
pub proof fn law_numbers_of_a_row(pid: u32, code: i32)
    ensures
        pid_of(Some(pid as i64)) == Some(pid),
        exit_code_of(Some(code as i64)) == Some(code),
        pid_of(None) is None,
        exit_code_of(None) is None,
{
}

/// The row of a new session has what the session has and the text of its command. It is
/// starting, and has no process and no end.
pub proof fn law_new_row_has_what_the_session_has(session: SessionView, command_json: Seq<char>)
    ensures
        starting_row(session, command_json) == (SessionRowView {
            id: session.id,
            workspace_name: session.workspace,
            command_json,
            path: session.path,
            log_path: session.log_path,
            socket_path: session.socket_path,
            pid: None,
            status: "starting"@,
            exit_code: None,
            created_at: session.created_at,
            stopped_at: None,
        }),
{
}

/// A session is named `s` with the seconds and then the milliseconds of its beginning, both in
/// base sixteen.
pub proof fn law_session_id_is_its_time(secs: nat, millis: nat)
    ensures
        session_id(secs, millis) == seq!['s'] + text::hex(secs) + text::hex(millis),
        text::hex_value(text::hex(secs)) == secs,
        text::hex_value(text::hex(millis)) == millis,
{
    reveal_strlit("s");
    assert("s"@ =~= seq!['s']);
    text::law_hex_digits(secs);
    text::law_hex_digits(millis);
}

/// A session has a directory of its own name, with its log and its socket in it.
pub proof fn law_session_directory(
    sessions_dir: Seq<char>,
    repo: RepositoryView,
    workspace: WorkspaceView,
    id: Seq<char>,
    command: Seq<Seq<char>>,
    created_at: i64,
)
    requires
        sessions_dir.len() > 0,
        sessions_dir.last() != '/',
        id.len() > 0,
        !id.contains('/'),
    ensures
        ({
            let session = prepared(sessions_dir, repo, workspace, id, command, created_at);
            &&& session.path == sessions_dir + "/"@ + id
            &&& session.log_path == sessions_dir + "/"@ + id + "/log"@
            &&& session.socket_path == sessions_dir + "/"@ + id + "/sock"@
            &&& session.id == id
            &&& session.command == command
            &&& session.workspace == workspace.name
            &&& session.status == "starting"@
            &&& session.created_at == created_at
        }),
{
    reveal_strlit("/");
    reveal_strlit("log");
    reveal_strlit("/log");
    reveal_strlit("sock");
    reveal_strlit("/sock");
    assert(id.contains(id[0]));
    assert(id.contains(id.last()));
    let path = sessions_dir.push('/') + id;
    assert(path =~= sessions_dir + "/"@ + id);
    assert(path.last() == id.last());
    assert(path.push('/') + "log"@ =~= sessions_dir + "/"@ + id + "/log"@);
    assert(path.push('/') + "sock"@ =~= sessions_dir + "/"@ + id + "/sock"@);
}

/// The process that serves a session is told the repository, its database, the workspace by
/// its name, the session by its identifier, the session's directory and the workspace's, and
/// behind `--` the command word for word.
pub proof fn law_supervisor_is_told_all(
    repo: RepositoryView,
    db_path: Seq<char>,
    workspace: WorkspaceView,
    session: SessionView,
)
    ensures
        ({
            let args = serve_args(repo, db_path, workspace, session);
            &&& args.len() == 9 + session.command.len()
            &&& args.take(9) == seq![
                "session"@,
                "serve"@,
                repo.host + "/"@ + repo.owner + "/"@ + repo.name,
                db_path,
                workspace.name,
                session.id,
                session.path,
                workspace.path,
                "--"@,
            ]
            &&& args.skip(9) == session.command
        }),
{
    let args = serve_args(repo, db_path, workspace, session);
    assert(args.skip(9) =~= session.command);
}

/// What a supervisor's log adds to an error is its last line, behind a colon; a log that
/// cannot be read or has nothing but white space adds nothing.
pub proof fn law_log_detail_is_the_last_line(front: Seq<char>, last: Seq<char>, back: Seq<char>)
    requires
        last.len() > 0,
        !text::whitespace(last[0]),
        !text::whitespace(last.last()),
        !last.contains('\n'),
        front.len() == 0 || front.last() == '\n',
        text::blank(back),
    ensures
        log_detail(Some(front + last + back)) == seq![':', ' '] + last,
        log_detail(None) == Seq::<char>::empty(),
        log_detail(Some(back)) == Seq::<char>::empty(),
{
    reveal_strlit(": ");
    reveal_strlit("");
    assert(": "@ =~= seq![':', ' ']);
    assert(""@ =~= Seq::<char>::empty());
    text::lemma_trimmed_blank(back);
    text::lemma_trim_start(front);
    let kept = text::trim_start(front);
    let cut = front.take(front.len() - kept.len());
    assert(front =~= cut + kept);
    text::lemma_cut_front(front);
    let inner = kept + last;
    assert(inner.last() == last.last());
    assert(inner[0] == if kept.len() > 0 {
        kept[0]
    } else {
        last[0]
    });
    text::law_trimming_keeps_the_inside(cut, inner, back);
    assert(cut + inner + back =~= front + last + back);
    if kept.len() > 0 {
        assert(kept.last() == front.last());
    }
    text::lemma_last_line(kept, last);
}

/// A process file holds a number, with white space around it or without.
pub proof fn law_process_file_reads_back(pid: i64, front: Seq<char>, back: Seq<char>)
    requires
        text::blank(front),
        text::blank(back),
    ensures
        pid_in(Some(front + text::signed_decimal(pid as int) + back)) == Some(pid as int),
        pid_in(None) is None,
{
    let digits = text::signed_decimal(pid as int);
    text::law_numbers_read_back(pid as int, i64::MIN as int, i64::MAX as int);
    text::law_only_digits_are_numbers(digits);
    text::law_trimming_keeps_the_inside(front, digits, back);
}

/// The metadata of a session, line by line.
pub proof fn law_session_metadata(
    id: Seq<char>,
    repository: Seq<char>,
    workspace: Seq<char>,
    pid: nat,
    log: Seq<char>,
    socket: Seq<char>,
    command: Seq<Seq<char>>,
)
    ensures
        session_meta(id, repository, workspace, pid, log, socket, command) == "id = "@ + id
            + "\nrepository = "@ + repository + "\nworkspace = "@ + workspace + "\npid = "@
            + text::decimal(pid) + "\nlog = "@ + log + "\nsocket = "@ + socket + "\ncommand = ["@
            + text::joined(command, ", "@) + "]\n"@,
{
    reveal_strlit("id");
    reveal_strlit("id = ");
    reveal_strlit("repository");
    reveal_strlit("\nrepository = ");
    reveal_strlit("workspace");
    reveal_strlit("\nworkspace = ");
    reveal_strlit("pid");
    reveal_strlit("\npid = ");
    reveal_strlit("log");
    reveal_strlit("\nlog = ");
    reveal_strlit("socket");
    reveal_strlit("\nsocket = ");
    reveal_strlit("command");
    reveal_strlit("\ncommand = [");
    reveal_strlit(" = ");
    reveal_strlit("\n");
    reveal_strlit("[");
    reveal_strlit("]");
    reveal_strlit("]\n");
    let words = text::joined(command, ", "@);
    let a = "id = "@ + id;
    assert(repos::meta_line("id"@, id) =~= a + "\n"@);
    let b = a + "\nrepository = "@ + repository;
    assert(a + "\n"@ + repos::meta_line("repository"@, repository) =~= b + "\n"@);
    let c = b + "\nworkspace = "@ + workspace;
    assert(b + "\n"@ + repos::meta_line("workspace"@, workspace) =~= c + "\n"@);
    let d = c + "\npid = "@ + text::decimal(pid);
    assert(c + "\n"@ + repos::meta_line("pid"@, text::decimal(pid)) =~= d + "\n"@);
    let e = d + "\nlog = "@ + log;
    assert(d + "\n"@ + repos::meta_line("log"@, log) =~= e + "\n"@);
    let f = e + "\nsocket = "@ + socket;
    assert(e + "\n"@ + repos::meta_line("socket"@, socket) =~= f + "\n"@);
    assert(f + "\n"@ + repos::meta_line("command"@, quoted_list(command)) =~= f + "\ncommand = ["@
        + words + "]\n"@);
}

/// Sorting keeps the order of the sessions that were created at the same time.
pub proof fn law_sorting_is_stable(sessions: Seq<SessionView>, created_at: i64)
    ensures
        sorted_by_creation(sessions).filter(|s: SessionView| s.created_at == created_at)
            == sessions.filter(|s: SessionView| s.created_at == created_at),
    decreases sessions.len(),
{
    let same = |s: SessionView| s.created_at == created_at;
    reveal(Seq::filter);
    if sessions.len() > 0 {
        let rest = sorted_by_creation(sessions.drop_last());
        let last = sessions.last();
        law_sorting_is_stable(sessions.drop_last(), created_at);
        law_sorting_orders_sessions(sessions.drop_last());
        lemma_place_after(rest, last.created_at);
        let k = place_after(rest, last.created_at);
        let front = rest.take(k);
        let back = rest.skip(k);
        assert(rest =~= front + back);
        assert(rest.insert(k, last) =~= front + seq![last] + back);
        Seq::filter_distributes_over_add(front, back, same);
        Seq::filter_distributes_over_add(front, seq![last], same);
        Seq::filter_distributes_over_add(front + seq![last], back, same);
        assert(seq![last].drop_last() =~= seq![]);
        if last.created_at == created_at {
            back.lemma_all_neg_filter_empty(same);
            assert(back.filter(same) =~= seq![]);
            assert(seq![last].filter(same) =~= seq![last]);
            assert(front.filter(same) + seq![last] + Seq::empty() =~= (front.filter(same)
                + Seq::empty()).push(last));
        } else {
            seq![last].lemma_all_neg_filter_empty(same);
            assert(seq![last].filter(same) =~= Seq::empty());
            assert(front.filter(same) + Seq::empty() + back.filter(same) =~= front.filter(same)
                + back.filter(same));
        }
    }
}

/// Sorted sessions stand in the order of their creation and are the sessions that were
/// sorted.
pub proof fn law_sorted_sessions_ascend(sessions: Seq<SessionView>)
    ensures
        forall|i: int, j: int|
            0 <= i < j < sorted_by_creation(sessions).len() ==> (#[trigger] sorted_by_creation(
                sessions,
            )[i]).created_at <= (#[trigger] sorted_by_creation(sessions)[j]).created_at,
        sorted_by_creation(sessions).to_multiset() == sessions.to_multiset(),
{
    law_sorting_orders_sessions(sessions);
}

} // verus!
