//! The errors of the library, their messages and their exit codes.

use vstd::prelude::*;

verus! {

/// An error of a swarm operation.
#[derive(Debug)]
pub enum SwarmError {
    Io(String),
    Json(String),
    Turso(String),
    Database { path: String, operation: String, source: String },
    InvalidRepository(String),
    DuplicateRepository(String),
    DuplicateAlias(String),
    RepositoryNotFound(String),
    InvalidWorkspace(String),
    InvalidWorkspaceReference(String),
    DuplicateWorkspace(String),
    WorkspaceNotFound(String),
    InvalidSession(String),
    SessionNotFound(String),
    SessionRunning(String),
    Git(String),
    PathResolution,
}

/// What a `SwarmError` holds.
#[verifier::ext_equal]
pub enum SwarmErrorView {
    Io(Seq<char>),
    Json(Seq<char>),
    Turso(Seq<char>),
    Database { path: Seq<char>, operation: Seq<char>, source: Seq<char> },
    InvalidRepository(Seq<char>),
    DuplicateRepository(Seq<char>),
    DuplicateAlias(Seq<char>),
    RepositoryNotFound(Seq<char>),
    InvalidWorkspace(Seq<char>),
    InvalidWorkspaceReference(Seq<char>),
    DuplicateWorkspace(Seq<char>),
    WorkspaceNotFound(Seq<char>),
    InvalidSession(Seq<char>),
    SessionNotFound(Seq<char>),
    SessionRunning(Seq<char>),
    Git(Seq<char>),
    PathResolution,
}

impl View for SwarmError {
    type V = SwarmErrorView;

    open spec fn view(&self) -> SwarmErrorView {
        match self {
            SwarmError::Io(a) => SwarmErrorView::Io(a@),
            SwarmError::Json(a) => SwarmErrorView::Json(a@),
            SwarmError::Turso(a) => SwarmErrorView::Turso(a@),
            SwarmError::Database { path, operation, source } => SwarmErrorView::Database {
                path: path@,
                operation: operation@,
                source: source@,
            },
            SwarmError::InvalidRepository(a) => SwarmErrorView::InvalidRepository(a@),
            SwarmError::DuplicateRepository(a) => SwarmErrorView::DuplicateRepository(a@),
            SwarmError::DuplicateAlias(a) => SwarmErrorView::DuplicateAlias(a@),
            SwarmError::RepositoryNotFound(a) => SwarmErrorView::RepositoryNotFound(a@),
            SwarmError::InvalidWorkspace(a) => SwarmErrorView::InvalidWorkspace(a@),
            SwarmError::InvalidWorkspaceReference(a) => SwarmErrorView::InvalidWorkspaceReference(a@),
            SwarmError::DuplicateWorkspace(a) => SwarmErrorView::DuplicateWorkspace(a@),
            SwarmError::WorkspaceNotFound(a) => SwarmErrorView::WorkspaceNotFound(a@),
            SwarmError::InvalidSession(a) => SwarmErrorView::InvalidSession(a@),
            SwarmError::SessionNotFound(a) => SwarmErrorView::SessionNotFound(a@),
            SwarmError::SessionRunning(a) => SwarmErrorView::SessionRunning(a@),
            SwarmError::Git(a) => SwarmErrorView::Git(a@),
            SwarmError::PathResolution => SwarmErrorView::PathResolution,
        }
    }
}

impl DeepView for SwarmError {
    type V = SwarmErrorView;

    open spec fn deep_view(&self) -> SwarmErrorView {
        self@
    }
}

impl Clone for SwarmError {
    fn clone(&self) -> (r: Self)
        ensures
            r@ == self@,
    {
        match self {
            SwarmError::Io(a) => SwarmError::Io(a.clone()),
            SwarmError::Json(a) => SwarmError::Json(a.clone()),
            SwarmError::Turso(a) => SwarmError::Turso(a.clone()),
            SwarmError::Database { path, operation, source } => SwarmError::Database {
                path: path.clone(),
                operation: operation.clone(),
                source: source.clone(),
            },
            SwarmError::InvalidRepository(a) => SwarmError::InvalidRepository(a.clone()),
            SwarmError::DuplicateRepository(a) => SwarmError::DuplicateRepository(a.clone()),
            SwarmError::DuplicateAlias(a) => SwarmError::DuplicateAlias(a.clone()),
            SwarmError::RepositoryNotFound(a) => SwarmError::RepositoryNotFound(a.clone()),
            SwarmError::InvalidWorkspace(a) => SwarmError::InvalidWorkspace(a.clone()),
            SwarmError::InvalidWorkspaceReference(a) => SwarmError::InvalidWorkspaceReference(a.clone()),
            SwarmError::DuplicateWorkspace(a) => SwarmError::DuplicateWorkspace(a.clone()),
            SwarmError::WorkspaceNotFound(a) => SwarmError::WorkspaceNotFound(a.clone()),
            SwarmError::InvalidSession(a) => SwarmError::InvalidSession(a.clone()),
            SwarmError::SessionNotFound(a) => SwarmError::SessionNotFound(a.clone()),
            SwarmError::SessionRunning(a) => SwarmError::SessionRunning(a.clone()),
            SwarmError::Git(a) => SwarmError::Git(a.clone()),
            SwarmError::PathResolution => SwarmError::PathResolution,
        }
    }
}

/// A result in terms of what its value or error holds.
pub open spec fn result_view<T: View>(r: Result<T, SwarmError>) -> Result<T::V, SwarmErrorView> {
    match r {
        Ok(v) => Ok(v@),
        Err(e) => Err(e@),
    }
}

/// A text between a head and a tail.
pub open spec fn around(head: Seq<char>, text: Seq<char>, tail: Seq<char>) -> Seq<char> {
    head + text + tail
}

/// The message of an error.
pub open spec fn error_message(e: SwarmErrorView) -> Seq<char> {
    match e {
        SwarmErrorView::Io(text) => text,
        SwarmErrorView::Json(text) => text,
        SwarmErrorView::Turso(text) => text,
        SwarmErrorView::Database { path, operation, source } => "database `"@ + path + "` "@
            + operation + " failed: "@ + source,
        SwarmErrorView::InvalidRepository(text) => around(
            "invalid repository `"@,
            text,
            "`; expected host/owner/name"@,
        ),
        SwarmErrorView::DuplicateRepository(text) => around(
            "repository `"@,
            text,
            "` already exists"@,
        ),
        SwarmErrorView::DuplicateAlias(text) => around("alias `"@, text, "` already exists"@),
        SwarmErrorView::RepositoryNotFound(text) => around("repository `"@, text, "` not found"@),
        SwarmErrorView::InvalidWorkspace(text) => around("invalid workspace `"@, text, "`"@),
        SwarmErrorView::InvalidWorkspaceReference(text) => around(
            "invalid workspace reference `"@,
            text,
            "`; expected <repo>:<workspace>"@,
        ),
        SwarmErrorView::DuplicateWorkspace(text) => around(
            "workspace `"@,
            text,
            "` already exists"@,
        ),
        SwarmErrorView::WorkspaceNotFound(text) => around("workspace `"@, text, "` not found"@),
        SwarmErrorView::InvalidSession(text) => around("invalid session `"@, text, "`"@),
        SwarmErrorView::SessionNotFound(text) => around("session `"@, text, "` not found"@),
        SwarmErrorView::SessionRunning(text) => around("session `"@, text, "` is still running"@),
        SwarmErrorView::Git(text) => "git command failed: "@ + text,
        SwarmErrorView::PathResolution => "failed to resolve swarm data directory"@,
    }
}

/// The exit code of a command that failed: 3 for a repository that is not
/// known, 4 for a repository or an alias that is taken, 2 for an argument that
/// is not well formed and 1 for any other failure.
pub open spec fn error_exit_code(e: SwarmErrorView) -> i32 {
    match e {
        SwarmErrorView::RepositoryNotFound(_) => 3,
        SwarmErrorView::DuplicateRepository(_) | SwarmErrorView::DuplicateAlias(_) => 4,
        SwarmErrorView::InvalidRepository(_)
        | SwarmErrorView::InvalidWorkspace(_)
        | SwarmErrorView::InvalidWorkspaceReference(_) => 2,
        _ => 1,
    }
}

fn wrap(head: &str, text: &str, tail: &str) -> (r: String)
    ensures
        r@ == around(head@, text@, tail@),
{
    let mut out = head.to_owned();
    out.append(text);
    out.append(tail);
    out
}

impl SwarmError {
    /// The message that is shown for the error.
    pub fn message(&self) -> (r: String)
        ensures
            r@ == error_message(self@),
    {
        match self {
            SwarmError::Io(text) => text.clone(),
            SwarmError::Json(text) => text.clone(),
            SwarmError::Turso(text) => text.clone(),
            SwarmError::Database { path, operation, source } => {
                let mut out = "database `".to_owned();
                out.append(path.as_str());
                out.append("` ");
                out.append(operation.as_str());
                out.append(" failed: ");
                out.append(source.as_str());
                out
            },
            SwarmError::InvalidRepository(text) => wrap(
                "invalid repository `",
                text.as_str(),
                "`; expected host/owner/name",
            ),
            SwarmError::DuplicateRepository(text) => wrap(
                "repository `",
                text.as_str(),
                "` already exists",
            ),
            SwarmError::DuplicateAlias(text) => wrap("alias `", text.as_str(), "` already exists"),
            SwarmError::RepositoryNotFound(text) => wrap(
                "repository `",
                text.as_str(),
                "` not found",
            ),
            SwarmError::InvalidWorkspace(text) => wrap("invalid workspace `", text.as_str(), "`"),
            SwarmError::InvalidWorkspaceReference(text) => wrap(
                "invalid workspace reference `",
                text.as_str(),
                "`; expected <repo>:<workspace>",
            ),
            SwarmError::DuplicateWorkspace(text) => wrap(
                "workspace `",
                text.as_str(),
                "` already exists",
            ),
            SwarmError::WorkspaceNotFound(text) => wrap(
                "workspace `",
                text.as_str(),
                "` not found",
            ),
            SwarmError::InvalidSession(text) => wrap("invalid session `", text.as_str(), "`"),
            SwarmError::SessionNotFound(text) => wrap("session `", text.as_str(), "` not found"),
            SwarmError::SessionRunning(text) => wrap(
                "session `",
                text.as_str(),
                "` is still running",
            ),
            SwarmError::Git(text) => {
                let mut out = "git command failed: ".to_owned();
                out.append(text.as_str());
                out
            },
            SwarmError::PathResolution => "failed to resolve swarm data directory".to_owned(),
        }
    }

    /// The exit code of a command that fails with the error.
    pub fn exit_code(&self) -> (r: i32)
        ensures
            r == error_exit_code(self@),
    {
        match self {
            SwarmError::RepositoryNotFound(_) => 3,
            SwarmError::DuplicateRepository(_) | SwarmError::DuplicateAlias(_) => 4,
            SwarmError::InvalidRepository(_)
            | SwarmError::InvalidWorkspace(_)
            | SwarmError::InvalidWorkspaceReference(_) => 2,
            _ => 1,
        }
    }
}

/// The error of an operation on a database file.
pub fn database_error(path: &str, operation: &str, source: &str) -> (r: SwarmError)
    ensures
        r@ == (SwarmErrorView::Database {
            path: path@,
            operation: operation@,
            source: source@,
        }),
{
    SwarmError::Database {
        path: path.to_owned(),
        operation: operation.to_owned(),
        source: source.to_owned(),
    }
}

/// The messages of the errors, written out.
pub proof fn law_messages(t: Seq<char>, operation: Seq<char>, source: Seq<char>)
    ensures
        error_message(SwarmErrorView::Io(t)) == t,
        error_message(SwarmErrorView::Json(t)) == t,
        error_message(SwarmErrorView::Turso(t)) == t,
        error_message(SwarmErrorView::Database { path: t, operation, source }) == "database `"@ + t
            + "` "@ + operation + " failed: "@ + source,
        error_message(SwarmErrorView::InvalidRepository(t)) == "invalid repository `"@ + t
            + "`; expected host/owner/name"@,
        error_message(SwarmErrorView::DuplicateRepository(t)) == "repository `"@ + t
            + "` already exists"@,
        error_message(SwarmErrorView::DuplicateAlias(t)) == "alias `"@ + t + "` already exists"@,
        error_message(SwarmErrorView::RepositoryNotFound(t)) == "repository `"@ + t
            + "` not found"@,
        error_message(SwarmErrorView::InvalidWorkspace(t)) == "invalid workspace `"@ + t + "`"@,
        error_message(SwarmErrorView::InvalidWorkspaceReference(t))
            == "invalid workspace reference `"@ + t + "`; expected <repo>:<workspace>"@,
        error_message(SwarmErrorView::DuplicateWorkspace(t)) == "workspace `"@ + t
            + "` already exists"@,
        error_message(SwarmErrorView::WorkspaceNotFound(t)) == "workspace `"@ + t + "` not found"@,
        error_message(SwarmErrorView::InvalidSession(t)) == "invalid session `"@ + t + "`"@,
        error_message(SwarmErrorView::SessionNotFound(t)) == "session `"@ + t + "` not found"@,
        error_message(SwarmErrorView::SessionRunning(t)) == "session `"@ + t
            + "` is still running"@,
        error_message(SwarmErrorView::Git(t)) == "git command failed: "@ + t,
        error_message(SwarmErrorView::PathResolution)
            == "failed to resolve swarm data directory"@,
{
}

/// What is not well formed ends a command with 2, a repository that is not known with 3, what
/// is taken already with 4, and everything else with 1: never with success.
pub proof fn law_exit_codes(e: SwarmErrorView)
    ensures
        error_exit_code(e) == 2 <==> e is InvalidRepository || e is InvalidWorkspace
            || e is InvalidWorkspaceReference,
        error_exit_code(e) == 3 <==> e is RepositoryNotFound,
        error_exit_code(e) == 4 <==> e is DuplicateRepository || e is DuplicateAlias,
        error_exit_code(e) == 1 || error_exit_code(e) == 2 || error_exit_code(e) == 3
            || error_exit_code(e) == 4,
{
}

} // verus!
