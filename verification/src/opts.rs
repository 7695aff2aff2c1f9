//! What can be asked for on the command line.

use vstd::prelude::*;

verus! {

/// What is done to repositories.
#[derive(Debug)]
pub enum RepoSubcommand {
    Add { repository: String, alias: Option<String> },
    Sync { repository: String },
    Remove { repository: String },
    List { json: bool },
}

/// What a `RepoSubcommand` holds.
#[verifier::ext_equal]
pub enum RepoSubcommandView {
    Add { repository: Seq<char>, alias: Option<Seq<char>> },
    Sync { repository: Seq<char> },
    Remove { repository: Seq<char> },
    List { json: bool },
}

impl View for RepoSubcommand {
    type V = RepoSubcommandView;

    open spec fn view(&self) -> RepoSubcommandView {
        match self {
            RepoSubcommand::Add { repository, alias } => RepoSubcommandView::Add {
                repository: repository@,
                alias: alias.deep_view(),
            },
            RepoSubcommand::Sync { repository } => RepoSubcommandView::Sync {
                repository: repository@,
            },
            RepoSubcommand::Remove { repository } => RepoSubcommandView::Remove {
                repository: repository@,
            },
            RepoSubcommand::List { json } => RepoSubcommandView::List {
                json: *json,
            },
        }
    }
}

impl DeepView for RepoSubcommand {
    type V = RepoSubcommandView;

    open spec fn deep_view(&self) -> RepoSubcommandView {
        self@
    }
}

impl Clone for RepoSubcommand {
    fn clone(&self) -> (r: Self)
        ensures
            r@ == self@,
    {
        match self {
            RepoSubcommand::Add { repository, alias } => RepoSubcommand::Add {
                repository: repository.clone(),
                alias: alias.clone(),
            },
            RepoSubcommand::Sync { repository } => RepoSubcommand::Sync {
                repository: repository.clone(),
            },
            RepoSubcommand::Remove { repository } => RepoSubcommand::Remove {
                repository: repository.clone(),
            },
            RepoSubcommand::List { json } => RepoSubcommand::List {
                json: *json,
            },
        }
    }
}

/// A command on repositories.
#[derive(Debug)]
pub struct RepoCommand {
    pub command: RepoSubcommand,
}

/// What a `RepoCommand` holds.
#[verifier::ext_equal]
pub struct RepoCommandView {
    pub command: RepoSubcommandView,
}

impl View for RepoCommand {
    type V = RepoCommandView;

    open spec fn view(&self) -> RepoCommandView {
        RepoCommandView {
            command: self.command@,
        }
    }
}

impl DeepView for RepoCommand {
    type V = RepoCommandView;

    open spec fn deep_view(&self) -> RepoCommandView {
        self@
    }
}

impl Clone for RepoCommand {
    fn clone(&self) -> (r: Self)
        ensures
            r@ == self@,
    {
        RepoCommand {
            command: self.command.clone(),
        }
    }
}

/// What is done to workspaces.
#[derive(Debug)]
pub enum WorkspaceSubcommand {
    Create { repository: String, name: Option<String> },
    Clone { workspace: String, name: String },
    List { repository: String, json: bool },
    Info { workspace: String },
    Remove { workspace: String },
}

/// What a `WorkspaceSubcommand` holds.
#[verifier::ext_equal]
pub enum WorkspaceSubcommandView {
    Create { repository: Seq<char>, name: Option<Seq<char>> },
    Clone { workspace: Seq<char>, name: Seq<char> },
    List { repository: Seq<char>, json: bool },
    Info { workspace: Seq<char> },
    Remove { workspace: Seq<char> },
}

impl View for WorkspaceSubcommand {
    type V = WorkspaceSubcommandView;

    open spec fn view(&self) -> WorkspaceSubcommandView {
        match self {
            WorkspaceSubcommand::Create { repository, name } => WorkspaceSubcommandView::Create {
                repository: repository@,
                name: name.deep_view(),
            },
            WorkspaceSubcommand::Clone { workspace, name } => WorkspaceSubcommandView::Clone {
                workspace: workspace@,
                name: name@,
            },
            WorkspaceSubcommand::List { repository, json } => WorkspaceSubcommandView::List {
                repository: repository@,
                json: *json,
            },
            WorkspaceSubcommand::Info { workspace } => WorkspaceSubcommandView::Info {
                workspace: workspace@,
            },
            WorkspaceSubcommand::Remove { workspace } => WorkspaceSubcommandView::Remove {
                workspace: workspace@,
            },
        }
    }
}

impl DeepView for WorkspaceSubcommand {
    type V = WorkspaceSubcommandView;

    open spec fn deep_view(&self) -> WorkspaceSubcommandView {
        self@
    }
}

impl Clone for WorkspaceSubcommand {
    fn clone(&self) -> (r: Self)
        ensures
            r@ == self@,
    {
        match self {
            WorkspaceSubcommand::Create { repository, name } => WorkspaceSubcommand::Create {
                repository: repository.clone(),
                name: name.clone(),
            },
            WorkspaceSubcommand::Clone { workspace, name } => WorkspaceSubcommand::Clone {
                workspace: workspace.clone(),
                name: name.clone(),
            },
            WorkspaceSubcommand::List { repository, json } => WorkspaceSubcommand::List {
                repository: repository.clone(),
                json: *json,
            },
            WorkspaceSubcommand::Info { workspace } => WorkspaceSubcommand::Info {
                workspace: workspace.clone(),
            },
            WorkspaceSubcommand::Remove { workspace } => WorkspaceSubcommand::Remove {
                workspace: workspace.clone(),
            },
        }
    }
}

/// A command on workspaces.
#[derive(Debug)]
pub struct WorkspaceCommand {
    pub command: WorkspaceSubcommand,
}

/// What a `WorkspaceCommand` holds.
#[verifier::ext_equal]
pub struct WorkspaceCommandView {
    pub command: WorkspaceSubcommandView,
}

impl View for WorkspaceCommand {
    type V = WorkspaceCommandView;

    open spec fn view(&self) -> WorkspaceCommandView {
        WorkspaceCommandView {
            command: self.command@,
        }
    }
}

impl DeepView for WorkspaceCommand {
    type V = WorkspaceCommandView;

    open spec fn deep_view(&self) -> WorkspaceCommandView {
        self@
    }
}

impl Clone for WorkspaceCommand {
    fn clone(&self) -> (r: Self)
        ensures
            r@ == self@,
    {
        WorkspaceCommand {
            command: self.command.clone(),
        }
    }
}

/// What is done to sessions.
#[derive(Debug)]
pub enum SessionSubcommand {
    Create { workspace: String, command: Vec<String> },
    List { workspace: Option<String>, json: bool },
    Info { session: String },
    Attach { session: String, follow: bool },
    Stop { session: String },
    Remove { session: String },
    Serve { repository: String, repo_db_path: String, workspace: String, session: String, session_dir: String, workspace_dir: String, command: Vec<String> },
}

/// What a `SessionSubcommand` holds.
#[verifier::ext_equal]
pub enum SessionSubcommandView {
    Create { workspace: Seq<char>, command: Seq<Seq<char>> },
    List { workspace: Option<Seq<char>>, json: bool },
    Info { session: Seq<char> },
    Attach { session: Seq<char>, follow: bool },
    Stop { session: Seq<char> },
    Remove { session: Seq<char> },
    Serve { repository: Seq<char>, repo_db_path: Seq<char>, workspace: Seq<char>, session: Seq<char>, session_dir: Seq<char>, workspace_dir: Seq<char>, command: Seq<Seq<char>> },
}

impl View for SessionSubcommand {
    type V = SessionSubcommandView;

    open spec fn view(&self) -> SessionSubcommandView {
        match self {
            SessionSubcommand::Create { workspace, command } => SessionSubcommandView::Create {
                workspace: workspace@,
                command: command.deep_view(),
            },
            SessionSubcommand::List { workspace, json } => SessionSubcommandView::List {
                workspace: workspace.deep_view(),
                json: *json,
            },
            SessionSubcommand::Info { session } => SessionSubcommandView::Info {
                session: session@,
            },
            SessionSubcommand::Attach { session, follow } => SessionSubcommandView::Attach {
                session: session@,
                follow: *follow,
            },
            SessionSubcommand::Stop { session } => SessionSubcommandView::Stop {
                session: session@,
            },
            SessionSubcommand::Remove { session } => SessionSubcommandView::Remove {
                session: session@,
            },
            SessionSubcommand::Serve { repository, repo_db_path, workspace, session, session_dir, workspace_dir, command } => SessionSubcommandView::Serve {
                repository: repository@,
                repo_db_path: repo_db_path@,
                workspace: workspace@,
                session: session@,
                session_dir: session_dir@,
                workspace_dir: workspace_dir@,
                command: command.deep_view(),
            },
        }
    }
}

impl DeepView for SessionSubcommand {
    type V = SessionSubcommandView;

    open spec fn deep_view(&self) -> SessionSubcommandView {
        self@
    }
}

impl Clone for SessionSubcommand {
    fn clone(&self) -> (r: Self)
        ensures
            r@ == self@,
    {
        match self {
            SessionSubcommand::Create { workspace, command } => SessionSubcommand::Create {
                workspace: workspace.clone(),
                command: command.clone(),
            },
            SessionSubcommand::List { workspace, json } => SessionSubcommand::List {
                workspace: workspace.clone(),
                json: *json,
            },
            SessionSubcommand::Info { session } => SessionSubcommand::Info {
                session: session.clone(),
            },
            SessionSubcommand::Attach { session, follow } => SessionSubcommand::Attach {
                session: session.clone(),
                follow: *follow,
            },
            SessionSubcommand::Stop { session } => SessionSubcommand::Stop {
                session: session.clone(),
            },
            SessionSubcommand::Remove { session } => SessionSubcommand::Remove {
                session: session.clone(),
            },
            SessionSubcommand::Serve { repository, repo_db_path, workspace, session, session_dir, workspace_dir, command } => SessionSubcommand::Serve {
                repository: repository.clone(),
                repo_db_path: repo_db_path.clone(),
                workspace: workspace.clone(),
                session: session.clone(),
                session_dir: session_dir.clone(),
                workspace_dir: workspace_dir.clone(),
                command: command.clone(),
            },
        }
    }
}

/// A command on sessions.
#[derive(Debug)]
pub struct SessionCommand {
    pub command: SessionSubcommand,
}

/// What a `SessionCommand` holds.
#[verifier::ext_equal]
pub struct SessionCommandView {
    pub command: SessionSubcommandView,
}

impl View for SessionCommand {
    type V = SessionCommandView;

    open spec fn view(&self) -> SessionCommandView {
        SessionCommandView {
            command: self.command@,
        }
    }
}

impl DeepView for SessionCommand {
    type V = SessionCommandView;

    open spec fn deep_view(&self) -> SessionCommandView {
        self@
    }
}

impl Clone for SessionCommand {
    fn clone(&self) -> (r: Self)
        ensures
            r@ == self@,
    {
        SessionCommand {
            command: self.command.clone(),
        }
    }
}

/// What is pruned.
#[derive(Debug)]
pub enum PruneSubcommand {
    Sessions,
}

/// What a `PruneSubcommand` holds.
#[verifier::ext_equal]
pub enum PruneSubcommandView {
    Sessions,
}

impl View for PruneSubcommand {
    type V = PruneSubcommandView;

    open spec fn view(&self) -> PruneSubcommandView {
        match self {
            PruneSubcommand::Sessions => PruneSubcommandView::Sessions,
        }
    }
}

impl DeepView for PruneSubcommand {
    type V = PruneSubcommandView;

    open spec fn deep_view(&self) -> PruneSubcommandView {
        self@
    }
}

impl Clone for PruneSubcommand {
    fn clone(&self) -> (r: Self)
        ensures
            r@ == self@,
    {
        match self {
            PruneSubcommand::Sessions => PruneSubcommand::Sessions,
        }
    }
}

/// A command that prunes.
#[derive(Debug)]
pub struct PruneCommand {
    pub command: PruneSubcommand,
}

/// What a `PruneCommand` holds.
#[verifier::ext_equal]
pub struct PruneCommandView {
    pub command: PruneSubcommandView,
}

impl View for PruneCommand {
    type V = PruneCommandView;

    open spec fn view(&self) -> PruneCommandView {
        PruneCommandView {
            command: self.command@,
        }
    }
}

impl DeepView for PruneCommand {
    type V = PruneCommandView;

    open spec fn deep_view(&self) -> PruneCommandView {
        self@
    }
}

impl Clone for PruneCommand {
    fn clone(&self) -> (r: Self)
        ensures
            r@ == self@,
    {
        PruneCommand {
            command: self.command.clone(),
        }
    }
}

/// A command.
#[derive(Debug)]
pub enum Command {
    Prune(PruneCommand),
    Repo(RepoCommand),
    Session(SessionCommand),
    Workspace(WorkspaceCommand),
}

/// What a `Command` holds.
#[verifier::ext_equal]
pub enum CommandView {
    Prune(PruneCommandView),
    Repo(RepoCommandView),
    Session(SessionCommandView),
    Workspace(WorkspaceCommandView),
}

impl View for Command {
    type V = CommandView;

    open spec fn view(&self) -> CommandView {
        match self {
            Command::Prune(a) => CommandView::Prune(a@),
            Command::Repo(a) => CommandView::Repo(a@),
            Command::Session(a) => CommandView::Session(a@),
            Command::Workspace(a) => CommandView::Workspace(a@),
        }
    }
}

impl DeepView for Command {
    type V = CommandView;

    open spec fn deep_view(&self) -> CommandView {
        self@
    }
}

impl Clone for Command {
    fn clone(&self) -> (r: Self)
        ensures
            r@ == self@,
    {
        match self {
            Command::Prune(a) => Command::Prune(a.clone()),
            Command::Repo(a) => Command::Repo(a.clone()),
            Command::Session(a) => Command::Session(a.clone()),
            Command::Workspace(a) => Command::Workspace(a.clone()),
        }
    }
}

/// The command line.
#[derive(Debug)]
pub struct Opts {
    pub command: Command,
}

/// What an `Opts` holds.
#[verifier::ext_equal]
pub struct OptsView {
    pub command: CommandView,
}

impl View for Opts {
    type V = OptsView;

    open spec fn view(&self) -> OptsView {
        OptsView {
            command: self.command@,
        }
    }
}

impl DeepView for Opts {
    type V = OptsView;

    open spec fn deep_view(&self) -> OptsView {
        self@
    }
}

impl Clone for Opts {
    fn clone(&self) -> (r: Self)
        ensures
            r@ == self@,
    {
        Opts {
            command: self.command.clone(),
        }
    }
}

} // verus!
