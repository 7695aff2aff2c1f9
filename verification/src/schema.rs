//! Bringing the tables of a repository up to date.

use crate::error;
use crate::error::{SwarmError, SwarmErrorView};
use crate::text;
use vstd::prelude::*;

verus! {

/// What the migration asks for: a batch of statements, or the columns of a table.
#[derive(Debug)]
pub enum SchemaEffect {
    Batch(String),
    Columns(String),
}

/// What a `SchemaEffect` holds.
#[verifier::ext_equal]
pub enum SchemaEffectView {
    Batch(Seq<char>),
    Columns(Seq<char>),
}

impl View for SchemaEffect {
    type V = SchemaEffectView;

    open spec fn view(&self) -> SchemaEffectView {
        match self {
            SchemaEffect::Batch(a) => SchemaEffectView::Batch(a@),
            SchemaEffect::Columns(a) => SchemaEffectView::Columns(a@),
        }
    }
}

impl DeepView for SchemaEffect {
    type V = SchemaEffectView;

    open spec fn deep_view(&self) -> SchemaEffectView {
        self@
    }
}

impl Clone for SchemaEffect {
    fn clone(&self) -> (r: Self)
        ensures
            r@ == self@,
    {
        match self {
            SchemaEffect::Batch(a) => SchemaEffect::Batch(a.clone()),
            SchemaEffect::Columns(a) => SchemaEffect::Columns(a.clone()),
        }
    }
}

/// What it hears back: that a batch is done, the columns, that a statement failed, or
/// that the columns could not be read.
#[derive(Debug)]
pub enum SchemaReply {
    Done,
    Columns(Vec<String>),
    Failed(String),
    Unreadable(String),
}

/// What a `SchemaReply` holds.
#[verifier::ext_equal]
pub enum SchemaReplyView {
    Done,
    Columns(Seq<Seq<char>>),
    Failed(Seq<char>),
    Unreadable(Seq<char>),
}

impl View for SchemaReply {
    type V = SchemaReplyView;

    open spec fn view(&self) -> SchemaReplyView {
        match self {
            SchemaReply::Done => SchemaReplyView::Done,
            SchemaReply::Columns(a) => SchemaReplyView::Columns(a.deep_view()),
            SchemaReply::Failed(a) => SchemaReplyView::Failed(a@),
            SchemaReply::Unreadable(a) => SchemaReplyView::Unreadable(a@),
        }
    }
}

impl DeepView for SchemaReply {
    type V = SchemaReplyView;

    open spec fn deep_view(&self) -> SchemaReplyView {
        self@
    }
}

impl Clone for SchemaReply {
    fn clone(&self) -> (r: Self)
        ensures
            r@ == self@,
    {
        match self {
            SchemaReply::Done => SchemaReply::Done,
            SchemaReply::Columns(a) => SchemaReply::Columns(a.clone()),
            SchemaReply::Failed(a) => SchemaReply::Failed(a.clone()),
            SchemaReply::Unreadable(a) => SchemaReply::Unreadable(a.clone()),
        }
    }
}

/// What the migration waits for.
#[derive(Debug)]
pub enum SchemaPhase {
    Initializing,
    InspectingWorkspaces,
    MigratingWorkspaces,
    InspectingSessions,
    MigratingSessions,
}

/// What a `SchemaPhase` holds.
#[verifier::ext_equal]
pub enum SchemaPhaseView {
    Initializing,
    InspectingWorkspaces,
    MigratingWorkspaces,
    InspectingSessions,
    MigratingSessions,
}

impl View for SchemaPhase {
    type V = SchemaPhaseView;

    open spec fn view(&self) -> SchemaPhaseView {
        match self {
            SchemaPhase::Initializing => SchemaPhaseView::Initializing,
            SchemaPhase::InspectingWorkspaces => SchemaPhaseView::InspectingWorkspaces,
            SchemaPhase::MigratingWorkspaces => SchemaPhaseView::MigratingWorkspaces,
            SchemaPhase::InspectingSessions => SchemaPhaseView::InspectingSessions,
            SchemaPhase::MigratingSessions => SchemaPhaseView::MigratingSessions,
        }
    }
}

impl DeepView for SchemaPhase {
    type V = SchemaPhaseView;

    open spec fn deep_view(&self) -> SchemaPhaseView {
        self@
    }
}

impl Clone for SchemaPhase {
    fn clone(&self) -> (r: Self)
        ensures
            r@ == self@,
    {
        match self {
            SchemaPhase::Initializing => SchemaPhase::Initializing,
            SchemaPhase::InspectingWorkspaces => SchemaPhase::InspectingWorkspaces,
            SchemaPhase::MigratingWorkspaces => SchemaPhase::MigratingWorkspaces,
            SchemaPhase::InspectingSessions => SchemaPhase::InspectingSessions,
            SchemaPhase::MigratingSessions => SchemaPhase::MigratingSessions,
        }
    }
}

/// The migration of the database at a path.
#[derive(Debug)]
pub struct Migration {
    pub path: String,
    pub phase: SchemaPhase,
}

/// What a `Migration` holds.
#[verifier::ext_equal]
pub struct MigrationView {
    pub path: Seq<char>,
    pub phase: SchemaPhaseView,
}

impl View for Migration {
    type V = MigrationView;

    open spec fn view(&self) -> MigrationView {
        MigrationView {
            path: self.path@,
            phase: self.phase@,
        }
    }
}

impl DeepView for Migration {
    type V = MigrationView;

    open spec fn deep_view(&self) -> MigrationView {
        self@
    }
}

impl Clone for Migration {
    fn clone(&self) -> (r: Self)
        ensures
            r@ == self@,
    {
        Migration {
            path: self.path.clone(),
            phase: self.phase.clone(),
        }
    }
}

/// What the migration does next. A reply of another sort than the effect's is a
/// mismatch.
#[derive(Debug)]
pub enum SchemaStep {
    Run(SchemaEffect, Migration),
    Finish(Result<(), SwarmError>),
    Mismatch,
}

/// What a `SchemaStep` holds.
#[verifier::ext_equal]
pub enum SchemaStepView {
    Run(SchemaEffectView, MigrationView),
    Finish(Result<(), SwarmErrorView>),
    Mismatch,
}

impl View for SchemaStep {
    type V = SchemaStepView;

    open spec fn view(&self) -> SchemaStepView {
        match self {
            SchemaStep::Run(effect, state) => SchemaStepView::Run(effect@, state@),
            SchemaStep::Finish(Ok(_)) => SchemaStepView::Finish(Ok(())),
            SchemaStep::Finish(Err(e)) => SchemaStepView::Finish(Err(e@)),
            SchemaStep::Mismatch => SchemaStepView::Mismatch,
        }
    }
}

/// The columns of the table of workspaces.
pub open spec fn workspace_columns() -> Seq<Seq<char>> {
    seq!["name"@, "branch"@, "path"@, "created_at"@]
}

/// The columns of the table of sessions.
pub open spec fn session_columns() -> Seq<Seq<char>> {
    seq![
        "id"@,
        "workspace_name"@,
        "command_json"@,
        "path"@,
        "log_path"@,
        "socket_path"@,
        "pid"@,
        "status"@,
        "exit_code"@,
        "created_at"@,
        "stopped_at"@,
    ]
}

/// The definition of the table of workspaces.
pub open spec fn workspaces_definition() -> Seq<char> {
    "workspaces (name TEXT PRIMARY KEY, branch TEXT NOT NULL, path TEXT NOT NULL UNIQUE, created_at INTEGER NOT NULL);"@
}

/// The definition of the table of sessions.
pub open spec fn sessions_definition() -> Seq<char> {
    "sessions (id TEXT PRIMARY KEY, workspace_name TEXT NOT NULL, command_json TEXT NOT NULL, path TEXT NOT NULL UNIQUE, log_path TEXT NOT NULL UNIQUE, socket_path TEXT NOT NULL UNIQUE, pid INTEGER, status TEXT NOT NULL, exit_code INTEGER, created_at INTEGER NOT NULL, stopped_at INTEGER);"@
}

/// Makes the tables that are missing.
pub open spec fn initial_batch() -> Seq<char> {
    "CREATE TABLE IF NOT EXISTS "@ + workspaces_definition() + " CREATE TABLE IF NOT EXISTS "@
        + sessions_definition()
}

/// Makes the table of workspaces anew.
pub open spec fn workspaces_batch() -> Seq<char> {
    "DROP TABLE workspaces; CREATE TABLE "@ + workspaces_definition()
}

/// Makes the table of sessions anew.
pub open spec fn sessions_batch() -> Seq<char> {
    "DROP TABLE sessions; CREATE TABLE "@ + sessions_definition()
}

/// What is being done, as an error tells it.
pub open spec fn operation(phase: SchemaPhaseView) -> Seq<char> {
    match phase {
        SchemaPhaseView::Initializing => "initialize schema"@,
        SchemaPhaseView::InspectingWorkspaces => "inspect workspaces schema"@,
        SchemaPhaseView::MigratingWorkspaces => "migrate workspaces schema"@,
        SchemaPhaseView::InspectingSessions => "inspect sessions schema"@,
        SchemaPhaseView::MigratingSessions => "migrate sessions schema"@,
    }
}

/// The step that asks for something and waits in a phase.
pub open spec fn schema_ask(
    effect: SchemaEffectView,
    path: Seq<char>,
    phase: SchemaPhaseView,
) -> SchemaStepView {
    SchemaStepView::Run(effect, MigrationView { path, phase })
}

/// The first step.
pub open spec fn migration_start(path: Seq<char>) -> SchemaStepView {
    schema_ask(
        SchemaEffectView::Batch(initial_batch()),
        path,
        SchemaPhaseView::Initializing,
    )
}

/// The step that looks at the table of sessions.
pub open spec fn inspect_sessions(path: Seq<char>) -> SchemaStepView {
    schema_ask(
        SchemaEffectView::Columns("sessions"@),
        path,
        SchemaPhaseView::InspectingSessions,
    )
}

/// The next step: a table with other columns than it should have is made anew.
pub open spec fn migration_next(s: MigrationView, reply: SchemaReplyView) -> SchemaStepView {
    match (s.phase, reply) {
        (phase, SchemaReplyView::Failed(source)) => SchemaStepView::Finish(
            Err(SwarmErrorView::Database { path: s.path, operation: operation(phase), source }),
        ),
        (_, SchemaReplyView::Unreadable(source)) => SchemaStepView::Finish(
            Err(SwarmErrorView::Turso(source)),
        ),
        (SchemaPhaseView::Initializing, SchemaReplyView::Done) => schema_ask(
            SchemaEffectView::Columns("workspaces"@),
            s.path,
            SchemaPhaseView::InspectingWorkspaces,
        ),
        (SchemaPhaseView::InspectingWorkspaces, SchemaReplyView::Columns(columns)) => if columns
            == workspace_columns() {
            inspect_sessions(s.path)
        } else {
            schema_ask(
                SchemaEffectView::Batch(workspaces_batch()),
                s.path,
                SchemaPhaseView::MigratingWorkspaces,
            )
        },
        (SchemaPhaseView::MigratingWorkspaces, SchemaReplyView::Done) => inspect_sessions(s.path),
        (SchemaPhaseView::InspectingSessions, SchemaReplyView::Columns(columns)) => if columns
            == session_columns() {
            SchemaStepView::Finish(Ok(()))
        } else {
            schema_ask(
                SchemaEffectView::Batch(sessions_batch()),
                s.path,
                SchemaPhaseView::MigratingSessions,
            )
        },
        (SchemaPhaseView::MigratingSessions, SchemaReplyView::Done) => SchemaStepView::Finish(
            Ok(()),
        ),
        _ => SchemaStepView::Mismatch,
    }
}

fn same_texts(a: &Vec<String>, b: &Vec<String>) -> (r: bool)
    ensures
        r == (a.deep_view() == b.deep_view()),
{
    proof {
        assert(a.deep_view().len() == a@.len());
        assert(b.deep_view().len() == b@.len());
    }
    if a.len() != b.len() {
        return false;
    }
    let mut i: usize = 0;
    while i < a.len()
        invariant
            i <= a.len(),
            a.len() == b.len(),
            forall|j: int| 0 <= j < i ==> #[trigger] a.deep_view()[j] == b.deep_view()[j],
        decreases a.len() - i,
    {
        proof {
            assert(a.deep_view()[i as int] == a@[i as int]@);
            assert(b.deep_view()[i as int] == b@[i as int]@);
        }
        if !text::same(a[i].as_str(), b[i].as_str()) {
            return false;
        }
        i += 1;
    }
    proof {
        assert(a.deep_view() =~= b.deep_view());
    }
    true
}

fn wanted_workspace_columns() -> (r: Vec<String>)
    ensures
        r.deep_view() == workspace_columns(),
{
    let r = vec![
        "name".to_owned(),
        "branch".to_owned(),
        "path".to_owned(),
        "created_at".to_owned(),
    ];
    proof {
        assert(r.deep_view() =~= workspace_columns());
    }
    r
}

fn wanted_session_columns() -> (r: Vec<String>)
    ensures
        r.deep_view() == session_columns(),
{
    let r = vec![
        "id".to_owned(),
        "workspace_name".to_owned(),
        "command_json".to_owned(),
        "path".to_owned(),
        "log_path".to_owned(),
        "socket_path".to_owned(),
        "pid".to_owned(),
        "status".to_owned(),
        "exit_code".to_owned(),
        "created_at".to_owned(),
        "stopped_at".to_owned(),
    ];
    proof {
        assert(r.deep_view() =~= session_columns());
    }
    r
}

fn define_workspaces(head: &str) -> (r: String)
    ensures
        r@ == head@ + workspaces_definition(),
{
    let mut out = head.to_owned();
    out.append(
        "workspaces (name TEXT PRIMARY KEY, branch TEXT NOT NULL, path TEXT NOT NULL UNIQUE, created_at INTEGER NOT NULL);",
    );
    out
}

fn define_sessions(head: &str) -> (r: String)
    ensures
        r@ == head@ + sessions_definition(),
{
    let mut out = head.to_owned();
    out.append(
        "sessions (id TEXT PRIMARY KEY, workspace_name TEXT NOT NULL, command_json TEXT NOT NULL, path TEXT NOT NULL UNIQUE, log_path TEXT NOT NULL UNIQUE, socket_path TEXT NOT NULL UNIQUE, pid INTEGER, status TEXT NOT NULL, exit_code INTEGER, created_at INTEGER NOT NULL, stopped_at INTEGER);",
    );
    out
}

/// Begins to bring the database at a path up to date.
pub fn migrate_repo_db(path: &str) -> (r: SchemaStep)
    ensures
        r@ == migration_start(path@),
{
    let mut batch = define_workspaces("CREATE TABLE IF NOT EXISTS ");
    batch.append(define_sessions(" CREATE TABLE IF NOT EXISTS ").as_str());
    proof {
        assert(batch@ =~= initial_batch());
    }
    SchemaStep::Run(
        SchemaEffect::Batch(batch),
        Migration { path: path.to_owned(), phase: SchemaPhase::Initializing },
    )
}

impl Migration {
    fn operation(&self) -> (r: String)
        ensures
            r@ == operation(self@.phase),
    {
        match &self.phase {
            SchemaPhase::Initializing => "initialize schema".to_owned(),
            SchemaPhase::InspectingWorkspaces => "inspect workspaces schema".to_owned(),
            SchemaPhase::MigratingWorkspaces => "migrate workspaces schema".to_owned(),
            SchemaPhase::InspectingSessions => "inspect sessions schema".to_owned(),
            SchemaPhase::MigratingSessions => "migrate sessions schema".to_owned(),
        }
    }

    /// Goes on once the reply is there.
    pub fn resume(self, reply: SchemaReply) -> (r: SchemaStep)
        ensures
            r@ == migration_next(self@, reply@),
    {
        let operation = self.operation();
        let path = self.path;
        match (self.phase, reply) {
            (_, SchemaReply::Failed(source)) => SchemaStep::Finish(
                Err(
                    error::database_error(path.as_str(), operation.as_str(), source.as_str()),
                ),
            ),
            (_, SchemaReply::Unreadable(source)) => SchemaStep::Finish(
                Err(SwarmError::Turso(source)),
            ),
            (SchemaPhase::Initializing, SchemaReply::Done) => SchemaStep::Run(
                SchemaEffect::Columns("workspaces".to_owned()),
                Migration { path, phase: SchemaPhase::InspectingWorkspaces },
            ),
            (SchemaPhase::InspectingWorkspaces, SchemaReply::Columns(columns)) => {
                if same_texts(&columns, &wanted_workspace_columns()) {
                    SchemaStep::Run(
                        SchemaEffect::Columns("sessions".to_owned()),
                        Migration { path, phase: SchemaPhase::InspectingSessions },
                    )
                } else {
                    SchemaStep::Run(
                        SchemaEffect::Batch(
                            define_workspaces("DROP TABLE workspaces; CREATE TABLE "),
                        ),
                        Migration { path, phase: SchemaPhase::MigratingWorkspaces },
                    )
                }
            },
            (SchemaPhase::MigratingWorkspaces, SchemaReply::Done) => SchemaStep::Run(
                SchemaEffect::Columns("sessions".to_owned()),
                Migration { path, phase: SchemaPhase::InspectingSessions },
            ),
            (SchemaPhase::InspectingSessions, SchemaReply::Columns(columns)) => {
                if same_texts(&columns, &wanted_session_columns()) {
                    SchemaStep::Finish(Ok(()))
                } else {
                    SchemaStep::Run(
                        SchemaEffect::Batch(
                            define_sessions("DROP TABLE sessions; CREATE TABLE "),
                        ),
                        Migration { path, phase: SchemaPhase::MigratingSessions },
                    )
                }
            },
            (SchemaPhase::MigratingSessions, SchemaReply::Done) => SchemaStep::Finish(Ok(())),
            _ => SchemaStep::Mismatch,
        }
    }
}

/// Tables that are up to date are left as they are: nothing is dropped.
pub proof fn law_current_tables_are_kept(path: Seq<char>)
    ensures
        ({
            let first = migration_start(path)->Run_1;
            let second = migration_next(first, SchemaReplyView::Done);
            let third = migration_next(
                second->Run_1,
                SchemaReplyView::Columns(workspace_columns()),
            );
            let end = migration_next(third->Run_1, SchemaReplyView::Columns(session_columns()));
            &&& second matches SchemaStepView::Run(effect, _) && effect
                == SchemaEffectView::Columns("workspaces"@)
            &&& third matches SchemaStepView::Run(effect, _) && effect
                == SchemaEffectView::Columns("sessions"@)
            &&& end == SchemaStepView::Finish(Ok(()))
        }),
{
}

/// A table is dropped only where its columns are not what they should be.
pub proof fn law_only_other_tables_are_dropped(s: MigrationView, reply: SchemaReplyView)
    ensures
        migration_next(s, reply) matches SchemaStepView::Run(_, t) ==> (t.phase
            == SchemaPhaseView::MigratingWorkspaces ==> (reply matches SchemaReplyView::Columns(
            columns,
        ) && columns != workspace_columns())),
        migration_next(s, reply) matches SchemaStepView::Run(_, t) ==> (t.phase
            == SchemaPhaseView::MigratingSessions ==> (reply matches SchemaReplyView::Columns(
            columns,
        ) && columns != session_columns())),
        migration_next(s, reply) matches SchemaStepView::Run(effect, t) ==> (effect is Batch ==> (
        t.phase == SchemaPhaseView::MigratingWorkspaces && effect == SchemaEffectView::Batch(
            workspaces_batch(),
        )) || (t.phase == SchemaPhaseView::MigratingSessions && effect == SchemaEffectView::Batch(
            sessions_batch(),
        ))),
{
}

/// The statements that make the tables, written out.
pub proof fn law_statements_written_out()
    ensures
        ({
            let workspaces =
                "workspaces (name TEXT PRIMARY KEY, branch TEXT NOT NULL, path TEXT NOT NULL UNIQUE, created_at INTEGER NOT NULL);"@;
            let sessions =
                "sessions (id TEXT PRIMARY KEY, workspace_name TEXT NOT NULL, command_json TEXT NOT NULL, path TEXT NOT NULL UNIQUE, log_path TEXT NOT NULL UNIQUE, socket_path TEXT NOT NULL UNIQUE, pid INTEGER, status TEXT NOT NULL, exit_code INTEGER, created_at INTEGER NOT NULL, stopped_at INTEGER);"@;
            &&& initial_batch() == "CREATE TABLE IF NOT EXISTS "@ + workspaces
                + " CREATE TABLE IF NOT EXISTS "@ + sessions
            &&& workspaces_batch() == "DROP TABLE workspaces; CREATE TABLE "@ + workspaces
            &&& sessions_batch() == "DROP TABLE sessions; CREATE TABLE "@ + sessions
        }),
{
}

/// Where the migration stands once it has heard the given replies, and what it asked for.
pub open spec fn migrated(step: SchemaStepView, replies: Seq<SchemaReplyView>) -> (
    Seq<SchemaEffectView>,
    SchemaStepView,
)
    decreases replies.len(),
{
    match step {
        SchemaStepView::Run(effect, s) => if replies.len() == 0 {
            (seq![effect], step)
        } else {
            let rest = migrated(migration_next(s, replies[0]), replies.skip(1));
            (seq![effect] + rest.0, rest.1)
        },
        _ => (seq![], step),
    }
}

/// Bringing a database up to date makes the tables that are missing, asks for the columns of
/// the one table and then of the other, makes a table anew exactly where its columns are not
/// the wanted ones in their order, and is then done.
pub proof fn law_migration_written_out(
    path: Seq<char>,
    workspaces: Seq<Seq<char>>,
    sessions: Seq<Seq<char>>,
)
    ensures
        ({
            let wanted_workspaces = seq!["name"@, "branch"@, "path"@, "created_at"@];
            let wanted_sessions = seq![
                "id"@,
                "workspace_name"@,
                "command_json"@,
                "path"@,
                "log_path"@,
                "socket_path"@,
                "pid"@,
                "status"@,
                "exit_code"@,
                "created_at"@,
                "stopped_at"@,
            ];
            let remake: Seq<SchemaReplyView> = seq![SchemaReplyView::Done];
            let none: Seq<SchemaReplyView> = seq![];
            let replies = seq![
                SchemaReplyView::Done,
                SchemaReplyView::Columns(workspaces),
            ] + (if workspaces == wanted_workspaces {
                none
            } else {
                remake
            }) + seq![SchemaReplyView::Columns(sessions)] + (if sessions == wanted_sessions {
                none
            } else {
                remake
            });
            let effects = seq![
                SchemaEffectView::Batch(initial_batch()),
                SchemaEffectView::Columns("workspaces"@),
            ] + (if workspaces == wanted_workspaces {
                Seq::<SchemaEffectView>::empty()
            } else {
                seq![SchemaEffectView::Batch(workspaces_batch())]
            }) + seq![SchemaEffectView::Columns("sessions"@)] + (if sessions == wanted_sessions {
                Seq::<SchemaEffectView>::empty()
            } else {
                seq![SchemaEffectView::Batch(sessions_batch())]
            });
            migrated(migration_start(path), replies) == (
                effects,
                SchemaStepView::Finish(Ok(())),
            )
        }),
{
    let one = workspaces == workspace_columns();
    let two = sessions == session_columns();
    let remake: Seq<SchemaReplyView> = seq![SchemaReplyView::Done];
    let none: Seq<SchemaReplyView> = seq![];
    let last: Seq<SchemaReplyView> = if two {
        none
    } else {
        remake
    };
    let mid: Seq<SchemaReplyView> = if one {
        none
    } else {
        remake
    };
    let replies = seq![SchemaReplyView::Done, SchemaReplyView::Columns(workspaces)] + mid + seq![
        SchemaReplyView::Columns(sessions),
    ] + last;
    reveal_with_fuel(migrated, 7);
    assert(replies.skip(1)[0] == SchemaReplyView::Columns(workspaces));
    if one {
        assert(replies.skip(1).skip(1)[0] == SchemaReplyView::Columns(sessions));
        if two {
            assert(replies.skip(1).skip(1).skip(1).len() == 0);
        } else {
            assert(replies.skip(1).skip(1).skip(1)[0] == SchemaReplyView::Done);
            assert(replies.skip(1).skip(1).skip(1).skip(1).len() == 0);
        }
    } else {
        assert(replies.skip(1).skip(1)[0] == SchemaReplyView::Done);
        assert(replies.skip(1).skip(1).skip(1)[0] == SchemaReplyView::Columns(sessions));
        if two {
            assert(replies.skip(1).skip(1).skip(1).skip(1).len() == 0);
        } else {
            assert(replies.skip(1).skip(1).skip(1).skip(1)[0] == SchemaReplyView::Done);
            assert(replies.skip(1).skip(1).skip(1).skip(1).skip(1).len() == 0);
        }
    }
    let effects = seq![
        SchemaEffectView::Batch(initial_batch()),
        SchemaEffectView::Columns("workspaces"@),
    ] + (if one {
        Seq::<SchemaEffectView>::empty()
    } else {
        seq![SchemaEffectView::Batch(workspaces_batch())]
    }) + seq![SchemaEffectView::Columns("sessions"@)] + (if two {
        Seq::<SchemaEffectView>::empty()
    } else {
        seq![SchemaEffectView::Batch(sessions_batch())]
    });
    assert(migrated(migration_start(path), replies).0 =~= effects);
}

/// A statement that fails ends the migration with the database, what was being done and why;
/// columns that cannot be read end it with the reason.
pub proof fn law_failed_migrations(path: Seq<char>, source: Seq<char>)
    ensures
        ({
            let fails = |phase: SchemaPhaseView, operation: Seq<char>| migration_next(
                MigrationView { path, phase },
                SchemaReplyView::Failed(source),
            ) == SchemaStepView::Finish(
                Err(SwarmErrorView::Database { path, operation, source }),
            ) && migration_next(
                MigrationView { path, phase },
                SchemaReplyView::Unreadable(source),
            ) == SchemaStepView::Finish(Err(SwarmErrorView::Turso(source)));
            &&& fails(SchemaPhaseView::Initializing, "initialize schema"@)
            &&& fails(SchemaPhaseView::InspectingWorkspaces, "inspect workspaces schema"@)
            &&& fails(SchemaPhaseView::MigratingWorkspaces, "migrate workspaces schema"@)
            &&& fails(SchemaPhaseView::InspectingSessions, "inspect sessions schema"@)
            &&& fails(SchemaPhaseView::MigratingSessions, "migrate sessions schema"@)
        }),
{
}

} // verus!
