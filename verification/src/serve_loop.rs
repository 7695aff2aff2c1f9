//! The loop that serves a session: it copies what the terminal writes to the
//! log and to every client, what the clients write to the terminal, takes new
//! clients in, and ends with the session's process.

use crate::effects::{Effect, EffectView};
use crate::error::{SwarmError, SwarmErrorView};
use crate::repos::RepositoryView;
use crate::runtime;
use crate::sessions;
use crate::sessions::{SessionRowView, SessionView};
use vstd::prelude::*;

verus! {

/// What the loop asks for. Clients are known by numbers. What is recorded is a change
/// of the session's row.
#[derive(Debug)]
pub enum LoopEffect {
    Poll(Vec<u64>),
    ReadTerminal,
    AppendLog(Vec<u8>),
    SendClient { client: u64, bytes: Vec<u8> },
    ReadClient(u64),
    WriteTerminal(Vec<u8>),
    Accept,
    Reap,
    ReadClock,
    Record(Effect),
}

/// What a `LoopEffect` holds.
#[verifier::ext_equal]
pub enum LoopEffectView {
    Poll(Seq<u64>),
    ReadTerminal,
    AppendLog(Seq<u8>),
    SendClient { client: u64, bytes: Seq<u8> },
    ReadClient(u64),
    WriteTerminal(Seq<u8>),
    Accept,
    Reap,
    ReadClock,
    Record(EffectView),
}

impl View for LoopEffect {
    type V = LoopEffectView;

    open spec fn view(&self) -> LoopEffectView {
        match self {
            LoopEffect::Poll(a) => LoopEffectView::Poll(a.deep_view()),
            LoopEffect::ReadTerminal => LoopEffectView::ReadTerminal,
            LoopEffect::AppendLog(a) => LoopEffectView::AppendLog(a@),
            LoopEffect::SendClient { client, bytes } => LoopEffectView::SendClient {
                client: *client,
                bytes: bytes@,
            },
            LoopEffect::ReadClient(a) => LoopEffectView::ReadClient(*a),
            LoopEffect::WriteTerminal(a) => LoopEffectView::WriteTerminal(a@),
            LoopEffect::Accept => LoopEffectView::Accept,
            LoopEffect::Reap => LoopEffectView::Reap,
            LoopEffect::ReadClock => LoopEffectView::ReadClock,
            LoopEffect::Record(a) => LoopEffectView::Record(a@),
        }
    }
}

impl DeepView for LoopEffect {
    type V = LoopEffectView;

    open spec fn deep_view(&self) -> LoopEffectView {
        self@
    }
}

impl Clone for LoopEffect {
    fn clone(&self) -> (r: Self)
        ensures
            r@ == self@,
    {
        match self {
            LoopEffect::Poll(a) => LoopEffect::Poll(a.clone()),
            LoopEffect::ReadTerminal => LoopEffect::ReadTerminal,
            LoopEffect::AppendLog(a) => LoopEffect::AppendLog(a.clone()),
            LoopEffect::SendClient { client, bytes } => LoopEffect::SendClient {
                client: *client,
                bytes: bytes.clone(),
            },
            LoopEffect::ReadClient(a) => LoopEffect::ReadClient(*a),
            LoopEffect::WriteTerminal(a) => LoopEffect::WriteTerminal(a.clone()),
            LoopEffect::Accept => LoopEffect::Accept,
            LoopEffect::Reap => LoopEffect::Reap,
            LoopEffect::ReadClock => LoopEffect::ReadClock,
            LoopEffect::Record(a) => LoopEffect::Record(a.clone()),
        }
    }
}

/// What the loop hears back: what is ready to be read (a poll that was
/// interrupted finds nothing ready), bytes (none where the terminal or a client
/// has ended), whether a client could be written to, that a client has nothing
/// to say or cannot be read, a new client or none, the status of a process that
/// ended, the time, that something is done or that it failed.
#[derive(Debug)]
pub enum LoopReply {
    Polled { listener: bool, terminal: bool, clients: Vec<bool> },
    Bytes(Vec<u8>),
    Sent(bool),
    Quiet,
    Broken,
    Accepted(u64),
    NoClient,
    Reaped(Option<i32>),
    Clock(i64),
    Done,
    Failed(SwarmError),
}

/// What a `LoopReply` holds.
#[verifier::ext_equal]
pub enum LoopReplyView {
    Polled { listener: bool, terminal: bool, clients: Seq<bool> },
    Bytes(Seq<u8>),
    Sent(bool),
    Quiet,
    Broken,
    Accepted(u64),
    NoClient,
    Reaped(Option<i32>),
    Clock(i64),
    Done,
    Failed(SwarmErrorView),
}

impl View for LoopReply {
    type V = LoopReplyView;

    open spec fn view(&self) -> LoopReplyView {
        match self {
            LoopReply::Polled { listener, terminal, clients } => LoopReplyView::Polled {
                listener: *listener,
                terminal: *terminal,
                clients: clients.deep_view(),
            },
            LoopReply::Bytes(a) => LoopReplyView::Bytes(a@),
            LoopReply::Sent(a) => LoopReplyView::Sent(*a),
            LoopReply::Quiet => LoopReplyView::Quiet,
            LoopReply::Broken => LoopReplyView::Broken,
            LoopReply::Accepted(a) => LoopReplyView::Accepted(*a),
            LoopReply::NoClient => LoopReplyView::NoClient,
            LoopReply::Reaped(a) => LoopReplyView::Reaped(*a),
            LoopReply::Clock(a) => LoopReplyView::Clock(*a),
            LoopReply::Done => LoopReplyView::Done,
            LoopReply::Failed(a) => LoopReplyView::Failed(a@),
        }
    }
}

impl DeepView for LoopReply {
    type V = LoopReplyView;

    open spec fn deep_view(&self) -> LoopReplyView {
        self@
    }
}

impl Clone for LoopReply {
    fn clone(&self) -> (r: Self)
        ensures
            r@ == self@,
    {
        match self {
            LoopReply::Polled { listener, terminal, clients } => LoopReply::Polled {
                listener: *listener,
                terminal: *terminal,
                clients: clients.clone(),
            },
            LoopReply::Bytes(a) => LoopReply::Bytes(a.clone()),
            LoopReply::Sent(a) => LoopReply::Sent(*a),
            LoopReply::Quiet => LoopReply::Quiet,
            LoopReply::Broken => LoopReply::Broken,
            LoopReply::Accepted(a) => LoopReply::Accepted(*a),
            LoopReply::NoClient => LoopReply::NoClient,
            LoopReply::Reaped(a) => LoopReply::Reaped(*a),
            LoopReply::Clock(a) => LoopReply::Clock(*a),
            LoopReply::Done => LoopReply::Done,
            LoopReply::Failed(a) => LoopReply::Failed(a.clone()),
        }
    }
}

/// What was ready when the loop last looked: the listener, and which of the
/// clients, by their places.
#[derive(Debug)]
pub struct Readiness {
    pub listener: bool,
    pub clients: Vec<bool>,
}

/// What a `Readiness` holds.
#[verifier::ext_equal]
pub struct ReadinessView {
    pub listener: bool,
    pub clients: Seq<bool>,
}

impl View for Readiness {
    type V = ReadinessView;

    open spec fn view(&self) -> ReadinessView {
        ReadinessView {
            listener: self.listener,
            clients: self.clients.deep_view(),
        }
    }
}

impl DeepView for Readiness {
    type V = ReadinessView;

    open spec fn deep_view(&self) -> ReadinessView {
        self@
    }
}

impl Clone for Readiness {
    fn clone(&self) -> (r: Self)
        ensures
            r@ == self@,
    {
        Readiness {
            listener: self.listener,
            clients: self.clients.clone(),
        }
    }
}

/// What the loop waits for. While a chunk is sent, the clients that took it so far
/// are kept with what was ready of them, apart from those that are left.
#[derive(Debug)]
pub enum LoopPhase {
    Polling,
    ReadingTerminal(Readiness),
    Logging { ready: Readiness, chunk: Vec<u8> },
    Sending { chunk: Vec<u8>, alive: Vec<u64>, kept: Readiness, rest: Vec<u64>, left: Vec<bool> },
    ReadingClient { ready: Readiness, index: usize },
    Forwarding { ready: Readiness, index: usize },
    Accepting,
    Reaping,
    Stamping(Option<i32>),
    Recording,
}

/// What a `LoopPhase` holds.
#[verifier::ext_equal]
pub enum LoopPhaseView {
    Polling,
    ReadingTerminal(ReadinessView),
    Logging { ready: ReadinessView, chunk: Seq<u8> },
    Sending { chunk: Seq<u8>, alive: Seq<u64>, kept: ReadinessView, rest: Seq<u64>, left: Seq<bool> },
    ReadingClient { ready: ReadinessView, index: usize },
    Forwarding { ready: ReadinessView, index: usize },
    Accepting,
    Reaping,
    Stamping(Option<i32>),
    Recording,
}

impl View for LoopPhase {
    type V = LoopPhaseView;

    open spec fn view(&self) -> LoopPhaseView {
        match self {
            LoopPhase::Polling => LoopPhaseView::Polling,
            LoopPhase::ReadingTerminal(a) => LoopPhaseView::ReadingTerminal(a@),
            LoopPhase::Logging { ready, chunk } => LoopPhaseView::Logging {
                ready: ready@,
                chunk: chunk@,
            },
            LoopPhase::Sending { chunk, alive, kept, rest, left } => LoopPhaseView::Sending {
                chunk: chunk@,
                alive: alive.deep_view(),
                kept: kept@,
                rest: rest.deep_view(),
                left: left.deep_view(),
            },
            LoopPhase::ReadingClient { ready, index } => LoopPhaseView::ReadingClient {
                ready: ready@,
                index: *index,
            },
            LoopPhase::Forwarding { ready, index } => LoopPhaseView::Forwarding {
                ready: ready@,
                index: *index,
            },
            LoopPhase::Accepting => LoopPhaseView::Accepting,
            LoopPhase::Reaping => LoopPhaseView::Reaping,
            LoopPhase::Stamping(a) => LoopPhaseView::Stamping(*a),
            LoopPhase::Recording => LoopPhaseView::Recording,
        }
    }
}

impl DeepView for LoopPhase {
    type V = LoopPhaseView;

    open spec fn deep_view(&self) -> LoopPhaseView {
        self@
    }
}

impl Clone for LoopPhase {
    fn clone(&self) -> (r: Self)
        ensures
            r@ == self@,
    {
        match self {
            LoopPhase::Polling => LoopPhase::Polling,
            LoopPhase::ReadingTerminal(a) => LoopPhase::ReadingTerminal(a.clone()),
            LoopPhase::Logging { ready, chunk } => LoopPhase::Logging {
                ready: ready.clone(),
                chunk: chunk.clone(),
            },
            LoopPhase::Sending { chunk, alive, kept, rest, left } => LoopPhase::Sending {
                chunk: chunk.clone(),
                alive: alive.clone(),
                kept: kept.clone(),
                rest: rest.clone(),
                left: left.clone(),
            },
            LoopPhase::ReadingClient { ready, index } => LoopPhase::ReadingClient {
                ready: ready.clone(),
                index: *index,
            },
            LoopPhase::Forwarding { ready, index } => LoopPhase::Forwarding {
                ready: ready.clone(),
                index: *index,
            },
            LoopPhase::Accepting => LoopPhase::Accepting,
            LoopPhase::Reaping => LoopPhase::Reaping,
            LoopPhase::Stamping(a) => LoopPhase::Stamping(*a),
            LoopPhase::Recording => LoopPhase::Recording,
        }
    }
}

/// The session that is served, and the database that has its row.
#[derive(Debug)]
pub struct ServedSession {
    pub db_path: String,
    pub id: String,
}

/// What a `ServedSession` holds.
#[verifier::ext_equal]
pub struct ServedSessionView {
    pub db_path: Seq<char>,
    pub id: Seq<char>,
}

impl View for ServedSession {
    type V = ServedSessionView;

    open spec fn view(&self) -> ServedSessionView {
        ServedSessionView {
            db_path: self.db_path@,
            id: self.id@,
        }
    }
}

impl DeepView for ServedSession {
    type V = ServedSessionView;

    open spec fn deep_view(&self) -> ServedSessionView {
        self@
    }
}

impl Clone for ServedSession {
    fn clone(&self) -> (r: Self)
        ensures
            r@ == self@,
    {
        ServedSession {
            db_path: self.db_path.clone(),
            id: self.id.clone(),
        }
    }
}

/// The loop: the session that it serves, its clients, in the order in which they
/// came, and what it waits for.
#[derive(Debug)]
pub struct ServeLoop {
    pub session: ServedSession,
    pub clients: Vec<u64>,
    pub phase: LoopPhase,
}

/// What a `ServeLoop` holds.
#[verifier::ext_equal]
pub struct ServeLoopView {
    pub session: ServedSessionView,
    pub clients: Seq<u64>,
    pub phase: LoopPhaseView,
}

impl View for ServeLoop {
    type V = ServeLoopView;

    open spec fn view(&self) -> ServeLoopView {
        ServeLoopView {
            session: self.session@,
            clients: self.clients.deep_view(),
            phase: self.phase@,
        }
    }
}

impl DeepView for ServeLoop {
    type V = ServeLoopView;

    open spec fn deep_view(&self) -> ServeLoopView {
        self@
    }
}

impl Clone for ServeLoop {
    fn clone(&self) -> (r: Self)
        ensures
            r@ == self@,
    {
        ServeLoop {
            session: self.session.clone(),
            clients: self.clients.clone(),
            phase: self.phase.clone(),
        }
    }
}

/// What the loop does next: ask for an effect, or end. An answer of another sort than
/// what was asked for is a mismatch.
#[derive(Debug)]
pub enum LoopStep {
    Run(LoopEffect, ServeLoop),
    Finish(Result<(), SwarmError>),
    Mismatch,
}

/// What a `LoopStep` holds.
#[verifier::ext_equal]
pub enum LoopStepView {
    Run(LoopEffectView, ServeLoopView),
    Finish(Result<(), SwarmErrorView>),
    Mismatch,
}

impl View for LoopStep {
    type V = LoopStepView;

    open spec fn view(&self) -> LoopStepView {
        match self {
            LoopStep::Run(effect, state) => LoopStepView::Run(effect@, state@),
            LoopStep::Finish(Ok(())) => LoopStepView::Finish(Ok(())),
            LoopStep::Finish(Err(e)) => LoopStepView::Finish(Err(e@)),
            LoopStep::Mismatch => LoopStepView::Mismatch,
        }
    }
}

/// The step that waits for something to do.
pub open spec fn poll(at: ServedSessionView, clients: Seq<u64>) -> LoopStepView {
    LoopStepView::Run(
        LoopEffectView::Poll(clients),
        ServeLoopView { session: at, clients, phase: LoopPhaseView::Polling },
    )
}

/// The step once the clients below a position are left to be served: the last
/// of them that was ready is read. Once all are served, the listener's clients
/// are taken in where it was ready, and then the process is looked after.
pub open spec fn serve_below(
    at: ServedSessionView,
    clients: Seq<u64>,
    ready: ReadinessView,
    index: int,
) -> LoopStepView
    decreases index,
{
    if index <= 0 {
        if ready.listener {
            LoopStepView::Run(
                LoopEffectView::Accept,
                ServeLoopView { session: at, clients, phase: LoopPhaseView::Accepting },
            )
        } else {
            LoopStepView::Run(
                LoopEffectView::Reap,
                ServeLoopView { session: at, clients, phase: LoopPhaseView::Reaping },
            )
        }
    } else if ready.clients[index - 1] {
        if index - 1 < clients.len() {
            LoopStepView::Run(
                LoopEffectView::ReadClient(clients[index - 1]),
                ServeLoopView {
                    session: at,
                    clients,
                    phase: LoopPhaseView::ReadingClient { ready, index: (index - 1) as usize },
                },
            )
        } else {
            LoopStepView::Mismatch
        }
    } else {
        serve_below(at, clients, ready, index - 1)
    }
}

/// The step that serves the clients that were ready.
pub open spec fn serve_all(
    at: ServedSessionView,
    clients: Seq<u64>,
    ready: ReadinessView,
) -> LoopStepView {
    serve_below(at, clients, ready, ready.clients.len() as int)
}

/// The step that sends a chunk to the clients that are left. Once it went to all of
/// them, those that took it are served, as far as they were ready.
pub open spec fn send_rest(
    at: ServedSessionView,
    chunk: Seq<u8>,
    clients: Seq<u64>,
    alive: Seq<u64>,
    kept: ReadinessView,
    rest: Seq<u64>,
    left: Seq<bool>,
) -> LoopStepView {
    if rest.len() == 0 {
        serve_all(at, alive, kept)
    } else {
        LoopStepView::Run(
            LoopEffectView::SendClient { client: rest[0], bytes: chunk },
            ServeLoopView {
                session: at,
                clients,
                phase: LoopPhaseView::Sending { chunk, alive, kept, rest, left },
            },
        )
    }
}

/// What was ready, with one more client behind the others.
pub open spec fn with_client(ready: ReadinessView, flag: bool) -> ReadinessView {
    ReadinessView { clients: ready.clients.push(flag), ..ready }
}

/// An exit code as a row holds it.
pub open spec fn row_code(code: Option<i32>) -> Option<i64> {
    match code {
        Some(code) => Some(code as i64),
        None => None,
    }
}

/// The change of the session's row once its process has ended.
pub open spec fn exit_record(at: ServedSessionView, code: Option<i32>, now: i64) -> EffectView {
    EffectView::ExitSession {
        db_path: at.db_path,
        id: at.id,
        exit_code: row_code(code),
        stopped_at: now,
    }
}

/// The step that follows an answer.
pub open spec fn loop_next(s: ServeLoopView, reply: LoopReplyView) -> LoopStepView {
    match (s.phase, reply) {
        (LoopPhaseView::Forwarding { ready, index }, _) => if index <= ready.clients.len() {
            serve_below(s.session, s.clients, ready, index as int)
        } else {
            LoopStepView::Mismatch
        },
        (_, LoopReplyView::Failed(e)) => LoopStepView::Finish(Err(e)),
        (LoopPhaseView::Polling, LoopReplyView::Polled { listener, terminal, clients }) => {
            let ready = ReadinessView { listener, clients };
            if clients.len() != s.clients.len() {
                LoopStepView::Mismatch
            } else if terminal {
                LoopStepView::Run(
                    LoopEffectView::ReadTerminal,
                    ServeLoopView { phase: LoopPhaseView::ReadingTerminal(ready), ..s },
                )
            } else {
                serve_all(s.session, s.clients, ready)
            }
        },
        (LoopPhaseView::ReadingTerminal(ready), LoopReplyView::Bytes(chunk)) => if chunk.len()
            > 0 {
            LoopStepView::Run(
                LoopEffectView::AppendLog(chunk),
                ServeLoopView { phase: LoopPhaseView::Logging { ready, chunk }, ..s },
            )
        } else {
            serve_all(s.session, s.clients, ready)
        },
        (LoopPhaseView::Logging { ready, chunk }, LoopReplyView::Done) => send_rest(
            s.session,
            chunk,
            s.clients,
            seq![],
            ReadinessView { listener: ready.listener, clients: seq![] },
            s.clients,
            ready.clients,
        ),
        (
            LoopPhaseView::Sending { chunk, alive, kept, rest, left },
            LoopReplyView::Sent(sent),
        ) => if rest.len() == 0 || left.len() == 0 {
            LoopStepView::Mismatch
        } else if sent {
            send_rest(
                s.session,
                chunk,
                s.clients,
                alive.push(rest[0]),
                with_client(kept, left[0]),
                rest.skip(1),
                left.skip(1),
            )
        } else {
            send_rest(s.session, chunk, s.clients, alive, kept, rest.skip(1), left.skip(1))
        },
        (LoopPhaseView::ReadingClient { ready, index }, _) => if index < s.clients.len() && index
            < ready.clients.len() {
            match reply {
                LoopReplyView::Bytes(bytes) => if bytes.len() == 0 {
                    serve_below(s.session, s.clients.remove(index as int), ready, index as int)
                } else {
                    LoopStepView::Run(
                        LoopEffectView::WriteTerminal(bytes),
                        ServeLoopView { phase: LoopPhaseView::Forwarding { ready, index }, ..s },
                    )
                },
                LoopReplyView::Quiet => serve_below(s.session, s.clients, ready, index as int),
                LoopReplyView::Broken => serve_below(
                    s.session,
                    s.clients.remove(index as int),
                    ready,
                    index as int,
                ),
                _ => LoopStepView::Mismatch,
            }
        } else {
            LoopStepView::Mismatch
        },
        (LoopPhaseView::Accepting, LoopReplyView::Accepted(client)) => LoopStepView::Run(
            LoopEffectView::Accept,
            ServeLoopView {
                clients: s.clients.push(client),
                phase: LoopPhaseView::Accepting,
                ..s
            },
        ),
        (LoopPhaseView::Accepting, LoopReplyView::NoClient) => LoopStepView::Run(
            LoopEffectView::Reap,
            ServeLoopView { phase: LoopPhaseView::Reaping, ..s },
        ),
        (LoopPhaseView::Reaping, LoopReplyView::Reaped(status)) => match status {
            None => poll(s.session, s.clients),
            Some(status) => LoopStepView::Run(
                LoopEffectView::ReadClock,
                ServeLoopView {
                    phase: LoopPhaseView::Stamping(runtime::exit_code_in(status)),
                    ..s
                },
            ),
        },
        (LoopPhaseView::Stamping(exit_code), LoopReplyView::Clock(now)) => LoopStepView::Run(
            LoopEffectView::Record(exit_record(s.session, exit_code, now)),
            ServeLoopView { phase: LoopPhaseView::Recording, ..s },
        ),
        (LoopPhaseView::Recording, LoopReplyView::Done) => LoopStepView::Finish(Ok(())),
        _ => LoopStepView::Mismatch,
    }
}

/// Begins the loop of a session, whose row the database at the path has, with no
/// clients.
pub fn session_event_loop(repo_db_path: &str, session_id: &str) -> (r: LoopStep)
    ensures
        r@ == poll(ServedSessionView { db_path: repo_db_path@, id: session_id@ }, seq![]),
{
    let at = ServedSession { db_path: repo_db_path.to_owned(), id: session_id.to_owned() };
    let clients: Vec<u64> = Vec::new();
    proof {
        assert(clients.deep_view() =~= seq![]);
    }
    poll_clients(at, clients)
}

fn record_exit(at: &ServedSession, code: Option<i32>, now: i64) -> (r: Effect)
    ensures
        r@ == exit_record(at@, code, now),
{
    let exit_code: Option<i64> = match code {
        Some(code) => Some(code as i64),
        None => None,
    };
    Effect::ExitSession {
        db_path: at.db_path.clone(),
        id: at.id.clone(),
        exit_code,
        stopped_at: now,
    }
}

fn poll_clients(at: ServedSession, clients: Vec<u64>) -> (r: LoopStep)
    ensures
        r@ == poll(at@, clients.deep_view()),
{
    LoopStep::Run(
        LoopEffect::Poll(clients.clone()),
        ServeLoop { session: at, clients, phase: LoopPhase::Polling },
    )
}

fn serve_from(
    at: ServedSession,
    clients: Vec<u64>,
    ready: Readiness,
    index: usize,
) -> (r: LoopStep)
    requires
        index <= ready@.clients.len(),
    ensures
        r@ == serve_below(at@, clients.deep_view(), ready@, index as int),
{
    let mut i: usize = index;
    while i > 0 && !ready.clients[i - 1]
        invariant
            i <= ready@.clients.len(),
            serve_below(at@, clients.deep_view(), ready@, index as int) == serve_below(
                at@,
                clients.deep_view(),
                ready@,
                i as int,
            ),
        decreases i,
    {
        proof {
            assert(ready@.clients[i - 1] == ready.clients@[i - 1]);
        }
        i -= 1;
    }
    if i == 0 {
        return if ready.listener {
            LoopStep::Run(
                LoopEffect::Accept,
                ServeLoop { session: at, clients, phase: LoopPhase::Accepting },
            )
        } else {
            LoopStep::Run(
                LoopEffect::Reap,
                ServeLoop { session: at, clients, phase: LoopPhase::Reaping },
            )
        };
    }
    proof {
        assert(ready@.clients[i - 1] == ready.clients@[i - 1]);
    }
    if i - 1 < clients.len() {
        proof {
            assert(clients.deep_view()[i - 1] == clients@[i - 1]);
        }
        LoopStep::Run(
            LoopEffect::ReadClient(clients[i - 1]),
            ServeLoop {
                session: at,
                clients,
                phase: LoopPhase::ReadingClient { ready, index: i - 1 },
            },
        )
    } else {
        LoopStep::Mismatch
    }
}

fn send_remaining(
    at: ServedSession,
    chunk: Vec<u8>,
    clients: Vec<u64>,
    alive: Vec<u64>,
    kept: Readiness,
    rest: Vec<u64>,
    left: Vec<bool>,
) -> (r: LoopStep)
    ensures
        r@ == send_rest(
            at@,
            chunk@,
            clients.deep_view(),
            alive.deep_view(),
            kept@,
            rest.deep_view(),
            left.deep_view(),
        ),
{
    if rest.len() == 0 {
        let n: usize = kept.clients.len();
        serve_from(at, alive, kept, n)
    } else {
        proof {
            assert(rest.deep_view()[0] == rest@[0]);
        }
        LoopStep::Run(
            LoopEffect::SendClient { client: rest[0], bytes: chunk.clone() },
            ServeLoop {
                session: at,
                clients,
                phase: LoopPhase::Sending { chunk, alive, kept, rest, left },
            },
        )
    }
}

fn without_client(clients: Vec<u64>, index: usize) -> (r: Vec<u64>)
    requires
        index < clients@.len(),
    ensures
        r.deep_view() == clients.deep_view().remove(index as int),
{
    let ghost before = clients.deep_view();
    let mut clients = clients;
    let _ = clients.remove(index);
    proof {
        assert(clients.deep_view() =~= before.remove(index as int));
    }
    clients
}

impl ServeLoop {
    /// The step that follows an answer.
    pub fn resume(self, reply: LoopReply) -> (r: LoopStep)
        ensures
            r@ == loop_next(self@, reply@),
    {
        let ServeLoop { session: at, clients, phase } = self;
        match (phase, reply) {
            (LoopPhase::Forwarding { ready, index }, _) => if index <= ready.clients.len() {
                serve_from(at, clients, ready, index)
            } else {
                LoopStep::Mismatch
            },
            (_, LoopReply::Failed(e)) => LoopStep::Finish(Err(e)),
            (
                LoopPhase::Polling,
                LoopReply::Polled { listener, terminal, clients: readable },
            ) => {
                if readable.len() != clients.len() {
                    return LoopStep::Mismatch;
                }
                let n: usize = readable.len();
                let ready = Readiness { listener, clients: readable };
                if terminal {
                    LoopStep::Run(
                        LoopEffect::ReadTerminal,
                        ServeLoop { session: at, clients, phase: LoopPhase::ReadingTerminal(ready) },
                    )
                } else {
                    serve_from(at, clients, ready, n)
                }
            },
            (LoopPhase::ReadingTerminal(ready), LoopReply::Bytes(chunk)) => if chunk.len() > 0 {
                LoopStep::Run(
                    LoopEffect::AppendLog(chunk.clone()),
                    ServeLoop { session: at, clients, phase: LoopPhase::Logging { ready, chunk } },
                )
            } else {
                let n: usize = ready.clients.len();
                serve_from(at, clients, ready, n)
            },
            (LoopPhase::Logging { ready, chunk }, LoopReply::Done) => {
                let alive: Vec<u64> = Vec::new();
                let flags: Vec<bool> = Vec::new();
                proof {
                    assert(alive.deep_view() =~= seq![]);
                    assert(flags.deep_view() =~= seq![]);
                }
                let kept = Readiness { listener: ready.listener, clients: flags };
                let rest = clients.clone();
                send_remaining(at, chunk, clients, alive, kept, rest, ready.clients)
            },
            (LoopPhase::Sending { chunk, alive, kept, rest, left }, LoopReply::Sent(sent)) => {
                if rest.len() == 0 || left.len() == 0 {
                    return LoopStep::Mismatch;
                }
                let ghost unsent = rest.deep_view();
                let ghost unread = left.deep_view();
                let ghost before = alive.deep_view();
                let ghost ready = kept@;
                let mut rest = rest;
                let mut left = left;
                let mut alive = alive;
                let mut kept = kept;
                let client: u64 = rest.remove(0);
                let flag: bool = left.remove(0);
                if sent {
                    alive.push(client);
                    kept.clients.push(flag);
                }
                proof {
                    assert(unsent[0] == client && unread[0] == flag);
                    assert(rest.deep_view() =~= unsent.skip(1));
                    assert(left.deep_view() =~= unread.skip(1));
                    if sent {
                        assert(alive.deep_view() =~= before.push(client));
                        assert(kept@.clients =~= ready.clients.push(flag));
                    }
                }
                send_remaining(at, chunk, clients, alive, kept, rest, left)
            },
            (LoopPhase::ReadingClient { ready, index }, reply) => if index < clients.len() && index
                < ready.clients.len() {
                match reply {
                    LoopReply::Bytes(bytes) => if bytes.len() == 0 {
                        serve_from(at, without_client(clients, index), ready, index)
                    } else {
                        LoopStep::Run(
                            LoopEffect::WriteTerminal(bytes),
                            ServeLoop {
                                session: at,
                                clients,
                                phase: LoopPhase::Forwarding { ready, index },
                            },
                        )
                    },
                    LoopReply::Quiet => serve_from(at, clients, ready, index),
                    LoopReply::Broken => serve_from(
                        at,
                        without_client(clients, index),
                        ready,
                        index,
                    ),
                    LoopReply::Failed(e) => LoopStep::Finish(Err(e)),
                    _ => LoopStep::Mismatch,
                }
            } else {
                LoopStep::Mismatch
            },
            (LoopPhase::Accepting, LoopReply::Accepted(client)) => {
                let ghost before = clients.deep_view();
                let mut clients = clients;
                clients.push(client);
                proof {
                    assert(clients.deep_view() =~= before.push(client));
                }
                LoopStep::Run(
                    LoopEffect::Accept,
                    ServeLoop { session: at, clients, phase: LoopPhase::Accepting },
                )
            },
            (LoopPhase::Accepting, LoopReply::NoClient) => LoopStep::Run(
                LoopEffect::Reap,
                ServeLoop { session: at, clients, phase: LoopPhase::Reaping },
            ),
            (LoopPhase::Reaping, LoopReply::Reaped(status)) => match status {
                None => poll_clients(at, clients),
                Some(status) => LoopStep::Run(
                    LoopEffect::ReadClock,
                    ServeLoop {
                        session: at,
                        clients,
                        phase: LoopPhase::Stamping(runtime::decode_wait_status(status)),
                    },
                ),
            },
            (LoopPhase::Stamping(exit_code), LoopReply::Clock(now)) => LoopStep::Run(
                LoopEffect::Record(record_exit(&at, exit_code, now)),
                ServeLoop { session: at, clients, phase: LoopPhase::Recording },
            ),
            (LoopPhase::Recording, LoopReply::Done) => LoopStep::Finish(Ok(())),
            _ => LoopStep::Mismatch,
        }
    }
}

/// What the terminal writes is in the log before any client gets it.
pub proof fn law_log_comes_first(s: ServeLoopView, reply: LoopReplyView)
    ensures
        loop_next(s, reply) matches LoopStepView::Run(effect, next) ==> (
        effect matches LoopEffectView::SendClient { bytes, .. } ==> (
        s.phase matches LoopPhaseView::Logging { chunk, .. } && chunk == bytes && reply
            == LoopReplyView::Done) || (s.phase matches LoopPhaseView::Sending { chunk, .. }
            && chunk == bytes)),
{
    lemma_serving();
}

/// What stands at the places that were answered with yes, in its order, and nothing
/// else.
pub open spec fn answering<A>(items: Seq<A>, answers: Seq<bool>) -> Seq<A>
    decreases items.len(),
{
    if items.len() == 0 || answers.len() == 0 {
        seq![]
    } else {
        (if answers[0] {
            seq![items[0]]
        } else {
            seq![]
        }) + answering(items.skip(1), answers.skip(1))
    }
}

/// Where the loop stands once it has heard whether each client was sent to.
pub open spec fn after_sending(step: LoopStepView, answers: Seq<bool>) -> LoopStepView
    decreases answers.len(),
{
    match step {
        LoopStepView::Run(_, s) => if answers.len() == 0 {
            step
        } else {
            after_sending(loop_next(s, LoopReplyView::Sent(answers[0])), answers.skip(1))
        },
        _ => step,
    }
}

proof fn lemma_send_rest(
    at: ServedSessionView,
    chunk: Seq<u8>,
    clients: Seq<u64>,
    alive: Seq<u64>,
    kept: ReadinessView,
    rest: Seq<u64>,
    left: Seq<bool>,
    answers: Seq<bool>,
)
    requires
        answers.len() == rest.len(),
        left.len() == rest.len(),
    ensures
        after_sending(send_rest(at, chunk, clients, alive, kept, rest, left), answers) == serve_all(
            at,
            alive + answering(rest, answers),
            ReadinessView { clients: kept.clients + answering(left, answers), ..kept },
        ),
    decreases rest.len(),
{
    if rest.len() == 0 {
        assert(alive + answering(rest, answers) =~= alive);
        assert(kept.clients + answering(left, answers) =~= kept.clients);
    } else {
        let (next_alive, next_kept) = if answers[0] {
            (alive.push(rest[0]), with_client(kept, left[0]))
        } else {
            (alive, kept)
        };
        lemma_send_rest(
            at,
            chunk,
            clients,
            next_alive,
            next_kept,
            rest.skip(1),
            left.skip(1),
            answers.skip(1),
        );
        assert(next_alive + answering(rest.skip(1), answers.skip(1)) =~= alive + answering(
            rest,
            answers,
        ));
        assert(next_kept.clients + answering(left.skip(1), answers.skip(1)) =~= kept.clients
            + answering(left, answers));
    }
}

/// A chunk goes to every client. Those that cannot be sent to are dropped; the others
/// stay in their order, each with what was ready of it, and are served next.
pub proof fn law_chunk_goes_to_every_client(
    s: ServeLoopView,
    ready: ReadinessView,
    chunk: Seq<u8>,
    answers: Seq<bool>,
)
    requires
        s.phase == (LoopPhaseView::Logging { ready, chunk }),
        in_order(s),
        answers.len() == s.clients.len(),
    ensures
        after_sending(loop_next(s, LoopReplyView::Done), answers) == serve_all(
            s.session,
            answering(s.clients, answers),
            ReadinessView {
                listener: ready.listener,
                clients: answering(ready.clients, answers),
            },
        ),
{
    let none = ReadinessView { listener: ready.listener, clients: seq![] };
    lemma_send_rest(s.session, chunk, s.clients, seq![], none, s.clients, ready.clients, answers);
    assert(Seq::<u64>::empty() + answering(s.clients, answers) =~= answering(s.clients, answers));
    assert(Seq::<bool>::empty() + answering(ready.clients, answers) =~= answering(
        ready.clients,
        answers,
    ));
}

/// The clients below a position that were ready, the last one first.
pub open spec fn ready_below(clients: Seq<u64>, flags: Seq<bool>, index: int) -> Seq<u64>
    decreases index,
{
    if index <= 0 {
        seq![]
    } else if flags[index - 1] {
        seq![clients[index - 1]] + ready_below(clients, flags, index - 1)
    } else {
        ready_below(clients, flags, index - 1)
    }
}

/// What a client that is read can answer.
pub open spec fn from_client(reply: LoopReplyView) -> bool {
    reply is Bytes || reply is Quiet || reply is Broken
}

/// The step once a client was heard and what it said was passed on.
pub open spec fn heard(s: ServeLoopView, answer: LoopReplyView) -> LoopStepView {
    match loop_next(s, answer) {
        LoopStepView::Run(LoopEffectView::WriteTerminal(_), next) => loop_next(
            next,
            LoopReplyView::Done,
        ),
        step => step,
    }
}

/// The clients that are read while they answer.
pub open spec fn read_in(step: LoopStepView, answers: Seq<LoopReplyView>) -> Seq<u64>
    decreases answers.len(),
{
    match step {
        LoopStepView::Run(LoopEffectView::ReadClient(client), s) => if answers.len() == 0 {
            seq![client]
        } else {
            seq![client] + read_in(heard(s, answers[0]), answers.skip(1))
        },
        _ => seq![],
    }
}

/// Whatever the clients answer, exactly those below a position that were ready are
/// read.
pub proof fn law_ready_clients_are_read(
    at: ServedSessionView,
    clients: Seq<u64>,
    ready: ReadinessView,
    index: int,
    answers: Seq<LoopReplyView>,
)
    requires
        0 <= index <= clients.len(),
        index <= ready.clients.len(),
        index <= usize::MAX,
        answers.len() >= ready_below(clients, ready.clients, index).len(),
        forall|i: int| 0 <= i < answers.len() ==> from_client(#[trigger] answers[i]),
    ensures
        read_in(serve_below(at, clients, ready, index), answers) == ready_below(
            clients,
            ready.clients,
            index,
        ),
    decreases index,
{
    if index > 0 {
        if ready.clients[index - 1] {
            let rest = answers.skip(1);
            assert forall|i: int| 0 <= i < rest.len() implies from_client(#[trigger] rest[i]) by {
                assert(rest[i] == answers[i + 1]);
            }
            assert(from_client(answers[0]));
            let gone = clients.remove(index - 1);
            lemma_ready_below(clients, gone, ready.clients, index - 1);
            law_ready_clients_are_read(at, clients, ready, index - 1, rest);
            law_ready_clients_are_read(at, gone, ready, index - 1, rest);
            let s = ServeLoopView {
                session: at,
                clients,
                phase: LoopPhaseView::ReadingClient { ready, index: (index - 1) as usize },
            };
            assert(serve_below(at, clients, ready, index) == LoopStepView::Run(
                LoopEffectView::ReadClient(clients[index - 1]),
                s,
            ));
            assert(heard(s, answers[0]) == serve_below(at, clients, ready, index - 1) || heard(
                s,
                answers[0],
            ) == serve_below(at, gone, ready, index - 1)) by {
                lemma_serving();
            }
        } else {
            law_ready_clients_are_read(at, clients, ready, index - 1, answers);
        }
    }
}

proof fn lemma_ready_below(a: Seq<u64>, b: Seq<u64>, flags: Seq<bool>, index: int)
    requires
        index <= a.len(),
        index <= b.len(),
        forall|i: int| 0 <= i < index ==> a[i] == b[i],
    ensures
        ready_below(a, flags, index) == ready_below(b, flags, index),
    decreases index,
{
    if index > 0 {
        lemma_ready_below(a, b, flags, index - 1);
    }
}

/// What was ready speaks of the clients that are there, by their places.
pub open spec fn in_order(s: ServeLoopView) -> bool {
    match s.phase {
        LoopPhaseView::ReadingTerminal(ready) => ready.clients.len() == s.clients.len(),
        LoopPhaseView::Logging { ready, .. } => ready.clients.len() == s.clients.len(),
        LoopPhaseView::Sending { alive, kept, rest, left, .. } => {
            &&& kept.clients.len() == alive.len()
            &&& left.len() == rest.len()
            &&& rest.len() > 0
            &&& alive.len() + rest.len() <= s.clients.len()
        },
        LoopPhaseView::ReadingClient { ready, index } => {
            &&& index < s.clients.len()
            &&& index < ready.clients.len()
        },
        LoopPhaseView::Forwarding { ready, index } => {
            &&& index <= s.clients.len()
            &&& index <= ready.clients.len()
        },
        _ => true,
    }
}

/// Whether an answer is of the sort that the loop waits for.
pub open spec fn fits(s: ServeLoopView, reply: LoopReplyView) -> bool {
    ||| reply is Failed
    ||| match s.phase {
        LoopPhaseView::Polling => reply matches LoopReplyView::Polled { clients, .. }
            && clients.len() == s.clients.len(),
        LoopPhaseView::ReadingTerminal(_) => reply is Bytes,
        LoopPhaseView::Logging { .. } => reply is Done,
        LoopPhaseView::Sending { .. } => reply is Sent,
        LoopPhaseView::ReadingClient { .. } => from_client(reply),
        LoopPhaseView::Forwarding { .. } => reply is Done,
        LoopPhaseView::Accepting => reply is Accepted || reply is NoClient,
        LoopPhaseView::Reaping => reply is Reaped,
        LoopPhaseView::Stamping(_) => reply is Clock,
        LoopPhaseView::Recording => reply is Done,
    }
}

/// Whether a step goes on, in order.
pub open spec fn goes_on(step: LoopStepView) -> bool {
    step matches LoopStepView::Run(_, s) && in_order(s)
}

/// Whether every answer fits the step that it follows. Nothing fits the end.
pub open spec fn all_fit(step: LoopStepView, replies: Seq<LoopReplyView>) -> bool
    decreases replies.len(),
{
    replies.len() == 0 || (step matches LoopStepView::Run(_, s) && fits(s, replies[0]) && all_fit(
        loop_next(s, replies[0]),
        replies.skip(1),
    ))
}

/// Where the loop stands once it has heard the given answers.
pub open spec fn played(step: LoopStepView, replies: Seq<LoopReplyView>) -> LoopStepView
    decreases replies.len(),
{
    match step {
        LoopStepView::Run(_, s) => if replies.len() == 0 {
            step
        } else {
            played(loop_next(s, replies[0]), replies.skip(1))
        },
        _ => step,
    }
}

proof fn lemma_serves(
    at: ServedSessionView,
    clients: Seq<u64>,
    ready: ReadinessView,
    index: int,
)
    requires
        0 <= index <= clients.len(),
        index <= ready.clients.len(),
        index <= usize::MAX,
    ensures
        goes_on(serve_below(at, clients, ready, index)),
        serve_below(at, clients, ready, index)->Run_1.clients == clients,
        serve_below(at, clients, ready, index)->Run_1.session == at,
    decreases index,
{
    if index > 0 && !ready.clients[index - 1] {
        lemma_serves(at, clients, ready, index - 1);
    }
}

proof fn lemma_next(s: ServeLoopView, reply: LoopReplyView)
    requires
        in_order(s),
        fits(s, reply),
        s.clients.len() <= usize::MAX,
    ensures
        reply is Failed || s.phase is Recording || goes_on(loop_next(s, reply)),
        goes_on(loop_next(s, reply)) || loop_next(s, reply) is Finish,
        loop_next(s, reply) matches LoopStepView::Run(_, next) ==> next.clients.len()
            <= s.clients.len() + 1,
{
    match s.phase {
        LoopPhaseView::Polling => {
            if let LoopReplyView::Polled { listener, clients, .. } = reply {
                let ready = ReadinessView { listener, clients };
                lemma_serves(s.session, s.clients, ready, clients.len() as int);
            }
        },
        LoopPhaseView::ReadingTerminal(ready) => {
            lemma_serves(s.session, s.clients, ready, ready.clients.len() as int);
        },
        LoopPhaseView::Logging { ready, .. } => {
            let none = ReadinessView { listener: ready.listener, clients: seq![] };
            lemma_serves(s.session, seq![], none, 0);
        },
        LoopPhaseView::Sending { alive, kept, rest, left, .. } => {
            lemma_serves(s.session, alive, kept, kept.clients.len() as int);
            let more = with_client(kept, left[0]);
            lemma_serves(s.session, alive.push(rest[0]), more, more.clients.len() as int);
        },
        LoopPhaseView::ReadingClient { ready, index } => {
            lemma_serves(s.session, s.clients, ready, index as int);
            lemma_serves(s.session, s.clients.remove(index as int), ready, index as int);
        },
        LoopPhaseView::Forwarding { ready, index } => {
            lemma_serves(s.session, s.clients, ready, index as int);
        },
        _ => {},
    }
}

/// An answer that fits is understood, and leaves the loop in order.
pub proof fn law_fitting_answers_are_understood(s: ServeLoopView, reply: LoopReplyView)
    requires
        in_order(s),
        fits(s, reply),
        s.clients.len() <= usize::MAX,
    ensures
        goes_on(loop_next(s, reply)) || loop_next(s, reply) is Finish,
{
    lemma_next(s, reply);
}

/// However long the loop has gone on from its beginning, as long as every answer fits
/// it is in order or has ended: it never meets a mismatch.
pub proof fn law_loop_keeps_its_order(at: ServedSessionView, replies: Seq<LoopReplyView>)
    requires
        all_fit(poll(at, seq![]), replies),
        replies.len() <= usize::MAX,
    ensures
        goes_on(played(poll(at, seq![]), replies)) || played(poll(at, seq![]), replies) is Finish,
        !(played(poll(at, seq![]), replies) is Mismatch),
{
    lemma_played(poll(at, seq![]), replies);
}

proof fn lemma_played(step: LoopStepView, replies: Seq<LoopReplyView>)
    requires
        goes_on(step) || step is Finish,
        step matches LoopStepView::Run(_, s) ==> s.clients.len() + replies.len() <= usize::MAX,
        all_fit(step, replies),
    ensures
        goes_on(played(step, replies)) || played(step, replies) is Finish,
    decreases replies.len(),
{
    if replies.len() > 0 {
        if let LoopStepView::Run(_, s) = step {
            lemma_next(s, replies[0]);
            lemma_played(loop_next(s, replies[0]), replies.skip(1));
        }
    }
}

/// What a client does never ends the loop: it goes on whether the client takes what is
/// sent to it or not, and whether it speaks, is silent, has closed or cannot be read.
/// No other client leaves with the one that is read.
pub proof fn law_detaching_leaves_the_session(s: ServeLoopView, reply: LoopReplyView)
    requires
        in_order(s),
        s.clients.len() <= usize::MAX,
        (s.phase is Sending && reply is Sent) || (s.phase is ReadingClient && from_client(reply)),
    ensures
        goes_on(loop_next(s, reply)),
        s.phase matches LoopPhaseView::ReadingClient { index, .. } ==> (loop_next(
            s,
            reply,
        ) matches LoopStepView::Run(_, next) && (next.clients == s.clients || next.clients
            == s.clients.remove(index as int))),
{
    lemma_next(s, reply);
    lemma_serving();
}

/// The loop ends well only once the end of the process is recorded in the session's
/// row, with the exit code that its status gives, and badly only with what failed.
pub proof fn law_loop_ends_with_the_process(s: ServeLoopView, reply: LoopReplyView)
    ensures
        loop_next(s, reply) == LoopStepView::Finish(Ok(())) ==> s.phase is Recording,
        loop_next(s, reply) matches LoopStepView::Finish(Err(e)) ==> reply
            == LoopReplyView::Failed(e),
        loop_next(s, reply) matches LoopStepView::Run(_, next) ==> (
        next.phase matches LoopPhaseView::Stamping(code) ==> (
        reply matches LoopReplyView::Reaped(Some(status)) && code == runtime::exit_code_in(
            status,
        ))),
        loop_next(s, reply) matches LoopStepView::Run(effect, next) ==> next.session == s.session
            && (effect matches LoopEffectView::Record(record) ==> (
        s.phase matches LoopPhaseView::Stamping(code) && reply matches LoopReplyView::Clock(now)
            && record == exit_record(s.session, code, now))),
{
    lemma_serving();
}

/// What serving the clients leads to: a client is read, new ones are taken in, or the
/// process is looked after.
spec fn serving(at: ServedSessionView, clients: Seq<u64>, step: LoopStepView) -> bool {
    match step {
        LoopStepView::Run(effect, next) => {
            &&& next.session == at
            &&& next.clients == clients
            &&& (effect is ReadClient && next.phase is ReadingClient) || (effect is Accept
                && next.phase is Accepting) || (effect is Reap && next.phase is Reaping)
        },
        LoopStepView::Mismatch => true,
        _ => false,
    }
}

proof fn lemma_serving()
    ensures
        forall|at: ServedSessionView, clients: Seq<u64>, ready: ReadinessView, index: int|
            serving(at, clients, #[trigger] serve_below(at, clients, ready, index)),
{
    assert forall|at: ServedSessionView, clients: Seq<u64>, ready: ReadinessView, index: int|
        serving(at, clients, #[trigger] serve_below(at, clients, ready, index)) by {
        lemma_serve_phase(at, clients, ready, index);
    }
}

proof fn lemma_serve_phase(
    at: ServedSessionView,
    clients: Seq<u64>,
    ready: ReadinessView,
    index: int,
)
    ensures
        serving(at, clients, serve_below(at, clients, ready, index)),
    decreases index,
{
    if index > 0 && !ready.clients[index - 1] {
        lemma_serve_phase(at, clients, ready, index - 1);
    }
}

/// What was read from the terminal while the loop heard the given answers.
pub open spec fn terminal_output(step: LoopStepView, replies: Seq<LoopReplyView>) -> Seq<u8>
    decreases replies.len(),
{
    match step {
        LoopStepView::Run(effect, s) if replies.len() > 0 => (match (effect, replies[0]) {
            (LoopEffectView::ReadTerminal, LoopReplyView::Bytes(bytes)) => bytes,
            _ => seq![],
        }) + terminal_output(loop_next(s, replies[0]), replies.skip(1)),
        _ => seq![],
    }
}

/// What the log has got while the loop heard the given answers.
pub open spec fn log_growth(step: LoopStepView, replies: Seq<LoopReplyView>) -> Seq<u8>
    decreases replies.len(),
{
    match step {
        LoopStepView::Run(effect, s) if replies.len() > 0 => (match (effect, replies[0]) {
            (LoopEffectView::AppendLog(bytes), LoopReplyView::Done) => bytes,
            _ => seq![],
        }) + log_growth(loop_next(s, replies[0]), replies.skip(1)),
        _ => seq![],
    }
}

/// The rows of the database that has the session's, once the loop has heard the given
/// answers.
pub open spec fn rows_in(
    rows: Seq<SessionRowView>,
    step: LoopStepView,
    replies: Seq<LoopReplyView>,
) -> Seq<SessionRowView>
    decreases replies.len(),
{
    match step {
        LoopStepView::Run(effect, s) if replies.len() > 0 => rows_in(
            match (effect, replies[0]) {
                (LoopEffectView::Record(record), LoopReplyView::Done) => sessions::rows_after(
                    rows,
                    record,
                ),
                _ => rows,
            },
            loop_next(s, replies[0]),
            replies.skip(1),
        ),
        _ => rows,
    }
}

/// Whether what a step asks for is what its state waits for.
spec fn awaits(step: LoopStepView) -> bool {
    match step {
        LoopStepView::Run(effect, s) => match s.phase {
            LoopPhaseView::ReadingTerminal(_) => effect is ReadTerminal,
            LoopPhaseView::Logging { chunk, .. } => effect == LoopEffectView::AppendLog(chunk),
            LoopPhaseView::Recording => effect is Record,
            _ => !(effect is ReadTerminal) && !(effect is AppendLog) && !(effect is Record),
        },
        _ => true,
    }
}

/// What was read but is not in the log yet.
spec fn unlogged(step: LoopStepView) -> Seq<u8> {
    match step {
        LoopStepView::Run(LoopEffectView::AppendLog(bytes), _) => bytes,
        _ => seq![],
    }
}

proof fn lemma_log(step: LoopStepView, replies: Seq<LoopReplyView>)
    requires
        awaits(step),
        all_fit(step, replies),
        !(played(step, replies) matches LoopStepView::Finish(Err(_))),
    ensures
        unlogged(step) + terminal_output(step, replies) == log_growth(step, replies) + unlogged(
            played(step, replies),
        ),
    decreases replies.len(),
{
    if replies.len() > 0 {
        if let LoopStepView::Run(effect, s) = step {
            lemma_serving();
            let next = loop_next(s, replies[0]);
            let rest = replies.skip(1);
            lemma_log(next, rest);
            assert(unlogged(step) + terminal_output(step, replies) =~= log_growth(step, replies)
                + unlogged(played(step, replies)));
        }
    } else {
        assert(unlogged(step) + terminal_output(step, replies) =~= log_growth(step, replies)
            + unlogged(step));
    }
}

/// Over every run in which nothing fails, what was read from the terminal is what the
/// log has got, in its order and without loss, up to a chunk that is about to be
/// appended. Where the loop has ended there is none.
pub proof fn law_log_holds_what_the_terminal_wrote(
    at: ServedSessionView,
    replies: Seq<LoopReplyView>,
)
    requires
        all_fit(poll(at, seq![]), replies),
        !(played(poll(at, seq![]), replies) matches LoopStepView::Finish(Err(_))),
    ensures
        match played(poll(at, seq![]), replies) {
            LoopStepView::Run(LoopEffectView::AppendLog(chunk), _) => terminal_output(
                poll(at, seq![]),
                replies,
            ) == log_growth(poll(at, seq![]), replies) + chunk,
            _ => terminal_output(poll(at, seq![]), replies) == log_growth(
                poll(at, seq![]),
                replies,
            ),
        },
{
    let step = poll(at, seq![]);
    lemma_log(step, replies);
    assert(unlogged(step) + terminal_output(step, replies) =~= terminal_output(step, replies));
    if unlogged(played(step, replies)).len() == 0 {
        assert(log_growth(step, replies) + unlogged(played(step, replies)) =~= log_growth(
            step,
            replies,
        ));
    }
}

/// Whether answers tell of the end of a process, the time, and that both are recorded.
pub open spec fn ends_with_exit(replies: Seq<LoopReplyView>, status: i32, now: i64) -> bool {
    let n = replies.len() as int;
    &&& n >= 3
    &&& replies[n - 3] == LoopReplyView::Reaped(Some(status))
    &&& replies[n - 2] == LoopReplyView::Clock(now)
    &&& replies[n - 1] == LoopReplyView::Done
}

proof fn lemma_exit(
    rows: Seq<SessionRowView>,
    step: LoopStepView,
    replies: Seq<LoopReplyView>,
) -> (end: (i32, i64))
    requires
        awaits(step),
        all_fit(step, replies),
        played(step, replies) == LoopStepView::Finish(Ok(())),
        step matches LoopStepView::Run(_, s) && !(s.phase is Stamping) && !(s.phase is Recording),
    ensures
        ends_with_exit(replies, end.0, end.1),
        rows_in(rows, step, replies) == sessions::rows_after(
            rows,
            exit_record(step->Run_1.session, runtime::exit_code_in(end.0), end.1),
        ),
    decreases replies.len(),
{
    lemma_serving();
    let s = step->Run_1;
    let next = loop_next(s, replies[0]);
    let rest = replies.skip(1);
    if let LoopStepView::Run(_, stamping) = next {
        if stamping.phase is Stamping {
            let status = replies[0]->Reaped_0->0;
            reveal_with_fuel(all_fit, 4);
            reveal_with_fuel(played, 4);
            reveal_with_fuel(rows_in, 4);
            assert(rest.len() > 0);
            assert(fits(stamping, rest[0]));
            assert(rest[0] is Clock);
            let recording = loop_next(stamping, rest[0])->Run_1;
            let now = rest[0]->Clock_0;
            let last = rest.skip(1);
            assert(last.len() > 0 && fits(recording, last[0]));
            assert(loop_next(recording, last[0]) is Finish);
            assert(last.skip(1).len() == 0);
            assert(last[0] == replies[2]);
            let record = exit_record(s.session, runtime::exit_code_in(status), now);
            assert(rows_in(rows, next, rest) == rows_in(
                rows,
                LoopStepView::Run(LoopEffectView::Record(record), recording),
                last,
            ));
            assert(rows_in(rows, next, rest) == sessions::rows_after(rows, record));
            assert(ends_with_exit(replies, status, now));
            (status, now)
        } else {
            let end = lemma_exit(rows, next, rest);
            assert(rest[rest.len() - 3] == replies[replies.len() - 3]);
            assert(rest[rest.len() - 2] == replies[replies.len() - 2]);
            assert(rest[rest.len() - 1] == replies[replies.len() - 1]);
            end
        }
    } else {
        assert(played(next, rest) == next);
        law_loop_ends_with_the_process(s, replies[0]);
        (0, 0)
    }
}

/// A run that ends well ends with the end of the process: the rows are those from before
/// but for the session's, which has the exit code that the status of the process gives
/// and the time.
pub proof fn law_run_records_the_exit(
    at: ServedSessionView,
    rows: Seq<SessionRowView>,
    replies: Seq<LoopReplyView>,
)
    requires
        all_fit(poll(at, seq![]), replies),
        played(poll(at, seq![]), replies) == LoopStepView::Finish(Ok(())),
    ensures
        exists|status: i32, now: i64|
            #[trigger] ends_with_exit(replies, status, now) && rows_in(
                rows,
                poll(at, seq![]),
                replies,
            ) == sessions::rows_after(
                rows,
                exit_record(at, runtime::exit_code_in(status), now),
            ),
{
    let end = lemma_exit(rows, poll(at, seq![]), replies);
    assert(ends_with_exit(replies, end.0, end.1));
}

/// A session whose process has ended.
pub open spec fn exited(session: SessionView, code: Option<i32>, now: i64) -> SessionView {
    SessionView {
        pid: None,
        status: "exited"@,
        exit_code: code,
        stopped_at: Some(now),
        ..session
    }
}

/// Once the end of a session's process is recorded, its row has no process, the status
/// `exited`, the exit code and the time, and reads back so. Every row of another
/// session is as it was.
pub proof fn law_recorded_exit_reads_back(
    at: ServedSessionView,
    repo: RepositoryView,
    rows: Seq<SessionRowView>,
    i: int,
    code: Option<i32>,
    now: i64,
)
    requires
        0 <= i < rows.len(),
    ensures
        ({
            let after = sessions::rows_after(rows, exit_record(at, code, now));
            &&& after.len() == rows.len()
            &&& rows[i].id != at.id ==> after[i] == rows[i]
            &&& rows[i].id == at.id ==> after[i] == (SessionRowView {
                pid: None,
                status: "exited"@,
                exit_code: row_code(code),
                stopped_at: Some(now),
                ..rows[i]
            })
            &&& rows[i].id == at.id ==> (sessions::session_of(repo, rows[i]) matches Ok(session)
                ==> sessions::session_of(repo, after[i]) == Ok::<_, SwarmErrorView>(
                exited(session, code, now),
            ))
        }),
{
}

/// What the clients sent while the loop heard the given answers, in the order in which
/// it was read.
pub open spec fn client_input(step: LoopStepView, replies: Seq<LoopReplyView>) -> Seq<u8>
    decreases replies.len(),
{
    match step {
        LoopStepView::Run(effect, s) if replies.len() > 0 => (match (effect, replies[0]) {
            (LoopEffectView::ReadClient(_), LoopReplyView::Bytes(bytes)) => bytes,
            _ => seq![],
        }) + client_input(loop_next(s, replies[0]), replies.skip(1)),
        _ => seq![],
    }
}

/// What the loop asked to be written to the terminal up to the step that it stands at
/// once it has heard the given answers.
pub open spec fn terminal_input(step: LoopStepView, replies: Seq<LoopReplyView>) -> Seq<u8>
    decreases replies.len(),
{
    match step {
        LoopStepView::Run(effect, s) => (match effect {
            LoopEffectView::WriteTerminal(bytes) => bytes,
            _ => seq![],
        }) + if replies.len() > 0 {
            terminal_input(loop_next(s, replies[0]), replies.skip(1))
        } else {
            seq![]
        },
        _ => seq![],
    }
}

/// Whether a client is read exactly where the state waits for one, and nothing is
/// written to the terminal but behind it.
spec fn listens(step: LoopStepView) -> bool {
    match step {
        LoopStepView::Run(effect, s) => {
            &&& effect is ReadClient <==> s.phase is ReadingClient
            &&& effect is WriteTerminal <==> s.phase is Forwarding
            &&& in_order(s)
        },
        _ => true,
    }
}

proof fn lemma_input(step: LoopStepView, replies: Seq<LoopReplyView>)
    requires
        listens(step),
        step matches LoopStepView::Run(_, s) ==> s.clients.len() + replies.len() <= usize::MAX,
        all_fit(step, replies),
    ensures
        terminal_input(step, replies) == (match step {
            LoopStepView::Run(LoopEffectView::WriteTerminal(bytes), _) => bytes,
            _ => seq![],
        }) + client_input(step, replies),
    decreases replies.len(),
{
    if replies.len() > 0 {
        if let LoopStepView::Run(effect, s) = step {
            lemma_serving();
            lemma_next(s, replies[0]);
            let next = loop_next(s, replies[0]);
            let rest = replies.skip(1);
            lemma_input(next, rest);
            let here: Seq<u8> = match step {
                LoopStepView::Run(LoopEffectView::WriteTerminal(bytes), _) => bytes,
                _ => seq![],
            };
            assert(terminal_input(step, replies) =~= here + terminal_input(next, rest));
            assert(terminal_input(step, replies) =~= here + client_input(step, replies));
        }
    } else {
        assert(terminal_input(step, replies) =~= (match step {
            LoopStepView::Run(LoopEffectView::WriteTerminal(bytes), _) => bytes,
            _ => Seq::<u8>::empty(),
        }) + client_input(step, replies));
    }
}

/// What a client sends goes to the terminal at once: the next thing that is asked for is
/// to write exactly these bytes, and no client leaves on account of them.
pub proof fn law_client_bytes_are_written_next(
    s: ServeLoopView,
    ready: ReadinessView,
    index: usize,
    bytes: Seq<u8>,
)
    requires
        s.phase == (LoopPhaseView::ReadingClient { ready, index }),
        in_order(s),
        bytes.len() > 0,
    ensures
        loop_next(s, LoopReplyView::Bytes(bytes)) matches LoopStepView::Run(effect, next) && effect
            == LoopEffectView::WriteTerminal(bytes) && next.clients == s.clients && next.session
            == s.session,
{
}

/// Over every run, what is written to the terminal is what the clients sent: all of it,
/// in the order in which it was read, and nothing else.
pub proof fn law_terminal_gets_what_the_clients_sent(
    at: ServedSessionView,
    replies: Seq<LoopReplyView>,
)
    requires
        all_fit(poll(at, seq![]), replies),
        replies.len() <= usize::MAX,
    ensures
        terminal_input(poll(at, seq![]), replies) == client_input(poll(at, seq![]), replies),
{
    lemma_input(poll(at, seq![]), replies);
    assert(Seq::<u8>::empty() + client_input(poll(at, seq![]), replies) =~= client_input(
        poll(at, seq![]),
        replies,
    ));
}

/// A client that has closed or cannot be read leaves, and one that is silent stays; either
/// way every other client stays in its place.
pub proof fn law_only_a_client_that_is_gone_leaves(
    s: ServeLoopView,
    ready: ReadinessView,
    index: usize,
    reply: LoopReplyView,
)
    requires
        s.phase == (LoopPhaseView::ReadingClient { ready, index }),
        in_order(s),
        s.clients.len() <= usize::MAX,
        from_client(reply),
    ensures
        loop_next(s, reply) matches LoopStepView::Run(_, next) && next.clients == (if reply
            == LoopReplyView::Bytes(seq![]) || reply is Broken {
            s.clients.take(index as int) + s.clients.skip(index + 1)
        } else {
            s.clients
        }),
{
    lemma_next(s, reply);
    lemma_serving();
    assert(s.clients.remove(index as int) =~= s.clients.take(index as int) + s.clients.skip(
        index + 1,
    ));
    if let LoopReplyView::Bytes(bytes) = reply {
        assert(bytes.len() == 0 ==> bytes =~= seq![]);
    }
}

/// A new client joins behind the others, the listener is asked for another one until it
/// has none, and then the process is looked after.
pub proof fn law_new_clients_join_at_the_end(s: ServeLoopView, client: u64)
    requires
        s.phase is Accepting,
    ensures
        loop_next(s, LoopReplyView::Accepted(client)) == LoopStepView::Run(
            LoopEffectView::Accept,
            ServeLoopView { session: s.session, clients: s.clients + seq![client], phase: s.phase },
        ),
        loop_next(s, LoopReplyView::NoClient) == LoopStepView::Run(
            LoopEffectView::Reap,
            ServeLoopView {
                session: s.session,
                clients: s.clients,
                phase: LoopPhaseView::Reaping,
            },
        ),
{
    assert(s.clients.push(client) =~= s.clients + seq![client]);
}

/// While the process runs, every client is watched again. Once it has ended, the loop asks
/// for the time and then for one change of one row: the session's, in its own database,
/// with the time that it heard.
pub proof fn law_an_ended_process_is_recorded(
    s: ServeLoopView,
    status: i32,
    code: Option<i32>,
    now: i64,
)
    ensures
        s.phase is Reaping ==> loop_next(s, LoopReplyView::Reaped(None)) == LoopStepView::Run(
            LoopEffectView::Poll(s.clients),
            ServeLoopView {
                session: s.session,
                clients: s.clients,
                phase: LoopPhaseView::Polling,
            },
        ),
        s.phase is Reaping ==> (loop_next(
            s,
            LoopReplyView::Reaped(Some(status)),
        ) matches LoopStepView::Run(effect, _) && effect is ReadClock),
        s.phase == LoopPhaseView::Stamping(code) ==> (loop_next(
            s,
            LoopReplyView::Clock(now),
        ) matches LoopStepView::Run(effect, next) && next.phase is Recording && effect
            == LoopEffectView::Record(
            EffectView::ExitSession {
                db_path: s.session.db_path,
                id: s.session.id,
                exit_code: if code is Some {
                    Some(code->0 as i64)
                } else {
                    None
                },
                stopped_at: now,
            },
        )),
        s.phase is Recording ==> loop_next(s, LoopReplyView::Done) == LoopStepView::Finish(Ok(())),
{
}

/// What the terminal has to say is read before any client is, and where it is silent the
/// loop goes on with the last client that is ready; with no client ready new ones are
/// taken in where there are any, and the process is looked after where there are none.
pub proof fn law_terminal_is_served_first(
    s: ServeLoopView,
    listener: bool,
    terminal: bool,
    clients: Seq<bool>,
)
    requires
        s.phase is Polling,
        clients.len() == s.clients.len(),
        s.clients.len() <= usize::MAX,
    ensures
        ({
            let reply = LoopReplyView::Polled { listener, terminal, clients };
            &&& loop_next(s, reply) matches LoopStepView::Run(effect, next)
            &&& next.clients == s.clients
            &&& next.session == s.session
            &&& terminal ==> effect is ReadTerminal
            &&& !terminal ==> {
                &&& effect matches LoopEffectView::ReadClient(client) ==> exists|i: int|
                    0 <= i < clients.len() && #[trigger] clients[i] && s.clients[i] == client
                        && forall|j: int| i < j < clients.len() ==> !#[trigger] clients[j]
                &&& effect is ReadClient <==> clients.contains(true)
                &&& effect is Accept <==> !clients.contains(true) && listener
                &&& effect is Reap <==> !clients.contains(true) && !listener
            }
        }),
{
    lemma_next(s, LoopReplyView::Polled { listener, terminal, clients });
    lemma_serving();
    let ready = ReadinessView { listener, clients };
    lemma_last_ready(s.session, s.clients, ready, clients.len() as int);
}

proof fn lemma_last_ready(
    at: ServedSessionView,
    clients: Seq<u64>,
    ready: ReadinessView,
    index: int,
)
    requires
        0 <= index <= clients.len(),
        ready.clients.len() == clients.len(),
        clients.len() <= usize::MAX,
        forall|j: int| index <= j < clients.len() ==> !#[trigger] ready.clients[j],
    ensures
        ({
            let step = serve_below(at, clients, ready, index);
            &&& step matches LoopStepView::Run(effect, _)
            &&& effect matches LoopEffectView::ReadClient(client) ==> exists|i: int|
                0 <= i < clients.len() && #[trigger] ready.clients[i] && clients[i] == client
                    && forall|j: int| i < j < clients.len() ==> !#[trigger] ready.clients[j]
            &&& effect is ReadClient <==> ready.clients.contains(true)
            &&& effect is Accept <==> !ready.clients.contains(true) && ready.listener
            &&& effect is Reap <==> !ready.clients.contains(true) && !ready.listener
        }),
    decreases index,
{
    if index <= 0 {
        assert(!ready.clients.contains(true));
    } else if ready.clients[index - 1] {
        assert(ready.clients.contains(true));
        assert(clients[index - 1] == clients[index - 1]);
    } else {
        lemma_last_ready(at, clients, ready, index - 1);
    }
}

/// What is sent to which client while the loop hears whether each was sent to.
pub open spec fn deliveries(step: LoopStepView, answers: Seq<bool>) -> Seq<(u64, Seq<u8>)>
    decreases answers.len(),
{
    match step {
        LoopStepView::Run(LoopEffectView::SendClient { client, bytes }, s) => if answers.len()
            == 0 {
            seq![(client, bytes)]
        } else {
            seq![(client, bytes)] + deliveries(
                loop_next(s, LoopReplyView::Sent(answers[0])),
                answers.skip(1),
            )
        },
        _ => seq![],
    }
}

proof fn lemma_deliveries(
    at: ServedSessionView,
    chunk: Seq<u8>,
    clients: Seq<u64>,
    alive: Seq<u64>,
    kept: ReadinessView,
    rest: Seq<u64>,
    left: Seq<bool>,
    answers: Seq<bool>,
)
    requires
        answers.len() == rest.len(),
        left.len() == rest.len(),
    ensures
        deliveries(send_rest(at, chunk, clients, alive, kept, rest, left), answers) == Seq::new(
            rest.len(),
            |i: int| (rest[i], chunk),
        ),
    decreases rest.len(),
{
    let step = send_rest(at, chunk, clients, alive, kept, rest, left);
    let all = Seq::new(rest.len(), |i: int| (rest[i], chunk));
    if rest.len() == 0 {
        lemma_serving();
        assert(deliveries(step, answers) =~= all);
    } else {
        let (next_alive, next_kept) = if answers[0] {
            (alive.push(rest[0]), with_client(kept, left[0]))
        } else {
            (alive, kept)
        };
        lemma_deliveries(
            at,
            chunk,
            clients,
            next_alive,
            next_kept,
            rest.skip(1),
            left.skip(1),
            answers.skip(1),
        );
        assert(deliveries(step, answers) =~= all);
    }
}

/// Whether or not others can be sent to, every client is sent the whole chunk, each once
/// and in the order of the clients.
pub proof fn law_each_client_gets_the_whole_chunk(
    s: ServeLoopView,
    ready: ReadinessView,
    chunk: Seq<u8>,
    answers: Seq<bool>,
)
    requires
        s.phase == (LoopPhaseView::Logging { ready, chunk }),
        in_order(s),
        answers.len() == s.clients.len(),
    ensures
        deliveries(loop_next(s, LoopReplyView::Done), answers) == Seq::new(
            s.clients.len(),
            |i: int| (s.clients[i], chunk),
        ),
{
    let none = ReadinessView { listener: ready.listener, clients: seq![] };
    lemma_deliveries(s.session, chunk, s.clients, seq![], none, s.clients, ready.clients, answers);
}

} // verus!
