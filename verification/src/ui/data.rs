//! What the window shows of repositories, workspaces and sessions, and how it
//! is gathered.

use crate::error::{SwarmError, SwarmErrorView};
use crate::paths;
use crate::repos;
use crate::repos::{Repository, RepositoryStore, RepositoryStoreView, RepositoryView};
use crate::sessions::{Session, SessionView};
use crate::text;
use crate::effects;
use crate::effects::{Effect, EffectView, Reply, ReplyView, Step, StepView};
use crate::workspaces;
use crate::workspaces::{BranchQuery, BranchQueryView, Workspace, WorkspaceView};
use vstd::prelude::*;

verus! {

/// A session as the window shows it.
#[derive(Debug)]
pub struct SessionEntry {
    pub id: String,
    pub pid: Option<u32>,
    pub program: String,
    pub status: String,
    pub log_path: String,
    pub socket_path: String,
}

/// What a `SessionEntry` holds.
#[verifier::ext_equal]
pub struct SessionEntryView {
    pub id: Seq<char>,
    pub pid: Option<u32>,
    pub program: Seq<char>,
    pub status: Seq<char>,
    pub log_path: Seq<char>,
    pub socket_path: Seq<char>,
}

impl View for SessionEntry {
    type V = SessionEntryView;

    open spec fn view(&self) -> SessionEntryView {
        SessionEntryView {
            id: self.id@,
            pid: self.pid,
            program: self.program@,
            status: self.status@,
            log_path: self.log_path@,
            socket_path: self.socket_path@,
        }
    }
}

impl DeepView for SessionEntry {
    type V = SessionEntryView;

    open spec fn deep_view(&self) -> SessionEntryView {
        self@
    }
}

impl Clone for SessionEntry {
    fn clone(&self) -> (r: Self)
        ensures
            r@ == self@,
    {
        SessionEntry {
            id: self.id.clone(),
            pid: self.pid,
            program: self.program.clone(),
            status: self.status.clone(),
            log_path: self.log_path.clone(),
            socket_path: self.socket_path.clone(),
        }
    }
}

/// A workspace as the window shows it.
#[derive(Debug)]
pub struct WorkspaceEntry {
    pub repo_canonical: String,
    pub name: String,
    pub branch: String,
    pub path: String,
    pub sessions: Vec<SessionEntry>,
}

/// What a `WorkspaceEntry` holds.
#[verifier::ext_equal]
pub struct WorkspaceEntryView {
    pub repo_canonical: Seq<char>,
    pub name: Seq<char>,
    pub branch: Seq<char>,
    pub path: Seq<char>,
    pub sessions: Seq<SessionEntryView>,
}

impl View for WorkspaceEntry {
    type V = WorkspaceEntryView;

    open spec fn view(&self) -> WorkspaceEntryView {
        WorkspaceEntryView {
            repo_canonical: self.repo_canonical@,
            name: self.name@,
            branch: self.branch@,
            path: self.path@,
            sessions: self.sessions.deep_view(),
        }
    }
}

impl DeepView for WorkspaceEntry {
    type V = WorkspaceEntryView;

    open spec fn deep_view(&self) -> WorkspaceEntryView {
        self@
    }
}

impl Clone for WorkspaceEntry {
    fn clone(&self) -> (r: Self)
        ensures
            r@ == self@,
    {
        WorkspaceEntry {
            repo_canonical: self.repo_canonical.clone(),
            name: self.name.clone(),
            branch: self.branch.clone(),
            path: self.path.clone(),
            sessions: self.sessions.clone(),
        }
    }
}

/// A repository as the window shows it.
#[derive(Debug)]
pub struct WorkspaceGroup {
    pub repo_label: String,
    pub repo_canonical: String,
    pub repo_status: Option<String>,
    pub collapsed: bool,
    pub workspace_count: usize,
    pub workspaces: Vec<WorkspaceEntry>,
}

/// What a `WorkspaceGroup` holds.
#[verifier::ext_equal]
pub struct WorkspaceGroupView {
    pub repo_label: Seq<char>,
    pub repo_canonical: Seq<char>,
    pub repo_status: Option<Seq<char>>,
    pub collapsed: bool,
    pub workspace_count: usize,
    pub workspaces: Seq<WorkspaceEntryView>,
}

impl View for WorkspaceGroup {
    type V = WorkspaceGroupView;

    open spec fn view(&self) -> WorkspaceGroupView {
        WorkspaceGroupView {
            repo_label: self.repo_label@,
            repo_canonical: self.repo_canonical@,
            repo_status: self.repo_status.deep_view(),
            collapsed: self.collapsed,
            workspace_count: self.workspace_count,
            workspaces: self.workspaces.deep_view(),
        }
    }
}

impl DeepView for WorkspaceGroup {
    type V = WorkspaceGroupView;

    open spec fn deep_view(&self) -> WorkspaceGroupView {
        self@
    }
}

impl Clone for WorkspaceGroup {
    fn clone(&self) -> (r: Self)
        ensures
            r@ == self@,
    {
        WorkspaceGroup {
            repo_label: self.repo_label.clone(),
            repo_canonical: self.repo_canonical.clone(),
            repo_status: self.repo_status.clone(),
            collapsed: self.collapsed,
            workspace_count: self.workspace_count,
            workspaces: self.workspaces.clone(),
        }
    }
}

/// The name of the program that a command runs.
pub open spec fn program_of(command: Seq<Seq<char>>) -> Seq<char> {
    if command.len() == 0 {
        "session"@
    } else {
        match paths::last_name(command[0]) {
            Some(name) => name,
            None => "session"@,
        }
    }
}

/// The name of the program that a command runs.
pub fn command_program(command: &Vec<String>) -> (r: String)
    ensures
        r@ == program_of(command.deep_view()),
{
    if command.len() == 0 {
        return "session".to_owned();
    }
    proof {
        assert(command.deep_view()[0] == command@[0]@);
    }
    match paths::file_name(command[0].as_str()) {
        Some(name) => name,
        None => "session".to_owned(),
    }
}

/// The program of a session: the one in the foreground of its terminal, else the
/// one that it was started with.
pub open spec fn shown_program(
    foreground: Option<Seq<char>>,
    command: Seq<Seq<char>>,
) -> Seq<char> {
    match foreground {
        Some(program) => program,
        None => program_of(command),
    }
}

/// The program of a session.
pub fn session_program(foreground: Option<String>, command: &Vec<String>) -> (r: String)
    ensures
        r@ == shown_program(foreground.deep_view(), command.deep_view()),
{
    match foreground {
        Some(program) => program,
        None => command_program(command),
    }
}

/// A session as the window shows it.
pub open spec fn entry_of(session: SessionView, foreground: Option<Seq<char>>) -> SessionEntryView {
    SessionEntryView {
        id: session.id,
        pid: session.pid,
        program: shown_program(foreground, session.command),
        status: session.status,
        log_path: session.log_path,
        socket_path: session.socket_path,
    }
}

/// A session as the window shows it.
pub fn session_entry(session: Session, foreground: Option<String>) -> (r: SessionEntry)
    ensures
        r@ == entry_of(session@, foreground.deep_view()),
{
    let program = session_program(foreground, &session.command);
    SessionEntry {
        id: session.id,
        pid: session.pid,
        program,
        status: session.status,
        log_path: session.log_path,
        socket_path: session.socket_path,
    }
}

/// A workspace as the window shows it.
pub open spec fn workspace_entry(
    repo_canonical: Seq<char>,
    workspace: WorkspaceView,
    sessions: Seq<SessionEntryView>,
) -> WorkspaceEntryView {
    WorkspaceEntryView {
        repo_canonical,
        name: workspace.name,
        branch: workspace.branch,
        path: workspace.path,
        sessions,
    }
}

/// A workspace as the window shows it.
pub fn map_workspace(
    repo_canonical: &str,
    workspace: Workspace,
    sessions: Vec<SessionEntry>,
) -> (r: WorkspaceEntry)
    ensures
        r@ == workspace_entry(repo_canonical@, workspace@, sessions.deep_view()),
{
    WorkspaceEntry {
        repo_canonical: repo_canonical.to_owned(),
        name: workspace.name,
        branch: workspace.branch,
        path: workspace.path,
        sessions,
    }
}

/// A number of units ago.
pub open spec fn ago(value: nat, unit: Seq<char>) -> Seq<char> {
    if value == 1 {
        "1 "@ + unit + " ago"@
    } else {
        text::decimal(value) + " "@ + unit + "s ago"@
    }
}

/// How long ago something was, in the largest unit that it fills.
pub open spec fn elapsed_text(seconds: nat) -> Seq<char> {
    let days = seconds / 86400;
    if seconds < 60 {
        "just now"@
    } else if seconds < 3600 {
        ago(seconds / 60, "minute"@)
    } else if days == 0 {
        ago(seconds / 3600, "hour"@)
    } else if days < 7 {
        ago(days, "day"@)
    } else if days < 35 {
        ago(days / 7, "week"@)
    } else if days < 360 {
        ago(days / 30, "month"@)
    } else if days < 730 {
        ago(1, "year"@)
    } else {
        ago(days / 365, "year"@)
    }
}

fn pluralize(value: u64, unit: &str) -> (r: String)
    ensures
        r@ == ago(value as nat, unit@),
{
    if value == 1 {
        let mut out = "1 ".to_owned();
        out.append(unit);
        out.append(" ago");
        out
    } else {
        let mut out = text::decimal_text(value);
        out.append(" ");
        out.append(unit);
        out.append("s ago");
        out
    }
}

/// How long ago something was.
pub fn format_elapsed(seconds: u64) -> (r: String)
    ensures
        r@ == elapsed_text(seconds as nat),
{
    if seconds < 60 {
        return "just now".to_owned();
    }
    let minutes: u64 = seconds / 60;
    if minutes < 60 {
        return pluralize(minutes, "minute");
    }
    let hours: u64 = minutes / 60;
    if hours < 24 {
        return pluralize(hours, "hour");
    }
    let days: u64 = hours / 24;
    if days < 7 {
        return pluralize(days, "day");
    }
    let weeks: u64 = days / 7;
    if weeks < 5 {
        return pluralize(weeks, "week");
    }
    let months: u64 = days / 30;
    if months < 12 {
        return pluralize(
            if months > 1 {
                months
            } else {
                1
            },
            "month",
        );
    }
    let years: u64 = days / 365;
    pluralize(
        if years > 1 {
            years
        } else {
            1
        },
        "year",
    )
}

/// How long ago a repository was synced. A time that is still to come counts as
/// now.
pub open spec fn sync_time_text(elapsed: Option<u64>) -> Seq<char> {
    match elapsed {
        Some(seconds) => elapsed_text(seconds as nat),
        None => "just now"@,
    }
}

/// How long ago a repository was synced, from the seconds since then.
pub fn format_relative_sync_time(elapsed: Option<u64>) -> (r: String)
    ensures
        r@ == sync_time_text(elapsed),
{
    match elapsed {
        Some(seconds) => format_elapsed(seconds),
        None => "just now".to_owned(),
    }
}

/// The files whose age tells when a bare clone was last synced, the best first.
pub open spec fn sync_markers(bare_repo_path: Seq<char>) -> Seq<Seq<char>> {
    seq![
        paths::joined_path(bare_repo_path, "FETCH_HEAD"@),
        paths::joined_path(bare_repo_path, "HEAD"@),
        paths::joined_path(
            paths::joined_path(
                paths::joined_path(paths::joined_path(bare_repo_path, "refs"@), "remotes"@),
                "origin"@,
            ),
            "HEAD"@,
        ),
    ]
}

/// The files whose age tells when a bare clone was last synced.
pub fn sync_marker_paths(bare_repo_path: &str) -> (r: Vec<String>)
    ensures
        r.deep_view() == sync_markers(bare_repo_path@),
{
    let refs = paths::join_path(bare_repo_path, "refs");
    let remotes = paths::join_path(refs.as_str(), "remotes");
    let origin = paths::join_path(remotes.as_str(), "origin");
    let r = vec![
        paths::join_path(bare_repo_path, "FETCH_HEAD"),
        paths::join_path(bare_repo_path, "HEAD"),
        paths::join_path(origin.as_str(), "HEAD"),
    ];
    proof {
        assert(r.deep_view() =~= sync_markers(bare_repo_path@));
    }
    r
}

/// What the kernel tells of a process: its process group, its terminal, and the
/// process group in the foreground of the terminal.
#[derive(Debug, Clone, Copy, PartialEq, Eq, Structural)]
pub struct ProcStat {
    pub pgrp: i32,
    pub tty_nr: i32,
    pub tpgid: i32,
}

/// A whole number of 32 bits.
pub open spec fn number_field(field: Seq<char>) -> Option<int> {
    text::integer_within(field, i32::MIN as int, i32::MAX as int)
}

/// The fields behind the program's name in what the kernel tells of a process:
/// the name stands in brackets, with one more character behind it.
pub open spec fn stat_fields(contents: Seq<char>) -> Option<Seq<Seq<char>>> {
    let close = text::last_index_of(contents, ')');
    if !contents.contains('(') || close < 0 {
        None
    } else {
        let rest = contents.skip(close + 1);
        if rest.len() == 0 || rest[0] as u32 >= 0x80 {
            None
        } else {
            Some(text::word_list(rest.skip(1)))
        }
    }
}

/// What the kernel tells of a process: the third, the fifth and the sixth of the
/// fields behind the program's name.
pub open spec fn proc_stat(contents: Seq<char>) -> Option<ProcStat> {
    match stat_fields(contents) {
        None => None,
        Some(fields) => if fields.len() < 6 {
            None
        } else {
            match (number_field(fields[2]), number_field(fields[4]), number_field(fields[5])) {
                (Some(pgrp), Some(tty_nr), Some(tpgid)) => Some(
                    ProcStat { pgrp: pgrp as i32, tty_nr: tty_nr as i32, tpgid: tpgid as i32 },
                ),
                _ => None,
            }
        },
    }
}

fn parse_number(field: &str) -> (r: Option<i32>)
    ensures
        match r {
            Some(n) => number_field(field@) == Some(n as int),
            None => number_field(field@) is None,
        },
{
    match text::parse_integer(field, i32::MIN as i64, i32::MAX as i64) {
        Some(n) => Some(n as i32),
        None => None,
    }
}

/// Reads what the kernel tells of a process.
pub fn parse_proc_stat(contents: &str) -> (r: Option<ProcStat>)
    ensures
        r == proc_stat(contents@),
{
    if !text::contains_char(contents, '(') {
        return None;
    }
    let close: usize = match text::rfind(contents, ')') {
        Some(close) => close,
        None => {
            return None;
        },
    };
    let n: usize = contents.unicode_len();
    if close + 1 >= n {
        return None;
    }
    let next = contents.get_char(close + 1);
    proof {
        assert(contents@.skip(close + 1)[0] == contents@[close + 1]);
    }
    if next as u32 >= 0x80 {
        return None;
    }
    let rest = contents.substring_char(close + 2, n);
    proof {
        assert(rest@ =~= contents@.skip(close + 1).skip(1));
    }
    let fields = text::split_whitespace(rest);
    if fields.len() < 6 {
        return None;
    }
    proof {
        let all = fields.deep_view();
        assert(all[2] == fields@[2]@ && all[4] == fields@[4]@ && all[5] == fields@[5]@);
    }
    match (
        parse_number(fields[2].as_str()),
        parse_number(fields[4].as_str()),
        parse_number(fields[5].as_str()),
    ) {
        (Some(pgrp), Some(tty_nr), Some(tpgid)) => Some(ProcStat { pgrp, tty_nr, tpgid }),
        _ => None,
    }
}

/// A process and what the kernel tells of it.
#[derive(Debug, Clone, Copy, PartialEq, Eq, Structural)]
pub struct Process {
    pub pid: u32,
    pub stat: ProcStat,
}

/// Whether a process is in the foreground of the terminal of another one.
pub open spec fn in_foreground(stat: ProcStat, p: Process) -> bool {
    p.stat.tty_nr == stat.tty_nr && p.stat.pgrp == stat.tpgid
}

/// Where the program of a process with a terminal is found: at the process
/// itself, at one of all processes, or nowhere.
#[derive(Debug, Clone, Copy, PartialEq, Eq, Structural)]
pub enum Foreground {
    Nobody,
    Own,
    Other,
}

/// Where the program in the foreground is found.
pub open spec fn foreground_of(stat: ProcStat) -> Foreground {
    if stat.tpgid <= 0 || stat.tty_nr == 0 {
        Foreground::Nobody
    } else if stat.tpgid == stat.pgrp {
        Foreground::Own
    } else {
        Foreground::Other
    }
}

/// Decides where the program in the foreground is found.
pub fn foreground_place(stat: ProcStat) -> (r: Foreground)
    ensures
        r == foreground_of(stat),
{
    if stat.tpgid <= 0 || stat.tty_nr == 0 {
        Foreground::Nobody
    } else if stat.tpgid == stat.pgrp {
        Foreground::Own
    } else {
        Foreground::Other
    }
}

/// Whether a process stands for the foreground: the leader of the foreground's
/// group does, else the process with the lowest number.
pub open spec fn stands_for_foreground(
    stat: ProcStat,
    processes: Seq<Process>,
    pid: u32,
) -> bool {
    &&& exists|i: int|
        0 <= i < processes.len() && in_foreground(stat, #[trigger] processes[i])
            && processes[i].pid == pid
    &&& pid == stat.tpgid as u32 || forall|i: int|
        0 <= i < processes.len() && in_foreground(stat, #[trigger] processes[i])
            ==> processes[i].pid != stat.tpgid as u32 && pid <= processes[i].pid
}

/// Picks the process that stands for the foreground.
pub fn foreground_pid(stat: ProcStat, processes: &Vec<Process>) -> (r: Option<u32>)
    ensures
        match r {
            Some(pid) => stands_for_foreground(stat, processes@, pid),
            None => forall|i: int|
                0 <= i < processes@.len() ==> !in_foreground(stat, #[trigger] processes@[i]),
        },
{
    let mut fallback: Option<u32> = None;
    let mut i: usize = 0;
    while i < processes.len()
        invariant
            i <= processes.len(),
            match fallback {
                Some(pid) => (exists|j: int|
                    0 <= j < i && in_foreground(stat, #[trigger] processes@[j])
                        && processes@[j].pid == pid) && forall|j: int|
                    0 <= j < i && in_foreground(stat, #[trigger] processes@[j])
                        ==> processes@[j].pid != stat.tpgid as u32 && pid <= processes@[j].pid,
                None => forall|j: int|
                    0 <= j < i ==> !in_foreground(stat, #[trigger] processes@[j]),
            },
        decreases processes.len() - i,
    {
        let p = processes[i];
        if p.stat.tty_nr == stat.tty_nr && p.stat.pgrp == stat.tpgid {
            proof {
                assert(in_foreground(stat, processes@[i as int]));
            }
            if p.pid == #[verifier::truncate]
            (p.stat.pgrp as u32) {
                return Some(p.pid);
            }
            fallback = match fallback {
                Some(current) => if p.pid < current {
                    Some(p.pid)
                } else {
                    Some(current)
                },
                None => Some(p.pid),
            };
        }
        i += 1;
    }
    fallback
}

/// Programs that run a script.
pub open spec fn interpreter(name: Seq<char>) -> bool {
    name == "python"@ || name == "python3"@ || name == "bash"@ || name == "sh"@ || name == "zsh"@
        || name == "node"@ || name == "ruby"@
}

fn is_interpreter(name: &str) -> (r: bool)
    ensures
        r == interpreter(name@),
{
    text::same(name, "python") || text::same(name, "python3") || text::same(name, "bash")
        || text::same(name, "sh") || text::same(name, "zsh") || text::same(name, "node")
        || text::same(name, "ruby")
}

/// The first of some arguments that is no option.
pub open spec fn first_operand(args: Seq<Seq<char>>) -> Option<Seq<char>>
    decreases args.len(),
{
    if args.len() == 0 {
        None
    } else if !"-"@.is_prefix_of(args[0]) {
        Some(args[0])
    } else {
        first_operand(args.skip(1))
    }
}

/// What a command line is called: the script that an interpreter runs, else its
/// program.
pub open spec fn command_label(args: Seq<Seq<char>>) -> Option<Seq<char>> {
    if args.len() == 0 {
        None
    } else {
        match paths::last_name(args[0]) {
            None => None,
            Some(program) => {
                let script = match first_operand(args.skip(1)) {
                    Some(arg) => paths::last_name(arg),
                    None => None,
                };
                if interpreter(program) && script is Some {
                    script
                } else {
                    Some(program)
                }
            },
        }
    }
}

/// What a command line is called.
pub fn args_label(args: &Vec<String>) -> (r: Option<String>)
    ensures
        r.deep_view() == command_label(args.deep_view()),
{
    if args.len() == 0 {
        return None;
    }
    let ghost all = args.deep_view();
    proof {
        assert(all[0] == args@[0]@);
    }
    let program = match paths::file_name(args[0].as_str()) {
        Some(program) => program,
        None => {
            return None;
        },
    };
    let mut i: usize = 1;
    while i < args.len() && text::starts_with(args[i].as_str(), "-")
        invariant
            1 <= i <= args.len(),
            all == args.deep_view(),
            first_operand(all.skip(1)) == first_operand(all.skip(i as int)),
        decreases args.len() - i,
    {
        proof {
            let rest = all.skip(i as int);
            assert(rest[0] == args@[i as int]@);
            assert(rest.skip(1) =~= all.skip(i + 1));
        }
        i += 1;
    }
    proof {
        if i < args.len() {
            assert(all.skip(i as int)[0] == args@[i as int]@);
        }
    }
    if is_interpreter(program.as_str()) && i < args.len() {
        if let Some(script) = paths::file_name(args[i].as_str()) {
            return Some(script);
        }
    }
    Some(program)
}

/// `String::from_utf8`: the characters of bytes that are valid UTF-8, and
/// nothing for other bytes.
#[verifier::external_body]
fn decode_strict(bytes: Vec<u8>) -> (r: Option<String>)
    ensures
        match r {
            Some(s) => vstd::utf8::valid_utf8(bytes@) && s@ == vstd::utf8::decode_utf8(bytes@),
            None => !vstd::utf8::valid_utf8(bytes@),
        },
{
    String::from_utf8(bytes).ok()
}

/// The parts of bytes between zeros, without the empty ones.
pub open spec fn zero_parts(bytes: Seq<u8>) -> Seq<Seq<u8>>
    decreases bytes.len(),
{
    if bytes.len() == 0 {
        seq![]
    } else if bytes.last() == 0 {
        zero_parts(bytes.drop_last())
    } else {
        let n = tail_len(bytes);
        if 0 < n <= bytes.len() {
            zero_parts(bytes.take(bytes.len() - n)).push(bytes.skip(bytes.len() - n))
        } else {
            seq![]
        }
    }
}

/// How many bytes stand behind the last zero.
pub open spec fn tail_len(bytes: Seq<u8>) -> int
    decreases bytes.len(),
{
    if bytes.len() == 0 || bytes.last() == 0 {
        0
    } else {
        1 + tail_len(bytes.drop_last())
    }
}

/// The texts of some bytes, where all of them are valid UTF-8.
pub open spec fn all_decoded(parts: Seq<Seq<u8>>) -> Option<Seq<Seq<char>>> {
    if forall|i: int| 0 <= i < parts.len() ==> vstd::utf8::valid_utf8(#[trigger] parts[i]) {
        Some(Seq::new(parts.len(), |i: int| vstd::utf8::decode_utf8(parts[i])))
    } else {
        None
    }
}

/// What a command line that the kernel tells is called.
pub open spec fn cmdline_label(contents: Seq<u8>) -> Option<Seq<char>> {
    match all_decoded(zero_parts(contents)) {
        Some(args) => command_label(args),
        None => None,
    }
}

proof fn lemma_tail_len(bytes: Seq<u8>, n: int)
    requires
        0 <= n <= bytes.len(),
        forall|j: int| bytes.len() - n <= j < bytes.len() ==> bytes[j] != 0,
        n < bytes.len() ==> bytes[bytes.len() - n - 1] == 0,
    ensures
        tail_len(bytes) == n,
    decreases bytes.len(),
{
    if n > 0 {
        lemma_tail_len(bytes.drop_last(), n - 1);
    }
}

fn split_zeros(bytes: &Vec<u8>) -> (r: Vec<Vec<u8>>)
    ensures
        r.deep_view() == zero_parts(bytes@),
{
    let mut out: Vec<Vec<u8>> = Vec::new();
    let mut part: Vec<u8> = Vec::new();
    let mut i: usize = 0;
    let ghost mut start: int = 0;
    proof {
        assert(bytes@.take(0) =~= seq![]);
        assert(out.deep_view() =~= seq![]);
    }
    while i < bytes.len()
        invariant
            i <= bytes.len(),
            0 <= start <= i,
            part@ == bytes@.subrange(start, i as int),
            start > 0 ==> bytes@[start - 1] == 0,
            forall|j: int| start <= j < i ==> bytes@[j] != 0,
            out.deep_view() == zero_parts(bytes@.take(start)),
        decreases bytes.len() - i,
    {
        let b: u8 = bytes[i];
        if b == 0 {
            let ghost before = out.deep_view();
            let ghost head = bytes@.take(i as int);
            if part.len() > 0 {
                let ghost added = part@;
                out.push(part);
                proof {
                    lemma_tail_len(head, i - start);
                    assert(head.take(start) =~= bytes@.take(start));
                    assert(head.skip(start) =~= added);
                    assert(head.last() == bytes@[i - 1]);
                    assert(out@.last().deep_view() =~= added);
                    assert(out.deep_view() =~= before.push(added));
                }
            } else {
                proof {
                    assert(start == i);
                }
            }
            part = Vec::new();
            proof {
                let longer = bytes@.take(i + 1);
                assert(longer.last() == 0);
                assert(longer.drop_last() =~= head);
                assert(zero_parts(head) == out.deep_view());
                assert(zero_parts(longer) == zero_parts(head));
                start = i + 1;
            }
        } else {
            part.push(b);
        }
        i += 1;
        proof {
            assert(part@ =~= bytes@.subrange(start, i as int));
        }
    }
    proof {
        assert(bytes@.take(i as int) =~= bytes@);
    }
    if part.len() > 0 {
        let ghost before = out.deep_view();
        let ghost added = part@;
        out.push(part);
        proof {
            lemma_tail_len(bytes@, i - start);
            assert(bytes@.skip(start) =~= added);
            assert(bytes@.last() == bytes@[i - 1]);
            assert(out@.last().deep_view() =~= added);
            assert(out.deep_view() =~= before.push(added));
        }
    }
    out
}

/// What a command line that the kernel tells is called.
pub fn process_cmdline_label(contents: &Vec<u8>) -> (r: Option<String>)
    ensures
        r.deep_view() == cmdline_label(contents@),
{
    let parts = split_zeros(contents);
    let ghost all = parts.deep_view();
    let mut args: Vec<String> = Vec::new();
    let mut i: usize = 0;
    while i < parts.len()
        invariant
            i <= parts.len(),
            all == parts.deep_view(),
            all == zero_parts(contents@),
            forall|j: int| 0 <= j < i ==> vstd::utf8::valid_utf8(#[trigger] all[j]),
            args.deep_view() =~= Seq::new(i as nat, |j: int| vstd::utf8::decode_utf8(all[j])),
        decreases parts.len() - i,
    {
        let ghost before = args.deep_view();
        proof {
            assert(all[i as int] == parts@[i as int].deep_view());
            assert(parts@[i as int].deep_view() =~= parts@[i as int]@);
        }
        match decode_strict(parts[i].clone()) {
            Some(arg) => {
                args.push(arg);
                proof {
                    assert(args.deep_view() =~= before.push(arg@));
                }
            },
            None => {
                proof {
                    assert(!vstd::utf8::valid_utf8(all[i as int]));
                    assert(all_decoded(all) is None);
                }
                return None;
            },
        }
        i += 1;
    }
    proof {
        assert(args.deep_view() =~= all_decoded(all)->0);
    }
    args_label(&args)
}

/// What the short name of a process gives.
pub open spec fn comm_label(contents: Option<Seq<char>>) -> Option<Seq<char>> {
    match contents {
        Some(contents) => if text::trimmed(contents).len() > 0 {
            Some(text::trimmed(contents))
        } else {
            None
        },
        None => None,
    }
}

/// What a process is called: by its command line, else by the file that it runs,
/// else by its short name.
pub open spec fn process_label_of(
    by_command: Option<Seq<char>>,
    executable: Option<Seq<char>>,
    comm: Option<Seq<char>>,
) -> Option<Seq<char>> {
    if by_command is Some {
        by_command
    } else {
        let by_file = match executable {
            Some(path) => paths::last_name(path),
            None => None,
        };
        if by_file is Some {
            by_file
        } else {
            comm_label(comm)
        }
    }
}

/// The command line's name, where the command line is known.
pub open spec fn optional_cmdline_label(cmdline: Option<Seq<u8>>) -> Option<Seq<char>> {
    match cmdline {
        Some(contents) => cmdline_label(contents),
        None => None,
    }
}

/// What a process is called, from its command line, the file that it runs and
/// its short name, as far as they are known.
pub fn process_label(
    cmdline: Option<Vec<u8>>,
    executable: Option<&str>,
    comm: Option<&str>,
) -> (r: Option<String>)
    ensures
        r.deep_view() == process_label_of(
            optional_cmdline_label(
                match cmdline {
                    Some(contents) => Some(contents@),
                    None => None,
                },
            ),
            executable.deep_view(),
            comm.deep_view(),
        ),
{
    if let Some(contents) = cmdline {
        if let Some(label) = process_cmdline_label(&contents) {
            return Some(label);
        }
    }
    if let Some(path) = executable {
        if let Some(label) = paths::file_name(path) {
            return Some(label);
        }
    }
    match comm {
        Some(contents) => {
            let name = text::trim(contents);
            if name.unicode_len() > 0 {
                Some(name.to_owned())
            } else {
                None
            }
        },
        None => None,
    }
}

/// The git directory that the file `.git` of a worktree names.
pub open spec fn gitdir_in(
    contents: Seq<char>,
    git_path: Seq<char>,
    workspace_path: Seq<char>,
) -> Result<Seq<char>, SwarmErrorView> {
    match text::without_prefix(contents, "gitdir: "@) {
        None => Err(SwarmErrorView::Git("invalid gitdir file at "@ + git_path)),
        Some(rest) => if text::trimmed(rest).len() == 0 {
            Err(SwarmErrorView::Git("invalid gitdir file at "@ + git_path))
        } else {
            Ok(paths::joined_path(workspace_path, text::trimmed(rest)))
        },
    }
}

fn resolve_gitdir_file(contents: &str, git_path: &str, workspace_path: &str) -> (r: Result<
    String,
    SwarmError,
>)
    ensures
        crate::error::result_view(r) == gitdir_in(contents@, git_path@, workspace_path@),
{
    if let Some(rest) = text::strip_prefix(contents, "gitdir: ") {
        let rest = text::trim(rest);
        if rest.unicode_len() > 0 {
            return Ok(paths::join_path(workspace_path, rest));
        }
    }
    let mut message = "invalid gitdir file at ".to_owned();
    message.append(git_path);
    Err(SwarmError::Git(message))
}

/// The file that names the current branch of a workspace.
pub open spec fn head_path(path: Seq<char>, git_file: Option<Seq<char>>) -> Result<
    Seq<char>,
    SwarmErrorView,
> {
    let git_path = paths::joined_path(path, ".git"@);
    match git_file {
        None => Ok(paths::joined_path(git_path, "HEAD"@)),
        Some(contents) => match gitdir_in(contents, git_path, path) {
            Ok(dir) => Ok(paths::joined_path(dir, "HEAD"@)),
            Err(e) => Err(e),
        },
    }
}

/// The file that names the current branch of a workspace. Its `.git` is a
/// directory, or a file with the given contents.
pub fn workspace_head_path(path: &str, git_file: Option<&str>) -> (r: Result<String, SwarmError>)
    ensures
        crate::error::result_view(r) == head_path(path@, git_file.deep_view()),
{
    let git_path = paths::join_path(path, ".git");
    match git_file {
        None => Ok(paths::join_path(git_path.as_str(), "HEAD")),
        Some(contents) => match resolve_gitdir_file(contents, git_path.as_str(), path) {
            Ok(dir) => Ok(paths::join_path(dir.as_str(), "HEAD")),
            Err(e) => Err(e),
        },
    }
}

/// Begins to ask for the current branch of a workspace.
pub fn current_workspace_branch(path: &str) -> (r: Step<BranchQuery, String>)
    ensures
        r@ == workspaces::branch_start(path@),
{
    workspaces::git_current_branch(path)
}

/// The step that asks for the commit of a workspace.
pub open spec fn head_start(path: Seq<char>) -> StepView<HeadQueryView, Seq<char>> {
    StepView::Run(
        EffectView::RunGit { cwd: Some(path), args: seq!["rev-parse"@, "HEAD"@] },
        HeadQueryView::Asked,
    )
}

/// What asking for the commit of a workspace waits for.
#[derive(Debug)]
pub enum HeadQuery {
    Asked,
}

/// What a `HeadQuery` holds.
#[verifier::ext_equal]
pub enum HeadQueryView {
    Asked,
}

impl View for HeadQuery {
    type V = HeadQueryView;

    open spec fn view(&self) -> HeadQueryView {
        match self {
            HeadQuery::Asked => HeadQueryView::Asked,
        }
    }
}

impl DeepView for HeadQuery {
    type V = HeadQueryView;

    open spec fn deep_view(&self) -> HeadQueryView {
        self@
    }
}

impl Clone for HeadQuery {
    fn clone(&self) -> (r: Self)
        ensures
            r@ == self@,
    {
        match self {
            HeadQuery::Asked => HeadQuery::Asked,
        }
    }
}

/// The next step of asking for the commit of a workspace.
pub open spec fn head_next(s: HeadQueryView, reply: ReplyView) -> StepView<
    HeadQueryView,
    Seq<char>,
> {
    match reply {
        ReplyView::Output(output) => StepView::Finish(effects::git_outcome(output)),
        ReplyView::Failed(e) => StepView::Finish(Err(e)),
        _ => StepView::Mismatch,
    }
}

/// Begins to ask for the commit of a workspace.
pub fn current_workspace_head(path: &str) -> (r: Step<HeadQuery, String>)
    ensures
        r@ == head_start(path@),
{
    let args = vec!["rev-parse".to_owned(), "HEAD".to_owned()];
    proof {
        assert(args.deep_view() =~= seq!["rev-parse"@, "HEAD"@]);
    }
    Step::Run(Effect::RunGit { cwd: Some(path.to_owned()), args }, HeadQuery::Asked)
}

impl HeadQuery {
    /// Goes on once the reply is there.
    pub fn resume(self, reply: Reply) -> (r: Step<HeadQuery, String>)
        ensures
            r@ == head_next(self@, reply@),
    {
        match reply {
            Reply::Output(output) => Step::Finish(effects::git_result(&output)),
            Reply::Failed(e) => Step::Finish(Err(e)),
            _ => Step::Mismatch,
        }
    }
}

/// A command is called by the last component of its first word, and a session without a command
/// `session`. What runs in the foreground goes before it.
pub proof fn law_programs(dir: Seq<char>, name: Seq<char>, args: Seq<Seq<char>>, other: Seq<char>)
    requires
        dir.len() > 0,
        dir.last() != '/',
        dir.last() != '.',
        name.len() > 0,
        !name.contains('/'),
        name != seq!['.'],
        name != seq!['.', '.'],
    ensures
        program_of(seq![dir + seq!['/'] + name] + args) == name,
        program_of(seq![name] + args) == name,
        program_of(seq![]) == "session"@,
        shown_program(Some(other), args) == other,
        shown_program(None, args) == program_of(args),
{
    paths::law_names_come_off_again(dir, name, name);
    paths::law_names_at_the_root(name);
}

/// A session is shown by its identifier, its process, its program, its status, its log and its
/// socket; a workspace by its repository, its name, its branch, its path and its sessions.
pub proof fn law_entries(
    session: SessionView,
    foreground: Option<Seq<char>>,
    canonical: Seq<char>,
    workspace: WorkspaceView,
    sessions: Seq<SessionEntryView>,
)
    ensures
        ({
            let entry = entry_of(session, foreground);
            &&& entry.id == session.id
            &&& entry.pid == session.pid
            &&& entry.status == session.status
            &&& entry.log_path == session.log_path
            &&& entry.socket_path == session.socket_path
            &&& entry.program == shown_program(foreground, session.command)
            &&& workspace_entry(canonical, workspace, sessions) == (WorkspaceEntryView {
                repo_canonical: canonical,
                name: workspace.name,
                branch: workspace.branch,
                path: workspace.path,
                sessions,
            })
        }),
{
}

/// How long ago a time was: `just now` within a minute, then in minutes up to an hour, in hours
/// up to a day, in days up to a week, in weeks up to five, in months of thirty days up to twelve,
/// and then in years of 365 days, of which there is at least one.
pub proof fn law_elapsed_times(s: nat)
    ensures
        ({
            let told = |n: nat, one: Seq<char>, many: Seq<char>| if n == 1 {
                one
            } else {
                text::decimal(n) + many
            };
            let d = s / 86400;
            &&& s < 60 ==> elapsed_text(s) == "just now"@
            &&& 60 <= s < 3600 ==> elapsed_text(s) == told(
                s / 60,
                "1 minute ago"@,
                " minutes ago"@,
            )
            &&& 3600 <= s < 86400 ==> elapsed_text(s) == told(
                s / 3600,
                "1 hour ago"@,
                " hours ago"@,
            )
            &&& 1 <= d < 7 ==> elapsed_text(s) == told(d, "1 day ago"@, " days ago"@)
            &&& 7 <= d < 35 ==> elapsed_text(s) == told(d / 7, "1 week ago"@, " weeks ago"@)
            &&& 35 <= d < 360 ==> elapsed_text(s) == told(d / 30, "1 month ago"@, " months ago"@)
            &&& 360 <= d < 730 ==> elapsed_text(s) == "1 year ago"@
            &&& 730 <= d ==> elapsed_text(s) == text::decimal(d / 365) + " years ago"@
        }),
{
    lemma_ago_minute(s / 60);
    lemma_ago_hour(s / 3600);
    let d = s / 86400;
    lemma_ago_day(d);
    lemma_ago_week(d / 7);
    lemma_ago_month(d / 30);
    lemma_ago_year(d / 365);
    lemma_ago_year(1);
    assert(s < 86400 <==> d == 0);
    assert(730 <= d ==> d / 365 >= 2);
}

proof fn lemma_ago_minute(n: nat)
    ensures
        ago(n, "minute"@) == (if n == 1 {
            "1 minute ago"@
        } else {
            text::decimal(n) + " minutes ago"@
        }),
{
    reveal_strlit("1 ");
    reveal_strlit(" ago");
    reveal_strlit(" ");
    reveal_strlit("s ago");
    reveal_strlit("minute");
    reveal_strlit("1 minute ago");
    reveal_strlit(" minutes ago");
    assert("1 "@ + "minute"@ + " ago"@ =~= "1 minute ago"@);
    assert(text::decimal(n) + " "@ + "minute"@ + "s ago"@ =~= text::decimal(n) + " minutes ago"@);
}

proof fn lemma_ago_hour(n: nat)
    ensures
        ago(n, "hour"@) == (if n == 1 {
            "1 hour ago"@
        } else {
            text::decimal(n) + " hours ago"@
        }),
{
    reveal_strlit("1 ");
    reveal_strlit(" ago");
    reveal_strlit(" ");
    reveal_strlit("s ago");
    reveal_strlit("hour");
    reveal_strlit("1 hour ago");
    reveal_strlit(" hours ago");
    assert("1 "@ + "hour"@ + " ago"@ =~= "1 hour ago"@);
    assert(text::decimal(n) + " "@ + "hour"@ + "s ago"@ =~= text::decimal(n) + " hours ago"@);
}

proof fn lemma_ago_day(n: nat)
    ensures
        ago(n, "day"@) == (if n == 1 {
            "1 day ago"@
        } else {
            text::decimal(n) + " days ago"@
        }),
{
    reveal_strlit("1 ");
    reveal_strlit(" ago");
    reveal_strlit(" ");
    reveal_strlit("s ago");
    reveal_strlit("day");
    reveal_strlit("1 day ago");
    reveal_strlit(" days ago");
    assert("1 "@ + "day"@ + " ago"@ =~= "1 day ago"@);
    assert(text::decimal(n) + " "@ + "day"@ + "s ago"@ =~= text::decimal(n) + " days ago"@);
}

proof fn lemma_ago_week(n: nat)
    ensures
        ago(n, "week"@) == (if n == 1 {
            "1 week ago"@
        } else {
            text::decimal(n) + " weeks ago"@
        }),
{
    reveal_strlit("1 ");
    reveal_strlit(" ago");
    reveal_strlit(" ");
    reveal_strlit("s ago");
    reveal_strlit("week");
    reveal_strlit("1 week ago");
    reveal_strlit(" weeks ago");
    assert("1 "@ + "week"@ + " ago"@ =~= "1 week ago"@);
    assert(text::decimal(n) + " "@ + "week"@ + "s ago"@ =~= text::decimal(n) + " weeks ago"@);
}

proof fn lemma_ago_month(n: nat)
    ensures
        ago(n, "month"@) == (if n == 1 {
            "1 month ago"@
        } else {
            text::decimal(n) + " months ago"@
        }),
{
    reveal_strlit("1 ");
    reveal_strlit(" ago");
    reveal_strlit(" ");
    reveal_strlit("s ago");
    reveal_strlit("month");
    reveal_strlit("1 month ago");
    reveal_strlit(" months ago");
    assert("1 "@ + "month"@ + " ago"@ =~= "1 month ago"@);
    assert(text::decimal(n) + " "@ + "month"@ + "s ago"@ =~= text::decimal(n) + " months ago"@);
}

proof fn lemma_ago_year(n: nat)
    ensures
        ago(n, "year"@) == (if n == 1 {
            "1 year ago"@
        } else {
            text::decimal(n) + " years ago"@
        }),
{
    reveal_strlit("1 ");
    reveal_strlit(" ago");
    reveal_strlit(" ");
    reveal_strlit("s ago");
    reveal_strlit("year");
    reveal_strlit("1 year ago");
    reveal_strlit(" years ago");
    assert("1 "@ + "year"@ + " ago"@ =~= "1 year ago"@);
    assert(text::decimal(n) + " "@ + "year"@ + "s ago"@ =~= text::decimal(n) + " years ago"@);
}

/// A time that is still to come counts as now.
pub proof fn law_times_to_come(seconds: u64)
    ensures
        sync_time_text(None) == "just now"@,
        sync_time_text(Some(seconds)) == elapsed_text(seconds as nat),
{
}

/// The files whose age tells when a bare clone was synced.
pub proof fn law_sync_markers_written_out(bare: Seq<char>)
    requires
        bare.len() > 0,
        bare.last() != '/',
    ensures
        sync_markers(bare) == seq![
            bare + "/FETCH_HEAD"@,
            bare + "/HEAD"@,
            bare + "/refs/remotes/origin/HEAD"@,
        ],
{
    reveal_strlit("FETCH_HEAD");
    reveal_strlit("/FETCH_HEAD");
    reveal_strlit("HEAD");
    reveal_strlit("/HEAD");
    reveal_strlit("refs");
    reveal_strlit("remotes");
    reveal_strlit("origin");
    reveal_strlit("/refs/remotes/origin/HEAD");
    assert(bare.push('/') + "FETCH_HEAD"@ =~= bare + "/FETCH_HEAD"@);
    assert(bare.push('/') + "HEAD"@ =~= bare + "/HEAD"@);
    let a = bare.push('/') + "refs"@;
    assert(a.last() == 's');
    let b = a.push('/') + "remotes"@;
    assert(b.last() == 's');
    let c = b.push('/') + "origin"@;
    assert(c.last() == 'n');
    assert(c.push('/') + "HEAD"@ =~= bare + "/refs/remotes/origin/HEAD"@);
}

/// Whether a text is one word.
pub open spec fn one_word(s: Seq<char>) -> bool {
    s.len() > 0 && !text::has_whitespace(s)
}

proof fn lemma_word_first(word: Seq<char>, rest: Seq<char>)
    requires
        one_word(word),
    ensures
        text::word_list(word + seq![' '] + rest) == seq![word] + text::word_list(rest),
{
    let none = Seq::<char>::empty();
    assert(text::whitespace(' '));
    text::law_cutting_into_words(none, word, ' ', rest);
    assert(none + word + seq![' '] + rest =~= word + seq![' '] + rest);
}

proof fn lemma_number_word(n: i32)
    ensures
        one_word(text::signed_decimal(n as int)),
        !text::signed_decimal(n as int).contains(')'),
        number_field(text::signed_decimal(n as int)) == Some(n as int),
{
    let s = text::signed_decimal(n as int);
    text::law_numbers_read_back(n as int, i32::MIN as int, i32::MAX as int);
    text::law_only_digits_are_numbers(s);
    assert forall|i: int| 0 <= i < s.len() implies !text::whitespace(#[trigger] s[i]) && s[i]
        != ')' by {
        if i > 0 {
            assert('0' <= s[i] <= '9');
        }
    }
}

/// What the kernel tells of a process is its number, its name in brackets, which may hold
/// brackets and blanks itself, and then fields with a blank between them: behind its state come
/// its parent, its process group, its session, its terminal and the foreground's process group.
#[verifier::rlimit(40)]
pub proof fn law_process_files_are_read(
    number: Seq<char>,
    name: Seq<char>,
    state: Seq<char>,
    parent: i32,
    pgrp: i32,
    session: i32,
    tty_nr: i32,
    tpgid: i32,
    rest: Seq<char>,
)
    requires
        one_word(state),
        !state.contains(')'),
        !rest.contains(')'),
    ensures
        ({
            let n = |i: i32| text::signed_decimal(i as int);
            let tail = state + seq![' '] + (n(parent) + seq![' '] + (n(pgrp) + seq![' '] + (n(
                session,
            ) + seq![' '] + (n(tty_nr) + seq![' '] + (n(tpgid) + seq![' '] + rest)))));
            proc_stat(number + seq!['('] + name + seq![')', ' '] + tail) == Some(
                ProcStat { pgrp, tty_nr, tpgid },
            )
        }),
{
    let n = |i: i32| text::signed_decimal(i as int);
    lemma_number_word(parent);
    lemma_number_word(pgrp);
    lemma_number_word(session);
    lemma_number_word(tty_nr);
    lemma_number_word(tpgid);
    let t5 = n(tpgid) + seq![' '] + rest;
    let t4 = n(tty_nr) + seq![' '] + t5;
    let t3 = n(session) + seq![' '] + t4;
    let t2 = n(pgrp) + seq![' '] + t3;
    let t1 = n(parent) + seq![' '] + t2;
    let tail = state + seq![' '] + t1;
    lemma_word_first(n(tpgid), rest);
    lemma_word_first(n(tty_nr), t5);
    lemma_word_first(n(session), t4);
    lemma_word_first(n(pgrp), t3);
    lemma_word_first(n(parent), t2);
    lemma_word_first(state, t1);
    let words = text::word_list(tail);
    assert(words.len() >= 6);
    assert(words[2] == n(pgrp) && words[4] == n(tty_nr) && words[5] == n(tpgid));
    lemma_no_bracket(n(tpgid), rest);
    lemma_no_bracket(n(tty_nr), t5);
    lemma_no_bracket(n(session), t4);
    lemma_no_bracket(n(pgrp), t3);
    lemma_no_bracket(n(parent), t2);
    lemma_no_bracket(state, t1);
    let head = number + seq!['('] + name;
    let contents = number + seq!['('] + name + seq![')', ' '] + tail;
    let at = head.len() as int;
    assert(contents[at] == ')');
    assert forall|j: int| at < j < contents.len() implies contents[j] != ')' by {
        if j > at + 1 {
            assert(tail.contains(tail[j - at - 2]));
        }
    }
    text::lemma_last_index_of_is(contents, ')', at);
    assert(contents[number.len() as int] == '(');
    assert(contents.contains('('));
    let behind = contents.skip(at + 1);
    assert(behind[0] == ' ');
    assert(behind.skip(1) =~= tail);
}

proof fn lemma_no_bracket(word: Seq<char>, rest: Seq<char>)
    requires
        !word.contains(')'),
        !rest.contains(')'),
    ensures
        !(word + seq![' '] + rest).contains(')'),
{
    let s = word + seq![' '] + rest;
    if s.contains(')') {
        let k = choose|k: int| 0 <= k < s.len() && s[k] == ')';
        if k < word.len() {
            assert(word.contains(word[k]));
        } else if k > word.len() {
            assert(rest.contains(rest[k - word.len() - 1]));
        }
    }
}

/// A process without a terminal, or whose terminal has nobody in the foreground, has no program
/// there; one that is in the foreground itself is found at itself, and any other elsewhere.
pub proof fn law_places_of_the_foreground(stat: ProcStat)
    ensures
        foreground_of(stat) == Foreground::Nobody <==> stat.tpgid <= 0 || stat.tty_nr == 0,
        foreground_of(stat) == Foreground::Own <==> stat.tpgid > 0 && stat.tty_nr != 0
            && stat.tpgid == stat.pgrp,
        foreground_of(stat) == Foreground::Other <==> stat.tpgid > 0 && stat.tty_nr != 0
            && stat.tpgid != stat.pgrp,
{
}

/// The programs whose script is told in their place.
pub proof fn law_interpreters(name: Seq<char>)
    ensures
        interpreter(name) <==> seq![
            "python"@,
            "python3"@,
            "bash"@,
            "sh"@,
            "zsh"@,
            "node"@,
            "ruby"@,
        ].contains(name),
{
    let all = seq!["python"@, "python3"@, "bash"@, "sh"@, "zsh"@, "node"@, "ruby"@];
    assert(all[0] == "python"@ && all[1] == "python3"@ && all[2] == "bash"@ && all[3] == "sh"@
        && all[4] == "zsh"@ && all[5] == "node"@ && all[6] == "ruby"@);
}

/// The first operand is the first argument that does not begin with a `-`.
pub proof fn law_first_operands(
    options: Seq<Seq<char>>,
    operand: Seq<char>,
    rest: Seq<Seq<char>>,
)
    requires
        forall|i: int|
            0 <= i < options.len() ==> (#[trigger] options[i]).len() > 0 && options[i][0] == '-',
        operand.len() == 0 || operand[0] != '-',
    ensures
        first_operand(options + seq![operand] + rest) == Some(operand),
        first_operand(options) is None,
    decreases options.len(),
{
    reveal_strlit("-");
    let all = options + seq![operand] + rest;
    if options.len() == 0 {
        assert(all[0] == operand);
        assert(!"-"@.is_prefix_of(operand)) by {
            if "-"@.is_prefix_of(operand) {
                assert("-"@[0] == operand.subrange(0, 1)[0]);
            }
        }
    } else {
        assert(all[0] == options[0]);
        assert("-"@ =~= options[0].subrange(0, 1));
        assert("-"@.is_prefix_of(options[0]));
        assert(all.skip(1) =~= options.skip(1) + seq![operand] + rest);
        assert forall|i: int| 0 <= i < options.skip(1).len() implies (
        #[trigger] options.skip(1)[i]).len() > 0 && options.skip(1)[i][0] == '-' by {
            assert(options.skip(1)[i] == options[i + 1]);
        }
        law_first_operands(options.skip(1), operand, rest);
    }
}

/// A command line is called by its program, and an interpreter by the script that it runs.
pub proof fn law_names_of_command_lines(
    program: Seq<char>,
    options: Seq<Seq<char>>,
    script: Seq<char>,
    rest: Seq<Seq<char>>,
    name: Seq<char>,
    called: Seq<char>,
)
    requires
        paths::last_name(program) == Some(name),
        paths::last_name(script) == Some(called),
        forall|i: int|
            0 <= i < options.len() ==> (#[trigger] options[i]).len() > 0 && options[i][0] == '-',
        script.len() == 0 || script[0] != '-',
    ensures
        ({
            let line = seq![program] + options + seq![script] + rest;
            &&& interpreter(name) ==> command_label(line) == Some(called)
            &&& !interpreter(name) ==> command_label(line) == Some(name)
            &&& command_label(seq![program] + options) == Some(name)
            &&& command_label(seq![]) is None
        }),
{
    let line = seq![program] + options + seq![script] + rest;
    assert(line.skip(1) =~= options + seq![script] + rest);
    assert((seq![program] + options).skip(1) =~= options);
    law_first_operands(options, script, rest);
}

proof fn lemma_zero_parts_one(part: Seq<u8>)
    requires
        part.len() > 0,
        forall|i: int| 0 <= i < part.len() ==> #[trigger] part[i] != 0,
    ensures
        zero_parts(part) == seq![part],
{
    lemma_tail_len(part, part.len() as int);
    assert(part.take(0) =~= Seq::<u8>::empty());
    assert(part.skip(0) =~= part);
    assert(zero_parts(part.take(0)) =~= Seq::<Seq<u8>>::empty());
    assert(zero_parts(part) =~= seq![part]);
}

/// The arguments of a command line stand between zeros: an argument behind a zero, with or
/// without a zero behind it, is the last one, and zeros alone hold none.
pub proof fn law_arguments_stand_between_zeros(front: Seq<u8>, part: Seq<u8>)
    requires
        part.len() > 0,
        forall|i: int| 0 <= i < part.len() ==> #[trigger] part[i] != 0,
    ensures
        zero_parts(seq![]) == Seq::<Seq<u8>>::empty(),
        zero_parts(part) == seq![part],
        zero_parts(front + seq![0u8]) == zero_parts(front),
        zero_parts(front + seq![0u8] + part) == zero_parts(front) + seq![part],
{
    lemma_zero_parts_one(part);
    let closed = front + seq![0u8];
    assert(closed.drop_last() =~= front);
    let all = front + seq![0u8] + part;
    let n = part.len() as int;
    assert forall|j: int| all.len() - n <= j < all.len() implies all[j] != 0 by {
        assert(all[j] == part[j - (all.len() - n)]);
    }
    assert(all[all.len() - n - 1] == 0);
    lemma_tail_len(all, n);
    assert(all.take(all.len() - n) =~= closed);
    assert(all.skip(all.len() - n) =~= part);
    assert(all.last() == part.last());
    assert(zero_parts(front).push(part) =~= zero_parts(front) + seq![part]);
}

/// A process is called by its command line, else by the file that it runs, else by its short
/// name without white space around it; a blank short name is none.
pub proof fn law_names_of_processes(
    command: Seq<char>,
    executable: Seq<char>,
    file: Seq<char>,
    comm: Seq<char>,
)
    requires
        paths::last_name(executable) == Some(file),
    ensures
        process_label_of(Some(command), Some(executable), Some(comm)) == Some(command),
        process_label_of(None, Some(executable), Some(comm)) == Some(file),
        !text::blank(comm) ==> process_label_of(None, None, Some(comm)) == Some(
            text::trimmed(comm),
        ),
        text::blank(comm) ==> process_label_of(None, None, Some(comm)) is None,
        process_label_of(None, None, None) is None,
{
    text::lemma_trimmed_blank(comm);
}

/// The head of a workspace is in its directory `.git`, or in the directory that the file `.git`
/// names behind `gitdir: `; any other file is an error with its path.
pub proof fn law_heads_of_workspaces(
    path: Seq<char>,
    dir: Seq<char>,
    back: Seq<char>,
    other: Seq<char>,
)
    requires
        path.len() > 0,
        path.last() != '/',
        dir.len() > 0,
        dir[0] == '/',
        dir.last() != '/',
        !text::whitespace(dir.last()),
        text::blank(back),
        !"gitdir: "@.is_prefix_of(other),
    ensures
        head_path(path, None) == Ok::<_, SwarmErrorView>(path + "/.git/HEAD"@),
        head_path(path, Some("gitdir: "@ + dir + back)) == Ok::<_, SwarmErrorView>(
            dir + "/HEAD"@,
        ),
        head_path(path, Some(other)) == Err::<Seq<char>, _>(
            SwarmErrorView::Git("invalid gitdir file at "@ + path + "/.git"@),
        ),
        head_path(path, Some("gitdir: "@ + back)) == Err::<Seq<char>, _>(
            SwarmErrorView::Git("invalid gitdir file at "@ + path + "/.git"@),
        ),
{
    reveal_strlit(".git");
    reveal_strlit("/.git");
    reveal_strlit("HEAD");
    reveal_strlit("/HEAD");
    reveal_strlit("/.git/HEAD");
    let git = path.push('/') + ".git"@;
    assert(git =~= path + "/.git"@);
    assert(git.last() == 't');
    assert(git.push('/') + "HEAD"@ =~= path + "/.git/HEAD"@);
    assert("invalid gitdir file at "@ + git =~= "invalid gitdir file at "@ + path + "/.git"@);
    let none = Seq::<char>::empty();
    text::law_trimming_keeps_the_inside(none, dir, back);
    assert(none + dir + back =~= dir + back);
    text::law_prefixes_and_suffixes("gitdir: "@, dir + back);
    assert("gitdir: "@ + dir + back =~= "gitdir: "@ + (dir + back));
    text::law_prefixes_and_suffixes("gitdir: "@, back);
    text::lemma_trimmed_blank(back);
    assert(dir.push('/') + "HEAD"@ =~= dir + "/HEAD"@);
    text::law_prefixes_and_suffixes("gitdir: "@, other);
}

/// The commit of a workspace is asked for in its checkout, and is what git answers without white
/// space around it.
pub proof fn law_commits_are_asked_for(path: Seq<char>, output: effects::CommandOutputView)
    ensures
        head_start(path) matches StepView::Run(effect, s) && effect == (EffectView::RunGit {
            cwd: Some(path),
            args: seq!["rev-parse"@, "HEAD"@],
        }),
        output.success ==> head_next(HeadQueryView::Asked, ReplyView::Output(output)) == StepView::<
            HeadQueryView,
            Seq<char>,
        >::Finish(Ok(text::trimmed(text::lossy_text(output.stdout)))),
{
}

/// The process that stands for the foreground is one on the same terminal, in the group that is
/// in the foreground there: the one that leads the group where it is among them, and else the
/// one with the smallest number.
pub proof fn law_process_in_the_foreground(
    stat: ProcStat,
    processes: Seq<Process>,
    k: int,
    pid: u32,
)
    requires
        0 <= k < processes.len(),
        processes[k].stat.tty_nr == stat.tty_nr,
        processes[k].stat.pgrp == stat.tpgid,
        stands_for_foreground(stat, processes, pid),
    ensures
        processes[k].pid == stat.tpgid as u32 ==> pid == processes[k].pid,
        pid == stat.tpgid as u32 || pid <= processes[k].pid,
        exists|i: int|
            0 <= i < processes.len() && (#[trigger] processes[i]).pid == pid
                && processes[i].stat.tty_nr == stat.tty_nr && processes[i].stat.pgrp == stat.tpgid,
{
    assert(in_foreground(stat, processes[k]));
}

/// A command line is called by the arguments between its zeros, and by nothing where one of
/// them is no text.
#[verifier::spinoff_prover]
#[verifier::rlimit(40)]
pub proof fn law_command_lines_are_called(front: Seq<u8>, program: Seq<u8>, part: Seq<u8>)
    requires
        program.len() > 0,
        part.len() > 0,
        forall|i: int| 0 <= i < program.len() ==> #[trigger] program[i] != 0,
        forall|i: int| 0 <= i < part.len() ==> #[trigger] part[i] != 0,
    ensures
        vstd::utf8::valid_utf8(program) ==> cmdline_label(program + seq![0u8]) == command_label(
            seq![vstd::utf8::decode_utf8(program)],
        ),
        vstd::utf8::valid_utf8(program) && vstd::utf8::valid_utf8(part) ==> cmdline_label(
            program + seq![0u8] + part + seq![0u8],
        ) == command_label(
            seq![vstd::utf8::decode_utf8(program), vstd::utf8::decode_utf8(part)],
        ),
        !vstd::utf8::valid_utf8(part) ==> cmdline_label(front + seq![0u8] + part) is None,
{
    law_arguments_stand_between_zeros(program, part);
    lemma_zero_parts_one(program);
    law_arguments_stand_between_zeros(program + seq![0u8] + part, part);
    law_arguments_stand_between_zeros(front, part);
    assert(seq![program] + seq![part] =~= seq![program, part]);
    if vstd::utf8::valid_utf8(program) {
        lemma_decoded_one(program);
        if vstd::utf8::valid_utf8(part) {
            lemma_decoded_two(program, part);
        }
    }
    lemma_not_decoded(zero_parts(front), part);
}

proof fn lemma_decoded_one(program: Seq<u8>)
    requires
        vstd::utf8::valid_utf8(program),
    ensures
        all_decoded(seq![program]) == Some(seq![vstd::utf8::decode_utf8(program)]),
{
    let parts = seq![program];
    assert(Seq::new(parts.len(), |i: int| vstd::utf8::decode_utf8(parts[i])) =~= seq![
        vstd::utf8::decode_utf8(program),
    ]);
}

proof fn lemma_decoded_two(program: Seq<u8>, part: Seq<u8>)
    requires
        vstd::utf8::valid_utf8(program),
        vstd::utf8::valid_utf8(part),
    ensures
        all_decoded(seq![program, part]) == Some(
            seq![vstd::utf8::decode_utf8(program), vstd::utf8::decode_utf8(part)],
        ),
{
    let parts = seq![program, part];
    assert(Seq::new(parts.len(), |i: int| vstd::utf8::decode_utf8(parts[i])) =~= seq![
        vstd::utf8::decode_utf8(program),
        vstd::utf8::decode_utf8(part),
    ]);
}

proof fn lemma_not_decoded(parts: Seq<Seq<u8>>, part: Seq<u8>)
    ensures
        !vstd::utf8::valid_utf8(part) ==> all_decoded(parts + seq![part]) is None,
{
    let all = parts + seq![part];
    assert(all[parts.len() as int] == part);
}

} // verus!
