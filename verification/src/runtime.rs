//! The runtime of a session: the loop that serves its terminal, the loop that
//! attaches a user to it, and what its process needs.

use crate::error::{SwarmError, SwarmErrorView};
use crate::paths;
use crate::text;
use vstd::prelude::*;

verus! {

/// The files of a session that is served.
#[derive(Debug)]
pub struct ServePaths {
    pub socket_path: String,
    pub log_path: String,
    pub pid_path: String,
    pub meta_path: String,
    pub ready_path: String,
}

/// What a `ServePaths` holds.
#[verifier::ext_equal]
pub struct ServePathsView {
    pub socket_path: Seq<char>,
    pub log_path: Seq<char>,
    pub pid_path: Seq<char>,
    pub meta_path: Seq<char>,
    pub ready_path: Seq<char>,
}

impl View for ServePaths {
    type V = ServePathsView;

    open spec fn view(&self) -> ServePathsView {
        ServePathsView {
            socket_path: self.socket_path@,
            log_path: self.log_path@,
            pid_path: self.pid_path@,
            meta_path: self.meta_path@,
            ready_path: self.ready_path@,
        }
    }
}

impl DeepView for ServePaths {
    type V = ServePathsView;

    open spec fn deep_view(&self) -> ServePathsView {
        self@
    }
}

impl Clone for ServePaths {
    fn clone(&self) -> (r: Self)
        ensures
            r@ == self@,
    {
        ServePaths {
            socket_path: self.socket_path.clone(),
            log_path: self.log_path.clone(),
            pid_path: self.pid_path.clone(),
            meta_path: self.meta_path.clone(),
            ready_path: self.ready_path.clone(),
        }
    }
}

/// The files in the directory of a session.
pub open spec fn serve_paths_in(dir: Seq<char>) -> ServePathsView {
    ServePathsView {
        socket_path: paths::joined_path(dir, "sock"@),
        log_path: paths::joined_path(dir, "log"@),
        pid_path: paths::joined_path(dir, "child.pid"@),
        meta_path: paths::joined_path(dir, "meta.toml"@),
        ready_path: paths::joined_path(dir, "ready"@),
    }
}

/// The files of a session that is to be served. A session needs a command.
pub fn serve_runtime(session_dir: &str, command: &Vec<String>) -> (r: Result<
    ServePaths,
    SwarmError,
>)
    ensures
        match r {
            Ok(paths) => command@.len() > 0 && paths@ == serve_paths_in(session_dir@),
            Err(e) => command@.len() == 0 && e@ == SwarmErrorView::InvalidSession(
                "missing command"@,
            ),
        },
{
    if command.len() == 0 {
        return Err(SwarmError::InvalidSession("missing command".to_owned()));
    }
    Ok(
        ServePaths {
            socket_path: paths::join_path(session_dir, "sock"),
            log_path: paths::join_path(session_dir, "log"),
            pid_path: paths::join_path(session_dir, "child.pid"),
            meta_path: paths::join_path(session_dir, "meta.toml"),
            ready_path: paths::join_path(session_dir, "ready"),
        },
    )
}

/// What a failed system call says: that there is no such process, that it is
/// not permitted, that there is no such child, or something else.
#[derive(Debug, Clone, Copy, PartialEq, Eq, Structural)]
pub enum ProcessError {
    NoSuchProcess,
    NotPermitted,
    NoChild,
    Other,
}

/// A system call that failed, with its message.
#[derive(Debug)]
pub struct CallFailure {
    pub error: ProcessError,
    pub message: String,
}

/// What a `CallFailure` holds.
#[verifier::ext_equal]
pub struct CallFailureView {
    pub error: ProcessError,
    pub message: Seq<char>,
}

impl View for CallFailure {
    type V = CallFailureView;

    open spec fn view(&self) -> CallFailureView {
        CallFailureView {
            error: self.error,
            message: self.message@,
        }
    }
}

impl DeepView for CallFailure {
    type V = CallFailureView;

    open spec fn deep_view(&self) -> CallFailureView {
        self@
    }
}

impl Clone for CallFailure {
    fn clone(&self) -> (r: Self)
        ensures
            r@ == self@,
    {
        CallFailure {
            error: self.error,
            message: self.message.clone(),
        }
    }
}

/// Whether the request to end a process was met. A process that is gone needs
/// no end.
pub open spec fn terminated(outcome: Option<CallFailureView>) -> Result<(), SwarmErrorView> {
    match outcome {
        None => Ok(()),
        Some(failure) => if failure.error == ProcessError::NoSuchProcess {
            Ok(())
        } else {
            Err(SwarmErrorView::Io(failure.message))
        },
    }
}

/// Decides whether the request to end a process was met.
pub fn terminate_process(outcome: Option<CallFailure>) -> (r: Result<(), SwarmError>)
    ensures
        crate::error::result_view(r) == terminated(outcome.deep_view()),
{
    match outcome {
        None => Ok(()),
        Some(failure) => if failure.error == ProcessError::NoSuchProcess {
            Ok(())
        } else {
            Err(SwarmError::Io(failure.message))
        },
    }
}

/// Whether a process exists, from the attempt to signal it. One that may not be
/// signalled exists.
pub open spec fn existence(outcome: Option<CallFailureView>) -> Result<bool, SwarmErrorView> {
    match outcome {
        None => Ok(true),
        Some(failure) => match failure.error {
            ProcessError::NoSuchProcess => Ok(false),
            ProcessError::NotPermitted => Ok(true),
            _ => Err(SwarmErrorView::Io(failure.message)),
        },
    }
}

/// Decides whether a process exists.
pub fn process_exists(outcome: Option<CallFailure>) -> (r: Result<bool, SwarmError>)
    ensures
        crate::error::result_view(r) == existence(outcome.deep_view()),
{
    match outcome {
        None => Ok(true),
        Some(failure) => match failure.error {
            ProcessError::NoSuchProcess => Ok(false),
            ProcessError::NotPermitted => Ok(true),
            _ => Err(SwarmError::Io(failure.message)),
        },
    }
}

/// What waiting for a child gave: it still runs, it ended with a status, or the
/// wait failed.
#[derive(Debug)]
pub enum WaitOutcome {
    Running,
    Ended(i32),
    Failed(CallFailure),
}

/// What a `WaitOutcome` holds.
#[verifier::ext_equal]
pub enum WaitOutcomeView {
    Running,
    Ended(i32),
    Failed(CallFailureView),
}

impl View for WaitOutcome {
    type V = WaitOutcomeView;

    open spec fn view(&self) -> WaitOutcomeView {
        match self {
            WaitOutcome::Running => WaitOutcomeView::Running,
            WaitOutcome::Ended(a) => WaitOutcomeView::Ended(*a),
            WaitOutcome::Failed(a) => WaitOutcomeView::Failed(a@),
        }
    }
}

impl DeepView for WaitOutcome {
    type V = WaitOutcomeView;

    open spec fn deep_view(&self) -> WaitOutcomeView {
        self@
    }
}

impl Clone for WaitOutcome {
    fn clone(&self) -> (r: Self)
        ensures
            r@ == self@,
    {
        match self {
            WaitOutcome::Running => WaitOutcome::Running,
            WaitOutcome::Ended(a) => WaitOutcome::Ended(*a),
            WaitOutcome::Failed(a) => WaitOutcome::Failed(a.clone()),
        }
    }
}

/// The status of a child that has ended. A child that is not known ended with
/// nothing to report.
pub open spec fn reaped(outcome: WaitOutcomeView) -> Result<Option<i32>, SwarmErrorView> {
    match outcome {
        WaitOutcomeView::Running => Ok(None),
        WaitOutcomeView::Ended(status) => Ok(Some(status)),
        WaitOutcomeView::Failed(failure) => if failure.error == ProcessError::NoChild {
            Ok(Some(0))
        } else {
            Err(SwarmErrorView::Io(failure.message))
        },
    }
}

/// Decides whether a child has ended.
pub fn reap_process(outcome: WaitOutcome) -> (r: Result<Option<i32>, SwarmError>)
    ensures
        match r {
            Ok(status) => reaped(outcome@) == Ok::<_, SwarmErrorView>(status),
            Err(e) => reaped(outcome@) == Err::<Option<i32>, _>(e@),
        },
{
    match outcome {
        WaitOutcome::Running => Ok(None),
        WaitOutcome::Ended(status) => Ok(Some(status)),
        WaitOutcome::Failed(failure) => if failure.error == ProcessError::NoChild {
            Ok(Some(0))
        } else {
            Err(SwarmError::Io(failure.message))
        },
    }
}

/// The signal bits of a wait status.
pub open spec fn signal_bits(status: i32) -> i32 {
    status & 0x7f
}

/// `libc::WIFEXITED` on Linux: no signal bit is set.
#[verifier::external_body]
fn exited_normally(status: i32) -> (r: bool)
    ensures
        r == (signal_bits(status) == 0),
{
    libc::WIFEXITED(status)
}

/// `libc::WEXITSTATUS` on Linux: the second byte of the status.
#[verifier::external_body]
fn exit_status(status: i32) -> (r: i32)
    ensures
        r == (status >> 8) & 0xff,
{
    libc::WEXITSTATUS(status)
}

/// `libc::WIFSIGNALED` on Linux: some signal bit is set, and not all of them.
#[verifier::external_body]
fn ended_by_signal(status: i32) -> (r: bool)
    ensures
        r == (signal_bits(status) != 0 && signal_bits(status) != 0x7f),
{
    libc::WIFSIGNALED(status)
}

/// `libc::WTERMSIG` on Linux: the signal bits.
#[verifier::external_body]
fn ending_signal(status: i32) -> (r: i32)
    ensures
        r == signal_bits(status),
{
    libc::WTERMSIG(status)
}

/// The exit code in a wait status: that of a process that exited, or 128 and the
/// signal that ended it. One that was only stopped has none.
pub open spec fn exit_code_in(status: i32) -> Option<i32> {
    let bits = signal_bits(status);
    if bits == 0 {
        Some((status >> 8) & 0xff)
    } else if bits != 0x7f {
        Some((128 + bits) as i32)
    } else {
        None
    }
}

/// The exit code in a wait status.
pub fn decode_wait_status(status: i32) -> (r: Option<i32>)
    ensures
        r == exit_code_in(status),
{
    if exited_normally(status) {
        return Some(exit_status(status));
    }
    if ended_by_signal(status) {
        let signal: i32 = ending_signal(status);
        proof {
            assert(0 <= status & 0x7f <= 127) by (bit_vector);
        }
        return Some(128 + signal);
    }
    None
}

/// The size of a terminal.
#[derive(Debug, Clone, Copy, PartialEq, Eq, Structural)]
pub struct WindowSize {
    pub rows: u16,
    pub cols: u16,
    pub width: u16,
    pub height: u16,
}

/// The size of a session's terminal: that of the present one, else 24 rows of 80
/// columns.
pub open spec fn initial_window(present: Option<WindowSize>) -> WindowSize {
    match present {
        Some(size) => size,
        None => WindowSize { rows: 24, cols: 80, width: 0, height: 0 },
    }
}

/// The size of a session's terminal.
pub fn initial_window_size(present: Option<WindowSize>) -> (r: WindowSize)
    ensures
        r == initial_window(present),
{
    match present {
        Some(size) => size,
        None => WindowSize { rows: 24, cols: 80, width: 0, height: 0 },
    }
}

/// A variable of a process's environment, and whether it replaces one that is
/// set.
#[derive(Debug)]
pub struct Variable {
    pub name: String,
    pub value: String,
    pub replace: bool,
}

/// What a `Variable` holds.
#[verifier::ext_equal]
pub struct VariableView {
    pub name: Seq<char>,
    pub value: Seq<char>,
    pub replace: bool,
}

impl View for Variable {
    type V = VariableView;

    open spec fn view(&self) -> VariableView {
        VariableView {
            name: self.name@,
            value: self.value@,
            replace: self.replace,
        }
    }
}

impl DeepView for Variable {
    type V = VariableView;

    open spec fn deep_view(&self) -> VariableView {
        self@
    }
}

impl Clone for Variable {
    fn clone(&self) -> (r: Self)
        ensures
            r@ == self@,
    {
        Variable {
            name: self.name.clone(),
            value: self.value.clone(),
            replace: self.replace,
        }
    }
}

/// The prompt of a shell in a workspace.
pub open spec fn prompt_in(cwd: Seq<char>) -> Option<Seq<char>> {
    match paths::last_name(cwd) {
        Some(name) => Some(name + "> "@),
        None => None,
    }
}

/// The prompt of a shell in a workspace.
pub fn workspace_prompt(cwd: &str) -> (r: Option<String>)
    ensures
        r.deep_view() == prompt_in(cwd@),
{
    match paths::file_name(cwd) {
        Some(name) => {
            let mut out = name;
            out.append("> ");
            Some(out)
        },
        None => None,
    }
}

/// The directory that the workspaces of a repository share for what they build.
pub open spec fn shared_target(cwd: Seq<char>) -> Option<Seq<char>> {
    match paths::parent_path(cwd) {
        Some(workspaces) => match paths::parent_path(workspaces) {
            Some(repo) => Some(paths::joined_path(repo, "target"@)),
            None => None,
        },
        None => None,
    }
}

/// The directory that the workspaces of a repository share for what they build.
pub fn shared_target_dir(cwd: &str) -> (r: Option<String>)
    ensures
        r.deep_view() == shared_target(cwd@),
{
    match paths::parent(cwd) {
        Some(workspaces) => match paths::parent(workspaces.as_str()) {
            Some(repo) => Some(paths::join_path(repo.as_str(), "target")),
            None => None,
        },
        None => None,
    }
}

/// A variable, unless its value cannot be one: no value holds the character
/// zero.
pub open spec fn variable(
    name: Seq<char>,
    value: Option<Seq<char>>,
    replace: bool,
) -> Seq<VariableView> {
    match value {
        Some(value) => if value.contains('\0') {
            seq![]
        } else {
            seq![VariableView { name, value, replace }]
        },
        None => seq![],
    }
}

/// What the environment of a session's process gets: the prompt of the
/// workspace, and, where the workspace holds a cargo manifest, the shared build
/// directory unless another one is set.
pub open spec fn session_environment(cwd: Seq<char>, has_manifest: bool) -> Seq<VariableView> {
    variable("PS1"@, prompt_in(cwd), true) + if has_manifest {
        variable("CARGO_TARGET_DIR"@, shared_target(cwd), false)
    } else {
        seq![]
    }
}

fn push_variable(out: &mut Vec<Variable>, name: &str, value: Option<String>, replace: bool)
    ensures
        final(out).deep_view() == old(out).deep_view() + variable(
            name@,
            value.deep_view(),
            replace,
        ),
{
    let ghost before = out.deep_view();
    if let Some(value) = value {
        if !text::contains_char(value.as_str(), '\0') {
            let ghost added = VariableView { name: name@, value: value@, replace };
            out.push(Variable { name: name.to_owned(), value, replace });
            proof {
                assert(out.deep_view() =~= before + seq![added]);
            }
        } else {
            proof {
                assert(before + Seq::<VariableView>::empty() =~= before);
            }
        }
    } else {
        proof {
            assert(before + Seq::<VariableView>::empty() =~= before);
        }
    }
}

/// What the environment of a session's process gets.
pub fn child_environment(cwd: &str, has_manifest: bool) -> (r: Vec<Variable>)
    ensures
        r.deep_view() == session_environment(cwd@, has_manifest),
{
    let mut out: Vec<Variable> = Vec::new();
    proof {
        assert(out.deep_view() =~= seq![]);
    }
    push_variable(&mut out, "PS1", workspace_prompt(cwd), true);
    let ghost prompt = out.deep_view();
    proof {
        assert(prompt =~= variable("PS1"@, prompt_in(cwd@), true));
    }
    if has_manifest {
        push_variable(&mut out, "CARGO_TARGET_DIR", shared_target_dir(cwd), false);
    } else {
        proof {
            assert(prompt + Seq::<VariableView>::empty() =~= prompt);
        }
    }
    out
}

/// Whether a process can be given these arguments: none of them holds the
/// character zero.
pub open spec fn passable(command: Seq<Seq<char>>) -> bool {
    forall|i: int| 0 <= i < command.len() ==> !(#[trigger] command[i]).contains('\0')
}

/// Tells whether a process can be given these arguments.
pub fn can_pass(command: &Vec<String>) -> (r: bool)
    ensures
        r == passable(command.deep_view()),
{
    let ghost all = command.deep_view();
    let mut i: usize = 0;
    while i < command.len()
        invariant
            i <= command.len(),
            all == command.deep_view(),
            forall|j: int| 0 <= j < i ==> !(#[trigger] all[j]).contains('\0'),
        decreases command.len() - i,
    {
        proof {
            assert(all[i as int] == command@[i as int]@);
        }
        if text::contains_char(command[i].as_str(), '\0') {
            return false;
        }
        i += 1;
    }
    true
}

/// What forking a terminal gave: an error, the child's side, or the parent's
/// side with the child's number and the terminal.
pub open spec fn fork_result(pid: i32, terminal: i32, message: Seq<char>) -> Result<
    u32,
    SwarmErrorView,
> {
    if pid < 0 {
        Err(SwarmErrorView::Io(message))
    } else if terminal < 0 {
        Err(SwarmErrorView::InvalidSession("forkpty did not return a master fd"@))
    } else {
        Ok(pid as u32)
    }
}

/// Decides whether a terminal was forked, from the parent's side.
pub fn spawned_child(pid: i32, terminal: i32, message: &str) -> (r: Result<u32, SwarmError>)
    ensures
        crate::error::result_view(r) == fork_result(pid, terminal, message@),
{
    if pid < 0 {
        return Err(SwarmError::Io(message.to_owned()));
    }
    if terminal < 0 {
        return Err(
            SwarmError::InvalidSession("forkpty did not return a master fd".to_owned()),
        );
    }
    Ok(pid as u32)
}

/// The program that serves sessions beside another one.
pub fn supervisor_candidate(exe: &str) -> (r: String)
    ensures
        r@ == paths::renamed_path(exe@, "swarmctl"@),
{
    paths::with_file_name(exe, "swarmctl")
}

/// The program that serves sessions: the one beside the running program, if it is
/// there, else the running program.
pub fn supervisor_executable(exe: &str, candidate_exists: bool) -> (r: String)
    ensures
        r@ == (if candidate_exists {
            paths::renamed_path(exe@, "swarmctl"@)
        } else {
            exe@
        }),
{
    if candidate_exists {
        supervisor_candidate(exe)
    } else {
        exe.to_owned()
    }
}

/// A process that exits leaves its code in the second byte of its status; one that a signal
/// ends leaves the signal, with or without the mark of a core dump, and its code is 128 more;
/// one that was only stopped has no code.
pub proof fn law_wait_statuses(code: i32, signal: i32)
    requires
        0 <= code < 256,
        0 < signal < 127,
    ensures
        exit_code_in(code << 8) == Some(code),
        exit_code_in(signal) == Some((128 + signal) as i32),
        exit_code_in(signal | 0x80) == Some((128 + signal) as i32),
        exit_code_in((code << 8) | 0x7f) is None,
{
    assert((code << 8) & 0x7f == 0 && ((code << 8) >> 8) & 0xff == code && ((code << 8) | 0x7f)
        & 0x7f == 0x7f) by (bit_vector)
        requires
            0 <= code < 256,
    ;
    assert(signal & 0x7f == signal && (signal | 0x80) & 0x7f == signal) by (bit_vector)
        requires
            0 < signal < 127,
    ;
}

/// A process that is gone needs no end, does not exist, and a child that is not known ended
/// with nothing to report; one that may not be signalled exists. Everything else that fails
/// is an error with its message.
pub proof fn law_failed_calls(failure: CallFailureView, status: i32)
    ensures
        terminated(None) == Ok::<(), SwarmErrorView>(()),
        terminated(Some(failure)) == (if failure.error == ProcessError::NoSuchProcess {
            Ok::<(), _>(())
        } else {
            Err(SwarmErrorView::Io(failure.message))
        }),
        existence(None) == Ok::<bool, SwarmErrorView>(true),
        existence(Some(failure)) == (if failure.error == ProcessError::NoSuchProcess {
            Ok::<bool, _>(false)
        } else if failure.error == ProcessError::NotPermitted {
            Ok(true)
        } else {
            Err(SwarmErrorView::Io(failure.message))
        }),
        reaped(WaitOutcomeView::Running) == Ok::<Option<i32>, SwarmErrorView>(None),
        reaped(WaitOutcomeView::Ended(status)) == Ok::<_, SwarmErrorView>(Some(status)),
        reaped(WaitOutcomeView::Failed(failure)) == (if failure.error == ProcessError::NoChild {
            Ok::<_, _>(Some(0i32))
        } else {
            Err(SwarmErrorView::Io(failure.message))
        }),
{
}

/// A session's terminal is as large as the present one, else it has 24 rows of 80 columns.
pub proof fn law_window_sizes(size: WindowSize)
    ensures
        initial_window(Some(size)) == size,
        initial_window(None).rows == 24,
        initial_window(None).cols == 80,
        initial_window(None).width == 0,
        initial_window(None).height == 0,
{
}

/// In the workspace `name` of a repository the prompt is the workspace's name, and what is
/// built goes to the directory `target` of the repository, which all its workspaces share.
pub proof fn law_environment_of_a_workspace(
    repo: Seq<char>,
    all: Seq<char>,
    name: Seq<char>,
    has_manifest: bool,
)
    requires
        repo.len() > 0,
        repo.last() != '/',
        repo.last() != '.',
        all.len() > 0,
        !all.contains('/'),
        all.last() != '.',
        name.len() > 0,
        !name.contains('/'),
        name.last() != '.',
        !repo.contains('\0'),
        !name.contains('\0'),
    ensures
        ({
            let cwd = repo + seq!['/'] + all + seq!['/'] + name;
            &&& prompt_in(cwd) == Some(name + seq!['>', ' '])
            &&& shared_target(cwd) == Some(repo + "/target"@)
            &&& session_environment(cwd, has_manifest) == seq![
                VariableView { name: "PS1"@, value: name + seq!['>', ' '], replace: true },
            ] + if has_manifest {
                seq![
                    VariableView {
                        name: "CARGO_TARGET_DIR"@,
                        value: repo + "/target"@,
                        replace: false,
                    },
                ]
            } else {
                Seq::<VariableView>::empty()
            }
        }),
{
    reveal_strlit("> ");
    reveal_strlit("target");
    reveal_strlit("/target");
    let base = repo + seq!['/'] + all;
    let cwd = base + seq!['/'] + name;
    assert(all.contains(all.last()));
    assert(base.last() == all.last());
    assert(name.last() != '.' ==> name != seq!['.'] && name != seq!['.', '.']) by {
        assert(seq!['.'].last() == '.');
        assert(seq!['.', '.'].last() == '.');
    }
    assert(all.last() != '.' ==> all != seq!['.'] && all != seq!['.', '.']) by {
        assert(seq!['.'].last() == '.');
        assert(seq!['.', '.'].last() == '.');
    }
    paths::law_names_come_off_again(base, name, name);
    paths::law_names_come_off_again(repo, all, all);
    assert("> "@ =~= seq!['>', ' ']);
    assert(repo.push('/') + "target"@ =~= repo + "/target"@);
    let prompt = name + "> "@;
    assert(!prompt.contains('\0')) by {
        if prompt.contains('\0') {
            let k = choose|k: int| 0 <= k < prompt.len() && prompt[k] == '\0';
            if k < name.len() {
                assert(name.contains(name[k]));
            }
        }
    }
    let target = repo + "/target"@;
    assert(!target.contains('\0')) by {
        if target.contains('\0') {
            let k = choose|k: int| 0 <= k < target.len() && target[k] == '\0';
            if k < repo.len() {
                assert(repo.contains(repo[k]));
            }
        }
    }
}

/// A value that holds the character zero sets no variable, and a command with such a word is
/// not run.
pub proof fn law_zero_cannot_be_passed(
    name: Seq<char>,
    value: Seq<char>,
    replace: bool,
    command: Seq<Seq<char>>,
)
    ensures
        value.contains('\0') ==> variable(name, Some(value), replace).len() == 0,
        !value.contains('\0') ==> variable(name, Some(value), replace) == seq![
            VariableView { name, value, replace },
        ],
        variable(name, None, replace).len() == 0,
        passable(command) <==> !exists|i: int, j: int|
            0 <= i < command.len() && 0 <= j < command[i].len() && #[trigger] command[i][j]
                == '\0',
{
    if passable(command) {
        assert forall|i: int, j: int|
            0 <= i < command.len() && 0 <= j < command[i].len() implies #[trigger] command[i][j]
            != '\0' by {
            assert(!command[i].contains('\0'));
            if command[i][j] == '\0' {
                assert(command[i].contains('\0'));
            }
        }
    } else {
        let i = choose|i: int| 0 <= i < command.len() && (#[trigger] command[i]).contains('\0');
        let j = choose|j: int| 0 <= j < command[i].len() && command[i][j] == '\0';
        assert(command[i][j] == '\0');
    }
}

/// Forking a terminal fails with the system's message, or where there is no terminal; else it
/// gives the child's number.
pub proof fn law_forking(pid: i32, terminal: i32, message: Seq<char>)
    ensures
        pid < 0 ==> fork_result(pid, terminal, message) == Err::<u32, _>(
            SwarmErrorView::Io(message),
        ),
        pid >= 0 && terminal < 0 ==> fork_result(pid, terminal, message) == Err::<u32, _>(
            SwarmErrorView::InvalidSession("forkpty did not return a master fd"@),
        ),
        pid >= 0 && terminal >= 0 ==> (fork_result(pid, terminal, message) matches Ok(n) && n
            == pid),
{
}

/// The files of a session that is served, in its directory.
pub proof fn law_files_of_a_session(dir: Seq<char>)
    requires
        dir.len() > 0,
        dir.last() != '/',
    ensures
        serve_paths_in(dir) == (ServePathsView {
            socket_path: dir + "/sock"@,
            log_path: dir + "/log"@,
            pid_path: dir + "/child.pid"@,
            meta_path: dir + "/meta.toml"@,
            ready_path: dir + "/ready"@,
        }),
{
    reveal_strlit("sock");
    reveal_strlit("/sock");
    reveal_strlit("log");
    reveal_strlit("/log");
    reveal_strlit("child.pid");
    reveal_strlit("/child.pid");
    reveal_strlit("meta.toml");
    reveal_strlit("/meta.toml");
    reveal_strlit("ready");
    reveal_strlit("/ready");
    assert(dir.push('/') + "sock"@ =~= dir + "/sock"@);
    assert(dir.push('/') + "log"@ =~= dir + "/log"@);
    assert(dir.push('/') + "child.pid"@ =~= dir + "/child.pid"@);
    assert(dir.push('/') + "meta.toml"@ =~= dir + "/meta.toml"@);
    assert(dir.push('/') + "ready"@ =~= dir + "/ready"@);
}

/// The program that serves sessions stands beside the running one under the name `swarmctl`.
pub proof fn law_supervisor_stands_beside_the_program(dir: Seq<char>, name: Seq<char>)
    requires
        dir.len() > 0,
        dir.last() != '/',
        dir.last() != '.',
        name.len() > 0,
        !name.contains('/'),
        name.last() != '.',
    ensures
        paths::renamed_path(dir + seq!['/'] + name, "swarmctl"@) == dir + "/swarmctl"@,
{
    reveal_strlit("swarmctl");
    reveal_strlit("/swarmctl");
    assert(seq!['.'].last() == '.');
    assert(seq!['.', '.'].last() == '.');
    paths::law_names_come_off_again(dir, name, "swarmctl"@);
    assert(dir.push('/') + "swarmctl"@ =~= dir + "/swarmctl"@);
}

} // verus!
