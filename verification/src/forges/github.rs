//! Pull requests on GitHub: what they say of their checks, and how one is made.

use crate::effects::{CommandOutput, CommandOutputView};
use crate::error::{SwarmError, SwarmErrorView};
use crate::text;
use vstd::prelude::*;

verus! {

/// How a pull request stands.
#[derive(Debug, Clone, Copy, PartialEq, Eq, Structural)]
pub enum PullRequestStatusState {
    Success,
    Pending,
    Failure,
    Merged,
}

/// A pull request and how it stands.
#[derive(Debug, PartialEq, Eq)]
pub struct PullRequestStatus {
    pub number: u64,
    pub state: PullRequestStatusState,
    pub summary: String,
    pub url: Option<String>,
}

/// What a `PullRequestStatus` holds.
#[verifier::ext_equal]
pub struct PullRequestStatusView {
    pub number: u64,
    pub state: PullRequestStatusState,
    pub summary: Seq<char>,
    pub url: Option<Seq<char>>,
}

impl View for PullRequestStatus {
    type V = PullRequestStatusView;

    open spec fn view(&self) -> PullRequestStatusView {
        PullRequestStatusView {
            number: self.number,
            state: self.state,
            summary: self.summary@,
            url: self.url.deep_view(),
        }
    }
}

impl DeepView for PullRequestStatus {
    type V = PullRequestStatusView;

    open spec fn deep_view(&self) -> PullRequestStatusView {
        self@
    }
}

impl Clone for PullRequestStatus {
    fn clone(&self) -> (r: Self)
        ensures
            r@ == self@,
    {
        PullRequestStatus {
            number: self.number,
            state: self.state,
            summary: self.summary.clone(),
            url: self.url.clone(),
        }
    }
}

/// One check of a pull request.
#[derive(Debug)]
pub struct Check {
    pub conclusion: Option<String>,
    pub status: Option<String>,
    pub state: Option<String>,
}

/// What a `Check` holds.
#[verifier::ext_equal]
pub struct CheckView {
    pub conclusion: Option<Seq<char>>,
    pub status: Option<Seq<char>>,
    pub state: Option<Seq<char>>,
}

impl View for Check {
    type V = CheckView;

    open spec fn view(&self) -> CheckView {
        CheckView {
            conclusion: self.conclusion.deep_view(),
            status: self.status.deep_view(),
            state: self.state.deep_view(),
        }
    }
}

impl DeepView for Check {
    type V = CheckView;

    open spec fn deep_view(&self) -> CheckView {
        self@
    }
}

impl Clone for Check {
    fn clone(&self) -> (r: Self)
        ensures
            r@ == self@,
    {
        Check {
            conclusion: self.conclusion.clone(),
            status: self.status.clone(),
            state: self.state.clone(),
        }
    }
}

/// What is read of a pull request.
#[derive(Debug)]
pub struct Payload {
    pub number: Option<u64>,
    pub state: Option<String>,
    pub url: Option<String>,
    pub checks: Vec<Check>,
}

/// What a `Payload` holds.
#[verifier::ext_equal]
pub struct PayloadView {
    pub number: Option<u64>,
    pub state: Option<Seq<char>>,
    pub url: Option<Seq<char>>,
    pub checks: Seq<CheckView>,
}

impl View for Payload {
    type V = PayloadView;

    open spec fn view(&self) -> PayloadView {
        PayloadView {
            number: self.number,
            state: self.state.deep_view(),
            url: self.url.deep_view(),
            checks: self.checks.deep_view(),
        }
    }
}

impl DeepView for Payload {
    type V = PayloadView;

    open spec fn deep_view(&self) -> PayloadView {
        self@
    }
}

impl Clone for Payload {
    fn clone(&self) -> (r: Self)
        ensures
            r@ == self@,
    {
        Payload {
            number: self.number,
            state: self.state.clone(),
            url: self.url.clone(),
            checks: self.checks.clone(),
        }
    }
}

/// The status of a check, under either of its names.
pub open spec fn check_status(check: CheckView) -> Option<Seq<char>> {
    match check.status {
        Some(status) => Some(status),
        None => check.state,
    }
}

/// Whether a check failed.
pub open spec fn failed(check: CheckView) -> bool {
    ||| check.conclusion == Some("ACTION_REQUIRED"@)
    ||| check.conclusion == Some("CANCELLED"@)
    ||| check.conclusion == Some("FAILURE"@)
    ||| check.conclusion == Some("STALE"@)
    ||| check.conclusion == Some("STARTUP_FAILURE"@)
    ||| check.conclusion == Some("TIMED_OUT"@)
    ||| check_status(check) == Some("FAILURE"@)
    ||| check_status(check) == Some("ERROR"@)
}

/// Whether a check has not come to its end.
pub open spec fn pending(check: CheckView) -> bool {
    ||| check.conclusion is None
    ||| check_status(check) == Some("EXPECTED"@)
    ||| check_status(check) == Some("IN_PROGRESS"@)
    ||| check_status(check) == Some("PENDING"@)
    ||| check_status(check) == Some("QUEUED"@)
    ||| check_status(check) == Some("REQUESTED"@)
    ||| check_status(check) == Some("WAITING"@)
}

/// Whether some check failed.
pub open spec fn any_failed(checks: Seq<CheckView>) -> bool {
    exists|i: int| 0 <= i < checks.len() && failed(#[trigger] checks[i])
}

/// Whether some check has not come to its end.
pub open spec fn any_pending(checks: Seq<CheckView>) -> bool {
    exists|i: int| 0 <= i < checks.len() && pending(#[trigger] checks[i])
}

/// What the checks say together. One that failed decides; without any check the
/// outcome is still open.
pub open spec fn checks_state(checks: Seq<CheckView>) -> PullRequestStatusState {
    if any_failed(checks) {
        PullRequestStatusState::Failure
    } else if any_pending(checks) || checks.len() == 0 {
        PullRequestStatusState::Pending
    } else {
        PullRequestStatusState::Success
    }
}

/// How a state is told.
pub open spec fn state_text(state: PullRequestStatusState) -> Seq<char> {
    match state {
        PullRequestStatusState::Success => " checks passing"@,
        PullRequestStatusState::Pending => " checks pending"@,
        PullRequestStatusState::Failure => " checks failing"@,
        PullRequestStatusState::Merged => " merged"@,
    }
}

/// A pull request in a state.
pub open spec fn status_in(
    number: u64,
    state: PullRequestStatusState,
    url: Option<Seq<char>>,
) -> PullRequestStatusView {
    PullRequestStatusView {
        number,
        state,
        summary: "PR #"@ + text::decimal(number as nat) + state_text(state),
        url,
    }
}

/// How a pull request stands. One that is neither open nor merged has nothing to
/// say.
pub open spec fn status_of(payload: PayloadView) -> Option<PullRequestStatusView> {
    match (payload.number, payload.state) {
        (Some(number), Some(state)) => if state == "MERGED"@ {
            Some(status_in(number, PullRequestStatusState::Merged, payload.url))
        } else if state == "OPEN"@ {
            Some(status_in(number, checks_state(payload.checks), payload.url))
        } else {
            None
        },
        _ => None,
    }
}

fn is_one(value: &Option<String>, text: &str) -> (r: bool)
    ensures
        r == (value.deep_view() == Some(text@)),
{
    match value {
        Some(value) => text::same(value.as_str(), text),
        None => false,
    }
}

fn status_is(check: &Check, text: &str) -> (r: bool)
    ensures
        r == (check_status(check@) == Some(text@)),
{
    match &check.status {
        Some(status) => text::same(status.as_str(), text),
        None => is_one(&check.state, text),
    }
}

fn is_failed_check(check: &Check) -> (r: bool)
    ensures
        r == failed(check@),
{
    is_one(&check.conclusion, "ACTION_REQUIRED") || is_one(&check.conclusion, "CANCELLED")
        || is_one(&check.conclusion, "FAILURE") || is_one(&check.conclusion, "STALE") || is_one(
        &check.conclusion,
        "STARTUP_FAILURE",
    ) || is_one(&check.conclusion, "TIMED_OUT") || status_is(check, "FAILURE") || status_is(
        check,
        "ERROR",
    )
}

fn is_pending_check(check: &Check) -> (r: bool)
    ensures
        r == pending(check@),
{
    check.conclusion.is_none() || status_is(check, "EXPECTED") || status_is(check, "IN_PROGRESS")
        || status_is(check, "PENDING") || status_is(check, "QUEUED") || status_is(
        check,
        "REQUESTED",
    ) || status_is(check, "WAITING")
}

/// What the checks say together.
pub fn summarize_checks(checks: &Vec<Check>) -> (r: PullRequestStatusState)
    ensures
        r == checks_state(checks.deep_view()),
{
    let ghost all = checks.deep_view();
    let mut has_pending: bool = false;
    let mut i: usize = 0;
    while i < checks.len()
        invariant
            i <= checks.len(),
            all == checks.deep_view(),
            forall|j: int| 0 <= j < i ==> !failed(#[trigger] all[j]),
            has_pending == exists|j: int| 0 <= j < i && pending(#[trigger] all[j]),
        decreases checks.len() - i,
    {
        proof {
            assert(all[i as int] == checks@[i as int]@);
        }
        if is_failed_check(&checks[i]) {
            proof {
                assert(failed(all[i as int]));
            }
            return PullRequestStatusState::Failure;
        }
        if is_pending_check(&checks[i]) {
            has_pending = true;
        }
        i += 1;
    }
    if has_pending || checks.len() == 0 {
        PullRequestStatusState::Pending
    } else {
        PullRequestStatusState::Success
    }
}

fn make_status(number: u64, state: PullRequestStatusState, url: Option<String>) -> (r:
    PullRequestStatus)
    ensures
        r@ == status_in(number, state, url.deep_view()),
{
    let mut summary = "PR #".to_owned();
    summary.append(text::decimal_text(number).as_str());
    match state {
        PullRequestStatusState::Success => summary.append(" checks passing"),
        PullRequestStatusState::Pending => summary.append(" checks pending"),
        PullRequestStatusState::Failure => summary.append(" checks failing"),
        PullRequestStatusState::Merged => summary.append(" merged"),
    }
    PullRequestStatus { number, state, summary, url }
}

/// How a pull request stands.
pub fn pull_request_status(payload: &Payload) -> (r: Option<PullRequestStatus>)
    ensures
        r.deep_view() == status_of(payload@),
{
    match (payload.number, &payload.state) {
        (Some(number), Some(state)) => if text::same(state.as_str(), "MERGED") {
            Some(make_status(number, PullRequestStatusState::Merged, payload.url.clone()))
        } else if text::same(state.as_str(), "OPEN") {
            Some(make_status(number, summarize_checks(&payload.checks), payload.url.clone()))
        } else {
            None
        },
        _ => None,
    }
}

/// What a JSON value holds. A number counts as far as it is a whole number that
/// fits.
#[verifier::ext_equal]
pub enum JsonView {
    Null,
    Bool(bool),
    Number(Option<u64>),
    Text(Seq<char>),
    Array(Seq<JsonView>),
    Object(Map<Seq<char>, JsonView>),
}

/// A JSON value.
#[verifier::external_type_specification]
#[verifier::external_body]
pub struct ExValue(serde_json::Value);

/// What a JSON value holds.
pub uninterp spec fn json_contents(value: serde_json::Value) -> JsonView;

/// The JSON value that bytes are the text of, or the message that tells why they
/// are not.
pub uninterp spec fn json_document(bytes: Seq<u8>) -> Result<JsonView, Seq<char>>;

/// Bytes were read as a JSON value.
pub open spec fn document_is(r: Result<JsonView, Seq<char>>, value: JsonView) -> bool {
    r == Ok::<JsonView, Seq<char>>(value)
}

/// Bytes could not be read.
pub open spec fn document_fails(r: Result<JsonView, Seq<char>>, message: Seq<char>) -> bool {
    r == Err::<JsonView, Seq<char>>(message)
}

/// The value of a key of a JSON object.
pub open spec fn member(value: JsonView, key: Seq<char>) -> Option<JsonView> {
    match value {
        JsonView::Object(members) => if members.contains_key(key) {
            Some(members[key])
        } else {
            None
        },
        _ => None,
    }
}

/// The number in a JSON value.
pub open spec fn number_in(value: JsonView) -> Option<u64> {
    match value {
        JsonView::Number(number) => number,
        _ => None,
    }
}

/// The text in a JSON value.
pub open spec fn text_in(value: JsonView) -> Option<Seq<char>> {
    match value {
        JsonView::Text(text) => Some(text),
        _ => None,
    }
}

/// The values in a JSON array.
pub open spec fn values_in(value: JsonView) -> Option<Seq<JsonView>> {
    match value {
        JsonView::Array(values) => Some(values),
        _ => None,
    }
}

/// `serde_json::from_slice` into a `Value`: the value, or the message of the
/// error. Both are functions of the bytes.
#[verifier::external_body]
fn parse_json(bytes: &Vec<u8>) -> (r: Result<serde_json::Value, String>)
    ensures
        match r {
            Ok(value) => document_is(json_document(bytes@), json_contents(value)),
            Err(message) => document_fails(json_document(bytes@), message@),
        },
{
    serde_json::from_slice(bytes.as_slice()).map_err(|e: serde_json::Error| e.to_string())
}

/// `Value::get` with a string: the value of the key where the value is an object
/// that has the key, else nothing.
#[verifier::external_body]
fn get<'a>(value: &'a serde_json::Value, key: &str) -> (r: Option<&'a serde_json::Value>)
    ensures
        match r {
            Some(found) => member(json_contents(*value), key@) == Some(json_contents(*found)),
            None => member(json_contents(*value), key@) is None,
        },
{
    value.get(key)
}

/// `Value::as_u64`: the number where the value is a whole number from zero to
/// the largest `u64`, else nothing.
#[verifier::external_body]
fn as_u64(value: &serde_json::Value) -> (r: Option<u64>)
    ensures
        r == number_in(json_contents(*value)),
{
    value.as_u64()
}

/// `Value::as_str`: the text where the value is a string, else nothing.
#[verifier::external_body]
fn as_str(value: &serde_json::Value) -> (r: Option<&str>)
    ensures
        r.deep_view() == text_in(json_contents(*value)),
{
    value.as_str()
}

/// The values of a list, by what they hold.
pub open spec fn contents_of(values: Seq<serde_json::Value>) -> Seq<JsonView> {
    Seq::new(values.len(), |i: int| json_contents(values[i]))
}

/// `Value::as_array`: the values where the value is an array, else nothing.
#[verifier::external_body]
fn as_array(value: &serde_json::Value) -> (r: Option<&Vec<serde_json::Value>>)
    ensures
        match r {
            Some(values) => values_in(json_contents(*value)) == Some(contents_of(values@)),
            None => values_in(json_contents(*value)) is None,
        },
{
    value.as_array()
}

/// The text of a key.
pub open spec fn text_member(value: JsonView, key: Seq<char>) -> Option<Seq<char>> {
    match member(value, key) {
        Some(v) => text_in(v),
        None => None,
    }
}

/// The number of a key.
pub open spec fn number_member(value: JsonView, key: Seq<char>) -> Option<u64> {
    match member(value, key) {
        Some(v) => number_in(v),
        None => None,
    }
}

/// The check in a JSON value.
pub open spec fn check_in(value: JsonView) -> CheckView {
    CheckView {
        conclusion: text_member(value, "conclusion"@),
        status: text_member(value, "status"@),
        state: text_member(value, "state"@),
    }
}

/// The checks in a JSON value; none where there is no list of them.
pub open spec fn checks_in(value: JsonView) -> Seq<CheckView> {
    match member(value, "statusCheckRollup"@) {
        Some(v) => match values_in(v) {
            Some(values) => Seq::new(values.len(), |i: int| check_in(values[i])),
            None => seq![],
        },
        None => seq![],
    }
}

/// What is read of a pull request in a JSON value.
pub open spec fn payload_in(value: JsonView) -> PayloadView {
    PayloadView {
        number: number_member(value, "number"@),
        state: text_member(value, "state"@),
        url: text_member(value, "url"@),
        checks: checks_in(value),
    }
}

/// How the pull request in a JSON document stands.
pub open spec fn document_status(document: Result<JsonView, Seq<char>>) -> Result<
    Option<PullRequestStatusView>,
    SwarmErrorView,
> {
    match document {
        Ok(value) => Ok(status_of(payload_in(value))),
        Err(message) => Err(SwarmErrorView::Json(message)),
    }
}

fn text_of(value: &serde_json::Value, key: &str) -> (r: Option<String>)
    ensures
        r.deep_view() == text_member(json_contents(*value), key@),
{
    match get(value, key) {
        Some(v) => match as_str(v) {
            Some(text) => Some(text.to_owned()),
            None => None,
        },
        None => None,
    }
}

fn read_check(value: &serde_json::Value) -> (r: Check)
    ensures
        r@ == check_in(json_contents(*value)),
{
    Check {
        conclusion: text_of(value, "conclusion"),
        status: text_of(value, "status"),
        state: text_of(value, "state"),
    }
}

fn read_checks(value: &serde_json::Value) -> (r: Vec<Check>)
    ensures
        r.deep_view() == checks_in(json_contents(*value)),
{
    let mut out: Vec<Check> = Vec::new();
    proof {
        assert(out.deep_view() =~= seq![]);
    }
    if let Some(rollup) = get(value, "statusCheckRollup") {
        if let Some(values) = as_array(rollup) {
            let ghost all = contents_of(values@);
            let mut i: usize = 0;
            while i < values.len()
                invariant
                    i <= values.len(),
                    all == contents_of(values@),
                    out.deep_view() =~= Seq::new(i as nat, |j: int| check_in(all[j])),
                decreases values.len() - i,
            {
                let ghost before = out.deep_view();
                let check = read_check(&values[i]);
                let ghost added = check@;
                out.push(check);
                proof {
                    assert(added == check_in(all[i as int]));
                    assert(out.deep_view() =~= before.push(added));
                }
                i += 1;
            }
            proof {
                assert(out.deep_view() =~= checks_in(json_contents(*value)));
            }
        }
    }
    out
}

fn read_payload(value: &serde_json::Value) -> (r: Payload)
    ensures
        r@ == payload_in(json_contents(*value)),
{
    Payload {
        number: match get(value, "number") {
            Some(v) => as_u64(v),
            None => None,
        },
        state: text_of(value, "state"),
        url: text_of(value, "url"),
        checks: read_checks(value),
    }
}

/// How the pull request that some bytes tell of stands.
pub fn parse_pull_request_status(bytes: &Vec<u8>) -> (r: Result<
    Option<PullRequestStatus>,
    SwarmError,
>)
    ensures
        match r {
            Ok(status) => document_status(json_document(bytes@)) == Ok::<_, SwarmErrorView>(
                status.deep_view(),
            ),
            Err(e) => document_status(json_document(bytes@)) == Err::<
                Option<PullRequestStatusView>,
                _,
            >(e@),
        },
{
    match parse_json(bytes) {
        Ok(value) => Ok(pull_request_status(&read_payload(&value))),
        Err(message) => Err(SwarmError::Json(message)),
    }
}

/// The lines of a text without white space around them, as far as something is
/// left.
pub open spec fn filled_lines(lines: Seq<Seq<char>>) -> Seq<Seq<char>>
    decreases lines.len(),
{
    if lines.len() == 0 {
        seq![]
    } else {
        let rest = filled_lines(lines.drop_last());
        if text::trimmed(lines.last()).len() > 0 {
            rest.push(text::trimmed(lines.last()))
        } else {
            rest
        }
    }
}

/// The lines that are no warnings.
pub open spec fn without_warnings(lines: Seq<Seq<char>>) -> Seq<Seq<char>>
    decreases lines.len(),
{
    if lines.len() == 0 {
        seq![]
    } else {
        let rest = without_warnings(lines.drop_last());
        if "Warning:"@.is_prefix_of(lines.last()) {
            rest
        } else {
            rest.push(lines.last())
        }
    }
}

/// What a command wrote to its error output, without warnings where something
/// else is left.
pub open spec fn error_lines(stderr: Seq<char>) -> Seq<char> {
    let lines = filled_lines(text::line_list(stderr));
    let meaningful = without_warnings(lines);
    if meaningful.len() == 0 {
        text::joined(lines, "\n"@)
    } else {
        text::joined(meaningful, "\n"@)
    }
}

fn keep_filled(lines: &Vec<String>) -> (r: Vec<String>)
    ensures
        r.deep_view() == filled_lines(lines.deep_view()),
{
    let ghost all = lines.deep_view();
    let mut out: Vec<String> = Vec::new();
    let mut i: usize = 0;
    proof {
        assert(out.deep_view() =~= seq![]);
    }
    while i < lines.len()
        invariant
            i <= lines.len(),
            all == lines.deep_view(),
            out.deep_view() == filled_lines(all.take(i as int)),
        decreases lines.len() - i,
    {
        let ghost before = out.deep_view();
        let line = text::trim(lines[i].as_str());
        if line.unicode_len() > 0 {
            out.push(line.to_owned());
        }
        proof {
            assert(all[i as int] == lines@[i as int]@);
            assert(all.take(i + 1).drop_last() =~= all.take(i as int));
            assert(all.take(i + 1).last() == all[i as int]);
            if line@.len() > 0 {
                assert(out.deep_view() =~= before.push(line@));
            }
        }
        i += 1;
    }
    proof {
        assert(all.take(all.len() as int) =~= all);
    }
    out
}

fn drop_warnings(lines: &Vec<String>) -> (r: Vec<String>)
    ensures
        r.deep_view() == without_warnings(lines.deep_view()),
{
    let ghost all = lines.deep_view();
    let mut out: Vec<String> = Vec::new();
    let mut i: usize = 0;
    proof {
        assert(out.deep_view() =~= seq![]);
    }
    while i < lines.len()
        invariant
            i <= lines.len(),
            all == lines.deep_view(),
            out.deep_view() == without_warnings(all.take(i as int)),
        decreases lines.len() - i,
    {
        let ghost before = out.deep_view();
        let warning: bool = text::starts_with(lines[i].as_str(), "Warning:");
        if !warning {
            out.push(lines[i].clone());
        }
        proof {
            assert(all[i as int] == lines@[i as int]@);
            assert(all.take(i + 1).drop_last() =~= all.take(i as int));
            assert(all.take(i + 1).last() == all[i as int]);
            if !warning {
                assert(out.deep_view() =~= before.push(all[i as int]));
            }
        }
        i += 1;
    }
    proof {
        assert(all.take(all.len() as int) =~= all);
    }
    out
}

/// What a command wrote to its error output, as a text.
pub fn meaningful_lines(stderr: &str) -> (r: String)
    ensures
        r@ == error_lines(stderr@),
{
    let lines = keep_filled(&text::lines(stderr));
    let meaningful = drop_warnings(&lines);
    if meaningful.len() == 0 {
        text::join(&lines, "\n")
    } else {
        text::join(&meaningful, "\n")
    }
}

/// What a command wrote to its error output.
pub fn format_command_stderr(stderr: &Vec<u8>) -> (r: String)
    ensures
        r@ == error_lines(text::lossy_text(stderr@)),
        vstd::utf8::valid_utf8(stderr@) ==> r@ == error_lines(vstd::utf8::decode_utf8(stderr@)),
{
    meaningful_lines(text::decode_lossy(stderr).as_str())
}

/// Whether a remote is on GitHub.
pub open spec fn on_github(remote: Seq<char>) -> bool {
    let url = text::trimmed(remote);
    text::find_pattern(url, "github.com"@) is Some || "git@github:"@.is_prefix_of(url)
        || "ssh://git@github.com/"@.is_prefix_of(url)
}

/// Tells whether a remote is on GitHub.
pub fn is_github_remote(remote: &str) -> (r: bool)
    ensures
        r == on_github(remote@),
{
    let url = text::trim(remote);
    text::contains_text(url, "github.com") || text::starts_with(url, "git@github:")
        || text::starts_with(url, "ssh://git@github.com/")
}

/// A command to run in a workspace.
#[derive(Debug)]
pub struct ForgeCommand {
    pub program: String,
    pub args: Vec<String>,
}

/// What a `ForgeCommand` holds.
#[verifier::ext_equal]
pub struct ForgeCommandView {
    pub program: Seq<char>,
    pub args: Seq<Seq<char>>,
}

impl View for ForgeCommand {
    type V = ForgeCommandView;

    open spec fn view(&self) -> ForgeCommandView {
        ForgeCommandView {
            program: self.program@,
            args: self.args.deep_view(),
        }
    }
}

impl DeepView for ForgeCommand {
    type V = ForgeCommandView;

    open spec fn deep_view(&self) -> ForgeCommandView {
        self@
    }
}

impl Clone for ForgeCommand {
    fn clone(&self) -> (r: Self)
        ensures
            r@ == self@,
    {
        ForgeCommand {
            program: self.program.clone(),
            args: self.args.clone(),
        }
    }
}

/// What a command gave: its output, or the message that tells why it could not
/// be started.
#[derive(Debug)]
pub enum ForgeReply {
    Ran(CommandOutput),
    Unstarted(String),
}

/// What a `ForgeReply` holds.
#[verifier::ext_equal]
pub enum ForgeReplyView {
    Ran(CommandOutputView),
    Unstarted(Seq<char>),
}

impl View for ForgeReply {
    type V = ForgeReplyView;

    open spec fn view(&self) -> ForgeReplyView {
        match self {
            ForgeReply::Ran(a) => ForgeReplyView::Ran(a@),
            ForgeReply::Unstarted(a) => ForgeReplyView::Unstarted(a@),
        }
    }
}

impl DeepView for ForgeReply {
    type V = ForgeReplyView;

    open spec fn deep_view(&self) -> ForgeReplyView {
        self@
    }
}

impl Clone for ForgeReply {
    fn clone(&self) -> (r: Self)
        ensures
            r@ == self@,
    {
        match self {
            ForgeReply::Ran(a) => ForgeReply::Ran(a.clone()),
            ForgeReply::Unstarted(a) => ForgeReply::Unstarted(a.clone()),
        }
    }
}

/// What a query does next: run a command and wait in a state, or end.
#[derive(Debug)]
pub enum ForgeStep<P, T> {
    Run(ForgeCommand, P),
    Finish(T),
}

/// What a `ForgeStep` holds.
#[verifier::ext_equal]
pub enum ForgeStepView<P, T> {
    Run(ForgeCommandView, P),
    Finish(T),
}

impl<P: View, T: DeepView> View for ForgeStep<P, T> {
    type V = ForgeStepView<P::V, T::V>;

    open spec fn view(&self) -> ForgeStepView<P::V, T::V> {
        match self {
            ForgeStep::Run(command, state) => ForgeStepView::Run(command@, state@),
            ForgeStep::Finish(value) => ForgeStepView::Finish(value.deep_view()),
        }
    }
}

/// A git command.
pub open spec fn git_command(args: Seq<Seq<char>>) -> ForgeCommandView {
    ForgeCommandView { program: "git"@, args }
}

fn git(args: Vec<String>) -> (r: ForgeCommand)
    ensures
        r@ == git_command(args.deep_view()),
{
    ForgeCommand { program: "git".to_owned(), args }
}

/// Asks for the remote of a workspace.
pub open spec fn remote_command() -> ForgeCommandView {
    git_command(seq!["config"@, "--get"@, "remote.origin.url"@])
}

/// Whether the answer is a remote on GitHub.
pub open spec fn says_github(reply: ForgeReplyView) -> bool {
    reply matches ForgeReplyView::Ran(output) && output.success && on_github(
        text::lossy_text(output.stdout),
    )
}

/// The command that tells whether a workspace is on GitHub.
pub fn github_remote_query() -> (r: ForgeCommand)
    ensures
        r@ == remote_command(),
{
    let args = vec!["config".to_owned(), "--get".to_owned(), "remote.origin.url".to_owned()];
    proof {
        assert(args.deep_view() =~= seq!["config"@, "--get"@, "remote.origin.url"@]);
    }
    git(args)
}

/// Tells whether the answer is a remote on GitHub.
pub fn is_github_workspace(reply: &ForgeReply) -> (r: bool)
    ensures
        r == says_github(reply@),
{
    match reply {
        ForgeReply::Ran(output) => output.success && is_github_remote(
            text::decode_lossy(&output.stdout).as_str(),
        ),
        ForgeReply::Unstarted(_) => false,
    }
}

/// What a query for a pull request waits for: the remote, or the pull request.
#[derive(Debug, Clone, Copy, PartialEq, Eq, Structural)]
pub enum StatusQuery {
    Remote,
    Viewing,
}

impl View for StatusQuery {
    type V = StatusQuery;

    open spec fn view(&self) -> StatusQuery {
        *self
    }
}

/// Asks for the pull request of a workspace.
pub open spec fn view_command() -> ForgeCommandView {
    ForgeCommandView {
        program: "gh"@,
        args: seq!["pr"@, "view"@, "--json"@, "number,state,statusCheckRollup,url"@],
    }
}

/// The pull request in an answer.
pub open spec fn viewed(reply: ForgeReplyView) -> Option<PullRequestStatusView> {
    match reply {
        ForgeReplyView::Ran(output) => if output.success {
            match document_status(json_document(output.stdout)) {
                Ok(status) => status,
                Err(_) => None,
            }
        } else {
            None
        },
        ForgeReplyView::Unstarted(_) => None,
    }
}

/// The step that follows an answer.
pub open spec fn status_next(query: StatusQuery, reply: ForgeReplyView) -> ForgeStepView<
    StatusQuery,
    Option<PullRequestStatusView>,
> {
    match query {
        StatusQuery::Remote => if says_github(reply) {
            ForgeStepView::Run(view_command(), StatusQuery::Viewing)
        } else {
            ForgeStepView::Finish(None)
        },
        StatusQuery::Viewing => ForgeStepView::Finish(viewed(reply)),
    }
}

/// Begins to ask how the pull request of a workspace stands.
pub fn workspace_pull_request_status() -> (r: ForgeStep<StatusQuery, Option<PullRequestStatus>>)
    ensures
        r@ == ForgeStepView::<StatusQuery, Option<PullRequestStatusView>>::Run(
            remote_command(),
            StatusQuery::Remote,
        ),
{
    ForgeStep::Run(github_remote_query(), StatusQuery::Remote)
}

impl StatusQuery {
    /// The step that follows an answer.
    pub fn resume(self, reply: ForgeReply) -> (r: ForgeStep<StatusQuery, Option<PullRequestStatus>>)
        ensures
            r@ == status_next(self, reply@),
    {
        match self {
            StatusQuery::Remote => if is_github_workspace(&reply) {
                let args = vec![
                    "pr".to_owned(),
                    "view".to_owned(),
                    "--json".to_owned(),
                    "number,state,statusCheckRollup,url".to_owned(),
                ];
                proof {
                    assert(args.deep_view()
                        =~= seq!["pr"@, "view"@, "--json"@, "number,state,statusCheckRollup,url"@]);
                }
                ForgeStep::Run(
                    ForgeCommand { program: "gh".to_owned(), args },
                    StatusQuery::Viewing,
                )
            } else {
                ForgeStep::Finish(None)
            },
            StatusQuery::Viewing => match reply {
                ForgeReply::Ran(output) => if output.success {
                    match parse_pull_request_status(&output.stdout) {
                        Ok(status) => ForgeStep::Finish(status),
                        Err(_) => ForgeStep::Finish(None),
                    }
                } else {
                    ForgeStep::Finish(None)
                },
                ForgeReply::Unstarted(_) => ForgeStep::Finish(None),
            },
        }
    }
}

/// What a query for the base of a branch waits for: the remote's head, or one of
/// the names that a base often has.
#[derive(Debug, Clone, Copy, PartialEq, Eq, Structural)]
pub enum BaseQuery {
    Head,
    Main,
    Master,
}

impl View for BaseQuery {
    type V = BaseQuery;

    open spec fn view(&self) -> BaseQuery {
        *self
    }
}

/// Asks for the remote's head.
pub open spec fn base_command() -> ForgeCommandView {
    git_command(seq!["rev-parse"@, "--abbrev-ref"@, "origin/HEAD"@])
}

/// Asks whether a name exists.
pub open spec fn verify_command(name: Seq<char>) -> ForgeCommandView {
    git_command(seq!["rev-parse"@, "--verify"@, "--quiet"@, name])
}

/// The base that an answer names, from what git wrote.
pub open spec fn named_base(success: bool, stdout: Seq<char>) -> Option<Seq<char>> {
    let value = text::trimmed(stdout);
    if success && value.len() > 0 && value != "HEAD"@ {
        Some(value)
    } else {
        None
    }
}

/// The step that follows an answer. A git that cannot be started has no base to
/// tell.
pub open spec fn base_next(query: BaseQuery, reply: ForgeReplyView) -> ForgeStepView<
    BaseQuery,
    Option<Seq<char>>,
> {
    match reply {
        ForgeReplyView::Unstarted(_) => ForgeStepView::Finish(None),
        ForgeReplyView::Ran(output) => match query {
            BaseQuery::Head => match named_base(output.success, text::lossy_text(output.stdout)) {
                Some(base) => ForgeStepView::Finish(Some(base)),
                None => ForgeStepView::Run(verify_command("origin/main"@), BaseQuery::Main),
            },
            BaseQuery::Main => if output.success {
                ForgeStepView::Finish(Some("origin/main"@))
            } else {
                ForgeStepView::Run(verify_command("origin/master"@), BaseQuery::Master)
            },
            BaseQuery::Master => if output.success {
                ForgeStepView::Finish(Some("origin/master"@))
            } else {
                ForgeStepView::Finish(None)
            },
        },
    }
}

/// The base that git names, from what it wrote.
pub fn base_name(success: bool, stdout: &str) -> (r: Option<String>)
    ensures
        r.deep_view() == named_base(success, stdout@),
{
    let value = text::trim(stdout);
    if success && value.unicode_len() > 0 && !text::same(value, "HEAD") {
        Some(value.to_owned())
    } else {
        None
    }
}

fn verify_name(name: &str) -> (r: ForgeCommand)
    ensures
        r@ == verify_command(name@),
{
    let args = vec![
        "rev-parse".to_owned(),
        "--verify".to_owned(),
        "--quiet".to_owned(),
        name.to_owned(),
    ];
    proof {
        assert(args.deep_view() =~= seq!["rev-parse"@, "--verify"@, "--quiet"@, name@]);
    }
    git(args)
}

fn ask_base() -> (r: ForgeCommand)
    ensures
        r@ == base_command(),
{
    let args = vec!["rev-parse".to_owned(), "--abbrev-ref".to_owned(), "origin/HEAD".to_owned()];
    proof {
        assert(args.deep_view() =~= seq!["rev-parse"@, "--abbrev-ref"@, "origin/HEAD"@]);
    }
    git(args)
}

impl BaseQuery {
    fn resume(self, reply: ForgeReply) -> (r: ForgeStep<BaseQuery, Option<String>>)
        ensures
            r@ == base_next(self, reply@),
    {
        match reply {
            ForgeReply::Unstarted(_) => ForgeStep::Finish(None),
            ForgeReply::Ran(output) => match self {
                BaseQuery::Head => match base_name(
                    output.success,
                    text::decode_lossy(&output.stdout).as_str(),
                ) {
                    Some(base) => ForgeStep::Finish(Some(base)),
                    None => ForgeStep::Run(verify_name("origin/main"), BaseQuery::Main),
                },
                BaseQuery::Main => if output.success {
                    ForgeStep::Finish(Some("origin/main".to_owned()))
                } else {
                    ForgeStep::Run(verify_name("origin/master"), BaseQuery::Master)
                },
                BaseQuery::Master => if output.success {
                    ForgeStep::Finish(Some("origin/master".to_owned()))
                } else {
                    ForgeStep::Finish(None)
                },
            },
        }
    }
}

/// What counting commits waits for: the base, or the count.
#[derive(Debug, Clone, Copy, PartialEq, Eq, Structural)]
pub enum AheadQuery {
    Base(BaseQuery),
    Counting,
}

impl View for AheadQuery {
    type V = AheadQuery;

    open spec fn view(&self) -> AheadQuery {
        *self
    }
}

/// Counts the commits that a branch has and its base has not.
pub open spec fn count_command(base: Seq<char>) -> ForgeCommandView {
    git_command(seq!["rev-list"@, "--count"@, base + "..HEAD"@])
}

/// The count in an answer, from what git wrote.
pub open spec fn counted(success: bool, stdout: Seq<char>) -> Option<int> {
    if success {
        text::natural_within(text::trimmed(stdout), u32::MAX as int)
    } else {
        None
    }
}

/// A count as a number of 32 bits.
pub open spec fn as_count(count: Option<int>) -> Option<u32> {
    match count {
        Some(n) => Some(n as u32),
        None => None,
    }
}

/// The step that follows an answer.
pub open spec fn ahead_next(query: AheadQuery, reply: ForgeReplyView) -> ForgeStepView<
    AheadQuery,
    Option<u32>,
> {
    match query {
        AheadQuery::Base(base) => match base_next(base, reply) {
            ForgeStepView::Run(command, base) => ForgeStepView::Run(
                command,
                AheadQuery::Base(base),
            ),
            ForgeStepView::Finish(Some(base)) => ForgeStepView::Run(
                count_command(base),
                AheadQuery::Counting,
            ),
            ForgeStepView::Finish(None) => ForgeStepView::Finish(None),
        },
        AheadQuery::Counting => match reply {
            ForgeReplyView::Ran(output) => ForgeStepView::Finish(
                as_count(counted(output.success, text::lossy_text(output.stdout))),
            ),
            ForgeReplyView::Unstarted(_) => ForgeStepView::Finish(None),
        },
    }
}

/// The count that git wrote.
pub fn commit_count(success: bool, stdout: &str) -> (r: Option<u32>)
    ensures
        match r {
            Some(n) => counted(success, stdout@) == Some(n as int),
            None => counted(success, stdout@) is None,
        },
{
    if success {
        text::parse_natural(text::trim(stdout), u32::MAX)
    } else {
        None
    }
}

/// Begins to count the commits that a workspace is ahead of its base.
pub fn workspace_commits_ahead() -> (r: ForgeStep<AheadQuery, Option<u32>>)
    ensures
        r@ == ForgeStepView::<AheadQuery, Option<u32>>::Run(
            base_command(),
            AheadQuery::Base(BaseQuery::Head),
        ),
{
    ForgeStep::Run(ask_base(), AheadQuery::Base(BaseQuery::Head))
}

impl AheadQuery {
    /// The step that follows an answer.
    pub fn resume(self, reply: ForgeReply) -> (r: ForgeStep<AheadQuery, Option<u32>>)
        ensures
            r@ == ahead_next(self, reply@),
    {
        match self {
            AheadQuery::Base(base) => match base.resume(reply) {
                ForgeStep::Run(command, base) => ForgeStep::Run(command, AheadQuery::Base(base)),
                ForgeStep::Finish(Some(base)) => {
                    let mut range = base;
                    range.append("..HEAD");
                    let ghost text = range@;
                    let args = vec!["rev-list".to_owned(), "--count".to_owned(), range];
                    proof {
                        assert(args.deep_view() =~= seq!["rev-list"@, "--count"@, text]);
                    }
                    ForgeStep::Run(git(args), AheadQuery::Counting)
                },
                ForgeStep::Finish(None) => ForgeStep::Finish(None),
            },
            AheadQuery::Counting => match reply {
                ForgeReply::Ran(output) => {
                    let count = commit_count(
                        output.success,
                        text::decode_lossy(&output.stdout).as_str(),
                    );
                    ForgeStep::Finish(count)
                },
                ForgeReply::Unstarted(_) => ForgeStep::Finish(None),
            },
        }
    }
}

/// What making a pull request waits for: the remote, the branch, the base, the
/// push, or the pull request.
#[derive(Debug)]
pub enum CreatePullRequest {
    Remote,
    Branch,
    Base { branch: String, query: BaseQuery },
    Pushing { branch: String, base: Option<String> },
    Creating,
}

/// What a `CreatePullRequest` holds.
#[verifier::ext_equal]
pub enum CreatePullRequestView {
    Remote,
    Branch,
    Base { branch: Seq<char>, query: BaseQuery },
    Pushing { branch: Seq<char>, base: Option<Seq<char>> },
    Creating,
}

impl View for CreatePullRequest {
    type V = CreatePullRequestView;

    open spec fn view(&self) -> CreatePullRequestView {
        match self {
            CreatePullRequest::Remote => CreatePullRequestView::Remote,
            CreatePullRequest::Branch => CreatePullRequestView::Branch,
            CreatePullRequest::Base { branch, query } => CreatePullRequestView::Base {
                branch: branch@,
                query: *query,
            },
            CreatePullRequest::Pushing { branch, base } => CreatePullRequestView::Pushing {
                branch: branch@,
                base: base.deep_view(),
            },
            CreatePullRequest::Creating => CreatePullRequestView::Creating,
        }
    }
}

impl DeepView for CreatePullRequest {
    type V = CreatePullRequestView;

    open spec fn deep_view(&self) -> CreatePullRequestView {
        self@
    }
}

impl Clone for CreatePullRequest {
    fn clone(&self) -> (r: Self)
        ensures
            r@ == self@,
    {
        match self {
            CreatePullRequest::Remote => CreatePullRequest::Remote,
            CreatePullRequest::Branch => CreatePullRequest::Branch,
            CreatePullRequest::Base { branch, query } => CreatePullRequest::Base {
                branch: branch.clone(),
                query: *query,
            },
            CreatePullRequest::Pushing { branch, base } => CreatePullRequest::Pushing {
                branch: branch.clone(),
                base: base.clone(),
            },
            CreatePullRequest::Creating => CreatePullRequest::Creating,
        }
    }
}

/// The result of making a pull request: done, or a message.
#[derive(Debug)]
pub enum CreateOutcome {
    Created,
    Refused(String),
}

/// What a `CreateOutcome` holds.
#[verifier::ext_equal]
pub enum CreateOutcomeView {
    Created,
    Refused(Seq<char>),
}

impl View for CreateOutcome {
    type V = CreateOutcomeView;

    open spec fn view(&self) -> CreateOutcomeView {
        match self {
            CreateOutcome::Created => CreateOutcomeView::Created,
            CreateOutcome::Refused(a) => CreateOutcomeView::Refused(a@),
        }
    }
}

impl DeepView for CreateOutcome {
    type V = CreateOutcomeView;

    open spec fn deep_view(&self) -> CreateOutcomeView {
        self@
    }
}

impl Clone for CreateOutcome {
    fn clone(&self) -> (r: Self)
        ensures
            r@ == self@,
    {
        match self {
            CreateOutcome::Created => CreateOutcome::Created,
            CreateOutcome::Refused(a) => CreateOutcome::Refused(a.clone()),
        }
    }
}

/// The message of a command that failed: what it wrote to its error output, else
/// its status.
pub open spec fn failure_message(
    what: Seq<char>,
    stderr: Seq<char>,
    status: Seq<char>,
) -> Seq<char> {
    if stderr.len() > 0 {
        stderr
    } else {
        what + " failed with status "@ + status
    }
}

/// The branch that git names, or the message that tells why it names none.
pub open spec fn branch_answer(
    success: bool,
    status: Seq<char>,
    stdout: Seq<char>,
    stderr: Seq<char>,
) -> Result<Seq<char>, Seq<char>> {
    if !success {
        Err(failure_message("git branch"@, text::trimmed(stderr), status))
    } else if text::trimmed(stdout).len() == 0 {
        Err("unable to determine current branch"@)
    } else {
        Ok(text::trimmed(stdout))
    }
}

/// The base branch in the name of a base.
pub open spec fn base_branch(base: Option<Seq<char>>) -> Option<Seq<char>> {
    match base {
        Some(base) => text::without_prefix(base, "origin/"@),
        None => None,
    }
}

/// Asks for the current branch.
pub open spec fn show_branch_command() -> ForgeCommandView {
    git_command(seq!["branch"@, "--show-current"@])
}

/// Pushes the current branch.
pub open spec fn push_command() -> ForgeCommandView {
    git_command(seq!["push"@, "--set-upstream"@, "origin"@, "HEAD"@])
}

/// Makes a pull request of a branch, against a base where it is known.
pub open spec fn create_command(branch: Seq<char>, base: Option<Seq<char>>) -> ForgeCommandView {
    let args = seq!["pr"@, "create"@, "--fill"@, "--head"@, branch];
    ForgeCommandView {
        program: "gh"@,
        args: match base {
            Some(base) => args + seq!["--base"@, base],
            None => args,
        },
    }
}

/// A refusal with a message.
pub open spec fn refused(message: Seq<char>) -> ForgeStepView<
    CreatePullRequestView,
    CreateOutcomeView,
> {
    ForgeStepView::Finish(CreateOutcomeView::Refused(message))
}

/// The step once the base is known, or known not to be.
pub open spec fn create_base(
    branch: Seq<char>,
    step: ForgeStepView<BaseQuery, Option<Seq<char>>>,
) -> ForgeStepView<CreatePullRequestView, CreateOutcomeView> {
    match step {
        ForgeStepView::Run(command, query) => ForgeStepView::Run(
            command,
            CreatePullRequestView::Base { branch, query },
        ),
        ForgeStepView::Finish(base) => ForgeStepView::Run(
            push_command(),
            CreatePullRequestView::Pushing { branch, base: base_branch(base) },
        ),
    }
}

/// The step that follows an answer.
pub open spec fn create_next(s: CreatePullRequestView, reply: ForgeReplyView) -> ForgeStepView<
    CreatePullRequestView,
    CreateOutcomeView,
> {
    match (s, reply) {
        (CreatePullRequestView::Remote, _) => if says_github(reply) {
            ForgeStepView::Run(show_branch_command(), CreatePullRequestView::Branch)
        } else {
            refused("not a GitHub workspace"@)
        },
        (CreatePullRequestView::Branch, ForgeReplyView::Unstarted(message)) => refused(
            "failed to spawn git branch: "@ + message,
        ),
        (CreatePullRequestView::Branch, ForgeReplyView::Ran(output)) => match branch_answer(
            output.success,
            output.status,
            text::lossy_text(output.stdout),
            text::lossy_text(output.stderr),
        ) {
            Ok(branch) => ForgeStepView::Run(
                base_command(),
                CreatePullRequestView::Base { branch, query: BaseQuery::Head },
            ),
            Err(message) => refused(message),
        },
        (CreatePullRequestView::Base { branch, query }, _) => create_base(
            branch,
            base_next(query, reply),
        ),
        (CreatePullRequestView::Pushing { .. }, ForgeReplyView::Unstarted(message)) => refused(
            "failed to spawn git push: "@ + message,
        ),
        (CreatePullRequestView::Pushing { branch, base }, ForgeReplyView::Ran(output)) => {
            if output.success {
                ForgeStepView::Run(create_command(branch, base), CreatePullRequestView::Creating)
            } else {
                refused(
                    failure_message(
                        "git push"@,
                        text::trimmed(text::lossy_text(output.stderr)),
                        output.status,
                    ),
                )
            }
        },
        (CreatePullRequestView::Creating, ForgeReplyView::Unstarted(message)) => refused(
            "failed to spawn gh: "@ + message,
        ),
        (CreatePullRequestView::Creating, ForgeReplyView::Ran(output)) => if output.success {
            ForgeStepView::Finish(CreateOutcomeView::Created)
        } else {
            refused(
                failure_message(
                    "gh pr create"@,
                    error_lines(text::lossy_text(output.stderr)),
                    output.status,
                ),
            )
        },
    }
}

/// The message of a command that failed.
pub fn failure_text(what: &str, stderr: &str, status: &str) -> (r: String)
    ensures
        r@ == failure_message(what@, stderr@, status@),
{
    if stderr.unicode_len() > 0 {
        return stderr.to_owned();
    }
    let mut out = what.to_owned();
    out.append(" failed with status ");
    out.append(status);
    out
}

/// The branch that git names, from what it wrote.
pub fn branch_name(success: bool, status: &str, stdout: &str, stderr: &str) -> (r: Result<
    String,
    String,
>)
    ensures
        match r {
            Ok(branch) => branch_answer(success, status@, stdout@, stderr@) == Ok::<_, Seq<char>>(
                branch@,
            ),
            Err(message) => branch_answer(success, status@, stdout@, stderr@) == Err::<
                Seq<char>,
                _,
            >(message@),
        },
{
    if !success {
        return Err(failure_text("git branch", text::trim(stderr), status));
    }
    let branch = text::trim(stdout);
    if branch.unicode_len() == 0 {
        return Err("unable to determine current branch".to_owned());
    }
    Ok(branch.to_owned())
}

fn message_of(head: &str, message: &str) -> (r: CreateOutcome)
    ensures
        r@ == CreateOutcomeView::Refused(head@ + message@),
{
    let mut out = head.to_owned();
    out.append(message);
    CreateOutcome::Refused(out)
}

/// Begins to make a pull request of a workspace's branch.
pub fn create_pull_request() -> (r: ForgeStep<CreatePullRequest, CreateOutcome>)
    ensures
        r@ == ForgeStepView::<CreatePullRequestView, CreateOutcomeView>::Run(
            remote_command(),
            CreatePullRequestView::Remote,
        ),
{
    ForgeStep::Run(github_remote_query(), CreatePullRequest::Remote)
}

impl CreatePullRequest {
    /// The step that follows an answer.
    pub fn resume(self, reply: ForgeReply) -> (r: ForgeStep<CreatePullRequest, CreateOutcome>)
        ensures
            r@ == create_next(self@, reply@),
    {
        match (self, reply) {
            (CreatePullRequest::Remote, reply) => if is_github_workspace(&reply) {
                let args = vec!["branch".to_owned(), "--show-current".to_owned()];
                proof {
                    assert(args.deep_view() =~= seq!["branch"@, "--show-current"@]);
                }
                ForgeStep::Run(git(args), CreatePullRequest::Branch)
            } else {
                ForgeStep::Finish(CreateOutcome::Refused("not a GitHub workspace".to_owned()))
            },
            (CreatePullRequest::Branch, ForgeReply::Unstarted(message)) => ForgeStep::Finish(
                message_of("failed to spawn git branch: ", message.as_str()),
            ),
            (CreatePullRequest::Branch, ForgeReply::Ran(output)) => match branch_name(
                output.success,
                output.status.as_str(),
                text::decode_lossy(&output.stdout).as_str(),
                text::decode_lossy(&output.stderr).as_str(),
            ) {
                Ok(branch) => ForgeStep::Run(
                    ask_base(),
                    CreatePullRequest::Base { branch, query: BaseQuery::Head },
                ),
                Err(message) => ForgeStep::Finish(CreateOutcome::Refused(message)),
            },
            (CreatePullRequest::Base { branch, query }, reply) => match query.resume(reply) {
                ForgeStep::Run(command, query) => ForgeStep::Run(
                    command,
                    CreatePullRequest::Base { branch, query },
                ),
                ForgeStep::Finish(base) => {
                    let base: Option<String> = match &base {
                        Some(base) => match text::strip_prefix(base.as_str(), "origin/") {
                            Some(base) => Some(base.to_owned()),
                            None => None,
                        },
                        None => None,
                    };
                    let args = vec![
                        "push".to_owned(),
                        "--set-upstream".to_owned(),
                        "origin".to_owned(),
                        "HEAD".to_owned(),
                    ];
                    proof {
                        assert(args.deep_view()
                            =~= seq!["push"@, "--set-upstream"@, "origin"@, "HEAD"@]);
                    }
                    ForgeStep::Run(git(args), CreatePullRequest::Pushing { branch, base })
                },
            },
            (CreatePullRequest::Pushing { .. }, ForgeReply::Unstarted(message)) => {
                ForgeStep::Finish(message_of("failed to spawn git push: ", message.as_str()))
            },
            (CreatePullRequest::Pushing { branch, base }, ForgeReply::Ran(output)) => {
                if output.success {
                    let ghost head = branch@;
                    let mut args = vec![
                        "pr".to_owned(),
                        "create".to_owned(),
                        "--fill".to_owned(),
                        "--head".to_owned(),
                        branch,
                    ];
                    let ghost plain = seq!["pr"@, "create"@, "--fill"@, "--head"@, head];
                    proof {
                        assert(args.deep_view() =~= plain);
                    }
                    if let Some(base) = base {
                        let ghost against = base@;
                        args.push("--base".to_owned());
                        args.push(base);
                        proof {
                            assert(args.deep_view() =~= plain + seq!["--base"@, against]);
                        }
                    }
                    ForgeStep::Run(
                        ForgeCommand { program: "gh".to_owned(), args },
                        CreatePullRequest::Creating,
                    )
                } else {
                    let stderr = text::decode_lossy(&output.stderr);
                    ForgeStep::Finish(
                        CreateOutcome::Refused(
                            failure_text(
                                "git push",
                                text::trim(stderr.as_str()),
                                output.status.as_str(),
                            ),
                        ),
                    )
                }
            },
            (CreatePullRequest::Creating, ForgeReply::Unstarted(message)) => ForgeStep::Finish(
                message_of("failed to spawn gh: ", message.as_str()),
            ),
            (CreatePullRequest::Creating, ForgeReply::Ran(output)) => if output.success {
                ForgeStep::Finish(CreateOutcome::Created)
            } else {
                let stderr = format_command_stderr(&output.stderr);
                ForgeStep::Finish(
                    CreateOutcome::Refused(
                        failure_text("gh pr create", stderr.as_str(), output.status.as_str()),
                    ),
                )
            },
        }
    }
}

/// A check that failed decides, whatever the others say; without one, a check
/// that is pending leaves the outcome open.
pub proof fn law_failure_decides(checks: Seq<CheckView>, i: int)
    requires
        0 <= i < checks.len(),
    ensures
        failed(checks[i]) ==> checks_state(checks) == PullRequestStatusState::Failure,
        pending(checks[i]) && !any_failed(checks) ==> checks_state(checks)
            == PullRequestStatusState::Pending,
        checks_state(checks) == PullRequestStatusState::Success ==> !failed(checks[i]) && !pending(
            checks[i],
        ),
{
    if failed(checks[i]) {
        assert(any_failed(checks));
    }
    if pending(checks[i]) {
        assert(any_pending(checks));
    }
}

/// What the checks say does not depend on their order.
pub proof fn law_order_of_checks_is_irrelevant(a: Seq<CheckView>, b: Seq<CheckView>)
    requires
        a.to_multiset() == b.to_multiset(),
    ensures
        checks_state(a) == checks_state(b),
{
    let f = |c: CheckView| failed(c);
    let p = |c: CheckView| pending(c);
    crate::seqs::lemma_any_order(a, b, f);
    crate::seqs::lemma_any_order(a, b, p);
    assert(a.len() == b.len()) by {
        vstd::seq_lib::to_multiset_len(a);
        vstd::seq_lib::to_multiset_len(b);
    }
    lemma_any_as_predicate(a, f, p);
    lemma_any_as_predicate(b, f, p);
}

proof fn lemma_any_as_predicate(
    checks: Seq<CheckView>,
    f: spec_fn(CheckView) -> bool,
    p: spec_fn(CheckView) -> bool,
)
    requires
        forall|c: CheckView| #[trigger] f(c) == failed(c),
        forall|c: CheckView| #[trigger] p(c) == pending(c),
    ensures
        any_failed(checks) == crate::seqs::any(checks, f),
        any_pending(checks) == crate::seqs::any(checks, p),
{
    if any_failed(checks) {
        let i = choose|i: int| 0 <= i < checks.len() && failed(#[trigger] checks[i]);
        assert(f(checks[i]));
    }
    if crate::seqs::any(checks, f) {
        let i = choose|i: int| 0 <= i < checks.len() && f(#[trigger] checks[i]);
        assert(failed(checks[i]));
    }
    if any_pending(checks) {
        let i = choose|i: int| 0 <= i < checks.len() && pending(#[trigger] checks[i]);
        assert(p(checks[i]));
    }
    if crate::seqs::any(checks, p) {
        let i = choose|i: int| 0 <= i < checks.len() && p(#[trigger] checks[i]);
        assert(pending(checks[i]));
    }
}

/// A pull request that was closed without being merged has nothing to say, and
/// one that was merged is merged whatever its checks say.
pub proof fn law_only_open_and_merged_count(payload: PayloadView, number: u64)
    requires
        payload.number == Some(number),
    ensures
        payload.state == Some("MERGED"@) ==> status_of(payload) == Some(
            status_in(number, PullRequestStatusState::Merged, payload.url),
        ),
        payload.state != Some("MERGED"@) && payload.state != Some("OPEN"@) ==> status_of(payload)
            is None,
{
}

/// No pull request is made of a branch that was not pushed.
pub proof fn law_push_comes_before_the_pull_request(
    s: CreatePullRequestView,
    reply: ForgeReplyView,
)
    ensures
        create_next(s, reply) matches ForgeStepView::Run(command, next) ==> (next is Creating ==> (
        s matches CreatePullRequestView::Pushing { branch, base } && command == create_command(
            branch,
            base,
        ) && (reply matches ForgeReplyView::Ran(output) && output.success))),
        create_next(s, reply) == ForgeStepView::<CreatePullRequestView, CreateOutcomeView>::Finish(
            CreateOutcomeView::Created,
        ) ==> s is Creating && (reply matches ForgeReplyView::Ran(output) && output.success),
{
}

/// Warnings are dropped only where another line is left, and what is left is in
/// the order in which it was written.
pub proof fn law_warnings_give_way(lines: Seq<Seq<char>>)
    ensures
        without_warnings(lines).len() <= lines.len(),
        forall|i: int|
            0 <= i < without_warnings(lines).len() ==> !"Warning:"@.is_prefix_of(
                #[trigger] without_warnings(lines)[i],
            ) && lines.contains(without_warnings(lines)[i]),
        (forall|i: int| 0 <= i < lines.len() ==> "Warning:"@.is_prefix_of(#[trigger] lines[i]))
            <==> without_warnings(lines).len() == 0,
    decreases lines.len(),
{
    if lines.len() > 0 {
        let rest = lines.drop_last();
        law_warnings_give_way(rest);
        let out = without_warnings(lines);
        assert forall|i: int| 0 <= i < out.len() implies !"Warning:"@.is_prefix_of(
            #[trigger] out[i],
        ) && lines.contains(out[i]) by {
            if i < without_warnings(rest).len() {
                assert(out[i] == without_warnings(rest)[i]);
                let j = choose|j: int| 0 <= j < rest.len() && rest[j] == out[i];
                assert(lines[j] == out[i]);
            } else {
                assert(lines[lines.len() - 1] == out[i]);
            }
        }
        if without_warnings(lines).len() == 0 {
            assert forall|i: int| 0 <= i < lines.len() implies "Warning:"@.is_prefix_of(
                #[trigger] lines[i],
            ) by {
                if i < rest.len() {
                    assert(rest[i] == lines[i]);
                }
            }
        }
        if forall|i: int| 0 <= i < lines.len() ==> "Warning:"@.is_prefix_of(#[trigger] lines[i]) {
            assert forall|i: int| 0 <= i < rest.len() implies "Warning:"@.is_prefix_of(
                #[trigger] rest[i],
            ) by {
                assert(rest[i] == lines[i]);
            }
            assert("Warning:"@.is_prefix_of(lines[lines.len() - 1]));
        }
    }
}

/// Whether lines are filled, with no white space around them.
spec fn tidy(lines: Seq<Seq<char>>) -> bool {
    forall|i: int|
        0 <= i < lines.len() ==> (#[trigger] lines[i]).len() > 0 && text::trimmed(lines[i])
            == lines[i] && !lines[i].contains('\n')
}

proof fn lemma_filled_lines(lines: Seq<Seq<char>>)
    requires
        forall|i: int| 0 <= i < lines.len() ==> !(#[trigger] lines[i]).contains('\n'),
    ensures
        tidy(filled_lines(lines)),
        filled_lines(lines).len() == 0 <==> forall|i: int|
            0 <= i < lines.len() ==> text::blank(#[trigger] lines[i]),
    decreases lines.len(),
{
    if lines.len() > 0 {
        let front = lines.drop_last();
        let out = filled_lines(lines);
        let last = text::trimmed(lines.last());
        assert forall|i: int| 0 <= i < front.len() implies !(#[trigger] front[i]).contains(
            '\n',
        ) by {
            assert(front[i] == lines[i]);
        }
        lemma_filled_lines(front);
        text::lemma_trimmed_blank(lines.last());
        text::lemma_trimmed(lines.last());
        text::lemma_trimmed_twice(lines.last());
        assert(!last.contains('\n')) by {
            assert(!lines[lines.len() - 1].contains('\n'));
            if last.contains('\n') {
                let from = choose|i: int|
                    0 <= i && i + last.len() <= lines.last().len() && last
                        == #[trigger] lines.last().subrange(i, i + last.len());
                let j = choose|j: int| 0 <= j < last.len() && last[j] == '\n';
                assert(lines.last()[from + j] == '\n');
            }
        }
        assert forall|i: int| 0 <= i < out.len() implies (#[trigger] out[i]).len() > 0
            && text::trimmed(out[i]) == out[i] && !out[i].contains('\n') by {
            if i < filled_lines(front).len() {
                assert(out[i] == filled_lines(front)[i]);
            }
        }
        if out.len() == 0 {
            assert forall|i: int| 0 <= i < lines.len() implies text::blank(#[trigger] lines[i]) by {
                if i < front.len() {
                    assert(front[i] == lines[i]);
                }
            }
        }
        if forall|i: int| 0 <= i < lines.len() ==> text::blank(#[trigger] lines[i]) {
            assert(text::blank(lines[lines.len() - 1]));
            assert forall|i: int| 0 <= i < front.len() implies text::blank(#[trigger] front[i]) by {
                assert(front[i] == lines[i]);
            }
        }
    }
}

proof fn lemma_tidy_lines_stay(lines: Seq<Seq<char>>)
    requires
        tidy(lines),
    ensures
        filled_lines(lines) == lines,
    decreases lines.len(),
{
    if lines.len() > 0 {
        let front = lines.drop_last();
        assert forall|i: int| 0 <= i < front.len() implies (#[trigger] front[i]).len() > 0
            && text::trimmed(front[i]) == front[i] && !front[i].contains('\n') by {
            assert(front[i] == lines[i]);
        }
        lemma_tidy_lines_stay(front);
        assert(lines[lines.len() - 1].len() > 0);
        assert(front.push(lines.last()) =~= lines);
    }
    assert(filled_lines(lines) =~= lines);
}

proof fn lemma_no_warnings_stay(lines: Seq<Seq<char>>)
    requires
        forall|i: int| 0 <= i < lines.len() ==> !"Warning:"@.is_prefix_of(#[trigger] lines[i]),
    ensures
        without_warnings(lines) == lines,
    decreases lines.len(),
{
    if lines.len() > 0 {
        let front = lines.drop_last();
        assert forall|i: int| 0 <= i < front.len() implies !"Warning:"@.is_prefix_of(
            #[trigger] front[i],
        ) by {
            assert(front[i] == lines[i]);
        }
        lemma_no_warnings_stay(front);
        assert(!"Warning:"@.is_prefix_of(lines[lines.len() - 1]));
        assert(front.push(lines.last()) =~= lines);
    }
    assert(without_warnings(lines) =~= lines);
}

/// The lines of tidy lines that are joined are those lines again.
proof fn lemma_joined_lines_read_back(lines: Seq<Seq<char>>)
    requires
        tidy(lines),
    ensures
        filled_lines(text::line_list(text::joined(lines, "\n"@))) == lines,
        lines.len() > 0 ==> text::joined(lines, "\n"@).len() > 0,
{
    assert forall|i: int| 0 <= i < lines.len() implies (#[trigger] lines[i]).len() > 0
        && !lines[i].contains('\n') && lines[i].last() != '\r' by {
        text::lemma_trimmed(lines[i]);
    }
    text::lemma_lines_of_joined(lines);
    lemma_tidy_lines_stay(lines);
}

/// Error output that was put in order stays as it is when it is put in order again, as
/// a text and as the bytes of that text. Nothing is left of it exactly where it is
/// nothing but white space.
pub proof fn law_error_output_settles(stderr: Seq<char>)
    ensures
        error_lines(error_lines(stderr)) == error_lines(stderr),
        vstd::utf8::valid_utf8(vstd::utf8::encode_utf8(error_lines(stderr))),
        error_lines(vstd::utf8::decode_utf8(vstd::utf8::encode_utf8(error_lines(stderr))))
            == error_lines(stderr),
        error_lines(stderr).len() == 0 <==> text::blank(stderr),
{
    let lines = filled_lines(text::line_list(stderr));
    let meaningful = without_warnings(lines);
    text::lemma_line_list(stderr);
    lemma_filled_lines(text::line_list(stderr));
    law_warnings_give_way(lines);
    lemma_joined_lines_read_back(lines);
    assert(tidy(meaningful)) by {
        assert forall|i: int| 0 <= i < meaningful.len() implies (
        #[trigger] meaningful[i]).len() > 0 && text::trimmed(meaningful[i]) == meaningful[i]
            && !meaningful[i].contains('\n') by {
            assert(lines.contains(meaningful[i]));
            let j = choose|j: int| 0 <= j < lines.len() && lines[j] == meaningful[i];
            assert(lines[j].len() > 0);
        }
    }
    lemma_joined_lines_read_back(meaningful);
    lemma_no_warnings_stay(meaningful);
    vstd::utf8::encode_utf8_valid_utf8(error_lines(stderr));
    vstd::utf8::encode_utf8_decode_utf8(error_lines(stderr));
}

/// The commands that a query runs while it hears the given answers.
pub open spec fn commands<P, T>(
    step: ForgeStepView<P, T>,
    next: spec_fn(P, ForgeReplyView) -> ForgeStepView<P, T>,
    replies: Seq<ForgeReplyView>,
) -> Seq<ForgeCommandView>
    decreases replies.len(),
{
    match step {
        ForgeStepView::Run(command, state) => if replies.len() == 0 {
            seq![command]
        } else {
            seq![command] + commands(next(state, replies[0]), next, replies.skip(1))
        },
        _ => seq![],
    }
}

/// Where a query stands once it has heard the given answers.
pub open spec fn outcome<P, T>(
    step: ForgeStepView<P, T>,
    next: spec_fn(P, ForgeReplyView) -> ForgeStepView<P, T>,
    replies: Seq<ForgeReplyView>,
) -> ForgeStepView<P, T>
    decreases replies.len(),
{
    match step {
        ForgeStepView::Run(_, state) => if replies.len() == 0 {
            step
        } else {
            outcome(next(state, replies[0]), next, replies.skip(1))
        },
        _ => step,
    }
}

/// The command that makes a pull request has the branch behind `--head` and, where a base is
/// known, the base behind `--base`, and is asked for once the branch is pushed.
pub proof fn law_pull_request_has_its_head_and_its_base(
    branch: Seq<char>,
    base: Seq<char>,
    pushed: CommandOutputView,
)
    requires
        pushed.success,
    ensures
        create_next(
            CreatePullRequestView::Pushing { branch, base: Some(base) },
            ForgeReplyView::Ran(pushed),
        ) == ForgeStepView::<CreatePullRequestView, CreateOutcomeView>::Run(
            ForgeCommandView {
                program: "gh"@,
                args: seq![
                    "pr"@,
                    "create"@,
                    "--fill"@,
                    "--head"@,
                    branch,
                    "--base"@,
                    base,
                ],
            },
            CreatePullRequestView::Creating,
        ),
        create_next(
            CreatePullRequestView::Pushing { branch, base: None },
            ForgeReplyView::Ran(pushed),
        ) == ForgeStepView::<CreatePullRequestView, CreateOutcomeView>::Run(
            ForgeCommandView {
                program: "gh"@,
                args: seq!["pr"@, "create"@, "--fill"@, "--head"@, branch],
            },
            CreatePullRequestView::Creating,
        ),
{
    let head = seq!["pr"@, "create"@, "--fill"@, "--head"@, branch];
    assert(head + seq!["--base"@, base] =~= seq![
        "pr"@,
        "create"@,
        "--fill"@,
        "--head"@,
        branch,
        "--base"@,
        base,
    ]);
}

/// How making a pull request goes on.
pub open spec fn create_rule() -> spec_fn(CreatePullRequestView, ForgeReplyView) -> ForgeStepView<
    CreatePullRequestView,
    CreateOutcomeView,
> {
    |s: CreatePullRequestView, reply: ForgeReplyView| create_next(s, reply)
}

/// A command that succeeded with a text as its output.
pub open spec fn says(reply: ForgeReplyView, text: Seq<char>) -> bool {
    reply matches ForgeReplyView::Ran(output) && output.success && text::lossy_text(output.stdout)
        == text
}

/// Making a pull request, written out: git is asked for the remote, the current branch and
/// the remote's head, the branch is pushed, and the pull request is made of this branch
/// against the branch that the remote's head names.
#[verifier::spinoff_prover]
#[verifier::rlimit(40)]
pub proof fn law_pull_request_written_out(
    remote: ForgeReplyView,
    shown: ForgeReplyView,
    head: ForgeReplyView,
    pushed: ForgeReplyView,
    made: ForgeReplyView,
    branch: Seq<char>,
    base: Seq<char>,
)
    requires
        says_github(remote),
        branch.len() > 0,
        !text::whitespace(branch[0]),
        !text::whitespace(branch.last()),
        says(shown, branch + "\n"@) || says(shown, branch),
        base.len() > 0 ==> !text::whitespace(base.last()),
        says(head, "origin/"@ + base + "\n"@) || says(head, "origin/"@ + base),
        pushed matches ForgeReplyView::Ran(output) && output.success,
        made matches ForgeReplyView::Ran(output) && output.success,
    ensures
        ({
            let start = ForgeStepView::<CreatePullRequestView, CreateOutcomeView>::Run(
                ForgeCommandView {
                    program: "git"@,
                    args: seq!["config"@, "--get"@, "remote.origin.url"@],
                },
                CreatePullRequestView::Remote,
            );
            let replies = seq![remote, shown, head, pushed, made];
            &&& commands(start, create_rule(), replies) == seq![
                ForgeCommandView {
                    program: "git"@,
                    args: seq!["config"@, "--get"@, "remote.origin.url"@],
                },
                ForgeCommandView {
                    program: "git"@,
                    args: seq!["branch"@, "--show-current"@],
                },
                ForgeCommandView {
                    program: "git"@,
                    args: seq!["rev-parse"@, "--abbrev-ref"@, "origin/HEAD"@],
                },
                ForgeCommandView {
                    program: "git"@,
                    args: seq!["push"@, "--set-upstream"@, "origin"@, "HEAD"@],
                },
                ForgeCommandView {
                    program: "gh"@,
                    args: seq![
                        "pr"@,
                        "create"@,
                        "--fill"@,
                        "--head"@,
                        branch,
                        "--base"@,
                        base,
                    ],
                },
            ]
            &&& outcome(start, create_rule(), replies) == ForgeStepView::<
                CreatePullRequestView,
                CreateOutcomeView,
            >::Finish(CreateOutcomeView::Created)
        }),
{
    reveal_strlit("\n");
    reveal_strlit("origin/");
    reveal_strlit("HEAD");
    let none = Seq::<char>::empty();
    assert(text::blank("\n"@));
    text::law_trimming_keeps_the_inside(none, branch, none);
    text::law_trimming_keeps_the_inside(none, branch, "\n"@);
    assert(none + branch + none =~= branch);
    assert(none + branch + "\n"@ =~= branch + "\n"@);
    let named = "origin/"@ + base;
    assert(named[0] == 'o');
    assert(named.last() == if base.len() > 0 {
        base.last()
    } else {
        '/'
    });
    text::law_trimming_keeps_the_inside(none, named, none);
    text::law_trimming_keeps_the_inside(none, named, "\n"@);
    assert(none + named + none =~= named);
    assert(none + named + "\n"@ =~= named + "\n"@);
    assert("HEAD"@[0] == 'H');
    text::law_prefixes_and_suffixes("origin/"@, base);
    law_pull_request_has_its_head_and_its_base(branch, base, pushed->Ran_0);
    let start = ForgeStepView::<CreatePullRequestView, CreateOutcomeView>::Run(
        remote_command(),
        CreatePullRequestView::Remote,
    );
    let replies = seq![remote, shown, head, pushed, made];
    let second = create_next(CreatePullRequestView::Remote, remote);
    let third = create_next(CreatePullRequestView::Branch, shown);
    let asking = CreatePullRequestView::Base { branch, query: BaseQuery::Head };
    assert(third == ForgeStepView::<CreatePullRequestView, CreateOutcomeView>::Run(
        base_command(),
        asking,
    ));
    let pushing = CreatePullRequestView::Pushing { branch, base: Some(base) };
    let fourth = create_next(asking, head);
    assert(fourth == ForgeStepView::<CreatePullRequestView, CreateOutcomeView>::Run(
        push_command(),
        pushing,
    ));
    reveal_with_fuel(commands, 6);
    reveal_with_fuel(outcome, 6);
    assert(replies.skip(1)[0] == shown);
    assert(replies.skip(1).skip(1)[0] == head);
    assert(replies.skip(1).skip(1).skip(1)[0] == pushed);
    assert(replies.skip(1).skip(1).skip(1).skip(1)[0] == made);
    assert(replies.skip(1).skip(1).skip(1).skip(1).skip(1).len() == 0);
    assert(commands(start, create_rule(), replies) =~= seq![
        remote_command(),
        show_branch_command(),
        base_command(),
        push_command(),
        create_command(branch, Some(base)),
    ]);
}

/// The base of a branch is what the remote's head names; where that tells nothing,
/// `origin/main` and then `origin/master` is taken where it exists.
pub proof fn law_base_written_out(reply: ForgeReplyView, output: CommandOutputView)
    ensures
        ({
            let verify = |name: Seq<char>|
                ForgeCommandView {
                    program: "git"@,
                    args: seq!["rev-parse"@, "--verify"@, "--quiet"@, name],
                };
            let value = text::trimmed(text::lossy_text(output.stdout));
            let told = output.success && value.len() > 0 && value != "HEAD"@;
            let ran = ForgeReplyView::Ran(output);
            &&& reply is Unstarted ==> base_next(BaseQuery::Head, reply) == ForgeStepView::<
                BaseQuery,
                Option<Seq<char>>,
            >::Finish(None)
            &&& told ==> base_next(BaseQuery::Head, ran) == ForgeStepView::<
                BaseQuery,
                Option<Seq<char>>,
            >::Finish(Some(value))
            &&& !told ==> base_next(BaseQuery::Head, ran) == ForgeStepView::<
                BaseQuery,
                Option<Seq<char>>,
            >::Run(verify("origin/main"@), BaseQuery::Main)
            &&& base_next(BaseQuery::Main, ran) == (if output.success {
                ForgeStepView::<BaseQuery, Option<Seq<char>>>::Finish(Some("origin/main"@))
            } else {
                ForgeStepView::Run(verify("origin/master"@), BaseQuery::Master)
            })
            &&& base_next(BaseQuery::Master, ran) == ForgeStepView::<
                BaseQuery,
                Option<Seq<char>>,
            >::Finish(
                if output.success {
                    Some("origin/master"@)
                } else {
                    None
                },
            )
        }),
{
}

/// The commits that a workspace is ahead are those that its head has and its base has not;
/// their number is read from what git writes.
pub proof fn law_ahead_written_out(
    base: Seq<char>,
    n: u32,
    front: Seq<char>,
    back: Seq<char>,
    head: ForgeReplyView,
    counted: ForgeReplyView,
)
    requires
        base.len() > 0,
        !text::whitespace(base[0]),
        !text::whitespace(base.last()),
        base != "HEAD"@,
        says(head, base),
        text::blank(front),
        text::blank(back),
        says(counted, front + text::decimal(n as nat) + back),
    ensures
        ({
            &&& ahead_next(AheadQuery::Base(BaseQuery::Head), head) == ForgeStepView::<
                AheadQuery,
                Option<u32>,
            >::Run(
                ForgeCommandView {
                    program: "git"@,
                    args: seq!["rev-list"@, "--count"@, base + "..HEAD"@],
                },
                AheadQuery::Counting,
            )
            &&& ahead_next(AheadQuery::Counting, counted) == ForgeStepView::<
                AheadQuery,
                Option<u32>,
            >::Finish(Some(n))
        }),
{
    text::lemma_trimmed_fixed(base);
    let digits = text::decimal(n as nat);
    text::law_decimal_digits(n as nat, 0);
    text::law_numbers_read_back(n as int, 0, u32::MAX as int);
    assert(text::is_digit(digits[0]) && text::is_digit(digits.last()));
    text::law_trimming_keeps_the_inside(front, digits, back);
}

/// A pull request is asked for only of a workspace on GitHub, by its number, its state, its
/// checks and its address.
pub proof fn law_status_query_written_out(remote: ForgeReplyView, answer: ForgeReplyView)
    ensures
        says_github(remote) ==> status_next(StatusQuery::Remote, remote) == ForgeStepView::<
            StatusQuery,
            Option<PullRequestStatusView>,
        >::Run(
            ForgeCommandView {
                program: "gh"@,
                args: seq!["pr"@, "view"@, "--json"@, "number,state,statusCheckRollup,url"@],
            },
            StatusQuery::Viewing,
        ),
        !says_github(remote) ==> status_next(StatusQuery::Remote, remote) == ForgeStepView::<
            StatusQuery,
            Option<PullRequestStatusView>,
        >::Finish(None),
        !(answer matches ForgeReplyView::Ran(output) && output.success) ==> status_next(
            StatusQuery::Viewing,
            answer,
        ) == ForgeStepView::<StatusQuery, Option<PullRequestStatusView>>::Finish(None),
        (answer matches ForgeReplyView::Ran(output) && output.success) ==> status_next(
            StatusQuery::Viewing,
            answer,
        ) == ForgeStepView::<StatusQuery, Option<PullRequestStatusView>>::Finish(
            match json_document(answer->Ran_0.stdout) {
                Ok(value) => status_of(payload_in(value)),
                Err(_) => None,
            },
        ),
{
}

/// A workspace is on GitHub where its remote names `github.com` anywhere, or is one of the
/// user `git` at the host `github`. A remote that cannot be asked for is on none.
#[verifier::spinoff_prover]
#[verifier::rlimit(40)]
pub proof fn law_github_remotes(
    front: Seq<char>,
    back: Seq<char>,
    blank: Seq<char>,
    reply: ForgeReplyView,
)
    requires
        text::blank(blank),
        front.len() > 0 ==> !text::whitespace(front[0]),
        back.len() > 0 ==> !text::whitespace(back.last()),
    ensures
        on_github(blank + (front + "github.com"@ + back) + blank),
        on_github(blank + ("git@github:"@ + back) + blank),
        !(reply matches ForgeReplyView::Ran(output) && output.success) ==> !says_github(reply),
        says(reply, blank + (front + "github.com"@ + back) + blank) ==> says_github(reply),
{
    let url = front + "github.com"@ + back;
    lemma_names_github(front, back);
    text::law_trimming_keeps_the_inside(blank, url, blank);
    let scp = "git@github:"@ + back;
    lemma_git_at_github(back);
    text::law_trimming_keeps_the_inside(blank, scp, blank);
}

#[verifier::spinoff_prover]
proof fn lemma_names_github(front: Seq<char>, back: Seq<char>)
    requires
        front.len() > 0 ==> !text::whitespace(front[0]),
        back.len() > 0 ==> !text::whitespace(back.last()),
    ensures
        ({
            let url = front + "github.com"@ + back;
            &&& url.len() > 0
            &&& !text::whitespace(url[0])
            &&& !text::whitespace(url.last())
            &&& text::find_pattern(url, "github.com"@) is Some
        }),
{
    reveal_strlit("github.com");
    let url = front + "github.com"@ + back;
    assert(url[0] == if front.len() > 0 {
        front[0]
    } else {
        'g'
    });
    assert(url.last() == if back.len() > 0 {
        back.last()
    } else {
        'm'
    });
    lemma_is_found(front, "github.com"@, back);
}

#[verifier::spinoff_prover]
proof fn lemma_is_found(front: Seq<char>, pattern: Seq<char>, back: Seq<char>)
    ensures
        text::find_pattern(front + pattern + back, pattern) is Some,
{
    let s = front + pattern + back;
    let n = front.len() as int;
    assert(s.skip(n) =~= pattern + back);
    assert((pattern + back).subrange(0, pattern.len() as int) =~= pattern);
    assert(pattern.is_prefix_of(s.skip(n)));
    text::lemma_find_pattern(s, pattern);
}

proof fn lemma_git_at_github(back: Seq<char>)
    requires
        back.len() > 0 ==> !text::whitespace(back.last()),
    ensures
        ({
            let scp = "git@github:"@ + back;
            &&& scp.len() > 0
            &&& !text::whitespace(scp[0])
            &&& !text::whitespace(scp.last())
            &&& "git@github:"@.is_prefix_of(scp)
        }),
{
    reveal_strlit("git@github:");
    let scp = "git@github:"@ + back;
    assert(scp[0] == 'g');
    assert(scp.last() == if back.len() > 0 {
        back.last()
    } else {
        ':'
    });
    assert(scp.subrange(0, 11) =~= "git@github:"@);
}

/// A remote that names no `github` at all is not on GitHub.
pub proof fn law_other_remotes(remote: Seq<char>)
    requires
        on_github(remote),
    ensures
        exists|i: int|
            0 <= i <= text::trimmed(remote).len() && "github"@.is_prefix_of(
                #[trigger] text::trimmed(remote).skip(i),
            ),
{
    reveal_strlit("github");
    reveal_strlit("github.com");
    reveal_strlit("git@github:");
    reveal_strlit("ssh://git@github.com/");
    let url = text::trimmed(remote);
    text::lemma_find_pattern(url, "github.com"@);
    if let Some(i) = text::find_pattern(url, "github.com"@) {
        let rest = url.skip(i);
        assert forall|k: int| 0 <= k < "github"@.len() implies rest[k] == "github"@[k] by {
            assert(rest[k] == "github.com"@[k]);
        }
        assert("github"@.is_prefix_of(rest));
    } else if "git@github:"@.is_prefix_of(url) {
        let rest = url.skip(4);
        assert forall|k: int| 0 <= k < "github"@.len() implies rest[k] == "github"@[k] by {
            assert(url[k + 4] == "git@github:"@[k + 4]);
        }
        assert("github"@.is_prefix_of(rest));
    } else {
        let rest = url.skip(10);
        assert forall|k: int| 0 <= k < "github"@.len() implies rest[k] == "github"@[k] by {
            assert(url[k + 10] == "ssh://git@github.com/"@[k + 10]);
        }
        assert("github"@.is_prefix_of(rest));
    }
}

/// What each way to fail is answered: a workspace that is not on GitHub, a command that
/// cannot be started, and one that fails, which is told by its error output or, without any,
/// by its status.
pub proof fn law_refusals_written_out(
    s: CreatePullRequestView,
    reply: ForgeReplyView,
    message: Seq<char>,
    output: CommandOutputView,
)
    ensures
        ({
            let said = text::trimmed(text::lossy_text(output.stderr));
            let failed = ForgeReplyView::Ran(output);
            let told = |what: Seq<char>, stderr: Seq<char>| if stderr.len() > 0 {
                stderr
            } else {
                what + " failed with status "@ + output.status
            };
            &&& s is Remote && !says_github(reply) ==> create_next(s, reply) == refused(
                "not a GitHub workspace"@,
            )
            &&& s is Branch ==> create_next(s, ForgeReplyView::Unstarted(message)) == refused(
                "failed to spawn git branch: "@ + message,
            )
            &&& s is Pushing ==> create_next(s, ForgeReplyView::Unstarted(message)) == refused(
                "failed to spawn git push: "@ + message,
            )
            &&& s is Creating ==> create_next(s, ForgeReplyView::Unstarted(message)) == refused(
                "failed to spawn gh: "@ + message,
            )
            &&& s is Branch && !output.success ==> create_next(s, failed) == refused(
                told("git branch"@, said),
            )
            &&& s is Branch && output.success && text::blank(text::lossy_text(output.stdout))
                ==> create_next(s, failed) == refused("unable to determine current branch"@)
            &&& s is Pushing && !output.success ==> create_next(s, failed) == refused(
                told("git push"@, said),
            )
            &&& s is Creating && !output.success ==> create_next(s, failed) == refused(
                told("gh pr create"@, error_lines(text::lossy_text(output.stderr))),
            )
            &&& forall|m: Seq<char>| #[trigger]
                refused(m) == ForgeStepView::<CreatePullRequestView, CreateOutcomeView>::Finish(
                    CreateOutcomeView::Refused(m),
                )
        }),
{
    text::lemma_trimmed_blank(text::lossy_text(output.stdout));
}

/// A check has failed exactly where its conclusion, or its status under either name, is one
/// of these, and is pending where it has no conclusion or one of these.
pub proof fn law_checks_written_out(check: CheckView)
    ensures
        ({
            let status = if check.status is Some {
                check.status
            } else {
                check.state
            };
            let conclusions = seq![
                "ACTION_REQUIRED"@,
                "CANCELLED"@,
                "FAILURE"@,
                "STALE"@,
                "STARTUP_FAILURE"@,
                "TIMED_OUT"@,
            ];
            let open = seq![
                "EXPECTED"@,
                "IN_PROGRESS"@,
                "PENDING"@,
                "QUEUED"@,
                "REQUESTED"@,
                "WAITING"@,
            ];
            &&& failed(check) <==> (check.conclusion is Some && conclusions.contains(
                check.conclusion->0,
            )) || (status is Some && seq!["FAILURE"@, "ERROR"@].contains(status->0))
            &&& pending(check) <==> check.conclusion is None || (status is Some && open.contains(
                status->0,
            ))
        }),
{
    let conclusions = seq![
        "ACTION_REQUIRED"@,
        "CANCELLED"@,
        "FAILURE"@,
        "STALE"@,
        "STARTUP_FAILURE"@,
        "TIMED_OUT"@,
    ];
    let open = seq![
        "EXPECTED"@,
        "IN_PROGRESS"@,
        "PENDING"@,
        "QUEUED"@,
        "REQUESTED"@,
        "WAITING"@,
    ];
    let bad = seq!["FAILURE"@, "ERROR"@];
    assert(conclusions[0] == "ACTION_REQUIRED"@ && conclusions[1] == "CANCELLED"@ && conclusions[2]
        == "FAILURE"@ && conclusions[3] == "STALE"@ && conclusions[4] == "STARTUP_FAILURE"@
        && conclusions[5] == "TIMED_OUT"@);
    assert(open[0] == "EXPECTED"@ && open[1] == "IN_PROGRESS"@ && open[2] == "PENDING"@ && open[3]
        == "QUEUED"@ && open[4] == "REQUESTED"@ && open[5] == "WAITING"@);
    assert(bad[0] == "FAILURE"@ && bad[1] == "ERROR"@);
}

/// What checks say together: failure with one that failed, else pending with one that is
/// pending or with none at all, else success.
pub proof fn law_checks_together(checks: Seq<CheckView>)
    ensures
        checks_state(checks) == PullRequestStatusState::Failure <==> exists|i: int|
            0 <= i < checks.len() && failed(#[trigger] checks[i]),
        checks_state(checks) == PullRequestStatusState::Success <==> checks.len() > 0 && forall|
            i: int,
        |
            0 <= i < checks.len() ==> !failed(#[trigger] checks[i]) && !pending(checks[i]),
        checks_state(checks) != PullRequestStatusState::Merged,
{
}

/// How a pull request is told: its number behind `PR #` and what its state is called. One
/// that is open stands as its checks say.
pub proof fn law_status_written_out(payload: PayloadView, number: u64)
    requires
        payload.number == Some(number),
    ensures
        ({
            let head = "PR #"@ + text::decimal(number as nat);
            &&& payload.state == Some("MERGED"@) ==> status_of(payload) == Some(
                (PullRequestStatusView {
                    number,
                    state: PullRequestStatusState::Merged,
                    summary: head + " merged"@,
                    url: payload.url,
                }),
            )
            &&& payload.state == Some("OPEN"@) ==> status_of(payload) == Some(
                (PullRequestStatusView {
                    number,
                    state: checks_state(payload.checks),
                    summary: head + (match checks_state(payload.checks) {
                        PullRequestStatusState::Failure => " checks failing"@,
                        PullRequestStatusState::Pending => " checks pending"@,
                        _ => " checks passing"@,
                    }),
                    url: payload.url,
                }),
            )
        }),
{
    reveal_strlit("MERGED");
    reveal_strlit("OPEN");
    assert("MERGED"@.len() != "OPEN"@.len());
}

/// Without a number or a state there is nothing to tell.
pub proof fn law_status_needs_number_and_state(payload: PayloadView)
    requires
        payload.number is None || payload.state is None,
    ensures
        status_of(payload) is None,
{
}

/// What is read of a pull request is found under these keys: `number`, `state`, `url` and
/// `statusCheckRollup`, and of each check under `conclusion`, `status` and `state`.
pub proof fn law_payload_written_out(
    members: Map<Seq<char>, JsonView>,
    number: u64,
    state: Seq<char>,
    url: Seq<char>,
    checks: Seq<JsonView>,
)
    requires
        members.contains_pair("number"@, JsonView::Number(Some(number))),
        members.contains_pair("state"@, JsonView::Text(state)),
        members.contains_pair("url"@, JsonView::Text(url)),
        members.contains_pair("statusCheckRollup"@, JsonView::Array(checks)),
    ensures
        payload_in(JsonView::Object(members)) == (PayloadView {
            number: Some(number),
            state: Some(state),
            url: Some(url),
            checks: Seq::new(checks.len(), |i: int| check_in(checks[i])),
        }),
{
}

/// Of a check each text is read under its own key; what is no text, or not there, is not
/// read.
pub proof fn law_check_written_out(members: Map<Seq<char>, JsonView>)
    ensures
        ({
            let text_at = |key: Seq<char>| if members.contains_key(key) {
                match members[key] {
                    JsonView::Text(text) => Some(text),
                    _ => None,
                }
            } else {
                None
            };
            check_in(JsonView::Object(members)) == (CheckView {
                conclusion: text_at("conclusion"@),
                status: text_at("status"@),
                state: text_at("state"@),
            })
        }),
{
}

/// What is left of error output: the lines with something in them, each without white space
/// around it and in their order; a line that begins with `Warning:` only where there is no
/// other.
pub proof fn law_error_output_written_out(lines: Seq<Seq<char>>, line: Seq<char>)
    ensures
        filled_lines(seq![]) == Seq::<Seq<char>>::empty(),
        filled_lines(lines + seq![line]) == (if text::blank(line) {
            filled_lines(lines)
        } else {
            filled_lines(lines) + seq![text::trimmed(line)]
        }),
        without_warnings(seq![]) == Seq::<Seq<char>>::empty(),
        without_warnings(lines + seq![line]) == (if "Warning:"@.is_prefix_of(line) {
            without_warnings(lines)
        } else {
            without_warnings(lines) + seq![line]
        }),
{
    let all = lines + seq![line];
    assert(all.drop_last() =~= lines);
    text::lemma_trimmed_blank(line);
    assert(filled_lines(lines).push(text::trimmed(line)) =~= filled_lines(lines) + seq![
        text::trimmed(line),
    ]);
    assert(without_warnings(lines).push(line) =~= without_warnings(lines) + seq![line]);
}

/// Error output is its lines without warnings, one below the other; where there is nothing
/// but warnings, it is the warnings.
pub proof fn law_error_lines_written_out(stderr: Seq<char>)
    ensures
        ({
            let lines = filled_lines(text::line_list(stderr));
            let other = lines.filter(|line: Seq<char>| !"Warning:"@.is_prefix_of(line));
            error_lines(stderr) == text::joined(
                if other.len() > 0 {
                    other
                } else {
                    lines
                },
                seq!['\n'],
            )
        }),
{
    reveal_strlit("\n");
    assert("\n"@ =~= seq!['\n']);
    lemma_without_warnings(filled_lines(text::line_list(stderr)));
}

proof fn lemma_without_warnings(lines: Seq<Seq<char>>)
    ensures
        without_warnings(lines) == lines.filter(
            |line: Seq<char>| !"Warning:"@.is_prefix_of(line),
        ),
    decreases lines.len(),
{
    reveal(Seq::filter);
    if lines.len() > 0 {
        lemma_without_warnings(lines.drop_last());
    }
}

} // verus!
