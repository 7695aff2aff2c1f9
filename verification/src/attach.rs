//! The loop that attaches a user's terminal to a session: what the user types
//! goes to the session, what the session writes is shown, and `Ctrl-]` ends it.

use crate::error::{SwarmError, SwarmErrorView};
use vstd::prelude::*;

verus! {

/// The byte that detaches: `Ctrl-]`.
pub const ATTACH_DETACH_BYTE: u8 = 0x1d;

/// What is shown when a user is attached.
pub fn attach_banner() -> (r: String)
    ensures
        r@ == "[attached, press Ctrl-] to detach]\r\n"@,
{
    "[attached, press Ctrl-] to detach]\r\n".to_owned()
}

/// What the loop asks for: to wait for something to read, to read what the user
/// typed, to send it, to read from the session, or to show what it wrote.
#[derive(Debug)]
pub enum AttachEffect {
    Wait,
    ReadInput,
    Send(Vec<u8>),
    ReadSession,
    Show(Vec<u8>),
}

/// What an `AttachEffect` holds.
#[verifier::ext_equal]
pub enum AttachEffectView {
    Wait,
    ReadInput,
    Send(Seq<u8>),
    ReadSession,
    Show(Seq<u8>),
}

impl View for AttachEffect {
    type V = AttachEffectView;

    open spec fn view(&self) -> AttachEffectView {
        match self {
            AttachEffect::Wait => AttachEffectView::Wait,
            AttachEffect::ReadInput => AttachEffectView::ReadInput,
            AttachEffect::Send(a) => AttachEffectView::Send(a@),
            AttachEffect::ReadSession => AttachEffectView::ReadSession,
            AttachEffect::Show(a) => AttachEffectView::Show(a@),
        }
    }
}

impl DeepView for AttachEffect {
    type V = AttachEffectView;

    open spec fn deep_view(&self) -> AttachEffectView {
        self@
    }
}

impl Clone for AttachEffect {
    fn clone(&self) -> (r: Self)
        ensures
            r@ == self@,
    {
        match self {
            AttachEffect::Wait => AttachEffect::Wait,
            AttachEffect::ReadInput => AttachEffect::ReadInput,
            AttachEffect::Send(a) => AttachEffect::Send(a.clone()),
            AttachEffect::ReadSession => AttachEffect::ReadSession,
            AttachEffect::Show(a) => AttachEffect::Show(a.clone()),
        }
    }
}

/// What the loop hears back: what can be read, that the wait was interrupted,
/// bytes (none at an end), that something is done or that it failed.
#[derive(Debug)]
pub enum AttachReply {
    Ready { input: bool, session: bool },
    Interrupted,
    Bytes(Vec<u8>),
    Done,
    Failed(SwarmError),
}

/// What an `AttachReply` holds.
#[verifier::ext_equal]
pub enum AttachReplyView {
    Ready { input: bool, session: bool },
    Interrupted,
    Bytes(Seq<u8>),
    Done,
    Failed(SwarmErrorView),
}

impl View for AttachReply {
    type V = AttachReplyView;

    open spec fn view(&self) -> AttachReplyView {
        match self {
            AttachReply::Ready { input, session } => AttachReplyView::Ready {
                input: *input,
                session: *session,
            },
            AttachReply::Interrupted => AttachReplyView::Interrupted,
            AttachReply::Bytes(a) => AttachReplyView::Bytes(a@),
            AttachReply::Done => AttachReplyView::Done,
            AttachReply::Failed(a) => AttachReplyView::Failed(a@),
        }
    }
}

impl DeepView for AttachReply {
    type V = AttachReplyView;

    open spec fn deep_view(&self) -> AttachReplyView {
        self@
    }
}

impl Clone for AttachReply {
    fn clone(&self) -> (r: Self)
        ensures
            r@ == self@,
    {
        match self {
            AttachReply::Ready { input, session } => AttachReply::Ready {
                input: *input,
                session: *session,
            },
            AttachReply::Interrupted => AttachReply::Interrupted,
            AttachReply::Bytes(a) => AttachReply::Bytes(a.clone()),
            AttachReply::Done => AttachReply::Done,
            AttachReply::Failed(a) => AttachReply::Failed(a.clone()),
        }
    }
}

/// What the loop waits for. Behind what the user typed, the session is read
/// where it had something to say.
#[derive(Debug, Clone, Copy, PartialEq, Eq, Structural)]
pub enum AttachPhase {
    Waiting,
    ReadingInput { session: bool },
    Sending { session: bool },
    SendingLast,
    ReadingSession,
    Showing { last: u8 },
}

/// The loop: the last byte that was shown, and what the loop waits for.
#[derive(Debug, Clone, Copy, PartialEq, Eq, Structural)]
pub struct Attach {
    pub last: Option<u8>,
    pub phase: AttachPhase,
}

/// What the loop does next: ask for an effect, or end. At its end a new line is
/// shown unless one was shown last.
#[derive(Debug)]
pub enum AttachStep {
    Run(AttachEffect, Attach),
    Finish { result: Result<(), SwarmError>, newline: bool },
    Mismatch,
}

/// What an `AttachStep` holds.
#[verifier::ext_equal]
pub enum AttachStepView {
    Run(AttachEffectView, Attach),
    Finish { result: Result<(), SwarmErrorView>, newline: bool },
    Mismatch,
}

impl View for AttachStep {
    type V = AttachStepView;

    open spec fn view(&self) -> AttachStepView {
        match self {
            AttachStep::Run(effect, state) => AttachStepView::Run(effect@, *state),
            AttachStep::Finish { result: Ok(()), newline } => AttachStepView::Finish {
                result: Ok(()),
                newline: *newline,
            },
            AttachStep::Finish { result: Err(e), newline } => AttachStepView::Finish {
                result: Err(e@),
                newline: *newline,
            },
            AttachStep::Mismatch => AttachStepView::Mismatch,
        }
    }
}

/// The position of the first byte that detaches, or the length.
pub open spec fn detach_at(input: Seq<u8>) -> int
    decreases input.len(),
{
    if input.len() == 0 || input[0] == ATTACH_DETACH_BYTE {
        0
    } else {
        1 + detach_at(input.skip(1))
    }
}

/// The loop in a phase.
pub open spec fn attach_in(last: Option<u8>, phase: AttachPhase) -> Attach {
    Attach { last, phase }
}

/// The end of the loop.
pub open spec fn detach(last: Option<u8>, result: Result<(), SwarmErrorView>) -> AttachStepView {
    AttachStepView::Finish { result, newline: last != Some(10u8) && last != Some(13u8) }
}

/// The step that waits for something to read.
pub open spec fn wait(last: Option<u8>) -> AttachStepView {
    AttachStepView::Run(AttachEffectView::Wait, attach_in(last, AttachPhase::Waiting))
}

/// The step behind what the user typed.
pub open spec fn then_session(last: Option<u8>, session: bool) -> AttachStepView {
    if session {
        AttachStepView::Run(
            AttachEffectView::ReadSession,
            attach_in(last, AttachPhase::ReadingSession),
        )
    } else {
        wait(last)
    }
}

/// The step that follows an answer.
pub open spec fn attach_next(s: Attach, reply: AttachReplyView) -> AttachStepView {
    match (s.phase, reply) {
        (_, AttachReplyView::Failed(e)) => detach(s.last, Err(e)),
        (AttachPhase::Waiting, AttachReplyView::Interrupted) => wait(s.last),
        (AttachPhase::Waiting, AttachReplyView::Ready { input, session }) => if input {
            AttachStepView::Run(
                AttachEffectView::ReadInput,
                attach_in(s.last, AttachPhase::ReadingInput { session }),
            )
        } else {
            then_session(s.last, session)
        },
        (AttachPhase::ReadingInput { session }, AttachReplyView::Bytes(input)) => {
            let at = detach_at(input);
            if at == 0 {
                detach(s.last, Ok(()))
            } else if at < input.len() {
                AttachStepView::Run(
                    AttachEffectView::Send(input.take(at)),
                    attach_in(s.last, AttachPhase::SendingLast),
                )
            } else {
                AttachStepView::Run(
                    AttachEffectView::Send(input),
                    attach_in(s.last, AttachPhase::Sending { session }),
                )
            }
        },
        (AttachPhase::SendingLast, AttachReplyView::Done) => detach(s.last, Ok(())),
        (AttachPhase::Sending { session }, AttachReplyView::Done) => then_session(s.last, session),
        (AttachPhase::ReadingSession, AttachReplyView::Bytes(output)) => if output.len() == 0 {
            detach(s.last, Ok(()))
        } else {
            AttachStepView::Run(
                AttachEffectView::Show(output),
                attach_in(s.last, AttachPhase::Showing { last: output.last() }),
            )
        },
        (AttachPhase::Showing { last }, AttachReplyView::Done) => wait(Some(last)),
        _ => AttachStepView::Mismatch,
    }
}

proof fn lemma_detach_at(input: Seq<u8>, i: int)
    requires
        0 <= i <= input.len(),
        forall|j: int| 0 <= j < i ==> input[j] != ATTACH_DETACH_BYTE,
        i < input.len() ==> input[i] == ATTACH_DETACH_BYTE,
    ensures
        detach_at(input) == i,
    decreases input.len(),
{
    if i > 0 {
        assert(input[0] != ATTACH_DETACH_BYTE);
        let rest = input.skip(1);
        assert forall|j: int| 0 <= j < i - 1 implies rest[j] != ATTACH_DETACH_BYTE by {
            assert(rest[j] == input[j + 1]);
        }
        lemma_detach_at(rest, i - 1);
    }
}

fn detach_position(input: &Vec<u8>) -> (r: usize)
    ensures
        r == detach_at(input@),
        r <= input@.len(),
{
    let mut i: usize = 0;
    while i < input.len() && input[i] != ATTACH_DETACH_BYTE
        invariant
            i <= input.len(),
            forall|j: int| 0 <= j < i ==> input@[j] != ATTACH_DETACH_BYTE,
        decreases input.len() - i,
    {
        i += 1;
    }
    proof {
        lemma_detach_at(input@, i as int);
    }
    i
}

/// Begins the loop.
pub fn attach_to_socket() -> (r: AttachStep)
    ensures
        r@ == wait(None),
{
    AttachStep::Run(AttachEffect::Wait, Attach { last: None, phase: AttachPhase::Waiting })
}

impl Attach {
    fn wait(last: Option<u8>) -> (r: AttachStep)
        ensures
            r@ == wait(last),
    {
        AttachStep::Run(AttachEffect::Wait, Attach { last, phase: AttachPhase::Waiting })
    }

    fn then_session(last: Option<u8>, session: bool) -> (r: AttachStep)
        ensures
            r@ == then_session(last, session),
    {
        if session {
            AttachStep::Run(
                AttachEffect::ReadSession,
                Attach { last, phase: AttachPhase::ReadingSession },
            )
        } else {
            Attach::wait(last)
        }
    }

    fn finish(self, result: Result<(), SwarmError>) -> (r: AttachStep)
        ensures
            r@ == detach(self.last, crate::error::result_view(result)),
    {
        let ended_line: bool = match self.last {
            Some(byte) => byte == 10 || byte == 13,
            None => false,
        };
        AttachStep::Finish { result, newline: !ended_line }
    }

    /// The step that follows an answer.
    pub fn resume(self, reply: AttachReply) -> (r: AttachStep)
        ensures
            r@ == attach_next(self, reply@),
    {
        match (self.phase, reply) {
            (_, AttachReply::Failed(e)) => self.finish(Err(e)),
            (AttachPhase::Waiting, AttachReply::Interrupted) => Attach::wait(self.last),
            (AttachPhase::Waiting, AttachReply::Ready { input, session }) => if input {
                AttachStep::Run(
                    AttachEffect::ReadInput,
                    Attach { last: self.last, phase: AttachPhase::ReadingInput { session } },
                )
            } else {
                Attach::then_session(self.last, session)
            },
            (AttachPhase::ReadingInput { session }, AttachReply::Bytes(input)) => {
                let at: usize = detach_position(&input);
                if at == 0 {
                    self.finish(Ok(()))
                } else if at < input.len() {
                    let ghost all = input@;
                    let mut head = input;
                    head.truncate(at);
                    proof {
                        assert(head@ =~= all.take(at as int));
                    }
                    AttachStep::Run(
                        AttachEffect::Send(head),
                        Attach { last: self.last, phase: AttachPhase::SendingLast },
                    )
                } else {
                    AttachStep::Run(
                        AttachEffect::Send(input),
                        Attach { last: self.last, phase: AttachPhase::Sending { session } },
                    )
                }
            },
            (AttachPhase::SendingLast, AttachReply::Done) => self.finish(Ok(())),
            (AttachPhase::Sending { session }, AttachReply::Done) => Attach::then_session(
                self.last,
                session,
            ),
            (AttachPhase::ReadingSession, AttachReply::Bytes(output)) => if output.len() == 0 {
                self.finish(Ok(()))
            } else {
                let last: u8 = output[output.len() - 1];
                AttachStep::Run(
                    AttachEffect::Show(output),
                    Attach { last: self.last, phase: AttachPhase::Showing { last } },
                )
            },
            (AttachPhase::Showing { last }, AttachReply::Done) => Attach::wait(Some(last)),
            _ => AttachStep::Mismatch,
        }
    }
}

/// What the user types before `Ctrl-]` is sent, and nothing behind it; what is
/// typed without it is sent as it is. `Ctrl-D` is a byte like any other.
pub proof fn law_input_is_sent_up_to_the_detach_byte(s: Attach, session: bool, input: Seq<u8>)
    requires
        s.phase == (AttachPhase::ReadingInput { session }),
        input.len() > 0,
    ensures
        !input.contains(ATTACH_DETACH_BYTE) ==> attach_next(s, AttachReplyView::Bytes(input))
            == AttachStepView::Run(
            AttachEffectView::Send(input),
            attach_in(s.last, AttachPhase::Sending { session }),
        ),
        forall|i: int|
            0 < i < input.len() && input[i] == ATTACH_DETACH_BYTE && !(#[trigger] input.take(
                i,
            )).contains(ATTACH_DETACH_BYTE) ==> attach_next(s, AttachReplyView::Bytes(input))
                == AttachStepView::Run(
                AttachEffectView::Send(input.take(i)),
                attach_in(s.last, AttachPhase::SendingLast),
            ),
        input[0] == ATTACH_DETACH_BYTE ==> attach_next(s, AttachReplyView::Bytes(input)) == detach(
            s.last,
            Ok(()),
        ),
{
    if !input.contains(ATTACH_DETACH_BYTE) {
        assert forall|j: int| 0 <= j < input.len() implies input[j] != ATTACH_DETACH_BYTE by {
            assert(input.contains(input[j]));
        }
        lemma_detach_at(input, input.len() as int);
    }
    assert forall|i: int|
        0 < i < input.len() && input[i] == ATTACH_DETACH_BYTE && !(#[trigger] input.take(
            i,
        )).contains(ATTACH_DETACH_BYTE) implies attach_next(s, AttachReplyView::Bytes(input))
        == AttachStepView::Run(
        AttachEffectView::Send(input.take(i)),
        attach_in(s.last, AttachPhase::SendingLast),
    ) by {
        assert forall|j: int| 0 <= j < i implies input[j] != ATTACH_DETACH_BYTE by {
            assert(input.take(i)[j] == input[j]);
            assert(input.take(i).contains(input[j]));
        }
        lemma_detach_at(input, i);
    }
}

/// What the session writes is shown as it is.
pub proof fn law_output_is_shown_as_it_is(s: Attach, output: Seq<u8>)
    requires
        s.phase == AttachPhase::ReadingSession,
        output.len() > 0,
    ensures
        attach_next(s, AttachReplyView::Bytes(output)) == AttachStepView::Run(
            AttachEffectView::Show(output),
            attach_in(s.last, AttachPhase::Showing { last: output.last() }),
        ),
{
}

/// `Ctrl-]` is the byte 29, and it ends the loop whatever is typed behind it: exactly what was
/// typed before it is sent.
pub proof fn law_detaching_sends_what_was_typed_before(
    s: Attach,
    session: bool,
    typed: Seq<u8>,
    behind: Seq<u8>,
)
    requires
        s.phase == (AttachPhase::ReadingInput { session }),
        forall|i: int| 0 <= i < typed.len() ==> #[trigger] typed[i] != 29,
    ensures
        ({
            let input = typed + seq![29u8] + behind;
            &&& typed.len() == 0 ==> attach_next(s, AttachReplyView::Bytes(input)) == detach(
                s.last,
                Ok(()),
            )
            &&& typed.len() > 0 ==> {
                &&& attach_next(s, AttachReplyView::Bytes(input)) matches AttachStepView::Run(
                    effect,
                    next,
                )
                &&& effect == AttachEffectView::Send(typed)
                &&& attach_next(next, AttachReplyView::Done) == detach(s.last, Ok(()))
            }
            &&& typed.len() > 0 ==> {
                &&& attach_next(s, AttachReplyView::Bytes(typed)) matches AttachStepView::Run(
                    effect,
                    next,
                )
                &&& effect == AttachEffectView::Send(typed)
                &&& attach_next(next, AttachReplyView::Done) matches AttachStepView::Run(then, _)
                &&& then == (if session {
                    AttachEffectView::ReadSession
                } else {
                    AttachEffectView::Wait
                })
            }
            &&& attach_next(s, AttachReplyView::Bytes(seq![])) == detach(s.last, Ok(()))
        }),
{
    let input = typed + seq![29u8] + behind;
    lemma_detach_at(input, typed.len() as int);
    lemma_detach_at(typed, typed.len() as int);
    assert(input.take(typed.len() as int) =~= typed);
    assert(detach_at(Seq::<u8>::empty()) == 0);
}

/// What was typed is read before what the session wrote; an interrupted wait is taken up
/// again.
pub proof fn law_typing_comes_first(s: Attach, input: bool, session: bool)
    requires
        s.phase == AttachPhase::Waiting,
    ensures
        attach_next(s, AttachReplyView::Ready { input, session }) matches AttachStepView::Run(
            effect,
            next,
        ) && next.last == s.last && effect == (if input {
            AttachEffectView::ReadInput
        } else if session {
            AttachEffectView::ReadSession
        } else {
            AttachEffectView::Wait
        }),
        attach_next(s, AttachReplyView::Interrupted) == AttachStepView::Run(
            AttachEffectView::Wait,
            s,
        ),
{
}

/// What the session writes is shown whole, and its last byte decides at the end whether a new
/// line is needed: none behind a line feed or a carriage return. A session that has closed
/// ends the loop, and a failure ends it with that failure.
pub proof fn law_showing_and_ending(
    s: Attach,
    output: Seq<u8>,
    e: SwarmErrorView,
    result: Result<(), SwarmErrorView>,
)
    ensures
        s.phase == AttachPhase::ReadingSession && output.len() > 0 ==> {
            &&& attach_next(s, AttachReplyView::Bytes(output)) matches AttachStepView::Run(
                effect,
                next,
            )
            &&& effect == AttachEffectView::Show(output)
            &&& attach_next(next, AttachReplyView::Done) == AttachStepView::Run(
                AttachEffectView::Wait,
                Attach { last: Some(output[output.len() - 1]), phase: AttachPhase::Waiting },
            )
        },
        s.phase == AttachPhase::ReadingSession ==> attach_next(
            s,
            AttachReplyView::Bytes(seq![]),
        ) == detach(s.last, Ok(())),
        attach_next(s, AttachReplyView::Failed(e)) == detach(s.last, Err(e)),
        detach(s.last, result) == (AttachStepView::Finish {
            result,
            newline: match s.last {
                None => true,
                Some(byte) => byte != 10 && byte != 13,
            },
        }),
{
}

} // verus!
