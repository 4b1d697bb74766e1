//! The bridge between libpam, which pushes through a callback, and a face,
//! which pulls: two rendezvous channels and a memory of the end.
//!
//! What another thread sends, and when, is not stated; what becomes of it is,
//! and that what one half gets is what the other handed over.
use core::time::Duration;
use std::sync::mpsc::{sync_channel, Receiver, RecvTimeoutError, SyncSender};
use vstd::prelude::*;
use crate::border::env::{MsgStyle, PamAnswer, PamClass, PamError, PamStep, PromptText};

verus! {

/// `std::sync::mpsc::Receiver`: the end of a channel that values come out of.
#[verifier::external_type_specification]
#[verifier::external_body]
#[verifier::reject_recursive_types(T)]
pub struct ExReceiver<T>(Receiver<T>);

/// `std::sync::mpsc::SyncSender`: the end of a bounded channel that values go into.
#[verifier::external_type_specification]
#[verifier::external_body]
#[verifier::reject_recursive_types(T)]
pub struct ExSyncSender<T>(SyncSender<T>);

/// What waiting for a step came to.
pub enum Received {
    /// A step came.
    Step(PamStep),
    /// Nobody is left who could send one.
    Gone,
    /// None came in time.
    Late,
}

/// How long a face waits for a step, in seconds.
pub const STEP_TIMEOUT_SECS: u64 = 120;

/// The steps that were put into a channel through this end, in order, each with
/// whether the other end took it.
pub uninterp spec fn steps_offered(end: SyncSender<PamStep>) -> Seq<(PamStep, bool)>;

/// The answers that were put into a channel through this end, in order, each
/// with whether the other end took it.
pub uninterp spec fn answers_offered(end: SyncSender<PamAnswer>) -> Seq<(PamAnswer, bool)>;

/// The waits for a step at this end of a channel, in order, each with how many
/// seconds it was to last at most and what it came to.
pub uninterp spec fn steps_taken(end: Receiver<PamStep>) -> Seq<(u64, Received)>;

/// What each wait for an answer at this end of a channel came to, in order.
/// `None` is that nobody is left who could send one.
pub uninterp spec fn answers_taken(end: Receiver<PamAnswer>) -> Seq<Option<PamAnswer>>;

/// Every step that ever passes through the channel that this end puts steps
/// into, from its first to its last, those to come among them.
pub uninterp spec fn steps_in(end: SyncSender<PamStep>) -> Seq<PamStep>;

/// Every step that ever passes through the channel that this end takes steps
/// out of.
pub uninterp spec fn steps_out(end: Receiver<PamStep>) -> Seq<PamStep>;

/// Every answer that ever passes through the channel that this end puts answers
/// into.
pub uninterp spec fn answers_in(end: SyncSender<PamAnswer>) -> Seq<PamAnswer>;

/// Every answer that ever passes through the channel that this end takes
/// answers out of.
pub uninterp spec fn answers_out(end: Receiver<PamAnswer>) -> Seq<PamAnswer>;

/// Those of the things that were put in which were taken, in order.
pub open spec fn delivered<T>(offered: Seq<(T, bool)>) -> Seq<T>
    decreases offered.len(),
{
    if offered.len() == 0 {
        Seq::empty()
    } else if offered.last().1 {
        delivered(offered.drop_last()).push(offered.last().0)
    } else {
        delivered(offered.drop_last())
    }
}

/// The steps that came in these waits.
pub open spec fn steps_among(waits: Seq<(u64, Received)>) -> Seq<PamStep>
    decreases waits.len(),
{
    if waits.len() == 0 {
        Seq::empty()
    } else {
        match waits.last().1 {
            Received::Step(s) => steps_among(waits.drop_last()).push(s),
            _ => steps_among(waits.drop_last()),
        }
    }
}

/// The answers that came in these waits.
pub open spec fn answers_among(waits: Seq<Option<PamAnswer>>) -> Seq<PamAnswer>
    decreases waits.len(),
{
    if waits.len() == 0 {
        Seq::empty()
    } else {
        match waits.last() {
            Some(a) => answers_among(waits.drop_last()).push(a),
            None => answers_among(waits.drop_last()),
        }
    }
}

/// Whether `part` is how `whole` begins.
pub open spec fn opens<T>(part: Seq<T>, whole: Seq<T>) -> bool {
    part.len() <= whole.len() && part == whole.take(part.len() as int)
}

/// `std::sync::mpsc::sync_channel`: the two ends of one channel of steps, at
/// neither of which anything was done. With room for nothing a send waits for
/// its receive. What passes through the channel is the same at either end.
#[verifier::external_body]
fn step_channel(room: usize) -> (r: (SyncSender<PamStep>, Receiver<PamStep>))
    requires
        room == 0,
    ensures
        steps_offered(r.0) == Seq::<(PamStep, bool)>::empty(),
        steps_taken(r.1) == Seq::<(u64, Received)>::empty(),
        steps_in(r.0) == steps_out(r.1),
{
    sync_channel(room)
}

/// `std::sync::mpsc::sync_channel`: the two ends of one channel of answers, at
/// neither of which anything was done. With room for nothing a send waits for
/// its receive. What passes through the channel is the same at either end.
#[verifier::external_body]
fn answer_channel(room: usize) -> (r: (SyncSender<PamAnswer>, Receiver<PamAnswer>))
    requires
        room == 0,
    ensures
        answers_offered(r.0) == Seq::<(PamAnswer, bool)>::empty(),
        answers_taken(r.1) == Seq::<Option<PamAnswer>>::empty(),
        answers_in(r.0) == answers_out(r.1),
{
    sync_channel(room)
}

/// `SyncSender::send`: the step is put in, and the value says whether it was
/// taken, which it is not when the other end is gone. In a channel with room for
/// nothing a send that succeeds has been received, and no second sender is ever
/// made of this one, so what was taken from here is how all that passes through
/// the channel begins. Whether the other end is there depends on another thread.
#[verifier::external_body]
fn send_step(to: &mut SyncSender<PamStep>, step: PamStep) -> (taken: bool)
    ensures
        steps_offered(*final(to)) == steps_offered(*old(to)).push((step, taken)),
        steps_in(*final(to)) == steps_in(*old(to)),
        opens(delivered(steps_offered(*final(to))), steps_in(*final(to))),
{
    to.send(step).is_ok()
}

/// `SyncSender::send`, after which the end is dropped: the step is put in, and
/// the value says whether it was taken. No second sender was ever made of this
/// one, so nothing passes after it: what was taken from here, this step with it
/// if it was, is all that passes through the channel.
#[verifier::external_body]
fn send_last_step(to: SyncSender<PamStep>, step: PamStep) -> (taken: bool)
    ensures
        steps_in(to) == delivered(steps_offered(to).push((step, taken))),
{
    to.send(step).is_ok()
}

/// `SyncSender::send`: the answer is put in, and the value says whether it was
/// taken, which it is not when the other end is gone. In a channel with room for
/// nothing a send that succeeds has been received, and no second sender is ever
/// made of this one, so what was taken from here is how all that passes through
/// the channel begins. Whether the other end is there depends on another thread.
#[verifier::external_body]
fn send_answer(to: &mut SyncSender<PamAnswer>, a: PamAnswer) -> (taken: bool)
    ensures
        answers_offered(*final(to)) == answers_offered(*old(to)).push((a, taken)),
        answers_in(*final(to)) == answers_in(*old(to)),
        opens(delivered(answers_offered(*final(to))), answers_in(*final(to))),
{
    to.send(a).is_ok()
}

/// `Receiver::recv`: the answer that came out, or `None` when the other end is
/// gone. What came out here is how all that passes through the channel begins,
/// and all of it once the other end is gone. What comes depends on another
/// thread.
#[verifier::external_body]
fn receive_answer(from: &mut Receiver<PamAnswer>) -> (a: Option<PamAnswer>)
    ensures
        answers_taken(*final(from)) == answers_taken(*old(from)).push(a),
        answers_out(*final(from)) == answers_out(*old(from)),
        opens(answers_among(answers_taken(*final(from))), answers_out(*final(from))),
        a is None ==> answers_among(answers_taken(*final(from))) == answers_out(*final(from)),
{
    from.recv().ok()
}

/// `Receiver::recv_timeout` with so many seconds: the step that came out, or why
/// none did. What came out here is how all that passes through the channel
/// begins, and all of it once the other end is gone. What comes, and in time or
/// not, depends on another thread.
#[verifier::external_body]
fn receive_step(from: &mut Receiver<PamStep>, secs: u64) -> (got: Received)
    requires
        secs <= u32::MAX,
    ensures
        steps_taken(*final(from)) == steps_taken(*old(from)).push((secs, got)),
        steps_out(*final(from)) == steps_out(*old(from)),
        opens(steps_among(steps_taken(*final(from))), steps_out(*final(from))),
        got is Gone ==> steps_among(steps_taken(*final(from))) == steps_out(*final(from)),
{
    match from.recv_timeout(Duration::from_secs(secs)) {
        Ok(s) => Received::Step(s),
        Err(RecvTimeoutError::Disconnected) => Received::Gone,
        Err(RecvTimeoutError::Timeout) => Received::Late,
    }
}

/// The face's half of the bridge.
pub struct Bridge {
    steps: Receiver<PamStep>,
    answers: SyncSender<PamAnswer>,
    finished: bool,
}

/// The conversation's half of the bridge.
pub struct ConvSide {
    steps: SyncSender<PamStep>,
    answers: Receiver<PamAnswer>,
}

pub open spec fn gone() -> PamError {
    PamError::Refused(PamClass::Abort)
}

/// Whether `r` is what asking came to, where the answers heard were `before`
/// and are `after`: the answer that came, or that the face is gone.
pub open spec fn came(
    before: Seq<PamAnswer>,
    after: Seq<PamAnswer>,
    r: Result<PamAnswer, PamError>,
) -> bool {
    match r {
        Ok(a) => after == before.push(a),
        Err(e) => after == before && e == gone(),
    }
}

/// Whether `after` is `before` and one wait more, of [`STEP_TIMEOUT_SECS`] at
/// most, and `step` what that wait came to. `all` is every step that ever passes:
/// none is left where nobody is left to send one.
pub open spec fn waited(
    before: Seq<(u64, Received)>,
    after: Seq<(u64, Received)>,
    all: Seq<PamStep>,
    step: PamStep,
) -> bool {
    &&& after.len() == before.len() + 1
    &&& after.drop_last() == before
    &&& after.last().0 == STEP_TIMEOUT_SECS
    &&& step == step_for(after.last().1)
    &&& after.last().1 is Gone ==> steps_among(after) == all
}

/// Whether a step ends the conversation.
pub open spec fn is_terminal(step: PamStep) -> bool {
    step is Complete || step is Failed
}

/// The step that waiting comes to: what came, or a failure that says why nothing did.
pub open spec fn step_for(got: Received) -> PamStep {
    match got {
        Received::Step(s) => s,
        Received::Gone => PamStep::Failed { class: PamClass::Abort },
        Received::Late => PamStep::Failed { class: PamClass::AuthInfoUnavail },
    }
}

/// What asking comes to: `sent` says whether the question was taken, `got` is
/// the answer that came.
pub fn asked(sent: bool, got: Option<PamAnswer>) -> (r: Result<PamAnswer, PamError>)
    ensures
        r == (match got {
            Some(a) if sent => Ok::<PamAnswer, PamError>(a),
            _ => Err(gone()),
        }),
{
    if !sent {
        return Err(PamError::Refused(PamClass::Abort));
    }
    match got {
        Some(a) => Ok(a),
        None => Err(PamError::Refused(PamClass::Abort)),
    }
}

/// What telling or answering comes to.
pub fn told(sent: bool) -> (r: Result<(), PamError>)
    ensures
        sent ==> r is Ok,
        !sent ==> r == Err::<(), PamError>(gone()),
{
    if sent {
        Ok(())
    } else {
        Err(PamError::Refused(PamClass::Abort))
    }
}

impl ConvSide {
    /// The steps handed to the face so far, each with whether it took it.
    pub closed spec fn handed(&self) -> Seq<(PamStep, bool)> {
        steps_offered(self.steps)
    }

    /// What each wait for an answer came to so far.
    pub closed spec fn heard(&self) -> Seq<Option<PamAnswer>> {
        answers_taken(self.answers)
    }

    /// The steps handed to the face so far, whether or not it took them.
    pub open spec fn put(&self) -> Seq<PamStep> {
        self.handed().map_values(|p: (PamStep, bool)| p.0)
    }

    /// The answers that came from the face so far.
    pub open spec fn answers(&self) -> Seq<PamAnswer> {
        answers_among(self.heard())
    }

    /// All steps and all answers that ever pass between this half and the other.
    pub closed spec fn passing(&self) -> (Seq<PamStep>, Seq<PamAnswer>) {
        (steps_in(self.steps), answers_out(self.answers))
    }

    /// Whether what the face took and what came from it is how all that passes begins.
    pub open spec fn is_faithful(&self) -> bool {
        &&& opens(delivered(self.handed()), self.passing().0)
        &&& opens(self.answers(), self.passing().1)
    }

    /// Puts a prompt to the face and waits for the answer. The one failure is
    /// that the face is gone: it did not take the prompt, or left before it
    /// answered.
    pub fn ask(&mut self, style: MsgStyle, msg: PromptText) -> (r: Result<PamAnswer, PamError>)
        ensures
            asks(*old(self), *final(self), PamStep::Prompt { style, msg }, r),
            final(self).put() == old(self).put().push(PamStep::Prompt { style, msg }),
            came(old(self).answers(), final(self).answers(), r),
            keeps(*old(self), *final(self)),
    {
        let ghost step = PamStep::Prompt { style, msg };
        let sent: bool = send_step(&mut self.steps, PamStep::Prompt { style, msg });
        proof {
            assert(self.handed().drop_last() =~= old(self).handed());
            assert(self.put() =~= old(self).put().push(step));
        }
        if !sent {
            return asked(false, None);
        }
        let got: Option<PamAnswer> = receive_answer(&mut self.answers);
        proof {
            assert(self.heard().drop_last() =~= old(self).heard());
        }
        asked(true, got)
    }

    /// Tells the face something. The one failure is that the face is gone.
    pub fn tell(&mut self, style: MsgStyle, msg: PromptText) -> (r: Result<(), PamError>)
        ensures
            final(self).handed() == old(self).handed().push((PamStep::Info { style, msg }, r is Ok)),
            final(self).put() == old(self).put().push(PamStep::Info { style, msg }),
            final(self).heard() == old(self).heard(),
            r matches Err(e) ==> e == gone(),
            keeps(*old(self), *final(self)),
    {
        let ghost step = PamStep::Info { style, msg };
        let sent: bool = send_step(&mut self.steps, PamStep::Info { style, msg });
        proof {
            assert(self.put() =~= old(self).put().push(step));
        }
        told(sent)
    }

    /// Ends the conversation with `step`, if anybody is there to hear it: after
    /// the steps that were taken comes this one, if it is taken, and no other.
    pub fn finish(self, step: PamStep)
        ensures
            exists|taken: bool| #[trigger] ends(self, step, taken),
    {
        let taken: bool = send_last_step(self.steps, step);
        assert(ends(self, step, taken));
    }
}

/// Whether ending the conversation with `step`, which was taken or not, is the
/// last that is done with its half: what was taken is all that passes.
pub open spec fn ends(conv: ConvSide, step: PamStep, taken: bool) -> bool {
    conv.passing().0 == delivered(conv.handed().push((step, taken)))
}

/// Whether what passes between the halves is the same after as before, and what
/// each half knows of it still is how it begins.
pub open spec fn keeps(before: ConvSide, after: ConvSide) -> bool {
    &&& after.passing() == before.passing()
    &&& before.is_faithful() ==> after.is_faithful()
}

/// Whether asking took the conversation's half from `before` to `after`, and
/// `r` is what it came to: the prompt was handed over, and where the face took
/// it, its answer was waited for. Where none came then, none is left to come.
pub open spec fn asks(
    before: ConvSide,
    after: ConvSide,
    prompt: PamStep,
    r: Result<PamAnswer, PamError>,
) -> bool {
    &&& after.passing() == before.passing()
    &&& after.handed().len() == before.handed().len() + 1
    &&& after.handed().drop_last() == before.handed()
    &&& after.handed().last().0 == prompt
    &&& if after.handed().last().1 {
        &&& after.heard().len() == before.heard().len() + 1
        &&& after.heard().drop_last() == before.heard()
        &&& r == (match after.heard().last() {
            Some(a) => Ok::<PamAnswer, PamError>(a),
            None => Err(gone()),
        })
        &&& r is Err ==> after.answers() == after.passing().1
    } else {
        after.heard() == before.heard() && r == Err::<PamAnswer, PamError>(gone())
    }
}

impl Bridge {
    /// Whether the conversation has ended.
    pub closed spec fn is_finished(&self) -> bool {
        self.finished
    }

    /// The answers given so far, each with whether the conversation took it.
    pub closed spec fn given(&self) -> Seq<(PamAnswer, bool)> {
        answers_offered(self.answers)
    }

    /// The waits for a step so far, each with how many seconds it was to last at
    /// most and what it came to.
    pub closed spec fn seen(&self) -> Seq<(u64, Received)> {
        steps_taken(self.steps)
    }

    /// All steps and all answers that ever pass between this half and the other.
    pub closed spec fn passing(&self) -> (Seq<PamStep>, Seq<PamAnswer>) {
        (steps_out(self.steps), answers_in(self.answers))
    }

    /// Whether what came and what the conversation took is how all that passes begins.
    pub open spec fn is_faithful(&self) -> bool {
        &&& opens(steps_among(self.seen()), self.passing().0)
        &&& opens(delivered(self.given()), self.passing().1)
    }

    /// The two halves of a bridge on which nothing has passed.
    pub fn new() -> (r: (Bridge, ConvSide))
        ensures
            !r.0.is_finished(),
            r.0.given() == Seq::<(PamAnswer, bool)>::empty(),
            r.0.seen() == Seq::<(u64, Received)>::empty(),
            r.1.handed() == Seq::<(PamStep, bool)>::empty(),
            r.1.heard() == Seq::<Option<PamAnswer>>::empty(),
            level(r.0, r.1),
    {
        let (step_tx, step_rx) = step_channel(0);
        let (ans_tx, ans_rx) = answer_channel(0);
        proof {
            assert(steps_in(step_tx).take(0) =~= Seq::<PamStep>::empty());
            assert(answers_in(ans_tx).take(0) =~= Seq::<PamAnswer>::empty());
        }
        (
            Bridge { steps: step_rx, answers: ans_tx, finished: false },
            ConvSide { steps: step_tx, answers: ans_rx },
        )
    }

    /// Takes in what waiting came to, and remembers an end.
    pub fn settle(&mut self, got: Received) -> (step: PamStep)
        ensures
            step == step_for(got),
            final(self).is_finished() == (old(self).is_finished() || is_terminal(step)),
            final(self).given() == old(self).given(),
            final(self).seen() == old(self).seen(),
            final(self).passing() == old(self).passing(),
    {
        let step: PamStep = match got {
            Received::Step(s) => s,
            Received::Gone => PamStep::Failed { class: PamClass::Abort },
            Received::Late => PamStep::Failed { class: PamClass::AuthInfoUnavail },
        };
        if matches!(step, PamStep::Complete) || matches!(step, PamStep::Failed { .. }) {
            self.finished = true;
        }
        step
    }

    /// The next step: the one that was waited for, or a failure that says why
    /// none came. After an end there is only failure, and no wait: the
    /// conversation does not reopen.
    pub fn next(&mut self) -> (step: PamStep)
        ensures
            old(self).is_finished() ==> step == (PamStep::Failed { class: PamClass::Abort })
                && final(self).seen() == old(self).seen(),
            !old(self).is_finished() ==> waited(
                old(self).seen(),
                final(self).seen(),
                final(self).passing().0,
                step,
            ),
            final(self).is_finished() == (old(self).is_finished() || is_terminal(step)),
            final(self).given() == old(self).given(),
            final(self).passing() == old(self).passing(),
            old(self).is_faithful() ==> final(self).is_faithful(),
    {
        if self.finished {
            return PamStep::Failed { class: PamClass::Abort };
        }
        let got: Received = receive_step(&mut self.steps, STEP_TIMEOUT_SECS);
        proof {
            assert(self.seen().drop_last() =~= old(self).seen());
        }
        self.settle(got)
    }

    /// Answers what was asked. The one failure is that the conversation is gone.
    pub fn answer(&mut self, a: PamAnswer) -> (r: Result<(), PamError>)
        ensures
            final(self).given() == old(self).given().push((a, r is Ok)),
            final(self).seen() == old(self).seen(),
            final(self).is_finished() == old(self).is_finished(),
            final(self).passing() == old(self).passing(),
            r matches Err(e) ==> e == gone(),
            old(self).is_faithful() ==> final(self).is_faithful(),
    {
        told(send_answer(&mut self.answers, a))
    }
}

/// Whether the two are the halves of one bridge, and each has got all that the
/// other has delivered.
pub open spec fn level(face: Bridge, conv: ConvSide) -> bool {
    &&& face.passing() == conv.passing()
    &&& face.is_faithful()
    &&& conv.is_faithful()
    &&& steps_among(face.seen()).len() == delivered(conv.handed()).len()
    &&& conv.answers().len() == delivered(face.given()).len()
}

/// What one half of a bridge gets is what the other half handed over: the steps
/// that came to the face are, one by one, those that it took from the
/// conversation, and so are the answers the other way. Nothing comes that
/// nobody sent, and nothing changes its place.
pub proof fn what_comes_was_sent(face: Bridge, conv: ConvSide, i: int)
    requires
        face.passing() == conv.passing(),
        face.is_faithful(),
        conv.is_faithful(),
        0 <= i,
    ensures
        i < steps_among(face.seen()).len() && i < delivered(conv.handed()).len() ==> steps_among(
            face.seen(),
        )[i] == delivered(conv.handed())[i],
        i < conv.answers().len() && i < delivered(face.given()).len() ==> conv.answers()[i]
            == delivered(face.given())[i],
{
}

/// A prompt crosses, and the answer to it comes back: where the conversation
/// asks, the face takes the prompt, waits for a step, which comes, and gives an
/// answer, which is taken, the step is the prompt and asking comes to that very
/// answer.
pub proof fn a_prompt_crosses_and_the_answer_comes_back(
    conv: ConvSide,
    answered: ConvSide,
    prompt: PamStep,
    r: Result<PamAnswer, PamError>,
    face: Bridge,
    shown: Bridge,
    done: Bridge,
    step: PamStep,
    a: PamAnswer,
)
    requires
        level(face, conv),
        asks(conv, answered, prompt, r),
        answered.is_faithful(),
        answered.handed().last().1,
        waited(face.seen(), shown.seen(), shown.passing().0, step),
        shown.seen().last().1 is Step,
        shown.given() == face.given(),
        shown.passing() == face.passing(),
        shown.is_faithful(),
        done.given() == shown.given().push((a, true)),
        done.seen() == shown.seen(),
        done.passing() == shown.passing(),
        done.is_faithful(),
    ensures
        step == prompt,
        r == Ok::<PamAnswer, PamError>(a),
        level(done, answered),
{
    let n = steps_among(face.seen()).len() as int;
    assert(steps_among(shown.seen())[n] == step);
    assert(delivered(answered.handed())[n] == prompt);
    what_comes_was_sent(shown, answered, n);
    let m = delivered(face.given()).len() as int;
    assert(done.given().drop_last() =~= shown.given());
    assert(delivered(done.given())[m] == a);
    assert(r is Ok);
    assert(answered.answers()[m] == r->Ok_0);
    what_comes_was_sent(done, answered, m);
}

/// A face that has left answers nothing: where no answer passes after those that
/// came, asking fails, and comes to no answer that nobody gave.
pub proof fn a_face_that_left_answers_nothing(
    conv: ConvSide,
    answered: ConvSide,
    prompt: PamStep,
    r: Result<PamAnswer, PamError>,
)
    requires
        conv.answers() == conv.passing().1,
        asks(conv, answered, prompt, r),
        answered.is_faithful(),
    ensures
        r == Err::<PamAnswer, PamError>(gone()),
{
}

/// The outcome that a conversation ends with is the outcome that the face gets:
/// the next step that comes to it is that one, none comes after it, and where it
/// was taken the face's wait does not find that nobody is left.
pub proof fn the_last_step_is_the_outcome(
    conv: ConvSide,
    outcome: PamStep,
    taken: bool,
    face: Bridge,
    shown: Bridge,
    step: PamStep,
)
    requires
        level(face, conv),
        ends(conv, outcome, taken),
        waited(face.seen(), shown.seen(), shown.passing().0, step),
        shown.passing() == face.passing(),
        shown.is_faithful(),
    ensures
        shown.seen().last().1 is Step ==> taken && step == outcome && steps_among(shown.seen())
            == shown.passing().0,
        shown.seen().last().1 is Gone ==> !taken,
{
    let put = conv.handed().push((outcome, taken));
    assert(put.drop_last() =~= conv.handed());
    let n = steps_among(face.seen()).len() as int;
    if shown.seen().last().1 is Step {
        assert(steps_among(shown.seen())[n] == step);
        assert(shown.passing().0.take(n + 1)[n] == step);
        assert(shown.passing().0.take(n + 1) =~= shown.passing().0);
    }
}

/// What a wait comes to is what came; where nobody is left it is an abort, and where
/// nothing came in time it is that the information cannot be had. Neither is ever
/// taken for success.
pub proof fn a_wait_without_a_step_is_a_failure(got: Received)
    ensures
        got matches Received::Step(s) ==> step_for(got) == s,
        got is Gone ==> step_for(got) == (PamStep::Failed { class: PamClass::Abort }),
        got is Late ==> step_for(got) == (PamStep::Failed { class: PamClass::AuthInfoUnavail }),
{
}

/// What was asked comes to the answer that was heard, the answers before it stay as
/// they were, and where none was heard it is a refusal.
pub proof fn asking_comes_to_the_answer_heard(
    before: Seq<PamAnswer>,
    after: Seq<PamAnswer>,
    r: Result<PamAnswer, PamError>,
)
    requires
        came(before, after, r),
    ensures
        r matches Ok(a) ==> after.len() == before.len() + 1 && after.last() == a
            && after.drop_last() == before,
        r matches Err(e) ==> after == before && e == PamError::Refused(PamClass::Abort),
{
    if r is Ok {
        assert(before.push(r->Ok_0).drop_last() =~= before);
    }
}

/// What was delivered is what was taken: nothing that was not, and each in its
/// order, so that what is delivered of two rows is what is delivered of the first
/// and then of the second.
pub proof fn what_was_taken_is_delivered<T>(a: Seq<(T, bool)>, b: Seq<(T, bool)>, x: T)
    ensures
        delivered(seq![(x, true)]) == seq![x],
        delivered(seq![(x, false)]) == Seq::<T>::empty(),
        delivered(a + b) == delivered(a) + delivered(b),
    decreases b.len(),
{
    reveal_with_fuel(delivered, 2);
    assert(seq![(x, true)].drop_last() =~= Seq::<(T, bool)>::empty());
    assert(seq![(x, false)].drop_last() =~= Seq::<(T, bool)>::empty());
    assert(delivered(seq![(x, true)]) =~= seq![x]);
    if b.len() == 0 {
        assert(a + b =~= a);
        assert(delivered(a) + delivered(b) =~= delivered(a));
    } else {
        let init = b.drop_last();
        assert((a + b).drop_last() =~= a + init);
        assert((a + b).last() == b.last());
        what_was_taken_is_delivered(a, init, x);
        assert(delivered(a + b) =~= delivered(a) + delivered(b));
    }
}

} // verus!
