//! What passes between the daemon and the greeter: frames behind a length, and
//! the two ends' rules for what follows what.
//!
//! Reading and writing the socket is the caller's; every decision is here.
use vstd::prelude::*;
use crate::border::capability::{into_wire, Passphrase};
use crate::border::env::{
    lemma_moved_on, lemma_stood, moved, MsgStyle, PamAnswer, PamClass, PamError, PamEvent, PamStep, PromptText, SeatEnv,
};
use crate::border::ids::PamHandleId;
use crate::host::bridge::{came, keeps, ConvSide};
use crate::introspect::observed;
use crate::seat::introspect::{DaemonState, DaemonView};
use crate::text;

verus! {

/// One message, of either direction.
#[derive(Debug, PartialEq, Eq)]
pub enum Frame {
    /// To the greeter: answer this, masked where it is secret.
    Prompt { secret: bool, msg: String },
    /// To the greeter: show this.
    Info { msg: String },
    /// To the greeter: the conversation ended.
    Outcome { ok: bool },
    /// To the daemon: the answer to the last prompt.
    Answer { text: String },
    /// To the daemon: the person gave up, or the face died.
    Cancel,
}

/// The most bytes that the body of a frame may have.
pub const MAX_FRAME: usize = 65536;

/// The number that four bytes write, the high byte first.
pub open spec fn be_value(b: Seq<u8>) -> int {
    b[0] * 0x100_0000 + b[1] * 0x1_0000 + b[2] * 0x100 + b[3]
}

/// Puts a length before a body: four bytes, the high one first. A body whose
/// length does not fit is too large.
pub fn frame_bytes(body: &Vec<u8>) -> (r: Result<Vec<u8>, &'static str>)
    ensures
        match r {
            Ok(v) => body@.len() <= u32::MAX && v@.len() == body@.len() + 4 && be_value(v@.take(4))
                == body@.len() && v@.skip(4) == body@,
            Err(e) => body@.len() > u32::MAX && e@ == "frame too large"@,
        },
{
    let n: usize = body.len();
    if n as u64 > 0xffff_ffff {
        return Err("frame too large");
    }
    let mut v: Vec<u8> = Vec::new();
    let b0: u8 = (n / 0x100_0000) as u8;
    let b1: u8 = (n / 0x1_0000 % 0x100) as u8;
    let b2: u8 = (n / 0x100 % 0x100) as u8;
    let b3: u8 = (n % 0x100) as u8;
    v.push(b0);
    v.push(b1);
    v.push(b2);
    v.push(b3);
    proof {
        assert(be_value(v@) == n);
    }
    let mut i: usize = 0;
    while i < body.len()
        invariant
            i <= body.len(),
            n == body.len(),
            v@.len() == 4 + i,
            v@[0] == b0,
            v@[1] == b1,
            v@[2] == b2,
            v@[3] == b3,
            forall|j: int| 0 <= j < i ==> v@[4 + j] == #[trigger] body@[j],
        decreases body.len() - i,
    {
        v.push(body[i]);
        i = i + 1;
    }
    proof {
        assert(v@.take(4) =~= seq![b0, b1, b2, b3]);
        assert(v@.skip(4) =~= body@);
    }
    Ok(v)
}

/// Reads the length of the body that follows. A length beyond [`MAX_FRAME`] is
/// refused before anything is allocated for it.
pub fn frame_length(header: &[u8; 4]) -> (r: Result<usize, String>)
    ensures
        match r {
            Ok(n) => n == be_value(header@) && n <= MAX_FRAME,
            Err(e) => be_value(header@) > MAX_FRAME && e@ == "frame of "@ + text::decimal(
                be_value(header@) as nat,
            ) + " bytes is implausible"@,
        },
{
    let n: u64 = (header[0] as u64) * 0x100_0000 + (header[1] as u64) * 0x1_0000 + (header[2] as u64)
        * 0x100 + (header[3] as u64);
    if n > MAX_FRAME as u64 {
        let mut e: String = "frame of ".to_owned();
        e.append(text::decimal_of(n).as_str());
        e.append(" bytes is implausible");
        return Err(e);
    }
    Ok(n as usize)
}

/// What a frame reads back as is what was framed: the length before a body of
/// plausible size is the length that is read.
pub proof fn framing_round_trips(body: Seq<u8>, framed: Seq<u8>)
    requires
        body.len() <= MAX_FRAME,
        framed.len() == body.len() + 4,
        be_value(framed.take(4)) == body.len(),
        framed.skip(4) == body,
    ensures
        be_value(framed.take(4)) <= MAX_FRAME,
        framed.subrange(4, 4 + be_value(framed.take(4))) == body,
{
    assert(framed.subrange(4, 4 + be_value(framed.take(4))) =~= framed.skip(4));
}

/// What the greeter's end does next.
pub enum GreeterMove {
    /// Read the next frame.
    Continue,
    /// Write this frame; [`after_reply`] says what its failure means.
    Reply(Frame),
    /// Write that the conversation is cancelled, and end it.
    CancelThenFinish(PamStep),
    /// End the conversation.
    Finish(PamStep),
}

pub open spec fn aborted() -> PamStep {
    PamStep::Failed { class: PamClass::Abort }
}

/// The style of a prompt on the wire.
pub open spec fn wire_style(secret: bool) -> MsgStyle {
    if secret {
        MsgStyle::PromptEchoOff
    } else {
        MsgStyle::PromptEchoOn
    }
}

/// Whether `m` is what an answer to a prompt leads to. A secret answer never
/// goes out for a prompt that was not secret.
pub open spec fn is_prompt_move(
    secret: bool,
    answer: Result<PamAnswer, PamError>,
    m: GreeterMove,
) -> bool {
    match answer {
        Err(_) => m == GreeterMove::CancelThenFinish(aborted()),
        Ok(PamAnswer::Visible(v)) => m matches GreeterMove::Reply(Frame::Answer { text }) && text@ == v@,
        Ok(PamAnswer::Secret(p)) => if secret {
            m matches GreeterMove::Reply(Frame::Answer { text }) && text@ == p@
        } else {
            m == GreeterMove::CancelThenFinish(aborted())
        },
    }
}

/// What an answer to a prompt leads to.
pub fn prompt_move(secret: bool, answer: Result<PamAnswer, PamError>) -> (m: GreeterMove)
    ensures
        is_prompt_move(secret, answer, m),
{
    match answer {
        Err(_) => GreeterMove::CancelThenFinish(PamStep::Failed { class: PamClass::Abort }),
        Ok(PamAnswer::Visible(v)) => GreeterMove::Reply(Frame::Answer { text: v }),
        Ok(PamAnswer::Secret(p)) => if secret {
            GreeterMove::Reply(Frame::Answer { text: into_wire(p) })
        } else {
            GreeterMove::CancelThenFinish(PamStep::Failed { class: PamClass::Abort })
        },
    }
}

/// One turn of the greeter's end: `got` is the frame that came, or `None` where
/// none could be read. A prompt goes to the face and its answer decides;
/// everything else is decided here. Nothing is guessed: a frame that the daemon
/// does not send, or none at all, ends the conversation as failed.
pub fn greeter_side(conv: &mut ConvSide, got: Option<Frame>) -> (m: GreeterMove)
    ensures
        keeps(*old(conv), *final(conv)),
        !(got matches Some(Frame::Prompt { .. })) ==> final(conv).heard() == old(conv).heard(),
        match got {
            None => m == GreeterMove::Finish(aborted()) && final(conv).put() == old(conv).put(),
            Some(Frame::Prompt { secret, msg }) => final(conv).put() == old(conv).put().push(
                PamStep::Prompt { style: wire_style(secret), msg: PromptText(msg) },
            ) && exists|a: Result<PamAnswer, PamError>|
                came(old(conv).answers(), final(conv).answers(), a)
                    && #[trigger] is_prompt_move(secret, a, m),
            Some(Frame::Info { msg }) => m is Continue && final(conv).put() == old(
                conv,
            ).put().push(PamStep::Info { style: MsgStyle::TextInfo, msg: PromptText(msg) }),
            Some(Frame::Outcome { ok }) => m == GreeterMove::Finish(
                if ok {
                    PamStep::Complete
                } else {
                    PamStep::Failed { class: PamClass::AuthError }
                },
            ) && final(conv).put() == old(conv).put(),
            Some(Frame::Answer { .. }) => m == GreeterMove::Finish(aborted()) && final(conv).put()
                == old(conv).put(),
            Some(Frame::Cancel) => m == GreeterMove::Finish(aborted()) && final(conv).put() == old(
                conv,
            ).put(),
        },
{
    match got {
        None => GreeterMove::Finish(PamStep::Failed { class: PamClass::Abort }),
        Some(Frame::Prompt { secret, msg }) => {
            let style: MsgStyle = if secret {
                MsgStyle::PromptEchoOff
            } else {
                MsgStyle::PromptEchoOn
            };
            let answer: Result<PamAnswer, PamError> = conv.ask(style, PromptText(msg));
            let ghost a = answer;
            let m: GreeterMove = prompt_move(secret, answer);
            proof {
                assert(is_prompt_move(secret, a, m));
            }
            m
        },
        Some(Frame::Info { msg }) => {
            let _ = conv.tell(MsgStyle::TextInfo, PromptText(msg));
            GreeterMove::Continue
        },
        Some(Frame::Outcome { ok }) => GreeterMove::Finish(
            if ok {
                PamStep::Complete
            } else {
                PamStep::Failed { class: PamClass::AuthError }
            },
        ),
        Some(Frame::Answer { .. }) => GreeterMove::Finish(PamStep::Failed { class: PamClass::Abort }),
        Some(Frame::Cancel) => GreeterMove::Finish(PamStep::Failed { class: PamClass::Abort }),
    }
}

/// What a reply that was written, or was not, leads to: an answer that does not
/// reach the daemon ends the conversation as failed.
pub fn after_reply(sent: bool) -> (m: GreeterMove)
    ensures
        sent ==> m is Continue,
        !sent ==> m == GreeterMove::Finish(aborted()),
{
    if sent {
        GreeterMove::Continue
    } else {
        GreeterMove::Finish(PamStep::Failed { class: PamClass::Abort })
    }
}

/// What the daemon's end does after its frame is written.
pub enum AfterSend {
    /// Read the answer to the prompt of this style.
    AwaitAnswer(MsgStyle),
    /// Take the next step.
    Continue,
    /// The login ended, and whether it succeeded.
    Ended(bool),
}

/// The frame that a step is put to the greeter as, and what follows.
pub open spec fn is_served(step: PamStep, frame: Frame, after: AfterSend) -> bool {
    match step {
        PamStep::Prompt { style, msg } => {
            &&& frame matches Frame::Prompt { secret, msg: m }
            &&& secret == (style == MsgStyle::PromptEchoOff)
            &&& m == msg.0
            &&& after == AfterSend::AwaitAnswer(style)
        },
        PamStep::Info { msg, .. } => {
            &&& frame matches Frame::Info { msg: m }
            &&& m == msg.0
            &&& after is Continue
        },
        PamStep::Complete => frame == (Frame::Outcome { ok: true }) && after == AfterSend::Ended(true),
        PamStep::Failed { .. } => frame == (Frame::Outcome { ok: false }) && after == AfterSend::Ended(
            false,
        ),
    }
}

/// The frame that a step is put to the greeter as, and what follows. Why a
/// login failed is no part of it.
pub fn frame_for(step: PamStep) -> (r: (Frame, AfterSend))
    ensures
        is_served(step, r.0, r.1),
{
    match step {
        PamStep::Prompt { style, msg } => (
            Frame::Prompt { secret: matches!(style, MsgStyle::PromptEchoOff), msg: msg.0 },
            AfterSend::AwaitAnswer(style),
        ),
        PamStep::Info { msg, .. } => (Frame::Info { msg: msg.0 }, AfterSend::Continue),
        PamStep::Complete => (Frame::Outcome { ok: true }, AfterSend::Ended(true)),
        PamStep::Failed { .. } => (Frame::Outcome { ok: false }, AfterSend::Ended(false)),
    }
}

/// Takes the next step of a login and says what to write for it.
pub fn serve<E: SeatEnv>(env: &mut E, h: PamHandleId) -> (r: Result<(Frame, AfterSend), String>)
    ensures
        moved(*old(env), *final(env)),
        exists|n: Result<PamStep, PamError>|
            {
                &&& final(env).trace() == #[trigger] old(env).trace().push(PamEvent::Next { h, r: n })
                &&& match n {
                    Ok(step) => r matches Ok(x) && is_served(step, x.0, x.1),
                    Err(e) => r matches Err(m) && m@ == e.message_text(),
                }
            },
{
    let next: Result<PamStep, PamError> = env.pam_next(h);
    proof {
        lemma_stood(*old(env));
        lemma_moved_on(*old(env), *old(env), PamEvent::Next { h, r: next }, *env);
    }
    match next {
        Ok(step) => Ok(frame_for(step)),
        Err(e) => Err(e.message()),
    }
}

/// As [`serve`], with the step recorded in what the daemon publishes.
pub fn serve_observed<E: SeatEnv>(env: &mut E, h: PamHandleId, state: &mut DaemonState) -> (r: Result<
    (Frame, AfterSend),
    String,
>)
    ensures
        moved(*old(env), *final(env)),
        exists|n: Result<PamStep, PamError>|
            {
                &&& final(env).trace() == #[trigger] old(env).trace().push(PamEvent::Next { h, r: n })
                &&& match n {
                    Ok(step) => r matches Ok(x) && is_served(step, x.0, x.1) && final(state)@
                        == (DaemonView { flow: observed(old(state)@.flow, step), ..old(state)@ }),
                    Err(e) => r matches Err(m) && m@ == e.message_text() && final(state)@ == old(state)@,
                }
            },
{
    let next: Result<PamStep, PamError> = env.pam_next(h);
    proof {
        lemma_stood(*old(env));
        lemma_moved_on(*old(env), *old(env), PamEvent::Next { h, r: next }, *env);
    }
    match next {
        Ok(step) => {
            state.observe(&step);
            Ok(frame_for(step))
        },
        Err(e) => Err(e.message()),
    }
}

/// What a frame that came for a prompt leads to.
pub enum Reply {
    /// The answer was taken; take the next step.
    Continue,
    /// The person gave up.
    Cancelled,
}

pub open spec fn bool_word(b: bool) -> Seq<char> {
    if b {
        "true"@
    } else {
        "false"@
    }
}

/// A frame in words. What an answer says is left out.
pub open spec fn frame_words(f: Frame) -> Seq<char> {
    match f {
        Frame::Prompt { secret, msg } => "Prompt { secret: "@ + bool_word(secret) + ", msg: "@
            + text::quoted_text(msg@) + " }"@,
        Frame::Info { msg } => "Info { msg: "@ + text::quoted_text(msg@) + " }"@,
        Frame::Outcome { ok } => "Outcome { ok: "@ + bool_word(ok) + " }"@,
        Frame::Answer { .. } => "Answer"@,
        Frame::Cancel => "Cancel"@,
    }
}

fn word_of(b: bool) -> (s: &'static str)
    ensures
        s@ == bool_word(b),
{
    if b {
        "true"
    } else {
        "false"
    }
}

/// A frame in words.
pub fn describe_frame(f: &Frame) -> (s: String)
    ensures
        s@ == frame_words(*f),
{
    match f {
        Frame::Prompt { secret, msg } => {
            let mut s: String = "Prompt { secret: ".to_owned();
            s.append(word_of(*secret));
            s.append(", msg: ");
            s.append(text::quoted(msg.as_str()).as_str());
            s.append(" }");
            s
        },
        Frame::Info { msg } => {
            let mut s: String = "Info { msg: ".to_owned();
            s.append(text::quoted(msg.as_str()).as_str());
            s.append(" }");
            s
        },
        Frame::Outcome { ok } => {
            let mut s: String = "Outcome { ok: ".to_owned();
            s.append(word_of(*ok));
            s.append(" }");
            s
        },
        Frame::Answer { .. } => "Answer".to_owned(),
        Frame::Cancel => "Cancel".to_owned(),
    }
}

/// Whether `a` is the text as an answer to a prompt of this style.
pub open spec fn is_answer(style: MsgStyle, words: Seq<char>, a: PamAnswer) -> bool {
    if style == MsgStyle::PromptEchoOff {
        a matches PamAnswer::Secret(p) && p@ == words
    } else {
        a matches PamAnswer::Visible(v) && v@ == words
    }
}

/// Takes in the frame that came for a prompt of this style: an answer goes to
/// the environment, secret exactly where the prompt was; a cancel ends the
/// login; anything else is an error.
pub fn take_reply<E: SeatEnv>(env: &mut E, h: PamHandleId, style: MsgStyle, got: Frame) -> (r: Result<
    Reply,
    String,
>)
    ensures
        moved(*old(env), *final(env)),
        match got {
            Frame::Answer { text } => exists|a: PamAnswer, t: Result<(), PamError>|
                {
                    &&& final(env).trace() == #[trigger] old(env).trace().push(
                        PamEvent::Answer { h, a, r: t },
                    )
                    &&& is_answer(style, text@, a)
                    &&& if style == MsgStyle::PromptEchoOff {
                        a matches PamAnswer::Secret(p) && p@ == text@
                    } else {
                        a matches PamAnswer::Visible(v) && v@ == text@
                    }
                    &&& match t {
                        Ok(_) => r matches Ok(x) && x is Continue,
                        Err(e) => r matches Err(m) && m@ == e.message_text(),
                    }
                },
            Frame::Cancel => final(env).trace() == old(env).trace() && (r matches Ok(x) && x is Cancelled),
            _ => final(env).trace() == old(env).trace() && (r matches Err(m) && m@ == "the greeter sent "@
                + frame_words(got) + " to a prompt"@),
        },
{
    proof {
        lemma_stood(*env);
    }
    match got {
        Frame::Answer { text } => {
            let a: PamAnswer = if matches!(style, MsgStyle::PromptEchoOff) {
                PamAnswer::Secret(Passphrase::new(text))
            } else {
                PamAnswer::Visible(text)
            };
            let ghost given = a;
            let t: Result<(), PamError> = env.pam_answer(h, a);
            proof {
                lemma_moved_on(
                    *old(env),
                    *old(env),
                    PamEvent::Answer { h, a: given, r: t },
                    *env,
                );
            }
            match t {
                Ok(_) => Ok(Reply::Continue),
                Err(e) => Err(e.message()),
            }
        },
        Frame::Cancel => Ok(Reply::Cancelled),
        other => {
            let mut m: String = "the greeter sent ".to_owned();
            m.append(describe_frame(&other).as_str());
            m.append(" to a prompt");
            Err(m)
        },
    }
}

/// A secret never leaves the greeter for a prompt that was not secret.
pub proof fn no_secret_for_a_visible_prompt(p: Passphrase, m: GreeterMove)
    requires
        is_prompt_move(false, Ok(PamAnswer::Secret(p)), m),
    ensures
        m == GreeterMove::CancelThenFinish(aborted()),
{
}

/// A refused login is put to the greeter alike, whatever the reason.
pub proof fn refusals_look_alike(a: PamClass, b: PamClass, f: Frame, g: Frame, x: AfterSend, y: AfterSend)
    requires
        is_served(PamStep::Failed { class: a }, f, x),
        is_served(PamStep::Failed { class: b }, g, y),
    ensures
        f == g,
        x == y,
{
}

/// What the greeter sent is what PAM is given, to the letter: as a secret for a
/// masked prompt, in the clear for any other, and nothing is added or lost.
pub proof fn an_answer_is_passed_to_the_letter(style: MsgStyle, words: Seq<char>, a: PamAnswer)
    requires
        is_answer(style, words, a),
    ensures
        a matches PamAnswer::Secret(p) ==> style == MsgStyle::PromptEchoOff && p@ == words,
        a matches PamAnswer::Visible(v) ==> style != MsgStyle::PromptEchoOff && v@ == words,
{
}

/// What the face answered is what the daemon is sent, to the letter, and what is
/// asked is what the frame says: masked where it says so, with its own words.
pub proof fn a_reply_is_the_face_s_answer(
    secret: bool,
    answer: Result<PamAnswer, PamError>,
    m: GreeterMove,
)
    requires
        is_prompt_move(secret, answer, m),
    ensures
        wire_style(secret) == MsgStyle::PromptEchoOff <==> secret,
        wire_style(secret) == MsgStyle::PromptEchoOn <==> !secret,
        answer matches Ok(PamAnswer::Visible(v)) ==> (m matches GreeterMove::Reply(
            Frame::Answer { text },
        ) && text@ == v@),
        secret ==> (answer matches Ok(PamAnswer::Secret(p)) ==> (m matches GreeterMove::Reply(
            Frame::Answer { text },
        ) && text@ == p@)),
        m matches GreeterMove::Reply(f) ==> answer is Ok && f is Answer,
        answer is Err ==> (m matches GreeterMove::CancelThenFinish(
            PamStep::Failed { class: PamClass::Abort },
        )),
{
}

/// A step reaches the greeter as it is: a prompt with its words, masked if and
/// only if its style is the secret one, and then its answer is awaited; a message
/// with its words; success as success and refusal as refusal.
pub proof fn a_step_is_served_as_it_is(step: PamStep, frame: Frame, after: AfterSend)
    requires
        is_served(step, frame, after),
    ensures
        step matches PamStep::Prompt { style, msg } ==> (frame matches Frame::Prompt { secret, msg: m }
            && (secret <==> style == MsgStyle::PromptEchoOff) && m@ == msg.0@) && (
        after matches AfterSend::AwaitAnswer(s) && s == style),
        step matches PamStep::Info { msg, .. } ==> (frame matches Frame::Info { msg: m } && m@
            == msg.0@) && after is Continue,
        step is Complete <==> frame == (Frame::Outcome { ok: true }),
        step is Failed <==> frame == (Frame::Outcome { ok: false }),
        after matches AfterSend::Ended(ok) ==> (ok <==> step is Complete) && (!ok <==> step is Failed),
{
}

/// The high byte of a length comes first: the first byte in which two lengths differ
/// says which is the greater, the last byte alone counts up from zero, and the
/// greatest length is the greatest number of four bytes.
pub proof fn the_high_byte_comes_first(b: Seq<u8>, c: Seq<u8>)
    requires
        b.len() == 4,
        c.len() == 4,
    ensures
        b[0] < c[0] ==> be_value(b) < be_value(c),
        b[0] == c[0] && b[1] < c[1] ==> be_value(b) < be_value(c),
        b[0] == c[0] && b[1] == c[1] && b[2] < c[2] ==> be_value(b) < be_value(c),
        b[0] == c[0] && b[1] == c[1] && b[2] == c[2] ==> be_value(c) - be_value(b) == c[3] - b[3],
        b[0] == 0 && b[1] == 0 && b[2] == 0 ==> be_value(b) == b[3],
        0 <= be_value(b) <= u32::MAX,
        be_value(seq![255u8, 255u8, 255u8, 255u8]) == u32::MAX,
{
}

/// A prompt is masked at the greeter if and only if it is masked at the daemon, and
/// its words come through.
pub proof fn masking_comes_through_the_wire(style: MsgStyle, msg: PromptText, frame: Frame, after: AfterSend)
    requires
        is_served(PamStep::Prompt { style, msg }, frame, after),
    ensures
        frame matches Frame::Prompt { secret, msg: words } && words@ == msg.0@ && (wire_style(secret)
            == MsgStyle::PromptEchoOff <==> style == MsgStyle::PromptEchoOff) && (wire_style(secret)
            == MsgStyle::PromptEchoOn <==> style != MsgStyle::PromptEchoOff),
{
}

/// What an answer says is never told in words: two answers are told alike.
pub proof fn an_answer_is_not_told(a: String, b: String)
    ensures
        frame_words(Frame::Answer { text: a }) == frame_words(Frame::Answer { text: b }),
        frame_words(Frame::Answer { text: a }) == "Answer"@,
        frame_words(Frame::Cancel) == "Cancel"@,
        frame_words(Frame::Outcome { ok: true }) == "Outcome { ok: "@ + "true"@ + " }"@,
        frame_words(Frame::Outcome { ok: false }) == "Outcome { ok: "@ + "false"@ + " }"@,
{
}

} // verus!
