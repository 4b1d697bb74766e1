//! A face on one side, a conversation on the other.
//!
//! The conversation decides which field is asked for, by whether what is typed
//! may be shown. The face keeps its two fields and collects what was asked.
use vstd::prelude::*;
use crate::border::capability::Passphrase;
use crate::border::env::{MsgStyle, PamAnswer, PamClass, PamError, PamStep};
use crate::border::ids::ServiceName;
use crate::face::{Action, Face, FaceView, Field, KeyPress};
use crate::host::bridge::{delivered, is_terminal, opens, steps_among, waited, Bridge, Received};
use crate::text;

verus! {

/// What became of a login.
#[derive(Debug, Clone, Copy, PartialEq, Eq, Structural)]
pub enum Verdict {
    /// The person proved who they are.
    Authenticated,
    /// The person was refused. Why is not carried.
    Refused,
    /// The person walked away, which is no failure.
    Abandoned,
}

/// What the person is told of every failure.
pub const REFUSAL: &'static str = "Login incorrect";

/// A face that drives a conversation.
pub struct Session {
    face: Face,
    bridge: Bridge,
    awaiting: Option<MsgStyle>,
    verdict: Option<Verdict>,
    service: ServiceName,
}

pub struct SessionView {
    pub face: FaceView,
    /// The style of the prompt that waits for an answer.
    pub awaiting: Option<MsgStyle>,
    pub verdict: Option<Verdict>,
    pub service: Seq<char>,
    /// The answers given so far, each with whether the conversation took it.
    pub given: Seq<(PamAnswer, bool)>,
    /// The waits for a step so far, each with how many seconds it was to last at
    /// most and what it came to.
    pub seen: Seq<(u64, Received)>,
    /// All steps and all answers that ever pass between the session and the
    /// conversation.
    pub passing: (Seq<PamStep>, Seq<PamAnswer>),
    /// Whether the conversation has ended.
    pub ended: bool,
}

/// Whether what came and what the conversation took is how all that passes begins.
pub open spec fn is_faithful(s: SessionView) -> bool {
    &&& opens(steps_among(s.seen), s.passing.0)
    &&& opens(delivered(s.given), s.passing.1)
}

/// The field that a prompt of this style is answered in.
pub open spec fn field_for(style: MsgStyle) -> Field {
    if style == MsgStyle::PromptEchoOff {
        Field::Secret
    } else {
        Field::User
    }
}

/// The session of a person who was refused.
pub open spec fn refused(s: SessionView) -> SessionView {
    SessionView {
        face: FaceView { notice: Some(REFUSAL@), quit: true, ..s.face },
        awaiting: None,
        verdict: Some(Verdict::Refused),
        ..s
    }
}

/// The session after a step of the conversation.
pub open spec fn reflected(s: SessionView, step: PamStep) -> SessionView {
    match step {
        PamStep::Prompt { style, msg } => SessionView {
            face: FaceView { prompt: Some(msg.0@), focus: field_for(style), ..s.face },
            awaiting: Some(style),
            ..s
        },
        PamStep::Info { msg, .. } => SessionView {
            face: FaceView { notice: Some(msg.0@), ..s.face },
            ..s
        },
        PamStep::Complete => SessionView {
            face: FaceView { quit: true, ..s.face },
            awaiting: None,
            verdict: Some(Verdict::Authenticated),
            ..s
        },
        PamStep::Failed { .. } => refused(s),
    }
}

/// Whether `a` is what the face has collected for a prompt of this style.
pub open spec fn is_collected(face: FaceView, style: MsgStyle, a: PamAnswer) -> bool {
    if style == MsgStyle::PromptEchoOff {
        a matches PamAnswer::Secret(p) && p@ == face.masked
    } else {
        a matches PamAnswer::Visible(v) && v@ == face.user
    }
}

/// The session after an answer, which was taken or not. A secret is cleared as
/// soon as it was handed over.
pub open spec fn submitted(s: SessionView, style: MsgStyle, taken: bool) -> SessionView {
    if !taken {
        refused(s)
    } else if style == MsgStyle::PromptEchoOff {
        SessionView { face: FaceView { masked: Seq::empty(), ..s.face }, ..s }
    } else {
        s
    }
}

impl Session {
    pub closed spec fn view(&self) -> SessionView {
        SessionView {
            face: self.face@,
            awaiting: self.awaiting,
            verdict: self.verdict,
            service: self.service@,
            given: self.bridge.given(),
            seen: self.bridge.seen(),
            passing: self.bridge.passing(),
            ended: self.bridge.is_finished(),
        }
    }

    /// A session over a conversation that was started elsewhere.
    pub fn from_bridge(face: Face, bridge: Bridge, service: ServiceName) -> (s: Self)
        ensures
            s@ == (SessionView {
                face: face@,
                awaiting: None,
                verdict: None,
                service: service@,
                given: bridge.given(),
                seen: bridge.seen(),
                passing: bridge.passing(),
                ended: bridge.is_finished(),
            }),
    {
        Session { face, bridge, awaiting: None, verdict: None, service }
    }

    /// What became of the login, once that is known.
    pub fn verdict(&self) -> (v: Option<Verdict>)
        ensures
            v == self@.verdict,
    {
        self.verdict
    }

    /// The service of the conversation.
    pub fn service(&self) -> (s: &ServiceName)
        ensures
            s@ == self@.service,
    {
        &self.service
    }

    pub fn face(&self) -> (f: &Face)
        ensures
            f@ == self@.face,
    {
        &self.face
    }

    /// Waits for the next step of the conversation: the one that came, or a
    /// failure where none did. After an end there is no wait, only failure.
    pub fn next_step(&mut self) -> (step: PamStep)
        ensures
            final(self)@ == (SessionView {
                seen: final(self)@.seen,
                ended: old(self)@.ended || is_terminal(step),
                ..old(self)@
            }),
            if old(self)@.ended {
                step == (PamStep::Failed { class: PamClass::Abort }) && final(self)@.seen == old(
                    self,
                )@.seen
            } else {
                waited(old(self)@.seen, final(self)@.seen, old(self)@.passing.0, step)
            },
            is_faithful(old(self)@) ==> is_faithful(final(self)@),
    {
        self.bridge.next()
    }

    /// Shows a step on the face, and says whether there is another to wait for:
    /// there is after a message, and none after a prompt or an end.
    pub fn reflect(&mut self, step: PamStep) -> (more: bool)
        ensures
            final(self)@ == reflected(old(self)@, step),
            more == (step is Info),
    {
        match step {
            PamStep::Prompt { style, msg } => {
                self.face.ask(msg.0, style.is_secret());
                self.awaiting = Some(style);
                false
            },
            PamStep::Info { msg, .. } => {
                self.face.tell(msg.0);
                true
            },
            PamStep::Complete => {
                self.verdict = Some(Verdict::Authenticated);
                self.awaiting = None;
                self.face.leave();
                false
            },
            PamStep::Failed { .. } => {
                self.refuse();
                false
            },
        }
    }

    fn refuse(&mut self)
        ensures
            final(self)@ == refused(old(self)@),
    {
        self.face.tell(REFUSAL.to_owned());
        self.verdict = Some(Verdict::Refused);
        self.awaiting = None;
        self.face.leave();
    }

    /// Takes in whether an answer was taken.
    pub fn answered(&mut self, style: MsgStyle, taken: bool)
        ensures
            final(self)@ == submitted(old(self)@, style, taken),
    {
        if !taken {
            self.refuse();
            return ;
        }
        if style.is_secret() {
            self.face.clear_masked();
        }
    }

    /// Answers the prompt that waits, and says whether there is a step to wait
    /// for. Where no prompt waits, nothing is answered.
    pub fn submit(&mut self) -> (more: bool)
        ensures
            match old(self)@.awaiting {
                None => final(self)@ == old(self)@ && !more,
                Some(style) => exists|a: PamAnswer|
                    #[trigger] is_collected(old(self)@.face, style, a) && final(self)@ == submitted(
                        SessionView { given: old(self)@.given.push((a, more)), ..old(self)@ },
                        style,
                        more,
                    ),
            },
            is_faithful(old(self)@) ==> is_faithful(final(self)@),
    {
        let style: MsgStyle = match self.awaiting {
            None => {
                return false;
            },
            Some(s) => s,
        };
        let a: PamAnswer = if style.is_secret() {
            PamAnswer::Secret(Passphrase::new(self.face.expose().to_owned()))
        } else {
            PamAnswer::Visible(self.face.username().to_owned())
        };
        let ghost given = a;
        let r: Result<(), PamError> = self.bridge.answer(a);
        let taken: bool = r.is_ok();
        self.answered(style, taken);
        assert(is_collected(old(self)@.face, style, given));
        taken
    }

    /// Does what a key came to, and says whether there is a step to wait for.
    /// Submitting answers the conversation; giving up is no failure.
    pub fn handle(&mut self, action: Action) -> (more: bool)
        ensures
            match action {
                Action::Submit => match old(self)@.awaiting {
                    None => final(self)@ == old(self)@ && !more,
                    Some(style) => exists|a: PamAnswer|
                        #[trigger] is_collected(old(self)@.face, style, a) && final(self)@
                            == submitted(
                            SessionView { given: old(self)@.given.push((a, more)), ..old(self)@ },
                            style,
                            more,
                        ),
                },
                Action::Reset => !more && final(self)@ == (SessionView {
                    verdict: Some(Verdict::Abandoned),
                    face: FaceView { quit: true, ..crate::face::cleared(old(self)@.face) },
                    ..old(self)@
                }),
                other => !more && final(self)@ == (SessionView {
                    face: crate::face::handled(old(self)@.face, other),
                    ..old(self)@
                }),
            },
            is_faithful(old(self)@) ==> is_faithful(final(self)@),
    {
        match action {
            Action::Submit => self.submit(),
            Action::Reset => {
                self.verdict = Some(Verdict::Abandoned);
                self.face.reset();
                self.face.leave();
                false
            },
            other => {
                self.face.handle(other);
                false
            },
        }
    }

    /// Takes a key that no binding claims.
    pub fn on_unhandled(&mut self, k: &KeyPress)
        ensures
            final(self)@ == (SessionView {
                face: if k.pressed && !k.control && !k.alt && !k.logo && k.ch is Some {
                    crate::face::handled(old(self)@.face, Action::Type(k.ch->0))
                } else {
                    old(self)@.face
                },
                ..old(self)@
            }),
    {
        self.face.on_unhandled(k);
    }
}

/// What is said when the greeter ends, and whether it ends well.
pub struct Ending {
    pub ok: bool,
    pub said: Option<String>,
}

/// What is said of an authentication that opened no session.
pub open spec fn authenticated_text(service: Seq<char>) -> Seq<char> {
    "authenticated against PAM service `"@ + service
        + "`.\nmukae: NO SESSION WAS OPENED — nothing was exec'd, no VT was\nmukae: claimed, no utmp record was written. See\nmukae: `pending-mukae-session`."@
}

/// How a run that only authenticates ends. Success is said in words, and that it
/// is no session; the failures are not told apart by cause.
pub fn authenticate_ending(verdict: Option<Verdict>, service: &str) -> (e: Ending)
    ensures
        e.ok == (verdict == Some(Verdict::Authenticated)),
        e.said matches Some(s) && s@ == (match verdict {
            Some(Verdict::Authenticated) => authenticated_text(service@),
            Some(Verdict::Refused) => "login incorrect."@,
            Some(Verdict::Abandoned) => "cancelled."@,
            None => "the conversation ended without a verdict."@,
        }),
{
    match verdict {
        Some(Verdict::Authenticated) => {
            let mut s: String = "authenticated against PAM service `".to_owned();
            s.append(service);
            s.append(
                "`.\nmukae: NO SESSION WAS OPENED — nothing was exec'd, no VT was\nmukae: claimed, no utmp record was written. See\nmukae: `pending-mukae-session`.",
            );
            Ending { ok: true, said: Some(s) }
        },
        Some(Verdict::Refused) => Ending { ok: false, said: Some("login incorrect.".to_owned()) },
        Some(Verdict::Abandoned) => Ending { ok: false, said: Some("cancelled.".to_owned()) },
        None => Ending {
            ok: false,
            said: Some("the conversation ended without a verdict.".to_owned()),
        },
    }
}

/// How a run for greetd ends, which has started the session where it ends well.
pub fn greetd_ending(verdict: Option<Verdict>) -> (e: Ending)
    ensures
        e.ok == (verdict == Some(Verdict::Authenticated)),
        text::opt_text(e.said) == (match verdict {
            Some(Verdict::Authenticated) => None::<Seq<char>>,
            Some(Verdict::Refused) => Some("login incorrect."@),
            Some(Verdict::Abandoned) => None::<Seq<char>>,
            None => Some("the conversation ended without a verdict."@),
        }),
{
    match verdict {
        Some(Verdict::Authenticated) => Ending { ok: true, said: None },
        Some(Verdict::Refused) => Ending { ok: false, said: Some("login incorrect.".to_owned()) },
        Some(Verdict::Abandoned) => Ending { ok: false, said: None },
        None => Ending {
            ok: false,
            said: Some("the conversation ended without a verdict.".to_owned()),
        },
    }
}

/// A failure shows the same whatever its cause.
pub proof fn failures_show_alike(
    s: SessionView,
    a: PamClass,
    b: PamClass,
)
    ensures
        reflected(s, PamStep::Failed { class: a }) == reflected(s, PamStep::Failed { class: b }),
        reflected(s, PamStep::Failed { class: a }).verdict == Some(Verdict::Refused),
{
}

/// What is masked is what may not be shown: the masked field has the focus if
/// and only if the prompt is secret, and what goes out for it is what that
/// field holds.
pub proof fn secrets_are_typed_masked(s: SessionView, style: MsgStyle, msg: crate::border::env::PromptText, a: PamAnswer)
    requires
        is_collected(reflected(s, PamStep::Prompt { style, msg }).face, style, a),
    ensures
        reflected(s, PamStep::Prompt { style, msg }).face.focus == Field::Secret <==> style
            == MsgStyle::PromptEchoOff,
        a is Secret <==> style == MsgStyle::PromptEchoOff,
{
}

/// A secret that was handed over is not kept on the face.
pub proof fn an_answered_secret_is_gone(s: SessionView)
    ensures
        submitted(s, MsgStyle::PromptEchoOff, true).face.masked.len() == 0,
{
}

/// A step shows on the face as what it is, and changes nothing that the person
/// typed. A prompt is shown in its own words, in the masked field if and only if
/// it may not echo, and waits for its answer; a message is shown in its own words
/// and leaves a waiting prompt; an end leaves the face, with the verdict that the
/// step is.
pub proof fn a_step_is_shown_as_it_is(s: SessionView, step: PamStep)
    ensures
        ({
            let t = reflected(s, step);
            &&& t.face.user == s.face.user
            &&& t.face.masked == s.face.masked
            &&& t.service == s.service
            &&& t.given == s.given
            &&& t.seen == s.seen
            &&& t.passing == s.passing
            &&& t.ended == s.ended
            &&& step matches PamStep::Prompt { style, msg } ==> {
                &&& t.face.prompt == Some(msg.0@)
                &&& t.face.focus == Field::Secret <==> style == MsgStyle::PromptEchoOff
                &&& t.face.notice == s.face.notice
                &&& t.face.quit == s.face.quit
                &&& t.awaiting == Some(style)
                &&& t.verdict == s.verdict
            }
            &&& step matches PamStep::Info { style: _, msg } ==> {
                &&& t.face.notice == Some(msg.0@)
                &&& t.face.prompt == s.face.prompt
                &&& t.face.focus == s.face.focus
                &&& t.face.quit == s.face.quit
                &&& t.awaiting == s.awaiting
                &&& t.verdict == s.verdict
            }
            &&& step is Complete ==> {
                &&& t.verdict == Some(Verdict::Authenticated)
                &&& t.awaiting is None
                &&& t.face.quit
                &&& t.face.notice == s.face.notice
                &&& t.face.prompt == s.face.prompt
                &&& t.face.focus == s.face.focus
            }
            &&& step is Failed ==> {
                &&& t.verdict == Some(Verdict::Refused)
                &&& t.awaiting is None
                &&& t.face.quit
                &&& t.face.notice == Some("Login incorrect"@)
                &&& t.face.prompt == s.face.prompt
                &&& t.face.focus == s.face.focus
            }
        }),
{
}

/// What goes out is what the person typed, to the letter: the masked field for a
/// prompt that may not echo, as a secret, and the field of the name for any other.
pub proof fn the_answer_is_what_was_typed(face: FaceView, style: MsgStyle, a: PamAnswer)
    requires
        is_collected(face, style, a),
    ensures
        a matches PamAnswer::Secret(p) ==> style == MsgStyle::PromptEchoOff && p@ == face.masked,
        a matches PamAnswer::Visible(v) ==> style != MsgStyle::PromptEchoOff && v@ == face.user,
{
}

/// An answer that was taken clears the secret that it was, and changes nothing
/// else; one that was not taken is a refusal, which leaves the face.
pub proof fn an_answer_ends_a_login_only_where_it_is_not_taken(
    s: SessionView,
    style: MsgStyle,
    taken: bool,
)
    ensures
        ({
            let t = submitted(s, style, taken);
            &&& t.face.user == s.face.user
            &&& t.face.prompt == s.face.prompt
            &&& t.face.focus == s.face.focus
            &&& t.service == s.service
            &&& t.given == s.given
            &&& t.seen == s.seen
            &&& t.passing == s.passing
            &&& t.ended == s.ended
            &&& taken ==> {
                &&& t.verdict == s.verdict
                &&& t.awaiting == s.awaiting
                &&& t.face.quit == s.face.quit
                &&& t.face.notice == s.face.notice
                &&& style == MsgStyle::PromptEchoOff ==> t.face.masked == Seq::<char>::empty()
                &&& style != MsgStyle::PromptEchoOff ==> t.face.masked == s.face.masked
            }
            &&& !taken ==> {
                &&& t.verdict == Some(Verdict::Refused)
                &&& t.awaiting is None
                &&& t.face.quit
                &&& t.face.notice == Some("Login incorrect"@)
                &&& t.face.masked == s.face.masked
            }
        }),
{
}

/// A prompt that was shown is answered in the field that it was shown in.
pub proof fn a_prompt_is_answered_where_it_was_shown(
    s: SessionView,
    style: MsgStyle,
    msg: crate::border::env::PromptText,
    c: char,
    a: PamAnswer,
)
    requires
        is_collected(
            crate::face::handled(
                reflected(s, PamStep::Prompt { style, msg }).face,
                Action::Type(c),
            ),
            style,
            a,
        ),
    ensures
        style == MsgStyle::PromptEchoOff ==> (a matches PamAnswer::Secret(p) && p@
            == s.face.masked + seq![c]),
        style != MsgStyle::PromptEchoOff ==> (a matches PamAnswer::Visible(v) && v@ == s.face.user
            + seq![c]),
{
    assert(s.face.masked.push(c) =~= s.face.masked + seq![c]);
    assert(s.face.user.push(c) =~= s.face.user + seq![c]);
}

} // verus!
