//! The conversation with greetd, by its protocol: a user's name first, then
//! what its stack asks, then the session.
//!
//! Reading and writing the socket is the caller's. greetd writes a length in
//! the byte order of the machine, unlike the daemon's own frames.
use vstd::prelude::*;
use crate::border::capability::into_wire;
use crate::border::env::{MsgStyle, PamAnswer, PamClass, PamError, PamStep, PromptText};
use crate::host::bridge::{came, keeps, ConvSide};
use crate::text;

verus! {

/// The prompt for the name, which greetd does not ask for itself.
pub const USERNAME_PROMPT: &'static str = "login:";

/// The variable that names greetd's socket.
pub const SOCK_ENV: &'static str = "GREETD_SOCK";

/// What greetd is told.
#[derive(Debug)]
pub enum Request {
    CreateSession { username: String },
    PostAuthMessageResponse { response: Option<String> },
    StartSession { cmd: Vec<String>, env: Vec<String> },
    CancelSession,
}

/// What greetd answers.
#[derive(Debug)]
pub enum Response {
    Success,
    Error { error_type: String, description: String },
    AuthMessage { auth_message_type: String, auth_message: String },
}

/// What to start once the person is in.
#[derive(Debug)]
pub struct SessionCmd {
    pub cmd: Vec<String>,
    pub env: Vec<String>,
}

impl Clone for SessionCmd {
    fn clone(&self) -> (r: Self)
        ensures
            r.cmd@ == self.cmd@,
            r.env@ == self.env@,
    {
        SessionCmd { cmd: text::copy_strings(&self.cmd), env: text::copy_strings(&self.env) }
    }
}

/// The length that is written before a request of this many bytes.
pub fn request_length(n: usize) -> (r: Result<u32, &'static str>)
    ensures
        n <= u32::MAX ==> r == Ok::<u32, &'static str>(n as u32),
        n > u32::MAX ==> (r matches Err(e) && e@ == "a request larger than 4GiB"@),
{
    if n as u64 > 0xffff_ffff {
        return Err("a request larger than 4GiB");
    }
    Ok(n as u32)
}

/// Where the conversation with greetd stands.
#[derive(Debug, Clone, Copy, PartialEq, Eq, Structural)]
pub enum Phase {
    /// Its stack asks.
    Talking,
    /// The person is authenticated, and the session was asked for.
    Starting,
    /// It is over.
    Over,
}

/// What to do next.
pub enum Move {
    /// Write this request, then read the answer.
    Send(Request),
    /// End the conversation.
    Finish(PamStep),
    /// Write that the session is cancelled, then end the conversation.
    CancelThenFinish(PamStep),
}

pub open spec fn failed(class: PamClass) -> PamStep {
    PamStep::Failed { class }
}

/// Whether `m` is what the answer to the prompt for the name leads to. A name
/// is not a secret, and one that comes as a secret is refused.
pub open spec fn is_username_move(answer: Result<PamAnswer, PamError>, m: Move) -> bool {
    match answer {
        Ok(PamAnswer::Visible(v)) => m matches Move::Send(Request::CreateSession { username })
            && username == v,
        _ => m == Move::Finish(failed(PamClass::Abort)),
    }
}

/// What the answer to the prompt for the name leads to.
pub fn username_move(answer: Result<PamAnswer, PamError>) -> (m: Move)
    ensures
        is_username_move(answer, m),
{
    match answer {
        Ok(PamAnswer::Visible(v)) => Move::Send(Request::CreateSession { username: v }),
        Ok(PamAnswer::Secret(_)) => Move::Finish(PamStep::Failed { class: PamClass::Abort }),
        Err(_) => Move::Finish(PamStep::Failed { class: PamClass::Abort }),
    }
}

/// The prompt for the name.
pub open spec fn is_username_prompt(step: PamStep) -> bool {
    step matches PamStep::Prompt { style, msg } && style == MsgStyle::PromptEchoOn && msg.0@
        == USERNAME_PROMPT@
}

/// Begins the conversation: the name is asked for in the clear.
pub fn begin(conv: &mut ConvSide) -> (m: Move)
    ensures
        keeps(*old(conv), *final(conv)),
        final(conv).put().len() == old(conv).put().len() + 1,
        final(conv).put().drop_last() == old(conv).put(),
        is_username_prompt(final(conv).put().last()),
        exists|a: Result<PamAnswer, PamError>|
            came(old(conv).answers(), final(conv).answers(), a)
                && #[trigger] is_username_move(a, m),
{
    let answer: Result<PamAnswer, PamError> = conv.ask(
        MsgStyle::PromptEchoOn,
        PromptText(USERNAME_PROMPT.to_owned()),
    );
    assert(conv.put().drop_last() =~= old(conv).put());
    let ghost a = answer;
    let m: Move = username_move(answer);
    assert(is_username_move(a, m));
    m
}

/// The style of a message of greetd's stack. `secret` alone is masked.
pub open spec fn style_for(kind: Seq<char>) -> MsgStyle {
    if kind == "secret"@ {
        MsgStyle::PromptEchoOff
    } else if kind == "visible"@ {
        MsgStyle::PromptEchoOn
    } else if kind == "error"@ {
        MsgStyle::ErrorMsg
    } else {
        MsgStyle::TextInfo
    }
}

/// The style of a message of greetd's stack.
pub fn auth_style(kind: &str) -> (s: MsgStyle)
    ensures
        s == style_for(kind@),
{
    if text::same(kind, "secret") {
        MsgStyle::PromptEchoOff
    } else if text::same(kind, "visible") {
        MsgStyle::PromptEchoOn
    } else if text::same(kind, "error") {
        MsgStyle::ErrorMsg
    } else {
        MsgStyle::TextInfo
    }
}

/// Whether `m` is what the answer to a prompt of the stack leads to.
pub open spec fn is_reply_move(answer: Result<PamAnswer, PamError>, m: Move) -> bool {
    match answer {
        Ok(PamAnswer::Visible(v)) => m matches Move::Send(
            Request::PostAuthMessageResponse { response: Some(s) },
        ) && s@ == v@,
        Ok(PamAnswer::Secret(p)) => m matches Move::Send(
            Request::PostAuthMessageResponse { response: Some(s) },
        ) && s@ == p@,
        Err(_) => m == Move::CancelThenFinish(failed(PamClass::Abort)),
    }
}

/// What the answer to a prompt of the stack leads to.
pub fn reply_move(answer: Result<PamAnswer, PamError>) -> (m: Move)
    ensures
        is_reply_move(answer, m),
{
    match answer {
        Ok(PamAnswer::Visible(v)) => Move::Send(
            Request::PostAuthMessageResponse { response: Some(v) },
        ),
        Ok(PamAnswer::Secret(p)) => Move::Send(
            Request::PostAuthMessageResponse { response: Some(into_wire(p)) },
        ),
        Err(_) => Move::CancelThenFinish(PamStep::Failed { class: PamClass::Abort }),
    }
}

/// The class of a refusal by its type. What greetd says beside it is not
/// carried: it tells which accounts there are.
pub open spec fn class_for(error_type: Seq<char>) -> PamClass {
    if error_type == "auth_error"@ {
        PamClass::AuthError
    } else {
        PamClass::Abort
    }
}

/// Whether `m` asks for the session.
pub open spec fn is_start(session: SessionCmd, m: Move) -> bool {
    m matches Move::Send(Request::StartSession { cmd, env }) && cmd@ == session.cmd@ && env@
        == session.env@
}

/// Whether greetd asks for something.
pub open spec fn is_prompting(phase: Phase, got: Option<Response>) -> bool {
    phase == Phase::Talking && (got matches Some(Response::AuthMessage { auth_message_type, .. }) && {
        let style = style_for(auth_message_type@);
        style == MsgStyle::PromptEchoOff || style == MsgStyle::PromptEchoOn
    })
}

/// Takes in an answer of greetd, or that none could be read. Authentication is
/// not the session: the conversation is complete once greetd has started it.
pub fn answered(conv: &mut ConvSide, phase: Phase, session: &SessionCmd, got: Option<Response>) -> (r: (
    Phase,
    Move,
))
    ensures
        keeps(*old(conv), *final(conv)),
        !is_prompting(phase, got) ==> final(conv).heard() == old(conv).heard(),
        match (phase, got) {
            (Phase::Talking, None) => final(conv).put() == old(conv).put() && r.0 == Phase::Over
                && r.1 == Move::CancelThenFinish(failed(PamClass::Abort)),
            (Phase::Talking, Some(Response::Success)) => final(conv).put() == old(conv).put()
                && r.0 == Phase::Starting && is_start(*session, r.1),
            (Phase::Talking, Some(Response::Error { error_type, .. })) => final(conv).put() == old(
                conv,
            ).put() && r.0 == Phase::Over && r.1 == Move::CancelThenFinish(
                failed(class_for(error_type@)),
            ),
            (
                Phase::Talking,
                Some(Response::AuthMessage { auth_message_type, auth_message }),
            ) => {
                let style = style_for(auth_message_type@);
                let msg = PromptText(auth_message);
                if style == MsgStyle::PromptEchoOff || style == MsgStyle::PromptEchoOn {
                    &&& final(conv).put() == old(conv).put().push(PamStep::Prompt { style, msg })
                    &&& exists|a: Result<PamAnswer, PamError>|
                        came(old(conv).answers(), final(conv).answers(), a)
                            && #[trigger] is_reply_move(a, r.1)
                    &&& r.0 == if r.1 is Send {
                        Phase::Talking
                    } else {
                        Phase::Over
                    }
                } else {
                    &&& final(conv).put() == old(conv).put().push(PamStep::Info { style, msg })
                    &&& r.0 == Phase::Talking
                    &&& r.1 == Move::Send(Request::PostAuthMessageResponse { response: None })
                }
            },
            (Phase::Starting, Some(Response::Success)) => final(conv).put() == old(conv).put()
                && r.0 == Phase::Over && r.1 == Move::Finish(PamStep::Complete),
            (Phase::Starting, Some(Response::Error { description, .. })) => final(conv).put() == old(
                conv,
            ).put().push(
                PamStep::Info { style: MsgStyle::ErrorMsg, msg: PromptText(description) },
            ) && r.0 == Phase::Over && r.1 == Move::Finish(failed(PamClass::Abort)),
            _ => final(conv).put() == old(conv).put() && r.0 == Phase::Over && r.1
                == Move::Finish(failed(PamClass::Abort)),
        },
{
    match (phase, got) {
        (Phase::Talking, None) => (
            Phase::Over,
            Move::CancelThenFinish(PamStep::Failed { class: PamClass::Abort }),
        ),
        (Phase::Talking, Some(Response::Success)) => {
            let s: SessionCmd = session.clone();
            (Phase::Starting, Move::Send(Request::StartSession { cmd: s.cmd, env: s.env }))
        },
        (Phase::Talking, Some(Response::Error { error_type, .. })) => {
            let class: PamClass = if text::same(error_type.as_str(), "auth_error") {
                PamClass::AuthError
            } else {
                PamClass::Abort
            };
            (Phase::Over, Move::CancelThenFinish(PamStep::Failed { class }))
        },
        (Phase::Talking, Some(Response::AuthMessage { auth_message_type, auth_message })) => {
            let style: MsgStyle = auth_style(auth_message_type.as_str());
            match style {
                MsgStyle::PromptEchoOff | MsgStyle::PromptEchoOn => {
                    let answer: Result<PamAnswer, PamError> = conv.ask(
                        style,
                        PromptText(auth_message),
                    );
                    let ghost a = answer;
                    let m: Move = reply_move(answer);
                    assert(is_reply_move(a, m));
                    let over: bool = matches!(m, Move::CancelThenFinish(_));
                    if over {
                        (Phase::Over, m)
                    } else {
                        (Phase::Talking, m)
                    }
                },
                _ => {
                    let _ = conv.tell(style, PromptText(auth_message));
                    (
                        Phase::Talking,
                        Move::Send(Request::PostAuthMessageResponse { response: None }),
                    )
                },
            }
        },
        (Phase::Starting, Some(Response::Success)) => (Phase::Over, Move::Finish(PamStep::Complete)),
        (Phase::Starting, Some(Response::Error { description, .. })) => {
            let _ = conv.tell(MsgStyle::ErrorMsg, PromptText(description));
            (Phase::Over, Move::Finish(PamStep::Failed { class: PamClass::Abort }))
        },
        _ => (Phase::Over, Move::Finish(PamStep::Failed { class: PamClass::Abort })),
    }
}

/// What a request that could not be written leads to: greetd is left in a state
/// that a retry can use.
pub fn unsent() -> (m: Move)
    ensures
        m == Move::CancelThenFinish(failed(PamClass::Abort)),
{
    Move::CancelThenFinish(PamStep::Failed { class: PamClass::Abort })
}

/// `secret` is the one kind that is masked, and no other kind is.
pub proof fn only_a_secret_is_masked(kind: Seq<char>)
    ensures
        style_for(kind) == MsgStyle::PromptEchoOff <==> kind == "secret"@,
{
}

/// The name that was typed is the name that greetd is told, to the letter. One
/// that came as a secret, and one that did not come, is told to nobody.
pub proof fn a_name_is_told_to_the_letter(answer: Result<PamAnswer, PamError>, m: Move)
    requires
        is_username_move(answer, m),
    ensures
        answer matches Ok(PamAnswer::Visible(v)) ==> (m matches Move::Send(Request::CreateSession {
            username,
        }) && username@ == v@),
        !(answer matches Ok(PamAnswer::Visible(_))) ==> m == Move::Finish(
            PamStep::Failed { class: PamClass::Abort },
        ),
{
}

/// What was typed for a prompt is what greetd is told, to the letter, whether it
/// may be shown or not. Where nothing came the session is cancelled.
pub proof fn a_reply_is_told_to_the_letter(answer: Result<PamAnswer, PamError>, m: Move)
    requires
        is_reply_move(answer, m),
    ensures
        answer matches Ok(PamAnswer::Visible(v)) ==> (m matches Move::Send(
            Request::PostAuthMessageResponse { response: Some(s) },
        ) && s@ == v@),
        answer matches Ok(PamAnswer::Secret(p)) ==> (m matches Move::Send(
            Request::PostAuthMessageResponse { response: Some(s) },
        ) && s@ == p@),
        answer is Err ==> m == Move::CancelThenFinish(PamStep::Failed { class: PamClass::Abort }),
{
}

/// Each kind has its own style, and a kind that is not known is shown as a
/// message.
pub proof fn each_kind_has_its_style(kind: Seq<char>)
    ensures
        style_for(kind) == MsgStyle::PromptEchoOff <==> kind == "secret"@,
        style_for(kind) == MsgStyle::PromptEchoOn <==> kind == "visible"@,
        style_for(kind) == MsgStyle::ErrorMsg <==> kind == "error"@,
        style_for(kind) == MsgStyle::TextInfo <==> kind != "secret"@ && kind != "visible"@ && kind
            != "error"@,
{
    reveal_strlit("secret");
    reveal_strlit("visible");
    reveal_strlit("error");
    assert("secret"@.len() == 6 && "visible"@.len() == 7 && "error"@.len() == 5);
}

/// A refusal is told from a fault by its type alone, and is never taken for
/// another class.
pub proof fn a_refusal_is_told_from_a_fault(error_type: Seq<char>)
    ensures
        class_for(error_type) == PamClass::AuthError <==> error_type == "auth_error"@,
        class_for(error_type) == PamClass::Abort <==> error_type != "auth_error"@,
{
}

/// The session that is asked for is the one that was configured: every word of
/// its command and every variable, in order.
pub proof fn the_session_is_asked_for_whole(session: SessionCmd, m: Move, i: int)
    requires
        is_start(session, m),
    ensures
        m matches Move::Send(Request::StartSession { cmd, env }) && {
            &&& cmd@.len() == session.cmd@.len()
            &&& env@.len() == session.env@.len()
            &&& 0 <= i < session.cmd@.len() ==> cmd@[i]@ == session.cmd@[i]@
            &&& 0 <= i < session.env@.len() ==> env@[i]@ == session.env@[i]@
        },
{
}

/// greetd is prompting if and only if its stack talks and what came is a prompt,
/// to be shown or not.
pub proof fn a_prompt_is_secret_or_visible(phase: Phase, kind: String, text: String)
    ensures
        is_prompting(
            phase,
            Some(Response::AuthMessage { auth_message_type: kind, auth_message: text }),
        ) <==> phase == Phase::Talking && (kind@ == "secret"@ || kind@ == "visible"@),
        !is_prompting(phase, None),
        !is_prompting(phase, Some(Response::Success)),
        !is_prompting(phase, Some(Response::Error { error_type: kind, description: text })),
{
    each_kind_has_its_style(kind@);
}

} // verus!
