//! The face, the session that drives it, greetd's protocol and the tools.
use std::collections::HashSet;

use mukae::border::capability::Passphrase;
use mukae::border::env::{MsgStyle, PamAnswer, PamClass, PamError, PamStep, PromptText};
use mukae::border::ids::ServiceName;
use mukae::face::{bindings, layout, text_char, Action, Face, Field, KeyPress};
use mukae::greetd::{
    answered, auth_style, begin, reply_move, request_length, unsent, username_move, Move, Phase,
    Request, Response, SessionCmd,
};
use mukae::greeter::cli::{command_of, mode_of, value_of, Mode, HELP, NO_COMMAND, NO_LIBPAM};
use mukae::greeter::mcp::{daemon_leaves, login_leaves, outcome, Forwarded, ReadInput, Tool};
use mukae::greeter::session::{authenticate_ending, greetd_ending, Session, Verdict};
use mukae::host::bridge::Bridge;

fn words(v: &[&str]) -> Vec<String> {
    v.iter().map(|s| s.to_string()).collect()
}

fn key(c: char, control: bool) -> KeyPress {
    KeyPress { pressed: true, control, alt: false, logo: false, ch: Some(c) }
}

#[test]
fn enter_on_the_username_advances_instead_of_submitting() {
    let mut f = Face::new();
    assert_eq!(f.focus(), Field::User);
    f.handle(Action::Submit);
    assert_eq!(f.focus(), Field::Secret);
}

#[test]
fn typing_goes_to_the_focused_field_only() {
    let mut f = Face::new();
    f.handle(Action::Type('l'));
    f.handle(Action::Type('d'));
    assert_eq!(f.username(), "ld");
    assert_eq!(f.mask_len(), 0);

    f.handle(Action::Focus(Field::Secret));
    f.handle(Action::Type('x'));
    assert_eq!(f.username(), "ld", "username unchanged");
    assert_eq!(f.mask_len(), 1);
}

#[test]
fn a_typed_character_actually_reaches_the_field() {
    let mut f = Face::new();
    f.on_unhandled(&key('l', false));
    f.on_unhandled(&key('d', false));
    assert_eq!(f.username(), "ld");
}

#[test]
fn a_modified_key_is_not_text() {
    let mut f = Face::new();
    f.on_unhandled(&key('c', true));
    assert_eq!(f.username(), "", "a modified key is a chord, never text");
    assert_eq!(text_char(&KeyPress { alt: true, ..key('c', false) }), None);
    assert_eq!(text_char(&KeyPress { logo: true, ..key('c', false) }), None);
    assert_eq!(text_char(&KeyPress { pressed: false, ..key('c', false) }), None);
    assert_eq!(text_char(&KeyPress { ch: None, ..key('c', false) }), None);
}

#[test]
fn reset_clears_the_secret_after_an_attempt() {
    let mut f = Face::new();
    f.handle(Action::Focus(Field::Secret));
    for c in "abcdef".chars() {
        f.handle(Action::Type(c));
    }
    assert_eq!(f.mask_len(), 6);
    f.handle(Action::Reset);
    assert_eq!(f.mask_len(), 0);
    assert_eq!(f.username(), "");
    assert_eq!(f.focus(), Field::User);
}

#[test]
fn backspace_takes_one_grapheme_from_the_focused_field() {
    let mut f = Face::new();
    f.prefill("ae\u{301}");
    assert_eq!(f.username(), "ae\u{301}");
    f.handle(Action::Backspace);
    assert_eq!(f.username(), "a");
    f.handle(Action::Backspace);
    f.handle(Action::Backspace);
    assert_eq!(f.username(), "");
    f.handle(Action::Focus(Field::Secret));
    f.handle(Action::Type('e'));
    f.handle(Action::Type('\u{301}'));
    assert_eq!(f.mask_len(), 1);
    f.handle(Action::Backspace);
    assert_eq!(f.mask_len(), 0);
}

#[test]
fn the_face_shows_what_it_is_given() {
    let mut f = Face::new();
    assert_eq!(f.prompt(), None);
    f.ask("PIN:".into(), true);
    assert_eq!((f.prompt(), f.focus()), (Some("PIN:"), Field::Secret));
    f.tell("hello".into());
    assert_eq!(f.notice(), Some("hello"));
    assert!(!f.should_quit());
    f.leave();
    assert!(f.should_quit());
    assert_eq!(f.user_line().text(), "");
    assert_eq!(f.masked_line().mask_len(), 0);
}

#[test]
fn the_keys_are_four() {
    let b = bindings();
    assert_eq!(b.len(), 4);
    assert_eq!(b[0], ("tab", Action::Focus(Field::Secret)));
    assert_eq!(b[1], ("enter", Action::Submit));
    assert_eq!(b[2], ("esc", Action::Reset));
    assert_eq!(b[3], ("backspace", Action::Backspace));
}

#[test]
fn the_box_is_in_the_middle() {
    let l = layout(80, 24);
    assert_eq!((l.x, l.width, l.user_y), (16, 48, 8));
    assert_eq!((l.prompt_y, l.masked_y, l.notice_y), (6, 10, 12));
    let s = layout(20, 3);
    assert_eq!((s.x, s.width, s.user_y, s.prompt_y), (0, 20, 1, 0));
}

fn session() -> Session {
    let (bridge, conv) = Bridge::new();
    drop(conv);
    Session::from_bridge(Face::new(), bridge, ServiceName::parse("greetd").unwrap())
}

fn prompt(style: MsgStyle) -> PamStep {
    PamStep::Prompt { style, msg: PromptText("q".into()) }
}

#[test]
fn the_conversation_decides_the_field() {
    let mut s = session();
    assert_eq!(s.service().as_str(), "greetd");
    assert!(!s.reflect(prompt(MsgStyle::PromptEchoOff)));
    assert_eq!(s.face().focus(), Field::Secret);
    assert!(!s.reflect(prompt(MsgStyle::PromptEchoOn)));
    assert_eq!(s.face().focus(), Field::User);
    assert!(s.reflect(PamStep::Info { style: MsgStyle::TextInfo, msg: PromptText("n".into()) }));
    assert_eq!(s.face().notice(), Some("n"));
    assert_eq!(s.verdict(), None);
}

#[test]
fn every_failure_reads_the_same() {
    for class in [PamClass::AuthError, PamClass::UserUnknown, PamClass::Abort] {
        let mut s = session();
        assert!(!s.reflect(PamStep::Failed { class }));
        assert_eq!(s.face().notice(), Some("Login incorrect"));
        assert_eq!(s.verdict(), Some(Verdict::Refused));
        assert!(s.face().should_quit());
    }
    let mut s = session();
    assert!(!s.reflect(PamStep::Complete));
    assert_eq!(s.verdict(), Some(Verdict::Authenticated));
    assert_eq!(s.face().notice(), None);
}

#[test]
fn an_answer_that_nobody_takes_is_a_refusal() {
    let mut s = session();
    assert!(!s.handle(Action::Submit), "no prompt waits");
    assert_eq!(s.verdict(), None);
    s.reflect(prompt(MsgStyle::PromptEchoOff));
    s.on_unhandled(&key('x', false));
    assert!(!s.handle(Action::Submit));
    assert_eq!(s.verdict(), Some(Verdict::Refused));
    assert!(matches!(s.next_step(), PamStep::Failed { .. }));
}

#[test]
fn a_secret_that_was_handed_over_is_cleared() {
    let mut s = session();
    s.reflect(prompt(MsgStyle::PromptEchoOff));
    s.on_unhandled(&key('x', false));
    assert_eq!(s.face().mask_len(), 1);
    s.answered(MsgStyle::PromptEchoOff, true);
    assert_eq!(s.face().mask_len(), 0);
}

#[test]
fn walking_away_is_no_refusal() {
    let mut s = session();
    s.on_unhandled(&key('x', false));
    assert!(!s.handle(Action::Reset));
    assert_eq!(s.verdict(), Some(Verdict::Abandoned));
    assert_eq!(s.face().username(), "");
    assert!(s.face().should_quit());
}

#[test]
fn the_end_is_said_in_words() {
    let e = authenticate_ending(Some(Verdict::Authenticated), "login");
    assert!(e.ok);
    let said = e.said.unwrap();
    assert!(said.starts_with("authenticated against PAM service `login`.\n"));
    assert!(said.contains("NO SESSION WAS OPENED"));
    let e = authenticate_ending(Some(Verdict::Refused), "login");
    assert!(!e.ok);
    assert_eq!(e.said.as_deref(), Some("login incorrect."));
    assert_eq!(
        authenticate_ending(Some(Verdict::Abandoned), "login").said.as_deref(),
        Some("cancelled.")
    );
    assert_eq!(
        authenticate_ending(None, "login").said.as_deref(),
        Some("the conversation ended without a verdict.")
    );
    assert!(greetd_ending(Some(Verdict::Authenticated)).ok);
    assert_eq!(greetd_ending(Some(Verdict::Authenticated)).said, None);
    assert_eq!(greetd_ending(Some(Verdict::Abandoned)).said, None);
    assert_eq!(greetd_ending(Some(Verdict::Refused)).said.as_deref(), Some("login incorrect."));
    assert!(!greetd_ending(None).ok);
}

fn cmd() -> SessionCmd {
    SessionCmd { cmd: words(&["omoya"]), env: words(&["A=b"]) }
}

#[test]
fn greetd_is_given_a_name_and_never_a_secret_as_one() {
    assert!(matches!(
        username_move(Ok(PamAnswer::Visible("luis".into()))),
        Move::Send(Request::CreateSession { username }) if username == "luis"
    ));
    assert!(matches!(
        username_move(Ok(PamAnswer::Secret(Passphrase::new("x".into())))),
        Move::Finish(PamStep::Failed { class: PamClass::Abort })
    ));
    assert!(matches!(username_move(Err(PamError::NoSuchHandle)), Move::Finish(_)));
    let (face, mut conv) = Bridge::new();
    drop(face);
    assert!(matches!(begin(&mut conv), Move::Finish(PamStep::Failed { .. })));
}

#[test]
fn greetd_s_messages_are_masked_where_they_are_secret() {
    assert_eq!(auth_style("secret"), MsgStyle::PromptEchoOff);
    assert_eq!(auth_style("visible"), MsgStyle::PromptEchoOn);
    assert_eq!(auth_style("error"), MsgStyle::ErrorMsg);
    assert_eq!(auth_style("info"), MsgStyle::TextInfo);
    assert_eq!(auth_style("Secret"), MsgStyle::TextInfo);
    assert!(matches!(
        reply_move(Ok(PamAnswer::Secret(Passphrase::new("hunter2".into())))),
        Move::Send(Request::PostAuthMessageResponse { response: Some(s) }) if s == "hunter2"
    ));
    assert!(matches!(
        reply_move(Ok(PamAnswer::Visible("v".into()))),
        Move::Send(Request::PostAuthMessageResponse { response: Some(s) }) if s == "v"
    ));
    assert!(matches!(reply_move(Err(PamError::NoSuchHandle)), Move::CancelThenFinish(_)));
}

#[test]
fn authentication_is_not_yet_a_session() {
    let (_face, mut conv) = Bridge::new();
    let (phase, m) = answered(&mut conv, Phase::Talking, &cmd(), Some(Response::Success));
    assert_eq!(phase, Phase::Starting);
    assert!(matches!(
        m,
        Move::Send(Request::StartSession { cmd, env }) if cmd == ["omoya"] && env == ["A=b"]
    ));
    let (phase, m) = answered(&mut conv, Phase::Starting, &cmd(), Some(Response::Success));
    assert_eq!(phase, Phase::Over);
    assert!(matches!(m, Move::Finish(PamStep::Complete)));
}

#[test]
fn a_refusal_of_greetd_is_cancelled_first() {
    let (_face, mut conv) = Bridge::new();
    let refused = |t: &str| {
        Some(Response::Error { error_type: t.into(), description: "no such user bob".into() })
    };
    let (_, m) = answered(&mut conv, Phase::Talking, &cmd(), refused("auth_error"));
    assert!(matches!(m, Move::CancelThenFinish(PamStep::Failed { class: PamClass::AuthError })));
    let (_, m) = answered(&mut conv, Phase::Talking, &cmd(), refused("error"));
    assert!(matches!(m, Move::CancelThenFinish(PamStep::Failed { class: PamClass::Abort })));
    let (_, m) = answered(&mut conv, Phase::Talking, &cmd(), None);
    assert!(matches!(m, Move::CancelThenFinish(PamStep::Failed { class: PamClass::Abort })));
    assert!(matches!(unsent(), Move::CancelThenFinish(_)));
    let (_, m) = answered(&mut conv, Phase::Over, &cmd(), Some(Response::Success));
    assert!(matches!(m, Move::Finish(PamStep::Failed { .. })));
}

#[test]
fn a_session_that_does_not_start_is_no_wrong_password() {
    let (face, mut conv) = Bridge::new();
    drop(face);
    let got = Some(Response::Error { error_type: "error".into(), description: "no vt".into() });
    let (phase, m) = answered(&mut conv, Phase::Starting, &cmd(), got);
    assert_eq!(phase, Phase::Over);
    assert!(matches!(m, Move::Finish(PamStep::Failed { class: PamClass::Abort })));
    let info = Response::AuthMessage {
        auth_message_type: "info".into(),
        auth_message: "hello".into(),
    };
    let (phase, m) = answered(&mut conv, Phase::Talking, &cmd(), Some(info));
    assert_eq!(phase, Phase::Talking);
    assert!(matches!(m, Move::Send(Request::PostAuthMessageResponse { response: None })));
}

#[test]
fn a_request_s_length_fits() {
    assert_eq!(request_length(7), Ok(7));
    assert_eq!(request_length(0xffff_ffff), Ok(u32::MAX));
    assert_eq!(request_length(0x1_0000_0000), Err("a request larger than 4GiB"));
}

#[test]
fn exposes_no_write_surface() {
    let src: String =
        Tool::all().iter().map(|t| format!("fn {}\n", t.name())).collect::<Vec<_>>().concat();
    for forbidden in ["fn mukae_type", "fn mukae_key", "fn mukae_click", "fn mukae_do"] {
        assert!(
            !src.contains(forbidden),
            "mukae must expose no synthetic-input tool; found `{forbidden}`"
        );
    }
    assert!(src.contains("fn mukae_echo"));
}

#[test]
fn catalog_is_unique() {
    let mut seen = HashSet::new();
    for l in login_leaves() {
        assert!(seen.insert(l), "duplicate leaf: {l}");
    }
    assert_eq!(seen.len(), 8);
    let mut seen = HashSet::new();
    for l in daemon_leaves() {
        assert!(seen.insert(l), "duplicate leaf: {l}");
    }
}

#[test]
fn a_tool_asks_one_app_for_one_leaf() {
    let input = ReadInput { leaf: "step".into() };
    assert_eq!(Tool::Read.query(&input.leaf), Some(("mukae", "step".to_string())));
    assert_eq!(Tool::Echo.query("x"), Some(("mukae", "echo".to_string())));
    assert_eq!(Tool::LoginState.query("x"), Some(("mukae", String::new())));
    assert_eq!(Tool::DaemonState.query("x"), Some(("mukaed", String::new())));
    assert_eq!(Tool::DaemonRead.query("vt"), Some(("mukaed", "vt".to_string())));
    assert_eq!(Tool::Leaves.query("x"), None);
    assert_eq!(Tool::DaemonLeaves.query("x"), None);
    assert_eq!(outcome(Forwarded::Live), "found");
    assert_eq!(outcome(Forwarded::Refused), "refused");
    assert_eq!(outcome(Forwarded::Nobody), "blind");
}

#[test]
fn the_arguments_choose_the_mode() {
    assert!(matches!(mode_of(&words(&[])), Mode::FaceOnly));
    assert!(matches!(mode_of(&words(&["--greetd", "-h"])), Mode::Help));
    assert!(matches!(mode_of(&words(&["--mukaed"])), Mode::Mukaed));
    assert!(matches!(mode_of(&words(&["--greetd"])), Mode::NoCommand));
    assert!(matches!(
        mode_of(&words(&["--greetd", "--cmd", "sh", "-c"])),
        Mode::Greetd { cmd } if cmd == words(&["sh", "-c"])
    ));
    assert!(matches!(
        mode_of(&words(&["--authenticate"])),
        Mode::Authenticate { service } if service == "login"
    ));
    assert!(matches!(
        mode_of(&words(&["--authenticate", "--service", "mukae"])),
        Mode::Authenticate { service } if service == "mukae"
    ));
    assert_eq!(value_of(&words(&["--user", "a", "--user", "b"]), "--user").as_deref(), Some("a"));
    assert_eq!(value_of(&words(&["--user"]), "--user"), None);
    assert_eq!(command_of(&words(&["--cmd"])), words(&[]));
    assert!(HELP.starts_with("mukae (迎え)"));
    assert!(NO_COMMAND.starts_with("--greetd needs --cmd"));
    assert!(NO_LIBPAM.starts_with("--authenticate is not in this build."));
}
