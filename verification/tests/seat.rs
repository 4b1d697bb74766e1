//! The daemon: its configuration, what it publishes, its login environment, its
//! wire, its arguments, and how it starts a process.
use mukae::border::capability::{AuthMethod, Passphrase};
use mukae::border::env::{
    AcctVerdict, Answer, ChildPid, CredFlag, DropStep, EnvPair, MsgStyle, PamAnswer, PamClass,
    PamError, PamStep, PromptText, SeatEnv, SpawnError,
};
use mukae::border::env_set::EnvSet;
use mukae::border::ids::{PamHandleId, ServiceName, Uid, UserName};
use mukae::border::mock::{Call, MockSeatEnv, Script};
use mukae::border::session::{Argv, SessionPlan};
use mukae::host::bridge::Bridge;
use mukae::introspect::{Drivable, Leaf, LoginFlow};
use mukae::native::logind::{Kind, Session};
use mukae::seat::config::{
    choose_config, ConfigSource, MukaeConfig, DISCOVERY_VAR, FIELD_ENV_PREFIX, USER_PLACEHOLDER,
};
use mukae::seat::daemon::{
    answer_line, authorise, choose_path, console_for, direct_step, finish, greeter_account,
    greeter_env, greeter_fds, greeter_plan, known_subcommand, lacks_home, let_in, parse_args,
    privileged,
    session_env_for, session_summary, wants_help, DirectMove, LoginPath, HELP, RESTORE,
};
use mukae::seat::env::{Console, NativeSeatEnv, VtNumber};
use mukae::seat::introspect::{leaves, DaemonLeaf, DaemonState, VERSION};
use mukae::seat::ipc::{
    after_reply, describe_frame, frame_bytes, frame_for, frame_length, greeter_side, prompt_move,
    serve, serve_observed, take_reply, AfterSend, Frame, GreeterMove, Reply,
};
use mukae::seat::spawn::{
    child_failure, child_window, failure_message, prepare, prepare_inheriting, spawn_outcome, Account,
    ChildFail, ChildStep, GroupAnswer, GroupLookup, PosixIdentity, Prepared,
};
use mukae::seat::supervise::{
    after, after_admission, attachment_lines, begin, open_session, screen_to_repair, settle,
    Admission, Screen, Task,
};
use mukae::seat::vt::{
    restoring, Console as ClaimedConsole, Mode, Progress, VtCall, VtError, EINVAL, ENOTTY,
    KD_GRAPHICS, KD_TEXT,
};

fn words(v: &[&str]) -> Vec<String> {
    v.iter().map(|s| s.to_string()).collect()
}

// The configuration.

#[test]
fn the_prescribed_path_leads_with_the_setuid_wrappers() {
    let cfg = MukaeConfig::prescribed();
    assert_eq!(cfg.session_path.first().map(String::as_str), Some("/run/wrappers/bin"));
}

#[test]
fn the_prescribed_path_keeps_the_system_profile() {
    let rendered = MukaeConfig::prescribed().session_path_for(Some("luis"));
    assert!(rendered.contains("/run/current-system/sw/bin"), "{rendered}");
}

#[test]
fn the_prescribed_data_dirs_reach_the_per_user_profile() {
    let d = MukaeConfig::prescribed().session_data_dirs_for(Some("luis"), Some("/home/luis"));
    assert!(d.contains("/etc/profiles/per-user/luis/share"), "{d}");
    assert!(d.contains("/home/luis/.nix-profile/share"), "{d}");
    assert!(d.contains("/run/current-system/sw/share"), "{d}");
    assert!(!d.contains('{'), "no placeholder may survive into the value: {d}");
    let per_user = d.find("/etc/profiles/per-user").unwrap();
    let system = d.find("/run/current-system").unwrap();
    assert!(per_user < system, "per-user must precede system so an override wins: {d}");
}

#[test]
fn an_unresolvable_placeholder_drops_its_entry_rather_than_emitting_it() {
    let cfg = MukaeConfig::prescribed();
    let no_user = cfg.session_data_dirs_for(None, Some("/home/luis"));
    assert!(!no_user.contains("per-user"), "got {no_user}");
    assert!(!no_user.contains('{'), "got {no_user}");
    let no_home = cfg.session_data_dirs_for(Some("luis"), None);
    assert!(!no_home.contains(".nix-profile"), "got {no_home}");
    assert!(!no_home.contains('{'), "got {no_home}");
    assert!(no_user.contains("/run/current-system/sw/share"));
    assert!(no_home.contains("/run/current-system/sw/share"));
}

#[test]
fn the_bare_tier_sets_no_data_dirs_and_that_is_a_choice() {
    assert_eq!(MukaeConfig::bare().session_data_dirs_for(Some("luis"), Some("/home/luis")), "");
}

#[test]
fn the_two_search_paths_resolve_the_same_account() {
    let cfg = MukaeConfig::prescribed();
    let p = cfg.session_path_for(Some("luis"));
    let d = cfg.session_data_dirs_for(Some("luis"), Some("/home/luis"));
    assert!(p.contains("/etc/profiles/per-user/luis/bin"));
    assert!(d.contains("/etc/profiles/per-user/luis/share"));
}

#[test]
fn the_user_placeholder_is_substituted() {
    let rendered = MukaeConfig::prescribed().session_path_for(Some("gabi"));
    assert!(rendered.contains("/etc/profiles/per-user/gabi/bin"), "{rendered}");
    assert!(!rendered.contains(USER_PLACEHOLDER), "{rendered}");
    assert_eq!(
        rendered,
        "/run/wrappers/bin:/etc/profiles/per-user/gabi/bin:/run/current-system/sw/bin:/usr/bin:/bin"
    );
}

#[test]
fn an_unresolvable_user_drops_the_entry_rather_than_emitting_a_literal() {
    let rendered = MukaeConfig::prescribed().session_path_for(None);
    assert!(!rendered.contains(USER_PLACEHOLDER), "{rendered}");
    assert!(!rendered.contains("per-user"), "{rendered}");
    assert!(rendered.starts_with("/run/wrappers/bin"), "{rendered}");
}

#[test]
fn the_bare_tier_has_no_opinion_at_all() {
    let cfg = MukaeConfig::bare();
    assert!(cfg.session_path.is_empty());
    assert_eq!(cfg.session_path_for(Some("luis")), "");
    assert!(cfg.greeter.is_none());
}

#[test]
fn default_is_the_prescribed_tier_not_the_floor() {
    assert_eq!(MukaeConfig::default(), MukaeConfig::prescribed());
}

#[test]
fn the_discovery_var_is_not_a_field_override() {
    assert!(
        !DISCOVERY_VAR.starts_with(FIELD_ENV_PREFIX),
        "{DISCOVERY_VAR} is inside the {FIELD_ENV_PREFIX} namespace"
    );
}

#[test]
fn a_broken_file_falls_back_to_the_prescription() {
    let (c, s) = choose_config(false, None);
    assert_eq!(c, MukaeConfig::prescribed());
    let (d, t) = choose_config(true, None);
    assert_eq!(d, MukaeConfig::prescribed());
    let (e, u) = choose_config(true, Some(MukaeConfig::bare()));
    assert_eq!(e, MukaeConfig::bare());
    assert_ne!(s.as_str(), t.as_str());
    assert_ne!(t.as_str(), u.as_str());
    let _: ConfigSource = u;
}

// What is published.

#[test]
fn every_advertised_leaf_answers() {
    let st = DaemonState::new(0);
    for leaf in leaves() {
        assert!(
            st.query(&words(&[leaf]), 0).is_ok(),
            "advertised leaf `{leaf}` does not answer"
        );
    }
}

#[test]
fn every_answering_leaf_is_advertised() {
    let st = DaemonState::new(0);
    for key in [
        "attempts", "class", "coverage", "drift_keys", "echo", "facts", "failures", "flow",
        "greeter", "greeter_pid", "greeter_spawns", "greeter_user", "last_user", "may_drive",
        "mode", "pid", "prompt", "seat", "session", "session_data_dirs", "session_open",
        "session_owner", "session_path", "started", "step", "successes", "uptime", "uptime_s",
        "user", "version", "vt",
    ] {
        assert_eq!(
            st.query(&words(&[key]), 0).is_ok(),
            leaves().contains(&key),
            "leaf `{key}` answers but is not advertised, or the reverse"
        );
    }
}

#[test]
fn no_failure_class_leaf() {
    let st = DaemonState::new(0);
    for forbidden in ["class", "pam_class", "failure_class"] {
        assert!(!leaves().contains(&forbidden), "`{forbidden}` must never be advertised");
        assert!(st.query(&words(&[forbidden]), 0).is_err(), "`{forbidden}` must not answer");
    }
}

#[test]
fn a_root_daemon_never_reports_drivable() {
    let st = DaemonState::new(0);
    assert!(matches!(st.query(&words(&["may_drive"]), 0), Ok(DaemonLeaf::Flag(false))));
}

#[test]
fn last_user_survives_the_session_ending() {
    let mut st = DaemonState::new(0);
    st.authenticated("luis");
    st.session_started("luis");
    st.session_ended();
    assert!(
        matches!(st.query(&words(&["session_owner"]), 0), Ok(DaemonLeaf::MaybeText(None))),
        "owner clears on end"
    );
    assert!(
        matches!(st.query(&words(&["last_user"]), 0), Ok(DaemonLeaf::MaybeText(Some(u))) if u == "luis"),
        "last_user is sticky"
    );
}

#[test]
fn the_published_catalogs_are_not_empty() {
    let st = DaemonState::new(0);
    assert!(matches!(
        st.query(&words(&["coverage"]), 0),
        Ok(DaemonLeaf::Coverage(a)) if a.len() >= 20
    ));
    assert!(matches!(
        st.query(&words(&["drift_keys"]), 0),
        Ok(DaemonLeaf::DriftKeys(k)) if !k.is_empty()
    ));
}

#[test]
fn an_unknown_leaf_refuses() {
    let st = DaemonState::new(0);
    assert!(st.query(&words(&["nonsense"]), 0).is_err());
}

#[test]
fn the_daemon_says_what_it_did() {
    let mut st = DaemonState::new(10);
    st.greeter_spawned(77, "greeter");
    st.console_claimed("seat0", Some(1));
    st.session_path_resolved("/bin");
    st.began();
    let v = st.snapshot(15);
    assert_eq!(v.uptime_s, 5);
    assert_eq!(v.greeter_spawns, 1);
    assert_eq!(v.facts.greeter_pid, Some(77));
    assert_eq!(v.facts.vt, Some(1));
    assert_eq!(v.facts.session_path.as_deref(), Some("/bin"));
    assert_eq!(v.flow.attempts, 1);
    assert_eq!(v.version, VERSION);
    assert_eq!(st.snapshot(3).uptime_s, 0);
}

#[test]
fn a_password_prompt_publishes_that_it_must_be_masked() {
    let mut f = LoginFlow::new(Drivable::Observable);
    f.observe(&PamStep::Prompt {
        style: MsgStyle::PromptEchoOff,
        msg: PromptText("PIN:".into()),
    });
    let s = f.snapshot();
    assert_eq!(s.step_kind, Some("prompt"));
    assert_eq!(s.prompt.as_deref(), Some("PIN:"));
    assert_eq!(s.echo, Some(false), "echo-off must publish as masked");
}

#[test]
fn a_failure_does_not_publish_which_kind_it_was() {
    let mut f = LoginFlow::new(Drivable::Observable);
    f.observe(&PamStep::Failed { class: PamClass::UserUnknown });
    let s = f.snapshot();
    assert_eq!(s.step_kind, Some("failed"));
    assert_eq!(s.failures, 1);
    assert!(s.prompt.is_none());
}

#[test]
fn the_schema_never_offers_a_way_to_ask_which_failure_it_was() {
    let f = LoginFlow::new(Drivable::Observable);
    assert!(!f.schema().contains(&"class"));
    assert!(f.query(&words(&["class"])).is_err(), "and it must not answer off-schema");
}

#[test]
fn the_root_query_publishes_the_prompt_but_never_an_answer() {
    let mut f = LoginFlow::new(Drivable::Observable);
    f.observe(&PamStep::Prompt {
        style: MsgStyle::PromptEchoOff,
        msg: PromptText("PIN:".into()),
    });
    match f.query(&Vec::new()).expect("root query answers") {
        Leaf::Whole(s) => {
            assert_eq!(s.prompt.as_deref(), Some("PIN:"), "the prompt is publishable");
            assert_eq!(s.echo, Some(false), "and so is the mask decision");
        }
        _ => panic!("the root is the whole"),
    }
}

#[test]
fn a_real_seat_refuses_to_be_driven() {
    assert!(!LoginFlow::new(Drivable::Observable).may_drive());
    assert!(LoginFlow::new(Drivable::MockOnly).may_drive());
}

#[test]
fn counts_distinguish_still_typing_from_failed_repeatedly() {
    let mut f = LoginFlow::new(Drivable::MockOnly);
    f.began();
    f.observe(&PamStep::Failed { class: PamClass::AuthError });
    f.began();
    f.observe(&PamStep::Complete);
    let s = f.snapshot();
    assert_eq!((s.attempts, s.failures, s.successes), (2, 1, 1));
}

#[test]
fn the_umbrella_reaches_the_border() {
    let seat = mukae::SeatId::parse("seat0").unwrap();
    assert!(seat.as_seat0().is_some());
}

// The native environment.

fn native() -> NativeSeatEnv {
    NativeSeatEnv::with_shadow("/nonexistent/shadow".to_string())
}

fn login() -> ServiceName {
    ServiceName::parse("login").unwrap()
}

fn secret(s: &str) -> PamAnswer {
    PamAnswer::Secret(Passphrase::new(s.into()))
}

#[test]
fn a_transaction_with_a_known_user_asks_for_the_passphrase_first() {
    let mut e = native();
    let h = e.pam_start(&login(), Some(&UserName::parse("luis").unwrap())).unwrap();
    match e.pam_next(h).unwrap() {
        PamStep::Prompt { style, .. } => assert_eq!(
            style,
            MsgStyle::PromptEchoOff,
            "a username we were handed must not be asked for again"
        ),
        other => panic!("expected a masked prompt, got {other:?}"),
    }
}

#[test]
fn a_transaction_with_no_user_asks_for_one_in_the_clear() {
    let mut e = native();
    let h = e.pam_start(&login(), None).unwrap();
    match e.pam_next(h).unwrap() {
        PamStep::Prompt { style, .. } => assert_eq!(style, MsgStyle::PromptEchoOn),
        other => panic!("expected a visible prompt, got {other:?}"),
    }
}

#[test]
fn a_proof_cannot_be_minted_from_an_unfinished_conversation() {
    let mut e = native();
    let h = e.pam_start(&login(), None).unwrap();
    assert!(e.mint_proof(h, Uid(1000)).is_err());
}

#[test]
fn a_session_cannot_be_opened_for_an_unauthenticated_transaction() {
    let mut e = native();
    let h = e.pam_start(&login(), None).unwrap();
    assert!(e.pam_open_session(h, 1).is_err());
}

#[test]
fn changing_an_expired_token_is_refused_rather_than_faked() {
    let mut e = native();
    let h = e.pam_start(&login(), None).unwrap();
    assert!(e.pam_chauthtok(h).is_err());
}

#[test]
fn enumeration_refuses_rather_than_returning_a_partial_list() {
    let e = native();
    assert!(matches!(e.enumerate_principals(), Answer::Refused { .. }));
}

#[test]
fn a_native_login_runs_from_the_name_to_the_session() {
    let stored = pwhash::sha512_crypt::hash("hunter2").expect("hashes");
    let file = format!("luis:{stored}:20000:0:99999:7:::\n");
    let mut e = NativeSeatEnv::new().on_console(console_for(VtNumber::new(2)));
    assert_eq!(e.shadow_path(), "/etc/shadow");
    let h = e.pam_start(&login(), None).unwrap();
    assert_eq!(
        e.pam_answer(h, secret("x"), Some(&file)).err(),
        Some(PamError::OutOfOrder("the answer did not match the prompt"))
    );
    assert!(matches!(e.pam_answer(h, PamAnswer::Visible("luis".into()), None), Ok(None)));
    assert_eq!(
        e.pam_answer(h, secret("hunter2"), None).err(),
        Some(PamError::OutOfOrder("the shadow file could not be read"))
    );
    let c = e.pam_answer(h, secret("hunter2"), Some(&file)).unwrap().unwrap();
    assert_eq!(c.user(), "luis");
    assert_eq!(e.pam_acct_mgmt(h), Ok(AcctVerdict::PermDenied));
    assert_eq!(e.uid_for_handle(h), Err(PamError::OutOfOrder("no uid resolved yet")));
    e.principal_resolved(c, Some(Uid(1000))).unwrap();
    assert_eq!(e.pam_next(h), Ok(PamStep::Complete));
    assert_eq!(e.pam_acct_mgmt(h), Ok(AcctVerdict::Okay));
    assert_eq!(e.uid_for_handle(h), Ok(Uid(1000)));
    let p = e.mint_proof(h, Uid(1000)).unwrap();
    assert_eq!(p.method(), AuthMethod::Password);
    assert_eq!(
        e.mint_proof(h, Uid(1000)).err(),
        Some(PamError::OutOfOrder("the authtok was already consumed"))
    );
    assert_eq!(e.pam_setcred(h, CredFlag::Establish), Ok(()));
    e.pam_putenv(h, EnvPair { key: "A".into(), value: "b".into() }).unwrap();
    let q = e.pam_open_session(h, 42).unwrap();
    assert_eq!((q.uid, q.pid, q.vtnr, q.kind), (1000, 42, 2, Kind::Tty));
    assert_eq!((q.service.as_str(), q.seat.as_str()), ("mukae", "seat0"));
    assert_eq!(
        e.session_opened(h, None),
        Err(PamError::OutOfOrder("logind refused the session"))
    );
    let s = Session::new("4".into(), "/o".into(), "/run/user/1000".into(), "seat0".into(), 2, false);
    e.session_opened(h, Some(s)).unwrap();
    let env = e.pam_getenvlist(h).unwrap();
    assert_eq!(env.get("XDG_RUNTIME_DIR"), Some("/run/user/1000"));
    assert_eq!(env.get("XDG_SESSION_ID"), Some("4"));
    assert_eq!(env.get("XDG_SEAT"), Some("seat0"));
    assert_eq!(env.get("XDG_VTNR"), Some("2"));
    assert_eq!(env.get("A"), Some("b"));
    e.pam_close_session(h).unwrap();
    e.pam_end(h).unwrap();
    assert_eq!(e.pam_end(h), Err(PamError::NoSuchHandle));
}

#[test]
fn there_is_one_attempt_in_a_transaction() {
    let stored = pwhash::sha512_crypt::hash("hunter2").expect("hashes");
    let file = format!("luis:{stored}:20000:0:99999:7:::\n");
    let mut e = native();
    let h = e.pam_start(&login(), Some(&UserName::parse("luis").unwrap())).unwrap();
    assert!(matches!(e.pam_answer(h, secret("wrong"), Some(&file)), Ok(None)));
    assert_eq!(e.pam_next(h), Ok(PamStep::Failed { class: PamClass::AuthError }));
    assert_eq!(
        e.pam_answer(h, secret("hunter2"), Some(&file)).err(),
        Some(PamError::OutOfOrder("nothing was being asked"))
    );
}

#[test]
fn a_match_of_nobody_is_a_refusal() {
    let stored = pwhash::sha512_crypt::hash("hunter2").expect("hashes");
    let file = format!("luis:{stored}:20000:0:99999:7:::\n");
    let mut e = native();
    let h = e.pam_start(&login(), Some(&UserName::parse("luis").unwrap())).unwrap();
    let c = e.pam_answer(h, secret("hunter2"), Some(&file)).unwrap().unwrap();
    e.principal_resolved(c, None).unwrap();
    assert_eq!(e.pam_next(h), Ok(PamStep::Failed { class: PamClass::AuthError }));
    assert!(e.mint_proof(h, Uid(0)).is_err());
}

#[test]
fn a_verdict_of_another_transaction_is_not_taken() {
    let stored = pwhash::sha512_crypt::hash("hunter2").expect("hashes");
    let file = format!("luis:{stored}:20000:0:99999:7:::\n");
    let luis = UserName::parse("luis").unwrap();
    let mut a = native();
    let mut b = native();
    let h = a.pam_start(&login(), Some(&luis)).unwrap();
    let _ = b.pam_start(&login(), Some(&luis)).unwrap();
    let c = a.pam_answer(h, secret("hunter2"), Some(&file)).unwrap().unwrap();
    assert_eq!(
        b.principal_resolved(c, Some(Uid(1000))),
        Err(PamError::OutOfOrder("nothing was being asked"))
    );
}

#[test]
fn a_principal_is_found_or_is_not() {
    let e = native();
    let n = UserName::parse("luis").unwrap();
    assert!(matches!(e.resolve_principal(&n, Some(Uid(7))), Answer::Found(p) if p.uid == Uid(7)));
    assert!(matches!(e.resolve_principal(&n, None), Answer::Empty { of: "principal" }));
}

#[test]
fn no_terminal_is_zero() {
    assert!(VtNumber::new(0).is_none());
    assert_eq!(VtNumber::new(3).unwrap().get(), 3);
}

// The wire to the greeter.

#[test]
fn a_frame_is_its_length_and_its_body() {
    let body = b"{\"Cancel\":null}".to_vec();
    let framed = frame_bytes(&body).unwrap();
    assert_eq!(framed[..4], [0, 0, 0, 15]);
    assert_eq!(framed[4..], body[..]);
    let mut hdr = [0u8; 4];
    hdr.copy_from_slice(&framed[..4]);
    assert_eq!(frame_length(&hdr), Ok(15));
    assert_eq!(frame_length(&[0, 1, 0, 0]), Ok(65536));
}

#[test]
fn an_implausible_length_is_refused() {
    let e = frame_length(&u32::MAX.to_be_bytes()).unwrap_err();
    assert_eq!(e, "frame of 4294967295 bytes is implausible");
    assert!(frame_length(&[0, 1, 0, 1]).is_err());
}

#[test]
fn the_greeter_s_end_never_guesses() {
    let (_face, mut conv) = Bridge::new();
    assert!(matches!(
        greeter_side(&mut conv, None),
        GreeterMove::Finish(PamStep::Failed { class: PamClass::Abort })
    ));
    assert!(matches!(
        greeter_side(&mut conv, Some(Frame::Outcome { ok: true })),
        GreeterMove::Finish(PamStep::Complete)
    ));
    assert!(matches!(
        greeter_side(&mut conv, Some(Frame::Outcome { ok: false })),
        GreeterMove::Finish(PamStep::Failed { class: PamClass::AuthError })
    ));
    assert!(matches!(
        greeter_side(&mut conv, Some(Frame::Cancel)),
        GreeterMove::Finish(PamStep::Failed { class: PamClass::Abort })
    ));
    assert!(matches!(after_reply(true), GreeterMove::Continue));
    assert!(matches!(after_reply(false), GreeterMove::Finish(_)));
}

#[test]
fn a_secret_is_not_sent_for_a_visible_prompt() {
    assert!(matches!(
        prompt_move(true, Ok(secret("hunter2"))),
        GreeterMove::Reply(Frame::Answer { text }) if text == "hunter2"
    ));
    assert!(matches!(prompt_move(false, Ok(secret("hunter2"))), GreeterMove::CancelThenFinish(_)));
    assert!(matches!(
        prompt_move(false, Ok(PamAnswer::Visible("luis".into()))),
        GreeterMove::Reply(Frame::Answer { text }) if text == "luis"
    ));
    assert!(matches!(
        prompt_move(true, Err(PamError::NoSuchHandle)),
        GreeterMove::CancelThenFinish(_)
    ));
}

#[test]
fn the_daemon_s_end_serves_a_login() {
    let mut env = MockSeatEnv::new(Script::password_ok(Uid(1000)));
    let h = env.pam_start(&login(), None).unwrap();
    let mut state = DaemonState::new(0);
    let (frame, after) = serve_observed(&mut env, h, &mut state).unwrap();
    assert_eq!(frame, Frame::Prompt { secret: true, msg: "Password: ".into() });
    assert!(matches!(after, AfterSend::AwaitAnswer(MsgStyle::PromptEchoOff)));
    assert_eq!(state.flow().snapshot().step_kind, Some("prompt"));
    assert_eq!(state.flow().mode(), Drivable::Observable);
    assert!(!state.flow().may_drive());
    let got = Frame::Answer { text: "x".into() };
    assert!(matches!(
        take_reply(&mut env, h, MsgStyle::PromptEchoOff, got),
        Ok(Reply::Continue)
    ));
    assert!(env.calls.contains(&Call::Answer { secret: true }));
    let (frame, after) = serve(&mut env, h).unwrap();
    assert_eq!(frame, Frame::Outcome { ok: true });
    assert!(matches!(after, AfterSend::Ended(true)));
    assert!(serve(&mut env, PamHandleId(99)).is_err());
    assert!(matches!(
        take_reply(&mut env, h, MsgStyle::PromptEchoOff, Frame::Cancel),
        Ok(Reply::Cancelled)
    ));
}

#[test]
fn a_frame_that_is_no_answer_is_said_so() {
    let mut env = MockSeatEnv::new(Script::password_ok(Uid(1000)));
    let h = env.pam_start(&login(), None).unwrap();
    let e = take_reply(&mut env, h, MsgStyle::PromptEchoOn, Frame::Outcome { ok: true });
    assert_eq!(
        e.err().as_deref(),
        Some("the greeter sent Outcome { ok: true } to a prompt")
    );
    assert_eq!(
        describe_frame(&Frame::Prompt { secret: false, msg: "a".into() }),
        "Prompt { secret: false, msg: \"a\" }"
    );
    assert_eq!(describe_frame(&Frame::Info { msg: "a".into() }), "Info { msg: \"a\" }");
    assert!(!describe_frame(&Frame::Answer { text: "hunter2".into() }).contains("hunter2"));
}

#[test]
fn refusals_go_out_alike() {
    let (a, _) = frame_for(PamStep::Failed { class: PamClass::UserUnknown });
    let (b, _) = frame_for(PamStep::Failed { class: PamClass::AuthError });
    assert_eq!(a, b);
    let (c, after) =
        frame_for(PamStep::Info { style: MsgStyle::TextInfo, msg: PromptText("x".into()) });
    assert_eq!(c, Frame::Info { msg: "x".into() });
    assert!(matches!(after, AfterSend::Continue));
}

// The daemon's decisions.

#[test]
fn the_session_path_leads_with_the_setuid_wrappers() {
    let env = session_env_for(Some("luis"), Some("/home/luis"), &MukaeConfig::prescribed());
    let path = env.get("PATH").expect("a session must have a PATH");
    assert!(path.starts_with("/run/wrappers/bin"), "got {path:?}");
    assert_eq!(env.get("XDG_SESSION_CLASS"), Some("user"));
    assert_eq!(env.len(), 3);
}

#[test]
fn a_session_is_told_its_data_directories_or_nothing_of_them() {
    let cfg = MukaeConfig::prescribed();
    let env = session_env_for(Some("luis"), Some("/home/luis"), &cfg);
    assert_eq!(
        env.get("XDG_DATA_DIRS"),
        Some(
            "/home/luis/.nix-profile/share:/home/luis/.local/state/nix/profile/share:\
             /etc/profiles/per-user/luis/share:/nix/var/nix/profiles/default/share:\
             /run/current-system/sw/share"
        )
    );
    let env = session_env_for(None, None, &cfg);
    assert_eq!(
        env.get("XDG_DATA_DIRS"),
        Some("/nix/var/nix/profiles/default/share:/run/current-system/sw/share")
    );
    let env = session_env_for(Some("luis"), Some("/home/luis"), &MukaeConfig::bare());
    assert_eq!(env.get("XDG_DATA_DIRS"), None);
    assert_eq!(env.get("PATH"), Some(""));
}

#[test]
fn the_session_path_keeps_the_system_profile() {
    let env = session_env_for(None, None, &MukaeConfig::prescribed());
    let path = env.get("PATH").expect("a session must have a PATH");
    assert!(path.contains("/run/current-system/sw/bin"), "got {path:?}");
}

#[test]
fn a_vt_attaches_to_seat0_with_that_vt() {
    let c = console_for(VtNumber::new(1));
    match c {
        Console::Vt { seat, vtnr } => {
            assert_eq!(seat, "seat0");
            assert_eq!(vtnr.get(), 1, "the VT must be the one claimed, never 0");
        }
        Console::Seatless => panic!("a VT login must not be seatless"),
    }
}

#[test]
fn no_vt_is_seatless() {
    assert!(matches!(console_for(None), Console::Seatless));
}

#[test]
fn only_a_login_can_be_asked_for() {
    assert!(known_subcommand(&words(&["login", "--user"])).is_ok());
    assert_eq!(
        known_subcommand(&words(&["logout"])).unwrap_err(),
        "unknown subcommand `logout`"
    );
}

#[test]
fn flags_override_the_configuration() {
    let mut cfg = MukaeConfig::bare();
    cfg.greeter = Some("/g".into());
    cfg.greeter_user = Some("greeter".into());
    cfg.vt = Some(3);
    let a = parse_args(&words(&["login", "--vt", "2", "--cmd", "sh", "--user"]), &cfg).unwrap();
    assert_eq!(a.vt.unwrap().get(), 2);
    assert_eq!(a.greeter.as_deref(), Some("/g"));
    assert_eq!(a.cmd, words(&["sh", "--user"]));
    assert!(matches!(
        choose_path(a),
        Ok(LoginPath::Greeter { program, greeter_user, argv })
            if program == "/g" && greeter_user == "greeter" && argv.as_slice().len() == 2
    ));
    let b = parse_args(&words(&["login", "--greeter", "/h", "--greeter-user", "x"]), &cfg).unwrap();
    assert_eq!(b.greeter.as_deref(), Some("/h"));
    assert_eq!(b.greeter_user.as_deref(), Some("x"));
    assert_eq!(
        choose_path(b).unwrap_err(),
        "--cmd is required: there is nothing to start on success"
    );
}

#[test]
fn arguments_that_say_nothing_are_refused() {
    let cfg = MukaeConfig::bare();
    let err = |a: &[&str]| parse_args(&words(a), &cfg).unwrap_err();
    assert_eq!(err(&["logout"]), "unknown subcommand `logout`");
    assert_eq!(err(&["login", "--user"]), "--user needs a name");
    assert_eq!(err(&["login", "--vt"]), "--vt needs a number");
    assert_eq!(err(&["login", "--vt", "x"]), "--vt takes a VT number");
    assert_eq!(err(&["login", "--vt", "-1"]), "--vt takes a VT number");
    assert_eq!(err(&["login", "--vt", "4294967296"]), "--vt takes a VT number");
    assert_eq!(
        err(&["login", "--vt", "0"]),
        "--vt 0 is not a VT — omit --vt for a seatless session"
    );
    assert_eq!(err(&["login", "--greeter"]), "--greeter needs a program");
    assert_eq!(err(&["login", "--greeter-user"]), "--greeter-user needs a name");
    assert_eq!(err(&["login", "--what"]), "unknown flag `--what`");
    assert_eq!(parse_args(&words(&["login", "--vt", "+7"]), &cfg).unwrap().vt.unwrap().get(), 7);
    let mut zero = MukaeConfig::bare();
    zero.vt = Some(0);
    assert_eq!(
        parse_args(&words(&["login"]), &zero).unwrap_err(),
        "config `vt: 0` is not a VT — omit it for a seatless session"
    );
}

#[test]
fn a_direct_login_needs_a_name_and_a_command() {
    let cfg = MukaeConfig::bare();
    let path = |a: &[&str]| choose_path(parse_args(&words(a), &cfg).unwrap());
    assert_eq!(path(&["login"]).unwrap_err(), "--user is required (or use --greeter)");
    assert_eq!(
        path(&["login", "--user", "-rf"]).unwrap_err(),
        "bad username: malformed user name: \"-rf\""
    );
    assert_eq!(
        path(&["login", "--user", "luis"]).unwrap_err(),
        "--cmd is required and must name a program"
    );
    assert!(matches!(
        path(&["login", "--user", "luis", "--cmd", "sh"]),
        Ok(LoginPath::Direct { user, .. }) if user.as_str() == "luis"
    ));
    assert_eq!(
        path(&["login", "--greeter", "/g"]).unwrap_err(),
        "--greeter requires --greeter-user"
    );
}

#[test]
fn the_greeter_is_never_root() {
    assert_eq!(greeter_account("g", Some(982)), Ok(Uid(982)));
    assert_eq!(
        greeter_account("root", Some(0)).unwrap_err(),
        "the greeter user must not be root — that is the whole point of the split"
    );
    assert_eq!(
        greeter_account("g", None).unwrap_err(),
        "no passwd entry for the greeter user `g`"
    );
    assert!(privileged(0).is_ok());
    assert!(privileged(1000).is_err());
}

#[test]
fn a_greeter_is_told_where_its_socket_is() {
    let e = greeter_env();
    assert_eq!(e.get("MUKAE_SOCK_FD"), Some("3"));
    assert_eq!(e.get("TERM"), Some("linux"));
    assert_eq!(e.get("PATH"), Some("/run/current-system/sw/bin:/usr/bin:/bin"));
    assert_eq!(greeter_plan("/g").argv.as_slice(), &words(&["/g", "--mukaed"])[..]);
    assert_eq!(greeter_fds(9, None), vec![(9, 3)]);
    assert_eq!(greeter_fds(9, Some(5)), vec![(9, 3), (5, 0), (5, 1), (5, 2)]);
    assert!(RESTORE.contains("[?1049l"));
}

#[test]
fn help_is_given_to_whoever_asks_nothing() {
    assert!(wants_help(&vec![]));
    assert!(wants_help(&words(&["login", "--help"])));
    assert!(wants_help(&words(&["-h"])));
    assert!(!wants_help(&words(&["login"])));
    assert!(HELP.starts_with("mukaed — the pleme-io login daemon\n"));
}

#[test]
fn a_direct_login_runs_to_its_session() {
    let mut env = MockSeatEnv::new(Script::secret_then_info_then_complete(Uid(1000)));
    let h = env.pam_start(&login(), None).unwrap();
    match direct_step(&mut env, h).unwrap() {
        DirectMove::Ask { style, words } => {
            assert_eq!(words, "Password: : (reading from stdin)");
            env.pam_answer(h, answer_line(style, "hunter2\r\n")).unwrap();
        }
        other => panic!("{other:?}"),
    }
    assert!(matches!(
        direct_step(&mut env, h),
        Ok(DirectMove::Say(w)) if w == "Your password expires in 3 days"
    ));
    assert!(matches!(direct_step(&mut env, h), Ok(DirectMove::Done)));
    assert!(matches!(let_in(&mut env, h), Ok(None)));
    let cap = authorise(&mut env, h, "minting the proof: ").unwrap();
    assert_eq!(cap.uid(), Uid(1000));
    assert_eq!(cap.seat().as_str(), "seat0");
    finish(&mut env, h).unwrap();
    assert_eq!(authorise(&mut env, h, "minting the proof: ").err().as_deref(), Some("no such pam handle"));
}

#[test]
fn a_refused_direct_login_ends_its_transaction() {
    let mut env = MockSeatEnv::new(Script::denied(PamClass::MaxTries));
    let h = env.pam_start(&login(), None).unwrap();
    let _ = direct_step(&mut env, h).unwrap();
    env.pam_answer(h, answer_line(MsgStyle::PromptEchoOff, "x")).unwrap();
    assert!(matches!(
        direct_step(&mut env, h),
        Ok(DirectMove::Denied(w)) if w == "login incorrect (class: MaxTries)"
    ));
    assert!(env.calls.contains(&Call::End));
}

#[test]
fn an_account_that_may_not_log_in_is_turned_away() {
    let mut script = Script::password_ok(Uid(1000));
    script.acct = Some(AcctVerdict::AcctExpired);
    let mut env = MockSeatEnv::new(script);
    let h = env.pam_start(&login(), None).unwrap();
    assert_eq!(
        let_in(&mut env, h).unwrap().as_deref(),
        Some("the account is not permitted to log in: AcctExpired")
    );
    assert!(env.calls.contains(&Call::End));
    let h = env.pam_start(&login(), None).unwrap();
    assert_eq!(
        authorise(&mut env, h, "minting the proof: ").err().as_deref(),
        Some("minting the proof: pam call out of order: cannot mint a proof from an unfinished conversation")
    );
}

#[test]
fn a_line_answers_without_its_end() {
    assert!(matches!(
        answer_line(MsgStyle::PromptEchoOn, "luis\n"),
        PamAnswer::Visible(v) if v == "luis"
    ));
    assert!(matches!(
        answer_line(MsgStyle::PromptEchoOn, "\r\n\n"),
        PamAnswer::Visible(v) if v.is_empty()
    ));
    assert!(matches!(
        answer_line(MsgStyle::PromptEchoOn, "a\nb"),
        PamAnswer::Visible(v) if v == "a\nb"
    ));
}

#[test]
fn the_journal_sees_names_and_no_values() {
    let e = EnvSet::from_pairs(vec![
        ("PATH".into(), "/bin".into()),
        ("HOME".into(), "/root".into()),
    ]);
    assert_eq!(session_summary(&e), "session environment (2 vars): HOME PATH");
    assert!(!lacks_home(&e));
    assert!(lacks_home(&EnvSet::new()));
}

// A supervised login.

#[test]
fn the_daemon_begins_under_its_own_service() {
    let mut env = MockSeatEnv::new(Script::password_ok(Uid(1000)));
    let h = begin(&mut env, None).unwrap();
    assert!(env.calls.contains(&Call::Start("mukae".into())));
    assert!(matches!(direct_step(&mut env, h), Ok(DirectMove::Ask { .. })));
}

#[test]
fn a_conversation_is_settled_by_the_account() {
    let mut env = MockSeatEnv::new(Script::password_ok(Uid(1000)));
    let h = begin(&mut env, None).unwrap();
    assert!(matches!(settle(&mut env, h, false), Ok(Admission::Incorrect)));
    assert!(env.calls.contains(&Call::End));
    assert!(!env.calls.contains(&Call::AcctMgmt));

    let mut env = MockSeatEnv::new(Script::password_ok(Uid(1000)));
    let h = begin(&mut env, None).unwrap();
    assert!(matches!(settle(&mut env, h, true), Ok(Admission::Admitted)));
    assert!(!env.calls.contains(&Call::End));

    let mut script = Script::password_ok(Uid(1000));
    script.acct = Some(AcctVerdict::PermDenied);
    let mut env = MockSeatEnv::new(script);
    let h = begin(&mut env, None).unwrap();
    assert!(matches!(
        settle(&mut env, h, true),
        Ok(Admission::Barred(m)) if m == "the account is not permitted to log in: PermDenied"
    ));
    assert!(env.calls.contains(&Call::End));
}

#[test]
fn an_authentication_buys_a_session_with_a_path() {
    let mut env = MockSeatEnv::new(Script::password_ok(Uid(1000)));
    let h = begin(&mut env, None).unwrap();
    let _ = direct_step(&mut env, h).unwrap();
    env.pam_answer(h, answer_line(MsgStyle::PromptEchoOff, "hunter2\n")).unwrap();
    assert!(matches!(direct_step(&mut env, h), Ok(DirectMove::Done)));
    let cap = authorise(&mut env, h, "").unwrap();
    let argv = Argv::new(words(&["mado"])).unwrap();
    let cfg = MukaeConfig::prescribed();
    let session = open_session(&mut env, cap, argv, Some("luis"), Some("/home/luis"), &cfg).unwrap();
    assert_eq!(session.uid, Uid(1000));
    assert_eq!(session.env.get("PATH"), Some(cfg.session_path_for(Some("luis")).as_str()));
    assert!(env.calls.contains(&Call::Fork));
}

fn all_tasks(first: Task) -> Vec<Task> {
    let mut all = vec![first];
    while !matches!(all[all.len() - 1], Task::Exit { .. }) {
        all.push(after(all[all.len() - 1]));
    }
    all
}

#[test]
fn the_greeter_is_gone_when_the_session_opens() {
    assert_eq!(
        all_tasks(after_admission(&Admission::Admitted)),
        vec![
            Task::Stop,
            Task::Repair,
            Task::Open,
            Task::Wait,
            Task::Close,
            Task::Exit { ok: true },
        ]
    );
    assert_eq!(
        all_tasks(after_admission(&Admission::Incorrect)),
        vec![Task::Reap, Task::Exit { ok: false }]
    );
    assert_eq!(
        all_tasks(after_admission(&Admission::Barred("no".into()))),
        vec![Task::Exit { ok: false }]
    );
}

#[test]
fn escape_sequences_go_to_a_screen_or_nowhere() {
    assert_eq!(screen_to_repair(true, false), Screen::Console);
    assert_eq!(screen_to_repair(true, true), Screen::Console);
    assert_eq!(screen_to_repair(false, true), Screen::Output);
    assert_eq!(screen_to_repair(false, false), Screen::Nowhere);
}

#[test]
fn the_journal_is_told_where_a_session_is_attached() {
    let e = EnvSet::from_pairs(vec![
        ("XDG_SEAT".into(), "seat0".into()),
        ("PATH".into(), "/bin".into()),
        ("XDG_RUNTIME_DIR".into(), "/run/user/1000".into()),
        ("XDGX".into(), "no".into()),
    ]);
    assert_eq!(
        attachment_lines(&e),
        words(&["  XDG_RUNTIME_DIR=/run/user/1000", "  XDG_SEAT=seat0"])
    );
}

// Starting a process.

fn account() -> Account {
    Account {
        gid: 100,
        home: b"/home/luis".to_vec(),
        name: b"luis".to_vec(),
        identity: PosixIdentity {
            name: "luis".into(),
            home: "/home/luis".into(),
            shell: "/bin/zsh".into(),
        },
    }
}

fn plan(argv: &[&str]) -> SessionPlan {
    SessionPlan { argv: Argv::new(words(argv)).unwrap(), env: EnvSet::new() }
}

fn prepared(inherit: Vec<(i32, i32)>) -> Prepared {
    prepare_inheriting(
        &plan(&["/bin/sh"]),
        &EnvSet::new(),
        Uid(1000),
        Some(account()),
        vec![100, 27],
        inherit,
    )
    .unwrap()
}

#[test]
fn the_child_window_calls_nothing_that_can_block_on_an_orphaned_lock() {
    let forbidden_in_child = [
        "initgroups",
        "getgrouplist",
        "getpwnam",
        "getpwuid",
        "getgrnam",
        "malloc",
        "to_string",
        "to_owned",
        "String::",
        "format!",
        "Vec::",
        "vec!",
        "CString::new",
        "println!",
        "eprintln!",
        "tracing::",
    ];
    let window: String = child_window(&prepared(vec![(9, 3)]))
        .iter()
        .map(|s| s.call())
        .collect::<Vec<_>>()
        .join("\n");
    let found: Vec<&str> =
        forbidden_in_child.iter().copied().filter(|needle| window.contains(needle)).collect();
    assert!(found.is_empty(), "between fork and execve the child makes: {found:?}");
}

#[test]
fn the_scanned_child_window_is_not_empty() {
    let steps = child_window(&prepared(vec![(9, 3)]));
    assert!(!steps.is_empty());
    let window: String = steps.iter().map(|s| s.call()).collect::<Vec<_>>().join("\n");
    assert!(window.contains("libc::setuid"), "window lost the drop calls");
}

#[test]
fn the_child_window_holds_the_drop_and_the_exec() {
    let steps = child_window(&prepared(vec![(9, 3), (5, 0)]));
    assert_eq!(
        steps,
        vec![
            ChildStep::Setsid,
            ChildStep::SetGroups,
            ChildStep::SetGid(100),
            ChildStep::SetUid(1000),
            ChildStep::CheckIds(1000),
            ChildStep::CheckNoReturn,
            ChildStep::Keep { from: 9, to: 3 },
            ChildStep::Keep { from: 5, to: 0 },
            ChildStep::Home,
            ChildStep::Exec,
        ]
    );
    let mut root = prepared(vec![]);
    root.uid = 0;
    assert!(!child_window(&root).contains(&ChildStep::CheckNoReturn));
}

#[test]
fn a_lookup_of_groups_always_yields_one() {
    let first = GroupLookup::first();
    assert_eq!(first.entries(), 32);
    match first.answered(4242, -1, 0, vec![4242; 32]) {
        GroupAnswer::Groups(g) => assert_eq!(g, vec![4242]),
        GroupAnswer::Again(_) => panic!("there is nothing to try again for"),
    }
    match first.answered(4242, -1, 40, vec![4242; 32]) {
        GroupAnswer::Again(next) => {
            assert_eq!(next.entries(), 40);
            assert!(matches!(
                next.answered(4242, -1, 80, vec![]),
                GroupAnswer::Groups(g) if g == vec![4242]
            ));
            assert!(matches!(
                next.answered(4242, 2, 2, vec![4242, 7, 0, 0]),
                GroupAnswer::Groups(g) if g == vec![4242, 7]
            ));
        }
        GroupAnswer::Groups(_) => panic!("a larger buffer was asked for"),
    }
    assert!(matches!(
        first.answered(4242, 0, 0, vec![1; 32]),
        GroupAnswer::Groups(g) if g == vec![4242]
    ));
}

#[test]
fn the_drop_steps_are_declared_in_the_order_they_must_run() {
    let order = [DropStep::Setsid, DropStep::InitGroups, DropStep::Setgid, DropStep::Setuid];
    let ig = order.iter().position(|s| *s == DropStep::InitGroups).unwrap();
    let sg = order.iter().position(|s| *s == DropStep::Setgid).unwrap();
    let su = order.iter().position(|s| *s == DropStep::Setuid).unwrap();
    assert!(ig < sg, "initgroups needs the privilege setgid gives away");
    assert!(sg < su, "after setuid the gid can no longer be changed");
    assert!(DropStep::InitGroups < DropStep::Setgid && DropStep::Setgid < DropStep::Setuid);
}

#[test]
fn an_unknown_uid_is_refused_by_name_not_as_a_generic_failure() {
    let e = prepare(
        &plan(&["/bin/true"]),
        &EnvSet::new(),
        Uid(4_294_967_294),
        None,
        vec![],
    )
    .unwrap_err();
    assert!(matches!(e, SpawnError::UnknownPrincipal(_)), "got {e:?}");
}

#[test]
fn an_argument_with_a_nul_is_refused() {
    let e = prepare(&plan(&["/bin/a\0b"]), &EnvSet::new(), Uid(1), Some(account()), vec![100]);
    assert!(matches!(e, Err(SpawnError::Refused)));
    let env = EnvSet::from_pairs(vec![("A".into(), "b\0".into())]);
    let e = prepare(&plan(&["/bin/a"]), &env, Uid(1), Some(account()), vec![100]);
    assert!(matches!(e, Err(SpawnError::Refused)));
}

#[test]
fn identity_variables_are_present_even_when_the_caller_passes_nothing() {
    let p = prepare(&plan(&["/bin/sh"]), &EnvSet::new(), Uid(1000), Some(account()), vec![100])
        .unwrap();
    for key in ["HOME=", "USER=", "LOGNAME=", "SHELL="] {
        assert!(
            p.envp.iter().any(|kv| kv.starts_with(key)),
            "{key} missing from a spawn whose caller supplied an empty env; got {:?}",
            p.envp
        );
    }
    let home = p.envp.iter().find(|kv| kv.starts_with("HOME=")).expect("HOME");
    assert!(home.len() > "HOME=".len(), "HOME is present but empty: {home:?}");
    assert_eq!(
        p.envp,
        words(&["HOME=/home/luis", "LOGNAME=luis", "SHELL=/bin/zsh", "USER=luis"])
    );
}

#[test]
fn the_passwd_record_wins_over_a_caller_that_disagrees() {
    let lying = EnvSet::from_pairs(vec![("HOME".into(), "/nowhere".into())]);
    let p =
        prepare(&plan(&["/bin/sh"]), &lying, Uid(1000), Some(account()), vec![100]).unwrap();
    let home = p.envp.iter().find(|kv| kv.starts_with("HOME=")).expect("HOME");
    assert_ne!(home, "HOME=/nowhere", "a caller overrode the passwd home");
}

#[test]
fn the_parent_learns_which_step_failed() {
    for (why, errno) in [
        (ChildFail::Setsid, 1),
        (ChildFail::InitGroups, 1),
        (ChildFail::Setgid, -5),
        (ChildFail::Setuid, i32::MIN),
        (ChildFail::NotDropped, 0),
        (ChildFail::RootRegainable, 0),
        (ChildFail::Exec, i32::MAX),
    ] {
        let m = failure_message(why, errno);
        assert_eq!(m[1..], errno.to_le_bytes());
        let got = spawn_outcome(9, 5, &m, 0).unwrap_err();
        let want = match why {
            ChildFail::Setsid => {
                SpawnError::PrivilegeDropFailed { step: DropStep::Setsid, errno }
            }
            ChildFail::InitGroups => {
                SpawnError::PrivilegeDropFailed { step: DropStep::InitGroups, errno }
            }
            ChildFail::Setgid => {
                SpawnError::PrivilegeDropFailed { step: DropStep::Setgid, errno }
            }
            ChildFail::Setuid => {
                SpawnError::PrivilegeDropFailed { step: DropStep::Setuid, errno }
            }
            ChildFail::NotDropped => SpawnError::PrivilegeDropUnverified(
                "the uid is still not the target after setuid",
            ),
            ChildFail::RootRegainable => SpawnError::PrivilegeDropUnverified(
                "root could still be regained after setuid",
            ),
            ChildFail::Exec => SpawnError::ExecFailed(errno),
        };
        assert_eq!(got, want);
    }
    assert_eq!(spawn_outcome(9, 0, &[0; 5], 0), Ok(ChildPid(9)));
    assert_eq!(spawn_outcome(9, -1, &[0; 5], 4), Err(SpawnError::ForkFailed(4)));
}

#[test]
fn a_step_that_went_wrong_stops_the_child() {
    assert_eq!(child_failure(ChildStep::SetGroups, false), Some(ChildFail::InitGroups));
    assert_eq!(child_failure(ChildStep::SetGroups, true), None);
    assert_eq!(child_failure(ChildStep::Home, false), None);
    assert_eq!(child_failure(ChildStep::Exec, true), Some(ChildFail::Exec));
    assert_eq!(child_failure(ChildStep::CheckNoReturn, false), Some(ChildFail::RootRegainable));
    assert_eq!(child_failure(ChildStep::Keep { from: 1, to: 2 }, false), Some(ChildFail::Exec));
}

// The console.

#[test]
fn a_device_that_is_no_console_is_refused_by_name_and_left_untouched() {
    for errno in [ENOTTY, EINVAL] {
        let c = ClaimedConsole::claim_path("/dev/null", Mode::Graphics);
        assert_eq!(c.next(), VtCall::Open);
        let c = match c.answered(Ok(0)) {
            Ok(Progress::More(c)) => c,
            other => panic!("{other:?}"),
        };
        assert_eq!(c.next(), VtCall::ReadKeyboard);
        let e = c.answered(Err(errno)).unwrap_err();
        assert_eq!(e, VtError::NotATty("/dev/null".into()));
        assert_eq!(e.message(), "this is not a console: /dev/null");
    }
}

#[test]
fn a_missing_device_reports_the_path_it_could_not_open() {
    let c = ClaimedConsole::claim_path("/dev/tty-nonexistent-mukae", Mode::Graphics);
    match c.answered(Err(2)) {
        Err(VtError::Open { path, .. }) => assert!(path.contains("nonexistent")),
        other => panic!("expected an open failure naming the path, got {other:?}"),
    }
    assert_eq!(
        VtError::Open { path: "/dev/x".into(), errno: 2 }.message(),
        "opening /dev/x: 2"
    );
    assert_eq!(VtError::ReadMode(5).message(), "reading the keyboard mode: errno 5");
    assert_eq!(VtError::SetMode(5).message(), "setting graphics mode: errno 5");
}

#[test]
fn a_console_is_given_back_as_it_was_found() {
    let c = ClaimedConsole::claim(4, Mode::Graphics);
    assert_eq!(c.path, "/dev/tty4");
    let c = match c.answered(Ok(0)) {
        Ok(Progress::More(c)) => c,
        other => panic!("{other:?}"),
    };
    let c = match c.answered(Ok(3)) {
        Ok(Progress::More(c)) => c,
        other => panic!("{other:?}"),
    };
    assert_eq!(c.next(), VtCall::SetDisplay(KD_GRAPHICS));
    let mut console = match c.answered(Ok(0)) {
        Ok(Progress::Claimed(c)) => c,
        other => panic!("{other:?}"),
    };
    let first = console.restore().unwrap();
    assert_eq!(first, VtCall::SetKeyboard(3));
    let second = restoring(first, Ok(())).unwrap().unwrap();
    assert_eq!(second, VtCall::SetDisplay(KD_TEXT));
    assert_eq!(restoring(second, Ok(())), Ok(None));
    assert_eq!(restoring(first, Err(1)), Err(VtError::SetMode(1)));
    assert_eq!(console.restore(), None);
    assert_eq!(Mode::Text.value(), KD_TEXT);
}
