//! The PAM codes, the transactions with libpam and the bridge to a face.
use mukae::border::capability::Passphrase;
use mukae::border::env::{
    AcctVerdict, CredFlag, EnvPair, MsgStyle, PamAnswer, PamClass, PamError, PamStep, PromptText,
};
use mukae::border::ids::PamHandleId;
use mukae::host::authenticate::{authenticate, finished, unstarted};
use mukae::host::bridge::{asked, told, Bridge, Received};
use mukae::host::bridging_conv::{
    bridging_conv, callable, refusing_conv, response_for, style_of, wire_text, PamMessage,
};
use mukae::host::codes::{
    class_of, cred_flag, result_of, verdict_of, PAM_ABORT, PAM_ACCT_EXPIRED, PAM_AUTH_ERR,
    PAM_CONV_ERR, PAM_MAXTRIES, PAM_NEW_AUTHTOK_REQD, PAM_PROMPT_ECHO_OFF, PAM_PROMPT_ECHO_ON,
    PAM_SUCCESS, PAM_USER_UNKNOWN,
};
use mukae::host::env::{cross_into_c, parse_env_list, split_pair, HostError, HostSeatEnv};

#[test]
fn pam_codes_map_onto_the_borders_closed_classes() {
    assert_eq!(class_of(PAM_MAXTRIES), PamClass::MaxTries);
    assert_eq!(class_of(PAM_AUTH_ERR), PamClass::AuthError);
    assert_eq!(class_of(PAM_USER_UNKNOWN), PamClass::UserUnknown);
    assert_eq!(class_of(PAM_ABORT), PamClass::Abort);
}

#[test]
fn an_expired_token_is_a_verdict_not_a_denial() {
    assert_eq!(verdict_of(PAM_NEW_AUTHTOK_REQD), AcctVerdict::NewAuthTokRequired);
    assert_eq!(verdict_of(PAM_SUCCESS), AcctVerdict::Okay);
    assert_eq!(verdict_of(PAM_ACCT_EXPIRED), AcctVerdict::AcctExpired);
}

#[test]
fn cred_flags_match_pam_appl_h() {
    assert_eq!(cred_flag(CredFlag::Establish), 0x0002);
    assert_eq!(cred_flag(CredFlag::Delete), 0x0004);
    assert_eq!(cred_flag(CredFlag::Reinitialize), 0x0008);
    assert_eq!(cred_flag(CredFlag::Refresh), 0x0010);
}

#[test]
fn the_unbridged_conversation_refuses_loudly() {
    let mut env = HostSeatEnv::new();
    let err = env.next_step(PamHandleId(1)).unwrap_err();
    assert!(matches!(err, HostError::ConversationNotBridged));
    assert!(
        err.message().contains("PUSHES") && err.message().contains("PULL"),
        "the error must explain WHY, not just that: {}",
        err.message()
    );
    let err = env.answer(PamHandleId(1), PamAnswer::Visible("x".into())).unwrap_err();
    assert!(matches!(err, HostError::ConversationNotBridged));
}

#[test]
fn lib_an_unknown_handle_is_refused_everywhere() {
    let mut env = HostSeatEnv::new();
    let h = PamHandleId(999);
    assert!(env.setcred(h, cred_flag(CredFlag::Establish)).is_err());
    assert!(env.open_session(h, PAM_SUCCESS).is_err());
    assert!(env.close_session(h, PAM_SUCCESS).is_err());
    assert!(env.end(h).is_err());

    let mut native =
        mukae::seat::env::NativeSeatEnv::with_shadow("/nonexistent/shadow".to_string());
    let bogus = PamHandleId(999);
    assert!(native.pam_next(bogus).is_err());
    assert!(native.pam_acct_mgmt(bogus).is_err());
    assert!(native.pam_getenvlist(bogus).is_err());
    assert!(native.pam_end(bogus).is_err());
}

#[test]
fn a_transaction_answers_by_libpam_s_codes() {
    let mut env = HostSeatEnv::new();
    let e = env.start(PAM_ABORT, 7).unwrap_err();
    assert_eq!(e.message(), format!("pam: pam_start returned {PAM_ABORT}"));
    assert!(env.start(PAM_SUCCESS, 0).is_err());
    let h = env.start(PAM_SUCCESS, 7).unwrap();
    assert_eq!(env.handle(h), Ok(7));
    let kv = EnvPair { key: "A".into(), value: "b".into() };
    assert_eq!(env.env_pair(h, &kv), Ok("A=b".to_string()));
    let bad = EnvPair { key: "A".into(), value: "b\0".into() };
    assert_eq!(env.env_pair(h, &bad), Err(PamError::OutOfOrder("interior NUL in env pair")));
    assert_eq!(env.putenv(h, PAM_SUCCESS), Ok(()));
    assert_eq!(env.chauthtok(h, PAM_AUTH_ERR), Err(PamError::Refused(PamClass::AuthError)));
    assert_eq!(env.acct_mgmt(h, PAM_NEW_AUTHTOK_REQD), Ok(AcctVerdict::NewAuthTokRequired));
    assert_eq!(env.uid_for(h), Ok(None));
    assert_eq!(env.getenvlist(h, &None).unwrap().len(), 0);
    assert_eq!(env.end(h), Ok(7));
    assert_eq!(env.end(h), Err(PamError::NoSuchHandle));
}

#[test]
fn an_environment_list_is_read_as_pairs() {
    let list = vec![b"A=1".to_vec(), b"bare".to_vec(), vec![0xff, b'=', b'x'], b"B=x=y".to_vec()];
    let e = parse_env_list(&list);
    assert_eq!(e.get("A"), Some("1"));
    assert_eq!(e.get("B"), Some("x=y"));
    assert_eq!(split_pair("B=x=y"), Some(("B".to_string(), "x=y".to_string())));
    assert_eq!(split_pair("bare"), None);
    assert!(e.get("bare").is_none());
}

#[test]
fn what_cannot_cross_into_c_is_named() {
    assert!(cross_into_c("login", Some("ann")).is_ok());
    let e = cross_into_c("lo\0gin", None).unwrap_err();
    assert!(e.message().starts_with("a NUL byte in "));
    assert!(cross_into_c("login", Some("a\0")).is_err());
    assert_eq!(result_of(PAM_SUCCESS), Ok(()));
    assert_eq!(result_of(PAM_MAXTRIES), Err(PamError::Refused(PamClass::MaxTries)));
}

#[test]
fn a_service_name_with_a_nul_fails_synchronously() {
    assert!(authenticate("lo\0gin", None).is_err());
    assert!(authenticate("login", Some("a\0b")).is_err());
    assert!(authenticate("login", Some("ann")).is_ok());
}

#[test]
fn a_transaction_that_does_not_start_fails_as_a_step() {
    assert_eq!(unstarted(PAM_SUCCESS, true), Some(PamStep::Failed { class: PamClass::Abort }));
    assert_eq!(unstarted(PAM_ABORT, false), Some(PamStep::Failed { class: PamClass::Abort }));
    assert_eq!(unstarted(PAM_SUCCESS, false), None);
    assert_eq!(finished(PAM_SUCCESS), PamStep::Complete);
    assert_eq!(finished(PAM_MAXTRIES), PamStep::Failed { class: PamClass::MaxTries });
}

#[test]
fn a_dead_worker_becomes_a_typed_failure_not_a_hang() {
    let (mut face, conv) = Bridge::new();
    drop(conv);
    assert!(matches!(face.next(), PamStep::Failed { .. }));
}

#[test]
fn a_conversation_that_ended_does_not_reopen() {
    let (mut face, _conv) = Bridge::new();
    assert_eq!(face.settle(Received::Step(PamStep::Complete)), PamStep::Complete);
    assert_eq!(face.next(), PamStep::Failed { class: PamClass::Abort });
    let (mut face, _conv) = Bridge::new();
    assert_eq!(
        face.settle(Received::Late),
        PamStep::Failed { class: PamClass::AuthInfoUnavail }
    );
    assert_eq!(face.next(), PamStep::Failed { class: PamClass::Abort });
}

#[test]
fn a_face_that_is_gone_is_a_refusal() {
    let (face, mut conv) = Bridge::new();
    drop(face);
    let r = conv.ask(MsgStyle::PromptEchoOn, PromptText("login:".into()));
    assert!(matches!(r, Err(PamError::Refused(PamClass::Abort))));
    assert_eq!(
        conv.tell(MsgStyle::TextInfo, PromptText("x".into())),
        Err(PamError::Refused(PamClass::Abort))
    );
    conv.finish(PamStep::Complete);
    assert!(asked(false, None).is_err());
    assert!(asked(true, None).is_err());
    assert!(matches!(asked(true, Some(PamAnswer::Visible("x".into()))), Ok(PamAnswer::Visible(_))));
    assert_eq!(told(true), Ok(()));
}

#[test]
fn null_and_zero_shapes_are_refused_without_touching_memory() {
    assert_eq!(callable(0, false, true, false), Err(PAM_CONV_ERR));
    assert_eq!(callable(0, true, true, true), Err(PAM_CONV_ERR));
    assert_eq!(callable(1, false, true, true), Err(PAM_CONV_ERR));
    assert_eq!(callable(1, true, false, true), Err(PAM_CONV_ERR));
    assert_eq!(callable(1, true, true, false), Err(PAM_CONV_ERR));
    assert_eq!(callable(-1, true, true, true), Err(PAM_CONV_ERR));
    assert_eq!(callable(2, true, true, true), Ok(2));
}

#[test]
fn a_vanished_face_fails_the_conversation_rather_than_answering_empty() {
    let (face, mut conv) = Bridge::new();
    drop(face);
    let msgs =
        vec![Some(PamMessage { style: PAM_PROMPT_ECHO_OFF, msg: "Password:".to_string() })];
    assert!(matches!(bridging_conv(&msgs, &mut conv), Err(rc) if rc == PAM_CONV_ERR));
}

#[test]
fn the_refusing_conversation_is_sound_for_every_input_shape() {
    assert_eq!(refusing_conv(), PAM_CONV_ERR);
}

#[test]
fn styles_are_libpam_s() {
    assert_eq!(style_of(PAM_PROMPT_ECHO_OFF), Some(MsgStyle::PromptEchoOff));
    assert_eq!(style_of(PAM_PROMPT_ECHO_ON), Some(MsgStyle::PromptEchoOn));
    assert_eq!(style_of(99), None);
}

#[test]
fn what_libpam_is_handed_is_what_was_answered() {
    let p = PamAnswer::Secret(Passphrase::new("hunter2".into()));
    assert_eq!(wire_text(p).as_deref(), Some("hunter2"));
    assert_eq!(wire_text(PamAnswer::Visible("a\0".into())), None);
    let r = response_for(PAM_PROMPT_ECHO_ON, Some(Ok(PamAnswer::Visible("luis".into()))));
    assert_eq!(r, Some(Some("luis".to_string())));
}
