//! A whole login, driven to a session without a machine.
use mukae::border::capability::Passphrase;
use mukae::border::conversation::{capability_from, Ask, Conversation, Face, Outcome, Transcript};
use mukae::border::env::{
    AcctVerdict, Answer, CredFlag, MsgStyle, PamAnswer, PamClass, PamError, PamStep, PromptText,
    PublicProfile, SeatEnv,
};
use mukae::border::env_set::EnvSet;
use mukae::border::ids::{PamHandleId, SeatId, ServiceName, Uid, UserName};
use mukae::border::mock::{Call, MockSeatEnv, Script};
use mukae::border::session::{start_session, Argv, SessionPlan};

/// A face that answers whatever it is asked and remembers what it saw.
#[derive(Default)]
struct ScriptedFace {
    seen: Vec<Ask>,
    answer: String,
    /// Walk away instead of answering.
    abandon: bool,
}

impl Face for ScriptedFace {
    fn said(&self) -> Transcript {
        unreachable!("it exists in proofs alone")
    }

    fn respond(&mut self, ask: &Ask) -> Option<PamAnswer> {
        self.seen.push(ask.clone());
        if self.abandon {
            return None;
        }
        match ask {
            Ask::Secret(_) => Some(PamAnswer::Secret(Passphrase::new(self.answer.clone()))),
            Ask::Visible(_) => Some(PamAnswer::Visible(self.answer.clone())),
            Ask::Tell(_) => None,
        }
    }
}

fn seat() -> SeatId {
    SeatId::parse("seat0").unwrap()
}

fn svc() -> ServiceName {
    ServiceName::parse("mukae").unwrap()
}

fn plan() -> SessionPlan {
    SessionPlan {
        argv: Argv::new(vec![
            "/run/current-system/sw/bin/omoya".to_string(),
            "--mode".to_string(),
            "session".to_string(),
        ])
        .unwrap(),
        env: EnvSet::from_pairs(vec![("MUKAE_SEAT".to_string(), "seat0".to_string())]),
    }
}

fn face(answer: &str) -> ScriptedFace {
    ScriptedFace { answer: answer.into(), ..Default::default() }
}

#[test]
fn a_three_step_conversation_reaches_a_session() {
    let mut env = MockSeatEnv::new(Script::secret_then_info_then_complete(Uid(1000)));
    let mut face = face("hunter2");

    let outcome = {
        let mut c = Conversation::new(&mut env, &mut face, seat());
        c.run(&svc(), Some(&UserName::parse("drzzln").unwrap()), 16).unwrap()
    };

    assert!(matches!(outcome, Outcome::Authenticated { .. }));
    assert!(matches!(face.seen[0], Ask::Secret(_)));
    assert!(matches!(face.seen[1], Ask::Tell(_)));

    let cap = capability_from(outcome, seat(), PamHandleId(1)).unwrap();
    let handle = start_session(&mut env, cap, plan()).unwrap();

    assert_eq!(handle.uid, Uid(1000));
    assert_eq!(handle.seat.as_str(), "seat0");
    assert_eq!(env.forked().len(), 1, "exactly one session was started");
}

#[test]
fn the_pam_call_order_is_the_one_that_does_not_break_kerberos() {
    let mut env = MockSeatEnv::new(Script::password_ok(Uid(1000)));
    let mut face = face("x");
    let outcome = {
        let mut c = Conversation::new(&mut env, &mut face, seat());
        c.run(&svc(), None, 16).unwrap()
    };
    let cap = capability_from(outcome, seat(), PamHandleId(1)).unwrap();
    start_session(&mut env, cap, plan()).unwrap();

    let idx = |c: &Call| env.calls.iter().position(|x| x == c).unwrap();

    let setcred = idx(&Call::SetCred(CredFlag::Establish));
    let putenv = idx(&Call::PutEnv("MUKAE_SEAT".into()));
    let open = idx(&Call::OpenSession);
    let getenv = idx(&Call::GetEnvList);
    let fork = idx(&Call::Fork);

    assert!(setcred < open);
    assert!(putenv < open);
    assert!(open < getenv);
    assert!(getenv < fork, "the child must inherit the final environment");
}

#[test]
fn the_child_inherits_the_session_modules_contribution() {
    let mut env = MockSeatEnv::new(Script::password_ok(Uid(1000)));
    let mut face = face("x");
    let outcome = {
        let mut c = Conversation::new(&mut env, &mut face, seat());
        c.run(&svc(), None, 16).unwrap()
    };
    let cap = capability_from(outcome, seat(), PamHandleId(1)).unwrap();
    let handle = start_session(&mut env, cap, plan()).unwrap();

    assert_eq!(
        handle.env.get("XDG_SESSION_TYPE"),
        Some("tty"),
        "the session module's variable must reach the child"
    );
    assert_eq!(handle.env.get("MUKAE_SEAT"), Some("seat0"), "and so must ours");
}

#[test]
fn a_denial_produces_no_capability() {
    let mut env = MockSeatEnv::new(Script::denied(PamClass::AuthError));
    let mut face = face("wrong");
    let outcome = {
        let mut c = Conversation::new(&mut env, &mut face, seat());
        c.run(&svc(), None, 16).unwrap()
    };
    assert!(matches!(outcome, Outcome::Denied { class: PamClass::AuthError, .. }));
    assert!(
        capability_from(outcome, seat(), PamHandleId(1)).is_none(),
        "a denial must not yield a capability"
    );
    assert!(env.forked().is_empty(), "and nothing may have been started");
}

#[test]
fn abandoning_is_distinct_from_being_denied() {
    let mut env = MockSeatEnv::new(Script::password_ok(Uid(1000)));
    let mut face = ScriptedFace { abandon: true, ..Default::default() };
    let outcome = {
        let mut c = Conversation::new(&mut env, &mut face, seat());
        c.run(&svc(), None, 16).unwrap()
    };
    assert!(matches!(outcome, Outcome::Abandoned));
    assert!(env.calls.contains(&Call::End));
}

#[test]
fn an_expired_password_is_a_token_change_not_a_denial() {
    let mut script = Script::password_ok(Uid(1000));
    script.acct = Some(AcctVerdict::NewAuthTokRequired);
    let mut env = MockSeatEnv::new(script);
    let mut face = face("x");
    let outcome = {
        let mut c = Conversation::new(&mut env, &mut face, seat());
        c.run(&svc(), None, 16).unwrap()
    };
    assert!(
        matches!(outcome, Outcome::TokenChangeRequired { .. }),
        "expired must not be a denial"
    );
    assert!(capability_from(outcome, seat(), PamHandleId(1)).is_none());
}

#[test]
fn a_proof_cannot_be_minted_before_the_conversation_completes() {
    let mut env = MockSeatEnv::new(Script::password_ok(Uid(1000)));
    let h = env.pam_start(&svc(), None).unwrap();
    let err = match env.mint_proof(h, Uid(1000)) {
        Ok(_) => panic!("a proof was minted"),
        Err(e) => e,
    };
    assert!(
        matches!(err, PamError::OutOfOrder(m) if m.contains("unfinished")),
        "got {err:?}"
    );
}

#[test]
fn a_conversation_that_never_completes_is_bounded() {
    let mut script = Script::default();
    script.steps = (0..100)
        .map(|_| PamStep::Prompt {
            style: MsgStyle::PromptEchoOff,
            msg: PromptText("again: ".into()),
        })
        .collect();
    let mut env = MockSeatEnv::new(script);
    let mut face = face("x");
    let mut c = Conversation::new(&mut env, &mut face, seat());
    let err = match c.run(&svc(), None, 8) {
        Ok(_) => panic!("the conversation completed"),
        Err(e) => e,
    };
    assert!(matches!(err, PamError::OutOfOrder(m) if m.contains("max_steps")));
    assert_eq!(env.calls.iter().filter(|c| **c == Call::Next).count(), 8);
    assert_eq!(env.calls().len(), env.calls.len());
}

#[test]
fn an_unreachable_directory_is_blind_not_empty() {
    let env = MockSeatEnv::new(Script::password_ok(Uid(1000)))
        .enumerating(Answer::Blind { because: "nss timeout after 5s".into() });
    let a = env.enumerate_principals();
    assert!(!a.is_finding(), "a timeout must not read as a finding");
    assert!(matches!(a, Answer::Blind { .. }));

    let empty = MockSeatEnv::new(Script::password_ok(Uid(1000))).enumerate_principals();
    assert!(empty.is_finding(), "an empty directory IS a finding");
}

#[test]
fn of_two_principals_of_one_name_the_first_is_found() {
    let name = UserName::parse("luis").unwrap();
    let profile = |uid: u32| PublicProfile { uid: Uid(uid), name: name.clone(), display_name: None };
    let env = MockSeatEnv::new(Script::password_ok(Uid(1000)))
        .with_principals(vec![profile(1000), profile(1001)]);
    assert!(matches!(env.resolve_principal(&name), Answer::Found(p) if p.uid == Uid(1000)));
}

#[test]
fn a_known_principal_resolves_and_an_unknown_one_is_empty() {
    let me = UserName::parse("drzzln").unwrap();
    let env = MockSeatEnv::new(Script::password_ok(Uid(1000))).with_principals(vec![PublicProfile {
        uid: Uid(1000),
        name: me.clone(),
        display_name: Some("drzzln".into()),
    }]);
    assert!(matches!(env.resolve_principal(&me), Answer::Found(_)));
    assert!(matches!(
        env.resolve_principal(&UserName::parse("nobody").unwrap()),
        Answer::Empty { .. }
    ));
}

#[test]
fn an_injected_fork_failure_surfaces_rather_than_returning_a_handle() {
    let mut env = MockSeatEnv::new(Script::password_ok(Uid(1000))).failing_on(Call::Fork);
    let mut face = face("x");
    let outcome = {
        let mut c = Conversation::new(&mut env, &mut face, seat());
        c.run(&svc(), None, 16).unwrap()
    };
    let cap = capability_from(outcome, seat(), PamHandleId(1)).unwrap();
    assert!(start_session(&mut env, cap, plan()).is_err());
    assert!(env.forked().is_empty());
}

#[test]
fn closing_a_session_actually_closes_it() {
    let mut env = MockSeatEnv::new(Script::password_ok(Uid(1000)));
    let h = env.pam_start(&svc(), None).unwrap();
    env.pam_open_session(h).unwrap();
    assert!(env.session_open(h));
    env.pam_close_session(h).unwrap();
    assert!(!env.session_open(h), "pam_close_session must have run");
}

#[test]
fn an_answer_that_nobody_asked_for_is_out_of_order() {
    let mut env = MockSeatEnv::new(Script::password_ok(Uid(1000)));
    let h = env.pam_start(&svc(), None).unwrap();
    let r = env.pam_answer(h, PamAnswer::Visible("x".into()));
    assert!(matches!(r, Err(PamError::OutOfOrder(_))));
    assert!(matches!(env.pam_next(PamHandleId(99)), Err(PamError::NoSuchHandle)));
}
