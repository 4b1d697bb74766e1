//! The names, capabilities, coverage and surface of the border.
use std::collections::BTreeSet;

use mukae::border::capability::{
    mint_autologin_proof, mint_fido2_proof, mint_password_proof, mint_smartcard_proof, AuthMethod,
    Denied, KeyringUnlock, Passphrase, SeatCapability,
};
use mukae::border::coverage::{coverage, live_actions, phase_of, Phase};
use mukae::border::env::{Answer, DropStep, MsgStyle, PamAnswer, PamClass, PamError, SpawnError};
use mukae::border::env_set::EnvSet;
use mukae::border::ids::{
    CredentialId, IdError, PamHandleId, SeatId, ServiceName, SlotId, Uid, UserName,
};
use mukae::border::mock::{MockSeatEnv, Script};
use mukae::border::session::{Argv, SessionError};
use mukae::border::surface::{diff, observe, Desired, Drivable, Key, Observed, Verdict};

fn seat() -> SeatId {
    SeatId::parse("seat0").unwrap()
}

fn env() -> MockSeatEnv {
    MockSeatEnv::new(Script::password_ok(Uid(1000)))
}

#[test]
fn a_proof_projects_its_uid_and_method_but_not_its_evidence() {
    let p = mint_password_proof(&env(), Uid(1000), Passphrase::new("hunter2".into()));
    assert_eq!(p.uid(), Uid(1000));
    assert_eq!(p.method(), AuthMethod::Password);
}

#[test]
fn neither_a_passphrase_nor_a_proof_leaks_through_debug() {
    let s = Passphrase::new("hunter2".into());
    assert!(!s.redacted().contains("hunter2"));
    assert_eq!(s.redacted(), "Passphrase(<redacted>)");

    let p = mint_password_proof(&env(), Uid(1000), Passphrase::new("hunter2".into()));
    let rendered = p.redacted();
    assert!(!rendered.contains("hunter2"), "leaked: {rendered}");
    assert!(rendered.contains("1000"), "should still identify the uid");
    assert_eq!(rendered, "AuthProof(Password { uid: 1000 })");
}

#[test]
fn every_proof_renders_its_method() {
    let e = env();
    assert_eq!(
        mint_fido2_proof(&e, Uid(1), CredentialId(vec![9])).redacted(),
        "AuthProof(Fido2 { uid: 1 })"
    );
    assert_eq!(
        mint_smartcard_proof(&e, Uid(2), SlotId(7)).redacted(),
        "AuthProof(Smartcard { uid: 2, slot: SlotId(7) })"
    );
    assert_eq!(mint_autologin_proof(&e, Uid(3)).redacted(), "AuthProof(Autologin { uid: 3 })");
}

#[test]
fn minting_carries_the_proofs_uid() {
    let p = mint_password_proof(&env(), Uid(1000), Passphrase::new("x".into()));
    let cap = SeatCapability::mint(p, seat(), PamHandleId(7));
    assert_eq!(cap.uid(), Uid(1000));
    assert_eq!(cap.seat().as_str(), "seat0");
}

#[test]
fn only_a_password_proof_unlocks_a_keyring() {
    let e = env();
    let pw = mint_password_proof(&e, Uid(1), Passphrase::new("x".into()));
    assert!(KeyringUnlock::from(&pw).is_some());

    for other in [
        mint_fido2_proof(&e, Uid(1), CredentialId(vec![1, 2, 3])),
        mint_smartcard_proof(&e, Uid(1), SlotId(0)),
        mint_autologin_proof(&e, Uid(1)),
    ] {
        assert!(
            KeyringUnlock::from(&other).is_none(),
            "{:?} must not unlock a password keyring",
            other.method()
        );
    }
}

#[test]
fn a_denial_is_inspectable_and_goes_nowhere() {
    let d = SeatCapability::<Denied>::denied_for(seat(), PamHandleId(3));
    assert_eq!(d.pam_handle(), PamHandleId(3));
    assert_eq!(d.seat().as_str(), "seat0");
    assert_eq!(d.uid(), Uid(u32::MAX));
}

#[test]
fn the_table_covers_every_row_saihai_declares_for_mukae() {
    let table = coverage();
    assert_eq!(table.len(), 31);
    let logins = table.iter().filter(|(id, _)| id.starts_with("login-")).count();
    let seats = table.iter().filter(|(id, _)| id.starts_with("seat-")).count();
    let vts = table.iter().filter(|(id, _)| id.starts_with("vt-")).count();
    assert_eq!((logins, seats, vts), (21, 7, 3));
}

#[test]
fn no_action_is_listed_twice() {
    let table = coverage();
    let ids: BTreeSet<_> = table.iter().map(|(id, _)| *id).collect();
    assert_eq!(ids.len(), table.len(), "duplicate action id");
}

#[test]
fn every_id_is_well_formed() {
    for (id, _) in coverage() {
        assert!(
            id.starts_with("login-") || id.starts_with("seat-") || id.starts_with("vt-"),
            "{id} is not in one of mukae's three domains"
        );
        assert!(
            id.chars().all(|c| c.is_ascii_lowercase() || c.is_ascii_digit() || c == '-'),
            "{id} is not kebab-case"
        );
    }
}

#[test]
fn nothing_in_the_absent_half_claims_to_be_live() {
    for (id, phase) in coverage() {
        if id.starts_with("seat-") || id.starts_with("vt-") {
            assert_eq!(
                phase,
                Phase::NeedsSeat,
                "{id} cannot be live: the seat/VT half of SeatEnv does not exist"
            );
        }
    }
}

#[test]
fn the_live_set_is_what_m0_claims() {
    let live = live_actions();
    assert_eq!(live.len(), 16, "M0 covers 16 of the 31");
    assert!(live.contains(&"login-auth-next"));
    assert!(live.contains(&"login-start-session"));
    assert!(!live.contains(&"login-autologin"), "needs a real runfile");
    assert!(!live.contains(&"seat-open"), "M4");
}

#[test]
fn a_foreign_action_is_not_ours() {
    assert!(phase_of("theme-select").is_none());
    assert_eq!(phase_of("login-open-session"), Some(Phase::Implemented));
    assert_eq!(phase_of("seat-poll").map(Phase::milestone), Some("M4"));
}

#[test]
fn phases_name_their_milestones() {
    assert_eq!(Phase::Implemented.milestone(), "M0");
    assert_eq!(Phase::NeedsPam.milestone(), "M3");
    assert_eq!(Phase::NeedsHandoff.milestone(), "M7");
    assert!(Phase::Implemented.is_live());
    assert!(!Phase::NeedsPam.is_live());
}

#[test]
fn only_echo_off_is_secret() {
    assert!(MsgStyle::PromptEchoOff.is_secret());
    for s in [MsgStyle::PromptEchoOn, MsgStyle::ErrorMsg, MsgStyle::TextInfo] {
        assert!(!s.is_secret(), "{s:?} must not be masked");
    }
}

#[test]
fn blind_is_not_a_finding_but_empty_is() {
    let empty: Answer<u8> = Answer::Empty { of: "principals" };
    let blind: Answer<u8> = Answer::Blind { because: "nss timeout".into() };
    assert!(empty.is_finding(), "empty IS a finding");
    assert!(!blind.is_finding(), "blind is NOT a finding");
    let found: Answer<u8> = Answer::Found(1);
    assert!(found.is_finding());
    let refused: Answer<u8> = Answer::Refused { because: "x".into(), legal: vec![] };
    assert!(!refused.is_finding());
}

#[test]
fn an_answer_never_renders_a_secret() {
    let a = PamAnswer::Secret(Passphrase::new("hunter2".into()));
    assert!(!a.redacted().contains("hunter2"));
    assert_eq!(PamAnswer::Visible("a\"b".into()).redacted(), "Visible(\"a\\\"b\")");
}

#[test]
fn pam_errors_say_what_happened() {
    assert_eq!(PamError::NoSuchHandle.message(), "no such pam handle");
    assert_eq!(PamError::OutOfOrder("x").message(), "pam call out of order: x");
    assert_eq!(PamError::Refused(PamClass::MaxTries).message(), "pam refused: MaxTries");
}

#[test]
fn spawn_errors_say_what_happened() {
    assert_eq!(SpawnError::Refused.message(), "fork refused");
    assert_eq!(SpawnError::UnknownPrincipal(7).message(), "no passwd entry for uid 7");
    assert_eq!(SpawnError::ForkFailed(-1).message(), "fork failed: errno -1");
    assert_eq!(
        SpawnError::PrivilegeDropFailed { step: DropStep::Setgid, errno: 1 }.message(),
        "the privilege drop failed at setgid: errno 1"
    );
    assert_eq!(
        SpawnError::PrivilegeDropUnverified("w").message(),
        "the privilege drop is unverified: w"
    );
    assert_eq!(SpawnError::ExecFailed(2).message(), "exec failed: errno 2");
    assert_eq!(
        SessionError::Spawn(SpawnError::Refused).message(),
        "spawn: fork refused"
    );
    assert_eq!(
        SessionError::Pam(PamError::NoSuchHandle).message(),
        "pam: no such pam handle"
    );
    assert_eq!(SessionError::EmptyArgv.message(), "argv is empty; execve needs a program");
}

#[test]
fn seat_names_parse_at_the_boundary() {
    assert!(SeatId::parse("seat0").is_ok());
    assert!(SeatId::parse("seat-lab").is_ok());
    assert!(SeatId::parse("seat-lab-2").is_ok());
    for bad in ["", "seat", "seat-", "Seat0", "seat0 ", "../seat0"] {
        assert!(SeatId::parse(bad).is_err(), "{bad:?} should not parse");
    }
}

#[test]
fn a_refused_name_is_quoted() {
    let e = SeatId::parse("a\"b").unwrap_err();
    assert_eq!(e, IdError::Malformed { what: "seat id", got: "a\"b".to_string() });
    assert_eq!(e.message(), "malformed seat id: \"a\\\"b\"");
}

#[test]
fn only_seat0_yields_a_witness() {
    assert!(SeatId::parse("seat0").unwrap().as_seat0().is_some());
    assert!(SeatId::parse("seat-lab").unwrap().as_seat0().is_none());
}

#[test]
fn user_names_reject_the_four_shapes_that_break_downstream() {
    assert!(UserName::parse("drzzln").is_ok());
    for bad in ["", "-rf", "a:b", "a/b", "a\0b"] {
        assert!(UserName::parse(bad).is_err(), "{bad:?} should not parse");
    }
}

#[test]
fn pam_service_names_cannot_traverse() {
    assert!(ServiceName::parse("mukae").is_ok());
    assert!(ServiceName::parse("../../etc/shadow").is_err());
    assert!(ServiceName::parse("").is_err());
}

#[test]
fn an_empty_argv_dies_at_the_boundary() {
    assert_eq!(Argv::new(vec![]).unwrap_err(), SessionError::EmptyArgv);
}

#[test]
fn argv_elements_survive_whole() {
    let a = Argv::new(vec![
        "/run/current-system/sw/bin/omoya".to_string(),
        "--mode session".to_string(),
        "a b; rm -rf /".to_string(),
    ])
    .unwrap();
    assert_eq!(a.as_slice().len(), 3);
    assert_eq!(a.as_slice()[2], "a b; rm -rf /");
    assert_eq!(a.program(), "/run/current-system/sw/bin/omoya");
}

#[test]
fn every_key_has_a_path_and_they_are_distinct() {
    let paths: Vec<_> = Key::all().iter().map(|k| k.path()).collect();
    assert_eq!(paths.len(), 3);
    let mut sorted = paths.clone();
    sorted.sort_unstable();
    sorted.dedup();
    assert_eq!(sorted.len(), paths.len(), "duplicate path");
    assert!(paths.iter().all(|p| p.starts_with("login.")));
}

#[test]
fn a_session_may_be_closed_by_a_loop_but_never_opened() {
    assert_eq!(Key::SessionOpen.drivable(), Drivable::CloseOnly);

    let want_closed = Desired { session_open: Some(false), ..Default::default() };
    let open_now = Observed { session_open: Some(true), ..Default::default() };
    let g = diff(&want_closed, &open_now);
    assert_eq!(g.actionable().len(), 1, "closing IS actionable");

    let want_open = Desired { session_open: Some(true), ..Default::default() };
    let closed_now = Observed { session_open: Some(false), ..Default::default() };
    let g = diff(&want_open, &closed_now);
    assert!(g.actionable().is_empty(), "opening must never be planned by a loop");
    assert!(matches!(g.drifts[0].verdict, Verdict::NeedsHuman { .. }));
}

#[test]
fn a_needs_human_drift_does_not_block_convergence() {
    let g = diff(
        &Desired { session_open: Some(true), ..Default::default() },
        &Observed { session_open: Some(false), ..Default::default() },
    );
    assert!(!g.drifts.is_empty(), "the drift is still REPORTED");
    assert!(g.is_converged(), "but it does not block convergence");
}

#[test]
fn an_empty_desired_state_is_not_converged() {
    let g = diff(&Desired::default(), &Observed::default());
    assert_eq!(g.examined, 0);
    assert!(
        !g.is_converged(),
        "examining nothing is not the same as being in the right state"
    );
}

#[test]
fn a_matching_state_is_converged() {
    let want = Desired {
        session_open: Some(false),
        logins_enabled: Some(true),
        ..Default::default()
    };
    let have = Observed {
        session_open: Some(false),
        logins_enabled: Some(true),
        ..Default::default()
    };
    let g = diff(&want, &have);
    assert_eq!(g.examined, 2);
    assert!(g.drifts.is_empty());
    assert!(g.is_converged());
}

#[test]
fn an_unobserved_key_is_unknown_rather_than_false() {
    let g = diff(
        &Desired { logins_enabled: Some(true), ..Default::default() },
        &Observed::default(),
    );
    assert_eq!(g.drifts.len(), 1);
    assert_eq!(g.drifts[0].have, None, "unknown, not `false`");
}

#[test]
fn the_surface_is_deliberately_much_smaller_than_the_catalog() {
    assert!(Key::all().len() < coverage().len() / 4);
}

#[test]
fn observing_an_m0_world_yields_unknowns_rather_than_invented_values() {
    let env = env();
    let seat = seat();
    let o = observe(&env, &seat);
    assert_eq!(o, Observed::default(), "no key may be invented");
}

#[test]
fn keys_say_how_far_a_loop_may_go() {
    assert_eq!(Key::SessionOwner.drivable().name(), "ObserveOnly");
    assert_eq!(Key::SessionOpen.drivable().name(), "CloseOnly");
    assert_eq!(Key::LoginsEnabled.drivable().name(), "Both");
    assert_eq!(Key::SessionOwner.path(), "login.session.owner");
}

#[test]
fn a_wanted_owner_is_a_persons_to_become() {
    let g = diff(
        &Desired { session_owner: Some(Uid(1000)), ..Default::default() },
        &Observed { session_owner: Some(Uid(1001)), ..Default::default() },
    );
    assert_eq!(g.drifts.len(), 1);
    assert_eq!(g.drifts[0].want, "1000");
    assert_eq!(g.drifts[0].have.as_deref(), Some("1001"));
    assert!(g.actionable().is_empty());
}

#[test]
fn an_environment_is_kept_in_the_order_of_its_names() {
    let mut e = EnvSet::new();
    e.insert("b".into(), "2".into());
    e.insert("a".into(), "1".into());
    e.insert("b".into(), "3".into());
    assert_eq!(e.len(), 2);
    assert_eq!(e.entry(0), &("a".to_string(), "1".to_string()));
    assert_eq!(e.get("b"), Some("3"));
    assert_eq!(e.get("c"), None);
    let f = EnvSet::from_pairs(vec![("b".into(), "4".into()), ("c".into(), "5".into())]);
    e.extend(&f);
    assert_eq!(e.get("b"), Some("4"));
    assert_eq!(e.len(), 3);
}
