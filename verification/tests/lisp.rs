//! Declarations: what they lower to, and what they cannot say.
use mukae::lisp::catalog::{
    Absence, CatalogError, Epoch, FaceForm, FaceKind, FactForm, HandoffForm, HonorForm, Resolution,
    SessionsForm, Transport, Volatility,
};
use mukae::lisp::form::{
    first_form, read_source, AuthPolicyForm, Backoff, Console, ConsoleForm, ConsoleKind, LowerError,
    MukaeForm, PamForm, RestartPolicy, RetryForm, SeatForm, StartupForm, StartupMode, SwitchPolicy,
};

fn vt_console() -> ConsoleForm {
    ConsoleForm {
        kind: ConsoleKind::Vt,
        number: Some(1),
        switch: Some(SwitchPolicy::Required),
        conflicts: Some("getty@tty1.service".into()),
    }
}

fn seatless() -> ConsoleForm {
    ConsoleForm { kind: ConsoleKind::Seatless, number: None, switch: None, conflicts: None }
}

fn pam() -> PamForm {
    PamForm {
        user: "mukae".into(),
        greeter: "mukae-greeter".into(),
        autologin: "mukae-autologin".into(),
    }
}

fn fact(path: &str, volatility: Volatility, epoch: Epoch) -> FactForm {
    FactForm { path: path.into(), volatility, epoch }
}

fn handoff() -> HandoffForm {
    HandoffForm {
        name: "default".into(),
        transport: Transport::Sealedmemfd,
        env_var: "MUKAE_HANDOFF_FD".into(),
        validity_secs: 120,
        facts: vec![
            fact("outputs.topology", Volatility::Hotplugvolatile, Epoch::E0),
            fact("outputs.scale", Volatility::Hotplugvolatile, Epoch::E0),
            fact("gpu.class", Volatility::Bootstable, Epoch::E0),
            fact("session.choice", Volatility::Decision, Epoch::Atsubmit),
            fact("input.layout", Volatility::Authored, Epoch::E0),
            fact("locale.lang", Volatility::Authored, Epoch::E1),
            fact("machine.chassis", Volatility::Bootstable, Epoch::E1),
        ],
    }
}

fn catalog() -> SessionsForm {
    SessionsForm {
        name: "xdg".into(),
        dirs: vec![
            "/run/current-system/sw/share/wayland-sessions".into(),
            "/run/current-system/sw/share/xsessions".into(),
        ],
        honor: None,
    }
}

fn spec() -> MukaeForm {
    MukaeForm {
        name: "fleet-entrance".into(),
        seats: vec![
            SeatForm {
                id: "seat0".into(),
                console: vt_console(),
                greeter_user: "mukae".into(),
                pam: pam(),
            },
            SeatForm {
                id: "seat-lab".into(),
                console: seatless(),
                greeter_user: "mukae".into(),
                pam: pam(),
            },
        ],
        auth: AuthPolicyForm {
            name: "default".into(),
            startup: StartupForm {
                mode: StartupMode::Greeter,
                restart: Some(RestartPolicy::Always),
                user: None,
            },
            retry: RetryForm { attempts: 5, window_secs: 60, backoff: Backoff::Exponential },
        },
        catalog: Some(catalog()),
        handoff: Some(handoff()),
        faces: vec![
            FaceForm { kind: FaceKind::Gpu, renderer: "garasu".into() },
            FaceForm { kind: FaceKind::Tty, renderer: "egaku-term".into() },
            FaceForm { kind: FaceKind::Headless, renderer: "garasu".into() },
        ],
    }
}

#[test]
fn the_committed_spec_parses_and_lowers() {
    let m = spec().lower().expect("must lower");
    assert_eq!(m.name, "fleet-entrance");
    assert_eq!(m.seats.len(), 2);
    assert_eq!(m.retry_attempts, 5);
    assert_eq!(m.retry_window_secs, 60);
    assert_eq!(m.backoff, Backoff::Exponential);

    let seat0 = &m.seats[0];
    assert_eq!(seat0.id.as_str(), "seat0");
    assert_eq!(
        seat0.console,
        Console::Vt {
            number: 1,
            switch: SwitchPolicy::Required,
            conflicts: Some("getty@tty1.service".into()),
        }
    );
    assert_eq!(seat0.pam_greeter.as_str(), "mukae-greeter");
    assert_eq!(m.seats[1].console, Console::Seatless);
}

#[test]
fn a_vt_console_on_a_non_seat0_seat_is_refused() {
    let mut f = spec();
    f.seats[1].console =
        ConsoleForm { kind: ConsoleKind::Vt, number: Some(2), switch: None, conflicts: None };
    let err = f.lower().expect_err("a VT on seat-lab must not lower");
    assert!(
        matches!(&err, LowerError::VtOnNonSeat0 { seat } if seat == "seat-lab"),
        "got {err:?}"
    );
    assert!(
        err.message().contains("seatless"),
        "the error must say what to write instead: {}",
        err.message()
    );
}

#[test]
fn autologin_with_a_restart_policy_is_refused() {
    let mut f = spec();
    f.auth.startup = StartupForm {
        mode: StartupMode::Autologin,
        restart: Some(RestartPolicy::Always),
        user: Some("drzzln".into()),
    };
    let err = f.lower().expect_err("autologin + restart must not lower");
    assert!(matches!(err, LowerError::AutologinWithRestart), "got {err:?}");
}

#[test]
fn autologin_without_a_user_is_refused() {
    let mut f = spec();
    f.auth.startup = StartupForm { mode: StartupMode::Autologin, restart: None, user: None };
    assert!(matches!(f.lower(), Err(LowerError::AutologinWithoutUser)));
}

#[test]
fn a_greeter_with_a_user_is_refused() {
    let mut f = spec();
    f.auth.startup.user = Some("drzzln".into());
    assert!(matches!(f.lower(), Err(LowerError::GreeterWithUser)));
}

#[test]
fn a_seatless_console_with_vt_fields_is_refused() {
    let mut f = spec();
    f.seats[1].console.number = Some(3);
    assert!(matches!(f.lower(), Err(LowerError::SeatlessWithVtFields { .. })));
}

#[test]
fn every_terminal_field_of_a_seatless_console_is_refused() {
    for i in 0..3 {
        let mut f = spec();
        let c = &mut f.seats[1].console;
        match i {
            0 => c.number = Some(3),
            1 => c.switch = Some(SwitchPolicy::Required),
            _ => c.conflicts = Some("getty@tty3.service".into()),
        }
        match f.lower() {
            Err(LowerError::SeatlessWithVtFields { seat }) => assert_eq!(seat, "seat-lab"),
            _ => panic!("field {i} was taken"),
        }
    }
}

#[test]
fn a_vt_console_without_a_number_is_refused() {
    let mut f = spec();
    f.seats[0].console.number = None;
    assert!(matches!(f.lower(), Err(LowerError::VtWithoutNumber { .. })));
}

#[test]
fn a_duplicate_seat_is_refused() {
    let mut f = spec();
    f.seats[1].id = "seat0".into();
    assert!(matches!(f.lower(), Err(LowerError::DuplicateSeat(_))));
}

#[test]
fn a_malformed_id_is_refused_by_the_borders_own_parser() {
    let mut f = spec();
    f.seats[1].id = "../etc".into();
    assert!(matches!(f.lower(), Err(LowerError::Id(_))));
}

#[test]
fn an_entrance_needs_a_seat() {
    let mut f = spec();
    f.seats = vec![];
    let e = f.lower().unwrap_err();
    assert!(matches!(e, LowerError::NoSeats));
    assert_eq!(e.message(), "a mukae declaration must have at least one seat");
}

#[test]
fn the_form_carries_what_the_spec_declares() {
    let f = spec();
    assert_eq!(f.name, "fleet-entrance");
    assert_eq!(f.seats.len(), 2);
    assert_eq!(f.seats[0].console.kind, ConsoleKind::Vt);
    assert_eq!(f.seats[1].console.kind, ConsoleKind::Seatless);
    assert_eq!(f.auth.startup.mode, StartupMode::Greeter);
    assert_eq!(f.auth.startup.restart, Some(RestartPolicy::Always));
}

#[test]
fn the_spec_carries_a_catalog_a_handoff_and_three_faces() {
    let f = spec();
    let cat = f.catalog.as_ref().expect(":catalog").lower().unwrap();
    assert_eq!(cat.name, "xdg");
    assert_eq!(cat.dirs.len(), 2);
    assert!(cat.honor.hidden && cat.honor.no_display && cat.honor.try_exec);

    let h = f.handoff.as_ref().expect(":handoff").lower().unwrap();
    assert_eq!(h.transport, Transport::Sealedmemfd);
    assert_eq!(h.env_var, "MUKAE_HANDOFF_FD");
    assert_eq!(h.validity_secs, 120);
    assert_eq!(h.facts.len(), 7);

    assert_eq!(f.faces.len(), 3);
    assert_eq!(f.faces[0].kind, FaceKind::Gpu);
    assert_eq!(f.faces[2].kind, FaceKind::Headless);
    assert_eq!(f.faces[2].renderer, "garasu");
}

#[test]
fn a_declared_hint_is_taken_as_declared() {
    let mut c = catalog();
    c.honor = Some(HonorForm { hidden: Some(false), no_display: None, try_exec: Some(true) });
    let l = c.lower().unwrap();
    assert_eq!((l.honor.hidden, l.honor.no_display, l.honor.try_exec), (false, true, true));
}

#[test]
fn a_sensor_declared_as_config_is_refused_by_name() {
    for sensor in ["battery.percent", "thermal.cpu", "power.draw.now", "fan.rpm"] {
        let mut h = handoff();
        h.facts[2] = fact(sensor, Volatility::Bootstable, Epoch::E0);
        let err = h.lower().expect_err("a sensor must not be declared as config");
        assert!(
            matches!(&err, CatalogError::SensorAsConfig(p) if p == sensor),
            "got {err:?}"
        );
        assert!(
            err.message().contains("live input"),
            "the error must say what to do instead: {}",
            err.message()
        );
    }
}

#[test]
fn a_hotplug_volatile_fact_at_a_late_epoch_is_refused() {
    let mut h = handoff();
    h.facts[1] = fact("outputs.scale", Volatility::Hotplugvolatile, Epoch::E2);
    let err = h.lower().expect_err("hotplug-volatile at E2 must not lower");
    assert!(
        matches!(
            &err,
            CatalogError::VolatileAtLateEpoch { path, volatility, epoch }
                if path == "outputs.scale"
                    && *volatility == Volatility::Hotplugvolatile
                    && *epoch == Epoch::E2
        ),
        "got {err:?}"
    );
}

#[test]
fn all_seven_absence_paths_resolve_to_an_empty_dict() {
    assert_eq!(Absence::all().len(), 7, "the seven paths of MUKAE.md §5.7");
    for a in Absence::all() {
        assert_eq!(
            a.answer(),
            Resolution::EmptyDict,
            "{a:?} must not resolve to anything but an empty dict"
        );
    }
}

#[test]
fn a_handoff_with_no_facts_is_refused() {
    let mut h = handoff();
    h.facts = vec![fact("x", Volatility::Bootstable, Epoch::E0)];
    assert!(h.lower().is_ok());
    h.facts = vec![];
    assert!(matches!(h.lower(), Err(CatalogError::NoFacts)));
}

#[test]
fn a_zero_validity_handoff_is_refused() {
    let mut h = handoff();
    h.validity_secs = 0;
    assert!(matches!(h.lower(), Err(CatalogError::ZeroValidity)));
}

#[test]
fn an_env_var_that_is_an_assignment_is_refused() {
    let mut h = handoff();
    h.env_var = "FD=3".into();
    assert!(matches!(h.lower(), Err(CatalogError::EnvVarNotAName(_))));
}

#[test]
fn a_duplicate_fact_is_refused() {
    let mut h = handoff();
    h.facts[2] = fact("outputs.scale", Volatility::Bootstable, Epoch::E0);
    assert!(matches!(h.lower(), Err(CatalogError::DuplicateFact { .. })));
}

#[test]
fn a_relative_session_directory_is_refused() {
    let mut c = catalog();
    c.dirs[1] = "share/xsessions".into();
    assert!(matches!(c.lower(), Err(CatalogError::RelativeDir(_))));
}

#[test]
fn a_catalog_with_no_directories_is_refused() {
    let mut c = catalog();
    c.dirs = vec![];
    assert!(matches!(c.lower(), Err(CatalogError::NoDirs)));
}

#[test]
fn a_minimal_entrance_needs_none_of_the_three() {
    let f = MukaeForm {
        name: "minimal".into(),
        seats: vec![SeatForm {
            id: "seat0".into(),
            console: seatless(),
            greeter_user: "mukae".into(),
            pam: PamForm { user: "u".into(), greeter: "g".into(), autologin: "a".into() },
        }],
        auth: AuthPolicyForm {
            name: "d".into(),
            startup: StartupForm { mode: StartupMode::Greeter, restart: None, user: None },
            retry: RetryForm { attempts: 1, window_secs: 1, backoff: Backoff::Fixed },
        },
        catalog: None,
        handoff: None,
        faces: vec![],
    };
    assert!(f.catalog.is_none());
    assert!(f.handoff.is_none());
    assert!(f.faces.is_empty());
    assert_eq!(f.lower().expect("must lower").seats.len(), 1);
}

#[test]
fn a_source_is_read_to_its_first_form() {
    assert!(read_source("(defmukae :name \"x\") (second)").is_ok());
    assert!(matches!(read_source(""), Err(LowerError::Empty)));
    let e = read_source("(unclosed").unwrap_err();
    assert!(matches!(e, LowerError::Read(_)));
    assert!(e.message().starts_with("reading the form: "));
    assert!(matches!(first_form(Ok(vec![])), Err(LowerError::Empty)));
}
