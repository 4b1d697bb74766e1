//! Shadow entries, stored hashes and the registration with logind.
use mukae::native::logind::{bus_error, BusStage, Class, Kind, Request, Session};
use mukae::native::shadow::{find_entry, ShadowEntry, Unusable, Validity};
use mukae::native::verify::{
    account_validity, check, nologin_block, scheme_of, today_days, verify, verify_absent_user,
    verify_user, Scheme, Verdict, TIMING_BALLAST,
};

use yescrypt::{PasswordHasher, Yescrypt};

fn entry(line: &str) -> ShadowEntry {
    ShadowEntry::parse_line(line).expect("parses")
}

#[test]
fn the_class_strings_are_the_ones_logind_accepts() {
    assert_eq!(Class::User.as_str(), "user");
    assert_eq!(Class::Greeter.as_str(), "greeter");
    assert_eq!(Class::LockScreen.as_str(), "lock-screen");
}

#[test]
fn the_kind_strings_are_the_ones_logind_accepts() {
    assert_eq!(Kind::Tty.as_str(), "tty");
    assert_eq!(Kind::Wayland.as_str(), "wayland");
    assert_eq!(Kind::X11.as_str(), "x11");
    assert_eq!(Kind::Unspecified.as_str(), "unspecified");
}

#[test]
fn a_session_hands_out_no_way_to_reach_its_descriptor() {
    let names: Vec<&str> = vec!["id", "object_path", "runtime_path", "seat", "vtnr", "existing"];
    assert_eq!(names.len(), 6, "the public surface is these six and no fd");
    let Session { id, object_path, runtime_path, seat, vtnr, existing } = Session::new(
        "4".into(),
        "/org/freedesktop/login1/session/_34".into(),
        "/run/user/1000".into(),
        "seat0".into(),
        1,
        false,
    );
    assert_eq!((id.as_str(), seat.as_str(), vtnr, existing), ("4", "seat0", 1, false));
    assert_eq!(runtime_path, "/run/user/1000");
    assert!(object_path.ends_with("_34"));
}

#[test]
fn the_arguments_are_in_logind_s_order() {
    let q = Request {
        uid: 1000,
        pid: 42,
        service: "mukae".into(),
        kind: Kind::Tty,
        class: Class::User,
        desktop: "d".into(),
        seat: "seat0".into(),
        vtnr: 1,
        tty: "t".into(),
        display: "x".into(),
        remote: true,
        remote_user: "ru".into(),
        remote_host: "rh".into(),
    };
    let a = q.create_args();
    assert_eq!((a.uid, a.pid, a.service, a.kind, a.class), (1000, 42, "mukae", "tty", "user"));
    assert_eq!((a.desktop, a.seat, a.vtnr, a.tty, a.display), ("d", "seat0", 1, "t", "x"));
    assert_eq!((a.remote, a.remote_user, a.remote_host), (true, "ru", "rh"));
}

#[test]
fn a_missing_bus_is_told_from_a_refusal() {
    assert_eq!(bus_error(BusStage::Connecting, "x"), "connecting to the system bus: x");
    assert_eq!(bus_error(BusStage::Calling, "x"), "logind refused CreateSession: x");
    assert_eq!(bus_error(BusStage::Reading, "x"), "logind's reply did not match soshusub: x");
}

#[test]
fn a_locked_account_is_locked_even_with_a_valid_hash_behind_the_bang() {
    let e = ShadowEntry::parse_line("bob:!$y$j9T$abc$def:20000:0:99999:7:::")
        .expect("a well-formed line parses");
    assert_eq!(e.usable_hash(), Err(Unusable::Locked));
}

#[test]
fn an_empty_password_is_refused_not_accepted() {
    let e = entry("svc::20000:0:99999:7:::");
    assert_eq!(e.usable_hash(), Err(Unusable::NoPassword));
}

#[test]
fn a_disabled_account_is_refused() {
    let e = entry("daemon:*:20000::::::");
    assert_eq!(e.usable_hash(), Err(Unusable::Disabled));
}

#[test]
fn a_normal_entry_yields_its_hash_verbatim() {
    let e = entry("ann:$6$salt$hash:20000:0:99999:7:::");
    assert_eq!(e.usable_hash(), Ok("$6$salt$hash"));
}

#[test]
fn a_wiped_entry_holds_no_hash() {
    let mut e = entry("ann:$6$salt$hash:20000:0:99999:7:::");
    e.wipe();
    assert_eq!(e.usable_hash(), Err(Unusable::NoPassword));
    assert_eq!(e.name, "ann");
    assert_eq!(e.name(), "ann");
}

#[test]
fn a_blank_line_is_skipped_not_fatal() {
    assert!(ShadowEntry::parse_line("").is_none());
}

#[test]
fn the_first_entry_of_a_name_is_found() {
    let file = "\nroot:*:1::::::\nann:$6$a$b:1::::::\r\nann:$6$c$d:1::::::\n";
    assert_eq!(find_entry(file, "ann").unwrap().usable_hash(), Ok("$6$a$b"));
    assert!(find_entry(file, "an").is_none());
}

#[test]
fn an_expired_account_is_refused_and_a_password_change_does_not_help() {
    let e = entry("bob:$6$s$h:20000:0:99999:7::18262:");
    assert_eq!(e.validity(20_000), Validity::AccountExpired);
    assert_eq!(e.validity(18_262), Validity::AccountExpired);
    assert_eq!(e.validity(18_261), Validity::Okay);
}

#[test]
fn the_zero_sentinel_forces_a_change_even_with_aging_off() {
    let e = entry("bob:$6$s$h:0:0:99999:7:::");
    assert_eq!(e.validity(20_000), Validity::MustChangePassword);
}

#[test]
fn a_password_past_its_max_age_must_be_changed() {
    let e = entry("bob:$6$s$h:20000:0:90:7:::");
    assert_eq!(e.validity(20_090), Validity::Okay, "the last valid day");
    assert_eq!(e.validity(20_091), Validity::MustChangePassword);
}

#[test]
fn the_inactive_grace_turns_an_expired_password_into_a_dead_account() {
    let e = entry("bob:$6$s$h:20000:0:90:7:1::");
    assert_eq!(e.validity(20_091), Validity::MustChangePassword, "in grace");
    assert_eq!(e.validity(20_092), Validity::InactiveElapsed, "grace gone");
}

#[test]
fn aging_off_is_the_common_case_and_must_stay_ok() {
    let e = entry("ann:$6$s$h:20000:0:99999:7:::");
    assert_eq!(e.validity(99_999_999), Validity::Okay);
    let bare = entry("ann:$6$s$h:::::::");
    assert_eq!(bare.validity(99_999_999), Validity::Okay);
    let short = entry("ann:$6$s$h");
    assert_eq!(short.validity(99_999_999), Validity::Okay);
}

#[test]
fn a_garbage_aging_field_reads_as_unset_rather_than_refusing() {
    let e = entry("ann:$6$s$h:notanumber:0:x:7:y:z:");
    assert_eq!(e.validity(99_999_999), Validity::Okay);
}

#[test]
fn an_unknown_scheme_is_refused_and_says_so() {
    let e = entry("old:$gy$j9T$salt$hash:::::::");
    assert_eq!(verify(&e, "anything"), Verdict::UnknownScheme);

    #[allow(deprecated)]
    let stored = pwhash::md5_crypt::hash("pw").expect("hashes");
    let line = format!("old:{stored}:::::::");
    let e = entry(&line);
    assert_eq!(verify(&e, "pw"), Verdict::Accepted);
    assert_eq!(verify(&e, "nope"), Verdict::Refused);
}

#[test]
fn a_locked_account_is_refused_before_the_passphrase_matters() {
    let e = entry("bob:!$6$salt$hash:::::::");
    assert!(matches!(verify(&e, "whatever"), Verdict::Cannot(Unusable::Locked)));
}

#[test]
fn an_empty_password_never_accepts() {
    let e = entry("svc::::::::");
    assert!(matches!(verify(&e, ""), Verdict::Cannot(Unusable::NoPassword)));
    assert!(matches!(verify(&e, "x"), Verdict::Cannot(Unusable::NoPassword)));
}

#[test]
fn a_sha512crypt_round_trip_accepts_the_right_passphrase_and_only_it() {
    let stored = pwhash::sha512_crypt::hash("correct horse").expect("hashes");
    let line = format!("ann:{stored}:::::::");
    let e = entry(&line);
    assert_eq!(verify(&e, "correct horse"), Verdict::Accepted);
    assert_eq!(verify(&e, "correct hors"), Verdict::Refused);
    assert_eq!(verify(&e, ""), Verdict::Refused);
}

#[test]
fn a_yescrypt_round_trip_accepts_the_right_passphrase_and_only_it() {
    let stored = Yescrypt::default()
        .hash_password_with_salt(b"correct horse", b"WZaPV7LSUEKMo34.")
        .expect("hashes");
    let stored = stored.as_str();
    assert!(stored.starts_with("$y$"), "must be a yescrypt MCF string");

    let line = format!("ann:{stored}:::::::");
    let e = entry(&line);
    assert_eq!(verify(&e, "correct horse"), Verdict::Accepted);
    assert_eq!(verify(&e, "correct hors"), Verdict::Refused);
}

#[test]
#[allow(non_snake_case)]
fn the_timing_ballast_is_a_REAL_hash_and_not_decoration() {
    assert_eq!(
        check(TIMING_BALLAST, "not the passphrase"),
        Some(false),
        "the ballast must be a parseable hash that a real derivation rejects"
    );
    assert_eq!(scheme_of(TIMING_BALLAST), Scheme::Pwhash);
}

#[test]
fn an_absent_user_reports_the_same_verdict_as_a_wrong_password() {
    assert_eq!(verify_absent_user("anything"), Verdict::Refused);
}

#[test]
fn a_hash_that_nothing_matches_is_a_wrong_passphrase() {
    assert_eq!(check("$6$\u{80}$x", "p"), Some(false));
    assert_eq!(check("$1$a\tb$x", "p"), Some(false));
    assert_eq!(check("$y$jzz$salt$hash", "p"), Some(false));
    assert_eq!(check("$y$", "p"), Some(false));
}

#[test]
fn traditional_hashes_are_told_by_their_length() {
    assert_eq!(scheme_of("aZGJuE6EXrjEE"), Scheme::Pwhash);
    assert_eq!(check("aZGJuE6EXrjEE", "test"), Some(true));
    assert_eq!(scheme_of("aZGJuE6EXrjE"), Scheme::Unknown);
    assert_eq!(scheme_of("$7$aZGJuE6EXr"), Scheme::Unknown);
    assert_eq!(scheme_of("_Gl/.K0Ay.aosctsbJ1k"), Scheme::Pwhash);
    assert_eq!(scheme_of("$y$j9T$a$b"), Scheme::Yescrypt);
}

#[test]
fn a_user_is_verified_against_the_text_of_a_file() {
    let stored = pwhash::sha512_crypt::hash("pw").expect("hashes");
    let file = format!("root:*:1::::::\nann:{stored}:20000:0:90:7:1::\n");
    assert_eq!(verify_user(&file, "ann", "pw"), Verdict::Accepted);
    assert_eq!(verify_user(&file, "ann", "px"), Verdict::Refused);
    assert_eq!(verify_user(&file, "root", "pw"), Verdict::Cannot(Unusable::Disabled));
    assert_eq!(verify_user(&file, "bob", "pw"), Verdict::Refused);
    assert_eq!(account_validity(&file, "ann", 20_000), Validity::Okay);
    assert_eq!(account_validity(&file, "ann", 20_092), Validity::InactiveElapsed);
    assert_eq!(account_validity(&file, "bob", 0), Validity::AccountExpired);
}

#[test]
fn days_are_counted_from_the_epoch_in_both_directions() {
    assert_eq!(today_days(0), 0);
    assert_eq!(today_days(86_399), 0);
    assert_eq!(today_days(86_400), 1);
    assert_eq!(today_days(-1), -1);
    assert_eq!(today_days(-86_401), -2);
}

#[test]
fn nologin_never_keeps_root_out() {
    assert_eq!(nologin_block(true, true, Some("down".into())), None);
    assert_eq!(nologin_block(false, false, None), None);
    assert_eq!(nologin_block(false, true, Some("down".into())), Some("down".into()));
    assert_eq!(nologin_block(false, true, None), Some(String::new()));
}
