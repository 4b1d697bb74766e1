//! The login surface as state: what a declaration asks for, what the world
//! says, and the gap between the two.
//!
//! Most of a login is no state that a loop may hold. Ending a session needs no
//! secret; starting one needs an authentication, which only a human supplies.
use vstd::prelude::*;
use crate::border::env::SeatEnv;
use crate::border::ids::{SeatId, Uid};
use crate::text;

verus! {

/// A state key of the login surface.
#[derive(Debug, Clone, Copy, PartialEq, Eq, Structural)]
pub enum Key {
    /// Whether a session is open on the seat.
    SessionOpen,
    /// Which principal owns the open session.
    SessionOwner,
    /// Whether the seat accepts logins at all.
    LoginsEnabled,
}

/// How far a loop may move a key.
#[derive(Debug, Clone, Copy, PartialEq, Eq, Structural)]
pub enum Drivable {
    /// Read it; never write it.
    ObserveOnly,
    /// It may be driven to `false` and never to `true`.
    CloseOnly,
    /// It may be driven either way.
    Both,
}

impl Drivable {
    pub open spec fn name_text(self) -> Seq<char> {
        match self {
            Drivable::ObserveOnly => "ObserveOnly"@,
            Drivable::CloseOnly => "CloseOnly"@,
            Drivable::Both => "Both"@,
        }
    }

    /// The reach by its name.
    pub fn name(self) -> (s: &'static str)
        ensures
            s@ == self.name_text(),
    {
        match self {
            Drivable::ObserveOnly => "ObserveOnly",
            Drivable::CloseOnly => "CloseOnly",
            Drivable::Both => "Both",
        }
    }
}

impl Key {
    pub open spec fn path_text(self) -> Seq<char> {
        match self {
            Key::SessionOpen => "login.session.open"@,
            Key::SessionOwner => "login.session.owner"@,
            Key::LoginsEnabled => "login.enabled"@,
        }
    }

    /// The dotted path that a declaration uses.
    pub fn path(self) -> (s: &'static str)
        ensures
            s@ == self.path_text(),
    {
        match self {
            Key::SessionOpen => "login.session.open",
            Key::SessionOwner => "login.session.owner",
            Key::LoginsEnabled => "login.enabled",
        }
    }

    /// Every key.
    pub fn all() -> (v: Vec<Key>)
        ensures
            v@ == seq![Key::SessionOpen, Key::SessionOwner, Key::LoginsEnabled],
            forall|k: Key| v@.contains(k),
    {
        let mut v: Vec<Key> = Vec::new();
        v.push(Key::SessionOpen);
        v.push(Key::SessionOwner);
        v.push(Key::LoginsEnabled);
        proof {
            assert forall|k: Key| v@.contains(k) by {
                match k {
                    Key::SessionOpen => assert(v@[0] == k),
                    Key::SessionOwner => assert(v@[1] == k),
                    Key::LoginsEnabled => assert(v@[2] == k),
                }
            }
        }
        v
    }

    pub open spec fn reach(self) -> Drivable {
        match self {
            Key::SessionOpen => Drivable::CloseOnly,
            Key::SessionOwner => Drivable::ObserveOnly,
            Key::LoginsEnabled => Drivable::Both,
        }
    }

    /// How far a loop may move the key.
    pub fn drivable(self) -> (d: Drivable)
        ensures
            d == self.reach(),
    {
        match self {
            Key::SessionOpen => Drivable::CloseOnly,
            Key::SessionOwner => Drivable::ObserveOnly,
            Key::LoginsEnabled => Drivable::Both,
        }
    }
}

/// What a declaration asks for; an absent key is asked nothing of.
#[derive(Debug, Clone, Copy, PartialEq, Eq)]
pub struct Desired {
    pub session_open: Option<bool>,
    pub session_owner: Option<Uid>,
    pub logins_enabled: Option<bool>,
}

impl Default for Desired {
    fn default() -> (r: Self)
        ensures
            r == (Desired { session_open: None, session_owner: None, logins_enabled: None }),
    {
        Desired { session_open: None, session_owner: None, logins_enabled: None }
    }
}

/// What the world says; an absent key is unknown.
#[derive(Debug, Clone, Copy, PartialEq, Eq)]
pub struct Observed {
    pub session_open: Option<bool>,
    pub session_owner: Option<Uid>,
    pub logins_enabled: Option<bool>,
}

impl Default for Observed {
    fn default() -> (r: Self)
        ensures
            r == (Observed { session_open: None, session_owner: None, logins_enabled: None }),
    {
        Observed { session_open: None, session_owner: None, logins_enabled: None }
    }
}

/// What can be done about a drift.
#[derive(Debug, Clone, Copy, PartialEq, Eq)]
pub enum Verdict {
    /// A loop may close it, by this action.
    Closeable { action: &'static str },
    /// The gap is real and a loop must not close it.
    NeedsHuman { because: &'static str },
    /// A loop cannot see the key.
    Blind { because: &'static str },
}

/// One difference between what is asked for and what is.
#[derive(Debug, Clone, PartialEq, Eq)]
pub struct Drift {
    pub key: Key,
    pub want: String,
    pub have: Option<String>,
    pub verdict: Verdict,
}

/// What a drift says.
pub struct DriftView {
    pub key: Key,
    pub want: Seq<char>,
    pub have: Option<Seq<char>>,
    pub verdict: Verdict,
}

impl Drift {
    pub open spec fn view(&self) -> DriftView {
        DriftView {
            key: self.key,
            want: self.want@,
            have: match self.have {
                Some(s) => Some(s@),
                None => None,
            },
            verdict: self.verdict,
        }
    }
}

/// The gap, with how many keys were looked at.
#[derive(Debug, Clone, PartialEq, Eq)]
pub struct Gap {
    pub drifts: Vec<Drift>,
    pub examined: usize,
}

impl Default for Gap {
    fn default() -> (r: Self)
        ensures
            r.drifts@.len() == 0,
            r.examined == 0,
    {
        Gap { drifts: Vec::new(), examined: 0 }
    }
}

/// The drifts of `ds` that a loop may close, in order.
pub open spec fn closeable(ds: Seq<Drift>) -> Seq<Drift> {
    ds.filter(|d: Drift| d.verdict is Closeable)
}

impl Gap {
    /// Converged: something was looked at, and nothing is left that a loop may close.
    pub fn is_converged(&self) -> (r: bool)
        ensures
            r == (self.examined > 0 && forall|i: int|
                0 <= i < self.drifts@.len() ==> !((#[trigger] self.drifts@[i]).verdict is Closeable)),
    {
        if self.examined == 0 {
            return false;
        }
        let mut i: usize = 0;
        while i < self.drifts.len()
            invariant
                i <= self.drifts@.len(),
                forall|j: int| 0 <= j < i ==> !((#[trigger] self.drifts@[j]).verdict is Closeable),
            decreases self.drifts.len() - i,
        {
            if matches!(self.drifts[i].verdict, Verdict::Closeable { .. }) {
                return false;
            }
            i = i + 1;
        }
        true
    }

    /// The drifts that a loop should act on, in order.
    pub fn actionable(&self) -> (v: Vec<&Drift>)
        ensures
            v@.map_values(|d: &Drift| *d) == closeable(self.drifts@),
    {
        let mut v: Vec<&Drift> = Vec::new();
        let mut i: usize = 0;
        proof {
            assert(self.drifts@.take(0) =~= Seq::<Drift>::empty());
            reveal(Seq::filter);
            assert(v@.map_values(|d: &Drift| *d) =~= closeable(self.drifts@.take(0)));
        }
        while i < self.drifts.len()
            invariant
                i <= self.drifts@.len(),
                v@.map_values(|d: &Drift| *d) == closeable(self.drifts@.take(i as int)),
            decreases self.drifts.len() - i,
        {
            proof {
                reveal(Seq::filter);
                assert(self.drifts@.take(i + 1).drop_last() =~= self.drifts@.take(i as int));
                assert(self.drifts@.take(i + 1).last() == self.drifts@[i as int]);
            }
            let ghost before = v@.map_values(|d: &Drift| *d);
            if matches!(self.drifts[i].verdict, Verdict::Closeable { .. }) {
                v.push(&self.drifts[i]);
                proof {
                    assert(v@.map_values(|d: &Drift| *d) =~= before.push(self.drifts@[i as int]));
                }
            }
            i = i + 1;
        }
        proof {
            assert(self.drifts@.take(i as int) =~= self.drifts@);
        }
        v
    }
}

/// A truth value in words.
pub open spec fn bool_text(b: bool) -> Seq<char> {
    if b {
        "true"@
    } else {
        "false"@
    }
}

fn bool_string(b: bool) -> (s: String)
    ensures
        s@ == bool_text(b),
{
    if b {
        "true".to_owned()
    } else {
        "false".to_owned()
    }
}

pub open spec fn opt_bool_text(b: Option<bool>) -> Option<Seq<char>> {
    match b {
        Some(x) => Some(bool_text(x)),
        None => None,
    }
}

pub open spec fn opt_uid_text(u: Option<Uid>) -> Option<Seq<char>> {
    match u {
        Some(x) => Some(text::decimal(x.0 as nat)),
        None => None,
    }
}

/// What is to be said of whether a session is open.
pub open spec fn open_drift(want: Option<bool>, have: Option<bool>) -> Seq<DriftView> {
    match want {
        Some(w) if have != Some(w) => seq![
            DriftView {
                key: Key::SessionOpen,
                want: bool_text(w),
                have: opt_bool_text(have),
                verdict: if w {
                    Verdict::NeedsHuman {
                        because: "opening a session requires an authentication; a loop has no way to obtain one",
                    }
                } else {
                    Verdict::Closeable { action: "login-close-session" }
                },
            },
        ],
        _ => Seq::empty(),
    }
}

/// What is to be said of who owns the session.
pub open spec fn owner_drift(want: Option<Uid>, have: Option<Uid>) -> Seq<DriftView> {
    match want {
        Some(w) if have != Some(w) => seq![
            DriftView {
                key: Key::SessionOwner,
                want: text::decimal(w.0 as nat),
                have: opt_uid_text(have),
                verdict: Verdict::NeedsHuman {
                    because: "who owns a session is decided by who authenticated",
                },
            },
        ],
        _ => Seq::empty(),
    }
}

/// What is to be said of whether logins are enabled.
pub open spec fn enabled_drift(want: Option<bool>, have: Option<bool>) -> Seq<DriftView> {
    match want {
        Some(w) if have != Some(w) => seq![
            DriftView {
                key: Key::LoginsEnabled,
                want: bool_text(w),
                have: opt_bool_text(have),
                verdict: Verdict::Closeable { action: "login-set-credentials" },
            },
        ],
        _ => Seq::empty(),
    }
}

/// The drifts between `want` and `have`, in the order of the keys.
pub open spec fn drifts_of(want: Desired, have: Observed) -> Seq<DriftView> {
    open_drift(want.session_open, have.session_open) + owner_drift(
        want.session_owner,
        have.session_owner,
    ) + enabled_drift(want.logins_enabled, have.logins_enabled)
}

/// How many keys a declaration asks something of.
pub open spec fn asked_keys(want: Desired) -> int {
    (if want.session_open is Some { 1int } else { 0 }) + (if want.session_owner is Some { 1int } else {
        0
    }) + (if want.logins_enabled is Some { 1int } else { 0 })
}

pub open spec fn drift_views(ds: Seq<Drift>) -> Seq<DriftView> {
    ds.map_values(|d: Drift| d@)
}

/// Computes the gap.
pub fn diff(want: &Desired, have: &Observed) -> (g: Gap)
    ensures
        drift_views(g.drifts@) == drifts_of(*want, *have),
        g.examined == asked_keys(*want),
{
    let mut drifts: Vec<Drift> = Vec::new();
    let mut examined: usize = 0;
    let ghost so_far = Seq::<DriftView>::empty();
    proof {
        assert(drift_views(drifts@) =~= so_far);
    }

    if let Some(w) = want.session_open {
        examined = examined + 1;
        let differs: bool = match have.session_open {
            Some(b) => b != w,
            None => true,
        };
        if differs {
            drifts.push(
                Drift {
                    key: Key::SessionOpen,
                    want: bool_string(w),
                    have: match have.session_open {
                        Some(b) => Some(bool_string(b)),
                        None => None,
                    },
                    verdict: if w {
                        Verdict::NeedsHuman {
                            because: "opening a session requires an authentication; a loop has no way to obtain one",
                        }
                    } else {
                        Verdict::Closeable { action: "login-close-session" }
                    },
                },
            );
        }
    }
    let ghost one = open_drift(want.session_open, have.session_open);
    proof {
        assert(drift_views(drifts@) =~= one);
    }

    if let Some(w) = want.session_owner {
        examined = examined + 1;
        let differs: bool = match have.session_owner {
            Some(u) => u != w,
            None => true,
        };
        if differs {
            let ghost before = drifts@;
            drifts.push(
                Drift {
                    key: Key::SessionOwner,
                    want: w.text(),
                    have: match have.session_owner {
                        Some(u) => Some(u.text()),
                        None => None,
                    },
                    verdict: Verdict::NeedsHuman {
                        because: "who owns a session is decided by who authenticated",
                    },
                },
            );
            proof {
                assert(drift_views(drifts@) =~= drift_views(before).push(drifts@.last()@));
            }
        }
    }
    let ghost two = one + owner_drift(want.session_owner, have.session_owner);
    proof {
        assert(drift_views(drifts@) =~= two);
    }

    if let Some(w) = want.logins_enabled {
        examined = examined + 1;
        let differs: bool = match have.logins_enabled {
            Some(b) => b != w,
            None => true,
        };
        if differs {
            let ghost before = drifts@;
            drifts.push(
                Drift {
                    key: Key::LoginsEnabled,
                    want: bool_string(w),
                    have: match have.logins_enabled {
                        Some(b) => Some(bool_string(b)),
                        None => None,
                    },
                    verdict: Verdict::Closeable { action: "login-set-credentials" },
                },
            );
            proof {
                assert(drift_views(drifts@) =~= drift_views(before).push(drifts@.last()@));
            }
        }
    }
    proof {
        assert(drift_views(drifts@) =~= drifts_of(*want, *have));
    }
    Gap { drifts, examined }
}

/// Reads the surface from an environment. The environment answers no question
/// about a seat's sessions, so every key is unknown and none is invented.
pub fn observe<E: SeatEnv>(env: &E, seat: &SeatId) -> (o: Observed)
    ensures
        o == (Observed { session_open: None, session_owner: None, logins_enabled: None }),
{
    Observed::default()
}

/// A loop may close a session and never open one: no drift towards an open
/// session is closeable, and none of who owns it is.
pub proof fn a_loop_never_opens_a_session(want: Desired, have: Observed, i: int)
    requires
        0 <= i < drifts_of(want, have).len(),
        drifts_of(want, have)[i].verdict is Closeable,
    ensures
        drifts_of(want, have)[i].key == Key::SessionOpen ==> want.session_open == Some(false),
        drifts_of(want, have)[i].key.reach() != Drivable::ObserveOnly,
{
}

/// A drift that waits for a human does not block convergence: where nothing but
/// an open session or its owner is missing, and something was asked for, the
/// state is converged.
pub proof fn waiting_for_a_human_is_converged(want: Desired, have: Observed, i: int)
    requires
        want.session_open != Some(false) || have.session_open == want.session_open,
        want.logins_enabled is None || have.logins_enabled == want.logins_enabled,
        0 <= i < drifts_of(want, have).len(),
    ensures
        !(drifts_of(want, have)[i].verdict is Closeable),
{
}

/// What is unknown is never said to be `false`: a drift has no `have` if and
/// only if the key was not observed.
pub proof fn unknown_is_not_false(want: Desired, have: Observed, i: int)
    requires
        0 <= i < drifts_of(want, have).len(),
    ensures
        ({
            let d = drifts_of(want, have)[i];
            d.have is None <==> match d.key {
                Key::SessionOpen => have.session_open is None,
                Key::SessionOwner => have.session_owner is None,
                Key::LoginsEnabled => have.logins_enabled is None,
            }
        }),
{
}

/// A state that is as declared has no drift.
pub proof fn a_matching_state_has_no_drift(want: Desired, have: Observed)
    requires
        want.session_open is None || want.session_open == have.session_open,
        want.session_owner is None || want.session_owner == have.session_owner,
        want.logins_enabled is None || want.logins_enabled == have.logins_enabled,
    ensures
        drifts_of(want, have).len() == 0,
{
}

/// The surface is less than a quarter of the catalog's rows.
pub proof fn the_surface_is_small()
    ensures
        seq![Key::SessionOpen, Key::SessionOwner, Key::LoginsEnabled].len() * 4
            < crate::border::coverage::rows().len(),
{
}

/// There is a drift of a key if and only if something is wanted of it that is not
/// so, or not known to be so, and one at most. It says what is wanted and what is
/// there, and what can be done: a session that is to be closed and a setting of
/// logins are a loop's to close, a session that is to be opened and its owner are
/// a human's.
pub proof fn a_drift_says_what_is_wanted_and_what_is_there(want: Desired, have: Observed, i: int, j: int)
    requires
        0 <= i < drifts_of(want, have).len(),
        0 <= j < drifts_of(want, have).len(),
    ensures
        ({
            let d = drifts_of(want, have)[i];
            match d.key {
                Key::SessionOpen => {
                    &&& want.session_open is Some && want.session_open != have.session_open
                    &&& d.want == (if want.session_open == Some(true) {
                        "true"@
                    } else {
                        "false"@
                    })
                    &&& d.have is Some <==> have.session_open is Some
                    &&& have.session_open == Some(true) ==> d.have == Some("true"@)
                    &&& have.session_open == Some(false) ==> d.have == Some("false"@)
                    &&& d.verdict is Closeable <==> want.session_open == Some(false)
                },
                Key::SessionOwner => {
                    &&& want.session_owner is Some && want.session_owner != have.session_owner
                    &&& text::u32_of(d.want) == Some((want.session_owner->0).0)
                    &&& d.have is Some <==> have.session_owner is Some
                    &&& have.session_owner is Some ==> text::u32_of(d.have->0) == Some(
                        (have.session_owner->0).0,
                    )
                    &&& d.verdict is NeedsHuman
                },
                Key::LoginsEnabled => {
                    &&& want.logins_enabled is Some && want.logins_enabled != have.logins_enabled
                    &&& d.want == (if want.logins_enabled == Some(true) {
                        "true"@
                    } else {
                        "false"@
                    })
                    &&& d.have is Some <==> have.logins_enabled is Some
                    &&& have.logins_enabled == Some(true) ==> d.have == Some("true"@)
                    &&& have.logins_enabled == Some(false) ==> d.have == Some("false"@)
                    &&& d.verdict is Closeable
                },
            }
        }),
        drifts_of(want, have)[i].key == drifts_of(want, have)[j].key ==> i == j,
{
    if want.session_owner is Some {
        text::a_written_number_reads_back((want.session_owner->0).0 as int);
    }
    if have.session_owner is Some {
        text::a_written_number_reads_back((have.session_owner->0).0 as int);
    }
}

/// What is wanted and is not so is never passed over: each key that differs has its
/// drift, and each key that is asked for is counted.
pub proof fn no_difference_is_passed_over(want: Desired, have: Observed)
    ensures
        want.session_open is Some && want.session_open != have.session_open ==> exists|i: int|
            0 <= i < drifts_of(want, have).len() && (#[trigger] drifts_of(want, have)[i]).key
                == Key::SessionOpen,
        want.session_owner is Some && want.session_owner != have.session_owner ==> exists|i: int|
            0 <= i < drifts_of(want, have).len() && (#[trigger] drifts_of(want, have)[i]).key
                == Key::SessionOwner,
        want.logins_enabled is Some && want.logins_enabled != have.logins_enabled ==> exists|i: int|
            0 <= i < drifts_of(want, have).len() && (#[trigger] drifts_of(want, have)[i]).key
                == Key::LoginsEnabled,
        asked_keys(want) == 0 <==> want.session_open is None && want.session_owner is None
            && want.logins_enabled is None,
        asked_keys(want) == 3 <==> want.session_open is Some && want.session_owner is Some
            && want.logins_enabled is Some,
        drifts_of(want, have).len() <= asked_keys(want),
{
    let d = drifts_of(want, have);
    let a = open_drift(want.session_open, have.session_open);
    let b = owner_drift(want.session_owner, have.session_owner);
    let c = enabled_drift(want.logins_enabled, have.logins_enabled);
    if a.len() > 0 {
        assert(d[0] == a[0]);
    }
    if b.len() > 0 {
        assert(d[a.len() as int] == b[0]);
    }
    if c.len() > 0 {
        assert(d[(a.len() + b.len()) as int] == c[0]);
    }
}

/// A loop closes a session by closing it and nothing else, and the drifts come in
/// the order of the keys: the session, its owner, then the logins.
pub proof fn a_loop_closes_by_the_action_of_the_key(want: Desired, have: Observed, i: int, j: int)
    requires
        0 <= i < drifts_of(want, have).len(),
        i < j < drifts_of(want, have).len(),
    ensures
        drifts_of(want, have)[i].verdict matches Verdict::Closeable { action } ==> {
            &&& drifts_of(want, have)[i].key == Key::SessionOpen ==> action@ == "login-close-session"@
            &&& drifts_of(want, have)[i].key == Key::LoginsEnabled ==> action@
                == "login-set-credentials"@
        },
        drifts_of(want, have)[i].key != Key::LoginsEnabled,
        drifts_of(want, have)[j].key != Key::SessionOpen,
{
}

/// How far a loop may move a key: it may close a session, may do nothing about who
/// owns it, and may set logins either way.
pub proof fn each_key_has_its_reach(k: Key)
    ensures
        k.reach() == Drivable::CloseOnly <==> k == Key::SessionOpen,
        k.reach() == Drivable::ObserveOnly <==> k == Key::SessionOwner,
        k.reach() == Drivable::Both <==> k == Key::LoginsEnabled,
        k == Key::SessionOpen ==> k.path_text() == "login.session.open"@,
        k == Key::SessionOwner ==> k.path_text() == "login.session.owner"@,
        k == Key::LoginsEnabled ==> k.path_text() == "login.enabled"@,
{
}

/// What a loop should act on is each drift that it may close, in order, and no
/// other: what there is of two rows is what there is of the first and then of the
/// second.
pub proof fn a_loop_acts_on_what_it_may_close(a: Seq<Drift>, b: Seq<Drift>, d: Drift)
    ensures
        d.verdict is Closeable ==> closeable(seq![d]) == seq![d],
        !(d.verdict is Closeable) ==> closeable(seq![d]) == Seq::<Drift>::empty(),
        closeable(a + b) == closeable(a) + closeable(b),
    decreases b.len(),
{
    reveal(Seq::filter);
    let p = |x: Drift| x.verdict is Closeable;
    assert(seq![d].drop_last() =~= Seq::<Drift>::empty());
    assert(Seq::<Drift>::empty().filter(p) =~= Seq::<Drift>::empty());
    assert(seq![d].last() == d);
    assert(Seq::<Drift>::empty().push(d) =~= seq![d]);
    if b.len() == 0 {
        assert(a + b =~= a);
        assert(closeable(a) + closeable(b) =~= closeable(a));
    } else {
        let init = b.drop_last();
        assert((a + b).drop_last() =~= a + init);
        assert((a + b).last() == b.last());
        a_loop_acts_on_what_it_may_close(a, init, d);
        assert(closeable(a + b) =~= closeable(a) + closeable(b));
    }
}

} // verus!
