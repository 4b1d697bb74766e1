//! Starting a session, and what it is made of.
use vstd::prelude::*;
use crate::border::capability::{Authenticated, SeatCapability};
use crate::border::env::{
    lemma_moved_on, lemma_stood, moved, ChildPid, CredFlag, EnvPair, PamError, PamEvent, SeatEnv,
    SpawnError,
};
use crate::border::env_set::EnvSet;
use crate::border::ids::{PamHandleId, SeatId, Uid};
use crate::text;

verus! {

/// A session's command: a program and its arguments, each kept whole. Nothing
/// renders it as one string.
#[derive(Debug, PartialEq, Eq)]
pub struct Argv(Vec<String>);

impl Argv {
    #[verifier::type_invariant]
    spec fn well_formed(self) -> bool {
        self.0@.len() > 0
    }

    pub closed spec fn view(&self) -> Seq<String> {
        self.0@
    }

    /// Takes a command; an empty one has no program to run.
    pub fn new(parts: Vec<String>) -> (r: Result<Self, SessionError>)
        ensures
            r is Ok <==> parts@.len() > 0,
            r matches Ok(a) ==> a@ == parts@,
            r matches Err(e) ==> e is EmptyArgv,
    {
        if parts.len() == 0 {
            Err(SessionError::EmptyArgv)
        } else {
            Ok(Argv(parts))
        }
    }

    /// The program.
    pub fn program(&self) -> (s: &String)
        ensures
            self@.len() > 0,
            *s == self@[0],
    {
        proof {
            use_type_invariant(self);
        }
        &self.0[0]
    }

    /// The program and its arguments.
    pub fn as_slice(&self) -> (s: &[String])
        ensures
            s@ == self@,
            s@.len() > 0,
    {
        proof {
            use_type_invariant(self);
        }
        self.0.as_slice()
    }
}

impl Clone for Argv {
    fn clone(&self) -> (r: Self)
        ensures
            r@ == self@,
    {
        proof {
            use_type_invariant(self);
        }
        Argv(text::copy_strings(&self.0))
    }
}

/// What to run.
#[derive(Debug, PartialEq, Eq)]
pub struct SessionPlan {
    pub argv: Argv,
    /// Variables contributed on top of PAM's.
    pub env: EnvSet,
}

impl Clone for SessionPlan {
    fn clone(&self) -> (r: Self)
        ensures
            r.argv@ == self.argv@,
            r.env.entries() == self.env.entries(),
    {
        SessionPlan { argv: self.argv.clone(), env: self.env.clone() }
    }
}

/// A running session.
#[derive(Debug, PartialEq, Eq)]
pub struct SessionHandle {
    pub pid: ChildPid,
    pub uid: Uid,
    pub seat: SeatId,
    /// The environment that the session was started with.
    pub env: EnvSet,
}

/// Why a session did not start.
#[derive(Debug, Clone, PartialEq, Eq)]
pub enum SessionError {
    EmptyArgv,
    Pam(PamError),
    Spawn(SpawnError),
}

impl SessionError {
    pub open spec fn message_text(self) -> Seq<char> {
        match self {
            SessionError::EmptyArgv => "argv is empty; execve needs a program"@,
            SessionError::Pam(e) => "pam: "@ + e.message_text(),
            SessionError::Spawn(e) => "spawn: "@ + e.message_text(),
        }
    }

    /// The error in words.
    pub fn message(&self) -> (s: String)
        ensures
            s@ == self.message_text(),
    {
        match self {
            SessionError::EmptyArgv => "argv is empty; execve needs a program".to_owned(),
            SessionError::Pam(e) => {
                let mut s: String = "pam: ".to_owned();
                s.append(e.message().as_str());
                s
            },
            SessionError::Spawn(e) => {
                let mut s: String = "spawn: ".to_owned();
                s.append(e.message().as_str());
                s
            },
        }
    }
}

/// The error that the event carries, where the call failed.
pub open spec fn event_error(e: PamEvent) -> Option<SessionError> {
    match e {
        PamEvent::SetCred { r: Err(x), .. } => Some(SessionError::Pam(x)),
        PamEvent::PutEnv { r: Err(x), .. } => Some(SessionError::Pam(x)),
        PamEvent::OpenSession { r: Err(x), .. } => Some(SessionError::Pam(x)),
        PamEvent::GetEnvList { r: Err(x), .. } => Some(SessionError::Pam(x)),
        PamEvent::Fork { r: Err(x), .. } => Some(SessionError::Spawn(x)),
        _ => None,
    }
}

/// The environment that the event read, where it read one.
pub open spec fn event_env(e: PamEvent) -> EnvSet {
    match e {
        PamEvent::GetEnvList { r: Ok(env), .. } => env,
        _ => arbitrary(),
    }
}

/// Whether the call at position `i` of `ev` is the one that a session start
/// makes there: credentials first, then each variable of the plan in the order
/// of the names, then the session, then its environment, then the child, which
/// gets the environment that was read.
pub open spec fn is_planned(
    ev: Seq<PamEvent>,
    i: int,
    h: PamHandleId,
    plan: SessionPlan,
    to: Uid,
) -> bool {
    let n = plan.env.entries().len() as int;
    if i == 0 {
        ev[i] matches PamEvent::SetCred { h: g, f, .. } && g == h && f == CredFlag::Establish
    } else if i <= n {
        ev[i] matches PamEvent::PutEnv { h: g, kv, .. } && g == h
            && kv.key == plan.env.entries()[i - 1].0 && kv.value == plan.env.entries()[i - 1].1
    } else if i == n + 1 {
        ev[i] matches PamEvent::OpenSession { h: g, .. } && g == h
    } else if i == n + 2 {
        ev[i] matches PamEvent::GetEnvList { h: g, .. } && g == h
    } else {
        i == n + 3 && (ev[i] matches PamEvent::Fork { plan: p, env, to: u, .. } && p == plan && u == to
            && env == event_env(ev[n + 2]))
    }
}

/// What a session start does: `ev` are the calls it makes and `r` is what it
/// returns. It stops at the first call that fails and returns that failure;
/// where none fails it makes every call and returns the session.
pub open spec fn session_started(
    ev: Seq<PamEvent>,
    h: PamHandleId,
    plan: SessionPlan,
    to: Uid,
    seat: Seq<char>,
    r: Result<SessionHandle, SessionError>,
) -> bool {
    let n = plan.env.entries().len() as int;
    &&& 1 <= ev.len() <= n + 4
    &&& forall|i: int| #![trigger ev[i]] 0 <= i < ev.len() ==> is_planned(ev, i, h, plan, to)
    &&& forall|i: int| #![trigger ev[i]] 0 <= i < ev.len() - 1 ==> event_error(ev[i]) is None
    &&& match event_error(ev.last()) {
        Some(e) => r == Err::<SessionHandle, SessionError>(e),
        None => {
            &&& ev.len() == n + 4
            &&& r matches Ok(s)
            &&& s.uid == to
            &&& s.seat@ == seat
            &&& s.env == event_env(ev[n + 2])
            &&& ev.last() matches PamEvent::Fork { r: Ok(pid), .. }
            &&& s.pid == pid
        },
    }
}

/// Starts a session. The capability is consumed, whatever comes of it.
pub fn start_session<E: SeatEnv>(
    env: &mut E,
    cap: SeatCapability<Authenticated>,
    plan: SessionPlan,
) -> (r: Result<SessionHandle, SessionError>)
    ensures
        final(env).trace().len() > old(env).trace().len(),
        final(env).trace().take(old(env).trace().len() as int) == old(env).trace(),
        session_started(
            final(env).trace().skip(old(env).trace().len() as int),
            cap.handle(),
            plan,
            cap.who(),
            cap.on_seat(),
            r,
        ),
        moved(*old(env), *final(env)),
{
    let h: PamHandleId = cap.pam_handle();
    let ghost begun = *env;
    let ghost t0 = env.trace();
    let ghost at = t0.len() as int;
    let ghost n = plan.env.entries().len() as int;

    // Credentials first: they are what the session modules act with.
    let set: Result<(), PamError> = env.pam_setcred(h, CredFlag::Establish);
    proof {
        lemma_stood(begun);
        lemma_moved_on(begun, begun, env.trace().last(), *env);
        assert(env.trace().skip(at) =~= seq![env.trace().last()]);
        assert(env.trace().take(at) =~= t0);
    }
    if let Err(e) = set {
        return Err(SessionError::Pam(e));
    }
    // The variables, before the modules that read them run.

    let mut i: usize = 0;
    while i < plan.env.len()
        invariant
            i <= n,
            n == plan.env.entries().len(),
            h == cap.handle(),
            moved(begun, *env),
            begun == *old(env),
            t0 == old(env).trace(),
            at == t0.len(),
            env.trace().len() == at + 1 + i,
            env.trace().take(at) == t0,
            forall|j: int|
                #![trigger env.trace().skip(at)[j]]
                0 <= j < i + 1 ==> is_planned(env.trace().skip(at), j, h, plan, cap.who())
                    && event_error(env.trace().skip(at)[j]) is None,
        decreases n - i,
    {
        let ghost before = env.trace();
        let ghost mid = *env;
        let e: &(String, String) = plan.env.entry(i);
        let put: Result<(), PamError> = env.pam_putenv(
            h,
            EnvPair { key: e.0.clone(), value: e.1.clone() },
        );
        proof {
            lemma_moved_on(begun, mid, env.trace().last(), *env);
            assert(env.trace().skip(at) =~= before.skip(at).push(env.trace().last()));
            assert(env.trace().take(at) =~= t0);
            lemma_extended(before.skip(at), env.trace().last(), h, plan, cap.who());
        }
        if let Err(x) = put {
            return Err(SessionError::Pam(x));
        }
        i = i + 1;
    }

    let ghost before = env.trace();
    let ghost mid = *env;
    let open: Result<(), PamError> = env.pam_open_session(h);
    proof {
        lemma_moved_on(begun, mid, env.trace().last(), *env);
        assert(env.trace().skip(at) =~= before.skip(at).push(env.trace().last()));
        assert(env.trace().take(at) =~= t0);
        lemma_extended(before.skip(at), env.trace().last(), h, plan, cap.who());
    }
    if let Err(x) = open {
        return Err(SessionError::Pam(x));
    }
    // The environment, after the modules have contributed to it.

    let ghost before = env.trace();
    let ghost mid = *env;
    let got: Result<EnvSet, PamError> = env.pam_getenvlist(h);
    proof {
        lemma_moved_on(begun, mid, env.trace().last(), *env);
        assert(env.trace().skip(at) =~= before.skip(at).push(env.trace().last()));
        assert(env.trace().take(at) =~= t0);
        lemma_extended(before.skip(at), env.trace().last(), h, plan, cap.who());
    }
    let session_env: EnvSet = match got {
        Err(x) => {
            return Err(SessionError::Pam(x));
        },
        Ok(s) => s,
    };

    let ghost before = env.trace();
    let ghost mid = *env;
    let forked: Result<ChildPid, SpawnError> = env.fork_session(&plan, &session_env, cap.uid());
    proof {
        lemma_moved_on(begun, mid, env.trace().last(), *env);
        assert(env.trace().skip(at) =~= before.skip(at).push(env.trace().last()));
        assert(env.trace().take(at) =~= t0);
        lemma_extended(before.skip(at), env.trace().last(), h, plan, cap.who());
    }
    match forked {
        Err(x) => Err(SessionError::Spawn(x)),
        Ok(pid) => Ok(
            SessionHandle { pid, uid: cap.uid(), seat: cap.seat().clone(), env: session_env },
        ),
    }
}

proof fn lemma_extended(
    ev: Seq<PamEvent>,
    last: PamEvent,
    h: PamHandleId,
    plan: SessionPlan,
    to: Uid,
)
    requires
        forall|j: int| #![trigger ev[j]] 0 <= j < ev.len() ==> is_planned(ev, j, h, plan, to),
        is_planned(ev.push(last), ev.len() as int, h, plan, to),
    ensures
        forall|j: int|
            #![trigger ev.push(last)[j]]
            0 <= j < ev.len() + 1 ==> is_planned(ev.push(last), j, h, plan, to),
{
    let all = ev.push(last);
    assert forall|j: int| #![trigger all[j]] 0 <= j < all.len() implies is_planned(all, j, h, plan, to) by {
        if j < ev.len() {
            assert(ev[j] == all[j]);
            assert(is_planned(ev, j, h, plan, to));
        }
    }
}

/// The order of a session start: credentials and variables are in place before
/// the session opens, its environment is read after that, and the child comes last.
pub proof fn calls_are_in_order(
    ev: Seq<PamEvent>,
    h: PamHandleId,
    plan: SessionPlan,
    to: Uid,
    seat: Seq<char>,
    r: Result<SessionHandle, SessionError>,
    i: int,
    j: int,
)
    requires
        session_started(ev, h, plan, to, seat, r),
        0 <= i < ev.len(),
        0 <= j < ev.len(),
    ensures
        ev[i] is SetCred && ev[j] is OpenSession ==> i < j,
        ev[i] is PutEnv && ev[j] is OpenSession ==> i < j,
        ev[i] is OpenSession && ev[j] is GetEnvList ==> i < j,
        ev[i] is GetEnvList && ev[j] is Fork ==> i < j,
        ev[i] is Fork && ev[j] is Fork ==> i == j,
{
    assert(is_planned(ev, i, h, plan, to));
    assert(is_planned(ev, j, h, plan, to));
}

/// A session that started runs in the environment that was read after the
/// session opened, as the principal of the capability, and one child was forked for it.
pub proof fn child_inherits_what_was_read(
    ev: Seq<PamEvent>,
    h: PamHandleId,
    plan: SessionPlan,
    to: Uid,
    seat: Seq<char>,
    s: SessionHandle,
)
    requires
        session_started(ev, h, plan, to, seat, Ok(s)),
    ensures
        ev.len() >= 2,
        ev[ev.len() - 2] == (PamEvent::GetEnvList { h, r: Ok(s.env) }),
        ev.last() == (PamEvent::Fork { plan, env: s.env, to, r: Ok(s.pid) }),
        s.uid == to,
        s.seat@ == seat,
{
    let n = plan.env.entries().len() as int;
    assert(event_error(ev.last()) is None);
    assert(is_planned(ev, n + 3, h, plan, to));
    assert(is_planned(ev, n + 2, h, plan, to));
    assert(event_error(ev[n + 2]) is None);
}

/// A start that fails has forked no child that runs: either it made no fork
/// call, or the fork is the call that failed.
pub proof fn failed_start_leaves_no_child(
    ev: Seq<PamEvent>,
    h: PamHandleId,
    plan: SessionPlan,
    to: Uid,
    seat: Seq<char>,
    e: SessionError,
    i: int,
)
    requires
        session_started(ev, h, plan, to, seat, Err(e)),
        0 <= i < ev.len(),
    ensures
        ev[i] matches PamEvent::Fork { r, .. } ==> i == ev.len() - 1 && r is Err,
{
    assert(is_planned(ev, i, h, plan, to));
}

/// A start that succeeds has made these calls on the capability's handle, each
/// answered well: credentials are established, then every variable of the plan is
/// contributed with its value, each once, then the session is opened, then its
/// environment is read, and the plan's program is started in it as the principal.
pub proof fn a_start_makes_every_call(
    ev: Seq<PamEvent>,
    h: PamHandleId,
    plan: SessionPlan,
    to: Uid,
    seat: Seq<char>,
    s: SessionHandle,
    i: int,
)
    requires
        session_started(ev, h, plan, to, seat, Ok(s)),
    ensures
        ({
            let n = plan.env.entries().len() as int;
            &&& ev.len() == n + 4
            &&& ev[0] matches PamEvent::SetCred { h: g, f, r } && g == h && f == CredFlag::Establish
                && r is Ok
            &&& 0 <= i < n ==> (ev[i + 1] matches PamEvent::PutEnv { h: g, kv, r } && g == h && kv.key@
                == plan.env.entries()[i].0@ && kv.value@ == plan.env.entries()[i].1@ && r is Ok)
            &&& 0 <= i < ev.len() && ev[i] is PutEnv ==> 1 <= i <= n
            &&& ev[n + 1] matches PamEvent::OpenSession { h: g, r } && g == h && r is Ok
            &&& ev[n + 2] == (PamEvent::GetEnvList { h, r: Ok(s.env) })
            &&& ev[n + 3] == (PamEvent::Fork { plan, env: s.env, to, r: Ok(s.pid) })
        }),
{
    let n = plan.env.entries().len() as int;
    assert(event_error(ev.last()) is None);
    assert(is_planned(ev, 0, h, plan, to));
    assert(event_error(ev[0]) is None);
    assert(is_planned(ev, n + 1, h, plan, to));
    assert(event_error(ev[n + 1]) is None);
    child_inherits_what_was_read(ev, h, plan, to, seat, s);
    if 0 <= i < n {
        assert(is_planned(ev, i + 1, h, plan, to));
        assert(event_error(ev[i + 1]) is None);
    }
    if 0 <= i < ev.len() {
        assert(is_planned(ev, i, h, plan, to));
    }
}

/// A start that fails says which call failed and how: the last call it made is
/// the one, none before it failed, and none is made after it.
pub proof fn a_failed_start_names_its_failure(
    ev: Seq<PamEvent>,
    h: PamHandleId,
    plan: SessionPlan,
    to: Uid,
    seat: Seq<char>,
    e: SessionError,
    i: int,
)
    requires
        session_started(ev, h, plan, to, seat, Err(e)),
        0 <= i < ev.len(),
    ensures
        match ev.last() {
            PamEvent::SetCred { r, .. } => r matches Err(x) && e == SessionError::Pam(x),
            PamEvent::PutEnv { r, .. } => r matches Err(x) && e == SessionError::Pam(x),
            PamEvent::OpenSession { r, .. } => r matches Err(x) && e == SessionError::Pam(x),
            PamEvent::GetEnvList { r, .. } => r matches Err(x) && e == SessionError::Pam(x),
            PamEvent::Fork { r, .. } => r matches Err(x) && e == SessionError::Spawn(x),
            _ => false,
        },
        i < ev.len() - 1 ==> match ev[i] {
            PamEvent::SetCred { r, .. } => r is Ok,
            PamEvent::PutEnv { r, .. } => r is Ok,
            PamEvent::OpenSession { r, .. } => r is Ok,
            PamEvent::GetEnvList { r, .. } => r is Ok,
            _ => false,
        },
        i == 0 ==> ev[i] is SetCred,
        1 <= i <= plan.env.entries().len() ==> ev[i] is PutEnv,
        i == plan.env.entries().len() + 1 ==> ev[i] is OpenSession,
        i == plan.env.entries().len() + 2 ==> ev[i] is GetEnvList,
        i == plan.env.entries().len() + 3 ==> ev[i] is Fork,
        ev.len() <= plan.env.entries().len() + 4,
{
    assert(is_planned(ev, i, h, plan, to));
    assert(is_planned(ev, ev.len() - 1, h, plan, to));
    assert(event_error(ev.last()) is Some);
}

} // verus!
