//! What the daemon publishes: the flow of the login, its own facts, and the two
//! catalogs.
use vstd::prelude::*;
use crate::border::coverage::{coverage, row_texts, rows, Phase};
use crate::border::env::PamStep;
use crate::border::surface::Key;
use crate::introspect::{
    bumped, is_snapshot, observed, Drivable, FlowSnapshot, FlowState, LoginFlow,
};
use crate::text;

verus! {

/// The version that the daemon reports.
pub const VERSION: &'static str = "0.1.0";

/// What the daemon knows.
#[derive(Debug)]
pub struct Facts {
    pub greeter_pid: Option<i32>,
    pub greeter_user: Option<String>,
    pub vt: Option<u32>,
    pub seat: Option<String>,
    pub session_open: bool,
    pub session_owner: Option<String>,
    pub last_user: Option<String>,
    pub session_path: Option<String>,
}

/// What the facts say.
pub struct FactsView {
    pub greeter_pid: Option<i32>,
    pub greeter_user: Option<Seq<char>>,
    pub vt: Option<u32>,
    pub seat: Option<Seq<char>>,
    pub session_open: bool,
    pub session_owner: Option<Seq<char>>,
    pub last_user: Option<Seq<char>>,
    pub session_path: Option<Seq<char>>,
}

impl Facts {
    pub open spec fn view(&self) -> FactsView {
        FactsView {
            greeter_pid: self.greeter_pid,
            greeter_user: text::opt_text(self.greeter_user),
            vt: self.vt,
            seat: text::opt_text(self.seat),
            session_open: self.session_open,
            session_owner: text::opt_text(self.session_owner),
            last_user: text::opt_text(self.last_user),
            session_path: text::opt_text(self.session_path),
        }
    }
}

impl Clone for Facts {
    fn clone(&self) -> (r: Self)
        ensures
            r == *self,
    {
        Facts {
            greeter_pid: self.greeter_pid,
            greeter_user: text::copy_opt(&self.greeter_user),
            vt: self.vt,
            seat: text::copy_opt(&self.seat),
            session_open: self.session_open,
            session_owner: text::copy_opt(&self.session_owner),
            last_user: text::copy_opt(&self.last_user),
            session_path: text::copy_opt(&self.session_path),
        }
    }
}

/// The state that the daemon publishes from. Times are in seconds.
#[derive(Debug)]
pub struct DaemonState {
    flow: LoginFlow,
    facts: Facts,
    started: u64,
    greeter_spawns: u64,
}

/// What the state says.
pub struct DaemonView {
    pub flow: FlowState,
    pub facts: FactsView,
    pub started: u64,
    pub greeter_spawns: u64,
}

/// The facts of a daemon that has just started.
pub open spec fn no_facts() -> FactsView {
    FactsView {
        greeter_pid: None,
        greeter_user: None,
        vt: None,
        seat: None,
        session_open: false,
        session_owner: None,
        last_user: None,
        session_path: None,
    }
}

/// The whole of what is published.
#[derive(Debug)]
pub struct DaemonSnapshot {
    pub flow: FlowSnapshot,
    pub facts: Facts,
    pub greeter_spawns: u64,
    pub coverage: Vec<(&'static str, Phase)>,
    pub drift_keys: Vec<Key>,
    pub uptime_s: u64,
    pub version: &'static str,
}

/// How long the daemon has run at the time `now`.
pub open spec fn uptime(started: u64, now: u64) -> u64 {
    if now >= started {
        (now - started) as u64
    } else {
        0
    }
}

/// Whether `v` is the whole of what the state `s` publishes at the time `now`.
pub open spec fn is_whole(s: DaemonView, now: u64, v: DaemonSnapshot) -> bool {
    &&& is_snapshot(s.flow, v.flow)
    &&& v.facts@ == s.facts
    &&& v.greeter_spawns == s.greeter_spawns
    &&& row_texts(v.coverage@) == rows()
    &&& v.drift_keys@ == seq![Key::SessionOpen, Key::SessionOwner, Key::LoginsEnabled]
    &&& v.uptime_s == uptime(s.started, now)
    &&& v.version@ == VERSION@
}

/// The value of one leaf.
#[derive(Debug)]
pub enum DaemonLeaf {
    Flag(bool),
    Count(u64),
    Word(&'static str),
    MaybeInt(Option<i32>),
    MaybeNumber(Option<u32>),
    MaybeFlag(Option<bool>),
    MaybeWord(Option<&'static str>),
    MaybeText(Option<String>),
    Coverage(Vec<(&'static str, Phase)>),
    DriftKeys(Vec<Key>),
    Whole(DaemonSnapshot),
}

/// The leaves, by name.
pub open spec fn daemon_leaves() -> Seq<Seq<char>> {
    seq![
        "attempts"@,
        "coverage"@,
        "drift_keys"@,
        "echo"@,
        "failures"@,
        "greeter_pid"@,
        "greeter_spawns"@,
        "greeter_user"@,
        "last_user"@,
        "may_drive"@,
        "mode"@,
        "prompt"@,
        "seat"@,
        "session_open"@,
        "session_owner"@,
        "session_path"@,
        "step"@,
        "successes"@,
        "uptime_s"@,
        "version"@,
        "vt"@,
    ]
}

/// Whether `l` is the leaf `head` of the whole `v`.
pub open spec fn is_leaf(v: DaemonSnapshot, head: Seq<char>, l: DaemonLeaf) -> bool {
    if head == "attempts"@ {
        l == DaemonLeaf::Count(v.flow.attempts)
    } else if head == "coverage"@ {
        l == DaemonLeaf::Coverage(v.coverage)
    } else if head == "drift_keys"@ {
        l == DaemonLeaf::DriftKeys(v.drift_keys)
    } else if head == "echo"@ {
        l == DaemonLeaf::MaybeFlag(v.flow.echo)
    } else if head == "failures"@ {
        l == DaemonLeaf::Count(v.flow.failures)
    } else if head == "greeter_pid"@ {
        l == DaemonLeaf::MaybeInt(v.facts.greeter_pid)
    } else if head == "greeter_spawns"@ {
        l == DaemonLeaf::Count(v.greeter_spawns)
    } else if head == "greeter_user"@ {
        l == DaemonLeaf::MaybeText(v.facts.greeter_user)
    } else if head == "last_user"@ {
        l == DaemonLeaf::MaybeText(v.facts.last_user)
    } else if head == "may_drive"@ {
        l == DaemonLeaf::Flag(v.flow.may_drive)
    } else if head == "mode"@ {
        l == DaemonLeaf::Word(v.flow.mode)
    } else if head == "prompt"@ {
        l == DaemonLeaf::MaybeText(v.flow.prompt)
    } else if head == "seat"@ {
        l == DaemonLeaf::MaybeText(v.facts.seat)
    } else if head == "session_open"@ {
        l == DaemonLeaf::Flag(v.facts.session_open)
    } else if head == "session_owner"@ {
        l == DaemonLeaf::MaybeText(v.facts.session_owner)
    } else if head == "session_path"@ {
        l == DaemonLeaf::MaybeText(v.facts.session_path)
    } else if head == "step"@ {
        l == DaemonLeaf::MaybeWord(v.flow.step_kind)
    } else if head == "successes"@ {
        l == DaemonLeaf::Count(v.flow.successes)
    } else if head == "uptime_s"@ {
        l == DaemonLeaf::Count(v.uptime_s)
    } else if head == "version"@ {
        l == DaemonLeaf::Word(v.version)
    } else if head == "vt"@ {
        l == DaemonLeaf::MaybeNumber(v.facts.vt)
    } else {
        l == DaemonLeaf::Whole(v)
    }
}

/// The names of the leaves.
pub fn leaves() -> (v: Vec<&'static str>)
    ensures
        v@.map_values(|s: &'static str| s@) == daemon_leaves(),
{
    let mut v: Vec<&'static str> = Vec::new();
    v.push("attempts");
    v.push("coverage");
    v.push("drift_keys");
    v.push("echo");
    v.push("failures");
    v.push("greeter_pid");
    v.push("greeter_spawns");
    v.push("greeter_user");
    v.push("last_user");
    v.push("may_drive");
    v.push("mode");
    v.push("prompt");
    v.push("seat");
    v.push("session_open");
    v.push("session_owner");
    v.push("session_path");
    v.push("step");
    v.push("successes");
    v.push("uptime_s");
    v.push("version");
    v.push("vt");
    assert(v@.map_values(|s: &'static str| s@) =~= daemon_leaves());
    v
}

/// Picks the leaf `head` out of the whole; the empty name picks the whole.
pub fn pick_leaf(v: DaemonSnapshot, head: &str) -> (r: Result<DaemonLeaf, String>)
    ensures
        r is Ok <==> head@ == ""@ || daemon_leaves().contains(head@),
        r matches Ok(l) ==> is_leaf(v, head@, l),
        r matches Err(name) ==> name@ == head@,
{
    proof {
        lemma_leaf_names();
    }
    if text::same(head, "attempts") {
        Ok(DaemonLeaf::Count(v.flow.attempts))
    } else if text::same(head, "coverage") {
        Ok(DaemonLeaf::Coverage(v.coverage))
    } else if text::same(head, "drift_keys") {
        Ok(DaemonLeaf::DriftKeys(v.drift_keys))
    } else if text::same(head, "echo") {
        Ok(DaemonLeaf::MaybeFlag(v.flow.echo))
    } else if text::same(head, "failures") {
        Ok(DaemonLeaf::Count(v.flow.failures))
    } else if text::same(head, "greeter_pid") {
        Ok(DaemonLeaf::MaybeInt(v.facts.greeter_pid))
    } else if text::same(head, "greeter_spawns") {
        Ok(DaemonLeaf::Count(v.greeter_spawns))
    } else if text::same(head, "greeter_user") {
        Ok(DaemonLeaf::MaybeText(v.facts.greeter_user))
    } else if text::same(head, "last_user") {
        Ok(DaemonLeaf::MaybeText(v.facts.last_user))
    } else if text::same(head, "may_drive") {
        Ok(DaemonLeaf::Flag(v.flow.may_drive))
    } else if text::same(head, "mode") {
        Ok(DaemonLeaf::Word(v.flow.mode))
    } else if text::same(head, "prompt") {
        Ok(DaemonLeaf::MaybeText(v.flow.prompt))
    } else if text::same(head, "seat") {
        Ok(DaemonLeaf::MaybeText(v.facts.seat))
    } else if text::same(head, "session_open") {
        Ok(DaemonLeaf::Flag(v.facts.session_open))
    } else if text::same(head, "session_owner") {
        Ok(DaemonLeaf::MaybeText(v.facts.session_owner))
    } else if text::same(head, "session_path") {
        Ok(DaemonLeaf::MaybeText(v.facts.session_path))
    } else if text::same(head, "step") {
        Ok(DaemonLeaf::MaybeWord(v.flow.step_kind))
    } else if text::same(head, "successes") {
        Ok(DaemonLeaf::Count(v.flow.successes))
    } else if text::same(head, "uptime_s") {
        Ok(DaemonLeaf::Count(v.uptime_s))
    } else if text::same(head, "version") {
        Ok(DaemonLeaf::Word(v.version))
    } else if text::same(head, "vt") {
        Ok(DaemonLeaf::MaybeNumber(v.facts.vt))
    } else if text::same(head, "") {
        Ok(DaemonLeaf::Whole(v))
    } else {
        Err(head.to_owned())
    }
}

impl DaemonState {
    #[verifier::type_invariant]
    spec fn only_watched(self) -> bool {
        self.flow@.mode == Drivable::Observable
    }

    pub closed spec fn view(&self) -> DaemonView {
        DaemonView {
            flow: self.flow@,
            facts: self.facts@,
            started: self.started,
            greeter_spawns: self.greeter_spawns,
        }
    }

    /// The state of a daemon on a real seat, started at the time `now`.
    pub fn new(now: u64) -> (s: Self)
        ensures
            s@ == (DaemonView {
                flow: FlowState {
                    mode: Drivable::Observable,
                    attempts: 0,
                    failures: 0,
                    successes: 0,
                    current: None,
                },
                facts: no_facts(),
                started: now,
                greeter_spawns: 0,
            }),
    {
        DaemonState {
            flow: LoginFlow::new(Drivable::Observable),
            facts: Facts {
                greeter_pid: None,
                greeter_user: None,
                vt: None,
                seat: None,
                session_open: false,
                session_owner: None,
                last_user: None,
                session_path: None,
            },
            started: now,
            greeter_spawns: 0,
        }
    }

    /// The flow of the login, which on a real seat is never drivable.
    pub fn flow(&self) -> (f: &LoginFlow)
        ensures
            f@ == self@.flow,
            f@.mode == Drivable::Observable,
    {
        proof {
            use_type_invariant(self);
        }
        &self.flow
    }

    /// Records that a login began.
    pub fn began(&mut self)
        ensures
            final(self)@ == (DaemonView {
                flow: FlowState { attempts: bumped(old(self)@.flow.attempts), ..old(self)@.flow },
                ..old(self)@
            }),
    {
        proof {
            use_type_invariant(&*self);
        }
        let mut flow: LoginFlow = LoginFlow::new(Drivable::Observable);
        std::mem::swap(&mut flow, &mut self.flow);
        flow.began();
        self.flow = flow;
    }

    /// Records a step of the login.
    pub fn observe(&mut self, step: &PamStep)
        ensures
            final(self)@ == (DaemonView { flow: observed(old(self)@.flow, *step), ..old(self)@ }),
    {
        proof {
            use_type_invariant(&*self);
        }
        let mut flow: LoginFlow = LoginFlow::new(Drivable::Observable);
        std::mem::swap(&mut flow, &mut self.flow);
        flow.observe(step);
        self.flow = flow;
    }

    /// Records a greeter that was spawned.
    pub fn greeter_spawned(&mut self, pid: i32, user: &str)
        ensures
            final(self)@ == (DaemonView {
                greeter_spawns: bumped(old(self)@.greeter_spawns),
                facts: FactsView {
                    greeter_pid: Some(pid),
                    greeter_user: Some(user@),
                    ..old(self)@.facts
                },
                ..old(self)@
            }),
    {
        proof {
            use_type_invariant(&*self);
        }
        self.greeter_spawns = self.greeter_spawns.wrapping_add(1);
        self.facts.greeter_pid = Some(pid);
        self.facts.greeter_user = Some(user.to_owned());
    }

    /// Records the console that was claimed.
    pub fn console_claimed(&mut self, seat: &str, vt: Option<u32>)
        ensures
            final(self)@ == (DaemonView {
                facts: FactsView { seat: Some(seat@), vt, ..old(self)@.facts },
                ..old(self)@
            }),
    {
        proof {
            use_type_invariant(&*self);
        }
        self.facts.seat = Some(seat.to_owned());
        self.facts.vt = vt;
    }

    /// Records the session's `PATH`.
    pub fn session_path_resolved(&mut self, session_path: &str)
        ensures
            final(self)@ == (DaemonView {
                facts: FactsView { session_path: Some(session_path@), ..old(self)@.facts },
                ..old(self)@
            }),
    {
        proof {
            use_type_invariant(&*self);
        }
        self.facts.session_path = Some(session_path.to_owned());
    }

    /// Records who authenticated.
    pub fn authenticated(&mut self, user: &str)
        ensures
            final(self)@ == (DaemonView {
                facts: FactsView { last_user: Some(user@), ..old(self)@.facts },
                ..old(self)@
            }),
    {
        proof {
            use_type_invariant(&*self);
        }
        self.facts.last_user = Some(user.to_owned());
    }

    /// Records that a session is up.
    pub fn session_started(&mut self, user: &str)
        ensures
            final(self)@ == (DaemonView {
                facts: FactsView {
                    session_owner: Some(user@),
                    session_open: true,
                    ..old(self)@.facts
                },
                ..old(self)@
            }),
    {
        proof {
            use_type_invariant(&*self);
        }
        self.facts.session_owner = Some(user.to_owned());
        self.facts.session_open = true;
    }

    /// Records that the session ended. Who authenticated last stays.
    pub fn session_ended(&mut self)
        ensures
            final(self)@ == (DaemonView {
                facts: FactsView { session_owner: None, session_open: false, ..old(self)@.facts },
                ..old(self)@
            }),
    {
        proof {
            use_type_invariant(&*self);
        }
        self.facts.session_owner = None;
        self.facts.session_open = false;
    }

    /// The whole of what is published at the time `now`.
    pub fn snapshot(&self, now: u64) -> (v: DaemonSnapshot)
        ensures
            is_whole(self@, now, v),
            !v.flow.may_drive,
    {
        proof {
            use_type_invariant(self);
        }
        DaemonSnapshot {
            flow: self.flow.snapshot(),
            facts: self.facts.clone(),
            greeter_spawns: self.greeter_spawns,
            coverage: coverage(),
            drift_keys: Key::all(),
            uptime_s: if now >= self.started {
                now - self.started
            } else {
                0
            },
            version: VERSION,
        }
    }

    /// Answers a query at the time `now`: a leaf by its name, everything for the
    /// empty path, and the name itself as the error where no leaf has it.
    pub fn query(&self, path: &Vec<String>, now: u64) -> (r: Result<DaemonLeaf, String>)
        ensures
            ({
                let head = crate::introspect::head_of(path@);
                &&& r is Ok <==> head == ""@ || daemon_leaves().contains(head)
                &&& r matches Ok(l) ==> exists|v: DaemonSnapshot| #[trigger]
                    is_whole(self@, now, v) && is_leaf(v, head, l) && !v.flow.may_drive
                &&& r matches Err(name) ==> name@ == head
            }),
    {
        let v: DaemonSnapshot = self.snapshot(now);
        if path.len() == 0 {
            proof {
                reveal_strlit("");
                assert(""@ =~= Seq::<char>::empty());
            }
            pick_leaf(v, "")
        } else {
            pick_leaf(v, path[0].as_str())
        }
    }
}

proof fn lemma_leaf_names()
    ensures
        !daemon_leaves().contains(""@),
        forall|i: int| 0 <= i < 21 ==> daemon_leaves().contains(#[trigger] daemon_leaves()[i]),
        daemon_leaves()[0] == "attempts"@,
        daemon_leaves()[1] == "coverage"@,
        daemon_leaves()[2] == "drift_keys"@,
        daemon_leaves()[3] == "echo"@,
        daemon_leaves()[4] == "failures"@,
        daemon_leaves()[5] == "greeter_pid"@,
        daemon_leaves()[6] == "greeter_spawns"@,
        daemon_leaves()[7] == "greeter_user"@,
        daemon_leaves()[8] == "last_user"@,
        daemon_leaves()[9] == "may_drive"@,
        daemon_leaves()[10] == "mode"@,
        daemon_leaves()[11] == "prompt"@,
        daemon_leaves()[12] == "seat"@,
        daemon_leaves()[13] == "session_open"@,
        daemon_leaves()[14] == "session_owner"@,
        daemon_leaves()[15] == "session_path"@,
        daemon_leaves()[16] == "step"@,
        daemon_leaves()[17] == "successes"@,
        daemon_leaves()[18] == "uptime_s"@,
        daemon_leaves()[19] == "version"@,
        daemon_leaves()[20] == "vt"@,
{
    reveal_strlit("");
    reveal_leaf_names();
    assert forall|i: int| 0 <= i < daemon_leaves().len() implies daemon_leaves()[i].len() > 0 by {}
}

proof fn reveal_leaf_names()
    ensures
        forall|i: int|
            0 <= i < 21 ==> (#[trigger] daemon_leaves()[i]).len() > 0 && daemon_leaves()[i] != "class"@
                && daemon_leaves()[i] != "pam_class"@ && daemon_leaves()[i] != "failure_class"@,
{
    reveal_strlit("class");
    reveal_strlit("pam_class");
    reveal_strlit("failure_class");
    reveal_strlit("attempts");
    reveal_strlit("coverage");
    reveal_strlit("drift_keys");
    reveal_strlit("echo");
    reveal_strlit("failures");
    reveal_strlit("greeter_pid");
    reveal_strlit("greeter_spawns");
    reveal_strlit("greeter_user");
    reveal_strlit("last_user");
    reveal_strlit("may_drive");
    reveal_strlit("mode");
    reveal_strlit("prompt");
    reveal_strlit("seat");
    reveal_strlit("session_open");
    reveal_strlit("session_owner");
    reveal_strlit("session_path");
    reveal_strlit("step");
    reveal_strlit("successes");
    reveal_strlit("uptime_s");
    reveal_strlit("version");
    reveal_strlit("vt");
    assert("pam_class"@[0] == 'p');
    assert("failure_class"@[0] == 'f');
    assert forall|i: int| 0 <= i < 21 implies (#[trigger] daemon_leaves()[i]).len() > 0
        && daemon_leaves()[i] != "class"@ && daemon_leaves()[i] != "pam_class"@ && daemon_leaves()[i]
        != "failure_class"@ by {
        let l = daemon_leaves()[i];
        assert(l.len() != 5);
        assert(l.len() == 9 ==> l[0] != 'p');
        assert(l.len() == 13 ==> l[0] != 'f');
    }
}

/// Which kind of failure it was is no leaf.
pub proof fn no_leaf_names_a_failure_class()
    ensures
        !daemon_leaves().contains("class"@),
        !daemon_leaves().contains("pam_class"@),
        !daemon_leaves().contains("failure_class"@),
{
    reveal_leaf_names();
}

/// A daemon on a real seat is never drivable: in a flow that is only watched,
/// as the flow of every daemon is, nothing that is recorded changes that, and
/// what is published of it says so.
pub proof fn a_real_seat_is_never_drivable(s: FlowState, step: PamStep, v: FlowSnapshot)
    requires
        s.mode == Drivable::Observable,
    ensures
        observed(s, step).mode == Drivable::Observable,
        (FlowState { attempts: bumped(s.attempts), ..s }).mode == Drivable::Observable,
        is_snapshot(s, v) ==> !v.may_drive,
{
}

/// Who authenticated last is known after the session has ended.
pub proof fn the_last_user_survives_the_session(f: FactsView, user: Seq<char>)
    ensures
        ({
            let g = FactsView { last_user: Some(user), ..f };
            let up = FactsView { session_owner: Some(user), session_open: true, ..g };
            let ended = FactsView { session_owner: None, session_open: false, ..up };
            ended.last_user == Some(user) && ended.session_owner is None && !ended.session_open
        }),
{
}

/// The whole says what is so: every fact, the counts of the flow, and how long the
/// daemon has run.
pub proof fn the_whole_says_what_is_so(s: DaemonView, now: u64, v: DaemonSnapshot)
    requires
        is_whole(s, now, v),
    ensures
        v.facts.greeter_pid == s.facts.greeter_pid,
        text::opt_text(v.facts.greeter_user) == s.facts.greeter_user,
        v.facts.vt == s.facts.vt,
        text::opt_text(v.facts.seat) == s.facts.seat,
        v.facts.session_open == s.facts.session_open,
        text::opt_text(v.facts.session_owner) == s.facts.session_owner,
        text::opt_text(v.facts.last_user) == s.facts.last_user,
        text::opt_text(v.facts.session_path) == s.facts.session_path,
        v.greeter_spawns == s.greeter_spawns,
        v.flow.attempts == s.flow.attempts,
        v.flow.failures == s.flow.failures,
        v.flow.successes == s.flow.successes,
        v.flow.may_drive <==> s.flow.mode is MockOnly,
        now >= s.started ==> v.uptime_s + s.started == now,
        now < s.started ==> v.uptime_s == 0,
        v.drift_keys@.len() == 3,
        v.coverage@.len() == rows().len(),
        v.version@ == "0.1.0"@,
{
    assert(v.facts@ == s.facts);
    assert(row_texts(v.coverage@).len() == v.coverage@.len());
}

/// Each leaf says what it is named after, and none says what another is named
/// after.
pub proof fn each_leaf_says_its_own(v: DaemonSnapshot, l: DaemonLeaf)
    ensures
        is_leaf(v, "attempts"@, l) ==> l == DaemonLeaf::Count(v.flow.attempts),
        is_leaf(v, "coverage"@, l) ==> l == DaemonLeaf::Coverage(v.coverage),
        is_leaf(v, "drift_keys"@, l) ==> l == DaemonLeaf::DriftKeys(v.drift_keys),
        is_leaf(v, "echo"@, l) ==> l == DaemonLeaf::MaybeFlag(v.flow.echo),
        is_leaf(v, "failures"@, l) ==> l == DaemonLeaf::Count(v.flow.failures),
        is_leaf(v, "greeter_pid"@, l) ==> l == DaemonLeaf::MaybeInt(v.facts.greeter_pid),
        is_leaf(v, "greeter_spawns"@, l) ==> l == DaemonLeaf::Count(v.greeter_spawns),
        is_leaf(v, "greeter_user"@, l) ==> l == DaemonLeaf::MaybeText(v.facts.greeter_user),
        is_leaf(v, "last_user"@, l) ==> l == DaemonLeaf::MaybeText(v.facts.last_user),
        is_leaf(v, "may_drive"@, l) ==> l == DaemonLeaf::Flag(v.flow.may_drive),
        is_leaf(v, "mode"@, l) ==> l == DaemonLeaf::Word(v.flow.mode),
        is_leaf(v, "prompt"@, l) ==> l == DaemonLeaf::MaybeText(v.flow.prompt),
        is_leaf(v, "seat"@, l) ==> l == DaemonLeaf::MaybeText(v.facts.seat),
        is_leaf(v, "session_open"@, l) ==> l == DaemonLeaf::Flag(v.facts.session_open),
        is_leaf(v, "session_owner"@, l) ==> l == DaemonLeaf::MaybeText(v.facts.session_owner),
        is_leaf(v, "session_path"@, l) ==> l == DaemonLeaf::MaybeText(v.facts.session_path),
        is_leaf(v, "step"@, l) ==> l == DaemonLeaf::MaybeWord(v.flow.step_kind),
        is_leaf(v, "successes"@, l) ==> l == DaemonLeaf::Count(v.flow.successes),
        is_leaf(v, "uptime_s"@, l) ==> l == DaemonLeaf::Count(v.uptime_s),
        is_leaf(v, "version"@, l) ==> l == DaemonLeaf::Word(v.version),
        is_leaf(v, "vt"@, l) ==> l == DaemonLeaf::MaybeNumber(v.facts.vt),
        is_leaf(v, ""@, l) ==> l == DaemonLeaf::Whole(v),
{
    lemma_names_differ();
}

/// The lengths of the names, and the characters by which names of one length differ.
proof fn lemma_names_differ()
    ensures
        ""@.len() == 0,
        "attempts"@.len() == 8,
        "coverage"@.len() == 8,
        "drift_keys"@.len() == 10,
        "echo"@.len() == 4,
        "failures"@.len() == 8,
        "greeter_pid"@.len() == 11,
        "greeter_spawns"@.len() == 14,
        "greeter_user"@.len() == 12,
        "last_user"@.len() == 9,
        "may_drive"@.len() == 9,
        "mode"@.len() == 4,
        "prompt"@.len() == 6,
        "seat"@.len() == 4,
        "session_open"@.len() == 12,
        "session_owner"@.len() == 13,
        "session_path"@.len() == 12,
        "step"@.len() == 4,
        "successes"@.len() == 9,
        "uptime_s"@.len() == 8,
        "version"@.len() == 7,
        "vt"@.len() == 2,
        "attempts"@[0] == 'a',
        "coverage"@[0] == 'c',
        "failures"@[0] == 'f',
        "uptime_s"@[0] == 'u',
        "echo"@[0] == 'e',
        "mode"@[0] == 'm',
        "seat"@[0] == 's',
        "step"@[0] == 's',
        "seat"@[1] == 'e',
        "step"@[1] == 't',
        "last_user"@[0] == 'l',
        "may_drive"@[0] == 'm',
        "successes"@[0] == 's',
        "greeter_user"@[0] == 'g',
        "session_open"@[0] == 's',
        "session_path"@[0] == 's',
        "session_open"@[8] == 'o',
        "session_path"@[8] == 'p',
{
    reveal_strlit("");
    reveal_strlit("attempts");
    reveal_strlit("coverage");
    reveal_strlit("drift_keys");
    reveal_strlit("echo");
    reveal_strlit("failures");
    reveal_strlit("greeter_pid");
    reveal_strlit("greeter_spawns");
    reveal_strlit("greeter_user");
    reveal_strlit("last_user");
    reveal_strlit("may_drive");
    reveal_strlit("mode");
    reveal_strlit("prompt");
    reveal_strlit("seat");
    reveal_strlit("session_open");
    reveal_strlit("session_owner");
    reveal_strlit("session_path");
    reveal_strlit("step");
    reveal_strlit("successes");
    reveal_strlit("uptime_s");
    reveal_strlit("version");
    reveal_strlit("vt");
}

} // verus!
