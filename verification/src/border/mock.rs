//! An environment without a machine: a scripted transaction, a record of the
//! calls in their order, a failure where one is asked for, and a clock that
//! stands still.
use std::collections::BTreeMap;
use vstd::prelude::*;
use crate::border::capability::{AuthMethod, AuthProof, KeyringUnlock, Passphrase};
use crate::border::conversation::{asking, conversed, too_long, Asked, Outcome, Said};
use crate::border::env::{
    lemma_went_split, went, AcctVerdict, Answer, ChildPid, CredFlag, EnvPair, Instant, MsgStyle, PamAnswer, PamClass, PamError,
    PamEvent, PamStep, PromptText, PublicProfile, SeatEnv, SpawnError,
};
use crate::border::env_set::EnvSet;
use crate::border::ids::{PamHandleId, ServiceName, Uid, UserName};
use crate::border::session::SessionPlan;
use crate::text;

verus! {

broadcast use {vstd::std_specs::btree::group_btree_axioms, vstd::laws_cmp::group_laws_cmp};

/// A call that the mock saw.
#[derive(Debug, Clone, PartialEq, Eq)]
pub enum Call {
    Start(String),
    Next,
    Answer { secret: bool },
    AcctMgmt,
    ChAuthTok,
    SetCred(CredFlag),
    PutEnv(String),
    OpenSession,
    GetEnvList,
    CloseSession,
    End,
    Fork,
    MintProof,
}

/// What a call says.
pub enum CallView {
    Start(Seq<char>),
    Next,
    Answer { secret: bool },
    AcctMgmt,
    ChAuthTok,
    SetCred(CredFlag),
    PutEnv(Seq<char>),
    OpenSession,
    GetEnvList,
    CloseSession,
    End,
    Fork,
    MintProof,
}

impl Call {
    pub open spec fn view(&self) -> CallView {
        match self {
            Call::Start(s) => CallView::Start(s@),
            Call::Next => CallView::Next,
            Call::Answer { secret } => CallView::Answer { secret: *secret },
            Call::AcctMgmt => CallView::AcctMgmt,
            Call::ChAuthTok => CallView::ChAuthTok,
            Call::SetCred(f) => CallView::SetCred(*f),
            Call::PutEnv(k) => CallView::PutEnv(k@),
            Call::OpenSession => CallView::OpenSession,
            Call::GetEnvList => CallView::GetEnvList,
            Call::CloseSession => CallView::CloseSession,
            Call::End => CallView::End,
            Call::Fork => CallView::Fork,
            Call::MintProof => CallView::MintProof,
        }
    }

    /// Whether two calls say the same.
    pub fn same_as(&self, other: &Call) -> (r: bool)
        ensures
            r == (self@ == other@),
    {
        match (self, other) {
            (Call::Start(a), Call::Start(b)) => text::same(a.as_str(), b.as_str()),
            (Call::PutEnv(a), Call::PutEnv(b)) => text::same(a.as_str(), b.as_str()),
            (Call::Answer { secret: a }, Call::Answer { secret: b }) => *a == *b,
            (Call::SetCred(a), Call::SetCred(b)) => *a == *b,
            (Call::Next, Call::Next) => true,
            (Call::AcctMgmt, Call::AcctMgmt) => true,
            (Call::ChAuthTok, Call::ChAuthTok) => true,
            (Call::OpenSession, Call::OpenSession) => true,
            (Call::GetEnvList, Call::GetEnvList) => true,
            (Call::CloseSession, Call::CloseSession) => true,
            (Call::End, Call::End) => true,
            (Call::Fork, Call::Fork) => true,
            (Call::MintProof, Call::MintProof) => true,
            _ => false,
        }
    }
}

pub open spec fn call_views(calls: Seq<Call>) -> Seq<CallView> {
    calls.map_values(|c: Call| c@)
}

/// One scripted transaction.
#[derive(Debug)]
pub struct Script {
    /// The steps that PAM emits, in order.
    pub steps: Vec<PamStep>,
    /// The account verdict after authentication.
    pub acct: Option<AcctVerdict>,
    /// Whom the transaction is about.
    pub uid: Uid,
    /// What the session modules contribute to the environment.
    pub session_env: EnvSet,
}

/// What a script says.
pub struct ScriptView {
    pub steps: Seq<PamStep>,
    pub acct: Option<AcctVerdict>,
    pub uid: Uid,
    pub session_env: Map<Seq<char>, Seq<char>>,
}

/// What a step says.
pub enum StepText {
    Prompt(MsgStyle, Seq<char>),
    Info(MsgStyle, Seq<char>),
    Complete,
    Failed(PamClass),
}

pub open spec fn step_texts(steps: Seq<PamStep>) -> Seq<StepText> {
    steps.map_values(
        |s: PamStep|
            match s {
                PamStep::Prompt { style, msg } => StepText::Prompt(style, msg.0@),
                PamStep::Info { style, msg } => StepText::Info(style, msg.0@),
                PamStep::Complete => StepText::Complete,
                PamStep::Failed { class } => StepText::Failed(class),
            },
    )
}

/// The environment of a session on a terminal.
pub open spec fn tty_env() -> Map<Seq<char>, Seq<char>> {
    Map::empty().insert("XDG_SESSION_TYPE"@, "tty"@)
}

fn tty_env_set() -> (e: EnvSet)
    ensures
        e@ == tty_env(),
{
    let mut e: EnvSet = EnvSet::new();
    e.insert("XDG_SESSION_TYPE".to_owned(), "tty".to_owned());
    e
}

impl Default for Script {
    /// The empty script. Its uid is the one that no principal has, and not root's.
    fn default() -> (r: Self)
        ensures
            r.steps@.len() == 0,
            r.acct is None,
            r.uid == Uid(u32::MAX),
            r.session_env@ == Map::<Seq<char>, Seq<char>>::empty(),
    {
        Script { steps: Vec::new(), acct: None, uid: Uid(u32::MAX), session_env: EnvSet::new() }
    }
}

impl Clone for Script {
    fn clone(&self) -> (r: Self)
        ensures
            r@ == self@,
    {
        let mut steps: Vec<PamStep> = Vec::new();
        let mut i: usize = 0;
        while i < self.steps.len()
            invariant
                i <= self.steps.len(),
                steps@ == self.steps@.take(i as int),
            decreases self.steps.len() - i,
        {
            steps.push(self.steps[i].clone());
            i = i + 1;
            proof {
                assert(steps@ =~= self.steps@.take(i as int));
            }
        }
        proof {
            assert(steps@ =~= self.steps@);
        }
        Script { steps, acct: self.acct, uid: self.uid, session_env: self.session_env.clone() }
    }
}

impl Script {
    pub open spec fn view(&self) -> ScriptView {
        ScriptView {
            steps: self.steps@,
            acct: self.acct,
            uid: self.uid,
            session_env: self.session_env@,
        }
    }

    /// A password is asked for and accepted.
    pub fn password_ok(uid: Uid) -> (s: Self)
        ensures
            step_texts(s.steps@) == seq![
                StepText::Prompt(MsgStyle::PromptEchoOff, "Password: "@),
                StepText::Complete,
            ],
            s.acct == Some(AcctVerdict::Okay),
            s.uid == uid,
            s.session_env@ == tty_env(),
    {
        let mut steps: Vec<PamStep> = Vec::new();
        steps.push(
            PamStep::Prompt {
                style: MsgStyle::PromptEchoOff,
                msg: PromptText("Password: ".to_owned()),
            },
        );
        steps.push(PamStep::Complete);
        assert(step_texts(steps@) =~= seq![
            StepText::Prompt(MsgStyle::PromptEchoOff, "Password: "@),
            StepText::Complete,
        ]);
        Script { steps, acct: Some(AcctVerdict::Okay), uid, session_env: tty_env_set() }
    }

    /// A password is asked for, something is told, and the conversation completes.
    pub fn secret_then_info_then_complete(uid: Uid) -> (s: Self)
        ensures
            step_texts(s.steps@) == seq![
                StepText::Prompt(MsgStyle::PromptEchoOff, "Password: "@),
                StepText::Info(MsgStyle::TextInfo, "Your password expires in 3 days"@),
                StepText::Complete,
            ],
            s.acct == Some(AcctVerdict::Okay),
            s.uid == uid,
            s.session_env@ == tty_env(),
    {
        let mut steps: Vec<PamStep> = Vec::new();
        steps.push(
            PamStep::Prompt {
                style: MsgStyle::PromptEchoOff,
                msg: PromptText("Password: ".to_owned()),
            },
        );
        steps.push(
            PamStep::Info {
                style: MsgStyle::TextInfo,
                msg: PromptText("Your password expires in 3 days".to_owned()),
            },
        );
        steps.push(PamStep::Complete);
        assert(step_texts(steps@) =~= seq![
            StepText::Prompt(MsgStyle::PromptEchoOff, "Password: "@),
            StepText::Info(MsgStyle::TextInfo, "Your password expires in 3 days"@),
            StepText::Complete,
        ]);
        Script { steps, acct: Some(AcctVerdict::Okay), uid, session_env: tty_env_set() }
    }

    /// A password is asked for and the conversation fails.
    pub fn denied(class: PamClass) -> (s: Self)
        ensures
            step_texts(s.steps@) == seq![
                StepText::Prompt(MsgStyle::PromptEchoOff, "Password: "@),
                StepText::Failed(class),
            ],
            s.acct is None,
            s.uid == Uid(u32::MAX),
            s.session_env@ == Map::<Seq<char>, Seq<char>>::empty(),
    {
        let mut steps: Vec<PamStep> = Vec::new();
        steps.push(
            PamStep::Prompt {
                style: MsgStyle::PromptEchoOff,
                msg: PromptText("Password: ".to_owned()),
            },
        );
        steps.push(PamStep::Failed { class });
        assert(step_texts(steps@) =~= seq![
            StepText::Prompt(MsgStyle::PromptEchoOff, "Password: "@),
            StepText::Failed(class),
        ]);
        Script { steps, acct: None, uid: Uid(u32::MAX), session_env: EnvSet::new() }
    }
}

/// A transaction in progress.
struct Transaction {
    script: Script,
    cursor: usize,
    completed: bool,
    awaiting_answer: bool,
    env: EnvSet,
    session_open: bool,
}

/// What a transaction in progress says.
pub struct TxnView {
    pub script: ScriptView,
    pub cursor: int,
    pub completed: bool,
    pub awaiting_answer: bool,
    pub env: Map<Seq<char>, Seq<char>>,
    pub session_open: bool,
}

impl Transaction {
    closed spec fn view(&self) -> TxnView {
        TxnView {
            script: self.script@,
            cursor: self.cursor as int,
            completed: self.completed,
            awaiting_answer: self.awaiting_answer,
            env: self.env@,
            session_open: self.session_open,
        }
    }
}

/// What was forked: the command, the plan's variables, the environment, the principal.
pub struct ForkView {
    pub argv: Seq<String>,
    pub plan_env: Seq<(String, String)>,
    pub env: Seq<(String, String)>,
    pub to: Uid,
}

pub open spec fn fork_views(v: Seq<(SessionPlan, EnvSet, Uid)>) -> Seq<ForkView> {
    v.map_values(
        |f: (SessionPlan, EnvSet, Uid)|
            ForkView {
                argv: f.0.argv@,
                plan_env: f.0.env.entries(),
                env: f.1.entries(),
                to: f.2,
            },
    )
}

/// What an enumeration answers.
pub enum ListView {
    Found(Seq<PublicProfile>),
    Empty(Seq<char>),
    Refused(Seq<char>, Seq<Seq<char>>),
    Blind(Seq<char>),
}

pub open spec fn list_view(a: Answer<Vec<PublicProfile>>) -> ListView {
    match a {
        Answer::Found(v) => ListView::Found(v@),
        Answer::Empty { of } => ListView::Empty(of@),
        Answer::Refused { because, legal } => ListView::Refused(because@, text::texts(legal@)),
        Answer::Blind { because } => ListView::Blind(because@),
    }
}

pub open spec fn override_view(a: Option<Answer<Vec<PublicProfile>>>) -> Option<ListView> {
    match a {
        Some(x) => Some(list_view(x)),
        None => None,
    }
}

fn copy_profiles(v: &Vec<PublicProfile>) -> (r: Vec<PublicProfile>)
    ensures
        r@ == v@,
{
    let mut r: Vec<PublicProfile> = Vec::new();
    let mut i: usize = 0;
    while i < v.len()
        invariant
            i <= v.len(),
            r@ == v@.take(i as int),
        decreases v.len() - i,
    {
        r.push(v[i].clone());
        i = i + 1;
        proof {
            assert(r@ =~= v@.take(i as int));
        }
    }
    proof {
        assert(r@ =~= v@);
    }
    r
}

fn copy_answer(a: &Answer<Vec<PublicProfile>>) -> (r: Answer<Vec<PublicProfile>>)
    ensures
        list_view(r) == list_view(*a),
{
    match a {
        Answer::Found(v) => Answer::Found(copy_profiles(v)),
        Answer::Empty { of } => Answer::Empty { of: *of },
        Answer::Refused { because, legal } => Answer::Refused {
            because: because.clone(),
            legal: text::copy_strings(legal),
        },
        Answer::Blind { because } => Answer::Blind { because: because.clone() },
    }
}

/// A scripted environment.
pub struct MockSeatEnv {
    txns: BTreeMap<u64, Transaction>,
    next_handle: u64,
    script: Script,
    /// Every call, in order.
    pub calls: Vec<Call>,
    principals: Vec<PublicProfile>,
    enumerate_override: Option<Answer<Vec<PublicProfile>>>,
    fail_on: Option<Call>,
    now: u64,
    forked: Vec<(SessionPlan, EnvSet, Uid)>,
    log: Ghost<Seq<PamEvent>>,
}

/// The state of a scripted environment.
#[verifier::ext_equal]
pub struct MockView {
    pub txns: Map<u64, TxnView>,
    pub next_handle: u64,
    pub script: ScriptView,
    pub calls: Seq<CallView>,
    pub principals: Seq<PublicProfile>,
    pub enumerate_override: Option<ListView>,
    pub fail_on: Option<CallView>,
    pub now: u64,
    pub forked: Seq<ForkView>,
}

/// The state after the call `c` was seen, or `None` where it is the one made to fail.
pub open spec fn seen(s: MockView, c: CallView) -> Option<MockView> {
    if s.fail_on == Some(c) {
        None
    } else {
        Some(MockView { calls: s.calls.push(c), ..s })
    }
}

pub open spec fn refused<T>() -> Result<T, PamError> {
    Err(PamError::Refused(PamClass::Abort))
}

/// A fresh transaction on the environment's script, under the next handle.
pub open spec fn start_of(s: MockView, svc: Seq<char>) -> (MockView, Result<PamHandleId, PamError>) {
    match seen(s, CallView::Start(svc)) {
        None => (s, refused()),
        Some(t) => (
            MockView {
                next_handle: vstd::wrapping::u64_specs::wrapping_add(t.next_handle, 1),
                txns: t.txns.insert(
                    t.next_handle,
                    TxnView {
                        script: t.script,
                        cursor: 0,
                        completed: false,
                        awaiting_answer: false,
                        env: Map::empty(),
                        session_open: false,
                    },
                ),
                ..t
            },
            Ok(PamHandleId(t.next_handle)),
        ),
    }
}

/// The script's next step.
pub open spec fn next_of(s: MockView, h: PamHandleId) -> (MockView, Result<PamStep, PamError>) {
    match seen(s, CallView::Next) {
        None => (s, refused()),
        Some(t) => if !t.txns.contains_key(h.0) {
            (t, Err(PamError::NoSuchHandle))
        } else {
            let x = t.txns[h.0];
            if x.cursor >= x.script.steps.len() {
                (t, Err(PamError::OutOfOrder("script exhausted")))
            } else {
                let step = x.script.steps[x.cursor];
                let y = TxnView {
                    cursor: x.cursor + 1,
                    awaiting_answer: x.awaiting_answer || step is Prompt,
                    completed: x.completed || step is Complete,
                    ..x
                };
                (MockView { txns: t.txns.insert(h.0, y), ..t }, Ok(step))
            }
        },
    }
}

/// The answer to what was asked.
pub open spec fn answer_of(s: MockView, h: PamHandleId, secret: bool) -> (MockView, Result<(), PamError>) {
    match seen(s, CallView::Answer { secret }) {
        None => (s, refused()),
        Some(t) => if !t.txns.contains_key(h.0) {
            (t, Err(PamError::NoSuchHandle))
        } else if !t.txns[h.0].awaiting_answer {
            (t, Err(PamError::OutOfOrder("nothing was being asked")))
        } else {
            let y = TxnView { awaiting_answer: false, ..t.txns[h.0] };
            (MockView { txns: t.txns.insert(h.0, y), ..t }, Ok(()))
        },
    }
}

/// The script's verdict on the account.
pub open spec fn acct_of(s: MockView, h: PamHandleId) -> (MockView, Result<AcctVerdict, PamError>) {
    match seen(s, CallView::AcctMgmt) {
        None => (s, refused()),
        Some(t) => if !t.txns.contains_key(h.0) {
            (t, Err(PamError::NoSuchHandle))
        } else {
            match t.txns[h.0].script.acct {
                Some(v) => (t, Ok(v)),
                None => (t, Err(PamError::OutOfOrder("no acct verdict"))),
            }
        },
    }
}

/// A call that changes nothing.
pub open spec fn plain_of(s: MockView, c: CallView) -> (MockView, Result<(), PamError>) {
    match seen(s, c) {
        None => (s, refused()),
        Some(t) => (t, Ok(())),
    }
}

/// A variable of the transaction.
pub open spec fn putenv_of(s: MockView, h: PamHandleId, key: Seq<char>, value: Seq<char>) -> (
    MockView,
    Result<(), PamError>,
) {
    match seen(s, CallView::PutEnv(key)) {
        None => (s, refused()),
        Some(t) => if !t.txns.contains_key(h.0) {
            (t, Err(PamError::NoSuchHandle))
        } else {
            let x = t.txns[h.0];
            let y = TxnView { env: x.env.insert(key, value), ..x };
            (MockView { txns: t.txns.insert(h.0, y), ..t }, Ok(()))
        },
    }
}

/// The session opened or closed.
pub open spec fn session_of(s: MockView, h: PamHandleId, open: bool) -> (MockView, Result<(), PamError>) {
    match seen(s, if open { CallView::OpenSession } else { CallView::CloseSession }) {
        None => (s, refused()),
        Some(t) => if !t.txns.contains_key(h.0) {
            (t, Err(PamError::NoSuchHandle))
        } else {
            let y = TxnView { session_open: open, ..t.txns[h.0] };
            (MockView { txns: t.txns.insert(h.0, y), ..t }, Ok(()))
        },
    }
}

/// The environment of a transaction: its own variables and, once the session is
/// open, those of the session modules over them.
pub open spec fn txn_env(x: TxnView) -> Map<Seq<char>, Seq<char>> {
    if x.session_open {
        x.env.union_prefer_right(x.script.session_env)
    } else {
        x.env
    }
}

/// The end of a transaction.
pub open spec fn end_of(s: MockView, h: PamHandleId) -> (MockView, Result<(), PamError>) {
    match seen(s, CallView::End) {
        None => (s, refused()),
        Some(t) => if !t.txns.contains_key(h.0) {
            (t, Err(PamError::NoSuchHandle))
        } else {
            (MockView { txns: t.txns.remove(h.0), ..t }, Ok(()))
        },
    }
}

/// Whom a transaction is about.
pub open spec fn uid_of(s: MockView, h: PamHandleId) -> Result<Uid, PamError> {
    if s.txns.contains_key(h.0) {
        Ok(s.txns[h.0].script.uid)
    } else {
        Err(PamError::NoSuchHandle)
    }
}

/// Whether the directory has a principal of this name.
pub open spec fn knows(principals: Seq<PublicProfile>, name: Seq<char>) -> bool {
    exists|i: int| 0 <= i < principals.len() && #[trigger] principals[i].name@ == name
}

/// Two results that agree, where the success carries nothing.
pub open spec fn same_unit(a: Result<(), PamError>, b: Result<(), PamError>) -> bool {
    match (a, b) {
        (Ok(_), Ok(_)) => true,
        (Err(x), Err(y)) => x == y,
        _ => false,
    }
}

impl MockSeatEnv {
    pub closed spec fn view(&self) -> MockView {
        MockView {
            txns: self.txns@.map_values(|t: Transaction| t@),
            next_handle: self.next_handle,
            script: self.script@,
            calls: call_views(self.calls@),
            principals: self.principals@,
            enumerate_override: override_view(self.enumerate_override),
            fail_on: match self.fail_on {
                Some(c) => Some(c@),
                None => None,
            },
            now: self.now,
            forked: fork_views(self.forked@),
        }
    }

    /// An environment whose every transaction follows `script`.
    pub fn new(script: Script) -> (r: Self)
        ensures
            r@ == (MockView {
                txns: Map::empty(),
                next_handle: 1,
                script: script@,
                calls: Seq::empty(),
                principals: Seq::empty(),
                enumerate_override: None,
                fail_on: None,
                now: 1000,
                forked: Seq::empty(),
            }),
            r.trace() == Seq::<PamEvent>::empty(),
    {
        let r = MockSeatEnv {
            txns: BTreeMap::new(),
            next_handle: 1,
            script,
            calls: Vec::new(),
            principals: Vec::new(),
            enumerate_override: None,
            fail_on: None,
            now: 1000,
            forked: Vec::new(),
            log: Ghost(Seq::empty()),
        };
        proof {
            assert(r@.txns =~= Map::<u64, TxnView>::empty());
            assert(r@.calls =~= Seq::<CallView>::empty());
            assert(r@.principals =~= Seq::<PublicProfile>::empty());
            assert(r@.forked =~= Seq::<ForkView>::empty());
        }
        r
    }

    /// Gives the directory these principals.
    pub fn with_principals(self, ps: Vec<PublicProfile>) -> (r: Self)
        ensures
            r@ == (MockView { principals: ps@, ..self@ }),
            r.trace() == self.trace(),
    {
        let mut r: MockSeatEnv = self;
        r.principals = ps;
        r
    }

    /// Makes the call `c` fail.
    pub fn failing_on(self, c: Call) -> (r: Self)
        ensures
            r@ == (MockView { fail_on: Some(c@), ..self@ }),
            r.trace() == self.trace(),
    {
        let mut r: MockSeatEnv = self;
        r.fail_on = Some(c);
        r
    }

    /// Sets what an enumeration answers.
    pub fn enumerating(self, a: Answer<Vec<PublicProfile>>) -> (r: Self)
        ensures
            r@ == (MockView { enumerate_override: Some(list_view(a)), ..self@ }),
            r.trace() == self.trace(),
    {
        let mut r: MockSeatEnv = self;
        r.enumerate_override = Some(a);
        r
    }

    /// The calls that were seen, in order.
    pub fn calls(&self) -> (v: &[Call])
        ensures
            call_views(v@) == self@.calls,
    {
        self.calls.as_slice()
    }

    /// What was forked.
    pub fn forked(&self) -> (v: &[(SessionPlan, EnvSet, Uid)])
        ensures
            fork_views(v@) == self@.forked,
    {
        self.forked.as_slice()
    }

    /// Whether a session is open on this transaction.
    pub fn session_open(&self, h: PamHandleId) -> (r: bool)
        ensures
            r == (self@.txns.contains_key(h.0) && self@.txns[h.0].session_open),
    {
        match self.txns.get(&h.0) {
            Some(t) => t.session_open,
            None => false,
        }
    }

    fn record(&mut self, c: Call) -> (r: Result<(), PamError>)
        ensures
            match seen(old(self)@, c@) {
                None => final(self)@ == old(self)@ && r == refused::<()>(),
                Some(t) => final(self)@ == t && r is Ok,
            },
            final(self).log == old(self).log,
            final(self).txns == old(self).txns,
            final(self).script == old(self).script,
    {
        if let Some(f) = &self.fail_on {
            if f.same_as(&c) {
                return Err(PamError::Refused(PamClass::Abort));
            }
        }
        let ghost before = self.calls@;
        self.calls.push(c);
        proof {
            assert(call_views(self.calls@) =~= call_views(before).push(c@));
        }
        Ok(())
    }

    /// Takes a transaction out of the table.
    fn take_txn(&mut self, h: PamHandleId) -> (t: Option<Transaction>)
        ensures
            t is Some <==> old(self)@.txns.contains_key(h.0),
            t matches Some(x) ==> x@ == old(self)@.txns[h.0],
            final(self)@ == (MockView { txns: old(self)@.txns.remove(h.0), ..old(self)@ }),
            final(self).log == old(self).log,
    {
        let ghost before = self.txns@;
        let t: Option<Transaction> = self.txns.remove(&h.0);
        proof {
            assert(self@.txns =~= old(self)@.txns.remove(h.0));
        }
        t
    }

    /// Puts a transaction back into the table.
    fn put_txn(&mut self, h: PamHandleId, t: Transaction)
        ensures
            final(self)@ == (MockView { txns: old(self)@.txns.insert(h.0, t@), ..old(self)@ }),
            final(self).log == old(self).log,
    {
        self.txns.insert(h.0, t);
        proof {
            assert(self@.txns =~= old(self)@.txns.insert(h.0, t@));
        }
    }

    fn do_start(&mut self, svc: &ServiceName) -> (r: Result<PamHandleId, PamError>)
        ensures
            (final(self)@, r) == start_of(old(self)@, svc@),
            final(self).log == old(self).log,
    {
        self.record(Call::Start(svc.as_str().to_owned()))?;
        let h: u64 = self.next_handle;
        self.next_handle = h.wrapping_add(1);
        let t = Transaction {
            script: self.script.clone(),
            cursor: 0,
            completed: false,
            awaiting_answer: false,
            env: EnvSet::new(),
            session_open: false,
        };
        self.put_txn(PamHandleId(h), t);
        Ok(PamHandleId(h))
    }

    fn do_next(&mut self, h: PamHandleId) -> (r: Result<PamStep, PamError>)
        ensures
            (final(self)@, r) == next_of(old(self)@, h),
            final(self).log == old(self).log,
    {
        self.record(Call::Next)?;
        let ghost mid = self@;
        match self.take_txn(h) {
            None => {
                assert(self@.txns =~= mid.txns);
                Err(PamError::NoSuchHandle)
            },
            Some(t) => {
                let mut t: Transaction = t;
                if t.cursor >= t.script.steps.len() {
                    self.put_txn(h, t);
                    assert(self@.txns =~= mid.txns);
                    return Err(PamError::OutOfOrder("script exhausted"));
                }
                let step: PamStep = t.script.steps[t.cursor].clone();
                t.cursor = t.cursor + 1;
                match &step {
                    PamStep::Prompt { .. } => {
                        t.awaiting_answer = true;
                    },
                    PamStep::Complete => {
                        t.completed = true;
                    },
                    PamStep::Info { .. } => {},
                    PamStep::Failed { .. } => {},
                }
                self.put_txn(h, t);
                assert(self@.txns =~= mid.txns.insert(h.0, t@));
                Ok(step)
            },
        }
    }

    fn do_answer(&mut self, h: PamHandleId, secret: bool) -> (r: Result<(), PamError>)
        ensures
            final(self)@ == answer_of(old(self)@, h, secret).0,
            same_unit(r, answer_of(old(self)@, h, secret).1),
            final(self).log == old(self).log,
    {
        self.record(Call::Answer { secret })?;
        let ghost mid = self@;
        match self.take_txn(h) {
            None => {
                assert(self@.txns =~= mid.txns);
                Err(PamError::NoSuchHandle)
            },
            Some(t) => {
                let mut t: Transaction = t;
                if !t.awaiting_answer {
                    self.put_txn(h, t);
                    assert(self@.txns =~= mid.txns);
                    return Err(PamError::OutOfOrder("nothing was being asked"));
                }
                t.awaiting_answer = false;
                self.put_txn(h, t);
                assert(self@.txns =~= mid.txns.insert(h.0, t@));
                Ok(())
            },
        }
    }

    fn do_acct(&mut self, h: PamHandleId) -> (r: Result<AcctVerdict, PamError>)
        ensures
            (final(self)@, r) == acct_of(old(self)@, h),
            final(self).log == old(self).log,
    {
        self.record(Call::AcctMgmt)?;
        match self.txns.get(&h.0) {
            None => Err(PamError::NoSuchHandle),
            Some(t) => match t.script.acct {
                Some(v) => Ok(v),
                None => Err(PamError::OutOfOrder("no acct verdict")),
            },
        }
    }

    fn do_putenv(&mut self, h: PamHandleId, kv: EnvPair) -> (r: Result<(), PamError>)
        ensures
            final(self)@ == putenv_of(old(self)@, h, kv.key@, kv.value@).0,
            same_unit(r, putenv_of(old(self)@, h, kv.key@, kv.value@).1),
            final(self).log == old(self).log,
    {
        self.record(Call::PutEnv(kv.key.clone()))?;
        let ghost mid = self@;
        match self.take_txn(h) {
            None => {
                assert(self@.txns =~= mid.txns);
                Err(PamError::NoSuchHandle)
            },
            Some(t) => {
                let mut t: Transaction = t;
                t.env.insert(kv.key, kv.value);
                self.put_txn(h, t);
                assert(self@.txns =~= mid.txns.insert(h.0, t@));
                Ok(())
            },
        }
    }

    fn do_session(&mut self, h: PamHandleId, open: bool) -> (r: Result<(), PamError>)
        ensures
            final(self)@ == session_of(old(self)@, h, open).0,
            same_unit(r, session_of(old(self)@, h, open).1),
            final(self).log == old(self).log,
    {
        self.record(if open { Call::OpenSession } else { Call::CloseSession })?;
        let ghost mid = self@;
        match self.take_txn(h) {
            None => {
                assert(self@.txns =~= mid.txns);
                Err(PamError::NoSuchHandle)
            },
            Some(t) => {
                let mut t: Transaction = t;
                t.session_open = open;
                self.put_txn(h, t);
                assert(self@.txns =~= mid.txns.insert(h.0, t@));
                Ok(())
            },
        }
    }

    fn do_getenvlist(&mut self, h: PamHandleId) -> (r: Result<EnvSet, PamError>)
        ensures
            reads_env(old(self)@, h, final(self)@, r),
            final(self).log == old(self).log,
    {
        self.record(Call::GetEnvList)?;
        match self.txns.get(&h.0) {
            None => Err(PamError::NoSuchHandle),
            Some(t) => {
                let mut out: EnvSet = t.env.clone();
                if t.session_open {
                    out.extend(&t.script.session_env);
                }
                Ok(out)
            },
        }
    }

    fn do_end(&mut self, h: PamHandleId) -> (r: Result<(), PamError>)
        ensures
            final(self)@ == end_of(old(self)@, h).0,
            same_unit(r, end_of(old(self)@, h).1),
            final(self).log == old(self).log,
    {
        self.record(Call::End)?;
        let ghost mid = self@;
        match self.take_txn(h) {
            None => {
                assert(self@.txns =~= mid.txns);
                Err(PamError::NoSuchHandle)
            },
            Some(_) => Ok(()),
        }
    }

    fn do_fork(&mut self, plan: &SessionPlan, env: &EnvSet, to: Uid) -> (r: Result<ChildPid, SpawnError>)
        ensures
            forks(old(self)@, *plan, *env, to, final(self)@, r),
            final(self).log == old(self).log,
    {
        if self.record(Call::Fork).is_err() {
            return Err(SpawnError::Refused);
        }
        let ghost before = self.forked@;
        let ghost mid = self@;
        self.forked.push((plan.clone(), env.clone(), to));
        proof {
            assert(fork_views(self.forked@) =~= fork_views(before).push(
                ForkView {
                    argv: plan.argv@,
                    plan_env: plan.env.entries(),
                    env: env.entries(),
                    to,
                },
            ));
        }
        Ok(ChildPid(4242))
    }

    fn do_mint(&mut self, h: PamHandleId, uid: Uid) -> (r: Result<AuthProof, PamError>)
        ensures
            mints(old(self)@, h, uid, final(self)@, r),
            final(self).log == old(self).log,
    {
        self.record(Call::MintProof)?;
        match self.txns.get(&h.0) {
            None => Err(PamError::NoSuchHandle),
            Some(t) => if t.completed {
                Ok(AuthProof::password(uid, Passphrase::new(String::new())))
            } else {
                Err(PamError::OutOfOrder("cannot mint a proof from an unfinished conversation"))
            },
        }
    }
}

/// What minting does: from a completed transaction comes a password proof for
/// `uid`, from any other an error, and nothing but the call is recorded.
pub open spec fn mints(
    s: MockView,
    h: PamHandleId,
    uid: Uid,
    after: MockView,
    r: Result<AuthProof, PamError>,
) -> bool {
    match seen(s, CallView::MintProof) {
        None => after == s && r == refused::<AuthProof>(),
        Some(t) => after == t && if !t.txns.contains_key(h.0) {
            r == Err::<AuthProof, PamError>(PamError::NoSuchHandle)
        } else if !t.txns[h.0].completed {
            r == Err::<AuthProof, PamError>(
                PamError::OutOfOrder("cannot mint a proof from an unfinished conversation"),
            )
        } else {
            r matches Ok(p) && p.who() == uid && p.how() == AuthMethod::Password && p.authtok() == Some(
                Seq::<char>::empty(),
            )
        },
    }
}

/// What reading the environment of a transaction does.
pub open spec fn reads_env(s: MockView, h: PamHandleId, after: MockView, r: Result<EnvSet, PamError>) -> bool {
    match seen(s, CallView::GetEnvList) {
        None => after == s && r == refused::<EnvSet>(),
        Some(t) => after == t && match r {
            Ok(e) => t.txns.contains_key(h.0) && e@ == txn_env(t.txns[h.0]),
            Err(x) => !t.txns.contains_key(h.0) && x == PamError::NoSuchHandle,
        },
    }
}

/// What forking does: the fork is remembered, and its process has a fixed id.
pub open spec fn forks(
    s: MockView,
    plan: SessionPlan,
    env: EnvSet,
    to: Uid,
    after: MockView,
    r: Result<ChildPid, SpawnError>,
) -> bool {
    match seen(s, CallView::Fork) {
        None => after == s && r == Err::<ChildPid, SpawnError>(SpawnError::Refused),
        Some(t) => after == (MockView {
            forked: t.forked.push(
                ForkView {
                    argv: plan.argv@,
                    plan_env: plan.env.entries(),
                    env: env.entries(),
                    to,
                },
            ),
            ..t
        }) && r == Ok::<ChildPid, SpawnError>(ChildPid(4242)),
    }
}

/// Whether the scripted environment answers the call `e` in the state `s`, and
/// is in the state `after` once it has.
pub open spec fn answers_call(s: MockView, e: PamEvent, after: MockView) -> bool {
    match e {
        PamEvent::Start { svc, r, .. } => (after, r) == start_of(s, svc),
        PamEvent::Next { h, r } => (after, r) == next_of(s, h),
        PamEvent::Answer { h, a, r } => after == answer_of(s, h, a is Secret).0 && same_unit(
            r,
            answer_of(s, h, a is Secret).1,
        ),
        PamEvent::AcctMgmt { h, r } => (after, r) == acct_of(s, h),
        PamEvent::ChAuthTok { r, .. } => after == plain_of(s, CallView::ChAuthTok).0 && same_unit(
            r,
            plain_of(s, CallView::ChAuthTok).1,
        ),
        PamEvent::SetCred { f, r, .. } => after == plain_of(s, CallView::SetCred(f)).0 && same_unit(
            r,
            plain_of(s, CallView::SetCred(f)).1,
        ),
        PamEvent::PutEnv { h, kv, r } => after == putenv_of(s, h, kv.key@, kv.value@).0 && same_unit(
            r,
            putenv_of(s, h, kv.key@, kv.value@).1,
        ),
        PamEvent::OpenSession { h, r } => after == session_of(s, h, true).0 && same_unit(
            r,
            session_of(s, h, true).1,
        ),
        PamEvent::GetEnvList { h, r } => reads_env(s, h, after, r),
        PamEvent::CloseSession { h, r } => after == session_of(s, h, false).0 && same_unit(
            r,
            session_of(s, h, false).1,
        ),
        PamEvent::End { h, r } => after == end_of(s, h).0 && same_unit(r, end_of(s, h).1),
        PamEvent::Fork { plan, env, to, r } => forks(s, plan, env, to, after, r),
        PamEvent::MintProof { h, uid, r } => mints(s, h, uid, after, r),
    }
}

impl SeatEnv for MockSeatEnv {
    closed spec fn trace(&self) -> Seq<PamEvent> {
        self.log@
    }

    open spec fn uid_answer(&self, h: PamHandleId, r: Result<Uid, PamError>) -> bool {
        r == uid_of(self@, h)
    }

    open spec fn steps_to(&self, e: PamEvent, after: Self) -> bool {
        answers_call(self@, e, after@) && after.trace() == self.trace().push(e)
    }

    fn pam_start(&mut self, svc: &ServiceName, user: Option<&UserName>) -> (r: Result<
        PamHandleId,
        PamError,
    >)
        ensures
            (final(self)@, r) == start_of(old(self)@, svc@),
    {
        let r = self.do_start(svc);
        self.log = Ghost(
            self.log@.push(
                PamEvent::Start { svc: svc@, user: crate::border::env::user_text(user), r },
            ),
        );
        r
    }

    fn pam_next(&mut self, h: PamHandleId) -> (r: Result<PamStep, PamError>)
        ensures
            (final(self)@, r) == next_of(old(self)@, h),
    {
        let r = self.do_next(h);
        self.log = Ghost(self.log@.push(PamEvent::Next { h, r }));
        r
    }

    fn pam_answer(&mut self, h: PamHandleId, a: PamAnswer) -> (r: Result<(), PamError>)
        ensures
            final(self)@ == answer_of(old(self)@, h, a is Secret).0,
            same_unit(r, answer_of(old(self)@, h, a is Secret).1),
    {
        let is_secret: bool = matches!(a, PamAnswer::Secret(_));
        let r = self.do_answer(h, is_secret);
        self.log = Ghost(self.log@.push(PamEvent::Answer { h, a, r }));
        r
    }

    fn pam_acct_mgmt(&mut self, h: PamHandleId) -> (r: Result<AcctVerdict, PamError>)
        ensures
            (final(self)@, r) == acct_of(old(self)@, h),
    {
        let r = self.do_acct(h);
        self.log = Ghost(self.log@.push(PamEvent::AcctMgmt { h, r }));
        r
    }

    fn pam_chauthtok(&mut self, h: PamHandleId) -> (r: Result<(), PamError>)
        ensures
            final(self)@ == plain_of(old(self)@, CallView::ChAuthTok).0,
            same_unit(r, plain_of(old(self)@, CallView::ChAuthTok).1),
    {
        let r = self.record(Call::ChAuthTok);
        self.log = Ghost(self.log@.push(PamEvent::ChAuthTok { h, r }));
        r
    }

    fn pam_setcred(&mut self, h: PamHandleId, f: CredFlag) -> (r: Result<(), PamError>)
        ensures
            final(self)@ == plain_of(old(self)@, CallView::SetCred(f)).0,
            same_unit(r, plain_of(old(self)@, CallView::SetCred(f)).1),
    {
        let r = self.record(Call::SetCred(f));
        self.log = Ghost(self.log@.push(PamEvent::SetCred { h, f, r }));
        r
    }

    fn pam_putenv(&mut self, h: PamHandleId, kv: EnvPair) -> (r: Result<(), PamError>)
        ensures
            final(self)@ == putenv_of(old(self)@, h, kv.key@, kv.value@).0,
            same_unit(r, putenv_of(old(self)@, h, kv.key@, kv.value@).1),
    {
        let ghost pair = kv;
        let r = self.do_putenv(h, kv);
        self.log = Ghost(self.log@.push(PamEvent::PutEnv { h, kv: pair, r }));
        r
    }

    fn pam_open_session(&mut self, h: PamHandleId) -> (r: Result<(), PamError>)
        ensures
            final(self)@ == session_of(old(self)@, h, true).0,
            same_unit(r, session_of(old(self)@, h, true).1),
    {
        let r = self.do_session(h, true);
        self.log = Ghost(self.log@.push(PamEvent::OpenSession { h, r }));
        r
    }

    fn pam_getenvlist(&mut self, h: PamHandleId) -> (r: Result<EnvSet, PamError>)
        ensures
            reads_env(old(self)@, h, final(self)@, r),
    {
        let r = self.do_getenvlist(h);
        self.log = Ghost(self.log@.push(PamEvent::GetEnvList { h, r }));
        r
    }

    fn pam_close_session(&mut self, h: PamHandleId) -> (r: Result<(), PamError>)
        ensures
            final(self)@ == session_of(old(self)@, h, false).0,
            same_unit(r, session_of(old(self)@, h, false).1),
    {
        let r = self.do_session(h, false);
        self.log = Ghost(self.log@.push(PamEvent::CloseSession { h, r }));
        r
    }

    fn pam_end(&mut self, h: PamHandleId) -> (r: Result<(), PamError>)
        ensures
            final(self)@ == end_of(old(self)@, h).0,
            same_unit(r, end_of(old(self)@, h).1),
    {
        let r = self.do_end(h);
        self.log = Ghost(self.log@.push(PamEvent::End { h, r }));
        r
    }

    fn fork_session(&mut self, plan: &SessionPlan, env: &EnvSet, to: Uid) -> (r: Result<
        ChildPid,
        SpawnError,
    >)
        ensures
            forks(old(self)@, *plan, *env, to, final(self)@, r),
    {
        let r = self.do_fork(plan, env, to);
        self.log = Ghost(self.log@.push(PamEvent::Fork { plan: *plan, env: *env, to, r }));
        r
    }

    fn resolve_principal(&self, n: &UserName) -> (r: Answer<PublicProfile>)
        ensures
            match r {
                Answer::Found(p) => exists|i: int|
                    {
                        &&& 0 <= i < self@.principals.len()
                        &&& p == #[trigger] self@.principals[i]
                        &&& p.name@ == n@
                        &&& !knows(self@.principals.take(i), n@)
                    },
                Answer::Empty { of } => of@ == "principal"@ && !knows(self@.principals, n@),
                _ => false,
            },
    {
        let mut i: usize = 0;
        while i < self.principals.len()
            invariant
                i <= self.principals.len(),
                forall|j: int| 0 <= j < i ==> (#[trigger] self.principals@[j]).name@ != n@,
            decreases self.principals.len() - i,
        {
            if text::same(self.principals[i].name.as_str(), n.as_str()) {
                let p: PublicProfile = self.principals[i].clone();
                proof {
                    assert(p == self@.principals[i as int]);
                    assert forall|j: int| 0 <= j < i implies (#[trigger] self@.principals.take(
                        i as int,
                    )[j]).name@ != n@ by {
                        assert(self.principals@[j].name@ != n@);
                    }
                }
                return Answer::Found(p);
            }
            i = i + 1;
        }
        Answer::Empty { of: "principal" }
    }

    fn enumerate_principals(&self) -> (r: Answer<Vec<PublicProfile>>)
        ensures
            list_view(r) == (match self@.enumerate_override {
                Some(a) => a,
                None => if self@.principals.len() == 0 {
                    ListView::Empty("principals"@)
                } else {
                    ListView::Found(self@.principals)
                },
            }),
    {
        if let Some(a) = &self.enumerate_override {
            return copy_answer(a);
        }
        if self.principals.len() == 0 {
            return Answer::Empty { of: "principals" };
        }
        Answer::Found(copy_profiles(&self.principals))
    }

    fn uid_for_handle(&self, h: PamHandleId) -> (r: Result<Uid, PamError>)
        ensures
            r == uid_of(self@, h),
    {
        match self.txns.get(&h.0) {
            Some(t) => Ok(t.script.uid),
            None => Err(PamError::NoSuchHandle),
        }
    }

    fn mint_proof(&mut self, h: PamHandleId, uid: Uid) -> (r: Result<AuthProof, PamError>)
        ensures
            mints(old(self)@, h, uid, final(self)@, r),
    {
        let r = self.do_mint(h, uid);
        self.log = Ghost(self.log@.push(PamEvent::MintProof { h, uid, r }));
        r
    }

    fn clock(&self) -> (t: Instant)
        ensures
            t == Instant(self@.now),
    {
        Instant(self.now)
    }
}

/// No proof comes out of a transaction that has not completed.
pub proof fn no_proof_before_completion(
    s: MockView,
    h: PamHandleId,
    uid: Uid,
    after: MockView,
    r: Result<AuthProof, PamError>,
)
    requires
        mints(s, h, uid, after, r),
        !(s.txns.contains_key(h.0) && s.txns[h.0].completed),
    ensures
        r is Err,
{
}

/// A transaction completes at the step that says so and at no other call.
pub proof fn only_the_last_step_completes(s: MockView, h: PamHandleId, secret: bool, open: bool)
    requires
        s.txns.contains_key(h.0),
    ensures
        next_of(s, h).0.txns[h.0].completed <==> s.txns[h.0].completed || next_of(s, h).1 == Ok::<
            PamStep,
            PamError,
        >(PamStep::Complete),
        answer_of(s, h, secret).0.txns[h.0].completed == s.txns[h.0].completed,
        session_of(s, h, open).0.txns[h.0].completed == s.txns[h.0].completed,
{
}

/// Closing a session that was opened leaves it closed, and the environment of
/// the session modules is there exactly while it is open.
pub proof fn closing_undoes_opening(s: MockView, h: PamHandleId)
    requires
        s.txns.contains_key(h.0),
        s.fail_on is None,
    ensures
        ({
            let opened = session_of(s, h, true).0;
            let closed = session_of(opened, h, false).0;
            &&& opened.txns[h.0].session_open
            &&& txn_env(opened.txns[h.0]) == s.txns[h.0].env.union_prefer_right(
                s.txns[h.0].script.session_env,
            )
            &&& !closed.txns[h.0].session_open
            &&& txn_env(closed.txns[h.0]) == s.txns[h.0].env
        }),
{
}

/// How many of the calls ask for a step.
pub open spec fn nexts(calls: Seq<CallView>) -> nat
    decreases calls.len(),
{
    if calls.len() == 0 {
        0
    } else {
        nexts(calls.drop_last()) + if calls.last() is Next {
            1nat
        } else {
            0nat
        }
    }
}

proof fn lemma_called(calls: Seq<CallView>, c: CallView)
    ensures
        nexts(calls.push(c)) == nexts(calls) + if c is Next {
            1nat
        } else {
            0nat
        },
{
    assert(calls.push(c).drop_last() =~= calls);
}

/// Asking a script that has a prompt for every step, through a face that always
/// answers, takes every step there may be.
proof fn lemma_asked_on(
    st: MockSeatEnv,
    last: MockSeatEnv,
    h: PamHandleId,
    left: nat,
    ev: Seq<PamEvent>,
    sv: Seq<Said>,
    end: Asked,
)
    requires
        asking(h, left, ev, sv, end),
        went(st, ev, last),
        st@.fail_on is None,
        st@.txns.contains_key(h.0),
        0 <= st@.txns[h.0].cursor,
        st@.txns[h.0].cursor + left <= st@.txns[h.0].script.steps.len(),
        forall|i: int|
            st@.txns[h.0].cursor <= i < st@.txns[h.0].cursor + left
                ==> #[trigger] st@.txns[h.0].script.steps[i] is Prompt,
        forall|i: int| 0 <= i < sv.len() ==> (#[trigger] sv[i]).1 is Some,
    ensures
        end is TooLong,
        nexts(last@.calls) == nexts(st@.calls) + left,
    decreases left,
{
    if left > 0 {
        let asked = choose|mid: MockSeatEnv| #[trigger]
            st.steps_to(ev[0], mid) && went(mid, ev.skip(1), last);
        assert(st@.txns[h.0].script.steps[st@.txns[h.0].cursor] is Prompt);
        let rest = ev.skip(1);
        assert(rest[0] == ev[1]);
        let told = choose|mid: MockSeatEnv| #[trigger]
            asked.steps_to(rest[0], mid) && went(mid, rest.skip(1), last);
        assert(rest.skip(1) =~= ev.skip(2));
        lemma_called(st@.calls, CallView::Next);
        lemma_called(asked@.calls, told@.calls.last());
        assert(told@.txns[h.0].script == st@.txns[h.0].script);
        assert forall|i: int| 0 <= i < sv.skip(1).len() implies (#[trigger] sv.skip(1)[i]).1 is Some by {
            assert(sv[i + 1].1 is Some);
        }
        lemma_asked_on(told, last, h, (left - 1) as nat, ev.skip(2), sv.skip(1), end);
    }
}

/// A conversation that never completes is bounded: where the script has a prompt
/// for every step that the conversation may take, and the face always answers,
/// the conversation ends at its bound, and has asked for a step exactly so often.
pub proof fn a_conversation_that_never_completes_is_bounded(
    start: MockSeatEnv,
    last: MockSeatEnv,
    svc: Seq<char>,
    user: Option<Seq<char>>,
    seat: Seq<char>,
    max_steps: nat,
    ev: Seq<PamEvent>,
    sv: Seq<Said>,
    r: Result<Outcome, PamError>,
    k: int,
    end: Asked,
)
    requires
        conversed(start, last, svc, user, seat, max_steps, ev, sv, r, k, end),
        start@.fail_on is None,
        max_steps <= start@.script.steps.len(),
        forall|i: int| 0 <= i < max_steps ==> #[trigger] start@.script.steps[i] is Prompt,
        forall|i: int| 0 <= i < sv.len() ==> (#[trigger] sv[i]).1 is Some,
    ensures
        r == Err::<Outcome, PamError>(too_long()),
        nexts(last@.calls) == nexts(start@.calls) + max_steps,
{
    let begun = choose|mid: MockSeatEnv| #[trigger]
        start.steps_to(ev[0], mid) && went(mid, ev.skip(1), last);
    lemma_called(start@.calls, CallView::Start(svc));
    let h = ev[0]->Start_r->Ok_0;
    let asked = ev.subrange(1, k);
    let settled = ev.skip(k);
    assert(ev.skip(1) =~= asked + settled);
    let there = lemma_went_split(begun, asked, settled, last);
    lemma_asked_on(begun, there, h, max_steps, asked, sv, end);
    assert(settled.len() == 0);
}

/// Whom a conversation on a script authenticates is whom the script is about,
/// and it does so only where the script says that the account may be used.
pub proof fn a_script_decides_who_logs_in(
    start: MockSeatEnv,
    last: MockSeatEnv,
    svc: Seq<char>,
    user: Option<Seq<char>>,
    seat: Seq<char>,
    max_steps: nat,
    ev: Seq<PamEvent>,
    sv: Seq<Said>,
    auth_proof: AuthProof,
    keyring: Option<KeyringUnlock>,
    k: int,
    end: Asked,
)
    requires
        conversed(
            start,
            last,
            svc,
            user,
            seat,
            max_steps,
            ev,
            sv,
            Ok(Outcome::Authenticated { auth_proof, keyring }),
            k,
            end,
        ),
    ensures
        auth_proof.who() == start@.script.uid,
        auth_proof.how() == AuthMethod::Password,
        start@.script.acct == Some(AcctVerdict::Okay),
{
    let begun = choose|mid: MockSeatEnv| #[trigger]
        start.steps_to(ev[0], mid) && went(mid, ev.skip(1), last);
    let h = ev[0]->Start_r->Ok_0;
    let asked = ev.subrange(1, k);
    let settled = ev.skip(k);
    assert(end is Completed);
    let (now, named) = choose|now: MockSeatEnv, named: Result<Uid, PamError>|
        {
            &&& went(start, ev.take(k).push(settled[0]), now)
            &&& went(now, settled.skip(1), last)
            &&& #[trigger] now.uid_answer(h, named)
            &&& match named {
                Err(e) => settled.len() == 1 && Ok::<Outcome, PamError>(
                    Outcome::Authenticated { auth_proof, keyring },
                ) == Err::<Outcome, PamError>(e),
                Ok(uid) => {
                    &&& settled.len() == 2
                    &&& settled[1] matches PamEvent::MintProof { h: g2, uid: u, r: minted }
                    &&& g2 == h
                    &&& u == uid
                    &&& minted matches Ok(made)
                    &&& made == auth_proof
                },
            }
        };
    let upto = ev.take(k).push(settled[0]);
    assert(upto[0] == ev[0]);
    let first = choose|mid: MockSeatEnv| #[trigger]
        start.steps_to(upto[0], mid) && went(mid, upto.skip(1), now);
    assert(asked + seq![settled[0]] =~= upto.skip(1));
    let before = lemma_went_split(first, asked, seq![settled[0]], now);
    lemma_script_kept(first, asked, before, h, max_steps, sv);
    let one = seq![settled[0]];
    let answered = choose|mid: MockSeatEnv| #[trigger]
        before.steps_to(one[0], mid) && went(mid, one.skip(1), now);
    assert(answered == now);
    let two = settled.skip(1);
    let minted = choose|mid: MockSeatEnv| #[trigger]
        now.steps_to(two[0], mid) && went(mid, two.skip(1), last);
    assert(two[0] == settled[1]);
}

/// A transaction that is asked to the end is still there, on its script.
proof fn lemma_script_kept(
    st: MockSeatEnv,
    ev: Seq<PamEvent>,
    last: MockSeatEnv,
    h: PamHandleId,
    left: nat,
    sv: Seq<Said>,
)
    requires
        asking(h, left, ev, sv, Asked::Completed),
        went(st, ev, last),
        st@.txns.contains_key(h.0),
    ensures
        last@.txns.contains_key(h.0),
        last@.txns[h.0].script == st@.txns[h.0].script,
    decreases left,
{
    let next = choose|mid: MockSeatEnv| #[trigger]
        st.steps_to(ev[0], mid) && went(mid, ev.skip(1), last);
    match ev[0] {
        PamEvent::Next { r: Ok(PamStep::Info { .. }), .. } => {
            lemma_script_kept(next, ev.skip(1), last, h, (left - 1) as nat, sv.skip(1));
        },
        PamEvent::Next { r: Ok(PamStep::Prompt { .. }), .. } => {
            let rest = ev.skip(1);
            assert(rest[0] == ev[1]);
            let told = choose|mid: MockSeatEnv| #[trigger]
                next.steps_to(rest[0], mid) && went(mid, rest.skip(1), last);
            assert(rest.skip(1) =~= ev.skip(2));
            lemma_script_kept(told, ev.skip(2), last, h, (left - 1) as nat, sv.skip(1));
        },
        _ => {
            assert(ev.skip(1).len() == 0);
        },
    }
}

/// A transaction that starts is new, under a handle of its own, on the script that
/// the environment has, and those that were there stay as they were.
pub proof fn a_start_leaves_the_others_alone(s: MockView, svc: Seq<char>, other: u64)
    requires
        s.fail_on is None,
        other != s.next_handle,
    ensures
        ({
            let (t, r) = start_of(s, svc);
            &&& r == Ok::<PamHandleId, PamError>(PamHandleId(s.next_handle))
            &&& t.calls == s.calls.push(CallView::Start(svc))
            &&& t.txns.contains_key(s.next_handle)
            &&& t.txns[s.next_handle].script == s.script
            &&& t.txns[s.next_handle].cursor == 0
            &&& !t.txns[s.next_handle].completed
            &&& !t.txns[s.next_handle].awaiting_answer
            &&& !t.txns[s.next_handle].session_open
            &&& forall|k: Seq<char>| !t.txns[s.next_handle].env.contains_key(k)
            &&& t.txns.contains_key(other) == s.txns.contains_key(other)
            &&& s.txns.contains_key(other) ==> t.txns[other] == s.txns[other]
            &&& s.next_handle < u64::MAX ==> t.next_handle == s.next_handle + 1
        }),
{
}

/// The steps of a script come one by one, in its order and as they are written, and
/// none comes twice.
pub proof fn a_script_is_played_in_order(s: MockView, h: PamHandleId)
    requires
        s.fail_on is None,
        s.txns.contains_key(h.0),
        0 <= s.txns[h.0].cursor,
    ensures
        ({
            let x = s.txns[h.0];
            let (t, r) = next_of(s, h);
            &&& t.calls == s.calls.push(CallView::Next)
            &&& x.cursor < x.script.steps.len() ==> r == Ok::<PamStep, PamError>(
                x.script.steps[x.cursor],
            ) && t.txns[h.0].cursor == x.cursor + 1
            &&& x.cursor >= x.script.steps.len() ==> (r matches Err(e) && e is OutOfOrder) && t.txns
                == s.txns
            &&& t.txns[h.0].script == x.script
            &&& t.txns[h.0].env == x.env
            &&& t.txns[h.0].session_open == x.session_open
        }),
{
}

/// An answer is taken if and only if something was asked, and once.
pub proof fn an_answer_is_taken_once(s: MockView, h: PamHandleId, secret: bool)
    requires
        s.fail_on is None,
        s.txns.contains_key(h.0),
    ensures
        ({
            let (t, r) = answer_of(s, h, secret);
            &&& r is Ok <==> s.txns[h.0].awaiting_answer
            &&& !t.txns[h.0].awaiting_answer
            &&& answer_of(t, h, secret).1 is Err
            &&& t.calls == s.calls.push(CallView::Answer { secret })
            &&& t.txns[h.0].script == s.txns[h.0].script
            &&& t.txns[h.0].cursor == s.txns[h.0].cursor
        }),
{
}

/// A variable that was put is there with its value, and the others are as they were.
pub proof fn a_variable_that_was_put_is_there(
    s: MockView,
    h: PamHandleId,
    key: Seq<char>,
    value: Seq<char>,
    other: Seq<char>,
)
    requires
        s.fail_on is None,
        s.txns.contains_key(h.0),
        other != key,
    ensures
        ({
            let (t, r) = putenv_of(s, h, key, value);
            let before = s.txns[h.0].env;
            let after = t.txns[h.0].env;
            &&& r is Ok
            &&& t.calls == s.calls.push(CallView::PutEnv(key))
            &&& after.contains_key(key) && after[key] == value
            &&& after.contains_key(other) == before.contains_key(other)
            &&& before.contains_key(other) ==> after[other] == before[other]
            &&& t.txns[h.0].script == s.txns[h.0].script
            &&& t.txns[h.0].completed == s.txns[h.0].completed
            &&& t.txns[h.0].session_open == s.txns[h.0].session_open
        }),
{
}

/// The verdict on the account and the principal are those of the script, and asking
/// for them changes no transaction.
pub proof fn the_script_says_who_and_whether(s: MockView, h: PamHandleId)
    requires
        s.fail_on is None,
        s.txns.contains_key(h.0),
    ensures
        acct_of(s, h).0.txns == s.txns,
        s.txns[h.0].script.acct matches Some(v) ==> acct_of(s, h).1 == Ok::<AcctVerdict, PamError>(v),
        s.txns[h.0].script.acct is None ==> acct_of(s, h).1 is Err,
        uid_of(s, h) == Ok::<Uid, PamError>(s.txns[h.0].script.uid),
{
}

/// A transaction that has ended is not there any more, the others are, and no call
/// on it succeeds.
pub proof fn an_ended_transaction_is_gone(s: MockView, h: PamHandleId, other: u64, secret: bool)
    requires
        s.fail_on is None,
        s.txns.contains_key(h.0),
        other != h.0,
    ensures
        ({
            let (t, r) = end_of(s, h);
            &&& r is Ok
            &&& !t.txns.contains_key(h.0)
            &&& t.txns.contains_key(other) == s.txns.contains_key(other)
            &&& s.txns.contains_key(other) ==> t.txns[other] == s.txns[other]
            &&& next_of(t, h).1 == Err::<PamStep, PamError>(PamError::NoSuchHandle)
            &&& answer_of(t, h, secret).1 is Err
            &&& acct_of(t, h).1 is Err
            &&& end_of(t, h).1 is Err
            &&& uid_of(t, h) is Err
        }),
{
}

/// A call that is made to fail fails and leaves no trace of itself; every other call
/// is remembered, behind those before it.
pub proof fn a_call_made_to_fail_leaves_no_trace(s: MockView, c: CallView)
    ensures
        s.fail_on == Some(c) <==> seen(s, c) is None,
        seen(s, c) matches Some(t) ==> {
            &&& t.calls == s.calls.push(c)
            &&& t.txns == s.txns
            &&& t.forked == s.forked
            &&& t.script == s.script
            &&& t.next_handle == s.next_handle
            &&& t.fail_on == s.fail_on
        },
{
}

/// What is forked is remembered whole: the command, the plan, the environment that
/// it was given and the principal.
pub proof fn a_fork_is_remembered_whole(
    s: MockView,
    plan: SessionPlan,
    env: EnvSet,
    to: Uid,
    after: MockView,
    r: Result<ChildPid, SpawnError>,
)
    requires
        forks(s, plan, env, to, after, r),
        s.fail_on is None,
    ensures
        r == Ok::<ChildPid, SpawnError>(ChildPid(4242)),
        after.forked.len() == s.forked.len() + 1,
        after.forked.drop_last() == s.forked,
        after.forked.last().argv == plan.argv@,
        after.forked.last().plan_env == plan.env.entries(),
        after.forked.last().env == env.entries(),
        after.forked.last().to == to,
        after.txns == s.txns,
{
    assert(after.forked.drop_last() =~= s.forked);
}

/// The environment that is read holds what was put and, while the session is open,
/// what its modules add, which counts over what was put.
pub proof fn the_modules_add_to_what_was_put(
    s: MockView,
    h: PamHandleId,
    after: MockView,
    e: EnvSet,
    key: Seq<char>,
)
    requires
        reads_env(s, h, after, Ok(e)),
    ensures
        s.txns.contains_key(h.0),
        after.txns == s.txns,
        ({
            let x = s.txns[h.0];
            let modules = x.session_open && x.script.session_env.contains_key(key);
            &&& e@.contains_key(key) <==> modules || x.env.contains_key(key)
            &&& modules ==> e@[key] == x.script.session_env[key]
            &&& !modules && x.env.contains_key(key) ==> e@[key] == x.env[key]
        }),
{
}

/// A directory knows the names that its profiles have, and no other.
pub proof fn a_directory_knows_its_own(principals: Seq<PublicProfile>, more: PublicProfile, name: Seq<char>)
    ensures
        !knows(Seq::empty(), name),
        knows(principals.push(more), name) <==> knows(principals, name) || more.name@ == name,
{
    let all = principals.push(more);
    if knows(all, name) && more.name@ != name {
        let i = choose|i: int| 0 <= i < all.len() && #[trigger] all[i].name@ == name;
        assert(principals[i].name@ == name);
    }
    if knows(principals, name) {
        let i = choose|i: int| 0 <= i < principals.len() && #[trigger] principals[i].name@ == name;
        assert(all[i].name@ == name);
    }
    if more.name@ == name {
        assert(all[principals.len() as int].name@ == name);
    }
}

} // verus!
