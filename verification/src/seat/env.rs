//! The login environment without libpam: it asks its own questions, checks the
//! passphrase itself and registers the session with logind.
//!
//! Reading the shadow file, looking a principal up and calling logind are the
//! caller's. What they came to is handed in, and every decision is here.
use std::collections::BTreeMap;
use vstd::prelude::*;
use crate::border::capability::{AuthProof, Passphrase};
use crate::border::env::{
    AcctVerdict, Answer, CredFlag, EnvPair, MsgStyle, PamAnswer, PamClass, PamError, PamStep,
    PromptText, PublicProfile,
};
use crate::border::env_set::EnvSet;
use crate::border::ids::{PamHandleId, ServiceName, Uid, UserName};
use crate::native::logind::{Class, Kind, Request, Session};
use crate::native::shadow;
use crate::native::verify;
use crate::native::verify::Verdict;
use crate::text;

verus! {

broadcast use {vstd::std_specs::btree::group_btree_axioms, vstd::laws_cmp::group_laws_cmp};

/// Where the hashes are, unless something else is said.
pub const DEFAULT_SHADOW: &'static str = "/etc/shadow";

/// The number of a virtual terminal, which is never zero.
#[derive(Debug, Clone, Copy, PartialEq, Eq)]
pub struct VtNumber(u32);

impl VtNumber {
    #[verifier::type_invariant]
    spec fn counted(self) -> bool {
        self.0 != 0
    }

    pub closed spec fn view(&self) -> u32 {
        self.0
    }

    /// The terminal with this number; zero is none.
    pub fn new(n: u32) -> (r: Option<Self>)
        ensures
            r is Some <==> n != 0,
            r matches Some(v) ==> v@ == n,
    {
        if n == 0 {
            None
        } else {
            Some(VtNumber(n))
        }
    }

    pub fn get(&self) -> (n: u32)
        ensures
            n == self@,
            n != 0,
    {
        proof {
            use_type_invariant(self);
        }
        self.0
    }
}

/// Where a session is attached. logind wants a terminal on a seat that has
/// terminals and refuses one without a seat, so the two are one value.
#[derive(Debug, PartialEq, Eq)]
pub enum Console {
    /// Neither a seat nor a terminal.
    Seatless,
    /// A seat with terminals, and the one that the session occupies.
    Vt { seat: String, vtnr: VtNumber },
}

impl Clone for Console {
    fn clone(&self) -> (r: Self)
        ensures
            r == *self,
    {
        match self {
            Console::Seatless => Console::Seatless,
            Console::Vt { seat, vtnr } => Console::Vt { seat: seat.clone(), vtnr: *vtnr },
        }
    }
}

/// One login in progress.
struct Txn {
    user: Option<String>,
    uid: Option<Uid>,
    awaiting: Option<MsgStyle>,
    authenticated: bool,
    refused: bool,
    env: EnvSet,
    session: Option<Session>,
    authtok: Option<Passphrase>,
}

/// What a login in progress comes to.
pub struct LoginView {
    /// Who is logging in, once that is known.
    pub user: Option<Seq<char>>,
    /// Their uid, once their passphrase was accepted.
    pub uid: Option<Uid>,
    /// What is being asked.
    pub awaiting: Option<MsgStyle>,
    pub authenticated: bool,
    pub refused: bool,
    pub env: Map<Seq<char>, Seq<char>>,
    pub session: Option<Session>,
    /// The passphrase that was accepted, until a proof is made of it.
    pub authtok: Option<Seq<char>>,
}

/// What every login in progress keeps: it is authenticated only with a uid and
/// never beside a refusal or an open question, a passphrase is held only where
/// it was accepted, and one is asked for only once the name is known.
pub open spec fn coherent(t: LoginView) -> bool {
    &&& t.authenticated ==> t.uid is Some && t.user is Some && !t.refused && t.awaiting is None
    &&& t.refused ==> t.awaiting is None
    &&& t.authtok is Some ==> t.authenticated
    &&& t.session is Some ==> t.authenticated
    &&& t.awaiting == Some(MsgStyle::PromptEchoOff) ==> t.user is Some
    &&& t.awaiting matches Some(s) ==> s == MsgStyle::PromptEchoOff || s == MsgStyle::PromptEchoOn
}

impl Txn {
    closed spec fn view(&self) -> LoginView {
        LoginView {
            user: text::opt_text(self.user),
            uid: self.uid,
            awaiting: self.awaiting,
            authenticated: self.authenticated,
            refused: self.refused,
            env: self.env@,
            session: self.session,
            authtok: match self.authtok {
                Some(p) => Some(p@),
                None => None,
            },
        }
    }
}

/// A passphrase that was accepted and waits for its principal to be looked up.
/// It comes from [`NativeSeatEnv::pam_answer`] alone.
pub struct Accepted {
    handle: PamHandleId,
    user: String,
    token: Passphrase,
}

impl Accepted {
    /// The transaction that it belongs to.
    pub closed spec fn of(&self) -> PamHandleId {
        self.handle
    }

    /// Whose passphrase it is.
    pub closed spec fn who(&self) -> Seq<char> {
        self.user@
    }

    /// The passphrase.
    pub closed spec fn token(&self) -> Seq<char> {
        self.token@
    }

    /// The name to look up.
    pub fn user(&self) -> (s: &str)
        ensures
            s@ == self.who(),
    {
        self.user.as_str()
    }
}

/// The production login environment.
pub struct NativeSeatEnv {
    shadow: String,
    console: Console,
    txns: BTreeMap<u64, Txn>,
    next: u64,
}

/// What the environment holds.
pub struct NativeView {
    /// The path of the shadow file.
    pub shadow: Seq<char>,
    pub console: Console,
    pub txns: Map<u64, LoginView>,
    /// The handle that the next transaction gets.
    pub next: u64,
}

/// A transaction that has just been opened. A name that was handed over is not
/// asked for again.
pub open spec fn opened(user: Option<Seq<char>>) -> LoginView {
    LoginView {
        user,
        uid: None,
        awaiting: Some(
            if user is Some {
                MsgStyle::PromptEchoOff
            } else {
                MsgStyle::PromptEchoOn
            },
        ),
        authenticated: false,
        refused: false,
        env: Map::empty(),
        session: None,
        authtok: None,
    }
}

/// Whether `step` is what a transaction wants next.
pub open spec fn is_next(t: LoginView, step: PamStep) -> bool {
    if t.authenticated {
        step is Complete
    } else if t.refused {
        step == (PamStep::Failed { class: PamClass::AuthError })
    } else if t.awaiting == Some(MsgStyle::PromptEchoOn) {
        step matches PamStep::Prompt { style, msg } && style == MsgStyle::PromptEchoOn && msg.0@
            == "Username"@
    } else if t.awaiting == Some(MsgStyle::PromptEchoOff) {
        step matches PamStep::Prompt { style, msg } && style == MsgStyle::PromptEchoOff && msg.0@
            == "Password"@
    } else {
        step == (PamStep::Failed { class: PamClass::AuthError })
    }
}

/// What an answer comes to.
pub enum AnswerView {
    Wrong(PamError),
    /// The name was given.
    Named(Seq<char>),
    /// The passphrase is not that of the account.
    Refused,
    /// The passphrase is that of the account.
    Accepted { user: Seq<char>, token: Seq<char> },
}

/// The verdict that a shadow file's text gives on a passphrase.
pub open spec fn judged(file: Seq<char>, user: Seq<char>, pass: Seq<char>) -> Verdict {
    match shadow::found(text::lines_of(file), user) {
        Some(e) => verify::verified(e, pass),
        None => Verdict::Refused,
    }
}

/// What an answer comes to; `file` is the text of the shadow file where it
/// could be read.
pub open spec fn answered(t: LoginView, a: PamAnswer, file: Option<Seq<char>>) -> AnswerView {
    match (t.awaiting, a) {
        (None, _) => AnswerView::Wrong(PamError::OutOfOrder("nothing was being asked")),
        (Some(MsgStyle::PromptEchoOn), PamAnswer::Visible(name)) => AnswerView::Named(name@),
        (Some(MsgStyle::PromptEchoOff), PamAnswer::Secret(p)) => match (t.user, file) {
            (None, _) => AnswerView::Wrong(PamError::OutOfOrder("a passphrase before a username")),
            (Some(_), None) => AnswerView::Wrong(
                PamError::OutOfOrder("the shadow file could not be read"),
            ),
            (Some(user), Some(file)) => if judged(file, user, p@) == Verdict::Accepted {
                AnswerView::Accepted { user, token: p@ }
            } else {
                AnswerView::Refused
            },
        },
        _ => AnswerView::Wrong(PamError::OutOfOrder("the answer did not match the prompt")),
    }
}

/// Whether a transaction waits for the principal of an accepted passphrase.
pub open spec fn is_checked(t: LoginView, user: Seq<char>) -> bool {
    t.awaiting is None && !t.authenticated && !t.refused && t.user == Some(user)
}

/// The transaction after the lookup. A passphrase that matched, of a name that
/// no principal has, is refused.
pub open spec fn settled(t: LoginView, token: Seq<char>, uid: Option<Uid>) -> LoginView {
    match uid {
        Some(_) => LoginView { uid, authenticated: true, authtok: Some(token), ..t },
        None => LoginView { refused: true, ..t },
    }
}

/// The environment of a session after logind has answered.
pub open spec fn session_env(env: Map<Seq<char>, Seq<char>>, s: Session) -> Map<
    Seq<char>,
    Seq<char>,
> {
    env.insert("XDG_RUNTIME_DIR"@, s.runtime_path@).insert("XDG_SESSION_ID"@, s.id@).insert(
        "XDG_SEAT"@,
        s.seat@,
    ).insert("XDG_VTNR"@, text::decimal(s.vtnr as nat))
}

/// Whether `q` asks logind for a session of `uid` on `console`.
pub open spec fn is_request(q: Request, uid: Uid, pid: u32, console: Console) -> bool {
    &&& q.uid == uid.0
    &&& q.pid == pid
    &&& q.service@ == "mukae"@
    &&& q.kind == Kind::Tty
    &&& q.class == Class::User
    &&& q.desktop@ == Seq::<char>::empty()
    &&& match console {
        Console::Seatless => q.seat@ == Seq::<char>::empty() && q.vtnr == 0,
        Console::Vt { seat, vtnr } => q.seat@ == seat@ && q.vtnr == vtnr@,
    }
    &&& q.tty@ == Seq::<char>::empty()
    &&& q.display@ == Seq::<char>::empty()
    &&& !q.remote
    &&& q.remote_user@ == Seq::<char>::empty()
    &&& q.remote_host@ == Seq::<char>::empty()
}

impl NativeView {
    pub open spec fn with(self, h: PamHandleId, t: LoginView) -> NativeView {
        NativeView { txns: self.txns.insert(h.0, t), ..self }
    }
}

impl NativeSeatEnv {
    #[verifier::type_invariant]
    spec fn kept(self) -> bool {
        forall|k: u64| #[trigger] self.txns@.contains_key(k) ==> coherent(self.txns@[k]@)
    }

    pub closed spec fn view(&self) -> NativeView {
        NativeView {
            shadow: self.shadow@,
            console: self.console,
            txns: self.txns@.map_values(|t: Txn| t@),
            next: self.next,
        }
    }

    /// An environment over the system's shadow file.
    pub fn new() -> (e: Self)
        ensures
            e@ == (NativeView {
                shadow: DEFAULT_SHADOW@,
                console: Console::Seatless,
                txns: Map::empty(),
                next: 1,
            }),
    {
        NativeSeatEnv::with_shadow(DEFAULT_SHADOW.to_owned())
    }

    /// An environment over the shadow file at this path, attached to no console.
    pub fn with_shadow(shadow: String) -> (e: Self)
        ensures
            e@ == (NativeView {
                shadow: shadow@,
                console: Console::Seatless,
                txns: Map::empty(),
                next: 1,
            }),
    {
        let e = NativeSeatEnv {
            shadow,
            console: Console::Seatless,
            txns: BTreeMap::new(),
            next: 1,
        };
        proof {
            assert(e@.txns =~= Map::<u64, LoginView>::empty());
        }
        e
    }

    /// Attaches sessions to a console.
    pub fn on_console(self, console: Console) -> (e: Self)
        ensures
            e@ == (NativeView { console, ..self@ }),
    {
        proof {
            use_type_invariant(&self);
        }
        NativeSeatEnv { shadow: self.shadow, console, txns: self.txns, next: self.next }
    }

    /// The path of the shadow file.
    pub fn shadow_path(&self) -> (s: &str)
        ensures
            s@ == self@.shadow,
    {
        self.shadow.as_str()
    }

    fn take_txn(&mut self, h: PamHandleId) -> (t: Option<Txn>)
        ensures
            t is Some <==> old(self)@.txns.contains_key(h.0),
            t matches Some(x) ==> x@ == old(self)@.txns[h.0] && coherent(x@),
            final(self)@ == (NativeView { txns: old(self)@.txns.remove(h.0), ..old(self)@ }),
    {
        proof {
            use_type_invariant(&*self);
        }
        let mut table: BTreeMap<u64, Txn> = BTreeMap::new();
        std::mem::swap(&mut table, &mut self.txns);
        let t: Option<Txn> = table.remove(&h.0);
        self.txns = table;
        proof {
            assert(self@.txns =~= old(self)@.txns.remove(h.0));
        }
        t
    }

    fn put_txn(&mut self, h: PamHandleId, t: Txn)
        requires
            coherent(t@),
        ensures
            final(self)@ == old(self)@.with(h, t@),
    {
        proof {
            use_type_invariant(&*self);
        }
        let mut table: BTreeMap<u64, Txn> = BTreeMap::new();
        std::mem::swap(&mut table, &mut self.txns);
        table.insert(h.0, t);
        self.txns = table;
        proof {
            assert(self@.txns =~= old(self)@.txns.insert(h.0, t@));
        }
    }

    /// Opens a transaction.
    pub fn pam_start(&mut self, svc: &ServiceName, user: Option<&UserName>) -> (r: Result<
        PamHandleId,
        PamError,
    >)
        ensures
            r == Ok::<PamHandleId, PamError>(PamHandleId(old(self)@.next)),
            final(self)@ == (NativeView {
                txns: old(self)@.txns.insert(
                    old(self)@.next,
                    opened(crate::border::env::user_text(user)),
                ),
                next: vstd::wrapping::u64_specs::wrapping_add(old(self)@.next, 1),
                ..old(self)@
            }),
    {
        let id: u64 = self.next;
        let name: Option<String> = match user {
            Some(u) => Some(u.as_str().to_owned()),
            None => None,
        };
        let awaiting: MsgStyle = match &name {
            Some(_) => MsgStyle::PromptEchoOff,
            None => MsgStyle::PromptEchoOn,
        };
        let t = Txn {
            user: name,
            uid: None,
            awaiting: Some(awaiting),
            authenticated: false,
            refused: false,
            env: EnvSet::new(),
            session: None,
            authtok: None,
        };
        self.put_txn(PamHandleId(id), t);
        proof {
            use_type_invariant(&*self);
        }
        self.next = id.wrapping_add(1);
        Ok(PamHandleId(id))
    }

    /// What a transaction wants next. There is one attempt in a transaction, and
    /// every transaction is coherent.
    pub fn pam_next(&self, h: PamHandleId) -> (r: Result<PamStep, PamError>)
        ensures
            match r {
                Ok(step) => self@.txns.contains_key(h.0) && is_next(self@.txns[h.0], step)
                    && coherent(self@.txns[h.0]),
                Err(e) => !self@.txns.contains_key(h.0) && e == PamError::NoSuchHandle,
            },
    {
        proof {
            use_type_invariant(self);
        }
        match self.txns.get(&h.0) {
            None => Err(PamError::NoSuchHandle),
            Some(t) => {
                if t.authenticated {
                    return Ok(PamStep::Complete);
                }
                if t.refused {
                    return Ok(PamStep::Failed { class: PamClass::AuthError });
                }
                match t.awaiting {
                    Some(MsgStyle::PromptEchoOn) => Ok(
                        PamStep::Prompt {
                            style: MsgStyle::PromptEchoOn,
                            msg: PromptText("Username".to_owned()),
                        },
                    ),
                    Some(MsgStyle::PromptEchoOff) => Ok(
                        PamStep::Prompt {
                            style: MsgStyle::PromptEchoOff,
                            msg: PromptText("Password".to_owned()),
                        },
                    ),
                    _ => Ok(PamStep::Failed { class: PamClass::AuthError }),
                }
            },
        }
    }

    /// Takes an answer. `file` is the text of the shadow file, where it could be
    /// read. An accepted passphrase comes back for its principal to be looked up.
    pub fn pam_answer(&mut self, h: PamHandleId, a: PamAnswer, file: Option<&str>) -> (r: Result<
        Option<Accepted>,
        PamError,
    >)
        ensures
            !old(self)@.txns.contains_key(h.0) ==> final(self)@ == old(self)@ && (r matches Err(e) && e
                == PamError::NoSuchHandle),
            old(self)@.txns.contains_key(h.0) ==> ({
                let t = old(self)@.txns[h.0];
                let seen = match file {
                    Some(s) => Some(s@),
                    None => None,
                };
                match answered(t, a, seen) {
                    AnswerView::Wrong(w) => final(self)@ == old(self)@ && (r matches Err(e) && e == w),
                    AnswerView::Named(n) => (r matches Ok(None)) && final(self)@ == old(self)@.with(
                        h,
                        LoginView { user: Some(n), awaiting: Some(MsgStyle::PromptEchoOff), ..t },
                    ),
                    AnswerView::Refused => (r matches Ok(None)) && final(self)@ == old(self)@.with(
                        h,
                        LoginView { awaiting: None, refused: true, ..t },
                    ),
                    AnswerView::Accepted { user, token } => (r matches Ok(Some(c)) && c.of() == h
                        && c.who() == user && c.token() == token) && final(self)@ == old(self)@.with(
                        h,
                        LoginView { awaiting: None, ..t },
                    ),
                }
            }),
    {
        let ghost before = self@;
        match self.take_txn(h) {
            None => {
                assert(self@.txns =~= before.txns);
                Err(PamError::NoSuchHandle)
            },
            Some(t) => {
                let mut t: Txn = t;
                let r: Result<Option<Accepted>, PamError> = match (t.awaiting, a) {
                    (None, _) => Err(PamError::OutOfOrder("nothing was being asked")),
                    (Some(MsgStyle::PromptEchoOn), PamAnswer::Visible(name)) => {
                        t.user = Some(name);
                        t.awaiting = Some(MsgStyle::PromptEchoOff);
                        Ok(None)
                    },
                    (Some(MsgStyle::PromptEchoOff), PamAnswer::Secret(p)) => match (&t.user, file) {
                        (None, _) => Err(PamError::OutOfOrder("a passphrase before a username")),
                        (Some(_), None) => Err(
                            PamError::OutOfOrder("the shadow file could not be read"),
                        ),
                        (Some(user), Some(file)) => {
                            let user: String = user.clone();
                            t.awaiting = None;
                            match verify::verify_user(file, user.as_str(), p.expose()) {
                                Verdict::Accepted => Ok(Some(Accepted { handle: h, user, token: p })),
                                _ => {
                                    t.refused = true;
                                    Ok(None)
                                },
                            }
                        },
                    },
                    _ => Err(PamError::OutOfOrder("the answer did not match the prompt")),
                };
                self.put_txn(h, t);
                assert(self@.txns =~= before.txns.insert(h.0, t@));
                proof {
                    if r is Err {
                        assert(self@.txns =~= before.txns);
                    }
                }
                r
            },
        }
    }

    /// Settles an accepted passphrase by what the lookup of its principal came
    /// to. One that no longer fits its transaction is not taken.
    pub fn principal_resolved(&mut self, c: Accepted, uid: Option<Uid>) -> (r: Result<(), PamError>)
        ensures
            ({
                let h = c.of();
                let t = old(self)@.txns[h.0];
                if !old(self)@.txns.contains_key(h.0) {
                    final(self)@ == old(self)@ && (r matches Err(e) && e == PamError::NoSuchHandle)
                } else if !is_checked(t, c.who()) {
                    final(self)@ == old(self)@ && (r matches Err(e) && e == PamError::OutOfOrder(
                        "nothing was being asked",
                    ))
                } else {
                    r is Ok && final(self)@ == old(self)@.with(h, settled(t, c.token(), uid))
                }
            }),
    {
        let ghost before = self@;
        let h: PamHandleId = c.handle;
        match self.take_txn(h) {
            None => {
                assert(self@.txns =~= before.txns);
                Err(PamError::NoSuchHandle)
            },
            Some(t) => {
                let mut t: Txn = t;
                let named: bool = match &t.user {
                    Some(u) => text::same(u.as_str(), c.user.as_str()),
                    None => false,
                };
                if t.awaiting.is_some() || t.authenticated || t.refused || !named {
                    self.put_txn(h, t);
                    assert(self@.txns =~= before.txns);
                    return Err(PamError::OutOfOrder("nothing was being asked"));
                }
                match uid {
                    Some(u) => {
                        t.uid = Some(u);
                        t.authenticated = true;
                        t.authtok = Some(c.token);
                    },
                    None => {
                        t.refused = true;
                    },
                }
                self.put_txn(h, t);
                assert(self@.txns =~= before.txns.insert(h.0, t@));
                Ok(())
            },
        }
    }

    /// Whether the account may be used: where its holder is authenticated.
    pub fn pam_acct_mgmt(&self, h: PamHandleId) -> (r: Result<AcctVerdict, PamError>)
        ensures
            r == (if !self@.txns.contains_key(h.0) {
                Err::<AcctVerdict, PamError>(PamError::NoSuchHandle)
            } else if self@.txns[h.0].authenticated {
                Ok(AcctVerdict::Okay)
            } else {
                Ok(AcctVerdict::PermDenied)
            }),
    {
        match self.txns.get(&h.0) {
            None => Err(PamError::NoSuchHandle),
            Some(t) => if t.authenticated {
                Ok(AcctVerdict::Okay)
            } else {
                Ok(AcctVerdict::PermDenied)
            },
        }
    }

    /// An expired passphrase cannot be changed here, and that is said.
    pub fn pam_chauthtok(&self, h: PamHandleId) -> (r: Result<(), PamError>)
        ensures
            r matches Err(e) && e == (if self@.txns.contains_key(h.0) {
                PamError::OutOfOrder(
                    "changing an expired passphrase is not implemented in the native environment",
                )
            } else {
                PamError::NoSuchHandle
            }),
    {
        match self.txns.get(&h.0) {
            None => Err(PamError::NoSuchHandle),
            Some(_) => Err(
                PamError::OutOfOrder(
                    "changing an expired passphrase is not implemented in the native environment",
                ),
            ),
        }
    }

    /// There are no credentials to move.
    pub fn pam_setcred(&self, h: PamHandleId, f: CredFlag) -> (r: Result<(), PamError>)
        ensures
            r is Ok <==> self@.txns.contains_key(h.0),
            r matches Err(e) ==> e == PamError::NoSuchHandle,
    {
        match self.txns.get(&h.0) {
            None => Err(PamError::NoSuchHandle),
            Some(_) => Ok(()),
        }
    }

    /// Contributes a variable to the session's environment.
    pub fn pam_putenv(&mut self, h: PamHandleId, kv: EnvPair) -> (r: Result<(), PamError>)
        ensures
            if old(self)@.txns.contains_key(h.0) {
                let t = old(self)@.txns[h.0];
                r is Ok && final(self)@ == old(self)@.with(
                    h,
                    LoginView { env: t.env.insert(kv.key@, kv.value@), ..t },
                )
            } else {
                final(self)@ == old(self)@ && (r matches Err(e) && e == PamError::NoSuchHandle)
            },
    {
        let ghost before = self@;
        match self.take_txn(h) {
            None => {
                assert(self@.txns =~= before.txns);
                Err(PamError::NoSuchHandle)
            },
            Some(t) => {
                let mut t: Txn = t;
                t.env.insert(kv.key, kv.value);
                self.put_txn(h, t);
                assert(self@.txns =~= before.txns.insert(h.0, t@));
                Ok(())
            },
        }
    }

    /// What logind is to be asked when the session is opened by the process
    /// `pid`. A terminal is asked for if and only if there is a console.
    pub fn pam_open_session(&self, h: PamHandleId, pid: u32) -> (r: Result<Request, PamError>)
        ensures
            match r {
                Ok(q) => self@.txns.contains_key(h.0) && self@.txns[h.0].authenticated && (
                self@.txns[h.0].uid matches Some(u) && is_request(q, u, pid, self@.console)) && (q.vtnr
                    == 0 <==> self@.console is Seatless),
                Err(e) => if !self@.txns.contains_key(h.0) {
                    e == PamError::NoSuchHandle
                } else {
                    !self@.txns[h.0].authenticated && e == PamError::OutOfOrder(
                        "a session cannot be opened for an unauthenticated transaction",
                    )
                },
            },
    {
        proof {
            use_type_invariant(self);
        }
        match self.txns.get(&h.0) {
            None => Err(PamError::NoSuchHandle),
            Some(t) => {
                assert(self.txns@.contains_key(h.0));
                if !t.authenticated {
                    return Err(
                        PamError::OutOfOrder(
                            "a session cannot be opened for an unauthenticated transaction",
                        ),
                    );
                }
                let (seat, vtnr): (String, u32) = match &self.console {
                    Console::Seatless => (String::new(), 0),
                    Console::Vt { seat, vtnr } => (seat.clone(), vtnr.get()),
                };
                match t.uid {
                    None => Err(PamError::OutOfOrder("no uid resolved")),
                    Some(uid) => Ok(
                        Request {
                            uid: uid.0,
                            pid,
                            service: "mukae".to_owned(),
                            kind: Kind::Tty,
                            class: Class::User,
                            desktop: String::new(),
                            seat,
                            vtnr,
                            tty: String::new(),
                            display: String::new(),
                            remote: false,
                            remote_user: String::new(),
                            remote_host: String::new(),
                        },
                    ),
                }
            },
        }
    }

    /// Takes in what logind answered: a session, whose values go into the
    /// environment as logind gave them, or that it refused.
    pub fn session_opened(&mut self, h: PamHandleId, answer: Option<Session>) -> (r: Result<
        (),
        PamError,
    >)
        ensures
            ({
                let t = old(self)@.txns[h.0];
                if !old(self)@.txns.contains_key(h.0) {
                    final(self)@ == old(self)@ && (r matches Err(e) && e == PamError::NoSuchHandle)
                } else if !t.authenticated {
                    final(self)@ == old(self)@ && (r matches Err(e) && e == PamError::OutOfOrder(
                        "a session cannot be opened for an unauthenticated transaction",
                    ))
                } else {
                    match answer {
                        None => final(self)@ == old(self)@ && (r matches Err(e) && e
                            == PamError::OutOfOrder("logind refused the session")),
                        Some(s) => r is Ok && final(self)@ == old(self)@.with(
                            h,
                            LoginView { env: session_env(t.env, s), session: Some(s), ..t },
                        ),
                    }
                }
            }),
    {
        let ghost before = self@;
        match self.take_txn(h) {
            None => {
                assert(self@.txns =~= before.txns);
                Err(PamError::NoSuchHandle)
            },
            Some(t) => {
                let mut t: Txn = t;
                if !t.authenticated {
                    self.put_txn(h, t);
                    assert(self@.txns =~= before.txns);
                    return Err(
                        PamError::OutOfOrder(
                            "a session cannot be opened for an unauthenticated transaction",
                        ),
                    );
                }
                match answer {
                    None => {
                        self.put_txn(h, t);
                        assert(self@.txns =~= before.txns);
                        Err(PamError::OutOfOrder("logind refused the session"))
                    },
                    Some(s) => {
                        t.env.insert("XDG_RUNTIME_DIR".to_owned(), s.runtime_path.clone());
                        t.env.insert("XDG_SESSION_ID".to_owned(), s.id.clone());
                        t.env.insert("XDG_SEAT".to_owned(), s.seat.clone());
                        t.env.insert("XDG_VTNR".to_owned(), text::decimal_of(s.vtnr as u64));
                        t.session = Some(s);
                        self.put_txn(h, t);
                        assert(self@.txns =~= before.txns.insert(h.0, t@));
                        Ok(())
                    },
                }
            },
        }
    }

    /// The environment of the session.
    pub fn pam_getenvlist(&self, h: PamHandleId) -> (r: Result<EnvSet, PamError>)
        ensures
            match r {
                Ok(e) => self@.txns.contains_key(h.0) && e@ == self@.txns[h.0].env,
                Err(e) => !self@.txns.contains_key(h.0) && e == PamError::NoSuchHandle,
            },
    {
        match self.txns.get(&h.0) {
            None => Err(PamError::NoSuchHandle),
            Some(t) => Ok(t.env.clone()),
        }
    }

    /// Closes the session.
    pub fn pam_close_session(&mut self, h: PamHandleId) -> (r: Result<(), PamError>)
        ensures
            if old(self)@.txns.contains_key(h.0) {
                r is Ok && final(self)@ == old(self)@.with(
                    h,
                    LoginView { session: None, ..old(self)@.txns[h.0] },
                )
            } else {
                final(self)@ == old(self)@ && (r matches Err(e) && e == PamError::NoSuchHandle)
            },
    {
        let ghost before = self@;
        match self.take_txn(h) {
            None => {
                assert(self@.txns =~= before.txns);
                Err(PamError::NoSuchHandle)
            },
            Some(t) => {
                let mut t: Txn = t;
                t.session = None;
                self.put_txn(h, t);
                assert(self@.txns =~= before.txns.insert(h.0, t@));
                Ok(())
            },
        }
    }

    /// Ends a transaction.
    pub fn pam_end(&mut self, h: PamHandleId) -> (r: Result<(), PamError>)
        ensures
            final(self)@ == (NativeView { txns: old(self)@.txns.remove(h.0), ..old(self)@ }),
            r is Ok <==> old(self)@.txns.contains_key(h.0),
            r matches Err(e) ==> e == PamError::NoSuchHandle,
    {
        match self.take_txn(h) {
            None => Err(PamError::NoSuchHandle),
            Some(_) => Ok(()),
        }
    }

    /// The answer about a principal, by what the lookup of their name came to.
    pub fn resolve_principal(&self, n: &UserName, uid: Option<Uid>) -> (r: Answer<PublicProfile>)
        ensures
            match uid {
                Some(u) => r matches Answer::Found(p) && p.uid == u && p.name == *n && p.display_name
                    is None,
                None => r == (Answer::<PublicProfile>::Empty { of: "principal" }),
            },
    {
        match uid {
            Some(uid) => Answer::Found(PublicProfile { uid, name: n.clone(), display_name: None }),
            None => Answer::Empty { of: "principal" },
        }
    }

    /// Principals are not listed here, and that is said.
    pub fn enumerate_principals(&self) -> (r: Answer<Vec<PublicProfile>>)
        ensures
            r matches Answer::Refused { because, legal } && because@
                == "the native environment does not enumerate principals"@ && text::texts(legal@)
                == seq!["resolve_principal by exact name"@],
    {
        let mut legal: Vec<String> = Vec::new();
        legal.push("resolve_principal by exact name".to_owned());
        proof {
            assert(text::texts(legal@) =~= seq!["resolve_principal by exact name"@]);
        }
        Answer::Refused {
            because: "the native environment does not enumerate principals".to_owned(),
            legal,
        }
    }

    /// Whom a transaction is about.
    pub fn uid_for_handle(&self, h: PamHandleId) -> (r: Result<Uid, PamError>)
        ensures
            r == (if !self@.txns.contains_key(h.0) {
                Err::<Uid, PamError>(PamError::NoSuchHandle)
            } else {
                match self@.txns[h.0].uid {
                    Some(u) => Ok(u),
                    None => Err(PamError::OutOfOrder("no uid resolved yet")),
                }
            }),
    {
        match self.txns.get(&h.0) {
            None => Err(PamError::NoSuchHandle),
            Some(t) => match t.uid {
                Some(u) => Ok(u),
                None => Err(PamError::OutOfOrder("no uid resolved yet")),
            },
        }
    }

    /// Makes a proof of a transaction that authenticated. The passphrase goes
    /// into it, so there is one proof at most.
    pub fn mint_proof(&mut self, h: PamHandleId, uid: Uid) -> (r: Result<AuthProof, PamError>)
        ensures
            ({
                let t = old(self)@.txns[h.0];
                match r {
                    Ok(p) => old(self)@.txns.contains_key(h.0) && t.authenticated && t.authtok is Some
                        && p.who() == uid && p.authtok() == t.authtok && final(self)@ == old(self)@.with(
                        h,
                        LoginView { authtok: None, ..t },
                    ),
                    Err(e) => final(self)@ == old(self)@ && if !old(self)@.txns.contains_key(h.0) {
                        e == PamError::NoSuchHandle
                    } else if !t.authenticated {
                        e == PamError::OutOfOrder("cannot mint a proof from an unfinished conversation")
                    } else {
                        t.authtok is None && e == PamError::OutOfOrder(
                            "the authtok was already consumed",
                        )
                    },
                }
            }),
    {
        let ghost before = self@;
        match self.take_txn(h) {
            None => {
                assert(self@.txns =~= before.txns);
                Err(PamError::NoSuchHandle)
            },
            Some(t) => {
                let mut t: Txn = t;
                if !t.authenticated {
                    self.put_txn(h, t);
                    assert(self@.txns =~= before.txns);
                    return Err(
                        PamError::OutOfOrder("cannot mint a proof from an unfinished conversation"),
                    );
                }
                let token: Option<Passphrase> = t.authtok;
                t.authtok = None;
                self.put_txn(h, t);
                assert(self@.txns =~= before.txns.insert(h.0, t@));
                match token {
                    None => {
                        assert(self@.txns =~= before.txns);
                        Err(PamError::OutOfOrder("the authtok was already consumed"))
                    },
                    Some(token) => Ok(AuthProof::password(uid, token)),
                }
            },
        }
    }
}

/// After a refusal there is no second attempt: the transaction answers failed,
/// and takes no further answer.
pub proof fn one_attempt_in_a_transaction(t: LoginView, step: PamStep, a: PamAnswer, file: Option<Seq<char>>)
    requires
        coherent(t),
        t.refused,
        is_next(t, step),
    ensures
        step == (PamStep::Failed { class: PamClass::AuthError }),
        answered(t, a, file) is Wrong,
{
}

/// A transaction is accepted only where the shadow file's record of the named
/// user matches the passphrase that was given.
pub proof fn acceptance_needs_a_match(t: LoginView, a: PamAnswer, file: Option<Seq<char>>)
    requires
        answered(t, a, file) is Accepted,
    ensures
        t.user matches Some(u) && file matches Some(f) && a matches PamAnswer::Secret(p) && ({
            let e = shadow::found(text::lines_of(f), u);
            e is Some && verify::verified(e->0, p@) == Verdict::Accepted
        }),
{
}

/// A passphrase that matched a name which no principal has authenticates nobody.
pub proof fn a_match_without_a_principal_is_refused(t: LoginView, token: Seq<char>)
    requires
        is_checked(t, t.user->0),
    ensures
        settled(t, token, None).refused,
        !settled(t, token, None).authenticated,
        settled(t, token, None).authtok == t.authtok,
{
}

/// A name that was handed over is not asked for again, and a passphrase is
/// never asked for in the clear.
pub proof fn the_first_question(user: Option<Seq<char>>, step: PamStep)
    requires
        is_next(opened(user), step),
    ensures
        step matches PamStep::Prompt { style, msg } && (style == MsgStyle::PromptEchoOff <==> user
            is Some) && (msg.0@ == "Password"@ ==> style == MsgStyle::PromptEchoOff),
{
    reveal_strlit("Username");
    reveal_strlit("Password");
    assert("Username"@[0] == 'U');
    assert("Password"@[0] == 'P');
}

/// What a transaction asks: the name, echoed, where it was not handed over, else
/// the passphrase, masked; once the passphrase was accepted it is complete, and
/// once it was refused it has failed.
pub proof fn a_transaction_asks_name_then_passphrase(
    user: Option<Seq<char>>,
    t: LoginView,
    step: PamStep,
)
    requires
        coherent(t),
    ensures
        is_next(opened(None), step) ==> (step matches PamStep::Prompt { style, msg } && style
            == MsgStyle::PromptEchoOn && msg.0@ == "Username"@),
        user is Some && is_next(opened(user), step) ==> (step matches PamStep::Prompt { style, msg }
            && style == MsgStyle::PromptEchoOff && msg.0@ == "Password"@),
        opened(user).user == user && opened(user).uid is None && opened(user).env == Map::<
            Seq<char>,
            Seq<char>,
        >::empty() && opened(user).session is None,
        is_next(t, step) ==> {
            &&& t.authenticated <==> step is Complete
            &&& t.refused ==> (step matches PamStep::Failed { class } && class == PamClass::AuthError)
            &&& step matches PamStep::Prompt { style, .. } ==> t.awaiting == Some(style)
            &&& t.awaiting is Some ==> step is Prompt
        },
{
}

/// What an answer comes to. A name for the name is taken as it was given. A
/// passphrase for the passphrase is accepted if and only if the first record of
/// the named user in the shadow file is one that it verifies against, and then it
/// is that user and that very passphrase; else it is refused. Any other answer is
/// out of order.
pub proof fn an_answer_is_judged_by_the_record(
    t: LoginView,
    a: PamAnswer,
    user: Seq<char>,
    file: Seq<char>,
)
    requires
        coherent(t),
    ensures
        t.awaiting == Some(MsgStyle::PromptEchoOn) ==> (a matches PamAnswer::Visible(name) ==> answered(
            t,
            a,
            Some(file),
        ) == AnswerView::Named(name@)),
        t.awaiting == Some(MsgStyle::PromptEchoOff) && t.user == Some(user) ==> (
        a matches PamAnswer::Secret(p) ==> answered(t, a, Some(file)) == (
        if shadow::found(text::lines_of(file), user) is Some && verify::verified(
            shadow::found(text::lines_of(file), user)->0,
            p@,
        ) == Verdict::Accepted {
            AnswerView::Accepted { user, token: p@ }
        } else {
            AnswerView::Refused
        })),
        t.awaiting == Some(MsgStyle::PromptEchoOn) && a is Secret || t.awaiting == Some(
            MsgStyle::PromptEchoOff,
        ) && a is Visible ==> answered(t, a, Some(file)) == AnswerView::Wrong(
            PamError::OutOfOrder("the answer did not match the prompt"),
        ),
        t.awaiting is None ==> answered(t, a, Some(file)) == AnswerView::Wrong(
            PamError::OutOfOrder("nothing was being asked"),
        ),
{
}

/// A principal who was found is authenticated with their uid and their passphrase,
/// and the rest of the transaction stays.
pub proof fn a_principal_who_was_found_is_authenticated(t: LoginView, token: Seq<char>, uid: Uid)
    ensures
        ({
            let s = settled(t, token, Some(uid));
            &&& s.authenticated
            &&& s.uid == Some(uid)
            &&& s.authtok == Some(token)
            &&& s.user == t.user
            &&& s.env == t.env
            &&& s.session == t.session
            &&& s.refused == t.refused
            &&& s.awaiting == t.awaiting
        }),
{
}

/// What logind answered goes into the session's environment as it was given, over
/// what was there, and nothing else changes.
pub proof fn a_session_is_told_what_logind_said(
    env: Map<Seq<char>, Seq<char>>,
    s: Session,
    name: Seq<char>,
)
    ensures
        ({
            let e = session_env(env, s);
            &&& e.dom().contains("XDG_RUNTIME_DIR"@) && e["XDG_RUNTIME_DIR"@] == s.runtime_path@
            &&& e.dom().contains("XDG_SESSION_ID"@) && e["XDG_SESSION_ID"@] == s.id@
            &&& e.dom().contains("XDG_SEAT"@) && e["XDG_SEAT"@] == s.seat@
            &&& e.dom().contains("XDG_VTNR"@) && text::u32_of(e["XDG_VTNR"@]) == Some(s.vtnr)
            &&& name != "XDG_RUNTIME_DIR"@ && name != "XDG_SESSION_ID"@ && name != "XDG_SEAT"@ && name
                != "XDG_VTNR"@ ==> (e.dom().contains(name) <==> env.dom().contains(name)) && e[name]
                == env[name]
        }),
{
    reveal_strlit("XDG_RUNTIME_DIR");
    reveal_strlit("XDG_SESSION_ID");
    reveal_strlit("XDG_SEAT");
    reveal_strlit("XDG_VTNR");
    assert("XDG_RUNTIME_DIR"@.len() == 15);
    assert("XDG_SESSION_ID"@.len() == 14);
    assert("XDG_SEAT"@[4] == 'S');
    assert("XDG_VTNR"@[4] == 'V');
    text::a_written_number_reads_back(s.vtnr as int);
}

/// logind is asked for a user session of the principal, held by the process that
/// asks, on the console's seat and terminal, or on neither where there is none.
pub proof fn logind_is_asked_for_the_console(q: Request, uid: Uid, pid: u32, console: Console)
    requires
        is_request(q, uid, pid, console),
    ensures
        q.uid == uid.0,
        q.pid == pid,
        q.service@ == "mukae"@,
        q.class == Class::User,
        q.kind == Kind::Tty,
        !q.remote,
        console is Seatless ==> q.seat@.len() == 0 && q.vtnr == 0,
        console matches Console::Vt { seat, vtnr } ==> q.seat@ == seat@ && q.vtnr == vtnr@,
{
}

} // verus!
