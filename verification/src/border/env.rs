//! The seam between a login and the machine it runs on.
//!
//! An implementation of [`SeatEnv`] is PAM, process control, identity and a
//! clock. Every call that can change the environment is one event of its
//! `trace`, with its arguments and its result; the contracts of the drivers
//! speak of the events that they add to it.
use vstd::prelude::*;
use crate::border::capability::{AuthProof, Passphrase};
use crate::border::env_set::EnvSet;
use crate::border::ids::{PamHandleId, ServiceName, Uid, UserName};
use crate::border::session::SessionPlan;
use crate::text;

verus! {

/// What PAM is asking for right now.
#[derive(Debug, PartialEq, Eq)]
pub enum PamStep {
    /// An answer is wanted; `style` decides whether it is masked.
    Prompt { style: MsgStyle, msg: PromptText },
    /// Something is to be shown; no answer is wanted.
    Info { style: MsgStyle, msg: PromptText },
    /// The conversation succeeded.
    Complete,
    /// The conversation failed.
    Failed { class: PamClass },
}

impl Clone for PamStep {
    fn clone(&self) -> (r: Self)
        ensures
            r == *self,
    {
        match self {
            PamStep::Prompt { style, msg } => PamStep::Prompt { style: *style, msg: msg.clone() },
            PamStep::Info { style, msg } => PamStep::Info { style: *style, msg: msg.clone() },
            PamStep::Complete => PamStep::Complete,
            PamStep::Failed { class } => PamStep::Failed { class: *class },
        }
    }
}

/// PAM's message styles.
#[derive(Debug, Clone, Copy, PartialEq, Eq, Structural)]
pub enum MsgStyle {
    PromptEchoOff,
    PromptEchoOn,
    ErrorMsg,
    TextInfo,
}

impl MsgStyle {
    /// Whether a face must mask what is typed: for the echo-off prompt alone.
    pub fn is_secret(self) -> (r: bool)
        ensures
            r == (self == MsgStyle::PromptEchoOff),
    {
        matches!(self, MsgStyle::PromptEchoOff)
    }
}

/// The words of a prompt.
#[derive(Debug, PartialEq, Eq)]
pub struct PromptText(pub String);

impl Clone for PromptText {
    fn clone(&self) -> (r: Self)
        ensures
            r == *self,
    {
        PromptText(self.0.clone())
    }
}

/// The answer that a face gives back.
pub enum PamAnswer {
    Secret(Passphrase),
    Visible(String),
}

impl PamAnswer {
    /// What a log may show of an answer: a visible one, and of a secret one that it was secret.
    pub fn redacted(&self) -> (s: String)
        ensures
            self is Secret ==> s@ == "Secret(<redacted>)"@,
            self matches PamAnswer::Visible(v) ==> s@ == "Visible("@ + text::quoted_text(v@) + ")"@,
    {
        match self {
            PamAnswer::Secret(_) => "Secret(<redacted>)".to_owned(),
            PamAnswer::Visible(v) => {
                let mut s: String = "Visible(".to_owned();
                s.append(text::quoted(v.as_str()).as_str());
                s.append(")");
                s
            },
        }
    }
}

/// Why a conversation failed.
#[derive(Debug, Clone, Copy, PartialEq, Eq, Structural)]
pub enum PamClass {
    AuthError,
    UserUnknown,
    MaxTries,
    CredInsufficient,
    AuthInfoUnavail,
    Abort,
}

impl PamClass {
    pub open spec fn name_text(self) -> Seq<char> {
        match self {
            PamClass::AuthError => "AuthError"@,
            PamClass::UserUnknown => "UserUnknown"@,
            PamClass::MaxTries => "MaxTries"@,
            PamClass::CredInsufficient => "CredInsufficient"@,
            PamClass::AuthInfoUnavail => "AuthInfoUnavail"@,
            PamClass::Abort => "Abort"@,
        }
    }

    /// The class by its name.
    pub fn name(self) -> (s: &'static str)
        ensures
            s@ == self.name_text(),
    {
        match self {
            PamClass::AuthError => "AuthError",
            PamClass::UserUnknown => "UserUnknown",
            PamClass::MaxTries => "MaxTries",
            PamClass::CredInsufficient => "CredInsufficient",
            PamClass::AuthInfoUnavail => "AuthInfoUnavail",
            PamClass::Abort => "Abort",
        }
    }
}

/// The verdict on an account, after its holder has authenticated. A password
/// that must be changed is a verdict of its own and no failure.
#[derive(Debug, Clone, Copy, PartialEq, Eq, Structural)]
pub enum AcctVerdict {
    Okay,
    NewAuthTokRequired,
    AcctExpired,
    PermDenied,
}

/// Which way credentials are being moved.
#[derive(Debug, Clone, Copy, PartialEq, Eq, Structural)]
pub enum CredFlag {
    Establish,
    Delete,
    Reinitialize,
    Refresh,
}

/// One environment variable.
#[derive(Debug, PartialEq, Eq)]
pub struct EnvPair {
    pub key: String,
    pub value: String,
}

impl Clone for EnvPair {
    fn clone(&self) -> (r: Self)
        ensures
            r == *self,
    {
        EnvPair { key: self.key.clone(), value: self.value.clone() }
    }
}

/// A failure at the level of the PAM protocol.
#[derive(Debug, Clone, Copy, PartialEq, Eq)]
pub enum PamError {
    NoSuchHandle,
    OutOfOrder(&'static str),
    Refused(PamClass),
}

impl PamError {
    pub open spec fn message_text(self) -> Seq<char> {
        match self {
            PamError::NoSuchHandle => "no such pam handle"@,
            PamError::OutOfOrder(what) => "pam call out of order: "@ + what@,
            PamError::Refused(class) => "pam refused: "@ + class.name_text(),
        }
    }

    /// The failure in words.
    pub fn message(&self) -> (s: String)
        ensures
            s@ == self.message_text(),
    {
        match self {
            PamError::NoSuchHandle => "no such pam handle".to_owned(),
            PamError::OutOfOrder(what) => {
                let mut s: String = "pam call out of order: ".to_owned();
                s.append(what);
                s
            },
            PamError::Refused(class) => {
                let mut s: String = "pam refused: ".to_owned();
                s.append(class.name());
                s
            },
        }
    }
}

/// A monotonic instant, as the environment's clock gives it.
#[derive(Debug, Clone, Copy, PartialEq, Eq, PartialOrd, Ord, Structural)]
pub struct Instant(pub u64);

/// The process id of a session.
#[derive(Debug, Clone, Copy, PartialEq, Eq, Structural)]
pub struct ChildPid(pub i32);

/// The steps of a privilege drop, in the order in which they run.
#[derive(Debug, Clone, Copy, PartialEq, Eq, PartialOrd, Ord, Structural)]
pub enum DropStep {
    Setsid,
    InitGroups,
    Setgid,
    Setuid,
}

/// Why a session's process did not start.
#[derive(Debug, Clone, Copy, PartialEq, Eq)]
pub enum SpawnError {
    /// The request itself cannot be carried out.
    Refused,
    /// No passwd record has this uid.
    UnknownPrincipal(u32),
    /// No child came to be.
    ForkFailed(i32),
    /// A step of the privilege drop failed.
    PrivilegeDropFailed { step: DropStep, errno: i32 },
    /// Every step succeeded and the result is not what it should be.
    PrivilegeDropUnverified(&'static str),
    /// The program could not be executed.
    ExecFailed(i32),
}

impl DropStep {
    pub open spec fn name_text(self) -> Seq<char> {
        match self {
            DropStep::Setsid => "setsid"@,
            DropStep::InitGroups => "initgroups"@,
            DropStep::Setgid => "setgid"@,
            DropStep::Setuid => "setuid"@,
        }
    }

    /// The step by its name.
    pub fn name(self) -> (s: &'static str)
        ensures
            s@ == self.name_text(),
    {
        match self {
            DropStep::Setsid => "setsid",
            DropStep::InitGroups => "initgroups",
            DropStep::Setgid => "setgid",
            DropStep::Setuid => "setuid",
        }
    }
}

impl SpawnError {
    pub open spec fn message_text(self) -> Seq<char> {
        match self {
            SpawnError::Refused => "fork refused"@,
            SpawnError::UnknownPrincipal(uid) => "no passwd entry for uid "@ + text::decimal(uid as nat),
            SpawnError::ForkFailed(e) => "fork failed: errno "@ + text::signed(e as int),
            SpawnError::PrivilegeDropFailed { step, errno } => "the privilege drop failed at "@
                + step.name_text() + ": errno "@ + text::signed(errno as int),
            SpawnError::PrivilegeDropUnverified(what) => "the privilege drop is unverified: "@ + what@,
            SpawnError::ExecFailed(e) => "exec failed: errno "@ + text::signed(e as int),
        }
    }

    /// The failure in words.
    pub fn message(&self) -> (s: String)
        ensures
            s@ == self.message_text(),
    {
        match self {
            SpawnError::Refused => "fork refused".to_owned(),
            SpawnError::UnknownPrincipal(uid) => {
                let mut s: String = "no passwd entry for uid ".to_owned();
                s.append(text::decimal_of(*uid as u64).as_str());
                s
            },
            SpawnError::ForkFailed(e) => {
                let mut s: String = "fork failed: errno ".to_owned();
                s.append(text::signed_of(*e as i64).as_str());
                s
            },
            SpawnError::PrivilegeDropFailed { step, errno } => {
                let mut s: String = "the privilege drop failed at ".to_owned();
                s.append(step.name());
                s.append(": errno ");
                s.append(text::signed_of(*errno as i64).as_str());
                s
            },
            SpawnError::PrivilegeDropUnverified(what) => {
                let mut s: String = "the privilege drop is unverified: ".to_owned();
                s.append(what);
                s
            },
            SpawnError::ExecFailed(e) => {
                let mut s: String = "exec failed: errno ".to_owned();
                s.append(text::signed_of(*e as i64).as_str());
                s
            },
        }
    }
}

impl AcctVerdict {
    pub open spec fn name_text(self) -> Seq<char> {
        match self {
            AcctVerdict::Okay => "Ok"@,
            AcctVerdict::NewAuthTokRequired => "NewAuthTokRequired"@,
            AcctVerdict::AcctExpired => "AcctExpired"@,
            AcctVerdict::PermDenied => "PermDenied"@,
        }
    }

    /// The verdict by its name.
    pub fn name(self) -> (s: &'static str)
        ensures
            s@ == self.name_text(),
    {
        match self {
            AcctVerdict::Okay => "Ok",
            AcctVerdict::NewAuthTokRequired => "NewAuthTokRequired",
            AcctVerdict::AcctExpired => "AcctExpired",
            AcctVerdict::PermDenied => "PermDenied",
        }
    }
}

/// The four answers of an identity lookup. `Empty` is a finding: the directory
/// was read and holds nothing. `Blind` is none: the directory was not read.
#[derive(Debug, Clone, PartialEq, Eq)]
pub enum Answer<T> {
    Found(T),
    Empty { of: &'static str },
    Refused { because: String, legal: Vec<String> },
    Blind { because: String },
}

impl<T> Answer<T> {
    /// Whether the directory was read.
    pub fn is_finding(&self) -> (r: bool)
        ensures
            r == (self is Found || self is Empty),
    {
        match self {
            Answer::Found(_) => true,
            Answer::Empty { .. } => true,
            Answer::Refused { .. } => false,
            Answer::Blind { .. } => false,
        }
    }
}

/// What a greeter may know of a principal before they log in.
#[derive(Debug, PartialEq, Eq)]
pub struct PublicProfile {
    pub uid: Uid,
    pub name: UserName,
    pub display_name: Option<String>,
}

impl Clone for PublicProfile {
    fn clone(&self) -> (r: Self)
        ensures
            r == *self,
    {
        PublicProfile {
            uid: self.uid,
            name: self.name.clone(),
            display_name: match &self.display_name {
                Some(s) => Some(s.clone()),
                None => None,
            },
        }
    }
}

/// One call that an environment has answered.
#[allow(inconsistent_fields)]
pub enum PamEvent {
    Start { svc: Seq<char>, user: Option<Seq<char>>, r: Result<PamHandleId, PamError> },
    Next { h: PamHandleId, r: Result<PamStep, PamError> },
    Answer { h: PamHandleId, a: PamAnswer, r: Result<(), PamError> },
    AcctMgmt { h: PamHandleId, r: Result<AcctVerdict, PamError> },
    ChAuthTok { h: PamHandleId, r: Result<(), PamError> },
    SetCred { h: PamHandleId, f: CredFlag, r: Result<(), PamError> },
    PutEnv { h: PamHandleId, kv: EnvPair, r: Result<(), PamError> },
    OpenSession { h: PamHandleId, r: Result<(), PamError> },
    GetEnvList { h: PamHandleId, r: Result<EnvSet, PamError> },
    CloseSession { h: PamHandleId, r: Result<(), PamError> },
    End { h: PamHandleId, r: Result<(), PamError> },
    Fork { plan: SessionPlan, env: EnvSet, to: Uid, r: Result<ChildPid, SpawnError> },
    MintProof { h: PamHandleId, uid: Uid, r: Result<AuthProof, PamError> },
}

/// The calls that an environment answered, in order. It exists in proofs alone:
/// an environment outside them has no value of it to give.
pub type Trace = Seq<PamEvent>;

/// The text of an optional name.
pub open spec fn user_text(user: Option<&UserName>) -> Option<Seq<char>> {
    match user {
        Some(u) => Some(u@),
        None => None,
    }
}

/// The environment that a login runs against.
pub trait SeatEnv: Sized {
    /// The calls answered so far, the latest last.
    spec fn trace(&self) -> Trace;

    /// Whether the environment, as it is, may answer `r` when asked whom the
    /// transaction `h` is about.
    spec fn uid_answer(&self, h: PamHandleId, r: Result<Uid, PamError>) -> bool;

    /// Whether the environment, as it is, may answer the call `e` and be `after`
    /// once it has.
    spec fn steps_to(&self, e: PamEvent, after: Self) -> bool;

    /// Opens a transaction.
    fn pam_start(&mut self, svc: &ServiceName, user: Option<&UserName>) -> (r: Result<
        PamHandleId,
        PamError,
    >)
        ensures
            final(self).trace() == old(self).trace().push(
                PamEvent::Start { svc: svc@, user: user_text(user), r },
            ),
            old(self).steps_to(PamEvent::Start { svc: svc@, user: user_text(user), r }, *final(self)),
    ;

    /// Asks what the transaction wants next.
    fn pam_next(&mut self, h: PamHandleId) -> (r: Result<PamStep, PamError>)
        ensures
            final(self).trace() == old(self).trace().push(PamEvent::Next { h, r }),
            old(self).steps_to(PamEvent::Next { h, r }, *final(self)),
    ;

    /// Answers what was asked.
    fn pam_answer(&mut self, h: PamHandleId, a: PamAnswer) -> (r: Result<(), PamError>)
        ensures
            final(self).trace() == old(self).trace().push(PamEvent::Answer { h, a, r }),
            old(self).steps_to(PamEvent::Answer { h, a, r }, *final(self)),
    ;

    /// Asks whether the account may be used.
    fn pam_acct_mgmt(&mut self, h: PamHandleId) -> (r: Result<AcctVerdict, PamError>)
        ensures
            final(self).trace() == old(self).trace().push(PamEvent::AcctMgmt { h, r }),
            old(self).steps_to(PamEvent::AcctMgmt { h, r }, *final(self)),
    ;

    /// Changes the authentication token.
    fn pam_chauthtok(&mut self, h: PamHandleId) -> (r: Result<(), PamError>)
        ensures
            final(self).trace() == old(self).trace().push(PamEvent::ChAuthTok { h, r }),
            old(self).steps_to(PamEvent::ChAuthTok { h, r }, *final(self)),
    ;

    /// Moves credentials.
    fn pam_setcred(&mut self, h: PamHandleId, f: CredFlag) -> (r: Result<(), PamError>)
        ensures
            final(self).trace() == old(self).trace().push(PamEvent::SetCred { h, f, r }),
            old(self).steps_to(PamEvent::SetCred { h, f, r }, *final(self)),
    ;

    /// Contributes a variable to the session's environment.
    fn pam_putenv(&mut self, h: PamHandleId, kv: EnvPair) -> (r: Result<(), PamError>)
        ensures
            final(self).trace() == old(self).trace().push(PamEvent::PutEnv { h, kv, r }),
            old(self).steps_to(PamEvent::PutEnv { h, kv, r }, *final(self)),
    ;

    /// Opens the session.
    fn pam_open_session(&mut self, h: PamHandleId) -> (r: Result<(), PamError>)
        ensures
            final(self).trace() == old(self).trace().push(PamEvent::OpenSession { h, r }),
            old(self).steps_to(PamEvent::OpenSession { h, r }, *final(self)),
    ;

    /// Reads the session's environment.
    fn pam_getenvlist(&mut self, h: PamHandleId) -> (r: Result<EnvSet, PamError>)
        ensures
            final(self).trace() == old(self).trace().push(PamEvent::GetEnvList { h, r }),
            old(self).steps_to(PamEvent::GetEnvList { h, r }, *final(self)),
    ;

    /// Closes the session.
    fn pam_close_session(&mut self, h: PamHandleId) -> (r: Result<(), PamError>)
        ensures
            final(self).trace() == old(self).trace().push(PamEvent::CloseSession { h, r }),
            old(self).steps_to(PamEvent::CloseSession { h, r }, *final(self)),
    ;

    /// Ends the transaction.
    fn pam_end(&mut self, h: PamHandleId) -> (r: Result<(), PamError>)
        ensures
            final(self).trace() == old(self).trace().push(PamEvent::End { h, r }),
            old(self).steps_to(PamEvent::End { h, r }, *final(self)),
    ;

    /// Starts the session's process as `to`.
    fn fork_session(&mut self, plan: &SessionPlan, env: &EnvSet, to: Uid) -> (r: Result<
        ChildPid,
        SpawnError,
    >)
        ensures
            final(self).trace() == old(self).trace().push(
                PamEvent::Fork { plan: *plan, env: *env, to, r },
            ),
            old(self).steps_to(PamEvent::Fork { plan: *plan, env: *env, to, r }, *final(self)),
    ;

    /// Looks a principal up by name.
    fn resolve_principal(&self, n: &UserName) -> Answer<PublicProfile>;

    /// Lists the principals.
    fn enumerate_principals(&self) -> Answer<Vec<PublicProfile>>;

    /// Whom the transaction is about.
    fn uid_for_handle(&self, h: PamHandleId) -> (r: Result<Uid, PamError>)
        ensures
            self.uid_answer(h, r),
    ;

    /// Turns a completed transaction into a proof.
    fn mint_proof(&mut self, h: PamHandleId, uid: Uid) -> (r: Result<AuthProof, PamError>)
        ensures
            final(self).trace() == old(self).trace().push(PamEvent::MintProof { h, uid, r }),
            old(self).steps_to(PamEvent::MintProof { h, uid, r }, *final(self)),
    ;

    /// The monotonic time.
    fn clock(&self) -> Instant;
}

/// Whether the calls `ev`, one after the other, may take an environment from
/// `start` to `end`.
pub open spec fn went<E: SeatEnv>(start: E, ev: Seq<PamEvent>, end: E) -> bool
    decreases ev.len(),
{
    if ev.len() == 0 {
        start == end
    } else {
        exists|mid: E| #[trigger] start.steps_to(ev[0], mid) && went(mid, ev.skip(1), end)
    }
}

/// One call more takes an environment one step further.
pub proof fn lemma_went_on<E: SeatEnv>(start: E, ev: Seq<PamEvent>, mid: E, e: PamEvent, end: E)
    requires
        went(start, ev, mid),
        mid.steps_to(e, end),
    ensures
        went(start, ev.push(e), end),
    decreases ev.len(),
{
    let all = ev.push(e);
    if ev.len() == 0 {
        assert(all.skip(1) =~= Seq::<PamEvent>::empty());
        assert(start.steps_to(all[0], end) && went(end, all.skip(1), end));
    } else {
        let next = choose|next: E| #[trigger] start.steps_to(ev[0], next) && went(next, ev.skip(1), mid);
        lemma_went_on(next, ev.skip(1), mid, e, end);
        assert(all.skip(1) =~= ev.skip(1).push(e));
        assert(start.steps_to(all[0], next) && went(next, all.skip(1), end));
    }
}

/// Between two rows of calls, the environment is somewhere.
pub proof fn lemma_went_split<E: SeatEnv>(
    start: E,
    first: Seq<PamEvent>,
    second: Seq<PamEvent>,
    end: E,
) -> (mid: E)
    requires
        went(start, first + second, end),
    ensures
        went(start, first, mid),
        went(mid, second, end),
    decreases first.len(),
{
    let all = first + second;
    if first.len() == 0 {
        assert(all =~= second);
        start
    } else {
        let next = choose|next: E| #[trigger] start.steps_to(all[0], next) && went(next, all.skip(1), end);
        assert(all.skip(1) =~= first.skip(1) + second);
        let mid = lemma_went_split(next, first.skip(1), second, end);
        assert(start.steps_to(first[0], next) && went(next, first.skip(1), mid));
        mid
    }
}

/// Whether the environment came from `start` to `end` by the calls that `end`
/// has answered since.
pub open spec fn moved<E: SeatEnv>(start: E, end: E) -> bool {
    &&& end.trace().len() >= start.trace().len()
    &&& end.trace().take(start.trace().len() as int) == start.trace()
    &&& went(start, end.trace().skip(start.trace().len() as int), end)
}

/// An environment that answered nothing has not moved.
pub proof fn lemma_stood<E: SeatEnv>(env: E)
    ensures
        moved(env, env),
{
    assert(env.trace().take(env.trace().len() as int) =~= env.trace());
}

/// A call moves the environment on.
pub proof fn lemma_moved_on<E: SeatEnv>(start: E, mid: E, e: PamEvent, end: E)
    requires
        moved(start, mid),
        mid.steps_to(e, end),
        end.trace() == mid.trace().push(e),
    ensures
        moved(start, end),
{
    let at = start.trace().len() as int;
    lemma_went_on(start, mid.trace().skip(at), mid, e, end);
    assert(end.trace().skip(at) =~= mid.trace().skip(at).push(e));
    assert(end.trace().take(at) =~= mid.trace().take(at));
}

/// Each class, each verdict and each step of the drop is named after itself.
pub proof fn each_is_named_after_itself(c: PamClass, v: AcctVerdict, d: DropStep)
    ensures
        c.name_text() == "AuthError"@ <==> c is AuthError,
        c.name_text() == "UserUnknown"@ <==> c is UserUnknown,
        c.name_text() == "MaxTries"@ <==> c is MaxTries,
        c.name_text() == "CredInsufficient"@ <==> c is CredInsufficient,
        c.name_text() == "AuthInfoUnavail"@ <==> c is AuthInfoUnavail,
        c.name_text() == "Abort"@ <==> c is Abort,
        v.name_text() == "Ok"@ <==> v is Okay,
        v.name_text() == "NewAuthTokRequired"@ <==> v is NewAuthTokRequired,
        v.name_text() == "AcctExpired"@ <==> v is AcctExpired,
        v.name_text() == "PermDenied"@ <==> v is PermDenied,
        d.name_text() == "setsid"@ <==> d is Setsid,
        d.name_text() == "initgroups"@ <==> d is InitGroups,
        d.name_text() == "setgid"@ <==> d is Setgid,
        d.name_text() == "setuid"@ <==> d is Setuid,
{
    reveal_strlit("AuthError");
    reveal_strlit("UserUnknown");
    reveal_strlit("MaxTries");
    reveal_strlit("CredInsufficient");
    reveal_strlit("AuthInfoUnavail");
    reveal_strlit("Abort");
    assert("AuthError"@.len() == 9 && "UserUnknown"@.len() == 11 && "MaxTries"@.len() == 8
        && "CredInsufficient"@.len() == 16 && "AuthInfoUnavail"@.len() == 15 && "Abort"@.len() == 5);
    reveal_strlit("Ok");
    reveal_strlit("NewAuthTokRequired");
    reveal_strlit("AcctExpired");
    reveal_strlit("PermDenied");
    assert("Ok"@.len() == 2 && "NewAuthTokRequired"@.len() == 18 && "AcctExpired"@.len() == 11
        && "PermDenied"@.len() == 10);
    reveal_strlit("setsid");
    reveal_strlit("initgroups");
    reveal_strlit("setgid");
    reveal_strlit("setuid");
    assert("initgroups"@.len() == 10 && "setsid"@.len() == 6 && "setgid"@.len() == 6 && "setuid"@.len()
        == 6);
    assert("setsid"@[3] == 's' && "setgid"@[3] == 'g' && "setuid"@[3] == 'u');
}

} // verus!
