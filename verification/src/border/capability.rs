//! The capability chain: a passphrase, the proof of an authentication, and the
//! right to start one session that a proof is exchanged for.
//!
//! Every link is consumed by value and none can be copied, so one
//! authentication starts at most one session, and no value of the denied state
//! turns into one of the authenticated state.
use core::marker::PhantomData;
use vstd::prelude::*;
use crate::border::env::SeatEnv;
use crate::border::ids::{CredentialId, PamHandleId, RunFileConsumed, SeatId, SlotId, Uid};
use crate::text;
use sealed::Sealed;

mod sealed;

verus! {

/// A passphrase. It renders as a fixed word, whatever it holds.
pub struct Passphrase(String);

impl Passphrase {
    pub closed spec fn view(&self) -> Seq<char> {
        self.0@
    }

    pub fn new(s: String) -> (p: Self)
        ensures
            p@ == s@,
    {
        Passphrase(s)
    }

    /// The reader inside the border.
    pub(crate) fn expose(&self) -> (s: &str)
        ensures
            s@ == self@,
    {
        self.0.as_str()
    }

    /// What a log may show of a passphrase: the same text for every one.
    pub fn redacted(&self) -> (s: String)
        ensures
            s@ == "Passphrase(<redacted>)"@,
    {
        "Passphrase(<redacted>)".to_owned()
    }
}

/// Surrenders a passphrase to the authenticator that will check it. The
/// passphrase is consumed: it cannot be read a second time.
pub fn into_wire(p: Passphrase) -> (s: String)
    ensures
        s@ == p@,
{
    p.0
}

/// How a principal proved who they are.
#[derive(Debug, Clone, Copy, PartialEq, Eq, Structural)]
pub enum AuthMethod {
    Password,
    Fido2,
    Smartcard,
    Autologin,
}

/// The evidence behind a proof. Not public: what a consumer sees of it is the
/// uid and the method.
enum Evidence {
    Password { uid: Uid, authtok: Passphrase },
    Fido2 { uid: Uid, cred: CredentialId },
    Smartcard { uid: Uid, slot: SlotId },
    Autologin { uid: Uid, once: RunFileConsumed },
}

/// Proof that an authentication happened.
pub struct AuthProof(Evidence);

impl AuthProof {
    /// Whom the proof is about.
    pub closed spec fn who(&self) -> Uid {
        match self.0 {
            Evidence::Password { uid, .. } => uid,
            Evidence::Fido2 { uid, .. } => uid,
            Evidence::Smartcard { uid, .. } => uid,
            Evidence::Autologin { uid, .. } => uid,
        }
    }

    /// By which method they proved it.
    pub closed spec fn how(&self) -> AuthMethod {
        match self.0 {
            Evidence::Password { .. } => AuthMethod::Password,
            Evidence::Fido2 { .. } => AuthMethod::Fido2,
            Evidence::Smartcard { .. } => AuthMethod::Smartcard,
            Evidence::Autologin { .. } => AuthMethod::Autologin,
        }
    }

    /// The token that a password proof carries.
    pub closed spec fn authtok(&self) -> Option<Seq<char>> {
        match self.0 {
            Evidence::Password { authtok, .. } => Some(authtok@),
            _ => None,
        }
    }

    /// The credential that a security key's proof names.
    pub closed spec fn cred(&self) -> Option<Seq<u8>> {
        match self.0 {
            Evidence::Fido2 { cred, .. } => Some(cred.0@),
            _ => None,
        }
    }

    /// The slot that a smartcard proof names.
    pub closed spec fn slot(&self) -> Option<SlotId> {
        match self.0 {
            Evidence::Smartcard { slot, .. } => Some(slot),
            _ => None,
        }
    }

    /// The environment's privilege: a password was checked and accepted.
    pub(crate) fn password(uid: Uid, authtok: Passphrase) -> (p: Self)
        ensures
            p.who() == uid,
            p.how() == AuthMethod::Password,
            p.cred() is None,
            p.authtok() == Some(authtok@),
            p.slot() is None,
    {
        AuthProof(Evidence::Password { uid, authtok })
    }

    /// The environment's privilege: an authenticator answered.
    pub(crate) fn fido2(uid: Uid, cred: CredentialId) -> (p: Self)
        ensures
            p.who() == uid,
            p.how() == AuthMethod::Fido2,
            p.cred() == Some(cred.0@),
            p.authtok() is None,
            p.slot() is None,
    {
        AuthProof(Evidence::Fido2 { uid, cred })
    }

    /// The environment's privilege: a smartcard answered.
    pub(crate) fn smartcard(uid: Uid, slot: SlotId) -> (p: Self)
        ensures
            p.who() == uid,
            p.how() == AuthMethod::Smartcard,
            p.cred() is None,
            p.authtok() is None,
            p.slot() == Some(slot),
    {
        AuthProof(Evidence::Smartcard { uid, slot })
    }

    /// The environment's privilege: an autologin file was consumed.
    pub(crate) fn autologin(uid: Uid, once: RunFileConsumed) -> (p: Self)
        ensures
            p.who() == uid,
            p.how() == AuthMethod::Autologin,
            p.cred() is None,
            p.authtok() is None,
            p.slot() is None,
    {
        AuthProof(Evidence::Autologin { uid, once })
    }

    pub fn uid(&self) -> (u: Uid)
        ensures
            u == self.who(),
    {
        match &self.0 {
            Evidence::Password { uid, .. } => *uid,
            Evidence::Fido2 { uid, .. } => *uid,
            Evidence::Smartcard { uid, .. } => *uid,
            Evidence::Autologin { uid, .. } => *uid,
        }
    }

    pub fn method(&self) -> (m: AuthMethod)
        ensures
            m == self.how(),
    {
        match &self.0 {
            Evidence::Password { .. } => AuthMethod::Password,
            Evidence::Fido2 { .. } => AuthMethod::Fido2,
            Evidence::Smartcard { .. } => AuthMethod::Smartcard,
            Evidence::Autologin { .. } => AuthMethod::Autologin,
        }
    }

    /// What a log may show of a proof: the method, the uid and a smartcard's slot.
    pub fn redacted(&self) -> (s: String)
        ensures
            s@ == redacted_proof(self.who(), self.how(), self.slot()),
    {
        let u: String = self.uid().text();
        let mut s: String = "AuthProof(".to_owned();
        match &self.0 {
            Evidence::Password { .. } => {
                s.append("Password { uid: ");
                s.append(u.as_str());
            },
            Evidence::Fido2 { .. } => {
                s.append("Fido2 { uid: ");
                s.append(u.as_str());
            },
            Evidence::Smartcard { slot, .. } => {
                s.append("Smartcard { uid: ");
                s.append(u.as_str());
                s.append(", slot: SlotId(");
                s.append(text::decimal_of(slot.0 as u64).as_str());
                s.append(")");
            },
            Evidence::Autologin { .. } => {
                s.append("Autologin { uid: ");
                s.append(u.as_str());
            },
        }
        s.append(" })");
        s
    }
}

/// The name of a method as a rendered proof writes it.
pub open spec fn method_name(m: AuthMethod) -> Seq<char> {
    match m {
        AuthMethod::Password => "Password { uid: "@,
        AuthMethod::Fido2 => "Fido2 { uid: "@,
        AuthMethod::Smartcard => "Smartcard { uid: "@,
        AuthMethod::Autologin => "Autologin { uid: "@,
    }
}

/// The rendering of a proof. The token is no argument of it.
pub open spec fn redacted_proof(uid: Uid, m: AuthMethod, slot: Option<SlotId>) -> Seq<char> {
    match slot {
        Some(n) => "AuthProof("@ + method_name(m) + text::decimal(uid.0 as nat) + ", slot: SlotId("@
            + text::decimal(n.0 as nat) + ")"@ + " })"@,
        None => "AuthProof("@ + method_name(m) + text::decimal(uid.0 as nat) + " })"@,
    }
}

/// The proof of a password authentication. It is an environment's to give, so it
/// takes one.
pub fn mint_password_proof<E: SeatEnv>(env: &E, uid: Uid, authtok: Passphrase) -> (p: AuthProof)
    ensures
        p.who() == uid,
        p.how() == AuthMethod::Password,
        p.cred() is None,
        p.authtok() == Some(authtok@),
        p.slot() is None,
{
    AuthProof::password(uid, authtok)
}

/// The proof of an authentication by a security key.
pub fn mint_fido2_proof<E: SeatEnv>(env: &E, uid: Uid, cred: CredentialId) -> (p: AuthProof)
    ensures
        p.who() == uid,
        p.how() == AuthMethod::Fido2,
        p.cred() == Some(cred.0@),
        p.authtok() is None,
        p.slot() is None,
{
    AuthProof::fido2(uid, cred)
}

/// The proof of an authentication by a smartcard.
pub fn mint_smartcard_proof<E: SeatEnv>(env: &E, uid: Uid, slot: SlotId) -> (p: AuthProof)
    ensures
        p.who() == uid,
        p.how() == AuthMethod::Smartcard,
        p.cred() is None,
        p.authtok() is None,
        p.slot() == Some(slot),
{
    AuthProof::smartcard(uid, slot)
}

/// The proof of an autologin, whose run file the environment has consumed.
pub fn mint_autologin_proof<E: SeatEnv>(env: &E, uid: Uid) -> (p: AuthProof)
    ensures
        p.who() == uid,
        p.how() == AuthMethod::Autologin,
        p.cred() is None,
        p.authtok() is None,
        p.slot() is None,
{
    AuthProof::autologin(uid, RunFileConsumed::mint())
}

/// A state that a seat's authentication can be in. No other crate can add one.
pub trait SeatState: Sealed {

}

/// Authentication completed.
#[derive(Debug)]
pub struct Authenticated;

impl Sealed for Authenticated {

}

impl SeatState for Authenticated {

}

/// Authentication failed. Nothing turns this state into the other.
#[derive(Debug)]
pub struct Denied;

impl Sealed for Denied {

}

impl SeatState for Denied {

}

/// The right to start one session on one seat, as one principal.
#[derive(Debug)]
pub struct SeatCapability<S: SeatState> {
    uid: Uid,
    seat: SeatId,
    pam: PamHandleId,
    _s: PhantomData<S>,
}

impl SeatCapability<Authenticated> {
    /// The sole way into the authenticated state. The proof is consumed.
    pub fn mint(proof: AuthProof, seat: SeatId, pam: PamHandleId) -> (c: Self)
        ensures
            c.who() == proof.who(),
            c.on_seat() == seat@,
            c.handle() == pam,
    {
        SeatCapability { uid: proof.uid(), seat, pam, _s: PhantomData }
    }
}

impl SeatCapability<Denied> {
    /// The fact of a denial. Its uid is the one that no principal has.
    pub fn denied_for(seat: SeatId, pam: PamHandleId) -> (c: Self)
        ensures
            c.who() == Uid(u32::MAX),
            c.on_seat() == seat@,
            c.handle() == pam,
    {
        SeatCapability { uid: Uid(u32::MAX), seat, pam, _s: PhantomData }
    }
}

impl<S: SeatState> SeatCapability<S> {
    /// Whose capability it is.
    pub closed spec fn who(&self) -> Uid {
        self.uid
    }

    /// The name of the seat it is for.
    pub closed spec fn on_seat(&self) -> Seq<char> {
        self.seat@
    }

    /// The transaction it came from.
    pub closed spec fn handle(&self) -> PamHandleId {
        self.pam
    }

    pub fn uid(&self) -> (u: Uid)
        ensures
            u == self.who(),
    {
        self.uid
    }

    pub fn seat(&self) -> (s: &SeatId)
        ensures
            s@ == self.on_seat(),
    {
        &self.seat
    }

    pub fn pam_handle(&self) -> (h: PamHandleId)
        ensures
            h == self.handle(),
    {
        self.pam
    }
}

/// The right to unlock a keyring that a login password seals.
pub struct KeyringUnlock(String);

impl KeyringUnlock {
    pub closed spec fn view(&self) -> Seq<char> {
        self.0@
    }

    /// What a proof unlocks: with a password the keyring it sealed, else nothing.
    pub fn from(p: &AuthProof) -> (k: Option<Self>)
        ensures
            k is Some <==> p.how() == AuthMethod::Password,
            keyring_text(k) == p.authtok(),
    {
        match &p.0 {
            Evidence::Password { authtok, .. } => Some(KeyringUnlock(authtok.expose().to_owned())),
            Evidence::Fido2 { .. } => None,
            Evidence::Smartcard { .. } => None,
            Evidence::Autologin { .. } => None,
        }
    }
}

/// What a keyring unlock holds, where there is one.
pub open spec fn keyring_text(k: Option<KeyringUnlock>) -> Option<Seq<char>> {
    match k {
        Some(u) => Some(u@),
        None => None,
    }
}

/// Two password proofs about one principal render alike, whatever their tokens.
pub proof fn rendering_hides_the_token(p: AuthProof, q: AuthProof)
    requires
        p.who() == q.who(),
        p.how() == AuthMethod::Password,
        q.how() == AuthMethod::Password,
    ensures
        redacted_proof(p.who(), p.how(), p.slot()) == redacted_proof(q.who(), q.how(), q.slot()),
{
}

/// A proof carries a token if and only if it is a password proof.
pub proof fn only_a_password_carries_a_token(p: AuthProof)
    ensures
        p.authtok() is Some <==> p.how() == AuthMethod::Password,
{
}

/// A rendered proof says how and whom it is about: proofs of one method about two
/// principals, where no slot is named, never render alike.
pub proof fn a_rendering_says_whom_it_is_about(u: Uid, v: Uid, m: AuthMethod)
    ensures
        redacted_proof(u, m, None) == redacted_proof(v, m, None) ==> u == v,
        "AuthProof("@.is_prefix_of(redacted_proof(u, m, None)),
        m is Password ==> redacted_proof(u, m, None) == "AuthProof("@ + "Password { uid: "@
            + text::signed(u.0 as int) + " })"@,
        m is Fido2 ==> redacted_proof(u, m, None) == "AuthProof("@ + "Fido2 { uid: "@ + text::signed(
            u.0 as int,
        ) + " })"@,
        m is Autologin ==> redacted_proof(u, m, None) == "AuthProof("@ + "Autologin { uid: "@
            + text::signed(u.0 as int) + " })"@,
{
    let front = "AuthProof("@ + method_name(m);
    let a = redacted_proof(u, m, None);
    let b = redacted_proof(v, m, None);
    let n = front.len() as int;
    if a == b {
        let x = text::decimal(u.0 as nat);
        let y = text::decimal(v.0 as nat);
        assert(a.len() == n + x.len() + " })"@.len());
        assert(b.len() == n + y.len() + " })"@.len());
        assert(x =~= a.subrange(n, n + x.len()));
        assert(y =~= b.subrange(n, n + y.len()));
        text::a_written_number_reads_back(u.0 as int);
        text::a_written_number_reads_back(v.0 as int);
    }
    assert("AuthProof("@ =~= a.subrange(0, "AuthProof("@.len() as int));
}

} // verus!
