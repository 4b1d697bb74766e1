//! The transactions that are open with libpam.
//!
//! libpam's own handles are numbers here: the calls themselves are made
//! outside, and what they answered comes in as an argument.
use std::collections::BTreeMap;
use vstd::prelude::*;
use crate::border::env::{AcctVerdict, EnvPair, PamAnswer, PamError, PamStep};
use crate::border::env_set::EnvSet;
use crate::border::ids::{PamHandleId, Uid};
use crate::host::codes::{accepted, result_of, verdict_for, verdict_of, PAM_SUCCESS};
use crate::text;

verus! {

broadcast use {vstd::std_specs::btree::group_btree_axioms, vstd::laws_cmp::group_laws_cmp};

/// What went wrong on the host side.
#[derive(Debug)]
pub enum HostError {
    /// The text cannot become a C string.
    InteriorNul(&'static str),
    /// This environment has no conversation.
    ConversationNotBridged,
    /// No transaction has this handle.
    NoSuchHandle,
    /// libpam refused.
    Pam(String),
}

/// Why there is no conversation here.
pub const NOT_BRIDGED: &'static str =
    "the PAM conversation is not bridged. libpam PUSHES through a callback while SeatEnv PULLS one step at a time; bridging needs a thread with a channel per transaction, and that is unwritten rather than stubbed because a plausible-looking auth path nobody has run is worse than an absent one";

impl HostError {
    /// The error in words.
    pub fn message(&self) -> (s: String)
        ensures
            match self {
                HostError::InteriorNul(what) => s@ == "a NUL byte in "@ + what@
                    + " — it cannot cross into C"@,
                HostError::ConversationNotBridged => s@ == NOT_BRIDGED@,
                HostError::NoSuchHandle => s@ == "no such handle"@,
                HostError::Pam(m) => s@ == "pam: "@ + m@,
            },
    {
        match self {
            HostError::InteriorNul(what) => {
                let mut s: String = "a NUL byte in ".to_owned();
                s.append(what);
                s.append(" — it cannot cross into C");
                s
            },
            HostError::ConversationNotBridged => NOT_BRIDGED.to_owned(),
            HostError::NoSuchHandle => "no such handle".to_owned(),
            HostError::Pam(m) => {
                let mut s: String = "pam: ".to_owned();
                s.append(m.as_str());
                s
            },
        }
    }
}

/// `std::str::Utf8Error`: why bytes are no UTF-8.
#[verifier::external_type_specification]
#[verifier::external_body]
pub struct ExUtf8Error(core::str::Utf8Error);

/// `std::str::from_utf8`: the bytes as text if and only if they are UTF-8.
pub assume_specification[ core::str::from_utf8 ](v: &[u8]) -> (r: Result<&str, core::str::Utf8Error>)
    ensures
        r is Ok <==> vstd::utf8::valid_utf8(v@),
        r matches Ok(s) ==> s@ == vstd::utf8::decode_utf8(v@),
;

/// Whether the names of a transaction can become C strings: the first that
/// cannot is the error.
pub fn cross_into_c(svc: &str, user: Option<&str>) -> (r: Result<(), HostError>)
    ensures
        match r {
            Ok(_) => !svc@.contains('\0') && (user matches Some(u) ==> !u@.contains('\0')),
            Err(HostError::InteriorNul(what)) => if svc@.contains('\0') {
                what@ == "service name"@
            } else {
                what@ == "user"@ && (user matches Some(u) && u@.contains('\0'))
            },
            Err(_) => false,
        },
{
    if text::has_char(svc, '\0') {
        return Err(HostError::InteriorNul("service name"));
    }
    if let Some(u) = user {
        if text::has_char(u, '\0') {
            return Err(HostError::InteriorNul("user"));
        }
    }
    Ok(())
}

/// One transaction: libpam's handle, and whom it is about once that is known.
#[derive(Clone, Copy)]
pub struct Txn {
    pub pamh: u64,
    pub uid: Option<Uid>,
}

/// The text between the first `=` of `s` and its end, and what stands before it.
pub open spec fn pair_of(s: Seq<char>) -> Option<(Seq<char>, Seq<char>)>
    decreases s.len(),
{
    if s.len() == 0 {
        None
    } else if s[0] == '=' {
        Some((Seq::empty(), s.skip(1)))
    } else {
        match pair_of(s.skip(1)) {
            None => None,
            Some((k, v)) => Some((seq![s[0]] + k, v)),
        }
    }
}

/// The environment that a list of `name=value` entries gives. An entry that is
/// no UTF-8, or has no `=`, gives nothing; a later entry counts over an earlier one.
pub open spec fn env_of(list: Seq<Vec<u8>>) -> Map<Seq<char>, Seq<char>>
    decreases list.len(),
{
    if list.len() == 0 {
        Map::empty()
    } else {
        let before = env_of(list.drop_last());
        let raw = list.last()@;
        if vstd::utf8::valid_utf8(raw) {
            match pair_of(vstd::utf8::decode_utf8(raw)) {
                Some((k, v)) => before.insert(k, v),
                None => before,
            }
        } else {
            before
        }
    }
}

/// Splits a `name=value` entry at its first `=`.
pub fn split_pair(s: &str) -> (r: Option<(String, String)>)
    ensures
        match r {
            Some((k, v)) => pair_of(s@) == Some((k@, v@)),
            None => pair_of(s@) is None,
        },
{
    let c: Vec<char> = text::chars_of(s);
    let mut i: usize = 0;
    proof {
        assert(s@.skip(0) =~= s@);
    }
    while i < c.len()
        invariant
            i <= c.len(),
            c@ == s@,
            match pair_of(s@.skip(i as int)) {
                None => pair_of(s@) is None,
                Some((k, v)) => pair_of(s@) == Some((s@.take(i as int) + k, v)),
            },
        decreases c.len() - i,
    {
        let ghost rest = s@.skip(i as int);
        proof {
            assert(rest[0] == s@[i as int]);
            assert(rest.skip(1) =~= s@.skip(i + 1));
        }
        if c[i] == '=' {
            let k: String = text::string_of(&c, 0, i);
            let v: String = text::string_of(&c, i + 1, c.len());
            proof {
                assert(k@ =~= s@.take(i as int) + Seq::<char>::empty());
                assert(v@ =~= rest.skip(1));
            }
            return Some((k, v));
        }
        proof {
            match pair_of(rest.skip(1)) {
                None => {},
                Some((k, v)) => {
                    assert(s@.take(i as int) + (seq![rest[0]] + k) =~= s@.take(i + 1) + k);
                },
            }
        }
        i = i + 1;
    }
    None
}

/// The environment that libpam's list gives.
pub fn parse_env_list(list: &Vec<Vec<u8>>) -> (e: EnvSet)
    ensures
        e@ == env_of(list@),
{
    let mut e: EnvSet = EnvSet::new();
    let mut i: usize = 0;
    while i < list.len()
        invariant
            i <= list.len(),
            e@ == env_of(list@.take(i as int)),
        decreases list.len() - i,
    {
        proof {
            assert(list@.take(i + 1).drop_last() =~= list@.take(i as int));
            assert(list@.take(i + 1).last() == list@[i as int]);
        }
        if let Ok(s) = core::str::from_utf8(list[i].as_slice()) {
            if let Some((k, v)) = split_pair(s) {
                e.insert(k, v);
            }
        }
        i = i + 1;
    }
    proof {
        assert(list@.take(i as int) =~= list@);
    }
    e
}

/// The transactions of a real PAM stack.
pub struct HostSeatEnv {
    txns: BTreeMap<u64, Txn>,
    next: u64,
}

impl HostSeatEnv {
    /// The open transactions by handle.
    pub closed spec fn txns(&self) -> Map<u64, Txn> {
        self.txns@
    }

    /// The handle that the next transaction gets.
    pub closed spec fn upcoming(&self) -> u64 {
        self.next
    }

    pub fn new() -> (e: Self)
        ensures
            e.txns() == Map::<u64, Txn>::empty(),
            e.upcoming() == 1,
    {
        HostSeatEnv { txns: BTreeMap::new(), next: 1 }
    }

    /// libpam's handle of a transaction.
    pub fn handle(&self, h: PamHandleId) -> (r: Result<u64, PamError>)
        ensures
            r == (if self.txns().contains_key(h.0) {
                Ok::<u64, PamError>(self.txns()[h.0].pamh)
            } else {
                Err(PamError::NoSuchHandle)
            }),
    {
        match self.txns.get(&h.0) {
            Some(t) => Ok(t.pamh),
            None => Err(PamError::NoSuchHandle),
        }
    }

    /// Enters a transaction that libpam answered with the code `rc` and the
    /// handle `pamh`; zero is the null handle.
    pub fn start(&mut self, rc: i32, pamh: u64) -> (r: Result<PamHandleId, HostError>)
        ensures
            r is Ok <==> rc == PAM_SUCCESS && pamh != 0,
            r matches Ok(h) ==> h.0 == old(self).upcoming() && final(self).txns() == old(
                self,
            ).txns().insert(h.0, Txn { pamh, uid: None }) && final(self).upcoming()
                == vstd::wrapping::u64_specs::wrapping_add(old(self).upcoming(), 1),
            r matches Err(e) ==> (e matches HostError::Pam(m) && m@ == "pam_start returned "@
                + text::signed(rc as int)) && *final(self) == *old(self),
    {
        if rc != PAM_SUCCESS || pamh == 0 {
            let mut m: String = "pam_start returned ".to_owned();
            m.append(text::signed_of(rc as i64).as_str());
            return Err(HostError::Pam(m));
        }
        let id: u64 = self.next;
        self.next = id.wrapping_add(1);
        self.txns.insert(id, Txn { pamh, uid: None });
        Ok(PamHandleId(id))
    }

    /// The `name=value` text that a variable is handed to libpam as.
    pub fn env_pair(&self, h: PamHandleId, kv: &EnvPair) -> (r: Result<String, PamError>)
        ensures
            ({
                let pair = kv.key@ + "="@ + kv.value@;
                if !self.txns().contains_key(h.0) {
                    r == Err::<String, PamError>(PamError::NoSuchHandle)
                } else if pair.contains('\0') {
                    r == Err::<String, PamError>(PamError::OutOfOrder("interior NUL in env pair"))
                } else {
                    r matches Ok(s) && s@ == pair
                }
            }),
    {
        self.handle(h)?;
        let mut s: String = kv.key.clone();
        s.append("=");
        s.append(kv.value.as_str());
        if text::has_char(s.as_str(), '\0') {
            return Err(PamError::OutOfOrder("interior NUL in env pair"));
        }
        Ok(s)
    }

    /// What came of setting a variable that libpam answered with `rc`.
    pub fn putenv(&self, h: PamHandleId, rc: i32) -> (r: Result<(), PamError>)
        ensures
            self.settles(h, rc, r),
    {
        self.settle(h, rc)
    }

    /// The environment of a transaction, from libpam's list; no list is no variable.
    pub fn getenvlist(&self, h: PamHandleId, list: &Option<Vec<Vec<u8>>>) -> (r: Result<EnvSet, PamError>)
        ensures
            !self.txns().contains_key(h.0) ==> r == Err::<EnvSet, PamError>(PamError::NoSuchHandle),
            self.txns().contains_key(h.0) ==> (r matches Ok(e) && e@ == (match list {
                Some(l) => env_of(l@),
                None => Map::<Seq<char>, Seq<char>>::empty(),
            })),
    {
        self.handle(h)?;
        match list {
            None => Ok(EnvSet::new()),
            Some(l) => Ok(parse_env_list(l)),
        }
    }

    /// What came of moving credentials.
    pub fn setcred(&self, h: PamHandleId, rc: i32) -> (r: Result<(), PamError>)
        ensures
            self.settles(h, rc, r),
    {
        self.settle(h, rc)
    }

    /// What came of asking for the account.
    pub fn acct_mgmt(&self, h: PamHandleId, rc: i32) -> (r: Result<AcctVerdict, PamError>)
        ensures
            r == (if self.txns().contains_key(h.0) {
                Ok::<AcctVerdict, PamError>(verdict_for(rc))
            } else {
                Err(PamError::NoSuchHandle)
            }),
    {
        self.handle(h)?;
        Ok(verdict_of(rc))
    }

    /// What came of changing the token.
    pub fn chauthtok(&self, h: PamHandleId, rc: i32) -> (r: Result<(), PamError>)
        ensures
            self.settles(h, rc, r),
    {
        self.settle(h, rc)
    }

    /// What came of opening the session.
    pub fn open_session(&self, h: PamHandleId, rc: i32) -> (r: Result<(), PamError>)
        ensures
            self.settles(h, rc, r),
    {
        self.settle(h, rc)
    }

    /// What came of closing the session.
    pub fn close_session(&self, h: PamHandleId, rc: i32) -> (r: Result<(), PamError>)
        ensures
            self.settles(h, rc, r),
    {
        self.settle(h, rc)
    }

    /// Ends a transaction: it is out of the table, and its libpam handle is
    /// handed back to be ended.
    pub fn end(&mut self, h: PamHandleId) -> (r: Result<u64, PamError>)
        ensures
            final(self).txns() == old(self).txns().remove(h.0),
            final(self).upcoming() == old(self).upcoming(),
            r == (if old(self).txns().contains_key(h.0) {
                Ok::<u64, PamError>(old(self).txns()[h.0].pamh)
            } else {
                Err(PamError::NoSuchHandle)
            }),
    {
        let t: Option<Txn> = self.txns.remove(&h.0);
        match t {
            Some(t) => Ok(t.pamh),
            None => Err(PamError::NoSuchHandle),
        }
    }

    /// There is no conversation here: it refuses, and never pretends.
    pub fn next_step(&mut self, h: PamHandleId) -> (r: Result<PamStep, HostError>)
        ensures
            r matches Err(e) && e is ConversationNotBridged,
            *final(self) == *old(self),
    {
        Err(HostError::ConversationNotBridged)
    }

    /// There is no conversation here.
    pub fn answer(&mut self, h: PamHandleId, a: PamAnswer) -> (r: Result<(), HostError>)
        ensures
            r matches Err(e) && e is ConversationNotBridged,
            *final(self) == *old(self),
    {
        Err(HostError::ConversationNotBridged)
    }

    /// Whom a transaction is about, where that is known.
    pub fn uid_for(&self, h: PamHandleId) -> (r: Result<Option<Uid>, PamError>)
        ensures
            r == (if self.txns().contains_key(h.0) {
                Ok::<Option<Uid>, PamError>(self.txns()[h.0].uid)
            } else {
                Err(PamError::NoSuchHandle)
            }),
    {
        match self.txns.get(&h.0) {
            Some(t) => Ok(t.uid),
            None => Err(PamError::NoSuchHandle),
        }
    }

    /// Whether `r` is what comes of a call on `h` that libpam answered with
    /// `rc`: an unknown handle is refused, whatever the code.
    pub open spec fn settles(&self, h: PamHandleId, rc: i32, r: Result<(), PamError>) -> bool {
        if self.txns().contains_key(h.0) {
            accepted(rc, r)
        } else {
            r == Err::<(), PamError>(PamError::NoSuchHandle)
        }
    }

    fn settle(&self, h: PamHandleId, rc: i32) -> (r: Result<(), PamError>)
        ensures
            self.settles(h, rc, r),
    {
        self.handle(h)?;
        result_of(rc)
    }
}

/// Writing a variable and reading it back gives it: the text that libpam is
/// handed splits at the name again, where the name itself holds no `=`.
pub proof fn written_pair_reads_back(key: Seq<char>, value: Seq<char>)
    requires
        !key.contains('='),
    ensures
        pair_of(key + "="@ + value) == Some((key, value)),
    decreases key.len(),
{
    reveal_strlit("=");
    let s = key + "="@ + value;
    if key.len() == 0 {
        assert(s.skip(1) =~= value);
        assert(key =~= Seq::<char>::empty());
        assert(s[0] == '=');
    } else {
        let rest = key.skip(1);
        assert(!rest.contains('=')) by {
            if rest.contains('=') {
                let i = choose|i: int| 0 <= i < rest.len() && rest[i] == '=';
                assert(key[i + 1] == '=');
            }
        }
        written_pair_reads_back(rest, value);
        assert(s.skip(1) =~= rest + "="@ + value);
        assert(s[0] == key[0]);
        assert(seq![key[0]] + rest =~= key);
        assert(key.contains(key[0]));
    }
}

/// An entry splits at its first `=` and nowhere else: what stands before holds
/// none, nothing is lost, and an entry without one is no variable.
pub proof fn an_entry_splits_at_its_first_sign(s: Seq<char>)
    ensures
        match pair_of(s) {
            Some((k, v)) => s == k + seq!['='] + v && !k.contains('='),
            None => !s.contains('='),
        },
    decreases s.len(),
{
    if s.len() > 0 {
        if s[0] == '=' {
            assert(s =~= Seq::<char>::empty() + seq!['='] + s.skip(1));
        } else {
            let rest = s.skip(1);
            an_entry_splits_at_its_first_sign(rest);
            match pair_of(rest) {
                Some((k, v)) => {
                    let whole = seq![s[0]] + k;
                    assert(s =~= whole + seq!['='] + v) by {
                        assert(s =~= seq![s[0]] + rest);
                    }
                    assert(!whole.contains('=')) by {
                        if whole.contains('=') {
                            let i = choose|i: int| 0 <= i < whole.len() && whole[i] == '=';
                            assert(i > 0);
                            assert(k[i - 1] == '=');
                        }
                    }
                },
                None => {
                    if s.contains('=') {
                        let i = choose|i: int| 0 <= i < s.len() && s[i] == '=';
                        assert(rest[i - 1] == '=');
                    }
                },
            }
        }
    }
}

/// Of several entries of one name the last counts, with its value to the letter.
pub proof fn the_last_entry_of_a_name_counts(
    list: Seq<Vec<u8>>,
    i: int,
    key: Seq<char>,
    value: Seq<char>,
)
    requires
        0 <= i < list.len(),
        !key.contains('='),
        vstd::utf8::valid_utf8(list[i]@),
        vstd::utf8::decode_utf8(list[i]@) == key + "="@ + value,
        forall|j: int, v: Seq<char>|
            #![trigger list[j], key + "="@ + v]
            i < j < list.len() && vstd::utf8::valid_utf8(list[j]@) ==> vstd::utf8::decode_utf8(
                list[j]@,
            ) != key + "="@ + v,
    ensures
        env_of(list).contains_key(key),
        env_of(list)[key] == value,
    decreases list.len(),
{
    reveal_strlit("=");
    let init = list.drop_last();
    if i == list.len() - 1 {
        written_pair_reads_back(key, value);
    } else {
        assert(init[i] == list[i]);
        assert forall|j: int, v: Seq<char>|
            #![trigger init[j], key + "="@ + v]
            i < j < init.len() && vstd::utf8::valid_utf8(init[j]@) implies vstd::utf8::decode_utf8(
            init[j]@,
        ) != key + "="@ + v by {
            assert(init[j] == list[j]);
        }
        the_last_entry_of_a_name_counts(init, i, key, value);
        let raw = list.last()@;
        assert(list[list.len() - 1]@ == raw);
        if vstd::utf8::valid_utf8(raw) {
            let s = vstd::utf8::decode_utf8(raw);
            an_entry_splits_at_its_first_sign(s);
            match pair_of(s) {
                Some((k, v)) => {
                    assert("="@ =~= seq!['=']);
                    assert(s == k + "="@ + v);
                    assert(k != key) by {
                        let w = key + "="@ + v;
                        assert(list[list.len() - 1] == list.last());
                    }
                },
                None => {},
            }
        }
    }
}

/// A variable that is there was in the list, name and value to the letter.
pub proof fn a_variable_comes_from_the_list(list: Seq<Vec<u8>>, key: Seq<char>)
    requires
        env_of(list).contains_key(key),
    ensures
        exists|i: int|
            0 <= i < list.len() && vstd::utf8::valid_utf8((#[trigger] list[i])@)
                && vstd::utf8::decode_utf8(list[i]@) == key + "="@ + env_of(list)[key],
    decreases list.len(),
{
    reveal_strlit("=");
    assert("="@ =~= seq!['=']);
    if list.len() > 0 {
        let init = list.drop_last();
        let raw = list.last()@;
        let here = vstd::utf8::valid_utf8(raw) && (pair_of(vstd::utf8::decode_utf8(raw)) matches Some(
            p,
        ) && p.0 == key);
        if here {
            an_entry_splits_at_its_first_sign(vstd::utf8::decode_utf8(raw));
            let n = list.len() - 1;
            assert(list[n]@ == raw);
        } else {
            a_variable_comes_from_the_list(init, key);
            let i = choose|i: int|
                0 <= i < init.len() && vstd::utf8::valid_utf8((#[trigger] init[i])@)
                    && vstd::utf8::decode_utf8(init[i]@) == key + "="@ + env_of(init)[key];
            assert(list[i] == init[i]);
        }
    }
}

/// A call on a handle that is not open is refused whatever its code; on one that
/// is open, zero alone is success.
pub proof fn only_an_open_handle_succeeds(e: HostSeatEnv, h: PamHandleId, rc: i32, r: Result<(), PamError>)
    requires
        e.settles(h, rc, r),
    ensures
        r is Ok <==> e.txns().contains_key(h.0) && rc == 0,
        !e.txns().contains_key(h.0) ==> (r matches Err(x) && x is NoSuchHandle),
        e.txns().contains_key(h.0) && rc != 0 ==> (r matches Err(x) && x is Refused),
{
}

} // verus!
