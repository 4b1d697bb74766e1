//! Checking a passphrase against a stored hash.
//!
//! The scheme comes from the stored hash. One that is not implemented is
//! refused and says so. An account that does not exist, or cannot authenticate,
//! costs a derivation all the same.
use vstd::prelude::*;
use crate::native::shadow::{
    find_entry, found, hash_fault, validity_of, EntryView, ShadowEntry, Unusable, Validity,
};
use crate::text;

verus! {

/// The verdict on a passphrase.
#[derive(Debug, Clone, Copy, PartialEq, Eq, Structural)]
pub enum Verdict {
    Accepted,
    /// It was checked and does not match.
    Refused,
    /// The account cannot authenticate at all.
    Cannot(Unusable),
    /// The stored hash is of a scheme that is not implemented.
    UnknownScheme,
}

/// A hash whose passphrase nobody knows. It is real, so checking against it
/// costs what checking costs.
pub const TIMING_BALLAST: &'static str =
    "$6$mukaeballast$0hOFwFJZFFOb1zBiRfWiCYJPz7XyM.tBaFXfCB6TT5uAEQmHjWurDVQlWvBz98Sk/rJ3JwmYRDIvhNTvj/Br1";

/// Whether pwhash finds that the hash is the passphrase's.
pub uninterp spec fn pwhash_accepts(pass: Seq<char>, stored: Seq<char>) -> bool;

/// Whether yescrypt finds that the hash is the passphrase's.
pub uninterp spec fn yescrypt_accepts(pass: Seq<char>, stored: Seq<char>) -> bool;

/// Whether a hash is written in printable ASCII, as every hash is that can match.
pub open spec fn printable(stored: Seq<char>) -> bool {
    forall|i: int| 0 <= i < stored.len() ==> ' ' <= #[trigger] stored[i] <= '~'
}

/// The digit that a character is in a hash; none of the others counts.
pub open spec fn radix64(c: char) -> int {
    if '.' <= c <= '9' {
        c as int - '.' as int
    } else if 'A' <= c <= 'Z' {
        c as int - 'A' as int + 12
    } else if 'a' <= c <= 'z' {
        c as int - 'a' as int + 38
    } else {
        0
    }
}

/// The largest exponent of the cost that leaves a derivation addressable, by the
/// first digit of the block size: the digit says how many digits there are, and
/// so how large the block size can be.
pub open spec fn cost_limit(block: int) -> int {
    if block <= 47 {
        47
    } else if block <= 55 {
        44
    } else if block <= 59 {
        39
    } else if block <= 61 {
        34
    } else if block == 62 {
        29
    } else {
        23
    }
}

/// Whether the memory that a yescrypt hash asks for can be addressed at all. Its
/// fifth character is the exponent of the cost, its sixth begins the block size.
pub open spec fn affordable(stored: Seq<char>) -> bool {
    stored.len() >= 6 ==> radix64(stored[4]) <= cost_limit(radix64(stored[5]))
}

/// `pwhash::unix::verify`: whether hashing the passphrase in the format of
/// `stored` gives `stored`. What that comes to is named by [`pwhash_accepts`].
/// It panics on some hashes that are not printable, so those are left out.
#[verifier::external_body]
fn pwhash_verify(pass: &str, stored: &str) -> (r: bool)
    requires
        printable(stored@),
    ensures
        r == pwhash_accepts(pass@, stored@),
{
    pwhash::unix::verify(pass, stored)
}

/// `Yescrypt::verify_password` of the yescrypt crate, on a hash in its string
/// form: whether it succeeds, named by [`yescrypt_accepts`]. The hash itself
/// sets how much memory the derivation takes: it does not return where that is
/// more than can be addressed, so those hashes are left out, nor where it is
/// more than the machine has.
#[verifier::external_body]
fn yescrypt_verify(pass: &str, stored: &str) -> (r: bool)
    requires
        affordable(stored@),
    ensures
        r == yescrypt_accepts(pass@, stored@),
{
    yescrypt::PasswordVerifier::verify_password(&yescrypt::Yescrypt::default(), pass.as_bytes(), stored)
        .is_ok()
}

/// How a stored hash is checked.
#[derive(Debug, Clone, Copy, PartialEq, Eq, Structural)]
pub enum Scheme {
    Yescrypt,
    Pwhash,
    Unknown,
}

/// Whether a hash is marked with a scheme that pwhash implements.
pub open spec fn is_marked(stored: Seq<char>) -> bool {
    ||| text::begins(stored, "$1$"@)
    ||| text::begins(stored, "$5$"@)
    ||| text::begins(stored, "$6$"@)
    ||| text::begins(stored, "$2a$"@)
    ||| text::begins(stored, "$2b$"@)
    ||| text::begins(stored, "$2y$"@)
    ||| text::begins(stored, "$sha1$"@)
    ||| text::begins(stored, "_"@)
}

/// The scheme of a stored hash: its mark says it, and the traditional hash,
/// which has none, is told by its length of thirteen bytes.
pub open spec fn scheme_for(stored: Seq<char>) -> Scheme {
    if text::begins(stored, "$y$"@) {
        Scheme::Yescrypt
    } else if is_marked(stored) {
        Scheme::Pwhash
    } else if vstd::utf8::encode_utf8(stored).len() == 13 && !text::begins(stored, "$"@) {
        Scheme::Pwhash
    } else {
        Scheme::Unknown
    }
}

/// The scheme of a stored hash.
pub fn scheme_of(stored: &str) -> (s: Scheme)
    ensures
        s == scheme_for(stored@),
{
    if text::starts_with(stored, "$y$") {
        return Scheme::Yescrypt;
    }
    if text::starts_with(stored, "$1$") || text::starts_with(stored, "$5$") || text::starts_with(
        stored,
        "$6$",
    ) || text::starts_with(stored, "$2a$") || text::starts_with(stored, "$2b$") || text::starts_with(
        stored,
        "$2y$",
    ) || text::starts_with(stored, "$sha1$") || text::starts_with(stored, "_") {
        return Scheme::Pwhash;
    }
    if stored.as_bytes().len() == 13 && !text::starts_with(stored, "$") {
        return Scheme::Pwhash;
    }
    Scheme::Unknown
}

fn is_printable(stored: &str) -> (r: bool)
    ensures
        r == printable(stored@),
{
    let v: Vec<char> = text::chars_of(stored);
    let mut i: usize = 0;
    while i < v.len()
        invariant
            i <= v.len(),
            v@ == stored@,
            forall|j: int| 0 <= j < i ==> ' ' <= #[trigger] stored@[j] <= '~',
        decreases v.len() - i,
    {
        let c: char = v[i];
        if c < ' ' || c > '~' {
            assert(!(' ' <= stored@[i as int] <= '~'));
            return false;
        }
        i = i + 1;
    }
    true
}

fn digit_of(c: char) -> (d: u32)
    ensures
        d == radix64(c),
{
    if '.' <= c && c <= '9' {
        c as u32 - '.' as u32
    } else if 'A' <= c && c <= 'Z' {
        c as u32 - 'A' as u32 + 12
    } else if 'a' <= c && c <= 'z' {
        c as u32 - 'a' as u32 + 38
    } else {
        0
    }
}

fn is_affordable(stored: &str) -> (r: bool)
    ensures
        r == affordable(stored@),
{
    let v: Vec<char> = text::chars_of(stored);
    if v.len() < 6 {
        return true;
    }
    let block: u32 = digit_of(v[5]);
    let limit: u32 = if block <= 47 {
        47
    } else if block <= 55 {
        44
    } else if block <= 59 {
        39
    } else if block <= 61 {
        34
    } else if block == 62 {
        29
    } else {
        23
    };
    digit_of(v[4]) <= limit
}

/// Whether the passphrase matches; `None` where the scheme is not implemented.
/// A hash that nothing could be checked against matches nothing.
pub open spec fn check_for(stored: Seq<char>, pass: Seq<char>) -> Option<bool> {
    match scheme_for(stored) {
        Scheme::Yescrypt => Some(affordable(stored) && yescrypt_accepts(pass, stored)),
        Scheme::Pwhash => Some(printable(stored) && pwhash_accepts(pass, stored)),
        Scheme::Unknown => None,
    }
}

/// Checks a passphrase against a stored hash.
pub fn check(stored: &str, pass: &str) -> (r: Option<bool>)
    ensures
        r == check_for(stored@, pass@),
{
    match scheme_of(stored) {
        Scheme::Yescrypt => Some(is_affordable(stored) && yescrypt_verify(pass, stored)),
        Scheme::Pwhash => Some(is_printable(stored) && pwhash_verify(pass, stored)),
        Scheme::Unknown => None,
    }
}

/// The verdict for what a check came to.
pub open spec fn verdict_for(checked: Option<bool>) -> Verdict {
    match checked {
        Some(true) => Verdict::Accepted,
        Some(false) => Verdict::Refused,
        None => Verdict::UnknownScheme,
    }
}

/// The verdict for what a check came to.
pub fn verdict_of(checked: Option<bool>) -> (v: Verdict)
    ensures
        v == verdict_for(checked),
{
    match checked {
        Some(true) => Verdict::Accepted,
        Some(false) => Verdict::Refused,
        None => Verdict::UnknownScheme,
    }
}

/// The verdict on a passphrase for an account.
pub open spec fn verified(e: EntryView, pass: Seq<char>) -> Verdict {
    match hash_fault(e.hash) {
        Some(u) => Verdict::Cannot(u),
        None => verdict_for(check_for(e.hash, pass)),
    }
}

/// Verifies a passphrase against one account.
pub fn verify(entry: &ShadowEntry, passphrase: &str) -> (v: Verdict)
    ensures
        v == verified(entry@, passphrase@),
{
    match entry.usable_hash() {
        Err(u) => {
            let _ = check(TIMING_BALLAST, passphrase);
            Verdict::Cannot(u)
        },
        Ok(stored) => verdict_of(check(stored, passphrase)),
    }
}

/// The verdict on an account that does not exist: that of a wrong passphrase,
/// at the cost of one.
pub fn verify_absent_user(passphrase: &str) -> (v: Verdict)
    ensures
        v == Verdict::Refused,
{
    let _ = check(TIMING_BALLAST, passphrase);
    Verdict::Refused
}

/// Verifies a passphrase for `user` against the text of a shadow file. The
/// entry is wiped before the verdict is returned.
pub fn verify_user(file: &str, user: &str, passphrase: &str) -> (v: Verdict)
    ensures
        v == (match found(text::lines_of(file@), user@) {
            Some(e) => verified(e, passphrase@),
            None => Verdict::Refused,
        }),
{
    match find_entry(file, user) {
        Some(e) => {
            let mut e: ShadowEntry = e;
            let v: Verdict = verify(&e, passphrase);
            e.wipe();
            v
        },
        None => verify_absent_user(passphrase),
    }
}

/// Whether `user` may log in on the day `today`, by the text of a shadow file.
/// An account that is not there is as one that has expired.
pub fn account_validity(file: &str, user: &str, today: i64) -> (v: Validity)
    ensures
        v == (match found(text::lines_of(file@), user@) {
            Some(e) => validity_of(e, today),
            None => Validity::AccountExpired,
        }),
{
    match find_entry(file, user) {
        Some(e) => {
            let mut e: ShadowEntry = e;
            let v: Validity = e.validity(today);
            e.wipe();
            v
        },
        None => Validity::AccountExpired,
    }
}

/// The day that a time in seconds falls on, both counted from the epoch. A time
/// before it falls on a negative day.
pub fn today_days(unix_secs: i64) -> (d: i64)
    ensures
        d == unix_secs as int / 86_400,
{
    let q: i64 = if unix_secs >= 0 {
        unix_secs / 86_400
    } else {
        -1 - (-1 - unix_secs) / 86_400
    };
    q
}

/// Whether a nologin file keeps a user out, and with what message. Root is
/// never kept out; a file that cannot be read keeps everybody else out without
/// a word.
pub fn nologin_block(is_root: bool, present: bool, contents: Option<String>) -> (r: Option<String>)
    ensures
        r is Some <==> !is_root && present,
        r matches Some(m) ==> m@ == (match contents {
            Some(c) => c@,
            None => Seq::<char>::empty(),
        }),
{
    if is_root || !present {
        return None;
    }
    match contents {
        Some(c) => Some(c),
        None => Some(String::new()),
    }
}

/// Nothing but a match is accepted: not an unknown scheme, not an account that
/// cannot authenticate, not one without a password.
pub proof fn only_a_match_is_accepted(e: EntryView, pass: Seq<char>)
    requires
        verified(e, pass) == Verdict::Accepted,
    ensures
        hash_fault(e.hash) is None,
        e.hash.len() > 0,
        check_for(e.hash, pass) == Some(true),
{
    reveal_strlit("");
    if e.hash.len() == 0 {
        assert(e.hash =~= ""@);
    }
}

/// A missing account is answered as a wrong passphrase is.
pub proof fn a_missing_account_is_answered_as_a_wrong_passphrase(e: EntryView, pass: Seq<char>)
    requires
        hash_fault(e.hash) is None,
        check_for(e.hash, pass) == Some(false),
    ensures
        verified(e, pass) == Verdict::Refused,
{
}

/// The ballast is checked by the same scheme as a real hash of its kind, and the
/// check is made.
pub proof fn the_ballast_is_checked()
    ensures
        scheme_for(TIMING_BALLAST@) == Scheme::Pwhash,
        printable(TIMING_BALLAST@),
{
    reveal_strlit("$6$mukaeballast$0hOFwFJZFFOb1zBiRfWiCYJPz7XyM.tBaFXfCB6TT5uAEQmHjWurDVQlWvBz98Sk/rJ3JwmYRDIvhNTvj/Br1");
    reveal_strlit("$6$");
    reveal_strlit("$y$");
    assert(TIMING_BALLAST@.take(3) =~= "$6$"@);
    assert(TIMING_BALLAST@.take(3)[1] == '6');
}

/// The passphrase is checked as it was given, against the hash as it is stored: a
/// hash that is marked as yescrypt's and asks for no more than can be addressed is
/// accepted if and only if yescrypt accepts the two, and one that is marked as one
/// of pwhash's, and is printable, if and only if pwhash does.
pub proof fn the_passphrase_is_checked_as_given(e: EntryView, pass: Seq<char>)
    ensures
        ({
            let s = e.hash;
            let text = forall|i: int| 0 <= i < s.len() ==> ' ' <= #[trigger] s[i] <= '~';
            let marked = {
                ||| s.len() >= 3 && (s.take(3) == "$1$"@ || s.take(3) == "$5$"@ || s.take(3) == "$6$"@)
                ||| s.len() >= 4 && (s.take(4) == "$2a$"@ || s.take(4) == "$2b$"@ || s.take(4)
                    == "$2y$"@)
                ||| s.len() >= 6 && s.take(6) == "$sha1$"@
                ||| s.len() >= 1 && s[0] == '_'
                ||| s.len() == 13 && s[0] != '$' && s[0] != '!' && s[0] != '_'
            };
            let ordinary = s.len() < 6 || s[4] <= 'j' && s[5] <= 'j';
            &&& marked && text ==> verified(e, pass) == (if pwhash_accepts(pass, s) {
                Verdict::Accepted
            } else {
                Verdict::Refused
            })
            &&& s.len() >= 3 && s.take(3) == "$y$"@ && ordinary ==> verified(e, pass) == (
            if yescrypt_accepts(pass, s) {
                Verdict::Accepted
            } else {
                Verdict::Refused
            })
            &&& verified(e, pass) == Verdict::Accepted ==> s.len() > 0 && s[0] != '!' && s != "*"@ && (
            pwhash_accepts(pass, s) || yescrypt_accepts(pass, s))
        }),
{
    let s = e.hash;
    lemma_marks();
    if s.len() >= 3 {
        assert(s.take(3)[0] == s[0]);
        assert(s.take(3)[1] == s[1]);
        assert(s.take(3)[2] == s[2]);
    }
    if s.len() >= 4 {
        assert(s.take(4)[0] == s[0]);
        assert(s.take(4)[1] == s[1]);
    }
    if s.len() >= 6 {
        assert(s.take(6)[0] == s[0]);
        assert(s.take(6)[1] == s[1]);
    }
    if s.len() >= 1 {
        assert(s.take(1)[0] == s[0]);
        if s[0] == '_' {
            assert(s.take(1) =~= "_"@);
        }
        if s[0] == '!' {
            assert(s.take(1) =~= "!"@);
        }
    }
    if s.len() == 13 && printable(s) {
        assert(vstd::utf8::is_ascii_chars(s));
        vstd::utf8::is_ascii_chars_encode_utf8(s);
    }
}

proof fn lemma_marks()
    ensures
        "$y$"@ == seq!['$', 'y', '$'],
        "$1$"@ == seq!['$', '1', '$'],
        "$5$"@ == seq!['$', '5', '$'],
        "$6$"@ == seq!['$', '6', '$'],
        "$2a$"@ == seq!['$', '2', 'a', '$'],
        "$2b$"@ == seq!['$', '2', 'b', '$'],
        "$2y$"@ == seq!['$', '2', 'y', '$'],
        "$sha1$"@ == seq!['$', 's', 'h', 'a', '1', '$'],
        "_"@ == seq!['_'],
        "$"@ == seq!['$'],
        "!"@ == seq!['!'],
        "*"@ == seq!['*'],
        ""@ == Seq::<char>::empty(),
{
    reveal_strlit("$y$");
    reveal_strlit("$1$");
    reveal_strlit("$5$");
    reveal_strlit("$6$");
    reveal_strlit("$2a$");
    reveal_strlit("$2b$");
    reveal_strlit("$2y$");
    reveal_strlit("$sha1$");
    reveal_strlit("_");
    reveal_strlit("$");
    reveal_strlit("!");
    reveal_strlit("*");
    reveal_strlit("");
    assert("$y$"@ =~= seq!['$', 'y', '$']);
    assert("$1$"@ =~= seq!['$', '1', '$']);
    assert("$5$"@ =~= seq!['$', '5', '$']);
    assert("$6$"@ =~= seq!['$', '6', '$']);
    assert("$2a$"@ =~= seq!['$', '2', 'a', '$']);
    assert("$2b$"@ =~= seq!['$', '2', 'b', '$']);
    assert("$2y$"@ =~= seq!['$', '2', 'y', '$']);
    assert("$sha1$"@ =~= seq!['$', 's', 'h', 'a', '1', '$']);
    assert("_"@ =~= seq!['_']);
    assert("$"@ =~= seq!['$']);
    assert("!"@ =~= seq!['!']);
    assert("*"@ =~= seq!['*']);
    assert(""@ =~= Seq::<char>::empty());
}

/// A hash that cannot authenticate is told apart by its first characters, whatever
/// the passphrase: an empty one has no password, a star is disabled, an
/// exclamation mark locks. A hash behind an unknown mark is of an unknown scheme.
pub proof fn what_cannot_authenticate_says_why(e: EntryView, pass: Seq<char>)
    ensures
        e.hash.len() == 0 <==> verified(e, pass) == Verdict::Cannot(Unusable::NoPassword),
        e.hash == "*"@ <==> verified(e, pass) == Verdict::Cannot(Unusable::Disabled),
        e.hash.len() > 0 && e.hash[0] == '!' <==> verified(e, pass) == Verdict::Cannot(
            Unusable::Locked,
        ),
        e.hash.len() >= 2 && e.hash[0] == '$' && e.hash[1] != 'y' && e.hash[1] != '1' && e.hash[1]
            != '2' && e.hash[1] != '5' && e.hash[1] != '6' && e.hash[1] != 's' ==> verified(e, pass)
            == Verdict::UnknownScheme,
        check_for(e.hash, pass) == Some(true) && e.hash.len() > 0 && e.hash[0] != '!' && e.hash
            != "*"@ ==> verified(e, pass) == Verdict::Accepted,
        check_for(e.hash, pass) == Some(false) && e.hash.len() > 0 && e.hash[0] != '!' && e.hash
            != "*"@ ==> verified(e, pass) == Verdict::Refused,
{
    let s = e.hash;
    lemma_marks();
    if s.len() == 0 {
        assert(s =~= ""@);
    } else {
        assert(s.take(1)[0] == s[0]);
        if s[0] == '!' {
            assert(s.take(1) =~= "!"@);
        }
        if s[0] == '$' {
            assert(s.take(1) =~= "$"@);
        }
    }
    if s.len() >= 3 {
        assert(s.take(3)[1] == s[1]);
    }
    if s.len() >= 4 {
        assert(s.take(4)[1] == s[1]);
    }
    if s.len() >= 6 {
        assert(s.take(6)[1] == s[1]);
    }
}

} // verus!
