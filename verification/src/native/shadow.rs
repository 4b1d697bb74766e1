//! The shadow file: one account per line, its hash, and the days that decide
//! whether it may be used at all.
use vstd::prelude::*;
use zeroize::Zeroize;
use crate::text;

verus! {

/// One account, reduced to what authentication needs.
pub struct ShadowEntry {
    pub name: String,
    hash: String,
    last_change: Option<i64>,
    max_age: Option<i64>,
    inactive: Option<i64>,
    expires: Option<i64>,
}

/// What an account says.
pub struct EntryView {
    pub name: Seq<char>,
    /// The hash field as it stands.
    pub hash: Seq<char>,
    /// The day of the last password change; zero asks for a change now.
    pub last_change: Option<i64>,
    /// How many days a password stays valid.
    pub max_age: Option<i64>,
    /// How many days of grace follow before the account is dead.
    pub inactive: Option<i64>,
    /// The day from which the account is gone.
    pub expires: Option<i64>,
}

/// Whether an account may be used on some day, whatever its password.
#[derive(Debug, Clone, Copy, PartialEq, Eq, Structural)]
pub enum Validity {
    /// Nothing stands in the way.
    Okay,
    /// The account is gone.
    AccountExpired,
    /// The password is too old and the grace is over.
    InactiveElapsed,
    /// The password must be changed first.
    MustChangePassword,
}

/// Why an account cannot authenticate, before any passphrase is considered.
#[derive(Debug, Clone, Copy, PartialEq, Eq, Structural)]
pub enum Unusable {
    /// The hash is behind an exclamation mark.
    Locked,
    /// The hash is a star.
    Disabled,
    /// There is no hash.
    NoPassword,
}

/// The number in the field at position `i`; `None` where there is none.
pub open spec fn day_in(fields: Seq<Seq<char>>, i: int) -> Option<i64> {
    if i < fields.len() {
        text::i64_of(text::trimmed(fields[i]))
    } else {
        None
    }
}

/// The account that a line describes; a line without a name, or without a
/// second field, describes none.
pub open spec fn entry_of(line: Seq<char>) -> Option<EntryView> {
    let f = text::split_on(line, ':');
    if f.len() < 2 || f[0].len() == 0 {
        None
    } else {
        Some(
            EntryView {
                name: f[0],
                hash: f[1],
                last_change: day_in(f, 2),
                max_age: day_in(f, 4),
                inactive: day_in(f, 6),
                expires: day_in(f, 7),
            },
        )
    }
}

/// A password ages only where both the day of its change and a limit below the
/// customary "never" are given.
pub open spec fn ages(e: EntryView) -> bool {
    e.last_change is Some && (e.max_age matches Some(max) && 0 <= max < 99_999)
}

/// Whether an account may be used on the day `today`. The end of the account
/// comes first, then the demand for a change, then the age of the password.
pub open spec fn validity_of(e: EntryView, today: i64) -> Validity {
    if e.expires matches Some(exp) && exp >= 0 && today >= exp {
        Validity::AccountExpired
    } else if e.last_change == Some(0i64) {
        Validity::MustChangePassword
    } else if !ages(e) || today <= e.last_change->0 + e.max_age->0 {
        Validity::Okay
    } else if e.inactive matches Some(grace) && grace >= 0 && today > e.last_change->0 + e.max_age->0
        + grace {
        Validity::InactiveElapsed
    } else {
        Validity::MustChangePassword
    }
}

/// Why a hash field cannot authenticate, if it cannot.
pub open spec fn hash_fault(hash: Seq<char>) -> Option<Unusable> {
    if hash == ""@ {
        Some(Unusable::NoPassword)
    } else if hash == "*"@ {
        Some(Unusable::Disabled)
    } else if text::begins(hash, "!"@) {
        Some(Unusable::Locked)
    } else {
        None
    }
}

fn day(fields: &Vec<String>, i: usize) -> (r: Option<i64>)
    ensures
        r == day_in(text::texts(fields@), i as int),
{
    if i < fields.len() {
        text::parse_i64(text::trim(fields[i].as_str()).as_str())
    } else {
        None
    }
}

/// `Zeroize::zeroize` of a `String`, from the zeroize crate: the characters are
/// overwritten and the string is empty afterwards. That the memory is
/// overwritten is not stated: a string's memory is no part of its value.
#[verifier::external_body]
fn zeroize_string(s: &mut String)
    ensures
        final(s)@ == Seq::<char>::empty(),
{
    s.zeroize();
}

impl ShadowEntry {
    pub closed spec fn view(&self) -> EntryView {
        EntryView {
            name: self.name@,
            hash: self.hash@,
            last_change: self.last_change,
            max_age: self.max_age,
            inactive: self.inactive,
            expires: self.expires,
        }
    }

    /// The account's name.
    pub fn name(&self) -> (s: &str)
        ensures
            s@ == self@.name,
    {
        self.name.as_str()
    }

    /// Reads one line.
    pub fn parse_line(line: &str) -> (r: Option<Self>)
        ensures
            r is Some <==> entry_of(line@) is Some,
            r matches Some(e) ==> e@ == entry_of(line@)->0,
    {
        let f: Vec<String> = text::split(line, ':');
        let ghost t = text::split_on(line@, ':');
        proof {
            assert(f@.len() == t.len());
            assert(t[0] == f@[0]@);
        }
        if f.len() < 2 || f[0].as_str().is_empty() {
            return None;
        }
        proof {
            assert(t[1] == f@[1]@);
        }
        Some(
            ShadowEntry {
                name: f[0].clone(),
                hash: f[1].clone(),
                last_change: day(&f, 2),
                max_age: day(&f, 4),
                inactive: day(&f, 6),
                expires: day(&f, 7),
            },
        )
    }

    /// Whether the account may be used on the day `today`, counted from the epoch.
    pub fn validity(&self, today: i64) -> (v: Validity)
        ensures
            v == validity_of(self@, today),
    {
        if let Some(exp) = self.expires {
            if exp >= 0 && today >= exp {
                return Validity::AccountExpired;
            }
        }
        let changed: i64 = match self.last_change {
            None => {
                return Validity::Okay;
            },
            Some(c) => c,
        };
        if changed == 0 {
            return Validity::MustChangePassword;
        }
        let max: i64 = match self.max_age {
            None => {
                return Validity::Okay;
            },
            Some(m) => m,
        };
        if max < 0 || max >= 99_999 {
            return Validity::Okay;
        }
        let limit: i128 = changed as i128 + max as i128;
        if today as i128 <= limit {
            return Validity::Okay;
        }
        match self.inactive {
            Some(grace) => if grace >= 0 && today as i128 > limit + grace as i128 {
                Validity::InactiveElapsed
            } else {
                Validity::MustChangePassword
            },
            None => Validity::MustChangePassword,
        }
    }

    /// The hash as it stands, or why the account cannot authenticate at all.
    pub fn usable_hash(&self) -> (r: Result<&str, Unusable>)
        ensures
            match r {
                Ok(h) => hash_fault(self@.hash) is None && h@ == self@.hash,
                Err(u) => hash_fault(self@.hash) == Some(u),
            },
    {
        let h: &str = self.hash.as_str();
        if text::same(h, "") {
            Err(Unusable::NoPassword)
        } else if text::same(h, "*") {
            Err(Unusable::Disabled)
        } else if text::starts_with(h, "!") {
            Err(Unusable::Locked)
        } else {
            Ok(h)
        }
    }

    /// Wipes the hash, which then authenticates nobody. The rest stays.
    pub fn wipe(&mut self)
        ensures
            final(self)@ == (EntryView { hash: Seq::empty(), ..old(self)@ }),
    {
        zeroize_string(&mut self.hash);
    }
}

/// The account of `user`: what the first line that describes one of that name says.
pub open spec fn found(lines: Seq<Seq<char>>, user: Seq<char>) -> Option<EntryView>
    decreases lines.len(),
{
    if lines.len() == 0 {
        None
    } else {
        match entry_of(lines[0]) {
            Some(e) => if e.name == user {
                Some(e)
            } else {
                found(lines.skip(1), user)
            },
            None => found(lines.skip(1), user),
        }
    }
}

/// Looks an account up in the text of a shadow file. The entries passed over
/// are wiped.
pub fn find_entry(file: &str, user: &str) -> (r: Option<ShadowEntry>)
    ensures
        r is Some <==> found(text::lines_of(file@), user@) is Some,
        r matches Some(e) ==> e@ == found(text::lines_of(file@), user@)->0,
{
    let lines: Vec<String> = text::lines(file);
    let ghost all = text::lines_of(file@);
    let mut i: usize = 0;
    proof {
        assert(all.skip(0) =~= all);
    }
    while i < lines.len()
        invariant
            i <= lines.len(),
            text::texts(lines@) == all,
            found(all, user@) == found(all.skip(i as int), user@),
            all == text::lines_of(file@),
        decreases lines.len() - i,
    {
        proof {
            assert(all[i as int] == lines@[i as int]@);
            assert(all.skip(i as int)[0] == all[i as int]);
            assert(all.skip(i as int).skip(1) =~= all.skip(i + 1));
        }
        if let Some(e) = ShadowEntry::parse_line(lines[i].as_str()) {
            if text::same(e.name.as_str(), user) {
                return Some(e);
            }
            let mut e: ShadowEntry = e;
            e.wipe();
        }
        i = i + 1;
    }
    None
}

/// The end of an account cannot be undone by a new password, and it outranks
/// everything else.
pub proof fn expiry_outranks_the_password(e: EntryView, today: i64)
    requires
        e.expires matches Some(exp) && 0 <= exp <= today,
    ensures
        validity_of(e, today) == Validity::AccountExpired,
        validity_of(EntryView { last_change: Some(today), ..e }, today) == Validity::AccountExpired,
{
}

/// An account whose password does not age, and which neither ends nor asks for
/// a change, may be used on every day.
pub proof fn no_aging_is_always_valid(e: EntryView, today: i64)
    requires
        !ages(e),
        e.last_change != Some(0i64),
        e.expires is None || e.expires->0 < 0,
    ensures
        validity_of(e, today) == Validity::Okay,
{
}

/// Time only takes away: what is refused for good on some day is refused on
/// every later one.
pub proof fn validity_never_returns(e: EntryView, today: i64, later: i64)
    requires
        today <= later,
    ensures
        validity_of(e, today) == Validity::AccountExpired ==> validity_of(e, later)
            == Validity::AccountExpired,
        validity_of(e, today) == Validity::InactiveElapsed ==> validity_of(e, later)
            == Validity::InactiveElapsed || validity_of(e, later) == Validity::AccountExpired,
        validity_of(e, later) == Validity::Okay ==> validity_of(e, today) == Validity::Okay,
{
}

/// A hash behind an exclamation mark is locked, whatever follows the mark.
pub proof fn a_locked_hash_stays_locked(hash: Seq<char>)
    ensures
        hash_fault("!"@ + hash) == Some(Unusable::Locked),
{
    reveal_strlit("!");
    reveal_strlit("");
    reveal_strlit("*");
    let h = "!"@ + hash;
    assert(h.take(1) =~= "!"@);
    assert(h[0] == '!');
    assert("*"@[0] == '*');
    assert(""@.len() == 0);
    assert(h != ""@);
    assert(h != "*"@);
}

/// An entry that is written reads back as it was: the name, the hash and each of
/// the days come from their own fields, in the order of the file's format.
pub proof fn a_written_entry_reads_back(
    name: Seq<char>,
    hash: Seq<char>,
    last_change: i64,
    min_age: Seq<char>,
    max_age: i64,
    warn: Seq<char>,
    inactive: i64,
    expires: i64,
)
    requires
        name.len() > 0,
        !name.contains(':'),
        !hash.contains(':'),
        !min_age.contains(':'),
        !warn.contains(':'),
    ensures
        entry_of(
            text::join_with(
                seq![
                    name,
                    hash,
                    text::signed(last_change as int),
                    min_age,
                    text::signed(max_age as int),
                    warn,
                    text::signed(inactive as int),
                    text::signed(expires as int),
                    Seq::<char>::empty(),
                ],
                seq![':'],
            ),
        ) == Some(
            EntryView {
                name,
                hash,
                last_change: Some(last_change),
                max_age: Some(max_age),
                inactive: Some(inactive),
                expires: Some(expires),
            },
        ),
{
    let f = seq![
        name,
        hash,
        text::signed(last_change as int),
        min_age,
        text::signed(max_age as int),
        warn,
        text::signed(inactive as int),
        text::signed(expires as int),
        Seq::<char>::empty(),
    ];
    text::a_written_number_reads_back(last_change as int);
    text::a_written_number_reads_back(max_age as int);
    text::a_written_number_reads_back(inactive as int);
    text::a_written_number_reads_back(expires as int);
    text::a_number_has_no_colon(last_change as int);
    text::a_number_has_no_colon(max_age as int);
    text::a_number_has_no_colon(inactive as int);
    text::a_number_has_no_colon(expires as int);
    text::join_then_split(f, ':');
}

/// An empty field is no day, and neither is one that the line does not have.
pub proof fn an_empty_field_is_no_day(name: Seq<char>, hash: Seq<char>)
    requires
        name.len() > 0,
        !name.contains(':'),
        !hash.contains(':'),
    ensures
        entry_of(text::join_with(seq![name, hash], seq![':'])) == Some(
            EntryView { name, hash, last_change: None, max_age: None, inactive: None, expires: None },
        ),
        entry_of(name) is None,
{
    text::join_then_split(seq![name, hash], ':');
    text::join_then_split(seq![name], ':');
}

/// The account that is found is the first of its name: the line it comes from
/// names the user, and no line before it does. Where none is found, no line names
/// the user.
pub proof fn the_first_of_a_name_is_found(lines: Seq<Seq<char>>, user: Seq<char>)
    ensures
        match found(lines, user) {
            Some(e) => e.name == user && exists|i: int|
                0 <= i < lines.len() && entry_of(#[trigger] lines[i]) == Some(e) && (forall|j: int|
                    0 <= j < i ==> !(entry_of(#[trigger] lines[j]) matches Some(x) && x.name == user)),
            None => forall|j: int|
                0 <= j < lines.len() ==> !(entry_of(#[trigger] lines[j]) matches Some(x) && x.name
                    == user),
        },
    decreases lines.len(),
{
    if lines.len() > 0 {
        if !(entry_of(lines[0]) matches Some(e) && e.name == user) {
            let rest = lines.skip(1);
            the_first_of_a_name_is_found(rest, user);
            match found(lines, user) {
                Some(e) => {
                    let i = choose|i: int|
                        0 <= i < rest.len() && entry_of(#[trigger] rest[i]) == Some(e) && (forall|j: int|
                            0 <= j < i ==> !(entry_of(#[trigger] rest[j]) matches Some(x) && x.name
                                == user));
                    assert(entry_of(lines[i + 1]) == Some(e));
                    assert forall|j: int| 0 <= j < i + 1 implies !(entry_of(
                        #[trigger] lines[j],
                    ) matches Some(x) && x.name == user) by {
                        if j > 0 {
                            assert(rest[j - 1] == lines[j]);
                        }
                    }
                },
                None => {
                    assert forall|j: int| 0 <= j < lines.len() implies !(entry_of(
                        #[trigger] lines[j],
                    ) matches Some(x) && x.name == user) by {
                        if j > 0 {
                            assert(rest[j - 1] == lines[j]);
                        }
                    }
                },
            }
        }
    }
}

/// On which days an account may be used: it ends on the day of its expiry, asks
/// for a change where none was ever made, and a password of limited age is good up
/// to and with its last day, may be changed for the days of grace behind it, and
/// not after them.
pub proof fn an_account_ages_day_by_day(
    e: EntryView,
    changed: i64,
    max: i64,
    grace: i64,
    today: i64,
)
    requires
        e.last_change == Some(changed),
        changed > 0,
        e.max_age == Some(max),
        0 <= max < 99_999,
        e.inactive == Some(grace),
        grace >= 0,
        e.expires is None || e.expires->0 < 0 || today < e.expires->0,
    ensures
        validity_of(e, today) == Validity::Okay <==> today - changed <= max,
        validity_of(e, today) == Validity::MustChangePassword <==> max < today - changed <= max + grace,
        validity_of(e, today) == Validity::InactiveElapsed <==> today - changed > max + grace,
        validity_of(EntryView { inactive: None, ..e }, today) == (if today - changed <= max {
            Validity::Okay
        } else {
            Validity::MustChangePassword
        }),
        validity_of(EntryView { last_change: Some(0i64), ..e }, today)
            == Validity::MustChangePassword,
        validity_of(EntryView { max_age: None, ..e }, today) == Validity::Okay,
        validity_of(EntryView { max_age: Some(99_999i64), ..e }, today) == Validity::Okay,
        validity_of(EntryView { last_change: None, ..e }, today) == Validity::Okay,
{
}

} // verus!
