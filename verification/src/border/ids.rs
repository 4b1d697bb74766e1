//! The newtypes of the border. Each is parsed once; a value that exists is a
//! value that parsed.
use vstd::prelude::*;
use crate::text;

verus! {

/// A POSIX user id: unsigned, and never an error sentinel.
#[derive(Debug, Clone, Copy, PartialEq, Eq, PartialOrd, Ord, Hash, Structural)]
pub struct Uid(pub u32);

impl Uid {
    /// The id in decimal.
    pub fn text(&self) -> (s: String)
        ensures
            s@ == text::decimal(self.0 as nat),
    {
        text::decimal_of(self.0 as u64)
    }
}

/// What went wrong at a parse boundary.
#[derive(Debug, Clone, PartialEq, Eq)]
pub enum IdError {
    /// `got` is no `what`.
    Malformed { what: &'static str, got: String },
}

impl IdError {
    /// Whether this is the refusal of `got` as a `what`.
    pub open spec fn refuses(&self, what: Seq<char>, got: Seq<char>) -> bool {
        match self {
            IdError::Malformed { what: w, got: g } => w@ == what && g@ == got,
        }
    }

    /// The refusal in words.
    pub fn message(&self) -> (s: String)
        ensures
            self matches IdError::Malformed { what, got } ==> s@ == "malformed "@ + what@ + ": "@
                + text::quoted_text(got@),
    {
        match self {
            IdError::Malformed { what, got } => {
                let mut s: String = "malformed ".to_owned();
                s.append(what);
                s.append(": ");
                s.append(text::quoted(got.as_str()).as_str());
                s
            },
        }
    }
}

pub open spec fn is_lower(c: char) -> bool {
    'a' <= c <= 'z'
}

/// A character of a seat's slug: a lower-case letter, a digit or a hyphen.
pub open spec fn is_slug_char(c: char) -> bool {
    is_lower(c) || text::is_digit(c) || c == '-'
}

/// A seat's name as logind writes it: `seat0`, or `seat-` and a slug.
pub open spec fn is_seat_name(s: Seq<char>) -> bool {
    ||| s == "seat0"@
    ||| {
        &&& text::begins(s, "seat-"@)
        &&& s.len() > "seat-"@.len()
        &&& forall|i: int| "seat-"@.len() <= i < s.len() ==> is_slug_char(#[trigger] s[i])
    }
}

/// A seat.
///
/// Virtual terminals exist on `seat0` alone, and the one way to learn that a
/// seat is `seat0` is [`SeatId::as_seat0`], which hands out a witness.
#[derive(Debug, PartialEq, Eq, PartialOrd, Ord, Hash)]
pub struct SeatId(String);

/// Proof that some seat is `seat0`. It has no constructor outside this file.
#[derive(Debug)]
pub struct Seat0Witness(());

fn slug_char(c: char) -> (r: bool)
    ensures
        r == is_slug_char(c),
{
    ('a' <= c && c <= 'z') || ('0' <= c && c <= '9') || c == '-'
}

impl SeatId {
    #[verifier::type_invariant]
    spec fn parsed(self) -> bool {
        is_seat_name(self.0@)
    }

    pub closed spec fn view(&self) -> Seq<char> {
        self.0@
    }

    /// The parse boundary.
    pub fn parse(s: &str) -> (r: Result<Self, IdError>)
        ensures
            r is Ok <==> is_seat_name(s@),
            r matches Ok(id) ==> id@ == s@,
            r matches Err(e) ==> e.refuses("seat id"@, s@),
    {
        let mut ok: bool = text::same(s, "seat0");
        if !ok && text::starts_with(s, "seat-") {
            let v: Vec<char> = text::chars_of(s);
            proof {
                reveal_strlit("seat-");
            }
            let mut i: usize = 5;
            while i < v.len() && slug_char(v[i])
                invariant
                    5 <= i,
                    i <= v.len(),
                    v@ == s@,
                    forall|j: int| 5 <= j < i ==> is_slug_char(#[trigger] s@[j]),
                decreases v.len() - i,
            {
                i = i + 1;
            }
            ok = v.len() > 5 && i == v.len();
        }
        if ok {
            Ok(SeatId(s.to_owned()))
        } else {
            Err(IdError::Malformed { what: "seat id", got: s.to_owned() })
        }
    }

    pub fn as_str(&self) -> (s: &str)
        ensures
            s@ == self@,
            is_seat_name(s@),
    {
        proof {
            use_type_invariant(self);
        }
        self.0.as_str()
    }

    /// The sole producer of a [`Seat0Witness`].
    pub fn as_seat0(&self) -> (w: Option<Seat0Witness>)
        ensures
            w is Some <==> self@ == "seat0"@,
    {
        if text::same(self.0.as_str(), "seat0") {
            Some(Seat0Witness(()))
        } else {
            None
        }
    }
}

impl Clone for SeatId {
    fn clone(&self) -> (r: Self)
        ensures
            r == *self,
    {
        proof {
            use_type_invariant(self);
        }
        SeatId(self.0.clone())
    }
}

/// A login name: not empty, no leading hyphen, and none of the three characters
/// that break a passwd line, a C string or a path.
pub open spec fn is_user_name(s: Seq<char>) -> bool {
    &&& s.len() > 0
    &&& s[0] != '-'
    &&& !s.contains(':')
    &&& !s.contains('\0')
    &&& !s.contains('/')
}

/// A principal's login name.
#[derive(Debug, PartialEq, Eq, PartialOrd, Ord, Hash)]
pub struct UserName(String);

impl UserName {
    #[verifier::type_invariant]
    spec fn parsed(self) -> bool {
        is_user_name(self.0@)
    }

    pub closed spec fn view(&self) -> Seq<char> {
        self.0@
    }

    /// The parse boundary.
    pub fn parse(s: &str) -> (r: Result<Self, IdError>)
        ensures
            r is Ok <==> is_user_name(s@),
            r matches Ok(name) ==> name@ == s@,
            r matches Err(e) ==> e.refuses("user name"@, s@),
    {
        proof {
            reveal_strlit("-");
            assert(s@.len() > 0 ==> s@.take(1) =~= seq![s@[0]]);
            assert("-"@ =~= seq!['-']);
            assert(s@.len() > 0 ==> (s@.take(1) == "-"@ <==> s@.take(1)[0] == '-'));
        }
        let bad: bool = s.is_empty() || text::starts_with(s, "-") || text::has_char(s, ':')
            || text::has_char(s, '\0') || text::has_char(s, '/');
        if bad {
            Err(IdError::Malformed { what: "user name", got: s.to_owned() })
        } else {
            Ok(UserName(s.to_owned()))
        }
    }

    pub fn as_str(&self) -> (s: &str)
        ensures
            s@ == self@,
            is_user_name(s@),
    {
        proof {
            use_type_invariant(self);
        }
        self.0.as_str()
    }
}

impl Clone for UserName {
    fn clone(&self) -> (r: Self)
        ensures
            r == *self,
    {
        proof {
            use_type_invariant(self);
        }
        UserName(self.0.clone())
    }
}

/// A PAM service name: a bare file name under `/etc/pam.d`.
pub open spec fn is_service_name(s: Seq<char>) -> bool {
    &&& s.len() > 0
    &&& !s.contains('/')
    &&& !s.contains('\0')
}

/// A PAM service name.
#[derive(Debug, PartialEq, Eq, Hash)]
pub struct ServiceName(String);

impl ServiceName {
    #[verifier::type_invariant]
    spec fn parsed(self) -> bool {
        is_service_name(self.0@)
    }

    pub closed spec fn view(&self) -> Seq<char> {
        self.0@
    }

    /// The parse boundary.
    pub fn parse(s: &str) -> (r: Result<Self, IdError>)
        ensures
            r is Ok <==> is_service_name(s@),
            r matches Ok(name) ==> name@ == s@,
            r matches Err(e) ==> e.refuses("pam service name"@, s@),
    {
        if s.is_empty() || text::has_char(s, '/') || text::has_char(s, '\0') {
            Err(IdError::Malformed { what: "pam service name", got: s.to_owned() })
        } else {
            Ok(ServiceName(s.to_owned()))
        }
    }

    pub fn as_str(&self) -> (s: &str)
        ensures
            s@ == self@,
            is_service_name(s@),
    {
        proof {
            use_type_invariant(self);
        }
        self.0.as_str()
    }
}

impl Clone for ServiceName {
    fn clone(&self) -> (r: Self)
        ensures
            r == *self,
    {
        proof {
            use_type_invariant(self);
        }
        ServiceName(self.0.clone())
    }
}

/// The border's name for a PAM transaction that the environment holds.
#[derive(Debug, Clone, Copy, PartialEq, Eq, Hash, Structural)]
pub struct PamHandleId(pub u64);

/// The credential id of a FIDO2 authenticator.
#[derive(Debug, Clone, PartialEq, Eq)]
pub struct CredentialId(pub Vec<u8>);

/// A smartcard slot.
#[derive(Debug, Clone, Copy, PartialEq, Eq, Structural)]
pub struct SlotId(pub u8);

/// Evidence that an autologin run file was consumed. It cannot be copied.
#[derive(Debug)]
pub struct RunFileConsumed(());

impl RunFileConsumed {
    /// The environment's privilege, at the moment it removes the file.
    pub(crate) fn mint() -> Self {
        RunFileConsumed(())
    }
}

/// No name that a seat, a user or a service can have is a path or holds a NUL,
/// so none can be read as one where it is joined into a path or a C string.
pub proof fn names_are_bare(s: Seq<char>)
    ensures
        is_seat_name(s) ==> !s.contains('/') && !s.contains('\0'),
        is_user_name(s) ==> !s.contains('/') && !s.contains('\0'),
        is_service_name(s) ==> !s.contains('/') && !s.contains('\0'),
{
    reveal_strlit("seat0");
    reveal_strlit("seat-");
    if is_seat_name(s) && s != "seat0"@ {
        assert forall|i: int| 0 <= i < s.len() implies s[i] != '/' && s[i] != '\0' by {
            if i < 5 {
                assert(s[i] == s.take(5)[i]);
            } else {
                assert(is_slug_char(s[i]));
            }
        }
    }
}

/// A login name is refused for what it holds and for nothing else: a character may
/// be added to a name unless it is a colon, a NUL or a slash, and none of them can
/// be made good by what follows; a hyphen is refused in front alone.
pub proof fn a_user_name_grows_by_any_other_character(s: Seq<char>, c: char)
    ensures
        !is_user_name(Seq::empty()),
        is_user_name(seq![c]) <==> c != ':' && c != '\0' && c != '/' && c != '-',
        s.len() > 0 ==> (is_user_name(s.push(c)) <==> is_user_name(s) && c != ':' && c != '\0' && c
            != '/'),
{
    lemma_pushed(s, c, ':');
    lemma_pushed(s, c, '\0');
    lemma_pushed(s, c, '/');
    lemma_pushed(Seq::empty(), c, ':');
    lemma_pushed(Seq::empty(), c, '\0');
    lemma_pushed(Seq::empty(), c, '/');
    assert(Seq::<char>::empty().push(c) =~= seq![c]);
}

/// A service name is refused for a slash or a NUL and for nothing else.
pub proof fn a_service_name_grows_by_any_other_character(s: Seq<char>, c: char)
    ensures
        !is_service_name(Seq::empty()),
        is_service_name(seq![c]) <==> c != '/' && c != '\0',
        s.len() > 0 ==> (is_service_name(s.push(c)) <==> is_service_name(s) && c != '/' && c != '\0'),
{
    lemma_pushed(s, c, '\0');
    lemma_pushed(s, c, '/');
    lemma_pushed(Seq::empty(), c, '\0');
    lemma_pushed(Seq::empty(), c, '/');
    assert(Seq::<char>::empty().push(c) =~= seq![c]);
}

/// A seat is `seat0`, or `seat-` and at least one more character, and to such a
/// name any lower-case letter, digit or hyphen may be added and nothing else.
pub proof fn a_seat_name_grows_by_its_slug(s: Seq<char>, c: char)
    ensures
        is_seat_name("seat0"@),
        !is_seat_name("seat-"@),
        is_seat_name(s) ==> s == "seat0"@ || "seat-"@.is_prefix_of(s) && s.len() > 5,
        "seat-"@.is_prefix_of(s) ==> (is_seat_name(s.push(c)) <==> (s == "seat-"@ || is_seat_name(s)) && (
        'a' <= c <= 'z' || '0' <= c <= '9' || c == '-')),
{
    reveal_strlit("seat0");
    reveal_strlit("seat-");
    let p = "seat-"@;
    assert(p.len() == 5 && p[4] == '-');
    assert("seat0"@.len() == 5 && "seat0"@[4] == '0');
    if is_seat_name(s) && s != "seat0"@ {
        assert(p =~= s.take(5));
    }
    if p.is_prefix_of(s) {
        let t = s.push(c);
        assert(t.take(5) =~= p);
        assert(s.take(5) =~= p);
        assert(t.len() > 5);
        assert(t != "seat0"@);
        assert(s[4] == '-');
        assert(s != "seat0"@);
        assert(t[s.len() as int] == c);
        if is_seat_name(t) {
            assert(is_slug_char(t[s.len() as int]));
            assert forall|i: int| 5 <= i < s.len() implies is_slug_char(#[trigger] s[i]) by {
                assert(t[i] == s[i]);
            }
            if s.len() == 5 {
                assert(s =~= p);
            }
        }
        if (s == p || is_seat_name(s)) && is_slug_char(c) {
            assert forall|i: int| 5 <= i < t.len() implies is_slug_char(#[trigger] t[i]) by {
                if i < s.len() {
                    assert(t[i] == s[i]);
                }
            }
        }
    }
}

proof fn lemma_pushed(s: Seq<char>, c: char, x: char)
    ensures
        s.push(c).contains(x) <==> s.contains(x) || c == x,
{
    if s.contains(x) {
        let i = choose|i: int| 0 <= i < s.len() && s[i] == x;
        assert(s.push(c)[i] == x);
    }
    if c == x {
        assert(s.push(c)[s.len() as int] == x);
    }
    if s.push(c).contains(x) && c != x {
        let i = choose|i: int| 0 <= i < s.push(c).len() && s.push(c)[i] == x;
        assert(s[i] == x);
    }
}

/// A refusal names what was expected and what came instead, to the letter.
pub proof fn a_refusal_names_what_came(e: IdError, what: Seq<char>, got: Seq<char>)
    requires
        e.refuses(what, got),
    ensures
        e matches IdError::Malformed { what: w, got: g } && w@ == what && g@ == got,
{
}

} // verus!
