//! An entrance: its seats, what starts on them, how attempts are limited.
use tatara_lisp::Sexp;
use vstd::prelude::*;
use crate::border::ids::{
    is_seat_name, is_service_name, is_user_name, IdError, SeatId, ServiceName, UserName,
};
use crate::lisp::catalog::{FaceForm, HandoffForm, SessionsForm};
use crate::text;

verus! {

/// What kind of console a seat has.
#[derive(Debug, Clone, Copy, PartialEq, Eq, Structural)]
pub enum ConsoleKind {
    /// A virtual terminal: on `seat0` alone.
    Vt,
    /// None.
    Seatless,
}

/// Whether the entrance may take the terminal from whatever holds it.
#[derive(Debug, Clone, Copy, PartialEq, Eq, Structural)]
pub enum SwitchPolicy {
    Required,
    Opportunistic,
}

/// What starts on a seat.
#[derive(Debug, Clone, Copy, PartialEq, Eq, Structural)]
pub enum StartupMode {
    Greeter,
    Autologin,
}

/// When a greeter that exits is started again.
#[derive(Debug, Clone, Copy, PartialEq, Eq, Structural)]
pub enum RestartPolicy {
    Always,
    Never,
}

/// How the delay between attempts grows.
#[derive(Debug, Clone, Copy, PartialEq, Eq, Structural)]
pub enum Backoff {
    Fixed,
    Exponential,
}

/// A seat's console, as declared.
#[derive(Debug, Clone, PartialEq, Eq)]
pub struct ConsoleForm {
    pub kind: ConsoleKind,
    pub number: Option<u32>,
    pub switch: Option<SwitchPolicy>,
    pub conflicts: Option<String>,
}

/// The three PAM services of a seat, as declared.
#[derive(Debug, Clone, PartialEq, Eq)]
pub struct PamForm {
    pub user: String,
    pub greeter: String,
    pub autologin: String,
}

/// A seat, as declared.
#[derive(Debug, Clone, PartialEq, Eq)]
pub struct SeatForm {
    pub id: String,
    pub console: ConsoleForm,
    pub greeter_user: String,
    pub pam: PamForm,
}

/// What starts, as declared.
#[derive(Debug, Clone, PartialEq, Eq)]
pub struct StartupForm {
    pub mode: StartupMode,
    pub restart: Option<RestartPolicy>,
    pub user: Option<String>,
}

/// How many attempts, how fast.
#[derive(Debug, Clone, PartialEq, Eq)]
pub struct RetryForm {
    pub attempts: u32,
    pub window_secs: u32,
    pub backoff: Backoff,
}

/// The authentication policy, as declared.
#[derive(Debug, Clone, PartialEq, Eq)]
pub struct AuthPolicyForm {
    pub name: String,
    pub startup: StartupForm,
    pub retry: RetryForm,
}

/// An entrance, as declared. Catalog, handoff and faces may be left out.
#[derive(Debug, Clone, PartialEq, Eq)]
pub struct MukaeForm {
    pub name: String,
    pub seats: Vec<SeatForm>,
    pub auth: AuthPolicyForm,
    pub catalog: Option<SessionsForm>,
    pub handoff: Option<HandoffForm>,
    pub faces: Vec<FaceForm>,
}

/// A seat's console.
#[derive(Debug, Clone, PartialEq, Eq)]
pub enum Console {
    /// A virtual terminal of `seat0`.
    Vt { number: u32, switch: SwitchPolicy, conflicts: Option<String> },
    Seatless,
}

/// What starts on a seat. Only the greeter has a restart policy.
#[derive(Debug, Clone, PartialEq, Eq)]
pub enum Startup {
    Greeter { restart: RestartPolicy },
    Autologin { user: UserName },
}

/// A seat.
#[derive(Debug, Clone, PartialEq, Eq)]
pub struct Seat {
    pub id: SeatId,
    pub console: Console,
    pub greeter_user: UserName,
    pub pam_user: ServiceName,
    pub pam_greeter: ServiceName,
    pub pam_autologin: ServiceName,
}

/// An entrance.
#[derive(Debug, Clone, PartialEq, Eq)]
pub struct Mukae {
    pub name: String,
    pub seats: Vec<Seat>,
    pub startup: Startup,
    pub retry_attempts: u32,
    pub retry_window_secs: u32,
    pub backoff: Backoff,
}

/// Why a declaration does not lower.
#[derive(Debug)]
pub enum LowerError {
    Read(String),
    Empty,
    Id(IdError),
    VtOnNonSeat0 { seat: String },
    VtWithoutNumber { seat: String },
    SeatlessWithVtFields { seat: String },
    AutologinWithRestart,
    AutologinWithoutUser,
    GreeterWithUser,
    NoSeats,
    DuplicateSeat(String),
}

impl LowerError {
    /// The error in words.
    pub fn message(&self) -> (s: String)
        ensures
            match self {
                LowerError::Read(e) => s@ == "reading the form: "@ + e@,
                LowerError::Empty => s@ == "no forms in source"@,
                LowerError::Id(e) => e matches IdError::Malformed { what, got } && s@ == "malformed "@
                    + what@ + ": "@ + text::quoted_text(got@),
                LowerError::VtOnNonSeat0 { seat } => s@ == "seat "@ + text::quoted_text(seat@)
                    + " declares a VT console, but VTs exist only on seat0; use (defconsole :kind :seatless) on a non-seat0 seat"@,
                LowerError::VtWithoutNumber { seat } => s@ == "seat "@ + text::quoted_text(seat@)
                    + " declares :kind :vt without a :number"@,
                LowerError::SeatlessWithVtFields { seat } => s@ == "seat "@ + text::quoted_text(seat@)
                    + " declares :kind :seatless but also a VT :number — a seatless console has no VT, so one of the two is a mistaken belief"@,
                LowerError::AutologinWithRestart => s@
                    == ":startup declares :mode :autologin with a :restart policy. greetd ships these as a boolean pair that must not both be set; here the autologin arm has no restart field, so drop one"@,
                LowerError::AutologinWithoutUser => s@
                    == ":startup declares :mode :autologin without a :user"@,
                LowerError::GreeterWithUser => s@
                    == ":startup declares :mode :greeter with a :user; greeters have none"@,
                LowerError::NoSeats => s@ == "a mukae declaration must have at least one seat"@,
                LowerError::DuplicateSeat(seat) => s@ == "seat "@ + text::quoted_text(seat@)
                    + " is declared twice"@,
            },
    {
        match self {
            LowerError::Read(e) => {
                let mut s: String = "reading the form: ".to_owned();
                s.append(e.as_str());
                s
            },
            LowerError::Empty => "no forms in source".to_owned(),
            LowerError::Id(e) => e.message(),
            LowerError::VtOnNonSeat0 { seat } => about_seat(
                seat,
                " declares a VT console, but VTs exist only on seat0; use (defconsole :kind :seatless) on a non-seat0 seat",
            ),
            LowerError::VtWithoutNumber { seat } => about_seat(
                seat,
                " declares :kind :vt without a :number",
            ),
            LowerError::SeatlessWithVtFields { seat } => about_seat(
                seat,
                " declares :kind :seatless but also a VT :number — a seatless console has no VT, so one of the two is a mistaken belief",
            ),
            LowerError::AutologinWithRestart =>
                ":startup declares :mode :autologin with a :restart policy. greetd ships these as a boolean pair that must not both be set; here the autologin arm has no restart field, so drop one".to_owned(),
            LowerError::AutologinWithoutUser =>
                ":startup declares :mode :autologin without a :user".to_owned(),
            LowerError::GreeterWithUser =>
                ":startup declares :mode :greeter with a :user; greeters have none".to_owned(),
            LowerError::NoSeats => "a mukae declaration must have at least one seat".to_owned(),
            LowerError::DuplicateSeat(seat) => about_seat(seat, " is declared twice"),
        }
    }
}

fn about_seat(seat: &String, what: &str) -> (s: String)
    ensures
        s@ == "seat "@ + text::quoted_text(seat@) + what@,
{
    let mut s: String = "seat ".to_owned();
    s.append(text::quoted(seat.as_str()).as_str());
    s.append(what);
    s
}

/// `tatara_lisp::Sexp`: a form as the reader of tatara-lisp gives it.
#[verifier::external_type_specification]
#[verifier::external_body]
pub struct ExSexp(Sexp);

/// What a form holds, written out.
pub uninterp spec fn form_text(form: Sexp) -> Seq<char>;

/// What tatara-lisp's reader makes of a source text: what each of its forms
/// holds, in order, or the words of the error.
pub uninterp spec fn forms_in(src: Seq<char>) -> Result<Seq<Seq<char>>, Seq<char>>;

/// `tatara_lisp::read`: the forms of a source text, or what is wrong with it in
/// words. What they hold, and the words, are named by [`forms_in`]; which texts
/// read, and as what, is not stated.
#[verifier::external_body]
fn read_forms(src: &str) -> (r: Result<Vec<Sexp>, String>)
    ensures
        match r {
            Ok(v) => forms_in(src@) == Ok::<Seq<Seq<char>>, Seq<char>>(
                v@.map_values(|f: Sexp| form_text(f)),
            ),
            Err(e) => forms_in(src@) == Err::<Seq<Seq<char>>, Seq<char>>(e@),
        },
{
    tatara_lisp::read(src).map_err(|e| e.to_string())
}

/// The first of the forms that a reader gave: a reader's error is kept, and a
/// source without forms is an error of its own.
pub fn first_form(forms: Result<Vec<Sexp>, String>) -> (r: Result<Sexp, LowerError>)
    ensures
        match forms {
            Ok(v) => if v@.len() == 0 {
                r matches Err(e) && e is Empty
            } else {
                r == Ok::<Sexp, LowerError>(v@[0])
            },
            Err(m) => r matches Err(e) && (e matches LowerError::Read(x) && x@ == m@),
        },
{
    match forms {
        Err(m) => Err(LowerError::Read(m)),
        Ok(v) => {
            let mut v: Vec<Sexp> = v;
            if v.len() == 0 {
                Err(LowerError::Empty)
            } else {
                Ok(v.remove(0))
            }
        },
    }
}

/// Reads the first form of a source text.
pub fn read_source(src: &str) -> (r: Result<Sexp, LowerError>)
    ensures
        match forms_in(src@) {
            Ok(forms) => if forms.len() == 0 {
                r matches Err(e) && e is Empty
            } else {
                r matches Ok(x) && form_text(x) == forms[0]
            },
            Err(m) => r matches Err(e) && (e matches LowerError::Read(x) && x@ == m),
        },
{
    first_form(read_forms(src))
}

/// What is wrong with a seat.
pub enum SeatFault {
    BadId,
    VtElsewhere,
    NoNumber,
    NumberWithoutVt,
    BadGreeterUser,
    BadPamUser,
    BadPamGreeter,
    BadPamAutologin,
}

/// What is wrong with a seat, the first thing first.
pub open spec fn seat_fault(s: SeatForm) -> Option<SeatFault> {
    if !is_seat_name(s.id@) {
        Some(SeatFault::BadId)
    } else if s.console.kind == ConsoleKind::Vt && s.id@ != "seat0"@ {
        Some(SeatFault::VtElsewhere)
    } else if s.console.kind == ConsoleKind::Vt && s.console.number is None {
        Some(SeatFault::NoNumber)
    } else if s.console.kind == ConsoleKind::Seatless && (s.console.number is Some
        || s.console.switch is Some || s.console.conflicts is Some) {
        Some(SeatFault::NumberWithoutVt)
    } else if !is_user_name(s.greeter_user@) {
        Some(SeatFault::BadGreeterUser)
    } else if !is_service_name(s.pam.user@) {
        Some(SeatFault::BadPamUser)
    } else if !is_service_name(s.pam.greeter@) {
        Some(SeatFault::BadPamGreeter)
    } else if !is_service_name(s.pam.autologin@) {
        Some(SeatFault::BadPamAutologin)
    } else {
        None
    }
}

/// Whether `e` is the refusal of `got` as a `what`.
pub open spec fn is_id_error(e: LowerError, what: Seq<char>, got: Seq<char>) -> bool {
    e matches LowerError::Id(x) && x.refuses(what, got)
}

/// Whether `e` names the fault of the seat.
pub open spec fn is_seat_error(e: LowerError, s: SeatForm, fault: SeatFault) -> bool {
    match fault {
        SeatFault::BadId => is_id_error(e, "seat id"@, s.id@),
        SeatFault::VtElsewhere => e matches LowerError::VtOnNonSeat0 { seat } && seat@ == s.id@,
        SeatFault::NoNumber => e matches LowerError::VtWithoutNumber { seat } && seat@ == s.id@,
        SeatFault::NumberWithoutVt => e matches LowerError::SeatlessWithVtFields { seat } && seat@
            == s.id@,
        SeatFault::BadGreeterUser => is_id_error(e, "user name"@, s.greeter_user@),
        SeatFault::BadPamUser => is_id_error(e, "pam service name"@, s.pam.user@),
        SeatFault::BadPamGreeter => is_id_error(e, "pam service name"@, s.pam.greeter@),
        SeatFault::BadPamAutologin => is_id_error(e, "pam service name"@, s.pam.autologin@),
    }
}

/// Whether `c` is the console that the form declares: an undeclared switch
/// policy is the opportunistic one.
pub open spec fn is_console(f: ConsoleForm, c: Console) -> bool {
    match f.kind {
        ConsoleKind::Vt => c matches Console::Vt { number, switch, conflicts } && f.number == Some(number)
            && switch == f.switch.unwrap_or(SwitchPolicy::Opportunistic) && conflicts == f.conflicts,
        ConsoleKind::Seatless => c is Seatless,
    }
}

/// Whether `x` is the seat that the form declares.
pub open spec fn is_seat(s: SeatForm, x: Seat) -> bool {
    &&& x.id@ == s.id@
    &&& is_console(s.console, x.console)
    &&& x.greeter_user@ == s.greeter_user@
    &&& x.pam_user@ == s.pam.user@
    &&& x.pam_greeter@ == s.pam.greeter@
    &&& x.pam_autologin@ == s.pam.autologin@
}

/// Whether the seat at position `i` repeats an id.
pub open spec fn repeats(seats: Seq<SeatForm>, i: int) -> bool {
    exists|j: int| 0 <= j < i && #[trigger] seats[j].id@ == seats[i].id@
}

/// Whether the seat at position `i` stands in the way of the lowering.
pub open spec fn blocks(seats: Seq<SeatForm>, i: int) -> bool {
    repeats(seats, i) || seat_fault(seats[i]) is Some
}

/// Whether `i` is the first seat that stands in the way.
pub open spec fn is_first_block(seats: Seq<SeatForm>, i: int) -> bool {
    &&& 0 <= i < seats.len()
    &&& blocks(seats, i)
    &&& forall|j: int| 0 <= j < i ==> !#[trigger] blocks(seats, j)
}

/// Whether `e` says what stands in the way at the seat `i`: a repeated id comes first.
pub open spec fn is_block_error(e: LowerError, seats: Seq<SeatForm>, i: int) -> bool {
    if repeats(seats, i) {
        e matches LowerError::DuplicateSeat(id) && id@ == seats[i].id@
    } else {
        is_seat_error(e, seats[i], seat_fault(seats[i])->0)
    }
}

/// Whether what starts can be lowered.
pub open spec fn is_startable(s: StartupForm) -> bool {
    match s.mode {
        StartupMode::Greeter => s.user is None,
        StartupMode::Autologin => s.restart is None && (s.user matches Some(u) && is_user_name(u@)),
    }
}

/// Whether `e` says why what starts cannot be lowered.
pub open spec fn is_startup_error(e: LowerError, s: StartupForm) -> bool {
    match s.mode {
        StartupMode::Greeter => e is GreeterWithUser,
        StartupMode::Autologin => if s.restart is Some {
            e is AutologinWithRestart
        } else {
            match s.user {
                None => e is AutologinWithoutUser,
                Some(u) => is_id_error(e, "user name"@, u@),
            }
        },
    }
}

/// Whether `x` is what the form declares to start: a greeter restarts always
/// where nothing else is declared.
pub open spec fn is_startup(s: StartupForm, x: Startup) -> bool {
    match s.mode {
        StartupMode::Greeter => x == (Startup::Greeter {
            restart: s.restart.unwrap_or(RestartPolicy::Always),
        }),
        StartupMode::Autologin => x matches Startup::Autologin { user } && (s.user matches Some(u)
            && user@ == u@),
    }
}

/// Whether `m` is the entrance that the form declares.
pub open spec fn is_entrance(f: MukaeForm, m: Mukae) -> bool {
    &&& m.name == f.name
    &&& m.seats@.len() == f.seats@.len()
    &&& forall|i: int|
        #![trigger m.seats@[i]]
        0 <= i < m.seats@.len() ==> is_seat(f.seats@[i], m.seats@[i])
    &&& is_startup(f.auth.startup, m.startup)
    &&& m.retry_attempts == f.auth.retry.attempts
    &&& m.retry_window_secs == f.auth.retry.window_secs
    &&& m.backoff == f.auth.retry.backoff
}

impl MukaeForm {
    /// Lowers the entrance: seats in their order, then what starts. The first
    /// thing in the way is the error.
    pub fn lower(&self) -> (r: Result<Mukae, LowerError>)
        ensures
            r is Ok <==> self.seats@.len() > 0 && (forall|i: int|
                0 <= i < self.seats@.len() ==> !#[trigger] blocks(self.seats@, i)) && is_startable(
                self.auth.startup,
            ),
            r matches Ok(m) ==> is_entrance(*self, m),
            r matches Err(e) ==> if self.seats@.len() == 0 {
                e is NoSeats
            } else if exists|i: int| 0 <= i < self.seats@.len() && #[trigger] blocks(self.seats@, i) {
                exists|i: int| #[trigger]
                    is_first_block(self.seats@, i) && is_block_error(e, self.seats@, i)
            } else {
                is_startup_error(e, self.auth.startup)
            },
    {
        if self.seats.len() == 0 {
            return Err(LowerError::NoSeats);
        }
        let mut seats: Vec<Seat> = Vec::new();
        let mut i: usize = 0;
        while i < self.seats.len()
            invariant
                i <= self.seats.len(),
                self.seats@.len() > 0,
                forall|j: int| 0 <= j < i ==> !#[trigger] blocks(self.seats@, j),
                seats@.len() == i,
                forall|j: int|
                    #![trigger seats@[j]]
                    0 <= j < i ==> is_seat(self.seats@[j], seats@[j]),
            decreases self.seats.len() - i,
        {
            let s: &SeatForm = &self.seats[i];
            let mut j: usize = 0;
            while j < i
                invariant
                    j <= i,
                    i < self.seats.len(),
                    *s == self.seats@[i as int],
                    forall|k: int| 0 <= k < i ==> !#[trigger] blocks(self.seats@, k),
                    forall|k: int| 0 <= k < j ==> (#[trigger] self.seats@[k]).id@ != s.id@,
                decreases i - j,
            {
                if text::same(self.seats[j].id.as_str(), s.id.as_str()) {
                    proof {
                        assert(self.seats@[j as int].id@ == self.seats@[i as int].id@);
                        assert(blocks(self.seats@, i as int));
                        assert(is_first_block(self.seats@, i as int));
                    }
                    return Err(LowerError::DuplicateSeat(s.id.clone()));
                }
                j = j + 1;
            }
            assert(!repeats(self.seats@, i as int));
            match Self::lower_seat(s) {
                Err(e) => {
                    proof {
                        assert(blocks(self.seats@, i as int));
                        assert(is_first_block(self.seats@, i as int));
                    }
                    return Err(e);
                },
                Ok(x) => {
                    assert(!blocks(self.seats@, i as int));
                    seats.push(x);
                },
            }
            i = i + 1;
        }
        let startup: Startup = match Self::lower_startup(&self.auth.startup) {
            Err(e) => {
                return Err(e);
            },
            Ok(s) => s,
        };
        Ok(
            Mukae {
                name: self.name.clone(),
                seats,
                startup,
                retry_attempts: self.auth.retry.attempts,
                retry_window_secs: self.auth.retry.window_secs,
                backoff: self.auth.retry.backoff,
            },
        )
    }

    fn lower_startup(s: &StartupForm) -> (r: Result<Startup, LowerError>)
        ensures
            r is Ok <==> is_startable(*s),
            r matches Ok(x) ==> is_startup(*s, x),
            r matches Err(e) ==> is_startup_error(e, *s),
    {
        match s.mode {
            StartupMode::Greeter => {
                if s.user.is_some() {
                    return Err(LowerError::GreeterWithUser);
                }
                Ok(Startup::Greeter { restart: s.restart.unwrap_or(RestartPolicy::Always) })
            },
            StartupMode::Autologin => {
                if s.restart.is_some() {
                    return Err(LowerError::AutologinWithRestart);
                }
                match &s.user {
                    None => Err(LowerError::AutologinWithoutUser),
                    Some(u) => match UserName::parse(u.as_str()) {
                        Ok(user) => Ok(Startup::Autologin { user }),
                        Err(e) => Err(LowerError::Id(e)),
                    },
                }
            },
        }
    }

    fn lower_seat(s: &SeatForm) -> (r: Result<Seat, LowerError>)
        ensures
            r is Ok <==> seat_fault(*s) is None,
            r matches Ok(x) ==> is_seat(*s, x),
            r matches Err(e) ==> is_seat_error(e, *s, seat_fault(*s)->0),
    {
        let id: SeatId = match SeatId::parse(s.id.as_str()) {
            Err(e) => {
                return Err(LowerError::Id(e));
            },
            Ok(id) => id,
        };
        let console: Console = match s.console.kind {
            ConsoleKind::Vt => {
                if id.as_seat0().is_none() {
                    return Err(LowerError::VtOnNonSeat0 { seat: s.id.clone() });
                }
                match s.console.number {
                    None => {
                        return Err(LowerError::VtWithoutNumber { seat: s.id.clone() });
                    },
                    Some(number) => Console::Vt {
                        number,
                        switch: s.console.switch.unwrap_or(SwitchPolicy::Opportunistic),
                        conflicts: match &s.console.conflicts {
                            Some(c) => Some(c.clone()),
                            None => None,
                        },
                    },
                }
            },
            ConsoleKind::Seatless => {
                if s.console.number.is_some() || s.console.switch.is_some()
                    || s.console.conflicts.is_some() {
                    return Err(LowerError::SeatlessWithVtFields { seat: s.id.clone() });
                }
                Console::Seatless
            },
        };
        let greeter_user: UserName = match UserName::parse(s.greeter_user.as_str()) {
            Err(e) => {
                return Err(LowerError::Id(e));
            },
            Ok(u) => u,
        };
        let pam_user: ServiceName = match ServiceName::parse(s.pam.user.as_str()) {
            Err(e) => {
                return Err(LowerError::Id(e));
            },
            Ok(n) => n,
        };
        let pam_greeter: ServiceName = match ServiceName::parse(s.pam.greeter.as_str()) {
            Err(e) => {
                return Err(LowerError::Id(e));
            },
            Ok(n) => n,
        };
        let pam_autologin: ServiceName = match ServiceName::parse(s.pam.autologin.as_str()) {
            Err(e) => {
                return Err(LowerError::Id(e));
            },
            Ok(n) => n,
        };
        Ok(Seat { id, console, greeter_user, pam_user, pam_greeter, pam_autologin })
    }
}

/// A terminal is bound on `seat0` alone: in an entrance that lowered, every
/// seat with one is `seat0`.
pub proof fn terminals_are_on_seat0(f: MukaeForm, m: Mukae, i: int)
    requires
        is_entrance(f, m),
        forall|k: int| 0 <= k < f.seats@.len() ==> !#[trigger] blocks(f.seats@, k),
        0 <= i < m.seats@.len(),
        m.seats@[i].console is Vt,
    ensures
        m.seats@[i].id@ == "seat0"@,
{
    assert(!blocks(f.seats@, i));
    assert(is_seat(f.seats@[i], m.seats@[i]));
}

/// A seat without a terminal declares nothing of one: whatever of its number,
/// its switch policy and its conflicts is there, it does not lower.
pub proof fn a_seatless_console_has_no_terminal_fields(s: SeatForm)
    requires
        s.console.kind == ConsoleKind::Seatless,
        s.console.number is Some || s.console.switch is Some || s.console.conflicts is Some,
    ensures
        seat_fault(s) is Some,
        is_seat_name(s.id@) ==> seat_fault(s) == Some(SeatFault::NumberWithoutVt),
{
}

/// In an entrance that lowered no two seats share an id.
pub proof fn seat_ids_are_distinct(f: MukaeForm, m: Mukae, i: int, j: int)
    requires
        is_entrance(f, m),
        forall|k: int| 0 <= k < f.seats@.len() ==> !#[trigger] blocks(f.seats@, k),
        0 <= j < i < m.seats@.len(),
    ensures
        m.seats@[j].id@ != m.seats@[i].id@,
{
    assert(!blocks(f.seats@, i));
    assert(is_seat(f.seats@[i], m.seats@[i]));
    assert(is_seat(f.seats@[j], m.seats@[j]));
    assert(f.seats@[j].id@ != f.seats@[i].id@);
}

/// A seat lowers if and only if all of it holds: its id and names are names, a
/// terminal is numbered and on `seat0`, and what has no terminal declares nothing
/// of one. Nothing else is asked of it.
pub proof fn a_seat_lowers_where_all_of_it_holds(s: SeatForm)
    ensures
        seat_fault(s) is None <==> {
            &&& is_seat_name(s.id@)
            &&& is_user_name(s.greeter_user@)
            &&& is_service_name(s.pam.user@)
            &&& is_service_name(s.pam.greeter@)
            &&& is_service_name(s.pam.autologin@)
            &&& s.console.kind is Vt ==> s.id@ == "seat0"@ && s.console.number is Some
            &&& s.console.kind is Seatless ==> s.console.number is None && s.console.switch is None
                && s.console.conflicts is None
        },
{
}

/// What is said of a seat is true of it, and names what is at fault in it.
pub proof fn a_refused_seat_is_told_its_fault(s: SeatForm, e: LowerError)
    requires
        seat_fault(s) is Some,
        is_seat_error(e, s, seat_fault(s)->0),
    ensures
        match e {
            LowerError::Id(IdError::Malformed { what, got }) => {
                ||| what@ == "seat id"@ && got@ == s.id@ && !is_seat_name(got@)
                ||| what@ == "user name"@ && got@ == s.greeter_user@ && !is_user_name(got@)
                ||| what@ == "pam service name"@ && !is_service_name(got@) && (got@ == s.pam.user@
                    || got@ == s.pam.greeter@ || got@ == s.pam.autologin@)
            },
            LowerError::VtOnNonSeat0 { seat } => seat@ == s.id@ && s.console.kind is Vt && seat@
                != "seat0"@,
            LowerError::VtWithoutNumber { seat } => seat@ == s.id@ && s.console.kind is Vt
                && s.console.number is None,
            LowerError::SeatlessWithVtFields { seat } => seat@ == s.id@ && s.console.kind is Seatless
                && (s.console.number is Some || s.console.switch is Some || s.console.conflicts is Some),
            _ => false,
        },
{
}

/// A seat that lowered is the seat that was declared: every name to the letter, the
/// terminal by its number, the switch policy as declared and otherwise the
/// opportunistic one.
pub proof fn a_seat_is_what_was_declared(s: SeatForm, x: Seat)
    requires
        is_seat(s, x),
    ensures
        x.id@ == s.id@,
        x.greeter_user@ == s.greeter_user@,
        x.pam_user@ == s.pam.user@,
        x.pam_greeter@ == s.pam.greeter@,
        x.pam_autologin@ == s.pam.autologin@,
        x.console is Vt <==> s.console.kind is Vt,
        x.console matches Console::Vt { number, switch, conflicts } ==> {
            &&& s.console.number == Some(number)
            &&& s.console.switch is Some ==> s.console.switch == Some(switch)
            &&& s.console.switch is None ==> switch is Opportunistic
            &&& conflicts == s.console.conflicts
        },
{
}

/// What starts is what was declared: a greeter, with the restart policy that was
/// declared and otherwise always, or the user who was named.
pub proof fn what_starts_is_what_was_declared(s: StartupForm, x: Startup)
    requires
        is_startup(s, x),
    ensures
        x is Greeter <==> s.mode is Greeter,
        x matches Startup::Greeter { restart } ==> {
            &&& s.restart is Some ==> s.restart == Some(restart)
            &&& s.restart is None ==> restart is Always
        },
        x matches Startup::Autologin { user } ==> (s.user matches Some(u) && user@ == u@),
{
}

/// A startup lowers if and only if it is one of the two: a greeter without a user,
/// or a user to log in without a restart policy. What is said of any other is true
/// of it.
pub proof fn a_startup_is_one_of_two(s: StartupForm, e: LowerError)
    ensures
        s.mode is Greeter ==> (is_startable(s) <==> s.user is None),
        s.mode is Autologin && s.user is None ==> !is_startable(s),
        s.mode is Autologin && s.user is Some ==> (is_startable(s) <==> s.restart is None
            && is_user_name(s.user->0@)),
        !is_startable(s) && is_startup_error(e, s) ==> match e {
            LowerError::GreeterWithUser => s.mode is Greeter && s.user is Some,
            LowerError::AutologinWithRestart => s.mode is Autologin && s.restart is Some,
            LowerError::AutologinWithoutUser => s.mode is Autologin && s.user is None,
            LowerError::Id(IdError::Malformed { what, got }) => what@ == "user name"@ && s.user is Some
                && got@ == s.user->0@ && !is_user_name(got@),
            _ => false,
        },
{
}

/// An entrance is what was declared: every seat in its place, and the limits on
/// attempts as they were given.
pub proof fn an_entrance_is_what_was_declared(f: MukaeForm, m: Mukae, i: int)
    requires
        is_entrance(f, m),
    ensures
        m.name@ == f.name@,
        m.seats@.len() == f.seats@.len(),
        m.retry_attempts == f.auth.retry.attempts,
        m.retry_window_secs == f.auth.retry.window_secs,
        m.backoff == f.auth.retry.backoff,
        m.startup is Greeter <==> f.auth.startup.mode is Greeter,
        0 <= i < m.seats@.len() ==> {
            &&& m.seats@[i].id@ == f.seats@[i].id@
            &&& m.seats@[i].greeter_user@ == f.seats@[i].greeter_user@
            &&& m.seats@[i].pam_user@ == f.seats@[i].pam.user@
            &&& m.seats@[i].pam_greeter@ == f.seats@[i].pam.greeter@
            &&& m.seats@[i].pam_autologin@ == f.seats@[i].pam.autologin@
            &&& m.seats@[i].console is Vt <==> f.seats@[i].console.kind is Vt
        },
{
    if 0 <= i < m.seats@.len() {
        assert(is_seat(f.seats@[i], m.seats@[i]));
    }
}

/// A seat stands in the way if and only if its id was declared before or something
/// is wrong with it, and an id that repeats is told before anything else.
pub proof fn a_repeated_id_is_told_first(seats: Seq<SeatForm>, i: int, j: int, e: LowerError)
    requires
        0 <= j < i < seats.len(),
        seats[j].id@ == seats[i].id@,
    ensures
        blocks(seats, i),
        is_block_error(e, seats, i) ==> (e matches LowerError::DuplicateSeat(id) && id@
            == seats[i].id@),
{
    assert(repeats(seats, i));
}

/// A seat whose id is its own stands in the way only where something is wrong with
/// it, and what is said is that.
pub proof fn a_seat_of_its_own_id_is_judged_by_itself(seats: Seq<SeatForm>, i: int, e: LowerError)
    requires
        0 <= i < seats.len(),
        forall|j: int| 0 <= j < i ==> (#[trigger] seats[j]).id@ != seats[i].id@,
    ensures
        blocks(seats, i) <==> seat_fault(seats[i]) is Some,
        blocks(seats, i) && is_block_error(e, seats, i) ==> is_seat_error(
            e,
            seats[i],
            seat_fault(seats[i])->0,
        ) && !(e is DuplicateSeat),
{
}

} // verus!
