//! Registering a session with logind: what is asked of it, in its order, and
//! what comes back.
use vstd::prelude::*;

verus! {

/// What kind of session is registered.
#[derive(Debug, Clone, Copy, PartialEq, Eq, Structural)]
pub enum Class {
    /// A person's session.
    User,
    /// The login screen.
    Greeter,
    /// A screen lock.
    LockScreen,
}

impl Class {
    pub open spec fn word(self) -> Seq<char> {
        match self {
            Class::User => "user"@,
            Class::Greeter => "greeter"@,
            Class::LockScreen => "lock-screen"@,
        }
    }

    /// logind's word for it.
    pub fn as_str(self) -> (s: &'static str)
        ensures
            s@ == self.word(),
    {
        match self {
            Class::User => "user",
            Class::Greeter => "greeter",
            Class::LockScreen => "lock-screen",
        }
    }
}

/// How the session presents.
#[derive(Debug, Clone, Copy, PartialEq, Eq, Structural)]
pub enum Kind {
    Tty,
    Wayland,
    X11,
    Unspecified,
}

impl Kind {
    pub open spec fn word(self) -> Seq<char> {
        match self {
            Kind::Tty => "tty"@,
            Kind::Wayland => "wayland"@,
            Kind::X11 => "x11"@,
            Kind::Unspecified => "unspecified"@,
        }
    }

    /// logind's word for it.
    pub fn as_str(self) -> (s: &'static str)
        ensures
            s@ == self.word(),
    {
        match self {
            Kind::Tty => "tty",
            Kind::Wayland => "wayland",
            Kind::X11 => "x11",
            Kind::Unspecified => "unspecified",
        }
    }
}

/// What a registration asks for.
#[derive(Debug, Clone)]
pub struct Request {
    pub uid: u32,
    pub pid: u32,
    pub service: String,
    pub kind: Kind,
    pub class: Class,
    pub desktop: String,
    pub seat: String,
    /// The terminal; zero where there is none.
    pub vtnr: u32,
    pub tty: String,
    pub display: String,
    pub remote: bool,
    pub remote_user: String,
    pub remote_host: String,
}

/// The arguments of logind's `CreateSession` before its list of properties, by
/// their signature `uusssssussbss`.
pub struct CreateArgs<'a> {
    pub uid: u32,
    pub pid: u32,
    pub service: &'a str,
    pub kind: &'a str,
    pub class: &'a str,
    pub desktop: &'a str,
    pub seat: &'a str,
    pub vtnr: u32,
    pub tty: &'a str,
    pub display: &'a str,
    pub remote: bool,
    pub remote_user: &'a str,
    pub remote_host: &'a str,
}

pub const LOGIND_DEST: &'static str = "org.freedesktop.login1";

pub const LOGIND_PATH: &'static str = "/org/freedesktop/login1";

pub const LOGIND_IFACE: &'static str = "org.freedesktop.login1.Manager";

pub const LOGIND_METHOD: &'static str = "CreateSession";

impl Request {
    /// The arguments that ask for this registration, each in its place.
    pub fn create_args(&self) -> (a: CreateArgs<'_>)
        ensures
            a.uid == self.uid,
            a.pid == self.pid,
            a.service@ == self.service@,
            a.kind@ == self.kind.word(),
            a.class@ == self.class.word(),
            a.desktop@ == self.desktop@,
            a.seat@ == self.seat@,
            a.vtnr == self.vtnr,
            a.tty@ == self.tty@,
            a.display@ == self.display@,
            a.remote == self.remote,
            a.remote_user@ == self.remote_user@,
            a.remote_host@ == self.remote_host@,
    {
        CreateArgs {
            uid: self.uid,
            pid: self.pid,
            service: self.service.as_str(),
            kind: self.kind.as_str(),
            class: self.class.as_str(),
            desktop: self.desktop.as_str(),
            seat: self.seat.as_str(),
            vtnr: self.vtnr,
            tty: self.tty.as_str(),
            display: self.display.as_str(),
            remote: self.remote,
            remote_user: self.remote_user.as_str(),
            remote_host: self.remote_host.as_str(),
        }
    }
}

/// A registered session. The descriptor by which logind watches it is held
/// beside this value and is no part of it.
#[derive(Debug)]
pub struct Session {
    pub id: String,
    pub object_path: String,
    /// The session's runtime directory.
    pub runtime_path: String,
    pub seat: String,
    pub vtnr: u32,
    /// Whether logind gave back a session that was there before.
    pub existing: bool,
}

impl Session {
    /// The session that logind's reply describes.
    pub fn new(
        id: String,
        object_path: String,
        runtime_path: String,
        seat: String,
        vtnr: u32,
        existing: bool,
    ) -> (s: Self)
        ensures
            s == (Session { id, object_path, runtime_path, seat, vtnr, existing }),
    {
        Session { id, object_path, runtime_path, seat, vtnr, existing }
    }
}

/// Where a registration failed.
#[derive(Debug, Clone, Copy, PartialEq, Eq, Structural)]
pub enum BusStage {
    Connecting,
    Calling,
    Reading,
}

/// What is said before the cause of a failure.
pub open spec fn stage_text(stage: BusStage) -> Seq<char> {
    match stage {
        BusStage::Connecting => "connecting to the system bus: "@,
        BusStage::Calling => "logind refused CreateSession: "@,
        BusStage::Reading => "logind's reply did not match soshusub: "@,
    }
}

/// A failed registration in words: a machine without a bus is told apart from a
/// request that logind rejects.
pub fn bus_error(stage: BusStage, cause: &str) -> (s: String)
    ensures
        s@ == stage_text(stage) + cause@,
{
    let mut s: String = match stage {
        BusStage::Connecting => "connecting to the system bus: ".to_owned(),
        BusStage::Calling => "logind refused CreateSession: ".to_owned(),
        BusStage::Reading => "logind's reply did not match soshusub: ".to_owned(),
    };
    s.append(cause);
    s
}

/// Each class and each kind has a word of its own: no two are registered alike.
pub proof fn each_class_and_kind_has_its_word(c: Class, d: Class, k: Kind, l: Kind)
    ensures
        c.word() == d.word() ==> c == d,
        k.word() == l.word() ==> k == l,
        c.word() == "user"@ <==> c is User,
        c.word() == "greeter"@ <==> c is Greeter,
        c.word() == "lock-screen"@ <==> c is LockScreen,
        k.word() == "tty"@ <==> k is Tty,
        k.word() == "wayland"@ <==> k is Wayland,
        k.word() == "x11"@ <==> k is X11,
        k.word() == "unspecified"@ <==> k is Unspecified,
{
    reveal_strlit("user");
    reveal_strlit("greeter");
    reveal_strlit("lock-screen");
    reveal_strlit("tty");
    reveal_strlit("wayland");
    reveal_strlit("x11");
    reveal_strlit("unspecified");
    assert("user"@[0] == 'u' && "greeter"@[0] == 'g' && "lock-screen"@[0] == 'l');
    assert("tty"@[0] == 't' && "wayland"@[0] == 'w' && "x11"@[0] == 'x' && "unspecified"@[0] == 'u');
}

/// A failure tells its stage and keeps its cause to the letter: a machine without a
/// bus never reads as a request that was rejected.
pub proof fn a_failure_tells_its_stage(a: BusStage, b: BusStage, cause: Seq<char>, other: Seq<char>)
    ensures
        stage_text(a) + cause == stage_text(b) + other ==> a == b && cause == other,
        a is Connecting ==> stage_text(a) == "connecting to the system bus: "@,
        a is Calling ==> stage_text(a) == "logind refused CreateSession: "@,
        a is Reading ==> stage_text(a) == "logind's reply did not match soshusub: "@,
{
    reveal_strlit("connecting to the system bus: ");
    reveal_strlit("logind refused CreateSession: ");
    reveal_strlit("logind's reply did not match soshusub: ");
    let x = stage_text(a) + cause;
    let y = stage_text(b) + other;
    if x == y {
        assert("connecting to the system bus: "@[0] == 'c');
        assert("logind refused CreateSession: "@[0] == 'l');
        assert("logind refused CreateSession: "@[6] == ' ');
        assert("logind's reply did not match soshusub: "@[0] == 'l');
        assert("logind's reply did not match soshusub: "@[6] == '\'');
        assert(x[0] == stage_text(a)[0] && y[0] == stage_text(b)[0]);
        assert(x[6] == stage_text(a)[6] && y[6] == stage_text(b)[6]);
        assert(a == b);
        assert(cause =~= x.skip(stage_text(a).len() as int));
        assert(other =~= y.skip(stage_text(a).len() as int));
    }
}

} // verus!
