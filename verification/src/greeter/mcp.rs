//! What the greeter tells a tool that watches it: which questions there are,
//! whom each goes to, and how the outcomes are told apart.
//!
//! There is no tool that types, clicks or answers. Watching is all there is.
use vstd::prelude::*;
use crate::introspect::LoginFlow;

verus! {

/// The greeter's name on the introspection bus.
pub const APP: &'static str = "mukae";

/// The daemon's name on the introspection bus.
pub const DAEMON_APP: &'static str = "mukaed";

/// What a read asks for.
#[derive(Debug)]
pub struct ReadInput {
    /// The leaf to read.
    pub leaf: String,
}

/// The tools.
#[derive(Debug, Clone, Copy, PartialEq, Eq, Structural)]
pub enum Tool {
    /// The whole state of the login.
    LoginState,
    /// Whether the field is masked.
    Echo,
    /// One leaf of the login.
    Read,
    /// The leaves of the login.
    Leaves,
    /// The whole state of the daemon.
    DaemonState,
    /// One leaf of the daemon.
    DaemonRead,
    /// The leaves of the daemon.
    DaemonLeaves,
}

impl Tool {
    pub open spec fn name_text(self) -> Seq<char> {
        match self {
            Tool::LoginState => "mukae_login_state"@,
            Tool::Echo => "mukae_echo"@,
            Tool::Read => "mukae_read"@,
            Tool::Leaves => "mukae_leaves"@,
            Tool::DaemonState => "mukaed_state"@,
            Tool::DaemonRead => "mukaed_read"@,
            Tool::DaemonLeaves => "mukaed_leaves"@,
        }
    }

    /// The tool by its name.
    pub fn name(self) -> (s: &'static str)
        ensures
            s@ == self.name_text(),
    {
        match self {
            Tool::LoginState => "mukae_login_state",
            Tool::Echo => "mukae_echo",
            Tool::Read => "mukae_read",
            Tool::Leaves => "mukae_leaves",
            Tool::DaemonState => "mukaed_state",
            Tool::DaemonRead => "mukaed_read",
            Tool::DaemonLeaves => "mukaed_leaves",
        }
    }

    /// Every tool.
    pub fn all() -> (v: Vec<Tool>)
        ensures
            v@ == every_tool(),
    {
        let mut v: Vec<Tool> = Vec::new();
        v.push(Tool::LoginState);
        v.push(Tool::Echo);
        v.push(Tool::Read);
        v.push(Tool::Leaves);
        v.push(Tool::DaemonState);
        v.push(Tool::DaemonRead);
        v.push(Tool::DaemonLeaves);
        assert(v@ =~= every_tool());
        v
    }

    /// Whom the tool asks, and for which leaf: the empty one is everything. A
    /// list of leaves asks nobody.
    pub open spec fn asks(self, leaf: Seq<char>) -> Option<(Seq<char>, Seq<char>)> {
        match self {
            Tool::LoginState => Some((APP@, ""@)),
            Tool::Echo => Some((APP@, "echo"@)),
            Tool::Read => Some((APP@, leaf)),
            Tool::Leaves => None,
            Tool::DaemonState => Some((DAEMON_APP@, ""@)),
            Tool::DaemonRead => Some((DAEMON_APP@, leaf)),
            Tool::DaemonLeaves => None,
        }
    }

    /// Whom the tool asks, and for which leaf.
    pub fn query(self, leaf: &str) -> (q: Option<(&'static str, String)>)
        ensures
            match q {
                Some((app, l)) => self.asks(leaf@) == Some((app@, l@)),
                None => self.asks(leaf@) is None,
            },
    {
        match self {
            Tool::LoginState => Some((APP, "".to_owned())),
            Tool::Echo => Some((APP, "echo".to_owned())),
            Tool::Read => Some((APP, leaf.to_owned())),
            Tool::Leaves => None,
            Tool::DaemonState => Some((DAEMON_APP, "".to_owned())),
            Tool::DaemonRead => Some((DAEMON_APP, leaf.to_owned())),
            Tool::DaemonLeaves => None,
        }
    }
}

/// Every tool.
pub open spec fn every_tool() -> Seq<Tool> {
    seq![
        Tool::LoginState,
        Tool::Echo,
        Tool::Read,
        Tool::Leaves,
        Tool::DaemonState,
        Tool::DaemonRead,
        Tool::DaemonLeaves,
    ]
}

/// The leaves of the login.
pub fn login_leaves() -> (v: Vec<&'static str>)
    ensures
        v@.map_values(|s: &'static str| s@) == crate::introspect::flow_leaves(),
{
    LoginFlow::new(crate::introspect::Drivable::Observable).schema()
}

/// The leaves of the daemon.
pub fn daemon_leaves() -> (v: Vec<&'static str>)
    ensures
        v@.map_values(|s: &'static str| s@) == crate::seat::introspect::daemon_leaves(),
{
    crate::seat::introspect::leaves()
}

/// What asking came to.
#[derive(Debug, Clone, Copy, PartialEq, Eq, Structural)]
pub enum Forwarded {
    /// A process answered.
    Live,
    /// A process answered that it does not know.
    Refused,
    /// Nobody answered.
    Nobody,
}

/// What an outcome is called. That nobody answered is never called a reading.
pub open spec fn outcome_text(f: Forwarded) -> Seq<char> {
    match f {
        Forwarded::Live => "found"@,
        Forwarded::Refused => "refused"@,
        Forwarded::Nobody => "blind"@,
    }
}

/// What an outcome is called.
pub fn outcome(f: Forwarded) -> (s: &'static str)
    ensures
        s@ == outcome_text(f),
{
    match f {
        Forwarded::Live => "found",
        Forwarded::Refused => "refused",
        Forwarded::Nobody => "blind",
    }
}

/// The three outcomes are told apart.
pub proof fn outcomes_differ(a: Forwarded, b: Forwarded)
    ensures
        outcome_text(a) == outcome_text(b) <==> a == b,
{
    reveal_strlit("found");
    reveal_strlit("refused");
    reveal_strlit("blind");
    assert("found"@[0] == 'f');
    assert("refused"@[0] == 'r');
    assert("blind"@[0] == 'b');
}

/// No tool can do anything but ask: each either lists leaves or reads one.
pub proof fn tools_only_read(t: Tool, leaf: Seq<char>)
    ensures
        every_tool().contains(t),
        t.asks(leaf) matches Some(q) ==> (q.0 == APP@ || q.0 == DAEMON_APP@) && (q.1 == leaf || q.1
            == "echo"@ || q.1 == ""@),
{
    let all = every_tool();
    assert(all[0] == Tool::LoginState && all[1] == Tool::Echo && all[2] == Tool::Read && all[3]
        == Tool::Leaves && all[4] == Tool::DaemonState && all[5] == Tool::DaemonRead && all[6]
        == Tool::DaemonLeaves);
}

/// Each tool asks the one it is named after, for what it is named after. A read
/// asks for the leaf that was given, to the letter.
pub proof fn each_tool_asks_its_own(t: Tool, leaf: Seq<char>)
    ensures
        t is Leaves || t is DaemonLeaves <==> t.asks(leaf) is None,
        t is LoginState ==> t.asks(leaf) == Some(("mukae"@, ""@)),
        t is Echo ==> t.asks(leaf) == Some(("mukae"@, "echo"@)),
        t is Read ==> t.asks(leaf) == Some(("mukae"@, leaf)),
        t is DaemonState ==> t.asks(leaf) == Some(("mukaed"@, ""@)),
        t is DaemonRead ==> t.asks(leaf) == Some(("mukaed"@, leaf)),
{
}

/// No two tools have the same name.
pub proof fn each_tool_has_its_name(a: Tool, b: Tool)
    ensures
        a.name_text() == b.name_text() ==> a == b,
{
    reveal_strlit("mukae_login_state");
    reveal_strlit("mukae_echo");
    reveal_strlit("mukae_read");
    reveal_strlit("mukae_leaves");
    reveal_strlit("mukaed_state");
    reveal_strlit("mukaed_read");
    reveal_strlit("mukaed_leaves");
    assert("mukae_login_state"@.len() == 17 && "mukae_echo"@.len() == 10 && "mukae_read"@.len() == 10
        && "mukae_leaves"@.len() == 12 && "mukaed_state"@.len() == 12 && "mukaed_read"@.len() == 11
        && "mukaed_leaves"@.len() == 13);
    assert("mukae_echo"@[6] == 'e' && "mukae_read"@[6] == 'r');
    assert("mukae_leaves"@[5] == '_' && "mukaed_state"@[5] == 'd');
}

/// What an outcome is called says what happened: only an answer is a finding.
pub proof fn only_an_answer_is_a_finding(f: Forwarded)
    ensures
        outcome_text(f) == "found"@ <==> f is Live,
        outcome_text(f) == "refused"@ <==> f is Refused,
        outcome_text(f) == "blind"@ <==> f is Nobody,
{
    outcomes_differ(f, Forwarded::Live);
    outcomes_differ(f, Forwarded::Refused);
    outcomes_differ(f, Forwarded::Nobody);
}

} // verus!
