//! Handing a session to a user: what is prepared before the fork, what the
//! child does in which order, and how the parent learns of a failure.
//!
//! The system calls are the caller's. Everything that the child needs is laid
//! out beforehand, so that between fork and exec it only walks a list.
use vstd::prelude::*;
use crate::border::env::{ChildPid, DropStep, SpawnError};
use crate::border::env_set::{as_map, in_order, lemma_value, EnvSet};
use crate::border::ids::Uid;
use crate::border::session::SessionPlan;
use crate::host::env::{pair_of, written_pair_reads_back};
use crate::text;

verus! {

/// How the child failed.
#[derive(Debug, Clone, Copy, PartialEq, Eq, Structural)]
pub enum ChildFail {
    Setsid,
    InitGroups,
    Setgid,
    Setuid,
    NotDropped,
    RootRegainable,
    Exec,
}

impl ChildFail {
    pub open spec fn byte(self) -> u8 {
        match self {
            ChildFail::Setsid => 1,
            ChildFail::InitGroups => 2,
            ChildFail::Setgid => 3,
            ChildFail::Setuid => 4,
            ChildFail::NotDropped => 5,
            ChildFail::RootRegainable => 6,
            ChildFail::Exec => 7,
        }
    }

    /// The byte that the child sends for it.
    pub fn code(self) -> (b: u8)
        ensures
            b == self.byte(),
    {
        match self {
            ChildFail::Setsid => 1,
            ChildFail::InitGroups => 2,
            ChildFail::Setgid => 3,
            ChildFail::Setuid => 4,
            ChildFail::NotDropped => 5,
            ChildFail::RootRegainable => 6,
            ChildFail::Exec => 7,
        }
    }
}

/// The number that four bytes write, the low byte first and the sign in the
/// highest bit.
pub open spec fn le_value(b0: u8, b1: u8, b2: u8, b3: u8) -> int {
    let u = b0 + b1 * 0x100 + b2 * 0x1_0000 + b3 * 0x100_0000;
    if u < 0x8000_0000 {
        u
    } else {
        u - 0x1_0000_0000
    }
}

/// The five bytes that the child sends: how it failed, and the error number.
pub fn failure_message(why: ChildFail, errno: i32) -> (m: [u8; 5])
    ensures
        m@[0] == why.byte(),
        le_value(m@[1], m@[2], m@[3], m@[4]) == errno,
{
    let wide: i64 = errno as i64;
    let u: u64 = if wide < 0 {
        (wide + 0x1_0000_0000) as u64
    } else {
        wide as u64
    };
    let b0: u8 = (u % 0x100) as u8;
    let b1: u8 = (u / 0x100 % 0x100) as u8;
    let b2: u8 = (u / 0x1_0000 % 0x100) as u8;
    let b3: u8 = (u / 0x100_0000 % 0x100) as u8;
    [why.code(), b0, b1, b2, b3]
}

/// What a byte and an error number from the child come to.
pub open spec fn child_error(byte: u8, errno: i32) -> SpawnError {
    if byte == ChildFail::Setsid.byte() {
        SpawnError::PrivilegeDropFailed { step: DropStep::Setsid, errno }
    } else if byte == ChildFail::InitGroups.byte() {
        SpawnError::PrivilegeDropFailed { step: DropStep::InitGroups, errno }
    } else if byte == ChildFail::Setgid.byte() {
        SpawnError::PrivilegeDropFailed { step: DropStep::Setgid, errno }
    } else if byte == ChildFail::Setuid.byte() {
        SpawnError::PrivilegeDropFailed { step: DropStep::Setuid, errno }
    } else if byte == ChildFail::NotDropped.byte() {
        SpawnError::PrivilegeDropUnverified("the uid is still not the target after setuid")
    } else if byte == ChildFail::RootRegainable.byte() {
        SpawnError::PrivilegeDropUnverified("root could still be regained after setuid")
    } else {
        SpawnError::ExecFailed(errno)
    }
}

/// What came of a fork whose child is `pid`: `n` is what reading the pipe
/// returned, and `msg` what was read. The end of the pipe is the one sign of
/// success: it comes when the program is executed and the child's end closes.
pub fn spawn_outcome(pid: i32, n: i64, msg: &[u8; 5], errno: i32) -> (r: Result<ChildPid, SpawnError>)
    ensures
        r == (if n == 0 {
            Ok::<ChildPid, SpawnError>(ChildPid(pid))
        } else if n < 0 {
            Err(SpawnError::ForkFailed(errno))
        } else {
            Err(child_error(msg@[0], le_value(msg@[1], msg@[2], msg@[3], msg@[4]) as i32))
        }),
{
    if n == 0 {
        return Ok(ChildPid(pid));
    }
    if n < 0 {
        return Err(SpawnError::ForkFailed(errno));
    }
    let u: i64 = msg[1] as i64 + msg[2] as i64 * 0x100 + msg[3] as i64 * 0x1_0000 + msg[4] as i64
        * 0x100_0000;
    let e: i32 = if u < 0x8000_0000 {
        u as i32
    } else {
        (u - 0x1_0000_0000) as i32
    };
    Err(
        match msg[0] {
            1 => SpawnError::PrivilegeDropFailed { step: DropStep::Setsid, errno: e },
            2 => SpawnError::PrivilegeDropFailed { step: DropStep::InitGroups, errno: e },
            3 => SpawnError::PrivilegeDropFailed { step: DropStep::Setgid, errno: e },
            4 => SpawnError::PrivilegeDropFailed { step: DropStep::Setuid, errno: e },
            5 => SpawnError::PrivilegeDropUnverified("the uid is still not the target after setuid"),
            6 => SpawnError::PrivilegeDropUnverified("root could still be regained after setuid"),
            _ => SpawnError::ExecFailed(e),
        },
    )
}

/// What the passwd record of an account says that its processes are owed.
#[derive(Debug)]
pub struct PosixIdentity {
    pub name: String,
    pub home: String,
    pub shell: String,
}

/// A passwd record: the group, the home and the name as they are written
/// there, and what the environment shows of it.
#[derive(Debug)]
pub struct Account {
    pub gid: u32,
    pub home: Vec<u8>,
    pub name: Vec<u8>,
    pub identity: PosixIdentity,
}

/// Everything that the child needs.
#[derive(Debug)]
pub struct Prepared {
    pub argv: Vec<String>,
    pub envp: Vec<String>,
    pub home: Vec<u8>,
    pub user: Vec<u8>,
    pub uid: u32,
    pub gid: u32,
    /// The groups, looked up where allocating is allowed.
    pub groups: Vec<u32>,
    /// The descriptors that the child keeps, each with the number it is to have.
    pub inherit: Vec<(i32, i32)>,
}

/// The environment of a process: the record's facts over what the caller says.
pub open spec fn identity_env(env: Map<Seq<char>, Seq<char>>, who: PosixIdentity) -> Map<
    Seq<char>,
    Seq<char>,
> {
    env.insert("HOME"@, who.home@).insert("USER"@, who.name@).insert("LOGNAME"@, who.name@).insert(
        "SHELL"@,
        who.shell@,
    )
}

/// The environment of a process: the record's facts over what the caller says.
pub fn merged_env(env: &EnvSet, who: &PosixIdentity) -> (m: EnvSet)
    ensures
        m@ == identity_env(env@, *who),
        in_order(m.entries()),
{
    let mut m: EnvSet = env.clone();
    m.insert("HOME".to_owned(), who.home.clone());
    m.insert("USER".to_owned(), who.name.clone());
    m.insert("LOGNAME".to_owned(), who.name.clone());
    m.insert("SHELL".to_owned(), who.shell.clone());
    m
}

/// A variable as an environment block writes it.
pub open spec fn env_text(e: (String, String)) -> Seq<char> {
    e.0@ + "="@ + e.1@
}

/// An environment as its block writes it.
pub open spec fn env_block(entries: Seq<(String, String)>) -> Seq<Seq<char>> {
    entries.map_values(|e: (String, String)| env_text(e))
}

/// Whether none of the texts holds a NUL, which no argument can carry.
pub open spec fn passable(parts: Seq<Seq<char>>) -> bool {
    forall|i: int| 0 <= i < parts.len() ==> !(#[trigger] parts[i]).contains('\0')
}

/// Whether no name and no value of the environment holds a NUL.
pub open spec fn writable(env: Map<Seq<char>, Seq<char>>) -> bool {
    forall|k: Seq<char>| #[trigger]
        env.dom().contains(k) ==> !k.contains('\0') && !env[k].contains('\0')
}

/// Whether `block` is how the environment is written: one line for each name,
/// in the order of the names.
pub open spec fn is_block(block: Seq<Seq<char>>, env: Map<Seq<char>, Seq<char>>) -> bool {
    exists|entries: Seq<(String, String)>|
        in_order(entries) && as_map(entries) == env && block == #[trigger] env_block(entries)
}

/// An environment can be written if and only if its block can be passed.
proof fn lemma_writable(entries: Seq<(String, String)>)
    requires
        in_order(entries),
    ensures
        writable(as_map(entries)) <==> passable(env_block(entries)),
{
    let env = as_map(entries);
    let block = env_block(entries);
    reveal_strlit("=");
    if writable(env) {
        assert forall|i: int| 0 <= i < block.len() implies !(#[trigger] block[i]).contains('\0') by {
            lemma_value(entries, i);
            let k = entries[i].0@;
            let v = entries[i].1@;
            assert(env.dom().contains(k));
            if block[i].contains('\0') {
                let j = choose|j: int| 0 <= j < block[i].len() && block[i][j] == '\0';
                if j < k.len() {
                    assert(k[j] == '\0');
                } else if j > k.len() {
                    assert(v[j - k.len() - 1] == '\0');
                }
            }
        }
    }
    if passable(block) {
        assert forall|k: Seq<char>| #[trigger] env.dom().contains(k) implies !k.contains('\0')
            && !env[k].contains('\0') by {
            let i = choose|i: int| 0 <= i < entries.len() && #[trigger] entries[i].0@ == k;
            lemma_value(entries, i);
            let v = entries[i].1@;
            assert(!block[i].contains('\0'));
            if k.contains('\0') {
                let j = choose|j: int| 0 <= j < k.len() && k[j] == '\0';
                assert(block[i][j] == '\0');
            }
            if v.contains('\0') {
                let j = choose|j: int| 0 <= j < v.len() && v[j] == '\0';
                assert(block[i][j + k.len() + 1] == '\0');
            }
        }
    }
}

/// The environment block, unless a variable cannot be written in one.
fn block_of(env: &EnvSet) -> (r: Option<Vec<String>>)
    ensures
        r is Some <==> passable(env_block(env.entries())),
        r matches Some(v) ==> text::texts(v@) == env_block(env.entries()),
{
    let mut v: Vec<String> = Vec::new();
    let n: usize = env.len();
    let mut i: usize = 0;
    let ghost all = env_block(env.entries());
    while i < n
        invariant
            i <= n,
            n == env.entries().len(),
            all == env_block(env.entries()),
            text::texts(v@) == all.take(i as int),
            passable(all.take(i as int)),
        decreases n - i,
    {
        let e: &(String, String) = env.entry(i);
        let mut kv: String = e.0.clone();
        kv.append("=");
        kv.append(e.1.as_str());
        assert(kv@ == all[i as int]);
        if text::has_char(kv.as_str(), '\0') {
            assert(all[i as int].contains('\0'));
            return None;
        }
        let ghost before = v@;
        v.push(kv);
        proof {
            assert(text::texts(v@) =~= text::texts(before).push(kv@));
            assert(all.take(i + 1) =~= all.take(i as int).push(all[i as int]));
            assert forall|j: int| 0 <= j < i + 1 implies !(#[trigger] all.take(i + 1)[j]).contains('\0') by {
                if j < i {
                    assert(all.take(i as int)[j] == all.take(i + 1)[j]);
                }
            }
        }
        i = i + 1;
    }
    proof {
        assert(all.take(n as int) =~= all);
    }
    Some(v)
}

/// The command, unless an argument cannot be passed.
fn command_of(argv: &[String]) -> (r: Option<Vec<String>>)
    ensures
        r is Some <==> passable(text::texts(argv@)),
        r matches Some(v) ==> v@ == argv@,
{
    let mut v: Vec<String> = Vec::new();
    let mut i: usize = 0;
    while i < argv.len()
        invariant
            i <= argv@.len(),
            v@ == argv@.take(i as int),
            forall|j: int| 0 <= j < i ==> !(#[trigger] argv@[j])@.contains('\0'),
        decreases argv@.len() - i,
    {
        if text::has_char(argv[i].as_str(), '\0') {
            assert(text::texts(argv@)[i as int].contains('\0'));
            return None;
        }
        v.push(argv[i].clone());
        assert(v@ =~= argv@.take(i + 1));
        i = i + 1;
    }
    assert(argv@.take(argv@.len() as int) =~= argv@);
    assert forall|j: int| 0 <= j < argv@.len() implies !(#[trigger] text::texts(argv@)[j]).contains(
        '\0',
    ) by {
        assert(text::texts(argv@)[j] == argv@[j]@);
    }
    Some(v)
}

/// Whether `p` is what a plan comes to for an account.
pub open spec fn is_prepared(
    p: Prepared,
    plan: SessionPlan,
    env: Map<Seq<char>, Seq<char>>,
    to: Uid,
    account: Account,
    groups: Vec<u32>,
    inherit: Vec<(i32, i32)>,
) -> bool {
    &&& p.argv@ == plan.argv@
    &&& is_block(text::texts(p.envp@), identity_env(env, account.identity))
    &&& p.home == account.home
    &&& p.user == account.name
    &&& p.uid == to.0
    &&& p.gid == account.gid
    &&& p.groups == groups
    &&& p.inherit == inherit
}

/// Prepares a process of the principal `to`: `account` is their passwd record
/// where there is one. An argument or a variable that cannot be passed is refused.
pub fn prepare_inheriting(
    plan: &SessionPlan,
    env: &EnvSet,
    to: Uid,
    account: Option<Account>,
    groups: Vec<u32>,
    inherit: Vec<(i32, i32)>,
) -> (r: Result<Prepared, SpawnError>)
    ensures
        match account {
            None => r == Err::<Prepared, SpawnError>(SpawnError::UnknownPrincipal(to.0)),
            Some(a) => match r {
                Ok(p) => passable(text::texts(plan.argv@)) && writable(
                    identity_env(env@, a.identity),
                ) && is_prepared(p, *plan, env@, to, a, groups, inherit) && p.argv@ == plan.argv@ && p.uid
                    == to.0 && p.gid == a.gid && p.groups@ == groups@ && p.inherit@ == inherit@
                    && p.home@ == a.home@ && p.user@ == a.name@,
                Err(e) => e == SpawnError::Refused && !(passable(text::texts(plan.argv@)) && writable(
                    identity_env(env@, a.identity),
                )),
            },
        },
{
    let account: Account = match account {
        None => {
            return Err(SpawnError::UnknownPrincipal(to.0));
        },
        Some(a) => a,
    };
    let argv: Vec<String> = match command_of(plan.argv.as_slice()) {
        Some(v) => v,
        None => {
            return Err(SpawnError::Refused);
        },
    };
    let merged: EnvSet = merged_env(env, &account.identity);
    proof {
        lemma_writable(merged.entries());
    }
    let envp: Vec<String> = match block_of(&merged) {
        Some(v) => v,
        None => {
            return Err(SpawnError::Refused);
        },
    };
    assert(text::texts(envp@) == env_block(merged.entries()));
    Ok(
        Prepared {
            argv,
            envp,
            home: account.home,
            user: account.name,
            uid: to.0,
            gid: account.gid,
            groups,
            inherit,
        },
    )
}

/// Prepares a process that keeps no descriptor.
pub fn prepare(
    plan: &SessionPlan,
    env: &EnvSet,
    to: Uid,
    account: Option<Account>,
    groups: Vec<u32>,
) -> (r: Result<Prepared, SpawnError>)
    ensures
        match account {
            None => r == Err::<Prepared, SpawnError>(SpawnError::UnknownPrincipal(to.0)),
            Some(a) => match r {
                Ok(p) => passable(text::texts(plan.argv@)) && writable(
                    identity_env(env@, a.identity),
                ) && exists|
                    none: Vec<(i32, i32)>,
                |
                    none@.len() == 0 && #[trigger] is_prepared(p, *plan, env@, to, a, groups, none)
                        && p.argv@ == plan.argv@ && p.uid == to.0 && p.gid == a.gid && p.groups@
                        == groups@ && p.inherit@.len() == 0 && p.home@ == a.home@ && p.user@
                        == a.name@,
                Err(e) => e == SpawnError::Refused && !(passable(text::texts(plan.argv@)) && writable(
                    identity_env(env@, a.identity),
                )),
            },
        },
{
    prepare_inheriting(plan, env, to, account, groups, Vec::new())
}

/// A lookup of the groups of a user: how large the buffer is, and whether a
/// larger one may still be tried.
#[derive(Debug, Clone, Copy, PartialEq, Eq, Structural)]
pub struct GroupLookup {
    pub capacity: i32,
    pub last: bool,
}

/// What a lookup came to.
#[derive(Debug)]
pub enum GroupAnswer {
    Groups(Vec<u32>),
    Again(GroupLookup),
}

/// The groups that a filled buffer gives: the count that was reported, and the
/// primary group where that is none.
pub open spec fn groups_in(primary: u32, n: i32, buf: Seq<u32>) -> Seq<u32> {
    if n <= 0 || buf.len() == 0 {
        seq![primary]
    } else if n < buf.len() {
        buf.take(n as int)
    } else {
        buf
    }
}

impl GroupLookup {
    /// The first try.
    pub fn first() -> (g: Self)
        ensures
            g.capacity == 32,
            !g.last,
    {
        GroupLookup { capacity: 32, last: false }
    }

    /// How many entries the buffer of this try has.
    pub fn entries(&self) -> (n: usize)
        ensures
            n == (if self.capacity < 0 {
                32
            } else {
                self.capacity as int
            }),
    {
        if self.capacity < 0 {
            32
        } else {
            self.capacity as usize
        }
    }

    /// What the answer of the system, `rc` with the count `n` and the buffer,
    /// leads to. There are two tries at most; where they fail, the primary
    /// group stands alone.
    pub fn answered(&self, primary: u32, rc: i32, n: i32, buf: Vec<u32>) -> (a: GroupAnswer)
        ensures
            if rc >= 0 {
                a matches GroupAnswer::Groups(g) && g@ == groups_in(primary, n, buf@)
            } else if n <= 0 || self.last {
                a matches GroupAnswer::Groups(g) && g@ == seq![primary]
            } else {
                a == GroupAnswer::Again(GroupLookup { capacity: n, last: true })
            },
    {
        if rc >= 0 {
            let mut g: Vec<u32> = buf;
            let keep: usize = if n < 0 {
                0
            } else {
                n as usize
            };
            if keep < g.len() {
                g.truncate(keep);
            }
            if g.len() == 0 {
                g.push(primary);
            }
            assert(g@ =~= groups_in(primary, n, buf@));
            return GroupAnswer::Groups(g);
        }
        if n <= 0 || self.last {
            let mut g: Vec<u32> = Vec::new();
            g.push(primary);
            assert(g@ =~= seq![primary]);
            return GroupAnswer::Groups(g);
        }
        GroupAnswer::Again(GroupLookup { capacity: n, last: true })
    }
}

/// One thing that the child does between fork and exec.
#[derive(Debug, Clone, Copy, PartialEq, Eq, Structural)]
pub enum ChildStep {
    /// Become the leader of a session without a terminal.
    Setsid,
    /// Take the prepared groups.
    SetGroups,
    SetGid(u32),
    SetUid(u32),
    /// Check that both uids are this one.
    CheckIds(u32),
    /// Check that root cannot be become again.
    CheckNoReturn,
    /// Keep a descriptor under a number.
    Keep { from: i32, to: i32 },
    /// Go to the home directory.
    Home,
    /// Execute the program.
    Exec,
}

impl ChildStep {
    pub open spec fn call_text(self) -> Seq<char> {
        match self {
            ChildStep::Setsid => "libc::setsid"@,
            ChildStep::SetGroups => "libc::setgroups"@,
            ChildStep::SetGid(_) => "libc::setgid"@,
            ChildStep::SetUid(_) => "libc::setuid"@,
            ChildStep::CheckIds(_) => "libc::getuid, libc::geteuid"@,
            ChildStep::CheckNoReturn => "libc::setuid"@,
            ChildStep::Keep { .. } => "libc::dup2"@,
            ChildStep::Home => "libc::chdir"@,
            ChildStep::Exec => "libc::execve"@,
        }
    }

    /// The system call that a step makes. Each is safe between fork and exec.
    pub fn call(self) -> (s: &'static str)
        ensures
            s@ == self.call_text(),
    {
        match self {
            ChildStep::Setsid => "libc::setsid",
            ChildStep::SetGroups => "libc::setgroups",
            ChildStep::SetGid(_) => "libc::setgid",
            ChildStep::SetUid(_) => "libc::setuid",
            ChildStep::CheckIds(_) => "libc::getuid, libc::geteuid",
            ChildStep::CheckNoReturn => "libc::setuid",
            ChildStep::Keep { .. } => "libc::dup2",
            ChildStep::Home => "libc::chdir",
            ChildStep::Exec => "libc::execve",
        }
    }
}

/// The child's failure where a step went wrong. Going home is best effort, and
/// a call of exec that returns has failed.
pub open spec fn failure_of(step: ChildStep, ok: bool) -> Option<ChildFail> {
    match step {
        ChildStep::Home => None,
        ChildStep::Exec => Some(ChildFail::Exec),
        _ => if ok {
            None
        } else {
            Some(
                match step {
                    ChildStep::Setsid => ChildFail::Setsid,
                    ChildStep::SetGroups => ChildFail::InitGroups,
                    ChildStep::SetGid(_) => ChildFail::Setgid,
                    ChildStep::SetUid(_) => ChildFail::Setuid,
                    ChildStep::CheckIds(_) => ChildFail::NotDropped,
                    ChildStep::CheckNoReturn => ChildFail::RootRegainable,
                    _ => ChildFail::Exec,
                },
            )
        },
    }
}

/// The child's failure where a step went wrong; `None` to go on.
pub fn child_failure(step: ChildStep, ok: bool) -> (f: Option<ChildFail>)
    ensures
        f == failure_of(step, ok),
{
    match step {
        ChildStep::Home => None,
        ChildStep::Exec => Some(ChildFail::Exec),
        _ => if ok {
            None
        } else {
            Some(
                match step {
                    ChildStep::Setsid => ChildFail::Setsid,
                    ChildStep::SetGroups => ChildFail::InitGroups,
                    ChildStep::SetGid(_) => ChildFail::Setgid,
                    ChildStep::SetUid(_) => ChildFail::Setuid,
                    ChildStep::CheckIds(_) => ChildFail::NotDropped,
                    ChildStep::CheckNoReturn => ChildFail::RootRegainable,
                    _ => ChildFail::Exec,
                },
            )
        },
    }
}

/// The descriptors that the child keeps, in the order in which they were named.
pub open spec fn keeps(inherit: Seq<(i32, i32)>) -> Seq<ChildStep> {
    inherit.map_values(|f: (i32, i32)| ChildStep::Keep { from: f.0, to: f.1 })
}

/// The drop of privilege and its verification. Root has nothing to come back
/// to, so that is not asked of it.
pub open spec fn drop_steps(uid: u32, gid: u32) -> Seq<ChildStep> {
    let drop = seq![
        ChildStep::Setsid,
        ChildStep::SetGroups,
        ChildStep::SetGid(gid),
        ChildStep::SetUid(uid),
        ChildStep::CheckIds(uid),
    ];
    if uid != 0 {
        drop.push(ChildStep::CheckNoReturn)
    } else {
        drop
    }
}

/// What the child does: the drop, its verification, the descriptors, the home
/// and the program.
pub open spec fn window(uid: u32, gid: u32, inherit: Seq<(i32, i32)>) -> Seq<ChildStep> {
    drop_steps(uid, gid) + keeps(inherit) + seq![ChildStep::Home, ChildStep::Exec]
}

/// What the child does, in order.
pub fn child_window(p: &Prepared) -> (steps: Vec<ChildStep>)
    ensures
        steps@ == window(p.uid, p.gid, p.inherit@),
{
    let mut steps: Vec<ChildStep> = Vec::new();
    steps.push(ChildStep::Setsid);
    steps.push(ChildStep::SetGroups);
    steps.push(ChildStep::SetGid(p.gid));
    steps.push(ChildStep::SetUid(p.uid));
    steps.push(ChildStep::CheckIds(p.uid));
    if p.uid != 0 {
        steps.push(ChildStep::CheckNoReturn);
    }
    assert(steps@ =~= drop_steps(p.uid, p.gid));
    let ghost drop = steps@;
    let mut i: usize = 0;
    while i < p.inherit.len()
        invariant
            i <= p.inherit.len(),
            steps@ == drop + keeps(p.inherit@.take(i as int)),
        decreases p.inherit.len() - i,
    {
        let f: (i32, i32) = p.inherit[i];
        steps.push(ChildStep::Keep { from: f.0, to: f.1 });
        proof {
            assert(p.inherit@.take(i + 1) =~= p.inherit@.take(i as int).push(f));
            assert(keeps(p.inherit@.take(i + 1)) =~= keeps(p.inherit@.take(i as int)).push(
                ChildStep::Keep { from: f.0, to: f.1 },
            ));
            assert(steps@ =~= drop + keeps(p.inherit@.take(i + 1)));
        }
        i = i + 1;
    }
    assert(p.inherit@.take(i as int) =~= p.inherit@);
    steps.push(ChildStep::Home);
    steps.push(ChildStep::Exec);
    assert(steps@ =~= window(p.uid, p.gid, p.inherit@));
    steps
}

/// Whether a child whose steps went as `oks` says comes to the step `i`.
pub open spec fn comes_to(steps: Seq<ChildStep>, oks: Seq<bool>, i: int) -> bool {
    forall|j: int| 0 <= j < i ==> failure_of(#[trigger] steps[j], oks[j]) is None
}

/// What the child sends is what the parent reads: the failure and its error
/// number come through as they were.
pub proof fn the_message_comes_through(why: ChildFail, errno: i32, m: Seq<u8>)
    requires
        m.len() == 5,
        m[0] == why.byte(),
        le_value(m[1], m[2], m[3], m[4]) == errno,
    ensures
        child_error(m[0], le_value(m[1], m[2], m[3], m[4]) as i32) == (match why {
            ChildFail::Setsid => SpawnError::PrivilegeDropFailed { step: DropStep::Setsid, errno },
            ChildFail::InitGroups => SpawnError::PrivilegeDropFailed {
                step: DropStep::InitGroups,
                errno,
            },
            ChildFail::Setgid => SpawnError::PrivilegeDropFailed { step: DropStep::Setgid, errno },
            ChildFail::Setuid => SpawnError::PrivilegeDropFailed { step: DropStep::Setuid, errno },
            ChildFail::NotDropped => SpawnError::PrivilegeDropUnverified(
                "the uid is still not the target after setuid",
            ),
            ChildFail::RootRegainable => SpawnError::PrivilegeDropUnverified(
                "root could still be regained after setuid",
            ),
            ChildFail::Exec => SpawnError::ExecFailed(errno),
        }),
{
}

/// The groups come before the gid, the gid before the uid, the check after
/// all of them, and descriptors and the program after the check.
pub proof fn the_drop_is_in_order(uid: u32, gid: u32, inherit: Seq<(i32, i32)>)
    ensures
        window(uid, gid, inherit)[0] == ChildStep::Setsid,
        window(uid, gid, inherit)[1] == ChildStep::SetGroups,
        window(uid, gid, inherit)[2] == ChildStep::SetGid(gid),
        window(uid, gid, inherit)[3] == ChildStep::SetUid(uid),
        window(uid, gid, inherit)[4] == ChildStep::CheckIds(uid),
        uid != 0 ==> window(uid, gid, inherit)[5] == ChildStep::CheckNoReturn,
        forall|i: int|
            0 <= i < window(uid, gid, inherit).len() && (#[trigger] window(uid, gid, inherit)[i] is Keep
                || window(uid, gid, inherit)[i] is Exec) ==> i >= drop_steps(uid, gid).len(),
{
    assert forall|i: int|
        0 <= i < window(uid, gid, inherit).len() && (#[trigger] window(uid, gid, inherit)[i] is Keep
            || window(uid, gid, inherit)[i] is Exec) implies i >= drop_steps(uid, gid).len() by {
        if i < drop_steps(uid, gid).len() {
            assert(window(uid, gid, inherit)[i] == drop_steps(uid, gid)[i]);
        }
    }
}

/// A program is executed only by a child that dropped every privilege and
/// verified it: each step of the drop and each check went well.
pub proof fn only_a_verified_drop_executes(
    uid: u32,
    gid: u32,
    inherit: Seq<(i32, i32)>,
    oks: Seq<bool>,
    i: int,
)
    requires
        0 <= i < window(uid, gid, inherit).len(),
        window(uid, gid, inherit)[i] is Exec,
        comes_to(window(uid, gid, inherit), oks, i),
    ensures
        forall|j: int| 0 <= j < drop_steps(uid, gid).len() ==> #[trigger] oks[j],
{
    the_drop_is_in_order(uid, gid, inherit);
    assert forall|j: int| 0 <= j < drop_steps(uid, gid).len() implies #[trigger] oks[j] by {
        let w = window(uid, gid, inherit);
        assert(w[j] == drop_steps(uid, gid)[j]);
        assert(failure_of(w[j], oks[j]) is None);
    }
}

/// Whoever a process is of, it has the four variables of its account, as the
/// record says and whatever the caller says.
pub proof fn the_record_outranks_the_caller(env: Map<Seq<char>, Seq<char>>, who: PosixIdentity)
    ensures
        identity_env(env, who).dom().contains("HOME"@),
        identity_env(env, who)["HOME"@] == who.home@,
        identity_env(env, who).dom().contains("USER"@),
        identity_env(env, who)["USER"@] == who.name@,
        identity_env(env, who).dom().contains("LOGNAME"@),
        identity_env(env, who)["LOGNAME"@] == who.name@,
        identity_env(env, who).dom().contains("SHELL"@),
        identity_env(env, who)["SHELL"@] == who.shell@,
{
    reveal_strlit("HOME");
    reveal_strlit("USER");
    reveal_strlit("LOGNAME");
    reveal_strlit("SHELL");
    assert("HOME"@[0] == 'H');
    assert("USER"@[0] == 'U');
    assert("LOGNAME"@[0] == 'L');
    assert("SHELL"@[0] == 'S');
}

/// A block reads as the environment that was written: each line splits into a
/// name and its value, no name stands twice, and every variable is there, where
/// no name holds a `=`.
pub proof fn a_block_reads_as_its_environment(
    block: Seq<Seq<char>>,
    env: Map<Seq<char>, Seq<char>>,
    i: int,
    j: int,
    name: Seq<char>,
)
    requires
        is_block(block, env),
        forall|k: Seq<char>| #[trigger] env.dom().contains(k) ==> !k.contains('='),
        0 <= i < block.len(),
        0 <= j < block.len(),
    ensures
        pair_of(block[i]) matches Some(p) && env.dom().contains(p.0) && env[p.0] == p.1 && (pair_of(
            block[j],
        ) matches Some(q) && (i != j ==> p.0 != q.0)),
        env.dom().contains(name) ==> exists|l: int|
            0 <= l < block.len() && pair_of(#[trigger] block[l]) == Some((name, env[name])),
{
    let entries = choose|entries: Seq<(String, String)>|
        in_order(entries) && as_map(entries) == env && block == #[trigger] env_block(entries);
    lemma_value(entries, i);
    lemma_value(entries, j);
    assert(env.dom().contains(entries[i].0@));
    assert(env.dom().contains(entries[j].0@));
    written_pair_reads_back(entries[i].0@, entries[i].1@);
    written_pair_reads_back(entries[j].0@, entries[j].1@);
    text::precedes_irreflexive(entries[i].0@);
    if i < j {
        assert(text::precedes(entries[i].0@, entries[j].0@));
    } else if j < i {
        assert(text::precedes(entries[j].0@, entries[i].0@));
    }
    if env.dom().contains(name) {
        let l = choose|l: int| 0 <= l < entries.len() && #[trigger] entries[l].0@ == name;
        lemma_value(entries, l);
        written_pair_reads_back(entries[l].0@, entries[l].1@);
        assert(block[l] == env_text(entries[l]));
    }
}

/// There is always a group: a failed lookup leaves the primary one.
pub proof fn there_is_always_a_group(primary: u32, n: i32, buf: Seq<u32>)
    ensures
        groups_in(primary, n, buf).len() > 0,
        n <= 0 ==> groups_in(primary, n, buf).contains(primary),
{
    assert(seq![primary][0] == primary);
}

/// What is prepared is what was asked for: the command argument by argument, the
/// principal's own uid and the group of their record, every group that was looked
/// up, every descriptor that is to be kept, and the home and the name as they are
/// written in the record.
pub proof fn what_is_prepared_is_what_was_asked_for(
    p: Prepared,
    plan: SessionPlan,
    env: Map<Seq<char>, Seq<char>>,
    to: Uid,
    account: Account,
    groups: Vec<u32>,
    inherit: Vec<(i32, i32)>,
    i: int,
)
    requires
        is_prepared(p, plan, env, to, account, groups, inherit),
    ensures
        p.argv@.len() == plan.argv@.len(),
        0 <= i < p.argv@.len() ==> p.argv@[i] == plan.argv@[i],
        p.uid == to.0,
        p.gid == account.gid,
        p.groups@.len() == groups@.len(),
        0 <= i < groups@.len() ==> p.groups@[i] == groups@[i],
        p.inherit@.len() == inherit@.len(),
        0 <= i < inherit@.len() ==> p.inherit@[i] == inherit@[i],
        p.home@ == account.home@,
        p.user@ == account.name@,
{
}

/// The environment that is prepared is the caller's with the four facts of the
/// record over it: those four come from the record and from nowhere else, every
/// other variable of the caller is there with its value, and no other is. Each is
/// one line of the block, written name, equals sign, value.
pub proof fn the_prepared_environment_is_the_caller_s_and_the_record_s(
    block: Seq<Seq<char>>,
    env: Map<Seq<char>, Seq<char>>,
    who: PosixIdentity,
    name: Seq<char>,
    i: int,
)
    requires
        is_block(block, identity_env(env, who)),
        0 <= i < block.len(),
    ensures
        block.contains("HOME="@ + who.home@),
        block.contains("USER="@ + who.name@),
        block.contains("LOGNAME="@ + who.name@),
        block.contains("SHELL="@ + who.shell@),
        env.dom().contains(name) && name != "HOME"@ && name != "USER"@ && name != "LOGNAME"@ && name
            != "SHELL"@ ==> block.contains(name + "="@ + env[name]),
        ({
            ||| block[i] == "HOME="@ + who.home@
            ||| block[i] == "USER="@ + who.name@
            ||| block[i] == "LOGNAME="@ + who.name@
            ||| block[i] == "SHELL="@ + who.shell@
            ||| exists|k: Seq<char>| #[trigger]
                env.dom().contains(k) && block[i] == k + "="@ + env[k]
        }),
{
    let all = identity_env(env, who);
    the_record_outranks_the_caller(env, who);
    reveal_strlit("HOME");
    reveal_strlit("USER");
    reveal_strlit("LOGNAME");
    reveal_strlit("SHELL");
    reveal_strlit("HOME=");
    reveal_strlit("USER=");
    reveal_strlit("LOGNAME=");
    reveal_strlit("SHELL=");
    reveal_strlit("=");
    assert("HOME="@ =~= "HOME"@ + "="@);
    assert("USER="@ =~= "USER"@ + "="@);
    assert("LOGNAME="@ =~= "LOGNAME"@ + "="@);
    assert("SHELL="@ =~= "SHELL"@ + "="@);
    lemma_written(block, all, "HOME"@);
    lemma_written(block, all, "USER"@);
    lemma_written(block, all, "LOGNAME"@);
    lemma_written(block, all, "SHELL"@);
    if env.dom().contains(name) {
        lemma_written(block, all, name);
    }
    let entries = choose|entries: Seq<(String, String)>|
        in_order(entries) && as_map(entries) == all && block == #[trigger] env_block(entries);
    lemma_value(entries, i);
    let k = entries[i].0@;
    assert(all.dom().contains(k));
    assert(block[i] == k + "="@ + all[k]);
    if k != "HOME"@ && k != "USER"@ && k != "LOGNAME"@ && k != "SHELL"@ {
        assert(env.dom().contains(k) && block[i] == k + "="@ + env[k]);
    }
}

/// A variable stands in the block.
proof fn lemma_written(block: Seq<Seq<char>>, env: Map<Seq<char>, Seq<char>>, name: Seq<char>)
    requires
        is_block(block, env),
        env.dom().contains(name),
    ensures
        block.contains(name + "="@ + env[name]),
{
    let entries = choose|entries: Seq<(String, String)>|
        in_order(entries) && as_map(entries) == env && block == #[trigger] env_block(entries);
    let l = choose|l: int| 0 <= l < entries.len() && #[trigger] entries[l].0@ == name;
    lemma_value(entries, l);
    assert(block[l] == env_text(entries[l]));
}

/// The child does exactly this, in this order: a session of its own, the groups,
/// the gid and the uid of its principal, the look whether that is so, the attempt
/// to become root again where it is not root, each descriptor under its number,
/// the home, the program.
pub proof fn the_window_is_this(uid: u32, gid: u32, inherit: Seq<(i32, i32)>, i: int)
    ensures
        ({
            let w = window(uid, gid, inherit);
            let n: int = if uid == 0 {
                5
            } else {
                6
            };
            &&& w.len() == n + inherit.len() + 2
            &&& w.take(5) == seq![
                ChildStep::Setsid,
                ChildStep::SetGroups,
                ChildStep::SetGid(gid),
                ChildStep::SetUid(uid),
                ChildStep::CheckIds(uid),
            ]
            &&& uid != 0 ==> w[5] == ChildStep::CheckNoReturn
            &&& 0 <= i < inherit.len() ==> w[n + i] == (ChildStep::Keep {
                from: inherit[i].0,
                to: inherit[i].1,
            })
            &&& w[n + inherit.len()] == ChildStep::Home
            &&& w.last() == ChildStep::Exec
        }),
{
    let w = window(uid, gid, inherit);
    assert(w.take(5) =~= drop_steps(uid, gid).take(5));
    assert(drop_steps(uid, gid).take(5) =~= seq![
        ChildStep::Setsid,
        ChildStep::SetGroups,
        ChildStep::SetGid(gid),
        ChildStep::SetUid(uid),
        ChildStep::CheckIds(uid),
    ]);
}

/// A step that failed is told as that step. Going home may fail, and whatever else
/// went well is no failure; a program that was executed does not come back.
pub proof fn each_failed_step_is_told_as_itself(step: ChildStep, ok: bool)
    ensures
        step is Exec ==> failure_of(step, ok) == Some(ChildFail::Exec),
        step is Home ==> failure_of(step, ok) is None,
        ok && !(step is Exec) ==> failure_of(step, ok) is None,
        !ok && !(step is Home) ==> failure_of(step, ok) is Some,
        !ok ==> (step is Setsid <==> failure_of(step, ok) == Some(ChildFail::Setsid)),
        !ok ==> (step is SetGroups <==> failure_of(step, ok) == Some(ChildFail::InitGroups)),
        !ok ==> (step is SetGid <==> failure_of(step, ok) == Some(ChildFail::Setgid)),
        !ok ==> (step is SetUid <==> failure_of(step, ok) == Some(ChildFail::Setuid)),
        !ok ==> (step is CheckIds <==> failure_of(step, ok) == Some(ChildFail::NotDropped)),
        !ok ==> (step is CheckNoReturn <==> failure_of(step, ok) == Some(ChildFail::RootRegainable)),
{
}

/// The groups are those that the lookup wrote, as many as it said and in its order,
/// and the primary one alone where it wrote none.
pub proof fn the_groups_are_those_that_were_written(primary: u32, n: i32, buf: Seq<u32>, i: int)
    ensures
        n <= 0 || buf.len() == 0 ==> groups_in(primary, n, buf).len() == 1 && groups_in(
            primary,
            n,
            buf,
        )[0] == primary,
        0 < n <= buf.len() ==> groups_in(primary, n, buf).len() == n && (0 <= i < n ==> groups_in(
            primary,
            n,
            buf,
        )[i] == buf[i]),
        n > buf.len() && buf.len() > 0 ==> groups_in(primary, n, buf) == buf,
{
}

} // verus!
