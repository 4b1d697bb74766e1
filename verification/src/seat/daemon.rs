//! What the daemon decides: what its arguments ask for, what a greeter and a
//! session are given, and in which order a login is brought to its end.
use vstd::prelude::*;
use crate::border::capability::{Authenticated, Passphrase, SeatCapability};
use crate::border::env::{
    lemma_moved_on, lemma_stood, moved, AcctVerdict, MsgStyle, PamAnswer, PamError, PamEvent, PamStep, SeatEnv,
};
use crate::border::env_set::{in_order, EnvSet};
use crate::border::ids::{PamHandleId, SeatId, Uid, UserName};
use crate::border::session::{Argv, SessionPlan};
use crate::seat::config;
use crate::seat::config::MukaeConfig;
use crate::seat::env::{Console, VtNumber};
use crate::text;

verus! {

/// What `--help` says.
pub const HELP: &'static str = "mukaed — the pleme-io login daemon

  mukaed login --user NAME --cmd PROGRAM [ARG...]

  --user NAME     who to authenticate.
  --vt N          NOT IMPLEMENTED — refused rather than ignored.
  --cmd P [A..]   the session to exec on success. Everything after --cmd is
                  the command, so put it last.

The passphrase is read from stdin. It is never an argument: /proc/<pid>/cmdline
is world-readable.

Exit 0 means a session was opened AND the child exec'd. Anything else means no
session exists — there is no partial success.
";

/// The number under which the greeter finds its socket.
pub const GREETER_FD: i32 = 3;

/// What puts a screen right that a killed face left behind: the main screen,
/// the cursor, plain colours, and nothing on it.
pub const RESTORE: &'static str = "\x1b[?1049l\x1b[?25h\x1b[0m\x1b[2J\x1b[H";

/// Whether help is asked for: by a flag, or by no argument at all.
pub fn wants_help(args: &Vec<String>) -> (r: bool)
    ensures
        r == (args@.len() == 0 || text::texts(args@).contains("-h"@) || text::texts(args@).contains(
            "--help"@,
        )),
{
    let ghost all = text::texts(args@);
    if args.len() == 0 {
        return true;
    }
    let mut i: usize = 0;
    while i < args.len()
        invariant
            i <= args.len(),
            all == text::texts(args@),
            forall|j: int| 0 <= j < i ==> #[trigger] all[j] != "-h"@ && all[j] != "--help"@,
        decreases args.len() - i,
    {
        let a: &str = args[i].as_str();
        assert(a@ == all[i as int]);
        if text::same(a, "-h") || text::same(a, "--help") {
            return true;
        }
        i = i + 1;
    }
    false
}

/// What the arguments and the configuration ask for.
#[derive(Debug)]
pub struct LoginArgs {
    pub user: Option<String>,
    pub vt: Option<VtNumber>,
    pub greeter: Option<String>,
    pub greeter_user: Option<String>,
    pub cmd: Vec<String>,
}

pub struct ArgsView {
    pub user: Option<Seq<char>>,
    pub vt: Option<u32>,
    pub greeter: Option<Seq<char>>,
    pub greeter_user: Option<Seq<char>>,
    pub cmd: Seq<Seq<char>>,
}

pub open spec fn vt_view(vt: Option<VtNumber>) -> Option<u32> {
    match vt {
        Some(n) => Some(n@),
        None => None,
    }
}

impl LoginArgs {
    pub open spec fn view(&self) -> ArgsView {
        ArgsView {
            user: text::opt_text(self.user),
            vt: vt_view(self.vt),
            greeter: text::opt_text(self.greeter),
            greeter_user: text::opt_text(self.greeter_user),
            cmd: text::texts(self.cmd@),
        }
    }
}

/// What the flags from position `i` on make of `acc`, or what is wrong with
/// them. A flag overrides what was there; everything behind `--cmd` is the
/// command.
pub open spec fn flags_from(args: Seq<Seq<char>>, i: int, acc: ArgsView) -> Result<ArgsView, Seq<char>>
    decreases args.len() - i,
{
    if i >= args.len() {
        Ok(acc)
    } else if args[i] == "--user"@ {
        if i + 1 < args.len() {
            flags_from(args, i + 2, ArgsView { user: Some(args[i + 1]), ..acc })
        } else {
            Err("--user needs a name"@)
        }
    } else if args[i] == "--vt"@ {
        if i + 1 < args.len() {
            match text::u32_of(args[i + 1]) {
                None => Err("--vt takes a VT number"@),
                Some(n) => if n == 0 {
                    Err("--vt 0 is not a VT — omit --vt for a seatless session"@)
                } else {
                    flags_from(args, i + 2, ArgsView { vt: Some(n), ..acc })
                },
            }
        } else {
            Err("--vt needs a number"@)
        }
    } else if args[i] == "--greeter"@ {
        if i + 1 < args.len() {
            flags_from(args, i + 2, ArgsView { greeter: Some(args[i + 1]), ..acc })
        } else {
            Err("--greeter needs a program"@)
        }
    } else if args[i] == "--greeter-user"@ {
        if i + 1 < args.len() {
            flags_from(args, i + 2, ArgsView { greeter_user: Some(args[i + 1]), ..acc })
        } else {
            Err("--greeter-user needs a name"@)
        }
    } else if args[i] == "--cmd"@ {
        Ok(ArgsView { cmd: args.skip(i + 1), ..acc })
    } else {
        Err("unknown flag `"@ + args[i] + "`"@)
    }
}

/// What the configuration asks for before any flag.
pub open spec fn configured(cfg: MukaeConfig) -> ArgsView {
    ArgsView {
        user: None,
        vt: cfg.vt,
        greeter: text::opt_text(cfg.greeter),
        greeter_user: text::opt_text(cfg.greeter_user),
        cmd: Seq::empty(),
    }
}

/// What the arguments ask for over a configuration, or what is wrong with them.
pub open spec fn asked_for(args: Seq<Seq<char>>, cfg: MukaeConfig) -> Result<ArgsView, Seq<char>> {
    if args[0] != "login"@ {
        Err("unknown subcommand `"@ + args[0] + "`"@)
    } else if cfg.vt == Some(0u32) {
        Err("config `vt: 0` is not a VT — omit it for a seatless session"@)
    } else {
        flags_from(args, 1, configured(cfg))
    }
}

/// What stands behind position `i`.
fn behind(args: &Vec<String>, i: usize) -> (v: Vec<String>)
    requires
        i < args.len(),
    ensures
        text::texts(v@) == text::texts(args@).skip(i + 1),
{
    let mut v: Vec<String> = Vec::new();
    let mut j: usize = i + 1;
    while j < args.len()
        invariant
            i < j <= args.len(),
            v@ == args@.subrange(i + 1, j as int),
        decreases args.len() - j,
    {
        v.push(args[j].clone());
        assert(v@ =~= args@.subrange(i + 1, j + 1));
        j = j + 1;
    }
    assert(text::texts(v@) =~= text::texts(args@).skip(i + 1));
    v
}

/// Whether the arguments begin with the one thing that the daemon can be asked
/// to do.
pub fn known_subcommand(args: &Vec<String>) -> (r: Result<(), String>)
    requires
        args@.len() > 0,
    ensures
        r is Ok <==> args@[0]@ == "login"@,
        r matches Err(e) ==> e@ == "unknown subcommand `"@ + args@[0]@ + "`"@,
{
    if text::same(args[0].as_str(), "login") {
        Ok(())
    } else {
        let mut e: String = "unknown subcommand `".to_owned();
        e.append(args[0].as_str());
        e.append("`");
        Err(e)
    }
}

/// Reads the arguments over a configuration: the configuration supplies what no
/// flag gives.
pub fn parse_args(args: &Vec<String>, cfg: &MukaeConfig) -> (r: Result<LoginArgs, String>)
    requires
        args@.len() > 0,
    ensures
        match (r, asked_for(text::texts(args@), *cfg)) {
            (Ok(a), Ok(v)) => a@ == v,
            (Err(e), Err(m)) => e@ == m,
            _ => false,
        },
{
    let ghost all = text::texts(args@);
    if let Err(e) = known_subcommand(args) {
        return Err(e);
    }
    let vt: Option<VtNumber> = match cfg.vt {
        Some(n) => {
            if n == 0 {
                return Err(
                    "config `vt: 0` is not a VT — omit it for a seatless session".to_owned(),
                );
            }
            VtNumber::new(n)
        },
        None => None,
    };
    let mut acc = LoginArgs {
        user: None,
        vt,
        greeter: text::copy_opt(&cfg.greeter),
        greeter_user: text::copy_opt(&cfg.greeter_user),
        cmd: Vec::new(),
    };
    assert(text::texts(acc.cmd@) =~= Seq::<Seq<char>>::empty());
    let mut i: usize = 1;
    while i < args.len()
        invariant
            i <= args.len() + 1,
            all == text::texts(args@),
            asked_for(all, *cfg) == flags_from(all, i as int, acc@),
        decreases args.len() + 1 - i,
    {
        let a: &str = args[i].as_str();
        assert(a@ == all[i as int]);
        if text::same(a, "--cmd") {
            proof {
                reveal_strlit("--cmd");
                reveal_strlit("--user");
                reveal_strlit("--vt");
                reveal_strlit("--greeter");
                reveal_strlit("--greeter-user");
                assert("--cmd"@[2] == 'c');
                assert("--user"@[2] == 'u');
                assert("--vt"@[2] == 'v');
                assert("--greeter"@[2] == 'g');
                assert("--greeter-user"@[2] == 'g');
            }
            acc.cmd = behind(args, i);
            return Ok(acc);
        }
        let valued: bool = args.len() - i > 1;
        if text::same(a, "--user") {
            if !valued {
                return Err("--user needs a name".to_owned());
            }
            acc.user = Some(args[i + 1].clone());
        } else if text::same(a, "--vt") {
            if !valued {
                return Err("--vt needs a number".to_owned());
            }
            match text::parse_u32(args[i + 1].as_str()) {
                None => {
                    return Err("--vt takes a VT number".to_owned());
                },
                Some(n) => {
                    acc.vt = VtNumber::new(n);
                    if acc.vt.is_none() {
                        return Err(
                            "--vt 0 is not a VT — omit --vt for a seatless session".to_owned(),
                        );
                    }
                },
            }
        } else if text::same(a, "--greeter") {
            if !valued {
                return Err("--greeter needs a program".to_owned());
            }
            acc.greeter = Some(args[i + 1].clone());
        } else if text::same(a, "--greeter-user") {
            if !valued {
                return Err("--greeter-user needs a name".to_owned());
            }
            acc.greeter_user = Some(args[i + 1].clone());
        } else {
            let mut e: String = "unknown flag `".to_owned();
            e.append(a);
            e.append("`");
            return Err(e);
        }
        assert(args@[i + 1]@ == all[i + 1]);
        i = i + 2;
    }
    Ok(acc)
}

/// The ways a login can run.
#[derive(Debug)]
pub enum LoginPath {
    /// A supervised greeter asks.
    Greeter { program: String, greeter_user: String, argv: Argv },
    /// The daemon itself asks, for this user.
    Direct { user: UserName, argv: Argv },
}

/// Chooses the way a login runs: with a greeter where one is named, else for
/// the user that is named. Either needs a command.
pub fn choose_path(args: LoginArgs) -> (r: Result<LoginPath, String>)
    ensures
        match args.greeter {
            Some(g) => match args.greeter_user {
                None => r matches Err(e) && e@ == "--greeter requires --greeter-user"@,
                Some(u) => if args.cmd@.len() == 0 {
                    r matches Err(e) && e@
                        == "--cmd is required: there is nothing to start on success"@
                } else {
                    r matches Ok(LoginPath::Greeter { program, greeter_user, argv }) && program == g
                        && greeter_user == u && argv@ == args.cmd@
                },
            },
            None => match args.user {
                None => r matches Err(e) && e@ == "--user is required (or use --greeter)"@,
                Some(u) => if !crate::border::ids::is_user_name(u@) {
                    r matches Err(e) && e@ == "bad username: malformed user name: "@
                        + text::quoted_text(u@)
                } else if args.cmd@.len() == 0 {
                    r matches Err(e) && e@ == "--cmd is required and must name a program"@
                } else {
                    r matches Ok(LoginPath::Direct { user, argv }) && user@ == u@ && argv@ == args.cmd@
                },
            },
        },
{
    match args.greeter {
        Some(program) => match args.greeter_user {
            None => Err("--greeter requires --greeter-user".to_owned()),
            Some(greeter_user) => match Argv::new(args.cmd) {
                Err(_) => Err("--cmd is required: there is nothing to start on success".to_owned()),
                Ok(argv) => Ok(LoginPath::Greeter { program, greeter_user, argv }),
            },
        },
        None => match args.user {
            None => Err("--user is required (or use --greeter)".to_owned()),
            Some(u) => match UserName::parse(u.as_str()) {
                Err(e) => {
                    let mut m: String = "bad username: ".to_owned();
                    let why: String = e.message();
                    m.append(why.as_str());
                    proof {
                        reveal_strlit("bad username: malformed user name: ");
                        reveal_strlit("bad username: ");
                        reveal_strlit("malformed ");
                        reveal_strlit("user name");
                        reveal_strlit(": ");
                        assert("bad username: malformed user name: "@ =~= "bad username: "@ + (
                        "malformed "@ + "user name"@ + ": "@));
                        assert(m@ =~= "bad username: malformed user name: "@ + text::quoted_text(u@));
                    }
                    Err(m)
                },
                Ok(user) => match Argv::new(args.cmd) {
                    Err(_) => Err("--cmd is required and must name a program".to_owned()),
                    Ok(argv) => Ok(LoginPath::Direct { user, argv }),
                },
            },
        },
    }
}

/// The account that a greeter runs as, by what the lookup of its name came to:
/// there must be one, and it must not be root.
pub fn greeter_account(name: &str, uid: Option<u32>) -> (r: Result<Uid, String>)
    ensures
        match uid {
            None => r matches Err(e) && e@ == "no passwd entry for the greeter user `"@ + name@ + "`"@,
            Some(0) => r matches Err(e) && e@
                == "the greeter user must not be root — that is the whole point of the split"@,
            Some(n) => r == Ok::<Uid, String>(Uid(n)),
        },
{
    match uid {
        None => {
            let mut e: String = "no passwd entry for the greeter user `".to_owned();
            e.append(name);
            e.append("`");
            Err(e)
        },
        Some(n) => if n == 0 {
            Err("the greeter user must not be root — that is the whole point of the split".to_owned())
        } else {
            Ok(Uid(n))
        },
    }
}

/// The environment that a greeter starts with.
pub open spec fn greeter_vars() -> Map<Seq<char>, Seq<char>> {
    Map::<Seq<char>, Seq<char>>::empty().insert("MUKAE_SOCK_FD"@, "3"@).insert(
        "PATH"@,
        "/run/current-system/sw/bin:/usr/bin:/bin"@,
    ).insert("TERM"@, "linux"@)
}

/// The environment that a greeter starts with.
pub fn greeter_env() -> (e: EnvSet)
    ensures
        e@ == greeter_vars(),
{
    let mut e: EnvSet = EnvSet::new();
    e.insert("MUKAE_SOCK_FD".to_owned(), "3".to_owned());
    e.insert("PATH".to_owned(), "/run/current-system/sw/bin:/usr/bin:/bin".to_owned());
    e.insert("TERM".to_owned(), "linux".to_owned());
    e
}

/// What a greeter is started as: the program, told that a daemon is behind it.
/// Its environment is handed over apart.
pub fn greeter_plan(program: &str) -> (p: SessionPlan)
    ensures
        text::texts(p.argv@) == seq![program@, "--mukaed"@],
        p.env@ == Map::<Seq<char>, Seq<char>>::empty(),
{
    let mut parts: Vec<String> = Vec::new();
    parts.push(program.to_owned());
    parts.push("--mukaed".to_owned());
    assert(text::texts(parts@) =~= seq![program@, "--mukaed"@]);
    let argv: Argv = match Argv::new(parts) {
        Ok(a) => a,
        Err(_) => {
            assert(false);
            vstd::pervasive::unreached()
        },
    };
    SessionPlan { argv, env: EnvSet::new() }
}

/// The descriptors that a greeter keeps: its socket, and the console, where
/// there is one, as its three standard ones.
pub open spec fn kept_fds(sock: i32, tty: Option<i32>) -> Seq<(i32, i32)> {
    match tty {
        None => seq![(sock, GREETER_FD)],
        Some(t) => seq![(sock, GREETER_FD), (t, 0i32), (t, 1i32), (t, 2i32)],
    }
}

/// The descriptors that a greeter keeps.
pub fn greeter_fds(sock: i32, tty: Option<i32>) -> (v: Vec<(i32, i32)>)
    ensures
        v@ == kept_fds(sock, tty),
{
    let mut v: Vec<(i32, i32)> = Vec::new();
    v.push((sock, GREETER_FD));
    if let Some(t) = tty {
        v.push((t, 0));
        v.push((t, 1));
        v.push((t, 2));
    }
    assert(v@ =~= kept_fds(sock, tty));
    v
}

/// What the daemon contributes to a session's environment. Where there is no
/// data directory to name, their variable is left out rather than empty: only
/// where it is absent do programs fall back to what they are used to.
pub open spec fn session_vars(
    path: Seq<Seq<char>>,
    data_dirs: Seq<Seq<char>>,
    user: Option<Seq<char>>,
    home: Option<Seq<char>>,
) -> Map<Seq<char>, Seq<char>> {
    let vars = Map::<Seq<char>, Seq<char>>::empty().insert(
        "PATH"@,
        config::path_for(path, user),
    ).insert("XDG_SESSION_CLASS"@, "user"@);
    let dirs = config::data_dirs_for(data_dirs, user, home);
    if dirs.len() == 0 {
        vars
    } else {
        vars.insert("XDG_DATA_DIRS"@, dirs)
    }
}

/// What the daemon contributes to the environment of a session; `user` and
/// `home` are the account's name and its home where it has them.
pub fn session_env_for(user: Option<&str>, home: Option<&str>, cfg: &MukaeConfig) -> (e: EnvSet)
    ensures
        e@ == session_vars(
            text::texts(cfg.session_path@),
            text::texts(cfg.session_data_dirs@),
            config::opt_str(user),
            config::opt_str(home),
        ),
        in_order(e.entries()),
{
    let mut e: EnvSet = EnvSet::new();
    e.insert("PATH".to_owned(), cfg.session_path_for(user));
    e.insert("XDG_SESSION_CLASS".to_owned(), "user".to_owned());
    let dirs: String = cfg.session_data_dirs_for(user, home);
    if !dirs.as_str().is_empty() {
        e.insert("XDG_DATA_DIRS".to_owned(), dirs);
    }
    e
}

/// A session finds its data directories where there are any, and is never given
/// an empty list of them; the rest of what the daemon contributes does not
/// depend on them.
pub proof fn data_directories_are_set_or_absent(
    path: Seq<Seq<char>>,
    data_dirs: Seq<Seq<char>>,
    user: Option<Seq<char>>,
    home: Option<Seq<char>>,
)
    ensures
        ({
            let vars = session_vars(path, data_dirs, user, home);
            let dirs = config::data_dirs_for(data_dirs, user, home);
            &&& vars.dom().contains("XDG_DATA_DIRS"@) <==> dirs.len() > 0
            &&& vars.dom().contains("XDG_DATA_DIRS"@) ==> vars["XDG_DATA_DIRS"@] == dirs
            &&& vars.dom().contains("PATH"@)
            &&& vars["PATH"@] == config::path_for(path, user)
            &&& vars.dom().contains("XDG_SESSION_CLASS"@)
            &&& vars["XDG_SESSION_CLASS"@] == "user"@
        }),
{
    reveal_strlit("PATH");
    reveal_strlit("XDG_SESSION_CLASS");
    reveal_strlit("XDG_DATA_DIRS");
    assert("PATH"@.len() == 4);
    assert("XDG_SESSION_CLASS"@.len() == 17);
    assert("XDG_DATA_DIRS"@.len() == 13);
}

/// Where a session on this terminal is attached: on `seat0` with it, or nowhere.
pub fn console_for(vt: Option<VtNumber>) -> (c: Console)
    ensures
        match vt {
            Some(n) => c matches Console::Vt { seat, vtnr } && seat@ == "seat0"@ && vtnr == n,
            None => c is Seatless,
        },
{
    match vt {
        Some(vtnr) => Console::Vt { seat: "seat0".to_owned(), vtnr },
        None => Console::Seatless,
    }
}

/// Whether the process may do what a login needs: only root may.
pub fn privileged(euid: u32) -> (r: Result<(), String>)
    ensures
        r is Ok <==> euid == 0,
        r matches Err(e) ==> e@
            == "must run as root — it opens a logind session and drops privilege to the user"@,
{
    if euid == 0 {
        Ok(())
    } else {
        Err(
            "must run as root — it opens a logind session and drops privilege to the user".to_owned(),
        )
    }
}

/// A line without the line end that it was read with.
pub open spec fn without_line_end(s: Seq<char>) -> Seq<char>
    decreases s.len(),
{
    if s.len() > 0 && (s.last() == '\n' || s.last() == '\r') {
        without_line_end(s.drop_last())
    } else {
        s
    }
}

fn chomp(s: &str) -> (r: String)
    ensures
        r@ == without_line_end(s@),
{
    let v: Vec<char> = text::chars_of(s);
    let mut n: usize = v.len();
    assert(v@.take(n as int) =~= s@);
    while n > 0 && (v[n - 1] == '\n' || v[n - 1] == '\r')
        invariant
            n <= v.len(),
            v@ == s@,
            without_line_end(s@) == without_line_end(v@.take(n as int)),
        decreases n,
    {
        assert(v@.take(n as int).last() == v@[n - 1]);
        assert(v@.take(n as int).drop_last() =~= v@.take(n - 1));
        n = n - 1;
    }
    proof {
        let t = v@.take(n as int);
        if t.len() > 0 {
            assert(t.last() == v@[n - 1]);
        }
        assert(v@.subrange(0, n as int) =~= t);
    }
    text::string_of(&v, 0, n)
}

/// A line loses its line end and nothing else: what is left ends in neither a
/// line feed nor a carriage return, it is how the line begins, and only such
/// characters follow it. A line without one is left as it is.
pub proof fn a_line_loses_its_end_and_nothing_else(s: Seq<char>, i: int)
    ensures
        ({
            let w = without_line_end(s);
            &&& w.len() <= s.len()
            &&& w == s.take(w.len() as int)
            &&& w.len() > 0 ==> w.last() != '\n' && w.last() != '\r'
            &&& w.len() <= i < s.len() ==> s[i] == '\n' || s[i] == '\r'
        }),
    decreases s.len(),
{
    if s.len() > 0 && (s.last() == '\n' || s.last() == '\r') {
        a_line_loses_its_end_and_nothing_else(s.drop_last(), i);
        let w = without_line_end(s);
        assert(s.take(w.len() as int) =~= s.drop_last().take(w.len() as int));
    } else {
        assert(s.take(s.len() as int) =~= s);
    }
}

/// The answer that a line gives to a prompt of this style: secret where the
/// prompt was.
pub fn answer_line(style: MsgStyle, line: &str) -> (a: PamAnswer)
    ensures
        crate::seat::ipc::is_answer(style, without_line_end(line@), a),
        a is Secret <==> style == MsgStyle::PromptEchoOff,
        a matches PamAnswer::Secret(p) ==> p@ == without_line_end(line@),
        a matches PamAnswer::Visible(v) ==> v@ == without_line_end(line@),
{
    let line: String = chomp(line);
    if matches!(style, MsgStyle::PromptEchoOff) {
        PamAnswer::Secret(Passphrase::new(line))
    } else {
        PamAnswer::Visible(line)
    }
}

/// What a login that the daemon itself conducts does next.
#[derive(Debug)]
pub enum DirectMove {
    /// Say this, read a line, and answer with it.
    Ask { style: MsgStyle, words: String },
    /// Say this.
    Say(String),
    /// The conversation is complete.
    Done,
    /// The login is refused; say this to the journal.
    Denied(String),
}

/// Whether `m` is what a step leads to.
pub open spec fn is_direct_move(step: PamStep, m: DirectMove) -> bool {
    match step {
        PamStep::Prompt { style, msg } => m matches DirectMove::Ask { style: s, words } && s == style
            && words@ == msg.0@ + (if style == MsgStyle::PromptEchoOff {
            ": (reading from stdin)"@
        } else {
            ":"@
        }),
        PamStep::Info { msg, .. } => m matches DirectMove::Say(w) && w@ == msg.0@,
        PamStep::Complete => m is Done,
        PamStep::Failed { class } => m matches DirectMove::Denied(w) && w@
            == "login incorrect (class: "@ + class.name_text() + ")"@,
    }
}

/// One step of a login that the daemon itself conducts. A refused transaction
/// is ended.
pub fn direct_step<E: SeatEnv>(env: &mut E, h: PamHandleId) -> (r: Result<DirectMove, String>)
    ensures
        moved(*old(env), *final(env)),
        exists|n: Result<PamStep, PamError>|
            {
                let t = #[trigger] old(env).trace().push(PamEvent::Next { h, r: n });
                match n {
                    Err(e) => final(env).trace() == t && (r matches Err(m) && m@ == e.message_text()),
                    Ok(step) => (r matches Ok(m) && is_direct_move(step, m)) && if step is Failed {
                        exists|x: Result<(), PamError>|
                            final(env).trace() == #[trigger] t.push(PamEvent::End { h, r: x })
                    } else {
                        final(env).trace() == t
                    },
                }
            },
{
    let ghost begun = *env;
    let ghost t0 = env.trace();
    proof {
        lemma_stood(begun);
    }
    let next: Result<PamStep, PamError> = env.pam_next(h);
    let ghost t = t0.push(PamEvent::Next { h, r: next });
    proof {
        lemma_moved_on(begun, begun, t.last(), *env);
    }
    let ghost mid = *env;
    match next {
        Err(e) => Err(e.message()),
        Ok(PamStep::Prompt { style, msg }) => {
            let mut words: String = msg.0;
            if matches!(style, MsgStyle::PromptEchoOff) {
                words.append(": (reading from stdin)");
            } else {
                words.append(":");
            }
            Ok(DirectMove::Ask { style, words })
        },
        Ok(PamStep::Info { msg, .. }) => Ok(DirectMove::Say(msg.0)),
        Ok(PamStep::Complete) => Ok(DirectMove::Done),
        Ok(PamStep::Failed { class }) => {
            let mut w: String = "login incorrect (class: ".to_owned();
            w.append(class.name());
            w.append(")");
            let x: Result<(), PamError> = env.pam_end(h);
            proof {
                lemma_moved_on(begun, mid, PamEvent::End { h, r: x }, *env);
            }
            Ok(DirectMove::Denied(w))
        },
    }
}

/// Asks for the account after its holder has authenticated. `Some` is the
/// refusal of an account that may not be used, whose transaction is ended.
pub fn let_in<E: SeatEnv>(env: &mut E, h: PamHandleId) -> (r: Result<Option<String>, String>)
    ensures
        moved(*old(env), *final(env)),
        exists|v: Result<AcctVerdict, PamError>|
            {
                let t = #[trigger] old(env).trace().push(PamEvent::AcctMgmt { h, r: v });
                match v {
                    Err(e) => final(env).trace() == t && (r matches Err(m) && m@ == e.message_text()),
                    Ok(AcctVerdict::Okay) => final(env).trace() == t && (r matches Ok(None)),
                    Ok(other) => (r matches Ok(Some(m)) && m@
                        == "the account is not permitted to log in: "@ + other.name_text()) && exists|
                        x: Result<(), PamError>,
                    |
                        final(env).trace() == #[trigger] t.push(PamEvent::End { h, r: x }),
                }
            },
{
    let ghost begun = *env;
    let ghost t0 = env.trace();
    proof {
        lemma_stood(begun);
    }
    let v: Result<AcctVerdict, PamError> = env.pam_acct_mgmt(h);
    let ghost t = t0.push(PamEvent::AcctMgmt { h, r: v });
    proof {
        lemma_moved_on(begun, begun, t.last(), *env);
    }
    let ghost mid = *env;
    match v {
        Err(e) => Err(e.message()),
        Ok(AcctVerdict::Okay) => Ok(None),
        Ok(other) => {
            let mut m: String = "the account is not permitted to log in: ".to_owned();
            m.append(other.name());
            let x: Result<(), PamError> = env.pam_end(h);
            proof {
                lemma_moved_on(begun, mid, PamEvent::End { h, r: x }, *env);
            }
            Ok(Some(m))
        },
    }
}

/// Exchanges a completed transaction for the right to start one session on
/// `seat0`. Where no proof is given, `about` comes before the reason.
pub fn authorise<E: SeatEnv>(env: &mut E, h: PamHandleId, about: &str) -> (r: Result<
    SeatCapability<Authenticated>,
    String,
>)
    ensures
        moved(*old(env), *final(env)),
        exists|u: Result<Uid, PamError>|
            {
                &&& #[trigger] old(env).uid_answer(h, u)
                &&& match u {
                    Err(e) => final(env).trace() == old(env).trace() && (r matches Err(m) && m@
                        == e.message_text()),
                    Ok(uid) => exists|p: Result<crate::border::capability::AuthProof, PamError>|
                        {
                            &&& final(env).trace() == #[trigger] old(env).trace().push(
                                PamEvent::MintProof { h, uid, r: p },
                            )
                            &&& match p {
                                Ok(proof_) => r matches Ok(c) && c.who() == proof_.who() && c.on_seat()
                                    == "seat0"@ && c.handle() == h,
                                Err(e) => r matches Err(m) && m@ == about@ + e.message_text(),
                            }
                        },
                }
            },
{
    let ghost begun = *env;
    let ghost t0 = env.trace();
    proof {
        lemma_stood(begun);
    }
    let u: Result<Uid, PamError> = env.uid_for_handle(h);
    assert(old(env).uid_answer(h, u));
    let uid: Uid = match u {
        Err(e) => {
            return Err(e.message());
        },
        Ok(uid) => uid,
    };
    let p = env.mint_proof(h, uid);
    proof {
        lemma_moved_on(begun, begun, PamEvent::MintProof { h, uid, r: p }, *env);
    }
    match p {
        Err(e) => {
            let mut m: String = about.to_owned();
            m.append(e.message().as_str());
            Err(m)
        },
        Ok(p) => match SeatId::parse("seat0") {
            Ok(seat) => Ok(SeatCapability::mint(p, seat, h)),
            Err(_) => {
                assert(false);
                vstd::pervasive::unreached()
            },
        },
    }
}

/// Closes a session that has ended, and its transaction.
pub fn finish<E: SeatEnv>(env: &mut E, h: PamHandleId) -> (r: Result<(), String>)
    ensures
        moved(*old(env), *final(env)),
        exists|c: Result<(), PamError>|
            {
                let t = #[trigger] old(env).trace().push(PamEvent::CloseSession { h, r: c });
                match c {
                    Err(e) => final(env).trace() == t && (r matches Err(m) && m@ == e.message_text()),
                    Ok(_) => exists|x: Result<(), PamError>|
                        final(env).trace() == #[trigger] t.push(PamEvent::End { h, r: x }) && match x {
                            Ok(_) => r is Ok,
                            Err(e) => r matches Err(m) && m@ == e.message_text(),
                        },
                }
            },
{
    let ghost begun = *env;
    let ghost t0 = env.trace();
    proof {
        lemma_stood(begun);
    }
    let c: Result<(), PamError> = env.pam_close_session(h);
    let ghost t = t0.push(PamEvent::CloseSession { h, r: c });
    proof {
        lemma_moved_on(begun, begun, t.last(), *env);
    }
    let ghost mid = *env;
    match c {
        Err(e) => Err(e.message()),
        Ok(_) => {
            let x: Result<(), PamError> = env.pam_end(h);
            proof {
                lemma_moved_on(begun, mid, PamEvent::End { h, r: x }, *env);
            }
            match x {
                Ok(_) => Ok(()),
                Err(e) => Err(e.message()),
            }
        },
    }
}

/// The names of an environment's variables, in order.
pub open spec fn names_of(entries: Seq<(String, String)>) -> Seq<Seq<char>> {
    entries.map_values(|e: (String, String)| e.0@)
}

/// What the journal is told of a session's environment: how many variables
/// there are, and their names. No value is.
pub fn session_summary(env: &EnvSet) -> (s: String)
    ensures
        s@ == "session environment ("@ + text::decimal(env.entries().len()) + " vars): "@
            + text::join_with(names_of(env.entries()), " "@),
{
    let mut names: Vec<String> = Vec::new();
    let n: usize = env.len();
    let ghost all = names_of(env.entries());
    let mut i: usize = 0;
    assert(text::texts(names@) =~= all.take(0));
    while i < n
        invariant
            i <= n,
            n == env.entries().len(),
            all == names_of(env.entries()),
            text::texts(names@) == all.take(i as int),
        decreases n - i,
    {
        let ghost before = names@;
        let e: &(String, String) = env.entry(i);
        names.push(e.0.clone());
        assert(text::texts(names@) =~= text::texts(before).push(all[i as int]));
        assert(all.take(i + 1) =~= all.take(i as int).push(all[i as int]));
        i = i + 1;
    }
    assert(all.take(n as int) =~= all);
    let mut s: String = "session environment (".to_owned();
    s.append(text::decimal_of(n as u64).as_str());
    s.append(" vars): ");
    s.append(text::join(&names, " ").as_str());
    s
}

/// Whether a session lacks a home, without which its programs find no
/// configuration.
pub fn lacks_home(env: &EnvSet) -> (r: bool)
    ensures
        r == !env@.dom().contains("HOME"@),
{
    env.get("HOME").is_none()
}

/// A flag overrides the configuration, and the configuration supplies what no
/// flag gives: over any two configurations the same flags are right or wrong in
/// the same way, and each value is the same for both, which a flag gave, or
/// each configuration's own.
pub proof fn a_flag_overrides_the_configuration(
    args: Seq<Seq<char>>,
    i: int,
    a: ArgsView,
    b: ArgsView,
)
    ensures
        match (flags_from(args, i, a), flags_from(args, i, b)) {
            (Ok(x), Ok(y)) => {
                &&& x.user == y.user || x.user == a.user && y.user == b.user
                &&& x.vt == y.vt || x.vt == a.vt && y.vt == b.vt
                &&& x.greeter == y.greeter || x.greeter == a.greeter && y.greeter == b.greeter
                &&& x.greeter_user == y.greeter_user || x.greeter_user == a.greeter_user
                    && y.greeter_user == b.greeter_user
                &&& x.cmd == y.cmd || x.cmd == a.cmd && y.cmd == b.cmd
            },
            (Err(e), Err(f)) => e == f,
            _ => false,
        },
    decreases args.len() - i,
{
    if i < args.len() && i + 1 < args.len() {
        let v = args[i + 1];
        if args[i] == "--user"@ {
            a_flag_overrides_the_configuration(
                args,
                i + 2,
                ArgsView { user: Some(v), ..a },
                ArgsView { user: Some(v), ..b },
            );
        } else if args[i] == "--vt"@ {
            let vt = text::u32_of(v);
            a_flag_overrides_the_configuration(
                args,
                i + 2,
                ArgsView { vt, ..a },
                ArgsView { vt, ..b },
            );
        } else if args[i] == "--greeter"@ {
            a_flag_overrides_the_configuration(
                args,
                i + 2,
                ArgsView { greeter: Some(v), ..a },
                ArgsView { greeter: Some(v), ..b },
            );
        } else if args[i] == "--greeter-user"@ {
            a_flag_overrides_the_configuration(
                args,
                i + 2,
                ArgsView { greeter_user: Some(v), ..a },
                ArgsView { greeter_user: Some(v), ..b },
            );
        }
    }
}

/// A terminal that is taken from the arguments is never zero.
pub proof fn no_terminal_is_zero(args: Seq<Seq<char>>, i: int, acc: ArgsView)
    requires
        acc.vt != Some(0u32),
        flags_from(args, i, acc) is Ok,
    ensures
        flags_from(args, i, acc)->Ok_0.vt != Some(0u32),
    decreases args.len() - i,
{
    if i < args.len() {
        if args[i] == "--user"@ {
            no_terminal_is_zero(args, i + 2, ArgsView { user: Some(args[i + 1]), ..acc });
        } else if args[i] == "--vt"@ {
            no_terminal_is_zero(args, i + 2, ArgsView { vt: text::u32_of(args[i + 1]), ..acc });
        } else if args[i] == "--greeter"@ {
            no_terminal_is_zero(args, i + 2, ArgsView { greeter: Some(args[i + 1]), ..acc });
        } else if args[i] == "--greeter-user"@ {
            no_terminal_is_zero(args, i + 2, ArgsView { greeter_user: Some(args[i + 1]), ..acc });
        }
    }
}

proof fn lemma_flags_differ()
    ensures
        "--user"@ != "--vt"@,
        "--user"@ != "--greeter"@,
        "--user"@ != "--greeter-user"@,
        "--user"@ != "--cmd"@,
        "--vt"@ != "--greeter"@,
        "--vt"@ != "--greeter-user"@,
        "--vt"@ != "--cmd"@,
        "--greeter"@ != "--greeter-user"@,
        "--greeter"@ != "--cmd"@,
        "--greeter-user"@ != "--cmd"@,
{
    reveal_strlit("--user");
    reveal_strlit("--vt");
    reveal_strlit("--greeter");
    reveal_strlit("--greeter-user");
    reveal_strlit("--cmd");
    assert("--user"@.len() == 6);
    assert("--vt"@.len() == 4);
    assert("--greeter"@.len() == 9);
    assert("--greeter-user"@.len() == 14);
    assert("--cmd"@.len() == 5);
}

/// Each flag says its own thing and no other: behind any flags, one more sets what
/// it names to its value and leaves the rest, the command is all that stands behind
/// its flag, and a number that is written is the number of the terminal.
pub proof fn each_flag_sets_its_own(
    args: Seq<Seq<char>>,
    i: int,
    acc: ArgsView,
    n: u32,
)
    requires
        0 <= i < args.len(),
    ensures
        args[i] == "--cmd"@ ==> flags_from(args, i, acc) == Ok::<ArgsView, Seq<char>>(
            ArgsView { cmd: args.skip(i + 1), ..acc },
        ),
        i + 1 < args.len() && args[i] == "--user"@ ==> flags_from(args, i, acc) == flags_from(
            args,
            i + 2,
            ArgsView { user: Some(args[i + 1]), ..acc },
        ),
        i + 1 < args.len() && args[i] == "--greeter"@ ==> flags_from(args, i, acc) == flags_from(
            args,
            i + 2,
            ArgsView { greeter: Some(args[i + 1]), ..acc },
        ),
        i + 1 < args.len() && args[i] == "--greeter-user"@ ==> flags_from(args, i, acc) == flags_from(
            args,
            i + 2,
            ArgsView { greeter_user: Some(args[i + 1]), ..acc },
        ),
        i + 1 < args.len() && args[i] == "--vt"@ && args[i + 1] == text::signed(n as int) && n > 0
            ==> flags_from(args, i, acc) == flags_from(args, i + 2, ArgsView { vt: Some(n), ..acc }),
        i + 1 < args.len() && args[i] == "--vt"@ && args[i + 1] == text::signed(0) ==> flags_from(
            args,
            i,
            acc,
        ) is Err,
        i + 1 == args.len() && args[i] != "--cmd"@ ==> flags_from(args, i, acc) is Err,
        flags_from(args, args.len() as int, acc) == Ok::<ArgsView, Seq<char>>(acc),
{
    lemma_flags_differ();
    text::a_written_number_reads_back(n as int);
    text::a_written_number_reads_back(0);
}

/// A login that is asked for in full is what the flags say, whatever the
/// configuration says, and one that is asked for without a flag is what the
/// configuration says.
pub proof fn a_login_is_what_the_flags_say(
    user: Seq<char>,
    n: u32,
    greeter: Seq<char>,
    greeter_user: Seq<char>,
    cmd: Seq<Seq<char>>,
    cfg: MukaeConfig,
)
    requires
        n > 0,
        cfg.vt != Some(0u32),
    ensures
        asked_for(
            seq![
                "login"@,
                "--user"@,
                user,
                "--vt"@,
                text::signed(n as int),
                "--greeter"@,
                greeter,
                "--greeter-user"@,
                greeter_user,
                "--cmd"@,
            ] + cmd,
            cfg,
        ) == Ok::<ArgsView, Seq<char>>(
            ArgsView {
                user: Some(user),
                vt: Some(n),
                greeter: Some(greeter),
                greeter_user: Some(greeter_user),
                cmd,
            },
        ),
        asked_for(seq!["login"@], cfg) matches Ok(a) && a.user is None && a.vt == cfg.vt && a.cmd.len()
            == 0 && a.greeter == text::opt_text(cfg.greeter) && a.greeter_user == text::opt_text(
            cfg.greeter_user,
        ),
{
    let args = seq![
        "login"@,
        "--user"@,
        user,
        "--vt"@,
        text::signed(n as int),
        "--greeter"@,
        greeter,
        "--greeter-user"@,
        greeter_user,
        "--cmd"@,
    ] + cmd;
    let a0 = configured(cfg);
    let a1 = ArgsView { user: Some(user), ..a0 };
    let a2 = ArgsView { vt: Some(n), ..a1 };
    let a3 = ArgsView { greeter: Some(greeter), ..a2 };
    let a4 = ArgsView { greeter_user: Some(greeter_user), ..a3 };
    each_flag_sets_its_own(args, 1, a0, n);
    each_flag_sets_its_own(args, 3, a1, n);
    each_flag_sets_its_own(args, 5, a2, n);
    each_flag_sets_its_own(args, 7, a3, n);
    each_flag_sets_its_own(args, 9, a4, n);
    assert(args.skip(10) =~= cmd);
}

/// A greeter finds its socket under the number that it is told, on its console and
/// with nothing else: the socket and the three standard descriptors are all that it
/// keeps, and three variables are all that it is given.
pub proof fn a_greeter_is_given_its_socket_and_its_console(sock: i32, tty: i32, name: Seq<char>)
    ensures
        kept_fds(sock, None) == seq![(sock, 3i32)],
        kept_fds(sock, Some(tty)) == seq![(sock, 3i32), (tty, 0i32), (tty, 1i32), (tty, 2i32)],
        greeter_vars().dom().contains(name) <==> name == "MUKAE_SOCK_FD"@ || name == "PATH"@ || name
            == "TERM"@,
        greeter_vars()["MUKAE_SOCK_FD"@] == text::signed(3),
        greeter_vars()["PATH"@] == "/run/current-system/sw/bin:/usr/bin:/bin"@,
        greeter_vars()["TERM"@] == "linux"@,
{
    reveal_strlit("MUKAE_SOCK_FD");
    reveal_strlit("PATH");
    reveal_strlit("TERM");
    reveal_strlit("3");
    assert("MUKAE_SOCK_FD"@.len() == 13);
    assert("PATH"@[0] == 'P');
    assert("TERM"@[0] == 'T');
    assert("3"@ =~= text::decimal(3));
}

/// What a login without a greeter does with a step: a prompt is said in PAM's words
/// and answered in its style, a message is said as it is, and the end is the end.
pub proof fn a_direct_login_does_as_the_step_says(step: PamStep, m: DirectMove)
    requires
        is_direct_move(step, m),
    ensures
        step matches PamStep::Prompt { style, msg } ==> (m matches DirectMove::Ask { style: s, words }
            && s == style && text::begins(words@, msg.0@) && words@.len() > msg.0@.len()),
        step matches PamStep::Info { msg, .. } ==> (m matches DirectMove::Say(w) && w@ == msg.0@),
        step is Complete <==> m is Done,
        step is Failed <==> m is Denied,
{
    if let PamStep::Prompt { style, msg } = step {
        reveal_strlit(": (reading from stdin)");
        reveal_strlit(":");
        let tail = if style == MsgStyle::PromptEchoOff {
            ": (reading from stdin)"@
        } else {
            ":"@
        };
        assert((msg.0@ + tail).take(msg.0@.len() as int) =~= msg.0@);
    }
}

/// The daemon contributes three variables to a session and no other.
pub proof fn the_daemon_contributes_no_other_variable(
    path: Seq<Seq<char>>,
    data_dirs: Seq<Seq<char>>,
    user: Option<Seq<char>>,
    home: Option<Seq<char>>,
    key: Seq<char>,
)
    requires
        session_vars(path, data_dirs, user, home).contains_key(key),
    ensures
        key == "PATH"@ || key == "XDG_SESSION_CLASS"@ || key == "XDG_DATA_DIRS"@,
{
}

} // verus!
