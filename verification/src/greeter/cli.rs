//! What the greeter's arguments ask for.
use vstd::prelude::*;
use crate::text;

verus! {

/// What `--help` says.
pub const HELP: &'static str = "mukae (迎え) — the pleme-io login face

  mukae [--greetd | --authenticate] [--service NAME] [--user NAME]
        [--cmd PROGRAM [ARG...]]

  --greetd         Run as greetd's greeter. THE MODE THAT LOGS SOMEONE IN:
                   greetd owns the PAM stack, the VT, the privilege drop and
                   the exec; mukae owns the face, the theme and the
                   introspection. Requires $GREETD_SOCK.
  --cmd P [ARG..]  What to start on success, in --greetd mode. Everything
                   after --cmd is the command; put it last.

  --authenticate   Run a real PAM conversation to a verdict, mukae's own way.
                   ★ NOT IN THE DEFAULT BUILD. libpam is the one thing that
                     would put a .so in this binary, and it is a GUEST — a C
                     library with an ABI, not a wire — so it is off unless
                     built with `--features pam`.
                   ★ Authenticates ONLY. Opens no session, execs nothing,
                     claims no VT. Exit 0 means the person proved who they
                     are, NOT that they are logged in.
  --service NAME   PAM service to authenticate against (default: `login`).
  --user NAME      Prefill the username field.

With no flags this draws the face and exits on Esc, which is what makes the
UI testable on a machine that has no PAM at all.";

/// What is said where `--greetd` comes without a command.
pub const NO_COMMAND: &'static str =
    "--greetd needs --cmd PROGRAM [ARG...] — what to start once\nmukae: the person is authenticated. Without it a successful login\nmukae: would land on nothing, which looks exactly like a failure.";

/// What is said where `--authenticate` is not built in.
pub const NO_LIBPAM: &'static str =
    "--authenticate is not in this build.\nmukae: libpam is a C library, not a wire, so it is off by default —\nmukae: this binary links no .so beyond libc. Rebuild with\nmukae: `--features pam` if you want it, or use --greetd, which is\nmukae: what a seat actually runs.";

/// The position of the first argument that is `flag`.
pub open spec fn position_of(args: Seq<Seq<char>>, flag: Seq<char>) -> Option<int>
    decreases args.len(),
{
    if args.len() == 0 {
        None
    } else {
        match position_of(args.drop_last(), flag) {
            Some(i) => Some(i),
            None => if args.last() == flag {
                Some(args.len() - 1)
            } else {
                None
            },
        }
    }
}

/// A position is within the arguments.
proof fn lemma_position(args: Seq<Seq<char>>, flag: Seq<char>)
    ensures
        position_of(args, flag) matches Some(i) ==> 0 <= i < args.len() && args[i] == flag,
        position_of(args, flag) is None <==> !args.contains(flag),
    decreases args.len(),
{
    if args.len() > 0 {
        lemma_position(args.drop_last(), flag);
        if position_of(args.drop_last(), flag) is Some {
            let i = position_of(args.drop_last(), flag)->0;
            assert(args.drop_last()[i] == args[i]);
        } else if args.last() == flag {
            assert(args[args.len() - 1] == flag);
        } else {
            assert forall|i: int| 0 <= i < args.len() implies args[i] != flag by {
                if i < args.len() - 1 {
                    assert(args.drop_last()[i] == args[i]);
                    assert(!args.drop_last().contains(flag));
                }
            }
        }
    }
}

fn find(args: &Vec<String>, flag: &str) -> (r: Option<usize>)
    ensures
        match r {
            Some(i) => position_of(text::texts(args@), flag@) == Some(i as int) && i < args@.len(),
            None => position_of(text::texts(args@), flag@) is None,
        },
{
    let ghost all = text::texts(args@);
    let mut i: usize = 0;
    assert(all.take(0) =~= Seq::<Seq<char>>::empty());
    while i < args.len()
        invariant
            i <= args.len(),
            all == text::texts(args@),
            position_of(all.take(i as int), flag@) is None,
        decreases args.len() - i,
    {
        proof {
            assert(all.take(i + 1).drop_last() =~= all.take(i as int));
            assert(all.take(i + 1).last() == args@[i as int]@);
        }
        if text::same(args[i].as_str(), flag) {
            proof {
                lemma_kept(all, i + 1, flag@);
            }
            return Some(i);
        }
        i = i + 1;
    }
    assert(all.take(i as int) =~= all);
    None
}

/// What is found at the beginning is what is found in the whole.
proof fn lemma_kept(args: Seq<Seq<char>>, n: int, flag: Seq<char>)
    requires
        0 <= n <= args.len(),
        position_of(args.take(n), flag) is Some,
    ensures
        position_of(args, flag) == position_of(args.take(n), flag),
    decreases args.len() - n,
{
    if n < args.len() {
        assert(args.take(n + 1).drop_last() =~= args.take(n));
        lemma_kept(args, n + 1, flag);
    } else {
        assert(args.take(n) =~= args);
    }
}

/// What stands behind the first `flag`.
pub open spec fn value_text(args: Seq<Seq<char>>, flag: Seq<char>) -> Option<Seq<char>> {
    match position_of(args, flag) {
        Some(i) => if i + 1 < args.len() {
            Some(args[i + 1])
        } else {
            None
        },
        None => None,
    }
}

/// What stands behind the first `flag`.
pub fn value_of(args: &Vec<String>, flag: &str) -> (r: Option<String>)
    ensures
        text::opt_text(r) == value_text(text::texts(args@), flag@),
{
    match find(args, flag) {
        Some(i) => if args.len() - i > 1 {
            assert(text::texts(args@)[i + 1] == args@[i + 1]@);
            Some(args[i + 1].clone())
        } else {
            None
        },
        None => None,
    }
}

/// The command: everything behind the first `--cmd`.
pub open spec fn command_text(args: Seq<Seq<char>>) -> Seq<Seq<char>> {
    match position_of(args, "--cmd"@) {
        Some(i) => args.skip(i + 1),
        None => Seq::empty(),
    }
}

/// The command: everything behind the first `--cmd`.
pub fn command_of(args: &Vec<String>) -> (v: Vec<String>)
    ensures
        text::texts(v@) == command_text(text::texts(args@)),
{
    let mut v: Vec<String> = Vec::new();
    match find(args, "--cmd") {
        None => {},
        Some(i) => {
            let n: usize = args.len();
            let mut j: usize = i + 1;
            while j < n
                invariant
                    n == args.len(),
                    i < j <= n,
                    v@ == args@.subrange(i + 1, j as int),
                decreases n - j,
            {
                v.push(args[j].clone());
                assert(v@ =~= args@.subrange(i + 1, j + 1));
                j = j + 1;
            }
            assert(text::texts(v@) =~= text::texts(args@).skip(i + 1));
        },
    }
    assert(text::texts(v@) =~= command_text(text::texts(args@)));
    v
}

/// What the greeter is to do.
#[derive(Debug)]
pub enum Mode {
    /// Say what there is to say.
    Help,
    /// Ask for the daemon whose socket was inherited.
    Mukaed,
    /// Ask for greetd, and start this command.
    Greetd { cmd: Vec<String> },
    /// For greetd, without a command: refuse.
    NoCommand,
    /// Authenticate against this service.
    Authenticate { service: String },
    /// Draw the face, and nothing else.
    FaceOnly,
}

/// Chooses what the greeter does by its arguments.
pub fn mode_of(args: &Vec<String>) -> (m: Mode)
    ensures
        ({
            let all = text::texts(args@);
            if all.contains("-h"@) || all.contains("--help"@) {
                m is Help
            } else if all.contains("--mukaed"@) {
                m is Mukaed
            } else if all.contains("--greetd"@) {
                if command_text(all).len() == 0 {
                    m is NoCommand
                } else {
                    m matches Mode::Greetd { cmd } && text::texts(cmd@) == command_text(all)
                }
            } else if all.contains("--authenticate"@) {
                m matches Mode::Authenticate { service } && service@ == (match value_text(
                    all,
                    "--service"@,
                ) {
                    Some(s) => s,
                    None => "login"@,
                })
            } else {
                m is FaceOnly
            }
        }),
{
    proof {
        let all = text::texts(args@);
        lemma_position(all, "-h"@);
        lemma_position(all, "--help"@);
        lemma_position(all, "--mukaed"@);
        lemma_position(all, "--greetd"@);
        lemma_position(all, "--authenticate"@);
    }
    if find(args, "-h").is_some() || find(args, "--help").is_some() {
        return Mode::Help;
    }
    if find(args, "--mukaed").is_some() {
        return Mode::Mukaed;
    }
    if find(args, "--greetd").is_some() {
        let cmd: Vec<String> = command_of(args);
        assert(text::texts(cmd@).len() == cmd@.len());
        if cmd.len() == 0 {
            return Mode::NoCommand;
        }
        return Mode::Greetd { cmd };
    }
    if find(args, "--authenticate").is_some() {
        let service: String = match value_of(args, "--service") {
            Some(s) => s,
            None => "login".to_owned(),
        };
        return Mode::Authenticate { service };
    }
    Mode::FaceOnly
}

/// Of a flag that comes more than once the first counts: its value is the word
/// behind it, and the command is every word behind its flag, in order. A flag that
/// does not come has no value, and without its flag there is no command.
pub proof fn the_first_flag_counts(args: Seq<Seq<char>>, flag: Seq<char>, i: int)
    requires
        0 <= i <= args.len(),
        i < args.len() ==> args[i] == flag,
        forall|j: int| 0 <= j < i ==> #[trigger] args[j] != flag,
    ensures
        i == args.len() ==> value_text(args, flag) is None,
        i + 1 == args.len() ==> value_text(args, flag) is None,
        i + 1 < args.len() ==> value_text(args, flag) == Some(args[i + 1]),
        flag == "--cmd"@ && i < args.len() ==> {
            &&& command_text(args).len() == args.len() - i - 1
            &&& forall|k: int|
                0 <= k < args.len() - i - 1 ==> #[trigger] command_text(args)[k] == args[i + 1 + k]
        },
        flag == "--cmd"@ && i == args.len() ==> command_text(args).len() == 0,
{
    lemma_position(args, flag);
    if i < args.len() {
        assert(args.contains(flag));
        lemma_position(args.take(i), flag);
        assert(!args.take(i).contains(flag));
        assert(args.take(i + 1).drop_last() =~= args.take(i));
        assert(args.take(i + 1).last() == flag);
        lemma_kept(args, i + 1, flag);
    } else {
        assert(!args.contains(flag));
    }
}

} // verus!
