//! A login that the daemon supervises: how it begins, who is let in, and in
//! which order the greeter goes and the session comes.
use vstd::prelude::*;
use crate::border::capability::{Authenticated, SeatCapability};
use crate::border::env::{
    lemma_moved_on, lemma_stood, moved, user_text, AcctVerdict, PamError, PamEvent, SeatEnv,
};
use crate::border::env_set::{in_order, EnvSet};
use crate::border::ids::{PamHandleId, ServiceName, UserName};
use crate::border::session;
use crate::border::session::{Argv, SessionError, SessionHandle, SessionPlan};
use crate::seat::config;
use crate::seat::config::MukaeConfig;
use crate::seat::daemon::{let_in, session_env_for, session_vars};
use crate::text;

verus! {

/// Opens the daemon's transaction. Where nobody is named yet, the conversation
/// asks for the name.
pub fn begin<E: SeatEnv>(env: &mut E, user: Option<&UserName>) -> (r: Result<PamHandleId, String>)
    ensures
        moved(*old(env), *final(env)),
        exists|s: Result<PamHandleId, PamError>|
            {
                &&& final(env).trace() == #[trigger] old(env).trace().push(
                    PamEvent::Start { svc: "mukae"@, user: user_text(user), r: s },
                )
                &&& match s {
                    Ok(h) => r == Ok::<PamHandleId, String>(h),
                    Err(e) => r matches Err(m) && m@ == "starting the transaction: "@
                        + e.message_text(),
                }
            },
{
    proof {
        reveal_strlit("mukae");
    }
    let svc: ServiceName = match ServiceName::parse("mukae") {
        Ok(svc) => svc,
        Err(_) => {
            assert(false);
            vstd::pervasive::unreached()
        },
    };
    let s: Result<PamHandleId, PamError> = env.pam_start(&svc, user);
    proof {
        lemma_stood(*old(env));
        lemma_moved_on(
            *old(env),
            *old(env),
            PamEvent::Start { svc: "mukae"@, user: user_text(user), r: s },
            *env,
        );
    }
    match s {
        Ok(h) => Ok(h),
        Err(e) => {
            let mut m: String = "starting the transaction: ".to_owned();
            m.append(e.message().as_str());
            Err(m)
        },
    }
}

/// What a conversation has come to.
#[derive(Debug)]
pub enum Admission {
    /// The person is who they say, and the account may be used.
    Admitted,
    /// The person was not let in.
    Incorrect,
    /// The account may not be used; say this to the journal.
    Barred(String),
}

/// Ends a transaction whose conversation was refused, and asks for the account
/// where it was not.
pub fn settle<E: SeatEnv>(env: &mut E, h: PamHandleId, served: bool) -> (r: Result<
    Admission,
    String,
>)
    ensures
        moved(*old(env), *final(env)),
        !served ==> (r matches Ok(a) && a is Incorrect) && exists|x: Result<(), PamError>|
            final(env).trace() == #[trigger] old(env).trace().push(PamEvent::End { h, r: x }),
        served ==> exists|v: Result<AcctVerdict, PamError>|
            {
                let t = #[trigger] old(env).trace().push(PamEvent::AcctMgmt { h, r: v });
                match v {
                    Err(e) => final(env).trace() == t && (r matches Err(m) && m@ == e.message_text()),
                    Ok(AcctVerdict::Okay) => final(env).trace() == t && (r matches Ok(a)
                        && a is Admitted),
                    Ok(other) => (r matches Ok(Admission::Barred(m)) && m@
                        == "the account is not permitted to log in: "@ + other.name_text()) && exists|
                        x: Result<(), PamError>,
                    |
                        final(env).trace() == #[trigger] t.push(PamEvent::End { h, r: x }),
                }
            },
{
    if !served {
        let x: Result<(), PamError> = env.pam_end(h);
        proof {
            lemma_stood(*old(env));
            lemma_moved_on(*old(env), *old(env), PamEvent::End { h, r: x }, *env);
        }
        return Ok(Admission::Incorrect);
    }
    match let_in(env, h) {
        Err(m) => Err(m),
        Ok(Some(m)) => Ok(Admission::Barred(m)),
        Ok(None) => Ok(Admission::Admitted),
    }
}

/// Starts the session that an authentication has bought; `user` and `home` are
/// the account's name and its home where it has them.
pub fn open_session<E: SeatEnv>(
    env: &mut E,
    cap: SeatCapability<Authenticated>,
    argv: Argv,
    user: Option<&str>,
    home: Option<&str>,
    cfg: &MukaeConfig,
) -> (r: Result<SessionHandle, String>)
    ensures
        moved(*old(env), *final(env)),
        final(env).trace().len() > old(env).trace().len(),
        final(env).trace().take(old(env).trace().len() as int) == old(env).trace(),
        exists|plan: SessionPlan, s: Result<SessionHandle, SessionError>|
            {
                &&& plan.argv == argv
                &&& in_order(plan.env.entries())
                &&& plan.env@ == session_vars(
                    text::texts(cfg.session_path@),
                    text::texts(cfg.session_data_dirs@),
                    config::opt_str(user),
                    config::opt_str(home),
                )
                &&& #[trigger] session::session_started(
                    final(env).trace().skip(old(env).trace().len() as int),
                    cap.handle(),
                    plan,
                    cap.who(),
                    cap.on_seat(),
                    s,
                )
                &&& match s {
                    Ok(x) => r == Ok::<SessionHandle, String>(x),
                    Err(e) => r matches Err(m) && m@ == "starting the session: "@ + e.message_text(),
                }
            },
{
    let plan: SessionPlan = SessionPlan { argv, env: session_env_for(user, home, cfg) };
    match session::start_session(env, cap, plan) {
        Ok(x) => Ok(x),
        Err(e) => {
            let mut m: String = "starting the session: ".to_owned();
            m.append(e.message().as_str());
            Err(m)
        },
    }
}

/// One thing that the daemon does in a login, once the conversation is over.
#[derive(Debug, Clone, Copy, PartialEq, Eq, Structural)]
pub enum Task {
    /// Wait for the greeter, which has seen the refusal and leaves by itself.
    Reap,
    /// End the greeter, and wait for it.
    Stop,
    /// Put right the screen that the greeter left behind.
    Repair,
    /// Start the session.
    Open,
    /// Wait for the session's process.
    Wait,
    /// Close the session and its transaction.
    Close,
    /// Leave. `ok` is whether the login had a session.
    Exit { ok: bool },
}

pub open spec fn first_task(a: Admission) -> Task {
    match a {
        Admission::Admitted => Task::Stop,
        Admission::Incorrect => Task::Reap,
        Admission::Barred(_) => Task::Exit { ok: false },
    }
}

pub open spec fn next_task(t: Task) -> Task {
    match t {
        Task::Reap => Task::Exit { ok: false },
        Task::Stop => Task::Repair,
        Task::Repair => Task::Open,
        Task::Open => Task::Wait,
        Task::Wait => Task::Close,
        Task::Close => Task::Exit { ok: true },
        Task::Exit { ok } => Task::Exit { ok },
    }
}

/// How many tasks still follow.
pub open spec fn left(t: Task) -> nat {
    match t {
        Task::Stop => 5,
        Task::Repair => 4,
        Task::Open => 3,
        Task::Wait => 2,
        Task::Close => 1,
        Task::Reap => 1,
        Task::Exit { .. } => 0,
    }
}

/// The tasks from `t` to the last, each of them done.
pub open spec fn tasks_from(t: Task) -> Seq<Task>
    decreases left(t),
{
    if t is Exit {
        seq![t]
    } else {
        seq![t] + tasks_from(next_task(t))
    }
}

/// What comes first when a greeter's conversation is over.
pub fn after_admission(a: &Admission) -> (t: Task)
    ensures
        t == first_task(*a),
{
    match a {
        Admission::Admitted => Task::Stop,
        Admission::Incorrect => Task::Reap,
        Admission::Barred(_) => Task::Exit { ok: false },
    }
}

/// What comes after a task that was done.
pub fn after(t: Task) -> (n: Task)
    ensures
        n == next_task(t),
{
    match t {
        Task::Reap => Task::Exit { ok: false },
        Task::Stop => Task::Repair,
        Task::Repair => Task::Open,
        Task::Open => Task::Wait,
        Task::Wait => Task::Close,
        Task::Close => Task::Exit { ok: true },
        Task::Exit { ok } => Task::Exit { ok },
    }
}

/// Where the screen is that a greeter drew on.
#[derive(Debug, Clone, Copy, PartialEq, Eq, Structural)]
pub enum Screen {
    /// The console that was opened for it.
    Console,
    /// The daemon's own standard output.
    Output,
    /// Nowhere that escape sequences may go.
    Nowhere,
}

/// Which screen is to be put right: the console, where one was opened, and
/// otherwise the standard output, unless that is no terminal.
pub fn screen_to_repair(has_console: bool, output_is_terminal: bool) -> (s: Screen)
    ensures
        s == if has_console {
            Screen::Console
        } else if output_is_terminal {
            Screen::Output
        } else {
            Screen::Nowhere
        },
{
    if has_console {
        Screen::Console
    } else if output_is_terminal {
        Screen::Output
    } else {
        Screen::Nowhere
    }
}

/// The line that tells of one variable.
pub open spec fn variable_line(e: (String, String)) -> Seq<char> {
    "  "@ + e.0@ + "="@ + e.1@
}

/// The lines that tell where a session is attached: one for each variable whose
/// name begins with `XDG_`, in the order of the names.
pub open spec fn attachment_text(entries: Seq<(String, String)>) -> Seq<Seq<char>>
    decreases entries.len(),
{
    if entries.len() == 0 {
        Seq::empty()
    } else if text::begins(entries.last().0@, "XDG_"@) {
        attachment_text(entries.drop_last()).push(variable_line(entries.last()))
    } else {
        attachment_text(entries.drop_last())
    }
}

/// What the journal is told of where a session is attached.
pub fn attachment_lines(env: &EnvSet) -> (r: Vec<String>)
    ensures
        text::texts(r@) == attachment_text(env.entries()),
{
    let mut r: Vec<String> = Vec::new();
    let n: usize = env.len();
    let ghost all = env.entries();
    let mut i: usize = 0;
    assert(text::texts(r@) =~= attachment_text(all.take(0)));
    while i < n
        invariant
            i <= n,
            n == all.len(),
            all == env.entries(),
            text::texts(r@) == attachment_text(all.take(i as int)),
        decreases n - i,
    {
        let ghost before = r@;
        let e: &(String, String) = env.entry(i);
        assert(all.take(i + 1).drop_last() =~= all.take(i as int));
        assert(all.take(i + 1).last() == *e);
        if text::starts_with(e.0.as_str(), "XDG_") {
            let mut line: String = "  ".to_owned();
            line.append(e.0.as_str());
            line.append("=");
            line.append(e.1.as_str());
            r.push(line);
            assert(text::texts(r@) =~= text::texts(before).push(variable_line(*e)));
        }
        i = i + 1;
    }
    assert(all.take(n as int) =~= all);
    r
}

/// The greeter goes before the session comes: a login opens a session if and
/// only if the person was admitted, and by then the greeter was ended and its
/// screen put right, in this order.
pub proof fn the_greeter_goes_before_the_session(a: Admission, i: int)
    ensures
        tasks_from(first_task(a)).contains(Task::Open) <==> a is Admitted,
        0 <= i < tasks_from(first_task(a)).len() && tasks_from(first_task(a))[i] == Task::Open
            ==> i == 2 && tasks_from(first_task(a))[1] == Task::Repair
            && tasks_from(first_task(a))[0] == Task::Stop,
{
    reveal_with_fuel(tasks_from, 6);
    if a is Admitted {
        assert(tasks_from(first_task(a))[2] == Task::Open);
    }
}

/// Success means a session: what a login leaves with says whether it opened one,
/// and one that was opened is waited for and closed before the end.
pub proof fn success_means_a_session(a: Admission)
    ensures
        tasks_from(first_task(a)).last() == (Task::Exit { ok: a is Admitted }),
        a is Admitted ==> tasks_from(first_task(a)) == seq![
            Task::Stop,
            Task::Repair,
            Task::Open,
            Task::Wait,
            Task::Close,
            Task::Exit { ok: true },
        ],
{
    reveal_with_fuel(tasks_from, 6);
}

/// A login that lets nobody in ends at once: the greeter of a refused
/// conversation is waited for, and nothing else follows.
pub proof fn a_refused_login_ends_at_once(a: Admission)
    requires
        a is Incorrect || a is Barred,
    ensures
        a is Incorrect ==> tasks_from(first_task(a)) == seq![Task::Reap, Task::Exit { ok: false }],
        a is Barred ==> tasks_from(first_task(a)) == seq![Task::Exit { ok: false }],
{
    reveal_with_fuel(tasks_from, 3);
}

/// One variable is told if and only if its name begins with `XDG_`, name and value
/// to the letter.
pub proof fn a_variable_of_the_desktop_is_told(e: (String, String))
    ensures
        "XDG_"@.is_prefix_of(e.0@) ==> attachment_text(seq![e]) == seq![
            "  "@ + e.0@ + "="@ + e.1@,
        ],
        !"XDG_"@.is_prefix_of(e.0@) ==> attachment_text(seq![e]) == Seq::<Seq<char>>::empty(),
{
    reveal_with_fuel(attachment_text, 2);
    let one = seq![e];
    let p = "XDG_"@;
    assert(one.drop_last() =~= Seq::empty());
    if p.len() <= e.0@.len() {
        assert(e.0@.take(p.len() as int) =~= e.0@.subrange(0, p.len() as int));
    }
    assert(attachment_text(one.drop_last()) =~= Seq::<Seq<char>>::empty());
    assert(attachment_text(one.drop_last()).push(variable_line(e)) =~= seq![variable_line(e)]);
}

/// The variables are told one by one, in their order: what is told of two lists is
/// what is told of the first and then of the second.
pub proof fn variables_are_told_in_order(a: Seq<(String, String)>, b: Seq<(String, String)>)
    ensures
        attachment_text(a + b) == attachment_text(a) + attachment_text(b),
    decreases b.len(),
{
    if b.len() == 0 {
        assert(a + b =~= a);
        assert(attachment_text(a) + attachment_text(b) =~= attachment_text(a));
    } else {
        let init = b.drop_last();
        assert((a + b).drop_last() =~= a + init);
        assert((a + b).last() == b.last());
        variables_are_told_in_order(a, init);
        assert(attachment_text(a + b) =~= attachment_text(a) + attachment_text(b));
    }
}

/// Each task leads to the next: a greeter that was ended is followed by its screen,
/// the screen by the session, the session by its end, and nothing follows the exit.
pub proof fn each_task_leads_to_the_next(t: Task)
    ensures
        t is Stop <==> next_task(t) is Repair,
        t is Repair <==> next_task(t) is Open,
        t is Open <==> next_task(t) is Wait,
        t is Wait <==> next_task(t) is Close,
        t is Close ==> next_task(t) == (Task::Exit { ok: true }),
        t is Reap ==> next_task(t) == (Task::Exit { ok: false }),
        t is Exit ==> next_task(t) == t,
        !(next_task(t) is Stop) && !(next_task(t) is Reap),
{
}

} // verus!
