//! Which actions of the desktop catalog the login surface covers.
//!
//! The catalog's rows in the three domains of a login manager (`login-`,
//! `seat-`, `vt-`), in its order, each with how far along it is.
use vstd::prelude::*;
use crate::text;

verus! {

/// How far along an action is.
#[derive(Debug, Clone, Copy, PartialEq, Eq, Structural)]
pub enum Phase {
    /// Reachable through the environment today.
    Implemented,
    /// Needs the real PAM linkage.
    NeedsPam,
    /// Needs the seat, device and terminal half.
    NeedsSeat,
    /// Needs the handoff from greeter to session.
    NeedsHandoff,
}

impl Phase {
    /// Whether a caller can do this today.
    pub fn is_live(self) -> (r: bool)
        ensures
            r == (self == Phase::Implemented),
    {
        matches!(self, Phase::Implemented)
    }

    pub open spec fn milestone_text(self) -> Seq<char> {
        match self {
            Phase::Implemented => "M0"@,
            Phase::NeedsPam => "M3"@,
            Phase::NeedsSeat => "M4"@,
            Phase::NeedsHandoff => "M7"@,
        }
    }

    /// The milestone that lands it.
    pub fn milestone(self) -> (s: &'static str)
        ensures
            s@ == self.milestone_text(),
    {
        match self {
            Phase::Implemented => "M0",
            Phase::NeedsPam => "M3",
            Phase::NeedsSeat => "M4",
            Phase::NeedsHandoff => "M7",
        }
    }
}

/// The rows of the table.
pub open spec fn rows() -> Seq<(Seq<char>, Phase)> {
    seq![
        ("login-enumerate-principals"@, Phase::Implemented),
        ("login-resolve-principal"@, Phase::Implemented),
        ("login-read-public-profile"@, Phase::NeedsHandoff),
        ("login-auth-begin"@, Phase::Implemented),
        ("login-auth-next"@, Phase::Implemented),
        ("login-auth-answer"@, Phase::Implemented),
        ("login-auth-account-check"@, Phase::Implemented),
        ("login-auth-change-token"@, Phase::Implemented),
        ("login-auth-end"@, Phase::Implemented),
        ("login-set-credentials"@, Phase::Implemented),
        ("login-put-env"@, Phase::Implemented),
        ("login-get-env"@, Phase::Implemented),
        ("login-open-session"@, Phase::Implemented),
        ("login-close-session"@, Phase::Implemented),
        ("login-mint-capability"@, Phase::Implemented),
        ("login-start-session"@, Phase::Implemented),
        ("login-fork-session"@, Phase::Implemented),
        ("login-signal-session"@, Phase::NeedsPam),
        ("login-reap-session"@, Phase::NeedsPam),
        ("login-autologin"@, Phase::NeedsPam),
        ("login-handoff"@, Phase::NeedsHandoff),
        ("seat-open"@, Phase::NeedsSeat),
        ("seat-take-control"@, Phase::NeedsSeat),
        ("seat-open-device"@, Phase::NeedsSeat),
        ("seat-close-device"@, Phase::NeedsSeat),
        ("seat-poll"@, Phase::NeedsSeat),
        ("seat-ack-disable"@, Phase::NeedsSeat),
        ("seat-reacquire"@, Phase::NeedsSeat),
        ("vt-query-free"@, Phase::NeedsSeat),
        ("vt-set-kd-mode"@, Phase::NeedsSeat),
        ("vt-set-kb-mode"@, Phase::NeedsSeat),
    ]
}

/// What executable rows say.
pub open spec fn row_texts(v: Seq<(&'static str, Phase)>) -> Seq<(Seq<char>, Phase)> {
    v.map_values(|r: (&'static str, Phase)| (r.0@, r.1))
}

/// The table.
pub fn coverage() -> (v: Vec<(&'static str, Phase)>)
    ensures
        row_texts(v@) == rows(),
{
    let mut v: Vec<(&'static str, Phase)> = Vec::new();
    v.push(("login-enumerate-principals", Phase::Implemented));
    v.push(("login-resolve-principal", Phase::Implemented));
    v.push(("login-read-public-profile", Phase::NeedsHandoff));
    v.push(("login-auth-begin", Phase::Implemented));
    v.push(("login-auth-next", Phase::Implemented));
    v.push(("login-auth-answer", Phase::Implemented));
    v.push(("login-auth-account-check", Phase::Implemented));
    v.push(("login-auth-change-token", Phase::Implemented));
    v.push(("login-auth-end", Phase::Implemented));
    v.push(("login-set-credentials", Phase::Implemented));
    v.push(("login-put-env", Phase::Implemented));
    v.push(("login-get-env", Phase::Implemented));
    v.push(("login-open-session", Phase::Implemented));
    v.push(("login-close-session", Phase::Implemented));
    v.push(("login-mint-capability", Phase::Implemented));
    v.push(("login-start-session", Phase::Implemented));
    v.push(("login-fork-session", Phase::Implemented));
    v.push(("login-signal-session", Phase::NeedsPam));
    v.push(("login-reap-session", Phase::NeedsPam));
    v.push(("login-autologin", Phase::NeedsPam));
    v.push(("login-handoff", Phase::NeedsHandoff));
    v.push(("seat-open", Phase::NeedsSeat));
    v.push(("seat-take-control", Phase::NeedsSeat));
    v.push(("seat-open-device", Phase::NeedsSeat));
    v.push(("seat-close-device", Phase::NeedsSeat));
    v.push(("seat-poll", Phase::NeedsSeat));
    v.push(("seat-ack-disable", Phase::NeedsSeat));
    v.push(("seat-reacquire", Phase::NeedsSeat));
    v.push(("vt-query-free", Phase::NeedsSeat));
    v.push(("vt-set-kd-mode", Phase::NeedsSeat));
    v.push(("vt-set-kb-mode", Phase::NeedsSeat));
    assert(row_texts(v@) =~= rows());
    v
}

/// The phase that the first row for `action` gives.
pub open spec fn phase_in(table: Seq<(Seq<char>, Phase)>, action: Seq<char>) -> Option<Phase>
    decreases table.len(),
{
    if table.len() == 0 {
        None
    } else if table[0].0 == action {
        Some(table[0].1)
    } else {
        phase_in(table.skip(1), action)
    }
}

/// The actions of the live rows, in order.
pub open spec fn live_in(table: Seq<(Seq<char>, Phase)>) -> Seq<Seq<char>>
    decreases table.len(),
{
    if table.len() == 0 {
        Seq::empty()
    } else if table.last().1 == Phase::Implemented {
        live_in(table.drop_last()).push(table.last().0)
    } else {
        live_in(table.drop_last())
    }
}

/// How far along an action is; `None` where it is not one of the table's.
pub fn phase_of(action: &str) -> (r: Option<Phase>)
    ensures
        r == phase_in(rows(), action@),
{
    let v: Vec<(&'static str, Phase)> = coverage();
    let mut i: usize = 0;
    proof {
        assert(rows().skip(0) =~= rows());
    }
    while i < v.len()
        invariant
            i <= v.len(),
            row_texts(v@) == rows(),
            phase_in(rows(), action@) == phase_in(rows().skip(i as int), action@),
        decreases v.len() - i,
    {
        proof {
            assert(rows().skip(i as int)[0] == row_texts(v@)[i as int]);
            assert(rows().skip(i as int).skip(1) =~= rows().skip(i + 1));
        }
        if text::same(v[i].0, action) {
            return Some(v[i].1);
        }
        i = i + 1;
    }
    None
}

/// Every action that a caller can perform today.
pub fn live_actions() -> (r: Vec<&'static str>)
    ensures
        r@.map_values(|s: &'static str| s@) == live_in(rows()),
{
    let v: Vec<(&'static str, Phase)> = coverage();
    let mut r: Vec<&'static str> = Vec::new();
    let mut i: usize = 0;
    proof {
        assert(r@.map_values(|s: &'static str| s@) =~= live_in(rows().take(0)));
    }
    while i < v.len()
        invariant
            i <= v.len(),
            row_texts(v@) == rows(),
            r@.map_values(|s: &'static str| s@) == live_in(rows().take(i as int)),
        decreases v.len() - i,
    {
        proof {
            assert(rows().take(i + 1).drop_last() =~= rows().take(i as int));
            assert(rows().take(i + 1).last() == row_texts(v@)[i as int]);
        }
        let ghost before = r@.map_values(|s: &'static str| s@);
        if v[i].1.is_live() {
            r.push(v[i].0);
            proof {
                assert(r@.map_values(|s: &'static str| s@) =~= before.push(v@[i as int].0@));
            }
        }
        i = i + 1;
    }
    proof {
        assert(rows().take(i as int) =~= rows());
    }
    r
}

/// The table has thirty-one rows, and each is in one of the three domains.
pub proof fn every_row_is_in_a_domain(i: int)
    requires
        0 <= i < rows().len(),
    ensures
        rows().len() == 31,
        ({
            let id = rows()[i].0;
            text::begins(id, "login-"@) || text::begins(id, "seat-"@) || text::begins(id, "vt-"@)
        }),
{
    reveal_strlit("login-enumerate-principals");
    reveal_strlit("login-resolve-principal");
    reveal_strlit("login-read-public-profile");
    reveal_strlit("login-auth-begin");
    reveal_strlit("login-auth-next");
    reveal_strlit("login-auth-answer");
    reveal_strlit("login-auth-account-check");
    reveal_strlit("login-auth-change-token");
    reveal_strlit("login-auth-end");
    reveal_strlit("login-set-credentials");
    reveal_strlit("login-put-env");
    reveal_strlit("login-get-env");
    reveal_strlit("login-open-session");
    reveal_strlit("login-close-session");
    reveal_strlit("login-mint-capability");
    reveal_strlit("login-start-session");
    reveal_strlit("login-fork-session");
    reveal_strlit("login-signal-session");
    reveal_strlit("login-reap-session");
    reveal_strlit("login-autologin");
    reveal_strlit("login-handoff");
    reveal_strlit("seat-open");
    reveal_strlit("seat-take-control");
    reveal_strlit("seat-open-device");
    reveal_strlit("seat-close-device");
    reveal_strlit("seat-poll");
    reveal_strlit("seat-ack-disable");
    reveal_strlit("seat-reacquire");
    reveal_strlit("vt-query-free");
    reveal_strlit("vt-set-kd-mode");
    reveal_strlit("vt-set-kb-mode");
    reveal_strlit("login-");
    reveal_strlit("seat-");
    reveal_strlit("vt-");
    let id = rows()[i].0;
    if i < 21 {
        assert(id.take(6) =~= "login-"@);
    } else if i < 28 {
        assert(id.take(5) =~= "seat-"@);
    } else {
        assert(id.take(3) =~= "vt-"@);
    }
}

/// Nothing of the seat or terminal half claims to be live.
pub proof fn the_absent_half_is_not_live(i: int)
    requires
        0 <= i < rows().len(),
        text::begins(rows()[i].0, "seat-"@) || text::begins(rows()[i].0, "vt-"@),
    ensures
        rows()[i].1 == Phase::NeedsSeat,
{
    reveal_strlit("login-enumerate-principals");
    reveal_strlit("login-resolve-principal");
    reveal_strlit("login-read-public-profile");
    reveal_strlit("login-auth-begin");
    reveal_strlit("login-auth-next");
    reveal_strlit("login-auth-answer");
    reveal_strlit("login-auth-account-check");
    reveal_strlit("login-auth-change-token");
    reveal_strlit("login-auth-end");
    reveal_strlit("login-set-credentials");
    reveal_strlit("login-put-env");
    reveal_strlit("login-get-env");
    reveal_strlit("login-open-session");
    reveal_strlit("login-close-session");
    reveal_strlit("login-mint-capability");
    reveal_strlit("login-start-session");
    reveal_strlit("login-fork-session");
    reveal_strlit("login-signal-session");
    reveal_strlit("login-reap-session");
    reveal_strlit("login-autologin");
    reveal_strlit("login-handoff");
    reveal_strlit("seat-open");
    reveal_strlit("seat-take-control");
    reveal_strlit("seat-open-device");
    reveal_strlit("seat-close-device");
    reveal_strlit("seat-poll");
    reveal_strlit("seat-ack-disable");
    reveal_strlit("seat-reacquire");
    reveal_strlit("vt-query-free");
    reveal_strlit("vt-set-kd-mode");
    reveal_strlit("vt-set-kb-mode");
    reveal_strlit("seat-");
    reveal_strlit("vt-");
    let id = rows()[i].0;
    if i < 21 {
        assert(id[0] == 'l');
        assert(text::begins(id, "seat-"@) ==> id.take(5)[0] == id[0]);
        assert(text::begins(id, "vt-"@) ==> id.take(3)[0] == id[0]);
    }
}

/// A number by which the actions of the table differ.
spec fn mark(s: Seq<char>) -> int {
    s.len() as int + 100 * (s[6] as u32) + 100000 * (s[s.len() - 6] as u32)
}

/// The row that holds an action of the table.
spec fn row_of(s: Seq<char>) -> int {
    if mark(s) == 9910126 {
        0
    } else if mark(s) == 11011423 {
        1
    } else if mark(s) == 11411425 {
        2
    } else if mark(s) == 4509716 {
        3
    } else if mark(s) == 10409715 {
        4
    } else if mark(s) == 9709717 {
        5
    } else if mark(s) == 4509724 {
        6
    } else if mark(s) == 4509723 {
        7
    } else if mark(s) == 11609714 {
        8
    } else if mark(s) == 11011521 {
        9
    } else if mark(s) == 11711213 {
        10
    } else if mark(s) == 10110313 {
        11
    } else if mark(s) == 10111118 {
        12
    } else if mark(s) == 10109919 {
        13
    } else if mark(s) == 9810921 {
        14
    } else if mark(s) == 10111519 {
        15
    } else if mark(s) == 10110218 {
        16
    } else if mark(s) == 10111520 {
        17
    } else if mark(s) == 10111418 {
        18
    } else if mark(s) == 11109715 {
        19
    } else if mark(s) == 9710413 {
        20
    } else if mark(s) == 11611209 {
        21
    } else if mark(s) == 11109717 {
        22
    } else if mark(s) == 10011216 {
        23
    } else if mark(s) == 10010817 {
        24
    } else if mark(s) == 11611109 {
        25
    } else if mark(s) == 10509916 {
        26
    } else if mark(s) == 9910114 {
        27
    } else if mark(s) == 12111413 {
        28
    } else if mark(s) == 10004514 {
        29
    } else if mark(s) == 9804514 {
        30
    } else {
        -1
    }
}

proof fn lemma_row(i: int)
    requires
        0 <= i < rows().len(),
    ensures
        row_of(rows()[i].0) == i,
{
    reveal_strlit("login-enumerate-principals");
    reveal_strlit("login-resolve-principal");
    reveal_strlit("login-read-public-profile");
    reveal_strlit("login-auth-begin");
    reveal_strlit("login-auth-next");
    reveal_strlit("login-auth-answer");
    reveal_strlit("login-auth-account-check");
    reveal_strlit("login-auth-change-token");
    reveal_strlit("login-auth-end");
    reveal_strlit("login-set-credentials");
    reveal_strlit("login-put-env");
    reveal_strlit("login-get-env");
    reveal_strlit("login-open-session");
    reveal_strlit("login-close-session");
    reveal_strlit("login-mint-capability");
    reveal_strlit("login-start-session");
    reveal_strlit("login-fork-session");
    reveal_strlit("login-signal-session");
    reveal_strlit("login-reap-session");
    reveal_strlit("login-autologin");
    reveal_strlit("login-handoff");
    reveal_strlit("seat-open");
    reveal_strlit("seat-take-control");
    reveal_strlit("seat-open-device");
    reveal_strlit("seat-close-device");
    reveal_strlit("seat-poll");
    reveal_strlit("seat-ack-disable");
    reveal_strlit("seat-reacquire");
    reveal_strlit("vt-query-free");
    reveal_strlit("vt-set-kd-mode");
    reveal_strlit("vt-set-kb-mode");
    if i == 0 {
        assert(mark(rows()[0].0) == 9910126);
    } else if i == 1 {
        assert(mark(rows()[1].0) == 11011423);
    } else if i == 2 {
        assert(mark(rows()[2].0) == 11411425);
    } else if i == 3 {
        assert(mark(rows()[3].0) == 4509716);
    } else if i == 4 {
        assert(mark(rows()[4].0) == 10409715);
    } else if i == 5 {
        assert(mark(rows()[5].0) == 9709717);
    } else if i == 6 {
        assert(mark(rows()[6].0) == 4509724);
    } else if i == 7 {
        assert(mark(rows()[7].0) == 4509723);
    } else if i == 8 {
        assert(mark(rows()[8].0) == 11609714);
    } else if i == 9 {
        assert(mark(rows()[9].0) == 11011521);
    } else if i == 10 {
        assert(mark(rows()[10].0) == 11711213);
    } else if i == 11 {
        assert(mark(rows()[11].0) == 10110313);
    } else if i == 12 {
        assert(mark(rows()[12].0) == 10111118);
    } else if i == 13 {
        assert(mark(rows()[13].0) == 10109919);
    } else if i == 14 {
        assert(mark(rows()[14].0) == 9810921);
    } else if i == 15 {
        assert(mark(rows()[15].0) == 10111519);
    } else if i == 16 {
        assert(mark(rows()[16].0) == 10110218);
    } else if i == 17 {
        assert(mark(rows()[17].0) == 10111520);
    } else if i == 18 {
        assert(mark(rows()[18].0) == 10111418);
    } else if i == 19 {
        assert(mark(rows()[19].0) == 11109715);
    } else if i == 20 {
        assert(mark(rows()[20].0) == 9710413);
    } else if i == 21 {
        assert(mark(rows()[21].0) == 11611209);
    } else if i == 22 {
        assert(mark(rows()[22].0) == 11109717);
    } else if i == 23 {
        assert(mark(rows()[23].0) == 10011216);
    } else if i == 24 {
        assert(mark(rows()[24].0) == 10010817);
    } else if i == 25 {
        assert(mark(rows()[25].0) == 11611109);
    } else if i == 26 {
        assert(mark(rows()[26].0) == 10509916);
    } else if i == 27 {
        assert(mark(rows()[27].0) == 9910114);
    } else if i == 28 {
        assert(mark(rows()[28].0) == 12111413);
    } else if i == 29 {
        assert(mark(rows()[29].0) == 10004514);
    } else if i == 30 {
        assert(mark(rows()[30].0) == 9804514);
    }
}

/// No action is listed twice.
pub proof fn no_action_is_listed_twice(i: int, j: int)
    requires
        0 <= i < j < rows().len(),
    ensures
        rows()[i].0 != rows()[j].0,
{
    lemma_row(i);
    lemma_row(j);
}

/// What is said of an action is what its row says, and of an action without a row
/// nothing is said.
pub proof fn an_action_is_as_far_as_its_row_says(action: Seq<char>, i: int)
    requires
        0 <= i < rows().len(),
    ensures
        phase_in(rows(), rows()[i].0) == Some(rows()[i].1),
        (forall|j: int| 0 <= j < rows().len() ==> (#[trigger] rows()[j]).0 != action) ==> phase_in(
            rows(),
            action,
        ) is None,
{
    assert forall|j: int| 0 <= j < i implies (#[trigger] rows()[j]).0 != rows()[i].0 by {
        no_action_is_listed_twice(j, i);
    }
    lemma_phase(rows(), rows()[i].0, i);
    if forall|j: int| 0 <= j < rows().len() ==> (#[trigger] rows()[j]).0 != action {
        lemma_phase(rows(), action, rows().len() as int);
    }
}

/// The first row for an action is the one that counts.
proof fn lemma_phase(table: Seq<(Seq<char>, Phase)>, action: Seq<char>, i: int)
    requires
        0 <= i <= table.len(),
        i < table.len() ==> table[i].0 == action,
        forall|j: int| 0 <= j < i ==> (#[trigger] table[j]).0 != action,
    ensures
        i < table.len() ==> phase_in(table, action) == Some(table[i].1),
        i == table.len() ==> phase_in(table, action) is None,
    decreases i,
{
    if i > 0 {
        let rest = table.skip(1);
        assert forall|j: int| 0 <= j < i - 1 implies (#[trigger] rest[j]).0 != action by {
            assert(rest[j] == table[j + 1]);
        }
        assert(table[0].0 != action);
        lemma_phase(rest, action, i - 1);
    }
}

/// An action is listed as live if and only if one of its rows says that it is.
pub proof fn what_is_live_is_listed(table: Seq<(Seq<char>, Phase)>, action: Seq<char>)
    ensures
        live_in(table).contains(action) <==> exists|i: int|
            0 <= i < table.len() && (#[trigger] table[i]).0 == action && table[i].1
                == Phase::Implemented,
        live_in(table).len() <= table.len(),
    decreases table.len(),
{
    if table.len() > 0 {
        let init = table.drop_last();
        let n = table.len() - 1;
        what_is_live_is_listed(init, action);
        let before = live_in(init);
        if live_in(table).contains(action) {
            let k = choose|k: int| 0 <= k < live_in(table).len() && live_in(table)[k] == action;
            if k < before.len() {
                assert(before[k] == action);
                let i = choose|i: int|
                    0 <= i < init.len() && (#[trigger] init[i]).0 == action && init[i].1
                        == Phase::Implemented;
                assert(table[i] == init[i]);
            } else {
                assert(table[n].0 == action);
            }
        }
        if exists|i: int|
            0 <= i < table.len() && (#[trigger] table[i]).0 == action && table[i].1
                == Phase::Implemented {
            let i = choose|i: int|
                0 <= i < table.len() && (#[trigger] table[i]).0 == action && table[i].1
                    == Phase::Implemented;
            if i < n {
                assert(init[i] == table[i]);
                let k = choose|k: int| 0 <= k < before.len() && before[k] == action;
                assert(live_in(table)[k] == action);
            } else {
                assert(live_in(table)[before.len() as int] == action);
            }
        }
    }
}

/// A milestone is named for each phase, and no two phases share one.
pub proof fn each_phase_has_its_milestone(a: Phase, b: Phase)
    ensures
        a.milestone_text() == b.milestone_text() ==> a == b,
{
    reveal_strlit("M0");
    reveal_strlit("M3");
    reveal_strlit("M4");
    reveal_strlit("M7");
    assert("M0"@[1] == '0' && "M3"@[1] == '3' && "M4"@[1] == '4' && "M7"@[1] == '7');
}

} // verus!
