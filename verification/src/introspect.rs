//! What may be published of a login in progress: the step, what PAM asked,
//! whether the answer is to be masked, and how many attempts there were.
//!
//! Why an attempt failed is not published, and no answer is: neither is kept.
use vstd::prelude::*;
use crate::border::env::{MsgStyle, PamStep};
use crate::text;

verus! {

/// Whether a flow may be driven from outside, or only watched.
#[derive(Debug, Clone, Copy, PartialEq, Eq, Structural)]
pub enum Drivable {
    /// A real seat: read only.
    Observable,
    /// A scripted environment, which authenticates nobody.
    MockOnly,
}

/// A step, reduced to what may be published.
#[derive(Debug)]
pub struct StepView {
    pub kind: &'static str,
    pub prompt: Option<String>,
    pub echo: Option<bool>,
}

/// What a published step says.
pub struct StepText {
    pub kind: Seq<char>,
    pub prompt: Option<Seq<char>>,
    pub echo: Option<bool>,
}

impl StepView {
    pub open spec fn view(&self) -> StepText {
        StepText { kind: self.kind@, prompt: text::opt_text(self.prompt), echo: self.echo }
    }
}

impl Clone for StepView {
    fn clone(&self) -> (r: Self)
        ensures
            r == *self,
    {
        StepView { kind: self.kind, prompt: text::copy_opt(&self.prompt), echo: self.echo }
    }
}

/// What is published of a step. The class of a failure is no part of it.
pub open spec fn published(step: PamStep) -> StepText {
    match step {
        PamStep::Prompt { style, msg } => StepText {
            kind: "prompt"@,
            prompt: Some(msg.0@),
            echo: Some(style == MsgStyle::PromptEchoOn),
        },
        PamStep::Info { msg, .. } => StepText { kind: "info"@, prompt: Some(msg.0@), echo: None },
        PamStep::Complete => StepText { kind: "complete"@, prompt: None, echo: None },
        PamStep::Failed { .. } => StepText { kind: "failed"@, prompt: None, echo: None },
    }
}

/// What an observer can learn about a login in progress.
#[derive(Debug)]
pub struct LoginFlow {
    mode: Drivable,
    attempts: u64,
    failures: u64,
    successes: u64,
    current: Option<StepView>,
}

/// The state of a flow.
pub struct FlowState {
    pub mode: Drivable,
    pub attempts: u64,
    pub failures: u64,
    pub successes: u64,
    pub current: Option<StepText>,
}

/// A counter one further, past its largest value from zero again.
pub open spec fn bumped(n: u64) -> u64 {
    vstd::wrapping::u64_specs::wrapping_add(n, 1)
}

/// The state after a step was observed.
pub open spec fn observed(s: FlowState, step: PamStep) -> FlowState {
    FlowState {
        current: Some(published(step)),
        successes: if step is Complete { bumped(s.successes) } else { s.successes },
        failures: if step is Failed { bumped(s.failures) } else { s.failures },
        ..s
    }
}

/// The flat view of a flow.
#[derive(Debug)]
pub struct FlowSnapshot {
    pub mode: &'static str,
    pub may_drive: bool,
    pub attempts: u64,
    pub failures: u64,
    pub successes: u64,
    pub step_kind: Option<&'static str>,
    pub prompt: Option<String>,
    pub echo: Option<bool>,
}

pub open spec fn mode_text(m: Drivable) -> Seq<char> {
    match m {
        Drivable::Observable => "observable"@,
        Drivable::MockOnly => "mock-only"@,
    }
}

/// Whether `v` is the flat view of the state `s`.
pub open spec fn is_snapshot(s: FlowState, v: FlowSnapshot) -> bool {
    &&& v.mode@ == mode_text(s.mode)
    &&& v.may_drive == (s.mode == Drivable::MockOnly)
    &&& v.attempts == s.attempts
    &&& v.failures == s.failures
    &&& v.successes == s.successes
    &&& match s.current {
        None => v.step_kind is None && v.prompt is None && v.echo is None,
        Some(c) => (v.step_kind matches Some(k) && k@ == c.kind) && text::opt_text(v.prompt) == c.prompt
            && v.echo == c.echo,
    }
}

/// The value of one leaf of a queryable surface.
#[derive(Debug)]
pub enum Leaf {
    Text(&'static str),
    Flag(bool),
    Count(u64),
    MaybeText(Option<String>),
    MaybeName(Option<&'static str>),
    MaybeFlag(Option<bool>),
    Whole(FlowSnapshot),
}

/// The leaves that a flow answers, by name.
pub open spec fn flow_leaves() -> Seq<Seq<char>> {
    seq![
        "mode"@,
        "may_drive"@,
        "attempts"@,
        "failures"@,
        "successes"@,
        "step"@,
        "prompt"@,
        "echo"@,
    ]
}

/// Whether `l` is what the leaf `head` of a flow in the state `s` says.
pub open spec fn answers(s: FlowState, head: Seq<char>, l: Leaf) -> bool {
    if head == "mode"@ {
        l matches Leaf::Text(t) && t@ == mode_text(s.mode)
    } else if head == "may_drive"@ {
        l == Leaf::Flag(s.mode == Drivable::MockOnly)
    } else if head == "attempts"@ {
        l == Leaf::Count(s.attempts)
    } else if head == "failures"@ {
        l == Leaf::Count(s.failures)
    } else if head == "successes"@ {
        l == Leaf::Count(s.successes)
    } else if head == "step"@ {
        l matches Leaf::MaybeName(k) && match s.current {
            None => k is None,
            Some(c) => k matches Some(t) && t@ == c.kind,
        }
    } else if head == "prompt"@ {
        l matches Leaf::MaybeText(p) && text::opt_text(p) == (match s.current {
            None => None,
            Some(c) => c.prompt,
        })
    } else if head == "echo"@ {
        l matches Leaf::MaybeFlag(e) && e == (match s.current {
            None => None,
            Some(c) => c.echo,
        })
    } else {
        l matches Leaf::Whole(v) && is_snapshot(s, v)
    }
}

/// The first segment of a query's path; the empty text where there is none.
pub open spec fn head_of(path: Seq<String>) -> Seq<char> {
    if path.len() == 0 {
        Seq::empty()
    } else {
        path[0]@
    }
}

impl LoginFlow {
    pub closed spec fn view(&self) -> FlowState {
        FlowState {
            mode: self.mode,
            attempts: self.attempts,
            failures: self.failures,
            successes: self.successes,
            current: match self.current {
                Some(c) => Some(c@),
                None => None,
            },
        }
    }

    pub fn new(mode: Drivable) -> (f: Self)
        ensures
            f@ == (FlowState { mode, attempts: 0, failures: 0, successes: 0, current: None }),
    {
        LoginFlow { mode, attempts: 0, failures: 0, successes: 0, current: None }
    }

    pub fn mode(&self) -> (m: Drivable)
        ensures
            m == self@.mode,
    {
        self.mode
    }

    /// Whether the flow may be driven: on a real seat never.
    pub fn may_drive(&self) -> (r: bool)
        ensures
            r == (self@.mode == Drivable::MockOnly),
    {
        matches!(self.mode, Drivable::MockOnly)
    }

    /// Counts an attempt.
    pub fn began(&mut self)
        ensures
            final(self)@ == (FlowState { attempts: bumped(old(self)@.attempts), ..old(self)@ }),
    {
        self.attempts = self.attempts.wrapping_add(1);
    }

    /// Records the step that PAM has reached.
    pub fn observe(&mut self, step: &PamStep)
        ensures
            final(self)@ == observed(old(self)@, *step),
    {
        let view: StepView = match step {
            PamStep::Prompt { style, msg } => StepView {
                kind: "prompt",
                prompt: Some(msg.0.clone()),
                echo: Some(matches!(style, MsgStyle::PromptEchoOn)),
            },
            PamStep::Info { msg, .. } => StepView {
                kind: "info",
                prompt: Some(msg.0.clone()),
                echo: None,
            },
            PamStep::Complete => {
                self.successes = self.successes.wrapping_add(1);
                StepView { kind: "complete", prompt: None, echo: None }
            },
            PamStep::Failed { .. } => {
                self.failures = self.failures.wrapping_add(1);
                StepView { kind: "failed", prompt: None, echo: None }
            },
        };
        self.current = Some(view);
    }

    /// The whole publishable state.
    pub fn snapshot(&self) -> (v: FlowSnapshot)
        ensures
            is_snapshot(self@, v),
    {
        let mode: &'static str = match self.mode {
            Drivable::Observable => "observable",
            Drivable::MockOnly => "mock-only",
        };
        match &self.current {
            None => FlowSnapshot {
                mode,
                may_drive: self.may_drive(),
                attempts: self.attempts,
                failures: self.failures,
                successes: self.successes,
                step_kind: None,
                prompt: None,
                echo: None,
            },
            Some(c) => FlowSnapshot {
                mode,
                may_drive: self.may_drive(),
                attempts: self.attempts,
                failures: self.failures,
                successes: self.successes,
                step_kind: Some(c.kind),
                prompt: text::copy_opt(&c.prompt),
                echo: c.echo,
            },
        }
    }

    /// Answers a query: a leaf by its name, everything for the empty path, and
    /// the name itself as the error where no leaf has it.
    pub fn query(&self, path: &Vec<String>) -> (r: Result<Leaf, String>)
        ensures
            r is Ok <==> head_of(path@) == ""@ || flow_leaves().contains(head_of(path@)),
            r matches Ok(l) ==> answers(self@, head_of(path@), l),
            r matches Err(name) ==> name@ == head_of(path@),
    {
        let snap: FlowSnapshot = self.snapshot();
        let head: &str = if path.len() == 0 {
            ""
        } else {
            path[0].as_str()
        };
        proof {
            reveal_strlit("");
            assert(""@ =~= Seq::<char>::empty());
            let l = flow_leaves();
            assert(l[0] == "mode"@ && l[1] == "may_drive"@ && l[2] == "attempts"@ && l[3] == "failures"@
                && l[4] == "successes"@ && l[5] == "step"@ && l[6] == "prompt"@ && l[7] == "echo"@);
            lemma_leaves_are_named();
        }
        if text::same(head, "mode") {
            Ok(Leaf::Text(snap.mode))
        } else if text::same(head, "may_drive") {
            Ok(Leaf::Flag(snap.may_drive))
        } else if text::same(head, "attempts") {
            Ok(Leaf::Count(snap.attempts))
        } else if text::same(head, "failures") {
            Ok(Leaf::Count(snap.failures))
        } else if text::same(head, "successes") {
            Ok(Leaf::Count(snap.successes))
        } else if text::same(head, "step") {
            Ok(Leaf::MaybeName(snap.step_kind))
        } else if text::same(head, "prompt") {
            Ok(Leaf::MaybeText(snap.prompt))
        } else if text::same(head, "echo") {
            Ok(Leaf::MaybeFlag(snap.echo))
        } else if text::same(head, "") {
            Ok(Leaf::Whole(snap))
        } else {
            Err(head.to_owned())
        }
    }

    /// The names of the leaves.
    pub fn schema(&self) -> (v: Vec<&'static str>)
        ensures
            v@.map_values(|s: &'static str| s@) == flow_leaves(),
    {
        let mut v: Vec<&'static str> = Vec::new();
        v.push("mode");
        v.push("may_drive");
        v.push("attempts");
        v.push("failures");
        v.push("successes");
        v.push("step");
        v.push("prompt");
        v.push("echo");
        assert(v@.map_values(|s: &'static str| s@) =~= flow_leaves());
        v
    }
}

proof fn lemma_leaves_are_named()
    ensures
        !flow_leaves().contains(""@),
{
    reveal_strlit("");
    reveal_strlit("mode");
    reveal_strlit("may_drive");
    reveal_strlit("attempts");
    reveal_strlit("failures");
    reveal_strlit("successes");
    reveal_strlit("step");
    reveal_strlit("prompt");
    reveal_strlit("echo");
    assert forall|i: int| 0 <= i < flow_leaves().len() implies flow_leaves()[i].len() > 0 by {}
}

/// Which kind of failure it was cannot be learned: two failures of whatever
/// classes leave the same state.
pub proof fn failures_are_published_alike(s: FlowState, a: PamStep, b: PamStep)
    requires
        a is Failed,
        b is Failed,
    ensures
        observed(s, a) == observed(s, b),
{
}

/// An answer to an echo-off prompt is published as one to be masked, and only
/// the echo-on prompt is published as one to be echoed.
pub proof fn masking_is_published(s: FlowState, step: PamStep)
    requires
        step is Prompt,
    ensures
        observed(s, step).current->0.echo == Some(step->Prompt_style == MsgStyle::PromptEchoOn),
{
}

/// No leaf is called after the cause of a failure.
pub proof fn no_leaf_is_a_class()
    ensures
        !flow_leaves().contains("class"@),
{
    reveal_strlit("class");
    reveal_strlit("mode");
    reveal_strlit("may_drive");
    reveal_strlit("attempts");
    reveal_strlit("failures");
    reveal_strlit("successes");
    reveal_strlit("step");
    reveal_strlit("prompt");
    reveal_strlit("echo");
    assert("class"@[0] == 'c');
    assert forall|i: int| 0 <= i < flow_leaves().len() implies #[trigger] flow_leaves()[i] != "class"@ by {
        assert(flow_leaves()[i][0] != 'c');
    }
}

/// A step is published as what it is: its kind, the words of a prompt or a message
/// to the letter, and whether the answer may be shown. Each end counts one of its
/// own and nothing else, and no step counts an attempt.
pub proof fn a_step_is_published_as_it_is(s: FlowState, step: PamStep)
    ensures
        ({
            let t = observed(s, step);
            &&& t.mode == s.mode
            &&& t.attempts == s.attempts
            &&& step is Complete && s.successes < u64::MAX ==> t.successes == s.successes + 1
            &&& !(step is Complete) ==> t.successes == s.successes
            &&& step is Failed && s.failures < u64::MAX ==> t.failures == s.failures + 1
            &&& !(step is Failed) ==> t.failures == s.failures
            &&& t.current matches Some(c) && match step {
                PamStep::Prompt { style, msg } => {
                    &&& c.kind == "prompt"@
                    &&& c.prompt == Some(msg.0@)
                    &&& c.echo == Some(true) <==> style == MsgStyle::PromptEchoOn
                    &&& c.echo is Some
                },
                PamStep::Info { style: _, msg } => c.kind == "info"@ && c.prompt == Some(msg.0@)
                    && c.echo is None,
                PamStep::Complete => c.kind == "complete"@ && c.prompt is None && c.echo is None,
                PamStep::Failed { class: _ } => c.kind == "failed"@ && c.prompt is None && c.echo is None,
            }
        }),
{
}

/// A flat view holds what the state holds, and says that a flow may be driven if
/// and only if it is scripted.
pub proof fn a_snapshot_says_what_is_so(s: FlowState, v: FlowSnapshot)
    requires
        is_snapshot(s, v),
    ensures
        v.attempts == s.attempts,
        v.failures == s.failures,
        v.successes == s.successes,
        v.may_drive <==> s.mode is MockOnly,
        s.mode is MockOnly ==> v.mode@ == "mock-only"@,
        s.mode is Observable ==> v.mode@ == "observable"@,
        v.step_kind is Some <==> s.current is Some,
        s.current matches Some(c) ==> {
            &&& v.step_kind->0@ == c.kind
            &&& v.prompt is Some <==> c.prompt is Some
            &&& v.prompt is Some ==> v.prompt->0@ == c.prompt->0
            &&& v.echo == c.echo
        },
        s.current is None ==> v.prompt is None && v.echo is None,
{
}

/// Each leaf says what it is named after, and none says what another is named
/// after.
pub proof fn each_leaf_says_its_own(s: FlowState, l: Leaf)
    ensures
        answers(s, "mode"@, l) && s.mode is MockOnly ==> (l matches Leaf::Text(t) && t@
            == "mock-only"@),
        answers(s, "mode"@, l) && s.mode is Observable ==> (l matches Leaf::Text(t) && t@
            == "observable"@),
        answers(s, "may_drive"@, l) ==> l == Leaf::Flag(s.mode is MockOnly),
        answers(s, "attempts"@, l) ==> l == Leaf::Count(s.attempts),
        answers(s, "failures"@, l) ==> l == Leaf::Count(s.failures),
        answers(s, "successes"@, l) ==> l == Leaf::Count(s.successes),
        answers(s, "step"@, l) ==> (l matches Leaf::MaybeName(k) && match s.current {
            None => k is None,
            Some(c) => k matches Some(t) && t@ == c.kind,
        }),
        answers(s, "prompt"@, l) ==> (l matches Leaf::MaybeText(p) && match s.current {
            None => p is None,
            Some(c) => match c.prompt {
                None => p is None,
                Some(words) => p matches Some(t) && t@ == words,
            },
        }),
        answers(s, "echo"@, l) ==> (l matches Leaf::MaybeFlag(e) && match s.current {
            None => e is None,
            Some(c) => e == c.echo,
        }),
        answers(s, ""@, l) ==> l is Whole,
{
    reveal_strlit("");
    reveal_strlit("mode");
    reveal_strlit("may_drive");
    reveal_strlit("attempts");
    reveal_strlit("failures");
    reveal_strlit("successes");
    reveal_strlit("step");
    reveal_strlit("prompt");
    reveal_strlit("echo");
    assert("mode"@.len() == 4 && "may_drive"@.len() == 9 && "attempts"@.len() == 8 && "failures"@.len()
        == 8 && "successes"@.len() == 9 && "step"@.len() == 4 && "prompt"@.len() == 6
        && "echo"@.len() == 4 && ""@.len() == 0);
    assert("mode"@[0] == 'm' && "may_drive"@[0] == 'm' && "attempts"@[0] == 'a' && "failures"@[0]
        == 'f' && "successes"@[0] == 's' && "step"@[0] == 's' && "echo"@[0] == 'e');
}

} // verus!
