//! libpam's callback, on plain values: the messages come in as numbers and
//! text, and what goes back is a response per message or a refusal.
use vstd::prelude::*;
use crate::border::capability::into_wire;
use crate::border::env::{MsgStyle, PamAnswer, PamError, PamStep, PromptText};
use crate::host::bridge::{keeps, ConvSide};
use crate::host::codes::{PAM_CONV_ERR, PAM_PROMPT_ECHO_OFF, PAM_PROMPT_ECHO_ON};
use crate::text;

verus! {

/// A message of libpam: its style and its text.
pub struct PamMessage {
    pub style: i32,
    pub msg: String,
}

/// What a style asks for: a prompt of the border's style, or nothing but showing.
pub open spec fn prompt_style(style: i32) -> Option<MsgStyle> {
    if style == PAM_PROMPT_ECHO_OFF {
        Some(MsgStyle::PromptEchoOff)
    } else if style == PAM_PROMPT_ECHO_ON {
        Some(MsgStyle::PromptEchoOn)
    } else {
        None
    }
}

/// What a style of libpam asks for.
pub fn style_of(style: i32) -> (s: Option<MsgStyle>)
    ensures
        s == prompt_style(style),
{
    if style == PAM_PROMPT_ECHO_OFF {
        Some(MsgStyle::PromptEchoOff)
    } else if style == PAM_PROMPT_ECHO_ON {
        Some(MsgStyle::PromptEchoOn)
    } else {
        None
    }
}

/// The text that an answer is handed to libpam as.
pub open spec fn answer_text(a: PamAnswer) -> Seq<char> {
    match a {
        PamAnswer::Visible(v) => v@,
        PamAnswer::Secret(p) => p@,
    }
}

/// The text of an answer, if it can become a C string. The answer is consumed.
pub fn wire_text(a: PamAnswer) -> (r: Option<String>)
    ensures
        r is Some <==> !answer_text(a).contains('\0'),
        r matches Some(s) ==> s@ == answer_text(a),
{
    let owned: String = match a {
        PamAnswer::Visible(v) => v,
        PamAnswer::Secret(p) => into_wire(p),
    };
    if text::has_char(owned.as_str(), '\0') {
        None
    } else {
        Some(owned)
    }
}

/// What a message gets for what the face said: `None` fails the conversation,
/// `Some(None)` is a slot without a response.
pub fn response_for(style: i32, answer: Option<Result<PamAnswer, PamError>>) -> (r: Option<
    Option<String>,
>)
    ensures
        match (prompt_style(style), answer) {
            (None, _) => r == Some::<Option<String>>(None),
            (Some(_), Some(Ok(a))) => if answer_text(a).contains('\0') {
                r is None
            } else {
                r matches Some(Some(s)) && s@ == answer_text(a)
            },
            (Some(_), _) => r is None,
        },
{
    if style_of(style).is_none() {
        return Some(None);
    }
    match answer {
        Some(Ok(a)) => match wire_text(a) {
            Some(s) => Some(Some(s)),
            None => None,
        },
        _ => None,
    }
}

/// How many of the messages are prompts.
pub open spec fn prompts(msgs: Seq<Option<PamMessage>>) -> nat
    decreases msgs.len(),
{
    if msgs.len() == 0 {
        0
    } else {
        prompts(msgs.drop_last()) + match msgs.last() {
            Some(m) if prompt_style(m.style) is Some => 1nat,
            _ => 0nat,
        }
    }
}

/// Whether `v` is what the messages get for the answers, which came in the
/// order of the prompts: one slot for each message, the answer's text for a
/// prompt and nothing for anything else.
pub open spec fn is_answered(
    msgs: Seq<Option<PamMessage>>,
    answers: Seq<PamAnswer>,
    v: Seq<Option<String>>,
) -> bool {
    &&& v.len() == msgs.len()
    &&& answers.len() == prompts(msgs)
    &&& forall|i: int|
        #![trigger v[i]]
        0 <= i < msgs.len() ==> (msgs[i] matches Some(m) && match prompt_style(m.style) {
            None => v[i] is None,
            Some(_) => v[i] matches Some(s) && s@ == answer_text(answers[prompts(msgs.take(i)) as int])
                && !s@.contains('\0'),
        })
}

/// Whether the callback was called with everything it needs: somewhere to
/// respond, a face to ask, and at least one message. Anything else is refused
/// without touching what it was handed.
pub fn callable(num_msg: i32, has_msgs: bool, has_resp: bool, has_side: bool) -> (r: Result<usize, i32>)
    ensures
        r == (if has_resp && has_msgs && has_side && num_msg > 0 {
            Ok::<usize, i32>(num_msg as usize)
        } else {
            Err(PAM_CONV_ERR)
        }),
{
    if !has_resp || !has_msgs || !has_side || num_msg <= 0 {
        Err(PAM_CONV_ERR)
    } else {
        Ok(num_msg as usize)
    }
}

/// Whether `step` is what a message is handed to the face as.
pub open spec fn is_step(m: PamMessage, step: PamStep) -> bool {
    match prompt_style(m.style) {
        Some(style) => step matches PamStep::Prompt { style: s, msg } && s == style && msg.0 == m.msg,
        None => step matches PamStep::Info { style: s, msg } && s == MsgStyle::TextInfo && msg.0 == m.msg,
    }
}

/// Whether `steps` are the messages as they are handed to the face, in order.
pub open spec fn are_steps(msgs: Seq<Option<PamMessage>>, steps: Seq<PamStep>) -> bool {
    &&& steps.len() <= msgs.len()
    &&& forall|i: int|
        #![trigger steps[i]]
        #![trigger msgs[i]]
        0 <= i < steps.len() ==> msgs[i] is Some && is_step(msgs[i]->0, steps[i])
}

/// Whether the conversation cannot go on, where the face was handed the first
/// `n` messages and answered with `answers`: the next message is null, or the
/// last was a prompt that got no answer or one that cannot become a C string.
pub open spec fn is_stuck(msgs: Seq<Option<PamMessage>>, n: int, answers: Seq<PamAnswer>) -> bool {
    ||| n < msgs.len() && msgs[n] is None
    ||| {
        &&& 0 < n <= msgs.len()
        &&& msgs[n - 1] matches Some(m)
        &&& prompt_style(m.style) is Some
        &&& answers.len() < prompts(msgs.take(n)) || answer_text(answers.last()).contains('\0')
    }
}

/// The callback, once it is callable. Each message goes to the face in its
/// order, a prompt to be answered and anything else to be shown, and each
/// prompt gets the answer that came for it. All prompts are answered or none
/// is: a null message, a face that is gone or an answer that cannot become a C
/// string refuses the whole conversation. What the face answers depends on whom
/// it talks to.
pub fn bridging_conv(msgs: &Vec<Option<PamMessage>>, side: &mut ConvSide) -> (r: Result<
    Vec<Option<String>>,
    i32,
>)
    ensures
        keeps(*old(side), *final(side)),
        final(side).put().len() >= old(side).put().len(),
        final(side).put().take(old(side).put().len() as int) == old(side).put(),
        are_steps(msgs@, final(side).put().skip(old(side).put().len() as int)),
        final(side).answers().len() >= old(side).answers().len(),
        final(side).answers().take(old(side).answers().len() as int) == old(side).answers(),
        ({
            let n = final(side).put().len() - old(side).put().len();
            let answers = final(side).answers().skip(old(side).answers().len() as int);
            match r {
                Ok(v) => n == msgs@.len() && is_answered(msgs@, answers, v@),
                Err(code) => code == PAM_CONV_ERR && is_stuck(msgs@, n, answers),
            }
        }),
{
    let ghost before = side.put();
    let ghost at = before.len() as int;
    let ghost quiet = side.answers();
    let ghost from = quiet.len() as int;
    let mut v: Vec<Option<String>> = Vec::new();
    let mut i: usize = 0;
    proof {
        assert(before.take(at) =~= before);
        assert(quiet.take(from) =~= quiet);
        assert(msgs@.take(0) =~= Seq::empty());
    }
    while i < msgs.len()
        invariant
            i <= msgs.len(),
            v@.len() == i,
            keeps(*old(side), *side),
            before == old(side).put(),
            at == before.len(),
            quiet == old(side).answers(),
            from == quiet.len(),
            side.put().len() == at + i,
            side.put().take(at) == before,
            are_steps(msgs@, side.put().skip(at)),
            side.answers().len() == from + prompts(msgs@.take(i as int)),
            side.answers().take(from) == quiet,
            forall|j: int|
                #![trigger v@[j]]
                0 <= j < i ==> (msgs@[j] matches Some(m) && match prompt_style(m.style) {
                    None => v@[j] is None,
                    Some(_) => prompts(msgs@.take(j)) < prompts(msgs@.take(i as int)) && (
                    v@[j] matches Some(s) && s@ == answer_text(
                        side.answers().skip(from)[prompts(msgs@.take(j)) as int],
                    ) && !s@.contains('\0')),
                }),
        decreases msgs.len() - i,
    {
        proof {
            assert(msgs@.take(i as int + 1).drop_last() =~= msgs@.take(i as int));
            assert(msgs@.take(i as int + 1).last() == msgs@[i as int]);
        }
        match &msgs[i] {
            None => {
                assert(msgs@[i as int] is None);
                return Err(PAM_CONV_ERR);
            },
            Some(m) => {
                assert(msgs@[i as int] == Some(*m));
                let ghost prior = side.put();
                let ghost answers = side.answers();
                let said: Option<Result<PamAnswer, PamError>> = match style_of(m.style) {
                    Some(style) => Some(side.ask(style, PromptText(m.msg.clone()))),
                    None => {
                        let _ = side.tell(MsgStyle::TextInfo, PromptText(m.msg.clone()));
                        None
                    },
                };
                proof {
                    let last = side.put().last();
                    assert(side.put().skip(at) =~= prior.skip(at).push(last));
                    assert(side.put().take(at) =~= prior.take(at));
                    assert(side.answers().take(from) =~= answers.take(from));
                    assert(is_step(*m, last));
                    let steps = side.put().skip(at);
                    assert forall|j: int|
                        #![trigger steps[j]]
                        #![trigger msgs@[j]]
                        0 <= j < steps.len() implies msgs@[j] is Some && is_step(msgs@[j]->0, steps[j]) by {
                        if j < i {
                            assert(steps[j] == prior.skip(at)[j]);
                        } else {
                            assert(steps[j] == last);
                        }
                    }
                    assert(said matches Some(Ok(a)) ==> side.answers().skip(from).last() == a);
                    assert forall|k: int| 0 <= k < answers.len() - from implies #[trigger] side.answers().skip(
                        from,
                    )[k] == answers.skip(from)[k] by {}
                }
                match response_for(m.style, said) {
                    None => {
                        return Err(PAM_CONV_ERR);
                    },
                    Some(slot) => {
                        v.push(slot);
                    },
                }
            },
        }
        i = i + 1;
    }
    proof {
        assert(msgs@.take(msgs@.len() as int) =~= msgs@);
    }
    Ok(v)
}

/// The callback of a transaction without a face: it refuses every shape.
pub fn refusing_conv() -> (rc: i32)
    ensures
        rc == PAM_CONV_ERR,
{
    PAM_CONV_ERR
}

/// As many of the first `n` messages are prompts as are listed before them.
proof fn lemma_prompts(msgs: Seq<Option<PamMessage>>, at: Seq<int>, n: int, c: int)
    requires
        0 <= n <= msgs.len(),
        0 <= c <= at.len(),
        forall|k: int| 0 <= k < at.len() ==> 0 <= #[trigger] at[k] < msgs.len(),
        forall|k: int, l: int| 0 <= k < l < at.len() ==> at[k] < at[l],
        forall|k: int| 0 <= k < c ==> #[trigger] at[k] < n,
        forall|k: int| c <= k < at.len() ==> #[trigger] at[k] >= n,
        forall|i: int|
            0 <= i < msgs.len() ==> (at.contains(i) <==> (#[trigger] msgs[i] is Some && ((
            msgs[i]->0).style == 1 || (msgs[i]->0).style == 2))),
    ensures
        prompts(msgs.take(n)) == c,
    decreases n,
{
    if n > 0 {
        let i = n - 1;
        assert(msgs.take(n).drop_last() =~= msgs.take(i));
        assert(msgs.take(n).last() == msgs[i]);
        if at.contains(i) {
            let k = choose|k: int| 0 <= k < at.len() && at[k] == i;
            if k + 1 < c {
                assert(at[k] < at[k + 1] && at[k + 1] < n);
            }
            assert(k == c - 1);
            assert forall|j: int| 0 <= j < c - 1 implies #[trigger] at[j] < i by {
                assert(at[j] < at[c - 1]);
            }
            lemma_prompts(msgs, at, i, c - 1);
        } else {
            assert forall|j: int| 0 <= j < c implies #[trigger] at[j] < i by {
                assert(at.contains(at[j]));
            }
            lemma_prompts(msgs, at, i, c);
        }
    } else if c > 0 {
        assert(at[0] < 0);
    }
}

/// The prompts are answered one for one. Where `at` lists the messages that are
/// prompts, in order, there are as many answers, the text of each answer is in the
/// slot of its prompt to the letter, and every other slot is empty.
pub proof fn each_prompt_gets_its_own_answer(
    msgs: Seq<Option<PamMessage>>,
    answers: Seq<PamAnswer>,
    v: Seq<Option<String>>,
    at: Seq<int>,
)
    requires
        is_answered(msgs, answers, v),
        forall|k: int| 0 <= k < at.len() ==> 0 <= #[trigger] at[k] < msgs.len(),
        forall|k: int, l: int| 0 <= k < l < at.len() ==> at[k] < at[l],
        forall|i: int|
            0 <= i < msgs.len() ==> (at.contains(i) <==> (#[trigger] msgs[i] is Some && ((
            msgs[i]->0).style == 1 || (msgs[i]->0).style == 2))),
    ensures
        v.len() == msgs.len(),
        answers.len() == at.len(),
        forall|k: int|
            0 <= k < at.len() ==> match #[trigger] answers[k] {
                PamAnswer::Visible(a) => v[at[k]] matches Some(s) && s@ == a@,
                PamAnswer::Secret(p) => v[at[k]] matches Some(s) && s@ == p@,
            },
        forall|i: int|
            #![trigger v[i]]
            0 <= i < v.len() && !at.contains(i) ==> v[i] is None,
{
    assert(msgs.take(msgs.len() as int) =~= msgs);
    lemma_prompts(msgs, at, msgs.len() as int, at.len() as int);
    assert forall|k: int| 0 <= k < at.len() implies match #[trigger] answers[k] {
        PamAnswer::Visible(a) => v[at[k]] matches Some(s) && s@ == a@,
        PamAnswer::Secret(p) => v[at[k]] matches Some(s) && s@ == p@,
    } by {
        let i = at[k];
        assert(at.contains(i));
        lemma_prompts(msgs, at, i, k);
        assert(v[i] is Some);
    }
    assert forall|i: int|
        #![trigger v[i]]
        0 <= i < v.len() && !at.contains(i) implies v[i] is None by {
        assert(msgs[i] is Some);
    }
}

/// The face sees each message in its own words and in its place: what may not
/// echo as a masked prompt, what may as a plain one, anything else as a message.
pub proof fn the_face_sees_each_message(
    msgs: Seq<Option<PamMessage>>,
    steps: Seq<PamStep>,
    i: int,
)
    requires
        are_steps(msgs, steps),
        0 <= i < steps.len(),
    ensures
        msgs[i] matches Some(m) && {
            &&& m.style == 1 ==> (steps[i] matches PamStep::Prompt { style, msg } && style
                == MsgStyle::PromptEchoOff && msg.0@ == m.msg@)
            &&& m.style == 2 ==> (steps[i] matches PamStep::Prompt { style, msg } && style
                == MsgStyle::PromptEchoOn && msg.0@ == m.msg@)
            &&& m.style != 1 && m.style != 2 ==> (steps[i] matches PamStep::Info { style, msg }
                && style == MsgStyle::TextInfo && msg.0@ == m.msg@)
        },
{
}

/// A conversation that is refused has a reason: a message that is null, or a
/// prompt that was put to the face and got no answer, or an answer with a NUL.
pub proof fn a_refused_conversation_has_a_reason(
    msgs: Seq<Option<PamMessage>>,
    n: int,
    answers: Seq<PamAnswer>,
)
    requires
        0 <= n <= msgs.len(),
        is_stuck(msgs, n, answers),
    ensures
        n < msgs.len() && msgs[n] is None || 0 < n && (msgs[n - 1] matches Some(m) && (m.style == 1
            || m.style == 2)) && (answers.len() < prompts(msgs.take(n)) || match answers.last() {
            PamAnswer::Visible(a) => a@.contains('\0'),
            PamAnswer::Secret(p) => p@.contains('\0'),
        }),
{
}

} // verus!
