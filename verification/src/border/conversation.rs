//! The conversation: the driver that turns what PAM asks and what a face
//! answers into a verdict, and the one producer of a proof.
//!
//! PAM asks one thing at a time, and what it asks next depends on the answer.
//! The driver asks what is wanted until the transaction completes, fails, or
//! the bound on its steps is reached.
use vstd::prelude::*;
use crate::border::capability::{
    keyring_text, AuthProof, Authenticated, Denied, KeyringUnlock, SeatCapability,
};
use crate::border::env::{
    lemma_went_on, user_text, went, AcctVerdict, MsgStyle, PamAnswer, PamClass, PamError, PamEvent,
    PamStep, PromptText, SeatEnv,
};
use crate::border::ids::{PamHandleId, SeatId, ServiceName, Uid, UserName};

verus! {

/// What a face is asked.
#[derive(Debug, Clone, PartialEq, Eq)]
pub enum Ask {
    /// Answer this, masked.
    Secret(PromptText),
    /// Answer this, echoed.
    Visible(PromptText),
    /// Show this; no answer is wanted.
    Tell(PromptText),
}

/// What passed between the driver and a face: the ask, and what came back.
pub type Said = (Ask, Option<PamAnswer>);

/// What passed between the driver and a face so far, in order. It exists in
/// proofs alone: a face outside them has no value of it to give.
pub type Transcript = Seq<Said>;

/// A face: what talks to a human.
pub trait Face: Sized {
    /// The asks so far with their answers, the latest last.
    spec fn said(&self) -> Transcript;

    /// Answers an ask; `None` means that the human gave up.
    fn respond(&mut self, ask: &Ask) -> (r: Option<PamAnswer>)
        ensures
            final(self).said() == old(self).said().push((*ask, r)),
    ;
}

/// The verdict of one conversation.
pub enum Outcome {
    /// Authenticated: the proof, and what it unlocks.
    Authenticated { auth_proof: AuthProof, keyring: Option<KeyringUnlock> },
    /// PAM said no.
    Denied { cap: SeatCapability<Denied>, class: PamClass },
    /// The human walked away. No denial, and no attempt.
    Abandoned,
    /// Authenticated, but a new token is needed before a session may start.
    TokenChangeRequired { handle: PamHandleId },
}

/// How the asking ended.
pub enum Asked {
    /// The bound on the steps was reached.
    TooLong,
    /// The environment failed.
    Broke(PamError),
    /// The human walked away, and this came of ending the transaction.
    WalkedAway(Result<(), PamError>),
    /// PAM said no.
    Refused(PamClass),
    /// PAM is satisfied.
    Completed,
}

/// What a face is asked for a prompt: masked for the secret style, else echoed.
pub open spec fn ask_for(style: MsgStyle, msg: PromptText) -> Ask {
    if style == MsgStyle::PromptEchoOff {
        Ask::Secret(msg)
    } else {
        Ask::Visible(msg)
    }
}

/// Whether `ev` and `sv` are what asking for at most `left` steps does with
/// the transaction `h`, and `end` how it ends. `ev` are the calls to the
/// environment and `sv` is what the face was asked and said.
pub open spec fn asking(
    h: PamHandleId,
    left: nat,
    ev: Seq<PamEvent>,
    sv: Seq<Said>,
    end: Asked,
) -> bool
    decreases left,
{
    if left == 0 {
        ev.len() == 0 && sv.len() == 0 && end is TooLong
    } else {
        &&& ev.len() > 0
        &&& ev[0] matches PamEvent::Next { h: g, r }
        &&& g == h
        &&& match r {
            Err(e) => ev.len() == 1 && sv.len() == 0 && end == Asked::Broke(e),
            Ok(PamStep::Failed { class }) => ev.len() == 1 && sv.len() == 0 && end == Asked::Refused(
                class,
            ),
            Ok(PamStep::Complete) => ev.len() == 1 && sv.len() == 0 && end is Completed,
            Ok(PamStep::Info { msg, .. }) => {
                &&& sv.len() > 0
                &&& sv[0].0 == Ask::Tell(msg)
                &&& asking(h, (left - 1) as nat, ev.skip(1), sv.skip(1), end)
            },
            Ok(PamStep::Prompt { style, msg }) => {
                &&& sv.len() > 0
                &&& sv[0].0 == ask_for(style, msg)
                &&& ev.len() > 1
                &&& match sv[0].1 {
                    None => {
                        &&& ev.len() == 2 && sv.len() == 1
                        &&& ev[1] matches PamEvent::End { h: g2, r: r2 }
                        &&& g2 == h
                        &&& end == Asked::WalkedAway(r2)
                    },
                    Some(answer) => {
                        &&& ev[1] matches PamEvent::Answer { h: g2, a, r: r2 }
                        &&& g2 == h
                        &&& a == answer
                        &&& match r2 {
                            Err(e) => ev.len() == 2 && sv.len() == 1 && end == Asked::Broke(e),
                            Ok(_) => asking(h, (left - 1) as nat, ev.skip(2), sv.skip(1), end),
                        }
                    },
                }
            },
        }
    }
}

/// Whether `r` is the denial of the transaction `h` on `seat` with `class`.
pub open spec fn is_denial(
    r: Result<Outcome, PamError>,
    seat: Seq<char>,
    h: PamHandleId,
    class: PamClass,
) -> bool {
    r matches Ok(Outcome::Denied { cap, class: c }) && c == class && cap.on_seat() == seat
        && cap.handle() == h && cap.who() == Uid(u32::MAX)
}

/// Whether `ev` is what settling a completed transaction `h` does and `r` what
/// comes of it: the account is asked for first, and only where it may be used
/// is a proof minted, for the principal that the environment then names. The
/// environment came from `start` to here by the calls `before`, and `last` is
/// what it is in the end.
pub open spec fn settling<E: SeatEnv>(
    start: E,
    before: Seq<PamEvent>,
    last: E,
    h: PamHandleId,
    seat: Seq<char>,
    ev: Seq<PamEvent>,
    r: Result<Outcome, PamError>,
) -> bool {
    &&& ev.len() > 0
    &&& ev[0] matches PamEvent::AcctMgmt { h: g, r: verdict }
    &&& g == h
    &&& match verdict {
        Err(e) => ev.len() == 1 && r == Err::<Outcome, PamError>(e),
        Ok(AcctVerdict::NewAuthTokRequired) => ev.len() == 1 && r == Ok::<Outcome, PamError>(
            Outcome::TokenChangeRequired { handle: h },
        ),
        Ok(AcctVerdict::AcctExpired) => ev.len() == 1 && is_denial(
            r,
            seat,
            h,
            PamClass::CredInsufficient,
        ),
        Ok(AcctVerdict::PermDenied) => ev.len() == 1 && is_denial(r, seat, h, PamClass::AuthError),
        Ok(AcctVerdict::Okay) => exists|now: E, named: Result<Uid, PamError>|
            {
                &&& went(start, before.push(ev[0]), now)
                &&& went(now, ev.skip(1), last)
                &&& #[trigger] now.uid_answer(h, named)
                &&& match named {
                    Err(e) => ev.len() == 1 && r == Err::<Outcome, PamError>(e),
                    Ok(uid) => {
                        &&& ev.len() == 2
                        &&& ev[1] matches PamEvent::MintProof { h: g2, uid: u, r: minted }
                        &&& g2 == h
                        &&& u == uid
                        &&& match minted {
                            Err(e) => r == Err::<Outcome, PamError>(e),
                            Ok(made) => {
                                &&& r matches Ok(Outcome::Authenticated { auth_proof: p, keyring })
                                &&& p == made
                                &&& keyring_text(keyring) == made.authtok()
                            },
                        }
                    },
                }
            },
    }
}

/// The error of a conversation that was cut off at its bound.
pub open spec fn too_long() -> PamError {
    PamError::OutOfOrder("conversation exceeded max_steps")
}

/// What a conversation does: `ev` are its calls to the environment, which they
/// take from `start` to `last`, `sv` is what passed between it and the face, `r`
/// is the verdict. `k` is how many of the calls belong to the start and the
/// asking, and `end` how the asking ended.
pub open spec fn conversed<E: SeatEnv>(
    start: E,
    last: E,
    svc: Seq<char>,
    user: Option<Seq<char>>,
    seat: Seq<char>,
    max_steps: nat,
    ev: Seq<PamEvent>,
    sv: Seq<Said>,
    r: Result<Outcome, PamError>,
    k: int,
    end: Asked,
) -> bool {
    &&& went(start, ev, last)
    &&& ev.len() > 0
    &&& ev[0] matches PamEvent::Start { svc: s, user: u, r: started }
    &&& s == svc
    &&& u == user
    &&& match started {
        Err(e) => ev.len() == 1 && sv.len() == 0 && r == Err::<Outcome, PamError>(e),
        Ok(h) => {
            &&& 1 <= k <= ev.len()
            &&& asking(h, max_steps, ev.subrange(1, k), sv, end)
            &&& match end {
                Asked::TooLong => k == ev.len() && r == Err::<Outcome, PamError>(too_long()),
                Asked::Broke(e) => k == ev.len() && r == Err::<Outcome, PamError>(e),
                Asked::WalkedAway(Err(e)) => k == ev.len() && r == Err::<Outcome, PamError>(e),
                Asked::WalkedAway(Ok(_)) => k == ev.len() && r == Ok::<Outcome, PamError>(
                    Outcome::Abandoned,
                ),
                Asked::Refused(class) => k == ev.len() && is_denial(r, seat, h, class),
                Asked::Completed => settling::<E>(start, ev.take(k), last, h, seat, ev.skip(k), r),
            }
        },
    }
}

/// Drives one conversation to a verdict.
pub struct Conversation<'a, E: SeatEnv, F: Face> {
    pub env: &'a mut E,
    pub face: &'a mut F,
    pub seat: SeatId,
}

impl<'a, E: SeatEnv, F: Face> Conversation<'a, E, F> {
    pub fn new(env: &'a mut E, face: &'a mut F, seat: SeatId) -> (c: Self)
        ensures
            *c.env == *old(env),
            *c.face == *old(face),
            *final(c.env) == *final(env),
            *final(c.face) == *final(face),
            c.seat == seat,
    {
        Conversation { env, face, seat }
    }

    /// Runs the conversation. `user` may be absent: PAM then asks for the name.
    pub fn run(&mut self, svc: &ServiceName, user: Option<&UserName>, max_steps: usize) -> (r: Result<
        Outcome,
        PamError,
    >)
        ensures
            final(self).seat == old(self).seat,
            *final(final(self).env) == *final(old(self).env),
            *final(final(self).face) == *final(old(self).face),
            (*final(self).env).trace().len() >= (*old(self).env).trace().len(),
            (*final(self).env).trace().take((*old(self).env).trace().len() as int) == (*old(
                self,
            ).env).trace(),
            (*final(self).face).said().len() >= (*old(self).face).said().len(),
            (*final(self).face).said().take((*old(self).face).said().len() as int) == (*old(
                self,
            ).face).said(),
            exists|k: int, end: Asked| #[trigger]
                conversed::<E>(
                    *old(self).env,
                    *final(self).env,
                    svc@,
                    user_text(user),
                    old(self).seat@,
                    max_steps as nat,
                    (*final(self).env).trace().skip((*old(self).env).trace().len() as int),
                    (*final(self).face).said().skip((*old(self).face).said().len() as int),
                    r,
                    k,
                    end,
                ),
    {
        let ghost begun = *self.env;
        let ghost t0 = (*self.env).trace();
        let ghost s0 = (*self.face).said();
        let ghost at = t0.len() as int;
        let ghost sat = s0.len() as int;
        let ghost seat = self.seat@;
        let started: Result<PamHandleId, PamError> = self.env.pam_start(svc, user);
        let ghost first = (*self.env).trace().last();
        // `calls` are all calls so far, which took the environment from where it
        // was to where it is.
        let ghost mut calls: Seq<PamEvent> = Seq::<PamEvent>::empty().push(first);
        proof {
            lemma_went_on(begun, Seq::empty(), begun, first, *self.env);
            assert(calls =~= seq![first]);
            assert((*self.env).trace().skip(at) =~= seq![first]);
            assert((*self.env).trace().take(at) =~= t0);
            assert((*self.face).said().skip(sat) =~= Seq::<Said>::empty());
            assert((*self.face).said().take(sat) =~= s0);
        }
        let h: PamHandleId = match started {
            Err(e) => {
                proof {
                    assert(conversed::<E>(
                        begun,
                        *self.env,
                        svc@,
                        user_text(user),
                        seat,
                        max_steps as nat,
                        (*self.env).trace().skip(at),
                        (*self.face).said().skip(sat),
                        Err(e),
                        1,
                        Asked::TooLong,
                    ));
                }
                return Err(e);
            },
            Ok(h) => h,
        };
        // `done` and `told` are the calls and the words so far: whatever asking
        // for the steps that are left would do, asking from the start does after them.
        let ghost mut done: Seq<PamEvent> = Seq::empty();
        let ghost mut told: Seq<Said> = Seq::empty();
        proof {
            assert forall|ev: Seq<PamEvent>, sv: Seq<Said>, end: Asked| #[trigger]
                asking(h, max_steps as nat, ev, sv, end) implies asking(
                h,
                max_steps as nat,
                done + ev,
                told + sv,
                end,
            ) by {
                assert(done + ev =~= ev);
                assert(told + sv =~= sv);
            }
        }
        let mut steps: usize = 0;
        loop
            invariant_except_break
                forall|ev: Seq<PamEvent>, sv: Seq<Said>, end: Asked| #[trigger]
                    asking(h, (max_steps - steps) as nat, ev, sv, end) ==> asking(
                        h,
                        max_steps as nat,
                        done + ev,
                        told + sv,
                        end,
                    ),
            invariant
                steps <= max_steps,
                begun == *old(self).env,
                calls == seq![first] + done,
                went(begun, calls, *self.env),
                self.seat@ == seat,
                self.seat == old(self).seat,
                seat == old(self).seat@,
                t0 == (*old(self).env).trace(),
                s0 == (*old(self).face).said(),
                at == t0.len(),
                sat == s0.len(),
                first == (PamEvent::Start { svc: svc@, user: user_text(user), r: Ok(h) }),
                (*self.env).trace() == t0.push(first) + done,
                (*self.face).said() == s0 + told,
                *final(self.env) == *final(old(self).env),
                *final(self.face) == *final(old(self).face),
            ensures
                begun == *old(self).env,
                calls == seq![first] + done,
                went(begun, calls, *self.env),
                self.seat@ == seat,
                self.seat == old(self).seat,
                (*self.env).trace() == t0.push(first) + done,
                (*self.face).said() == s0 + told,
                *final(self.env) == *final(old(self).env),
                *final(self.face) == *final(old(self).face),
                asking(h, max_steps as nat, done, told, Asked::Completed),
            decreases max_steps - steps,
        {
            let ghost left = (max_steps - steps) as nat;
            if steps == max_steps {
                proof {
                    lemma_ended::<E>(
                        begun, *self.env, calls,
                        t0, first, h, svc@, user_text(user), seat, max_steps as nat, left, done, told,
                        Seq::empty(), Seq::empty(), (*self.env).trace(), s0, (*self.face).said(),
                        Asked::TooLong, Err(too_long()),
                    );
                }
                return Err(PamError::OutOfOrder("conversation exceeded max_steps"));
            }
            steps = steps + 1;
            let ghost mid = *self.env;
            let next: Result<PamStep, PamError> = self.env.pam_next(h);
            let ghost e0 = (*self.env).trace().last();
            proof {
                lemma_went_on(begun, calls, mid, e0, *self.env);
                calls = calls.push(e0);
            }
            let step: PamStep = match next {
                Err(e) => {
                    proof {
                        lemma_ended::<E>(
                            begun, *self.env, calls,
                            t0, first, h, svc@, user_text(user), seat, max_steps as nat, left, done, told,
                            seq![e0], Seq::empty(), (*self.env).trace(), s0, (*self.face).said(),
                            Asked::Broke(e), Err(e),
                        );
                    }
                    return Err(e);
                },
                Ok(step) => step,
            };
            match step {
                PamStep::Prompt { style, msg } => {
                    let ask: Ask = if style.is_secret() {
                        Ask::Secret(msg)
                    } else {
                        Ask::Visible(msg)
                    };
                    let reply: Option<PamAnswer> = self.face.respond(&ask);
                    let ghost w0 = (*self.face).said().last();
                    match reply {
                        None => {
                            let ghost mid = *self.env;
                            let ended: Result<(), PamError> = self.env.pam_end(h);
                            let ghost e1 = (*self.env).trace().last();
                            proof {
                                lemma_went_on(begun, calls, mid, e1, *self.env);
                                calls = calls.push(e1);
                                let r: Result<Outcome, PamError> = match ended {
                                    Ok(_) => Ok(Outcome::Abandoned),
                                    Err(e) => Err(e),
                                };
                                lemma_ended::<E>(
                                    begun, *self.env, calls,
                                    t0, first, h, svc@, user_text(user), seat, max_steps as nat, left,
                                    done, told, seq![e0, e1], seq![w0], (*self.env).trace(), s0,
                                    (*self.face).said(), Asked::WalkedAway(ended), r,
                                );
                            }
                            match ended {
                                Err(e) => {
                                    return Err(e);
                                },
                                Ok(_) => {
                                    return Ok(Outcome::Abandoned);
                                },
                            }
                        },
                        Some(answer) => {
                            let ghost mid = *self.env;
                            let taken: Result<(), PamError> = self.env.pam_answer(h, answer);
                            let ghost e1 = (*self.env).trace().last();
                            proof {
                                lemma_went_on(begun, calls, mid, e1, *self.env);
                                calls = calls.push(e1);
                            }
                            if let Err(e) = taken {
                                proof {
                                    lemma_ended::<E>(
                                        begun, *self.env, calls,
                                        t0, first, h, svc@, user_text(user), seat, max_steps as nat, left,
                                        done, told, seq![e0, e1], seq![w0], (*self.env).trace(), s0,
                                        (*self.face).said(), Asked::Broke(e), Err(e),
                                    );
                                }
                                return Err(e);
                            }
                            proof {
                                lemma_stepped(h, max_steps as nat, left, done, told, seq![e0, e1], w0);
                                let done2 = done + seq![e0, e1];
                                assert(calls =~= seq![first] + done2);
                                assert((*self.env).trace() =~= t0.push(first) + done2);
                                assert((*self.face).said() =~= s0 + (told + seq![w0]));
                                assert((left - 1) as nat == (max_steps - steps) as nat);
                                done = done2;
                                told = told + seq![w0];
                            }
                        },
                    }
                },
                PamStep::Info { style, msg } => {
                    let _ = self.face.respond(&Ask::Tell(msg));
                    let ghost w0 = (*self.face).said().last();
                    proof {
                        lemma_stepped(h, max_steps as nat, left, done, told, seq![e0], w0);
                        let done2 = done + seq![e0];
                        assert(calls =~= seq![first] + done2);
                        assert((*self.env).trace() =~= t0.push(first) + done2);
                        assert((*self.face).said() =~= s0 + (told + seq![w0]));
                        assert((left - 1) as nat == (max_steps - steps) as nat);
                        done = done2;
                        told = told + seq![w0];
                    }
                },
                PamStep::Failed { class } => {
                    let cap = SeatCapability::denied_for(self.seat.clone(), h);
                    let ghost r: Result<Outcome, PamError> = Ok(Outcome::Denied { cap, class });
                    proof {
                        lemma_ended::<E>(
                            begun, *self.env, calls,
                            t0, first, h, svc@, user_text(user), seat, max_steps as nat, left, done, told,
                            seq![e0], Seq::empty(), (*self.env).trace(), s0, (*self.face).said(),
                            Asked::Refused(class), r,
                        );
                    }
                    return Ok(Outcome::Denied { cap, class });
                },
                PamStep::Complete => {
                    proof {
                        let tail = seq![e0];
                        assert(asking(h, left, tail, Seq::empty(), Asked::Completed));
                        assert(told + Seq::<Said>::empty() =~= told);
                        assert(asking(h, max_steps as nat, done + tail, told, Asked::Completed));
                        assert((*self.env).trace() =~= t0.push(first) + (done + tail));
                        done = done + tail;
                        assert(calls =~= seq![first] + done);
                    }
                    break;
                },
            }
        }
        let ghost k = 1 + done.len() as int;
        let ghost before = calls;
        let ghost mid = *self.env;
        let verdict: Result<AcctVerdict, PamError> = self.env.pam_acct_mgmt(h);
        let ghost a0 = (*self.env).trace().last();
        let ghost now = *self.env;
        proof {
            lemma_went_on(begun, calls, mid, a0, now);
            calls = calls.push(a0);
            assert(seq![a0].skip(1) =~= Seq::<PamEvent>::empty());
        }
        match verdict {
            Err(e) => {
                proof {
                    let r: Result<Outcome, PamError> = Err(e);
                    assert(settling::<E>(begun, before, *self.env, h, seat, seq![a0], r));
                    lemma_settled::<E>(
                        begun, *self.env, calls,
                        t0, first, h, svc@, user_text(user), seat, max_steps as nat, done, told, seq![a0],
                        (*self.env).trace(), s0, (*self.face).said(), r,
                    );
                }
                return Err(e);
            },
            Ok(AcctVerdict::Okay) => {},
            Ok(AcctVerdict::NewAuthTokRequired) => {
                proof {
                    let r: Result<Outcome, PamError> = Ok(Outcome::TokenChangeRequired { handle: h });
                    assert(settling::<E>(begun, before, *self.env, h, seat, seq![a0], r));
                    lemma_settled::<E>(
                        begun, *self.env, calls,
                        t0, first, h, svc@, user_text(user), seat, max_steps as nat, done, told, seq![a0],
                        (*self.env).trace(), s0, (*self.face).said(), r,
                    );
                }
                return Ok(Outcome::TokenChangeRequired { handle: h });
            },
            Ok(AcctVerdict::AcctExpired) => {
                let cap = SeatCapability::denied_for(self.seat.clone(), h);
                proof {
                    let r: Result<Outcome, PamError> = Ok(
                        Outcome::Denied { cap, class: PamClass::CredInsufficient },
                    );
                    assert(settling::<E>(begun, before, *self.env, h, seat, seq![a0], r));
                    lemma_settled::<E>(
                        begun, *self.env, calls,
                        t0, first, h, svc@, user_text(user), seat, max_steps as nat, done, told, seq![a0],
                        (*self.env).trace(), s0, (*self.face).said(), r,
                    );
                }
                return Ok(Outcome::Denied { cap, class: PamClass::CredInsufficient });
            },
            Ok(AcctVerdict::PermDenied) => {
                let cap = SeatCapability::denied_for(self.seat.clone(), h);
                proof {
                    let r: Result<Outcome, PamError> = Ok(
                        Outcome::Denied { cap, class: PamClass::AuthError },
                    );
                    assert(settling::<E>(begun, before, *self.env, h, seat, seq![a0], r));
                    lemma_settled::<E>(
                        begun, *self.env, calls,
                        t0, first, h, svc@, user_text(user), seat, max_steps as nat, done, told, seq![a0],
                        (*self.env).trace(), s0, (*self.face).said(), r,
                    );
                }
                return Ok(Outcome::Denied { cap, class: PamClass::AuthError });
            },
        }
        let named: Result<Uid, PamError> = self.env.uid_for_handle(h);
        let uid: Uid = match named {
            Err(e) => {
                proof {
                    let r: Result<Outcome, PamError> = Err(e);
                    assert(now.uid_answer(h, named));
                    assert(settling::<E>(begun, before, *self.env, h, seat, seq![a0], r));
                    lemma_settled::<E>(
                        begun, *self.env, calls,
                        t0, first, h, svc@, user_text(user), seat, max_steps as nat, done, told, seq![a0],
                        (*self.env).trace(), s0, (*self.face).said(), r,
                    );
                }
                return Err(e);
            },
            Ok(u) => u,
        };
        let minted: Result<AuthProof, PamError> = self.env.mint_proof(h, uid);
        let ghost a1 = (*self.env).trace().last();
        proof {
            lemma_went_on(begun, calls, now, a1, *self.env);
            calls = calls.push(a1);
            lemma_went_on(now, Seq::empty(), now, a1, *self.env);
            assert(seq![a0, a1].skip(1) =~= Seq::<PamEvent>::empty().push(a1));
        }
        match minted {
            Err(e) => {
                proof {
                    let r: Result<Outcome, PamError> = Err(e);
                    assert(now.uid_answer(h, named));
                    assert(settling::<E>(begun, before, *self.env, h, seat, seq![a0, a1], r));
                    lemma_settled::<E>(
                        begun, *self.env, calls,
                        t0, first, h, svc@, user_text(user), seat, max_steps as nat, done, told,
                        seq![a0, a1], (*self.env).trace(), s0, (*self.face).said(), r,
                    );
                }
                Err(e)
            },
            Ok(auth_proof) => {
                let keyring: Option<KeyringUnlock> = KeyringUnlock::from(&auth_proof);
                proof {
                    let r: Result<Outcome, PamError> = Ok(Outcome::Authenticated { auth_proof, keyring });
                    assert(now.uid_answer(h, named));
                    assert(settling::<E>(begun, before, *self.env, h, seat, seq![a0, a1], r));
                    lemma_settled::<E>(
                        begun, *self.env, calls,
                        t0, first, h, svc@, user_text(user), seat, max_steps as nat, done, told,
                        seq![a0, a1], (*self.env).trace(), s0, (*self.face).said(), r,
                    );
                }
                Ok(Outcome::Authenticated { auth_proof, keyring })
            },
        }
    }
}

/// The capability that an outcome permits: an authenticated one gives one for
/// the principal of its proof, no other gives any.
pub fn capability_from(outcome: Outcome, seat: SeatId, pam: PamHandleId) -> (c: Option<
    SeatCapability<Authenticated>,
>)
    ensures
        c is Some <==> outcome is Authenticated,
        outcome matches Outcome::Authenticated { auth_proof, .. } ==> (c matches Some(cap)
            && cap.who() == auth_proof.who() && cap.on_seat() == seat@ && cap.handle() == pam),
{
    match outcome {
        Outcome::Authenticated { auth_proof, .. } => Some(
            SeatCapability::mint(auth_proof, seat, pam),
        ),
        Outcome::Denied { .. } => None,
        Outcome::Abandoned => None,
        Outcome::TokenChangeRequired { .. } => None,
    }
}

/// A step that does not end the asking extends what was done by its calls and its words.
proof fn lemma_stepped(
    h: PamHandleId,
    max: nat,
    left: nat,
    done: Seq<PamEvent>,
    told: Seq<Said>,
    calls: Seq<PamEvent>,
    word: Said,
)
    requires
        left > 0,
        forall|ev: Seq<PamEvent>, sv: Seq<Said>, end: Asked| #[trigger]
            asking(h, left, ev, sv, end) ==> asking(h, max, done + ev, told + sv, end),
        calls.len() > 0,
        calls[0] matches PamEvent::Next { h: g, r: Ok(step) } && g == h && match step {
            PamStep::Info { msg, .. } => calls.len() == 1 && word.0 == Ask::Tell(msg),
            PamStep::Prompt { style, msg } => calls.len() == 2 && word.0 == ask_for(style, msg)
                && (word.1 matches Some(answer) && (calls[1] matches PamEvent::Answer { h: g2, a, r } && g2
                == h && a == answer && r is Ok)),
            _ => false,
        },
    ensures
        forall|ev: Seq<PamEvent>, sv: Seq<Said>, end: Asked| #[trigger]
            asking(h, (left - 1) as nat, ev, sv, end) ==> asking(
                h,
                max,
                (done + calls) + ev,
                (told + seq![word]) + sv,
                end,
            ),
{
    assert forall|ev: Seq<PamEvent>, sv: Seq<Said>, end: Asked| #[trigger]
        asking(h, (left - 1) as nat, ev, sv, end) implies asking(
        h,
        max,
        (done + calls) + ev,
        (told + seq![word]) + sv,
        end,
    ) by {
        let ev1 = calls + ev;
        let sv1 = seq![word] + sv;
        assert(ev1.skip(calls.len() as int) =~= ev);
        assert(sv1.skip(1) =~= sv);
        assert(ev1[0] == calls[0]);
        assert(calls.len() > 1 ==> ev1[1] == calls[1]);
        assert(asking(h, left, ev1, sv1, end));
        assert(done + ev1 =~= (done + calls) + ev);
        assert(told + sv1 =~= (told + seq![word]) + sv);
    }
}

/// A step that ends the asking without completing it ends the conversation.
proof fn lemma_ended<E: SeatEnv>(
    start: E,
    last: E,
    all: Seq<PamEvent>,
    t0: Seq<PamEvent>,
    first: PamEvent,
    h: PamHandleId,
    svc: Seq<char>,
    user: Option<Seq<char>>,
    seat: Seq<char>,
    max: nat,
    left: nat,
    done: Seq<PamEvent>,
    told: Seq<Said>,
    calls: Seq<PamEvent>,
    words: Seq<Said>,
    trace: Seq<PamEvent>,
    s0: Seq<Said>,
    said: Seq<Said>,
    end: Asked,
    r: Result<Outcome, PamError>,
)
    requires
        first == (PamEvent::Start { svc, user, r: Ok(h) }),
        forall|ev: Seq<PamEvent>, sv: Seq<Said>, e: Asked| #[trigger]
            asking(h, left, ev, sv, e) ==> asking(h, max, done + ev, told + sv, e),
        asking(h, left, calls, words, end),
        trace =~= t0.push(first) + done + calls,
        all =~= seq![first] + done + calls,
        went(start, all, last),
        said =~= s0 + told + words,
        match end {
            Asked::TooLong => r == Err::<Outcome, PamError>(too_long()),
            Asked::Broke(e) => r == Err::<Outcome, PamError>(e),
            Asked::WalkedAway(Err(e)) => r == Err::<Outcome, PamError>(e),
            Asked::WalkedAway(Ok(_)) => r == Ok::<Outcome, PamError>(Outcome::Abandoned),
            Asked::Refused(class) => is_denial(r, seat, h, class),
            Asked::Completed => false,
        },
    ensures
        trace.len() >= t0.len(),
        trace.take(t0.len() as int) == t0,
        said.len() >= s0.len(),
        said.take(s0.len() as int) == s0,
        exists|k: int, e: Asked| #[trigger]
            conversed::<E>(
                start,
                last,
                svc,
                user,
                seat,
                max,
                trace.skip(t0.len() as int),
                said.skip(s0.len() as int),
                r,
                k,
                e,
            ),
{
    let ev = trace.skip(t0.len() as int);
    let sv = said.skip(s0.len() as int);
    assert(trace.take(t0.len() as int) =~= t0);
    assert(said.take(s0.len() as int) =~= s0);
    assert(ev[0] == first);
    assert(ev =~= all);
    assert(ev.subrange(1, ev.len() as int) =~= done + calls);
    assert(sv =~= told + words);
    assert(conversed::<E>(start, last, svc, user, seat, max, ev, sv, r, ev.len() as int, end));
}

/// A completed asking and its settling make up the conversation.
proof fn lemma_settled<E: SeatEnv>(
    start: E,
    last: E,
    all: Seq<PamEvent>,
    t0: Seq<PamEvent>,
    first: PamEvent,
    h: PamHandleId,
    svc: Seq<char>,
    user: Option<Seq<char>>,
    seat: Seq<char>,
    max: nat,
    done: Seq<PamEvent>,
    told: Seq<Said>,
    calls: Seq<PamEvent>,
    trace: Seq<PamEvent>,
    s0: Seq<Said>,
    said: Seq<Said>,
    r: Result<Outcome, PamError>,
)
    requires
        first == (PamEvent::Start { svc, user, r: Ok(h) }),
        asking(h, max, done, told, Asked::Completed),
        settling::<E>(start, seq![first] + done, last, h, seat, calls, r),
        trace =~= t0.push(first) + done + calls,
        all =~= seq![first] + done + calls,
        went(start, all, last),
        said =~= s0 + told,
    ensures
        trace.len() >= t0.len(),
        trace.take(t0.len() as int) == t0,
        said.len() >= s0.len(),
        said.take(s0.len() as int) == s0,
        exists|k: int, e: Asked| #[trigger]
            conversed::<E>(
                start,
                last,
                svc,
                user,
                seat,
                max,
                trace.skip(t0.len() as int),
                said.skip(s0.len() as int),
                r,
                k,
                e,
            ),
{
    let ev = trace.skip(t0.len() as int);
    let sv = said.skip(s0.len() as int);
    let k = 1 + done.len() as int;
    assert(trace.take(t0.len() as int) =~= t0);
    assert(said.take(s0.len() as int) =~= s0);
    assert(ev[0] == first);
    assert(ev =~= all);
    assert(ev.subrange(1, k) =~= done);
    assert(ev.skip(k) =~= calls);
    assert(ev.take(k) =~= seq![first] + done);
    assert(sv =~= told);
    assert(conversed::<E>(start, last, svc, user, seat, max, ev, sv, r, k, Asked::Completed));
}

/// Asking for at most `left` steps asks the face at most that often and calls
/// the environment at most twice as often. A conversation that never completes
/// is cut off.
pub proof fn asking_is_bounded(
    h: PamHandleId,
    left: nat,
    ev: Seq<PamEvent>,
    sv: Seq<Said>,
    end: Asked,
)
    requires
        asking(h, left, ev, sv, end),
    ensures
        ev.len() <= 2 * left,
        sv.len() <= left,
    decreases left,
{
    if left > 0 {
        match ev[0] {
            PamEvent::Next { r: Ok(PamStep::Info { .. }), .. } => {
                asking_is_bounded(h, (left - 1) as nat, ev.skip(1), sv.skip(1), end);
            },
            PamEvent::Next { r: Ok(PamStep::Prompt { .. }), .. } => {
                if sv[0].1 is Some && (ev[1] matches PamEvent::Answer { r, .. } && r is Ok) {
                    asking_is_bounded(h, (left - 1) as nat, ev.skip(2), sv.skip(1), end);
                }
            },
            _ => {},
        }
    }
}

/// An asking completes with the step that says so.
proof fn lemma_completed(h: PamHandleId, left: nat, ev: Seq<PamEvent>, sv: Seq<Said>)
    requires
        asking(h, left, ev, sv, Asked::Completed),
    ensures
        ev.len() > 0,
        ev.last() == (PamEvent::Next { h, r: Ok(PamStep::Complete) }),
    decreases left,
{
    match ev[0] {
        PamEvent::Next { r: Ok(PamStep::Info { .. }), .. } => {
            lemma_completed(h, (left - 1) as nat, ev.skip(1), sv.skip(1));
        },
        PamEvent::Next { r: Ok(PamStep::Prompt { .. }), .. } => {
            lemma_completed(h, (left - 1) as nat, ev.skip(2), sv.skip(1));
        },
        _ => {},
    }
}

/// Every prompt is put to the face, masked if and only if its style is the
/// secret one, and everything PAM tells is told: what the face is asked is, in
/// order, what PAM asked and told.
pub proof fn nothing_is_swallowed(
    h: PamHandleId,
    left: nat,
    ev: Seq<PamEvent>,
    sv: Seq<Said>,
    end: Asked,
)
    requires
        asking(h, left, ev, sv, end),
    ensures
        asks_of(ev) == sv.map_values(|w: Said| w.0),
    decreases left,
{
    let asked = sv.map_values(|w: Said| w.0);
    if left == 0 {
        assert(asks_of(ev) =~= asked);
    } else {
        match ev[0] {
            PamEvent::Next { r: Ok(PamStep::Info { .. }), .. } => {
                nothing_is_swallowed(h, (left - 1) as nat, ev.skip(1), sv.skip(1), end);
                assert(asks_of(ev) =~= asked);
            },
            PamEvent::Next { r: Ok(PamStep::Prompt { .. }), .. } => {
                let rest = ev.skip(1);
                assert(rest.skip(1) =~= ev.skip(2));
                assert(asks_of(rest) == asks_of(ev.skip(2)));
                if sv[0].1 is Some && (ev[1] matches PamEvent::Answer { r, .. } && r is Ok) {
                    nothing_is_swallowed(h, (left - 1) as nat, ev.skip(2), sv.skip(1), end);
                } else {
                    assert(ev.skip(2).len() == 0);
                    assert(asks_of(ev.skip(2)) =~= Seq::<Ask>::empty());
                }
                assert(asks_of(ev) =~= asked);
            },
            _ => {
                assert(ev.skip(1).len() == 0);
                assert(asks_of(ev.skip(1)) =~= Seq::<Ask>::empty());
                assert(asks_of(ev) =~= asked);
            },
        }
    }
}

/// What the steps among `ev` put to a face, in order.
pub open spec fn asks_of(ev: Seq<PamEvent>) -> Seq<Ask>
    decreases ev.len(),
{
    if ev.len() == 0 {
        Seq::empty()
    } else {
        match ev[0] {
            PamEvent::Next { r: Ok(PamStep::Info { msg, .. }), .. } => seq![Ask::Tell(msg)] + asks_of(
                ev.skip(1),
            ),
            PamEvent::Next { r: Ok(PamStep::Prompt { style, msg }), .. } => seq![
                ask_for(style, msg),
            ] + asks_of(ev.skip(1)),
            _ => asks_of(ev.skip(1)),
        }
    }
}

/// A proof comes out of a conversation only where PAM said that it is complete,
/// the account was then found usable, and the environment minted the proof after that.
pub proof fn proof_needs_a_completed_conversation<E: SeatEnv>(
    start: E,
    last: E,
    svc: Seq<char>,
    user: Option<Seq<char>>,
    seat: Seq<char>,
    max_steps: nat,
    ev: Seq<PamEvent>,
    sv: Seq<Said>,
    auth_proof: AuthProof,
    keyring: Option<KeyringUnlock>,
    k: int,
    end: Asked,
)
    requires
        conversed::<E>(
            start,
            last,
            svc,
            user,
            seat,
            max_steps,
            ev,
            sv,
            Ok(Outcome::Authenticated { auth_proof, keyring }),
            k,
            end,
        ),
    ensures
        ev.len() >= 4,
        exists|h: PamHandleId, uid: Uid|
            {
                &&& ev[0] == (PamEvent::Start { svc, user, r: Ok(h) })
                &&& ev[ev.len() - 3] == (PamEvent::Next { h, r: Ok(PamStep::Complete) })
                &&& ev[ev.len() - 2] == (PamEvent::AcctMgmt { h, r: Ok(AcctVerdict::Okay) })
                &&& ev[ev.len() - 1] == (#[trigger] minting(h, uid, auth_proof))
            },
        keyring_text(keyring) == auth_proof.authtok(),
{
    let h = ev[0]->Start_r->Ok_0;
    lemma_completed(h, max_steps, ev.subrange(1, k), sv);
    assert(ev[k - 1] == ev.subrange(1, k).last());
    let tail = ev.skip(k);
    assert(ev[k] == tail[0]);
    assert(ev[k + 1] == tail[1]);
    let uid = tail[1]->MintProof_uid;
    assert(ev[ev.len() - 1] == minting(h, uid, auth_proof));
}

/// The event of minting `p` for `uid` from `h`.
pub open spec fn minting(h: PamHandleId, uid: Uid, p: AuthProof) -> PamEvent {
    PamEvent::MintProof { h, uid, r: Ok(p) }
}

/// Walking away ends the transaction and is neither a denial nor an attempt at one.
pub proof fn walking_away_is_no_denial<E: SeatEnv>(
    start: E,
    last: E,
    svc: Seq<char>,
    user: Option<Seq<char>>,
    seat: Seq<char>,
    max_steps: nat,
    ev: Seq<PamEvent>,
    sv: Seq<Said>,
    r: Result<Outcome, PamError>,
    k: int,
    end: Asked,
)
    requires
        conversed::<E>(start, last, svc, user, seat, max_steps, ev, sv, r, k, end),
        ev[0]->Start_r is Ok,
        end matches Asked::WalkedAway(ended) && ended is Ok,
    ensures
        r == Ok::<Outcome, PamError>(Outcome::Abandoned),
        ev.last() is End,
        sv.len() > 0,
        sv.last().1 is None,
{
    let h = ev[0]->Start_r->Ok_0;
    lemma_walked(h, max_steps, ev.subrange(1, k), sv, end->WalkedAway_0);
    assert(ev.last() == ev.subrange(1, k).last());
}

proof fn lemma_walked(
    h: PamHandleId,
    left: nat,
    ev: Seq<PamEvent>,
    sv: Seq<Said>,
    r: Result<(), PamError>,
)
    requires
        asking(h, left, ev, sv, Asked::WalkedAway(r)),
    ensures
        ev.len() > 0,
        ev.last() == (PamEvent::End { h, r }),
        sv.len() > 0,
        sv.last().1 is None,
    decreases left,
{
    match ev[0] {
        PamEvent::Next { r: Ok(PamStep::Info { .. }), .. } => {
            lemma_walked(h, (left - 1) as nat, ev.skip(1), sv.skip(1), r);
        },
        PamEvent::Next { r: Ok(PamStep::Prompt { .. }), .. } => {
            if sv[0].1 is Some {
                lemma_walked(h, (left - 1) as nat, ev.skip(2), sv.skip(1), r);
            }
        },
        _ => {},
    }
}

/// An account whose token must be changed has authenticated: the verdict is the
/// token change, never a denial.
pub proof fn expired_token_is_no_denial<E: SeatEnv>(
    start: E,
    before: Seq<PamEvent>,
    last: E,
    h: PamHandleId,
    seat: Seq<char>,
    ev: Seq<PamEvent>,
    r: Result<Outcome, PamError>,
)
    requires
        settling::<E>(start, before, last, h, seat, ev, r),
        ev[0] == (PamEvent::AcctMgmt { h, r: Ok(AcctVerdict::NewAuthTokRequired) }),
    ensures
        r == Ok::<Outcome, PamError>(Outcome::TokenChangeRequired { handle: h }),
{
}

/// What a prompt is put to the face as, by its style alone: masked for the secret
/// style and echoed for every other, in PAM's own words.
pub proof fn a_prompt_is_masked_by_its_style_alone(style: MsgStyle, msg: PromptText)
    ensures
        ask_for(style, msg) is Secret <==> style == MsgStyle::PromptEchoOff,
        ask_for(style, msg) is Visible <==> style != MsgStyle::PromptEchoOff,
        ask_for(style, msg) matches Ask::Secret(m) ==> m == msg,
        ask_for(style, msg) matches Ask::Visible(m) ==> m == msg,
{
}

/// Every ask of the face is a step of PAM's: a secret ask is a prompt that is not
/// to be echoed, a visible one is any other prompt, a telling is a message, and
/// each is in PAM's words. What the face says to a prompt goes to PAM in the next
/// call as it was said, and where it says nothing the transaction is ended.
proof fn lemma_asked_for(
    h: PamHandleId,
    left: nat,
    ev: Seq<PamEvent>,
    sv: Seq<Said>,
    end: Asked,
    j: int,
) -> (i: int)
    requires
        asking(h, left, ev, sv, end),
        0 <= j < sv.len(),
    ensures
        0 <= i < ev.len(),
        ev[i] matches PamEvent::Next { h: g, r: Ok(step) } && g == h && match step {
            PamStep::Prompt { style, msg } => {
                &&& style == MsgStyle::PromptEchoOff ==> sv[j].0 == Ask::Secret(msg)
                &&& style != MsgStyle::PromptEchoOff ==> sv[j].0 == Ask::Visible(msg)
                &&& i + 1 < ev.len()
                &&& match sv[j].1 {
                    Some(answer) => ev[i + 1] matches PamEvent::Answer { h: g2, a, .. } && g2 == h && a
                        == answer,
                    None => ev[i + 1] matches PamEvent::End { h: g2, .. } && g2 == h,
                }
            },
            PamStep::Info { msg, .. } => sv[j].0 == Ask::Tell(msg),
            _ => false,
        },
    decreases left,
{
    if j == 0 {
        0
    } else {
        match ev[0] {
            PamEvent::Next { r: Ok(PamStep::Info { .. }), .. } => {
                let i = lemma_asked_for(h, (left - 1) as nat, ev.skip(1), sv.skip(1), end, j - 1);
                assert(sv.skip(1)[j - 1] == sv[j]);
                assert(ev.skip(1)[i] == ev[i + 1]);
                assert(i + 1 < ev.skip(1).len() ==> ev.skip(1)[i + 1] == ev[i + 2]);
                i + 1
            },
            _ => {
                let i = lemma_asked_for(h, (left - 1) as nat, ev.skip(2), sv.skip(1), end, j - 1);
                assert(sv.skip(1)[j - 1] == sv[j]);
                assert(ev.skip(2)[i] == ev[i + 2]);
                assert(i + 1 < ev.skip(2).len() ==> ev.skip(2)[i + 1] == ev[i + 3]);
                i + 2
            },
        }
    }
}

/// Every prompt and every message of PAM's comes to the face.
proof fn lemma_put_to_the_face(
    h: PamHandleId,
    left: nat,
    ev: Seq<PamEvent>,
    sv: Seq<Said>,
    end: Asked,
    i: int,
) -> (j: int)
    requires
        asking(h, left, ev, sv, end),
        0 <= i < ev.len(),
        ev[i] matches PamEvent::Next { r: Ok(step), .. } && (step is Prompt || step is Info),
    ensures
        0 <= j < sv.len(),
        ev[i] matches PamEvent::Next { r: Ok(PamStep::Prompt { style, msg }), .. } ==> sv[j].0 == (
        if style == MsgStyle::PromptEchoOff {
            Ask::Secret(msg)
        } else {
            Ask::Visible(msg)
        }),
        ev[i] matches PamEvent::Next { r: Ok(PamStep::Info { msg, .. }), .. } ==> sv[j].0 == Ask::Tell(msg),
    decreases left,
{
    if i == 0 {
        0
    } else {
        match ev[0] {
            PamEvent::Next { r: Ok(PamStep::Info { .. }), .. } => {
                assert(ev.skip(1)[i - 1] == ev[i]);
                let j = lemma_put_to_the_face(
                    h,
                    (left - 1) as nat,
                    ev.skip(1),
                    sv.skip(1),
                    end,
                    i - 1,
                );
                assert(sv.skip(1)[j] == sv[j + 1]);
                j + 1
            },
            _ => {
                assert(i >= 2);
                assert(ev.skip(2)[i - 2] == ev[i]);
                let j = lemma_put_to_the_face(
                    h,
                    (left - 1) as nat,
                    ev.skip(2),
                    sv.skip(1),
                    end,
                    i - 2,
                );
                assert(sv.skip(1)[j] == sv[j + 1]);
                j + 1
            },
        }
    }
}

/// In a conversation the face is asked what PAM asks and nothing else: for every
/// ask there is the step that it stands for, masked if and only if the step is a
/// prompt of the secret style, and what the face says to a prompt goes to PAM next
/// as it was said; where it says nothing, the transaction is ended.
pub proof fn the_face_is_asked_what_pam_asks<E: SeatEnv>(
    start: E,
    last: E,
    svc: Seq<char>,
    user: Option<Seq<char>>,
    seat: Seq<char>,
    max_steps: nat,
    ev: Seq<PamEvent>,
    sv: Seq<Said>,
    r: Result<Outcome, PamError>,
    k: int,
    end: Asked,
    j: int,
)
    requires
        conversed::<E>(start, last, svc, user, seat, max_steps, ev, sv, r, k, end),
        0 <= j < sv.len(),
    ensures
        exists|i: int|
            0 <= i < ev.len() && (#[trigger] ev[i] matches PamEvent::Next { r: Ok(step), .. } && match step {
                PamStep::Prompt { style, msg } => {
                    &&& style == MsgStyle::PromptEchoOff ==> sv[j].0 == Ask::Secret(msg)
                    &&& style != MsgStyle::PromptEchoOff ==> sv[j].0 == Ask::Visible(msg)
                    &&& i + 1 < ev.len()
                    &&& match sv[j].1 {
                        Some(answer) => ev[i + 1] matches PamEvent::Answer { a, .. } && a == answer,
                        None => ev[i + 1] is End,
                    }
                },
                PamStep::Info { msg, .. } => sv[j].0 == Ask::Tell(msg),
                _ => false,
            }),
{
    let h = ev[0]->Start_r->Ok_0;
    let asked = ev.subrange(1, k);
    let i = lemma_asked_for(h, max_steps, asked, sv, end, j);
    assert(asked[i] == ev[i + 1]);
    assert(i + 1 < asked.len() ==> asked[i + 1] == ev[i + 2]);
}

/// In a conversation everything that PAM asks or tells comes to the face: a prompt
/// of the secret style masked, any other prompt echoed, a message as it is.
pub proof fn what_pam_asks_comes_to_the_face<E: SeatEnv>(
    start: E,
    last: E,
    svc: Seq<char>,
    user: Option<Seq<char>>,
    seat: Seq<char>,
    max_steps: nat,
    ev: Seq<PamEvent>,
    sv: Seq<Said>,
    r: Result<Outcome, PamError>,
    k: int,
    end: Asked,
    i: int,
)
    requires
        conversed::<E>(start, last, svc, user, seat, max_steps, ev, sv, r, k, end),
        0 <= i < ev.len(),
    ensures
        ev[i] matches PamEvent::Next { r: Ok(PamStep::Prompt { style, msg }), .. } ==> exists|j: int|
            0 <= j < sv.len() && (#[trigger] sv[j]).0 == (if style == MsgStyle::PromptEchoOff {
                Ask::Secret(msg)
            } else {
                Ask::Visible(msg)
            }),
        ev[i] matches PamEvent::Next { r: Ok(PamStep::Info { msg, .. }), .. } ==> exists|j: int|
            0 <= j < sv.len() && (#[trigger] sv[j]).0 == Ask::Tell(msg),
{
    if ev[i] matches PamEvent::Next { r: Ok(step), .. } && (step is Prompt || step is Info) {
        let h = ev[0]->Start_r->Ok_0;
        let asked = ev.subrange(1, k);
        if i < k {
            assert(asked[i - 1] == ev[i]);
            let j = lemma_put_to_the_face(h, max_steps, asked, sv, end, i - 1);
            assert(sv[j].0 == sv[j].0);
        } else {
            assert(ev.skip(k)[i - k] == ev[i]);
        }
    }
}

/// How an asking ended is what its last call says.
proof fn lemma_end_of_asking(
    h: PamHandleId,
    left: nat,
    ev: Seq<PamEvent>,
    sv: Seq<Said>,
    end: Asked,
)
    requires
        asking(h, left, ev, sv, end),
    ensures
        match end {
            Asked::TooLong => true,
            _ => ev.len() > 0,
        },
        ev.len() > 0 ==> match ev.last() {
            PamEvent::Next { r: Err(e), .. } => end == Asked::Broke(e),
            PamEvent::Next { r: Ok(PamStep::Failed { class }), .. } => end == Asked::Refused(class),
            PamEvent::Next { r: Ok(PamStep::Complete), .. } => end is Completed,
            PamEvent::Next { r: Ok(_), .. } => end is TooLong,
            PamEvent::Answer { r: Err(e), .. } => end == Asked::Broke(e),
            PamEvent::Answer { r: Ok(_), .. } => end is TooLong,
            PamEvent::End { r, .. } => end == Asked::WalkedAway(r),
            _ => false,
        },
    decreases left,
{
    if left > 0 {
        match ev[0] {
            PamEvent::Next { r: Ok(PamStep::Info { .. }), .. } => {
                lemma_end_of_asking(h, (left - 1) as nat, ev.skip(1), sv.skip(1), end);
                if ev.skip(1).len() > 0 {
                    assert(ev.skip(1).last() == ev.last());
                }
            },
            PamEvent::Next { r: Ok(PamStep::Prompt { .. }), .. } => {
                if sv[0].1 is Some && (ev[1] matches PamEvent::Answer { r, .. } && r is Ok) {
                    lemma_end_of_asking(h, (left - 1) as nat, ev.skip(2), sv.skip(1), end);
                    if ev.skip(2).len() > 0 {
                        assert(ev.skip(2).last() == ev.last());
                    }
                }
            },
            _ => {},
        }
    }
}

/// The verdict is what PAM said last. A refusal in the conversation is a denial of
/// its class, an account that has expired or may not be used is a denial of its
/// own, a token that must be changed is that, a transaction that was ended is
/// abandoned, an error is itself, and nothing but a minted proof authenticates. A
/// denial is for the seat and the transaction of the conversation.
pub proof fn the_verdict_is_what_pam_said_last<E: SeatEnv>(
    start: E,
    last: E,
    svc: Seq<char>,
    user: Option<Seq<char>>,
    seat: Seq<char>,
    max_steps: nat,
    ev: Seq<PamEvent>,
    sv: Seq<Said>,
    r: Result<Outcome, PamError>,
    k: int,
    end: Asked,
)
    requires
        conversed::<E>(start, last, svc, user, seat, max_steps, ev, sv, r, k, end),
    ensures
        ev[0] matches PamEvent::Start { svc: s, user: u, .. } && s == svc && u == user,
        r matches Ok(Outcome::Denied { cap, .. }) ==> cap.on_seat() == seat && (
        ev[0] matches PamEvent::Start { r: Ok(h), .. } && cap.handle() == h),
        match ev.last() {
            PamEvent::Start { r: Err(e), .. } => r == Err::<Outcome, PamError>(e),
            PamEvent::Start { r: Ok(_), .. } => max_steps == 0 && r == Err::<Outcome, PamError>(
                PamError::OutOfOrder("conversation exceeded max_steps"),
            ),
            PamEvent::Next { r: Err(e), .. } => r == Err::<Outcome, PamError>(e),
            PamEvent::Next { r: Ok(PamStep::Failed { class }), .. } => r matches Ok(
                Outcome::Denied { class: c, .. },
            ) && c == class,
            PamEvent::Next { r: Ok(PamStep::Complete), .. } => false,
            PamEvent::Next { r: Ok(_), .. } => r == Err::<Outcome, PamError>(
                PamError::OutOfOrder("conversation exceeded max_steps"),
            ),
            PamEvent::Answer { r: Err(e), .. } => r == Err::<Outcome, PamError>(e),
            PamEvent::Answer { r: Ok(_), .. } => r == Err::<Outcome, PamError>(
                PamError::OutOfOrder("conversation exceeded max_steps"),
            ),
            PamEvent::End { r: Err(e), .. } => r == Err::<Outcome, PamError>(e),
            PamEvent::End { r: Ok(_), .. } => r matches Ok(Outcome::Abandoned),
            PamEvent::AcctMgmt { r: Err(e), .. } => r == Err::<Outcome, PamError>(e),
            PamEvent::AcctMgmt { r: Ok(AcctVerdict::AcctExpired), .. } => r matches Ok(
                Outcome::Denied { class: PamClass::CredInsufficient, .. },
            ),
            PamEvent::AcctMgmt { r: Ok(AcctVerdict::PermDenied), .. } => r matches Ok(
                Outcome::Denied { class: PamClass::AuthError, .. },
            ),
            PamEvent::AcctMgmt { h, r: Ok(AcctVerdict::NewAuthTokRequired) } => r matches Ok(
                Outcome::TokenChangeRequired { handle },
            ) && handle == h,
            PamEvent::AcctMgmt { r: Ok(AcctVerdict::Okay), .. } => r is Err,
            PamEvent::MintProof { r: Err(e), .. } => r == Err::<Outcome, PamError>(e),
            PamEvent::MintProof { r: Ok(p), .. } => r matches Ok(
                Outcome::Authenticated { auth_proof, keyring },
            ) && auth_proof == p && keyring_text(keyring) == p.authtok(),
            _ => false,
        },
        r matches Ok(Outcome::Authenticated { .. }) ==> ev.last() is MintProof,
        r matches Ok(Outcome::Abandoned) ==> ev.last() is End,
{
    if ev[0]->Start_r is Ok {
        let h = ev[0]->Start_r->Ok_0;
        let asked = ev.subrange(1, k);
        lemma_end_of_asking(h, max_steps, asked, sv, end);
        if asked.len() > 0 {
            assert(asked.last() == ev[k - 1]);
        } else {
            assert(k == 1);
            if max_steps > 0 {
                assert(asked.len() > 0);
            }
        }
        if end is Completed {
            let tail = ev.skip(k);
            assert(tail[0] == ev[k]);
            assert(tail.last() == ev.last());
        }
    }
}

} // verus!
