//! The evaluator: walks a versioned configuration, issues one oracle call per
//! leaf assertion, and combines the verdicts.
//!
//! `AllOf` is a short-circuiting conjunction: evaluation stops at the first
//! non-trusted verdict.  `AnyOf` is a k-of-n threshold: evaluation stops as
//! soon as the threshold is reached, and also as soon as the remaining
//! assertions cannot reach it.  A failed oracle call aborts the whole
//! evaluation at once — an infrastructure failure is never read as "not
//! trusted".
//!
//! The contract of [`evaluate`] pins the complete interaction: for whatever
//! replies the oracle gave, the sequence of calls made and the result
//! returned are exactly what the `*_run` spec functions say.
use vstd::prelude::*;
use crate::policy::assertion::{Assertion, AssertionView, asserts_view, opt_str_view};
use crate::policy::config::{
    VerificationConfigView, VersionedVerificationConfig, VersionedVerificationConfigView,
};
use crate::policy::error::{EvalError, EvalErrorView, OracleError, OracleErrorView};
use crate::host_capabilities::verification::VerificationResponse;

verus! {

broadcast use crate::policy::assertion::lemma_asserts_view;

/// What one oracle call came back with: a verdict with the resolved digest,
/// or a failure of the boundary call itself.
pub enum OracleReplyView {
    Verdict { trusted: bool, digest: Seq<char> },
    Failure(OracleErrorView),
}

/// One observed oracle interaction: which assertion was asked about which
/// image, and what came back.
pub struct OracleEvent {
    pub assertion: AssertionView,
    pub image: Seq<char>,
    pub reply: OracleReplyView,
}

/// The reply recorded for an oracle call's result.
pub open spec fn reply_view(r: Result<VerificationResponse, OracleError>) -> OracleReplyView {
    match r {
        Ok(resp) => OracleReplyView::Verdict { trusted: resp.is_trusted, digest: resp.digest@ },
        Err(e) => OracleReplyView::Failure(e@),
    }
}

/// The oracle client: executes one assertion against real signature data and
/// returns a trust verdict plus the resolved digest of the artifact, or an
/// error of the boundary call itself.
///
/// The ghost `log` records every call with its reply, so that callers can
/// state exactly which calls an evaluation made.  Nothing is assumed about
/// the replies themselves: an implementation only promises to log truthfully.
pub trait Oracle {
    /// The calls made so far, with their replies.
    spec fn log(&self) -> Seq<OracleEvent>;

    /// One verification call, scoped to exactly one leaf assertion.
    fn verify(&mut self, assertion: &Assertion, image: &str) -> (r: Result<
        VerificationResponse,
        OracleError,
    >)
        ensures
            final(self).log() == old(self).log().push(
                OracleEvent { assertion: assertion@, image: image@, reply: reply_view(r) },
            ),
    ;
}

/// How one group evaluation ended.
pub enum GroupOutcome {
    Sat,
    NotSat,
    Failed,
}

/// Lifts a group run by `n` earlier calls.
pub open spec fn lift_run(o: Option<(int, GroupOutcome)>, n: int) -> Option<(int, GroupOutcome)> {
    match o {
        None => None,
        Some((k, res)) => Some((k + n, res)),
    }
}

/// The run of an `AllOf` group: given the events an oracle produced, says how
/// many calls the conjunction makes and how it ends.  `None` means the events
/// are not a trace of this group at all.
pub open spec fn allof_run(
    asserts: Seq<AssertionView>,
    image: Seq<char>,
    events: Seq<OracleEvent>,
) -> Option<(int, GroupOutcome)>
    decreases asserts.len(),
{
    if asserts.len() == 0 {
        Some((0, GroupOutcome::Sat))
    } else if events.len() == 0 {
        None
    } else if events[0].assertion != asserts[0] || events[0].image != image {
        None
    } else {
        match events[0].reply {
            OracleReplyView::Failure(_) => Some((1, GroupOutcome::Failed)),
            OracleReplyView::Verdict { trusted, .. } => if !trusted {
                Some((1, GroupOutcome::NotSat))
            } else {
                lift_run(allof_run(asserts.drop_first(), image, events.drop_first()), 1)
            },
        }
    }
}

/// The run of an `AnyOf` group that still needs `needed` matches: satisfied
/// as soon as the count is reached, unsatisfied as soon as fewer assertions
/// remain than matches are needed.
pub open spec fn anyof_run(
    asserts: Seq<AssertionView>,
    image: Seq<char>,
    needed: int,
    events: Seq<OracleEvent>,
) -> Option<(int, GroupOutcome)>
    decreases asserts.len(),
{
    if needed <= 0 {
        Some((0, GroupOutcome::Sat))
    } else if asserts.len() < needed {
        Some((0, GroupOutcome::NotSat))
    } else if events.len() == 0 {
        None
    } else if events[0].assertion != asserts[0] || events[0].image != image {
        None
    } else {
        match events[0].reply {
            OracleReplyView::Failure(_) => Some((1, GroupOutcome::Failed)),
            OracleReplyView::Verdict { trusted, .. } => {
                let needed2 = if trusted {
                    needed - 1
                } else {
                    needed
                };
                lift_run(anyof_run(asserts.drop_first(), image, needed2, events.drop_first()), 1)
            },
        }
    }
}

/// How a whole evaluation ended: a boolean verdict, or an aborted run.
pub enum EvalVerdict {
    Verdict(bool),
    OracleFailed,
}

/// The run of a whole configuration: the `AllOf` group first (absent groups
/// are vacuously satisfied), then the `AnyOf` group on the remaining events;
/// the verdict is the conjunction, and a failed call aborts at once.
pub open spec fn config_run(
    c: VerificationConfigView,
    image: Seq<char>,
    events: Seq<OracleEvent>,
) -> Option<(int, EvalVerdict)> {
    let first = match c.all_of {
        Some(l) => allof_run(l, image, events),
        None => Some((0, GroupOutcome::Sat)),
    };
    match first {
        None => None,
        Some((n1, GroupOutcome::Failed)) => Some((n1, EvalVerdict::OracleFailed)),
        Some((n1, GroupOutcome::NotSat)) => Some((n1, EvalVerdict::Verdict(false))),
        Some((n1, GroupOutcome::Sat)) => {
            let second = match c.any_of {
                Some(g) => anyof_run(g.signatures, image, g.minimum_matches, events.skip(n1)),
                None => Some((0, GroupOutcome::Sat)),
            };
            match second {
                None => None,
                Some((n2, GroupOutcome::Failed)) => Some((n1 + n2, EvalVerdict::OracleFailed)),
                Some((n2, GroupOutcome::NotSat)) => Some((n1 + n2, EvalVerdict::Verdict(false))),
                Some((n2, GroupOutcome::Sat)) => Some((n1 + n2, EvalVerdict::Verdict(true))),
            }
        },
    }
}

/// The digest of the most recent trusted verdict among the events.
pub open spec fn last_trusted_digest(events: Seq<OracleEvent>) -> Option<Seq<char>>
    decreases events.len(),
{
    if events.len() == 0 {
        None
    } else {
        match events.last().reply {
            OracleReplyView::Verdict { trusted, digest } => if trusted {
                Some(digest)
            } else {
                last_trusted_digest(events.drop_last())
            },
            _ => last_trusted_digest(events.drop_last()),
        }
    }
}

/// What an evaluation produced: the boolean verdict, and the digest of the
/// last trusted verdict observed, for downstream pinning and diagnostics.
#[derive(Debug, Clone, PartialEq)]
pub struct EvaluationResult {
    /// Whether every group that is present is satisfied.
    pub satisfied: bool,
    /// The resolved digest carried by the last trusted verdict, if any.
    pub digest: Option<String>,
}

/// The verdict an evaluation result stands for.
pub open spec fn eval_verdict_of(r: Result<EvaluationResult, EvalError>) -> Option<EvalVerdict> {
    match r {
        Ok(res) => Some(EvalVerdict::Verdict(res.satisfied)),
        Err(EvalError::Oracle(_)) => Some(EvalVerdict::OracleFailed),
        Err(EvalError::UnsupportedVersion(_)) => None,
    }
}

/// Lifting by zero changes nothing.
proof fn lemma_lift_zero(o: Option<(int, GroupOutcome)>)
    ensures
        lift_run(o, 0) == o,
{
}

/// Lifting twice is lifting by the sum.
proof fn lemma_lift_lift(o: Option<(int, GroupOutcome)>, a: int, b: int)
    ensures
        lift_run(lift_run(o, a), b) == lift_run(o, a + b),
{
}

/// After `i` trusted steps, a step that exits (failure or distrust) closes an
/// `AllOf` run at `i + 1` consumed events.
proof fn lemma_allof_exit_step(
    gl: Seq<AssertionView>,
    image: Seq<char>,
    prefix: Seq<OracleEvent>,
    ev: OracleEvent,
    i: int,
)
    requires
        0 <= i < gl.len(),
        ev.assertion == gl[i],
        ev.image == image,
        !(ev.reply matches OracleReplyView::Verdict { trusted: true, .. }),
        forall|rest: Seq<OracleEvent>|
            allof_run(gl, image, prefix + rest) == lift_run(
                #[trigger] allof_run(gl.skip(i), image, rest),
                i,
            ),
    ensures
        allof_run(gl, image, prefix + seq![ev]) == Some(
            (
                i + 1,
                match ev.reply {
                    OracleReplyView::Failure(_) => GroupOutcome::Failed,
                    OracleReplyView::Verdict { .. } => GroupOutcome::NotSat,
                },
            ),
        ),
{
    assert(allof_run(gl, image, prefix + seq![ev]) == lift_run(
        allof_run(gl.skip(i), image, seq![ev]),
        i,
    ));
    assert(gl.skip(i)[0] == gl[i]);
    assert(gl.skip(i).len() == gl.len() - i);
    assert(seq![ev][0] == ev);
}

/// After `j` verdict steps, a failing call closes an `AnyOf` run at `j + 1`
/// consumed events.
proof fn lemma_anyof_exit_step(
    ga: Seq<AssertionView>,
    image: Seq<char>,
    needed0: int,
    needed: int,
    prefix: Seq<OracleEvent>,
    ev: OracleEvent,
    j: int,
)
    requires
        0 <= j < ga.len(),
        0 < needed <= ga.len() - j,
        ev.assertion == ga[j],
        ev.image == image,
        ev.reply matches OracleReplyView::Failure(_),
        forall|rest: Seq<OracleEvent>|
            anyof_run(ga, image, needed0, prefix + rest) == lift_run(
                #[trigger] anyof_run(ga.skip(j), image, needed, rest),
                j,
            ),
    ensures
        anyof_run(ga, image, needed0, prefix + seq![ev]) == Some((j + 1, GroupOutcome::Failed)),
{
    assert(anyof_run(ga, image, needed0, prefix + seq![ev]) == lift_run(
        anyof_run(ga.skip(j), image, needed, seq![ev]),
        j,
    ));
    assert(ga.skip(j)[0] == ga[j]);
    assert(ga.skip(j).len() == ga.len() - j);
    assert(seq![ev][0] == ev);
}

/// A digest seen in later events wins; otherwise the earlier one stands.
pub open spec fn combine_digest(
    earlier: Option<Seq<char>>,
    later: Seq<OracleEvent>,
) -> Option<Seq<char>> {
    match last_trusted_digest(later) {
        Some(d) => Some(d),
        None => earlier,
    }
}

/// `last_trusted_digest` over a concatenation combines the two parts.
proof fn lemma_digest_concat(a: Seq<OracleEvent>, b: Seq<OracleEvent>)
    ensures
        last_trusted_digest(a + b) == combine_digest(last_trusted_digest(a), b),
    decreases b.len(),
{
    if b.len() == 0 {
        assert(a + b =~= a);
    } else {
        assert((a + b).drop_last() =~= a + b.drop_last());
        assert((a + b).last() == b.last());
        lemma_digest_concat(a, b.drop_last());
    }
}

/// Runs an `AllOf` group: one oracle call per assertion, in order, stopping
/// at the first non-trusted verdict, aborting on a failed call.
fn run_allof<O: Oracle>(
    list: &Vec<Assertion>,
    image: &str,
    oracle: &mut O,
    digest: &mut Option<String>,
) -> (r: Result<bool, OracleError>)
    ensures
        old(oracle).log().is_prefix_of(final(oracle).log()),
        ({
            let new_events = final(oracle).log().skip(old(oracle).log().len() as int);
            &&& opt_str_view(*final(digest)) == combine_digest(
                opt_str_view(*old(digest)),
                new_events,
            )
            &&& match r {
                Ok(sat) => allof_run(asserts_view(list@), image@, new_events) == Some(
                    (
                        new_events.len() as int,
                        if sat {
                            GroupOutcome::Sat
                        } else {
                            GroupOutcome::NotSat
                        },
                    ),
                ),
                Err(e) => allof_run(asserts_view(list@), image@, new_events) == Some(
                    (new_events.len() as int, GroupOutcome::Failed),
                ) && new_events.len() > 0 && new_events.last().reply == OracleReplyView::Failure(
                    e@,
                ),
            }
            &&& (r == Ok::<bool, OracleError>(true) ==> forall|rest: Seq<OracleEvent>|
                #[trigger] allof_run(asserts_view(list@), image@, new_events + rest) == Some(
                    (new_events.len() as int, GroupOutcome::Sat),
                ))
        }),
{
    let ghost start = oracle.log();
    let ghost gl = asserts_view(list@);
    let ghost d0 = opt_str_view(*digest);
    let ghost mut events: Seq<OracleEvent> = Seq::empty();
    let ghost mut gtail: Seq<AssertionView> = gl;
    proof {
        assert(oracle.log().skip(start.len() as int) =~= events);
        assert(oracle.log().subrange(0, start.len() as int) =~= start);
        assert(gtail =~= gl.skip(0));
        assert forall|rest: Seq<OracleEvent>|
            allof_run(gl, image@, events + rest) == lift_run(
                #[trigger] allof_run(gtail, image@, rest),
                0,
            ) by {
            assert(events + rest =~= rest);
            lemma_lift_zero(allof_run(gl, image@, rest));
        }
    }
    for i in 0..list.len()
        invariant
            gl == asserts_view(list@),
            gl.len() == list.len(),
            start == old(oracle).log(),
            d0 == opt_str_view(*old(digest)),
            start.is_prefix_of(oracle.log()),
            events == oracle.log().skip(start.len() as int),
            events.len() == i,
            gtail == gl.skip(i as int),
            opt_str_view(*digest) == combine_digest(d0, events),
            forall|rest: Seq<OracleEvent>|
                allof_run(gl, image@, events + rest) == lift_run(
                    #[trigger] allof_run(gtail, image@, rest),
                    i as int,
                ),
    {
        let ghost tl = gtail;
        let resp = oracle.verify(&list[i], image);
        let ghost prev = events;
        let ghost ev = OracleEvent {
            assertion: gl[i as int],
            image: image@,
            reply: reply_view(resp),
        };
        proof {
            events = prev.push(ev);
            assert(events =~= prev + seq![ev]);
            assert(events =~= oracle.log().skip(start.len() as int));
            assert(oracle.log().subrange(0, start.len() as int) =~= start);
            assert(gl.skip(i as int)[0] == gl[i as int]);
            assert(gl.skip(i as int).len() == gl.len() - i);
            assert(events.last() == ev);
            assert(events.drop_last() =~= prev);
        }
        match resp {
            Err(e) => {
                proof {
                    assert forall|rest: Seq<OracleEvent>|
                        allof_run(gl, image@, prev + rest) == lift_run(
                            #[trigger] allof_run(gl.skip(i as int), image@, rest),
                            i as int,
                        ) by {
                        assert(allof_run(gl, image@, prev + rest) == lift_run(
                            allof_run(tl, image@, rest),
                            i as int,
                        ));
                    }
                    lemma_allof_exit_step(gl, image@, prev, ev, i as int);
                    assert(prev + seq![ev] =~= events);
                }
                return Err(e);
            },
            Ok(vr) => {
                if !vr.is_trusted {
                    proof {
                        assert forall|rest: Seq<OracleEvent>|
                            allof_run(gl, image@, prev + rest) == lift_run(
                                #[trigger] allof_run(gl.skip(i as int), image@, rest),
                                i as int,
                            ) by {
                            assert(allof_run(gl, image@, prev + rest) == lift_run(
                                allof_run(tl, image@, rest),
                                i as int,
                            ));
                        }
                        lemma_allof_exit_step(gl, image@, prev, ev, i as int);
                        assert(prev + seq![ev] =~= events);
                    }
                    return Ok(false);
                }
                *digest = Some(vr.digest);
                proof {
                    gtail = gl.skip(i + 1);
                    assert forall|rest: Seq<OracleEvent>|
                        allof_run(gl, image@, events + rest) == lift_run(
                            #[trigger] allof_run(gtail, image@, rest),
                            i + 1,
                        ) by {
                        let evrest = seq![ev] + rest;
                        assert(prev + evrest =~= events + rest);
                        assert(allof_run(gl, image@, prev + evrest) == lift_run(
                            allof_run(tl, image@, evrest),
                            i as int,
                        ));
                        assert(evrest[0] == ev);
                        assert(evrest.len() == 1 + rest.len());
                        assert(evrest.drop_first() =~= rest);
                        assert(tl[0] == gl[i as int]);
                        assert(tl.len() == gl.len() - i);
                        assert(tl.drop_first() =~= gtail);
                        assert(allof_run(tl, image@, evrest) == lift_run(
                            allof_run(gtail, image@, rest),
                            1,
                        ));
                        lemma_lift_lift(allof_run(gtail, image@, rest), 1, i as int);
                    }
                }
            },
        }
    }
    proof {
        assert(gtail =~= Seq::<AssertionView>::empty());
        assert forall|rest: Seq<OracleEvent>|
            #[trigger] allof_run(gl, image@, events + rest) == Some(
                (events.len() as int, GroupOutcome::Sat),
            ) by {
            assert(allof_run(gl, image@, events + rest) == lift_run(
                allof_run(gtail, image@, rest),
                events.len() as int,
            ));
            assert(allof_run(gtail, image@, rest) == Some((0int, GroupOutcome::Sat)));
        }
        assert(events + Seq::<OracleEvent>::empty() =~= events);
    }
    Ok(true)
}

/// Runs an `AnyOf` group that needs `minimum_matches` matches: one oracle
/// call per assertion, in order, stopping as soon as the threshold is
/// reached, or as soon as too few assertions remain to reach it, aborting on
/// a failed call.
fn run_anyof<O: Oracle>(
    sigs: &Vec<Assertion>,
    minimum_matches: u64,
    image: &str,
    oracle: &mut O,
    digest: &mut Option<String>,
) -> (r: Result<bool, OracleError>)
    ensures
        old(oracle).log().is_prefix_of(final(oracle).log()),
        ({
            let new_events = final(oracle).log().skip(old(oracle).log().len() as int);
            &&& opt_str_view(*final(digest)) == combine_digest(
                opt_str_view(*old(digest)),
                new_events,
            )
            &&& match r {
                Ok(sat) => anyof_run(asserts_view(sigs@), image@, minimum_matches as int, new_events)
                    == Some(
                    (
                        new_events.len() as int,
                        if sat {
                            GroupOutcome::Sat
                        } else {
                            GroupOutcome::NotSat
                        },
                    ),
                ),
                Err(e) => anyof_run(asserts_view(sigs@), image@, minimum_matches as int, new_events)
                    == Some((new_events.len() as int, GroupOutcome::Failed)) && new_events.len() > 0
                    && new_events.last().reply == OracleReplyView::Failure(e@),
            }
        }),
{
    let ghost start = oracle.log();
    let ghost ga = asserts_view(sigs@);
    let ghost d0 = opt_str_view(*digest);
    let ghost needed0: int = minimum_matches as int;
    let ghost mut events: Seq<OracleEvent> = Seq::empty();
    let mut needed: u64 = minimum_matches;
    let mut j: usize = 0;
    let ghost mut gatail: Seq<AssertionView> = ga;
    proof {
        assert(oracle.log().skip(start.len() as int) =~= events);
        assert(oracle.log().subrange(0, start.len() as int) =~= start);
        assert(gatail =~= ga.skip(0));
        assert forall|rest: Seq<OracleEvent>|
            anyof_run(ga, image@, needed0, events + rest) == lift_run(
                #[trigger] anyof_run(gatail, image@, needed0, rest),
                0,
            ) by {
            assert(events + rest =~= rest);
            lemma_lift_zero(anyof_run(ga, image@, needed0, rest));
        }
    }
    while needed > 0 && ((sigs.len() - j) as u64) >= needed
        invariant
            0 <= j <= sigs.len(),
            ga == asserts_view(sigs@),
            ga.len() == sigs.len(),
            start == old(oracle).log(),
            d0 == opt_str_view(*old(digest)),
            start.is_prefix_of(oracle.log()),
            events == oracle.log().skip(start.len() as int),
            events.len() == j,
            gatail == ga.skip(j as int),
            opt_str_view(*digest) == combine_digest(d0, events),
            needed0 == minimum_matches as int,
            forall|rest: Seq<OracleEvent>|
                anyof_run(ga, image@, needed0, events + rest) == lift_run(
                    #[trigger] anyof_run(gatail, image@, needed as int, rest),
                    j as int,
                ),
        decreases sigs.len() - j,
    {
        let ghost tl = gatail;
        let resp = oracle.verify(&sigs[j], image);
        let ghost prev = events;
        let ghost ev = OracleEvent {
            assertion: ga[j as int],
            image: image@,
            reply: reply_view(resp),
        };
        proof {
            events = prev.push(ev);
            assert(events =~= prev + seq![ev]);
            assert(events =~= oracle.log().skip(start.len() as int));
            assert(oracle.log().subrange(0, start.len() as int) =~= start);
            assert(ga.skip(j as int)[0] == ga[j as int]);
            assert(ga.skip(j as int).len() == ga.len() - j);
            assert(events.last() == ev);
            assert(events.drop_last() =~= prev);
        }
        match resp {
            Err(e) => {
                proof {
                    assert forall|rest: Seq<OracleEvent>|
                        anyof_run(ga, image@, needed0, prev + rest) == lift_run(
                            #[trigger] anyof_run(ga.skip(j as int), image@, needed as int, rest),
                            j as int,
                        ) by {
                        assert(anyof_run(ga, image@, needed0, prev + rest) == lift_run(
                            anyof_run(tl, image@, needed as int, rest),
                            j as int,
                        ));
                    }
                    lemma_anyof_exit_step(
                        ga,
                        image@,
                        needed0,
                        needed as int,
                        prev,
                        ev,
                        j as int,
                    );
                    assert(prev + seq![ev] =~= events);
                }
                return Err(e);
            },
            Ok(vr) => {
                let trusted = vr.is_trusted;
                let ghost needed_before: int = needed as int;
                if trusted {
                    *digest = Some(vr.digest);
                    needed = needed - 1;
                }
                proof {
                    gatail = ga.skip(j + 1);
                    assert forall|rest: Seq<OracleEvent>|
                        anyof_run(ga, image@, needed0, events + rest) == lift_run(
                            #[trigger] anyof_run(gatail, image@, needed as int, rest),
                            j + 1,
                        ) by {
                        let evrest = seq![ev] + rest;
                        assert(prev + evrest =~= events + rest);
                        assert(anyof_run(ga, image@, needed0, prev + evrest) == lift_run(
                            anyof_run(tl, image@, needed_before, evrest),
                            j as int,
                        ));
                        assert(evrest[0] == ev);
                        assert(evrest.len() == 1 + rest.len());
                        assert(evrest.drop_first() =~= rest);
                        assert(tl[0] == ga[j as int]);
                        assert(tl.len() == ga.len() - j);
                        assert(tl.drop_first() =~= gatail);
                        assert(anyof_run(tl, image@, needed_before, evrest) == lift_run(
                            anyof_run(gatail, image@, needed as int, rest),
                            1,
                        ));
                        lemma_lift_lift(
                            anyof_run(gatail, image@, needed as int, rest),
                            1,
                            j as int,
                        );
                    }
                }
                j = j + 1;
            },
        }
    }
    let satisfied = needed == 0;
    proof {
        assert(events + Seq::<OracleEvent>::empty() =~= events);
        assert(gatail.len() == ga.len() - j);
        assert(anyof_run(ga, image@, needed0, events) == lift_run(
            anyof_run(gatail, image@, needed as int, Seq::empty()),
            j as int,
        ));
        if satisfied {
            assert(anyof_run(gatail, image@, needed as int, Seq::empty()) == Some(
                (0int, GroupOutcome::Sat),
            ));
        } else {
            assert(anyof_run(gatail, image@, needed as int, Seq::empty()) == Some(
                (0int, GroupOutcome::NotSat),
            ));
        }
    }
    Ok(satisfied)
}

/// Evaluates a versioned configuration against `image`, issuing one oracle
/// call per leaf assertion, in declaration order, with both short-circuit
/// directions of the AllOf/AnyOf semantics.
///
/// The contract says, for whatever replies came back: the calls made (the new
/// entries of the oracle's log) are exactly the trace that [`config_run`]
/// prescribes, the result is its verdict, a returned error is the failing
/// call's error, and the digest is the last trusted one observed.  An
/// unsupported version refuses to run before any call is made.
pub fn evaluate<O: Oracle>(config: &VersionedVerificationConfig, image: &str, oracle: &mut O) -> (r:
    Result<EvaluationResult, EvalError>)
    ensures
        old(oracle).log().is_prefix_of(final(oracle).log()),
        ({
            let new_events = final(oracle).log().skip(old(oracle).log().len() as int);
            match config@ {
                VersionedVerificationConfigView::Unsupported(tag) => {
                    &&& final(oracle).log() == old(oracle).log()
                    &&& r matches Err(e) && e@ == EvalErrorView::UnsupportedVersion(tag)
                },
                VersionedVerificationConfigView::V1(cfg) => {
                    &&& (match eval_verdict_of(r) {
                        Some(v) => config_run(cfg, image@, new_events) == Some(
                            (new_events.len() as int, v),
                        ),
                        None => false,
                    })
                    &&& (r matches Ok(res) ==> opt_str_view(res.digest) == last_trusted_digest(
                        new_events,
                    ))
                    &&& (r matches Err(e) ==> e@ matches EvalErrorView::Oracle(oe)
                        && new_events.len() > 0 && new_events.last().reply
                        == OracleReplyView::Failure(oe))
                },
            }
        }),
{
    let cfg = match config {
        VersionedVerificationConfig::Unsupported(tag) => {
            return Err(EvalError::UnsupportedVersion(tag.clone()));
        },
        VersionedVerificationConfig::V1(cfg) => cfg,
    };
    let ghost start = oracle.log();
    let ghost gcfg = cfg@;
    let mut digest: Option<String> = None;
    proof {
        assert(oracle.log().skip(start.len() as int) =~= Seq::<OracleEvent>::empty());
    }

    // the conjunction group first
    let mut all_sat = true;
    let ghost mut n1: int = 0;
    if let Some(list) = &cfg.all_of {
        match run_allof(list, image, oracle, &mut digest) {
            Err(e) => {
                proof {
                    let new_events = oracle.log().skip(start.len() as int);
                    lemma_digest_concat(Seq::empty(), new_events);
                }
                return Err(EvalError::Oracle(e));
            },
            Ok(sat) => {
                all_sat = sat;
                proof {
                    n1 = oracle.log().len() - start.len();
                }
            },
        }
    }
    let ghost allof_events = oracle.log().skip(start.len() as int);
    if !all_sat {
        proof {
            assert(combine_digest(None, allof_events) == last_trusted_digest(allof_events)) by {
                lemma_digest_concat(Seq::empty(), allof_events);
                assert(Seq::<OracleEvent>::empty() + allof_events =~= allof_events);
            }
        }
        return Ok(EvaluationResult { satisfied: false, digest });
    }

    // then the threshold group, on whatever the oracle's log has grown by
    let mut satisfied = true;
    if let Some(group) = &cfg.any_of {
        let ghost mid = oracle.log();
        match run_anyof(&group.signatures, group.minimum_matches, image, oracle, &mut digest) {
            Err(e) => {
                proof {
                    let tail = oracle.log().skip(mid.len() as int);
                    let new_events = oracle.log().skip(start.len() as int);
                    assert(allof_events + tail =~= new_events);
                    assert(new_events.last() == tail.last());
                    lemma_digest_concat(allof_events, tail);
                    assert(new_events.skip(n1) =~= tail);
                }
                return Err(EvalError::Oracle(e));
            },
            Ok(sat) => {
                satisfied = sat;
                proof {
                    let tail = oracle.log().skip(mid.len() as int);
                    let new_events = oracle.log().skip(start.len() as int);
                    assert(allof_events + tail =~= new_events);
                    lemma_digest_concat(allof_events, tail);
                    assert(new_events.skip(n1) =~= tail);
                }
            },
        }
    } else {
        proof {
            let new_events = oracle.log().skip(start.len() as int);
            assert(new_events.skip(n1) =~= Seq::<OracleEvent>::empty());
        }
    }
    proof {
        let new_events = oracle.log().skip(start.len() as int);
        lemma_digest_concat(Seq::empty(), new_events);
        assert(Seq::<OracleEvent>::empty() + new_events =~= new_events);
        if gcfg.all_of is None {
            assert(new_events.skip(0) =~= new_events);
        }
    }
    Ok(EvaluationResult { satisfied, digest })
}



/// An oracle that replays a fixed script of replies, in call order, and
/// records which assertions were asked.  Meant for exercising the evaluator
/// without a host: the recorded calls show exactly where evaluation
/// short-circuited.
pub struct ScriptedOracle {
    /// The replies still to hand out, consumed from the front.
    pub replies: Vec<Result<VerificationResponse, OracleError>>,
    /// The assertions asked so far, in call order.
    pub asked: Vec<Assertion>,
    /// The history of calls, for specification purposes.
    pub history: Ghost<Seq<OracleEvent>>,
}

impl ScriptedOracle {
    /// An oracle that will answer with `replies`, first to last, and fail
    /// any call beyond them.
    pub fn new(replies: Vec<Result<VerificationResponse, OracleError>>) -> (r: ScriptedOracle)
        ensures
            r.log() == Seq::<OracleEvent>::empty(),
            r.replies == replies,
            r.asked@ == Seq::<Assertion>::empty(),
    {
        ScriptedOracle { replies, asked: Vec::new(), history: Ghost(Seq::empty()) }
    }
}

impl Oracle for ScriptedOracle {
    open spec fn log(&self) -> Seq<OracleEvent> {
        self.history@
    }

    fn verify(&mut self, assertion: &Assertion, image: &str) -> (r: Result<
        VerificationResponse,
        OracleError,
    >)
        ensures
            final(self).log() == old(self).log().push(
                OracleEvent { assertion: assertion@, image: image@, reply: reply_view(r) },
            ),
    {
        let r = if self.replies.len() > 0 {
            self.replies.remove(0)
        } else {
            Err(OracleError::HostFailure(String::from_str("no reply scripted for this call")))
        };
        self.asked.push(assertion.clone());
        let ghost ev = OracleEvent { assertion: assertion@, image: image@, reply: reply_view(r) };
        proof {
            self.history@ = self.history@.push(ev);
        }
        r
    }
}

} // verus!
