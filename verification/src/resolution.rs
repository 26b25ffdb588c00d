//! Turning the answers of the substituters to a narinfo query into what is
//! known of the store path and into reports on the substituters.
use vstd::prelude::*;

use crate::availability_index::{CandidateView, SubstituterCandidate};
use crate::nar::{
    resolution_result, Nar, NarActorEffect, NarInfoQueryOutcome, NarStateView, ResolveNarInfoError,
};

verus! {

/// One substituter's answer: `None` when the query failed.
#[derive(Debug)]
pub struct SubstituterAnswer {
    pub candidate: SubstituterCandidate,
    pub outcome: Option<NarInfoQueryOutcome>,
}

/// An answer as plain values: the candidate, and `None` for a failure,
/// `Some(None)` for "not found", `Some(Some((narinfo, latency)))` when found.
pub struct AnswerView {
    pub candidate: CandidateView,
    pub outcome: Option<Option<((Seq<char>, Seq<char>), u64)>>,
}

/// The plain values of an answer.
pub open spec fn answer_view(a: SubstituterAnswer) -> AnswerView {
    AnswerView {
        candidate: a.candidate@,
        outcome: match a.outcome {
            None => None,
            Some(NarInfoQueryOutcome::NotFound) => Some(None),
            Some(NarInfoQueryOutcome::Found { original_data, latency }) => Some(
                Some((original_data@, latency)),
            ),
        },
    }
}

/// The plain values of all answers.
pub open spec fn answer_views(s: Seq<SubstituterAnswer>) -> Seq<AnswerView> {
    Seq::new(s.len(), |i: int| answer_view(s[i]))
}

/// The answer found the narinfo.
pub open spec fn is_found(a: AnswerView) -> bool {
    a.outcome matches Some(Some(_))
}

/// The latency of an answer that found the narinfo (0 otherwise).
pub open spec fn found_latency(a: AnswerView) -> u64 {
    match a.outcome {
        Some(Some((_, latency))) => latency,
        _ => 0,
    }
}

/// The narinfo (content, file name) of an answer that found it.
pub open spec fn found_nar_info(a: AnswerView) -> (Seq<char>, Seq<char>) {
    match a.outcome {
        Some(Some((info, _))) => info,
        _ => (Seq::empty(), Seq::empty()),
    }
}

/// `a` is preferred over `b`: a lower priority, or the same priority and a
/// lower latency.
pub open spec fn preferred(a: AnswerView, b: AnswerView) -> bool {
    let pa = a.candidate.meta.priority;
    let pb = b.candidate.meta.priority;
    pa < pb || (pa == pb && found_latency(a) < found_latency(b))
}

/// The lowest latency among the answers that found the narinfo, if any did.
pub open spec fn fastest_latency(s: Seq<AnswerView>) -> Option<u64>
    decreases s.len(),
{
    if s.len() == 0 {
        None
    } else {
        let rest = fastest_latency(s.drop_last());
        let a = s.last();
        if !is_found(a) {
            rest
        } else {
            match rest {
                Some(m) => if found_latency(a) < m {
                    Some(found_latency(a))
                } else {
                    Some(m)
                },
                None => Some(found_latency(a)),
            }
        }
    }
}

/// `a` is in the running: it found the narinfo at most `tolerance`
/// milliseconds later than the fastest answer that found it.
pub open spec fn in_running(s: Seq<AnswerView>, a: AnswerView, tolerance: u64) -> bool {
    &&& is_found(a)
    &&& fastest_latency(s) matches Some(m)
    &&& found_latency(a) - m <= tolerance
}

/// `i` is the chosen answer: it is in the running, no answer in the running
/// is preferred over it, and none in the running before it is as good.
pub open spec fn is_best_answer(s: Seq<AnswerView>, i: int, tolerance: u64) -> bool {
    &&& 0 <= i < s.len()
    &&& in_running(s, s[i], tolerance)
    &&& forall|j: int|
        0 <= j < s.len() && in_running(s, #[trigger] s[j], tolerance) ==> !preferred(s[j], s[i])
    &&& forall|j: int|
        0 <= j < i && in_running(s, #[trigger] s[j], tolerance) ==> preferred(s[i], s[j])
}

/// The fastest latency is that of an answer that found the narinfo and no
/// such answer was faster; there is none exactly when no answer found it.
pub proof fn lemma_fastest_latency(s: Seq<AnswerView>)
    ensures
        fastest_latency(s) is None <==> forall|j: int| 0 <= j < s.len() ==> !is_found(#[trigger] s[j]),
        fastest_latency(s) matches Some(m) ==> exists|j: int|
            0 <= j < s.len() && is_found(#[trigger] s[j]) && found_latency(s[j]) == m,
        fastest_latency(s) matches Some(m) ==> forall|j: int|
            0 <= j < s.len() && is_found(#[trigger] s[j]) ==> m <= found_latency(s[j]),
    decreases s.len(),
{
    if s.len() > 0 {
        let t = s.drop_last();
        let last = s.len() - 1;
        lemma_fastest_latency(t);
        assert forall|j: int| 0 <= j < t.len() implies #[trigger] t[j] == s[j] by {}
        if let Some(m) = fastest_latency(t) {
            let k = choose|j: int| 0 <= j < t.len() && is_found(#[trigger] t[j]) && found_latency(t[j]) == m;
        }
        if fastest_latency(s) is None {
            assert forall|j: int| 0 <= j < s.len() implies !is_found(#[trigger] s[j]) by {
                if j < last {
                    assert(t[j] == s[j]);
                }
            }
        } else {
            if forall|j: int| 0 <= j < s.len() ==> !is_found(#[trigger] s[j]) {
                assert forall|j: int| 0 <= j < t.len() implies !is_found(#[trigger] t[j]) by {
                }
            }
        }
        if let Some(m) = fastest_latency(s) {
            assert forall|j: int| 0 <= j < s.len() && is_found(#[trigger] s[j]) implies m
                <= found_latency(s[j]) by {
                if j < last {
                    assert(t[j] == s[j]);
                }
            }
        }
    }
}

/// The fastest answer is always in the running, so whenever some answer
/// found the narinfo, one is chosen.
pub proof fn lemma_fastest_is_in_running(s: Seq<AnswerView>, tolerance: u64)
    requires
        exists|j: int| 0 <= j < s.len() && is_found(#[trigger] s[j]),
    ensures
        exists|j: int| 0 <= j < s.len() && in_running(s, #[trigger] s[j], tolerance),
{
    lemma_fastest_latency(s);
}

/// The chosen answer found the narinfo no more than `tolerance` ms later
/// than any other answer that found it, and among the answers that did so,
/// none has a lower priority value, nor the same one with a lower latency.
pub proof fn lemma_best_answer_wins(s: Seq<AnswerView>, i: int, tolerance: u64)
    requires
        is_best_answer(s, i, tolerance),
    ensures
        is_found(s[i]),
        forall|k: int|
            0 <= k < s.len() && is_found(#[trigger] s[k]) ==> found_latency(s[i]) <= found_latency(
                s[k],
            ) + tolerance,
        forall|j: int|
            0 <= j < s.len() && is_found(#[trigger] s[j]) && (forall|k: int|
                0 <= k < s.len() && is_found(#[trigger] s[k]) ==> found_latency(s[j]) <= found_latency(
                    s[k],
                ) + tolerance) ==> {
                &&& s[i].candidate.meta.priority <= s[j].candidate.meta.priority
                &&& s[i].candidate.meta.priority == s[j].candidate.meta.priority ==> found_latency(s[i])
                    <= found_latency(s[j])
            },
{
    lemma_fastest_latency(s);
    let m = fastest_latency(s)->0;
    let w = choose|j: int| 0 <= j < s.len() && is_found(#[trigger] s[j]) && found_latency(s[j]) == m;
    assert forall|j: int|
        0 <= j < s.len() && is_found(#[trigger] s[j]) && (forall|k: int|
            0 <= k < s.len() && is_found(#[trigger] s[k]) ==> found_latency(s[j]) <= found_latency(
                s[k],
            ) + tolerance) implies {
        &&& s[i].candidate.meta.priority <= s[j].candidate.meta.priority
        &&& s[i].candidate.meta.priority == s[j].candidate.meta.priority ==> found_latency(s[i])
            <= found_latency(s[j])
    } by {
        assert(is_found(s[w]));
        assert(in_running(s, s[j], tolerance));
    }
}

/// The answer to use: among the answers in the running (see
/// [`in_running`]), the one with the lowest priority, then the lowest
/// latency, the first of equals; `None` when no answer found the narinfo.
pub fn select_answer(answers: &Vec<SubstituterAnswer>, tolerance: u64) -> (r: Option<usize>)
    ensures
        match r {
            Some(i) => is_best_answer(answer_views(answers@), i as int, tolerance),
            None => forall|j: int| 0 <= j < answers@.len() ==> !is_found(
                #[trigger] answer_views(answers@)[j],
            ),
        },
{
    let ghost views = answer_views(answers@);
    let mut fastest: Option<u64> = None;
    let mut i: usize = 0;
    while i < answers.len()
        invariant
            i <= answers.len(),
            views == answer_views(answers@),
            fastest == fastest_latency(views.take(i as int)),
        decreases answers.len() - i,
    {
        assert(views.take(i + 1).drop_last() =~= views.take(i as int));
        if let Some(NarInfoQueryOutcome::Found { latency, .. }) = &answers[i].outcome {
            fastest = match fastest {
                Some(m) => if *latency < m {
                    Some(*latency)
                } else {
                    Some(m)
                },
                None => Some(*latency),
            };
        }
        i = i + 1;
    }
    assert(views.take(answers.len() as int) =~= views);
    let m = match fastest {
        Some(m) => m,
        None => {
            proof {
                lemma_fastest_latency(views);
            }
            return None;
        },
    };
    let mut best: Option<usize> = None;
    let mut i: usize = 0;
    while i < answers.len()
        invariant
            i <= answers.len(),
            views == answer_views(answers@),
            fastest_latency(views) == Some(m),
            match best {
                Some(b) => {
                    &&& b < i
                    &&& in_running(views, views[b as int], tolerance)
                    &&& forall|j: int|
                        0 <= j < i && in_running(views, #[trigger] views[j], tolerance)
                            ==> !preferred(views[j], views[b as int])
                    &&& forall|j: int|
                        0 <= j < b && in_running(views, #[trigger] views[j], tolerance)
                            ==> preferred(views[b as int], views[j])
                },
                None => forall|j: int|
                    0 <= j < i ==> !in_running(views, #[trigger] views[j], tolerance),
            },
        decreases answers.len() - i,
    {
        if let Some(NarInfoQueryOutcome::Found { latency, .. }) = &answers[i].outcome {
            let close_enough = *latency < m || *latency - m <= tolerance;
            if close_enough {
                let better = match best {
                    None => true,
                    Some(b) => {
                        let pb = answers[b].candidate.priority().value();
                        let pi = answers[i].candidate.priority().value();
                        let lb = match &answers[b].outcome {
                            Some(NarInfoQueryOutcome::Found { latency, .. }) => *latency,
                            _ => 0,
                        };
                        pi < pb || (pi == pb && *latency < lb)
                    },
                };
                if better {
                    best = Some(i);
                }
            }
        }
        i = i + 1;
    }
    proof {
        if best is None {
            assert forall|j: int| 0 <= j < answers@.len() implies !is_found(
                #[trigger] answer_views(answers@)[j],
            ) by {
                if is_found(views[j]) {
                    lemma_fastest_is_in_running(views, tolerance);
                    let k = choose|k: int|
                        0 <= k < views.len() && in_running(views, #[trigger] views[k], tolerance);
                }
            }
        }
    }
    best
}

/// When the wait for answers ends, in milliseconds on the caller's clock:
/// unset until the first answer that found the narinfo arrives, then that
/// arrival plus `tolerance` (the largest instant when the sum does not fit).
/// Answers arriving after it are not waited for.
pub fn tolerance_deadline(current: Option<u64>, arrived_at: u64, found: bool, tolerance: u64) -> (r:
    Option<u64>)
    ensures
        r == match current {
            Some(d) => Some(d),
            None => if found {
                Some(
                    if arrived_at + tolerance <= u64::MAX {
                        (arrived_at + tolerance) as u64
                    } else {
                        u64::MAX
                    },
                )
            } else {
                None
            },
        },
{
    match current {
        Some(d) => Some(d),
        None => if found {
            Some(arrived_at.saturating_add(tolerance))
        } else {
            None
        },
    }
}

/// The report an answer makes on its substituter: an answer (found or not)
/// is a success, a failed query a failure.
pub open spec fn report_of(a: AnswerView) -> (bool, Seq<char>) {
    (a.outcome is Some, a.candidate.meta.url)
}

/// A query that was answered reports a success for its substituter, whether
/// the narinfo was found or not (a substituter that lacks a path is still
/// available); only a query that failed reports a failure.
pub proof fn lemma_answered_queries_report_success(a: SubstituterAnswer)
    ensures
        report_of(answer_view(a)).1 == a.candidate@.meta.url,
        a.outcome matches Some(NarInfoQueryOutcome::NotFound) ==> report_of(answer_view(a)).0,
        a.outcome matches Some(NarInfoQueryOutcome::Found { .. }) ==> report_of(answer_view(a)).0,
        a.outcome is None ==> !report_of(answer_view(a)).0,
{
}

/// A report as plain values: whether it is a success, and the URL.
pub open spec fn effect_view(e: NarActorEffect) -> (bool, Seq<char>) {
    match e {
        NarActorEffect::ReportSubstituterSuccess(u) => (true, u@),
        NarActorEffect::ReportSubstituterFailure(u) => (false, u@),
    }
}

/// What is known after the answers: resolved to the chosen answer when one
/// found the narinfo; otherwise not found when every query was answered (or
/// failures are to be taken as "not found"); otherwise still unknown.
pub open spec fn state_after_answers(
    prev: NarStateView,
    s: Seq<AnswerView>,
    best: Option<int>,
    ignore_errors: bool,
) -> NarStateView {
    match best {
        Some(i) => NarStateView::Resolved {
            best: s[i].candidate.meta,
            nar_info: found_nar_info(s[i]),
        },
        None => if ignore_errors || forall|j: int| 0 <= j < s.len() ==> (#[trigger] s[j]).outcome is Some {
            NarStateView::NotFound
        } else {
            prev
        },
    }
}

/// What later requests for the store path get after the answers: the
/// chosen narinfo once one was found; "not found" when none was found and
/// every substituter answered (or failures count as "not found"); and when
/// a query failed otherwise, nothing is remembered, so the next request
/// asks the substituters again.
pub proof fn lemma_answers_decide_later_requests(
    s: Seq<AnswerView>,
    best: Option<int>,
    ignore_errors: bool,
    tolerance: u64,
)
    requires
        best matches Some(i) ==> is_best_answer(s, i, tolerance),
        best is None ==> forall|j: int| 0 <= j < s.len() ==> !is_found(#[trigger] s[j]),
    ensures
        best matches Some(i) ==> resolution_result(
            state_after_answers(NarStateView::Unknown, s, best, ignore_errors),
        ) == Ok::<_, ResolveNarInfoError>(found_nar_info(s[i])),
        best is None && (ignore_errors || forall|j: int| 0 <= j < s.len() ==> (#[trigger] s[j]).outcome is Some)
            ==> resolution_result(state_after_answers(NarStateView::Unknown, s, best, ignore_errors))
            == Err::<(Seq<char>, Seq<char>), _>(ResolveNarInfoError::NotFound),
        best is None && !ignore_errors && (exists|j: int| 0 <= j < s.len() && (#[trigger] s[j]).outcome is None)
            ==> state_after_answers(NarStateView::Unknown, s, best, ignore_errors)
            == NarStateView::Unknown,
{
}

/// Applies the answers to a store path: one report per answer, in order,
/// and the new state (see [`state_after_answers`]).
pub fn resolve_answers(
    nar: Nar,
    answers: Vec<SubstituterAnswer>,
    ignore_errors: bool,
    tolerance: u64,
) -> (r: (
    Nar,
    Vec<NarActorEffect>,
))
    ensures
        r.1@.len() == answers@.len(),
        forall|i: int|
            0 <= i < answers@.len() ==> effect_view(#[trigger] r.1@[i]) == report_of(
                answer_views(answers@)[i],
            ),
        forall|i: int|
            0 <= i < answers@.len() ==> ((#[trigger] r.1@[i] is ReportSubstituterSuccess) == (
            answers@[i].outcome is Some) && effect_view(r.1@[i]).1 == answers@[i].candidate@.meta.url),
        r.0@.hash == nar@.hash,
        exists|best: Option<int>|
            {
                &&& (best matches Some(i) ==> is_best_answer(answer_views(answers@), i, tolerance))
                &&& (best is None ==> forall|j: int| 0 <= j < answers@.len() ==> !is_found(
                    #[trigger] answer_views(answers@)[j],
                ))
                &&& r.0@.state == state_after_answers(
                    nar@.state,
                    answer_views(answers@),
                    best,
                    ignore_errors,
                )
            },
{
    let ghost views = answer_views(answers@);
    let mut effects: Vec<NarActorEffect> = Vec::new();
    let mut all_answered = true;
    let mut i: usize = 0;
    while i < answers.len()
        invariant
            i <= answers.len(),
            views == answer_views(answers@),
            effects@.len() == i,
            forall|k: int| 0 <= k < i ==> effect_view(#[trigger] effects@[k]) == report_of(views[k]),
            all_answered == forall|k: int| 0 <= k < i ==> (#[trigger] views[k]).outcome is Some,
        decreases answers.len() - i,
    {
        assert(views[i as int] == answer_view(answers@[i as int]));
        let url = answers[i].candidate.url().duplicate();
        if answers[i].outcome.is_some() {
            effects.push(NarActorEffect::ReportSubstituterSuccess(url));
        } else {
            all_answered = false;
            effects.push(NarActorEffect::ReportSubstituterFailure(url));
        }
        i = i + 1;
    }
    let best = select_answer(&answers, tolerance);
    let next = match best {
        Some(b) => {
            match &answers[b].outcome {
                Some(NarInfoQueryOutcome::Found { original_data, .. }) => nar.on_resolved(
                    answers[b].candidate.meta().duplicate(),
                    original_data.duplicate(),
                ),
                _ => nar,
            }
        },
        None => {
            if ignore_errors || all_answered {
                nar.on_not_found()
            } else {
                nar
            }
        },
    };
    let ghost best_index: Option<int> = match best {
        Some(b) => Some(b as int),
        None => None,
    };
    assert(next@.state == state_after_answers(nar@.state, views, best_index, ignore_errors));
    (next, effects)
}

} // verus!
