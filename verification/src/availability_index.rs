//! The index of substituters that requests may currently go to.
use std::sync::Arc;

use vstd::prelude::*;

use crate::substituter::{Priority, Substituter, SubstituterMeta, SubstituterMetaView};
use crate::url::Url;

verus! {

/// A substituter that requests may go to.
#[derive(Debug, PartialEq, Eq, Hash)]
pub struct SubstituterCandidate {
    meta: SubstituterMeta,
    is_maybe_ready: bool,
}

/// What a [`SubstituterCandidate`] holds, as plain values.
pub struct CandidateView {
    pub meta: SubstituterMetaView,
    pub is_maybe_ready: bool,
}

impl View for SubstituterCandidate {
    type V = CandidateView;

    closed spec fn view(&self) -> CandidateView {
        CandidateView { meta: self.meta@, is_maybe_ready: self.is_maybe_ready }
    }
}

impl SubstituterCandidate {
    /// A candidate; `is_maybe_ready` says that it just came back from a
    /// retry delay.
    pub fn new(meta: SubstituterMeta, is_maybe_ready: bool) -> (r: SubstituterCandidate)
        ensures
            r@ == (CandidateView { meta: meta@, is_maybe_ready }),
    {
        SubstituterCandidate { meta, is_maybe_ready }
    }

    /// The candidate for a substituter.
    pub fn from_substituter(substituter: &Substituter) -> (r: SubstituterCandidate)
        ensures
            r@ == (CandidateView {
                meta: substituter@.target,
                is_maybe_ready: substituter@.availability is MaybeReady,
            }),
    {
        SubstituterCandidate::new(substituter.target().duplicate(), substituter.is_maybe_ready())
    }

    /// Address, storage location and priority.
    pub fn meta(&self) -> (r: &SubstituterMeta)
        ensures
            r@ == self@.meta,
    {
        &self.meta
    }

    /// Whether the candidate just came back from a retry delay.
    pub fn is_maybe_ready(&self) -> (r: bool)
        ensures
            r == self@.is_maybe_ready,
    {
        self.is_maybe_ready
    }

    /// The URL.
    pub fn url(&self) -> (r: &Url)
        ensures
            r@ == self@.meta.url,
    {
        self.meta.url()
    }

    /// The priority.
    pub fn priority(&self) -> (r: Priority)
        ensures
            r@ == self@.meta.priority,
    {
        self.meta.priority()
    }

    /// A copy.
    pub fn duplicate(&self) -> (r: SubstituterCandidate)
        ensures
            r@ == self@,
    {
        SubstituterCandidate { meta: self.meta.duplicate(), is_maybe_ready: self.is_maybe_ready }
    }
}

impl Clone for SubstituterCandidate {
    fn clone(&self) -> (r: Self)
        ensures
            r@ == self@,
    {
        self.duplicate()
    }
}

/// A change in the availability of a substituter.
#[derive(Debug, PartialEq, Eq, Hash)]
pub enum SubstituterAvailabilityEvent {
    /// The substituter may be used (again).
    BecameAvailable(SubstituterCandidate),
    /// The substituter at this URL must not be used for now.
    BecameUnavailable(Url),
}

/// Where the substituters that requests may go to are looked up.
pub trait SubstituterAvailabilityIndex: Send + Sync {
    /// The substituters that requests may go to now.
    fn query_all(&self) -> Arc<Vec<SubstituterCandidate>>;
}

/// The values held by a sequence of candidates.
pub open spec fn candidate_views(s: Seq<SubstituterCandidate>) -> Seq<CandidateView> {
    Seq::new(s.len(), |i: int| s[i]@)
}

/// Some entry has this URL.
pub open spec fn has_url(s: Seq<CandidateView>, url: Seq<char>) -> bool {
    exists|i: int| 0 <= i < s.len() && s[i].meta.url == url
}

/// No two entries share a URL.
pub open spec fn urls_unique(s: Seq<CandidateView>) -> bool {
    forall|i: int, j: int| 0 <= i < j < s.len() ==> s[i].meta.url != s[j].meta.url
}

/// The entries whose URL is not `url`, in their order.
pub open spec fn without_url(s: Seq<CandidateView>, url: Seq<char>) -> Seq<CandidateView>
    decreases s.len(),
{
    if s.len() == 0 {
        s
    } else if s.last().meta.url == url {
        without_url(s.drop_last(), url)
    } else {
        without_url(s.drop_last(), url).push(s.last())
    }
}

/// The index after an event: a substituter that became available is added
/// at the end unless an entry with its URL is there already; one that became
/// unavailable loses every entry with its URL.
pub open spec fn index_after(s: Seq<CandidateView>, event: SubstituterAvailabilityEvent) -> Seq<
    CandidateView,
> {
    match event {
        SubstituterAvailabilityEvent::BecameAvailable(c) => if has_url(s, c@.meta.url) {
            s
        } else {
            s.push(c@)
        },
        SubstituterAvailabilityEvent::BecameUnavailable(url) => without_url(s, url@),
    }
}

/// Every entry left after removing a URL was in the list, and none has the
/// URL.
pub proof fn lemma_without_url_members(s: Seq<CandidateView>, url: Seq<char>)
    ensures
        !has_url(without_url(s, url), url),
        forall|i: int| #![trigger without_url(s, url)[i]] 0 <= i < without_url(s, url).len() ==> exists|j: int|
            0 <= j < s.len() && s[j] == without_url(s, url)[i],
    decreases s.len(),
{
    if s.len() > 0 {
        let t = s.drop_last();
        lemma_without_url_members(t, url);
        let w = without_url(t, url);
        let r = without_url(s, url);
        assert forall|i: int| #![trigger r[i]] 0 <= i < r.len() implies exists|j: int|
            0 <= j < s.len() && s[j] == r[i] by {
            if i < w.len() {
                let j = choose|j: int| 0 <= j < t.len() && t[j] == w[i];
            }
        }
        if has_url(r, url) {
            let i = choose|i: int| 0 <= i < r.len() && r[i].meta.url == url;
        }
    }
}

/// Removing a URL keeps exactly the entries with another URL, all of them
/// and in their order: it is the sequence filtered by "the URL differs".
pub proof fn lemma_without_url_is_filter(s: Seq<CandidateView>, url: Seq<char>)
    ensures
        without_url(s, url) == s.filter(|c: CandidateView| c.meta.url != url),
    decreases s.len(),
{
    reveal(Seq::filter);
    if s.len() > 0 {
        lemma_without_url_is_filter(s.drop_last(), url);
    }
}

/// After a substituter is reported unavailable, an entry is listed exactly
/// when it was listed before and has another URL, in the same relative
/// order; the entries kept are all those with another URL.
pub proof fn lemma_became_unavailable_keeps_others(s: Seq<CandidateView>, url: Url)
    ensures
        ({
            let r = index_after(s, SubstituterAvailabilityEvent::BecameUnavailable(url));
            &&& r == s.filter(|c: CandidateView| c.meta.url != url@)
            &&& forall|i: int| 0 <= i < r.len() ==> (#[trigger] r[i]).meta.url != url@ && s.contains(r[i])
            &&& forall|i: int| 0 <= i < s.len() && (#[trigger] s[i]).meta.url != url@ ==> r.contains(s[i])
            &&& r.len() == s.len() - s.filter(|c: CandidateView| c.meta.url == url@).len()
        }),
{
    lemma_without_url_is_filter(s, url@);
    let keep = |c: CandidateView| c.meta.url != url@;
    let drop = |c: CandidateView| c.meta.url == url@;
    let r = s.filter(keep);
    assert forall|i: int| 0 <= i < r.len() implies (#[trigger] r[i]).meta.url != url@ && s.contains(r[i]) by {
        s.lemma_filter_pred(keep, i);
        s.lemma_filter_contains_rev(keep, r[i]);
    }
    assert forall|i: int| 0 <= i < s.len() && (#[trigger] s[i]).meta.url != url@ implies r.contains(s[i]) by {
        s.lemma_filter_contains(keep, i);
    }
    lemma_filter_split_len(s, url@);
}

/// The entries with a URL and those without it together are all entries.
proof fn lemma_filter_split_len(s: Seq<CandidateView>, url: Seq<char>)
    ensures
        s.filter(|c: CandidateView| c.meta.url != url).len() + s.filter(
            |c: CandidateView| c.meta.url == url,
        ).len() == s.len(),
    decreases s.len(),
{
    reveal(Seq::filter);
    if s.len() > 0 {
        lemma_filter_split_len(s.drop_last(), url);
    }
}

/// Removing a URL that no entry has changes nothing.
pub proof fn lemma_without_url_absent(s: Seq<CandidateView>, url: Seq<char>)
    requires
        !has_url(s, url),
    ensures
        without_url(s, url) == s,
    decreases s.len(),
{
    if s.len() > 0 {
        let t = s.drop_last();
        assert(!has_url(t, url)) by {
            if has_url(t, url) {
                let j = choose|j: int| 0 <= j < t.len() && t[j].meta.url == url;
            }
        }
        lemma_without_url_absent(t, url);
    }
}

/// Removing a URL keeps the other URLs distinct.
pub proof fn lemma_without_url_unique(s: Seq<CandidateView>, url: Seq<char>)
    requires
        urls_unique(s),
    ensures
        urls_unique(without_url(s, url)),
    decreases s.len(),
{
    if s.len() > 0 {
        let t = s.drop_last();
        assert(urls_unique(t)) by {
            assert forall|i: int, j: int| 0 <= i < j < t.len() implies t[i].meta.url
                != t[j].meta.url by {
            }
        }
        lemma_without_url_unique(t, url);
        lemma_without_url_members(t, url);
        let w = without_url(t, url);
        let r = without_url(s, url);
        if s.last().meta.url != url {
            assert forall|i: int, j: int| 0 <= i < j < r.len() implies r[i].meta.url
                != r[j].meta.url by {
                if j == r.len() - 1 {
                    let k = choose|k: int| 0 <= k < t.len() && t[k] == w[i];
                }
            }
        }
    }
}

/// Every event keeps the index free of entries that share a URL.
pub proof fn lemma_index_urls_stay_unique(s: Seq<CandidateView>, event: SubstituterAvailabilityEvent)
    requires
        urls_unique(s),
    ensures
        urls_unique(index_after(s, event)),
{
    match event {
        SubstituterAvailabilityEvent::BecameAvailable(c) => {
            if !has_url(s, c@.meta.url) {
                let r = s.push(c@);
                assert forall|i: int, j: int| 0 <= i < j < r.len() implies r[i].meta.url
                    != r[j].meta.url by {
                }
            }
        },
        SubstituterAvailabilityEvent::BecameUnavailable(url) => {
            lemma_without_url_unique(s, url@);
        },
    }
}

/// Reporting a substituter available twice is the same as reporting it once,
/// and afterwards it is listed.
pub proof fn lemma_became_available_is_idempotent(s: Seq<CandidateView>, c: SubstituterCandidate)
    ensures
        has_url(index_after(s, SubstituterAvailabilityEvent::BecameAvailable(c)), c@.meta.url),
        index_after(
            index_after(s, SubstituterAvailabilityEvent::BecameAvailable(c)),
            SubstituterAvailabilityEvent::BecameAvailable(c),
        ) == index_after(s, SubstituterAvailabilityEvent::BecameAvailable(c)),
{
    let r = index_after(s, SubstituterAvailabilityEvent::BecameAvailable(c));
    if !has_url(s, c@.meta.url) {
        assert(r[s.len() as int] == c@);
    }
}

/// After a substituter is reported unavailable no entry has its URL, and a
/// report for a URL that is not listed changes nothing.
pub proof fn lemma_became_unavailable_removes(s: Seq<CandidateView>, url: Url)
    ensures
        !has_url(index_after(s, SubstituterAvailabilityEvent::BecameUnavailable(url)), url@),
        !has_url(s, url@) ==> index_after(s, SubstituterAvailabilityEvent::BecameUnavailable(url))
            == s,
{
    lemma_without_url_members(s, url@);
    if !has_url(s, url@) {
        lemma_without_url_absent(s, url@);
    }
}

/// Applies an availability event to the list of available substituters.
pub fn apply_availability_event(
    state: &mut Vec<SubstituterCandidate>,
    event: SubstituterAvailabilityEvent,
)
    ensures
        candidate_views(final(state)@) == index_after(candidate_views(old(state)@), event),
        urls_unique(candidate_views(old(state)@)) ==> urls_unique(candidate_views(final(state)@)),
        event matches SubstituterAvailabilityEvent::BecameUnavailable(u) ==> candidate_views(
            final(state)@,
        ) == candidate_views(old(state)@).filter(|c: CandidateView| c.meta.url != u@),
        event matches SubstituterAvailabilityEvent::BecameAvailable(c) ==> (if exists|i: int|
            0 <= i < old(state)@.len() && (#[trigger] old(state)@[i])@.meta.url == c@.meta.url {
            candidate_views(final(state)@) == candidate_views(old(state)@)
        } else {
            candidate_views(final(state)@) == candidate_views(old(state)@).push(c@)
        }),
{
    let ghost before = candidate_views(state@);
    proof {
        if urls_unique(before) {
            lemma_index_urls_stay_unique(before, event);
        }
        if event is BecameUnavailable {
            lemma_without_url_is_filter(before, event->BecameUnavailable_0@);
        }
        if event is BecameAvailable {
            let c = event->BecameAvailable_0;
            if exists|i: int| 0 <= i < state@.len() && (#[trigger] state@[i])@.meta.url == c@.meta.url {
                let i = choose|i: int| 0 <= i < state@.len() && (#[trigger] state@[i])@.meta.url == c@.meta.url;
                assert(before[i] == state@[i]@);
            }
            if has_url(before, c@.meta.url) {
                let i = choose|i: int| 0 <= i < before.len() && before[i].meta.url == c@.meta.url;
                assert(before[i] == state@[i]@);
            }
        }
    }
    match event {
        SubstituterAvailabilityEvent::BecameAvailable(candidate) => {
            let mut i: usize = 0;
            while i < state.len()
                invariant
                    i <= state.len(),
                    before == candidate_views(state@),
                    forall|k: int| 0 <= k < i ==> before[k].meta.url != candidate@.meta.url,
                    event == SubstituterAvailabilityEvent::BecameAvailable(candidate),
                    urls_unique(before) ==> urls_unique(index_after(before, event)),
                decreases state.len() - i,
            {
                assert(before[i as int] == state@[i as int]@);
                if state[i].url().same_as(candidate.url()) {
                    return;
                }
                i = i + 1;
            }
            state.push(candidate);
            assert(candidate_views(state@) =~= index_after(before, event));
        },
        SubstituterAvailabilityEvent::BecameUnavailable(url) => {
            let mut kept: Vec<SubstituterCandidate> = Vec::new();
            let mut i: usize = 0;
            while i < state.len()
                invariant
                    i <= state.len(),
                    before == candidate_views(state@),
                    candidate_views(kept@) == without_url(before.take(i as int), url@),
                decreases state.len() - i,
            {
                let ghost t = before.take(i + 1);
                assert(t.drop_last() =~= before.take(i as int));
                if !state[i].url().same_as(&url) {
                    kept.push(state[i].duplicate());
                }
                i = i + 1;
            }
            assert(before.take(state.len() as int) =~= before);
            *state = kept;
        },
    }
}

/// The substituters, without their availability flags.
pub fn metas_of(candidates: &Vec<SubstituterCandidate>) -> (r: Vec<SubstituterMeta>)
    ensures
        r@.len() == candidates@.len(),
        forall|i: int| 0 <= i < r@.len() ==> #[trigger] r@[i]@ == candidates@[i]@.meta,
{
    let mut out: Vec<SubstituterMeta> = Vec::new();
    let mut i: usize = 0;
    while i < candidates.len()
        invariant
            i <= candidates.len(),
            out@.len() == i,
            forall|k: int| 0 <= k < i ==> #[trigger] out@[k]@ == candidates@[k]@.meta,
        decreases candidates.len() - i,
    {
        out.push(candidates[i].meta().duplicate());
        i = i + 1;
    }
    out
}

/// Lists the substituters that requests may go to.
pub struct SubstituterUseCase<I: SubstituterAvailabilityIndex> {
    substituter_availability_index: Arc<I>,
}

impl<I: SubstituterAvailabilityIndex> SubstituterUseCase<I> {
    /// The index the use case reads.
    pub closed spec fn availability_index(&self) -> Arc<I> {
        self.substituter_availability_index
    }

    /// A use case that reads the given index.
    pub fn new(substituter_availability_index: Arc<I>) -> (r: Self)
        ensures
            r.availability_index() == substituter_availability_index,
    {
        SubstituterUseCase { substituter_availability_index }
    }

    /// The substituters that the index lists now, in its order: one meta per
    /// candidate of a list that the index's `query_all` handed back for this
    /// call. The index changes as substituters fail and recover, so which
    /// list that is rests on the index.
    pub fn get_available(&self) -> (r: Vec<SubstituterMeta>)
        ensures
            exists|listed: Arc<Vec<SubstituterCandidate>>|
                {
                    &&& call_ensures(I::query_all, (&*self.availability_index(),), listed)
                    &&& r@.len() == listed@.len()
                    &&& forall|i: int| 0 <= i < r@.len() ==> #[trigger] r@[i]@ == listed@[i]@.meta
                },
    {
        let query = I::query_all;
        let result = query(&*self.substituter_availability_index);
        metas_of(&*result)
    }
}

} // verus!
