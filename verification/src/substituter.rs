//! Substituters: where they are, how much they are preferred, whether they
//! are available, and how a substituter's state reacts to service outcomes.
use vstd::prelude::*;

use crate::availability::{
    can_fail, failures_of, lemma_retry_millis_steps, maybe_ready_after, retry_at, retry_fits,
    retry_millis, unavailable_after, Availability,
};
use crate::url::{dir_form, lemma_dir_form_valid, Url};

verus! {

/// Why a number is not a priority.
#[derive(Debug, Clone, Copy, PartialEq, Eq, Hash)]
pub enum TryNewPriorityError {
    /// Priorities start at 1.
    Zero,
}

/// How much a substituter is preferred: lower values are preferred.
#[derive(Debug, Clone, Copy, PartialEq, Eq, Hash)]
pub struct Priority {
    value: u32,
}

impl View for Priority {
    type V = u32;

    closed spec fn view(&self) -> u32 {
        self.value
    }
}

impl Priority {
    #[verifier::type_invariant]
    spec fn wf(self) -> bool {
        self.value >= 1
    }

    /// A priority; zero is rejected.
    pub fn new(value: u32) -> (r: Result<Priority, TryNewPriorityError>)
        ensures
            r matches Ok(p) ==> p@ == value,
            r is Err <==> value == 0,
    {
        if value == 0 {
            Err(TryNewPriorityError::Zero)
        } else {
            Ok(Priority { value })
        }
    }

    /// The number.
    pub fn value(&self) -> (r: u32)
        ensures
            r == self@,
            r >= 1,
    {
        proof {
            use_type_invariant(self);
        }
        self.value
    }
}

/// The characters of `"nar"`.
pub open spec fn nar_dir_name() -> Seq<char> {
    seq!['n', 'a', 'r']
}

/// Where NAR files of a substituter live by default: `nar` under the
/// substituter's URL taken as a directory.
pub open spec fn default_storage_url(url: Seq<char>) -> Seq<char> {
    dir_form(url) + nar_dir_name()
}

/// A substituter's address, storage location and priority.
#[derive(Debug, PartialEq, Eq, Hash)]
pub struct SubstituterMeta {
    url: Url,
    storage_url: Url,
    priority: Priority,
}

/// What a [`SubstituterMeta`] holds, as plain values.
pub struct SubstituterMetaView {
    pub url: Seq<char>,
    pub storage_url: Seq<char>,
    pub priority: u32,
}

impl View for SubstituterMeta {
    type V = SubstituterMetaView;

    closed spec fn view(&self) -> SubstituterMetaView {
        SubstituterMetaView {
            url: self.url@,
            storage_url: self.storage_url@,
            priority: self.priority@,
        }
    }
}

impl SubstituterMeta {
    /// A substituter at `url` whose NAR files live under `<url>/nar`.
    pub fn new(url: Url, priority: Priority) -> (r: SubstituterMeta)
        ensures
            r@ == (SubstituterMetaView {
                url: url@,
                storage_url: default_storage_url(url@),
                priority: priority@,
            }),
    {
        let dir = url.as_dir();
        let rel = "nar";
        proof {
            reveal_strlit("nar");
            lemma_dir_form_valid(url@);
            assert(rel@ == nar_dir_name());
        }
        let storage_url = dir.join(rel).unwrap();
        SubstituterMeta { url, storage_url, priority }
    }

    /// The substituter's URL.
    pub fn url(&self) -> (r: &Url)
        ensures
            r@ == self@.url,
    {
        &self.url
    }

    /// Where the substituter's NAR files live.
    pub fn storage_url(&self) -> (r: &Url)
        ensures
            r@ == self@.storage_url,
    {
        &self.storage_url
    }

    /// The substituter's priority.
    pub fn priority(&self) -> (r: Priority)
        ensures
            r@ == self@.priority,
    {
        self.priority
    }

    /// The same substituter with its NAR files under `storage_url`.
    pub fn with_storage_url(self, storage_url: Url) -> (r: SubstituterMeta)
        ensures
            r@ == (SubstituterMetaView { storage_url: storage_url@, ..self@ }),
    {
        SubstituterMeta { url: self.url, storage_url, priority: self.priority }
    }

    /// A copy.
    pub fn duplicate(&self) -> (r: SubstituterMeta)
        ensures
            r@ == self@,
    {
        SubstituterMeta {
            url: self.url.duplicate(),
            storage_url: self.storage_url.duplicate(),
            priority: self.priority,
        }
    }
}

impl Clone for SubstituterMeta {
    fn clone(&self) -> (r: Self)
        ensures
            r@ == self@,
    {
        self.duplicate()
    }
}

/// A substituter together with its availability.
#[derive(Debug, PartialEq, Eq, Hash)]
pub struct Substituter {
    target: SubstituterMeta,
    availability: Availability,
}

/// What a [`Substituter`] holds, as plain values.
pub struct SubstituterView {
    pub target: SubstituterMetaView,
    pub availability: Availability,
}

impl View for Substituter {
    type V = SubstituterView;

    closed spec fn view(&self) -> SubstituterView {
        SubstituterView { target: self.target@, availability: self.availability }
    }
}

/// A failure at `now` can be recorded for a substituter: it is waiting out
/// its retry delay already, or its failure count and retry instant fit.
pub open spec fn can_record_failure(s: SubstituterView, now: u64) -> bool {
    s.availability is Unavailable || (can_fail(s.availability) && retry_fits(
        unavailable_after(s.availability, now),
    ))
}

impl Substituter {
    /// A substituter with the given availability.
    pub fn new(target: SubstituterMeta, availability: Availability) -> (r: Substituter)
        ensures
            r@ == (SubstituterView { target: target@, availability }),
    {
        Substituter { target, availability }
    }

    /// Address, storage location and priority.
    pub fn target(&self) -> (r: &SubstituterMeta)
        ensures
            r@ == self@.target,
    {
        &self.target
    }

    /// The availability.
    pub fn availability(&self) -> (r: &Availability)
        ensures
            *r == self@.availability,
    {
        &self.availability
    }

    /// The URL.
    pub fn url(&self) -> (r: &Url)
        ensures
            r@ == self@.target.url,
    {
        self.target.url()
    }

    /// The priority.
    pub fn priority(&self) -> (r: Priority)
        ensures
            r@ == self@.target.priority,
    {
        self.target.priority()
    }

    /// Earlier failures.
    pub fn prev_failures(&self) -> (r: usize)
        ensures
            r == failures_of(self@.availability),
    {
        self.availability.prev_failures()
    }

    /// Whether the substituter is waiting out its retry delay.
    pub fn is_unavailable(&self) -> (r: bool)
        ensures
            r == (self@.availability is Unavailable),
    {
        self.availability.is_unavailable()
    }

    /// Whether the retry delay has passed and the next request decides.
    pub fn is_maybe_ready(&self) -> (r: bool)
        ensures
            r == (self@.availability is MaybeReady),
    {
        self.availability.is_maybe_ready()
    }

    /// Records a failure detected at `now`; returns the instant at which the
    /// substituter may be tried again.
    pub fn on_detected_unavailable(self, now: u64) -> (r: (u64, Substituter))
        requires
            can_fail(self@.availability),
            retry_fits(unavailable_after(self@.availability, now)),
        ensures
            r.1@ == (SubstituterView {
                availability: unavailable_after(self@.availability, now),
                ..self@
            }),
            r.0 == retry_at(unavailable_after(self@.availability, now)),
    {
        let availability = self.availability.change_to_unavailable(now);
        let delay = availability.retry_duration().unwrap();
        (now + delay, Substituter { target: self.target, availability })
    }

    /// Ends the retry delay.
    pub fn on_next_retry_ready(self) -> (r: Substituter)
        ensures
            r@ == (SubstituterView {
                availability: maybe_ready_after(self@.availability),
                ..self@
            }),
    {
        Substituter { target: self.target, availability: self.availability.change_to_maybe_ready() }
    }

    /// Records a served request: the substituter is normal again.
    pub fn on_detected_normal(self) -> (r: Substituter)
        ensures
            r@ == (SubstituterView { availability: Availability::Normal, ..self@ }),
    {
        Substituter { target: self.target, availability: Availability::Normal }
    }

    /// A copy.
    pub fn duplicate(&self) -> (r: Substituter)
        ensures
            r@ == self@,
    {
        Substituter { target: self.target.duplicate(), availability: self.availability }
    }
}

impl Clone for Substituter {
    fn clone(&self) -> (r: Self)
        ensures
            r@ == self@,
    {
        self.duplicate()
    }
}

/// What a substituter actor does after a state change.
#[derive(Debug, Clone, Copy, PartialEq, Eq, Structural, Hash)]
pub enum SubstituterActorEffect {
    /// Wake the actor at this instant to end the retry delay.
    ScheduleRetryReady(u64),
    /// Tell the availability index that the substituter is unavailable.
    NotifyUnavailable,
    /// Tell the availability index that the substituter may be used again.
    NotifyAvailable,
}

/// Outcomes reported to a substituter actor.
#[derive(Debug, Clone, Copy, PartialEq, Eq, Structural, Hash)]
pub enum SubstituterRequest {
    /// The substituter served a request.
    ServiceSuccessful,
    /// The substituter failed a request.
    ServiceFailed,
}

/// Events a substituter actor sends itself.
#[derive(Debug, Clone, Copy, PartialEq, Eq, Structural, Hash)]
pub enum SubstituterInternal {
    /// The retry delay has passed.
    NextRetryReady,
}

/// The state after a served request: normal.
pub open spec fn after_success(s: SubstituterView) -> SubstituterView {
    SubstituterView { availability: Availability::Normal, ..s }
}

/// The effects and state after a failed request at `now`. A substituter
/// that is already waiting out its delay is left alone; otherwise it
/// becomes unavailable, the index is told, and a wake-up is scheduled at
/// its retry instant.
pub open spec fn after_failure(s: SubstituterView, now: u64) -> (
    Seq<SubstituterActorEffect>,
    SubstituterView,
) {
    if s.availability is Unavailable {
        (Seq::empty(), s)
    } else {
        let a = unavailable_after(s.availability, now);
        (
            seq![
                SubstituterActorEffect::NotifyUnavailable,
                SubstituterActorEffect::ScheduleRetryReady(retry_at(a) as u64),
            ],
            SubstituterView { availability: a, ..s },
        )
    }
}

/// The effects and state once the retry delay has passed: the index is told
/// that the substituter may be used again.
pub open spec fn after_retry_ready(s: SubstituterView) -> (
    Seq<SubstituterActorEffect>,
    SubstituterView,
) {
    (
        seq![SubstituterActorEffect::NotifyAvailable],
        SubstituterView { availability: maybe_ready_after(s.availability), ..s },
    )
}

/// The state of a substituter actor: the substituter it speaks for.
#[derive(Debug, PartialEq, Eq, Hash)]
pub struct SubstituterActorState(Substituter);

impl View for SubstituterActorState {
    type V = SubstituterView;

    closed spec fn view(&self) -> SubstituterView {
        self.0@
    }
}

impl SubstituterActorState {
    /// The state of an actor for `substituter`.
    pub fn new(substituter: Substituter) -> (r: SubstituterActorState)
        ensures
            r@ == substituter@,
    {
        SubstituterActorState(substituter)
    }

    /// The substituter.
    pub fn inner(&self) -> (r: &Substituter)
        ensures
            r@ == self@,
    {
        &self.0
    }

    /// Whether a failure at `now` can be recorded (see [`can_record_failure`]).
    pub fn can_record_failure_at(&self, now: u64) -> (r: bool)
        ensures
            r == can_record_failure(self@, now),
    {
        self.0.availability().can_record_failure_at(now)
    }

    /// A served request makes the substituter normal.
    pub fn on_service_successful(state: SubstituterActorState) -> (r: SubstituterActorState)
        ensures
            r@ == after_success(state@),
    {
        SubstituterActorState::new(state.0.on_detected_normal())
    }

    /// A failed request at `now` (see [`after_failure`]).
    pub fn on_service_failed(state: SubstituterActorState, now: u64) -> (r: (
        Vec<SubstituterActorEffect>,
        SubstituterActorState,
    ))
        requires
            can_record_failure(state@, now),
        ensures
            (r.0@, r.1@) == after_failure(state@, now),
    {
        let substituter = state.0;
        if substituter.is_unavailable() {
            (Vec::new(), SubstituterActorState::new(substituter))
        } else {
            let (retry_instant, substituter) = substituter.on_detected_unavailable(now);
            let mut effects = Vec::new();
            effects.push(SubstituterActorEffect::NotifyUnavailable);
            effects.push(SubstituterActorEffect::ScheduleRetryReady(retry_instant));
            let r = (effects, SubstituterActorState::new(substituter));
            r
        }
    }

    /// The retry delay has passed (see [`after_retry_ready`]).
    pub fn on_next_retry_ready(state: SubstituterActorState) -> (r: (
        Vec<SubstituterActorEffect>,
        SubstituterActorState,
    ))
        ensures
            (r.0@, r.1@) == after_retry_ready(state@),
    {
        let mut effects = Vec::new();
        effects.push(SubstituterActorEffect::NotifyAvailable);
        let r = (effects, SubstituterActorState::new(state.0.on_next_retry_ready()));
        r
    }

    /// Handles an outcome reported at `now`: a success needs no effect.
    pub fn on_request(state: SubstituterActorState, request: SubstituterRequest, now: u64) -> (r: (
        Vec<SubstituterActorEffect>,
        SubstituterActorState,
    ))
        requires
            request == SubstituterRequest::ServiceFailed ==> can_record_failure(state@, now),
        ensures
            (r.0@, r.1@) == match request {
                SubstituterRequest::ServiceSuccessful => (
                    Seq::<SubstituterActorEffect>::empty(),
                    after_success(state@),
                ),
                SubstituterRequest::ServiceFailed => after_failure(state@, now),
            },
    {
        match request {
            SubstituterRequest::ServiceSuccessful => {
                let r = (Vec::new(), SubstituterActorState::on_service_successful(state));
                r
            },
            SubstituterRequest::ServiceFailed => SubstituterActorState::on_service_failed(state, now),
        }
    }

    /// Handles an event the actor sent itself.
    pub fn on_internal(state: SubstituterActorState, internal: SubstituterInternal) -> (r: (
        Vec<SubstituterActorEffect>,
        SubstituterActorState,
    ))
        ensures
            (r.0@, r.1@) == after_retry_ready(state@),
    {
        match internal {
            SubstituterInternal::NextRetryReady => SubstituterActorState::on_next_retry_ready(state),
        }
    }
}

impl From<Substituter> for SubstituterActorState {
    fn from(substituter: Substituter) -> (r: SubstituterActorState) {
        SubstituterActorState(substituter)
    }
}

impl vstd::std_specs::convert::FromSpecImpl<Substituter> for SubstituterActorState {
    open spec fn obeys_from_spec() -> bool {
        true
    }

    closed spec fn from_spec(v: Substituter) -> SubstituterActorState {
        SubstituterActorState(v)
    }
}

/// The state built from a substituter speaks for that substituter.
pub proof fn lemma_substituter_actor_state_from(substituter: Substituter)
    ensures
        <SubstituterActorState as vstd::std_specs::convert::FromSpec<Substituter>>::from_spec(
            substituter,
        )@ == substituter@,
{
}

/// Backoff doubles: a substituter that fails, waits out its delay and fails
/// again waits twice as long the second time (up to the cap, after which the
/// delay stays the same), and it never waits less.
pub proof fn lemma_backoff_grows_on_repeated_failure(s: SubstituterView, first: u64, second: u64)
    requires
        !(s.availability is Unavailable),
        can_record_failure(s, first),
        can_record_failure(after_retry_ready(after_failure(s, first).1).1, second),
    ensures
        ({
            let s1 = after_failure(s, first).1;
            let s2 = after_retry_ready(s1).1;
            let s3 = after_failure(s2, second).1;
            &&& s3.availability is Unavailable
            &&& failures_of(s3.availability) == failures_of(s1.availability) + 1
            &&& retry_millis(failures_of(s3.availability)) >= retry_millis(
                failures_of(s1.availability),
            )
            &&& failures_of(s1.availability) < 10 ==> retry_millis(failures_of(s3.availability))
                == 2 * retry_millis(failures_of(s1.availability))
        }),
{
    let s1 = after_failure(s, first).1;
    lemma_retry_millis_steps(failures_of(s1.availability));
}

/// A served request resets the backoff: the next failure waits the base
/// delay of 500 ms.
pub proof fn lemma_success_resets_backoff(s: SubstituterView, now: u64)
    requires
        now + 500 <= u64::MAX,
    ensures
        can_record_failure(after_success(s), now),
        after_failure(after_success(s), now).0 == seq![
            SubstituterActorEffect::NotifyUnavailable,
            SubstituterActorEffect::ScheduleRetryReady((now + 500) as u64),
        ],
{
    lemma_retry_millis_steps(0);
}

/// Once the delay has passed the substituter is no longer unavailable, and a
/// failure reported while it is still unavailable changes nothing.
pub proof fn lemma_retry_ready_then_failure_counts_again(s: SubstituterView, now: u64)
    requires
        s.availability is Unavailable,
    ensures
        after_failure(s, now) == (Seq::<SubstituterActorEffect>::empty(), s),
        !(after_retry_ready(s).1.availability is Unavailable),
        failures_of(after_retry_ready(s).1.availability) == failures_of(s.availability),
{
}

} // verus!
