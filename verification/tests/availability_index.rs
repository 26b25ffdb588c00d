use selector4nix::availability::Availability;
use selector4nix::availability_index::{
    apply_availability_event, metas_of, SubstituterAvailabilityEvent, SubstituterCandidate,
};
use selector4nix::substituter::{Priority, Substituter, SubstituterMeta};
use selector4nix::url::Url;

fn make_substituter(url: &str, priority: u32) -> Substituter {
    Substituter::new(
        SubstituterMeta::new(Url::new(url).unwrap(), Priority::new(priority).unwrap()),
        Availability::Normal,
    )
}

fn make_meta(url: &str, priority: u32) -> SubstituterMeta {
    SubstituterMeta::new(Url::new(url).unwrap(), Priority::new(priority).unwrap())
}

fn candidate_of(sub: &Substituter) -> SubstituterCandidate {
    SubstituterCandidate::from_substituter(sub)
}

fn candidate_of_meta(meta: &SubstituterMeta) -> SubstituterCandidate {
    SubstituterCandidate::new(meta.clone(), false)
}

#[test]
fn substituter_availability_apply_event_adds_entry_given_became_available() {
    let sub = make_substituter("https://cache.nixos.org", 40);
    let mut state = vec![];
    apply_availability_event(
        &mut state,
        SubstituterAvailabilityEvent::BecameAvailable(candidate_of(&sub)),
    );
    assert_eq!(state, vec![candidate_of(&sub)]);
}

#[test]
fn substituter_availability_apply_event_is_idempotent_given_duplicate_became_available() {
    let sub = make_substituter("https://cache.nixos.org", 40);
    let mut state = vec![];
    apply_availability_event(
        &mut state,
        SubstituterAvailabilityEvent::BecameAvailable(candidate_of(&sub)),
    );
    apply_availability_event(
        &mut state,
        SubstituterAvailabilityEvent::BecameAvailable(candidate_of(&sub)),
    );
    assert_eq!(state, vec![candidate_of(&sub)]);
}

#[test]
fn substituter_availability_apply_event_removes_entry_given_became_unavailable() {
    let sub_a = make_substituter("https://cache-a.example.com", 40);
    let sub_b = make_substituter("https://cache-b.example.com", 50);
    let mut state = vec![candidate_of(&sub_a), candidate_of(&sub_b)];
    apply_availability_event(
        &mut state,
        SubstituterAvailabilityEvent::BecameUnavailable(sub_a.url().clone()),
    );
    assert_eq!(state, vec![candidate_of(&sub_b)]);
}

#[test]
fn substituter_availability_apply_event_is_noop_given_unknown_became_unavailable() {
    let sub = make_substituter("https://cache.nixos.org", 40);
    let mut state = vec![candidate_of(&sub)];
    let other_url = Url::new("https://other.example.com").unwrap();
    apply_availability_event(
        &mut state,
        SubstituterAvailabilityEvent::BecameUnavailable(other_url),
    );
    assert_eq!(state, vec![candidate_of(&sub)]);
}

#[test]
fn actor_apply_event_adds_entry_given_became_available() {
    let meta = make_meta("https://cache.nixos.org", 40);
    let mut state = vec![];
    apply_availability_event(
        &mut state,
        SubstituterAvailabilityEvent::BecameAvailable(candidate_of_meta(&meta)),
    );
    assert_eq!(metas_of(&state), vec![meta]);
}

#[test]
fn actor_apply_event_is_idempotent_given_duplicate_became_available() {
    let meta = make_meta("https://cache.nixos.org", 40);
    let mut state = vec![];
    apply_availability_event(
        &mut state,
        SubstituterAvailabilityEvent::BecameAvailable(candidate_of_meta(&meta)),
    );
    apply_availability_event(
        &mut state,
        SubstituterAvailabilityEvent::BecameAvailable(candidate_of_meta(&meta)),
    );
    assert_eq!(metas_of(&state), vec![meta]);
}

#[test]
fn actor_apply_event_removes_entry_given_became_unavailable() {
    let meta_a = make_meta("https://cache-a.example.com", 40);
    let meta_b = make_meta("https://cache-b.example.com", 50);
    let mut state = vec![candidate_of_meta(&meta_a), candidate_of_meta(&meta_b)];
    apply_availability_event(
        &mut state,
        SubstituterAvailabilityEvent::BecameUnavailable(meta_a.url().clone()),
    );
    assert_eq!(metas_of(&state), vec![meta_b]);
}

#[test]
fn actor_apply_event_is_noop_given_unknown_became_unavailable() {
    let meta = make_meta("https://cache.nixos.org", 40);
    let mut state = vec![candidate_of_meta(&meta)];
    let other_url = Url::new("https://other.example.com").unwrap();
    apply_availability_event(
        &mut state,
        SubstituterAvailabilityEvent::BecameUnavailable(other_url),
    );
    assert_eq!(metas_of(&state), vec![meta]);
}

#[test]
fn candidate_reports_maybe_ready_substituters() {
    let sub = Substituter::new(
        make_meta("https://cache.nixos.org", 40),
        Availability::MaybeReady { prev_failures: 1 },
    );
    let candidate = candidate_of(&sub);
    assert!(candidate.is_maybe_ready());
    assert_eq!(candidate.url().value(), "https://cache.nixos.org");
    assert_eq!(candidate.priority().value(), 40);
    assert!(!candidate_of(&make_substituter("https://a.example", 1)).is_maybe_ready());
}

struct FixedIndex(std::sync::Arc<Vec<SubstituterCandidate>>);

impl selector4nix::availability_index::SubstituterAvailabilityIndex for FixedIndex {
    fn query_all(&self) -> std::sync::Arc<Vec<SubstituterCandidate>> {
        self.0.clone()
    }
}

#[test]
fn use_case_lists_available_substituters() {
    let a = make_meta("https://cache-a.example.com", 40);
    let b = make_meta("https://cache-b.example.com", 50);
    let index = FixedIndex(std::sync::Arc::new(vec![
        candidate_of_meta(&a),
        SubstituterCandidate::new(b.clone(), true),
    ]));
    let usecase = selector4nix::availability_index::SubstituterUseCase::new(std::sync::Arc::new(index));
    assert_eq!(usecase.get_available(), vec![a, b]);
}
