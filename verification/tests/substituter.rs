use selector4nix::availability::Availability;
use selector4nix::substituter::{
    Priority, Substituter, SubstituterActorEffect, SubstituterActorState, SubstituterInternal,
    SubstituterMeta, SubstituterRequest,
};
use selector4nix::url::Url;

// Instants are milliseconds on a monotonic clock.
const NOW: u64 = 1_000_000;

fn make_substituter() -> Substituter {
    let url = Url::new("https://cache.nixos.org").unwrap();
    let priority = Priority::new(40).unwrap();
    Substituter::new(SubstituterMeta::new(url, priority), Availability::Normal)
}

fn make_state(availability: Availability) -> SubstituterActorState {
    let url = Url::new("https://cache.nixos.org").unwrap();
    let priority = Priority::new(40).unwrap();
    let meta = SubstituterMeta::new(url, priority);
    SubstituterActorState::new(Substituter::new(meta, availability))
}

#[test]
fn change_to_unavailable_succeeds_from_normal() {
    let now = NOW;
    let result = Availability::Normal.change_to_unavailable(now);
    assert_eq!(
        result,
        Availability::Unavailable {
            detected_at: now,
            prev_failures: 0,
        }
    );
}

#[test]
fn change_to_unavailable_increments_prev_failures() {
    let now = NOW;
    let state = Availability::Unavailable {
        detected_at: now,
        prev_failures: 1,
    };
    let result = state.change_to_unavailable(now);
    assert_eq!(
        result,
        Availability::Unavailable {
            detected_at: now,
            prev_failures: 2,
        }
    );
}

#[test]
fn update_and_check_availability_returns_true_given_normal() {
    let (available, new_state) = Availability::Normal.update_and_check_availability(NOW);
    assert!(available);
    assert_eq!(new_state, Availability::Normal);
}

#[test]
fn update_and_check_availability_returns_false_when_unavailable_before_timeout() {
    let now = NOW;
    let state = Availability::Unavailable {
        detected_at: now,
        prev_failures: 0,
    };
    let (available, _) = state.update_and_check_availability(now);
    assert!(!available);
}

#[test]
fn update_and_check_availability_returns_true_when_unavailable_after_timeout() {
    let now = NOW;
    let state = Availability::Unavailable {
        detected_at: now,
        prev_failures: 0,
    };
    let retry_at = now + 500;
    let (available, new_state) = state.update_and_check_availability(retry_at);
    assert!(available);
    assert_eq!(new_state, Availability::MaybeReady { prev_failures: 0 });
}

#[test]
fn retry_duration_doubles_and_is_capped() {
    let durations: Vec<u64> = [0usize, 1, 2, 10, 11, 100]
        .iter()
        .map(|&p| {
            Availability::Unavailable {
                detected_at: 0,
                prev_failures: p,
            }
            .retry_duration()
            .unwrap()
        })
        .collect();
    assert_eq!(durations, vec![500, 1000, 2000, 512_000, 512_000, 512_000]);
    assert_eq!(Availability::Normal.retry_duration(), None);
    assert_eq!(
        Availability::MaybeReady { prev_failures: 3 }.retry_duration(),
        None
    );
}

#[test]
fn change_to_maybe_ready_keeps_other_states() {
    assert_eq!(
        Availability::Normal.change_to_maybe_ready(),
        Availability::Normal
    );
    assert_eq!(
        Availability::MaybeReady { prev_failures: 4 }.change_to_maybe_ready(),
        Availability::MaybeReady { prev_failures: 4 }
    );
    assert_eq!(
        Availability::Unavailable {
            detected_at: 7,
            prev_failures: 4
        }
        .change_to_maybe_ready(),
        Availability::MaybeReady { prev_failures: 4 }
    );
}

#[test]
fn on_detected_unavailable_transitions_to_unavailable() {
    let sub = make_substituter();
    assert!(!sub.is_unavailable());

    let (_, sub) = sub.on_detected_unavailable(NOW);
    assert!(sub.is_unavailable());
}

#[test]
fn on_detected_unavailable_returns_retry_instant() {
    let sub = make_substituter();
    let now = NOW;
    let (retry, _) = sub.on_detected_unavailable(now);
    assert_eq!(retry, now + 500);
}

#[test]
fn on_next_retry_ready_transitions_from_unavailable() {
    let sub = make_substituter();
    let (_, sub) = sub.on_detected_unavailable(NOW);
    assert!(sub.is_unavailable());

    let sub = sub.on_next_retry_ready();
    assert!(!sub.is_unavailable());
}

#[test]
fn on_detected_normal_resets_availability() {
    let sub = make_substituter();
    let (_, sub) = sub.on_detected_unavailable(NOW);
    assert!(sub.is_unavailable());

    let sub = sub.on_detected_normal();
    assert!(!sub.is_unavailable());
}

#[test]
fn substituter_meta_defaults_storage_url_to_nar_directory() {
    let meta = SubstituterMeta::new(
        Url::new("https://cache.nixos.org").unwrap(),
        Priority::new(40).unwrap(),
    );
    assert_eq!(meta.storage_url().value(), "https://cache.nixos.org/nar");
    let meta = SubstituterMeta::new(
        Url::new("https://mirrors.example.org/nix-channels/store/").unwrap(),
        Priority::new(45).unwrap(),
    );
    assert_eq!(
        meta.storage_url().value(),
        "https://mirrors.example.org/nix-channels/store/nar"
    );
    let meta = meta.with_storage_url(Url::new("https://garnix-cache.com/").unwrap());
    assert_eq!(meta.storage_url().value(), "https://garnix-cache.com/");
    assert_eq!(meta.priority().value(), 45);
}

#[test]
fn zero_priority_is_rejected() {
    assert!(Priority::new(0).is_err());
    assert_eq!(Priority::new(1).unwrap().value(), 1);
}

#[test]
fn on_service_successful_succeeds() {
    let state = make_state(Availability::MaybeReady { prev_failures: 0 });
    let result = SubstituterActorState::on_service_successful(state);
    assert!(!result.inner().is_unavailable());
}

#[test]
fn on_service_failed_succeeds() {
    let state = make_state(Availability::Normal);
    let now = NOW;

    let (effects, new_state) = SubstituterActorState::on_service_failed(state, now);

    assert!(new_state.inner().is_unavailable());
    assert_eq!(effects.len(), 2);
    assert!(matches!(
        effects[0],
        SubstituterActorEffect::NotifyUnavailable
    ));
    assert!(matches!(
        effects[1],
        SubstituterActorEffect::ScheduleRetryReady(t) if t == now + 500
    ));
}

#[test]
fn on_service_failed_increments_backoff_given_repeated() {
    let state = make_state(Availability::MaybeReady { prev_failures: 2 });
    let now = NOW;

    let (effects, new_state) = SubstituterActorState::on_service_failed(state, now);

    assert!(new_state.inner().is_unavailable());
    assert_eq!(effects.len(), 2);
    assert!(matches!(
        new_state.inner().availability(),
        Availability::Unavailable {
            prev_failures: 3,
            ..
        }
    ));
}

#[test]
fn on_next_retry_ready_succeeds() {
    let state = make_state(Availability::Unavailable {
        detected_at: NOW,
        prev_failures: 0,
    });

    let (effects, new_state) = SubstituterActorState::on_next_retry_ready(state);

    assert!(!new_state.inner().is_unavailable());
    assert_eq!(effects.len(), 1);
    assert!(matches!(
        effects[0],
        SubstituterActorEffect::NotifyAvailable
    ));
}

#[test]
fn failure_while_unavailable_changes_nothing() {
    let state = make_state(Availability::Unavailable {
        detected_at: NOW,
        prev_failures: 1,
    });
    let (effects, new_state) =
        SubstituterActorState::on_request(state, SubstituterRequest::ServiceFailed, NOW + 10);
    assert!(effects.is_empty());
    assert_eq!(
        *new_state.inner().availability(),
        Availability::Unavailable {
            detected_at: NOW,
            prev_failures: 1
        }
    );
}

#[test]
fn backoff_doubles_after_retry_and_resets_after_success() {
    let state = make_state(Availability::Normal);
    let (_, state) = SubstituterActorState::on_service_failed(state, NOW);
    let (_, state) = SubstituterActorState::on_internal(state, SubstituterInternal::NextRetryReady);
    let (effects, state) = SubstituterActorState::on_service_failed(state, NOW + 600);
    assert_eq!(
        effects,
        vec![
            SubstituterActorEffect::NotifyUnavailable,
            SubstituterActorEffect::ScheduleRetryReady(NOW + 600 + 1000)
        ]
    );
    let (effects, state) =
        SubstituterActorState::on_request(state, SubstituterRequest::ServiceSuccessful, NOW + 2000);
    assert!(effects.is_empty());
    assert_eq!(*state.inner().availability(), Availability::Normal);
    let (effects, _) = SubstituterActorState::on_service_failed(state, NOW + 3000);
    assert_eq!(
        effects[1],
        SubstituterActorEffect::ScheduleRetryReady(NOW + 3000 + 500)
    );
}

#[test]
fn failure_can_be_recorded_unless_counts_overflow() {
    assert!(make_state(Availability::Normal).can_record_failure_at(NOW));
    assert!(make_state(Availability::Normal).can_record_failure_at(u64::MAX - 500));
    assert!(!make_state(Availability::Normal).can_record_failure_at(u64::MAX - 499));
    assert!(make_state(Availability::Unavailable { detected_at: NOW, prev_failures: usize::MAX })
        .can_record_failure_at(u64::MAX));
    assert!(!make_state(Availability::MaybeReady { prev_failures: usize::MAX })
        .can_record_failure_at(NOW));
    // One more failure after 3 waits 500 * 2^4 = 8000 ms.
    assert!(make_state(Availability::MaybeReady { prev_failures: 3 })
        .can_record_failure_at(u64::MAX - 8000));
    assert!(!make_state(Availability::MaybeReady { prev_failures: 3 })
        .can_record_failure_at(u64::MAX - 7999));
}
