use selector4nix::availability_index::SubstituterCandidate;
use selector4nix::nar::{Nar, NarActorEffect, NarInfoQueryOutcome, NarState};
use selector4nix::nar_info_data::NarInfoData;
use selector4nix::resolution::{resolve_answers, select_answer, tolerance_deadline, SubstituterAnswer};
use selector4nix::store_path_hash::StorePathHash;
use selector4nix::substituter::{Priority, SubstituterMeta};
use selector4nix::url::Url;

fn meta(url: &str, priority: u32) -> SubstituterMeta {
    SubstituterMeta::new(Url::new(url).unwrap(), Priority::new(priority).unwrap())
}

fn data(file: &str) -> NarInfoData {
    let mut content = String::new();
    content.push_str("StorePath: /nix/store/p4pclmv1gyja5kzc26npqpia1qqxrf0l-ruby-2.7.3\n");
    content.push_str("URL: nar/");
    content.push_str(file);
    content.push_str("\nCompression: xz\n");
    NarInfoData::new(content).unwrap()
}

fn found(url: &str, priority: u32, file: &str, latency: u64) -> SubstituterAnswer {
    SubstituterAnswer {
        candidate: SubstituterCandidate::new(meta(url, priority), false),
        outcome: Some(NarInfoQueryOutcome::Found { original_data: data(file), latency }),
    }
}

fn not_found(url: &str, priority: u32) -> SubstituterAnswer {
    SubstituterAnswer {
        candidate: SubstituterCandidate::new(meta(url, priority), false),
        outcome: Some(NarInfoQueryOutcome::NotFound),
    }
}

fn failed(url: &str, priority: u32) -> SubstituterAnswer {
    SubstituterAnswer {
        candidate: SubstituterCandidate::new(meta(url, priority), false),
        outcome: None,
    }
}

fn nar() -> Nar {
    Nar::new(StorePathHash::new("p4pclmv1gyja5kzc26npqpia1qqxrf0l".into()).unwrap())
}

#[test]
fn select_answer_prefers_lower_priority_value() {
    let answers = vec![
        found("https://a.example", 45, "a.nar.xz", 10),
        found("https://b.example", 40, "b.nar.xz", 500),
    ];
    assert_eq!(select_answer(&answers, u64::MAX), Some(1));
}

#[test]
fn select_answer_breaks_priority_ties_by_latency() {
    let answers = vec![
        found("https://a.example", 40, "a.nar.xz", 300),
        not_found("https://c.example", 10),
        found("https://b.example", 40, "b.nar.xz", 20),
    ];
    assert_eq!(select_answer(&answers, u64::MAX), Some(2));
}

#[test]
fn select_answer_keeps_first_of_equals() {
    let answers = vec![
        found("https://a.example", 40, "a.nar.xz", 20),
        found("https://b.example", 40, "b.nar.xz", 20),
    ];
    assert_eq!(select_answer(&answers, u64::MAX), Some(0));
}

#[test]
fn select_answer_none_without_found() {
    let answers = vec![not_found("https://a.example", 40), failed("https://b.example", 40)];
    assert_eq!(select_answer(&answers, u64::MAX), None);
    assert_eq!(select_answer(&Vec::new(), 50), None);
}

#[test]
fn resolve_answers_resolves_to_best_and_reports_each() {
    let answers = vec![
        failed("https://x.example", 10),
        found("https://a.example", 45, "a.nar.xz", 10),
        found("https://b.example", 40, "b.nar.xz", 500),
    ];
    let (next, effects) = resolve_answers(nar(), answers, false, u64::MAX);
    match next.state() {
        NarState::Resolved { best, nar_info } => {
            assert_eq!(*best, meta("https://b.example", 40));
            assert_eq!(nar_info.nar_file().value(), "b.nar.xz");
        }
        _ => panic!("expected Resolved state"),
    }
    assert_eq!(
        effects,
        vec![
            NarActorEffect::ReportSubstituterFailure(Url::new("https://x.example").unwrap()),
            NarActorEffect::ReportSubstituterSuccess(Url::new("https://a.example").unwrap()),
            NarActorEffect::ReportSubstituterSuccess(Url::new("https://b.example").unwrap()),
        ]
    );
}

#[test]
fn resolve_answers_not_found_when_all_answered() {
    let answers = vec![not_found("https://a.example", 40), not_found("https://b.example", 41)];
    let (next, effects) = resolve_answers(nar(), answers, false, u64::MAX);
    assert!(matches!(next.state(), NarState::NotFound));
    assert_eq!(effects.len(), 2);
}

#[test]
fn resolve_answers_stays_unknown_after_a_failure() {
    let answers = vec![not_found("https://a.example", 40), failed("https://b.example", 41)];
    let (next, effects) = resolve_answers(nar(), answers, false, u64::MAX);
    assert!(matches!(next.state(), NarState::Unknown));
    assert_eq!(
        effects[1],
        NarActorEffect::ReportSubstituterFailure(Url::new("https://b.example").unwrap())
    );
}

#[test]
fn resolve_answers_failures_count_as_not_found_when_ignored() {
    let answers = vec![not_found("https://a.example", 40), failed("https://b.example", 41)];
    let (next, _) = resolve_answers(nar(), answers, true, u64::MAX);
    assert!(matches!(next.state(), NarState::NotFound));
}

#[test]
fn select_answer_ignores_answers_slower_than_the_tolerance() {
    let answers = vec![
        found("https://a.example", 45, "a.nar.xz", 10),
        found("https://b.example", 40, "b.nar.xz", 500),
        found("https://c.example", 44, "c.nar.xz", 60),
    ];
    // Within 50 ms of the fastest answer: a (10 ms) and c (60 ms); c has
    // the lower priority value.
    assert_eq!(select_answer(&answers, 50), Some(2));
    // Within 49 ms only a is left.
    assert_eq!(select_answer(&answers, 49), Some(0));
    // With room for everyone the lowest priority value wins.
    assert_eq!(select_answer(&answers, 490), Some(1));
}

#[test]
fn resolve_answers_applies_the_tolerance() {
    let answers = vec![
        found("https://a.example", 45, "a.nar.xz", 10),
        found("https://b.example", 40, "b.nar.xz", 500),
    ];
    let (next, effects) = resolve_answers(nar(), answers, false, 50);
    match next.state() {
        NarState::Resolved { best, .. } => assert_eq!(*best, meta("https://a.example", 45)),
        _ => panic!("expected Resolved state"),
    }
    assert_eq!(effects.len(), 2);
}

#[test]
fn tolerance_window_opens_at_the_first_found_answer() {
    assert_eq!(tolerance_deadline(None, 100, false, 50), None);
    assert_eq!(tolerance_deadline(None, 100, true, 50), Some(150));
    assert_eq!(tolerance_deadline(Some(150), 120, true, 50), Some(150));
    assert_eq!(tolerance_deadline(None, u64::MAX - 10, true, 50), Some(u64::MAX));
}
