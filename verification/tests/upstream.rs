use selector4nix::http_api::NarStreamResult;
use selector4nix::nar::NarInfoQueryOutcome;
use selector4nix::store_path_hash::StorePathHash;
use selector4nix::upstream::{
    classify_nar_answer, classify_nar_info_answer, found_nar_info, nar_info_url, serves_range,
    unserved_nar_result, NarAnswer, NarInfoAnswer,
};
use selector4nix::url::Url;

#[test]
fn nar_info_statuses() {
    assert_eq!(classify_nar_info_answer(200), NarInfoAnswer::Found);
    assert_eq!(classify_nar_info_answer(404), NarInfoAnswer::NotFound);
    assert_eq!(classify_nar_info_answer(403), NarInfoAnswer::Failed);
    assert_eq!(classify_nar_info_answer(500), NarInfoAnswer::Failed);
}

#[test]
fn nar_statuses() {
    assert_eq!(classify_nar_answer(200), NarAnswer::Serve);
    assert_eq!(classify_nar_answer(404), NarAnswer::Missing);
    assert_eq!(classify_nar_answer(403), NarAnswer::Missing);
    assert_eq!(classify_nar_answer(502), NarAnswer::Unusable);
    assert_eq!(classify_nar_answer(206), NarAnswer::Unusable);
}

#[test]
fn unserved_nar_is_missing_only_when_all_said_so() {
    assert_eq!(unserved_nar_result(0, 0), NarStreamResult::NotFound);
    assert_eq!(unserved_nar_result(3, 3), NarStreamResult::NotFound);
    assert_eq!(unserved_nar_result(2, 3), NarStreamResult::Failed);
}

#[test]
fn only_partial_content_serves_a_range() {
    assert!(serves_range(206));
    assert!(!serves_range(200));
}

#[test]
fn found_nar_info_keeps_latency_and_rewrites() {
    let body = "StorePath: /nix/store/p4pclmv1gyja5kzc26npqpia1qqxrf0l-hello\nURL: https://other.com/custom/abc.nar.xz\nCompression: xz\n".to_string();
    match found_nar_info(body, 42) {
        Some(NarInfoQueryOutcome::Found { original_data, latency }) => {
            assert_eq!(latency, 42);
            assert_eq!(original_data.nar_file().value(), "abc.nar.xz");
            assert!(original_data.content().contains("URL: nar/abc.nar.xz\n"));
        }
        _ => panic!("expected a found narinfo"),
    }
    assert!(found_nar_info("StorePath: /nix/store/abc-hello\n".to_string(), 1).is_none());
}

#[test]
fn nar_info_url_sits_under_the_substituter() {
    let hash = StorePathHash::new("p4pclmv1gyja5kzc26npqpia1qqxrf0l".to_string()).unwrap();
    let plain = nar_info_url(&Url::new("https://cache.nixos.org").unwrap(), &hash);
    assert_eq!(plain.value(), "https://cache.nixos.org/p4pclmv1gyja5kzc26npqpia1qqxrf0l.narinfo");
    let mirror = nar_info_url(
        &Url::new("https://mirrors.ustc.edu.cn/nix-channels/store").unwrap(),
        &hash,
    );
    assert_eq!(
        mirror.value(),
        "https://mirrors.ustc.edu.cn/nix-channels/store/p4pclmv1gyja5kzc26npqpia1qqxrf0l.narinfo"
    );
}
