use selector4nix::availability_index::SubstituterCandidate;
use selector4nix::http_api::{
    nar_info_error_status, nar_stream_status, nix_cache_info_body, parse_nar_info_path,
    parse_nar_path, response_content_type, NarInfoPathError, NarStreamHeaders, NarStreamResult,
};
use selector4nix::nar::{NarFileEvent, ResolveNarInfoError};
use selector4nix::nar_file_name::NarFileName;
use selector4nix::substituter::{Priority, SubstituterMeta};
use selector4nix::url::Url;
use selector4nix::usecase::{build_fallback_urls, registration_after_stream};

#[test]
fn nar_info_paths() {
    let hash = parse_nar_info_path("p4pclmv1gyja5kzc26npqpia1qqxrf0l.narinfo").unwrap();
    assert_eq!(hash.value(), "p4pclmv1gyja5kzc26npqpia1qqxrf0l");
    assert_eq!(
        parse_nar_info_path("p4pclmv1gyja5kzc26npqpia1qqxrf0l").unwrap_err(),
        NarInfoPathError::NotNarInfo
    );
    assert_eq!(
        parse_nar_info_path("bad.narinfo").unwrap_err(),
        NarInfoPathError::InvalidHash
    );
    assert_eq!(nar_info_error_status(ResolveNarInfoError::NotFound), 404);
    assert_eq!(nar_info_error_status(ResolveNarInfoError::Fetch), 502);
}

#[test]
fn nar_paths_and_statuses() {
    assert!(parse_nar_path("abc.nar.xz".to_string()).is_some());
    assert!(parse_nar_path("".to_string()).is_none());
    assert_eq!(nar_stream_status(NarStreamResult::Found), 200);
    assert_eq!(nar_stream_status(NarStreamResult::NotFound), 404);
    assert_eq!(nar_stream_status(NarStreamResult::Failed), 502);
}

#[test]
fn content_type_defaults_to_nar() {
    let none = NarStreamHeaders {
        content_length: Some(3),
        content_type: None,
        content_encoding: None,
    };
    assert_eq!(response_content_type(&none), "application/x-nix-nar");
    let some = NarStreamHeaders {
        content_type: Some("application/x-xz".to_string()),
        ..none
    };
    assert_eq!(response_content_type(&some), "application/x-xz");
}

#[test]
fn nix_cache_info_body_lists_fields() {
    assert_eq!(
        nix_cache_info_body("/nix/store", true, Priority::new(40).unwrap()),
        "StoreDir: /nix/store\nWantMassQuery: 1\nPriority: 40\n"
    );
    assert_eq!(
        nix_cache_info_body("/nix/store", false, Priority::new(7).unwrap()),
        "StoreDir: /nix/store\nWantMassQuery: 0\nPriority: 7\n"
    );
}

#[test]
fn fallback_urls_and_registration_round_trip() {
    let a = SubstituterMeta::new(
        Url::new("https://cache-a.example.com").unwrap(),
        Priority::new(40).unwrap(),
    );
    let b = SubstituterMeta::new(
        Url::new("https://cache-b.example.com/store/").unwrap(),
        Priority::new(50).unwrap(),
    );
    let candidates = vec![
        SubstituterCandidate::new(a, false),
        SubstituterCandidate::new(b, true),
    ];
    let name = NarFileName::new("abc.nar.xz".to_string()).unwrap();
    let urls = build_fallback_urls(&candidates, &name);
    let texts: Vec<&str> = urls.iter().map(|u| u.value()).collect();
    assert_eq!(
        texts,
        vec![
            "https://cache-a.example.com/nar/abc.nar.xz",
            "https://cache-b.example.com/store/nar/abc.nar.xz"
        ]
    );
    match registration_after_stream(&name, &urls[1]) {
        NarFileEvent::Registered {
            nar_file,
            storage_prefix,
        } => {
            assert_eq!(nar_file, name);
            assert_eq!(
                storage_prefix.value(),
                "https://cache-b.example.com/store/nar/"
            );
            assert_eq!(name.with_storage_prefix(&storage_prefix), urls[1]);
        }
        other => panic!("unexpected event {:?}", other),
    }
}
