use selector4nix::config::{
    configured_priority, substituter_meta_from_config, CacheConfiguration,
    CacheInfoConfiguration, ConfigurationError, NetworkConfiguration,
};
use selector4nix::substituter::Priority;

#[test]
fn network_defaults_and_clamps() {
    let d = NetworkConfiguration::default_settings();
    assert_eq!(d.nar_info_timeout_secs, 30);
    assert_eq!(d.nar_timeout_secs, 30);
    assert_eq!(d.max_concurrent_requests, 12);
    assert_eq!(d.tolerance_msecs, 50);
    assert!(!d.ignore_nar_info_error);
    let zero = NetworkConfiguration {
        nar_info_timeout_secs: 0,
        nar_timeout_secs: 0,
        tolerance_msecs: 0,
        ..d
    }
    .normalized();
    assert_eq!(zero.nar_info_timeout_secs, 1);
    assert_eq!(zero.nar_timeout_secs, 1);
    assert_eq!(zero.tolerance_msecs, 1);
    assert_eq!(d.normalized(), d);
}

#[test]
fn cache_defaults() {
    let c = CacheConfiguration::default_settings();
    assert_eq!(c.nar_info_lookup_capacity, 4096);
    assert_eq!(c.nar_info_lookup_ttl_secs, 14400);
    assert_eq!(c.nar_location_capacity, 4096);
    assert_eq!(c.nar_location_ttl_secs, 14400);
}

#[test]
fn store_dir_must_be_absolute() {
    let ok = CacheInfoConfiguration::new("/nix/store".to_string(), true, Priority::new(40).unwrap())
        .unwrap();
    assert_eq!(ok.store_dir(), "/nix/store");
    assert!(ok.want_mass_query());
    assert_eq!(ok.priority().value(), 40);
    assert_eq!(
        CacheInfoConfiguration::new("relative/path".to_string(), true, Priority::new(40).unwrap())
            .unwrap_err(),
        ConfigurationError::StoreDirNotAbsolute
    );
}

#[test]
fn substituters_from_configuration() {
    assert_eq!(configured_priority(None).unwrap().value(), 40);
    assert_eq!(
        configured_priority(Some(0)).unwrap_err(),
        ConfigurationError::ZeroPriority
    );
    let plain = substituter_meta_from_config("https://cache.nixos.org/", None, None).unwrap();
    assert_eq!(plain.storage_url().value(), "https://cache.nixos.org/nar");
    assert_eq!(plain.priority().value(), 40);
    let garnix = substituter_meta_from_config(
        "https://cache.garnix.io/",
        Some("https://garnix-cache.com/"),
        Some(45),
    )
    .unwrap();
    assert_eq!(garnix.storage_url().value(), "https://garnix-cache.com/");
    assert_eq!(garnix.priority().value(), 45);
    assert_eq!(
        substituter_meta_from_config("https://cache.nixos.org/", None, Some(0)).unwrap_err(),
        ConfigurationError::ZeroPriority
    );
    assert_eq!(
        substituter_meta_from_config("cache.nixos.org", None, None).unwrap_err(),
        ConfigurationError::InvalidUrl
    );
}
