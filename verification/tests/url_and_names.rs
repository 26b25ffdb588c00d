use selector4nix::nar_file_name::{NarFileName, TryNewNarFileNameError};
use selector4nix::store_path_hash::{StorePathHash, TryNewStorePathHashError};
use selector4nix::url::{TryNewUrlError, Url};

#[test]
fn urls_must_be_http_with_a_host_and_no_whitespace() {
    assert!(Url::new("https://cache.nixos.org").is_ok());
    assert!(Url::new("http://127.0.0.1:5496/").is_ok());
    assert_eq!(
        Url::new("ftp://cache.nixos.org").unwrap_err(),
        TryNewUrlError::UnsupportedScheme
    );
    assert_eq!(Url::new("https:///nar").unwrap_err(), TryNewUrlError::EmptyHost);
    assert_eq!(
        Url::new("https://cache nixos.org").unwrap_err(),
        TryNewUrlError::Whitespace
    );
}

#[test]
fn directories_of_urls() {
    let u = Url::new("https://cache.nixos.org").unwrap();
    assert_eq!(u.as_dir().value(), "https://cache.nixos.org/");
    assert_eq!(u.get_dir().value(), "https://cache.nixos.org/");
    let f = Url::new("https://cache.nixos.org/nar/abc.nar.xz").unwrap();
    assert_eq!(f.get_dir().value(), "https://cache.nixos.org/nar/");
    assert_eq!(f.as_dir().value(), "https://cache.nixos.org/nar/abc.nar.xz/");
    assert_eq!(
        f.join("other.nar").unwrap().value(),
        "https://cache.nixos.org/nar/other.nar"
    );
    assert_eq!(f.join("a b").unwrap_err(), TryNewUrlError::Whitespace);
}

#[test]
fn nar_file_names_and_storage_prefixes() {
    let name = NarFileName::new("abc.nar.xz".to_string()).unwrap();
    let prefix = Url::new("https://cache.nixos.org/nar").unwrap();
    assert_eq!(
        name.with_storage_prefix(&prefix).value(),
        "https://cache.nixos.org/nar/abc.nar.xz"
    );
    assert_eq!(
        NarFileName::new(String::new()).unwrap_err(),
        TryNewNarFileNameError::Empty
    );
    assert_eq!(
        NarFileName::new("a/b.nar".to_string()).unwrap_err(),
        TryNewNarFileNameError::InvalidCharacter
    );
}

#[test]
fn store_path_hashes() {
    assert!(StorePathHash::new("p4pclmv1gyja5kzc26npqpia1qqxrf0l".to_string()).is_ok());
    assert!(StorePathHash::new(format!("{:0<32}", "0")).is_ok());
    assert_eq!(
        StorePathHash::new("abc".to_string()).unwrap_err(),
        TryNewStorePathHashError::InvalidLength
    );
    assert_eq!(
        StorePathHash::new("e4pclmv1gyja5kzc26npqpia1qqxrf0l".to_string()).unwrap_err(),
        TryNewStorePathHashError::InvalidCharacter
    );
}
