use selector4nix::nar::{NarFileEvent, NarFileIndex};
use selector4nix::nar_file_index::NarFileIndexView;
use selector4nix::nar_file_name::NarFileName;
use selector4nix::url::Url;

fn make_nar_file(name: &str) -> NarFileName {
    NarFileName::new(name.to_string()).unwrap()
}

#[test]
fn apply_event_inserts_entry_given_registered() {
    let mut index = NarFileIndexView::new(100);
    let nar_file = make_nar_file("abc.nar.xz");
    index.apply_event(NarFileEvent::Registered {
        nar_file: nar_file.clone(),
        storage_prefix: Url::new("https://cache.nixos.org").unwrap(),
    });
    assert_eq!(
        index.get_storage_prefix(&nar_file),
        Some(Url::new("https://cache.nixos.org").unwrap())
    );
}

#[test]
fn apply_event_overwrites_entry_given_duplicate_registered() {
    let mut index = NarFileIndexView::new(100);
    let nar_file = make_nar_file("abc.nar.xz");
    index.apply_event(NarFileEvent::Registered {
        nar_file: nar_file.clone(),
        storage_prefix: Url::new("https://cache-a.example.com").unwrap(),
    });
    index.apply_event(NarFileEvent::Registered {
        nar_file: nar_file.clone(),
        storage_prefix: Url::new("https://cache-b.example.com").unwrap(),
    });
    assert_eq!(
        index.get_storage_prefix(&nar_file),
        Some(Url::new("https://cache-b.example.com").unwrap())
    );
}

#[test]
fn apply_event_removes_entry_given_evicted() {
    let mut index = NarFileIndexView::new(100);
    let nar_file = make_nar_file("abc.nar.xz");
    index.apply_event(NarFileEvent::Registered {
        nar_file: nar_file.clone(),
        storage_prefix: Url::new("https://cache.nixos.org").unwrap(),
    });
    index.apply_event(NarFileEvent::Evicted {
        nar_file: nar_file.clone(),
    });
    assert!(index.get_storage_prefix(&nar_file).is_none());
}

#[test]
fn apply_event_is_noop_given_unknown_evicted() {
    let mut index = NarFileIndexView::new(100);
    let nar_file = make_nar_file("abc.nar.xz");
    let other = make_nar_file("other.nar.xz");
    index.apply_event(NarFileEvent::Registered {
        nar_file: nar_file.clone(),
        storage_prefix: Url::new("https://cache.nixos.org").unwrap(),
    });
    index.apply_event(NarFileEvent::Evicted { nar_file: other });
    assert!(index.get_storage_prefix(&nar_file).is_some());
}

#[test]
fn index_without_capacity_keeps_nothing() {
    let mut index = NarFileIndexView::new(0);
    let nar_file = make_nar_file("abc.nar.xz");
    index.apply_event(NarFileEvent::Registered {
        nar_file: nar_file.clone(),
        storage_prefix: Url::new("https://cache.nixos.org").unwrap(),
    });
    assert!(index.get_storage_prefix(&nar_file).is_none());
}

#[test]
fn other_files_keep_their_prefix() {
    let mut index = NarFileIndexView::new(10);
    let a = make_nar_file("a.nar.xz");
    let b = make_nar_file("b.nar.xz");
    index.apply_event(NarFileEvent::Registered {
        nar_file: a.clone(),
        storage_prefix: Url::new("https://cache-a.example.com").unwrap(),
    });
    index.apply_event(NarFileEvent::Registered {
        nar_file: b.clone(),
        storage_prefix: Url::new("https://cache-b.example.com").unwrap(),
    });
    index.apply_event(NarFileEvent::Evicted { nar_file: b.clone() });
    assert_eq!(
        index.get_storage_prefix(&a),
        Some(Url::new("https://cache-a.example.com").unwrap())
    );
    assert!(index.get_storage_prefix(&b).is_none());
}
