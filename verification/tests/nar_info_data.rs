use selector4nix::nar_file_name::TryNewNarFileNameError;
use selector4nix::nar_info_data::{NarInfoData, TryNewNarInfoData};

#[test]
fn nar_info_data_new_succeeds() {
    let mut content = String::new();
    content.push_str("StorePath: /nix/store/p4pclmv1gyja5kzc26npqpia1qqxrf0l-ruby-2.7.3\n");
    content.push_str("URL: nar/1w1fff338fvdw53sqgamddn1b2xgds473pv6y13gizdbqjv4i5p3.nar.xz\n");
    content.push_str("Compression: xz\n");
    content.push_str("FileHash: sha256:1w1fff338fvdw53sqgamddn1b2xgds473pv6y13gizdbqjv4i5p3\n");
    content.push_str("FileSize: 4029176\n");
    content.push_str("NarHash: sha256:1impfw8zdgisxkghq9a3q7cn7jb9zyzgxdydiamp8z2nlyyl0h5h\n");
    content.push_str("NarSize: 18735072\n");
    content.push_str("References: 0d71ygfwbmy1xjlbj1v027dfmy9cqavy-libffi-3.3 0dbbrvlw2rahvzi69bmpqy1z9mvzg62s-gdbm-1.19 0i6vphc3vnr8mg0gxjr61564hnp0s2md-gnugrep-3.6 0vkw1m51q34dr64z5i87dy99an4hfmyg-coreutils-8.32 64ylsrpd025kcyi608w3dqckzyz57mdc-libyaml-0.2.5 65ys3k6gn2s27apky0a0la7wryg3az9q-zlib-1.2.11 9m4hy7cy70w6v2rqjmhvd7ympqkj6yxk-ncurses-6.2 a4yw1svqqk4d8lhwinn9xp847zz9gfma-bash-4.4-p23 hbm0951q7xrl4qd0ccradp6bhjayfi4b-openssl-1.1.1k hjwjf3bj86gswmxva9k40nqx6jrb5qvl-readline-6.3p08 p4pclmv1gyja5kzc26npqpia1qqxrf0l-ruby-2.7.3 sbbifs2ykc05inws26203h0xwcadnf0l-glibc-2.32-46\n");
    content.push_str("Deriver: bidkcs01mww363s4s7akdhbl6ws66b0z-ruby-2.7.3.drv\n");
    content.push_str("Sig: cache.nixos.org-1:GrGV/Ls10TzoOaCnrcAqmPbKXFLLSBDeGNh5EQGKyuGA4K1wv1LcRVb6/sU+NAPK8lDiam8XcdJzUngmdhfTBQ==\n");

    let data = NarInfoData::new(content).unwrap();
    assert_eq!(
        data.nar_file().value(),
        "1w1fff338fvdw53sqgamddn1b2xgds473pv6y13gizdbqjv4i5p3.nar.xz"
    );
    assert!(
        data.content()
            .contains("URL: nar/1w1fff338fvdw53sqgamddn1b2xgds473pv6y13gizdbqjv4i5p3.nar.xz\n")
    );
}

#[test]
fn new_rewrites_url_given_non_standard_substituter() {
    let mut content = String::new();
    content.push_str("StorePath: /nix/store/p4pclmv1gyja5kzc26npqpia1qqxrf0l-hello\n");
    content.push_str("URL: https://other.com/custom/abc.nar.xz\n");
    content.push_str("Compression: xz\n");

    let data = NarInfoData::new(content).unwrap();
    assert_eq!(data.nar_file().value(), "abc.nar.xz");
    assert!(data.content().contains("URL: nar/abc.nar.xz\n"));
    assert!(!data.content().contains("https://other.com"));
}

#[test]
fn new_fails_given_no_url_field() {
    let content = "StorePath: /nix/store/abc-hello\nCompression: xz\n".to_string();
    assert!(NarInfoData::new(content).is_err());
}

#[test]
fn rewritten_content_joins_lines_without_final_newline() {
    let content = "StorePath: /nix/store/x\r\nURL:   https://h.example/a/b/f.nar.zst  \r\nNarSize: 3\n".to_string();
    let data = NarInfoData::new(content).unwrap();
    assert_eq!(data.nar_file().value(), "f.nar.zst");
    assert_eq!(
        data.content(),
        "StorePath: /nix/store/x\nURL: nar/f.nar.zst\nNarSize: 3"
    );
}

#[test]
fn every_url_line_is_rewritten_and_first_one_names_the_file() {
    let content = "URL: a/first.nar\nX: 1\nURL: b/second.nar\n".to_string();
    let data = NarInfoData::new(content).unwrap();
    assert_eq!(data.nar_file().value(), "first.nar");
    assert_eq!(data.content(), "URL: nar/first.nar\nX: 1\nURL: nar/first.nar");
}

#[test]
fn repeated_url_prefix_is_stripped() {
    let content = "URL:URL: x/y.nar\n".to_string();
    let data = NarInfoData::new(content).unwrap();
    assert_eq!(data.nar_file().value(), "y.nar");
}

#[test]
fn new_fails_given_empty_or_invalid_file_name() {
    let empty = NarInfoData::new("URL: https://h.example/dir/\n".to_string());
    assert_eq!(
        empty.unwrap_err(),
        TryNewNarInfoData::InvalidNarFileName {
            source: TryNewNarFileNameError::Empty
        }
    );
    let invalid = NarInfoData::new("URL: nar/a b.nar\n".to_string());
    assert_eq!(
        invalid.unwrap_err(),
        TryNewNarInfoData::InvalidNarFileName {
            source: TryNewNarFileNameError::InvalidCharacter
        }
    );
    assert_eq!(
        NarInfoData::new(String::new()).unwrap_err(),
        TryNewNarInfoData::NoUrlField
    );
}

#[test]
fn rewriting_twice_is_the_same_as_once() {
    let content = "StorePath: /nix/store/x\nURL: https://o.example/c/k.nar.xz\nA: b\n".to_string();
    let once = NarInfoData::new(content).unwrap();
    let twice = NarInfoData::new(once.content().clone()).unwrap();
    assert_eq!(once, twice);
}
