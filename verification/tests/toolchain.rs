use trillium_frontend::is_nightly;
use trillium_frontend::toolchain::is_white_space;

fn described(release: &str) -> Vec<u8> {
    format!(
        "rustc {release} (0123456 2026-01-01)\nbinary: rustc\ncommit-hash: unknown\n\
         host: x86_64-unknown-linux-gnu\nrelease: {release}\nLLVM version: 21.1.0\n"
    )
    .into_bytes()
}

#[test]
fn nightly_releases_are_told() {
    assert!(is_nightly(&described("1.94.0-nightly")));
    assert!(is_nightly(b"release:-nightly"));
    assert!(is_nightly("release:\u{3000} 1.94.0-nightly\u{a0}\r\n".as_bytes()));
}

#[test]
fn other_releases_are_not_nightly() {
    assert!(!is_nightly(&described("1.94.0")));
    assert!(!is_nightly(&described("1.94.0-beta.3")));
    assert!(!is_nightly(&described("1.94.0-dev")));
    assert!(!is_nightly(b"release: nightly"));
}

#[test]
fn only_the_first_release_line_counts() {
    assert!(!is_nightly(b"release: 1.94.0\nrelease: 1.94.0-nightly\n"));
    assert!(is_nightly(b"release: 1.94.0-nightly\nrelease: 1.94.0\n"));
    assert!(!is_nightly(b"rustc 1.94.0-nightly\n release: 1.94.0-nightly\n"));
    assert!(!is_nightly(b""));
}

#[test]
fn unreadable_descriptions_are_not_nightly() {
    assert!(!is_nightly(b"\xff\nrelease: 1.94.0-nightly\n"));
}

#[test]
fn white_space_is_that_of_unicode() {
    for c in '\0'..=char::MAX {
        assert_eq!(is_white_space(c), c.is_whitespace(), "{c:?}");
    }
}
