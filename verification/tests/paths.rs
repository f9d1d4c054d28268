use trillium_frontend::paths::{
    join, path_components, path_starts_with, paths_equal, Component, PathStyle, Prefix,
};
use trillium_frontend::resolve_path;
use trillium_frontend::text::{decimal, hex_digits, lines_of};

const UNIX: PathStyle = PathStyle::Unix;
const WINDOWS: PathStyle = PathStyle::Windows;

fn text(bytes: Vec<u8>) -> String {
    String::from_utf8(bytes).unwrap()
}

fn components(path: &str) -> Vec<String> {
    path_components(path.as_bytes(), UNIX)
        .into_iter()
        .map(|component| match component {
            Component::Root => "/".to_string(),
            Component::Name(name) => text(name),
            Component::Prefix(prefix) => panic!("{prefix:?}"),
        })
        .collect()
}

/// The components of a Windows path, with a prefix written as its kind and pieces.
fn windows_components(path: &str) -> Vec<String> {
    let letter = |code: u32| char::from_u32(code).unwrap();
    path_components(path.as_bytes(), WINDOWS)
        .into_iter()
        .map(|component| match component {
            Component::Root => "ROOT".to_string(),
            Component::Name(name) => text(name),
            Component::Prefix(Prefix::Verbatim(piece)) => format!("verbatim {}", text(piece)),
            Component::Prefix(Prefix::VerbatimUnc(server, share)) => {
                format!("verbatim unc {} {}", text(server), text(share))
            }
            Component::Prefix(Prefix::VerbatimDisk(code)) => {
                format!("verbatim disk {}", letter(code))
            }
            Component::Prefix(Prefix::Device(device)) => format!("device {}", text(device)),
            Component::Prefix(Prefix::Unc(server, share)) => {
                format!("unc {} {}", text(server), text(share))
            }
            Component::Prefix(Prefix::Disk(code)) => format!("disk {}", letter(code)),
        })
        .collect()
}

#[test]
fn joining() {
    assert_eq!(join("/crate", "client", UNIX), "/crate/client");
    assert_eq!(join("/crate/", "client", UNIX), "/crate/client");
    assert_eq!(join("/crate", "/client", UNIX), "/client");
    assert_eq!(join("", "client", UNIX), "client");
    assert_eq!(join("/crate", "", UNIX), "/crate/");
    assert_eq!(
        join("/crate", "client", UNIX),
        std::path::Path::new("/crate").join("client").to_str().unwrap()
    );
    assert_eq!(
        join("/crate", "", UNIX),
        std::path::Path::new("/crate").join("").to_str().unwrap()
    );
}

#[test]
fn resolving() {
    assert_eq!(resolve_path("./client", "/crate", UNIX), "/crate/./client");
    assert_eq!(resolve_path("/srv/client", "/crate", UNIX), "/srv/client");
}

#[test]
fn resolved_paths_resolve_to_themselves() {
    for raw in ["./client", "client/", "..", "", "/srv/client"] {
        let resolved = resolve_path(raw, "/crate", UNIX);
        for dir in ["/crate", "/elsewhere", "relative", ""] {
            assert_eq!(resolve_path(&resolved, dir, UNIX), resolved);
        }
    }
}

#[test]
fn components_of_paths() {
    assert_eq!(components("/a/b"), ["/", "a", "b"]);
    assert_eq!(components("//a///b/"), ["/", "a", "b"]);
    assert_eq!(components("/a/./b/."), ["/", "a", "b"]);
    assert_eq!(components("./a"), [".", "a"]);
    assert_eq!(components("a/../b"), ["a", "..", "b"]);
    assert_eq!(components("."), ["."]);
    assert_eq!(components("/"), ["/"]);
    assert!(components("").is_empty());
}

#[test]
fn components_agree_with_the_standard_library() {
    for path in [
        "", ".", "/", "//", "/.", "./", "./.", "a", "a/", "/a//b/./c/", "./a/./b", "a/..", "../a",
        "/../a", ".a/b", "..a", "a.", "/a/.b",
    ] {
        let expected: Vec<String> = std::path::Path::new(path)
            .components()
            .map(|component| component.as_os_str().to_str().unwrap().to_string())
            .collect();
        assert_eq!(components(path), expected, "{path:?}");
    }
}

#[test]
fn prefixes() {
    assert!(path_starts_with(b"/client/dist", b"/client", UNIX));
    assert!(path_starts_with(b"/client/dist", b"/client/dist/", UNIX));
    assert!(path_starts_with(b"/client/./dist", b"/client/dist", UNIX));
    assert!(!path_starts_with(b"/client/dist", b"/cli", UNIX));
    assert!(!path_starts_with(b"/client", b"/client/dist", UNIX));
    assert!(!path_starts_with(b"/client", b"client", UNIX));
    assert!(path_starts_with(b"/client", b"", UNIX));
}

#[test]
fn equality() {
    assert!(paths_equal(b"/client/dist", b"/client//dist/.", UNIX));
    assert!(!paths_equal(b"/client/dist", b"/client/dist2", UNIX));
    assert!(!paths_equal(b"/client/dist", b"/client", UNIX));
}

#[test]
fn numerals() {
    assert_eq!(decimal(0), "0");
    assert_eq!(decimal(10), "10");
    assert_eq!(decimal(65535), "65535");
    assert_eq!(hex_digits(0xff, 16), "00000000000000ff");
    assert_eq!(hex_digits(u64::MAX, 16), "ffffffffffffffff");
    assert_eq!(hex_digits(0x1234, 2), "34");
    assert_eq!(hex_digits(7, 0), "");
}

#[test]
fn lines_agree_with_the_standard_library() {
    for text in ["", "\n", "a", "a\n", "a\n\nb", "a\r\n", "\r\n\r", "a\rb\n\r", "é\nü"] {
        let expected: Vec<&str> = text.lines().collect();
        assert_eq!(lines_of(text), expected, "{text:?}");
    }
}

#[test]
fn joining_on_windows() {
    for (base, path, whole) in [
        ("", "foo", "foo"),
        ("foo", "bar", r"foo\bar"),
        ("foo/", "bar", "foo/bar"),
        (r"foo\", "bar", r"foo\bar"),
        ("foo", "", r"foo\"),
        (".", "foo", r".\foo"),
        (r"C:\crate", "client", r"C:\crate\client"),
        (r"C:\crate", "./client", r"C:\crate\./client"),
        // A prefix replaces all, a root all but the prefix.
        (r"C:\crate", r"D:\client", r"D:\client"),
        (r"C:\crate", "D:client", "D:client"),
        (r"C:\crate", r"\\server\share\x", r"\\server\share\x"),
        (r"C:\crate", r"\client", r"C:\client"),
        ("C:crate", "/client", "C:/client"),
        (r"a\b", r"\client", r"\client"),
        (r"\\server\share\a", r"\b", r"\\server\share\b"),
        // A drive alone takes no separator.
        ("c:", "client", "c:client"),
        (r"c:\", "client", r"c:\client"),
        (r"\\server\share", "a", r"\\server\share\a"),
        (r"\\.\device", "a", r"\\.\device\a"),
        // To a verbatim path, names are joined one by one.
        (r"\\?\C:\crate", "client", r"\\?\C:\crate\client"),
        (r"\\?\C:\crate", "./client/dist/", r"\\?\C:\crate\client\dist"),
        (r"\\?\C:\crate", "../client", r"\\?\C:\client"),
        (r"\\?\C:\crate", "../../client", r"\\?\C:\client"),
        (r"\\?\C:\", "../client", r"\\?\C:\client"),
        (r"\\?\C:\a\b", "/foo", r"\\?\C:\foo"),
        (r"\\?\C:\a\b", "/", r"\\?\C:\"),
        (r"\\?\C:", r"..\foo\.", r"\\?\C:\foo"),
        (r"\\?\C:\a\b", "", r"\\?\C:\a\b\"),
        (r"\\?\C:\a", r"D:\foo/./", r"D:\foo/./"),
        (r"\\?\UNC\server\share\a", "b", r"\\?\UNC\server\share\a\b"),
    ] {
        assert_eq!(join(base, path, WINDOWS), whole, "{base} {path}");
    }
}

#[test]
fn resolving_on_windows() {
    assert_eq!(
        resolve_path("./client", r"C:\crate", WINDOWS),
        r"C:\crate\./client"
    );
    assert_eq!(resolve_path(r"D:\client", r"C:\crate", WINDOWS), r"D:\client");
    for raw in ["client", "..", r"\client", "D:client", r"\\server\share", ""] {
        for base in [r"C:\crate", r"\\?\C:\crate", r"\\server\share", "C:"] {
            let resolved = resolve_path(raw, base, WINDOWS);
            assert_eq!(resolve_path(&resolved, r"E:\elsewhere", WINDOWS), resolved);
        }
    }
}

#[test]
fn components_of_windows_paths() {
    for (path, expected) in [
        ("", vec![]),
        (r"a\b/c", vec!["a", "b", "c"]),
        (r".\a\.\b\", vec![".", "a", "b"]),
        (r"\a", vec!["ROOT", "a"]),
        (r"c:\a\\b", vec!["disk C", "ROOT", "a", "b"]),
        ("C:a", vec!["disk C", "a"]),
        ("C:", vec!["disk C"]),
        (r"\\server\share", vec!["unc server share", "ROOT"]),
        ("//server/share/a", vec!["unc server share", "ROOT", "a"]),
        (r"\\server", vec!["ROOT", "server"]),
        (r"\\.\COM42", vec!["device COM42", "ROOT"]),
        (r"\\?\C:\a\.\b", vec!["verbatim disk C", "ROOT", "a", ".", "b"]),
        (r"\\?\C:\a/b", vec!["verbatim disk C", "ROOT", "a/b"]),
        (r"\\?\C:", vec!["verbatim disk C"]),
        (r"\\?\cat\dog", vec!["verbatim cat", "ROOT", "dog"]),
        (
            r"\\?\UNC\server\share\a",
            vec!["verbatim unc server share", "ROOT", "a"],
        ),
        ("//?/C:/a", vec!["unc ? C:", "ROOT", "a"]),
    ] {
        assert_eq!(windows_components(path), expected, "{path}");
    }
}

#[test]
fn comparing_on_windows() {
    assert!(paths_equal(br"C:\client\dist", b"c:/client/dist/", WINDOWS));
    assert!(!paths_equal(br"C:\client", br"C:\Client", WINDOWS));
    assert!(!paths_equal(br"C:\client", br"\\?\C:\client", WINDOWS));
    assert!(path_starts_with(br"\\?\C:\client\dist", br"\\?\C:\client", WINDOWS));
    assert!(path_starts_with(br"\\server\share\a", b"//server/share", WINDOWS));
    assert!(!path_starts_with(br"C:\client", br"D:\", WINDOWS));
    assert!(!path_starts_with(br"C:\client", br"C:client", WINDOWS));
    // A backslash is part of a name on Unix.
    assert!(!paths_equal(br"a\b", b"a/b", UNIX));
}

#[test]
fn entries_add_their_name() {
    for dir in [
        r"\\?\C:\crate\client",
        r"\\?\C:\",
        r"\\?\UNC\server\share\",
        r"C:\",
        "C:",
        r"C:\a",
        "a/b",
        "",
        r"\\server\share",
        r"\\.\device",
        r"\\\a",
    ] {
        let mut expected = windows_components(dir);
        expected.push("dist".to_string());
        assert_eq!(windows_components(&join(dir, "dist", WINDOWS)), expected, "{dir}");
    }
}
