use trillium_frontend::manifest::{is_manifest, rerun_directive, OutDirFile};
use trillium_frontend::rerun_paths;

fn file(name: &str, contents: &str) -> OutDirFile<String> {
    OutDirFile {
        name: name.to_string(),
        contents: Some(contents.to_string()),
    }
}

#[test]
fn no_out_dir_yields_nothing() {
    assert!(rerun_paths(None).is_empty());
}

#[test]
fn empty_out_dir_yields_nothing() {
    assert!(rerun_paths(Some(&Vec::new())).is_empty());
}

#[test]
fn reads_manifest_paths() {
    let out = vec![file(
        "trillium-frontend-00ff.paths",
        "/client/src\n/client/src/main.js\n",
    )];
    let mut got = rerun_paths(Some(&out));
    got.sort();
    assert_eq!(got, ["/client/src", "/client/src/main.js"]);
}

#[test]
fn unions_multiple_manifests_and_skips_blank_lines() {
    let out = vec![
        file("trillium-frontend-aaaa.paths", "/a/one\n\n/a/two\n"),
        file("trillium-frontend-bbbb.paths", "/b/three\n"),
        file("unrelated.txt", "/should/not/appear\n"),
    ];
    let mut got = rerun_paths(Some(&out));
    got.sort();
    assert_eq!(got, ["/a/one", "/a/two", "/b/three"]);
}

#[test]
fn emits_manifest_paths_regardless_of_other_out_dir_files() {
    let out = vec![
        file("trillium-frontend-aaaa.paths", "/client/src\n"),
        file("trillium-frontend.tracked", ""),
    ];
    assert_eq!(
        rerun_paths(Some(&out)),
        ["/client/src"],
        "the shim must always declare the recorded source paths"
    );
}

#[test]
fn unreadable_manifest_yields_nothing() {
    let out = vec![OutDirFile {
        name: "trillium-frontend-aaaa.paths".to_string(),
        contents: None,
    }];
    assert!(rerun_paths(Some(&out)).is_empty());
}

#[test]
fn line_ends_are_those_of_both_kinds() {
    let out = vec![file(
        "trillium-frontend-aaaa.paths",
        "/a\r\n/b\n\r\n/c\rd\n/e\r",
    )];
    assert_eq!(rerun_paths(Some(&out)), ["/a", "/b", "/c\rd", "/e\r"]);
}

#[test]
fn manifest_names_have_prefix_and_suffix() {
    assert!(is_manifest("trillium-frontend-.paths"));
    assert!(is_manifest("trillium-frontend-0123456789abcdef.paths"));
    assert!(!is_manifest("trillium-frontend-0123456789abcdef.path"));
    assert!(!is_manifest("a-trillium-frontend-0123456789abcdef.paths"));
    assert!(!is_manifest(".paths"));
    assert!(!is_manifest(""));
}

#[test]
fn directive_names_the_path() {
    assert_eq!(
        rerun_directive("/client/src"),
        "cargo::rerun-if-changed=/client/src"
    );
}
