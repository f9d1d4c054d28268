use trillium_frontend::manifest::{
    find_sources, hash_project, manifest_body, manifest_file_name, manifest_paths, write_manifest,
    OutDirFile,
};
use trillium_frontend::sources::{
    collect_paths, excluded, EntryKind, FileStamp, Listing, Source, SourceEntry,
};
use trillium_frontend::stamp::{needs_build, stamp_build, stamp_input};
use trillium_frontend::{register_tracked, rerun_paths, track_sources, PathStyle};

const STAMP: FileStamp = FileStamp {
    len: 3,
    modified: 7,
};

fn file(name: &str) -> SourceEntry {
    SourceEntry {
        name: name.as_bytes().to_vec(),
        kind: EntryKind::File(STAMP),
    }
}

fn dir(name: &str, entries: Vec<SourceEntry>) -> SourceEntry {
    SourceEntry {
        name: name.as_bytes().to_vec(),
        kind: EntryKind::Dir(Listing::Read(entries)),
    }
}

fn other(name: &str) -> SourceEntry {
    SourceEntry {
        name: name.as_bytes().to_vec(),
        kind: EntryKind::Other,
    }
}

fn project() -> Listing {
    Listing::Read(vec![
        file("package.json"),
        dir("dist", vec![file("index.html")]),
        dir("node_modules", vec![file("left-pad.js")]),
        dir(".git", vec![file("HEAD")]),
        dir("target", vec![file("debug")]),
        dir(
            "src",
            vec![
                file("main.js"),
                other("link"),
                dir("lib", vec![file("target"), dir("node_modules", vec![file("x")])]),
                SourceEntry {
                    name: b"secret".to_vec(),
                    kind: EntryKind::Dir(Listing::Unread),
                },
            ],
        ),
    ])
}

fn paths(sources: &[Source<Vec<u8>>]) -> Vec<String> {
    sources
        .iter()
        .map(|source| String::from_utf8(source.path.clone()).unwrap())
        .collect()
}

fn source(path: &[u8], file: Option<FileStamp>) -> Source<Vec<u8>> {
    Source {
        path: path.to_vec(),
        file,
    }
}

#[test]
fn sources_are_found_in_order() {
    let found = find_sources("/client", "/client/dist", &project(), PathStyle::Unix);
    assert_eq!(
        paths(&found),
        [
            "/client/package.json",
            "/client/src",
            "/client/src/main.js",
            "/client/src/lib",
            "/client/src/lib/target",
        ]
    );
    assert_eq!(found[0].file, Some(STAMP));
    assert_eq!(found[1].file, None);
}

#[test]
fn directories_that_lead_to_the_output_are_not_tracked() {
    let found = find_sources("/client", "/client/src/lib", &project(), PathStyle::Unix);
    assert_eq!(
        paths(&found),
        [
            "/client/package.json",
            "/client/dist",
            "/client/dist/index.html",
            "/client/src/main.js",
        ]
    );
}

#[test]
fn output_elsewhere_leaves_the_project_directory_tracked() {
    let found = find_sources("/client", "/elsewhere", &project(), PathStyle::Unix);
    assert_eq!(paths(&found)[0], "/client");
    assert!(paths(&found).contains(&"/client/dist/index.html".to_string()));
}

#[test]
fn output_directory_is_told_by_its_components() {
    let found = find_sources("/client", "/client/./dist/", &project(), PathStyle::Unix);
    assert!(!paths(&found).contains(&"/client/dist/index.html".to_string()));
    assert!(!paths(&found).contains(&"/client".to_string()));
}

#[test]
fn passed_over_directories_make_no_difference() {
    let without = Listing::Read(vec![file("a.js"), dir("src", vec![file("b.js")])]);
    let with = Listing::Read(vec![
        dir("dist", vec![file("index.html")]),
        file("a.js"),
        dir("node_modules", vec![file("left-pad.js")]),
        dir("src", vec![dir(".git", Vec::new()), file("b.js")]),
    ]);
    assert_eq!(
        find_sources("/client", "/client/dist", &with, PathStyle::Unix),
        find_sources("/client", "/client/dist", &without, PathStyle::Unix)
    );
}

#[test]
fn sources_are_found_on_windows() {
    let found = find_sources(
        r"\\?\C:\client",
        r"\\?\C:\client\dist",
        &project(),
        PathStyle::Windows,
    );
    assert_eq!(
        paths(&found),
        [
            r"\\?\C:\client\package.json",
            r"\\?\C:\client\src",
            r"\\?\C:\client\src\main.js",
            r"\\?\C:\client\src\lib",
            r"\\?\C:\client\src\lib\target",
        ]
    );
}

#[test]
fn unreadable_projects_have_no_sources() {
    assert!(find_sources("/client", "/client/dist", &Listing::Unread, PathStyle::Unix).is_empty());
}

#[test]
fn collected_paths_are_appended() {
    let mut out = vec![source(b"/before", None)];
    collect_paths(
        &b"/client".to_vec(),
        &Listing::Read(vec![file("a")]),
        b"/client/dist",
        &mut out,
        PathStyle::Unix,
    );
    assert_eq!(paths(&out), ["/before", "/client/a"]);
}

#[test]
fn exclusions() {
    assert!(excluded(b"node_modules", b"/c/node_modules", b"/c/dist", PathStyle::Unix));
    assert!(excluded(b".git", b"/c/.git", b"/c/dist", PathStyle::Unix));
    assert!(excluded(b"target", b"/c/target", b"/c/dist", PathStyle::Unix));
    assert!(excluded(b"dist", b"/c/dist", b"/c/dist", PathStyle::Unix));
    assert!(!excluded(b"dist", b"/c/src/dist", b"/c/dist", PathStyle::Unix));
    assert!(!excluded(b"src", b"/c/src", b"/c/dist", PathStyle::Unix));
}

#[test]
fn manifest_has_a_line_for_each_utf8_path() {
    let sources = vec![
        source(b"/client/src", None),
        source(b"/client/\xff", Some(STAMP)),
        source("/client/é.js".as_bytes(), Some(STAMP)),
    ];
    let body = manifest_body(&sources);
    assert_eq!(body, "/client/src\n/client/é.js\n");
    assert_eq!(manifest_paths(&body), ["/client/src", "/client/é.js"]);
}

#[test]
fn manifest_names_are_keyed() {
    assert_eq!(
        manifest_file_name(0xff),
        "trillium-frontend-00000000000000ff.paths"
    );
    assert_eq!(hash_project("/a"), hash_project("/a"));
    assert_ne!(hash_project("/a"), hash_project("/b"));
    let manifest = write_manifest("/out", "/client", &vec![source(b"/client/src", None)], PathStyle::Unix);
    assert_eq!(
        manifest.path,
        format!("/out/{}", manifest_file_name(hash_project("/client")))
    );
    assert_eq!(manifest.body, "/client/src\n");
}

#[test]
fn written_manifest_is_read() {
    let out_dir = Some("/out".to_string());
    let tracking = track_sources("/client", "/client/dist", &project(), &out_dir, true, PathStyle::Unix);
    let manifest = tracking.manifest.unwrap();
    let files = vec![OutDirFile {
        name: manifest.path.strip_prefix("/out/").unwrap().to_string(),
        contents: Some(manifest.body),
    }];
    let registered: Vec<String> = tracking
        .registered
        .iter()
        .map(|path| String::from_utf8(path.clone()).unwrap())
        .collect();
    assert_eq!(rerun_paths(Some(&files)), registered);
    assert_eq!(registered.len(), 5);
}

#[test]
fn tracking_goes_both_ways() {
    let listing = Listing::Read(vec![file("a.js")]);
    let out_dir = Some("/out".to_string());
    let both = track_sources("/client", "/client/dist", &listing, &out_dir, true, PathStyle::Unix);
    assert_eq!(both.registered, [b"/client/a.js".to_vec()]);
    assert_eq!(both.manifest.unwrap().body, "/client/a.js\n");

    let neither = track_sources("/client", "/client/dist", &listing, &None, false, PathStyle::Unix);
    assert!(neither.registered.is_empty());
    assert_eq!(neither.manifest, None);

    let sources = vec![source(b"/x", None)];
    assert_eq!(register_tracked(&sources, true), [b"/x".to_vec()]);
    assert!(register_tracked(&sources, false).is_empty());
}

#[test]
fn stamp_has_a_known_form() {
    let input = stamp_input("s", "b", "d", &vec![source(b"p", Some(STAMP))]);
    let mut expected = vec![1, 0, 0, 0, 0, 0, 0, 0, b's'];
    expected.extend([1, 0, 0, 0, 0, 0, 0, 0, b'b']);
    expected.extend([1, 0, 0, 0, 0, 0, 0, 0, b'd']);
    expected.extend([26, 0, 0, 0, 0, 0, 0, 0]);
    expected.extend([1, 0, 0, 0, 0, 0, 0, 0, b'p', 1]);
    expected.extend([3, 0, 0, 0, 0, 0, 0, 0]);
    expected.extend([7, 0, 0, 0, 0, 0, 0, 0]);
    assert_eq!(input, expected);
    let stamp = stamp_build(&input, &vec![source(b"o", None)]);
    expected.extend([1, 0, 0, 0, 0, 0, 0, 0, b'o', 0]);
    assert_eq!(stamp, expected);
}

#[test]
fn builds_are_due_after_changes() {
    let sources = |modified: u64| {
        vec![source(
            b"/client/a.js",
            Some(FileStamp { len: 1, modified }),
        )]
    };
    let stamp = |command: &str, dist: &str, modified: u64| {
        stamp_build(
            &stamp_input("run", command, dist, &sources(modified)),
            &Vec::new(),
        )
    };
    let current = stamp("vite build", "/client/dist", 1);
    assert!(!needs_build(&Some(current.clone()), &current, true));
    assert!(needs_build(&Some(current.clone()), &current, false));
    assert!(needs_build(&None, &current, true));
    for changed in [
        stamp("vite build", "/client/dist", 2),
        stamp("vite build", "/client/out", 1),
        stamp("vite build -d", "/client/dist", 1),
        stamp_build(
            &stamp_input("run", "vite build", "/client/dist", &sources(1)),
            &sources(1),
        ),
        stamp_build(
            &stamp_input("other run", "vite build", "/client/dist", &sources(1)),
            &Vec::new(),
        ),
    ] {
        assert!(needs_build(&Some(changed), &current, true));
    }
}
