use proc_macro2::TokenStream;
use trillium_frontend::args::{ArgError, MacroArgs};
use trillium_frontend::expand::{emit_prebuilt, Step};
use trillium_frontend::expansion::{
    Action, Event, ExpandAction, ExpandError, ExpandEvent, ExpandState, HandlerCall, RunOutcome,
    Settings,
};
use trillium_frontend::manifest::hash_project;
use trillium_frontend::sources::{EntryKind, FileStamp, Listing, SourceEntry};
use trillium_frontend::text::hex_digits;
use trillium_frontend::{begin, begin_with, frontend_impl, PathStyle};

fn settings(dev_proxy: bool) -> Settings<String> {
    Settings {
        style: PathStyle::Unix,
        dev_proxy,
        native_tracking: false,
        manifest_dir: "/crate".to_string(),
        out_dir: Some("/out".to_string()),
        state_dir: "/tmp".to_string(),
        session: "first run".to_string(),
    }
}

fn file(name: &str, modified: u64) -> SourceEntry {
    SourceEntry {
        name: name.as_bytes().to_vec(),
        kind: EntryKind::File(FileStamp { len: 1, modified }),
    }
}

fn dir(name: &str, entries: Vec<SourceEntry>) -> SourceEntry {
    SourceEntry {
        name: name.as_bytes().to_vec(),
        kind: EntryKind::Dir(Listing::Read(entries)),
    }
}

/// A project on an imaginary disk.
struct Disk {
    session: &'static str,
    paths: Vec<&'static str>,
    modified: u64,
    built: Option<u64>,
    stamp: Option<Vec<u8>>,
    locks: Vec<String>,
    commands: Vec<String>,
    build_outcome: fn() -> RunOutcome<String>,
    manifest: Option<String>,
}

impl Disk {
    fn new(paths: &[&'static str]) -> Self {
        Disk {
            session: "first run",
            paths: paths.to_vec(),
            modified: 1,
            built: None,
            stamp: None,
            locks: Vec::new(),
            commands: Vec::new(),
            build_outcome: || RunOutcome::Succeeded,
            manifest: None,
        }
    }

    /// What is in the project's directory.
    fn project(&self) -> Listing {
        let mut entries = vec![file("main.js", self.modified)];
        if self.paths.contains(&"/crate/client/node_modules") {
            entries.insert(0, dir("node_modules", vec![file("left-pad.js", 1)]));
        }
        if let Some(built) = self.built {
            entries.insert(0, dir("dist", vec![file("index.html", built)]));
        }
        Listing::Read(entries)
    }

    fn perform(&mut self, action: &Action) -> Event {
        match action {
            ExpandAction::Canonicalize(path) => {
                ExpandEvent::Canonical(path.replace("/./", "/"))
            }
            ExpandAction::CheckExists(path) => {
                ExpandEvent::Exists(self.paths.contains(&path.as_str()))
            }
            ExpandAction::Probe(dir) => ExpandEvent::Present(
                self.paths
                    .iter()
                    .filter_map(|path| path.strip_prefix(&format!("{dir}/")))
                    .map(str::to_string)
                    .collect(),
            ),
            ExpandAction::Lock(path) => {
                self.locks.push(path.clone());
                ExpandEvent::Done
            }
            ExpandAction::Run { command, dir } => {
                assert_eq!(dir, "/crate/client");
                assert!(!self.locks.is_empty());
                self.commands.push(command.clone());
                if command.contains("install") {
                    self.paths.push("/crate/client/node_modules");
                    return ExpandEvent::Ran(RunOutcome::Succeeded);
                }
                let outcome = (self.build_outcome)();
                if outcome == RunOutcome::Succeeded {
                    self.built = Some(self.modified);
                    self.paths.push("/crate/client/dist");
                    self.paths.push("/crate/client/dist/index.html");
                }
                ExpandEvent::Ran(outcome)
            }
            ExpandAction::Scan { .. } => ExpandEvent::Scanned {
                sources: self.project(),
                output: match self.built {
                    Some(built) => Listing::Read(vec![file("index.html", built)]),
                    None => Listing::Unread,
                },
                recorded: self.stamp.clone(),
            },
            ExpandAction::Forget(_) => {
                self.stamp = None;
                ExpandEvent::Done
            }
            ExpandAction::Record { stamp, .. } => {
                self.stamp = Some(stamp.clone());
                ExpandEvent::Done
            }
            ExpandAction::Track(tracking) => {
                assert!(tracking.registered.is_empty());
                self.manifest = tracking.manifest.as_ref().map(|m| m.body.clone());
                ExpandEvent::Done
            }
            ExpandAction::Emit(_) | ExpandAction::Fail(_) => unreachable!(),
        }
    }

    fn expand(
        &mut self,
        input: &str,
        dev_proxy: bool,
    ) -> Result<HandlerCall<String>, ExpandError<String>> {
        self.commands.clear();
        self.locks.clear();
        let input = input.parse::<TokenStream>().unwrap();
        let settings = Settings {
            session: self.session.to_string(),
            ..settings(dev_proxy)
        };
        let mut step: Step = begin(input, settings);
        loop {
            match step.action {
                ExpandAction::Emit(call) => return Ok(call),
                ExpandAction::Fail(error) => return Err(error),
                action => {
                    let event = self.perform(&action);
                    step = frontend_impl(step.state, event);
                }
            }
        }
    }
}

fn embedding(dist: &str, index: bool) -> HandlerCall<String> {
    HandlerCall {
        assets: Some(dist.to_string()),
        spa_fallback: index.then(|| format!("{dist}/index.html")),
        project_path: "/crate/client".to_string(),
        dev_command: None,
    }
}

#[test]
fn prebuilt_mode_runs_nothing() {
    for dev_proxy in [false, true] {
        let mut disk = Disk::new(&["/crate/client/dist"]);
        assert_eq!(
            disk.expand("\"./client\"", dev_proxy),
            Ok(embedding("/crate/client/dist", false))
        );
        assert!(disk.commands.is_empty());
        assert!(disk.locks.is_empty());
    }
}

#[test]
fn prebuilt_mode_has_a_fallback_and_another_directory() {
    let mut disk = Disk::new(&["/crate/client/out", "/crate/client/out/index.html"]);
    assert_eq!(
        disk.expand("path = \"./client\", dist = \"out\"", false),
        Ok(embedding("/crate/client/out", true))
    );
}

#[test]
fn prebuilt_mode_needs_the_output() {
    let mut disk = Disk::new(&[]);
    let error = disk.expand("\"./client\"", false).unwrap_err();
    assert_eq!(
        error,
        ExpandError::NoDist {
            dist_dir: "/crate/client/dist".to_string()
        }
    );
    assert_eq!(
        error.message(),
        "trillium-frontend: no source (package.json) and no pre-built dist directory found at \
         `/crate/client/dist`. Either include the dist directory in your published crate or ensure \
         the frontend source is available."
    );
}

#[test]
fn dev_proxy_mode_builds_nothing() {
    let mut disk = Disk::new(&[
        "/crate/client/package.json",
        "/crate/client/yarn.lock",
        "/crate/client/vite.config.ts",
    ]);
    assert_eq!(
        disk.expand("\"./client\"", true),
        Ok(HandlerCall {
            assets: None,
            spa_fallback: None,
            project_path: "/crate/client".to_string(),
            dev_command: Some(
                "yarn exec vite --strictPort --clearScreen false".to_string()
            ),
        })
    );
    assert_eq!(disk.commands, ["yarn install"]);
    assert_eq!(disk.expand("\"./client\"", true).unwrap().assets, None);
    assert!(disk.commands.is_empty());
}

#[test]
fn dev_proxy_mode_without_a_framework_has_no_command() {
    let mut disk = Disk::new(&["/crate/client/package.json", "/crate/client/node_modules"]);
    assert_eq!(disk.expand("\"./client\"", true).unwrap().dev_command, None);
}

#[test]
fn build_mode_builds_once() {
    let mut disk = Disk::new(&[
        "/crate/client/package.json",
        "/crate/client/bun.lockb",
        "/crate/client/vite.config.js",
    ]);
    let call = embedding("/crate/client/dist", true);
    assert_eq!(disk.expand("\"./client\"", false), Ok(call));
    assert_eq!(disk.commands, ["bun install", "bun run vite build"]);
    assert_eq!(
        disk.locks,
        [format!(
            "/tmp/trillium-frontend-{}.lock",
            hex_digits(hash_project("/crate/client"), 16)
        )]
    );
    assert_eq!(disk.manifest.as_deref(), Some("/crate/client/main.js\n"));
    for _ in 0..3 {
        disk.manifest = None;
        assert_eq!(
            disk.expand("\"./client\"", false),
            Ok(embedding("/crate/client/dist", true))
        );
        assert!(disk.commands.is_empty());
        assert_eq!(disk.manifest.as_deref(), Some("/crate/client/main.js\n"));
    }
}

#[test]
fn first_build_is_the_only_one() {
    let mut disk = Disk::new(&["/crate/client/package.json", "/crate/client/node_modules"]);
    let input = "path = \"./client\", build = \"make\", dist = \"dist\"";
    let names = |disk: &Disk| match disk.project() {
        Listing::Read(entries) => entries.into_iter().map(|entry| entry.name).collect::<Vec<_>>(),
        Listing::Unread => Vec::new(),
    };
    assert!(!names(&disk).contains(&b"dist".to_vec()));
    let first = disk.expand(input, false);
    assert_eq!(disk.commands, ["make"]);
    // The build has made the output directory, which is listed from now on.
    assert!(names(&disk).contains(&b"dist".to_vec()));
    let second = disk.expand(input, false);
    assert!(disk.commands.is_empty());
    assert_eq!(first, Ok(embedding("/crate/client/dist", true)));
    assert_eq!(second, first);
}

#[test]
fn build_mode_builds_in_each_session() {
    let mut disk = Disk::new(&["/crate/client/package.json", "/crate/client/node_modules"]);
    let input = "path = \"./client\", build = \"make\"";
    for session in ["first run", "second run", "first run"] {
        disk.session = session;
        assert!(disk.expand(input, false).is_ok());
        assert_eq!(disk.commands, ["make"]);
        assert!(disk.expand(input, false).is_ok());
        assert!(disk.commands.is_empty());
    }
}

#[test]
fn build_mode_builds_after_a_change() {
    let mut disk = Disk::new(&[
        "/crate/client/package.json",
        "/crate/client/node_modules",
        "/crate/client/next.config.js",
    ]);
    let input = "path = \"client\", build = \"make\", dist = \"dist\"";
    assert!(disk.expand(input, false).is_ok());
    assert_eq!(disk.commands, ["make"]);
    disk.modified = 2;
    assert!(disk.expand(input, false).is_ok());
    assert_eq!(disk.commands, ["make"]);
    assert!(disk.expand(input, false).is_ok());
    assert!(disk.commands.is_empty());
    // The output was changed by someone else.
    disk.built = Some(9);
    assert!(disk.expand(input, false).is_ok());
    assert_eq!(disk.commands, ["make"]);
    // Another command.
    assert!(disk.expand("path = \"client\", build = \"make all\", dist = \"dist\"", false).is_ok());
    assert_eq!(disk.commands, ["make all"]);
}

#[test]
fn failed_build_is_repeated() {
    let mut disk = Disk::new(&["/crate/client/package.json", "/crate/client/node_modules"]);
    let input = "path = \"client\", build = \"make\"";
    assert!(disk.expand(input, false).is_ok());
    disk.modified = 2;
    disk.build_outcome = || RunOutcome::Failed {
        status: "exit status: 1".to_string(),
    };
    let error = disk.expand(input, false).unwrap_err();
    assert_eq!(
        error.message(),
        "trillium-frontend: build command `make` failed with exit status: 1"
    );
    assert_eq!(disk.stamp, None);
    // Back to the state that was built before.
    disk.modified = 1;
    disk.build_outcome = || RunOutcome::Succeeded;
    assert!(disk.expand(input, false).is_ok());
    assert_eq!(disk.commands, ["make"]);
}

#[test]
fn build_that_does_not_start_is_reported() {
    let mut disk = Disk::new(&["/crate/client/package.json", "/crate/client/node_modules"]);
    disk.build_outcome = || RunOutcome::NotStarted {
        error: "no sh".to_string(),
    };
    let error = disk.expand("path = \"client\", build = \"make\"", false).unwrap_err();
    assert_eq!(
        error.message(),
        "trillium-frontend: failed to run build `make`: no sh"
    );
}

#[test]
fn build_mode_needs_a_command() {
    let mut disk = Disk::new(&["/crate/client/package.json"]);
    let error = disk.expand("\"./client\"", false).unwrap_err();
    assert_eq!(disk.commands, ["npm install"]);
    assert_eq!(error, ExpandError::NoBuildCommand);
    assert_eq!(
        error.message(),
        "trillium-frontend: could not detect a build command; specify build = \"...\" in the macro"
    );
}

#[test]
fn failed_installation_is_reported() {
    let plan_state = || {
        let step = begin("\"./client\"".parse().unwrap(), settings(false));
        let step = frontend_impl(step.state, ExpandEvent::Canonical("/c".to_string()));
        let step = frontend_impl(step.state, ExpandEvent::Exists(true));
        let step = frontend_impl(step.state, ExpandEvent::Present(Vec::new()));
        let step = frontend_impl(step.state, ExpandEvent::Done);
        let step = frontend_impl(step.state, ExpandEvent::Exists(false));
        assert_eq!(
            step.action,
            ExpandAction::Run {
                command: "npm install".to_string(),
                dir: "/c".to_string()
            }
        );
        step.state
    };
    let failed = frontend_impl(
        plan_state(),
        ExpandEvent::Ran(RunOutcome::Failed {
            status: "exit status: 2".to_string(),
        }),
    );
    match failed.action {
        ExpandAction::Fail(error) => assert_eq!(
            error.message(),
            "trillium-frontend: `npm install` failed with exit status: 2"
        ),
        other => panic!("{other:?}"),
    }
    let not_started = frontend_impl(
        plan_state(),
        ExpandEvent::Ran(RunOutcome::NotStarted {
            error: "no sh".to_string(),
        }),
    );
    match not_started.action {
        ExpandAction::Fail(error) => assert_eq!(
            error.message(),
            "trillium-frontend: failed to run `npm install`: no sh"
        ),
        other => panic!("{other:?}"),
    }
}

#[test]
fn missing_project_is_reported() {
    let step = begin("\"./client\"".parse().unwrap(), settings(false));
    assert_eq!(
        step.action,
        ExpandAction::Canonicalize("/crate/./client".to_string())
    );
    let step = frontend_impl(step.state, ExpandEvent::Unresolved("not found".to_string()));
    assert_eq!(step.state, ExpandState::Finished);
    match step.action {
        ExpandAction::Fail(error) => assert_eq!(
            error.message(),
            "trillium-frontend: could not resolve path `./client`: not found"
        ),
        other => panic!("{other:?}"),
    }
}

#[test]
fn paths_are_joined_as_the_platform_has_it() {
    let settings = Settings {
        style: PathStyle::Windows,
        manifest_dir: r"C:\crate".to_string(),
        ..settings(false)
    };
    let step = begin("\"./client\"".parse().unwrap(), settings);
    assert_eq!(
        step.action,
        ExpandAction::Canonicalize(r"C:\crate\./client".to_string())
    );
    let canonical = ExpandEvent::Canonical(r"\\?\C:\crate\client".to_string());
    let step = frontend_impl(step.state, canonical);
    assert_eq!(
        step.action,
        ExpandAction::CheckExists(r"\\?\C:\crate\client\package.json".to_string())
    );
    let step = frontend_impl(step.state, ExpandEvent::Exists(false));
    assert_eq!(
        step.action,
        ExpandAction::CheckExists(r"\\?\C:\crate\client\dist".to_string())
    );
    let step = frontend_impl(step.state, ExpandEvent::Exists(true));
    let step = frontend_impl(step.state, ExpandEvent::Exists(true));
    assert_eq!(
        step.action,
        ExpandAction::Emit(HandlerCall {
            assets: Some(r"\\?\C:\crate\client\dist".to_string()),
            spa_fallback: Some(r"\\?\C:\crate\client\dist\index.html".to_string()),
            project_path: r"\\?\C:\crate\client".to_string(),
            dev_command: None,
        })
    );
}

#[test]
fn bad_arguments_are_reported() {
    let messages = [
        ("5", "trillium-frontend: expected a string literal, got 5"),
        ("=", "trillium-frontend: expected key identifier, got ="),
        ("a b", "trillium-frontend: expected `=` after `a`, got b"),
        ("a = b", "trillium-frontend: expected string literal for `a`, got b"),
        (
            "a = \"b\"",
            "trillium-frontend: unknown key `a`; valid keys: path, build, dist",
        ),
        ("a", "trillium-frontend: unexpected end of the arguments"),
        ("", "trillium-frontend: `path` is required"),
    ];
    for (input, message) in messages {
        let mut disk = Disk::new(&[]);
        assert_eq!(disk.expand(input, false).unwrap_err().message(), message);
    }
}

#[test]
fn parsed_arguments_begin_an_expansion() {
    let args = MacroArgs {
        path: "/client".to_string(),
        build: None,
        dist: None,
    };
    let step = begin_with(Ok(args), settings(false));
    assert_eq!(
        step.action,
        ExpandAction::Canonicalize("/client".to_string())
    );
    let step = begin_with(Err(ArgError::PathRequired), settings(false));
    assert_eq!(
        step.action,
        ExpandAction::Fail(ExpandError::Args(ArgError::PathRequired))
    );
}

#[test]
fn events_out_of_turn_are_refused() {
    let step = begin("\"./client\"".parse().unwrap(), settings(false));
    let step = frontend_impl(step.state, ExpandEvent::Done);
    assert_eq!(step.action, ExpandAction::Fail(ExpandError::OutOfTurn));
    let step = frontend_impl(step.state, ExpandEvent::Done);
    assert_eq!(step.action, ExpandAction::Fail(ExpandError::OutOfTurn));
    match step.action {
        ExpandAction::Fail(error) => assert_eq!(
            error.message(),
            "trillium-frontend: the expansion was told what it did not ask for"
        ),
        other => panic!("{other:?}"),
    }
}

#[test]
fn embedded_call() {
    assert_eq!(
        emit_prebuilt("/c".to_string(), "/c/dist".to_string(), true, PathStyle::Unix),
        HandlerCall {
            assets: Some("/c/dist".to_string()),
            spa_fallback: Some("/c/dist/index.html".to_string()),
            project_path: "/c".to_string(),
            dev_command: None,
        }
    );
}
