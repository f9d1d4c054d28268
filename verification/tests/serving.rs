use trillium_client::Client;
use trillium_frontend::handler::{
    embed_directory, upstream_url, InitAction, InitError, InitEvent, InitState, InitStep, Probe,
    RunAction, RunEvent,
};
use trillium_frontend::FrontendHandler;
use trillium_static_compiled::StaticCompiledHandler;
use trillium_static_compiled::__macro_internals::{Dir, DirEntry, File};

const INDEX: DirEntry = DirEntry::File(File::new("index.html", b"<html></html>"));
const ENTRIES: &[DirEntry] = &[INDEX];
const SITE: DirEntry = DirEntry::Dir(Dir::new(
    "",
    &[
        DirEntry::File(File::new("app.html", b"app")),
        DirEntry::File(File::new("main.js", b"main")),
    ],
));
const DIST: DirEntry = DirEntry::Dir(Dir::new("", ENTRIES));

fn client() -> Client {
    Client::new(trillium_testing::client_config())
}

fn embedded(fallback: bool) -> FrontendHandler {
    let spa_fallback = if fallback {
        Some(StaticCompiledHandler::new(INDEX))
    } else {
        None
    };
    FrontendHandler::new(embed_directory(DIST), spa_fallback, "/client", None)
}

fn proxying() -> FrontendHandler {
    FrontendHandler::new(None, None, "/client", Some("npx vite"))
}

fn failure(step: InitStep) -> InitError<String> {
    assert!(matches!(step.state, InitState::Finished));
    match step.action {
        InitAction::Fail(error) => error,
        _ => panic!("no failure"),
    }
}

fn expect_spawn(step: InitStep, expected_command: &str, expected_port: &str) -> InitState {
    match step.action {
        InitAction::Spawn { command, port, dir } => {
            assert_eq!(command, expected_command);
            assert_eq!(port, expected_port);
            assert_eq!(dir, "/client");
        }
        _ => panic!("nothing spawned"),
    }
    step.state
}

#[test]
fn only_directories_are_embedded_as_such() {
    assert!(embed_directory(DIST).is_some());
    assert!(embed_directory(INDEX).is_none());
}

#[test]
fn embedded_files_are_served_with_a_fallback() {
    let handler = embedded(true);
    assert_eq!(handler.run(RunEvent::Received), RunAction::RunAssets);
    assert_eq!(
        handler.run(RunEvent::AssetsRan { halted: true }),
        RunAction::Return
    );
    assert_eq!(
        handler.run(RunEvent::AssetsRan { halted: false }),
        RunAction::RunFallback
    );
    assert_eq!(handler.run(RunEvent::FallbackRan), RunAction::Return);
    assert!(handler.spa_fallback().is_some());
}

#[test]
fn embedded_files_are_served_without_a_fallback() {
    let handler = embedded(false);
    assert_eq!(
        handler.run(RunEvent::AssetsRan { halted: false }),
        RunAction::Return
    );
    assert!(handler.spa_fallback().is_none());
}

#[test]
fn index_file_is_served_for_what_is_missing() {
    let missing = RunEvent::AssetsRan { halted: false };
    let handler = embedded(false).with_index_file("app.html");
    assert_eq!(handler.run(RunEvent::Received), RunAction::RunAssets);
    assert_eq!(
        handler.run(RunEvent::AssetsRan { halted: true }),
        RunAction::Return
    );
    assert_eq!(handler.run(missing), RunAction::RunIndex);
    assert_eq!(
        handler.run(RunEvent::IndexRan { halted: true }),
        RunAction::Return
    );
    assert_eq!(
        handler.run(RunEvent::IndexRan { halted: false }),
        RunAction::Return
    );
    // The index file that was set comes before the embedded fallback.
    let handler = embedded(true).with_index_file("app.html");
    assert_eq!(handler.run(missing), RunAction::RunIndex);
    assert_eq!(
        handler.run(RunEvent::IndexRan { halted: true }),
        RunAction::Return
    );
    assert_eq!(
        handler.run(RunEvent::IndexRan { halted: false }),
        RunAction::RunFallback
    );
}

/// Serves a request as the handler says, with the real embedded files.
fn serve(handler: &FrontendHandler, path: &'static str) -> Option<String> {
    let assets = handler.assets().unwrap();
    let at = |handler: StaticCompiledHandler, path: &'static str| {
        trillium_testing::block_on(async move {
            let app = trillium_testing::TestServer::new(handler).await;
            let conn = app.get(path).await;
            let halted = conn.status() == trillium::Status::Ok;
            halted.then_some(conn.body().to_string())
        })
    };
    let mut served = None;
    let mut event = RunEvent::Received;
    loop {
        event = match handler.run(event) {
            RunAction::RunAssets => {
                served = at(assets, path);
                RunEvent::AssetsRan {
                    halted: served.is_some(),
                }
            }
            RunAction::RunIndex => {
                served = at(assets, "/");
                RunEvent::IndexRan {
                    halted: served.is_some(),
                }
            }
            RunAction::RunFallback => {
                served = at(handler.spa_fallback().unwrap(), path);
                RunEvent::FallbackRan
            }
            RunAction::Forward => unreachable!(),
            RunAction::Return => return served,
        };
    }
}

#[test]
fn unmatched_paths_get_the_index_file() {
    let fallback = || Some(StaticCompiledHandler::new(INDEX));
    let mut handler = FrontendHandler::new(embed_directory(SITE), None, "/client", None)
        .with_index_file("app.html");
    handler.start(false);
    assert_eq!(serve(&handler, "/main.js").as_deref(), Some("main"));
    assert_eq!(serve(&handler, "/").as_deref(), Some("app"));
    assert_eq!(serve(&handler, "/some/route").as_deref(), Some("app"));

    let mut handler = FrontendHandler::new(embed_directory(SITE), fallback(), "/client", None)
        .with_index_file("app.html");
    handler.start(false);
    assert_eq!(serve(&handler, "/some/route").as_deref(), Some("app"));

    let mut handler = FrontendHandler::new(embed_directory(SITE), fallback(), "/client", None)
        .with_index_file("missing.html");
    handler.start(false);
    assert_eq!(
        serve(&handler, "/some/route").as_deref(),
        Some("<html></html>")
    );

    let mut handler = FrontendHandler::new(embed_directory(SITE), None, "/client", None);
    handler.start(false);
    assert_eq!(serve(&handler, "/some/route"), None);
}

#[test]
fn embedded_files_start_no_server() {
    for dev_proxy in [false, true] {
        let mut handler = embedded(true)
            .with_client(client())
            .with_dev_port(3000)
            .with_dev_command("npm run dev".to_string());
        let step = handler.start(dev_proxy);
        assert!(matches!(step.action, InitAction::Done));
        assert!(!handler.drop());
        assert_eq!(handler.run(RunEvent::Received), RunAction::RunAssets);
    }
}

#[test]
fn embedded_files_get_their_index() {
    let shown = |handler: &FrontendHandler| format!("{:?}", handler.assets().unwrap());
    let mut plain = embedded(false);
    plain.start(false);
    assert!(shown(&plain).contains("index_file: None"));
    let mut indexed = embedded(false).with_index_file("index.html");
    assert!(shown(&indexed).contains("index_file: None"));
    indexed.start(false);
    assert!(shown(&indexed).contains("index_file: Some(\"index.html\")"));
    assert!(shown(&indexed).contains("path: \"index.html\""));
}

#[test]
fn nothing_is_proxied_unless_asked_for() {
    let mut handler = proxying().with_client(client());
    assert!(matches!(handler.start(false).action, InitAction::Done));
    assert_eq!(handler.run(RunEvent::Received), RunAction::Return);
    assert!(!handler.has_upgrade(true));
    assert!(!handler.upgrade());
    assert!(!handler.drop());
}

#[test]
fn client_is_required() {
    let error = failure(proxying().start(true));
    assert_eq!(error, InitError::MissingClient);
    assert_eq!(
        error.message(),
        "trillium-frontend: in dev-proxy mode, provide a Client via .with_client()"
    );
}

#[test]
fn free_port_is_required() {
    let mut handler = proxying().with_client(client());
    let step = handler.start(true);
    assert!(matches!(step.action, InitAction::PickPort));
    let error = failure(handler.init(step.state, InitEvent::PortPicked(None)));
    assert_eq!(
        error.message(),
        "trillium-frontend: could not find a free port for the dev server"
    );
}

#[test]
fn dev_command_is_required() {
    let mut handler = FrontendHandler::new(None, None, "/client", None)
        .with_client(client())
        .with_dev_port(3000);
    let error = failure(handler.start(true));
    assert_eq!(
        error.message(),
        "trillium-frontend: no dev command detected; configure with .with_dev_command()"
    );
}

#[test]
fn dev_server_is_started_and_proxied() {
    let mut handler = proxying().with_client(client());
    let step = handler.start(true);
    assert!(matches!(step.action, InitAction::PickPort));
    let step = handler.init(step.state, InitEvent::PortPicked(Some(5173)));
    let state = expect_spawn(step, "npx vite --port 5173", "5173");
    let step = handler.init(state, InitEvent::Spawned);
    assert!(matches!(step.action, InitAction::Connect));
    let step = handler.init(step.state, InitEvent::Probed(Probe::Refused));
    assert!(matches!(step.action, InitAction::Pause { millis: 10 }));
    let step = handler.init(step.state, InitEvent::Paused);
    assert!(matches!(step.action, InitAction::Connect));
    assert_eq!(handler.run(RunEvent::Received), RunAction::Return);
    let step = handler.init(step.state, InitEvent::Probed(Probe::Answered));
    match step.action {
        InitAction::Proxy { upstream, .. } => {
            assert_eq!(upstream.as_str(), "http://localhost:5173/");
        }
        _ => panic!("no proxy"),
    }
    let step = handler.init(step.state, InitEvent::ProxyStarted);
    assert!(matches!(step.action, InitAction::Done));
    assert_eq!(handler.run(RunEvent::Received), RunAction::Forward);
    assert_eq!(handler.run(RunEvent::Forwarded), RunAction::Return);
    assert!(handler.has_upgrade(true));
    assert!(!handler.has_upgrade(false));
    assert!(handler.upgrade());
    assert!(handler.drop());
    assert!(!handler.drop());
}

#[test]
fn dev_command_and_port_can_be_set() {
    let mut handler = proxying()
        .with_client(client())
        .with_dev_port(3000)
        .with_dev_command("npm run dev -- --port $PORT".to_string());
    let state = expect_spawn(handler.start(true), "npm run dev -- --port $PORT", "3000");
    let error = failure(handler.init(
        state,
        InitEvent::SpawnFailed {
            error: "no sh".to_string(),
        },
    ));
    assert_eq!(
        error.message(),
        "trillium-frontend: failed to spawn dev server: no sh"
    );
    assert!(!handler.drop());
}

#[test]
fn dev_server_is_given_a_second() {
    let mut handler = proxying().with_client(client()).with_dev_port(80);
    let state = expect_spawn(handler.start(true), "npx vite --port 80", "80");
    let mut step = handler.init(state, InitEvent::Spawned);
    let mut tries = 0;
    let mut waited = 0;
    while let InitAction::Connect = step.action {
        tries += 1;
        let pause = handler.init(step.state, InitEvent::Probed(Probe::Refused));
        match pause.action {
            InitAction::Pause { millis } => waited += millis,
            _ => panic!("no pause"),
        }
        step = handler.init(pause.state, InitEvent::Paused);
    }
    assert_eq!(tries, 100);
    assert_eq!(waited, 1000);
    assert!(matches!(step.action, InitAction::Proxy { .. }));
}

#[test]
fn broken_connections_are_reported() {
    let mut handler = proxying().with_client(client()).with_dev_port(3000);
    let state = expect_spawn(handler.start(true), "npx vite --port 3000", "3000");
    let step = handler.init(state, InitEvent::Spawned);
    let probe = Probe::Broken {
        error: "reset".to_string(),
    };
    let error = failure(handler.init(step.state, InitEvent::Probed(probe)));
    assert_eq!(
        error.message(),
        "trillium-frontend was unable to connect to the dev server: reset"
    );
    assert!(handler.drop());
}

#[test]
fn events_of_the_start_out_of_turn_are_refused() {
    let mut handler = proxying().with_client(client()).with_dev_port(3000);
    let step = handler.start(true);
    let error = failure(handler.init(step.state, InitEvent::Paused));
    assert_eq!(error, InitError::OutOfTurn);
    assert_eq!(
        error.message(),
        "trillium-frontend: the start was told what it did not ask for"
    );
    assert_eq!(
        InitError::<String>::BadUpstream.message(),
        "trillium-frontend: the address of the dev server is no URL"
    );
}

#[test]
fn upstream_is_on_the_port() {
    let upstream = upstream_url(8080).unwrap();
    assert_eq!(upstream.as_str(), "http://localhost:8080/");
    assert_eq!(upstream.port(), Some(8080));
}
