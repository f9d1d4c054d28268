//! The handler that serves a frontend project: from embedded files, or by proxying to the project's
//! dev server.
//!
//! What the handler does to the outside world - serving a file, starting the dev server, forwarding
//! a request - is asked for by an action and reported by an event. Which action comes next is decided
//! here.

use trillium_client::Client;
use trillium_proxy::Url;
use trillium_static_compiled::StaticCompiledHandler;
use trillium_static_compiled::__macro_internals::DirEntry;
use vstd::prelude::*;

use crate::outside::parse_url;
#[allow(unused_imports)]
use crate::outside::{is_embedded_file, parsed_url, served_index, served_root};
use crate::text::decimal;
#[allow(unused_imports)]
use crate::text::decimal_text;

verus! {

/// The number of times that the dev server is tried before it is taken to be up anyway.
pub const CONNECT_ATTEMPTS: u32 = 100;

/// The milliseconds between two tries.
pub const CONNECT_PAUSE: u64 = 10;

/// A handler for a frontend project.
pub struct FrontendHandler {
    assets: Option<StaticCompiledHandler>,
    spa_fallback: Option<StaticCompiledHandler>,
    project_path: &'static str,
    detected_dev_command: Option<&'static str>,
    client: Option<Client>,
    dev_command: Option<String>,
    dev_port: Option<u16>,
    index_file: Option<&'static str>,
    dev_process: bool,
    proxy: bool,
}

/// A handler as contracts speak of it.
pub struct HandlerModel {
    /// The embedded files, where there are any.
    pub assets: Option<StaticCompiledHandler>,
    /// The embedded file that is served where none of `assets` is.
    pub spa_fallback: Option<StaticCompiledHandler>,
    /// The project's directory.
    pub project_path: Seq<char>,
    /// The command for the dev server that the project's files tell of, up to the port.
    pub detected_dev_command: Option<Seq<char>>,
    /// The client to proxy with.
    pub client: Option<Client>,
    /// The command for the dev server, where it is not to be detected.
    pub dev_command: Option<Seq<char>>,
    /// The dev server's port, where it is not to be picked.
    pub dev_port: Option<u16>,
    /// The file of `assets` that is served for a directory, and for any path that none of them has.
    pub index_file: Option<Seq<char>>,
    /// Whether a dev server runs.
    pub dev_process: bool,
    /// Whether requests are forwarded to the dev server.
    pub proxy: bool,
}

/// How far a request has been served.
#[derive(Clone, Copy, Debug, PartialEq, Eq, Structural)]
pub enum RunEvent {
    Received,
    /// The embedded files were tried; the request is `halted` where one of them was served.
    AssetsRan { halted: bool },
    /// The index file was tried; the request is `halted` where it was served.
    IndexRan { halted: bool },
    /// The fallback was served.
    FallbackRan,
    /// The dev server has answered.
    Forwarded,
}

/// What is to be done with a request.
#[derive(Clone, Copy, Debug, PartialEq, Eq, Structural)]
pub enum RunAction {
    /// Try the embedded files.
    RunAssets,
    /// Try the embedded files once more, at the empty path, where they serve their index file.
    RunIndex,
    /// Serve the fallback.
    RunFallback,
    /// Have the dev server answer.
    Forward,
    Return,
}

/// How a try to reach the dev server ended.
#[derive(Debug, PartialEq, Eq)]
pub enum Probe<Text> {
    /// It answered, whatever it answered.
    Answered,
    /// It is not listening yet.
    Refused,
    /// It could not be reached for another reason.
    Broken { error: Text },
}

/// How far the start of the dev server has come.
pub enum InitState {
    PickingPort { client: Client },
    Spawning { client: Client, port: u16 },
    Connecting { client: Client, upstream: Url, attempt: u32 },
    Pausing { client: Client, upstream: Url, attempt: u32 },
    StartingProxy,
    Finished,
}

/// What has happened during the start.
#[derive(Debug, PartialEq, Eq)]
pub enum InitEvent<Text> {
    /// A port was looked for.
    PortPicked(Option<u16>),
    Spawned,
    SpawnFailed { error: Text },
    Probed(Probe<Text>),
    Paused,
    ProxyStarted,
}

/// What is to be done during the start.
pub enum InitAction<Text> {
    /// Nothing more.
    Done,
    /// Look for a free port.
    PickPort,
    /// Run a command in a directory, with the environment variable `PORT` set.
    Spawn { command: Text, port: Text, dir: Text },
    /// Try to reach the dev server.
    Connect,
    /// Wait for some milliseconds.
    Pause { millis: u64 },
    /// Proxy requests to the dev server from now on.
    Proxy { client: Client, upstream: Url },
    /// Give up.
    Fail(InitError<Text>),
}

/// Why the start failed.
#[derive(Debug, PartialEq, Eq)]
pub enum InitError<Text> {
    MissingClient,
    NoFreePort,
    NoDevCommand,
    SpawnFailed { error: Text },
    BadUpstream,
    ConnectFailed { error: Text },
    /// What was reported does not answer what was asked for.
    OutOfTurn,
}

/// How far the start has come, and what is to be done next.
pub struct InitStep {
    pub state: InitState,
    pub action: InitAction<String>,
}

impl<Text: DeepView> DeepView for Probe<Text> {
    type V = Probe<Text::V>;

    open spec fn deep_view(&self) -> Probe<Text::V> {
        match self {
            Probe::Answered => Probe::Answered,
            Probe::Refused => Probe::Refused,
            Probe::Broken { error } => Probe::Broken { error: error.deep_view() },
        }
    }
}

impl<Text: DeepView> DeepView for InitEvent<Text> {
    type V = InitEvent<Text::V>;

    open spec fn deep_view(&self) -> InitEvent<Text::V> {
        match self {
            InitEvent::PortPicked(port) => InitEvent::PortPicked(*port),
            InitEvent::Spawned => InitEvent::Spawned,
            InitEvent::SpawnFailed { error } => InitEvent::SpawnFailed { error: error.deep_view() },
            InitEvent::Probed(probe) => InitEvent::Probed(probe.deep_view()),
            InitEvent::Paused => InitEvent::Paused,
            InitEvent::ProxyStarted => InitEvent::ProxyStarted,
        }
    }
}

impl<Text: DeepView> DeepView for InitError<Text> {
    type V = InitError<Text::V>;

    open spec fn deep_view(&self) -> InitError<Text::V> {
        match self {
            InitError::MissingClient => InitError::MissingClient,
            InitError::NoFreePort => InitError::NoFreePort,
            InitError::NoDevCommand => InitError::NoDevCommand,
            InitError::SpawnFailed { error } => InitError::SpawnFailed { error: error.deep_view() },
            InitError::BadUpstream => InitError::BadUpstream,
            InitError::ConnectFailed { error } => InitError::ConnectFailed {
                error: error.deep_view(),
            },
            InitError::OutOfTurn => InitError::OutOfTurn,
        }
    }
}

impl<Text: DeepView> DeepView for InitAction<Text> {
    type V = InitAction<Text::V>;

    open spec fn deep_view(&self) -> InitAction<Text::V> {
        match self {
            InitAction::Done => InitAction::Done,
            InitAction::PickPort => InitAction::PickPort,
            InitAction::Spawn { command, port, dir } => InitAction::Spawn {
                command: command.deep_view(),
                port: port.deep_view(),
                dir: dir.deep_view(),
            },
            InitAction::Connect => InitAction::Connect,
            InitAction::Pause { millis } => InitAction::Pause { millis: *millis },
            InitAction::Proxy { client, upstream } => InitAction::Proxy {
                client: *client,
                upstream: *upstream,
            },
            InitAction::Fail(error) => InitAction::Fail(error.deep_view()),
        }
    }
}

impl View for FrontendHandler {
    type V = HandlerModel;

    closed spec fn view(&self) -> HandlerModel {
        HandlerModel {
            assets: self.assets,
            spa_fallback: self.spa_fallback,
            project_path: self.project_path@,
            detected_dev_command: self.detected_dev_command.deep_view(),
            client: self.client,
            dev_command: self.dev_command.deep_view(),
            dev_port: self.dev_port,
            index_file: self.index_file.deep_view(),
            dev_process: self.dev_process,
            proxy: self.proxy,
        }
    }
}

/// Whether one embedded directory is another with an index file.
pub open spec fn is_indexed(
    indexed: StaticCompiledHandler,
    plain: StaticCompiledHandler,
    index: Seq<char>,
) -> bool {
    served_root(indexed) == served_root(plain) && served_index(indexed) == Some(index)
}

/// What is to be done with a request next: the embedded files are tried; where none of them was served,
/// their index file, if one was set; where that was not served either, the fallback. Where no files
/// are embedded, the request is forwarded to the dev server, once there is one.
pub open spec fn next_run_action(handler: HandlerModel, event: RunEvent) -> RunAction {
    match event {
        RunEvent::Received => if handler.assets is Some {
            RunAction::RunAssets
        } else if handler.proxy {
            RunAction::Forward
        } else {
            RunAction::Return
        },
        RunEvent::AssetsRan { halted } => if halted {
            RunAction::Return
        } else if handler.assets is Some && handler.index_file is Some {
            RunAction::RunIndex
        } else if handler.spa_fallback is Some {
            RunAction::RunFallback
        } else {
            RunAction::Return
        },
        RunEvent::IndexRan { halted } => if !halted && handler.spa_fallback is Some {
            RunAction::RunFallback
        } else {
            RunAction::Return
        },
        RunEvent::FallbackRan => RunAction::Return,
        RunEvent::Forwarded => RunAction::Return,
    }
}

/// The command that starts the dev server on a port: the one that was set, or the detected one with
/// the port behind it.
pub open spec fn dev_server_command(handler: HandlerModel, port: u16) -> Option<Seq<char>> {
    match handler.dev_command {
        Some(command) => Some(command),
        None => match handler.detected_dev_command {
            Some(command) => Some(command + " --port "@ + decimal_text(port as nat)),
            None => None,
        },
    }
}

/// The address of the dev server.
pub open spec fn upstream_text(port: u16) -> Seq<char> {
    "http://localhost:"@ + decimal_text(port as nat)
}

/// The step that starts the dev server.
pub open spec fn spawn_step(handler: HandlerModel, client: Client, port: u16) -> (
    InitState,
    InitAction<Seq<char>>,
) {
    match dev_server_command(handler, port) {
        Some(command) => (
            InitState::Spawning { client, port },
            InitAction::Spawn {
                command,
                port: decimal_text(port as nat),
                dir: handler.project_path,
            },
        ),
        None => (InitState::Finished, InitAction::Fail(InitError::NoDevCommand)),
    }
}

/// The first step of the start of a handler without embedded files.
pub open spec fn started_step(handler: HandlerModel, dev_proxy: bool) -> (
    InitState,
    InitAction<Seq<char>>,
) {
    if !dev_proxy {
        (InitState::Finished, InitAction::Done)
    } else {
        match (handler.client, handler.dev_port) {
            (None, _) => (InitState::Finished, InitAction::Fail(InitError::MissingClient)),
            (Some(client), Some(port)) => spawn_step(handler, client, port),
            (Some(client), None) => (InitState::PickingPort { client }, InitAction::PickPort),
        }
    }
}

/// The step after a try to reach the dev server.
pub open spec fn probed_step(client: Client, upstream: Url, attempt: u32, probe: Probe<Seq<char>>) -> (
    InitState,
    InitAction<Seq<char>>,
) {
    match probe {
        Probe::Answered => (InitState::StartingProxy, InitAction::Proxy { client, upstream }),
        Probe::Refused => (
            InitState::Pausing { client, upstream, attempt },
            InitAction::Pause { millis: CONNECT_PAUSE },
        ),
        Probe::Broken { error } => (
            InitState::Finished,
            InitAction::Fail(InitError::ConnectFailed { error }),
        ),
    }
}

/// The step after a pause: another try, or after the last one the proxy.
pub open spec fn paused_step(client: Client, upstream: Url, attempt: u32) -> (
    InitState,
    InitAction<Seq<char>>,
) {
    if attempt + 1 < CONNECT_ATTEMPTS {
        (
            InitState::Connecting { client, upstream, attempt: (attempt + 1) as u32 },
            InitAction::Connect,
        )
    } else {
        (InitState::StartingProxy, InitAction::Proxy { client, upstream })
    }
}

/// The step after the first, of the start of the dev server.
pub open spec fn next_init_step(handler: HandlerModel, state: InitState, event: InitEvent<Seq<char>>)
    -> (InitState, InitAction<Seq<char>>) {
    match (state, event) {
        (InitState::PickingPort { client }, InitEvent::PortPicked(port)) => match port {
            Some(port) => spawn_step(handler, client, port),
            None => (InitState::Finished, InitAction::Fail(InitError::NoFreePort)),
        },
        (InitState::Spawning { client, port }, InitEvent::Spawned) => match parsed_url(
            upstream_text(port),
        ) {
            Some(upstream) => (
                InitState::Connecting { client, upstream, attempt: 0 },
                InitAction::Connect,
            ),
            None => (InitState::Finished, InitAction::Fail(InitError::BadUpstream)),
        },
        (InitState::Spawning { client, port }, InitEvent::SpawnFailed { error }) => (
            InitState::Finished,
            InitAction::Fail(InitError::SpawnFailed { error }),
        ),
        (InitState::Connecting { client, upstream, attempt }, InitEvent::Probed(probe)) => probed_step(
            client,
            upstream,
            attempt,
            probe,
        ),
        (InitState::Pausing { client, upstream, attempt }, InitEvent::Paused) => paused_step(
            client,
            upstream,
            attempt,
        ),
        (InitState::StartingProxy, InitEvent::ProxyStarted) => (
            InitState::Finished,
            InitAction::Done,
        ),
        _ => (InitState::Finished, InitAction::Fail(InitError::OutOfTurn)),
    }
}

/// The handler after a step but the first: it has a dev server once that was spawned, and a proxy
/// once that was started.
pub open spec fn handler_after(handler: HandlerModel, state: InitState, event: InitEvent<Seq<char>>)
    -> HandlerModel {
    HandlerModel {
        dev_process: handler.dev_process || (state is Spawning && event is Spawned),
        proxy: handler.proxy || (state is StartingProxy && event is ProxyStarted),
        ..handler
    }
}

/// The address of the dev server on a port, where it is a URL.
pub fn upstream_url(port: u16) -> (upstream: Option<Url>)
    ensures
        upstream == parsed_url(upstream_text(port)),
{
    let text = "http://localhost:".to_owned().concat(decimal(port).as_str());
    parse_url(text.as_str())
}

/// An embedded directory, ready to be served; none where the entry is a file.
pub fn embed_directory(root: DirEntry) -> (assets: Option<StaticCompiledHandler>)
    ensures
        assets is Some <==> !is_embedded_file(root),
        assets matches Some(assets) ==> served_root(assets) == root && served_index(assets) is None,
{
    if root.is_file() {
        None
    } else {
        Some(StaticCompiledHandler::new(root))
    }
}

impl InitStep {
    pub open spec fn model(self) -> (InitState, InitAction<Seq<char>>) {
        (self.state, self.action.deep_view())
    }

    fn fail(error: InitError<String>) -> (step: InitStep)
        ensures
            step.model() == (
                InitState::Finished,
                InitAction::Fail::<Seq<char>>(error.deep_view()),
            ),
    {
        InitStep { state: InitState::Finished, action: InitAction::Fail(error) }
    }

    fn done() -> (step: InitStep)
        ensures
            step.model() == (InitState::Finished, InitAction::<Seq<char>>::Done),
    {
        InitStep { state: InitState::Finished, action: InitAction::Done }
    }
}

/// The step after a try to reach the dev server: it is up if it answers at all, and is tried again
/// after a pause as long as it refuses the connection.
pub fn wait_for_port(client: Client, upstream: Url, attempt: u32, probe: Probe<String>) -> (step:
    InitStep)
    ensures
        step.model() == probed_step(client, upstream, attempt, probe.deep_view()),
{
    match probe {
        Probe::Answered => InitStep {
            state: InitState::StartingProxy,
            action: InitAction::Proxy { client, upstream },
        },
        Probe::Refused => InitStep {
            state: InitState::Pausing { client, upstream, attempt },
            action: InitAction::Pause { millis: CONNECT_PAUSE },
        },
        Probe::Broken { error } => InitStep::fail(InitError::ConnectFailed { error }),
    }
}

impl FrontendHandler {
    /// A handler with nothing configured.
    pub fn new(
        assets: Option<StaticCompiledHandler>,
        spa_fallback: Option<StaticCompiledHandler>,
        project_path: &'static str,
        detected_dev_command: Option<&'static str>,
    ) -> (handler: Self)
        ensures
            handler@ == (HandlerModel {
                assets,
                spa_fallback,
                project_path: project_path@,
                detected_dev_command: detected_dev_command.deep_view(),
                client: None,
                dev_command: None,
                dev_port: None,
                index_file: None,
                dev_process: false,
                proxy: false,
            }),
    {
        FrontendHandler {
            assets,
            spa_fallback,
            project_path,
            detected_dev_command,
            client: None,
            dev_command: None,
            dev_port: None,
            index_file: None,
            dev_process: false,
            proxy: false,
        }
    }

    /// Sets the client to proxy with. It is ignored where nothing is proxied.
    pub fn with_client(self, client: Client) -> (handler: Self)
        ensures
            handler@ == (HandlerModel { client: Some(client), ..self@ }),
    {
        FrontendHandler { client: Some(client), ..self }
    }

    /// Sets the command that starts the dev server, in place of the detected one.
    pub fn with_dev_command(self, command: String) -> (handler: Self)
        ensures
            handler@ == (HandlerModel { dev_command: Some(command@), ..self@ }),
    {
        FrontendHandler { dev_command: Some(command), ..self }
    }

    /// Sets the port of the dev server, in place of a free one.
    pub fn with_dev_port(self, port: u16) -> (handler: Self)
        ensures
            handler@ == (HandlerModel { dev_port: Some(port), ..self@ }),
    {
        FrontendHandler { dev_port: Some(port), ..self }
    }

    /// Sets the embedded file that is served for a directory, and for any path that no embedded file
    /// has.
    pub fn with_index_file(self, index_file: &'static str) -> (handler: Self)
        ensures
            handler@ == (HandlerModel { index_file: Some(index_file@), ..self@ }),
    {
        FrontendHandler { index_file: Some(index_file), ..self }
    }

    /// The embedded files.
    pub fn assets(&self) -> (assets: Option<StaticCompiledHandler>)
        ensures
            assets == self@.assets,
    {
        self.assets
    }

    /// The embedded fallback.
    pub fn spa_fallback(&self) -> (fallback: Option<StaticCompiledHandler>)
        ensures
            fallback == self@.spa_fallback,
    {
        self.spa_fallback
    }

    /// What is to be done with a request next.
    pub fn run(&self, event: RunEvent) -> (action: RunAction)
        ensures
            action == next_run_action(self@, event),
    {
        match event {
            RunEvent::Received => {
                if self.assets.is_some() {
                    RunAction::RunAssets
                } else if self.proxy {
                    RunAction::Forward
                } else {
                    RunAction::Return
                }
            },
            RunEvent::AssetsRan { halted } => {
                if halted {
                    RunAction::Return
                } else if self.assets.is_some() && self.index_file.is_some() {
                    RunAction::RunIndex
                } else if self.spa_fallback.is_some() {
                    RunAction::RunFallback
                } else {
                    RunAction::Return
                }
            },
            RunEvent::IndexRan { halted } => {
                if !halted && self.spa_fallback.is_some() {
                    RunAction::RunFallback
                } else {
                    RunAction::Return
                }
            },
            RunEvent::FallbackRan => RunAction::Return,
            RunEvent::Forwarded => RunAction::Return,
        }
    }

    /// The step that starts the dev server.
    fn spawn(&self, client: Client, port: u16) -> (step: InitStep)
        ensures
            step.model() == spawn_step(self@, client, port),
    {
        let command = match &self.dev_command {
            Some(command) => command.clone(),
            None => match self.detected_dev_command {
                Some(detected) => {
                    detected.to_owned().concat(" --port ").concat(decimal(port).as_str())
                },
                None => {
                    return InitStep::fail(InitError::NoDevCommand);
                },
            },
        };
        InitStep {
            state: InitState::Spawning { client, port },
            action: InitAction::Spawn {
                command,
                port: decimal(port),
                dir: self.project_path.to_owned(),
            },
        }
    }

    /// The first step of the start of the server. Embedded files get their index file, and nothing
    /// else is done; where none are embedded, a dev server is started if one is asked for.
    pub fn start(&mut self, dev_proxy: bool) -> (step: InitStep)
        requires
            old(self)@.assets is Some && old(self)@.index_file is Some ==> !is_embedded_file(
                served_root(old(self)@.assets->0),
            ),
        ensures
            old(self)@.assets matches Some(plain) ==> {
                &&& step.model() == (InitState::Finished, InitAction::<Seq<char>>::Done)
                &&& final(self)@ == (HandlerModel { assets: final(self)@.assets, ..old(self)@ })
                &&& final(self)@.assets is Some
                &&& old(self)@.index_file is None ==> final(self)@.assets == Some(plain)
                &&& old(self)@.index_file matches Some(index) ==> is_indexed(
                    final(self)@.assets->0,
                    plain,
                    index,
                )
            },
            old(self)@.assets is None ==> {
                &&& step.model() == started_step(old(self)@, dev_proxy)
                &&& final(self)@ == if dev_proxy {
                    HandlerModel { client: None, ..old(self)@ }
                } else {
                    old(self)@
                }
            },
    {
        if let Some(plain) = self.assets {
            if let Some(index) = self.index_file {
                self.assets = Some(plain.with_index_file(index));
            }
            return InitStep::done();
        }
        if !dev_proxy {
            return InitStep::done();
        }
        let client = match self.client.take() {
            Some(client) => client,
            None => {
                return InitStep::fail(InitError::MissingClient);
            },
        };
        match self.dev_port {
            Some(port) => self.spawn(client, port),
            None => InitStep {
                state: InitState::PickingPort { client },
                action: InitAction::PickPort,
            },
        }
    }

    /// The next step of the start that has come as far as `state` and is told of `event`.
    pub fn init(&mut self, state: InitState, event: InitEvent<String>) -> (step: InitStep)
        ensures
            step.model() == next_init_step(old(self)@, state, event.deep_view()),
            final(self)@ == handler_after(old(self)@, state, event.deep_view()),
    {
        match (state, event) {
            (InitState::PickingPort { client }, InitEvent::PortPicked(port)) => match port {
                Some(port) => self.spawn(client, port),
                None => InitStep::fail(InitError::NoFreePort),
            },
            (InitState::Spawning { client, port }, InitEvent::Spawned) => {
                self.dev_process = true;
                match upstream_url(port) {
                    Some(upstream) => InitStep {
                        state: InitState::Connecting { client, upstream, attempt: 0 },
                        action: InitAction::Connect,
                    },
                    None => InitStep::fail(InitError::BadUpstream),
                }
            },
            (InitState::Spawning { client, port }, InitEvent::SpawnFailed { error }) => {
                InitStep::fail(InitError::SpawnFailed { error })
            },
            (InitState::Connecting { client, upstream, attempt }, InitEvent::Probed(probe)) => {
                wait_for_port(client, upstream, attempt, probe)
            },
            (InitState::Pausing { client, upstream, attempt }, InitEvent::Paused) => {
                if attempt < CONNECT_ATTEMPTS - 1 {
                    InitStep {
                        state: InitState::Connecting { client, upstream, attempt: attempt + 1 },
                        action: InitAction::Connect,
                    }
                } else {
                    InitStep {
                        state: InitState::StartingProxy,
                        action: InitAction::Proxy { client, upstream },
                    }
                }
            },
            (InitState::StartingProxy, InitEvent::ProxyStarted) => {
                self.proxy = true;
                InitStep::done()
            },
            _ => InitStep::fail(InitError::OutOfTurn),
        }
    }

    /// Whether a connection is to be upgraded, where the proxy, if there is one, says so.
    pub fn has_upgrade(&self, proxy_has_upgrade: bool) -> (yes: bool)
        ensures
            yes == (self@.proxy && proxy_has_upgrade),
    {
        self.proxy && proxy_has_upgrade
    }

    /// Whether the proxy is to upgrade a connection.
    pub fn upgrade(&self) -> (by_proxy: bool)
        ensures
            by_proxy == self@.proxy,
    {
        self.proxy
    }

    /// Ends the handler. Where a dev server runs, it is to be killed, once.
    pub fn drop(&mut self) -> (kill: bool)
        ensures
            kill == old(self)@.dev_process,
            final(self)@ == (HandlerModel { dev_process: false, ..old(self)@ }),
    {
        let kill = self.dev_process;
        self.dev_process = false;
        kill
    }
}

/// Embedded files come first: a handler that has them tries them on every request, and forwards none.
pub proof fn law_embedded_files_come_first(handler: HandlerModel, event: RunEvent)
    requires
        handler.assets is Some,
    ensures
        next_run_action(handler, RunEvent::Received) == RunAction::RunAssets,
        next_run_action(handler, event) != RunAction::Forward,
{
}

/// The index file that was set is served for any path that none of the embedded files has.
pub proof fn law_index_file_serves_what_is_missing(handler: HandlerModel)
    requires
        handler.assets is Some,
        handler.index_file is Some,
    ensures
        next_run_action(handler, RunEvent::AssetsRan { halted: false }) == RunAction::RunIndex,
{
}

/// The fallback is served if and only if there is one and neither an embedded file nor the index file,
/// where one was set, was served; and with any of them the request is done.
pub proof fn law_fallback_serves_what_is_missing(
    handler: HandlerModel,
    assets_halted: bool,
    index_halted: bool,
)
    requires
        handler.assets is Some,
    ensures
        ({
            let after_assets = next_run_action(
                handler,
                RunEvent::AssetsRan { halted: assets_halted },
            );
            let last = if after_assets == RunAction::RunIndex {
                next_run_action(handler, RunEvent::IndexRan { halted: index_halted })
            } else {
                after_assets
            };
            let served = assets_halted || (handler.index_file is Some && index_halted);
            last == if !served && handler.spa_fallback is Some {
                RunAction::RunFallback
            } else {
                RunAction::Return
            }
        }),
        next_run_action(handler, RunEvent::FallbackRan) == RunAction::Return,
{
}

/// Where no dev server is asked for, the client, the dev command and the dev port make no difference.
pub proof fn law_dev_settings_are_ignored(
    handler: HandlerModel,
    client: Option<Client>,
    dev_command: Option<Seq<char>>,
    dev_port: Option<u16>,
    event: RunEvent,
)
    ensures
        ({
            let other = HandlerModel { client, dev_command, dev_port, ..handler };
            &&& started_step(other, false) == started_step(handler, false)
            &&& started_step(handler, false) == (
                InitState::Finished,
                InitAction::<Seq<char>>::Done,
            )
            &&& next_run_action(other, event) == next_run_action(handler, event)
        }),
{
}

/// The step after `rounds` tries that were refused, each followed by a pause.
pub open spec fn after_refusals(
    handler: HandlerModel,
    step: (InitState, InitAction<Seq<char>>),
    rounds: nat,
) -> (InitState, InitAction<Seq<char>>)
    decreases rounds,
{
    if rounds == 0 {
        step
    } else {
        let before = after_refusals(handler, step, (rounds - 1) as nat);
        let pause = next_init_step(handler, before.0, InitEvent::Probed(Probe::Refused));
        next_init_step(handler, pause.0, InitEvent::Paused)
    }
}

/// The dev server is given a second: as long as it refuses connections it is tried again, with a
/// pause of ten milliseconds after each try, and after a hundred tries the proxy is started anyway.
pub proof fn law_dev_server_is_given_a_second(
    handler: HandlerModel,
    client: Client,
    upstream: Url,
    rounds: nat,
)
    requires
        rounds <= CONNECT_ATTEMPTS,
    ensures
        ({
            let first = (
                InitState::Connecting { client, upstream, attempt: 0 },
                InitAction::<Seq<char>>::Connect,
            );
            &&& rounds < CONNECT_ATTEMPTS ==> after_refusals(handler, first, rounds) == (
                InitState::Connecting { client, upstream, attempt: rounds as u32 },
                InitAction::<Seq<char>>::Connect,
            )
            &&& rounds < CONNECT_ATTEMPTS ==> next_init_step(
                handler,
                after_refusals(handler, first, rounds).0,
                InitEvent::Probed(Probe::Refused),
            ).1 == InitAction::<Seq<char>>::Pause { millis: 10 }
            &&& rounds == CONNECT_ATTEMPTS ==> after_refusals(handler, first, rounds) == (
                InitState::StartingProxy,
                InitAction::<Seq<char>>::Proxy { client, upstream },
            )
        }),
        CONNECT_ATTEMPTS * CONNECT_PAUSE == 1000,
    decreases rounds,
{
    if rounds > 0 {
        law_dev_server_is_given_a_second(handler, client, upstream, (rounds - 1) as nat);
    }
}

/// A handler in dev-proxy mode ends up forwarding: with a client, a command, a port, a dev server that
/// can be spawned and answers before the last try, its start takes it from the first step to a proxy
/// to that server, and from then on requests are forwarded.
pub proof fn law_dev_proxy_comes_up(
    handler: HandlerModel,
    client: Client,
    port: u16,
    command: Seq<char>,
    upstream: Url,
    refusals: nat,
)
    requires
        handler.assets is None,
        handler.client == Some(client),
        handler.dev_port is Some ==> handler.dev_port == Some(port),
        dev_server_command(handler, port) == Some(command),
        parsed_url(upstream_text(port)) == Some(upstream),
        refusals < CONNECT_ATTEMPTS,
    ensures
        ({
            let idle = HandlerModel { client: None, ..handler };
            let first = started_step(handler, true);
            let spawn = if handler.dev_port is Some {
                first
            } else {
                next_init_step(idle, first.0, InitEvent::PortPicked(Some(port)))
            };
            let running = handler_after(idle, spawn.0, InitEvent::Spawned);
            let connect = next_init_step(idle, spawn.0, InitEvent::Spawned);
            let last_try = after_refusals(running, connect, refusals);
            let up = next_init_step(running, last_try.0, InitEvent::Probed(Probe::Answered));
            let done = next_init_step(running, up.0, InitEvent::ProxyStarted);
            let proxying = handler_after(running, up.0, InitEvent::ProxyStarted);
            &&& handler.dev_port is None ==> first.1 == InitAction::<Seq<char>>::PickPort
            &&& spawn.1 == InitAction::Spawn {
                command,
                port: decimal_text(port as nat),
                dir: handler.project_path,
            }
            &&& connect.1 == InitAction::<Seq<char>>::Connect
            &&& last_try.1 == InitAction::<Seq<char>>::Connect
            &&& up.1 == InitAction::<Seq<char>>::Proxy { client, upstream }
            &&& done.1 == InitAction::<Seq<char>>::Done
            &&& proxying == (HandlerModel { dev_process: true, proxy: true, ..idle })
            &&& next_run_action(proxying, RunEvent::Received) == RunAction::Forward
        }),
{
    let idle = HandlerModel { client: None, ..handler };
    let spawned = InitState::Spawning { client, port };
    let running = handler_after(idle, spawned, InitEvent::Spawned);
    law_dev_server_is_given_a_second(running, client, upstream, refusals);
}

/// The dev server is started with the command that was set, just as it was set, whatever the port is and
/// however it was come by; only where none was set, with the detected one and the port behind it; and
/// where there is neither, not at all. It is run in the project's directory, with the port in `PORT`.
pub proof fn law_set_command_is_used_as_it_is(handler: HandlerModel, client: Client, port: u16)
    ensures
        ({
            let ready = HandlerModel { client: Some(client), dev_port: Some(port), ..handler };
            let set = started_step(ready, true);
            let picked = next_init_step(
                handler,
                InitState::PickingPort { client },
                InitEvent::PortPicked(Some(port)),
            );
            let numeral = decimal_text(port as nat);
            &&& set == picked
            &&& handler.dev_command matches Some(command) ==> set == (
                InitState::Spawning { client, port },
                InitAction::Spawn { command, port: numeral, dir: handler.project_path },
            )
            &&& handler.dev_command is None ==> (handler.detected_dev_command matches Some(detected)
                ==> set == (
                InitState::Spawning { client, port },
                InitAction::Spawn {
                    command: detected + " --port "@ + numeral,
                    port: numeral,
                    dir: handler.project_path,
                },
            ))
            &&& handler.dev_command is None && handler.detected_dev_command is None ==> set == (
                InitState::Finished,
                InitAction::<Seq<char>>::Fail(InitError::NoDevCommand),
            )
        }),
{
}

/// A start needs a client, and looks for a free port if and only if none was set; without a dev server
/// asked for it needs neither.
pub proof fn law_start_asks_for_what_is_missing(handler: HandlerModel, client: Client)
    ensures
        started_step(handler, false) == (InitState::Finished, InitAction::<Seq<char>>::Done),
        handler.client is None ==> started_step(handler, true) == (
            InitState::Finished,
            InitAction::<Seq<char>>::Fail(InitError::MissingClient),
        ),
        handler.client == Some(client) && handler.dev_port is None ==> started_step(handler, true) == (
            InitState::PickingPort { client },
            InitAction::<Seq<char>>::PickPort,
        ),
        started_step(handler, true).1 is PickPort <==> handler.client is Some && handler.dev_port
            is None,
        next_init_step(handler, InitState::PickingPort { client }, InitEvent::PortPicked(None)) == (
            InitState::Finished,
            InitAction::<Seq<char>>::Fail(InitError::NoFreePort),
        ),
{
}

/// The dev server is reached on its own port of this machine, with the client that was given, and it is
/// that server that is proxied to.
pub proof fn law_dev_server_is_reached_on_its_port(
    handler: HandlerModel,
    client: Client,
    port: u16,
    upstream: Url,
    attempt: u32,
    error: Seq<char>,
)
    ensures
        ({
            let spawning = InitState::Spawning { client, port };
            let connecting = InitState::Connecting { client, upstream, attempt };
            let up = next_init_step(handler, spawning, InitEvent::Spawned);
            let address = parsed_url("http://localhost:"@ + decimal_text(port as nat));
            &&& address matches Some(url) ==> up == (
                InitState::Connecting { client, upstream: url, attempt: 0 },
                InitAction::<Seq<char>>::Connect,
            )
            &&& address is None ==> up == (
                InitState::Finished,
                InitAction::<Seq<char>>::Fail(InitError::BadUpstream),
            )
            &&& next_init_step(handler, spawning, InitEvent::SpawnFailed { error }) == (
                InitState::Finished,
                InitAction::Fail(InitError::SpawnFailed { error }),
            )
            &&& next_init_step(handler, connecting, InitEvent::Probed(Probe::Answered)) == (
                InitState::StartingProxy,
                InitAction::<Seq<char>>::Proxy { client, upstream },
            )
            &&& next_init_step(handler, connecting, InitEvent::Probed(Probe::Broken { error })) == (
                InitState::Finished,
                InitAction::Fail(InitError::ConnectFailed { error }),
            )
            &&& next_init_step(handler, InitState::StartingProxy, InitEvent::ProxyStarted) == (
                InitState::Finished,
                InitAction::<Seq<char>>::Done,
            )
        }),
        CONNECT_ATTEMPTS == 100,
        CONNECT_PAUSE == 10,
{
}

/// A dev server runs from when it was spawned, and requests are forwarded from when the proxy was
/// started; no step changes anything else about the handler, or undoes either.
pub proof fn law_start_changes_nothing_else(
    handler: HandlerModel,
    state: InitState,
    event: InitEvent<Seq<char>>,
)
    ensures
        ({
            let after = handler_after(handler, state, event);
            &&& after.dev_process <==> handler.dev_process || (state is Spawning && event is Spawned)
            &&& after.proxy <==> handler.proxy || (state is StartingProxy && event is ProxyStarted)
            &&& after.assets == handler.assets
            &&& after.spa_fallback == handler.spa_fallback
            &&& after.project_path == handler.project_path
            &&& after.detected_dev_command == handler.detected_dev_command
            &&& after.client == handler.client
            &&& after.dev_command == handler.dev_command
            &&& after.dev_port == handler.dev_port
            &&& after.index_file == handler.index_file
        }),
{
}

/// What does not answer what was asked for ends the start.
pub proof fn law_start_takes_answers_only(
    handler: HandlerModel,
    state: InitState,
    event: InitEvent<Seq<char>>,
)
    requires
        state is PickingPort ==> !(event is PortPicked),
        state is Spawning ==> !(event is Spawned) && !(event is SpawnFailed),
        state is Connecting ==> !(event is Probed),
        state is Pausing ==> !(event is Paused),
        state is StartingProxy ==> !(event is ProxyStarted),
    ensures
        next_init_step(handler, state, event) == (
            InitState::Finished,
            InitAction::<Seq<char>>::Fail(InitError::OutOfTurn),
        ),
{
}

/// Where no files are embedded, a request is forwarded if there is a proxy, and else left as it is; what
/// was forwarded is done.
pub proof fn law_requests_without_files(handler: HandlerModel, halted: bool)
    ensures
        handler.assets is None && handler.proxy ==> next_run_action(handler, RunEvent::Received)
            == RunAction::Forward,
        handler.assets is None && !handler.proxy ==> next_run_action(handler, RunEvent::Received)
            == RunAction::Return,
        next_run_action(handler, RunEvent::Forwarded) == RunAction::Return,
        next_run_action(handler, RunEvent::AssetsRan { halted: true }) == RunAction::Return,
        next_run_action(handler, RunEvent::IndexRan { halted: true }) == RunAction::Return,
        handler.index_file is None ==> next_run_action(handler, RunEvent::AssetsRan { halted })
            != RunAction::RunIndex,
        handler.spa_fallback is None ==> next_run_action(handler, RunEvent::AssetsRan { halted })
            != RunAction::RunFallback,
{
}

/// An embedded directory with an index file serves the same files as without, and that index file.
pub proof fn law_index_file_is_added(
    indexed: StaticCompiledHandler,
    plain: StaticCompiledHandler,
    index: Seq<char>,
)
    ensures
        is_indexed(indexed, plain, index) <==> served_root(indexed) == served_root(plain)
            && served_index(indexed) == Some(index),
{
}

} // verus!
