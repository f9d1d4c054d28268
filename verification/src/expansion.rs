//! What an expansion of the `frontend!` macro knows, asks for and is told.

use vstd::prelude::*;

use crate::args::{ArgError, MacroArgs};
use crate::manifest::Tracking;
use crate::paths::PathStyle;
use crate::sources::Listing;

verus! {

/// Under what circumstances the macro is expanded.
#[derive(Debug, PartialEq, Eq)]
pub struct Settings<Text> {
    /// The platform whose paths are meant.
    pub style: PathStyle,
    /// Whether requests are to be proxied to a dev server.
    pub dev_proxy: bool,
    /// Whether the compiler takes declarations of files that it depends on.
    pub native_tracking: bool,
    /// The directory of the calling crate's manifest.
    pub manifest_dir: Text,
    /// The directory that the calling crate shares with its build script, if it has one.
    pub out_dir: Option<Text>,
    /// The directory for what expansions leave for each other: locks and stamps.
    pub state_dir: Text,
    /// What tells one run of cargo from another. A build is done without only where the same run has
    /// already built.
    pub session: Text,
}

/// A frontend project.
#[derive(Debug, PartialEq, Eq)]
pub struct Project<Text> {
    pub settings: Settings<Text>,
    pub args: MacroArgs<Text>,
    /// The project's directory.
    pub path: Text,
}

/// What is to be done with a project whose sources are there.
#[derive(Debug, PartialEq, Eq)]
pub struct Plan<Text> {
    pub project: Project<Text>,
    /// The command that installs the dependencies.
    pub install: Text,
    /// The command that runs the dev server, up to the port.
    pub dev_command: Option<Text>,
    /// The command that builds the project.
    pub build_command: Option<Text>,
    /// The directory of the build output.
    pub dist_dir: Text,
}

/// The call of `FrontendHandler::new` that the macro expands to.
#[derive(Debug, PartialEq, Eq)]
pub struct HandlerCall<Text> {
    /// The directory whose files are embedded.
    pub assets: Option<Text>,
    /// The file that is embedded to be served in place of any that is missing.
    pub spa_fallback: Option<Text>,
    pub project_path: Text,
    pub dev_command: Option<Text>,
}

/// How a command ended.
#[derive(Debug, PartialEq, Eq)]
pub enum RunOutcome<Text> {
    Succeeded,
    Failed { status: Text },
    NotStarted { error: Text },
}

/// Why an expansion failed.
#[derive(Debug, PartialEq, Eq)]
pub enum ExpandError<Text> {
    Args(ArgError<Text>),
    Unresolved { path: Text, error: Text },
    NoDist { dist_dir: Text },
    InstallNotStarted { command: Text, error: Text },
    InstallFailed { command: Text, status: Text },
    NoBuildCommand,
    BuildNotStarted { command: Text, error: Text },
    BuildFailed { command: Text, status: Text },
    /// What was reported does not answer what was asked for.
    OutOfTurn,
}

/// Where an expansion stands: what it has found out, and what it is waiting for.
#[derive(Debug, PartialEq, Eq)]
pub enum ExpandState<Text, Bytes, Paths> {
    Resolving { settings: Settings<Text>, args: MacroArgs<Text> },
    SeekingSource { project: Project<Text> },
    SeekingDist { project: Project<Text>, dist_dir: Text },
    Probing { project: Project<Text> },
    Locking { plan: Plan<Text> },
    SeekingModules { plan: Plan<Text> },
    Installing { plan: Plan<Text> },
    Scanning { plan: Plan<Text>, command: Text },
    Forgetting { plan: Plan<Text>, command: Text, input: Bytes },
    Building { plan: Plan<Text>, command: Text, input: Bytes },
    Rescanning { plan: Plan<Text>, input: Bytes },
    Recording { plan: Plan<Text>, tracking: Tracking<Text, Paths> },
    Tracking { plan: Plan<Text> },
    SeekingIndex { project_path: Text, dist_dir: Text, style: PathStyle },
    Finished,
}

/// What an action brought.
#[derive(Debug)]
pub enum ExpandEvent<Text, Bytes, Names> {
    /// The path without symbolic links.
    Canonical(Text),
    /// There is no such path.
    Unresolved(Text),
    /// Whether the path exists.
    Exists(bool),
    /// Those of the names that exist in the directory.
    Present(Names),
    /// How the command ended.
    Ran(RunOutcome<Text>),
    /// What is in the project, in the output directory and in the stamp.
    Scanned { sources: Listing, output: Listing, recorded: Option<Bytes> },
    Done,
}

/// What is to be done next.
#[derive(Debug, PartialEq, Eq)]
pub enum ExpandAction<Text, Bytes, Paths> {
    /// Follow the symbolic links in a path.
    Canonicalize(Text),
    /// See whether a path exists.
    CheckExists(Text),
    /// See which of the files that tell of package managers and frameworks exist in a directory.
    Probe(Text),
    /// Wait until no other expansion holds this lock, and hold it to the end of this one.
    Lock(Text),
    /// Run a command in a directory.
    Run { command: Text, dir: Text },
    /// Read a project's directory, its output directory and its stamp.
    Scan { project_path: Text, dist_dir: Text, stamp_path: Text },
    /// Remove a stamp.
    Forget(Text),
    /// Write a stamp.
    Record { path: Text, stamp: Bytes },
    /// Make sources known to cargo.
    Track(Tracking<Text, Paths>),
    /// Expand to this call.
    Emit(HandlerCall<Text>),
    /// Give up.
    Fail(ExpandError<Text>),
}

/// An expansion's state as the program holds it, and as contracts speak of it.
pub type State = ExpandState<String, Vec<u8>, Vec<Vec<u8>>>;

pub type StateModel = ExpandState<Seq<char>, Seq<u8>, Seq<Seq<u8>>>;

/// An event as the program holds it, and as contracts speak of it.
pub type Event = ExpandEvent<String, Vec<u8>, Vec<String>>;

pub type EventModel = ExpandEvent<Seq<char>, Seq<u8>, Seq<Seq<char>>>;

/// An action as the program holds it, and as contracts speak of it.
pub type Action = ExpandAction<String, Vec<u8>, Vec<Vec<u8>>>;

pub type ActionModel = ExpandAction<Seq<char>, Seq<u8>, Seq<Seq<u8>>>;

impl<Text: DeepView> DeepView for Settings<Text> {
    type V = Settings<Text::V>;

    open spec fn deep_view(&self) -> Settings<Text::V> {
        Settings {
            style: self.style,
            dev_proxy: self.dev_proxy,
            native_tracking: self.native_tracking,
            manifest_dir: self.manifest_dir.deep_view(),
            out_dir: self.out_dir.deep_view(),
            state_dir: self.state_dir.deep_view(),
            session: self.session.deep_view(),
        }
    }
}

impl<Text: DeepView> DeepView for Project<Text> {
    type V = Project<Text::V>;

    open spec fn deep_view(&self) -> Project<Text::V> {
        Project {
            settings: self.settings.deep_view(),
            args: self.args.deep_view(),
            path: self.path.deep_view(),
        }
    }
}

impl<Text: DeepView> DeepView for Plan<Text> {
    type V = Plan<Text::V>;

    open spec fn deep_view(&self) -> Plan<Text::V> {
        Plan {
            project: self.project.deep_view(),
            install: self.install.deep_view(),
            dev_command: self.dev_command.deep_view(),
            build_command: self.build_command.deep_view(),
            dist_dir: self.dist_dir.deep_view(),
        }
    }
}

impl<Text: DeepView> DeepView for HandlerCall<Text> {
    type V = HandlerCall<Text::V>;

    open spec fn deep_view(&self) -> HandlerCall<Text::V> {
        HandlerCall {
            assets: self.assets.deep_view(),
            spa_fallback: self.spa_fallback.deep_view(),
            project_path: self.project_path.deep_view(),
            dev_command: self.dev_command.deep_view(),
        }
    }
}

impl<Text: DeepView> DeepView for RunOutcome<Text> {
    type V = RunOutcome<Text::V>;

    open spec fn deep_view(&self) -> RunOutcome<Text::V> {
        match self {
            RunOutcome::Succeeded => RunOutcome::Succeeded,
            RunOutcome::Failed { status } => RunOutcome::Failed { status: status.deep_view() },
            RunOutcome::NotStarted { error } => RunOutcome::NotStarted { error: error.deep_view() },
        }
    }
}

impl<Text: DeepView> DeepView for ExpandError<Text> {
    type V = ExpandError<Text::V>;

    open spec fn deep_view(&self) -> ExpandError<Text::V> {
        match self {
            ExpandError::Args(error) => ExpandError::Args(error.deep_view()),
            ExpandError::Unresolved { path, error } => ExpandError::Unresolved {
                path: path.deep_view(),
                error: error.deep_view(),
            },
            ExpandError::NoDist { dist_dir } => ExpandError::NoDist { dist_dir: dist_dir.deep_view() },
            ExpandError::InstallNotStarted { command, error } => ExpandError::InstallNotStarted {
                command: command.deep_view(),
                error: error.deep_view(),
            },
            ExpandError::InstallFailed { command, status } => ExpandError::InstallFailed {
                command: command.deep_view(),
                status: status.deep_view(),
            },
            ExpandError::NoBuildCommand => ExpandError::NoBuildCommand,
            ExpandError::BuildNotStarted { command, error } => ExpandError::BuildNotStarted {
                command: command.deep_view(),
                error: error.deep_view(),
            },
            ExpandError::BuildFailed { command, status } => ExpandError::BuildFailed {
                command: command.deep_view(),
                status: status.deep_view(),
            },
            ExpandError::OutOfTurn => ExpandError::OutOfTurn,
        }
    }
}

impl DeepView for State {
    type V = StateModel;

    open spec fn deep_view(&self) -> StateModel {
        match self {
            ExpandState::Resolving { settings, args } => ExpandState::Resolving {
                settings: settings.deep_view(),
                args: args.deep_view(),
            },
            ExpandState::SeekingSource { project } => ExpandState::SeekingSource { project: project.deep_view() },
            ExpandState::SeekingDist { project, dist_dir } => ExpandState::SeekingDist {
                project: project.deep_view(),
                dist_dir: dist_dir.deep_view(),
            },
            ExpandState::Probing { project } => ExpandState::Probing { project: project.deep_view() },
            ExpandState::Locking { plan } => ExpandState::Locking { plan: plan.deep_view() },
            ExpandState::SeekingModules { plan } => ExpandState::SeekingModules { plan: plan.deep_view() },
            ExpandState::Installing { plan } => ExpandState::Installing { plan: plan.deep_view() },
            ExpandState::Scanning { plan, command } => ExpandState::Scanning {
                plan: plan.deep_view(),
                command: command.deep_view(),
            },
            ExpandState::Forgetting { plan, command, input } => ExpandState::Forgetting {
                plan: plan.deep_view(),
                command: command.deep_view(),
                input: input@,
            },
            ExpandState::Building { plan, command, input } => ExpandState::Building {
                plan: plan.deep_view(),
                command: command.deep_view(),
                input: input@,
            },
            ExpandState::Rescanning { plan, input } => ExpandState::Rescanning {
                plan: plan.deep_view(),
                input: input@,
            },
            ExpandState::Recording { plan, tracking } => ExpandState::Recording {
                plan: plan.deep_view(),
                tracking: tracking.deep_view(),
            },
            ExpandState::Tracking { plan } => ExpandState::Tracking { plan: plan.deep_view() },
            ExpandState::SeekingIndex { project_path, dist_dir, style } => ExpandState::SeekingIndex {
                project_path: project_path.deep_view(),
                dist_dir: dist_dir.deep_view(),
                style: *style,
            },
            ExpandState::Finished => ExpandState::Finished,
        }
    }
}

impl DeepView for Event {
    type V = EventModel;

    open spec fn deep_view(&self) -> EventModel {
        match self {
            ExpandEvent::Canonical(path) => ExpandEvent::Canonical(path.deep_view()),
            ExpandEvent::Unresolved(error) => ExpandEvent::Unresolved(error.deep_view()),
            ExpandEvent::Exists(exists) => ExpandEvent::Exists(*exists),
            ExpandEvent::Present(names) => ExpandEvent::Present(names.deep_view()),
            ExpandEvent::Ran(outcome) => ExpandEvent::Ran(outcome.deep_view()),
            ExpandEvent::Scanned { sources, output, recorded } => ExpandEvent::Scanned {
                sources: *sources,
                output: *output,
                recorded: stamp_view(*recorded),
            },
            ExpandEvent::Done => ExpandEvent::Done,
        }
    }
}

impl DeepView for Action {
    type V = ActionModel;

    open spec fn deep_view(&self) -> ActionModel {
        match self {
            ExpandAction::Canonicalize(path) => ExpandAction::Canonicalize(path.deep_view()),
            ExpandAction::CheckExists(path) => ExpandAction::CheckExists(path.deep_view()),
            ExpandAction::Probe(dir) => ExpandAction::Probe(dir.deep_view()),
            ExpandAction::Lock(path) => ExpandAction::Lock(path.deep_view()),
            ExpandAction::Run { command, dir } => ExpandAction::Run {
                command: command.deep_view(),
                dir: dir.deep_view(),
            },
            ExpandAction::Scan { project_path, dist_dir, stamp_path } => ExpandAction::Scan {
                project_path: project_path.deep_view(),
                dist_dir: dist_dir.deep_view(),
                stamp_path: stamp_path.deep_view(),
            },
            ExpandAction::Forget(path) => ExpandAction::Forget(path.deep_view()),
            ExpandAction::Record { path, stamp } => ExpandAction::Record {
                path: path.deep_view(),
                stamp: stamp@,
            },
            ExpandAction::Track(tracking) => ExpandAction::Track(tracking.deep_view()),
            ExpandAction::Emit(call) => ExpandAction::Emit(call.deep_view()),
            ExpandAction::Fail(error) => ExpandAction::Fail(error.deep_view()),
        }
    }
}

/// A stamp as a byte sequence.
pub open spec fn stamp_view(stamp: Option<Vec<u8>>) -> Option<Seq<u8>> {
    match stamp {
        Some(stamp) => Some(stamp@),
        None => None,
    }
}

/// What contracts speak of leaves nothing out, and takes each thing for itself.
pub proof fn law_views_are_faithful(
    settings: Settings<String>,
    project: Project<String>,
    plan: Plan<String>,
    call: HandlerCall<String>,
)
    ensures
        ({
            let model = settings.deep_view();
            &&& model.style == settings.style
            &&& model.dev_proxy == settings.dev_proxy
            &&& model.native_tracking == settings.native_tracking
            &&& model.manifest_dir == settings.manifest_dir@
            &&& model.out_dir == settings.out_dir.deep_view()
            &&& model.state_dir == settings.state_dir@
            &&& model.session == settings.session@
        }),
        ({
            let model = project.deep_view();
            &&& model.settings == project.settings.deep_view()
            &&& model.path == project.path@
            &&& model.args.path == project.args.path@
            &&& model.args.build == project.args.build.deep_view()
            &&& model.args.dist == project.args.dist.deep_view()
        }),
        ({
            let model = plan.deep_view();
            &&& model.project == plan.project.deep_view()
            &&& model.install == plan.install@
            &&& model.dev_command == plan.dev_command.deep_view()
            &&& model.build_command == plan.build_command.deep_view()
            &&& model.dist_dir == plan.dist_dir@
        }),
        ({
            let model = call.deep_view();
            &&& model.assets == call.assets.deep_view()
            &&& model.spa_fallback == call.spa_fallback.deep_view()
            &&& model.project_path == call.project_path@
            &&& model.dev_command == call.dev_command.deep_view()
        }),
{
}

/// What a command is said to have done is what it did.
pub proof fn law_outcomes_are_faithful(outcome: RunOutcome<String>)
    ensures
        outcome is Succeeded <==> outcome.deep_view() is Succeeded,
        outcome matches RunOutcome::Failed { status } ==> outcome.deep_view() == (RunOutcome::Failed {
            status: status@,
        }),
        outcome matches RunOutcome::NotStarted { error } ==> outcome.deep_view() == (
        RunOutcome::NotStarted { error: error@ }),
{
}

} // verus!
