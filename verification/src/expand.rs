//! The expansion of the `frontend!` macro: from the macro's arguments and the state of the frontend
//! project to a call of `FrontendHandler::new`.
//!
//! The expansion alternates between looking at or changing the outside world and deciding what to do
//! next. The deciding is done here: `frontend_impl` takes where the expansion stands and what the
//! last action brought, and gives the next action.

use proc_macro2::TokenStream;
use vstd::prelude::*;
#[allow(unused_imports)]
use vstd::utf8::encode_utf8;

use crate::args::{parse_args, ArgError, MacroArgs};
#[allow(unused_imports)]
use crate::args::macro_args;
use crate::detect::detect;
#[allow(unused_imports)]
use crate::detect::{
    build_command_of, config_file_owner, dev_command_of, dist_dir_of, holds_config_of,
    install_command_or_default, law_configuration_is_named_after_its_tool,
    law_output_directories_in_full, lock_file_owner,
};
use crate::expansion::{
    Action, Event, ExpandAction, ExpandError, ExpandEvent, ExpandState, HandlerCall, Plan, Project,
    RunOutcome, Settings, State,
};
#[allow(unused_imports)]
use crate::expansion::{ActionModel, EventModel, StateModel};
use crate::manifest::{find_sources, hash_project, track_sources, Tracking};
#[allow(unused_imports)]
use crate::manifest::{
    law_declarations_and_manifest_are_independent, manifest_text, project_key, project_sources,
    tracking_of,
};
#[allow(unused_imports)]
use crate::outside::stream_tokens;
use crate::paths::{join, resolve_path, PathStyle};
#[allow(unused_imports)]
use crate::paths::joined;
use crate::sources::Listing;
#[allow(unused_imports)]
use crate::sources::{collected, Source};
use crate::stamp::{needs_build, stamp_build, stamp_input};
#[allow(unused_imports)]
use crate::stamp::{build_stamp, input_stamp, is_stale, sources_record};
use crate::text::hex_digits;
#[allow(unused_imports)]
use crate::text::{hex_text, outcome_view};

verus! {

/// The first of two values that is there.
pub open spec fn first_of<T>(one: Option<T>, other: Option<T>) -> Option<T> {
    match one {
        Some(value) => Some(value),
        None => other,
    }
}

/// The value that is there, or the default.
pub open spec fn or_default<T>(value: Option<T>, default: T) -> T {
    match value {
        Some(value) => value,
        None => default,
    }
}

/// The path of a file that stands for a project in the state directory.
pub open spec fn state_file(project: Project<Seq<char>>, suffix: Seq<char>) -> Seq<char> {
    joined(
        project.settings.state_dir,
        "trillium-frontend-"@ + hex_text(project_key(project.path) as nat, 16) + suffix,
        project.settings.style,
    )
}

/// The output directory of a project whose sources are not there.
pub open spec fn prebuilt_dist(project: Project<Seq<char>>) -> Seq<char> {
    joined(project.path, or_default(project.args.dist, "dist"@), project.settings.style)
}

/// What is to be done with a project in whose directory the files named in `present` exist: as the
/// macro's arguments say, and where they do not, as the files tell.
pub open spec fn plan_for(project: Project<Seq<char>>, present: Seq<Seq<char>>) -> Plan<Seq<char>> {
    let manager = lock_file_owner(present);
    let framework = config_file_owner(present);
    Plan {
        project,
        install: install_command_or_default(manager),
        dev_command: dev_command_of(manager, framework),
        build_command: first_of(project.args.build, build_command_of(manager, framework)),
        dist_dir: joined(
            project.path,
            or_default(first_of(project.args.dist, dist_dir_of(framework)), "dist"@),
            project.settings.style,
        ),
    }
}

/// The call that embeds an output directory, and its index file as the fallback where it is there.
pub open spec fn embedding_call(
    project_path: Seq<char>,
    dist_dir: Seq<char>,
    index_exists: bool,
    style: PathStyle,
) -> HandlerCall<Seq<char>> {
    HandlerCall {
        assets: Some(dist_dir),
        spa_fallback: if index_exists {
            Some(joined(dist_dir, "index.html"@, style))
        } else {
            None
        },
        project_path,
        dev_command: None,
    }
}

/// The call that proxies to the project's dev server.
pub open spec fn proxying_call(plan: Plan<Seq<char>>) -> HandlerCall<Seq<char>> {
    HandlerCall {
        assets: None,
        spa_fallback: None,
        project_path: plan.project.path,
        dev_command: plan.dev_command,
    }
}

/// What is read to see whether a build is due, and after a build.
pub open spec fn scan_of(plan: Plan<Seq<char>>) -> ActionModel {
    ExpandAction::Scan {
        project_path: plan.project.path,
        dist_dir: plan.dist_dir,
        stamp_path: state_file(plan.project, ".stamp"@),
    }
}

/// The part of a plan's stamp that is known before the build.
#[verifier::opaque]
pub open spec fn input_of(plan: Plan<Seq<char>>, command: Seq<char>, sources: Listing) -> Seq<u8> {
    input_stamp(
        plan.project.settings.session,
        command,
        plan.dist_dir,
        project_sources(plan.project.path, plan.dist_dir, sources, plan.project.settings.style),
    )
}

/// The stamp of a build with this input and output.
#[verifier::opaque]
pub open spec fn stamp_of(plan: Plan<Seq<char>>, input: Seq<u8>, output: Listing) -> Seq<u8> {
    input + sources_record(project_sources(plan.dist_dir, ""@, output, plan.project.settings.style))
}

/// Whether a plan's build is due.
pub open spec fn build_is_due(
    plan: Plan<Seq<char>>,
    command: Seq<char>,
    sources: Listing,
    output: Listing,
    recorded: Option<Seq<u8>>,
) -> bool {
    is_stale(
        recorded,
        stamp_of(plan, input_of(plan, command, sources), output),
        output is Read,
    )
}

/// What makes a plan's sources known to cargo.
pub open spec fn plan_tracking(plan: Plan<Seq<char>>, sources: Listing) -> Tracking<
    Seq<char>,
    Seq<Seq<u8>>,
> {
    tracking_of(
        plan.project.path,
        plan.dist_dir,
        sources,
        plan.project.settings.out_dir,
        plan.project.settings.native_tracking,
        plan.project.settings.style,
    )
}

/// The end of an expansion that failed.
pub open spec fn failed(error: ExpandError<Seq<char>>) -> (StateModel, ActionModel) {
    (ExpandState::Finished, ExpandAction::Fail(error))
}

/// The first step of an expansion: an absolute or relative path becomes a directory.
pub open spec fn first_step(
    args: Result<MacroArgs<Seq<char>>, ArgError<Seq<char>>>,
    settings: Settings<Seq<char>>,
) -> (StateModel, ActionModel) {
    match args {
        Ok(args) => (
            ExpandState::Resolving { settings, args },
            ExpandAction::Canonicalize(joined(settings.manifest_dir, args.path, settings.style)),
        ),
        Err(error) => failed(ExpandError::Args(error)),
    }
}

/// The step after the dependencies are there: a dev server needs no more, a build is looked into.
pub open spec fn prepared_step(plan: Plan<Seq<char>>) -> (StateModel, ActionModel) {
    if plan.project.settings.dev_proxy {
        (ExpandState::Finished, ExpandAction::Emit(proxying_call(plan)))
    } else {
        match plan.build_command {
            Some(command) => (ExpandState::Scanning { plan, command }, scan_of(plan)),
            None => failed(ExpandError::NoBuildCommand),
        }
    }
}

/// The step that sees to the dependencies: they are installed where they are not there yet.
pub open spec fn install_step(plan: Plan<Seq<char>>, modules_exist: bool) -> (StateModel, ActionModel) {
    if modules_exist {
        prepared_step(plan)
    } else {
        (
            ExpandState::Installing { plan },
            ExpandAction::Run { command: plan.install, dir: plan.project.path },
        )
    }
}

/// The step after a command ended: `next` where it succeeded.
pub open spec fn ran_step(
    outcome: RunOutcome<Seq<char>>,
    next: (StateModel, ActionModel),
    failure: spec_fn(Seq<char>) -> ExpandError<Seq<char>>,
    not_started: spec_fn(Seq<char>) -> ExpandError<Seq<char>>,
) -> (StateModel, ActionModel) {
    match outcome {
        RunOutcome::Succeeded => next,
        RunOutcome::Failed { status } => failed(failure(status)),
        RunOutcome::NotStarted { error } => failed(not_started(error)),
    }
}

/// The step that sees whether the output directory has an index file.
pub open spec fn index_step(
    project_path: Seq<char>,
    dist_dir: Seq<char>,
    style: PathStyle,
) -> (StateModel, ActionModel) {
    (
        ExpandState::SeekingIndex { project_path, dist_dir, style },
        ExpandAction::CheckExists(joined(dist_dir, "index.html"@, style)),
    )
}

/// The step that an expansion takes when it is told of `event`.
pub open spec fn next_step(
    state: StateModel,
    event: EventModel,
) -> (StateModel, ActionModel) {
    match (state, event) {
        (ExpandState::Resolving { settings, args }, ExpandEvent::Canonical(path)) => (
            ExpandState::SeekingSource { project: Project { settings, args, path } },
            ExpandAction::CheckExists(joined(path, "package.json"@, settings.style)),
        ),
        (ExpandState::Resolving { settings, args }, ExpandEvent::Unresolved(error)) => failed(
            ExpandError::Unresolved { path: args.path, error },
        ),
        (ExpandState::SeekingSource { project }, ExpandEvent::Exists(exists)) => if exists {
            (ExpandState::Probing { project }, ExpandAction::Probe(project.path))
        } else {
            (
                ExpandState::SeekingDist { project, dist_dir: prebuilt_dist(project) },
                ExpandAction::CheckExists(prebuilt_dist(project)),
            )
        },
        (ExpandState::SeekingDist { project, dist_dir }, ExpandEvent::Exists(exists)) => if exists {
            index_step(project.path, dist_dir, project.settings.style)
        } else {
            failed(ExpandError::NoDist { dist_dir })
        },
        (ExpandState::Probing { project }, ExpandEvent::Present(present)) => (
            ExpandState::Locking { plan: plan_for(project, present) },
            ExpandAction::Lock(state_file(project, ".lock"@)),
        ),
        (ExpandState::Locking { plan }, ExpandEvent::Done) => (
            ExpandState::SeekingModules { plan },
            ExpandAction::CheckExists(joined(
                plan.project.path,
                "node_modules"@,
                plan.project.settings.style,
            )),
        ),
        (ExpandState::SeekingModules { plan }, ExpandEvent::Exists(exists)) => install_step(
            plan,
            exists,
        ),
        (ExpandState::Installing { plan }, ExpandEvent::Ran(outcome)) => ran_step(
            outcome,
            prepared_step(plan),
            |status: Seq<char>| ExpandError::InstallFailed { command: plan.install, status },
            |error: Seq<char>| ExpandError::InstallNotStarted { command: plan.install, error },
        ),
        (
            ExpandState::Scanning { plan, command },
            ExpandEvent::Scanned { sources, output, recorded },
        ) => if build_is_due(plan, command, sources, output, recorded) {
            (
                ExpandState::Forgetting { plan, command, input: input_of(plan, command, sources) },
                ExpandAction::Forget(state_file(plan.project, ".stamp"@)),
            )
        } else {
            (ExpandState::Tracking { plan }, ExpandAction::Track(plan_tracking(plan, sources)))
        },
        (ExpandState::Forgetting { plan, command, input }, ExpandEvent::Done) => (
            ExpandState::Building { plan, command, input },
            ExpandAction::Run { command, dir: plan.project.path },
        ),
        (ExpandState::Building { plan, command, input }, ExpandEvent::Ran(outcome)) => ran_step(
            outcome,
            (ExpandState::Rescanning { plan, input }, scan_of(plan)),
            |status: Seq<char>| ExpandError::BuildFailed { command, status },
            |error: Seq<char>| ExpandError::BuildNotStarted { command, error },
        ),
        (
            ExpandState::Rescanning { plan, input },
            ExpandEvent::Scanned { sources, output, recorded },
        ) => (
            ExpandState::Recording { plan, tracking: plan_tracking(plan, sources) },
            ExpandAction::Record {
                path: state_file(plan.project, ".stamp"@),
                stamp: stamp_of(plan, input, output),
            },
        ),
        (ExpandState::Recording { plan, tracking }, ExpandEvent::Done) => (
            ExpandState::Tracking { plan },
            ExpandAction::Track(tracking),
        ),
        (ExpandState::Tracking { plan }, ExpandEvent::Done) => index_step(
            plan.project.path,
            plan.dist_dir,
            plan.project.settings.style,
        ),
        (ExpandState::SeekingIndex { project_path, dist_dir, style }, ExpandEvent::Exists(exists)) => (
            ExpandState::Finished,
            ExpandAction::Emit(embedding_call(project_path, dist_dir, exists, style)),
        ),
        _ => failed(ExpandError::OutOfTurn),
    }
}

/// Where an expansion stands, and what it does next.
pub struct Step {
    pub state: State,
    pub action: Action,
}

impl Step {
    pub open spec fn model(self) -> (StateModel, ActionModel) {
        (self.state.deep_view(), self.action.deep_view())
    }

    fn fail(error: ExpandError<String>) -> (step: Step)
        ensures
            step.model() == failed(error.deep_view()),
    {
        Step { state: ExpandState::Finished, action: ExpandAction::Fail(error) }
    }

    fn seek_index(project_path: String, dist_dir: String, style: PathStyle) -> (step: Step)
        ensures
            step.model() == index_step(project_path@, dist_dir@, style),
    {
        let index = join(dist_dir.as_str(), "index.html", style);
        Step {
            state: ExpandState::SeekingIndex { project_path, dist_dir, style },
            action: ExpandAction::CheckExists(index),
        }
    }
}

impl Project<String> {
    /// The path of a file that stands for the project in the state directory.
    fn state_path(&self, suffix: &str) -> (path: String)
        ensures
            path@ == state_file(self.deep_view(), suffix@),
    {
        let digits = hex_digits(hash_project(self.path.as_str()), 16);
        let name = "trillium-frontend-".to_owned().concat(digits.as_str()).concat(suffix);
        join(self.settings.state_dir.as_str(), name.as_str(), self.settings.style)
    }

    /// What is to be done with the project.
    fn plan(self, present: &Vec<String>) -> (plan: Plan<String>)
        ensures
            plan.deep_view() == plan_for(self.deep_view(), present.deep_view()),
    {
        let detection = detect(present);
        let install = detection.install_command().to_owned();
        let dev_command = detection.full_dev_command();
        let build_command = match &self.args.build {
            Some(command) => Some(command.clone()),
            None => detection.full_build_command(),
        };
        let dist_dir = match &self.args.dist {
            Some(dist) => join(self.path.as_str(), dist.as_str(), self.settings.style),
            None => match &detection.dist {
                Some(dist) => join(self.path.as_str(), dist.as_str(), self.settings.style),
                None => join(self.path.as_str(), "dist", self.settings.style),
            },
        };
        Plan { project: self, install, dev_command, build_command, dist_dir }
    }
}

impl Plan<String> {
    fn scan(&self) -> (action: Action)
        ensures
            action.deep_view() == scan_of(self.deep_view()),
    {
        ExpandAction::Scan {
            project_path: self.project.path.clone(),
            dist_dir: self.dist_dir.clone(),
            stamp_path: self.project.state_path(".stamp"),
        }
    }

    fn input(&self, command: &str, sources: &Listing) -> (input: Vec<u8>)
        ensures
            input@ == input_of(self.deep_view(), command@, *sources),
    {
        proof {
            reveal(input_of);
        }
        let found = find_sources(
            self.project.path.as_str(),
            self.dist_dir.as_str(),
            sources,
            self.project.settings.style,
        );
        stamp_input(
            self.project.settings.session.as_str(),
            command,
            self.dist_dir.as_str(),
            &found,
        )
    }

    fn stamp(&self, input: &Vec<u8>, output: &Listing) -> (stamp: Vec<u8>)
        ensures
            stamp@ == stamp_of(self.deep_view(), input@, *output),
    {
        proof {
            reveal(stamp_of);
        }
        let found = find_sources(self.dist_dir.as_str(), "", output, self.project.settings.style);
        stamp_build(input, &found)
    }

    fn tracking(&self, sources: &Listing) -> (tracking: Tracking<String, Vec<Vec<u8>>>)
        ensures
            tracking.deep_view() == plan_tracking(self.deep_view(), *sources),
    {
        track_sources(
            self.project.path.as_str(),
            self.dist_dir.as_str(),
            sources,
            &self.project.settings.out_dir,
            self.project.settings.native_tracking,
            self.project.settings.style,
        )
    }

    /// The step after the dependencies are there.
    fn prepared(self) -> (step: Step)
        ensures
            step.model() == prepared_step(self.deep_view()),
    {
        if self.project.settings.dev_proxy {
            let call = HandlerCall {
                assets: None,
                spa_fallback: None,
                project_path: self.project.path,
                dev_command: self.dev_command,
            };
            return Step { state: ExpandState::Finished, action: ExpandAction::Emit(call) };
        }
        match self.build_command.clone() {
            Some(command) => {
                let action = self.scan();
                Step { state: ExpandState::Scanning { plan: self, command }, action }
            },
            None => Step::fail(ExpandError::NoBuildCommand),
        }
    }
}

/// The step that sees to the dependencies: they are installed where `node_modules` does not exist.
pub fn install_if_needed(plan: Plan<String>, modules_exist: bool) -> (step: Step)
    ensures
        step.model() == install_step(plan.deep_view(), modules_exist),
{
    if modules_exist {
        return plan.prepared();
    }
    let command = plan.install.clone();
    let dir = plan.project.path.clone();
    Step { state: ExpandState::Installing { plan }, action: ExpandAction::Run { command, dir } }
}

/// The call that embeds an output directory, and its index file as the fallback where it is there.
pub fn emit_prebuilt(
    project_path: String,
    dist_dir: String,
    index_exists: bool,
    style: PathStyle,
) -> (call: HandlerCall<
    String,
>)
    ensures
        call.deep_view() == embedding_call(project_path@, dist_dir@, index_exists, style),
{
    let spa_fallback = if index_exists {
        Some(join(dist_dir.as_str(), "index.html", style))
    } else {
        None
    };
    HandlerCall { assets: Some(dist_dir), spa_fallback, project_path, dev_command: None }
}

/// The first step of an expansion with these arguments.
pub fn begin_with(
    args: Result<MacroArgs<String>, ArgError<String>>,
    settings: Settings<String>,
) -> (step: Step)
    ensures
        step.model() == first_step(outcome_view(args), settings.deep_view()),
{
    match args {
        Ok(args) => {
            let base = resolve_path(
                args.path.as_str(),
                settings.manifest_dir.as_str(),
                settings.style,
            );
            Step {
                state: ExpandState::Resolving { settings, args },
                action: ExpandAction::Canonicalize(base),
            }
        },
        Err(error) => Step::fail(ExpandError::Args(error)),
    }
}

/// The first step of an expansion of the macro with this input.
pub fn begin(input: TokenStream, settings: Settings<String>) -> (step: Step)
    ensures
        step.model() == first_step(macro_args(stream_tokens(input)), settings.deep_view()),
{
    begin_with(parse_args(input), settings)
}

/// The next step of an expansion that stands at `state` and is told of `event`.
pub fn frontend_impl(
    state: State,
    event: Event,
) -> (step: Step)
    ensures
        step.model() == next_step(state.deep_view(), event.deep_view()),
{
    match (state, event) {
        (ExpandState::Resolving { settings, args }, ExpandEvent::Canonical(path)) => {
            let package = join(path.as_str(), "package.json", settings.style);
            Step {
                state: ExpandState::SeekingSource { project: Project { settings, args, path } },
                action: ExpandAction::CheckExists(package),
            }
        },
        (ExpandState::Resolving { settings, args }, ExpandEvent::Unresolved(error)) => {
            Step::fail(ExpandError::Unresolved { path: args.path, error })
        },
        (ExpandState::SeekingSource { project }, ExpandEvent::Exists(exists)) => {
            if exists {
                let dir = project.path.clone();
                return Step {
                    state: ExpandState::Probing { project },
                    action: ExpandAction::Probe(dir),
                };
            }
            let dist_dir = match &project.args.dist {
                Some(dist) => join(project.path.as_str(), dist.as_str(), project.settings.style),
                None => join(project.path.as_str(), "dist", project.settings.style),
            };
            Step {
                state: ExpandState::SeekingDist { project, dist_dir: dist_dir.clone() },
                action: ExpandAction::CheckExists(dist_dir),
            }
        },
        (ExpandState::SeekingDist { project, dist_dir }, ExpandEvent::Exists(exists)) => {
            if exists {
                Step::seek_index(project.path, dist_dir, project.settings.style)
            } else {
                Step::fail(ExpandError::NoDist { dist_dir })
            }
        },
        (ExpandState::Probing { project }, ExpandEvent::Present(present)) => {
            let lock = project.state_path(".lock");
            let plan = project.plan(&present);
            Step { state: ExpandState::Locking { plan }, action: ExpandAction::Lock(lock) }
        },
        (ExpandState::Locking { plan }, ExpandEvent::Done) => {
            let modules = join(
                plan.project.path.as_str(),
                "node_modules",
                plan.project.settings.style,
            );
            Step {
                state: ExpandState::SeekingModules { plan },
                action: ExpandAction::CheckExists(modules),
            }
        },
        (ExpandState::SeekingModules { plan }, ExpandEvent::Exists(exists)) => {
            install_if_needed(plan, exists)
        },
        (ExpandState::Installing { plan }, ExpandEvent::Ran(outcome)) => match outcome {
            RunOutcome::Succeeded => plan.prepared(),
            RunOutcome::Failed { status } => {
                Step::fail(ExpandError::InstallFailed { command: plan.install, status })
            },
            RunOutcome::NotStarted { error } => {
                Step::fail(ExpandError::InstallNotStarted { command: plan.install, error })
            },
        },
        (
            ExpandState::Scanning { plan, command },
            ExpandEvent::Scanned { sources, output, recorded },
        ) => {
            let input = plan.input(command.as_str(), &sources);
            let current = plan.stamp(&input, &output);
            let output_exists = match output {
                Listing::Read(_) => true,
                Listing::Unread => false,
            };
            if needs_build(&recorded, &current, output_exists) {
                let stamp = plan.project.state_path(".stamp");
                Step {
                    state: ExpandState::Forgetting { plan, command, input },
                    action: ExpandAction::Forget(stamp),
                }
            } else {
                let tracking = plan.tracking(&sources);
                Step {
                    state: ExpandState::Tracking { plan },
                    action: ExpandAction::Track(tracking),
                }
            }
        },
        (ExpandState::Forgetting { plan, command, input }, ExpandEvent::Done) => {
            let dir = plan.project.path.clone();
            Step {
                state: ExpandState::Building { plan, command: command.clone(), input },
                action: ExpandAction::Run { command, dir },
            }
        },
        (ExpandState::Building { plan, command, input }, ExpandEvent::Ran(outcome)) => {
            match outcome {
                RunOutcome::Succeeded => {
                    let action = plan.scan();
                    Step { state: ExpandState::Rescanning { plan, input }, action }
                },
                RunOutcome::Failed { status } => {
                    Step::fail(ExpandError::BuildFailed { command, status })
                },
                RunOutcome::NotStarted { error } => {
                    Step::fail(ExpandError::BuildNotStarted { command, error })
                },
            }
        },
        (
            ExpandState::Rescanning { plan, input },
            ExpandEvent::Scanned { sources, output, recorded },
        ) => {
            let tracking = plan.tracking(&sources);
            let path = plan.project.state_path(".stamp");
            let stamp = plan.stamp(&input, &output);
            Step {
                state: ExpandState::Recording { plan, tracking },
                action: ExpandAction::Record { path, stamp },
            }
        },
        (ExpandState::Recording { plan, tracking }, ExpandEvent::Done) => Step {
            state: ExpandState::Tracking { plan },
            action: ExpandAction::Track(tracking),
        },
        (ExpandState::Tracking { plan }, ExpandEvent::Done) => {
            Step::seek_index(plan.project.path, plan.dist_dir, plan.project.settings.style)
        },
        (ExpandState::SeekingIndex { project_path, dist_dir, style }, ExpandEvent::Exists(exists)) => {
            let call = emit_prebuilt(project_path, dist_dir, exists, style);
            Step { state: ExpandState::Finished, action: ExpandAction::Emit(call) }
        },
        _ => Step::fail(ExpandError::OutOfTurn),
    }
}

/// The output directory of a project is the one that the `dist` argument names, else that of the
/// framework, which is `.next` where a Next.js project is recognised, and else `dist`. Without sources
/// there is no framework to go by.
pub proof fn law_output_directory(project: Project<Seq<char>>, present: Seq<Seq<char>>)
    ensures
        ({
            let style = project.settings.style;
            let next = holds_config_of(present, "next"@) && !holds_config_of(present, "webpack"@)
                && !holds_config_of(present, "vite"@);
            let dist_dir = plan_for(project, present).dist_dir;
            &&& project.args.dist matches Some(dist) ==> dist_dir == joined(project.path, dist, style)
                && prebuilt_dist(project) == joined(project.path, dist, style)
            &&& project.args.dist is None && next ==> dist_dir == joined(project.path, ".next"@, style)
            &&& project.args.dist is None && !next ==> dist_dir == joined(project.path, "dist"@, style)
            &&& project.args.dist is None ==> prebuilt_dist(project) == joined(
                project.path,
                "dist"@,
                style,
            )
        }),
{
    law_configuration_is_named_after_its_tool(present);
    law_output_directories_in_full(config_file_owner(present));
}

/// A project is built with the command that the `build` argument gives, and only without one with the
/// command of its framework; the argument makes no other difference, and neither does `dist` to the
/// commands.
pub proof fn law_build_argument_overrides(
    project: Project<Seq<char>>,
    present: Seq<Seq<char>>,
    build: Option<Seq<char>>,
    dist: Option<Seq<char>>,
)
    ensures
        ({
            let manager = lock_file_owner(present);
            let framework = config_file_owner(present);
            let plan = plan_for(project, present);
            let args = MacroArgs { path: project.args.path, build, dist };
            let other = plan_for(Project { args, ..project }, present);
            &&& project.args.build matches Some(command) ==> plan.build_command == Some(command)
            &&& project.args.build is None ==> plan.build_command == build_command_of(
                manager,
                framework,
            )
            &&& plan.project == project
            &&& plan.install == install_command_or_default(manager)
            &&& plan.dev_command == dev_command_of(manager, framework)
            &&& other.install == plan.install
            &&& other.dev_command == plan.dev_command
            &&& dist == project.args.dist ==> other.dist_dir == plan.dist_dir
            &&& build == project.args.build ==> other.build_command == plan.build_command
        }),
{
}

/// An output directory is embedded under the project's path, without a dev command, and with its
/// `index.html` as the fallback if and only if that is there. A dev server is proxied to with nothing
/// embedded.
pub proof fn law_calls_in_full(
    plan: Plan<Seq<char>>,
    project_path: Seq<char>,
    dist_dir: Seq<char>,
    style: PathStyle,
)
    ensures
        embedding_call(project_path, dist_dir, true, style) == (HandlerCall {
            assets: Some(dist_dir),
            spa_fallback: Some(joined(dist_dir, "index.html"@, style)),
            project_path,
            dev_command: None,
        }),
        embedding_call(project_path, dist_dir, false, style) == (HandlerCall {
            assets: Some(dist_dir),
            spa_fallback: None,
            project_path,
            dev_command: None,
        }),
        proxying_call(plan) == (HandlerCall {
            assets: None,
            spa_fallback: None,
            project_path: plan.project.path,
            dev_command: plan.dev_command,
        }),
{
}

/// The stamp of a build tells its session, its command, its output directory, the sources of the
/// project as they were before it, and what it left in its output directory; and a build is due unless
/// there is output and the recorded stamp is just that of what is there.
pub proof fn law_stamp_tells_what_was_built(
    plan: Plan<Seq<char>>,
    command: Seq<char>,
    sources: Listing,
    output: Listing,
    recorded: Option<Seq<u8>>,
)
    ensures
        ({
            let style = plan.project.settings.style;
            let stamp = build_stamp(
                plan.project.settings.session,
                command,
                plan.dist_dir,
                collected(
                    encode_utf8(plan.project.path),
                    sources,
                    encode_utf8(plan.dist_dir),
                    style,
                ),
                collected(encode_utf8(plan.dist_dir), output, encode_utf8(""@), style),
            );
            &&& stamp_of(plan, input_of(plan, command, sources), output) == stamp
            &&& build_is_due(plan, command, sources, output, recorded) <==> !(output is Read && recorded
                == Some(stamp))
        }),
{
    reveal(input_of);
    reveal(stamp_of);
}

/// The sources of a project are made known to cargo as the settings have it.
pub proof fn law_sources_are_tracked_as_set(plan: Plan<Seq<char>>, sources: Listing)
    ensures
        ({
            let settings = plan.project.settings;
            let paths = collected(
                encode_utf8(plan.project.path),
                sources,
                encode_utf8(plan.dist_dir),
                settings.style,
            ).map_values(|source: Source<Seq<u8>>| source.path);
            let tracking = plan_tracking(plan, sources);
            &&& settings.native_tracking ==> tracking.registered == paths
            &&& !settings.native_tracking ==> tracking.registered.len() == 0
            &&& tracking.manifest is Some <==> settings.out_dir is Some
            &&& tracking.manifest matches Some(manifest) ==> manifest.body == manifest_text(paths)
        }),
{
    law_declarations_and_manifest_are_independent(
        plan.project.path,
        plan.dist_dir,
        sources,
        plan.project.settings.out_dir,
        plan.project.settings.native_tracking,
        plan.project.settings.style,
    );
}

/// What does not answer what was asked for ends the expansion.
pub proof fn law_expansion_takes_answers_only(state: StateModel, event: EventModel)
    requires
        state is Resolving ==> !(event is Canonical) && !(event is Unresolved),
        state is SeekingSource || state is SeekingDist || state is SeekingModules || state is SeekingIndex
            ==> !(event is Exists),
        state is Probing ==> !(event is Present),
        state is Installing || state is Building ==> !(event is Ran),
        state is Scanning || state is Rescanning ==> !(event is Scanned),
        state is Locking || state is Forgetting || state is Recording || state is Tracking ==> !(event
            is Done),
    ensures
        next_step(state, event) == (
            ExpandState::<Seq<char>, Seq<u8>, Seq<Seq<u8>>>::Finished,
            ExpandAction::<Seq<char>, Seq<u8>, Seq<Seq<u8>>>::Fail(ExpandError::OutOfTurn),
        ),
{
}

} // verus!
