//! The whole course of an expansion: what it does, from the first action to the last, in a given
//! state of the outside world.

use vstd::prelude::*;
#[allow(unused_imports)]
use vstd::utf8::encode_utf8;

#[allow(unused_imports)]
use crate::args::{ArgError, MacroArgs};
#[allow(unused_imports)]
use crate::expand::{
    build_is_due, embedding_call, first_step, index_step, input_of, next_step, plan_for, plan_tracking,
    prebuilt_dist, prepared_step, proxying_call, scan_of, stamp_of, state_file,
};
#[allow(unused_imports)]
use crate::expansion::{
    ActionModel, EventModel, ExpandAction, ExpandError, ExpandEvent, ExpandState, HandlerCall, Plan,
    Project, RunOutcome, Settings, StateModel,
};
#[allow(unused_imports)]
use crate::manifest::{project_key, project_sources, Tracking};
#[allow(unused_imports)]
use crate::paths::{joined, PathStyle};
use crate::sources::Listing;
#[allow(unused_imports)]
use crate::sources::{alike, law_passed_over_directories_make_no_difference, Source};
#[allow(unused_imports)]
use crate::stamp::{build_stamp, law_changes_are_noticed, recordable};
#[allow(unused_imports)]
use crate::text::hex_text;

verus! {

/// What an expansion finds in the outside world.
pub struct World {
    /// The project's directory, or why there is none.
    pub canonical: Result<Seq<char>, Seq<char>>,
    /// Whether `package.json` exists.
    pub source: bool,
    /// Whether the output directory exists, where there is no source.
    pub dist: bool,
    /// The lock and configuration files that exist.
    pub present: Seq<Seq<char>>,
    /// Whether `node_modules` exists.
    pub modules: bool,
    /// How the installation of the dependencies ends.
    pub install: RunOutcome<Seq<char>>,
    /// The project, its output and the stamp before a build.
    pub sources: Listing,
    pub output: Listing,
    pub recorded: Option<Seq<u8>>,
    /// How a build ends.
    pub build: RunOutcome<Seq<char>>,
    /// The project and its output after a build.
    pub sources_after: Listing,
    pub output_after: Listing,
    /// What is found for a stamp after a build, from which nothing is taken.
    pub recorded_after: Option<Seq<u8>>,
    /// Whether the output directory has an index file in the end.
    pub index: bool,
}

/// What an expansion that stands at `state` is told in this world.
pub open spec fn reply(world: World, state: StateModel) -> EventModel {
    match state {
        ExpandState::Resolving { settings, args } => match world.canonical {
            Ok(path) => ExpandEvent::Canonical(path),
            Err(error) => ExpandEvent::Unresolved(error),
        },
        ExpandState::SeekingSource { project } => ExpandEvent::Exists(world.source),
        ExpandState::SeekingDist { project, dist_dir } => ExpandEvent::Exists(world.dist),
        ExpandState::Probing { project } => ExpandEvent::Present(world.present),
        ExpandState::SeekingModules { plan } => ExpandEvent::Exists(world.modules),
        ExpandState::Installing { plan } => ExpandEvent::Ran(world.install),
        ExpandState::Scanning { plan, command } => ExpandEvent::Scanned {
            sources: world.sources,
            output: world.output,
            recorded: world.recorded,
        },
        ExpandState::Building { plan, command, input } => ExpandEvent::Ran(world.build),
        ExpandState::Rescanning { plan, input } => ExpandEvent::Scanned {
            sources: world.sources_after,
            output: world.output_after,
            recorded: world.recorded_after,
        },
        ExpandState::SeekingIndex { project_path, dist_dir, style } => ExpandEvent::Exists(world.index),
        _ => ExpandEvent::Done,
    }
}

/// Whether an action is the last of an expansion.
pub open spec fn is_last(action: ActionModel) -> bool {
    action is Emit || action is Fail
}

/// The actions of an expansion in this world from a step on, up to the last one, but not more than
/// `limit`.
pub open spec fn actions_from(world: World, step: (StateModel, ActionModel), limit: nat) -> Seq<
    ActionModel,
>
    decreases limit,
{
    if limit == 0 {
        seq![]
    } else if is_last(step.1) {
        seq![step.1]
    } else {
        seq![step.1] + actions_from(
            world,
            next_step(step.0, reply(world, step.0)),
            (limit - 1) as nat,
        )
    }
}

/// The actions of an expansion.
pub open spec fn actions(
    args: Result<MacroArgs<Seq<char>>, ArgError<Seq<char>>>,
    settings: Settings<Seq<char>>,
    world: World,
) -> Seq<ActionModel> {
    actions_from(world, first_step(args, settings), 14)
}

/// The end of the course: the output directory is embedded.
pub open spec fn embedding_course(
    project_path: Seq<char>,
    dist_dir: Seq<char>,
    index_exists: bool,
    style: PathStyle,
) -> Seq<ActionModel> {
    seq![
        ExpandAction::CheckExists(joined(dist_dir, "index.html"@, style)),
        ExpandAction::Emit(embedding_call(project_path, dist_dir, index_exists, style)),
    ]
}

/// The course without sources: what was built before is embedded.
pub open spec fn prebuilt_course(project: Project<Seq<char>>, world: World) -> Seq<ActionModel> {
    let dist_dir = prebuilt_dist(project);
    seq![ExpandAction::<Seq<char>, Seq<u8>, Seq<Seq<u8>>>::CheckExists(dist_dir)] + if world.dist {
        embedding_course(project.path, dist_dir, world.index, project.settings.style)
    } else {
        seq![ExpandAction::Fail(ExpandError::NoDist { dist_dir })]
    }
}

/// The course of a build that is due: the stamp of the last one is removed before anything is built,
/// and the stamp of this one is written when all is built.
pub open spec fn build_course(plan: Plan<Seq<char>>, command: Seq<char>, world: World) -> Seq<
    ActionModel,
> {
    let stamp = state_file(plan.project, ".stamp"@);
    seq![
        ExpandAction::<Seq<char>, Seq<u8>, Seq<Seq<u8>>>::Forget(stamp),
        ExpandAction::Run { command, dir: plan.project.path },
    ] + match world.build {
        RunOutcome::Succeeded => seq![
            scan_of(plan),
            ExpandAction::Record {
                path: stamp,
                stamp: stamp_of(plan, input_of(plan, command, world.sources), world.output_after),
            },
            ExpandAction::Track(plan_tracking(plan, world.sources_after)),
        ] + embedding_course(
            plan.project.path,
            plan.dist_dir,
            world.index,
            plan.project.settings.style,
        ),
        RunOutcome::Failed { status } => seq![
            ExpandAction::Fail(ExpandError::BuildFailed { command, status }),
        ],
        RunOutcome::NotStarted { error } => seq![
            ExpandAction::Fail(ExpandError::BuildNotStarted { command, error }),
        ],
    }
}

/// The course after the dependencies are there.
pub open spec fn prepared_course(plan: Plan<Seq<char>>, world: World) -> Seq<ActionModel> {
    if plan.project.settings.dev_proxy {
        seq![ExpandAction::Emit(proxying_call(plan))]
    } else {
        match plan.build_command {
            None => seq![ExpandAction::Fail(ExpandError::NoBuildCommand)],
            Some(command) => seq![scan_of(plan)] + if build_is_due(
                plan,
                command,
                world.sources,
                world.output,
                world.recorded,
            ) {
                build_course(plan, command, world)
            } else {
                seq![
                    ExpandAction::<Seq<char>, Seq<u8>, Seq<Seq<u8>>>::Track(
                        plan_tracking(plan, world.sources),
                    ),
                ] + embedding_course(
                    plan.project.path,
                    plan.dist_dir,
                    world.index,
                    plan.project.settings.style,
                )
            },
        }
    }
}

/// The course with sources: under a lock, the dependencies are installed where they are missing.
pub open spec fn source_course(project: Project<Seq<char>>, world: World) -> Seq<ActionModel> {
    let plan = plan_for(project, world.present);
    seq![
        ExpandAction::<Seq<char>, Seq<u8>, Seq<Seq<u8>>>::Probe(project.path),
        ExpandAction::Lock(state_file(project, ".lock"@)),
        ExpandAction::CheckExists(joined(project.path, "node_modules"@, project.settings.style)),
    ] + if world.modules {
        prepared_course(plan, world)
    } else {
        seq![
            ExpandAction::<Seq<char>, Seq<u8>, Seq<Seq<u8>>>::Run {
                command: plan.install,
                dir: project.path,
            },
        ] + match world.install {
            RunOutcome::Succeeded => prepared_course(plan, world),
            RunOutcome::Failed { status } => seq![
                ExpandAction::Fail(ExpandError::InstallFailed { command: plan.install, status }),
            ],
            RunOutcome::NotStarted { error } => seq![
                ExpandAction::Fail(ExpandError::InstallNotStarted { command: plan.install, error }),
            ],
        }
    }
}

/// The course of an expansion.
pub open spec fn course(
    args: Result<MacroArgs<Seq<char>>, ArgError<Seq<char>>>,
    settings: Settings<Seq<char>>,
    world: World,
) -> Seq<ActionModel> {
    match args {
        Err(error) => seq![ExpandAction::Fail(ExpandError::Args(error))],
        Ok(args) => seq![
            ExpandAction::<Seq<char>, Seq<u8>, Seq<Seq<u8>>>::Canonicalize(
                joined(settings.manifest_dir, args.path, settings.style),
            ),
        ] + match world.canonical {
            Err(error) => seq![
                ExpandAction::Fail(ExpandError::Unresolved { path: args.path, error }),
            ],
            Ok(path) => {
                let project = Project { settings, args, path };
                seq![
                    ExpandAction::<Seq<char>, Seq<u8>, Seq<Seq<u8>>>::CheckExists(
                        joined(path, "package.json"@, settings.style),
                    ),
                ] + if world.source {
                    source_course(project, world)
                } else {
                    prebuilt_course(project, world)
                }
            },
        },
    }
}

/// One action more.
proof fn lemma_one_action(world: World, step: (StateModel, ActionModel), limit: nat)
    requires
        limit > 0,
    ensures
        actions_from(world, step, limit) == if is_last(step.1) {
            seq![step.1]
        } else {
            seq![step.1] + actions_from(
                world,
                next_step(step.0, reply(world, step.0)),
                (limit - 1) as nat,
            )
        },
{
}

proof fn lemma_embedding_course(
    world: World,
    project_path: Seq<char>,
    dist_dir: Seq<char>,
    limit: nat,
    style: PathStyle,
)
    requires
        limit >= 2,
    ensures
        actions_from(world, index_step(project_path, dist_dir, style), limit)
            == embedding_course(project_path, dist_dir, world.index, style),
{
    let step = index_step(project_path, dist_dir, style);
    let last = next_step(step.0, reply(world, step.0));
    lemma_one_action(world, step, limit);
    lemma_one_action(world, last, (limit - 1) as nat);
    assert(actions_from(world, step, limit) =~= embedding_course(
        project_path,
        dist_dir,
        world.index,
        style,
    ));
}

proof fn lemma_tracked_course(
    world: World,
    plan: Plan<Seq<char>>,
    tracking: Tracking<Seq<char>, Seq<Seq<u8>>>,
    limit: nat,
)
    requires
        limit >= 3,
    ensures
        actions_from(
            world,
            (ExpandState::Tracking { plan }, ExpandAction::Track(tracking)),
            limit,
        ) == seq![ExpandAction::<Seq<char>, Seq<u8>, Seq<Seq<u8>>>::Track(tracking)]
            + embedding_course(
                plan.project.path,
                plan.dist_dir,
                world.index,
                plan.project.settings.style,
            ),
{
    lemma_embedding_course(
        world,
        plan.project.path,
        plan.dist_dir,
        (limit - 1) as nat,
        plan.project.settings.style,
    );
}

proof fn lemma_build_course(world: World, plan: Plan<Seq<char>>, command: Seq<char>, limit: nat)
    requires
        limit >= 7,
    ensures
        actions_from(
            world,
            (
                ExpandState::Forgetting {
                    plan,
                    command,
                    input: input_of(plan, command, world.sources),
                },
                ExpandAction::Forget(state_file(plan.project, ".stamp"@)),
            ),
            limit,
        ) == build_course(plan, command, world),
{
    let input = input_of(plan, command, world.sources);
    let s0 = (
        ExpandState::Forgetting { plan, command, input },
        ExpandAction::<Seq<char>, Seq<u8>, Seq<Seq<u8>>>::Forget(
            state_file(plan.project, ".stamp"@),
        ),
    );
    let s1 = next_step(s0.0, reply(world, s0.0));
    let s2 = next_step(s1.0, reply(world, s1.0));
    lemma_one_action(world, s0, limit);
    lemma_one_action(world, s1, (limit - 1) as nat);
    lemma_one_action(world, s2, (limit - 2) as nat);
    if world.build is Succeeded {
        let s3 = next_step(s2.0, reply(world, s2.0));
        let s4 = next_step(s3.0, reply(world, s3.0));
        lemma_one_action(world, s3, (limit - 3) as nat);
        lemma_tracked_course(
            world,
            plan,
            plan_tracking(plan, world.sources_after),
            (limit - 4) as nat,
        );
        assert(s4 == (
            ExpandState::<Seq<char>, Seq<u8>, Seq<Seq<u8>>>::Tracking { plan },
            ExpandAction::<Seq<char>, Seq<u8>, Seq<Seq<u8>>>::Track(
                plan_tracking(plan, world.sources_after),
            ),
        ));
    }
    assert(actions_from(world, s0, limit) =~= build_course(plan, command, world));
}

proof fn lemma_prepared_course(world: World, plan: Plan<Seq<char>>, limit: nat)
    requires
        limit >= 8,
    ensures
        actions_from(world, prepared_step(plan), limit) == prepared_course(
            plan,
            world,
        ),
{
    let s0 = prepared_step(plan);
    lemma_one_action(world, s0, limit);
    if !plan.project.settings.dev_proxy && plan.build_command is Some {
        let command = plan.build_command->0;
        if build_is_due(plan, command, world.sources, world.output, world.recorded) {
            lemma_build_course(world, plan, command, (limit - 1) as nat);
        } else {
            lemma_tracked_course(
                world,
                plan,
                plan_tracking(plan, world.sources),
                (limit - 1) as nat,
            );
        }
    }
    assert(actions_from(world, s0, limit) =~= prepared_course(plan, world));
}

proof fn lemma_source_course(world: World, project: Project<Seq<char>>, limit: nat)
    requires
        limit >= 12,
    ensures
        actions_from(
            world,
            (ExpandState::Probing { project }, ExpandAction::Probe(project.path)),
            limit,
        ) == source_course(project, world),
{
    let plan = plan_for(project, world.present);
    let s0 = (
        ExpandState::<Seq<char>, Seq<u8>, Seq<Seq<u8>>>::Probing { project },
        ExpandAction::<Seq<char>, Seq<u8>, Seq<Seq<u8>>>::Probe(project.path),
    );
    let s1 = next_step(s0.0, reply(world, s0.0));
    let s2 = next_step(s1.0, reply(world, s1.0));
    let s3 = next_step(s2.0, reply(world, s2.0));
    lemma_one_action(world, s0, limit);
    lemma_one_action(world, s1, (limit - 1) as nat);
    lemma_one_action(world, s2, (limit - 2) as nat);
    if world.modules {
        lemma_prepared_course(world, plan, (limit - 3) as nat);
    } else {
        let s4 = next_step(s3.0, reply(world, s3.0));
        lemma_one_action(world, s3, (limit - 3) as nat);
        lemma_one_action(world, s4, (limit - 4) as nat);
        if world.install is Succeeded {
            lemma_prepared_course(world, plan, (limit - 4) as nat);
        }
    }
    assert(actions_from(world, s0, limit) =~= source_course(project, world));
}

proof fn lemma_prebuilt_course(world: World, project: Project<Seq<char>>, limit: nat)
    requires
        limit >= 3,
    ensures
        actions_from(
            world,
            (
                ExpandState::SeekingDist { project, dist_dir: prebuilt_dist(project) },
                ExpandAction::CheckExists(prebuilt_dist(project)),
            ),
            limit,
        ) == prebuilt_course(project, world),
{
    let dist_dir = prebuilt_dist(project);
    let s0 = (
        ExpandState::<Seq<char>, Seq<u8>, Seq<Seq<u8>>>::SeekingDist { project, dist_dir },
        ExpandAction::<Seq<char>, Seq<u8>, Seq<Seq<u8>>>::CheckExists(dist_dir),
    );
    lemma_one_action(world, s0, limit);
    if world.dist {
        lemma_embedding_course(
            world,
            project.path,
            dist_dir,
            (limit - 1) as nat,
            project.settings.style,
        );
    } else {
        let s1 = next_step(s0.0, reply(world, s0.0));
        lemma_one_action(world, s1, (limit - 1) as nat);
    }
    assert(actions_from(world, s0, limit) =~= prebuilt_course(project, world));
}

/// Every expansion runs its course: whatever it finds in the outside world, it comes to an end after
/// at most fourteen actions, none of them out of turn, and the actions are those of the course.
pub proof fn law_expansion_runs_its_course(
    args: Result<MacroArgs<Seq<char>>, ArgError<Seq<char>>>,
    settings: Settings<Seq<char>>,
    world: World,
)
    ensures
        actions(args, settings, world) == course(args, settings, world),
        actions(args, settings, world).len() > 0,
        is_last(actions(args, settings, world).last()),
{
    let s0 = first_step(args, settings);
    lemma_one_action(world, s0, 14);
    if args is Ok {
        let s1 = next_step(s0.0, reply(world, s0.0));
        lemma_one_action(world, s1, 13);
        if world.canonical is Ok {
            let project = Project { settings, args: args->Ok_0, path: world.canonical->Ok_0 };
            if world.source {
                lemma_source_course(world, project, 12);
            } else {
                lemma_prebuilt_course(world, project, 12);
            }
        }
    }
    assert(actions(args, settings, world) =~= course(args, settings, world));
}

/// The three ways to serve a frontend.
pub enum Mode {
    DevProxy,
    Build,
    Prebuilt,
}

/// Which way is taken: without sources there is nothing to be built or run, so what was built before
/// is served, whether or not a dev server is asked for.
pub open spec fn mode_of(dev_proxy: bool, source: bool) -> Mode {
    if !source {
        Mode::Prebuilt
    } else if dev_proxy {
        Mode::DevProxy
    } else {
        Mode::Build
    }
}

/// The commands that are run, in order.
pub open spec fn commands(list: Seq<ActionModel>) -> Seq<Seq<char>>
    decreases list.len(),
{
    if list.len() == 0 {
        seq![]
    } else {
        match list[0] {
            ExpandAction::Run { command, dir } => seq![command] + commands(list.drop_first()),
            _ => commands(list.drop_first()),
        }
    }
}

/// An action that runs nothing adds no command.
proof fn lemma_quiet_action(action: ActionModel, rest: Seq<ActionModel>)
    ensures
        !(action is Run) ==> commands(seq![action] + rest) == commands(rest),
        action matches ExpandAction::Run { command, dir } ==> commands(seq![action] + rest) == seq![
            command,
        ] + commands(rest),
{
    assert((seq![action] + rest).drop_first() =~= rest);
}

proof fn lemma_embedding_is_quiet(
    project_path: Seq<char>,
    dist_dir: Seq<char>,
    index: bool,
    style: PathStyle,
)
    ensures
        commands(embedding_course(project_path, dist_dir, index, style)) == Seq::<Seq<char>>::empty(),
{
    let list = embedding_course(project_path, dist_dir, index, style);
    assert(list =~= seq![list[0]] + (seq![list[1]] + seq![]));
    lemma_quiet_action(list[0], seq![list[1]] + seq![]);
    lemma_quiet_action(list[1], seq![]);
}

/// The commands of the course after the dependencies are there: at most the build, and that only
/// where it is due.
proof fn lemma_prepared_commands(plan: Plan<Seq<char>>, world: World)
    ensures
        commands(prepared_course(plan, world)) == build_commands(plan, world),
{
    let list = prepared_course(plan, world);
    if plan.project.settings.dev_proxy || plan.build_command is None {
        assert(list =~= seq![list[0]] + seq![]);
        lemma_quiet_action(list[0], seq![]);
    } else {
        let command = plan.build_command->0;
        let end = embedding_course(
            plan.project.path,
            plan.dist_dir,
            world.index,
            plan.project.settings.style,
        );
        lemma_embedding_is_quiet(
            plan.project.path,
            plan.dist_dir,
            world.index,
            plan.project.settings.style,
        );
        if build_is_due(plan, command, world.sources, world.output, world.recorded) {
            let build = build_course(plan, command, world);
            lemma_quiet_action(list[0], build);
            assert(list =~= seq![list[0]] + build);
            let after_forget = build.drop_first();
            let after_run = after_forget.drop_first();
            assert(build =~= seq![build[0]] + after_forget);
            assert(after_forget =~= seq![build[1]] + after_run);
            lemma_quiet_action(build[0], after_forget);
            lemma_quiet_action(build[1], after_run);
            if world.build is Succeeded {
                assert(after_run =~= seq![build[2]] + (seq![build[3]] + (seq![build[4]] + end)));
                lemma_quiet_action(build[2], seq![build[3]] + (seq![build[4]] + end));
                lemma_quiet_action(build[3], seq![build[4]] + end);
                lemma_quiet_action(build[4], end);
            } else {
                assert(after_run =~= seq![build[2]] + seq![]);
                lemma_quiet_action(build[2], seq![]);
            }
            assert(commands(list) =~= seq![command]);
        } else {
            let track = list[1];
            assert(list =~= seq![list[0]] + (seq![track] + end));
            lemma_quiet_action(list[0], seq![track] + end);
            lemma_quiet_action(track, end);
        }
    }
}

/// What is run after the dependencies are there.
pub open spec fn build_commands(plan: Plan<Seq<char>>, world: World) -> Seq<Seq<char>> {
    if plan.project.settings.dev_proxy {
        seq![]
    } else {
        match plan.build_command {
            Some(command) => if build_is_due(
                plan,
                command,
                world.sources,
                world.output,
                world.recorded,
            ) {
                seq![command]
            } else {
                seq![]
            },
            None => seq![],
        }
    }
}

/// What an expansion runs, by its mode: nothing where there are no sources; else the installation of
/// the dependencies where they are missing, and after that a build in build mode, where one is due.
pub open spec fn mode_commands(project: Project<Seq<char>>, world: World) -> Seq<Seq<char>> {
    let plan = plan_for(project, world.present);
    if mode_of(project.settings.dev_proxy, world.source) is Prebuilt {
        seq![]
    } else if world.modules {
        build_commands(plan, world)
    } else if world.install is Succeeded {
        seq![plan.install] + build_commands(plan, world)
    } else {
        seq![plan.install]
    }
}

/// What an expansion that succeeds expands to, by its mode.
pub open spec fn mode_call(project: Project<Seq<char>>, world: World) -> HandlerCall<Seq<char>> {
    let plan = plan_for(project, world.present);
    match mode_of(project.settings.dev_proxy, world.source) {
        Mode::DevProxy => proxying_call(plan),
        Mode::Build => embedding_call(project.path, plan.dist_dir, world.index, project.settings.style),
        Mode::Prebuilt => embedding_call(
            project.path,
            prebuilt_dist(project),
            world.index,
            project.settings.style,
        ),
    }
}

/// The mode decides what an expansion runs and what it expands to: it runs the commands of the mode,
/// and ends in a failure or in the call of the mode.
pub proof fn law_mode_decides(
    args: MacroArgs<Seq<char>>,
    settings: Settings<Seq<char>>,
    path: Seq<char>,
    world: World,
)
    requires
        world.canonical == Ok::<Seq<char>, Seq<char>>(path),
    ensures
        ({
            let list = actions(Ok(args), settings, world);
            let project = Project { settings, args, path };
            &&& commands(list) == mode_commands(project, world)
            &&& list.last() is Fail || list.last() == ExpandAction::<
                Seq<char>,
                Seq<u8>,
                Seq<Seq<u8>>,
            >::Emit(mode_call(project, world))
        }),
{
    let project = Project { settings, args, path };
    let plan = plan_for(project, world.present);
    law_expansion_runs_its_course(Ok(args), settings, world);
    let list = course(Ok(args), settings, world);
    if world.source {
        let source = source_course(project, world);
        assert(list =~= seq![list[0]] + (seq![list[1]] + source));
        lemma_quiet_action(list[0], seq![list[1]] + source);
        lemma_quiet_action(list[1], source);
        let end = source.skip(3);
        assert(source =~= seq![source[0]] + (seq![source[1]] + (seq![source[2]] + end)));
        lemma_quiet_action(source[0], seq![source[1]] + (seq![source[2]] + end));
        lemma_quiet_action(source[1], seq![source[2]] + end);
        lemma_quiet_action(source[2], end);
        lemma_prepared_commands(plan, world);
        if world.modules {
            assert(end =~= prepared_course(plan, world));
        } else {
            let after = end.drop_first();
            assert(end =~= seq![end[0]] + after);
            lemma_quiet_action(end[0], after);
            if world.install is Succeeded {
                assert(after =~= prepared_course(plan, world));
            } else {
                assert(after =~= seq![after[0]] + seq![]);
                lemma_quiet_action(after[0], seq![]);
                assert(commands(end) =~= seq![plan.install]);
            }
        }
    } else {
        let end = prebuilt_course(project, world);
        assert(list =~= seq![list[0]] + (seq![list[1]] + end));
        lemma_quiet_action(list[0], seq![list[1]] + end);
        lemma_quiet_action(list[1], end);
        let after = end.drop_first();
        assert(end =~= seq![end[0]] + after);
        lemma_quiet_action(end[0], after);
        if world.dist {
            lemma_embedding_is_quiet(
                project.path,
                prebuilt_dist(project),
                world.index,
                project.settings.style,
            );
            assert(after =~= embedding_course(
                project.path,
                prebuilt_dist(project),
                world.index,
                project.settings.style,
            ));
        } else {
            assert(after =~= seq![after[0]] + seq![]);
            lemma_quiet_action(after[0], seq![]);
        }
    }
}

/// Concurrent expansions take turns: nothing is run before the lock of the project is held, and the
/// lock is the same for all expansions for one project.
pub proof fn law_commands_run_under_the_lock(
    args: MacroArgs<Seq<char>>,
    settings: Settings<Seq<char>>,
    path: Seq<char>,
    world: World,
    k: int,
)
    requires
        world.canonical == Ok::<Seq<char>, Seq<char>>(path),
        0 <= k < actions(Ok(args), settings, world).len(),
        actions(Ok(args), settings, world)[k] is Run,
    ensures
        k > 3,
        actions(Ok(args), settings, world)[3] == ExpandAction::<
            Seq<char>,
            Seq<u8>,
            Seq<Seq<u8>>,
        >::Lock(
            joined(
                settings.state_dir,
                "trillium-frontend-"@ + hex_text(
                    project_key(path) as nat,
                    16,
                ) + ".lock"@,
                settings.style,
            ),
        ),
{
    let project = Project { settings, args, path };
    law_expansion_runs_its_course(Ok(args), settings, world);
    let list = course(Ok(args), settings, world);
    if world.source {
        let source = source_course(project, world);
        assert(list[3] == source[1]);
        assert(list[2] == source[0]);
    } else {
        let end = prebuilt_course(project, world);
        if k >= 2 {
            assert(list[k] == end[k - 2]);
        }
    }
}

/// Whether nothing that goes into a build has changed since another world's build: the project's
/// sources are as they were before it, the output is as it left it, and its stamp is there. What else
/// is in the project's directory, the output itself among it, may have changed.
pub open spec fn unchanged_since(
    world: World,
    built: World,
    plan: Plan<Seq<char>>,
    command: Seq<char>,
) -> bool {
    &&& project_sources(
        plan.project.path,
        plan.dist_dir,
        world.sources,
        plan.project.settings.style,
    ) == project_sources(
        plan.project.path,
        plan.dist_dir,
        built.sources,
        plan.project.settings.style,
    )
    &&& project_sources(
        plan.dist_dir,
        ""@,
        world.output,
        plan.project.settings.style,
    ) == project_sources(
        plan.dist_dir,
        ""@,
        built.output_after,
        plan.project.settings.style,
    )
    &&& world.output is Read
    &&& world.recorded == Some(
        stamp_of(plan, input_of(plan, command, built.sources), built.output_after),
    )
}

/// A project is built once: after an expansion that built it, be it for the first time, another one of
/// the same session that finds everything as that one left it runs nothing, leaves the stamp alone,
/// and expands to the same. Together the two run the build exactly once, after the installation of
/// the dependencies where they were missing.
pub proof fn law_built_once(
    args: MacroArgs<Seq<char>>,
    settings: Settings<Seq<char>>,
    path: Seq<char>,
    command: Seq<char>,
    built: World,
    world: World,
)
    requires
        !settings.dev_proxy,
        built.canonical == Ok::<Seq<char>, Seq<char>>(path),
        built.source,
        built.modules || built.install is Succeeded,
        plan_for((Project { settings, args, path }), built.present).build_command == Some(command),
        built.build is Succeeded,
        world.canonical == built.canonical,
        world.source,
        world.present == built.present,
        world.modules,
        world.index == built.index,
        unchanged_since(
            world,
            built,
            plan_for((Project { settings, args, path }), built.present),
            command,
        ),
    ensures
        commands(actions(Ok(args), settings, world)) == Seq::<Seq<char>>::empty(),
        ({
            let plan = plan_for((Project { settings, args, path }), built.present);
            let both = commands(actions(Ok(args), settings, built)) + commands(
                actions(Ok(args), settings, world),
            );
            build_is_due(plan, command, built.sources, built.output, built.recorded) ==> both
                == if built.modules {
                seq![command]
            } else {
                seq![plan.install, command]
            }
        }),
        forall|i: int|
            0 <= i < actions(Ok(args), settings, world).len() ==> {
                let action = #[trigger] actions(Ok(args), settings, world)[i];
                !(action is Forget) && !(action is Record)
            },
        actions(Ok(args), settings, world).last() == actions(Ok(args), settings, built).last(),
        actions(Ok(args), settings, world).last() is Emit,
{
    assert(!build_is_due(
        plan_for((Project { settings, args, path }), built.present),
        command,
        world.sources,
        world.output,
        world.recorded,
    )) by {
        reveal(input_of);
        reveal(stamp_of);
    }
    let project = Project { settings, args, path };
    let plan = plan_for(project, built.present);
    law_mode_decides(args, settings, path, world);
    law_mode_decides(args, settings, path, built);
    law_expansion_runs_its_course(Ok(args), settings, world);
    law_expansion_runs_its_course(Ok(args), settings, built);
    let list = course(Ok(args), settings, world);
    let source = source_course(project, world);
    let prepared = prepared_course(plan, world);
    let end = embedding_course(path, plan.dist_dir, world.index, settings.style);
    assert(source =~= source.take(3) + prepared);
    assert(prepared.skip(2) =~= end);
    assert(list =~= list.take(2) + source);
    assert forall|i: int| 0 <= i < list.len() implies {
        let action = #[trigger] list[i];
        !(action is Forget) && !(action is Record)
    } by {
        if i >= 7 {
            assert(list[i] == end[i - 7]);
        }
    }
    let first = course(Ok(args), settings, built);
    let first_prepared = prepared_course(plan, built);
    assert(first_prepared.last() == ExpandAction::<Seq<char>, Seq<u8>, Seq<Seq<u8>>>::Emit(
        embedding_call(path, plan.dist_dir, built.index, settings.style),
    ));
    assert(first.last() == first_prepared.last());
    assert(list.last() == end.last());
}

/// The first build is the only one. Of two expansions for a project that has not been built yet, the
/// one that gets the lock runs the build and records it; the other one, which finds the recorded stamp
/// and the output, and the project as it was but for what is passed over, runs nothing and expands to
/// the same.
pub proof fn law_first_build_is_the_only_one(
    args: MacroArgs<Seq<char>>,
    settings: Settings<Seq<char>>,
    path: Seq<char>,
    command: Seq<char>,
    stamp: Seq<u8>,
    first: World,
    second: World,
)
    requires
        !settings.dev_proxy,
        first.canonical == Ok::<Seq<char>, Seq<char>>(path),
        first.source,
        first.modules,
        first.output is Unread,
        first.build is Succeeded,
        first.output_after is Read,
        plan_for((Project { settings, args, path }), first.present).build_command == Some(command),
        stamp == stamp_of(
            plan_for((Project { settings, args, path }), first.present),
            input_of(
                plan_for((Project { settings, args, path }), first.present),
                command,
                first.sources,
            ),
            first.output_after,
        ),
        second.canonical == first.canonical,
        second.source,
        second.modules,
        second.present == first.present,
        second.index == first.index,
        second.recorded == Some(stamp),
        ({
            let plan = plan_for((Project { settings, args, path }), first.present);
            let dist_dir = encode_utf8(plan.dist_dir);
            &&& alike(encode_utf8(path), second.sources, first.sources, dist_dir, settings.style)
            &&& alike(dist_dir, second.output, first.output_after, encode_utf8(""@), settings.style)
        }),
    ensures
        actions(Ok(args), settings, first).contains(
            ExpandAction::Record {
                path: state_file((Project { settings, args, path }), ".stamp"@),
                stamp,
            },
        ),
        commands(actions(Ok(args), settings, first)) + commands(actions(Ok(args), settings, second))
            == seq![command],
        actions(Ok(args), settings, first).last() is Emit,
        actions(Ok(args), settings, second).last() == actions(Ok(args), settings, first).last(),
{
    let project = Project { settings, args, path };
    let plan = plan_for(project, first.present);
    let dist_dir = encode_utf8(plan.dist_dir);
    law_passed_over_directories_make_no_difference(
        encode_utf8(path),
        second.sources,
        first.sources,
        dist_dir,
        settings.style,
    );
    law_passed_over_directories_make_no_difference(
        dist_dir,
        second.output,
        first.output_after,
        encode_utf8(""@),
        settings.style,
    );
    law_built_once(args, settings, path, command, first, second);
    law_expansion_runs_its_course(Ok(args), settings, first);
    let list = course(Ok(args), settings, first);
    let source = source_course(project, first);
    let build = build_course(plan, command, first);
    assert(source =~= source.take(4) + build);
    assert(list =~= list.take(2) + source);
    assert(list[9] == build[3]);
}

/// What the stamp covers is never embedded stale: in another session than that of the recorded build,
/// or where its command, its output directory, its sources or its output differ, an expansion in build
/// mode that succeeds has run the build. Of what else may go into a build - environment variables,
/// dependencies, files behind symbolic links - a change within the session is not noticed.
pub proof fn law_changes_are_built(
    args: MacroArgs<Seq<char>>,
    settings: Settings<Seq<char>>,
    path: Seq<char>,
    command: Seq<char>,
    world: World,
    old_session: Seq<char>,
    old_command: Seq<char>,
    old_dist_dir: Seq<char>,
    old_sources: Seq<Source<Seq<u8>>>,
    old_output: Seq<Source<Seq<u8>>>,
)
    requires
        !settings.dev_proxy,
        world.canonical == Ok::<Seq<char>, Seq<char>>(path),
        world.source,
        world.recorded == Some(
            build_stamp(old_session, old_command, old_dist_dir, old_sources, old_output),
        ),
        ({
            let plan = plan_for((Project { settings, args, path }), world.present);
            let sources = project_sources(path, plan.dist_dir, world.sources, settings.style);
            let output = project_sources(plan.dist_dir, ""@, world.output, settings.style);
            &&& plan.build_command == Some(command)
            &&& recordable(settings.session, command, plan.dist_dir, sources, output)
            &&& recordable(old_session, old_command, old_dist_dir, old_sources, old_output)
            &&& (old_session, old_command, old_dist_dir, old_sources, old_output) != (
                settings.session,
                command,
                plan.dist_dir,
                sources,
                output,
            )
        }),
        actions(Ok(args), settings, world).last() is Emit,
    ensures
        commands(actions(Ok(args), settings, world)).last() == command,
        commands(actions(Ok(args), settings, world)).len() == if world.modules {
            1nat
        } else {
            2nat
        },
        world.build is Succeeded,
{
    let project = Project { settings, args, path };
    let plan = plan_for(project, world.present);
    let sources = project_sources(path, plan.dist_dir, world.sources, settings.style);
    let output = project_sources(plan.dist_dir, ""@, world.output, settings.style);
    law_mode_decides(args, settings, path, world);
    law_expansion_runs_its_course(Ok(args), settings, world);
    assert(build_is_due(plan, command, world.sources, world.output, world.recorded)) by {
        reveal(input_of);
        reveal(stamp_of);
        law_changes_are_noticed(
            old_session,
            old_command,
            old_dist_dir,
            old_sources,
            old_output,
            settings.session,
            command,
            plan.dist_dir,
            sources,
            output,
            world.output is Read,
        );
    }
    let list = course(Ok(args), settings, world);
    let source = source_course(project, world);
    assert(list.last() == source.last());
    if world.modules || world.install is Succeeded {
        assert(source.last() == prepared_course(plan, world).last());
        assert(prepared_course(plan, world).last() == build_course(plan, command, world).last());
    }
}

/// A build that fails leaves no stamp: the old one is removed before the build is run and no new one
/// is written, and without a stamp the next expansion builds again.
pub proof fn law_failed_build_is_repeated(
    args: MacroArgs<Seq<char>>,
    settings: Settings<Seq<char>>,
    path: Seq<char>,
    command: Seq<char>,
    world: World,
    later: World,
)
    requires
        !settings.dev_proxy,
        world.canonical == Ok::<Seq<char>, Seq<char>>(path),
        world.source,
        world.modules || world.install is Succeeded,
        plan_for((Project { settings, args, path }), world.present).build_command == Some(command),
        build_is_due(
            plan_for((Project { settings, args, path }), world.present),
            command,
            world.sources,
            world.output,
            world.recorded,
        ),
        !(world.build is Succeeded),
        later.canonical == world.canonical,
        later.source,
        later.modules || later.install is Succeeded,
        later.present == world.present,
        later.recorded is None,
    ensures
        ({
            let list = actions(Ok(args), settings, world);
            let stamp = state_file((Project { settings, args, path }), ".stamp"@);
            let n = list.len();
            &&& n > 3
            &&& list[n - 3] == ExpandAction::<Seq<char>, Seq<u8>, Seq<Seq<u8>>>::Forget(stamp)
            &&& list[n - 2] == ExpandAction::<Seq<char>, Seq<u8>, Seq<Seq<u8>>>::Run {
                command,
                dir: path,
            }
            &&& list[n - 1] is Fail
            &&& forall|i: int| 0 <= i < n ==> !(#[trigger] list[i] is Record)
        }),
        commands(actions(Ok(args), settings, later)).len() > 0,
        commands(actions(Ok(args), settings, later)).last() == command,
{
    lemma_failed_build(args, settings, path, command, world);
    law_mode_decides(args, settings, path, later);
}

/// What an expansion does whose build fails.
proof fn lemma_failed_build(
    args: MacroArgs<Seq<char>>,
    settings: Settings<Seq<char>>,
    path: Seq<char>,
    command: Seq<char>,
    world: World,
)
    requires
        !settings.dev_proxy,
        world.canonical == Ok::<Seq<char>, Seq<char>>(path),
        world.source,
        world.modules || world.install is Succeeded,
        plan_for((Project { settings, args, path }), world.present).build_command == Some(command),
        build_is_due(
            plan_for((Project { settings, args, path }), world.present),
            command,
            world.sources,
            world.output,
            world.recorded,
        ),
        !(world.build is Succeeded),
    ensures
        ({
            let list = actions(Ok(args), settings, world);
            let stamp = state_file((Project { settings, args, path }), ".stamp"@);
            let n = list.len();
            &&& n > 3
            &&& list[n - 3] == ExpandAction::<Seq<char>, Seq<u8>, Seq<Seq<u8>>>::Forget(stamp)
            &&& list[n - 2] == ExpandAction::<Seq<char>, Seq<u8>, Seq<Seq<u8>>>::Run {
                command,
                dir: path,
            }
            &&& list[n - 1] is Fail
            &&& forall|i: int| 0 <= i < n ==> !(#[trigger] list[i] is Record)
        }),
{
    let project = Project { settings, args, path };
    let plan = plan_for(project, world.present);
    law_expansion_runs_its_course(Ok(args), settings, world);
    let list = course(Ok(args), settings, world);
    let source = source_course(project, world);
    let prepared = prepared_course(plan, world);
    let build = build_course(plan, command, world);
    let before = if world.modules {
        3int
    } else {
        4
    };
    assert(prepared =~= seq![prepared[0]] + build);
    assert(source =~= source.take(before) + prepared);
    assert(list =~= list.take(2) + source);
    assert(build.len() == 3);
    assert(list.len() == before + 6);
    assert(list[before + 3] == build[0]);
    assert(list[before + 4] == build[1]);
    assert(list[before + 5] == build[2]);
    assert forall|i: int| 0 <= i < list.len() implies !(#[trigger] list[i] is Record) by {
        if i >= 2 {
            assert(list[i] == source[i - 2]);
        }
    }
}

/// Every build is tracked: an expansion in build mode that succeeds makes the project's sources known
/// to cargo, whether or not the build was due.
pub proof fn law_builds_are_tracked(
    args: MacroArgs<Seq<char>>,
    settings: Settings<Seq<char>>,
    path: Seq<char>,
    command: Seq<char>,
    world: World,
)
    requires
        !settings.dev_proxy,
        world.canonical == Ok::<Seq<char>, Seq<char>>(path),
        world.source,
        plan_for((Project { settings, args, path }), world.present).build_command == Some(command),
        actions(Ok(args), settings, world).last() is Emit,
    ensures
        ({
            let list = actions(Ok(args), settings, world);
            let plan = plan_for((Project { settings, args, path }), world.present);
            let found = if build_is_due(
                plan,
                command,
                world.sources,
                world.output,
                world.recorded,
            ) {
                world.sources_after
            } else {
                world.sources
            };
            &&& list.len() > 3
            &&& list[list.len() - 3] == ExpandAction::<Seq<char>, Seq<u8>, Seq<Seq<u8>>>::Track(
                plan_tracking(plan, found),
            )
        }),
{
    let project = Project { settings, args, path };
    let plan = plan_for(project, world.present);
    law_expansion_runs_its_course(Ok(args), settings, world);
    let list = course(Ok(args), settings, world);
    let source = source_course(project, world);
    let prepared = prepared_course(plan, world);
    assert(list =~= list.take(2) + source);
    assert(list.last() == source.last());
    if world.modules {
        assert(source =~= source.take(3) + prepared);
    } else if world.install is Succeeded {
        assert(source =~= source.take(4) + prepared);
    }
    assert(source.last() == prepared.last());
    if build_is_due(plan, command, world.sources, world.output, world.recorded) {
        assert(prepared.last() == build_course(plan, command, world).last());
    }
}

} // verus!
