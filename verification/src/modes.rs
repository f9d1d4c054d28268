//! What an expansion does in each of the three modes, from the first action to the last.

use vstd::prelude::*;
#[allow(unused_imports)]
use vstd::utf8::encode_utf8;

#[allow(unused_imports)]
use crate::args::{ArgError, MacroArgs};
#[allow(unused_imports)]
use crate::course::{
    actions, build_course, course, embedding_course, law_expansion_runs_its_course, prepared_course,
    source_course, World,
};
#[allow(unused_imports)]
use crate::detect::{
    config_file_owner, dev_command_of, install_command_or_default, lock_file_owner,
};
#[allow(unused_imports)]
use crate::expand::{
    build_is_due, input_of, law_stamp_tells_what_was_built, plan_for, plan_tracking, stamp_of,
};
#[allow(unused_imports)]
use crate::expansion::{
    ActionModel, ExpandAction, ExpandError, HandlerCall, Plan, Project, RunOutcome, Settings,
};
#[allow(unused_imports)]
use crate::manifest::project_key;
#[allow(unused_imports)]
use crate::paths::joined;
#[allow(unused_imports)]
use crate::sources::collected;
#[allow(unused_imports)]
use crate::stamp::build_stamp;
#[allow(unused_imports)]
use crate::text::hex_text;

verus! {

/// Arguments that cannot be read, and a path that leads nowhere, end the expansion before anything is
/// looked at or run.
pub proof fn law_nothing_without_a_project(
    args: MacroArgs<Seq<char>>,
    error: ArgError<Seq<char>>,
    settings: Settings<Seq<char>>,
    reason: Seq<char>,
    world: World,
)
    requires
        world.canonical == Err::<Seq<char>, Seq<char>>(reason),
    ensures
        actions(Err(error), settings, world) == seq![
            ExpandAction::<Seq<char>, Seq<u8>, Seq<Seq<u8>>>::Fail(ExpandError::Args(error)),
        ],
        actions(Ok(args), settings, world) == seq![
            ExpandAction::<Seq<char>, Seq<u8>, Seq<Seq<u8>>>::Canonicalize(
                joined(settings.manifest_dir, args.path, settings.style),
            ),
            ExpandAction::<Seq<char>, Seq<u8>, Seq<Seq<u8>>>::Fail(
                ExpandError::Unresolved { path: args.path, error: reason },
            ),
        ],
{
    law_expansion_runs_its_course(Err(error), settings, world);
    law_expansion_runs_its_course(Ok(args), settings, world);
    assert(course(Ok(args), settings, world) =~= seq![
        ExpandAction::<Seq<char>, Seq<u8>, Seq<Seq<u8>>>::Canonicalize(
            joined(settings.manifest_dir, args.path, settings.style),
        ),
        ExpandAction::<Seq<char>, Seq<u8>, Seq<Seq<u8>>>::Fail(
            ExpandError::Unresolved { path: args.path, error: reason },
        ),
    ]);
}

/// Prebuilt mode in full. Without a `package.json`, the output directory - the `dist` argument, or
/// `dist` - is embedded if it is there, with its `index.html` as the fallback if that is; nothing is
/// locked, run, recorded or tracked, whether or not a dev server was asked for.
pub proof fn law_prebuilt_mode_in_full(
    args: MacroArgs<Seq<char>>,
    settings: Settings<Seq<char>>,
    path: Seq<char>,
    world: World,
)
    requires
        world.canonical == Ok::<Seq<char>, Seq<char>>(path),
        !world.source,
    ensures
        ({
            let dist_dir = joined(
                path,
                match args.dist {
                    Some(dist) => dist,
                    None => "dist"@,
                },
                settings.style,
            );
            let index = joined(dist_dir, "index.html"@, settings.style);
            let call = HandlerCall {
                assets: Some(dist_dir),
                spa_fallback: if world.index {
                    Some(index)
                } else {
                    None
                },
                project_path: path,
                dev_command: None,
            };
            actions(Ok(args), settings, world) == seq![
                ExpandAction::<Seq<char>, Seq<u8>, Seq<Seq<u8>>>::Canonicalize(
                    joined(settings.manifest_dir, args.path, settings.style),
                ),
                ExpandAction::<Seq<char>, Seq<u8>, Seq<Seq<u8>>>::CheckExists(
                    joined(path, "package.json"@, settings.style),
                ),
                ExpandAction::<Seq<char>, Seq<u8>, Seq<Seq<u8>>>::CheckExists(dist_dir),
            ] + (if world.dist {
                seq![
                    ExpandAction::<Seq<char>, Seq<u8>, Seq<Seq<u8>>>::CheckExists(index),
                    ExpandAction::<Seq<char>, Seq<u8>, Seq<Seq<u8>>>::Emit(call),
                ]
            } else {
                seq![
                    ExpandAction::<Seq<char>, Seq<u8>, Seq<Seq<u8>>>::Fail(ExpandError::NoDist { dist_dir }),
                ]
            })
        }),
{
    law_expansion_runs_its_course(Ok(args), settings, world);
    let list = course(Ok(args), settings, world);
    let dist_dir = joined(
        path,
        match args.dist {
            Some(dist) => dist,
            None => "dist"@,
        },
        settings.style,
    );
    let index = joined(dist_dir, "index.html"@, settings.style);
    let call = HandlerCall {
        assets: Some(dist_dir),
        spa_fallback: if world.index {
            Some(index)
        } else {
            None
        },
        project_path: path,
        dev_command: None,
    };
    let end = if world.dist {
        seq![
            ExpandAction::<Seq<char>, Seq<u8>, Seq<Seq<u8>>>::CheckExists(index),
            ExpandAction::<Seq<char>, Seq<u8>, Seq<Seq<u8>>>::Emit(call),
        ]
    } else {
        seq![
            ExpandAction::<Seq<char>, Seq<u8>, Seq<Seq<u8>>>::Fail(ExpandError::NoDist { dist_dir }),
        ]
    };
    assert(list =~= seq![
        ExpandAction::<Seq<char>, Seq<u8>, Seq<Seq<u8>>>::Canonicalize(
            joined(settings.manifest_dir, args.path, settings.style),
        ),
        ExpandAction::<Seq<char>, Seq<u8>, Seq<Seq<u8>>>::CheckExists(
            joined(path, "package.json"@, settings.style),
        ),
        ExpandAction::<Seq<char>, Seq<u8>, Seq<Seq<u8>>>::CheckExists(dist_dir),
    ] + end);
}

/// What is done with the sources there, up to where the dependencies are: the telling files are looked
/// for, the project's lock is taken, and the dependencies are installed if and only if `node_modules`
/// does not exist.
pub open spec fn preparation(
    args: MacroArgs<Seq<char>>,
    settings: Settings<Seq<char>>,
    path: Seq<char>,
    world: World,
) -> Seq<ActionModel> {
    let lock = "trillium-frontend-"@ + hex_text(project_key(path) as nat, 16) + ".lock"@;
    seq![
        ExpandAction::<Seq<char>, Seq<u8>, Seq<Seq<u8>>>::Canonicalize(
            joined(settings.manifest_dir, args.path, settings.style),
        ),
        ExpandAction::<Seq<char>, Seq<u8>, Seq<Seq<u8>>>::CheckExists(
            joined(path, "package.json"@, settings.style),
        ),
        ExpandAction::<Seq<char>, Seq<u8>, Seq<Seq<u8>>>::Probe(path),
        ExpandAction::<Seq<char>, Seq<u8>, Seq<Seq<u8>>>::Lock(
            joined(settings.state_dir, lock, settings.style),
        ),
        ExpandAction::<Seq<char>, Seq<u8>, Seq<Seq<u8>>>::CheckExists(
            joined(path, "node_modules"@, settings.style),
        ),
    ] + (if world.modules {
        seq![]
    } else {
        seq![
            ExpandAction::<Seq<char>, Seq<u8>, Seq<Seq<u8>>>::Run {
                command: install_command_or_default(lock_file_owner(world.present)),
                dir: path,
            },
        ]
    })
}

/// With the sources there, an expansion whose dependencies cannot be installed ends there, and says how
/// the installation did; any other goes on behind its preparation.
pub proof fn law_preparation_comes_first(
    args: MacroArgs<Seq<char>>,
    settings: Settings<Seq<char>>,
    path: Seq<char>,
    world: World,
)
    requires
        world.canonical == Ok::<Seq<char>, Seq<char>>(path),
        world.source,
    ensures
        ({
            let list = actions(Ok(args), settings, world);
            let first = preparation(args, settings, path, world);
            let command = install_command_or_default(lock_file_owner(world.present));
            let plan = plan_for(Project { settings, args, path }, world.present);
            &&& !world.modules ==> (world.install matches RunOutcome::Failed { status } ==> list
                == first.push(ExpandAction::Fail(ExpandError::InstallFailed { command, status })))
            &&& !world.modules ==> (world.install matches RunOutcome::NotStarted { error } ==> list
                == first.push(ExpandAction::Fail(ExpandError::InstallNotStarted { command, error })))
            &&& world.modules || world.install is Succeeded ==> list == first + prepared_course(
                plan,
                world,
            )
        }),
{
    law_expansion_runs_its_course(Ok(args), settings, world);
    let project = Project { settings, args, path };
    let plan = plan_for(project, world.present);
    let list = course(Ok(args), settings, world);
    let source = source_course(project, world);
    let first = preparation(args, settings, path, world);
    assert(list =~= seq![list[0], list[1]] + source);
    if world.modules || world.install is Succeeded {
        let n = first.len() as int;
        assert(source =~= source.take(n - 2) + prepared_course(plan, world));
        assert(seq![list[0], list[1]] + source.take(n - 2) =~= first);
        assert(list =~= first + prepared_course(plan, world));
    } else {
        assert(source.len() == 5);
        assert(list =~= first.push(list[6]));
    }
}

/// Dev-proxy mode in full. With the sources there and a dev server asked for, nothing is built, recorded
/// or tracked: behind its preparation, the expansion is to the project's path and the command that its
/// lock and configuration files tell of, with nothing embedded.
pub proof fn law_dev_proxy_mode_in_full(
    args: MacroArgs<Seq<char>>,
    settings: Settings<Seq<char>>,
    path: Seq<char>,
    world: World,
)
    requires
        world.canonical == Ok::<Seq<char>, Seq<char>>(path),
        world.source,
        settings.dev_proxy,
        world.modules || world.install is Succeeded,
    ensures
        ({
            let call = HandlerCall {
                assets: None,
                spa_fallback: None,
                project_path: path,
                dev_command: dev_command_of(
                    lock_file_owner(world.present),
                    config_file_owner(world.present),
                ),
            };
            actions(Ok(args), settings, world) == preparation(args, settings, path, world).push(
                ExpandAction::Emit(call),
            )
        }),
{
    law_preparation_comes_first(args, settings, path, world);
    let plan = plan_for(Project { settings, args, path }, world.present);
    let first = preparation(args, settings, path, world);
    let end = prepared_course(plan, world);
    assert(first + end =~= first.push(end[0]));
}

/// Build mode in full. With the sources there and no dev server asked for, behind its preparation the
/// expansion fails if there is no build command. Else it looks at the sources, the output and the stamp;
/// builds - with the stamp out of the way before, and written after - if there is no output or the stamp
/// is not that of just this session, command, output directory, sources and output; makes the sources
/// known to cargo; and embeds the output directory, with its `index.html` as the fallback if that is
/// there.
pub proof fn law_build_mode_in_full(
    args: MacroArgs<Seq<char>>,
    settings: Settings<Seq<char>>,
    path: Seq<char>,
    world: World,
)
    requires
        world.canonical == Ok::<Seq<char>, Seq<char>>(path),
        world.source,
        !settings.dev_proxy,
        world.modules || world.install is Succeeded,
    ensures
        ({
            let list = actions(Ok(args), settings, world);
            let first = preparation(args, settings, path, world);
            let plan = plan_for(Project { settings, args, path }, world.present);
            let command = plan.build_command->0;
            let dist_dir = plan.dist_dir;
            let stamp_name = "trillium-frontend-"@ + hex_text(project_key(path) as nat, 16)
                + ".stamp"@;
            let stamp_path = joined(settings.state_dir, stamp_name, settings.style);
            let scan = ExpandAction::<Seq<char>, Seq<u8>, Seq<Seq<u8>>>::Scan {
                project_path: path,
                dist_dir,
                stamp_path,
            };
            let run = ExpandAction::<Seq<char>, Seq<u8>, Seq<Seq<u8>>>::Run { command, dir: path };
            let index = joined(dist_dir, "index.html"@, settings.style);
            let call = HandlerCall {
                assets: Some(dist_dir),
                spa_fallback: if world.index {
                    Some(index)
                } else {
                    None
                },
                project_path: path,
                dev_command: None,
            };
            let end = seq![
                ExpandAction::<Seq<char>, Seq<u8>, Seq<Seq<u8>>>::CheckExists(index),
                ExpandAction::<Seq<char>, Seq<u8>, Seq<Seq<u8>>>::Emit(call),
            ];
            let stamp = |output: crate::sources::Listing|
                build_stamp(
                    settings.session,
                    command,
                    dist_dir,
                    collected(
                        encode_utf8(path),
                        world.sources,
                        encode_utf8(dist_dir),
                        settings.style,
                    ),
                    collected(encode_utf8(dist_dir), output, encode_utf8(""@), settings.style),
                );
            let kept = world.output is Read && world.recorded == Some(stamp(world.output));
            &&& plan.build_command is None ==> list == first.push(
                ExpandAction::Fail(ExpandError::NoBuildCommand),
            )
            &&& plan.build_command is Some && kept ==> list == first + seq![
                scan,
                ExpandAction::Track(plan_tracking(plan, world.sources)),
            ] + end
            &&& plan.build_command is Some && !kept && world.build is Succeeded ==> list == first + seq![
                scan,
                ExpandAction::Forget(stamp_path),
                run,
                scan,
                ExpandAction::Record { path: stamp_path, stamp: stamp(world.output_after) },
                ExpandAction::Track(plan_tracking(plan, world.sources_after)),
            ] + end
            &&& plan.build_command is Some && !kept ==> (world.build matches RunOutcome::Failed {
                status,
            } ==> list == first + seq![
                scan,
                ExpandAction::Forget(stamp_path),
                run,
                ExpandAction::Fail(ExpandError::BuildFailed { command, status }),
            ])
            &&& plan.build_command is Some && !kept ==> (world.build matches RunOutcome::NotStarted {
                error,
            } ==> list == first + seq![
                scan,
                ExpandAction::Forget(stamp_path),
                run,
                ExpandAction::Fail(ExpandError::BuildNotStarted { command, error }),
            ])
        }),
{
    law_preparation_comes_first(args, settings, path, world);
    let plan = plan_for(Project { settings, args, path }, world.present);
    let first = preparation(args, settings, path, world);
    let rest = prepared_course(plan, world);
    if plan.build_command is None {
        assert(first + rest =~= first.push(ExpandAction::Fail(ExpandError::NoBuildCommand)));
    } else {
        let command = plan.build_command->0;
        law_stamp_tells_what_was_built(plan, command, world.sources, world.output, world.recorded);
        law_stamp_tells_what_was_built(
            plan,
            command,
            world.sources,
            world.output_after,
            world.recorded,
        );
        let end = embedding_course(path, plan.dist_dir, world.index, settings.style);
        if build_is_due(plan, command, world.sources, world.output, world.recorded) {
            let build = build_course(plan, command, world);
            if world.build is Succeeded {
                let middle = seq![rest[0], build[0], build[1], build[2], build[3], build[4]];
                assert(rest =~= middle + end);
                assert(first + (middle + end) =~= first + middle + end);
            } else {
                assert(rest =~= seq![rest[0], build[0], build[1], build[2]]);
            }
        } else {
            let middle = seq![rest[0], rest[1]];
            assert(rest =~= middle + end);
            assert(first + (middle + end) =~= first + middle + end);
        }
    }
}

} // verus!
