//! Which package manager and which framework a frontend project uses, told by the lock and
//! configuration files in its directory.

use vstd::prelude::*;

use crate::text::same_text;

verus! {

/// A JS package manager.
#[derive(Clone, Copy, Debug, PartialEq, Eq, Structural)]
pub enum PkgManager {
    Bun,
    Pnpm,
    Yarn,
    Npm,
}

/// A JS build framework.
#[derive(Clone, Copy, Debug, PartialEq, Eq, Structural)]
pub enum Framework {
    Vite,
    Webpack,
    Next,
}

/// What the files in a project directory tell about the project.
#[derive(Debug, PartialEq, Eq)]
pub struct Detection {
    pub pkg_manager: Option<PkgManager>,
    pub framework: Option<Framework>,
    /// The name of the build output directory, relative to the project directory.
    pub dist: Option<String>,
}

impl PkgManager {
    /// The words that run a project's tool through this package manager.
    pub open spec fn spec_run_prefix(self) -> Seq<char> {
        match self {
            PkgManager::Bun => "bun run"@,
            PkgManager::Pnpm => "pnpm exec"@,
            PkgManager::Yarn => "yarn exec"@,
            PkgManager::Npm => "npx"@,
        }
    }

    /// The command that installs a project's dependencies.
    pub open spec fn spec_install_command(self) -> Seq<char> {
        match self {
            PkgManager::Bun => "bun install"@,
            PkgManager::Pnpm => "pnpm install"@,
            PkgManager::Yarn => "yarn install"@,
            PkgManager::Npm => "npm install"@,
        }
    }

    pub fn run_prefix(&self) -> (prefix: &'static str)
        ensures
            prefix@ == self.spec_run_prefix(),
    {
        match self {
            PkgManager::Bun => "bun run",
            PkgManager::Pnpm => "pnpm exec",
            PkgManager::Yarn => "yarn exec",
            PkgManager::Npm => "npx",
        }
    }

    pub fn install_command(&self) -> (command: &'static str)
        ensures
            command@ == self.spec_install_command(),
    {
        match self {
            PkgManager::Bun => "bun install",
            PkgManager::Pnpm => "pnpm install",
            PkgManager::Yarn => "yarn install",
            PkgManager::Npm => "npm install",
        }
    }
}

impl Framework {
    /// The framework's own command for its dev server.
    pub open spec fn spec_dev_command(self) -> Seq<char> {
        match self {
            Framework::Vite => "vite --strictPort --clearScreen false"@,
            Framework::Webpack => "webpack serve"@,
            Framework::Next => "next dev"@,
        }
    }

    /// The framework's own command for a build.
    pub open spec fn spec_build_command(self) -> Seq<char> {
        match self {
            Framework::Vite => "vite build"@,
            Framework::Webpack => "webpack build"@,
            Framework::Next => "next build"@,
        }
    }

    /// The directory in which the framework leaves a build.
    pub open spec fn spec_dist_dir(self) -> Seq<char> {
        match self {
            Framework::Vite | Framework::Webpack => "dist"@,
            Framework::Next => ".next"@,
        }
    }

    pub fn dev_command(self) -> (command: &'static str)
        ensures
            command@ == self.spec_dev_command(),
    {
        match self {
            Framework::Vite => "vite --strictPort --clearScreen false",
            Framework::Webpack => "webpack serve",
            Framework::Next => "next dev",
        }
    }

    pub fn build_command(self) -> (command: &'static str)
        ensures
            command@ == self.spec_build_command(),
    {
        match self {
            Framework::Vite => "vite build",
            Framework::Webpack => "webpack build",
            Framework::Next => "next build",
        }
    }

    pub fn dist_dir(self) -> (dir: &'static str)
        ensures
            dir@ == self.spec_dist_dir(),
    {
        match self {
            Framework::Vite | Framework::Webpack => "dist",
            Framework::Next => ".next",
        }
    }
}

/// The words that run a project's tool: `npx` where no package manager is known.
pub open spec fn run_prefix_or_default(pkg_manager: Option<PkgManager>) -> Seq<char> {
    match pkg_manager {
        Some(manager) => manager.spec_run_prefix(),
        None => "npx"@,
    }
}

/// The command that installs a project's dependencies: npm's where no package manager is known.
pub open spec fn install_command_or_default(pkg_manager: Option<PkgManager>) -> Seq<char> {
    match pkg_manager {
        Some(manager) => manager.spec_install_command(),
        None => "npm install"@,
    }
}

/// The command for a project's dev server, up to the port.
pub open spec fn dev_command_of(
    pkg_manager: Option<PkgManager>,
    framework: Option<Framework>,
) -> Option<Seq<char>> {
    match framework {
        Some(framework) => Some(
            run_prefix_or_default(pkg_manager) + " "@ + framework.spec_dev_command(),
        ),
        None => None,
    }
}

/// The command for a build of a project.
pub open spec fn build_command_of(
    pkg_manager: Option<PkgManager>,
    framework: Option<Framework>,
) -> Option<Seq<char>> {
    match framework {
        Some(framework) => Some(
            run_prefix_or_default(pkg_manager) + " "@ + framework.spec_build_command(),
        ),
        None => None,
    }
}

/// The build output directory of a project.
pub open spec fn dist_dir_of(framework: Option<Framework>) -> Option<Seq<char>> {
    match framework {
        Some(framework) => Some(framework.spec_dist_dir()),
        None => None,
    }
}

impl Detection {
    /// `bun run vite --strictPort --clearScreen false`, `npx next dev`, and so on; none where no
    /// framework was recognised.
    pub fn full_dev_command(&self) -> (command: Option<String>)
        ensures
            command.deep_view() == dev_command_of(self.pkg_manager, self.framework),
    {
        match self.framework {
            Some(framework) => Some(self.prefixed(framework.dev_command())),
            None => None,
        }
    }

    /// `bun run vite build`, `npx next build`, and so on; none where no framework was recognised.
    pub fn full_build_command(&self) -> (command: Option<String>)
        ensures
            command.deep_view() == build_command_of(self.pkg_manager, self.framework),
    {
        match self.framework {
            Some(framework) => Some(self.prefixed(framework.build_command())),
            None => None,
        }
    }

    /// The command that installs the project's dependencies.
    pub fn install_command(&self) -> (command: &'static str)
        ensures
            command@ == install_command_or_default(self.pkg_manager),
    {
        match self.pkg_manager {
            Some(manager) => manager.install_command(),
            None => "npm install",
        }
    }

    /// A framework's command, run through the project's package manager.
    fn prefixed(&self, command: &str) -> (full: String)
        ensures
            full@ == run_prefix_or_default(self.pkg_manager) + " "@ + command@,
    {
        let prefix = match self.pkg_manager {
            Some(manager) => manager.run_prefix(),
            None => "npx",
        };
        prefix.to_owned().concat(" ").concat(command)
    }
}

/// The package manager whose lock file is there. Of several, the first in the order Bun, pnpm,
/// Yarn, npm counts.
pub open spec fn lock_file_owner(present: Seq<Seq<char>>) -> Option<PkgManager> {
    if present.contains("bun.lockb"@) || present.contains("bun.lock"@) {
        Some(PkgManager::Bun)
    } else if present.contains("pnpm-lock.yaml"@) {
        Some(PkgManager::Pnpm)
    } else if present.contains("yarn.lock"@) {
        Some(PkgManager::Yarn)
    } else if present.contains("package-lock.json"@) {
        Some(PkgManager::Npm)
    } else {
        None
    }
}

/// The framework whose configuration file is there. Of several, the first in the order Vite,
/// Webpack, Next.js counts.
pub open spec fn config_file_owner(present: Seq<Seq<char>>) -> Option<Framework> {
    if present.contains("vite.config.js"@) || present.contains("vite.config.ts"@)
        || present.contains("vite.config.mjs"@) {
        Some(Framework::Vite)
    } else if present.contains("webpack.config.js"@) || present.contains("webpack.config.ts"@)
        || present.contains("webpack.config.mjs"@) {
        Some(Framework::Webpack)
    } else if present.contains("next.config.js"@) || present.contains("next.config.ts"@)
        || present.contains("next.config.mjs"@) {
        Some(Framework::Next)
    } else {
        None
    }
}

/// Whether `name` is one of the names in `present`.
fn has_file(present: &Vec<String>, name: &str) -> (found: bool)
    ensures
        found == present.deep_view().contains(name@),
{
    let mut i: usize = 0;
    while i < present.len()
        invariant
            i <= present@.len(),
            forall|j: int| 0 <= j < i ==> present.deep_view()[j] != name@,
        decreases present.len() - i,
    {
        if same_text(present[i].as_str(), name) {
            assert(present.deep_view()[i as int] == name@);
            return true;
        }
        i = i + 1;
    }
    false
}

/// The package manager of a project in whose directory the files named in `present` exist.
pub fn detect_pkg_manager(present: &Vec<String>) -> (manager: Option<PkgManager>)
    ensures
        manager == lock_file_owner(present.deep_view()),
{
    if has_file(present, "bun.lockb") || has_file(present, "bun.lock") {
        Some(PkgManager::Bun)
    } else if has_file(present, "pnpm-lock.yaml") {
        Some(PkgManager::Pnpm)
    } else if has_file(present, "yarn.lock") {
        Some(PkgManager::Yarn)
    } else if has_file(present, "package-lock.json") {
        Some(PkgManager::Npm)
    } else {
        None
    }
}

/// The framework of a project in whose directory the files named in `present` exist.
pub fn detect_framework(present: &Vec<String>) -> (framework: Option<Framework>)
    ensures
        framework == config_file_owner(present.deep_view()),
{
    if has_file(present, "vite.config.js") || has_file(present, "vite.config.ts") || has_file(
        present,
        "vite.config.mjs",
    ) {
        return Some(Framework::Vite);
    }
    if has_file(present, "webpack.config.js") || has_file(present, "webpack.config.ts")
        || has_file(present, "webpack.config.mjs") {
        return Some(Framework::Webpack);
    }
    if has_file(present, "next.config.js") || has_file(present, "next.config.ts") || has_file(
        present,
        "next.config.mjs",
    ) {
        return Some(Framework::Next);
    }
    None
}

/// What the files named in `present`, which exist in the project directory, tell of the project.
pub fn detect(present: &Vec<String>) -> (detection: Detection)
    ensures
        detection.pkg_manager == lock_file_owner(present.deep_view()),
        detection.framework == config_file_owner(present.deep_view()),
        detection.dist.deep_view() == dist_dir_of(config_file_owner(present.deep_view())),
{
    let pkg_manager = detect_pkg_manager(present);
    let framework = detect_framework(present);
    let dist = match framework {
        Some(framework) => Some(framework.dist_dir().to_owned()),
        None => None,
    };
    Detection { pkg_manager, framework, dist }
}

/// The names of the files that tell of package managers and frameworks.
pub open spec fn telling_files() -> Seq<Seq<char>> {
    seq![
        "bun.lockb"@,
        "bun.lock"@,
        "pnpm-lock.yaml"@,
        "yarn.lock"@,
        "package-lock.json"@,
        "vite.config.js"@,
        "vite.config.ts"@,
        "vite.config.mjs"@,
        "webpack.config.js"@,
        "webpack.config.ts"@,
        "webpack.config.mjs"@,
        "next.config.js"@,
        "next.config.ts"@,
        "next.config.mjs"@,
    ]
}

/// The names of the files that tell of package managers and frameworks.
pub fn probed_files() -> (names: Vec<&'static str>)
    ensures
        names.deep_view() == telling_files(),
{
    let names: Vec<&'static str> = vec![
        "bun.lockb",
        "bun.lock",
        "pnpm-lock.yaml",
        "yarn.lock",
        "package-lock.json",
        "vite.config.js",
        "vite.config.ts",
        "vite.config.mjs",
        "webpack.config.js",
        "webpack.config.ts",
        "webpack.config.mjs",
        "next.config.js",
        "next.config.ts",
        "next.config.mjs",
    ];
    assert(names.deep_view() =~= telling_files());
    names
}

/// No other file tells of a package manager or a framework: two directories with the same telling
/// files are taken for the same.
pub proof fn law_other_files_tell_nothing(one: Seq<Seq<char>>, other: Seq<Seq<char>>)
    requires
        forall|name: Seq<char>| #[trigger]
            telling_files().contains(name) ==> one.contains(name) == other.contains(name),
    ensures
        lock_file_owner(one) == lock_file_owner(other),
        config_file_owner(one) == config_file_owner(other),
{
    let files = telling_files();
    assert forall|i: int| 0 <= i < 14 implies one.contains(#[trigger] files[i]) == other.contains(
        files[i],
    ) by {
        assert(files.contains(files[i]));
    }
    assert(one.contains(files[0]) == other.contains(files[0]));
    assert(one.contains(files[1]) == other.contains(files[1]));
    assert(one.contains(files[2]) == other.contains(files[2]));
    assert(one.contains(files[3]) == other.contains(files[3]));
    assert(one.contains(files[4]) == other.contains(files[4]));
    assert(one.contains(files[5]) == other.contains(files[5]));
    assert(one.contains(files[6]) == other.contains(files[6]));
    assert(one.contains(files[7]) == other.contains(files[7]));
    assert(one.contains(files[8]) == other.contains(files[8]));
    assert(one.contains(files[9]) == other.contains(files[9]));
    assert(one.contains(files[10]) == other.contains(files[10]));
    assert(one.contains(files[11]) == other.contains(files[11]));
    assert(one.contains(files[12]) == other.contains(files[12]));
    assert(one.contains(files[13]) == other.contains(files[13]));
}

/// A dev server, a build and an output directory are known together: where a framework is recognised,
/// and only there.
pub proof fn law_commands_are_known_together(
    pkg_manager: Option<PkgManager>,
    framework: Option<Framework>,
)
    ensures
        dev_command_of(pkg_manager, framework) is Some <==> framework is Some,
        build_command_of(pkg_manager, framework) is Some <==> framework is Some,
        dist_dir_of(framework) is Some <==> framework is Some,
{
}

/// Whether a directory holds the configuration file of a tool, with any of the three extensions that
/// such files have.
pub open spec fn holds_config_of(present: Seq<Seq<char>>, tool: Seq<char>) -> bool {
    ||| present.contains(tool + ".config.js"@)
    ||| present.contains(tool + ".config.ts"@)
    ||| present.contains(tool + ".config.mjs"@)
}

proof fn lemma_config_names()
    ensures
        "vite"@ + ".config.js"@ == "vite.config.js"@,
        "vite"@ + ".config.ts"@ == "vite.config.ts"@,
        "vite"@ + ".config.mjs"@ == "vite.config.mjs"@,
        "webpack"@ + ".config.js"@ == "webpack.config.js"@,
        "webpack"@ + ".config.ts"@ == "webpack.config.ts"@,
        "webpack"@ + ".config.mjs"@ == "webpack.config.mjs"@,
        "next"@ + ".config.js"@ == "next.config.js"@,
        "next"@ + ".config.ts"@ == "next.config.ts"@,
        "next"@ + ".config.mjs"@ == "next.config.mjs"@,
{
    reveal_strlit("vite");
    reveal_strlit("webpack");
    reveal_strlit("next");
    reveal_strlit(".config.js");
    reveal_strlit(".config.ts");
    reveal_strlit(".config.mjs");
    reveal_strlit("vite.config.js");
    reveal_strlit("vite.config.ts");
    reveal_strlit("vite.config.mjs");
    reveal_strlit("webpack.config.js");
    reveal_strlit("webpack.config.ts");
    reveal_strlit("webpack.config.mjs");
    reveal_strlit("next.config.js");
    reveal_strlit("next.config.ts");
    reveal_strlit("next.config.mjs");
    assert("vite"@ + ".config.js"@ =~= "vite.config.js"@);
    assert("vite"@ + ".config.ts"@ =~= "vite.config.ts"@);
    assert("vite"@ + ".config.mjs"@ =~= "vite.config.mjs"@);
    assert("webpack"@ + ".config.js"@ =~= "webpack.config.js"@);
    assert("webpack"@ + ".config.ts"@ =~= "webpack.config.ts"@);
    assert("webpack"@ + ".config.mjs"@ =~= "webpack.config.mjs"@);
    assert("next"@ + ".config.js"@ =~= "next.config.js"@);
    assert("next"@ + ".config.ts"@ =~= "next.config.ts"@);
    assert("next"@ + ".config.mjs"@ =~= "next.config.mjs"@);
}

/// A configuration file tells of the tool that it is named after, whatever its extension and whatever
/// else is there, unless there is one of a tool that comes before it: Vite, Webpack, Next.js. Without
/// any of them no framework is recognised.
pub proof fn law_configuration_is_named_after_its_tool(present: Seq<Seq<char>>)
    ensures
        holds_config_of(present, "vite"@) ==> config_file_owner(present) == Some(Framework::Vite),
        holds_config_of(present, "webpack"@) && !holds_config_of(present, "vite"@)
            ==> config_file_owner(present) == Some(Framework::Webpack),
        holds_config_of(present, "next"@) && !holds_config_of(present, "webpack"@)
            && !holds_config_of(present, "vite"@) ==> config_file_owner(present) == Some(
            Framework::Next,
        ),
        config_file_owner(present) is Some ==> holds_config_of(present, "vite"@)
            || holds_config_of(present, "webpack"@) || holds_config_of(present, "next"@),
{
    lemma_config_names();
}

/// A lock file tells of the package manager that leaves it, whatever else is there, unless there is
/// one of a manager that comes before it: Bun, pnpm, Yarn, npm. Without any of them none is known.
pub proof fn law_lock_file_is_left_by_its_manager(present: Seq<Seq<char>>)
    ensures
        ({
            let bun = present.contains("bun.lockb"@) || present.contains("bun.lock"@);
            let pnpm = present.contains("pnpm-lock.yaml"@);
            let yarn = present.contains("yarn.lock"@);
            let npm = present.contains("package-lock.json"@);
            &&& bun ==> lock_file_owner(present) == Some(PkgManager::Bun)
            &&& pnpm && !bun ==> lock_file_owner(present) == Some(PkgManager::Pnpm)
            &&& yarn && !pnpm && !bun ==> lock_file_owner(present) == Some(PkgManager::Yarn)
            &&& npm && !yarn && !pnpm && !bun ==> lock_file_owner(present) == Some(PkgManager::Npm)
            &&& lock_file_owner(present) is Some ==> bun || pnpm || yarn || npm
        }),
{
}

/// What is recognised goes by which files are there, and not by how often or in which order they are
/// named.
pub proof fn law_files_count_once_and_in_any_order(one: Seq<Seq<char>>, other: Seq<Seq<char>>)
    requires
        forall|name: Seq<char>| #[trigger] one.contains(name) <==> other.contains(name),
    ensures
        lock_file_owner(one) == lock_file_owner(other),
        config_file_owner(one) == config_file_owner(other),
{
}

/// The commands that start a project's dev server, in full, for every package manager and framework.
pub proof fn law_dev_commands_in_full(pkg_manager: Option<PkgManager>)
    ensures
        dev_command_of(Some(PkgManager::Bun), Some(Framework::Vite)) == Some(
            "bun run vite --strictPort --clearScreen false"@,
        ),
        dev_command_of(Some(PkgManager::Bun), Some(Framework::Webpack)) == Some(
            "bun run webpack serve"@,
        ),
        dev_command_of(Some(PkgManager::Bun), Some(Framework::Next)) == Some(
            "bun run next dev"@,
        ),
        dev_command_of(Some(PkgManager::Pnpm), Some(Framework::Vite)) == Some(
            "pnpm exec vite --strictPort --clearScreen false"@,
        ),
        dev_command_of(Some(PkgManager::Pnpm), Some(Framework::Webpack)) == Some(
            "pnpm exec webpack serve"@,
        ),
        dev_command_of(Some(PkgManager::Pnpm), Some(Framework::Next)) == Some(
            "pnpm exec next dev"@,
        ),
        dev_command_of(Some(PkgManager::Yarn), Some(Framework::Vite)) == Some(
            "yarn exec vite --strictPort --clearScreen false"@,
        ),
        dev_command_of(Some(PkgManager::Yarn), Some(Framework::Webpack)) == Some(
            "yarn exec webpack serve"@,
        ),
        dev_command_of(Some(PkgManager::Yarn), Some(Framework::Next)) == Some(
            "yarn exec next dev"@,
        ),
        dev_command_of(Some(PkgManager::Npm), Some(Framework::Vite)) == Some(
            "npx vite --strictPort --clearScreen false"@,
        ),
        dev_command_of(Some(PkgManager::Npm), Some(Framework::Webpack)) == Some(
            "npx webpack serve"@,
        ),
        dev_command_of(Some(PkgManager::Npm), Some(Framework::Next)) == Some("npx next dev"@),
        dev_command_of(None, Some(Framework::Vite)) == Some(
            "npx vite --strictPort --clearScreen false"@,
        ),
        dev_command_of(None, Some(Framework::Webpack)) == Some("npx webpack serve"@),
        dev_command_of(None, Some(Framework::Next)) == Some("npx next dev"@),
        dev_command_of(pkg_manager, None) is None,
{
    reveal_strlit(" ");
    reveal_strlit("bun run");
    reveal_strlit("bun run next dev");
    reveal_strlit("bun run vite --strictPort --clearScreen false");
    reveal_strlit("bun run webpack serve");
    reveal_strlit("next build");
    reveal_strlit("next dev");
    reveal_strlit("npx");
    reveal_strlit("npx next dev");
    reveal_strlit("npx vite --strictPort --clearScreen false");
    reveal_strlit("npx webpack serve");
    reveal_strlit("pnpm exec");
    reveal_strlit("pnpm exec next dev");
    reveal_strlit("pnpm exec vite --strictPort --clearScreen false");
    reveal_strlit("pnpm exec webpack serve");
    reveal_strlit("vite --strictPort --clearScreen false");
    reveal_strlit("vite build");
    reveal_strlit("webpack build");
    reveal_strlit("webpack serve");
    reveal_strlit("yarn exec");
    reveal_strlit("yarn exec next dev");
    reveal_strlit("yarn exec vite --strictPort --clearScreen false");
    reveal_strlit("yarn exec webpack serve");
    assert("bun run"@ + " "@ + "vite --strictPort --clearScreen false"@ =~= "bun run vite --strictPort --clearScreen false"@);
    assert("bun run"@ + " "@ + "webpack serve"@ =~= "bun run webpack serve"@);
    assert("bun run"@ + " "@ + "next dev"@ =~= "bun run next dev"@);
    assert("pnpm exec"@ + " "@ + "vite --strictPort --clearScreen false"@ =~= "pnpm exec vite --strictPort --clearScreen false"@);
    assert("pnpm exec"@ + " "@ + "webpack serve"@ =~= "pnpm exec webpack serve"@);
    assert("pnpm exec"@ + " "@ + "next dev"@ =~= "pnpm exec next dev"@);
    assert("yarn exec"@ + " "@ + "vite --strictPort --clearScreen false"@ =~= "yarn exec vite --strictPort --clearScreen false"@);
    assert("yarn exec"@ + " "@ + "webpack serve"@ =~= "yarn exec webpack serve"@);
    assert("yarn exec"@ + " "@ + "next dev"@ =~= "yarn exec next dev"@);
    assert("npx"@ + " "@ + "vite --strictPort --clearScreen false"@ =~= "npx vite --strictPort --clearScreen false"@);
    assert("npx"@ + " "@ + "webpack serve"@ =~= "npx webpack serve"@);
    assert("npx"@ + " "@ + "next dev"@ =~= "npx next dev"@);
}

/// The commands that build a project, in full, for every package manager and framework.
pub proof fn law_build_commands_in_full(pkg_manager: Option<PkgManager>)
    ensures
        build_command_of(Some(PkgManager::Bun), Some(Framework::Vite)) == Some(
            "bun run vite build"@,
        ),
        build_command_of(Some(PkgManager::Bun), Some(Framework::Webpack)) == Some(
            "bun run webpack build"@,
        ),
        build_command_of(Some(PkgManager::Bun), Some(Framework::Next)) == Some(
            "bun run next build"@,
        ),
        build_command_of(Some(PkgManager::Pnpm), Some(Framework::Vite)) == Some(
            "pnpm exec vite build"@,
        ),
        build_command_of(Some(PkgManager::Pnpm), Some(Framework::Webpack)) == Some(
            "pnpm exec webpack build"@,
        ),
        build_command_of(Some(PkgManager::Pnpm), Some(Framework::Next)) == Some(
            "pnpm exec next build"@,
        ),
        build_command_of(Some(PkgManager::Yarn), Some(Framework::Vite)) == Some(
            "yarn exec vite build"@,
        ),
        build_command_of(Some(PkgManager::Yarn), Some(Framework::Webpack)) == Some(
            "yarn exec webpack build"@,
        ),
        build_command_of(Some(PkgManager::Yarn), Some(Framework::Next)) == Some(
            "yarn exec next build"@,
        ),
        build_command_of(Some(PkgManager::Npm), Some(Framework::Vite)) == Some(
            "npx vite build"@,
        ),
        build_command_of(Some(PkgManager::Npm), Some(Framework::Webpack)) == Some(
            "npx webpack build"@,
        ),
        build_command_of(Some(PkgManager::Npm), Some(Framework::Next)) == Some(
            "npx next build"@,
        ),
        build_command_of(None, Some(Framework::Vite)) == Some("npx vite build"@),
        build_command_of(None, Some(Framework::Webpack)) == Some("npx webpack build"@),
        build_command_of(None, Some(Framework::Next)) == Some("npx next build"@),
        build_command_of(pkg_manager, None) is None,
{
    reveal_strlit(" ");
    reveal_strlit("bun run");
    reveal_strlit("bun run next build");
    reveal_strlit("bun run vite build");
    reveal_strlit("bun run webpack build");
    reveal_strlit("next build");
    reveal_strlit("next dev");
    reveal_strlit("npx");
    reveal_strlit("npx next build");
    reveal_strlit("npx vite build");
    reveal_strlit("npx webpack build");
    reveal_strlit("pnpm exec");
    reveal_strlit("pnpm exec next build");
    reveal_strlit("pnpm exec vite build");
    reveal_strlit("pnpm exec webpack build");
    reveal_strlit("vite --strictPort --clearScreen false");
    reveal_strlit("vite build");
    reveal_strlit("webpack build");
    reveal_strlit("webpack serve");
    reveal_strlit("yarn exec");
    reveal_strlit("yarn exec next build");
    reveal_strlit("yarn exec vite build");
    reveal_strlit("yarn exec webpack build");
    assert("bun run"@ + " "@ + "vite build"@ =~= "bun run vite build"@);
    assert("bun run"@ + " "@ + "webpack build"@ =~= "bun run webpack build"@);
    assert("bun run"@ + " "@ + "next build"@ =~= "bun run next build"@);
    assert("pnpm exec"@ + " "@ + "vite build"@ =~= "pnpm exec vite build"@);
    assert("pnpm exec"@ + " "@ + "webpack build"@ =~= "pnpm exec webpack build"@);
    assert("pnpm exec"@ + " "@ + "next build"@ =~= "pnpm exec next build"@);
    assert("yarn exec"@ + " "@ + "vite build"@ =~= "yarn exec vite build"@);
    assert("yarn exec"@ + " "@ + "webpack build"@ =~= "yarn exec webpack build"@);
    assert("yarn exec"@ + " "@ + "next build"@ =~= "yarn exec next build"@);
    assert("npx"@ + " "@ + "vite build"@ =~= "npx vite build"@);
    assert("npx"@ + " "@ + "webpack build"@ =~= "npx webpack build"@);
    assert("npx"@ + " "@ + "next build"@ =~= "npx next build"@);
}

/// A package manager installs under its own name, npm where none is known.
pub proof fn law_installation_in_full()
    ensures
        install_command_or_default(Some(PkgManager::Bun)) == "bun"@ + " install"@,
        install_command_or_default(Some(PkgManager::Pnpm)) == "pnpm"@ + " install"@,
        install_command_or_default(Some(PkgManager::Yarn)) == "yarn"@ + " install"@,
        install_command_or_default(Some(PkgManager::Npm)) == "npm"@ + " install"@,
        install_command_or_default(None) == "npm"@ + " install"@,
{
    reveal_strlit("bun");
    reveal_strlit("pnpm");
    reveal_strlit("yarn");
    reveal_strlit("npm");
    reveal_strlit(" install");
    reveal_strlit("bun install");
    reveal_strlit("pnpm install");
    reveal_strlit("yarn install");
    reveal_strlit("npm install");
    assert("bun"@ + " install"@ =~= "bun install"@);
    assert("pnpm"@ + " install"@ =~= "pnpm install"@);
    assert("yarn"@ + " install"@ =~= "yarn install"@);
    assert("npm"@ + " install"@ =~= "npm install"@);
}

/// Each framework leaves its build where it does: Next.js in `.next`, the others in `dist`.
pub proof fn law_output_directories_in_full(framework: Option<Framework>)
    ensures
        framework is None <==> dist_dir_of(framework) is None,
        framework == Some(Framework::Next) ==> dist_dir_of(framework) == Some(".next"@),
        framework == Some(Framework::Vite) || framework == Some(Framework::Webpack) ==> dist_dir_of(
            framework,
        ) == Some("dist"@),
{
}

} // verus!
