use trillium_frontend::detect::probed_files;
use trillium_frontend::{detect, detect_framework, detect_pkg_manager, Framework, PkgManager};

fn names(list: &[&str]) -> Vec<String> {
    list.iter().map(|name| name.to_string()).collect()
}

#[test]
fn lock_files_have_priorities() {
    let all = names(&[
        "package-lock.json",
        "yarn.lock",
        "pnpm-lock.yaml",
        "bun.lock",
    ]);
    assert_eq!(detect_pkg_manager(&all), Some(PkgManager::Bun));
    assert_eq!(
        detect_pkg_manager(&names(&["bun.lockb"])),
        Some(PkgManager::Bun)
    );
    assert_eq!(
        detect_pkg_manager(&names(&["yarn.lock", "pnpm-lock.yaml"])),
        Some(PkgManager::Pnpm)
    );
    assert_eq!(
        detect_pkg_manager(&names(&["package-lock.json", "yarn.lock"])),
        Some(PkgManager::Yarn)
    );
    assert_eq!(
        detect_pkg_manager(&names(&["package-lock.json"])),
        Some(PkgManager::Npm)
    );
    assert_eq!(detect_pkg_manager(&names(&["package.json"])), None);
}

#[test]
fn config_files_have_priorities() {
    assert_eq!(
        detect_framework(&names(&["next.config.mjs", "vite.config.ts"])),
        Some(Framework::Vite)
    );
    assert_eq!(
        detect_framework(&names(&["next.config.js", "webpack.config.mjs"])),
        Some(Framework::Webpack)
    );
    assert_eq!(
        detect_framework(&names(&["next.config.ts"])),
        Some(Framework::Next)
    );
    assert_eq!(detect_framework(&names(&["vite.config.cjs"])), None);
}

#[test]
fn commands_of_a_project() {
    let vite = detect(&names(&["bun.lock", "vite.config.js"]));
    assert_eq!(
        vite.full_dev_command().unwrap(),
        "bun run vite --strictPort --clearScreen false"
    );
    assert_eq!(vite.full_build_command().unwrap(), "bun run vite build");
    assert_eq!(vite.dist.as_deref(), Some("dist"));
    assert_eq!(vite.install_command(), "bun install");

    let webpack = detect(&names(&["pnpm-lock.yaml", "webpack.config.js"]));
    assert_eq!(webpack.full_dev_command().unwrap(), "pnpm exec webpack serve");
    assert_eq!(
        webpack.full_build_command().unwrap(),
        "pnpm exec webpack build"
    );
    assert_eq!(webpack.dist.as_deref(), Some("dist"));
    assert_eq!(webpack.install_command(), "pnpm install");

    let next = detect(&names(&["yarn.lock", "next.config.mjs"]));
    assert_eq!(next.full_dev_command().unwrap(), "yarn exec next dev");
    assert_eq!(next.full_build_command().unwrap(), "yarn exec next build");
    assert_eq!(next.dist.as_deref(), Some(".next"));
    assert_eq!(next.install_command(), "yarn install");

    let npm = detect(&names(&["package-lock.json", "vite.config.mjs"]));
    assert_eq!(npm.full_build_command().unwrap(), "npx vite build");
    assert_eq!(npm.install_command(), "npm install");
}

#[test]
fn unknown_projects_have_defaults() {
    let unmanaged = detect(&names(&["vite.config.mjs"]));
    assert_eq!(unmanaged.full_build_command().unwrap(), "npx vite build");
    let unknown = detect(&Vec::new());
    assert_eq!(unknown.full_dev_command(), None);
    assert_eq!(unknown.full_build_command(), None);
    assert_eq!(unknown.dist, None);
    assert_eq!(unknown.install_command(), "npm install");
}

#[test]
fn other_files_tell_nothing() {
    let present = names(&["README.md", "yarn.lock", "src", "next.config.js", "x.lock"]);
    let telling: Vec<String> = present
        .iter()
        .filter(|name| probed_files().contains(&name.as_str()))
        .cloned()
        .collect();
    assert_eq!(telling, ["yarn.lock", "next.config.js"]);
    assert_eq!(detect(&present), detect(&telling));
    assert_eq!(probed_files().len(), 14);
}

#[test]
fn parts_of_commands() {
    assert_eq!(PkgManager::Npm.run_prefix(), "npx");
    assert_eq!(PkgManager::Bun.install_command(), "bun install");
    assert_eq!(Framework::Webpack.dev_command(), "webpack serve");
    assert_eq!(Framework::Next.build_command(), "next build");
    assert_eq!(Framework::Next.dist_dir(), ".next");
}
