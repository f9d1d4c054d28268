//! Serving a JS frontend project from a [Trillium](https://trillium.rs) server, in one of three
//! modes:
//!
//! - **Build mode** (sources available): the project is built when the server is compiled, and what
//!   the build leaves is embedded in the server.
//! - **Prebuilt mode** (no sources): what was built before is embedded as it is.
//! - **Dev-proxy mode** (sources available, and asked for): the project's dev server is started, and
//!   requests are forwarded to it.
//!
//! The modules, from the outside in:
//!
//! - [`handler`]: the handler that serves requests, and its start.
//! - [`expand`], [`expansion`], [`course`] and [`modes`]: the expansion of the `frontend!` macro, step
//!   by step, as a whole, and mode by mode.
//! - [`args`]: the macro's arguments.
//! - [`detect`]: the project's package manager and framework.
//! - [`sources`]: which files are inputs of a build.
//! - [`manifest`]: how these files are made known to cargo.
//! - [`toolchain`]: whether the compiler takes such files from the macro itself.
//! - [`stamp`]: whether a build is due.
//! - [`messages`]: what a user is told when something fails.
//! - [`paths`], [`joining`] and [`text`]: what all of these are written with.
//! - [`outside`]: what is taken from other crates, and trusted.

pub mod args;
pub mod course;
pub mod detect;
pub mod expand;
pub mod expansion;
pub mod handler;
pub mod joining;
pub mod manifest;
pub mod messages;
pub mod modes;
pub mod outside;
pub mod paths;
pub mod sources;
pub mod stamp;
pub mod text;
pub mod toolchain;

pub use detect::{detect, detect_framework, detect_pkg_manager, Detection, Framework, PkgManager};
pub use expand::{begin, begin_with, frontend_impl};
pub use handler::FrontendHandler;
pub use manifest::{register_tracked, rerun_paths, track_sources};
pub use paths::{resolve_path, PathStyle};
pub use toolchain::is_nightly;
