//! What a user is told when something fails.

use vstd::prelude::*;

use crate::args::ArgError;
use crate::expansion::ExpandError;
use crate::handler::InitError;

verus! {

/// The message for an error.
pub open spec fn arg_error_text(error: ArgError<Seq<char>>) -> Seq<char> {
    match error {
        ArgError::ExpectedKey { got } => "trillium-frontend: expected key identifier, got "@ + got,
        ArgError::ExpectedEquals { key, got } => {
            "trillium-frontend: expected `=` after `"@
                + key
                + "`, got "@
                + got
        },
        ArgError::ExpectedLiteral { key, got } => {
            "trillium-frontend: expected string literal for `"@
                + key
                + "`, got "@
                + got
        },
        ArgError::NotString { literal } => {
            "trillium-frontend: expected a string literal, got "@
                + literal
        },
        ArgError::UnknownKey { key } => {
            "trillium-frontend: unknown key `"@
                + key
                + "`; valid keys: path, build, dist"@
        },
        ArgError::Truncated => "trillium-frontend: unexpected end of the arguments"@,
        ArgError::PathRequired => "trillium-frontend: `path` is required"@,
    }
}

/// The message for an error.
pub open spec fn expand_error_text(error: ExpandError<Seq<char>>) -> Seq<char> {
    match error {
        ExpandError::Args(error) => arg_error_text(error),
        ExpandError::Unresolved { path, error } => {
            "trillium-frontend: could not resolve path `"@
                + path
                + "`: "@
                + error
        },
        ExpandError::NoDist { dist_dir } => {
            "trillium-frontend: no source (package.json) and no pre-built dist directory found at `"@
                + dist_dir
                + "`. Either include the dist directory in your published crate or ensure the frontend source is available."@
        },
        ExpandError::InstallNotStarted { command, error } => {
            "trillium-frontend: failed to run `"@
                + command
                + "`: "@
                + error
        },
        ExpandError::InstallFailed { command, status } => {
            "trillium-frontend: `"@
                + command
                + "` failed with "@
                + status
        },
        ExpandError::NoBuildCommand => {
            "trillium-frontend: could not detect a build command; specify build = \"...\" in the macro"@
        },
        ExpandError::BuildNotStarted { command, error } => {
            "trillium-frontend: failed to run build `"@
                + command
                + "`: "@
                + error
        },
        ExpandError::BuildFailed { command, status } => {
            "trillium-frontend: build command `"@
                + command
                + "` failed with "@
                + status
        },
        ExpandError::OutOfTurn => {
            "trillium-frontend: the expansion was told what it did not ask for"@
        },
    }
}

/// The message for an error.
pub open spec fn init_error_text(error: InitError<Seq<char>>) -> Seq<char> {
    match error {
        InitError::MissingClient => {
            "trillium-frontend: in dev-proxy mode, provide a Client via .with_client()"@
        },
        InitError::NoFreePort => {
            "trillium-frontend: could not find a free port for the dev server"@
        },
        InitError::NoDevCommand => {
            "trillium-frontend: no dev command detected; configure with .with_dev_command()"@
        },
        InitError::SpawnFailed { error } => {
            "trillium-frontend: failed to spawn dev server: "@
                + error
        },
        InitError::BadUpstream => "trillium-frontend: the address of the dev server is no URL"@,
        InitError::ConnectFailed { error } => {
            "trillium-frontend was unable to connect to the dev server: "@
                + error
        },
        InitError::OutOfTurn => "trillium-frontend: the start was told what it did not ask for"@,
    }
}

impl ArgError<String> {
    /// The message for the error.
    pub fn message(&self) -> (text: String)
        ensures
            text@ == arg_error_text(self.deep_view()),
    {
        match self {
            ArgError::ExpectedKey { got } => {
                "trillium-frontend: expected key identifier, got "
                    .to_owned()
                    .concat(got.as_str())
            },
            ArgError::ExpectedEquals { key, got } => {
                "trillium-frontend: expected `=` after `"
                    .to_owned()
                    .concat(key.as_str())
                    .concat("`, got ")
                    .concat(got.as_str())
            },
            ArgError::ExpectedLiteral { key, got } => {
                "trillium-frontend: expected string literal for `"
                    .to_owned()
                    .concat(key.as_str())
                    .concat("`, got ")
                    .concat(got.as_str())
            },
            ArgError::NotString { literal } => {
                "trillium-frontend: expected a string literal, got "
                    .to_owned()
                    .concat(literal.as_str())
            },
            ArgError::UnknownKey { key } => {
                "trillium-frontend: unknown key `"
                    .to_owned()
                    .concat(key.as_str())
                    .concat("`; valid keys: path, build, dist")
            },
            ArgError::Truncated => "trillium-frontend: unexpected end of the arguments".to_owned(),
            ArgError::PathRequired => "trillium-frontend: `path` is required".to_owned(),
        }
    }
}

impl ExpandError<String> {
    /// The message for the error.
    pub fn message(&self) -> (text: String)
        ensures
            text@ == expand_error_text(self.deep_view()),
    {
        match self {
            ExpandError::Args(error) => error.message(),
            ExpandError::Unresolved { path, error } => {
                "trillium-frontend: could not resolve path `"
                    .to_owned()
                    .concat(path.as_str())
                    .concat("`: ")
                    .concat(error.as_str())
            },
            ExpandError::NoDist { dist_dir } => {
                "trillium-frontend: no source (package.json) and no pre-built dist directory found at `"
                    .to_owned()
                    .concat(dist_dir.as_str())
                    .concat("`. Either include the dist directory in your published crate or ensure the frontend source is available.")
            },
            ExpandError::InstallNotStarted { command, error } => {
                "trillium-frontend: failed to run `"
                    .to_owned()
                    .concat(command.as_str())
                    .concat("`: ")
                    .concat(error.as_str())
            },
            ExpandError::InstallFailed { command, status } => {
                "trillium-frontend: `"
                    .to_owned()
                    .concat(command.as_str())
                    .concat("` failed with ")
                    .concat(status.as_str())
            },
            ExpandError::NoBuildCommand => {
                "trillium-frontend: could not detect a build command; specify build = \"...\" in the macro"
                    .to_owned()
            },
            ExpandError::BuildNotStarted { command, error } => {
                "trillium-frontend: failed to run build `"
                    .to_owned()
                    .concat(command.as_str())
                    .concat("`: ")
                    .concat(error.as_str())
            },
            ExpandError::BuildFailed { command, status } => {
                "trillium-frontend: build command `"
                    .to_owned()
                    .concat(command.as_str())
                    .concat("` failed with ")
                    .concat(status.as_str())
            },
            ExpandError::OutOfTurn => {
                "trillium-frontend: the expansion was told what it did not ask for"
                    .to_owned()
            },
        }
    }
}

impl InitError<String> {
    /// The message for the error.
    pub fn message(&self) -> (text: String)
        ensures
            text@ == init_error_text(self.deep_view()),
    {
        match self {
            InitError::MissingClient => {
                "trillium-frontend: in dev-proxy mode, provide a Client via .with_client()"
                    .to_owned()
            },
            InitError::NoFreePort => {
                "trillium-frontend: could not find a free port for the dev server"
                    .to_owned()
            },
            InitError::NoDevCommand => {
                "trillium-frontend: no dev command detected; configure with .with_dev_command()"
                    .to_owned()
            },
            InitError::SpawnFailed { error } => {
                "trillium-frontend: failed to spawn dev server: "
                    .to_owned()
                    .concat(error.as_str())
            },
            InitError::BadUpstream => {
                "trillium-frontend: the address of the dev server is no URL"
                    .to_owned()
            },
            InitError::ConnectFailed { error } => {
                "trillium-frontend was unable to connect to the dev server: "
                    .to_owned()
                    .concat(error.as_str())
            },
            InitError::OutOfTurn => {
                "trillium-frontend: the start was told what it did not ask for"
                    .to_owned()
            },
        }
    }
}

/// A user is told whose message it is, what it is about, and in the end why it failed, as it was
/// reported.
pub proof fn law_messages_end_in_the_reason(what: Seq<char>, reason: Seq<char>)
    ensures
        ({
            let text = arg_error_text(ArgError::ExpectedKey { got: reason });
            &&& "trillium-frontend: expected key identifier, got "@.is_prefix_of(text)
            &&& text.skip("trillium-frontend: expected key identifier, got "@.len() as int) == reason
        }),
        ({
            let text = arg_error_text(ArgError::NotString { literal: reason });
            &&& "trillium-frontend: expected a string literal, got "@.is_prefix_of(text)
            &&& text.skip("trillium-frontend: expected a string literal, got "@.len() as int) == reason
        }),
        tells(
            arg_error_text(ArgError::ExpectedEquals { key: what, got: reason }),
            "trillium-frontend: expected `=` after `"@,
            what,
            "`, got "@,
            reason,
        ),
        tells(
            arg_error_text(ArgError::ExpectedLiteral { key: what, got: reason }),
            "trillium-frontend: expected string literal for `"@,
            what,
            "`, got "@,
            reason,
        ),
        tells(
            arg_error_text(ArgError::UnknownKey { key: what }),
            "trillium-frontend: unknown key `"@,
            what,
            "`; valid keys: path, build, dist"@,
            seq![],
        ),
        tells(
            expand_error_text(ExpandError::Unresolved { path: what, error: reason }),
            "trillium-frontend: could not resolve path `"@,
            what,
            "`: "@,
            reason,
        ),
        tells(
            expand_error_text(ExpandError::InstallNotStarted { command: what, error: reason }),
            "trillium-frontend: failed to run `"@,
            what,
            "`: "@,
            reason,
        ),
        tells(
            expand_error_text(ExpandError::InstallFailed { command: what, status: reason }),
            "trillium-frontend: `"@,
            what,
            "` failed with "@,
            reason,
        ),
        tells(
            expand_error_text(ExpandError::BuildNotStarted { command: what, error: reason }),
            "trillium-frontend: failed to run build `"@,
            what,
            "`: "@,
            reason,
        ),
        tells(
            expand_error_text(ExpandError::BuildFailed { command: what, status: reason }),
            "trillium-frontend: build command `"@,
            what,
            "` failed with "@,
            reason,
        ),
        ({
            let text = init_error_text(InitError::SpawnFailed { error: reason });
            &&& "trillium-frontend: failed to spawn dev server: "@.is_prefix_of(text)
            &&& text.skip("trillium-frontend: failed to spawn dev server: "@.len() as int) == reason
        }),
        ({
            let text = init_error_text(InitError::ConnectFailed { error: reason });
            let start = "trillium-frontend was unable to connect to the dev server: "@;
            &&& start.is_prefix_of(text)
            &&& text.skip(start.len() as int) == reason
        }),
        forall|error: ArgError<Seq<char>>| #[trigger]
            expand_error_text(ExpandError::Args(error)) == arg_error_text(error),
{
    lemma_tells("trillium-frontend: expected `=` after `"@, what, "`, got "@, reason);
    lemma_tells("trillium-frontend: expected string literal for `"@, what, "`, got "@, reason);
    lemma_tells(
        "trillium-frontend: unknown key `"@,
        what,
        "`; valid keys: path, build, dist"@,
        seq![],
    );
    let known = "trillium-frontend: unknown key `"@ + what + "`; valid keys: path, build, dist"@;
    assert(known + seq![] =~= known);
    lemma_tells("trillium-frontend: could not resolve path `"@, what, "`: "@, reason);
    lemma_tells("trillium-frontend: failed to run `"@, what, "`: "@, reason);
    lemma_tells("trillium-frontend: `"@, what, "` failed with "@, reason);
    lemma_tells("trillium-frontend: failed to run build `"@, what, "`: "@, reason);
    lemma_tells("trillium-frontend: build command `"@, what, "` failed with "@, reason);
    lemma_starts("trillium-frontend: expected key identifier, got "@, reason);
    lemma_starts("trillium-frontend: expected a string literal, got "@, reason);
    lemma_starts("trillium-frontend: failed to spawn dev server: "@, reason);
    lemma_starts("trillium-frontend was unable to connect to the dev server: "@, reason);
}

/// Whether a text begins with `start`, then tells `what`, goes on with `middle` and ends in `reason`.
pub open spec fn tells(
    text: Seq<char>,
    start: Seq<char>,
    what: Seq<char>,
    middle: Seq<char>,
    reason: Seq<char>,
) -> bool {
    let a = start.len() as int;
    let b = a + what.len();
    let c = b + middle.len();
    &&& text.len() == c + reason.len()
    &&& text.subrange(0, a) == start
    &&& text.subrange(a, b) == what
    &&& text.subrange(b, c) == middle
    &&& text.subrange(c, text.len() as int) == reason
}

proof fn lemma_tells(start: Seq<char>, what: Seq<char>, middle: Seq<char>, reason: Seq<char>)
    ensures
        tells(start + what + middle + reason, start, what, middle, reason),
{
    let text = start + what + middle + reason;
    let a = start.len() as int;
    let b = a + what.len();
    let c = b + middle.len();
    assert(text.subrange(0, a) =~= start);
    assert(text.subrange(a, b) =~= what);
    assert(text.subrange(b, c) =~= middle);
    assert(text.subrange(c, text.len() as int) =~= reason);
}

proof fn lemma_starts(start: Seq<char>, reason: Seq<char>)
    ensures
        start.is_prefix_of(start + reason),
        (start + reason).skip(start.len() as int) == reason,
{
    assert(start =~= (start + reason).subrange(0, start.len() as int));
    assert((start + reason).skip(start.len() as int) =~= reason);
}

/// Where there is nothing more to tell, the message is the same always; a missing output directory is
/// named.
pub proof fn law_messages_without_a_reason(dist_dir: Seq<char>)
    ensures
        arg_error_text(ArgError::PathRequired) == "trillium-frontend: `path` is required"@,
        arg_error_text(ArgError::Truncated)
            == "trillium-frontend: unexpected end of the arguments"@,
        expand_error_text(ExpandError::OutOfTurn)
            == "trillium-frontend: the expansion was told what it did not ask for"@,
        init_error_text(InitError::OutOfTurn)
            == "trillium-frontend: the start was told what it did not ask for"@,
        init_error_text(InitError::BadUpstream)
            == "trillium-frontend: the address of the dev server is no URL"@,
        expand_error_text(ExpandError::NoBuildCommand)
            == "trillium-frontend: could not detect a build command; specify build = \"...\" in the macro"@,
        init_error_text(InitError::MissingClient)
            == "trillium-frontend: in dev-proxy mode, provide a Client via .with_client()"@,
        init_error_text(InitError::NoFreePort)
            == "trillium-frontend: could not find a free port for the dev server"@,
        init_error_text(InitError::NoDevCommand)
            == "trillium-frontend: no dev command detected; configure with .with_dev_command()"@,
        tells(
            expand_error_text(ExpandError::NoDist { dist_dir }),
            "trillium-frontend: no source (package.json) and no pre-built dist directory found at `"@,
            dist_dir,
            "`. Either include the dist directory in your published crate or ensure the frontend source is available."@,
            seq![],
        ),
{
    let start = "trillium-frontend: no source (package.json) and no pre-built dist directory found at `"@;
    let end =
        "`. Either include the dist directory in your published crate or ensure the frontend source is available."@;
    lemma_tells(start, dist_dir, end, seq![]);
    assert(start + dist_dir + end + seq![] =~= start + dist_dir + end);
}

} // verus!
