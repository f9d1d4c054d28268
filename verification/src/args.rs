//! The arguments of the `frontend!` macro: `"./client"` alone, or `path`, `build` and `dist` given
//! by name.

use proc_macro2::TokenStream;
use vstd::prelude::*;

use crate::outside::token_list;
#[allow(unused_imports)]
use crate::outside::stream_tokens;
use crate::text::{chars_of, same_text, text_between};
#[allow(unused_imports)]
use crate::text::outcome_view;

verus! {

/// A token of the macro's input. A group of tokens, and a literal, is held as its source text.
#[derive(Debug, PartialEq, Eq)]
pub enum Token<Text> {
    Ident(Text),
    Punct(char),
    Literal(Text),
    Group(Text),
}

/// What the macro was asked for.
#[derive(Debug, PartialEq, Eq)]
pub struct MacroArgs<Text> {
    /// The frontend project's directory.
    pub path: Text,
    /// The build command, where it is not to be detected.
    pub build: Option<Text>,
    /// The build output directory relative to `path`, where it is not to be detected.
    pub dist: Option<Text>,
}

/// Why the macro's input was refused.
#[derive(Debug, PartialEq, Eq)]
pub enum ArgError<Text> {
    /// Something stands where the name of an argument is due.
    ExpectedKey { got: Text },
    /// Something else than `=` follows the name of an argument.
    ExpectedEquals { key: Text, got: Text },
    /// Something else than a literal follows `=`.
    ExpectedLiteral { key: Text, got: Text },
    /// A literal is not an ordinary string literal.
    NotString { literal: Text },
    /// An argument has a name that is none of `path`, `build` and `dist`.
    UnknownKey { key: Text },
    /// The input ends in the middle of an argument.
    Truncated,
    /// No path was given, or an empty one.
    PathRequired,
}

impl<Text: DeepView> DeepView for Token<Text> {
    type V = Token<Text::V>;

    open spec fn deep_view(&self) -> Token<Text::V> {
        match self {
            Token::Ident(text) => Token::Ident(text.deep_view()),
            Token::Punct(c) => Token::Punct(*c),
            Token::Literal(text) => Token::Literal(text.deep_view()),
            Token::Group(text) => Token::Group(text.deep_view()),
        }
    }
}

impl<Text: DeepView> DeepView for MacroArgs<Text> {
    type V = MacroArgs<Text::V>;

    open spec fn deep_view(&self) -> MacroArgs<Text::V> {
        MacroArgs {
            path: self.path.deep_view(),
            build: self.build.deep_view(),
            dist: self.dist.deep_view(),
        }
    }
}

impl<Text: DeepView> DeepView for ArgError<Text> {
    type V = ArgError<Text::V>;

    open spec fn deep_view(&self) -> ArgError<Text::V> {
        match self {
            ArgError::ExpectedKey { got } => ArgError::ExpectedKey { got: got.deep_view() },
            ArgError::ExpectedEquals { key, got } => ArgError::ExpectedEquals {
                key: key.deep_view(),
                got: got.deep_view(),
            },
            ArgError::ExpectedLiteral { key, got } => ArgError::ExpectedLiteral {
                key: key.deep_view(),
                got: got.deep_view(),
            },
            ArgError::NotString { literal } => ArgError::NotString {
                literal: literal.deep_view(),
            },
            ArgError::UnknownKey { key } => ArgError::UnknownKey { key: key.deep_view() },
            ArgError::Truncated => ArgError::Truncated,
            ArgError::PathRequired => ArgError::PathRequired,
        }
    }
}

/// A token's source text.
pub open spec fn token_text(token: Token<Seq<char>>) -> Seq<char> {
    match token {
        Token::Ident(text) => text,
        Token::Punct(c) => seq![c],
        Token::Literal(text) => text,
        Token::Group(text) => text,
    }
}

/// Whether a literal's source text is that of an ordinary string literal: it begins and ends with
/// a quotation mark.
pub open spec fn is_quoted(literal: Seq<char>) -> bool {
    literal.len() >= 2 && literal[0] == '"' && literal.last() == '"'
}

/// The source text between the quotation marks, escapes and all.
pub open spec fn unquoted(literal: Seq<char>) -> Seq<char> {
    literal.subrange(1, literal.len() - 1)
}

/// The arguments before any of them was given.
pub open spec fn no_args() -> MacroArgs<Seq<char>> {
    MacroArgs { path: seq![], build: None, dist: None }
}

/// Whether an argument has this name.
pub open spec fn is_key(key: Seq<char>) -> bool {
    key == "path"@ || key == "build"@ || key == "dist"@
}

/// `args` with one argument given, in place of what it was before.
pub open spec fn with_arg(args: MacroArgs<Seq<char>>, key: Seq<char>, value: Seq<char>) -> MacroArgs<
    Seq<char>,
> {
    if key == "path"@ {
        MacroArgs { path: value, ..args }
    } else if key == "build"@ {
        MacroArgs { build: Some(value), ..args }
    } else {
        MacroArgs { dist: Some(value), ..args }
    }
}

/// What one argument, `key = "value"`, at the start of `tokens` says; or why it says nothing.
pub open spec fn first_arg(tokens: Seq<Token<Seq<char>>>) -> Result<
    (Seq<char>, Seq<char>),
    ArgError<Seq<char>>,
> {
    match tokens[0] {
        Token::Ident(key) => if tokens.len() == 1 {
            Err(ArgError::Truncated)
        } else if tokens[1] != Token::<Seq<char>>::Punct('=') {
            Err(ArgError::ExpectedEquals { key, got: token_text(tokens[1]) })
        } else if tokens.len() == 2 {
            Err(ArgError::Truncated)
        } else {
            match tokens[2] {
                Token::Literal(literal) => if !is_quoted(literal) {
                    Err(ArgError::NotString { literal })
                } else if !is_key(key) {
                    Err(ArgError::UnknownKey { key })
                } else {
                    Ok((key, unquoted(literal)))
                },
                other => Err(ArgError::ExpectedLiteral { key, got: token_text(other) }),
            }
        },
        other => Err(ArgError::ExpectedKey { got: token_text(other) }),
    }
}

/// What a list of arguments makes of `args`, given before it. Commas between arguments carry no
/// meaning; of two arguments with one name the later counts.
pub open spec fn named_args(
    tokens: Seq<Token<Seq<char>>>,
    args: MacroArgs<Seq<char>>,
) -> Result<MacroArgs<Seq<char>>, ArgError<Seq<char>>>
    decreases tokens.len(),
{
    if tokens.len() == 0 {
        if args.path.len() == 0 {
            Err(ArgError::PathRequired)
        } else {
            Ok(args)
        }
    } else if tokens[0] == Token::<Seq<char>>::Punct(',') {
        named_args(tokens.skip(1), args)
    } else {
        match first_arg(tokens) {
            Ok((key, value)) => named_args(tokens.skip(3), with_arg(args, key, value)),
            Err(error) => Err(error),
        }
    }
}

/// What the macro's input asks for: one literal alone is the path.
pub open spec fn macro_args(tokens: Seq<Token<Seq<char>>>) -> Result<
    MacroArgs<Seq<char>>,
    ArgError<Seq<char>>,
> {
    if tokens.len() == 1 && tokens[0] is Literal {
        let literal = tokens[0]->Literal_0;
        if is_quoted(literal) {
            Ok(MacroArgs { path: unquoted(literal), ..no_args() })
        } else {
            Err(ArgError::NotString { literal })
        }
    } else {
        named_args(tokens, no_args())
    }
}

impl Token<String> {
    /// The token's source text.
    pub fn text(&self) -> (text: String)
        ensures
            text@ == token_text(self.deep_view()),
    {
        match self {
            Token::Ident(text) => text.clone(),
            Token::Punct(c) => {
                let mut text = String::new();
                text.push(*c);
                assert(text@ =~= seq![*c]);
                text
            },
            Token::Literal(text) => text.clone(),
            Token::Group(text) => text.clone(),
        }
    }
}

/// The text of a string literal, given by its source text.
pub fn unwrap_string_literal(literal: &str) -> (text: Result<String, ArgError<String>>)
    ensures
        outcome_view(text) == if is_quoted(literal@) {
            Ok::<Seq<char>, ArgError<Seq<char>>>(unquoted(literal@))
        } else {
            Err::<Seq<char>, ArgError<Seq<char>>>(ArgError::NotString { literal: literal@ })
        },
{
    let chars = chars_of(literal);
    let n = chars.len();
    if n >= 2 && chars[0] == '"' && chars[n - 1] == '"' {
        Ok(text_between(&chars, 1, n - 1))
    } else {
        Err(ArgError::NotString { literal: literal.to_owned() })
    }
}

/// The arguments in `path = "...", build = "...", dist = "..."`.
pub fn parse_key_value_args(tokens: &Vec<Token<String>>) -> (args: Result<
    MacroArgs<String>,
    ArgError<String>,
>)
    ensures
        outcome_view(args) == named_args(tokens.deep_view(), no_args()),
{
    let mut args: MacroArgs<String> = MacroArgs { path: String::new(), build: None, dist: None };
    let ghost all = tokens.deep_view();
    let mut i: usize = 0;
    assert(all.skip(0) =~= all);
    assert(args.deep_view().path =~= no_args().path);
    while i < tokens.len()
        invariant
            i <= tokens@.len(),
            all == tokens.deep_view(),
            named_args(all, no_args()) == named_args(all.skip(i as int), args.deep_view()),
        decreases tokens.len() - i,
    {
        let ghost rest = all.skip(i as int);
        assert(rest[0] == all[i as int]);
        assert(rest.skip(1) =~= all.skip(i + 1));
        let key = match &tokens[i] {
            Token::Ident(key) => key.clone(),
            Token::Punct(c) => {
                if *c == ',' {
                    i = i + 1;
                    continue;
                }
                return Err(ArgError::ExpectedKey { got: tokens[i].text() });
            },
            _ => {
                return Err(ArgError::ExpectedKey { got: tokens[i].text() });
            },
        };
        i = i + 1;
        if i >= tokens.len() {
            return Err(ArgError::Truncated);
        }
        assert(rest[1] == all[i as int]);
        let equals = match &tokens[i] {
            Token::Punct(c) => *c == '=',
            _ => false,
        };
        if !equals {
            return Err(ArgError::ExpectedEquals { key, got: tokens[i].text() });
        }
        i = i + 1;
        if i >= tokens.len() {
            return Err(ArgError::Truncated);
        }
        assert(rest[2] == all[i as int]);
        let value = match &tokens[i] {
            Token::Literal(literal) => unwrap_string_literal(literal.as_str())?,
            _ => {
                return Err(ArgError::ExpectedLiteral { key, got: tokens[i].text() });
            },
        };
        i = i + 1;
        assert(rest.skip(3) =~= all.skip(i as int));
        if same_text(key.as_str(), "path") {
            args.path = value;
        } else if same_text(key.as_str(), "build") {
            args.build = Some(value);
        } else if same_text(key.as_str(), "dist") {
            args.dist = Some(value);
        } else {
            return Err(ArgError::UnknownKey { key });
        }
    }
    assert(all.skip(i as int).len() == 0);
    if args.path.as_str().is_empty() {
        Err(ArgError::PathRequired)
    } else {
        Ok(args)
    }
}

/// The arguments that the macro's tokens give.
pub fn parse_tokens(tokens: &Vec<Token<String>>) -> (args: Result<
    MacroArgs<String>,
    ArgError<String>,
>)
    ensures
        outcome_view(args) == macro_args(tokens.deep_view()),
{
    if tokens.len() == 1 {
        if let Token::Literal(literal) = &tokens[0] {
            let path = unwrap_string_literal(literal.as_str())?;
            return Ok(MacroArgs { path, build: None, dist: None });
        }
    }
    parse_key_value_args(tokens)
}

/// The arguments that the macro's input gives.
pub fn parse_args(input: TokenStream) -> (args: Result<MacroArgs<String>, ArgError<String>>)
    ensures
        outcome_view(args) == macro_args(stream_tokens(input)),
{
    parse_tokens(&token_list(input))
}

/// The source text of a string literal without anything to escape in it.
pub open spec fn quoted(text: Seq<char>) -> Seq<char> {
    seq!['"'] + text + seq!['"']
}

/// The tokens of one argument.
pub open spec fn written_arg(key: Seq<char>, value: Seq<char>) -> Seq<Token<Seq<char>>> {
    seq![Token::Ident(key), Token::Punct('='), Token::Literal(quoted(value))]
}

/// The tokens of arguments, separated by commas.
pub open spec fn written_args(args: MacroArgs<Seq<char>>) -> Seq<Token<Seq<char>>> {
    written_arg("path"@, args.path) + (match args.build {
        Some(build) => seq![Token::<Seq<char>>::Punct(',')] + written_arg("build"@, build),
        None => seq![],
    }) + (match args.dist {
        Some(dist) => seq![Token::<Seq<char>>::Punct(',')] + written_arg("dist"@, dist),
        None => seq![],
    })
}

proof fn lemma_quoted(text: Seq<char>)
    ensures
        is_quoted(quoted(text)),
        unquoted(quoted(text)) == text,
{
    assert(unquoted(quoted(text)) =~= text);
}

proof fn lemma_distinct_keys()
    ensures
        "path"@ != "build"@,
        "path"@ != "dist"@,
        "build"@ != "dist"@,
{
    reveal_strlit("path");
    reveal_strlit("build");
    reveal_strlit("dist");
    assert("path"@[0] != "build"@[0]);
    assert("path"@[0] != "dist"@[0]);
    assert("build"@[0] != "dist"@[0]);
}

/// One argument before others is read by itself.
proof fn lemma_argument_is_read(
    key: Seq<char>,
    value: Seq<char>,
    rest: Seq<Token<Seq<char>>>,
    args: MacroArgs<Seq<char>>,
)
    requires
        is_key(key),
    ensures
        named_args(written_arg(key, value) + rest, args) == named_args(
            rest,
            with_arg(args, key, value),
        ),
{
    let tokens = written_arg(key, value) + rest;
    lemma_quoted(value);
    assert(tokens[0] == Token::Ident(key));
    assert(tokens[1] == Token::<Seq<char>>::Punct('='));
    assert(tokens[2] == Token::Literal(quoted(value)));
    assert(tokens.skip(3) =~= rest);
}

/// A comma carries no meaning.
pub proof fn law_commas_carry_no_meaning(
    tokens: Seq<Token<Seq<char>>>,
    args: MacroArgs<Seq<char>>,
)
    ensures
        named_args(seq![Token::<Seq<char>>::Punct(',')] + tokens, args) == named_args(tokens, args),
{
    let all = seq![Token::<Seq<char>>::Punct(',')] + tokens;
    assert(all.skip(1) =~= tokens);
}

/// What is written is what is read: the arguments that are given by name, with a path, are those
/// that the macro is expanded with.
pub proof fn law_arguments_read_back(args: MacroArgs<Seq<char>>)
    requires
        args.path.len() > 0,
    ensures
        macro_args(written_args(args)) == Ok::<MacroArgs<Seq<char>>, ArgError<Seq<char>>>(args),
{
    lemma_distinct_keys();
    let none = Seq::<Token<Seq<char>>>::empty();
    let build = match args.build {
        Some(build) => seq![Token::<Seq<char>>::Punct(',')] + written_arg("build"@, build),
        None => none,
    };
    let dist = match args.dist {
        Some(dist) => seq![Token::<Seq<char>>::Punct(',')] + written_arg("dist"@, dist),
        None => none,
    };
    let with_path = with_arg(no_args(), "path"@, args.path);
    assert(written_args(args) =~= written_arg("path"@, args.path) + (build + dist));
    lemma_argument_is_read("path"@, args.path, build + dist, no_args());
    let with_build = match args.build {
        Some(value) => with_arg(with_path, "build"@, value),
        None => with_path,
    };
    if args.build is Some {
        let value = args.build->0;
        assert(build + dist =~= seq![Token::<Seq<char>>::Punct(',')] + (written_arg("build"@, value)
            + dist));
        law_commas_carry_no_meaning(written_arg("build"@, value) + dist, with_path);
        lemma_argument_is_read("build"@, value, dist, with_path);
    } else {
        assert(build + dist =~= dist);
    }
    if args.dist is Some {
        let value = args.dist->0;
        assert(dist =~= seq![Token::<Seq<char>>::Punct(',')] + (written_arg("dist"@, value) + none));
        law_commas_carry_no_meaning(written_arg("dist"@, value) + none, with_build);
        lemma_argument_is_read("dist"@, value, none, with_build);
    }
}

/// A path alone means the same as the path given by its name.
pub proof fn law_path_alone(path: Seq<char>)
    requires
        path.len() > 0,
    ensures
        macro_args(seq![Token::Literal(quoted(path))]) == macro_args(written_arg("path"@, path)),
{
    lemma_quoted(path);
    let args = MacroArgs { path, ..no_args() };
    law_arguments_read_back(args);
    assert(written_args(args) =~= written_arg("path"@, path));
}

/// The order of two arguments makes no difference, unless they have the same name: then the later
/// counts.
pub proof fn law_order_of_arguments(
    key: Seq<char>,
    value: Seq<char>,
    other_key: Seq<char>,
    other_value: Seq<char>,
    rest: Seq<Token<Seq<char>>>,
    args: MacroArgs<Seq<char>>,
)
    requires
        is_key(key),
        is_key(other_key),
    ensures
        key != other_key ==> named_args(
            written_arg(key, value) + (written_arg(other_key, other_value) + rest),
            args,
        ) == named_args(
            written_arg(other_key, other_value) + (written_arg(key, value) + rest),
            args,
        ),
        key == other_key ==> named_args(
            written_arg(key, value) + (written_arg(other_key, other_value) + rest),
            args,
        ) == named_args(written_arg(other_key, other_value) + rest, args),
{
    lemma_distinct_keys();
    lemma_argument_is_read(key, value, written_arg(other_key, other_value) + rest, args);
    lemma_argument_is_read(other_key, other_value, rest, with_arg(args, key, value));
    lemma_argument_is_read(other_key, other_value, written_arg(key, value) + rest, args);
    lemma_argument_is_read(key, value, rest, with_arg(args, other_key, other_value));
    lemma_argument_is_read(other_key, other_value, rest, args);
}

/// A literal alone is taken if and only if it is an ordinary string literal, and means the path that
/// stands between its quotation marks, be it empty, and nothing else.
pub proof fn law_literal_alone(literal: Seq<char>, text: Seq<char>)
    ensures
        ({
            let outcome = macro_args(seq![Token::Literal(literal)]);
            let args = MacroArgs { path: text, build: None, dist: None };
            &&& literal == seq!['"'] + text + seq!['"'] ==> outcome == Ok::<
                MacroArgs<Seq<char>>,
                ArgError<Seq<char>>,
            >(args)
            &&& outcome matches Ok(args) ==> literal == seq!['"'] + args.path + seq!['"']
            &&& outcome matches Err(error) ==> error == ArgError::NotString { literal }
        }),
{
    if literal == seq!['"'] + text + seq!['"'] {
        lemma_quoted(text);
    }
    if is_quoted(literal) {
        assert(literal =~= seq!['"'] + unquoted(literal) + seq!['"']);
    }
}

/// An argument sets what it names, to the text between the quotation marks, and leaves the others as
/// they were.
pub proof fn law_argument_sets_what_it_names(
    value: Seq<char>,
    rest: Seq<Token<Seq<char>>>,
    args: MacroArgs<Seq<char>>,
)
    ensures
        ({
            let set = seq![
                Token::<Seq<char>>::Punct('='),
                Token::Literal(seq!['"'] + value + seq!['"']),
            ];
            &&& named_args(seq![Token::Ident("path"@)] + set + rest, args) == named_args(
                rest,
                MacroArgs { path: value, build: args.build, dist: args.dist },
            )
            &&& named_args(seq![Token::Ident("build"@)] + set + rest, args) == named_args(
                rest,
                MacroArgs { path: args.path, build: Some(value), dist: args.dist },
            )
            &&& named_args(seq![Token::Ident("dist"@)] + set + rest, args) == named_args(
                rest,
                MacroArgs { path: args.path, build: args.build, dist: Some(value) },
            )
        }),
{
    lemma_distinct_keys();
    let set = seq![
        Token::<Seq<char>>::Punct('='),
        Token::Literal(seq!['"'] + value + seq!['"']),
    ];
    lemma_argument_is_read("path"@, value, rest, args);
    lemma_argument_is_read("build"@, value, rest, args);
    lemma_argument_is_read("dist"@, value, rest, args);
    assert(seq![Token::Ident("path"@)] + set =~= written_arg("path"@, value));
    assert(seq![Token::Ident("build"@)] + set =~= written_arg("build"@, value));
    assert(seq![Token::Ident("dist"@)] + set =~= written_arg("dist"@, value));
}

/// At the end, what was given counts if and only if there is a path that is not empty.
pub proof fn law_path_is_required(args: MacroArgs<Seq<char>>)
    ensures
        named_args(seq![], args) == if args.path.len() > 0 {
            Ok::<MacroArgs<Seq<char>>, ArgError<Seq<char>>>(args)
        } else {
            Err::<MacroArgs<Seq<char>>, ArgError<Seq<char>>>(ArgError::PathRequired)
        },
        macro_args(seq![]) == Err::<MacroArgs<Seq<char>>, ArgError<Seq<char>>>(ArgError::PathRequired),
{
}

/// Whatever does not have the form of an argument is refused at the first token that is out of place,
/// and the refusal says which: a name that is no identifier, an identifier that is not followed by an
/// equals sign, a value that is no literal, a literal that is no string, a name that is not known, or
/// an end in the middle.
pub proof fn law_first_misplaced_token_is_refused(
    key: Seq<char>,
    token: Token<Seq<char>>,
    rest: Seq<Token<Seq<char>>>,
    args: MacroArgs<Seq<char>>,
)
    ensures
        ({
            let text = match token {
                Token::Ident(text) => text,
                Token::Punct(c) => seq![c],
                Token::Literal(text) => text,
                Token::Group(text) => text,
            };
            let equals = Token::<Seq<char>>::Punct('=');
            let comma = Token::<Seq<char>>::Punct(',');
            let name = Token::Ident(key);
            let is_string = token matches Token::Literal(literal) && literal.len() >= 2 && literal[0]
                == '"' && literal.last() == '"';
            &&& !(token is Ident) && token != comma ==> named_args(seq![token] + rest, args) == Err::<
                MacroArgs<Seq<char>>,
                ArgError<Seq<char>>,
            >(ArgError::ExpectedKey { got: text })
            &&& named_args(seq![name], args) == Err::<MacroArgs<Seq<char>>, ArgError<Seq<char>>>(
                ArgError::Truncated,
            )
            &&& token != equals ==> named_args(seq![name, token] + rest, args) == Err::<
                MacroArgs<Seq<char>>,
                ArgError<Seq<char>>,
            >(ArgError::ExpectedEquals { key, got: text })
            &&& named_args(seq![name, equals], args) == Err::<
                MacroArgs<Seq<char>>,
                ArgError<Seq<char>>,
            >(ArgError::Truncated)
            &&& !(token is Literal) ==> named_args(seq![name, equals, token] + rest, args) == Err::<
                MacroArgs<Seq<char>>,
                ArgError<Seq<char>>,
            >(ArgError::ExpectedLiteral { key, got: text })
            &&& token is Literal && !is_string ==> named_args(seq![name, equals, token] + rest, args)
                == Err::<MacroArgs<Seq<char>>, ArgError<Seq<char>>>(
                ArgError::NotString { literal: text },
            )
            &&& is_string && key != "path"@ && key != "build"@ && key != "dist"@ ==> named_args(
                seq![name, equals, token] + rest,
                args,
            ) == Err::<MacroArgs<Seq<char>>, ArgError<Seq<char>>>(ArgError::UnknownKey { key })
        }),
{
    let name = Token::Ident(key);
    let equals = Token::<Seq<char>>::Punct('=');
    assert((seq![token] + rest)[0] == token);
    let two = seq![name, token] + rest;
    assert(two[0] == name && two[1] == token);
    let three = seq![name, equals, token] + rest;
    assert(three[0] == name && three[1] == equals && three[2] == token);
}

/// More than one token is read as arguments by name, and so is one that is no literal.
pub proof fn law_all_else_is_named(tokens: Seq<Token<Seq<char>>>)
    ensures
        tokens.len() != 1 || !(tokens[0] is Literal) ==> macro_args(tokens) == named_args(
            tokens,
            MacroArgs { path: seq![], build: None, dist: None },
        ),
{
}

} // verus!
