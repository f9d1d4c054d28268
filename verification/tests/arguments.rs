use proc_macro2::TokenStream;
use trillium_frontend::args::{
    parse_args, parse_key_value_args, parse_tokens, unwrap_string_literal, ArgError, MacroArgs,
    Token,
};

fn parse(input: &str) -> Result<MacroArgs<String>, ArgError<String>> {
    parse_args(input.parse::<TokenStream>().unwrap())
}

fn args(path: &str, build: Option<&str>, dist: Option<&str>) -> MacroArgs<String> {
    MacroArgs {
        path: path.to_string(),
        build: build.map(str::to_string),
        dist: dist.map(str::to_string),
    }
}

#[test]
fn path_alone() {
    assert_eq!(parse("\"./client\""), Ok(args("./client", None, None)));
    assert_eq!(parse("\"\""), Ok(args("", None, None)));
}

#[test]
fn named_arguments() {
    assert_eq!(
        parse("path = \"./client\", build = \"bun run build\", dist = \"dist\","),
        Ok(args("./client", Some("bun run build"), Some("dist")))
    );
    assert_eq!(
        parse("dist = \"out\" path = \"./client\""),
        Ok(args("./client", None, Some("out")))
    );
}

#[test]
fn later_argument_counts() {
    assert_eq!(
        parse("path = \"a\", path = \"b\""),
        Ok(args("b", None, None))
    );
}

#[test]
fn escapes_are_kept() {
    assert_eq!(
        parse("path = \"a\\\"b\""),
        Ok(args("a\\\"b", None, None))
    );
}

#[test]
fn path_is_required() {
    assert_eq!(parse(""), Err(ArgError::PathRequired));
    assert_eq!(parse("path = \"\""), Err(ArgError::PathRequired));
    assert_eq!(parse("build = \"make\""), Err(ArgError::PathRequired));
}

#[test]
fn key_is_expected() {
    assert_eq!(
        parse("\"./client\", build = \"make\""),
        Err(ArgError::ExpectedKey {
            got: "\"./client\"".to_string()
        })
    );
    assert_eq!(
        parse("; path = \"a\""),
        Err(ArgError::ExpectedKey {
            got: ";".to_string()
        })
    );
    assert_eq!(
        parse("(x)"),
        Err(ArgError::ExpectedKey {
            got: "(x)".to_string()
        })
    );
}

#[test]
fn equals_is_expected() {
    assert_eq!(
        parse("path : \"a\""),
        Err(ArgError::ExpectedEquals {
            key: "path".to_string(),
            got: ":".to_string()
        })
    );
}

#[test]
fn literal_is_expected() {
    assert_eq!(
        parse("path = client"),
        Err(ArgError::ExpectedLiteral {
            key: "path".to_string(),
            got: "client".to_string()
        })
    );
}

#[test]
fn only_ordinary_strings_are_accepted() {
    assert_eq!(
        parse("path = 5"),
        Err(ArgError::NotString {
            literal: "5".to_string()
        })
    );
    assert_eq!(
        parse("r\"./client\""),
        Err(ArgError::NotString {
            literal: "r\"./client\"".to_string()
        })
    );
    assert_eq!(unwrap_string_literal("\"a b\""), Ok("a b".to_string()));
    assert_eq!(
        unwrap_string_literal("\""),
        Err(ArgError::NotString {
            literal: "\"".to_string()
        })
    );
}

#[test]
fn unknown_keys_are_refused() {
    assert_eq!(
        parse("path = \"a\", port = \"5173\""),
        Err(ArgError::UnknownKey {
            key: "port".to_string()
        })
    );
}

#[test]
fn input_may_not_end_in_an_argument() {
    assert_eq!(parse("path"), Err(ArgError::Truncated));
    assert_eq!(parse("path ="), Err(ArgError::Truncated));
}

#[test]
fn tokens_are_parsed_without_a_stream() {
    let tokens = vec![
        Token::Ident("path".to_string()),
        Token::Punct('='),
        Token::Literal("\"x\"".to_string()),
    ];
    assert_eq!(parse_tokens(&tokens), Ok(args("x", None, None)));
    assert_eq!(parse_key_value_args(&tokens), Ok(args("x", None, None)));
    assert_eq!(Token::Group("[a]".to_string()).text(), "[a]");
    assert_eq!(Token::<String>::Punct(',').text(), ",");
}

#[test]
fn order_of_arguments_makes_no_difference() {
    assert_eq!(
        parse("path = \"a\", dist = \"b\""),
        parse("dist = \"b\", path = \"a\"")
    );
    assert_eq!(parse("\"a\""), parse("path = \"a\""));
    assert_eq!(parse(",, path = \"a\",,"), parse("path = \"a\""));
}
