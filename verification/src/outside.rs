//! What this library takes from other crates and from the standard library. Nothing here is proved:
//! each contract says what the outside function does, and the rest of the library relies on it.

use proc_macro2::{TokenStream, TokenTree};
use trillium_client::Client;
use trillium_proxy::Url;
use trillium_static_compiled::StaticCompiledHandler;
use trillium_static_compiled::__macro_internals::DirEntry;
use vstd::prelude::*;

use crate::args::Token;

verus! {

/// `trillium_client::Client`, an HTTP client. It is handed on and never looked into.
#[verifier::external_type_specification]
#[verifier::external_body]
pub struct ExClient(Client);

/// `trillium_proxy::Url`, a parsed URL.
#[verifier::external_type_specification]
#[verifier::external_body]
pub struct ExUrl(Url);

/// `trillium_static_compiled::StaticCompiledHandler`, which serves embedded files.
#[verifier::external_type_specification]
#[verifier::external_body]
pub struct ExStaticCompiledHandler(StaticCompiledHandler);

/// `trillium_static_compiled::__macro_internals::DirEntry`, an embedded file or directory.
#[verifier::external_type_specification]
#[verifier::external_body]
pub struct ExDirEntry(DirEntry);

/// `proc_macro2::TokenStream`, a list of tokens.
#[verifier::external_type_specification]
#[verifier::external_body]
pub struct ExTokenStream(TokenStream);

/// The tokens of a stream, in order.
pub uninterp spec fn stream_tokens(stream: TokenStream) -> Seq<Token<Seq<char>>>;

/// The embedded file or directory that a handler serves.
pub uninterp spec fn served_root(handler: StaticCompiledHandler) -> DirEntry;

/// The name of the file that a handler serves for a directory, if it was given one.
pub uninterp spec fn served_index(handler: StaticCompiledHandler) -> Option<Seq<char>>;

/// Whether an embedded entry is a file.
pub uninterp spec fn is_embedded_file(entry: DirEntry) -> bool;

/// The URL that a text denotes, if it denotes one.
pub uninterp spec fn parsed_url(text: Seq<char>) -> Option<Url>;

/// `<proc_macro2::TokenStream as IntoIterator>::into_iter` hands out the tokens of the stream in
/// order. An identifier, a literal and a group are taken by their source text, a punctuation mark by
/// its character.
#[verifier::external_body]
pub(crate) fn token_list(stream: TokenStream) -> (tokens: Vec<Token<String>>)
    ensures
        tokens.deep_view() == stream_tokens(stream),
{
    stream.into_iter().map(|tree| match tree {
        TokenTree::Ident(ident) => Token::Ident(ident.to_string()),
        TokenTree::Punct(punct) => Token::Punct(punct.as_char()),
        TokenTree::Literal(literal) => Token::Literal(literal.to_string()),
        TokenTree::Group(group) => Token::Group(group.to_string()),
    }).collect()
}

/// `StaticCompiledHandler::new` gives a handler that serves the entry, without an index file.
pub assume_specification[ StaticCompiledHandler::new ](root: DirEntry) -> (handler:
    StaticCompiledHandler)
    ensures
        served_root(handler) == root,
        served_index(handler) is None,
;

/// `StaticCompiledHandler::with_index_file` sets the index file of a handler and keeps what it
/// serves. It panics on a handler that serves a file, which is left out.
pub assume_specification[ StaticCompiledHandler::with_index_file ](
    handler: StaticCompiledHandler,
    file: &'static str,
) -> (indexed: StaticCompiledHandler)
    requires
        !is_embedded_file(served_root(handler)),
    ensures
        served_root(indexed) == served_root(handler),
        served_index(indexed) == Some(file@),
;

/// `DirEntry::is_file` tells whether the entry is a file.
pub assume_specification[ DirEntry::is_file ](entry: &DirEntry) -> (is_file: bool)
    ensures
        is_file == is_embedded_file(*entry),
;

/// `<Url as FromStr>::from_str` gives the URL that the text denotes, or an error, which is not kept.
/// Of which texts are URLs nothing is said.
#[verifier::external_body]
pub(crate) fn parse_url(text: &str) -> (url: Option<Url>)
    ensures
        url == parsed_url(text@),
{
    text.parse().ok()
}

/// `std::str::from_utf8` succeeds if and only if the bytes are valid UTF-8, and gives the text that
/// they encode.
#[verifier::external_body]
pub(crate) fn utf8_text(bytes: &[u8]) -> (text: Option<String>)
    ensures
        text is Some <==> vstd::utf8::valid_utf8(bytes@),
        text matches Some(text) ==> text@ == vstd::utf8::decode_utf8(bytes@),
{
    std::str::from_utf8(bytes).ok().map(|text| text.to_owned())
}

/// `String::push` appends one character to the end of the string.
pub assume_specification[ String::push ](s: &mut String, c: char)
    ensures
        final(s)@ == old(s)@.push(c),
;

} // verus!
