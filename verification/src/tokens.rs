//! Lexing of source text into tokens, done by `proc_macro2`.
//!
//! Outside of a procedural macro `proc_macro2` lexes and prints with its own
//! implementation, so that what it returns depends on the text alone. This
//! library is no procedural macro and asks for `proc_macro2` without its
//! `proc-macro` feature.

use vstd::prelude::*;
use std::str::FromStr;
use crate::text::optional_text;

verus! {

/// The text that `proc_macro2` prints for the token stream that `source`
/// lexes to, or `None` where `source` does not lex as a token stream.
pub uninterp spec fn token_text(source: Seq<char>) -> Option<Seq<char>>;

/// Lexes `source` with `proc_macro2::TokenStream::from_str` and prints the
/// stream with its `to_string`; `None` where the lexer reports an error.
///
/// Trusted: the result is `token_text` of the source, which is all that is
/// claimed of it.
#[verifier::external_body]
pub(crate) fn lex(source: &str) -> (out: Option<String>)
    ensures
        optional_text(out) == token_text(source@),
{
    match proc_macro2::TokenStream::from_str(source) {
        Ok(stream) => Some(stream.to_string()),
        Err(_) => None,
    }
}

/// The text of the string literal that stands for `value`, quotes and
/// escapes included, as `proc_macro2` writes it.
pub uninterp spec fn string_literal(value: Seq<char>) -> Seq<char>;

/// Builds `proc_macro2::Literal::string(value)` and prints it with its
/// `to_string`.
///
/// Trusted: the result is `string_literal` of the value, which is all that is
/// claimed of it.
#[verifier::external_body]
pub(crate) fn quote_string(value: &str) -> (out: String)
    ensures
        out@ == string_literal(value@),
{
    proc_macro2::Literal::string(value).to_string()
}

} // verus!
