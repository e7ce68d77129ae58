//! Where the syntax used to highlight a code block was found.
use vstd::prelude::*;

use crate::text::str_eq;

verus! {

/// Where the syntax of a code block comes from.
#[derive(Clone, Copy, Debug, PartialEq, Eq, Structural)]
pub enum HighlightSource {
    /// One of the built-in Zola syntaxes
    BuiltIn,
    /// Found in the extra syntaxes
    Extra,
    /// No language specified
    Plain,
    /// We didn't find the language in built-in and extra syntaxes
    NotFound,
}

/// The token looked up among the built-in syntaxes for a language: JavaScript is highlighted
/// with the TypeScript syntax, whose highlighting does not hang.
pub fn builtin_token(lang: &str) -> (r: &str)
    ensures
        r@ == (if lang@ == "js"@ || lang@ == "javascript"@ { "ts"@ } else { lang@ }),
{
    if str_eq(lang, "js") || str_eq(lang, "javascript") {
        "ts"
    } else {
        lang
    }
}

/// Where the syntax of a code block in `language` comes from, given whether the extra syntaxes
/// of the site know that token and whether the built-in ones know its built-in token (see
/// `builtin_token`): the extra syntaxes come first; without a language the block is plain.
pub fn highlight_source(language: Option<&str>, found_in_extra: bool, found_builtin: bool) -> (r: HighlightSource)
    ensures
        r == (match language {
            None => HighlightSource::Plain,
            Some(_) => if found_in_extra {
                HighlightSource::Extra
            } else if found_builtin {
                HighlightSource::BuiltIn
            } else {
                HighlightSource::NotFound
            },
        }),
{
    match language {
        None => HighlightSource::Plain,
        Some(_) => {
            if found_in_extra {
                HighlightSource::Extra
            } else if found_builtin {
                HighlightSource::BuiltIn
            } else {
                HighlightSource::NotFound
            }
        },
    }
}

} // verus!
