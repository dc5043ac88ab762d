//! The language dispatcher: which grammar parses a file of a given
//! extension, and under which extension its index types are looked up.
use vstd::prelude::*;
use crate::text::same_text;

verus! {

/// A grammar that the syntax parser knows.
#[derive(Clone, Copy, Debug, PartialEq, Eq, Structural)]
pub enum Grammar {
    Python,
    Rust,
    Zig,
    Cpp,
    C,
    TypeScript,
    Tsx,
    JavaScript,
}

/// The grammar that a file extension selects, if it selects one.
pub open spec fn grammar_for(extension: Seq<char>) -> Option<Grammar> {
    if extension == "py"@ {
        Some(Grammar::Python)
    } else if extension == "rs"@ {
        Some(Grammar::Rust)
    } else if extension == "zig"@ {
        Some(Grammar::Zig)
    } else if extension == "cpp"@ || extension == "cc"@ || extension == "cxx"@ {
        Some(Grammar::Cpp)
    } else if extension == "c"@ || extension == "h"@ {
        Some(Grammar::C)
    } else if extension == "ts"@ || extension == "mts"@ || extension == "cts"@ {
        Some(Grammar::TypeScript)
    } else if extension == "tsx"@ {
        Some(Grammar::Tsx)
    } else if extension == "js"@ || extension == "jsx"@ || extension == "mjs"@ || extension
        == "mjsx"@ || extension == "cjs"@ || extension == "cjsx"@ {
        Some(Grammar::JavaScript)
    } else {
        None
    }
}

/// Selects the grammar for a file extension; `None` marks a file that no
/// grammar parses.
pub fn get_language(extension: &str) -> (grammar: Option<Grammar>)
    ensures
        grammar == grammar_for(extension@),
{
    if same_text(extension, "py") {
        Some(Grammar::Python)
    } else if same_text(extension, "rs") {
        Some(Grammar::Rust)
    } else if same_text(extension, "zig") {
        Some(Grammar::Zig)
    } else if same_text(extension, "cpp") || same_text(extension, "cc") || same_text(
        extension,
        "cxx",
    ) {
        Some(Grammar::Cpp)
    } else if same_text(extension, "c") || same_text(extension, "h") {
        Some(Grammar::C)
    } else if same_text(extension, "ts") || same_text(extension, "mts") || same_text(
        extension,
        "cts",
    ) {
        Some(Grammar::TypeScript)
    } else if same_text(extension, "tsx") {
        Some(Grammar::Tsx)
    } else if same_text(extension, "js") || same_text(extension, "jsx") || same_text(
        extension,
        "mjs",
    ) || same_text(extension, "mjsx") || same_text(extension, "cjs") || same_text(
        extension,
        "cjsx",
    ) {
        Some(Grammar::JavaScript)
    } else {
        None
    }
}

/// The extension under which index types are looked up: the variants of a
/// language collapse onto one key.
pub open spec fn normalised(extension: Seq<char>) -> Seq<char> {
    if extension == "cc"@ || extension == "cxx"@ {
        "cpp"@
    } else if extension == "h"@ {
        "c"@
    } else if extension == "jsx"@ {
        "js"@
    } else {
        extension
    }
}

/// Normalises a file extension for the lookup of its index types.
pub fn normalise_extension(extension: &str) -> (key: String)
    ensures
        key@ == normalised(extension@),
{
    if same_text(extension, "cc") || same_text(extension, "cxx") {
        "cpp".to_owned()
    } else if same_text(extension, "h") {
        "c".to_owned()
    } else if same_text(extension, "jsx") {
        "js".to_owned()
    } else {
        extension.to_owned()
    }
}

} // verus!
