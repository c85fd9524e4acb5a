//! A workspace source file as a check holds it: its text and, when the text
//! parses as Rust, its syntax tree (through the `syn` crate).
use vstd::prelude::*;

verus! {

/// The syntax tree `syn` builds of a Rust file; opaque here.
#[verifier::external_type_specification]
#[verifier::external_body]
pub struct ExSynFile(syn::File);

/// The message `syn::parse_file` gives when it refuses `text`, `None` when it
/// accepts it.
pub uninterp spec fn rust_parse_error(text: Seq<char>) -> Option<Seq<char>>;

/// `syn::parse_file` on `text`: the syntax tree, or the parse error's message
/// (`to_string`). Whether it parses, and the message, are named by
/// `rust_parse_error`; nothing is stated of the tree.
#[verifier::external_body]
pub fn parse_rust_file(text: &str) -> (r: Result<syn::File, String>)
    ensures
        match r {
            Ok(_) => rust_parse_error(text@) is None,
            Err(e) => rust_parse_error(text@) == Some(e@),
        },
{
    syn::parse_file(text).map_err(|e| e.to_string())
}

/// A source file that was read: its path, its text, its syntax tree when the
/// text parses, and the parse error's message when it does not.
pub struct LoadedSource {
    pub path: String,
    pub text: String,
    pub ast: Option<syn::File>,
    pub parse_error: Option<String>,
}

/// The source file at `path` whose text was read as `text`, parsed.
pub fn load_source(path: String, text: String) -> (r: LoadedSource)
    ensures
        r.path@ == path@,
        r.text@ == text@,
        (r.ast is Some) == (rust_parse_error(text@) is None),
        match r.parse_error {
            Some(e) => rust_parse_error(text@) == Some(e@),
            None => rust_parse_error(text@) is None,
        },
{
    let (ast, parse_error) = match parse_rust_file(text.as_str()) {
        Ok(file) => (Some(file), None),
        Err(message) => (None, Some(message)),
    };
    LoadedSource { path, text, ast, parse_error }
}

} // verus!
