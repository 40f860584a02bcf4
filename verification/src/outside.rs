//! The crate's trusted boundary: declarations of outside error types,
//! the wrappers that render them once into owned text, and the
//! edit-distance primitive that name suggestions are built on.

use vstd::prelude::*;

verus! {

#[verifier::external_type_specification]
#[verifier::external_body]
pub struct ExDotenvyError(dotenvy::Error);

#[verifier::external_type_specification]
#[verifier::external_body]
pub struct ExRegexError(regex::Error);

#[verifier::external_type_specification]
#[verifier::external_body]
pub struct ExSerdeJsonError(serde_json::Error);

/// Relies on the `Display` impl of `dotenvy::Error` to render the
/// environment-file failure as text.
#[verifier::external_body]
fn render_dotenv_error(e: &dotenvy::Error) -> String {
    format!("{e}")
}

/// Relies on the `Display` impl of `regex::Error` to render the pattern
/// failure as text.
#[verifier::external_body]
fn render_regex_error(e: &regex::Error) -> String {
    format!("{e}")
}

/// Relies on the `Display` impl of `serde_json::Error` to render the
/// serialization failure as text.
#[verifier::external_body]
fn render_serde_json_error(e: &serde_json::Error) -> String {
    format!("{e}")
}

/// Wraps a failure to load an environment file.
pub fn from_dotenv(e: &dotenvy::Error) -> (r: crate::error::RunError)
    ensures
        r is Dotenv,
{
    crate::error::RunError::Dotenv { message: render_dotenv_error(e) }
}

/// Wraps a failure to compile a pattern.
pub fn from_regex(e: &regex::Error) -> (r: crate::error::RunError)
    ensures
        r is RegexCompile,
{
    crate::error::RunError::RegexCompile { message: render_regex_error(e) }
}

/// Wraps a failure to serialize output.
pub fn from_serde_json(e: &serde_json::Error) -> (r: crate::error::RunError)
    ensures
        r is DumpJson,
{
    crate::error::RunError::DumpJson { message: render_serde_json_error(e) }
}

/// The smallest of three counts.
pub open spec fn min3(a: nat, b: nat, c: nat) -> nat {
    if a <= b && a <= c {
        a
    } else if b <= c {
        b
    } else {
        c
    }
}

/// The Levenshtein edit distance between two character sequences: the
/// fewest single-character insertions, deletions and substitutions that
/// turn one into the other.
pub open spec fn edist(a: Seq<char>, b: Seq<char>) -> nat
    decreases a.len() + b.len(),
{
    if a.len() == 0 {
        b.len()
    } else if b.len() == 0 {
        a.len()
    } else if a[0] == b[0] {
        edist(a.skip(1), b.skip(1))
    } else {
        1 + min3(
            edist(a.skip(1), b),
            edist(a, b.skip(1)),
            edist(a.skip(1), b.skip(1)),
        )
    }
}

/// Relies on `edit_distance::edit_distance`, which computes the
/// Levenshtein distance over the strings' characters.
#[verifier::external_body]
pub fn name_distance(a: &str, b: &str) -> (r: usize)
    ensures
        r == edist(a@, b@),
{
    edit_distance::edit_distance(a, b)
}

} // verus!
