//! Trusted interface to the external syntax-parsing library.
//!
//! Parsing always produces a tree, even for invalid input; a syntax
//! error is reported alongside the tree, not as a failure. The parser is
//! deterministic, so the spans of those errors are a function of the
//! text alone and are named by an uninterpreted spec function.

use vstd::prelude::*;

verus! {

/// The spans (start and end offsets) of the syntax errors that the
/// external parser reports for `code`.
pub uninterp spec fn syntax_error_spans(code: Seq<char>) -> Seq<(usize, usize)>;

/// Relies on `ra_ap_syntax::SourceFile::parse` and `Parse::errors`:
/// parsing always produces a tree, and the spans of the syntax errors it
/// reports are a deterministic function of the parsed text, here named
/// [`syntax_error_spans`].
#[verifier::external_body]
pub(crate) fn parse_error_spans(code: &str) -> (r: Vec<(usize, usize)>)
    ensures
        r@ == syntax_error_spans(code@),
{
    let parsed = ra_ap_syntax::SourceFile::parse(code, ra_ap_syntax::Edition::Edition2021);
    parsed
        .errors()
        .into_iter()
        .map(|error| {
            let range = error.range();
            (u32::from(range.start()) as usize, u32::from(range.end()) as usize)
        })
        .collect()
}

/// Count the syntax errors that the external parser reports for `code`.
pub fn count_syntax_errors(code: &str) -> (n: usize)
    ensures
        n as nat == syntax_error_spans(code@).len(),
{
    parse_error_spans(code).len()
}

} // verus!
