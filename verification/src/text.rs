//! Text helpers: joining pieces with a separator, and trimming a line.

use itertools::Itertools;
use vstd::prelude::*;

verus! {

/// The pieces of `parts` in order, with `sep` between each two neighbours.
pub open spec fn joined(parts: Seq<Seq<char>>, sep: Seq<char>) -> Seq<char>
    decreases parts.len(),
{
    if parts.len() == 0 {
        Seq::empty()
    } else if parts.len() == 1 {
        parts[0]
    } else {
        joined(parts.drop_last(), sep) + sep + parts.last()
    }
}

/// The characters of each string of `parts`.
pub open spec fn texts(parts: Seq<String>) -> Seq<Seq<char>> {
    parts.map_values(|part: String| part@)
}

/// What is left of a line once the whitespace at both ends is taken away,
/// as `str::trim` computes it.
pub uninterp spec fn trimmed(line: Seq<char>) -> Seq<char>;

/// Calls `Itertools::join` on the strings of `parts`.
///
/// Trusted: the result is the strings in order, each written out as it is,
/// with `sep` between each two, and the empty string for no parts.
#[verifier::external_body]
pub(crate) fn join(parts: &Vec<String>, sep: &str) -> (text: String)
    ensures
        text@ == joined(texts(parts@), sep@),
{
    parts.iter().join(sep)
}

/// Calls `str::trim`.
///
/// Trusted: the result depends on the characters of `line` alone; it is
/// named `trimmed` and nothing more is claimed of it.
#[verifier::external_body]
pub(crate) fn trim(line: &str) -> (inner: &str)
    ensures
        inner@ == trimmed(line@),
{
    line.trim()
}

} // verus!
