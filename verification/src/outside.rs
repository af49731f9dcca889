//! The calls this library makes into `globset`, `camino` and the part of
//! std that vstd leaves unspecified. Each contract here is believed, not
//! proved; the doc comment of each item says what it claims.

use vstd::prelude::*;
use vstd::utf8::{decode_utf8, valid_utf8};

verus! {

/// `globset::Error`, the error `globset::Glob::new` returns for a pattern it
/// cannot parse. It is carried through opaquely.
#[verifier::external_type_specification]
#[verifier::external_body]
pub struct ExGlobError(globset::Error);

/// Whether `globset::Glob::new` accepts `pattern` (default options) and
/// `globset::GlobSetBuilder` builds a set from that one glob, compiling its
/// matcher.
pub uninterp spec fn glob_valid(pattern: Seq<char>) -> bool;

/// Whether the `globset::GlobSet` built from the one glob `pattern`
/// (default options) matches `text`.
pub uninterp spec fn glob_matches(pattern: Seq<char>, text: Seq<char>) -> bool;

/// Whether `camino::Utf8Path::new(a) == camino::Utf8Path::new(b)`: the two
/// paths have the same components under the target's path rules.
pub uninterp spec fn same_path(a: Seq<char>, b: Seq<char>) -> bool;

/// Parses `pattern` with `globset::Glob::new`, builds a one-glob
/// `globset::GlobSet` from it with `GlobSetBuilder::add` and `build` (which
/// compiles the matcher and returns, not panics on, a pattern whose regex is
/// too deep or too large), and tests `text` with `GlobSet::is_match`.
/// Claimed: the result is `Ok` exactly when both the parse and the build
/// succeed, and then holds the set's verdict on `text`; both depend on the two
/// strings alone. Nothing more is claimed of which patterns are accepted or
/// what they match. (A literal pattern is matched by an Aho-Corasick
/// automaton whose construction globset unwraps; it fails only for patterns
/// of billions of bytes.)
#[verifier::external_body]
pub(crate) fn glob_is_match(pattern: &str, text: &str) -> (r: Result<bool, globset::Error>)
    ensures
        r is Ok <==> glob_valid(pattern@),
        r matches Ok(b) ==> b == glob_matches(pattern@, text@),
{
    let glob = globset::Glob::new(pattern)?;
    let set = globset::GlobSetBuilder::new().add(glob).build()?;
    Ok(set.is_match(text))
}

/// Compares two paths with `camino::Utf8Path`'s `==`, which compares their
/// components. Claimed: the result is the named comparison of the two texts,
/// and a text is always the same path as itself.
#[verifier::external_body]
pub(crate) fn paths_equal(a: &str, b: &str) -> (r: bool)
    ensures
        r == same_path(a@, b@),
        a@ == b@ ==> r,
{
    camino::Utf8Path::new(a) == camino::Utf8Path::new(b)
}

/// `String::from_utf8`, with the error dropped. Claimed: it succeeds exactly
/// on valid UTF-8, and the string then holds the decoded characters.
#[verifier::external_body]
pub(crate) fn string_from_utf8(bytes: Vec<u8>) -> (r: Option<String>)
    ensures
        r is Some <==> valid_utf8(bytes@),
        r matches Some(s) ==> s@ == decode_utf8(bytes@),
{
    String::from_utf8(bytes).ok()
}

} // verus!
