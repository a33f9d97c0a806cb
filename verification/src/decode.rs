//! Percent-decoding of path strings returned by the system list API.
//!
//! The system hands paths back percent-encoded; before a path is shown or
//! compared it must be decoded.  Decoding is done by an outside crate; its
//! result is a function of the input alone, named here by `percent_decoded`.

use vstd::prelude::*;

verus! {

/// The percent-decoding of a string: `Some` decoded text, or `None` when the
/// decoded bytes do not form valid text.  The result depends on the input
/// characters alone.
pub uninterp spec fn percent_decoded(s: Seq<char>) -> Option<Seq<char>>;

/// Relies on urlencoding::decode: decodes `%XX` escapes, fails only when the
/// decoded bytes are not valid UTF-8, and returns the input unchanged when it
/// contains no `%`.
#[verifier::external_body]
pub fn percent_decode(s: &str) -> (r: Option<String>)
    ensures
        r is Some <==> percent_decoded(s@) is Some,
        r is Some ==> r->0@ == percent_decoded(s@)->0,
        (forall|i: int| 0 <= i < s@.len() ==> s@[i] != '%') ==> (r is Some && r->0@ == s@),
{
    match urlencoding::decode(s) {
        Ok(d) => Some(d.into_owned()),
        Err(_) => None,
    }
}

} // verus!
