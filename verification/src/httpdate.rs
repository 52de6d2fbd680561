//! Parsing of RFC 2822 dates carried by `If-Modified-Since` headers.

use vstd::prelude::*;

verus! {

/// The epoch seconds an RFC 2822 date names; a function of the text alone.
pub uninterp spec fn rfc2822_secs(s: Seq<char>) -> Option<int>;

/// Relies on chrono::DateTime::parse_from_rfc2822 and
/// chrono::DateTime::timestamp: the parsed date's epoch seconds, a
/// function of the text alone; malformed text parses to nothing.
#[verifier::external_body]
pub fn parse_rfc2822(s: &str) -> (r: Option<i64>)
    ensures
        r matches Some(v) ==> rfc2822_secs(s@) == Some(v as int),
        r is None ==> rfc2822_secs(s@) is None,
{
    match chrono::DateTime::parse_from_rfc2822(s) {
        Ok(dt) => Some(dt.timestamp()),
        Err(_) => None,
    }
}

} // verus!
