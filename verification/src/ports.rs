//! Trusted ports: the clock, and the one std conversion vstd gives no
//! specification for.  Document-text extraction is no port of the
//! library: it is a collaborator of the caller, which hands the
//! extracted text in through the orchestrator's events.

use vstd::prelude::*;

verus! {

/// Turns a character buffer into a `String`.
///
/// Relies on `String`'s `FromIterator` over `char`: the collected string
/// holds exactly the iterated characters, in order.
#[verifier::external_body]
pub(crate) fn string_from_chars(v: &Vec<char>) -> (r: String)
    ensures
        r@ == v@,
{
    v.iter().collect()
}

/// The current time, rendered as text.
///
/// Relies on `chrono::Utc::now`: the result names the moment of the
/// call, so nothing is promised of it.
#[verifier::external_body]
pub(crate) fn utc_now_string() -> String {
    chrono::Utc::now().to_string()
}

} // verus!
