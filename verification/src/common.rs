//! The reply reported for one scrape attempt, and the cross-origin
//! admission rule of the route layer.

use vstd::prelude::*;
use crate::car::CarId;
use crate::parse::{find_sub, spec_find};
use crate::serial::SerialNumber;

verus! {

/// Whether a request origin may receive cross-origin response headers:
/// it names one of the two allowed hosts.
pub fn cors_origin_allowed(origin: &str) -> (r: bool)
    ensures
        r == (spec_find(origin@, "vteng.io"@) is Some || spec_find(origin@, "localhost"@)
            is Some),
{
    match find_sub(origin, "vteng.io") {
        Some(_) => true,
        None => match find_sub(origin, "localhost") {
            Some(_) => true,
            None => false,
        },
    }
}

/// Which serial was attempted and which persisted car, if any, came of
/// it.
#[derive(Debug, Clone, Copy, PartialEq, Eq, Structural)]
pub struct ScrapeResponse {
    pub attempted: SerialNumber,
    pub found: Option<CarId>,
}

impl ScrapeResponse {
    pub fn new(attempted: SerialNumber, found: Option<CarId>) -> (r: ScrapeResponse)
        ensures
            r.attempted == attempted,
            r.found == found,
    {
        ScrapeResponse { attempted, found }
    }

    /// The attempt ended with a persisted car.
    pub fn found(attempted: SerialNumber, found: CarId) -> (r: ScrapeResponse)
        ensures
            r.attempted == attempted,
            r.found == Some(found),
    {
        ScrapeResponse::new(attempted, Some(found))
    }

    /// The attempt ended without a car.
    pub fn not_found(attempted: SerialNumber) -> (r: ScrapeResponse)
        ensures
            r.attempted == attempted,
            r.found is None,
    {
        ScrapeResponse::new(attempted, None)
    }
}

} // verus!
