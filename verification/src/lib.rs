//! Resolves a manufacturer serial number into a full vehicle identity.
//!
//! The library guesses the unknown prefix of a 17-character vehicle
//! identifier (VIN), retrieves a manufacturer-issued document for each
//! guess, parses it into a structured vehicle record, and persists the
//! result exactly once per serial number.  All decision logic is verified;
//! storage and network ports are driven by a caller through an explicit
//! state machine.

pub mod candidates;
pub mod common;
pub mod car;
pub mod gaps;
pub mod orchestrator;
pub mod parse;
pub mod ports;
pub mod serial;
pub mod vin;
pub mod year;
