//! Errors of the bench controller, as plain values.
use vstd::prelude::*;

verus! {

/// What went wrong while driving the bench.
#[derive(Debug, Clone, PartialEq, Eq)]
pub enum PowerControllerError {
    /// A channel could not be opened: its name and the reason.
    PortOpenError(String, String),
    /// A channel opened but could not be configured: its name and the reason.
    ConfigError(String, String),
    /// A read or write on an open channel failed, with the reason.
    IoError(String),
    /// The device did not answer in time.
    Timeout,
    /// A device-side selector named no side.
    InvalidDeviceSide,
}

} // verus!
