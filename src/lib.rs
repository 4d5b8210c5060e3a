//! Control of a two-device test bench: power, charger and reset rails driven
//! through a control channel, and the decisions behind boot-log capture,
//! baud-rate discovery and shutdown verification.
pub mod capture;
pub mod discovery;
pub mod error;
pub mod power;
pub mod protocol;
pub mod rails;
pub mod shutdown;
pub mod text;
