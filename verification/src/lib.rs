//! Edge telemetry collector: the decision and encoding logic of a CAN/OBD-II
//! telemetry logger, verified with Verus.
//!
//! The firmware's hardware access, network stack and task plumbing are not
//! part of this library; they call into it with plain values.

pub mod can_id;
pub mod types;
pub mod text;
pub mod bounded_vec;
pub mod csv;
pub mod sd_buffer;
pub mod session;
pub mod logger;
pub mod decoder;
pub mod diag;
pub mod binary;
pub mod commands;
pub mod status;
pub mod std_str;
