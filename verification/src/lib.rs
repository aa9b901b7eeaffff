//! The telemetry/command bridge of a small remote-vehicle console, with its
//! link-management layer: the vehicle-side gateway that wires one hardware
//! serial channel to one network session at a time, the envelope codec that
//! frames serial lines for the wire, and the operator-side link manager
//! that reconnects forever, classifies inbound text into telemetry and
//! chat, and exposes a consistent snapshot plus two directional queues to
//! presentation code.

pub mod classify;
pub mod envelope;
pub mod gateway;
pub mod link;
pub mod numtext;
pub mod panels;
pub mod telemetry;
pub mod text;
