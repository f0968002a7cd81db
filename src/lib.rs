//! Telemetry streaming engine of an inertial sensor node: a bounded sample
//! buffer, a compact batch codec, the client side of the WebSocket protocol
//! and the connect / stream / reconnect state machine that ties them together.

pub mod sample;
pub mod buffer;
pub mod codec;
pub mod ws;
pub mod session;
pub mod sampling;
