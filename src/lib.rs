//! Analysis-side core of a spectrum-streaming audio bridge: the wire codec for
//! audio packets, the reconnecting stream client's decisions, the upgrade
//! handshake, and the capture pipeline's sliding window and send cadence.

pub mod capture;
pub mod handshake;
pub mod protocol;
pub mod websocket;
