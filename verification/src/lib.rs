//! Verified core of a VLESS-style tunnel endpoint.
//!
//! A client opens a duplex message transport, sends one binary handshake
//! describing a destination, and the endpoint relays bytes between that
//! transport and a TCP connection to the destination. This crate holds the
//! protocol logic: decoding and validating the handshake, deciding how the
//! first transport event is routed, and the relay state machine that decides
//! what each session event causes. The surrounding I/O (the transport itself,
//! the TCP socket) is driven by the host around this library.

pub mod dispatch;
pub mod identity;
pub mod relay;
pub mod vless;
