//! Verified core of an iroh-based tunnelling proxy.
//!
//! The proxy has two halves: a server that publishes an iroh ticket over
//! HTTP and accepts QUIC connections, and a client that fetches the ticket,
//! keeps one uplink to the server and tunnels TCP connections through it.
//! This crate holds their logic; the I/O around it lives with the binaries.

pub mod stun;
pub mod support;
pub mod web;
