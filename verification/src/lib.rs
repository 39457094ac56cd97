//! Reverse-tunnel client library: a binary wire codec, a per-connection
//! lifecycle manager, and the decision logic of the tunnel session driver.

pub mod connection;
pub mod protocol;
pub mod tunnel;
