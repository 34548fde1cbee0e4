//! Moving traffic between a local socket and a tunnel stream.

pub mod udp;
