//! Port forwarding between peers over an encrypted connection.

pub mod addr;
pub mod cli;
pub mod duration;
pub mod engine;
pub mod error;
pub mod forward;
pub mod key;
pub mod named;
pub mod protocol;
pub mod staged;
pub mod table;
pub mod text;
pub mod tunnel;
pub mod wire;
