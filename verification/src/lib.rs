//! Core of a TLS-authenticated IP tunnel server: address leasing, handshake
//! framing, routing by destination address and the per-client session machine.

pub mod addr;
pub mod client;
pub mod codec;
pub mod config;
pub mod error;
pub mod forward;
pub mod iptext;
pub mod pool;
pub mod router;
pub mod session;
pub mod text;
