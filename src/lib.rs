//! The runtime core of a network-bootable loader: a cooperative scheduler's bookkeeping,
//! the decisions of socket primitives over a non-blocking host network stack, a streaming
//! decoder for flat maps of binary values, a command dispatcher with coordinated
//! shutdown, and the staging of boot images.
pub mod boot;
pub mod buffer;
pub mod commands;
pub mod console;
pub mod dns;
pub mod hex;
pub mod ipv4;
pub mod lwip_error;
pub mod msgpack;
pub mod msgpack_error;
pub mod net;
pub mod scheduler;
pub mod schema;
pub mod server;
pub mod text;
pub mod timeout;
pub mod upload;
pub mod utils;
