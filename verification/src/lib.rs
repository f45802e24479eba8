//! A small RPC transport core: a fixed 16-byte big-endian frame header with
//! FIRST / EOS / SIGNAL lifecycle bits, per-connection demultiplexing of many
//! concurrent calls by call id, logical per-call streams, and a contiguous-id
//! service registry.

pub mod client;
pub mod error;
pub mod frame;
pub mod registry;
pub mod router;
pub mod stream;
