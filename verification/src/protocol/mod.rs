//! The wire protocol between the nodes of a cluster.

pub mod auth;
pub mod big_endian;
pub mod buffer;
pub mod cipher;
pub mod clock;
pub mod message;
pub mod payload;
pub mod random;
pub mod transport;
pub mod utf8;
pub mod wire_laws;
