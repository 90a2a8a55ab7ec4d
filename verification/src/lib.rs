//! Server-side core of a length-framed, state-scoped binary network protocol.
//!
//! The crate provides the wire codec and dispatch machinery: the variable
//! length integer format (`varint`), a serialization framework for composite
//! types (`protocol`), a streaming packet framer that tolerates partial reads
//! (`network`), a connection state machine and a registry that scopes packet
//! ids by state (`registry`, `connection`), the packet schemas themselves
//! (`packets`), and a bit-packed dense-array encoder for world snapshot data
//! (`world`).

pub mod bytebuf;
pub mod connection;
pub mod gamedata;
pub mod identifier;
pub mod packets;
pub mod network;
pub mod protocol;
pub mod registry;
pub mod server_list_ping;
pub mod text;
pub mod varint;
pub mod world;
