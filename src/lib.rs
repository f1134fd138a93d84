//! Authoritative client-server world replication.
//!
//! - `packet`, `geometry`: the messages of the fast and steady channels, the
//!   server's world updates, and the fixed-point values they carry.
//! - `prefix`, `wire`, `codec`, `messages`: the wire format, with proofs that
//!   decoding an encoded message gives it back.
//! - `transport`: in-process channels, stream framing and datagrams, with
//!   their ordering and dropping rules.
//! - `world`, `registry`, `fanout`, `server`, `session`: the server's world,
//!   its connections, liveness, snapshots, reconciliation and fan-out.
//! - `client`: applying server packets and folding local intents.
//! - `trie`, `debug_log`, `events`, `extent`, `input`, `sides`, `errors`:
//!   small supporting pieces of the game around the protocol.

pub mod geometry;
pub mod packet;
pub mod prefix;
pub mod wire;
pub mod codec;
pub mod messages;
pub mod transport;
pub mod world;
pub mod registry;
pub mod fanout;
pub mod server;
pub mod session;
pub mod client;
pub mod trie;
pub mod debug_log;
pub mod errors;
pub mod events;
pub mod extent;
pub mod input;
pub mod sides;
