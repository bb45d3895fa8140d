//! Verified core of a remote-control surface for agent processes: identifiers,
//! replicated agent state, the control protocol's rules and the client's
//! bookkeeping.
pub mod ids;
pub mod text;
pub mod commands;
pub mod state;
pub mod actor;
pub mod rpc;
pub mod protocol;
pub mod reducer;
pub mod codec;
pub mod transport;
pub mod runtime;
pub mod connection;
pub mod pairing;
pub mod config;
pub mod client;
pub mod assoc;
pub mod model;
pub mod frontend;
pub mod storage;
pub mod session;
pub mod registry;
pub mod runner;
pub mod events;
pub mod keyset;
pub mod supervisor;
