//! Verified core of a TCP relay whose traffic can be disguised: the random prefix
//! that opens a disguised connection, the mask and the chunking of the relayed
//! stream, and the decisions of the relay and of the listener.

pub mod buffer;
pub mod clock;
pub mod connection;
pub mod generate;
pub mod handshake;
pub mod listener;
pub mod mode;
pub mod prefix;
pub mod rng;
pub mod stream;
pub mod transfer;
