//! Verified core of a non-blocking, frame-oriented TCP messaging library.
//!
//! The library holds the decisions that the networking layer takes: the
//! outcome types of accept / send / receive attempts, the busy-wait retry
//! rules, the reassembly of frames out of a byte stream, the writing of a
//! frame in several partial writes, the round-robin connection pools, the
//! connection gate of an acceptor, the poll service rules and the in-memory
//! message log. Sockets, threads and clocks stay outside; they hand the
//! library plain values and act on the plain values it returns.
pub mod buffer;
pub mod busywait;
pub mod frame;
pub mod gate;
pub mod persistence;
pub mod pool;
pub mod service;
pub mod status;
pub mod write;
