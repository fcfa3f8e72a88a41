//! Usermode half of the communication layer between an anti-ransomware agent
//! and its kernel-mode filesystem minifilter.
//!
//! The two sides share a hand-rolled, fixed-layout binary wire protocol over a
//! filter communication port. This crate holds the protocol itself, verified:
//! the outbound command encoding, the inbound reply header and its embedded
//! linked list of event records, the conversion of that list into owned
//! records, and the small closed enumerations the records carry. The port
//! calls themselves are operating-system I/O and live with the embedding
//! application, which hands this crate plain byte buffers and takes plain
//! values back.

pub mod codes;
pub mod command;
pub mod config;
pub mod connector;
pub mod errors;
pub mod shared_def;
pub mod utf16;
pub mod wire;
