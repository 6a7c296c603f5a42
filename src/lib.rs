//! The core of a peer-to-peer RPC server: the wire messages and their
//! encoding, length-delimited framing, chunking of large responses, the
//! version handshake, admission of sessions under a permit cap, and the
//! decisions each session takes on requests, service results and streamed
//! response bodies. Alongside it stand the amount types of the Tari
//! currency and the proof-of-work record of a block header with its SHA3
//! hash.
//!
//! Everything here is verified; waiting, timing and I/O are left to the
//! caller, which hands each outcome to these functions and does what they
//! return.

pub mod varint;
pub mod wire;
pub mod message;
pub mod chunking;
pub mod framing;
pub mod status;
pub mod body;
pub mod error;
pub mod config;
pub mod handshake;
pub mod bounded_executor;
pub mod session;
pub mod stream;
pub mod server;
pub mod text;
pub mod amount;
pub mod amount_parse;
pub mod pow;
pub mod sha3_pow;
pub mod logging_middleware;
pub mod models;
pub mod command;
