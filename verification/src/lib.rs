//! Binary codec and message framing for a client/server stream protocol.
//!
//! The crate provides:
//! - a fixed-width big-endian codec for scalar values (`endian`),
//! - a composite codec that derives, from a declared field list, the
//!   encoder, the decoder and a static size bound for any product or
//!   sum type (`serialization`),
//! - the message envelope and the concrete wire messages (`message`),
//! - a frame writer and a poll-driven frame reader that reassembles
//!   messages from a byte stream delivered in arbitrary chunks
//!   (`framing`),
//! - small pieces of connection bookkeeping (`admission`) and log-level
//!   policy (`log`) that the surrounding application drives.

pub mod admission;
pub mod endian;
pub mod framing;
pub mod log;
pub mod message;
pub mod serialization;

