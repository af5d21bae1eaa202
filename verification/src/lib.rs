//! Streaming decoders for delimited byte protocols.
//!
//! A byte stream arrives in chunks of arbitrary size and alignment: a chunk
//! may end in the middle of a frame or even in the middle of an escape
//! sequence.  The types in this crate reassemble such a stream into discrete
//! messages, with contracts that pin down exactly which messages a given
//! byte sequence yields, independently of how it was chunked.
//!
//! * [`chunks`] holds the chunk accumulator: a queue of byte chunks with a
//!   read cursor.
//! * [`model`] holds the per-byte decoding model that every decoder's
//!   contract is stated against.
//! * [`decoding`] holds the plain delimiter-framed decoder and its stream
//!   driver.
//! * [`decode`] holds the general framed decoder with a pluggable per-byte
//!   transformer, and its KISS instantiation in [`decode::kiss_decoder`].
//! * [`port`], [`can_port`] and [`serial_port`] hold the plain data types
//!   shared with the transport adapters that feed bytes into the decoders.
pub mod can_port;
pub mod chunks;
pub mod decode;
pub mod decoding;
pub mod model;
pub mod port;
pub mod serial_port;
