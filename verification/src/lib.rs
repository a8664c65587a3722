//! A minimal ICMP Echo ("ping") core: payload construction with an embedded
//! wall-clock timestamp, wire-format encoding of an Echo Request with its
//! one's-complement checksum, and parsing of the raw IPv4 + ICMP reply.
//!
//! The surrounding binary owns the socket and the console; this library owns
//! every byte that goes on or comes off the wire.
//!
//! A packet's length follows its payload: the body is not padded out to the
//! conventional 56-byte ping body, so an Echo Request is always exactly
//! 8 header bytes plus 16 timestamp bytes plus the caller's body.

pub mod checksum;
pub mod errors;
pub mod packet;
pub mod payload;
pub mod wire;
