//! A compact framed transport for a remote-controlled car.
//!
//! Typed messages travel between a controller and the car over a
//! byte-oriented, half-duplex link. Each message is one frame: a one-byte
//! discriminant followed by a short, variant-specific payload. The
//! [`transport`] module defines the two message vocabularies and proves
//! that encoding and decoding are exact inverses; the [`servo`] module
//! holds the integer range interpolation used to drive a servo from an
//! angle.

pub mod servo;
pub mod transport;
