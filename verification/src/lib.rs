//! Core of an on-the-fly image transformation proxy.
//!
//! A client names a source image and a sequence of transform operations by a
//! compact URL-safe token.  This crate holds the three parts with real
//! invariants: the codec that turns an operation sequence into such a token
//! and back (`codec`), the engine that applies a decoded sequence to a pixel
//! buffer (`engine`), and the bounded least-recently-used cache that turns
//! repeated requests for the same source into at most one fetch (`cache`).
//! Network and HTTP plumbing live outside the library.

pub mod cache;
pub mod codec;
pub mod engine;
pub mod error;
pub mod ops;
