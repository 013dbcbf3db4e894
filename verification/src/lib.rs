//! The validation and timestamp-resolution core of a `touch` utility.
//!
//! Untrusted path strings and timestamp strings go in; what comes out is
//! either a precise rejection or a plan that a thin driver carries out on
//! the file system. Every function here is verified against the contract
//! in its header.

pub mod batch;
pub mod clock;
pub mod error;
pub mod path;
pub mod stamp;
pub mod touch;
pub mod validate;
pub mod world;
