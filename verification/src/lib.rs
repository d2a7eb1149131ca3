//! A verified Xoodoo permutation for 32-bit targets, with the error type
//! shared by the Xoodyak modes built on top of it.

pub mod error;
pub mod xoodoo;

pub use error::Error;
pub use xoodoo::Xoodoo;
