//! Encoders for frames.
pub mod bitmap;
