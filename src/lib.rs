//! Chunked authenticated encryption and the decision logic of a resilient
//! chunked transfer pipeline.

pub mod codec;
pub mod error;
pub mod keys;
pub mod types;
pub mod transfer;
pub mod text;
