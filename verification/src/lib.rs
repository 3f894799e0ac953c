//! Dataset partitioning and evaluation harness for a handwritten-digit
//! image set held as flat byte buffers.
//!
//! The store addresses its buffers by partition and row range and hands out
//! byte matrices; the harness drives a train, predict, score run for any
//! classifier backend and reduces the predictions to a hit count.

pub mod encoding;
pub mod error;
pub mod matrix;
pub mod store;
pub mod scoring;
pub mod harness;
