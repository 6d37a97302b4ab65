//! Training-data pipeline and weights quantizer for an NNUE-style chess
//! evaluator: a 32-byte packed-board codec with lossless round-trip
//! semantics, sparse feature-set projections, bucketing schemes, a columnar
//! batch container, the record-processing core of the streaming loader,
//! dataset interleave/shuffle utilities, and a fixed-point weights
//! quantizer.

pub mod batch;
pub mod board;
pub mod bucketing;
pub mod codec;
pub mod convert;
pub mod features;
pub mod fen;
pub mod interleave;
pub mod marlinformat;
pub mod pipeline;
pub mod quantize;
pub mod shuffle;
pub mod txt;
