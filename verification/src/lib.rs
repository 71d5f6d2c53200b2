//! Benchmarking library for comparing two compression strategies over a
//! synthetic corpus of structured log records: per-record compression of each
//! serialized record, against one combined length-prefixed archive stream fed
//! through a single higher-ratio compressor.
use vstd::prelude::*;

pub mod archive;
pub mod bench;
pub mod codec;
pub mod gen;
pub mod value;

verus! {

/// Errors of the library: a codec rejected its input, or the archive byte
/// stream is malformed (a length prefix claims more bytes than remain).
#[derive(Debug, Clone, Copy, PartialEq, Eq, Structural)]
pub enum BenchError {
    Codec,
    Framing,
}

} // verus!
