//! The two byte-stream codecs, behind trusted wrappers: a general-purpose one
//! (gzip) that compresses each serialized record independently, and a
//! higher-ratio streaming one (zstd) that compresses the combined archive
//! stream. Each codec's decoding is named by an uninterpreted function, and
//! the trusted contracts state the round trip the codec documentation
//! guarantees: decoding what the encoder produced yields the original bytes.
use std::io::Read;
use std::io::Write;
use vstd::prelude::*;

use crate::BenchError;

verus! {

/// What gzip decoding yields on a byte stream: the decompressed bytes of the
/// leading gzip member if the stream begins with a well-formed one (bytes
/// after that member are ignored), `None` otherwise.
pub uninterp spec fn gzip_unzip(b: Seq<u8>) -> Option<Seq<u8>>;

/// What zstd decoding yields on a byte stream: the decompressed bytes if the
/// stream is a well-formed, finalized zstd frame sequence, `None` otherwise.
pub uninterp spec fn zstd_unzip(b: Seq<u8>) -> Option<Seq<u8>>;

/// Relies on flate2's `write::GzEncoder` at the default compression level,
/// finalized with `finish`: the emitted bytes form a gzip stream whose
/// decoding (`gzip_unzip`) recovers exactly the input. The sink is an
/// in-memory `Vec`, whose writes cannot fail, so the call succeeds on every
/// input.
#[verifier::external_body]
fn gzip_compress(b: &Vec<u8>) -> (r: Result<Vec<u8>, BenchError>)
    ensures
        r is Ok,
        r matches Ok(c) ==> gzip_unzip(c@) == Some(b@),
{
    let mut enc = flate2::write::GzEncoder::new(Vec::new(), flate2::Compression::default());
    if enc.write_all(b.as_slice()).is_err() {
        return Err(BenchError::Codec);
    }
    match enc.finish() {
        Ok(c) => Ok(c),
        Err(_) => Err(BenchError::Codec),
    }
}

/// Relies on flate2's `read::GzDecoder`: reading it to the end decodes a
/// gzip stream, failing exactly on malformed input; `gzip_unzip` names that
/// decoding.
#[verifier::external_body]
fn gzip_decompress(b: &Vec<u8>) -> (r: Result<Vec<u8>, BenchError>)
    ensures
        r matches Ok(o) ==> gzip_unzip(b@) == Some(o@),
        r matches Err(e) ==> e == BenchError::Codec && gzip_unzip(b@) is None,
        gzip_unzip(b@) is Some ==> r is Ok,
{
    let mut dec = flate2::read::GzDecoder::new(b.as_slice());
    let mut out = Vec::new();
    match dec.read_to_end(&mut out) {
        Ok(_) => Ok(out),
        Err(_) => Err(BenchError::Codec),
    }
}

/// Relies on zstd's `stream::encode_all` at level 3: the emitted bytes form a
/// finalized zstd frame whose decoding (`zstd_unzip`) recovers exactly the
/// input. It reads from a slice and writes into an in-memory `Vec`, neither
/// of which can fail, so the call succeeds on every input.
#[verifier::external_body]
pub(crate) fn zstd_compress(b: &Vec<u8>) -> (r: Result<Vec<u8>, BenchError>)
    ensures
        r is Ok,
        r matches Ok(c) ==> zstd_unzip(c@) == Some(b@),
{
    match zstd::stream::encode_all(b.as_slice(), 3) {
        Ok(c) => Ok(c),
        Err(_) => Err(BenchError::Codec),
    }
}

/// Relies on zstd's `stream::decode_all`: it decodes a finalized zstd frame
/// sequence, failing exactly on malformed or unfinalized input; `zstd_unzip`
/// names that decoding.
#[verifier::external_body]
pub(crate) fn zstd_decompress(b: &Vec<u8>) -> (r: Result<Vec<u8>, BenchError>)
    ensures
        r matches Ok(o) ==> zstd_unzip(b@) == Some(o@),
        r matches Err(e) ==> e == BenchError::Codec && zstd_unzip(b@) is None,
        zstd_unzip(b@) is Some ==> r is Ok,
{
    match zstd::stream::decode_all(b.as_slice()) {
        Ok(o) => Ok(o),
        Err(_) => Err(BenchError::Codec),
    }
}

/// Compress one serialized record independently into its own unit; this
/// always succeeds.
pub fn compress_unit(b: &Vec<u8>) -> (r: Result<Vec<u8>, BenchError>)
    ensures
        r is Ok,
        r matches Ok(c) ==> gzip_unzip(c@) == Some(b@),
{
    gzip_compress(b)
}

/// Decompress one independently compressed unit; a malformed or truncated
/// unit is rejected as a codec error, never silently truncated.
pub fn decompress_unit(b: &Vec<u8>) -> (r: Result<Vec<u8>, BenchError>)
    ensures
        r matches Ok(o) ==> gzip_unzip(b@) == Some(o@),
        r matches Err(e) ==> e == BenchError::Codec && gzip_unzip(b@) is None,
        gzip_unzip(b@) is Some ==> r is Ok,
{
    gzip_decompress(b)
}

/// Per-unit round trip: decompressing the unit produced by compressing any
/// byte sequence, the empty one included, gives back exactly that sequence.
/// Neither direction can fail here: compression always succeeds, and its
/// output is always a unit that decompression accepts.
pub fn per_unit_round_trip(b: &Vec<u8>) -> (r: Result<Vec<u8>, BenchError>)
    ensures
        r matches Ok(o) && o@ == b@,
{
    let c = compress_unit(b).unwrap();
    decompress_unit(&c)
}

/// The per-unit compression pass: compress every blob independently, in
/// order; this always succeeds.
pub fn compress_units(blobs: &Vec<Vec<u8>>) -> (r: Result<Vec<Vec<u8>>, BenchError>)
    ensures
        r is Ok,
        r matches Ok(units) ==> units@.len() == blobs@.len()
            && forall|i: int| 0 <= i < blobs@.len()
                ==> gzip_unzip(#[trigger] units@[i]@) == Some(blobs@[i]@),
{
    let mut units: Vec<Vec<u8>> = Vec::new();
    let mut i: usize = 0;
    while i < blobs.len()
        invariant
            0 <= i <= blobs@.len(),
            units@.len() == i,
            forall|j: int| 0 <= j < i
                ==> gzip_unzip(#[trigger] units@[j]@) == Some(blobs@[j]@),
        decreases blobs@.len() - i,
    {
        let c = compress_unit(&blobs[i]).unwrap();
        units.push(c);
        i = i + 1;
    }
    Ok(units)
}

/// The per-unit decompression pass: decompress every unit, in order; it
/// succeeds if and only if every unit is well formed, and a failure names
/// the index of the first malformed unit.
pub fn decompress_units(units: &Vec<Vec<u8>>) -> (r: Result<Vec<Vec<u8>>, (usize, BenchError)>)
    ensures
        r matches Ok(blobs) ==> blobs@.len() == units@.len()
            && forall|i: int| 0 <= i < units@.len()
                ==> gzip_unzip(#[trigger] units@[i]@) == Some(blobs@[i]@),
        r matches Err(e) ==> e.1 == BenchError::Codec && e.0 < units@.len()
            && gzip_unzip(units@[e.0 as int]@) is None,
        (forall|i: int| 0 <= i < units@.len() ==> gzip_unzip(#[trigger] units@[i]@) is Some)
            ==> r is Ok,
{
    let mut blobs: Vec<Vec<u8>> = Vec::new();
    let mut i: usize = 0;
    while i < units.len()
        invariant
            0 <= i <= units@.len(),
            blobs@.len() == i,
            forall|j: int| 0 <= j < i
                ==> gzip_unzip(#[trigger] units@[j]@) == Some(blobs@[j]@),
        decreases units@.len() - i,
    {
        let o = match decompress_unit(&units[i]) {
            Ok(o) => o,
            Err(e) => return Err((i, e)),
        };
        blobs.push(o);
        i = i + 1;
    }
    Ok(blobs)
}

} // verus!
