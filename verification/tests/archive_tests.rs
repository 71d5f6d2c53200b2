use logbench::BenchError;
use logbench::archive::Frame;
use logbench::archive::archive_decode;
use logbench::archive::archive_encode;
use logbench::archive::archive_round_trip;
use logbench::archive::decode_frames;
use logbench::archive::encode_frames;
use logbench::codec::compress_unit;
use logbench::codec::compress_units;
use logbench::codec::decompress_unit;
use logbench::codec::decompress_units;
use logbench::codec::per_unit_round_trip;

fn frame(name: &str, content: &[u8]) -> Frame {
    Frame { name: name.as_bytes().to_vec(), content: content.to_vec() }
}

#[test]
fn encode_frames_exact_bytes() {
    let corpus = vec![frame("ab", b"xyz")];
    let raw = encode_frames(&corpus).unwrap();
    assert_eq!(
        raw,
        vec![2u8, 0, 0, 0, b'a', b'b', 3, 0, 0, 0, b'x', b'y', b'z']
    );
}

#[test]
fn encode_frames_empty_corpus_is_empty_stream() {
    let corpus: Vec<Frame> = Vec::new();
    let raw = encode_frames(&corpus).unwrap();
    assert!(raw.is_empty());
    let decoded = decode_frames(&raw).unwrap();
    assert!(decoded.is_empty());
}

#[test]
fn single_frame_round_trip() {
    let corpus = vec![frame("a", b"some bytes \x00\xff of any kind")];
    let archived = archive_encode(&corpus).unwrap();
    let decoded = archive_decode(&archived).unwrap();
    assert_eq!(decoded.len(), 1);
    assert_eq!(decoded[0].name, b"a".to_vec());
    assert_eq!(decoded[0].content, corpus[0].content);
}

#[test]
fn single_frame_round_trip_empty_content() {
    let corpus = vec![frame("a", b"")];
    let archived = archive_encode(&corpus).unwrap();
    let decoded = archive_decode(&archived).unwrap();
    assert_eq!(decoded.len(), 1);
    assert_eq!(decoded[0].name, b"a".to_vec());
    assert!(decoded[0].content.is_empty());
}

#[test]
fn three_records() {
    let corpus = vec![frame("r0", b"x"), frame("r1", b""), frame("r2", b"hello")];
    let archived = archive_encode(&corpus).unwrap();
    let decoded = archive_decode(&archived).unwrap();
    let got: Vec<(String, Vec<u8>)> = decoded
        .iter()
        .map(|f| (String::from_utf8(f.name.clone()).unwrap(), f.content.clone()))
        .collect();
    assert_eq!(
        got,
        vec![
            ("r0".to_string(), b"x".to_vec()),
            ("r1".to_string(), b"".to_vec()),
            ("r2".to_string(), b"hello".to_vec()),
        ]
    );
}

#[test]
fn empty_corpus_round_trip() {
    let corpus: Vec<Frame> = Vec::new();
    let archived = archive_encode(&corpus).unwrap();
    let decoded = archive_decode(&archived).unwrap();
    assert!(decoded.is_empty());
}

#[test]
fn archive_round_trip_many() {
    let mut corpus = Vec::new();
    for i in 0..50usize {
        let name = format!("entry_{:04}", i);
        let content: Vec<u8> = (0..i).map(|b| (b % 251) as u8).collect();
        corpus.push(Frame { name: name.into_bytes(), content });
    }
    let decoded = archive_round_trip(&corpus).unwrap();
    assert_eq!(decoded.len(), corpus.len());
    for (d, c) in decoded.iter().zip(corpus.iter()) {
        assert_eq!(d.name, c.name);
        assert_eq!(d.content, c.content);
    }
}

#[test]
fn truncated_length_prefix_is_framing_error() {
    // Only three of the four length bytes remain.
    let raw = vec![1u8, 0, 0];
    assert_eq!(decode_frames(&raw), Err(BenchError::Framing));
}

#[test]
fn length_past_end_is_framing_error() {
    // The name length claims ten bytes; only one remains.
    let raw = vec![10u8, 0, 0, 0, b'a'];
    assert_eq!(decode_frames(&raw), Err(BenchError::Framing));
}

#[test]
fn truncated_content_is_framing_error() {
    let corpus = vec![frame("ab", b"xyz")];
    let mut raw = encode_frames(&corpus).unwrap();
    raw.pop();
    assert_eq!(decode_frames(&raw), Err(BenchError::Framing));
}

#[test]
fn truncated_archive_payload_is_framing_error() {
    // A well-formed zstd stream whose decompressed payload stops mid-frame.
    let corpus = vec![frame("name", b"content")];
    let mut raw = encode_frames(&corpus).unwrap();
    raw.truncate(raw.len() - 3);
    let compressed = zstd::stream::encode_all(raw.as_slice(), 3).unwrap();
    assert_eq!(archive_decode(&compressed), Err(BenchError::Framing));
}

#[test]
fn garbage_archive_is_codec_error() {
    let garbage = vec![7u8; 64];
    assert_eq!(archive_decode(&garbage), Err(BenchError::Codec));
}

#[test]
fn per_unit_round_trip_basic() {
    let cases: Vec<Vec<u8>> = vec![
        b"".to_vec(),
        b"x".to_vec(),
        b"hello world hello world hello world".to_vec(),
        (0u16..=255).map(|b| b as u8).collect(),
    ];
    for b in cases {
        let back = per_unit_round_trip(&b).unwrap();
        assert_eq!(back, b);
    }
}

#[test]
fn per_unit_compress_then_decompress() {
    let blob = b"some log line, repeated, repeated, repeated".to_vec();
    let unit = compress_unit(&blob).unwrap();
    assert_ne!(unit, blob);
    let back = decompress_unit(&unit).unwrap();
    assert_eq!(back, blob);
}

#[test]
fn garbage_unit_is_codec_error() {
    let garbage = vec![42u8; 32];
    assert_eq!(decompress_unit(&garbage), Err(BenchError::Codec));
}

#[test]
fn decompress_units_names_failing_index() {
    let good = compress_unit(&b"fine".to_vec()).unwrap();
    let bad = vec![9u8; 16];
    let units = vec![good.clone(), bad, good];
    assert_eq!(decompress_units(&units), Err((1, BenchError::Codec)));
}

#[test]
fn unit_passes_round_trip_all_blobs() {
    let blobs: Vec<Vec<u8>> = (0..10usize)
        .map(|i| (0..i * 7).map(|b| (b % 13) as u8).collect())
        .collect();
    let units = compress_units(&blobs).unwrap();
    assert_eq!(units.len(), blobs.len());
    let back = decompress_units(&units).unwrap();
    assert_eq!(back, blobs);
}
