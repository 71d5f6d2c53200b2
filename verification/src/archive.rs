//! The archive container format: every record is framed as
//! `name_len: u32 LE, name bytes, content_len: u32 LE, content bytes`,
//! and the frames are written back to back with no separator or trailer.
//! The sole valid end of stream is exhaustion exactly at a frame boundary;
//! a length prefix that would read past the remaining bytes is a framing
//! error.
use vstd::prelude::*;
use vstd::bytes::*;
use vstd::seq_lib::*;

use crate::BenchError;
use crate::codec::zstd_compress;
use crate::codec::zstd_decompress;
use crate::codec::zstd_unzip;

verus! {

/// One logical record of an archive: a name and its content bytes.
#[derive(Debug, PartialEq, Eq)]
pub struct Frame {
    pub name: Vec<u8>,
    pub content: Vec<u8>,
}

/// Mathematical model of a frame: the two byte sequences.
#[verifier::ext_equal]
pub struct FrameView {
    pub name: Seq<u8>,
    pub content: Seq<u8>,
}

impl View for Frame {
    type V = FrameView;

    open spec fn view(&self) -> FrameView {
        FrameView { name: self.name@, content: self.content@ }
    }
}

/// Model of a corpus: the frames, in order.
pub open spec fn cview(frames: Seq<Frame>) -> Seq<FrameView> {
    frames.map_values(|f: Frame| f@)
}

/// Both lengths of a frame must be representable in 32 bits: the format's
/// ceiling, validated explicitly by the encoder.
pub open spec fn frame_fits(f: FrameView) -> bool {
    f.name.len() <= u32::MAX && f.content.len() <= u32::MAX
}

pub open spec fn corpus_fits(c: Seq<FrameView>) -> bool {
    forall|i: int| 0 <= i < c.len() ==> frame_fits(#[trigger] c[i])
}

/// The exact bytes of one frame.
pub open spec fn frame_bytes(f: FrameView) -> Seq<u8> {
    spec_u32_to_le_bytes(f.name.len() as u32) + f.name
        + spec_u32_to_le_bytes(f.content.len() as u32) + f.content
}

/// The exact bytes of a whole corpus: its frames back to back.
pub open spec fn frames_bytes(c: Seq<FrameView>) -> Seq<u8>
    decreases c.len(),
{
    if c.len() == 0 {
        Seq::empty()
    } else {
        frame_bytes(c[0]) + frames_bytes(c.drop_first())
    }
}

/// The decoder's meaning of a byte stream: the frame sequence it carries, or
/// `None` if some length prefix claims more bytes than remain (truncation).
pub open spec fn parse_frames(b: Seq<u8>) -> Option<Seq<FrameView>>
    decreases b.len(),
{
    if b.len() == 0 {
        Some(Seq::empty())
    } else if b.len() < 4 {
        None
    } else {
        let name_len = spec_u32_from_le_bytes(b.subrange(0, 4)) as int;
        if b.len() < 8 + name_len {
            None
        } else {
            let content_len = spec_u32_from_le_bytes(
                b.subrange(4 + name_len, 8 + name_len),
            ) as int;
            if b.len() < 8 + name_len + content_len {
                None
            } else {
                let f = FrameView {
                    name: b.subrange(4, 4 + name_len),
                    content: b.subrange(8 + name_len, 8 + name_len + content_len),
                };
                match parse_frames(b.skip(8 + name_len + content_len)) {
                    Some(tail) => Some(seq![f] + tail),
                    None => None,
                }
            }
        }
    }
}

/// Appending one frame to a corpus appends its bytes to the stream.
pub proof fn lemma_frames_bytes_push(c: Seq<FrameView>, f: FrameView)
    ensures
        frames_bytes(c.push(f)) == frames_bytes(c) + frame_bytes(f),
    decreases c.len(),
{
    if c.len() == 0 {
        let e = Seq::<FrameView>::empty();
        assert(c.push(f).drop_first() =~= e);
        assert(c.push(f)[0] == f);
        assert(frames_bytes(e) == Seq::<u8>::empty());
        assert(frames_bytes(c.push(f)) == frame_bytes(f) + Seq::<u8>::empty());
        assert(frame_bytes(f) + Seq::<u8>::empty() =~= frames_bytes(c) + frame_bytes(f));
    } else {
        lemma_frames_bytes_push(c.drop_first(), f);
        assert(c.push(f).drop_first() =~= c.drop_first().push(f));
        assert(c.push(f)[0] == c[0]);
        assert(frames_bytes(c.push(f)) == frame_bytes(c[0]) + frames_bytes(c.drop_first().push(f)));
        assert(frames_bytes(c.push(f)) =~= frames_bytes(c) + frame_bytes(f));
    }
}

/// Round trip of the framing itself: decoding the encoded byte stream of any
/// corpus whose lengths fit the format yields exactly that corpus, in order.
pub proof fn lemma_frames_round_trip(c: Seq<FrameView>)
    requires
        corpus_fits(c),
    ensures
        parse_frames(frames_bytes(c)) == Some(c),
    decreases c.len(),
{
    lemma_auto_spec_u32_to_from_le_bytes();
    if c.len() == 0 {
        assert(c =~= Seq::<FrameView>::empty());
    } else {
        let f = c[0];
        let b = frames_bytes(c);
        let nl = f.name.len() as int;
        let cl = f.content.len() as int;
        let tailb = frames_bytes(c.drop_first());
        assert(frame_fits(f));
        assert(b == frame_bytes(f) + tailb);
        assert(b.len() == 8 + nl + cl + tailb.len());
        assert(b.subrange(0, 4) =~= spec_u32_to_le_bytes(f.name.len() as u32));
        assert(spec_u32_from_le_bytes(b.subrange(0, 4)) as int == nl);
        assert(b.subrange(4, 4 + nl) =~= f.name);
        assert(b.subrange(4 + nl, 8 + nl) =~= spec_u32_to_le_bytes(f.content.len() as u32));
        assert(spec_u32_from_le_bytes(b.subrange(4 + nl, 8 + nl)) as int == cl);
        assert(b.subrange(8 + nl, 8 + nl + cl) =~= f.content);
        assert(b.skip(8 + nl + cl) =~= tailb);
        assert(corpus_fits(c.drop_first()));
        lemma_frames_round_trip(c.drop_first());
        let parsed = FrameView {
            name: b.subrange(4, 4 + nl),
            content: b.subrange(8 + nl, 8 + nl + cl),
        };
        assert(parsed =~= f);
        assert(seq![f] + c.drop_first() =~= c);
    }
}

/// Round trip of a single frame: a one-record corpus decodes to exactly that
/// record, whatever its content bytes.
pub proof fn lemma_single_frame_round_trip(f: FrameView)
    requires
        frame_fits(f),
    ensures
        parse_frames(frames_bytes(seq![f])) == Some(seq![f]),
{
    lemma_frames_round_trip(seq![f]);
}

/// Encode a corpus into the raw (uncompressed) archive byte stream.
/// Rejects, as a framing error, any frame whose name or content does not fit
/// the 32-bit length field of the format.
pub fn encode_frames(corpus: &Vec<Frame>) -> (r: Result<Vec<u8>, BenchError>)
    ensures
        r matches Ok(b) ==> corpus_fits(cview(corpus@)) && b@ == frames_bytes(cview(corpus@)),
        r matches Err(e) ==> e == BenchError::Framing && !corpus_fits(cview(corpus@)),
{
    let mut out: Vec<u8> = Vec::new();
    let mut i: usize = 0;
    assert(cview(corpus@).take(0) =~= Seq::<FrameView>::empty());
    while i < corpus.len()
        invariant
            0 <= i <= corpus@.len(),
            out@ == frames_bytes(cview(corpus@).take(i as int)),
            forall|j: int| 0 <= j < i ==> frame_fits(#[trigger] cview(corpus@)[j]),
        decreases corpus@.len() - i,
    {
        let f = &corpus[i];
        if f.name.len() > u32::MAX as usize || f.content.len() > u32::MAX as usize {
            assert(!frame_fits(cview(corpus@)[i as int]));
            return Err(BenchError::Framing);
        }
        let ghost prefix = cview(corpus@).take(i as int);
        let mut name_len = u32_to_le_bytes(f.name.len() as u32);
        out.append(&mut name_len);
        out.extend_from_slice(f.name.as_slice());
        let mut content_len = u32_to_le_bytes(f.content.len() as u32);
        out.append(&mut content_len);
        out.extend_from_slice(f.content.as_slice());
        proof {
            lemma_frames_bytes_push(prefix, f@);
            assert(prefix.push(f@) =~= cview(corpus@).take(i + 1));
            assert(out@ =~= frames_bytes(prefix) + frame_bytes(f@));
        }
        i = i + 1;
    }
    assert(cview(corpus@).take(corpus@.len() as int) =~= cview(corpus@));
    Ok(out)
}

/// Decode a raw (uncompressed) archive byte stream back into its frames.
/// Returns exactly the frame sequence the stream carries, and a framing error
/// if and only if the stream is truncated mid-frame.
pub fn decode_frames(bytes: &Vec<u8>) -> (r: Result<Vec<Frame>, BenchError>)
    ensures
        r matches Ok(frames) ==> parse_frames(bytes@) == Some(cview(frames@)),
        r matches Err(e) ==> e == BenchError::Framing && parse_frames(bytes@) is None,
        parse_frames(bytes@) is Some <==> r is Ok,
{
    let mut acc: Vec<Frame> = Vec::new();
    let mut pos: usize = 0;
    proof {
        assert(bytes@.skip(0) =~= bytes@);
        assert(cview(acc@) =~= Seq::<FrameView>::empty());
        assert forall|t: Seq<FrameView>| parse_frames(bytes@) == Some(t)
            implies parse_frames(bytes@) == Some(cview(acc@) + t) by {
            assert(cview(acc@) + t =~= t);
        }
    }
    while pos < bytes.len()
        invariant
            0 <= pos <= bytes@.len(),
            parse_frames(bytes@.skip(pos as int)) matches Some(t)
                ==> parse_frames(bytes@) == Some(cview(acc@) + t),
            parse_frames(bytes@.skip(pos as int)) is None ==> parse_frames(bytes@) is None,
        decreases bytes@.len() - pos,
    {
        let ghost rem = bytes@.skip(pos as int);
        let remaining = bytes.len() - pos;
        if remaining < 4 {
            assert(parse_frames(rem) is None);
            return Err(BenchError::Framing);
        }
        let name_len_u32 = u32_from_le_bytes(vstd::slice::slice_subrange(
            bytes.as_slice(), pos, pos + 4));
        proof {
            assert(bytes@.subrange(pos as int, pos + 4) =~= rem.subrange(0, 4));
        }
        let name_len = name_len_u32 as usize;
        if remaining - 4 < name_len || remaining - 4 - name_len < 4 {
            assert(rem.len() < 8 + name_len);
            assert(parse_frames(rem) is None);
            return Err(BenchError::Framing);
        }
        let name = vstd::slice::slice_to_vec(vstd::slice::slice_subrange(
            bytes.as_slice(), pos + 4, pos + 4 + name_len));
        let content_len_u32 = u32_from_le_bytes(vstd::slice::slice_subrange(
            bytes.as_slice(), pos + 4 + name_len, pos + 8 + name_len));
        proof {
            assert(bytes@.subrange(pos + 4 + name_len, pos + 8 + name_len)
                =~= rem.subrange(4 + name_len, 8 + name_len));
        }
        let content_len = content_len_u32 as usize;
        if remaining - 8 - name_len < content_len {
            assert(rem.len() < 8 + name_len + content_len);
            assert(parse_frames(rem) is None);
            return Err(BenchError::Framing);
        }
        let content = vstd::slice::slice_to_vec(vstd::slice::slice_subrange(
            bytes.as_slice(), pos + 8 + name_len, pos + 8 + name_len + content_len));
        let frame = Frame { name, content };
        let ghost fv = frame@;
        let next = pos + 8 + name_len + content_len;
        proof {
            assert(rem.subrange(4, 4 + name_len)
                =~= bytes@.subrange(pos + 4, pos + 4 + name_len));
            assert(rem.subrange(8 + name_len, 8 + name_len + content_len)
                =~= bytes@.subrange(pos + 8 + name_len, pos + 8 + name_len + content_len));
            assert(fv =~= FrameView {
                name: rem.subrange(4, 4 + name_len),
                content: rem.subrange(8 + name_len, 8 + name_len + content_len),
            });
            assert(rem.skip(8 + name_len + content_len) =~= bytes@.skip(next as int));
            assert(parse_frames(rem) == (match parse_frames(bytes@.skip(next as int)) {
                Some(tail) => Some(seq![fv] + tail),
                None => None,
            }));
            assert(cview(acc@.push(frame)) =~= cview(acc@).push(fv));
            assert forall|t: Seq<FrameView>|
                parse_frames(bytes@.skip(next as int)) == Some(t)
                    implies parse_frames(bytes@) == Some(cview(acc@.push(frame)) + t) by {
                assert(parse_frames(rem) == Some(seq![fv] + t));
                assert(cview(acc@) + (seq![fv] + t) =~= cview(acc@).push(fv) + t);
            }
        }
        acc.push(frame);
        pos = next;
    }
    proof {
        assert(bytes@.skip(pos as int) =~= Seq::<u8>::empty());
        assert(parse_frames(bytes@.skip(pos as int)) == Some(Seq::<FrameView>::empty()));
        assert(cview(acc@) + Seq::<FrameView>::empty() =~= cview(acc@));
    }
    Ok(acc)
}

/// The combined-stream strategy: frame the whole corpus and feed the framed
/// stream through one instance of the archive codec, finalized. It succeeds
/// on exactly the corpora whose frames fit the format; a frame whose lengths
/// do not is a framing error.
pub fn archive_encode(corpus: &Vec<Frame>) -> (r: Result<Vec<u8>, BenchError>)
    ensures
        corpus_fits(cview(corpus@)) ==> r is Ok,
        r matches Ok(a) ==> corpus_fits(cview(corpus@))
            && zstd_unzip(a@) == Some(frames_bytes(cview(corpus@))),
        !corpus_fits(cview(corpus@)) ==> r == Err::<Vec<u8>, BenchError>(BenchError::Framing),
{
    let raw = match encode_frames(corpus) {
        Ok(b) => b,
        Err(e) => return Err(e),
    };
    zstd_compress(&raw)
}

/// Decode one compressed archive back into its frames. A stream the codec
/// rejects is a codec error; a decompressed payload truncated mid-frame is a
/// framing error; otherwise decoding succeeds with exactly the carried
/// frames.
pub fn archive_decode(archive: &Vec<u8>) -> (r: Result<Vec<Frame>, BenchError>)
    ensures
        r matches Ok(frames) ==> zstd_unzip(archive@) matches Some(p)
            && parse_frames(p) == Some(cview(frames@)),
        r == Err::<Vec<Frame>, BenchError>(BenchError::Codec) <==> zstd_unzip(archive@) is None,
        r == Err::<Vec<Frame>, BenchError>(BenchError::Framing) <==> (zstd_unzip(archive@) matches Some(p)
            && parse_frames(p) is None),
{
    let payload = match zstd_decompress(archive) {
        Ok(p) => p,
        Err(_) => return Err(BenchError::Codec),
    };
    decode_frames(&payload)
}

/// Whole-archive round trip: decoding the archive encoded from any corpus
/// whose frames fit the format — the empty corpus and empty contents
/// included — yields exactly that corpus, in order; on such a corpus neither
/// direction can fail.
pub fn archive_round_trip(corpus: &Vec<Frame>) -> (r: Result<Vec<Frame>, BenchError>)
    ensures
        corpus_fits(cview(corpus@))
            ==> (r matches Ok(out) && cview(out@) == cview(corpus@)),
        r matches Ok(out) ==> cview(out@) == cview(corpus@),
        !corpus_fits(cview(corpus@)) ==> r == Err::<Vec<Frame>, BenchError>(BenchError::Framing),
{
    let a = match archive_encode(corpus) {
        Ok(a) => a,
        Err(e) => return Err(e),
    };
    proof {
        lemma_frames_round_trip(cview(corpus@));
    }
    let r = archive_decode(&a);
    match r {
        Ok(out) => Ok(out),
        Err(e) => {
            proof {
                assert(zstd_unzip(a@) == Some(frames_bytes(cview(corpus@))));
                assert(r != Err::<Vec<Frame>, BenchError>(BenchError::Codec));
                assert(r != Err::<Vec<Frame>, BenchError>(BenchError::Framing));
                assert(e == BenchError::Codec || e == BenchError::Framing);
                assert(false);
            }
            Err(e)
        },
    }
}

} // verus!
