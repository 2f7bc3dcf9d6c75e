//! The binary clip container: a header `{magic, frame_count, width, height,
//! rate}` followed by one record `{timestamp, stream_index, payload_len,
//! payload}` per frame, all integers little-endian.

use crate::frame::{CapturedFrame, FrameSpec};
use vstd::prelude::*;

verus! {

/// Size of the container header in bytes.
pub const HEADER_LEN: usize = 24;

/// Size of a record's fixed part (timestamp, stream index, payload length).
pub const RECORD_HEAD_LEN: usize = 16;

/// Errors of encoding or reading a clip container.
#[derive(Debug, PartialEq, Eq, Structural)]
pub enum ClipError {
    /// There are no frames to encode.
    EmptyInput,
    /// The input is shorter than a header, or its magic/version tag is wrong.
    MalformedHeader,
    /// A record reaches past the end of the input.
    TruncatedRecord,
}

/// The magic and version tag that opens every container: "QSPCLIP" and version 1.
pub open spec fn clip_magic() -> Seq<u8> {
    seq![0x51u8, 0x53u8, 0x50u8, 0x43u8, 0x4Cu8, 0x49u8, 0x50u8, 0x01u8]
}

/// The four little-endian bytes of `x`.
pub open spec fn le_bytes_u32(x: u32) -> Seq<u8> {
    seq![
        (x & 0xff) as u8,
        ((x >> 8u32) & 0xff) as u8,
        ((x >> 16u32) & 0xff) as u8,
        ((x >> 24u32) & 0xff) as u8,
    ]
}

/// The eight little-endian bytes of `x`.
pub open spec fn le_bytes_u64(x: u64) -> Seq<u8> {
    seq![
        (x & 0xff) as u8,
        ((x >> 8u64) & 0xff) as u8,
        ((x >> 16u64) & 0xff) as u8,
        ((x >> 24u64) & 0xff) as u8,
        ((x >> 32u64) & 0xff) as u8,
        ((x >> 40u64) & 0xff) as u8,
        ((x >> 48u64) & 0xff) as u8,
        ((x >> 56u64) & 0xff) as u8,
    ]
}

/// The `u32` whose little-endian bytes are the first four of `b`.
pub open spec fn u32_from_le(b: Seq<u8>) -> u32 {
    (b[0] as u32) | ((b[1] as u32) << 8u32) | ((b[2] as u32) << 16u32) | ((b[3] as u32) << 24u32)
}

/// The `u64` whose little-endian bytes are the first eight of `b`.
pub open spec fn u64_from_le(b: Seq<u8>) -> u64 {
    (b[0] as u64) | ((b[1] as u64) << 8u64) | ((b[2] as u64) << 16u64) | ((b[3] as u64) << 24u64)
        | ((b[4] as u64) << 32u64) | ((b[5] as u64) << 40u64) | ((b[6] as u64) << 48u64) | ((
    b[7] as u64) << 56u64)
}

/// The bytes of one frame record.
pub open spec fn record_bytes(f: FrameSpec) -> Seq<u8> {
    le_bytes_u64(f.captured_at) + le_bytes_u32(f.stream_index) + le_bytes_u32(
        f.payload.len() as u32,
    ) + f.payload
}

/// The records of `fs`, in order.
pub open spec fn records_bytes(fs: Seq<FrameSpec>) -> Seq<u8>
    decreases fs.len(),
{
    if fs.len() == 0 {
        Seq::empty()
    } else {
        records_bytes(fs.drop_last()) + record_bytes(fs.last())
    }
}

/// The container holding `fs` (dimensions taken from the first frame) at `rate`.
pub open spec fn clip_bytes(fs: Seq<FrameSpec>, rate: u32) -> Seq<u8> {
    clip_magic() + le_bytes_u32(fs.len() as u32) + le_bytes_u32(fs[0].width) + le_bytes_u32(
        fs[0].height,
    ) + le_bytes_u32(rate) + records_bytes(fs)
}

/// Whether a frame sequence can be written to a container: it is non-empty
/// and its count and every payload length fit the format's 32-bit fields.
pub open spec fn encodable(fs: Seq<FrameSpec>) -> bool {
    &&& 0 < fs.len() <= u32::MAX
    &&& forall|i: int| 0 <= i < fs.len() ==> #[trigger] fs[i].payload.len() <= u32::MAX
}

/// The contents of a container, as plain values.
pub ghost struct ClipSpec {
    pub frames: Seq<FrameSpec>,
    pub width: u32,
    pub height: u32,
    pub rate: u32,
}

/// Reads `n` records from the start of `b`; each frame gets the header's
/// dimensions.
pub open spec fn parse_records(b: Seq<u8>, n: nat, width: u32, height: u32) -> Result<
    Seq<FrameSpec>,
    ClipError,
>
    decreases n,
{
    if n == 0 {
        Ok(Seq::empty())
    } else if b.len() < RECORD_HEAD_LEN {
        Err(ClipError::TruncatedRecord)
    } else {
        let len = u32_from_le(b.subrange(12, 16));
        if b.len() - RECORD_HEAD_LEN < len {
            Err(ClipError::TruncatedRecord)
        } else {
            let f = FrameSpec {
                payload: b.subrange(16, 16 + len),
                captured_at: u64_from_le(b.subrange(0, 8)),
                stream_index: u32_from_le(b.subrange(8, 12)),
                width,
                height,
            };
            match parse_records(b.subrange(16 + len, b.len() as int), (n - 1) as nat, width, height) {
                Ok(rest) => Ok(seq![f] + rest),
                Err(e) => Err(e),
            }
        }
    }
}

/// Reads a whole container.
pub open spec fn parse_clip(b: Seq<u8>) -> Result<ClipSpec, ClipError> {
    if b.len() < HEADER_LEN || b.subrange(0, 8) != clip_magic() {
        Err(ClipError::MalformedHeader)
    } else {
        let n = u32_from_le(b.subrange(8, 12));
        let width = u32_from_le(b.subrange(12, 16));
        let height = u32_from_le(b.subrange(16, 20));
        let rate = u32_from_le(b.subrange(20, 24));
        match parse_records(b.subrange(24, b.len() as int), n as nat, width, height) {
            Ok(frames) => Ok(ClipSpec { frames, width, height, rate }),
            Err(e) => Err(e),
        }
    }
}

/// `fs` with every frame's dimensions replaced by `width` × `height`.
pub open spec fn with_dims(fs: Seq<FrameSpec>, width: u32, height: u32) -> Seq<FrameSpec> {
    fs.map_values(|f: FrameSpec| FrameSpec { width, height, ..f })
}

/// The views of a sequence of frames.
pub open spec fn frames_view(v: Seq<CapturedFrame>) -> Seq<FrameSpec> {
    v.map_values(|f: CapturedFrame| f@)
}

proof fn lemma_u32_le(x: u32)
    ensures
        u32_from_le(le_bytes_u32(x)) == x,
{
    let b = le_bytes_u32(x);
    assert(u32_from_le(b) == (((x & 0xff) as u8) as u32) | (((((x >> 8u32) & 0xff) as u8) as u32)
        << 8u32) | (((((x >> 16u32) & 0xff) as u8) as u32) << 16u32) | (((((x >> 24u32) & 0xff) as u8)
        as u32) << 24u32));
    assert((((x & 0xff) as u8) as u32) | (((((x >> 8u32) & 0xff) as u8) as u32) << 8u32) | (((((x
        >> 16u32) & 0xff) as u8) as u32) << 16u32) | (((((x >> 24u32) & 0xff) as u8) as u32)
        << 24u32) == x) by (bit_vector);
}

proof fn lemma_u64_le(x: u64)
    ensures
        u64_from_le(le_bytes_u64(x)) == x,
{
    let b = le_bytes_u64(x);
    assert(u64_from_le(b) == (((x & 0xff) as u8) as u64) | (((((x >> 8u64) & 0xff) as u8) as u64)
        << 8u64) | (((((x >> 16u64) & 0xff) as u8) as u64) << 16u64) | (((((x >> 24u64) & 0xff) as u8)
        as u64) << 24u64) | (((((x >> 32u64) & 0xff) as u8) as u64) << 32u64) | (((((x >> 40u64)
        & 0xff) as u8) as u64) << 40u64) | (((((x >> 48u64) & 0xff) as u8) as u64) << 48u64) | (((((x
        >> 56u64) & 0xff) as u8) as u64) << 56u64));
    assert((((x & 0xff) as u8) as u64) | (((((x >> 8u64) & 0xff) as u8) as u64) << 8u64) | (((((x
        >> 16u64) & 0xff) as u8) as u64) << 16u64) | (((((x >> 24u64) & 0xff) as u8) as u64)
        << 24u64) | (((((x >> 32u64) & 0xff) as u8) as u64) << 32u64) | (((((x >> 40u64) & 0xff)
        as u8) as u64) << 40u64) | (((((x >> 48u64) & 0xff) as u8) as u64) << 48u64) | (((((x
        >> 56u64) & 0xff) as u8) as u64) << 56u64) == x) by (bit_vector);
}

proof fn lemma_records_prepend(f: FrameSpec, rest: Seq<FrameSpec>)
    ensures
        records_bytes(seq![f] + rest) == record_bytes(f) + records_bytes(rest),
    decreases rest.len(),
{
    let s = seq![f] + rest;
    if rest.len() == 0 {
        assert(s =~= seq![f]);
        assert(s.drop_last() =~= Seq::<FrameSpec>::empty());
        assert(s.last() == f);
        assert(records_bytes(Seq::<FrameSpec>::empty()) =~= Seq::<u8>::empty());
        assert(records_bytes(s) =~= record_bytes(f));
        assert(record_bytes(f) + records_bytes(rest) =~= record_bytes(f));
    } else {
        lemma_records_prepend(f, rest.drop_last());
        assert(s.drop_last() =~= seq![f] + rest.drop_last());
        assert(s.last() == rest.last());
        assert(records_bytes(s) =~= record_bytes(f) + records_bytes(rest));
    }
}

/// Reading the records of `fs` back yields `fs` with the given dimensions.
proof fn lemma_records_round_trip(fs: Seq<FrameSpec>, width: u32, height: u32)
    requires
        forall|i: int| 0 <= i < fs.len() ==> #[trigger] fs[i].payload.len() <= u32::MAX,
    ensures
        parse_records(records_bytes(fs), fs.len(), width, height) == Ok::<
            Seq<FrameSpec>,
            ClipError,
        >(with_dims(fs, width, height)),
    decreases fs.len(),
{
    if fs.len() == 0 {
        assert(with_dims(fs, width, height) =~= Seq::<FrameSpec>::empty());
    } else {
        let f = fs[0];
        let rest = fs.drop_first();
        assert(fs =~= seq![f] + rest);
        lemma_records_prepend(f, rest);
        assert forall|i: int| 0 <= i < rest.len() implies #[trigger] rest[i].payload.len()
            <= u32::MAX by {
            assert(rest[i] == fs[i + 1]);
        }
        lemma_records_round_trip(rest, width, height);
        let b = records_bytes(fs);
        let len = f.payload.len() as u32;
        assert(f.payload.len() <= u32::MAX);
        assert(b =~= le_bytes_u64(f.captured_at) + le_bytes_u32(f.stream_index) + le_bytes_u32(len)
            + f.payload + records_bytes(rest));
        assert(b.subrange(0, 8) =~= le_bytes_u64(f.captured_at));
        assert(b.subrange(8, 12) =~= le_bytes_u32(f.stream_index));
        assert(b.subrange(12, 16) =~= le_bytes_u32(len));
        lemma_u64_le(f.captured_at);
        lemma_u32_le(f.stream_index);
        lemma_u32_le(len);
        assert(b.subrange(16, 16 + len) =~= f.payload);
        assert(b.subrange(16 + len, b.len() as int) =~= records_bytes(rest));
        let g = FrameSpec { width, height, ..f };
        assert(with_dims(fs, width, height) =~= seq![g] + with_dims(rest, width, height));
    }
}

/// Encoding a non-empty frame sequence and reading the container back gives
/// the same frames (payloads, timestamps, stream indices, order), each with
/// the first frame's dimensions, and the rate that was written.
pub proof fn lemma_clip_round_trip(fs: Seq<FrameSpec>, rate: u32)
    requires
        encodable(fs),
    ensures
        parse_clip(clip_bytes(fs, rate)) == Ok::<ClipSpec, ClipError>(
            ClipSpec {
                frames: with_dims(fs, fs[0].width, fs[0].height),
                width: fs[0].width,
                height: fs[0].height,
                rate,
            },
        ),
{
    let b = clip_bytes(fs, rate);
    let n = fs.len() as u32;
    assert(b.subrange(0, 8) =~= clip_magic());
    assert(b.subrange(8, 12) =~= le_bytes_u32(n));
    assert(b.subrange(12, 16) =~= le_bytes_u32(fs[0].width));
    assert(b.subrange(16, 20) =~= le_bytes_u32(fs[0].height));
    assert(b.subrange(20, 24) =~= le_bytes_u32(rate));
    assert(b.subrange(24, b.len() as int) =~= records_bytes(fs));
    lemma_u32_le(n);
    lemma_u32_le(fs[0].width);
    lemma_u32_le(fs[0].height);
    lemma_u32_le(rate);
    lemma_records_round_trip(fs, fs[0].width, fs[0].height);
}

/// When every frame has the first frame's dimensions, reading back an
/// encoded container gives exactly the frames that were encoded.
pub proof fn lemma_clip_round_trip_exact(fs: Seq<FrameSpec>, rate: u32)
    requires
        encodable(fs),
        forall|i: int|
            0 <= i < fs.len() ==> (#[trigger] fs[i]).width == fs[0].width && fs[i].height
                == fs[0].height,
    ensures
        parse_clip(clip_bytes(fs, rate)) matches Ok(c) && c.frames == fs && c.rate == rate,
{
    lemma_clip_round_trip(fs, rate);
    let w = with_dims(fs, fs[0].width, fs[0].height);
    assert forall|i: int| 0 <= i < fs.len() implies #[trigger] w[i] == fs[i] by {
        assert(fs[i].width == fs[0].width && fs[i].height == fs[0].height);
    }
    assert(w =~= fs);
}

/// Appends the little-endian bytes of `x`.
pub(crate) fn push_u32_le(out: &mut Vec<u8>, x: u32)
    ensures
        final(out)@ == old(out)@ + le_bytes_u32(x),
{
    out.push((x & 0xff) as u8);
    out.push(((x >> 8u32) & 0xff) as u8);
    out.push(((x >> 16u32) & 0xff) as u8);
    out.push(((x >> 24u32) & 0xff) as u8);
    proof {
        assert(final(out)@ =~= old(out)@ + le_bytes_u32(x));
    }
}

/// Appends the little-endian bytes of `x`.
pub(crate) fn push_u64_le(out: &mut Vec<u8>, x: u64)
    ensures
        final(out)@ == old(out)@ + le_bytes_u64(x),
{
    out.push((x & 0xff) as u8);
    out.push(((x >> 8u64) & 0xff) as u8);
    out.push(((x >> 16u64) & 0xff) as u8);
    out.push(((x >> 24u64) & 0xff) as u8);
    out.push(((x >> 32u64) & 0xff) as u8);
    out.push(((x >> 40u64) & 0xff) as u8);
    out.push(((x >> 48u64) & 0xff) as u8);
    out.push(((x >> 56u64) & 0xff) as u8);
    proof {
        assert(final(out)@ =~= old(out)@ + le_bytes_u64(x));
    }
}

/// Appends all of `src`.
pub(crate) fn push_all_bytes(out: &mut Vec<u8>, src: &Vec<u8>)
    ensures
        final(out)@ == old(out)@ + src@,
{
    let ghost start = out@;
    let n = src.len();
    let mut i: usize = 0;
    while i < n
        invariant
            n == src@.len(),
            i <= n,
            out@ == start + src@.subrange(0, i as int),
        decreases n - i,
    {
        out.push(src[i]);
        i = i + 1;
        proof {
            assert(out@ =~= start + src@.subrange(0, i as int));
        }
    }
    proof {
        assert(src@.subrange(0, n as int) =~= src@);
    }
}

/// Appends the magic and version tag.
pub(crate) fn push_magic(out: &mut Vec<u8>)
    ensures
        final(out)@ == old(out)@ + clip_magic(),
{
    out.push(0x51u8);
    out.push(0x53u8);
    out.push(0x50u8);
    out.push(0x43u8);
    out.push(0x4Cu8);
    out.push(0x49u8);
    out.push(0x50u8);
    out.push(0x01u8);
    proof {
        assert(final(out)@ =~= old(out)@ + clip_magic());
    }
}

/// The `u32` stored little-endian at `pos`.
fn read_u32_le(b: &[u8], pos: usize) -> (r: u32)
    requires
        pos + 4 <= b@.len(),
    ensures
        r == u32_from_le(b@.subrange(pos as int, pos + 4)),
{
    (b[pos] as u32) | ((b[pos + 1] as u32) << 8u32) | ((b[pos + 2] as u32) << 16u32) | ((b[pos
        + 3] as u32) << 24u32)
}

/// The `u64` stored little-endian at `pos`.
fn read_u64_le(b: &[u8], pos: usize) -> (r: u64)
    requires
        pos + 8 <= b@.len(),
    ensures
        r == u64_from_le(b@.subrange(pos as int, pos + 8)),
{
    (b[pos] as u64) | ((b[pos + 1] as u64) << 8u64) | ((b[pos + 2] as u64) << 16u64) | ((b[pos
        + 3] as u64) << 24u64) | ((b[pos + 4] as u64) << 32u64) | ((b[pos + 5] as u64) << 40u64)
        | ((b[pos + 6] as u64) << 48u64) | ((b[pos + 7] as u64) << 56u64)
}

/// A copy of `b[start..end]`.
fn copy_range(b: &[u8], start: usize, end: usize) -> (r: Vec<u8>)
    requires
        start <= end <= b@.len(),
    ensures
        r@ == b@.subrange(start as int, end as int),
{
    let mut out: Vec<u8> = Vec::new();
    let mut i: usize = start;
    while i < end
        invariant
            start <= i <= end,
            end <= b@.len(),
            out@ == b@.subrange(start as int, i as int),
        decreases end - i,
    {
        out.push(b[i]);
        i = i + 1;
        proof {
            assert(out@ =~= b@.subrange(start as int, i as int));
        }
    }
    out
}

/// The frames of a clip container, read back in file order.
pub struct FrameReader {
    frames: Vec<CapturedFrame>,
    width: u32,
    height: u32,
    fps: u32,
}

impl View for FrameReader {
    type V = ClipSpec;

    closed spec fn view(&self) -> ClipSpec {
        ClipSpec {
            frames: frames_view(self.frames@),
            width: self.width,
            height: self.height,
            rate: self.fps,
        }
    }
}

impl FrameReader {
    /// Reads a whole container. It is rejected with `MalformedHeader` when it
    /// is shorter than a header or its tag is wrong, and with
    /// `TruncatedRecord` when a record reaches past its end; no partial read
    /// is ever returned. Bytes after the last record are not read.
    pub fn from_bytes(bytes: &[u8]) -> (r: Result<FrameReader, ClipError>)
        ensures
            r is Ok <==> parse_clip(bytes@) is Ok,
            r matches Ok(rd) ==> parse_clip(bytes@) == Ok::<ClipSpec, ClipError>(rd@),
            r matches Err(e) ==> parse_clip(bytes@) == Err::<ClipSpec, ClipError>(e),
    {
        if bytes.len() < HEADER_LEN {
            return Err(ClipError::MalformedHeader);
        }
        let ghost tag = bytes@.subrange(0, 8);
        if !(bytes[0] == 0x51u8 && bytes[1] == 0x53u8 && bytes[2] == 0x50u8 && bytes[3] == 0x43u8
            && bytes[4] == 0x4Cu8 && bytes[5] == 0x49u8 && bytes[6] == 0x50u8 && bytes[7] == 0x01u8) {
            proof {
                assert(tag != clip_magic()) by {
                    if tag == clip_magic() {
                        assert(tag[0] == bytes@[0] && tag[1] == bytes@[1] && tag[2] == bytes@[2]);
                        assert(tag[3] == bytes@[3] && tag[4] == bytes@[4] && tag[5] == bytes@[5]);
                        assert(tag[6] == bytes@[6] && tag[7] == bytes@[7]);
                    }
                }
            }
            return Err(ClipError::MalformedHeader);
        }
        proof {
            assert(tag =~= clip_magic());
        }
        let n = read_u32_le(bytes, 8);
        let width = read_u32_le(bytes, 12);
        let height = read_u32_le(bytes, 16);
        let fps = read_u32_le(bytes, 20);
        let ghost all = bytes@.subrange(24, bytes@.len() as int);
        let mut frames: Vec<CapturedFrame> = Vec::new();
        let mut pos: usize = HEADER_LEN;
        let mut k: u32 = 0;
        while k < n
            invariant
                HEADER_LEN <= pos <= bytes@.len(),
                k <= n,
                all == bytes@.subrange(24, bytes@.len() as int),
                parse_clip(bytes@) == match parse_records(all, n as nat, width, height) {
                    Ok(frames) => Ok(ClipSpec { frames, width, height, rate: fps }),
                    Err(e) => Err(e),
                },
                parse_records(all, n as nat, width, height) == match parse_records(
                    bytes@.subrange(pos as int, bytes@.len() as int),
                    (n - k) as nat,
                    width,
                    height,
                ) {
                    Ok(rest) => Ok(frames_view(frames@) + rest),
                    Err(e) => Err(e),
                },
            decreases n - k,
        {
            let ghost rem = bytes@.subrange(pos as int, bytes@.len() as int);
            if bytes.len() - pos < RECORD_HEAD_LEN {
                proof {
                    assert(rem.len() < RECORD_HEAD_LEN);
                    assert(parse_records(rem, (n - k) as nat, width, height) == Err::<
                        Seq<FrameSpec>,
                        ClipError,
                    >(ClipError::TruncatedRecord));
                }
                return Err(ClipError::TruncatedRecord);
            }
            let len = read_u32_le(bytes, pos + 12);
            proof {
                assert(rem.subrange(12, 16) =~= bytes@.subrange(pos + 12, pos + 16));
            }
            if len as usize > bytes.len() - pos - RECORD_HEAD_LEN {
                return Err(ClipError::TruncatedRecord);
            }
            let ts = read_u64_le(bytes, pos);
            let idx = read_u32_le(bytes, pos + 8);
            let end = pos + RECORD_HEAD_LEN + len as usize;
            let payload = copy_range(bytes, pos + RECORD_HEAD_LEN, end);
            let frame = CapturedFrame {
                data: payload,
                timestamp_ns: ts,
                eye_index: idx,
                width,
                height,
            };
            let ghost before = frames_view(frames@);
            let ghost f = frame@;
            proof {
                assert(rem.subrange(0, 8) =~= bytes@.subrange(pos as int, pos + 8));
                assert(rem.subrange(8, 12) =~= bytes@.subrange(pos + 8, pos + 12));
                assert(rem.subrange(16, 16 + len) =~= bytes@.subrange(pos + 16, end as int));
                assert(rem.subrange(16 + len, rem.len() as int) =~= bytes@.subrange(
                    end as int,
                    bytes@.len() as int,
                ));
            }
            frames.push(frame);
            pos = end;
            k = k + 1;
            proof {
                assert(frames_view(frames@) =~= before.push(f));
                match parse_records(
                    bytes@.subrange(pos as int, bytes@.len() as int),
                    (n - k) as nat,
                    width,
                    height,
                ) {
                    Ok(rest) => {
                        assert(before + (seq![f] + rest) =~= before.push(f) + rest);
                    },
                    Err(e) => {},
                }
            }
        }
        proof {
            assert(frames_view(frames@) + Seq::<FrameSpec>::empty() =~= frames_view(frames@));
        }
        Ok(FrameReader { frames, width, height, fps })
    }

    /// The frames, in file order.
    pub fn frames(&self) -> (r: &Vec<CapturedFrame>)
        ensures
            frames_view(r@) == self@.frames,
    {
        &self.frames
    }

    /// Frame width from the header.
    pub fn width(&self) -> (r: u32)
        ensures
            r == self@.width,
    {
        self.width
    }

    /// Frame height from the header.
    pub fn height(&self) -> (r: u32)
        ensures
            r == self@.height,
    {
        self.height
    }

    /// Frame rate from the header.
    pub fn fps(&self) -> (r: u32)
        ensures
            r == self@.rate,
    {
        self.fps
    }
}

} // verus!
