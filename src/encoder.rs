//! Writing frame snapshots into clip containers.

use crate::clip::{
    clip_bytes, frames_view, push_all_bytes, push_magic, push_u32_le, push_u64_le, record_bytes,
    records_bytes, ClipError,
};
use crate::error::ShadowplayError;
use crate::frame::{rgba_len, CapturedFrame, FrameSpec};
use vstd::prelude::*;
use vstd::string::StringExecFns;

verus! {

/// Settings and progress of one encoding run.
pub struct VideoEncoder {
    width: u32,
    height: u32,
    fps: u32,
    bitrate: u32,
    frames_encoded: u32,
}

/// A summary of an encoder's settings and progress.
#[derive(Debug, Clone)]
pub struct EncoderStats {
    /// Number of frames encoded.
    pub frames_encoded: u32,
    /// Frame width.
    pub width: u32,
    /// Frame height.
    pub height: u32,
    /// Target frame rate.
    pub fps: u32,
    /// Target bitrate in bits per second.
    pub bitrate: u32,
}

impl VideoEncoder {
    /// The encoder's current statistics.
    pub closed spec fn spec_stats(&self) -> EncoderStats {
        EncoderStats {
            frames_encoded: self.frames_encoded,
            width: self.width,
            height: self.height,
            fps: self.fps,
            bitrate: self.bitrate,
        }
    }

    /// An encoder for frames of the given size, rate and bitrate; nothing is
    /// encoded yet.
    pub fn new(width: u32, height: u32, fps: u32, bitrate: u32) -> (r: Result<
        Self,
        ShadowplayError,
    >)
        ensures
            r matches Ok(e) && e.spec_stats() == (EncoderStats {
                frames_encoded: 0,
                width,
                height,
                fps,
                bitrate,
            }),
    {
        Ok(VideoEncoder { width, height, fps, bitrate, frames_encoded: 0 })
    }

    /// The encoder's settings and the number of frames encoded.
    pub fn stats(&self) -> (r: EncoderStats)
        ensures
            r == self.spec_stats(),
    {
        EncoderStats {
            frames_encoded: self.frames_encoded,
            width: self.width,
            height: self.height,
            fps: self.fps,
            bitrate: self.bitrate,
        }
    }

    /// Serialises a snapshot (oldest frame first) into a clip container at
    /// frame rate `fps`: the header takes its dimensions from the first frame,
    /// then one record per frame follows in snapshot order. An empty snapshot
    /// is rejected with `EmptyInput`.
    pub fn encode_frames(frames: &[CapturedFrame], fps: u32) -> (r: Result<Vec<u8>, ClipError>)
        requires
            frames@.len() <= u32::MAX,
            forall|i: int| 0 <= i < frames@.len() ==> #[trigger] frames@[i].data@.len() <= u32::MAX,
        ensures
            frames@.len() == 0 ==> r == Err::<Vec<u8>, ClipError>(ClipError::EmptyInput),
            frames@.len() > 0 ==> (r matches Ok(b) && b@ == clip_bytes(frames_view(frames@), fps)),
    {
        let n = frames.len();
        if n == 0 {
            return Err(ClipError::EmptyInput);
        }
        let ghost fs = frames_view(frames@);
        let mut out: Vec<u8> = Vec::new();
        push_magic(&mut out);
        push_u32_le(&mut out, n as u32);
        push_u32_le(&mut out, frames[0].width);
        push_u32_le(&mut out, frames[0].height);
        push_u32_le(&mut out, fps);
        let ghost header = out@;
        proof {
            assert(fs.take(0) =~= Seq::<FrameSpec>::empty());
            assert(header + records_bytes(fs.take(0)) =~= header);
        }
        let mut i: usize = 0;
        while i < n
            invariant
                n == frames@.len(),
                fs == frames_view(frames@),
                forall|j: int| 0 <= j < frames@.len() ==> #[trigger] frames@[j].data@.len() <= u32::MAX,
                i <= n,
                out@ == header + records_bytes(fs.take(i as int)),
            decreases n - i,
        {
            let f = &frames[i];
            let ghost before = out@;
            push_u64_le(&mut out, f.timestamp_ns);
            push_u32_le(&mut out, f.eye_index);
            push_u32_le(&mut out, f.data.len() as u32);
            push_all_bytes(&mut out, &f.data);
            proof {
                assert(fs[i as int] == f@);
                assert(fs.take(i + 1).drop_last() =~= fs.take(i as int));
                assert(fs.take(i + 1).last() == fs[i as int]);
                assert(out@ =~= before + record_bytes(fs[i as int]));
                assert(out@ =~= header + records_bytes(fs.take(i + 1)));
            }
            i = i + 1;
        }
        proof {
            assert(fs.take(n as int) =~= fs);
            assert(fs[0] == frames@[0]@);
        }
        Ok(out)
    }
}

/// Collects encoded frames with their presentation times for one output file.
pub struct Mp4Muxer {
    output_path: String,
    width: u32,
    height: u32,
    fps: u32,
    frame_data: Vec<(Vec<u8>, u64)>,
}

impl Mp4Muxer {
    /// The collected frames with their presentation times, in order.
    pub closed spec fn spec_frames(&self) -> Seq<(Seq<u8>, u64)> {
        self.frame_data@.map_values(|e: (Vec<u8>, u64)| (e.0@, e.1))
    }

    /// The output path.
    pub closed spec fn spec_output_path(&self) -> Seq<char> {
        self.output_path@
    }

    /// A muxer for `output_path` with no frames yet. The parent directory is
    /// created by the caller.
    pub fn new(output_path: &str, width: u32, height: u32, fps: u32) -> (r: Result<
        Self,
        ShadowplayError,
    >)
        ensures
            r matches Ok(m) && m.spec_frames() == Seq::<(Seq<u8>, u64)>::empty()
                && m.spec_output_path() == output_path@,
    {
        let m = Mp4Muxer {
            output_path: String::from_str(output_path),
            width,
            height,
            fps,
            frame_data: Vec::new(),
        };
        proof {
            assert(m.spec_frames() =~= Seq::<(Seq<u8>, u64)>::empty());
        }
        Ok(m)
    }

    /// Appends one encoded frame with its presentation time in microseconds.
    pub fn add_frame(&mut self, data: &[u8], pts_us: u64) -> (r: Result<(), ShadowplayError>)
        ensures
            r is Ok,
            final(self).spec_frames() == old(self).spec_frames().push((data@, pts_us)),
            final(self).spec_output_path() == old(self).spec_output_path(),
    {
        let copy = vstd::slice::slice_to_vec(data);
        self.frame_data.push((copy, pts_us));
        proof {
            assert(final(self).spec_frames() =~= old(self).spec_frames().push((data@, pts_us)));
        }
        Ok(())
    }

    /// Number of frames collected.
    pub fn frame_count(&self) -> (r: usize)
        ensures
            r == self.spec_frames().len(),
    {
        self.frame_data.len()
    }
}

/// Luma of one RGB pixel, with the BT.601 weights in thousandths (rounded down).
pub open spec fn luma(r: int, g: int, b: int) -> int {
    (299 * r + 587 * g + 114 * b) / 1000
}

/// Blue-difference chroma of one RGB pixel, offset by 128 (rounded down).
pub open spec fn chroma_u(r: int, g: int, b: int) -> int {
    (128000 - 169 * r - 331 * g + 500 * b) / 1000
}

/// Red-difference chroma of one RGB pixel, offset by 128 (rounded down).
pub open spec fn chroma_v(r: int, g: int, b: int) -> int {
    (128000 + 500 * r - 419 * g - 81 * b) / 1000
}

/// Channel `c` averaged (rounded down) over the 2 × 2 block of pixels whose
/// top-left corner is pixel (2·bx, 2·by) of an RGBA image `width` pixels wide.
pub open spec fn block_avg(rgba: Seq<u8>, width: int, bx: int, by: int, c: int) -> int {
    let i = ((2 * by) * width + 2 * bx) * 4 + c;
    let j = i + width * 4;
    (rgba[i] + rgba[i + 4] + rgba[j] + rgba[j + 4]) / 4
}

/// Byte `i` of the planar YUV 4:2:0 image of an RGBA image: a full-size luma
/// plane, then the U and V planes at half width and half height (odd last
/// rows and columns are dropped), then zeros up to one and a half bytes per
/// pixel.
pub open spec fn yuv420_byte(rgba: Seq<u8>, width: u32, height: u32, i: int) -> u8 {
    let w = width as int;
    let pc = w * height as int;
    let uw = w / 2;
    let plane = uw * (height as int / 2);
    if i < pc {
        luma(rgba[4 * i] as int, rgba[4 * i + 1] as int, rgba[4 * i + 2] as int) as u8
    } else if i < pc + plane {
        let k = i - pc;
        chroma_u(
            block_avg(rgba, w, k % uw, k / uw, 0),
            block_avg(rgba, w, k % uw, k / uw, 1),
            block_avg(rgba, w, k % uw, k / uw, 2),
        ) as u8
    } else if i < pc + 2 * plane {
        let k = i - pc - plane;
        chroma_v(
            block_avg(rgba, w, k % uw, k / uw, 0),
            block_avg(rgba, w, k % uw, k / uw, 1),
            block_avg(rgba, w, k % uw, k / uw, 2),
        ) as u8
    } else {
        0
    }
}

/// The averaged red, green and blue of block `k` (row-major over blocks `uw`
/// to a row).
fn block_rgb(rgba: &[u8], width: u32, height: u32, k: usize) -> (r: (u32, u32, u32))
    requires
        width as int * height as int <= u32::MAX,
        rgba@.len() >= rgba_len(width, height),
        width / 2 > 0,
        k < (width / 2) as int * (height / 2) as int,
    ensures
        r.0 == block_avg(rgba@, width as int, k as int % (width / 2) as int, k as int / (width / 2) as int, 0),
        r.1 == block_avg(rgba@, width as int, k as int % (width / 2) as int, k as int / (width / 2) as int, 1),
        r.2 == block_avg(rgba@, width as int, k as int % (width / 2) as int, k as int / (width / 2) as int, 2),
{
    let uw = (width / 2) as usize;
    let uh = (height / 2) as usize;
    let w = width as usize;
    let bx = k % uw;
    let by = k / uw;
    let total = rgba.len();
    proof {
        assert(by < uh) by (nonlinear_arith)
            requires
                k < uw * uh,
                by == k / uw,
                uw > 0,
        ;
        assert(((2 * by + 1) * w + 2 * bx + 1) * 4 + 3 < rgba_len(width, height)) by (
        nonlinear_arith)
            requires
                bx < uw,
                by < uh,
                uw == width / 2,
                uh == height / 2,
                w == width,
                rgba_len(width, height) == width as int * height as int * 4,
        ;
        assert(((2 * by) * w + 2 * bx) * 4 + w * 4 == ((2 * by + 1) * w + 2 * bx) * 4) by (
        nonlinear_arith);
        assert(2 * by <= (2 * by) * w + 2 * bx && (2 * by) * w <= (2 * by) * w + 2 * bx) by (
        nonlinear_arith)
            requires
                bx < uw,
                uw == width / 2,
                w == width,
                w >= 2,
        ;
    }
    proof {
        assert(((2 * by) * w + 2 * bx) * 4 <= ((2 * by) * w + 2 * bx) * 4 + w * 4);
        assert(w * 4 <= ((2 * by) * w + 2 * bx) * 4 + w * 4);
    }
    let i = ((2 * by) * w + 2 * bx) * 4;
    let j = i + w * 4;
    let red = (rgba[i] as u32 + rgba[i + 4] as u32 + rgba[j] as u32 + rgba[j + 4] as u32) / 4;
    let green = (rgba[i + 1] as u32 + rgba[i + 5] as u32 + rgba[j + 1] as u32 + rgba[j + 5] as u32)
        / 4;
    let blue = (rgba[i + 2] as u32 + rgba[i + 6] as u32 + rgba[j + 2] as u32 + rgba[j + 6] as u32)
        / 4;
    (red, green, blue)
}

/// Converts an RGBA image to planar YUV 4:2:0 (one and a half bytes per
/// pixel), with BT.601 weights in fixed point.
pub fn rgba_to_yuv420(rgba: &[u8], width: u32, height: u32) -> (r: Vec<u8>)
    requires
        width as int * height as int <= u32::MAX,
        rgba@.len() >= rgba_len(width, height),
    ensures
        r@.len() == width as int * height as int + width as int * height as int / 2,
        forall|i: int| 0 <= i < r@.len() ==> #[trigger] r@[i] == yuv420_byte(rgba@, width, height, i),
{
    let pixel_count = (width * height) as usize;
    let total = rgba.len();
    let uw = (width / 2) as usize;
    let uh = (height / 2) as usize;
    proof {
        assert(4 * (uw * uh) <= pixel_count) by (nonlinear_arith)
            requires
                uw == width / 2,
                uh == height / 2,
                pixel_count == width as int * height as int,
        ;
        assert(uw * uh > 0 ==> uw > 0) by (nonlinear_arith);
        assert(rgba_len(width, height) == pixel_count * 4);
    }
    let yuv_size = pixel_count + pixel_count / 2;
    let plane = uw * uh;
    let mut out: Vec<u8> = Vec::new();
    let mut i: usize = 0;
    while i < pixel_count
        invariant
            pixel_count == width as int * height as int,
            rgba@.len() >= pixel_count * 4,
            total == rgba@.len(),
            i <= pixel_count,
            out@.len() == i,
            forall|j: int| 0 <= j < out@.len() ==> #[trigger] out@[j] == yuv420_byte(rgba@, width, height, j),
        decreases pixel_count - i,
    {
        let red = rgba[i * 4] as u32;
        let green = rgba[i * 4 + 1] as u32;
        let blue = rgba[i * 4 + 2] as u32;
        let y = ((299 * red + 587 * green + 114 * blue) / 1000) as u8;
        out.push(y);
        i = i + 1;
    }
    let mut k: usize = 0;
    while k < 2 * plane
        invariant
            width as int * height as int <= u32::MAX,
            pixel_count == width as int * height as int,
            rgba@.len() >= rgba_len(width, height),
            uw == width / 2,
            uh == height / 2,
            plane == uw * uh,
            4 * plane <= pixel_count,
            plane > 0 ==> uw > 0,
            k <= 2 * plane,
            out@.len() == pixel_count + k,
            forall|j: int| 0 <= j < out@.len() ==> #[trigger] out@[j] == yuv420_byte(rgba@, width, height, j),
        decreases 2 * plane - k,
    {
        let in_u = k < plane;
        let block = if in_u {
            k
        } else {
            k - plane
        };
        let (red, green, blue) = block_rgb(rgba, width, height, block);
        let value = if in_u {
            ((128000 + 500 * blue - (169 * red + 331 * green)) / 1000) as u8
        } else {
            ((128000 + 500 * red - (419 * green + 81 * blue)) / 1000) as u8
        };
        out.push(value);
        k = k + 1;
    }
    while out.len() < yuv_size
        invariant
            pixel_count == width as int * height as int,
            yuv_size == pixel_count + pixel_count / 2,
            uw == width / 2,
            uh == height / 2,
            plane == uw * uh,
            out@.len() >= pixel_count + 2 * plane,
            out@.len() <= yuv_size,
            forall|j: int| 0 <= j < out@.len() ==> #[trigger] out@[j] == yuv420_byte(rgba@, width, height, j),
        decreases yuv_size - out@.len(),
    {
        out.push(0u8);
    }
    out
}

} // verus!
