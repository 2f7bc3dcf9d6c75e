//! Capture sources' settings, their pacing rule, and the deterministic test
//! pattern the simulated source produces.

use crate::frame::{jpeg_of, rgba_len, CapturedFrame, FrameCompressor};
use vstd::prelude::*;

verus! {

/// Errors of a capture source.
#[derive(Debug)]
pub enum CaptureError {
    /// The platform did not grant capture permission.
    PermissionDenied(String),
    /// `start` was called on a source that is already running.
    AlreadyRunning,
    /// A platform-specific failure.
    PlatformError(String),
    /// The source could not be set up.
    InitFailed(String),
}

/// Microseconds between two frames at `fps` frames per second.
pub open spec fn spec_frame_interval_us(fps: u32) -> u64 {
    (1_000_000int / fps as int) as u64
}

/// The time between frames at `fps` frames per second, in microseconds.
pub fn frame_interval_us(fps: u32) -> (r: u64)
    requires
        fps > 0,
    ensures
        r == spec_frame_interval_us(fps),
{
    1_000_000 / fps as u64
}

/// How long to sleep after `frames_done` frames, `elapsed_us` after the
/// start: until frame `frames_done` is due at `frames_done × interval_us`
/// from the start, or not at all when that time has passed. Deadlines are
/// counted from the start, not from the previous frame, so delays do not
/// accumulate.
pub open spec fn spec_pacing_delay_us(frames_done: u32, interval_us: u64, elapsed_us: u64) -> int {
    let due = frames_done as int * interval_us as int;
    if due > elapsed_us {
        due - elapsed_us
    } else {
        0
    }
}

/// The sleep before the next frame, in microseconds (see
/// `spec_pacing_delay_us`).
pub fn pacing_delay_us(frames_done: u32, interval_us: u64, elapsed_us: u64) -> (r: u64)
    requires
        interval_us <= 1_000_000,
    ensures
        r == spec_pacing_delay_us(frames_done, interval_us, elapsed_us),
{
    proof {
        assert(frames_done as int * interval_us as int <= 0xFFFF_FFFFint * 1_000_000) by (
        nonlinear_arith)
            requires
                frames_done <= 0xFFFF_FFFFint,
                interval_us <= 1_000_000,
        ;
    }
    let due: u64 = frames_done as u64 * interval_us;
    if due > elapsed_us {
        due - elapsed_us
    } else {
        0
    }
}

/// The byte at offset `i` of test-pattern frame `frame` of `width` ×
/// `height` RGBA pixels: red and green are gradients across x and y that
/// move with the frame number, blue steps with the frame number, and alpha
/// is opaque.
pub open spec fn pattern_byte(i: int, width: u32, height: u32, frame: u32) -> u8 {
    let p = i / 4;
    let x = p % width as int;
    let y = p / width as int;
    let c = i % 4;
    if c == 0 {
        ((x * 256 / width as int + frame as int) % 256) as u8
    } else if c == 1 {
        ((y * 256 / height as int + 2 * (frame as int)) % 256) as u8
    } else if c == 2 {
        ((3 * (frame as int)) % 256) as u8
    } else {
        255u8
    }
}

/// The whole test-pattern image for frame `frame`.
pub open spec fn pattern_image(frame: u32, width: u32, height: u32) -> Seq<u8> {
    Seq::new(rgba_len(width, height) as nat, |i: int| pattern_byte(i, width, height, frame))
}

/// The raw RGBA test-pattern image for frame number `frame`: a
/// reproducible function of the frame number and size.
pub fn test_pattern(frame: u32, width: u32, height: u32) -> (r: Vec<u8>)
    requires
        rgba_len(width, height) <= u32::MAX,
    ensures
        r@ == pattern_image(frame, width, height),
{
    let mut out: Vec<u8> = Vec::new();
    let mut y: u32 = 0;
    let f = frame as u64;
    while y < height
        invariant
            rgba_len(width, height) <= u32::MAX,
            y <= height,
            f == frame,
            out@.len() == y as int * width as int * 4,
            forall|i: int| 0 <= i < out@.len() ==> #[trigger] out@[i] == pattern_byte(i, width, height, frame),
        decreases height - y,
    {
        let mut x: u32 = 0;
        while x < width
            invariant
                rgba_len(width, height) <= u32::MAX,
                y < height,
                x <= width,
                f == frame,
                out@.len() == (y as int * width as int + x as int) * 4,
                forall|i: int| 0 <= i < out@.len() ==> #[trigger] out@[i] == pattern_byte(i, width, height, frame),
            decreases width - x,
        {
            let ghost base = (y as int * width as int + x as int) * 4;
            let r = ((x as u64 * 256 / width as u64 + f) % 256) as u8;
            let g = ((y as u64 * 256 / height as u64 + 2 * f) % 256) as u8;
            let b = ((3 * f) % 256) as u8;
            proof {
                let p = y as int * width as int + x as int;
                assert(p == base / 4 && base % 4 == 0) by (nonlinear_arith)
                    requires
                        base == p * 4,
                ;
                assert((base + 1) / 4 == p && (base + 1) % 4 == 1) by (nonlinear_arith)
                    requires
                        base == p * 4,
                ;
                assert((base + 2) / 4 == p && (base + 2) % 4 == 2) by (nonlinear_arith)
                    requires
                        base == p * 4,
                ;
                assert((base + 3) / 4 == p && (base + 3) % 4 == 3) by (nonlinear_arith)
                    requires
                        base == p * 4,
                ;
                assert(p % width as int == x as int && p / width as int == y as int) by (
                nonlinear_arith)
                    requires
                        p == y as int * width as int + x as int,
                        0 <= x < width,
                        0 <= y,
                ;
                assert(x as int * 256 <= 0xFFFF_FFFFint * 256) by (nonlinear_arith)
                    requires
                        x <= 0xFFFF_FFFFint,
                ;
                assert(y as int * 256 <= 0xFFFF_FFFFint * 256) by (nonlinear_arith)
                    requires
                        y <= 0xFFFF_FFFFint,
                ;
            }
            out.push(r);
            out.push(g);
            out.push(b);
            out.push(255u8);
            x = x + 1;
            proof {
                assert(out@.len() == (y as int * width as int + x as int) * 4) by (nonlinear_arith)
                    requires
                        out@.len() == base + 4,
                        base == (y as int * width as int + (x - 1) as int) * 4,
                ;
            }
        }
        y = y + 1;
        proof {
            assert(out@.len() == y as int * width as int * 4) by (nonlinear_arith)
                requires
                    out@.len() == ((y - 1) as int * width as int + width as int) * 4,
            ;
        }
    }
    proof {
        assert(y == height);
        assert(out@.len() == rgba_len(width, height)) by (nonlinear_arith)
            requires
                out@.len() == height as int * width as int * 4,
        ;
        assert(out@ =~= pattern_image(frame, width, height));
    }
    out
}

/// A simulated source's settings: frame rate and image size.
pub struct SimulatedCapture {
    fps: u32,
    width: u32,
    height: u32,
}

impl SimulatedCapture {
    /// The configured frame rate.
    pub closed spec fn spec_fps(&self) -> u32 {
        self.fps
    }

    /// The configured width.
    pub closed spec fn spec_width(&self) -> u32 {
        self.width
    }

    /// The configured height.
    pub closed spec fn spec_height(&self) -> u32 {
        self.height
    }

    /// A simulated source of 256 × 256 frames at 30 frames per second.
    pub fn new() -> (r: Self)
        ensures
            r.spec_fps() == 30 && r.spec_width() == 256 && r.spec_height() == 256,
    {
        SimulatedCapture { fps: 30, width: 256, height: 256 }
    }

    /// A simulated source with the given rate and size.
    pub fn with_params(fps: u32, width: u32, height: u32) -> (r: Self)
        ensures
            r.spec_fps() == fps && r.spec_width() == width && r.spec_height() == height,
    {
        SimulatedCapture { fps, width, height }
    }

    /// The frame rate.
    pub fn fps(&self) -> (r: u32)
        ensures
            r == self.spec_fps(),
    {
        self.fps
    }

    /// The frame width.
    pub fn width(&self) -> (r: u32)
        ensures
            r == self.spec_width(),
    {
        self.width
    }

    /// The frame height.
    pub fn height(&self) -> (r: u32)
        ensures
            r == self.spec_height(),
    {
        self.height
    }
}

/// The settings of the Android screen source (60 frames per second).
pub struct AndroidCapture {
    fps: u32,
}

impl AndroidCapture {
    /// The configured frame rate.
    pub closed spec fn spec_fps(&self) -> u32 {
        self.fps
    }

    /// The Android source at 60 frames per second.
    pub fn new() -> (r: Self)
        ensures
            r.spec_fps() == 60,
    {
        AndroidCapture { fps: 60 }
    }

    /// The frame rate.
    pub fn fps(&self) -> (r: u32)
        ensures
            r == self.spec_fps(),
    {
        self.fps
    }
}

/// The settings of the macOS screen source (30 frames per second).
pub struct MacOSCapture {
    fps: u32,
}

impl MacOSCapture {
    /// The configured frame rate.
    pub closed spec fn spec_fps(&self) -> u32 {
        self.fps
    }

    /// The macOS source at 30 frames per second.
    pub fn new() -> (r: Self)
        ensures
            r.spec_fps() == 30,
    {
        MacOSCapture { fps: 30 }
    }

    /// The frame rate.
    pub fn fps(&self) -> (r: u32)
        ensures
            r == self.spec_fps(),
    {
        self.fps
    }
}

/// A handle to a capture session; inactive when created.
pub struct CaptureHandle {
    active: bool,
}

impl CaptureHandle {
    /// Whether the session is active.
    pub closed spec fn spec_active(&self) -> bool {
        self.active
    }

    /// An inactive handle.
    pub fn new() -> (r: Self)
        ensures
            !r.spec_active(),
    {
        CaptureHandle { active: false }
    }

    /// Whether the session is active.
    pub fn is_active(&self) -> (r: bool)
        ensures
            r == self.spec_active(),
    {
        self.active
    }
}

/// Test-pattern frame number `frame_number`, compressed with `compressor`
/// and stamped now; `None` only when compression fails, which cannot happen
/// when both dimensions fit in 16 bits.
pub fn generate_test_frame(
    compressor: &FrameCompressor,
    frame_number: u32,
    width: u32,
    height: u32,
) -> (r: Option<CapturedFrame>)
    requires
        rgba_len(width, height) <= u32::MAX,
    ensures
        width <= 65535 && height <= 65535 ==> r is Some,
        r matches Some(f) ==> f.width == width && f.height == height && f.eye_index == 0
            && f.data@ == jpeg_of(
            pattern_image(frame_number, width, height),
            width,
            height,
            compressor.spec_quality(),
        ),
{
    let rgba = test_pattern(frame_number, width, height);
    match compressor.compress(rgba.as_slice(), width, height) {
        Ok(data) => Some(CapturedFrame::new(data, 0, width, height)),
        Err(_) => None,
    }
}

/// The source coordinate that destination coordinate `d` samples when
/// `src` source pixels are stretched over `dst` destination pixels.
pub open spec fn nearest(d: int, src: int, dst: int) -> int {
    let s = d * src / dst;
    if s < src - 1 {
        s
    } else {
        src - 1
    }
}

/// Byte `i` of a screenshot scaled to `dst_w` × `dst_h` RGBA: each pixel
/// takes its nearest source pixel, read as BGRA from rows of
/// `bytes_per_row` bytes, with full alpha; a pixel whose source lies outside
/// the data stays all zero.
pub open spec fn scaled_byte(
    pixels: Seq<u8>,
    src_w: u32,
    src_h: u32,
    bytes_per_row: usize,
    dst_w: u32,
    dst_h: u32,
    i: int,
) -> u8 {
    let p = i / 4;
    let sx = nearest(p % dst_w as int, src_w as int, dst_w as int);
    let sy = nearest(p / dst_w as int, src_h as int, dst_h as int);
    let idx = sy * bytes_per_row + sx * 4;
    let c = i % 4;
    if idx + 3 < pixels.len() {
        if c == 0 {
            pixels[idx + 2]
        } else if c == 1 {
            pixels[idx + 1]
        } else if c == 2 {
            pixels[idx]
        } else {
            255u8
        }
    } else {
        0u8
    }
}

/// Scales a BGRA screenshot of `src_w` × `src_h` pixels (rows of
/// `bytes_per_row` bytes) to an RGBA image of `dst_w` × `dst_h` pixels by
/// nearest-neighbour sampling.
pub fn scale_bgra_to_rgba(
    pixels: &[u8],
    src_w: u32,
    src_h: u32,
    bytes_per_row: usize,
    dst_w: u32,
    dst_h: u32,
) -> (r: Vec<u8>)
    requires
        src_w > 0,
        src_h > 0,
        dst_w > 0,
        dst_h > 0,
        rgba_len(dst_w, dst_h) <= u32::MAX,
    ensures
        r@.len() == rgba_len(dst_w, dst_h),
        forall|i: int|
            0 <= i < r@.len() ==> #[trigger] r@[i] == scaled_byte(
                pixels@,
                src_w,
                src_h,
                bytes_per_row,
                dst_w,
                dst_h,
                i,
            ),
{
    let mut out: Vec<u8> = Vec::new();
    let plen = pixels.len();
    let len = plen as u128;
    let mut y: u32 = 0;
    while y < dst_h
        invariant
            src_w > 0,
            src_h > 0,
            dst_w > 0,
            dst_h > 0,
            rgba_len(dst_w, dst_h) <= u32::MAX,
            len == pixels@.len(),
            plen == pixels@.len(),
            y <= dst_h,
            out@.len() == y as int * dst_w as int * 4,
            forall|i: int|
                0 <= i < out@.len() ==> #[trigger] out@[i] == scaled_byte(
                    pixels@,
                    src_w,
                    src_h,
                    bytes_per_row,
                    dst_w,
                    dst_h,
                    i,
                ),
        decreases dst_h - y,
    {
        proof {
            assert(y as int * src_h as int <= 0xFFFF_FFFFint * 0xFFFF_FFFFint) by (nonlinear_arith)
                requires
                    y <= 0xFFFF_FFFFint,
                    src_h <= 0xFFFF_FFFFint,
            ;
        }
        let sy0 = (y as u64 * src_h as u64 / dst_h as u64) as u128;
        let sy = if sy0 < (src_h - 1) as u128 {
            sy0
        } else {
            (src_h - 1) as u128
        };
        let mut x: u32 = 0;
        while x < dst_w
            invariant
                src_w > 0,
                src_h > 0,
                dst_w > 0,
                dst_h > 0,
                rgba_len(dst_w, dst_h) <= u32::MAX,
                len == pixels@.len(),
                plen == pixels@.len(),
                y < dst_h,
                x <= dst_w,
                sy == nearest(y as int, src_h as int, dst_h as int),
                sy < src_h,
                out@.len() == (y as int * dst_w as int + x as int) * 4,
                forall|i: int|
                    0 <= i < out@.len() ==> #[trigger] out@[i] == scaled_byte(
                        pixels@,
                        src_w,
                        src_h,
                        bytes_per_row,
                        dst_w,
                        dst_h,
                        i,
                    ),
            decreases dst_w - x,
        {
            proof {
                assert(x as int * src_w as int <= 0xFFFF_FFFFint * 0xFFFF_FFFFint) by (
                nonlinear_arith)
                    requires
                        x <= 0xFFFF_FFFFint,
                        src_w <= 0xFFFF_FFFFint,
                ;
                assert(sy * bytes_per_row as int <= 0xFFFF_FFFFint * 0xFFFF_FFFF_FFFF_FFFFint) by (
                nonlinear_arith)
                    requires
                        sy <= 0xFFFF_FFFFint,
                        bytes_per_row <= 0xFFFF_FFFF_FFFF_FFFFint,
                ;
            }
            let sx0 = (x as u64 * src_w as u64 / dst_w as u64) as u128;
            let sx = if sx0 < (src_w - 1) as u128 {
                sx0
            } else {
                (src_w - 1) as u128
            };
            let idx = sy * bytes_per_row as u128 + sx * 4;
            let ghost base = (y as int * dst_w as int + x as int) * 4;
            proof {
                let p = y as int * dst_w as int + x as int;
                assert(p == base / 4 && base % 4 == 0) by (nonlinear_arith)
                    requires
                        base == p * 4,
                ;
                assert((base + 1) / 4 == p && (base + 1) % 4 == 1) by (nonlinear_arith)
                    requires
                        base == p * 4,
                ;
                assert((base + 2) / 4 == p && (base + 2) % 4 == 2) by (nonlinear_arith)
                    requires
                        base == p * 4,
                ;
                assert((base + 3) / 4 == p && (base + 3) % 4 == 3) by (nonlinear_arith)
                    requires
                        base == p * 4,
                ;
                assert(p % dst_w as int == x as int && p / dst_w as int == y as int) by (
                nonlinear_arith)
                    requires
                        p == y as int * dst_w as int + x as int,
                        0 <= x < dst_w,
                        0 <= y,
                ;
            }
            if idx + 3 < len {
                let k = idx as usize;
                out.push(pixels[k + 2]);
                out.push(pixels[k + 1]);
                out.push(pixels[k]);
                out.push(255u8);
            } else {
                out.push(0u8);
                out.push(0u8);
                out.push(0u8);
                out.push(0u8);
            }
            x = x + 1;
            proof {
                assert(out@.len() == (y as int * dst_w as int + x as int) * 4) by (nonlinear_arith)
                    requires
                        out@.len() == base + 4,
                        base == (y as int * dst_w as int + (x - 1) as int) * 4,
                ;
            }
        }
        y = y + 1;
        proof {
            assert(out@.len() == y as int * dst_w as int * 4) by (nonlinear_arith)
                requires
                    out@.len() == ((y - 1) as int * dst_w as int + dst_w as int) * 4,
            ;
        }
    }
    proof {
        assert(out@.len() == rgba_len(dst_w, dst_h)) by (nonlinear_arith)
            requires
                out@.len() == dst_h as int * dst_w as int * 4,
        ;
    }
    out
}

} // verus!
