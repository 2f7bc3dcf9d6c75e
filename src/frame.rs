//! Captured frames and the JPEG compressor that produces their payloads.

use vstd::prelude::*;

verus! {

/// What a frame holds, as plain values.
pub ghost struct FrameSpec {
    pub payload: Seq<u8>,
    pub captured_at: u64,
    pub stream_index: u32,
    pub width: u32,
    pub height: u32,
}

/// One captured, compressed image with its capture time, stream (eye) index
/// and dimensions.
#[derive(Clone, Debug)]
pub struct CapturedFrame {
    /// Compressed (JPEG) image bytes.
    pub data: Vec<u8>,
    /// Capture time in nanoseconds.
    pub timestamp_ns: u64,
    /// Which stream the frame belongs to (0 = left eye, 1 = right eye).
    pub eye_index: u32,
    /// Image width in pixels.
    pub width: u32,
    /// Image height in pixels.
    pub height: u32,
}

impl View for CapturedFrame {
    type V = FrameSpec;

    open spec fn view(&self) -> FrameSpec {
        FrameSpec {
            payload: self.data@,
            captured_at: self.timestamp_ns,
            stream_index: self.eye_index,
            width: self.width,
            height: self.height,
        }
    }
}

/// Number of bytes of a raw RGBA image of the given dimensions.
pub open spec fn rgba_len(width: u32, height: u32) -> int {
    width as int * height as int * 4
}

/// Relies on std::time::SystemTime::now, read as nanoseconds since the Unix
/// epoch (0 when the clock is set before the epoch). Nothing is assumed of
/// the value.
#[verifier::external_body]
fn unix_time_nanos() -> (r: u64) {
    match std::time::SystemTime::now().duration_since(std::time::UNIX_EPOCH) {
        Ok(d) => d.as_nanos() as u64,
        Err(_) => 0,
    }
}

impl CapturedFrame {
    /// Creates a frame stamped with the current wall-clock time.
    pub fn new(data: Vec<u8>, eye_index: u32, width: u32, height: u32) -> (r: Self)
        ensures
            r.data@ == data@,
            r.eye_index == eye_index,
            r.width == width,
            r.height == height,
    {
        let timestamp_ns = unix_time_nanos();
        CapturedFrame { data, timestamp_ns, eye_index, width, height }
    }

    /// Creates a frame with the given capture time.
    pub fn with_timestamp(
        data: Vec<u8>,
        eye_index: u32,
        width: u32,
        height: u32,
        timestamp_ns: u64,
    ) -> (r: Self)
        ensures
            r@ == (FrameSpec {
                payload: data@,
                captured_at: timestamp_ns,
                stream_index: eye_index,
                width,
                height,
            }),
    {
        CapturedFrame { data, timestamp_ns, eye_index, width, height }
    }

    /// A copy of this frame with the same payload and metadata.
    pub fn duplicate(&self) -> (r: Self)
        ensures
            r@ == self@,
    {
        let data = self.data.clone();
        proof {
            assert(data@ =~= self.data@);
        }
        CapturedFrame {
            data,
            timestamp_ns: self.timestamp_ns,
            eye_index: self.eye_index,
            width: self.width,
            height: self.height,
        }
    }

    /// Size of the compressed payload in bytes.
    pub fn compressed_size(&self) -> (r: usize)
        ensures
            r == self.data@.len(),
    {
        self.data.len()
    }

    /// Size of the image as raw RGBA: width × height × 4 bytes.
    pub fn uncompressed_size(&self) -> (r: usize)
        requires
            rgba_len(self.width, self.height) <= u32::MAX,
        ensures
            r == rgba_len(self.width, self.height),
    {
        proof {
            assert(self.width as int * self.height as int <= u32::MAX) by (nonlinear_arith)
                requires
                    self.width as int * self.height as int * 4 <= u32::MAX,
            ;
        }
        (self.width * self.height * 4) as usize
    }

    /// Estimated raw RGBA size: width × height × 4 bytes.
    pub fn estimated_uncompressed_size(&self) -> (r: usize)
        requires
            rgba_len(self.width, self.height) <= u32::MAX,
        ensures
            r == rgba_len(self.width, self.height),
    {
        self.uncompressed_size()
    }
}

/// The JPEG bytes that the image crate's encoder produces for an RGBA image
/// at the given quality.
pub uninterp spec fn jpeg_of(rgba: Seq<u8>, width: u32, height: u32, quality: u8) -> Seq<u8>;

/// Relies on image::codecs::jpeg::JpegEncoder::new_with_quality and its
/// `encode` for an RGBA8 buffer: on success the written bytes are the JPEG
/// image, which depends on the pixels, dimensions and quality alone.
/// `encode` panics unless the buffer holds exactly width × height × 4 bytes.
/// It fails only when a dimension does not fit in 16 bits; the bytes go to a
/// `Vec`, whose writes cannot fail.
#[verifier::external_body]
fn encode_jpeg(rgba: &[u8], width: u32, height: u32, quality: u8) -> (r: Result<Vec<u8>, String>)
    requires
        rgba@.len() == rgba_len(width, height),
    ensures
        r matches Ok(b) ==> b@ == jpeg_of(rgba@, width, height, quality),
        width <= 65535 && height <= 65535 ==> r is Ok,
{
    let mut out: Vec<u8> = Vec::new();
    let res = image::codecs::jpeg::JpegEncoder::new_with_quality(&mut out, quality).encode(
        rgba,
        width,
        height,
        image::ColorType::Rgba8,
    );
    match res {
        Ok(()) => Ok(out),
        Err(e) => Err(e.to_string()),
    }
}

/// Errors of frame compression.
#[derive(Debug)]
pub enum CompressionError {
    /// The raw buffer's length does not match width × height × 4.
    InvalidInputSize { expected: usize, got: usize },
    /// The JPEG encoder reported an error.
    EncodingFailed(String),
    /// An error of a native JPEG library.
    TurboJpegError(String),
}

/// Compresses raw RGBA frames to JPEG.
pub struct FrameCompressor {
    quality: u8,
}

impl FrameCompressor {
    /// The JPEG quality this compressor encodes with.
    pub closed spec fn spec_quality(&self) -> u8 {
        self.quality
    }

    /// A compressor with the given JPEG quality, capped at 100.
    pub fn new(quality: u8) -> (r: Self)
        ensures
            r.spec_quality() == if quality > 100 { 100 } else { quality },
    {
        FrameCompressor { quality: if quality > 100 { 100 } else { quality } }
    }

    /// The JPEG quality (at most 100).
    pub fn quality(&self) -> (r: u8)
        ensures
            r == self.spec_quality(),
    {
        self.quality
    }

    /// Compresses `raw_data`, an RGBA image of `width` × `height` pixels, to
    /// JPEG at this compressor's quality. It succeeds whenever the size
    /// matches and both dimensions fit in 16 bits.
    pub fn compress(&self, raw_data: &[u8], width: u32, height: u32) -> (r: Result<
        Vec<u8>,
        CompressionError,
    >)
        requires
            rgba_len(width, height) <= u32::MAX,
        ensures
            raw_data@.len() != rgba_len(width, height) ==> r == Err::<Vec<u8>, CompressionError>(
                CompressionError::InvalidInputSize {
                    expected: rgba_len(width, height) as usize,
                    got: raw_data@.len() as usize,
                },
            ),
            raw_data@.len() == rgba_len(width, height) ==> match r {
                Ok(b) => b@ == jpeg_of(raw_data@, width, height, self.spec_quality()),
                Err(e) => e is EncodingFailed,
            },
            raw_data@.len() == rgba_len(width, height) && width <= 65535 && height <= 65535
                ==> r is Ok,
    {
        proof {
            assert(width as int * height as int <= u32::MAX) by (nonlinear_arith)
                requires
                    width as int * height as int * 4 <= u32::MAX,
            ;
        }
        let expected_size = (width * height * 4) as usize;
        if raw_data.len() != expected_size {
            return Err(
                CompressionError::InvalidInputSize { expected: expected_size, got: raw_data.len() },
            );
        }
        match encode_jpeg(raw_data, width, height, self.quality) {
            Ok(b) => Ok(b),
            Err(msg) => Err(CompressionError::EncodingFailed(msg)),
        }
    }
}

impl Default for FrameCompressor {
    fn default() -> (r: Self)
        ensures
            r.spec_quality() == 80,
    {
        FrameCompressor::new(80)
    }
}

} // verus!
