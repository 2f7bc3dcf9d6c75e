//! The XR compositor hook: on every submitted frame it copies each eye's
//! image into the frame window.

use crate::frame::{rgba_len, CapturedFrame, FrameCompressor};
use crate::frame_window::SharedFrameBuffer;
use std::sync::Arc;
use vstd::prelude::*;

verus! {

/// Handle of an XR session.
pub type XrSession = u64;

/// Result code of an XR call.
pub type XrResult = i32;

/// The success code.
pub const XR_SUCCESS: XrResult = 0;

/// One eye's swapchain image.
pub struct EyeTexture {
    /// Native texture handle.
    pub handle: u64,
    /// Width in pixels.
    pub width: u32,
    /// Height in pixels.
    pub height: u32,
    /// Native pixel format.
    pub format: u32,
}

/// What the application submits for one displayed frame.
pub struct FrameSubmissionData {
    /// One texture per eye.
    pub eye_textures: Vec<EyeTexture>,
    /// Predicted display time in nanoseconds.
    pub display_time_ns: u64,
}

/// Errors of capturing one eye's image.
#[derive(Debug)]
pub enum CaptureError {
    /// The texture could not be read back.
    TextureReadFailed(String),
    /// The image could not be compressed.
    CompressionFailed(String),
    /// The window cannot take the frame.
    BufferFull,
    /// Capture is switched off.
    CaptureDisabled,
}

/// Captures the eye images of submitted frames into a shared window.
pub struct OpenXRLayer {
    buffer: Arc<SharedFrameBuffer>,
    compressor: FrameCompressor,
    is_active: bool,
    frames_captured: u64,
    frames_skipped: u64,
}

/// `x + n`, capped at `u64::MAX`.
pub open spec fn add_capped(x: u64, n: int) -> u64 {
    if x + n <= u64::MAX {
        (x + n) as u64
    } else {
        u64::MAX
    }
}

impl OpenXRLayer {
    /// Whether capture is on.
    pub closed spec fn spec_enabled(&self) -> bool {
        self.is_active
    }

    /// Eye images stored so far.
    pub closed spec fn spec_captured(&self) -> u64 {
        self.frames_captured
    }

    /// Eye images that could not be captured.
    pub closed spec fn spec_skipped(&self) -> u64 {
        self.frames_skipped
    }

    /// The window is well formed.
    pub closed spec fn wf(&self) -> bool {
        self.buffer.wf()
    }

    /// A layer writing into `buffer`, enabled, with nothing captured yet.
    pub fn new(buffer: Arc<SharedFrameBuffer>) -> (r: Self)
        requires
            buffer.wf(),
        ensures
            r.wf(),
            r.spec_enabled(),
            r.spec_captured() == 0,
            r.spec_skipped() == 0,
    {
        OpenXRLayer {
            buffer,
            compressor: FrameCompressor::new(80),
            is_active: true,
            frames_captured: 0,
            frames_skipped: 0,
        }
    }

    /// Called for every frame the application submits. While enabled, each
    /// eye's image is compressed and pushed into the window; an eye that
    /// cannot be captured is counted as skipped. The frame itself always
    /// goes on to the runtime, so the result is always success.
    pub fn on_end_frame(&mut self, session: XrSession, frame_data: &FrameSubmissionData) -> (r:
        XrResult)
        requires
            old(self).wf(),
        ensures
            r == XR_SUCCESS,
            final(self).wf(),
            final(self).spec_enabled() == old(self).spec_enabled(),
            !old(self).spec_enabled() ==> final(self).spec_captured() == old(self).spec_captured()
                && final(self).spec_skipped() == old(self).spec_skipped(),
            old(self).spec_enabled() ==> final(self).spec_captured() as int
                + final(self).spec_skipped() as int >= old(self).spec_captured() as int
                + old(self).spec_skipped() as int,
            old(self).spec_enabled() && old(self).spec_captured() as int + old(self).spec_skipped() as int
                + frame_data.eye_textures@.len() <= u64::MAX ==> final(self).spec_captured() as int
                + final(self).spec_skipped() as int == old(self).spec_captured() as int
                + old(self).spec_skipped() as int + frame_data.eye_textures@.len(),
    {
        if !self.is_active {
            return XR_SUCCESS;
        }
        let n = frame_data.eye_textures.len();
        let mut eye: usize = 0;
        while eye < n
            invariant
                n == frame_data.eye_textures@.len(),
                eye <= n,
                self.wf(),
                self.is_active,
                self.frames_captured as int + self.frames_skipped as int >= old(self).spec_captured() as int
                    + old(self).spec_skipped() as int,
                old(self).spec_captured() as int + old(self).spec_skipped() as int + n <= u64::MAX
                    ==> self.frames_captured as int + self.frames_skipped as int == old(self).spec_captured() as int
                    + old(self).spec_skipped() as int + eye,
            decreases n - eye,
        {
            let texture = &frame_data.eye_textures[eye];
            let eye_index: u32 = if eye <= u32::MAX as usize {
                eye as u32
            } else {
                u32::MAX
            };
            match self.capture_eye_frame(texture, eye_index) {
                Ok(frame) => {
                    self.buffer.push_frame(frame);
                    if self.frames_captured < u64::MAX {
                        self.frames_captured = self.frames_captured + 1;
                    }
                },
                Err(_) => {
                    if self.frames_skipped < u64::MAX {
                        self.frames_skipped = self.frames_skipped + 1;
                    }
                },
            }
            eye = eye + 1;
        }
        XR_SUCCESS
    }

    /// Reads back and compresses one eye's image.
    fn capture_eye_frame(&self, texture: &EyeTexture, eye_index: u32) -> (r: Result<
        CapturedFrame,
        CaptureError,
    >)
        ensures
            r matches Ok(f) ==> f.width == texture.width && f.height == texture.height
                && f.eye_index == eye_index,
    {
        proof {
            assert(texture.width as int * texture.height as int <= 0xFFFF_FFFFint * 0xFFFF_FFFFint)
                by (nonlinear_arith)
                requires
                    texture.width <= 0xFFFF_FFFFint,
                    texture.height <= 0xFFFF_FFFFint,
            ;
        }
        if texture.width as u64 * texture.height as u64 > (u32::MAX / 4) as u64 {
            return Err(CaptureError::TextureReadFailed(String::new()));
        }
        let raw = self.read_gpu_texture(texture);
        match self.compressor.compress(raw.as_slice(), texture.width, texture.height) {
            Ok(data) => Ok(CapturedFrame::new(data, eye_index, texture.width, texture.height)),
            Err(_) => Err(CaptureError::CompressionFailed(String::new())),
        }
    }

    /// The texture's pixels as RGBA. No GPU access is available here, so
    /// the image is a uniform mid-grey of the texture's size.
    fn read_gpu_texture(&self, texture: &EyeTexture) -> (r: Vec<u8>)
        requires
            rgba_len(texture.width, texture.height) <= u32::MAX,
        ensures
            r@.len() == rgba_len(texture.width, texture.height),
    {
        let size = (texture.width as u64 * texture.height as u64 * 4) as usize;
        let mut out: Vec<u8> = Vec::new();
        let mut i: usize = 0;
        while i < size
            invariant
                i <= size,
                out@.len() == i,
            decreases size - i,
        {
            out.push(128u8);
            i = i + 1;
        }
        out
    }

    /// Turns capture on.
    pub fn enable(&mut self)
        ensures
            final(self).spec_enabled(),
            final(self).wf() == old(self).wf(),
            final(self).spec_captured() == old(self).spec_captured(),
            final(self).spec_skipped() == old(self).spec_skipped(),
    {
        self.is_active = true;
    }

    /// Turns capture off; submitted frames then pass through untouched.
    pub fn disable(&mut self)
        ensures
            !final(self).spec_enabled(),
            final(self).wf() == old(self).wf(),
            final(self).spec_captured() == old(self).spec_captured(),
            final(self).spec_skipped() == old(self).spec_skipped(),
    {
        self.is_active = false;
    }

    /// Whether capture is on.
    pub fn is_enabled(&self) -> (r: bool)
        ensures
            r == self.spec_enabled(),
    {
        self.is_active
    }

    /// Eye images stored so far.
    pub fn frames_captured(&self) -> (r: u64)
        ensures
            r == self.spec_captured(),
    {
        self.frames_captured
    }

    /// Eye images that could not be captured.
    pub fn frames_skipped(&self) -> (r: u64)
        ensures
            r == self.spec_skipped(),
    {
        self.frames_skipped
    }
}

} // verus!
