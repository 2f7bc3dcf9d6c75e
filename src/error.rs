//! Error kinds of the capture, encoding, storage and platform layers, and
//! the library-wide error that wraps them.

use crate::clip::ClipError;
use crate::config::ConfigError;
use vstd::prelude::*;

verus! {

/// Errors of frame capture.
#[derive(Debug)]
pub enum CaptureErrorKind {
    /// The capture layer could not be loaded.
    LayerLoadFailed(String),
    /// The GPU texture could not be read.
    TextureAccessDenied,
    /// A frame could not be compressed.
    CompressionFailed(String),
    /// Capture is switched off.
    CaptureDisabled,
    /// Frames arrive faster than they can be stored.
    BufferOverflow,
}

/// Errors of the encoding stage.
#[derive(Debug)]
pub enum EncoderErrorKind {
    /// No hardware encoder is available.
    HardwareEncoderUnavailable,
    /// The encoder could not be set up.
    InitializationFailed(String),
    /// A frame could not be encoded.
    FrameEncodeFailed(String),
    /// A frame's data is not a valid image.
    InvalidFrameData,
    /// The encoder's output buffer is full.
    OutputBufferFull,
    /// The output could not be finished.
    FinalizationFailed(String),
}

/// Errors of the clip store.
#[derive(Debug)]
pub enum StorageErrorKind {
    /// Not enough space for the clip.
    DiskFull,
    /// Storage access is not permitted.
    PermissionDenied,
    /// The output directory could not be created.
    DirectoryCreationFailed(String),
    /// Writing a file failed.
    WriteFailed(String),
    /// The file exists already.
    FileExists(String),
    /// The storage is not mounted.
    StorageNotMounted,
}

/// Errors of the XR runtime.
#[derive(Debug)]
pub enum OpenXRErrorKind {
    /// No runtime is installed.
    RuntimeNotFound,
    /// A session could not be created.
    SessionCreationFailed(String),
    /// A runtime function is missing.
    FunctionNotAvailable(String),
    /// An instance could not be created.
    InstanceCreationFailed(String),
    /// The runtime returned an error code.
    RuntimeError { code: i32, message: String },
}

/// Errors of the Android platform.
#[derive(Debug)]
pub enum AndroidErrorKind {
    /// A JNI call failed.
    JniError(String),
    /// A permission was not granted.
    PermissionNotGranted(String),
    /// A system service is unavailable.
    ServiceUnavailable(String),
    /// The activity reported an error.
    ActivityError(String),
}

/// Any error of the library.
#[derive(Debug)]
pub enum ShadowplayError {
    /// Frame capture failed.
    Capture(CaptureErrorKind),
    /// Encoding failed.
    Encoder(EncoderErrorKind),
    /// Storage failed.
    Storage(StorageErrorKind),
    /// The configuration is invalid.
    Config(ConfigError),
    /// A clip container could not be written or read.
    Clip(ClipError),
    /// The XR runtime failed.
    OpenXR(OpenXRErrorKind),
    /// The Android platform failed.
    Android(AndroidErrorKind),
    /// An I/O operation failed; the text describes it.
    Io(String),
    /// Something unexpected happened.
    Internal(String),
}

} // verus!
