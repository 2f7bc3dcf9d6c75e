//! Outcomes reported to a front end, and the frame rate of an exported clip.

use crate::frame::CapturedFrame;
use crate::storage::{decimal, push_decimal};
use vstd::string::StringExecFns;
use vstd::prelude::*;

verus! {

/// Outcome of saving a clip.
#[derive(Clone, Debug)]
pub struct SaveResult {
    pub success: bool,
    pub message: String,
    pub clip_id: Option<String>,
}

/// Outcome of exporting a clip to a video file.
#[derive(Clone, Debug)]
pub struct ExportResult {
    pub success: bool,
    pub message: String,
    pub mp4_path: Option<String>,
}

/// Outcome of a native recording operation.
#[derive(Clone, Debug)]
pub struct NativeRecordingResult {
    pub success: bool,
    pub message: String,
    pub output_path: Option<String>,
}

/// Counters of a native recording.
#[derive(Clone, Copy, Debug, PartialEq, Eq, Structural)]
pub struct NativeRecordingStats {
    pub is_recording: bool,
    pub frames_captured: u64,
    pub frames_dropped: u64,
    pub frames_encoded: u64,
}

/// Frame rate used when timestamps give none.
pub const FALLBACK_EXPORT_FPS: u32 = 30;

/// The frame rate implied by `frames`' timestamps: the frame count divided
/// by the seconds from the first to the last timestamp, rounded to the
/// nearest integer (halves up) and capped at `u32::MAX`; the fallback rate
/// for fewer than two frames or no elapsed time.
pub open spec fn spec_export_fps(frames: Seq<CapturedFrame>) -> int {
    if frames.len() <= 1 {
        FALLBACK_EXPORT_FPS as int
    } else {
        let first = frames[0].timestamp_ns;
        let last = frames.last().timestamp_ns;
        if last <= first {
            FALLBACK_EXPORT_FPS as int
        } else {
            let d = last - first;
            let q = (2 * frames.len() * 1_000_000_000int + d) / (2 * d);
            if q > u32::MAX {
                u32::MAX as int
            } else {
                q
            }
        }
    }
}

/// The frame rate at which an exported clip plays, from its timestamps.
pub fn detect_export_fps(frames: &[CapturedFrame]) -> (r: u32)
    ensures
        r == spec_export_fps(frames@),
{
    let n = frames.len();
    if n <= 1 {
        return FALLBACK_EXPORT_FPS;
    }
    let first = frames[0].timestamp_ns;
    let last = frames[n - 1].timestamp_ns;
    if last <= first {
        return FALLBACK_EXPORT_FPS;
    }
    let d = (last - first) as u128;
    proof {
        assert(2 * n as int * 1_000_000_000int <= 2 * 0xFFFF_FFFF_FFFF_FFFFint * 1_000_000_000int)
            by (nonlinear_arith)
            requires
                n <= 0xFFFF_FFFF_FFFF_FFFFint,
        ;
    }
    let q = (2 * (n as u128) * 1_000_000_000u128 + d) / (2 * d);
    if q > u32::MAX as u128 {
        u32::MAX
    } else {
        q as u32
    }
}

/// The message of a successful save of `n` frames.
pub open spec fn saved_message(n: nat) -> Seq<char> {
    "Saved "@ + decimal(n) + " frames"@
}

/// What a save of a snapshot of `frame_count` frames reports. `written` is
/// the outcome of encoding and writing the clip: the clip's id, if known, or
/// the error text. An empty snapshot is reported as such whatever
/// `written` says.
pub fn save_outcome(frame_count: usize, written: Result<Option<String>, String>) -> (r: SaveResult)
    ensures
        frame_count == 0 ==> !r.success && r.message@ == "No frames in buffer"@ && r.clip_id is None,
        frame_count > 0 ==> match written {
            Ok(id) => r.success && r.message@ == saved_message(frame_count as nat) && r.clip_id == id,
            Err(e) => !r.success && r.message@ == "Encoding failed: "@ + e@ && r.clip_id is None,
        },
{
    if frame_count == 0 {
        return SaveResult {
            success: false,
            message: String::from_str("No frames in buffer"),
            clip_id: None,
        };
    }
    match written {
        Ok(id) => {
            let mut message = String::from_str("Saved ");
            push_decimal(&mut message, frame_count as u64);
            message.append(" frames");
            SaveResult { success: true, message, clip_id: id }
        },
        Err(e) => {
            let mut message = String::from_str("Encoding failed: ");
            message.append(e.as_str());
            SaveResult { success: false, message, clip_id: None }
        },
    }
}

} // verus!
