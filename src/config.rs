//! Settings of the replay pipeline and their validation.

use crate::input::TriggerButton;
use vstd::prelude::*;
use vstd::string::StringExecFns;

verus! {

/// Shortest accepted buffer duration, in milliseconds.
pub const MIN_BUFFER_MS: u32 = 5000;

/// Longest accepted buffer duration, in milliseconds.
pub const MAX_BUFFER_MS: u32 = 60000;

/// Accepted frame rates, inclusive.
pub const MIN_FPS: u32 = 30;

/// Accepted frame rates, inclusive.
pub const MAX_FPS: u32 = 144;

/// Accepted bitrates, inclusive, in bits per second.
pub const MIN_BITRATE: u32 = 1_000_000;

/// Accepted bitrates, inclusive, in bits per second.
pub const MAX_BITRATE: u32 = 100_000_000;

/// A setting out of its accepted range.
#[derive(Debug)]
pub enum ConfigError {
    /// Buffer duration (ms) below the minimum.
    BufferTooShort(u32),
    /// Buffer duration (ms) above the maximum.
    BufferTooLong(u32),
    /// Frame rate outside the accepted range.
    InvalidFps(u32),
    /// Bitrate below the minimum.
    BitrateTooLow(u32),
    /// Bitrate above the maximum.
    BitrateTooHigh(u32),
    /// The output directory is missing or not writable.
    InvalidOutputDirectory(String),
}

/// All settings of the pipeline.
#[derive(Clone, Debug)]
pub struct Config {
    /// How much footage the window keeps, in milliseconds.
    pub buffer_duration_ms: u32,
    /// Capture rate in frames per second.
    pub target_fps: u32,
    /// The combination that saves a clip.
    pub trigger_button: TriggerButton,
    /// Minimum time between saves, in milliseconds.
    pub save_cooldown_ms: u32,
    /// Where clips are saved.
    pub output_directory: String,
    /// Encoding bitrate in bits per second.
    pub video_bitrate: u32,
    /// JPEG quality of buffered frames (0 to 100).
    pub jpeg_quality: u8,
    /// Share of frames captured, in percent (1 to 100).
    pub max_capture_percentage: u8,
    /// Whether frames are skipped when capture lags.
    pub skip_on_lag: bool,
    /// Whether a save is confirmed by vibration.
    pub haptic_feedback: bool,
    /// Whether a save is confirmed by sound.
    pub audio_feedback: bool,
}

/// The problems `validate` reports for `c`, in order.
pub open spec fn config_errors(c: Config) -> Seq<ConfigError> {
    (if c.buffer_duration_ms < MIN_BUFFER_MS {
        seq![ConfigError::BufferTooShort(c.buffer_duration_ms)]
    } else {
        seq![]
    }) + (if c.buffer_duration_ms > MAX_BUFFER_MS {
        seq![ConfigError::BufferTooLong(c.buffer_duration_ms)]
    } else {
        seq![]
    }) + (if c.target_fps < MIN_FPS || c.target_fps > MAX_FPS {
        seq![ConfigError::InvalidFps(c.target_fps)]
    } else {
        seq![]
    }) + (if c.video_bitrate < MIN_BITRATE {
        seq![ConfigError::BitrateTooLow(c.video_bitrate)]
    } else {
        seq![]
    }) + (if c.video_bitrate > MAX_BITRATE {
        seq![ConfigError::BitrateTooHigh(c.video_bitrate)]
    } else {
        seq![]
    })
}

impl Config {
    /// Settings tuned for low memory use: 72 frames per second, JPEG quality
    /// 70, half the frames captured; the rest as by default.
    pub fn low_memory() -> (r: Self)
        ensures
            r.buffer_duration_ms == 10000 && r.target_fps == 72 && r.jpeg_quality == 70
                && r.max_capture_percentage == 50 && r.video_bitrate == 20_000_000
                && r.save_cooldown_ms == 500 && r.skip_on_lag,
    {
        let mut c = Config::default();
        c.buffer_duration_ms = 10000;
        c.target_fps = 72;
        c.jpeg_quality = 70;
        c.max_capture_percentage = 50;
        c
    }

    /// Settings tuned for quality: 120 frames per second, 50 Mbit/s, JPEG
    /// quality 95, every frame captured and none skipped.
    pub fn high_quality() -> (r: Self)
        ensures
            r.buffer_duration_ms == 10000 && r.target_fps == 120 && r.video_bitrate == 50_000_000
                && r.jpeg_quality == 95 && r.max_capture_percentage == 100 && !r.skip_on_lag
                && r.save_cooldown_ms == 500,
    {
        let mut c = Config::default();
        c.target_fps = 120;
        c.video_bitrate = 50_000_000;
        c.jpeg_quality = 95;
        c.max_capture_percentage = 100;
        c.skip_on_lag = false;
        c
    }

    /// Every setting out of range, in the order duration, rate, bitrate;
    /// empty when all are acceptable.
    pub fn validate(&self) -> (r: Vec<ConfigError>)
        ensures
            r@ == config_errors(*self),
    {
        let mut errors: Vec<ConfigError> = Vec::new();
        if self.buffer_duration_ms < MIN_BUFFER_MS {
            errors.push(ConfigError::BufferTooShort(self.buffer_duration_ms));
        }
        if self.buffer_duration_ms > MAX_BUFFER_MS {
            errors.push(ConfigError::BufferTooLong(self.buffer_duration_ms));
        }
        if self.target_fps < MIN_FPS || self.target_fps > MAX_FPS {
            errors.push(ConfigError::InvalidFps(self.target_fps));
        }
        if self.video_bitrate < MIN_BITRATE {
            errors.push(ConfigError::BitrateTooLow(self.video_bitrate));
        }
        if self.video_bitrate > MAX_BITRATE {
            errors.push(ConfigError::BitrateTooHigh(self.video_bitrate));
        }
        proof {
            assert(errors@ =~= config_errors(*self));
        }
        errors
    }

    /// How many frames the window holds: `ceil(duration_ms × fps / 1000)`.
    pub fn buffer_frame_count(&self) -> (r: u64)
        ensures
            r == (self.buffer_duration_ms as int * self.target_fps as int + 999) / 1000,
    {
        proof {
            assert(self.buffer_duration_ms as int * self.target_fps as int <= 0xFFFF_FFFFint
                * 0xFFFF_FFFFint) by (nonlinear_arith)
                requires
                    self.buffer_duration_ms <= 0xFFFF_FFFFint,
                    self.target_fps <= 0xFFFF_FFFFint,
            ;
        }
        (self.buffer_duration_ms as u64 * self.target_fps as u64 + 999) / 1000
    }
}

impl Default for Config {
    /// Ten seconds at 90 frames per second, left grip and trigger with a
    /// 500 ms cooldown, 20 Mbit/s, JPEG quality 80, every frame captured,
    /// frames skipped on lag, haptic and audio feedback on.
    fn default() -> (r: Self)
        ensures
            r.buffer_duration_ms == 10000 && r.target_fps == 90 && r.save_cooldown_ms == 500
                && r.video_bitrate == 20_000_000 && r.jpeg_quality == 80
                && r.max_capture_percentage == 100 && r.skip_on_lag && r.haptic_feedback
                && r.audio_feedback && r.trigger_button is LeftGripAndTrigger
                && r.output_directory@ == "/sdcard/QuestShadowplay/"@,
    {
        proof {
            reveal_strlit("/sdcard/QuestShadowplay/");
        }
        Config {
            buffer_duration_ms: 10000,
            target_fps: 90,
            trigger_button: TriggerButton::LeftGripAndTrigger,
            save_cooldown_ms: 500,
            output_directory: String::from_str("/sdcard/QuestShadowplay/"),
            video_bitrate: 20_000_000,
            jpeg_quality: 80,
            max_capture_percentage: 100,
            skip_on_lag: true,
            haptic_feedback: true,
            audio_feedback: true,
        }
    }
}

} // verus!
