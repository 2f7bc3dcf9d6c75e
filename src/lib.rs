//! A bounded replay buffer for captured frames: a fixed-capacity window that
//! keeps the most recent frames, the trigger logic that decides when a clip is
//! saved, and the binary clip container that persists a snapshot.

pub mod capture;
pub mod clip;
pub mod config;
pub mod encoder;
pub mod error;
pub mod frame;
pub mod frame_window;
pub mod input;
pub mod openxr_layer;
pub mod results;
pub mod ring_buffer;
pub mod save;
pub mod storage;

pub use frame::{CapturedFrame, CompressionError, FrameCompressor};
pub use frame_window::SharedFrameBuffer;
pub use ring_buffer::RingBuffer;
pub use save::QuestShadowplay;
