//! Save orchestration: at most one save at a time, counters of what was
//! received and saved, and the per-frame decision of when a save starts.

use crate::frame::CapturedFrame;
use crate::clip::frames_view;
use crate::frame_window::{frame_capacity, snapshot_of, spec_frame_capacity};
use crate::input::{
    combo_engaged, trigger_step, DetectorState, InputHandler, PressedControls, TriggerButton,
};
use crate::ring_buffer::{push_evict, RingBuffer};
use vstd::prelude::*;

verus! {

/// Counters of the replay pipeline.
#[derive(Clone, Copy, Debug, PartialEq, Eq, Structural)]
pub struct SaveStats {
    /// Frames pushed into the window.
    pub frames_received: u64,
    /// Saves that completed successfully.
    pub clips_saved: u64,
    /// Saves that failed.
    pub save_errors: u64,
}

/// `x + 1`, staying at `u64::MAX` once there.
pub open spec fn bump(x: u64) -> u64 {
    if x < u64::MAX {
        (x + 1) as u64
    } else {
        x
    }
}

fn bump_exec(x: u64) -> (r: u64)
    ensures
        r == bump(x),
{
    if x < u64::MAX {
        x + 1
    } else {
        x
    }
}

/// The exclusive save flag and the counters.
#[derive(Clone, Copy, Debug, PartialEq, Eq, Structural)]
pub struct SaveState {
    /// Whether a save is in flight.
    pub saving: bool,
    /// The counters.
    pub stats: SaveStats,
}

/// Claiming the save flag: it succeeds exactly when no save is in flight,
/// and afterwards a save is in flight either way.
pub open spec fn spec_request_save(s: SaveState) -> (SaveState, bool) {
    (SaveState { saving: true, stats: s.stats }, !s.saving)
}

/// Counting a received frame; the flag is untouched.
pub open spec fn spec_frame_received(s: SaveState) -> SaveState {
    SaveState {
        saving: s.saving,
        stats: SaveStats { frames_received: bump(s.stats.frames_received), ..s.stats },
    }
}

/// Completing a save: the flag is released and the outcome counted.
pub open spec fn spec_finish_save(s: SaveState, succeeded: bool) -> SaveState {
    SaveState {
        saving: false,
        stats: if succeeded {
            SaveStats { clips_saved: bump(s.stats.clips_saved), ..s.stats }
        } else {
            SaveStats { save_errors: bump(s.stats.save_errors), ..s.stats }
        },
    }
}

impl SaveState {
    /// No save in flight and all counters at zero.
    pub fn new() -> (r: Self)
        ensures
            !r.saving,
            r.stats == (SaveStats { frames_received: 0, clips_saved: 0, save_errors: 0 }),
    {
        SaveState {
            saving: false,
            stats: SaveStats { frames_received: 0, clips_saved: 0, save_errors: 0 },
        }
    }

    /// Claims the exclusive right to save; returns false ("not started") when
    /// a save is already in flight.
    pub fn request_save(&mut self) -> (r: bool)
        ensures
            (*final(self), r) == spec_request_save(*old(self)),
    {
        if self.saving {
            false
        } else {
            self.saving = true;
            true
        }
    }

    /// Counts one received frame.
    pub fn frame_received(&mut self)
        ensures
            *final(self) == spec_frame_received(*old(self)),
    {
        self.stats.frames_received = bump_exec(self.stats.frames_received);
    }

    /// Records the outcome of the save in flight and releases the flag.
    pub fn finish_save(&mut self, succeeded: bool)
        ensures
            *final(self) == spec_finish_save(*old(self), succeeded),
    {
        if succeeded {
            self.stats.clips_saved = bump_exec(self.stats.clips_saved);
        } else {
            self.stats.save_errors = bump_exec(self.stats.save_errors);
        }
        self.saving = false;
    }
}

/// A second request made before the first save completes is not started,
/// and frames received meanwhile are still counted while the save stays in
/// flight.
pub proof fn lemma_one_save_at_a_time(s: SaveState, frames: nat)
    ensures
        ({
            let (s1, first) = spec_request_save(s);
            let s2 = frames_during(s1, frames);
            let (s3, second) = spec_request_save(s2);
            &&& !second
            &&& s2.saving
            &&& s3 == s2
            &&& s.stats.frames_received as int + frames <= u64::MAX ==> s2.stats.frames_received
                == s.stats.frames_received + frames
        }),
{
    let (s1, first) = spec_request_save(s);
    lemma_frames_during(s1, frames);
}

/// The state after `n` frames are received.
pub open spec fn frames_during(s: SaveState, n: nat) -> SaveState
    decreases n,
{
    if n == 0 {
        s
    } else {
        spec_frame_received(frames_during(s, (n - 1) as nat))
    }
}

proof fn lemma_frames_during(s: SaveState, n: nat)
    ensures
        frames_during(s, n).saving == s.saving,
        frames_during(s, n).stats.clips_saved == s.stats.clips_saved,
        frames_during(s, n).stats.save_errors == s.stats.save_errors,
        s.stats.frames_received as int + n <= u64::MAX ==> frames_during(s, n).stats.frames_received
            == s.stats.frames_received + n,
    decreases n,
{
    if n > 0 {
        lemma_frames_during(s, (n - 1) as nat);
    }
}

/// The replay pipeline's coordinator: the frame window, the trigger
/// detector, and the save flag with its counters. It owns its window, so
/// callers that share it between threads put the whole coordinator behind
/// one lock, and every change to the window is stated exactly. After a save
/// the window is left as it is; old frames leave it only by eviction, so no
/// frame pushed during a save is lost.
pub struct QuestShadowplay {
    window: RingBuffer<CapturedFrame>,
    input: InputHandler,
    state: SaveState,
    fps: u32,
}

impl QuestShadowplay {
    /// The save flag and counters.
    pub closed spec fn spec_state(&self) -> SaveState {
        self.state
    }

    /// The trigger detector's memory.
    pub closed spec fn spec_detector(&self) -> DetectorState {
        self.input.spec_detector()
    }

    /// The trigger combination.
    pub closed spec fn spec_button(&self) -> TriggerButton {
        self.input.spec_button()
    }

    /// The latest input sample.
    pub closed spec fn spec_sample(&self) -> PressedControls {
        self.input.spec_sample()
    }

    /// The cooldown between save events, in milliseconds.
    pub closed spec fn spec_debounce_ms(&self) -> u64 {
        self.input.spec_debounce_ms()
    }

    /// The frames in the window, oldest first.
    pub closed spec fn spec_window(&self) -> Seq<CapturedFrame> {
        self.window@
    }

    /// The frame window's capacity.
    pub closed spec fn spec_capacity(&self) -> nat {
        self.window.spec_capacity()
    }

    /// The capture rate.
    pub closed spec fn spec_fps(&self) -> u32 {
        self.fps
    }

    /// The frame window is well formed.
    pub closed spec fn wf(&self) -> bool {
        self.window.wf()
    }

    /// A pipeline keeping `duration_ms` milliseconds of frames at `fps`
    /// frames per second, saving on `button`; nothing saved or received yet.
    pub fn new(duration_ms: u32, fps: u32, button: TriggerButton) -> (r: Self)
        requires
            0 < spec_frame_capacity(duration_ms, fps) <= usize::MAX,
        ensures
            r.wf(),
            r.spec_window() == Seq::<CapturedFrame>::empty(),
            r.spec_capacity() == spec_frame_capacity(duration_ms, fps),
            r.spec_fps() == fps,
            r.spec_button() == button,
            r.spec_detector() == (DetectorState { held: false, last_emit: None }),
            r.spec_state() == (SaveState {
                saving: false,
                stats: SaveStats { frames_received: 0, clips_saved: 0, save_errors: 0 },
            }),
    {
        QuestShadowplay {
            window: RingBuffer::new(frame_capacity(duration_ms, fps)),
            input: InputHandler::new(button),
            state: SaveState::new(),
            fps,
        }
    }

    /// Records the latest controller sample.
    pub fn update_input(&mut self, sample: PressedControls)
        ensures
            final(self).spec_sample() == sample,
            final(self).spec_detector() == old(self).spec_detector(),
            final(self).spec_button() == old(self).spec_button(),
            final(self).spec_debounce_ms() == old(self).spec_debounce_ms(),
            final(self).spec_state() == old(self).spec_state(),
            final(self).spec_window() == old(self).spec_window(),
            final(self).spec_capacity() == old(self).spec_capacity(),
            final(self).wf() == old(self).wf(),
    {
        self.input.update(sample);
    }

    /// Handles one captured frame at time `now_ms`: the frame goes into the
    /// window as its newest element and is counted; then, only when no save
    /// is in flight, the latest sample goes to the trigger detector, and if
    /// it emits an event a save is claimed and the window's snapshot, taken
    /// here, is returned for encoding.
    pub fn on_frame_captured(&mut self, frame: CapturedFrame, now_ms: u64) -> (r: Option<
        Vec<CapturedFrame>,
    >)
        requires
            old(self).wf(),
        ensures
            final(self).wf(),
            final(self).spec_capacity() == old(self).spec_capacity(),
            final(self).spec_window() == push_evict(
                old(self).spec_window(),
                frame,
                old(self).spec_capacity(),
            ),
            final(self).spec_sample() == old(self).spec_sample(),
            final(self).spec_button() == old(self).spec_button(),
            final(self).spec_debounce_ms() == old(self).spec_debounce_ms(),
            final(self).spec_state().stats == spec_frame_received(old(self).spec_state()).stats,
            old(self).spec_state().saving ==> {
                &&& r is None
                &&& final(self).spec_state().saving
                &&& final(self).spec_detector() == old(self).spec_detector()
            },
            !old(self).spec_state().saving ==> {
                let (d, emit) = trigger_step(
                    old(self).spec_detector(),
                    combo_engaged(old(self).spec_button(), old(self).spec_sample()),
                    now_ms,
                    old(self).spec_debounce_ms(),
                );
                &&& final(self).spec_detector() == d
                &&& (r is Some <==> emit)
                &&& final(self).spec_state().saving == emit
            },
            r matches Some(v) ==> frames_view(v@) == frames_view(final(self).spec_window()),
    {
        self.window.push(frame);
        self.state.frame_received();
        if self.state.saving {
            return None;
        }
        if self.input.check_save_triggered(now_ms) {
            self.start_save()
        } else {
            None
        }
    }

    /// Claims the save flag and, if it was free, returns a copy of the
    /// window's frames, oldest first, for encoding; returns `None` ("not
    /// started") when a save is already in flight.
    pub fn start_save(&mut self) -> (r: Option<Vec<CapturedFrame>>)
        requires
            old(self).wf(),
        ensures
            final(self).wf(),
            (final(self).spec_state(), r is Some) == spec_request_save(old(self).spec_state()),
            r matches Some(v) ==> frames_view(v@) == frames_view(old(self).spec_window()),
            final(self).spec_window() == old(self).spec_window(),
            final(self).spec_capacity() == old(self).spec_capacity(),
            final(self).spec_detector() == old(self).spec_detector(),
            final(self).spec_sample() == old(self).spec_sample(),
            final(self).spec_button() == old(self).spec_button(),
            final(self).spec_debounce_ms() == old(self).spec_debounce_ms(),
    {
        if self.state.request_save() {
            Some(snapshot_of(&self.window))
        } else {
            None
        }
    }

    /// Records the outcome of the save in flight and releases the flag; the
    /// window is not touched.
    pub fn finish_save(&mut self, succeeded: bool)
        ensures
            final(self).spec_state() == spec_finish_save(old(self).spec_state(), succeeded),
            final(self).wf() == old(self).wf(),
            final(self).spec_window() == old(self).spec_window(),
            final(self).spec_capacity() == old(self).spec_capacity(),
            final(self).spec_detector() == old(self).spec_detector(),
            final(self).spec_sample() == old(self).spec_sample(),
    {
        self.state.finish_save(succeeded);
    }

    /// Whether a save is in flight.
    pub fn is_saving(&self) -> (r: bool)
        ensures
            r == self.spec_state().saving,
    {
        self.state.saving
    }

    /// The counters.
    pub fn stats(&self) -> (r: SaveStats)
        ensures
            r == self.spec_state().stats,
    {
        self.state.stats
    }

    /// The capture rate the window was sized for.
    pub fn fps(&self) -> (r: u32)
        ensures
            r == self.spec_fps(),
    {
        self.fps
    }

    /// A copy of the window's frames, oldest first; the window is unchanged.
    pub fn snapshot(&self) -> (r: Vec<CapturedFrame>)
        ensures
            frames_view(r@) == frames_view(self.spec_window()),
            r@.len() == self.spec_window().len(),
    {
        snapshot_of(&self.window)
    }

    /// The number of frames in the window.
    pub fn frame_count(&self) -> (r: usize)
        ensures
            r == self.spec_window().len(),
    {
        self.window.len()
    }

    /// The number of frames the window holds at most.
    pub fn capacity(&self) -> (r: usize)
        ensures
            r == self.spec_capacity(),
    {
        self.window.capacity()
    }

    /// Empties the window; its capacity, the counters and the save flag are
    /// unchanged.
    pub fn clear(&mut self)
        requires
            old(self).wf(),
        ensures
            final(self).wf(),
            final(self).spec_window() == Seq::<CapturedFrame>::empty(),
            final(self).spec_capacity() == old(self).spec_capacity(),
            final(self).spec_state() == old(self).spec_state(),
            final(self).spec_detector() == old(self).spec_detector(),
    {
        self.window.clear();
    }

    /// Changes the cooldown between save events.
    pub fn set_debounce_ms(&mut self, duration_ms: u64)
        ensures
            final(self).spec_debounce_ms() == duration_ms,
            final(self).spec_detector() == old(self).spec_detector(),
            final(self).spec_sample() == old(self).spec_sample(),
            final(self).spec_button() == old(self).spec_button(),
            final(self).spec_state() == old(self).spec_state(),
            final(self).spec_window() == old(self).spec_window(),
            final(self).wf() == old(self).wf(),
            final(self).spec_capacity() == old(self).spec_capacity(),
    {
        self.input.set_debounce_ms(duration_ms);
    }
}

} // verus!
