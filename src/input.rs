//! Trigger detection: turns per-sample controller state into single,
//! debounced "save now" edge events.

use vstd::prelude::*;

verus! {

/// Which button combination triggers a save.
#[derive(Clone, Debug)]
pub enum TriggerButton {
    /// Left grip and left trigger held together.
    LeftGripAndTrigger,
    /// Right grip and right trigger held together.
    RightGripAndTrigger,
    /// Both grips held together.
    BothGrips,
    /// A custom binding; it never engages.
    Custom { description: String },
}

impl Default for TriggerButton {
    fn default() -> (r: Self)
        ensures
            r is LeftGripAndTrigger,
    {
        TriggerButton::LeftGripAndTrigger
    }
}

/// Which analog controls are past their "engaged" threshold in one sample.
#[derive(Clone, Copy, Debug, PartialEq, Eq, Structural)]
pub struct PressedControls {
    pub left_trigger: bool,
    pub left_grip: bool,
    pub right_trigger: bool,
    pub right_grip: bool,
}

impl PressedControls {
    /// The sample with every control at rest.
    pub open spec fn released_spec() -> Self {
        PressedControls {
            left_trigger: false,
            left_grip: false,
            right_trigger: false,
            right_grip: false,
        }
    }

    /// A sample with every control at rest.
    pub fn released() -> (r: Self)
        ensures
            r == Self::released_spec(),
    {
        PressedControls {
            left_trigger: false,
            left_grip: false,
            right_trigger: false,
            right_grip: false,
        }
    }
}

/// Whether the combination `button` is fully engaged in sample `s`.
pub open spec fn combo_engaged(button: TriggerButton, s: PressedControls) -> bool {
    match button {
        TriggerButton::LeftGripAndTrigger => s.left_grip && s.left_trigger,
        TriggerButton::RightGripAndTrigger => s.right_grip && s.right_trigger,
        TriggerButton::BothGrips => s.left_grip && s.right_grip,
        TriggerButton::Custom { .. } => false,
    }
}

/// The detector's memory between samples.
pub ghost struct DetectorState {
    /// Whether the combination was engaged in the previous sample.
    pub held: bool,
    /// When the last event was emitted (milliseconds), if ever.
    pub last_emit: Option<u64>,
}

/// `a - b`, or 0 when `b > a`.
pub open spec fn elapsed_ms(now: u64, then: u64) -> u64 {
    if now >= then {
        (now - then) as u64
    } else {
        0
    }
}

/// Whether the cooldown since the last event has passed at time `now`.
pub open spec fn cooled_down(st: DetectorState, now: u64, debounce_ms: u64) -> bool {
    match st.last_emit {
        None => true,
        Some(t) => elapsed_ms(now, t) >= debounce_ms,
    }
}

/// One sample: the new state, and whether a save event is emitted. An event
/// is emitted only on a released-to-held transition, and only once the
/// cooldown has passed; the transition itself happens either way.
pub open spec fn trigger_step(st: DetectorState, engaged: bool, now: u64, debounce_ms: u64) -> (
    DetectorState,
    bool,
) {
    let emit = engaged && !st.held && cooled_down(st, now, debounce_ms);
    (
        DetectorState { held: engaged, last_emit: if emit { Some(now) } else { st.last_emit } },
        emit,
    )
}

/// The number of events emitted over a run of samples `(engaged, time)`.
pub open spec fn count_events(st: DetectorState, samples: Seq<(bool, u64)>, debounce_ms: u64) -> nat
    decreases samples.len(),
{
    if samples.len() == 0 {
        0
    } else {
        let (next, emit) = trigger_step(st, samples[0].0, samples[0].1, debounce_ms);
        (if emit {
            1nat
        } else {
            0nat
        }) + count_events(next, samples.drop_first(), debounce_ms)
    }
}

/// Whether every sample of `samples` has the combination engaged (`on`) or
/// released (`!on`).
pub open spec fn all_samples(samples: Seq<(bool, u64)>, on: bool) -> bool {
    forall|i: int| 0 <= i < samples.len() ==> (#[trigger] samples[i]).0 == on
}

/// While the combination stays held, nothing is emitted.
pub proof fn lemma_hold_emits_nothing(st: DetectorState, samples: Seq<(bool, u64)>, debounce_ms: u64)
    requires
        st.held,
        all_samples(samples, true),
    ensures
        count_events(st, samples, debounce_ms) == 0,
    decreases samples.len(),
{
    if samples.len() > 0 {
        let (next, emit) = trigger_step(st, samples[0].0, samples[0].1, debounce_ms);
        assert(samples[0].0);
        assert(all_samples(samples.drop_first(), true)) by {
            assert forall|i: int| 0 <= i < samples.drop_first().len() implies (
            #[trigger] samples.drop_first()[i]).0 by {
                assert(samples.drop_first()[i] == samples[i + 1]);
            }
        }
        lemma_hold_emits_nothing(next, samples.drop_first(), debounce_ms);
    }
}

/// While the combination stays released, nothing is emitted.
pub proof fn lemma_release_emits_nothing(
    st: DetectorState,
    samples: Seq<(bool, u64)>,
    debounce_ms: u64,
)
    requires
        all_samples(samples, false),
    ensures
        count_events(st, samples, debounce_ms) == 0,
    decreases samples.len(),
{
    if samples.len() > 0 {
        let (next, emit) = trigger_step(st, samples[0].0, samples[0].1, debounce_ms);
        assert(!samples[0].0);
        assert(all_samples(samples.drop_first(), false)) by {
            assert forall|i: int| 0 <= i < samples.drop_first().len() implies !(
            #[trigger] samples.drop_first()[i]).0 by {
                assert(samples.drop_first()[i] == samples[i + 1]);
            }
        }
        lemma_release_emits_nothing(next, samples.drop_first(), debounce_ms);
    }
}

/// One press-and-hold cycle (the combination engaged for one or more
/// samples, then released for any number of samples), begun from the
/// released state once the cooldown has passed, emits exactly one event,
/// whatever the sample times.
pub proof fn lemma_one_event_per_press(
    st: DetectorState,
    held: Seq<(bool, u64)>,
    released: Seq<(bool, u64)>,
    debounce_ms: u64,
)
    requires
        !st.held,
        held.len() > 0,
        all_samples(held, true),
        all_samples(released, false),
        cooled_down(st, held[0].1, debounce_ms),
    ensures
        count_events(st, held + released, debounce_ms) == 1,
    decreases held.len(),
{
    let s = held + released;
    assert(s[0] == held[0]);
    let (next, emit) = trigger_step(st, s[0].0, s[0].1, debounce_ms);
    assert(emit);
    assert(next.held);
    let rest = held.drop_first();
    assert(s.drop_first() =~= rest + released);
    assert(all_samples(rest, true)) by {
        assert forall|i: int| 0 <= i < rest.len() implies (#[trigger] rest[i]).0 by {
            assert(rest[i] == held[i + 1]);
        }
    }
    lemma_hold_then_release(next, rest, released, debounce_ms);
}

proof fn lemma_hold_then_release(
    st: DetectorState,
    held: Seq<(bool, u64)>,
    released: Seq<(bool, u64)>,
    debounce_ms: u64,
)
    requires
        st.held,
        all_samples(held, true),
        all_samples(released, false),
    ensures
        count_events(st, held + released, debounce_ms) == 0,
    decreases held.len(),
{
    if held.len() == 0 {
        assert(held + released =~= released);
        lemma_release_emits_nothing(st, released, debounce_ms);
    } else {
        let s = held + released;
        assert(s[0] == held[0]);
        let (next, emit) = trigger_step(st, s[0].0, s[0].1, debounce_ms);
        let rest = held.drop_first();
        assert(s.drop_first() =~= rest + released);
        assert(all_samples(rest, true)) by {
            assert forall|i: int| 0 <= i < rest.len() implies (#[trigger] rest[i]).0 by {
                assert(rest[i] == held[i + 1]);
            }
        }
        lemma_hold_then_release(next, rest, released, debounce_ms);
    }
}

/// Whether every sample of `samples` comes less than `debounce_ms` after `t0`.
pub open spec fn all_within(samples: Seq<(bool, u64)>, t0: u64, debounce_ms: u64) -> bool {
    forall|i: int| 0 <= i < samples.len() ==> elapsed_ms((#[trigger] samples[i]).1, t0) < debounce_ms
}

/// After an event at `t0`, no sample less than `debounce_ms` later emits.
pub proof fn lemma_cooldown_suppresses(
    st: DetectorState,
    t0: u64,
    samples: Seq<(bool, u64)>,
    debounce_ms: u64,
)
    requires
        st.last_emit == Some(t0),
        all_within(samples, t0, debounce_ms),
    ensures
        count_events(st, samples, debounce_ms) == 0,
    decreases samples.len(),
{
    if samples.len() > 0 {
        let (next, emit) = trigger_step(st, samples[0].0, samples[0].1, debounce_ms);
        assert(elapsed_ms(samples[0].1, t0) < debounce_ms);
        assert(!emit);
        assert(all_within(samples.drop_first(), t0, debounce_ms)) by {
            assert forall|i: int| 0 <= i < samples.drop_first().len() implies elapsed_ms(
                (#[trigger] samples.drop_first()[i]).1,
                t0,
            ) < debounce_ms by {
                assert(samples.drop_first()[i] == samples[i + 1]);
            }
        }
        lemma_cooldown_suppresses(next, t0, samples.drop_first(), debounce_ms);
    }
}

/// Presses that all come less than `debounce_ms` after a first press, begun
/// from the released state once the cooldown has passed, emit exactly one
/// event: the first.
pub proof fn lemma_presses_within_debounce_emit_once(
    st: DetectorState,
    samples: Seq<(bool, u64)>,
    debounce_ms: u64,
)
    requires
        !st.held,
        samples.len() > 0,
        samples[0].0,
        cooled_down(st, samples[0].1, debounce_ms),
        all_within(samples, samples[0].1, debounce_ms),
    ensures
        count_events(st, samples, debounce_ms) == 1,
{
    let t0 = samples[0].1;
    let (next, emit) = trigger_step(st, samples[0].0, t0, debounce_ms);
    assert(emit);
    assert(all_within(samples.drop_first(), t0, debounce_ms)) by {
        assert forall|i: int| 0 <= i < samples.drop_first().len() implies elapsed_ms(
            (#[trigger] samples.drop_first()[i]).1,
            t0,
        ) < debounce_ms by {
            assert(samples.drop_first()[i] == samples[i + 1]);
        }
    }
    lemma_cooldown_suppresses(next, t0, samples.drop_first(), debounce_ms);
}

/// Default minimum time between two save events, in milliseconds.
pub const DEFAULT_DEBOUNCE_MS: u64 = 500;

/// Watches controller samples for the configured combination and reports
/// debounced save requests.
pub struct InputHandler {
    trigger_button: TriggerButton,
    debounce_ms: u64,
    last_trigger_ms: Option<u64>,
    was_pressed_last_frame: bool,
    current_state: PressedControls,
}

impl InputHandler {
    /// The configured combination.
    pub closed spec fn spec_button(&self) -> TriggerButton {
        self.trigger_button
    }

    /// The configured cooldown in milliseconds.
    pub closed spec fn spec_debounce_ms(&self) -> u64 {
        self.debounce_ms
    }

    /// The latest sample.
    pub closed spec fn spec_sample(&self) -> PressedControls {
        self.current_state
    }

    /// The detector's memory.
    pub closed spec fn spec_detector(&self) -> DetectorState {
        DetectorState { held: self.was_pressed_last_frame, last_emit: self.last_trigger_ms }
    }

    /// Whether the configured combination is engaged in the latest sample.
    pub open spec fn spec_engaged(&self) -> bool {
        combo_engaged(self.spec_button(), self.spec_sample())
    }

    /// A handler for `trigger_button` with the default cooldown, no sample
    /// yet (all controls released) and no event emitted.
    pub fn new(trigger_button: TriggerButton) -> (r: Self)
        ensures
            r.spec_button() == trigger_button,
            r.spec_debounce_ms() == DEFAULT_DEBOUNCE_MS,
            r.spec_sample() == PressedControls::released_spec(),
            r.spec_detector() == (DetectorState { held: false, last_emit: None }),
    {
        InputHandler {
            trigger_button,
            debounce_ms: DEFAULT_DEBOUNCE_MS,
            last_trigger_ms: None,
            was_pressed_last_frame: false,
            current_state: PressedControls::released(),
        }
    }

    /// Records the latest sample.
    pub fn update(&mut self, new_state: PressedControls)
        ensures
            final(self).spec_sample() == new_state,
            final(self).spec_button() == old(self).spec_button(),
            final(self).spec_debounce_ms() == old(self).spec_debounce_ms(),
            final(self).spec_detector() == old(self).spec_detector(),
    {
        self.current_state = new_state;
    }

    /// Feeds the latest sample, taken at time `now_ms`, to the detector and
    /// returns whether it emits a save event: only when the combination has
    /// just become engaged and the cooldown since the last event has passed.
    pub fn check_save_triggered(&mut self, now_ms: u64) -> (r: bool)
        ensures
            (final(self).spec_detector(), r) == trigger_step(
                old(self).spec_detector(),
                old(self).spec_engaged(),
                now_ms,
                old(self).spec_debounce_ms(),
            ),
            final(self).spec_sample() == old(self).spec_sample(),
            final(self).spec_button() == old(self).spec_button(),
            final(self).spec_debounce_ms() == old(self).spec_debounce_ms(),
    {
        let is_pressed = self.is_trigger_held();
        let just_pressed = is_pressed && !self.was_pressed_last_frame;
        self.was_pressed_last_frame = is_pressed;
        if !just_pressed {
            return false;
        }
        match self.last_trigger_ms {
            Some(last) => {
                let elapsed = if now_ms >= last {
                    now_ms - last
                } else {
                    0
                };
                if elapsed < self.debounce_ms {
                    return false;
                }
            },
            None => {},
        }
        self.last_trigger_ms = Some(now_ms);
        true
    }

    /// Whether the configured combination is engaged in the latest sample.
    pub fn is_trigger_held(&self) -> (r: bool)
        ensures
            r == self.spec_engaged(),
    {
        let s = self.current_state;
        match &self.trigger_button {
            TriggerButton::LeftGripAndTrigger => s.left_grip && s.left_trigger,
            TriggerButton::RightGripAndTrigger => s.right_grip && s.right_trigger,
            TriggerButton::BothGrips => s.left_grip && s.right_grip,
            TriggerButton::Custom { .. } => false,
        }
    }

    /// Changes the combination; the detector's memory is kept.
    pub fn set_trigger_button(&mut self, button: TriggerButton)
        ensures
            final(self).spec_button() == button,
            final(self).spec_sample() == old(self).spec_sample(),
            final(self).spec_debounce_ms() == old(self).spec_debounce_ms(),
            final(self).spec_detector() == old(self).spec_detector(),
    {
        self.trigger_button = button;
    }

    /// Changes the cooldown between save events.
    pub fn set_debounce_ms(&mut self, duration_ms: u64)
        ensures
            final(self).spec_debounce_ms() == duration_ms,
            final(self).spec_button() == old(self).spec_button(),
            final(self).spec_sample() == old(self).spec_sample(),
            final(self).spec_detector() == old(self).spec_detector(),
    {
        self.debounce_ms = duration_ms;
    }

    /// The latest sample.
    pub fn current_state(&self) -> (r: &PressedControls)
        ensures
            *r == self.spec_sample(),
    {
        &self.current_state
    }

    /// Milliseconds from the last event to `now_ms` (0 if `now_ms` is
    /// earlier), or `None` if no event was emitted yet.
    pub fn time_since_last_save(&self, now_ms: u64) -> (r: Option<u64>)
        ensures
            r == match self.spec_detector().last_emit {
                None => None,
                Some(t) => Some(elapsed_ms(now_ms, t)),
            },
    {
        match self.last_trigger_ms {
            None => None,
            Some(t) => Some(
                if now_ms >= t {
                    now_ms - t
                } else {
                    0
                },
            ),
        }
    }
}

impl Default for InputHandler {
    fn default() -> (r: Self)
        ensures
            r.spec_button() is LeftGripAndTrigger,
            r.spec_debounce_ms() == DEFAULT_DEBOUNCE_MS,
            r.spec_detector() == (DetectorState { held: false, last_emit: None }),
    {
        InputHandler::new(TriggerButton::LeftGripAndTrigger)
    }
}

} // verus!
