use quest_shadowplay::input::{PressedControls, TriggerButton};
use quest_shadowplay::results::save_outcome;
use quest_shadowplay::save::{QuestShadowplay, SaveState, SaveStats};
use quest_shadowplay::CapturedFrame;

fn frame(t: u64) -> CapturedFrame {
    CapturedFrame::with_timestamp(vec![t as u8], 0, 1, 1, t)
}

fn combo() -> PressedControls {
    PressedControls { left_trigger: true, left_grip: true, right_trigger: false, right_grip: false }
}

#[test]
fn test_app_creation() {
    let app = QuestShadowplay::new(10_000, 90, TriggerButton::LeftGripAndTrigger);
    assert!(!app.is_saving());
}

#[test]
fn second_request_is_not_started() {
    let mut s = SaveState::new();
    assert!(s.request_save());
    assert!(!s.request_save());
    s.frame_received();
    s.frame_received();
    assert_eq!(s.stats.frames_received, 2);
    assert!(s.saving);
    s.finish_save(true);
    assert!(!s.saving);
    assert_eq!(s.stats, SaveStats { frames_received: 2, clips_saved: 1, save_errors: 0 });
    assert!(s.request_save());
    s.finish_save(false);
    assert_eq!(s.stats.save_errors, 1);
}

#[test]
fn trigger_starts_one_save_with_snapshot() {
    let mut app = QuestShadowplay::new(1_000, 5, TriggerButton::LeftGripAndTrigger);
    for t in 0..3 {
        assert!(app.on_frame_captured(frame(t), t).is_none());
    }
    app.update_input(combo());
    let snap = app.on_frame_captured(frame(3), 3).expect("save starts");
    let times: Vec<u64> = snap.iter().map(|f| f.timestamp_ns).collect();
    assert_eq!(times, vec![0, 1, 2, 3]);
    assert!(app.is_saving());
    assert!(app.start_save().is_none());
    for t in 4..10 {
        assert!(app.on_frame_captured(frame(t), t).is_none());
    }
    assert_eq!(app.stats().frames_received, 10);
    app.finish_save(true);
    assert!(!app.is_saving());
    assert_eq!(app.stats().clips_saved, 1);
    assert_eq!(app.frame_count(), 5);
}

#[test]
fn failed_save_leaves_window_and_allows_new_save() {
    let mut app = QuestShadowplay::new(1_000, 3, TriggerButton::LeftGripAndTrigger);
    app.on_frame_captured(frame(1), 1);
    assert!(app.start_save().is_some());
    app.finish_save(false);
    assert_eq!(app.stats().save_errors, 1);
    assert_eq!(app.frame_count(), 1);
    assert!(app.start_save().is_some());
}

#[test]
fn window_holds_last_frames_during_save() {
    let mut app = QuestShadowplay::new(1_000, 3, TriggerButton::LeftGripAndTrigger);
    app.update_input(combo());
    let snap = app.on_frame_captured(frame(0), 0).expect("save starts");
    assert_eq!(snap.len(), 1);
    for t in 1..5 {
        assert!(app.on_frame_captured(frame(t), t).is_none());
    }
    assert!(app.is_saving());
    let times: Vec<u64> = app.snapshot().iter().map(|f| f.timestamp_ns).collect();
    assert_eq!(times, vec![2, 3, 4]);
    assert_eq!(app.capacity(), 3);
    app.clear();
    assert_eq!(app.frame_count(), 0);
    assert!(app.is_saving());
}

#[test]
fn save_outcome_messages() {
    let empty = save_outcome(0, Ok(Some("x".to_string())));
    assert!(!empty.success);
    assert_eq!(empty.message, "No frames in buffer");
    let ok = save_outcome(12, Ok(Some("clip_1.mp4".to_string())));
    assert!(ok.success);
    assert_eq!(ok.message, "Saved 12 frames");
    assert_eq!(ok.clip_id, Some("clip_1.mp4".to_string()));
    let bad = save_outcome(3, Err("disk full".to_string()));
    assert!(!bad.success);
    assert_eq!(bad.message, "Encoding failed: disk full");
    assert_eq!(bad.clip_id, None);
}
