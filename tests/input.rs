use quest_shadowplay::input::{InputHandler, PressedControls, TriggerButton};

fn pressed(left_trigger: bool, left_grip: bool, right_trigger: bool, right_grip: bool) -> PressedControls {
    PressedControls { left_trigger, left_grip, right_trigger, right_grip }
}

#[test]
fn test_trigger_detection() {
    let mut handler = InputHandler::new(TriggerButton::LeftGripAndTrigger);

    handler.update(PressedControls::released());
    assert!(!handler.check_save_triggered(0));

    handler.update(pressed(true, true, false, false));
    assert!(handler.check_save_triggered(10));

    assert!(!handler.check_save_triggered(20));
}

#[test]
fn test_debounce() {
    let mut handler = InputHandler::new(TriggerButton::LeftGripAndTrigger);
    handler.set_debounce_ms(100);

    let state = pressed(true, true, false, false);

    handler.update(state);
    assert!(handler.check_save_triggered(1_000));

    handler.update(PressedControls::released());
    assert!(!handler.check_save_triggered(1_010));
    handler.update(state);
    assert!(!handler.check_save_triggered(1_020));
}

#[test]
fn press_after_cooldown_triggers_again() {
    let mut handler = InputHandler::new(TriggerButton::RightGripAndTrigger);
    let on = pressed(false, false, true, true);
    handler.update(on);
    assert!(handler.check_save_triggered(0));
    handler.update(PressedControls::released());
    assert!(!handler.check_save_triggered(100));
    handler.update(on);
    assert!(handler.check_save_triggered(600));
    assert_eq!(handler.time_since_last_save(650), Some(50));
}

#[test]
fn one_event_per_hold_at_any_rate() {
    let mut handler = InputHandler::new(TriggerButton::BothGrips);
    let on = pressed(false, true, false, true);
    let mut events = 0;
    handler.update(on);
    for t in 0..200u64 {
        if handler.check_save_triggered(t) {
            events += 1;
        }
    }
    assert_eq!(events, 1);
}

#[test]
fn suppressed_edge_still_counts_as_held() {
    let mut handler = InputHandler::new(TriggerButton::LeftGripAndTrigger);
    let on = pressed(true, true, false, false);
    handler.update(on);
    assert!(handler.check_save_triggered(0));
    handler.update(PressedControls::released());
    assert!(!handler.check_save_triggered(1));
    handler.update(on);
    assert!(!handler.check_save_triggered(2));
    assert!(!handler.check_save_triggered(900));
}

#[test]
fn custom_binding_never_engages() {
    let mut handler = InputHandler::new(TriggerButton::Custom { description: "chord".to_string() });
    handler.update(pressed(true, true, true, true));
    assert!(!handler.is_trigger_held());
    assert!(!handler.check_save_triggered(0));
    assert_eq!(handler.time_since_last_save(5), None);
}

#[test]
fn partial_combo_is_not_held() {
    let mut handler = InputHandler::default();
    handler.update(pressed(true, false, false, false));
    assert!(!handler.is_trigger_held());
    handler.set_trigger_button(TriggerButton::BothGrips);
    handler.update(pressed(false, true, false, true));
    assert!(handler.is_trigger_held());
    assert_eq!(*handler.current_state(), pressed(false, true, false, true));
}
