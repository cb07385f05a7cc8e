use midi_router::Frame;
use midi_router::LedController;
use midi_router::StateManager;
use midi_router::LED_ACTIVE_VELOCITY;
use midi_router::LED_BLINK_CHANNEL;
use midi_router::LED_DEFAULT_CHANNEL;

#[test]
fn refresh_emits_stored_color_when_off() {
    let mut sm = StateManager::new();
    sm.set_note_color(0, 60, 77).unwrap();
    sm.set_note_state(0, 60, false).unwrap();
    let led = LedController::new();
    assert_eq!(
        led.refresh_single_led(&sm, 0, 60),
        Ok(Frame::NoteOn { channel: LED_DEFAULT_CHANNEL, note: 60, velocity: 77 })
    );
}

#[test]
fn refresh_emits_active_indicator_when_on() {
    let mut sm = StateManager::new();
    sm.set_note_color(0, 60, 77).unwrap();
    sm.set_note_state(0, 60, true).unwrap();
    let led = LedController::new();
    assert_eq!(
        led.refresh_single_led(&sm, 0, 60),
        Ok(Frame::NoteOn { channel: LED_BLINK_CHANNEL, note: 60, velocity: LED_ACTIVE_VELOCITY })
    );
}

#[test]
fn refresh_all_emits_one_frame_per_toggle_note_in_order() {
    let mut sm = StateManager::new();
    sm.set_note_state(2, 61, true).unwrap();
    sm.set_note_color(2, 60, 5).unwrap();
    let led = LedController::new();
    let frames = led.refresh_all_leds(&sm, 2, &vec![60, 61]).unwrap();
    assert_eq!(
        frames,
        vec![
            Frame::NoteOn { channel: LED_DEFAULT_CHANNEL, note: 60, velocity: 5 },
            Frame::NoteOn { channel: LED_BLINK_CHANNEL, note: 61, velocity: LED_ACTIVE_VELOCITY },
        ]
    );
}

#[test]
fn refresh_all_fails_outside_the_tables() {
    let sm = StateManager::new();
    let led = LedController::new();
    assert!(led.refresh_all_leds(&sm, 9, &vec![60]).is_err());
    assert!(led.refresh_single_led(&sm, 0, 128).is_err());
    // an empty toggle set asks for nothing and succeeds
    assert_eq!(led.refresh_all_leds(&sm, 9, &vec![]), Ok(vec![]));
}
