use midi_router::ConfigError;
use midi_router::ControlMap;
use midi_router::Frame;
use midi_router::FrameParseError;
use midi_router::InputMessage;
use midi_router::MappingConfig;
use midi_router::MidiHandler;
use midi_router::NoteMap;
use midi_router::RawOutcome;
use midi_router::Warning;
use midi_router::BANK_SELECT_CONTROL;
use midi_router::LED_ACTIVE_VELOCITY;
use midi_router::LED_BLINK_CHANNEL;
use midi_router::LED_DEFAULT_CHANNEL;

fn handler_with(toggle: Vec<u8>, notes: Vec<NoteMap>, controls: Vec<ControlMap>) -> MidiHandler {
    MidiHandler::new(MappingConfig::new(toggle, notes, controls)).unwrap()
}

#[test]
fn new_rejects_malformed_mapping() {
    let r = MidiHandler::new(MappingConfig::new(vec![60, 60], vec![], vec![]));
    assert!(matches!(r, Err(ConfigError::MalformedMapping)));
    let r = MidiHandler::new(MappingConfig::new(vec![200], vec![], vec![]));
    assert!(matches!(r, Err(ConfigError::MalformedMapping)));
}

#[test]
fn controller_note_on_toggles_forwards_and_refreshes() {
    // toggle set {60}, no remap entries, current bank 0
    let mut h = handler_with(vec![60], vec![], vec![]);
    let out = h
        .handle_controller_msg(Frame::NoteOn { channel: 0, note: 60, velocity: 100 })
        .unwrap();
    // toggled true at (0, 60), color unchanged
    assert_eq!(
        h.get_state_manager().get_note_state_and_color(0, 60),
        Ok((true, 0))
    );
    // forwarded on the current bank
    assert_eq!(
        out.to_software,
        vec![Frame::NoteOn { channel: 0, note: 60, velocity: 100 }]
    );
    // LED shows the active indicator
    assert_eq!(
        out.to_controller,
        vec![Frame::NoteOn { channel: LED_BLINK_CHANNEL, note: 60, velocity: LED_ACTIVE_VELOCITY }]
    );
    assert!(out.warnings.is_empty());

    // a second identical note-on toggles back to false
    let out = h
        .handle_controller_msg(Frame::NoteOn { channel: 0, note: 60, velocity: 100 })
        .unwrap();
    assert_eq!(
        h.get_state_manager().get_note_state_and_color(0, 60),
        Ok((false, 0))
    );
    // LED restores the stored color
    assert_eq!(
        out.to_controller,
        vec![Frame::NoteOn { channel: LED_DEFAULT_CHANNEL, note: 60, velocity: 0 }]
    );
}

#[test]
fn controller_note_on_applies_remap() {
    let mut h = handler_with(vec![20], vec![NoteMap::new(10, vec![20])], vec![]);
    let out = h
        .handle_controller_msg(Frame::NoteOn { channel: 0, note: 10, velocity: 50 })
        .unwrap();
    assert_eq!(
        h.get_state_manager().get_note_state_and_color(0, 20),
        Ok((true, 0))
    );
    assert_eq!(
        out.to_software,
        vec![Frame::NoteOn { channel: 0, note: 20, velocity: 50 }]
    );
}

#[test]
fn controller_non_toggle_note_on_warns_and_drops() {
    let mut h = handler_with(vec![60], vec![], vec![]);
    let out = h
        .handle_controller_msg(Frame::NoteOn { channel: 0, note: 61, velocity: 9 })
        .unwrap();
    assert!(out.to_software.is_empty());
    assert!(out.to_controller.is_empty());
    assert_eq!(out.warnings, vec![Warning::ControllerOnNonToggle { note: 61 }]);
    assert_eq!(
        h.get_state_manager().get_note_state_and_color(0, 61),
        Ok((false, 0))
    );
}

#[test]
fn controller_note_off_only_refreshes() {
    let mut h = handler_with(vec![60], vec![], vec![]);
    h.handle_controller_msg(Frame::NoteOn { channel: 0, note: 60, velocity: 100 })
        .unwrap();
    let out = h
        .handle_controller_msg(Frame::NoteOff { channel: 0, note: 60, velocity: 0 })
        .unwrap();
    // the persisted state is untouched and re-displayed
    assert_eq!(
        h.get_state_manager().get_note_state_and_color(0, 60),
        Ok((true, 0))
    );
    assert!(out.to_software.is_empty());
    assert_eq!(
        out.to_controller,
        vec![Frame::NoteOn { channel: LED_BLINK_CHANNEL, note: 60, velocity: LED_ACTIVE_VELOCITY }]
    );
}

#[test]
fn controller_non_toggle_note_off_warns() {
    let mut h = handler_with(vec![60], vec![], vec![]);
    let out = h
        .handle_controller_msg(Frame::NoteOff { channel: 0, note: 61, velocity: 0 })
        .unwrap();
    assert_eq!(out.warnings, vec![Warning::ControllerOffNonToggle { note: 61 }]);
    assert!(out.to_controller.is_empty());
}

#[test]
fn controller_control_change_is_remapped_and_forwarded() {
    let mut h = handler_with(vec![], vec![], vec![ControlMap::new(10, vec![30])]);
    let out = h
        .handle_controller_msg(Frame::ControlChange { channel: 0, control: 10, value: 5 })
        .unwrap();
    assert_eq!(
        out.to_software,
        vec![Frame::ControlChange { channel: 0, control: 30, value: 5 }]
    );
    assert!(out.to_controller.is_empty());
}

#[test]
fn bank_select_switches_bank_and_refreshes_all() {
    let mut h = handler_with(vec![60, 61], vec![], vec![]);
    let out = h
        .handle_controller_msg(Frame::ControlChange {
            channel: 2,
            control: BANK_SELECT_CONTROL,
            value: 0,
        })
        .unwrap();
    assert_eq!(h.get_state_manager().get_current_bank(), 2);
    // exactly one refresh per toggle note, in set order; nothing forwarded
    assert!(out.to_software.is_empty());
    assert_eq!(
        out.to_controller,
        vec![
            Frame::NoteOn { channel: LED_DEFAULT_CHANNEL, note: 60, velocity: 0 },
            Frame::NoteOn { channel: LED_DEFAULT_CHANNEL, note: 61, velocity: 0 },
        ]
    );
}

#[test]
fn bank_select_for_current_bank_does_nothing() {
    let mut h = handler_with(vec![60], vec![], vec![]);
    let out = h
        .handle_controller_msg(Frame::ControlChange {
            channel: 0,
            control: BANK_SELECT_CONTROL,
            value: 0,
        })
        .unwrap();
    assert!(out.to_software.is_empty());
    assert!(out.to_controller.is_empty());
    assert!(out.warnings.is_empty());
    assert_eq!(h.get_state_manager().get_current_bank(), 0);
}

#[test]
fn bank_select_outside_bank_domain_fails_defensively() {
    let mut h = handler_with(vec![60], vec![], vec![]);
    let r = h.handle_controller_msg(Frame::ControlChange {
        channel: 9,
        control: BANK_SELECT_CONTROL,
        value: 0,
    });
    assert!(r.is_err());
}

#[test]
fn controller_other_frame_passes_through() {
    let mut h = handler_with(vec![60], vec![], vec![]);
    let out = h
        .handle_controller_msg(Frame::Other(vec![0xF8]))
        .unwrap();
    assert_eq!(out.to_software, vec![Frame::Other(vec![0xF8])]);
    assert!(out.to_controller.is_empty());
}

#[test]
fn software_note_on_sets_state_and_color() {
    let mut h = handler_with(vec![60], vec![], vec![]);
    let out = h
        .handle_software_msg(Frame::NoteOn { channel: 1, note: 60, velocity: 77 })
        .unwrap();
    assert_eq!(
        h.get_state_manager().get_note_state_and_color(1, 60),
        Ok((true, 77))
    );
    assert!(out.to_software.is_empty());
    assert_eq!(
        out.to_controller,
        vec![Frame::NoteOn { channel: LED_BLINK_CHANNEL, note: 60, velocity: LED_ACTIVE_VELOCITY }]
    );
}

#[test]
fn software_note_off_clears_state_and_shows_color() {
    let mut h = handler_with(vec![60], vec![], vec![]);
    h.handle_software_msg(Frame::NoteOn { channel: 1, note: 60, velocity: 77 })
        .unwrap();
    let out = h
        .handle_software_msg(Frame::NoteOff { channel: 1, note: 60, velocity: 0 })
        .unwrap();
    assert_eq!(
        h.get_state_manager().get_note_state_and_color(1, 60),
        Ok((false, 77))
    );
    assert_eq!(
        out.to_controller,
        vec![Frame::NoteOn { channel: LED_DEFAULT_CHANNEL, note: 60, velocity: 77 }]
    );
}

#[test]
fn software_non_toggle_notes_warn_and_do_nothing() {
    let mut h = handler_with(vec![60], vec![], vec![]);
    let out = h
        .handle_software_msg(Frame::NoteOn { channel: 0, note: 61, velocity: 10 })
        .unwrap();
    assert_eq!(out.warnings, vec![Warning::SoftwareOnNonToggle { note: 61 }]);
    let out = h
        .handle_software_msg(Frame::NoteOff { channel: 0, note: 61, velocity: 0 })
        .unwrap();
    assert_eq!(out.warnings, vec![Warning::SoftwareOffNonToggle { note: 61 }]);
    assert_eq!(
        h.get_state_manager().get_note_state_and_color(0, 61),
        Ok((false, 0))
    );
}

#[test]
fn software_control_change_and_other_are_ignored() {
    let mut h = handler_with(vec![60], vec![], vec![]);
    let out = h
        .handle_software_msg(Frame::ControlChange { channel: 0, control: 1, value: 2 })
        .unwrap();
    assert!(out.to_software.is_empty() && out.to_controller.is_empty() && out.warnings.is_empty());
    let out = h.handle_software_msg(Frame::Other(vec![0xFE])).unwrap();
    assert!(out.to_software.is_empty() && out.to_controller.is_empty() && out.warnings.is_empty());
}

#[test]
fn raw_dispatch_ignores_empty_and_reports_parse_errors() {
    let mut h = handler_with(vec![60], vec![], vec![]);
    assert_eq!(
        h.handle_raw_message(InputMessage::ControllerMessage, &[]),
        Ok(RawOutcome::Ignored)
    );
    assert_eq!(
        h.handle_raw_message(InputMessage::ControllerMessage, &[0x90, 60]),
        Ok(RawOutcome::ParseFailed(FrameParseError::WrongLength))
    );
    // nothing was mutated by either
    assert_eq!(
        h.get_state_manager().get_note_state_and_color(0, 60),
        Ok((false, 0))
    );
}

#[test]
fn raw_dispatch_routes_by_source() {
    let mut h = handler_with(vec![60], vec![], vec![]);
    let r = h
        .handle_raw_message(InputMessage::ControllerMessage, &[0x90, 60, 100])
        .unwrap();
    match r {
        RawOutcome::Dispatched(out) => {
            assert_eq!(
                out.to_software,
                vec![Frame::NoteOn { channel: 0, note: 60, velocity: 100 }]
            );
        }
        _ => panic!("expected a dispatch"),
    }
    let r = h
        .handle_raw_message(InputMessage::SoftwareMessage, &[0x81, 60, 0])
        .unwrap();
    match r {
        RawOutcome::Dispatched(out) => {
            assert!(out.to_software.is_empty());
            assert_eq!(out.to_controller.len(), 1);
        }
        _ => panic!("expected a dispatch"),
    }
    assert_eq!(
        h.get_state_manager().get_note_state_and_color(1, 60),
        Ok((false, 0))
    );
    assert_eq!(
        h.get_state_manager().get_note_state_and_color(0, 60),
        Ok((true, 0))
    );
}
