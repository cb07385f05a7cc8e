use midi_router::Frame;
use midi_router::FrameParseError;
use midi_router::parse_frame;

#[test]
fn parse_note_on() {
    let r = parse_frame(&[0x90, 60, 100]);
    assert_eq!(r, Ok(Frame::NoteOn { channel: 0, note: 60, velocity: 100 }));
}

#[test]
fn parse_note_off() {
    let r = parse_frame(&[0x85, 10, 0]);
    assert_eq!(r, Ok(Frame::NoteOff { channel: 5, note: 10, velocity: 0 }));
}

#[test]
fn parse_control_change() {
    let r = parse_frame(&[0xB2, 16, 3]);
    assert_eq!(r, Ok(Frame::ControlChange { channel: 2, control: 16, value: 3 }));
}

#[test]
fn parse_other_passthrough() {
    let bytes = vec![0xF0u8, 1, 2, 3];
    let r = parse_frame(&bytes);
    assert_eq!(r, Ok(Frame::Other(bytes.clone())));
    // the opaque bytes come back unmodified on the wire
    let encoded = match r.unwrap() {
        Frame::Other(b) => Frame::Other(b).encode(),
        _ => unreachable!(),
    };
    assert_eq!(encoded, bytes);
}

#[test]
fn parse_empty_is_error() {
    assert_eq!(parse_frame(&[]), Err(FrameParseError::Empty));
}

#[test]
fn parse_missing_status_is_error() {
    assert_eq!(parse_frame(&[0x10, 2]), Err(FrameParseError::MissingStatus));
}

#[test]
fn parse_wrong_length_is_error() {
    assert_eq!(parse_frame(&[0x90, 60]), Err(FrameParseError::WrongLength));
    assert_eq!(parse_frame(&[0x90, 60, 100, 1]), Err(FrameParseError::WrongLength));
}

#[test]
fn parse_data_out_of_range_is_error() {
    assert_eq!(parse_frame(&[0x90, 200, 1]), Err(FrameParseError::DataOutOfRange));
    assert_eq!(parse_frame(&[0xB0, 16, 0xFF]), Err(FrameParseError::DataOutOfRange));
}

#[test]
fn encode_note_on() {
    let f = Frame::NoteOn { channel: 2, note: 60, velocity: 100 };
    assert_eq!(f.encode(), vec![0x92, 60, 100]);
}

#[test]
fn is_wf_bounds_the_wire_domain() {
    assert!(Frame::NoteOn { channel: 15, note: 127, velocity: 127 }.is_wf());
    assert!(!Frame::NoteOn { channel: 16, note: 0, velocity: 0 }.is_wf());
    assert!(!Frame::NoteOff { channel: 0, note: 128, velocity: 0 }.is_wf());
    assert!(!Frame::ControlChange { channel: 0, control: 0, value: 128 }.is_wf());
    assert!(Frame::Other(vec![0xF8]).is_wf());
    assert!(!Frame::Other(vec![]).is_wf());
    assert!(!Frame::Other(vec![0x90, 60, 100]).is_wf());
}

#[test]
fn encode_parse_roundtrip() {
    let frames = vec![
        Frame::NoteOn { channel: 0, note: 0, velocity: 127 },
        Frame::NoteOff { channel: 15, note: 127, velocity: 0 },
        Frame::ControlChange { channel: 7, control: 16, value: 64 },
    ];
    for f in frames {
        assert_eq!(parse_frame(&f.encode()), Ok(f));
    }
}
