//! Wire codec for the 1-3 byte MIDI frames the router exchanges with both
//! devices. A frame is either one of the three channel-voice kinds the
//! router interprets (note on, note off, control change) or an opaque byte
//! sequence that is passed through unmodified.

use vstd::prelude::*;
use vstd::slice::slice_to_vec;
use crate::CHANNEL_COUNT;
use crate::NOTE_COUNT;

verus! {

/// One inbound or outbound MIDI wire unit, already classified.
#[derive(Clone, Debug, PartialEq, Eq)]
pub enum Frame {
    NoteOn { channel: u8, note: u8, velocity: u8 },
    NoteOff { channel: u8, note: u8, velocity: u8 },
    ControlChange { channel: u8, control: u8, value: u8 },
    Other(Vec<u8>),
}

/// Mathematical model of a `Frame`.
pub ghost enum FrameView {
    NoteOn { channel: u8, note: u8, velocity: u8 },
    NoteOff { channel: u8, note: u8, velocity: u8 },
    ControlChange { channel: u8, control: u8, value: u8 },
    Other(Seq<u8>),
}

impl View for Frame {
    type V = FrameView;

    open spec fn view(&self) -> FrameView {
        match self {
            Frame::NoteOn { channel, note, velocity } => FrameView::NoteOn {
                channel: *channel,
                note: *note,
                velocity: *velocity,
            },
            Frame::NoteOff { channel, note, velocity } => FrameView::NoteOff {
                channel: *channel,
                note: *note,
                velocity: *velocity,
            },
            Frame::ControlChange { channel, control, value } => FrameView::ControlChange {
                channel: *channel,
                control: *control,
                value: *value,
            },
            Frame::Other(bytes) => FrameView::Other(bytes@),
        }
    }
}

/// Why a byte sequence could not be decoded into a `Frame`.
#[derive(Clone, Copy, Debug, PartialEq, Eq, Structural)]
pub enum FrameParseError {
    /// No bytes at all.
    Empty,
    /// The first byte is not a status byte.
    MissingStatus,
    /// A channel-voice status arrived with other than two data bytes.
    WrongLength,
    /// A data byte of a channel-voice message is above the 7-bit range.
    DataOutOfRange,
}

/// The status bytes that are decoded into a structured frame: note off
/// (high nibble 8), note on (high nibble 9) and control change (high
/// nibble 11). Every other status is carried opaquely.
pub open spec fn is_decoded_status(b: u8) -> bool {
    b / 16 == 8 || b / 16 == 9 || b / 16 == 11
}

impl FrameView {
    /// Domain bounds of a well-formed frame: channels are 4-bit, data
    /// bytes 7-bit, and opaque frames start with an undecoded status byte.
    pub open spec fn wf(self) -> bool {
        match self {
            FrameView::NoteOn { channel, note, velocity } => channel < CHANNEL_COUNT && note
                < NOTE_COUNT && velocity < NOTE_COUNT,
            FrameView::NoteOff { channel, note, velocity } => channel < CHANNEL_COUNT && note
                < NOTE_COUNT && velocity < NOTE_COUNT,
            FrameView::ControlChange { channel, control, value } => channel < CHANNEL_COUNT
                && control < NOTE_COUNT && value < NOTE_COUNT,
            FrameView::Other(bytes) => bytes.len() >= 1 && bytes[0] >= 128 && !is_decoded_status(
                bytes[0],
            ),
        }
    }
}

/// What decoding a byte sequence yields: the wire grammar of the router.
pub open spec fn parse_spec(bytes: Seq<u8>) -> Result<FrameView, FrameParseError> {
    if bytes.len() == 0 {
        Err(FrameParseError::Empty)
    } else if bytes[0] < 128 {
        Err(FrameParseError::MissingStatus)
    } else if !is_decoded_status(bytes[0]) {
        Ok(FrameView::Other(bytes))
    } else if bytes.len() != 3 {
        Err(FrameParseError::WrongLength)
    } else if bytes[1] >= 128 || bytes[2] >= 128 {
        Err(FrameParseError::DataOutOfRange)
    } else if bytes[0] / 16 == 8 {
        Ok(
            FrameView::NoteOff {
                channel: (bytes[0] % 16) as u8,
                note: bytes[1],
                velocity: bytes[2],
            },
        )
    } else if bytes[0] / 16 == 9 {
        Ok(
            FrameView::NoteOn {
                channel: (bytes[0] % 16) as u8,
                note: bytes[1],
                velocity: bytes[2],
            },
        )
    } else {
        Ok(
            FrameView::ControlChange {
                channel: (bytes[0] % 16) as u8,
                control: bytes[1],
                value: bytes[2],
            },
        )
    }
}

/// What encoding a frame yields, inverse of `parse_spec` on decoded kinds.
pub open spec fn encode_spec(f: FrameView) -> Seq<u8> {
    match f {
        FrameView::NoteOff { channel, note, velocity } => seq![
            (128 + channel) as u8,
            note,
            velocity,
        ],
        FrameView::NoteOn { channel, note, velocity } => seq![
            (144 + channel) as u8,
            note,
            velocity,
        ],
        FrameView::ControlChange { channel, control, value } => seq![
            (176 + channel) as u8,
            control,
            value,
        ],
        FrameView::Other(bytes) => bytes,
    }
}

/// A parse result with the frame replaced by its model, for contracts.
pub open spec fn parse_result_view(r: Result<Frame, FrameParseError>) -> Result<
    FrameView,
    FrameParseError,
> {
    match r {
        Ok(f) => Ok(f@),
        Err(e) => Err(e),
    }
}

/// Decodes raw bytes delivered by an inbound adapter into a frame.
pub fn parse_frame(bytes: &[u8]) -> (r: Result<Frame, FrameParseError>)
    ensures
        parse_result_view(r) == parse_spec(bytes@),
        r is Ok ==> r->Ok_0@.wf(),
{
    if bytes.len() == 0 {
        return Err(FrameParseError::Empty);
    }
    let status = bytes[0];
    if status < 128 {
        return Err(FrameParseError::MissingStatus);
    }
    let kind = status / 16;
    let channel = status % 16;
    if !(kind == 8 || kind == 9 || kind == 11) {
        return Ok(Frame::Other(slice_to_vec(bytes)));
    }
    if bytes.len() != 3 {
        return Err(FrameParseError::WrongLength);
    }
    let d1 = bytes[1];
    let d2 = bytes[2];
    if d1 >= 128 || d2 >= 128 {
        return Err(FrameParseError::DataOutOfRange);
    }
    if kind == 8 {
        Ok(Frame::NoteOff { channel, note: d1, velocity: d2 })
    } else if kind == 9 {
        Ok(Frame::NoteOn { channel, note: d1, velocity: d2 })
    } else {
        Ok(Frame::ControlChange { channel, control: d1, value: d2 })
    }
}

impl Frame {
    /// Whether the frame lies inside the wire domain `FrameView::wf`
    /// states, so that it can be encoded.
    pub fn is_wf(&self) -> (r: bool)
        ensures
            r == self@.wf(),
    {
        match self {
            Frame::NoteOn { channel, note, velocity } => *channel < CHANNEL_COUNT && *note
                < NOTE_COUNT && *velocity < NOTE_COUNT,
            Frame::NoteOff { channel, note, velocity } => *channel < CHANNEL_COUNT && *note
                < NOTE_COUNT && *velocity < NOTE_COUNT,
            Frame::ControlChange { channel, control, value } => *channel < CHANNEL_COUNT
                && *control < NOTE_COUNT && *value < NOTE_COUNT,
            Frame::Other(bytes) => {
                if bytes.len() == 0 {
                    false
                } else {
                    let status = bytes[0];
                    let kind = status / 16;
                    status >= 128 && !(kind == 8 || kind == 9 || kind == 11)
                }
            },
        }
    }

    /// Encodes the frame back into the bytes an outbound adapter transmits.
    pub fn encode(&self) -> (r: Vec<u8>)
        requires
            self@.wf(),
        ensures
            r@ == encode_spec(self@),
    {
        match self {
            Frame::NoteOff { channel, note, velocity } => {
                let mut out: Vec<u8> = Vec::new();
                out.push(128 + *channel);
                out.push(*note);
                out.push(*velocity);
                proof {
                    assert(out@ =~= encode_spec(self@));
                }
                out
            },
            Frame::NoteOn { channel, note, velocity } => {
                let mut out: Vec<u8> = Vec::new();
                out.push(144 + *channel);
                out.push(*note);
                out.push(*velocity);
                proof {
                    assert(out@ =~= encode_spec(self@));
                }
                out
            },
            Frame::ControlChange { channel, control, value } => {
                let mut out: Vec<u8> = Vec::new();
                out.push(176 + *channel);
                out.push(*control);
                out.push(*value);
                proof {
                    assert(out@ =~= encode_spec(self@));
                }
                out
            },
            Frame::Other(bytes) => slice_to_vec(bytes.as_slice()),
        }
    }
}

/// Law: decoding inverts encoding. Any well-formed frame that is encoded
/// and decoded again comes back unchanged, so nothing is lost between the
/// router's view of a frame and its wire form.
pub proof fn lemma_encode_parse_roundtrip(f: FrameView)
    requires
        f.wf(),
    ensures
        parse_spec(encode_spec(f)) == Ok::<FrameView, FrameParseError>(f),
{
    match f {
        FrameView::NoteOff { channel, note, velocity } => {
            let b = encode_spec(f);
            assert(b[0] == 128 + channel);
            assert(b[0] / 16 == 8 && b[0] % 16 == channel) by (nonlinear_arith)
                requires
                    b[0] == 128 + channel && channel < 16,
            ;
        },
        FrameView::NoteOn { channel, note, velocity } => {
            let b = encode_spec(f);
            assert(b[0] == 144 + channel);
            assert(b[0] / 16 == 9 && b[0] % 16 == channel) by (nonlinear_arith)
                requires
                    b[0] == 144 + channel && channel < 16,
            ;
        },
        FrameView::ControlChange { channel, control, value } => {
            let b = encode_spec(f);
            assert(b[0] == 176 + channel);
            assert(b[0] / 16 == 11 && b[0] % 16 == channel) by (nonlinear_arith)
                requires
                    b[0] == 176 + channel && channel < 16,
            ;
        },
        FrameView::Other(bytes) => {},
    }
}

} // verus!
