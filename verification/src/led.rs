//! The LED emitter: renders state store entries into the note-on frames
//! that recreate the controller's visual state. The emitter only computes
//! frames; an outbound adapter transmits them and paces the transport.

use vstd::prelude::*;
use crate::frame::Frame;
use crate::frame::FrameView;
use crate::state::OutOfRangeError;
use crate::state::StateManager;
use crate::state::StateModel;
use crate::state::in_table;
use crate::LED_ACTIVE_VELOCITY;
use crate::LED_BLINK_CHANNEL;
use crate::LED_DEFAULT_CHANNEL;

verus! {

/// The frame that recreates the LED of (bank, note) from the store: the
/// active indicator on the blink channel while the note is toggled on,
/// otherwise the stored color on the default channel.
pub open spec fn led_frame_spec(s: StateModel, bank: u8, note: u8) -> FrameView {
    if s.states[bank as int][note as int] {
        FrameView::NoteOn {
            channel: LED_BLINK_CHANNEL,
            note,
            velocity: LED_ACTIVE_VELOCITY,
        }
    } else {
        FrameView::NoteOn {
            channel: LED_DEFAULT_CHANNEL,
            note,
            velocity: s.colors[bank as int][note as int],
        }
    }
}

/// A refresh frame over a well-formed store is itself well-formed, so it
/// can be encoded for the wire.
pub proof fn lemma_led_frame_wf(s: StateModel, bank: u8, note: u8)
    requires
        s.wf(),
        in_table(bank, note),
    ensures
        led_frame_spec(s, bank, note).wf(),
{
}

/// Renders state store entries into outbound LED frames.
pub struct LedController;

impl LedController {
    /// There is nothing to configure; the emission rule is fixed.
    pub fn new() -> (r: LedController)
    {
        LedController
    }

    /// Computes the refresh frame of one (bank, note) entry.
    pub fn refresh_single_led(&self, state_manager: &StateManager, bank: u8, note: u8) -> (r:
        Result<Frame, OutOfRangeError>)
        requires
            state_manager@.wf(),
        ensures
            in_table(bank, note) ==> (r matches Ok(f) && f@ == led_frame_spec(
                state_manager@,
                bank,
                note,
            ) && f@.wf()),
            !in_table(bank, note) ==> r == Err::<Frame, OutOfRangeError>(
                OutOfRangeError { bank, note },
            ),
    {
        let (state, color) = match state_manager.get_note_state_and_color(bank, note) {
            Ok(pair) => pair,
            Err(e) => {
                return Err(e);
            },
        };
        if state {
            Ok(
                Frame::NoteOn {
                    channel: LED_BLINK_CHANNEL,
                    note,
                    velocity: LED_ACTIVE_VELOCITY,
                },
            )
        } else {
            Ok(Frame::NoteOn { channel: LED_DEFAULT_CHANNEL, note, velocity: color })
        }
    }

    /// Computes the refresh frames of every note of `toggle_notes` at
    /// `bank`, one frame per listed note, in list order. Used after a
    /// bank switch.
    pub fn refresh_all_leds(&self, state_manager: &StateManager, bank: u8, toggle_notes: &Vec<
        u8,
    >) -> (r: Result<Vec<Frame>, OutOfRangeError>)
        requires
            state_manager@.wf(),
        ensures
            r is Ok <==> forall|i: int|
                0 <= i < toggle_notes@.len() ==> in_table(bank, #[trigger] toggle_notes@[i]),
            r matches Ok(frames) ==> frames@.len() == toggle_notes@.len() && forall|i: int|
                0 <= i < toggle_notes@.len() ==> (#[trigger] frames@[i])@ == led_frame_spec(
                    state_manager@,
                    bank,
                    toggle_notes@[i],
                ),
            r matches Err(e) ==> e.bank == bank,
    {
        let mut frames: Vec<Frame> = Vec::new();
        let n = toggle_notes.len();
        for i in 0..n
            invariant
                n == toggle_notes@.len(),
                state_manager@.wf(),
                frames@.len() == i,
                forall|j: int| 0 <= j < i ==> in_table(bank, #[trigger] toggle_notes@[j]),
                forall|j: int|
                    0 <= j < i ==> (#[trigger] frames@[j])@ == led_frame_spec(
                        state_manager@,
                        bank,
                        toggle_notes@[j],
                    ),
        {
            let note = toggle_notes[i];
            match self.refresh_single_led(state_manager, bank, note) {
                Ok(f) => {
                    frames.push(f);
                },
                Err(e) => {
                    proof {
                        assert(!in_table(bank, toggle_notes@[i as int]));
                    }
                    return Err(e);
                },
            }
        }
        Ok(frames)
    }
}

} // verus!
