//! Laws of the dispatcher, proved over its transition functions: what
//! holds of whole event histories rather than of one call.

use vstd::prelude::*;
use crate::frame::FrameView;
use crate::handler::InputMessage;
use crate::handler::controller_step;
use crate::handler::dispatch_step;
use crate::handler::software_step;
use crate::led::led_frame_spec;
use crate::led::lemma_led_frame_wf;
use crate::mapping::MappingModel;
use crate::mapping::lemma_remap_spec_in_range;
use crate::mapping::remap_spec;
use crate::state::StateModel;
use crate::state::in_table;
use crate::BANK_COUNT;
use crate::BANK_SELECT_CONTROL;
use crate::NOTE_COUNT;

verus! {

/// Whether a tagged frame is a note event that the dispatcher drops with
/// a warning: a note-on or note-off whose relevant note - the remapped
/// note for the controller, the literal note for the software - is
/// outside the toggle set.
pub open spec fn non_toggle_note_event(m: MappingModel, source: InputMessage, f: FrameView) -> bool {
    match source {
        InputMessage::ControllerMessage => match f {
            FrameView::NoteOn { channel, note, velocity } => !m.toggle_notes.contains(
                remap_spec(m.note_map, channel as int, note),
            ),
            FrameView::NoteOff { channel, note, velocity } => !m.toggle_notes.contains(
                remap_spec(m.note_map, channel as int, note),
            ),
            _ => false,
        },
        InputMessage::SoftwareMessage => match f {
            FrameView::NoteOn { channel, note, velocity } => !m.toggle_notes.contains(note),
            FrameView::NoteOff { channel, note, velocity } => !m.toggle_notes.contains(note),
            _ => false,
        },
    }
}

/// The state store after a whole sequence of tagged frames has been
/// dispatched, first frame first.
pub open spec fn apply_events(
    m: MappingModel,
    s: StateModel,
    events: Seq<(InputMessage, FrameView)>,
) -> StateModel
    decreases events.len(),
{
    if events.len() == 0 {
        s
    } else {
        apply_events(m, dispatch_step(m, s, events[0].0, events[0].1).state, events.drop_first())
    }
}

/// One non-toggle note event leaves the state store exactly as it was,
/// and dispatching it succeeds (it is dropped with a warning).
pub proof fn lemma_non_toggle_event_preserves_store(
    m: MappingModel,
    s: StateModel,
    source: InputMessage,
    f: FrameView,
)
    requires
        non_toggle_note_event(m, source, f),
    ensures
        dispatch_step(m, s, source, f).state == s,
        dispatch_step(m, s, source, f).ok,
{
}

/// Law: notes outside the toggle set are never state-mutated. Any
/// sequence of note-on and note-off events from either source whose
/// notes fall outside the toggle set leaves every state store entry,
/// every color and the current bank unchanged.
pub proof fn lemma_non_toggle_events_never_mutate(
    m: MappingModel,
    s: StateModel,
    events: Seq<(InputMessage, FrameView)>,
)
    requires
        forall|i: int|
            0 <= i < events.len() ==> non_toggle_note_event(
                m,
                (#[trigger] events[i]).0,
                events[i].1,
            ),
    ensures
        apply_events(m, s, events) == s,
    decreases events.len(),
{
    if events.len() > 0 {
        lemma_non_toggle_event_preserves_store(m, s, events[0].0, events[0].1);
        let rest = events.drop_first();
        assert forall|i: int|
            0 <= i < rest.len() implies non_toggle_note_event(
            m,
            (#[trigger] rest[i]).0,
            rest[i].1,
        ) by {
            assert(rest[i] == events[i + 1]);
        }
        lemma_non_toggle_events_never_mutate(m, s, rest);
    }
}

/// Law: toggling is an involution. Two consecutive controller note-on
/// events for the same toggle note, at the same current bank, flip the
/// stored state twice and return the whole state store - entries, colors
/// and current bank - to its original value; both dispatches succeed.
pub proof fn lemma_controller_note_on_twice_restores(
    m: MappingModel,
    s: StateModel,
    channel: u8,
    note: u8,
    velocity: u8,
)
    requires
        m.wf(),
        s.wf(),
        note < NOTE_COUNT,
        m.toggle_notes.contains(remap_spec(m.note_map, channel as int, note)),
        s.bank < BANK_COUNT,
    ensures
        ({
            let f = FrameView::NoteOn { channel, note, velocity };
            let once = controller_step(m, s, f);
            let twice = controller_step(m, once.state, f);
            &&& once.ok
            &&& twice.ok
            &&& once.state.states[s.bank as int][remap_spec(m.note_map, channel as int, note) as int]
                == !s.states[s.bank as int][remap_spec(m.note_map, channel as int, note) as int]
            &&& twice.state == s
        }),
{
    lemma_remap_spec_in_range(m.note_map, channel as int, note);
    let f = FrameView::NoteOn { channel, note, velocity };
    let rn = remap_spec(m.note_map, channel as int, note);
    let b = s.bank as int;
    let once = controller_step(m, s, f);
    let twice = controller_step(m, once.state, f);
    assert(in_table(s.bank, rn));
    assert(twice.state.states[b] =~= s.states[b]);
    assert(twice.state.states =~= s.states);
    assert(twice.state == s);
}

/// Law: dispatching only emits well-formed frames. Whatever a successful
/// dispatch of a well-formed frame puts into either outbound direction
/// lies inside the wire domain, so every emitted frame can be encoded.
pub proof fn lemma_dispatch_outputs_wf(
    m: MappingModel,
    s: StateModel,
    source: InputMessage,
    f: FrameView,
)
    requires
        m.wf(),
        s.wf(),
        f.wf(),
    ensures
        ({
            let step = dispatch_step(m, s, source, f);
            &&& forall|i: int|
                0 <= i < step.output.to_software.len() ==> (#[trigger] step.output.to_software[i]).wf()
            &&& forall|i: int|
                0 <= i < step.output.to_controller.len() ==> (#[trigger] step.output.to_controller[i]).wf()
        }),
{
    let step = dispatch_step(m, s, source, f);
    match f {
        FrameView::NoteOn { channel, note, velocity } => {
            lemma_remap_spec_in_range(m.note_map, channel as int, note);
            let rn = remap_spec(m.note_map, channel as int, note);
            if source == InputMessage::ControllerMessage && m.toggle_notes.contains(rn)
                && in_table(s.bank, rn) {
                lemma_led_frame_wf(controller_step(m, s, f).state, s.bank, rn);
            }
            if source == InputMessage::SoftwareMessage && m.toggle_notes.contains(note)
                && in_table(channel, note) {
                lemma_led_frame_wf(software_step(m, s, f).state, channel, note);
            }
        },
        FrameView::NoteOff { channel, note, velocity } => {
            lemma_remap_spec_in_range(m.note_map, channel as int, note);
            let rn = remap_spec(m.note_map, channel as int, note);
            if source == InputMessage::ControllerMessage && m.toggle_notes.contains(rn)
                && in_table(s.bank, rn) {
                lemma_led_frame_wf(s, s.bank, rn);
            }
            if source == InputMessage::SoftwareMessage && m.toggle_notes.contains(note)
                && in_table(channel, note) {
                lemma_led_frame_wf(software_step(m, s, f).state, channel, note);
            }
        },
        FrameView::ControlChange { channel, control, value } => {
            if source == InputMessage::ControllerMessage {
                if control == crate::BANK_SELECT_CONTROL {
                    if channel != s.bank && crate::handler::refresh_ok(channel, m.toggle_notes) {
                        let s1 = s.with_bank(channel);
                        assert forall|i: int|
                            0 <= i < step.output.to_controller.len() implies (
                        #[trigger] step.output.to_controller[i]).wf() by {
                            lemma_led_frame_wf(s1, channel, m.toggle_notes[i]);
                        }
                    }
                } else {
                    lemma_remap_spec_in_range(m.control_map, channel as int, control);
                }
            }
        },
        FrameView::Other(bytes) => {},
    }
}

/// The note a LED refresh frame addresses.
pub open spec fn refreshed_note(f: FrameView) -> u8 {
    f->NoteOn_note
}

/// Law: a bank switch refreshes each toggle note exactly once. A
/// bank-select control change whose channel is a valid bank other than
/// the current one makes that channel current, leaves both tables
/// untouched, forwards nothing, and emits one LED refresh frame per note
/// of the toggle set - none skipped, none repeated.
pub proof fn lemma_bank_switch_refreshes_each_toggle_once(
    m: MappingModel,
    s: StateModel,
    c: u8,
    value: u8,
)
    requires
        m.wf(),
        s.wf(),
        c != s.bank,
        c < BANK_COUNT,
    ensures
        ({
            let f = FrameView::ControlChange { channel: c, control: BANK_SELECT_CONTROL, value };
            let step = controller_step(m, s, f);
            &&& step.ok
            &&& step.state.bank == c
            &&& step.state.states == s.states
            &&& step.state.colors == s.colors
            &&& step.output.to_software.len() == 0
            &&& step.output.to_controller.len() == m.toggle_notes.len()
            &&& forall|i: int|
                0 <= i < m.toggle_notes.len() ==> step.output.to_controller[i] == led_frame_spec(
                    step.state,
                    c,
                    #[trigger] m.toggle_notes[i],
                ) && refreshed_note(step.output.to_controller[i]) == m.toggle_notes[i]
            &&& forall|i: int, j: int|
                0 <= i < j < m.toggle_notes.len() ==> refreshed_note(
                    step.output.to_controller[i],
                ) != refreshed_note(step.output.to_controller[j])
            &&& forall|n: u8|
                m.toggle_notes.contains(n) ==> exists|i: int|
                    0 <= i < step.output.to_controller.len() && refreshed_note(
                        #[trigger] step.output.to_controller[i],
                    ) == n
        }),
{
    let f = FrameView::ControlChange { channel: c, control: BANK_SELECT_CONTROL, value };
    let step = controller_step(m, s, f);
    assert forall|i: int| 0 <= i < m.toggle_notes.len() implies in_table(
        c,
        #[trigger] m.toggle_notes[i],
    ) by {}
    assert forall|n: u8| m.toggle_notes.contains(n) implies exists|i: int|
        0 <= i < step.output.to_controller.len() && refreshed_note(
            #[trigger] step.output.to_controller[i],
        ) == n by {
        let w = choose|w: int| 0 <= w < m.toggle_notes.len() && m.toggle_notes[w] == n;
        assert(refreshed_note(step.output.to_controller[w]) == n);
    }
}

} // verus!
