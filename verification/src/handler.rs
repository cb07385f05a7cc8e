//! The dispatcher: a per-frame transition function over the state store,
//! keyed by the current bank. It classifies each inbound frame by source,
//! applies the remap rules, mutates the store, derives LED refresh frames
//! and decides what is forwarded where. The transition itself is given as
//! spec functions (`controller_step`, `software_step`); the executable
//! handler is proved to implement them.

use vstd::prelude::*;
use crate::frame::Frame;
use crate::frame::FrameParseError;
use crate::frame::FrameView;
use crate::frame::parse_frame;
use crate::frame::parse_spec;
use crate::led::LedController;
use crate::led::led_frame_spec;
use crate::mapping::MappingConfig;
use crate::mapping::MappingModel;
use crate::mapping::lemma_remap_spec_in_range;
use crate::mapping::remap_spec;
use crate::state::OutOfRangeError;
use crate::state::StateManager;
use crate::state::StateModel;
use crate::state::in_table;
use crate::BANK_SELECT_CONTROL;
use crate::CHANNEL_COUNT;

verus! {

/// The source a frame was delivered from.
#[derive(Clone, Copy, Debug, PartialEq, Eq, Structural)]
pub enum InputMessage {
    /// The frame arrived from the hardware controller.
    ControllerMessage,
    /// The frame arrived from the software application.
    SoftwareMessage,
}

/// A log-worthy condition observed while dispatching; the frame involved
/// was dropped rather than processed.
#[derive(Clone, Copy, Debug, PartialEq, Eq, Structural)]
pub enum Warning {
    /// A controller note-on for a note outside the toggle set.
    ControllerOnNonToggle { note: u8 },
    /// A controller note-off for a note outside the toggle set.
    ControllerOffNonToggle { note: u8 },
    /// A software note-on for a note outside the toggle set.
    SoftwareOnNonToggle { note: u8 },
    /// A software note-off for a note outside the toggle set.
    SoftwareOffNonToggle { note: u8 },
}

/// Everything dispatching one frame emits: frames for the software
/// outbound adapter, LED frames for the controller outbound adapter, and
/// warnings for the log stream.
#[derive(Clone, Debug, PartialEq, Eq)]
pub struct DispatchOutput {
    pub to_software: Vec<Frame>,
    pub to_controller: Vec<Frame>,
    pub warnings: Vec<Warning>,
}

/// Mathematical model of a dispatch output.
pub ghost struct DispatchModel {
    pub to_software: Seq<FrameView>,
    pub to_controller: Seq<FrameView>,
    pub warnings: Seq<Warning>,
}

impl View for DispatchOutput {
    type V = DispatchModel;

    open spec fn view(&self) -> DispatchModel {
        DispatchModel {
            to_software: Seq::new(self.to_software@.len(), |i: int| self.to_software@[i]@),
            to_controller: Seq::new(self.to_controller@.len(), |i: int| self.to_controller@[i]@),
            warnings: self.warnings@,
        }
    }
}

/// An output with nothing in it.
pub open spec fn empty_output() -> DispatchModel {
    DispatchModel {
        to_software: Seq::<FrameView>::empty(),
        to_controller: Seq::<FrameView>::empty(),
        warnings: Seq::<Warning>::empty(),
    }
}

/// An output holding one warning and no frames.
pub open spec fn warn_output(w: Warning) -> DispatchModel {
    DispatchModel {
        to_software: Seq::<FrameView>::empty(),
        to_controller: Seq::<FrameView>::empty(),
        warnings: seq![w],
    }
}

/// The outcome of dispatching one frame at the model level: the state
/// store afterwards, the output, and whether the dispatch succeeded.
/// `ok == false` models the defensive out-of-range failure; the state
/// field still records what had already been applied by then.
pub ghost struct StepModel {
    pub state: StateModel,
    pub output: DispatchModel,
    pub ok: bool,
}

/// A successful step.
pub open spec fn step_ok(state: StateModel, output: DispatchModel) -> StepModel {
    StepModel { state, output, ok: true }
}

/// A failed step: nothing is emitted.
pub open spec fn step_fail(state: StateModel) -> StepModel {
    StepModel { state, output: empty_output(), ok: false }
}

/// Whether a refresh of every note of `toggle_notes` at `bank` stays
/// inside the dense tables.
pub open spec fn refresh_ok(bank: u8, toggle_notes: Seq<u8>) -> bool {
    forall|i: int| 0 <= i < toggle_notes.len() ==> in_table(bank, #[trigger] toggle_notes[i])
}

/// The LED frames of a full refresh: one per toggle note, in set order.
pub open spec fn refresh_frames(s: StateModel, bank: u8, toggle_notes: Seq<u8>) -> Seq<FrameView> {
    Seq::new(toggle_notes.len(), |i: int| led_frame_spec(s, bank, toggle_notes[i]))
}

/// The bank-switch transition: a bank-select control change whose channel
/// differs from the current bank selects that channel as the new bank and
/// refreshes every toggle note's LED there; one for the current bank does
/// nothing. Bank-select frames are never forwarded.
pub open spec fn site_change_step(m: MappingModel, s: StateModel, channel: u8) -> StepModel {
    if channel == s.bank {
        step_ok(s, empty_output())
    } else {
        let s1 = s.with_bank(channel);
        if refresh_ok(channel, m.toggle_notes) {
            step_ok(
                s1,
                DispatchModel {
                    to_software: Seq::<FrameView>::empty(),
                    to_controller: refresh_frames(s1, channel, m.toggle_notes),
                    warnings: Seq::<Warning>::empty(),
                },
            )
        } else {
            step_fail(s1)
        }
    }
}

/// The transition for a frame from the controller.
///
/// Note-ons of toggle notes (after remapping by the frame's channel) flip
/// the stored state at the current bank, are forwarded to the software on
/// the current bank, and refresh that note's LED; note-offs only refresh
/// the LED. Either kind is dropped with a warning when the remapped note
/// is not a toggle note. Non-bank-select control changes are remapped and
/// forwarded on the current bank. Anything else passes through opaquely.
pub open spec fn controller_step(m: MappingModel, s: StateModel, f: FrameView) -> StepModel {
    match f {
        FrameView::ControlChange { channel, control, value } => {
            if control == BANK_SELECT_CONTROL {
                site_change_step(m, s, channel)
            } else {
                let rc = remap_spec(m.control_map, channel as int, control);
                step_ok(
                    s,
                    DispatchModel {
                        to_software: seq![
                            FrameView::ControlChange { channel: s.bank, control: rc, value },
                        ],
                        to_controller: Seq::<FrameView>::empty(),
                        warnings: Seq::<Warning>::empty(),
                    },
                )
            }
        },
        FrameView::NoteOn { channel, note, velocity } => {
            let rn = remap_spec(m.note_map, channel as int, note);
            if m.toggle_notes.contains(rn) {
                if in_table(s.bank, rn) {
                    let s1 = s.with_state(
                        s.bank as int,
                        rn as int,
                        !s.states[s.bank as int][rn as int],
                    );
                    step_ok(
                        s1,
                        DispatchModel {
                            to_software: seq![
                                FrameView::NoteOn { channel: s.bank, note: rn, velocity },
                            ],
                            to_controller: seq![led_frame_spec(s1, s.bank, rn)],
                            warnings: Seq::<Warning>::empty(),
                        },
                    )
                } else {
                    step_fail(s)
                }
            } else {
                step_ok(s, warn_output(Warning::ControllerOnNonToggle { note: rn }))
            }
        },
        FrameView::NoteOff { channel, note, velocity } => {
            let rn = remap_spec(m.note_map, channel as int, note);
            if m.toggle_notes.contains(rn) {
                if in_table(s.bank, rn) {
                    step_ok(
                        s,
                        DispatchModel {
                            to_software: Seq::<FrameView>::empty(),
                            to_controller: seq![led_frame_spec(s, s.bank, rn)],
                            warnings: Seq::<Warning>::empty(),
                        },
                    )
                } else {
                    step_fail(s)
                }
            } else {
                step_ok(s, warn_output(Warning::ControllerOffNonToggle { note: rn }))
            }
        },
        FrameView::Other(bytes) => {
            step_ok(
                s,
                DispatchModel {
                    to_software: seq![FrameView::Other(bytes)],
                    to_controller: Seq::<FrameView>::empty(),
                    warnings: Seq::<Warning>::empty(),
                },
            )
        },
    }
}

/// The transition for a frame from the software.
///
/// Note-ons of toggle notes store state true and the velocity as color at
/// (channel, note) and refresh that LED; note-offs store state false and
/// refresh. Either kind warns and does nothing for non-toggle notes.
/// Control changes and opaque frames are ignored.
pub open spec fn software_step(m: MappingModel, s: StateModel, f: FrameView) -> StepModel {
    match f {
        FrameView::NoteOn { channel, note, velocity } => {
            if m.toggle_notes.contains(note) {
                if in_table(channel, note) {
                    let s1 = s.with_state(channel as int, note as int, true).with_color(
                        channel as int,
                        note as int,
                        velocity,
                    );
                    step_ok(
                        s1,
                        DispatchModel {
                            to_software: Seq::<FrameView>::empty(),
                            to_controller: seq![led_frame_spec(s1, channel, note)],
                            warnings: Seq::<Warning>::empty(),
                        },
                    )
                } else {
                    step_fail(s)
                }
            } else {
                step_ok(s, warn_output(Warning::SoftwareOnNonToggle { note }))
            }
        },
        FrameView::NoteOff { channel, note, velocity } => {
            if m.toggle_notes.contains(note) {
                if in_table(channel, note) {
                    let s1 = s.with_state(channel as int, note as int, false);
                    step_ok(
                        s1,
                        DispatchModel {
                            to_software: Seq::<FrameView>::empty(),
                            to_controller: seq![led_frame_spec(s1, channel, note)],
                            warnings: Seq::<Warning>::empty(),
                        },
                    )
                } else {
                    step_fail(s)
                }
            } else {
                step_ok(s, warn_output(Warning::SoftwareOffNonToggle { note }))
            }
        },
        FrameView::ControlChange { channel, control, value } => step_ok(s, empty_output()),
        FrameView::Other(bytes) => step_ok(s, empty_output()),
    }
}

/// The single dispatch entry point at the model level, keyed by source.
pub open spec fn dispatch_step(
    m: MappingModel,
    s: StateModel,
    source: InputMessage,
    f: FrameView,
) -> StepModel {
    match source {
        InputMessage::ControllerMessage => controller_step(m, s, f),
        InputMessage::SoftwareMessage => software_step(m, s, f),
    }
}

/// What became of one raw inbound payload.
#[derive(Clone, Debug, PartialEq, Eq)]
pub enum RawOutcome {
    /// The payload was empty; inbound adapters deliver such payloads and
    /// they mean nothing.
    Ignored,
    /// The bytes did not decode into a frame; the payload is dropped and
    /// the error is worth a log line.
    ParseFailed(FrameParseError),
    /// The decoded frame was dispatched.
    Dispatched(DispatchOutput),
}

/// The table could not serve as a mapping table of this router.
#[derive(Clone, Copy, Debug, PartialEq, Eq, Structural)]
pub enum ConfigError {
    /// A toggle note or replacement is outside the 7-bit domain, or a
    /// toggle note is listed twice.
    MalformedMapping,
}

/// Mathematical model of the dispatcher: its mapping table and its state
/// store.
pub ghost struct HandlerModel {
    pub mapping: MappingModel,
    pub state: StateModel,
}

impl HandlerModel {
    /// Validity of both halves.
    pub open spec fn wf(self) -> bool {
        self.mapping.wf() && self.state.wf()
    }
}

/// The dispatcher of one router generation: owns the generation's state
/// store, mapping table and LED emitter.
pub struct MidiHandler {
    state_manager: StateManager,
    mapping_config: MappingConfig,
    led_controller: LedController,
}

impl View for MidiHandler {
    type V = HandlerModel;

    closed spec fn view(&self) -> HandlerModel {
        HandlerModel { mapping: self.mapping_config@, state: self.state_manager@ }
    }
}

impl MidiHandler {
    /// Builds a dispatcher over a fresh state store. The mapping table is
    /// validated here, once per generation: a malformed table is rejected
    /// rather than silently mis-dispatching later.
    pub fn new(config: MappingConfig) -> (r: Result<MidiHandler, ConfigError>)
        ensures
            r is Ok <==> config@.wf(),
            r matches Ok(h) ==> h@.mapping == config@ && h@.state == StateModel::initial()
                && h@.wf(),
            r matches Err(e) ==> e == ConfigError::MalformedMapping,
    {
        if !config.is_wf() {
            return Err(ConfigError::MalformedMapping);
        }
        Ok(
            MidiHandler {
                state_manager: StateManager::new(),
                mapping_config: config,
                led_controller: LedController::new(),
            },
        )
    }

    /// Read access to the state store, for display collaborators.
    pub fn get_state_manager(&self) -> (r: &StateManager)
        ensures
            r@ == self@.state,
    {
        &self.state_manager
    }

    /// Dispatches one frame from the hardware controller, implementing
    /// `controller_step`.
    pub fn handle_controller_msg(&mut self, msg: Frame) -> (r: Result<
        DispatchOutput,
        OutOfRangeError,
    >)
        requires
            old(self)@.wf(),
            msg@.wf(),
        ensures
            final(self)@.wf(),
            final(self)@.mapping == old(self)@.mapping,
            final(self)@.state == controller_step(old(self)@.mapping, old(self)@.state, msg@).state,
            r is Ok <==> controller_step(old(self)@.mapping, old(self)@.state, msg@).ok,
            r matches Ok(out) ==> out@ == controller_step(
                old(self)@.mapping,
                old(self)@.state,
                msg@,
            ).output,
    {
        match msg {
            Frame::ControlChange { channel, control, value } => {
                if control == BANK_SELECT_CONTROL {
                    self.handle_site_change(channel)
                } else {
                    let bank = self.state_manager.get_current_bank();
                    let rc = self.mapping_config.remap_control(channel, control);
                    let mut to_software: Vec<Frame> = Vec::new();
                    to_software.push(Frame::ControlChange { channel: bank, control: rc, value });
                    let out = DispatchOutput {
                        to_software,
                        to_controller: Vec::new(),
                        warnings: Vec::new(),
                    };
                    proof {
                        let step = controller_step(old(self)@.mapping, old(self)@.state, msg@);
                        assert(out@.to_software =~= step.output.to_software);
                        assert(out@.to_controller =~= step.output.to_controller);
                        assert(out@.warnings =~= step.output.warnings);
                    }
                    Ok(out)
                }
            },
            Frame::NoteOn { channel, note, velocity } => {
                let rn = self.mapping_config.remap_note(channel, note);
                if self.mapping_config.is_toggle_note(rn) {
                    proof {
                        lemma_remap_spec_in_range(self@.mapping.note_map, channel as int, note);
                    }
                    let bank = self.state_manager.get_current_bank();
                    match self.state_manager.toggle_note_state(bank, rn) {
                        Ok(_) => {
                            let led = match self.led_controller.refresh_single_led(
                                &self.state_manager,
                                bank,
                                rn,
                            ) {
                                Ok(f) => f,
                                Err(e) => {
                                    proof {
                                        assert(false);
                                    }
                                    return Err(e);
                                },
                            };
                            let mut to_software: Vec<Frame> = Vec::new();
                            to_software.push(Frame::NoteOn { channel: bank, note: rn, velocity });
                            let mut to_controller: Vec<Frame> = Vec::new();
                            to_controller.push(led);
                            let out = DispatchOutput {
                                to_software,
                                to_controller,
                                warnings: Vec::new(),
                            };
                            proof {
                                let step = controller_step(
                                    old(self)@.mapping,
                                    old(self)@.state,
                                    msg@,
                                );
                                assert(out@.to_software =~= step.output.to_software);
                                assert(out@.to_controller =~= step.output.to_controller);
                                assert(out@.warnings =~= step.output.warnings);
                            }
                            Ok(out)
                        },
                        Err(e) => Err(e),
                    }
                } else {
                    let mut warnings: Vec<Warning> = Vec::new();
                    warnings.push(Warning::ControllerOnNonToggle { note: rn });
                    let out = DispatchOutput {
                        to_software: Vec::new(),
                        to_controller: Vec::new(),
                        warnings,
                    };
                    proof {
                        let step = controller_step(old(self)@.mapping, old(self)@.state, msg@);
                        assert(out@.to_software =~= step.output.to_software);
                        assert(out@.to_controller =~= step.output.to_controller);
                        assert(out@.warnings =~= step.output.warnings);
                    }
                    Ok(out)
                }
            },
            Frame::NoteOff { channel, note, velocity } => {
                let rn = self.mapping_config.remap_note(channel, note);
                if self.mapping_config.is_toggle_note(rn) {
                    proof {
                        lemma_remap_spec_in_range(self@.mapping.note_map, channel as int, note);
                    }
                    let bank = self.state_manager.get_current_bank();
                    match self.led_controller.refresh_single_led(&self.state_manager, bank, rn) {
                        Ok(led) => {
                            let mut to_controller: Vec<Frame> = Vec::new();
                            to_controller.push(led);
                            let out = DispatchOutput {
                                to_software: Vec::new(),
                                to_controller,
                                warnings: Vec::new(),
                            };
                            proof {
                                let step = controller_step(
                                    old(self)@.mapping,
                                    old(self)@.state,
                                    msg@,
                                );
                                assert(out@.to_software =~= step.output.to_software);
                                assert(out@.to_controller =~= step.output.to_controller);
                                assert(out@.warnings =~= step.output.warnings);
                            }
                            Ok(out)
                        },
                        Err(e) => Err(e),
                    }
                } else {
                    let mut warnings: Vec<Warning> = Vec::new();
                    warnings.push(Warning::ControllerOffNonToggle { note: rn });
                    let out = DispatchOutput {
                        to_software: Vec::new(),
                        to_controller: Vec::new(),
                        warnings,
                    };
                    proof {
                        let step = controller_step(old(self)@.mapping, old(self)@.state, msg@);
                        assert(out@.to_software =~= step.output.to_software);
                        assert(out@.to_controller =~= step.output.to_controller);
                        assert(out@.warnings =~= step.output.warnings);
                    }
                    Ok(out)
                }
            },
            Frame::Other(bytes) => {
                let mut to_software: Vec<Frame> = Vec::new();
                to_software.push(Frame::Other(bytes));
                let out = DispatchOutput {
                    to_software,
                    to_controller: Vec::new(),
                    warnings: Vec::new(),
                };
                proof {
                    let step = controller_step(old(self)@.mapping, old(self)@.state, msg@);
                    assert(out@.to_software =~= step.output.to_software);
                    assert(out@.to_controller =~= step.output.to_controller);
                    assert(out@.warnings =~= step.output.warnings);
                }
                Ok(out)
            },
        }
    }

    /// Dispatches one frame from the software, implementing
    /// `software_step`.
    pub fn handle_software_msg(&mut self, msg: Frame) -> (r: Result<
        DispatchOutput,
        OutOfRangeError,
    >)
        requires
            old(self)@.wf(),
            msg@.wf(),
        ensures
            final(self)@.wf(),
            final(self)@.mapping == old(self)@.mapping,
            final(self)@.state == software_step(old(self)@.mapping, old(self)@.state, msg@).state,
            r is Ok <==> software_step(old(self)@.mapping, old(self)@.state, msg@).ok,
            r matches Ok(out) ==> out@ == software_step(
                old(self)@.mapping,
                old(self)@.state,
                msg@,
            ).output,
    {
        match msg {
            Frame::NoteOn { channel, note, velocity } => {
                if self.mapping_config.is_toggle_note(note) {
                    match self.state_manager.set_note_state(channel, note, true) {
                        Ok(_) => {
                            match self.state_manager.set_note_color(channel, note, velocity) {
                                Ok(_) => {},
                                Err(e) => {
                                    proof {
                                        assert(false);
                                    }
                                    return Err(e);
                                },
                            }
                            let led = match self.led_controller.refresh_single_led(
                                &self.state_manager,
                                channel,
                                note,
                            ) {
                                Ok(f) => f,
                                Err(e) => {
                                    proof {
                                        assert(false);
                                    }
                                    return Err(e);
                                },
                            };
                            let mut to_controller: Vec<Frame> = Vec::new();
                            to_controller.push(led);
                            let out = DispatchOutput {
                                to_software: Vec::new(),
                                to_controller,
                                warnings: Vec::new(),
                            };
                            proof {
                                let step = software_step(
                                    old(self)@.mapping,
                                    old(self)@.state,
                                    msg@,
                                );
                                assert(out@.to_software =~= step.output.to_software);
                                assert(out@.to_controller =~= step.output.to_controller);
                                assert(out@.warnings =~= step.output.warnings);
                            }
                            Ok(out)
                        },
                        Err(e) => Err(e),
                    }
                } else {
                    let mut warnings: Vec<Warning> = Vec::new();
                    warnings.push(Warning::SoftwareOnNonToggle { note });
                    let out = DispatchOutput {
                        to_software: Vec::new(),
                        to_controller: Vec::new(),
                        warnings,
                    };
                    proof {
                        let step = software_step(old(self)@.mapping, old(self)@.state, msg@);
                        assert(out@.to_software =~= step.output.to_software);
                        assert(out@.to_controller =~= step.output.to_controller);
                        assert(out@.warnings =~= step.output.warnings);
                    }
                    Ok(out)
                }
            },
            Frame::NoteOff { channel, note, velocity } => {
                if self.mapping_config.is_toggle_note(note) {
                    match self.state_manager.set_note_state(channel, note, false) {
                        Ok(_) => {
                            let led = match self.led_controller.refresh_single_led(
                                &self.state_manager,
                                channel,
                                note,
                            ) {
                                Ok(f) => f,
                                Err(e) => {
                                    proof {
                                        assert(false);
                                    }
                                    return Err(e);
                                },
                            };
                            let mut to_controller: Vec<Frame> = Vec::new();
                            to_controller.push(led);
                            let out = DispatchOutput {
                                to_software: Vec::new(),
                                to_controller,
                                warnings: Vec::new(),
                            };
                            proof {
                                let step = software_step(
                                    old(self)@.mapping,
                                    old(self)@.state,
                                    msg@,
                                );
                                assert(out@.to_software =~= step.output.to_software);
                                assert(out@.to_controller =~= step.output.to_controller);
                                assert(out@.warnings =~= step.output.warnings);
                            }
                            Ok(out)
                        },
                        Err(e) => Err(e),
                    }
                } else {
                    let mut warnings: Vec<Warning> = Vec::new();
                    warnings.push(Warning::SoftwareOffNonToggle { note });
                    let out = DispatchOutput {
                        to_software: Vec::new(),
                        to_controller: Vec::new(),
                        warnings,
                    };
                    proof {
                        let step = software_step(old(self)@.mapping, old(self)@.state, msg@);
                        assert(out@.to_software =~= step.output.to_software);
                        assert(out@.to_controller =~= step.output.to_controller);
                        assert(out@.warnings =~= step.output.warnings);
                    }
                    Ok(out)
                }
            },
            Frame::ControlChange { channel, control, value } => {
                let out = DispatchOutput {
                    to_software: Vec::new(),
                    to_controller: Vec::new(),
                    warnings: Vec::new(),
                };
                proof {
                    let step = software_step(old(self)@.mapping, old(self)@.state, msg@);
                    assert(out@.to_software =~= step.output.to_software);
                    assert(out@.to_controller =~= step.output.to_controller);
                    assert(out@.warnings =~= step.output.warnings);
                }
                Ok(out)
            },
            Frame::Other(bytes) => {
                let out = DispatchOutput {
                    to_software: Vec::new(),
                    to_controller: Vec::new(),
                    warnings: Vec::new(),
                };
                proof {
                    let step = software_step(old(self)@.mapping, old(self)@.state, msg@);
                    assert(out@.to_software =~= step.output.to_software);
                    assert(out@.to_controller =~= step.output.to_controller);
                    assert(out@.warnings =~= step.output.warnings);
                }
                Ok(out)
            },
        }
    }

    /// Dispatches one tagged frame: the single entry point both inbound
    /// adapters feed, implementing `dispatch_step`.
    pub fn handle_msg(&mut self, source: InputMessage, msg: Frame) -> (r: Result<
        DispatchOutput,
        OutOfRangeError,
    >)
        requires
            old(self)@.wf(),
            msg@.wf(),
        ensures
            final(self)@.wf(),
            final(self)@.mapping == old(self)@.mapping,
            final(self)@.state == dispatch_step(
                old(self)@.mapping,
                old(self)@.state,
                source,
                msg@,
            ).state,
            r is Ok <==> dispatch_step(old(self)@.mapping, old(self)@.state, source, msg@).ok,
            r matches Ok(out) ==> out@ == dispatch_step(
                old(self)@.mapping,
                old(self)@.state,
                source,
                msg@,
            ).output,
    {
        match source {
            InputMessage::ControllerMessage => self.handle_controller_msg(msg),
            InputMessage::SoftwareMessage => self.handle_software_msg(msg),
        }
    }

    /// Dispatches one raw payload as an inbound adapter delivers it: an
    /// empty payload is ignored, bytes that do not decode are dropped
    /// with their parse error reported, and a decoded frame goes through
    /// `handle_msg`.
    pub fn handle_raw_message(&mut self, source: InputMessage, bytes: &[u8]) -> (r: Result<
        RawOutcome,
        OutOfRangeError,
    >)
        requires
            old(self)@.wf(),
        ensures
            final(self)@.wf(),
            final(self)@.mapping == old(self)@.mapping,
            bytes@.len() == 0 ==> (r matches Ok(o) && o is Ignored) && final(self)@ == old(self)@,
            bytes@.len() != 0 && parse_spec(bytes@) is Err ==> (r matches Ok(o)
                && o matches RawOutcome::ParseFailed(e) && parse_spec(bytes@) == Err::<
                FrameView,
                FrameParseError,
            >(e)) && final(self)@ == old(self)@,
            parse_spec(bytes@) matches Ok(fv) ==> ({
                let step = dispatch_step(old(self)@.mapping, old(self)@.state, source, fv);
                &&& final(self)@.state == step.state
                &&& (r is Ok <==> step.ok)
                &&& (r matches Ok(o) ==> (o matches RawOutcome::Dispatched(out) && out@
                    == step.output))
            }),
    {
        if bytes.len() == 0 {
            return Ok(RawOutcome::Ignored);
        }
        match parse_frame(bytes) {
            Err(e) => Ok(RawOutcome::ParseFailed(e)),
            Ok(frame) => match self.handle_msg(source, frame) {
                Ok(out) => Ok(RawOutcome::Dispatched(out)),
                Err(e) => Err(e),
            },
        }
    }

    /// Applies a bank-select control change, implementing
    /// `site_change_step`.
    fn handle_site_change(&mut self, channel: u8) -> (r: Result<DispatchOutput, OutOfRangeError>)
        requires
            old(self)@.wf(),
            channel < CHANNEL_COUNT,
        ensures
            final(self)@.wf(),
            final(self)@.mapping == old(self)@.mapping,
            final(self)@.state == site_change_step(
                old(self)@.mapping,
                old(self)@.state,
                channel,
            ).state,
            r is Ok <==> site_change_step(old(self)@.mapping, old(self)@.state, channel).ok,
            r matches Ok(out) ==> out@ == site_change_step(
                old(self)@.mapping,
                old(self)@.state,
                channel,
            ).output,
    {
        let bank = self.state_manager.get_current_bank();
        if channel == bank {
            let out = DispatchOutput {
                to_software: Vec::new(),
                to_controller: Vec::new(),
                warnings: Vec::new(),
            };
            proof {
                let step = site_change_step(old(self)@.mapping, old(self)@.state, channel);
                assert(out@.to_software =~= step.output.to_software);
                assert(out@.to_controller =~= step.output.to_controller);
                assert(out@.warnings =~= step.output.warnings);
            }
            return Ok(out);
        }
        self.state_manager.set_current_bank(channel);
        match self.led_controller.refresh_all_leds(
            &self.state_manager,
            channel,
            self.mapping_config.get_toggle_notes(),
        ) {
            Ok(frames) => {
                let out = DispatchOutput {
                    to_software: Vec::new(),
                    to_controller: frames,
                    warnings: Vec::new(),
                };
                proof {
                    let step = site_change_step(old(self)@.mapping, old(self)@.state, channel);
                    assert(out@.to_software =~= step.output.to_software);
                    assert(out@.to_controller =~= step.output.to_controller);
                    assert(out@.warnings =~= step.output.warnings);
                }
                Ok(out)
            },
            Err(e) => Err(e),
        }
    }
}

} // verus!
