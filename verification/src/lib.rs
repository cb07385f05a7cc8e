//! Verified core of a MIDI routing bridge: it translates note and control
//! identities between a hardware controller and a software application,
//! keeps a per-bank toggle/color state store for lit buttons, and renders
//! that store back into LED refresh frames for the controller.

use vstd::prelude::*;

pub mod frame;
pub mod handler;
pub mod laws;
pub mod led;
pub mod mapping;
pub mod ports;
pub mod state;
pub mod supervisor;

pub use frame::Frame;
pub use frame::FrameParseError;
pub use frame::parse_frame;
pub use handler::ConfigError;
pub use handler::DispatchOutput;
pub use handler::InputMessage;
pub use handler::MidiHandler;
pub use handler::RawOutcome;
pub use handler::Warning;
pub use led::LedController;
pub use mapping::ControlMap;
pub use mapping::MappingConfig;
pub use mapping::NoteMap;
pub use ports::EndpointNames;
pub use ports::PortResolutionError;
pub use ports::endpoint_names;
pub use ports::resolve_port;
pub use state::OutOfRangeError;
pub use state::StateManager;
pub use state::StateModel;
pub use supervisor::SupervisorAction;
pub use supervisor::should_continue;
pub use supervisor::should_restart;
pub use supervisor::supervisor_action;

verus! {

/// Number of selectable banks (sites); bank identifiers are 0 through 8.
pub const BANK_COUNT: u8 = 9;

/// Size of the 7-bit domain shared by note identifiers, control
/// identifiers and velocities.
pub const NOTE_COUNT: u8 = 128;

/// Number of MIDI channels a frame can carry.
pub const CHANNEL_COUNT: u8 = 16;

/// Control identifier whose control-change frames select the active bank.
pub const BANK_SELECT_CONTROL: u8 = 16;

/// Velocity of the LED frame that marks a toggled-on button.
pub const LED_ACTIVE_VELOCITY: u8 = 127;

/// Output channel of the LED frame that marks a toggled-on button.
pub const LED_BLINK_CHANNEL: u8 = 12;

/// Output channel of the LED frame that restores a stored color.
pub const LED_DEFAULT_CHANNEL: u8 = 0;

} // verus!
