//! The effects a patch runs. Each one is a state machine: a MIDI event or a
//! trigger moves it to its next state and yields the messages to send and,
//! for timed effects, a job that the application runs in the background.
pub mod effect;
pub mod any_effect;
pub mod button_melody;
pub mod button_melody_sustaining;
pub mod control_forwarder;
pub mod control_multiplier;
pub mod control_sequence_stepper;
pub mod control_sequencer;
pub mod control_to_pitch_forwarder;
pub mod harmony_drum;
pub mod midi_forwarder;
pub mod note_sequencer;
pub mod pedal_button;
pub mod pedal_melody;
pub mod sweep_down;
