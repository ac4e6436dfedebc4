//! Verified core of a live MIDI patcher: message classification, filters,
//! triggers, effects as state machines, patches and the decisions of the
//! event loop. Input/output, threads and clocks live in the application
//! around this library, which hands every decision here plain values.

pub mod midi;
pub mod utils;
pub mod trigger;
pub mod absolute_sleep;
pub mod effects;
pub mod patch;
pub mod midi_beat_tracker;
pub mod config;
pub mod view;
pub mod midi_devices;
pub mod virtual_midi;
pub mod watch;
pub mod patcher;
pub mod songs;
pub mod risp_value;
pub mod load_patches;
pub mod carla;
