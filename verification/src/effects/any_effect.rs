//! Any effect of the library, so that a patch can hold effects of every
//! kind in one list.
use vstd::prelude::*;
use crate::midi::{MidiMessage, OutputEvent, OutputEventView};
use crate::effects::effect::{Effect, MonoGroup, StartOutcome, StartOutcomeView};
use crate::effects::button_melody::{ButtonMelody, ButtonMultiMelody, HarmonyButtonMelody};
use crate::effects::button_melody_sustaining::ButtonMelodySustaining;
use crate::effects::control_forwarder::ControlForwarder;
use crate::effects::control_multiplier::ControlMultiplier;
use crate::effects::control_sequence_stepper::ControlSequenceStepper;
use crate::effects::control_sequencer::ControlSequencer;
use crate::effects::control_to_pitch_forwarder::ControlToPitchForwarder;
use crate::effects::harmony_drum::HarmonyDrum;
use crate::effects::midi_forwarder::MidiForwarder;
use crate::effects::note_sequencer::NoteSequencer;
use crate::effects::pedal_button::PedalButton;
use crate::effects::pedal_melody::PedalMelody;
use crate::effects::sweep_down::SweepDown;

verus! {

pub enum AnyEffect {
    ButtonMelody(ButtonMelody),
    ButtonMultiMelody(ButtonMultiMelody),
    HarmonyButtonMelody(HarmonyButtonMelody<ButtonMelody>),
    ButtonMelodySustaining(ButtonMelodySustaining),
    ControlForwarder(ControlForwarder),
    ControlMultiplier(ControlMultiplier),
    ControlSequenceStepper(ControlSequenceStepper),
    ControlSequencer(ControlSequencer),
    ControlToPitchForwarder(ControlToPitchForwarder),
    HarmonyDrum(HarmonyDrum),
    MidiForwarder(MidiForwarder),
    NoteSequencer(NoteSequencer),
    PedalButton(PedalButton),
    PedalMelody(PedalMelody),
    SweepDown(SweepDown),
}

impl Effect for AnyEffect {
    open spec fn inv(&self) -> bool {
        match self {
            AnyEffect::ButtonMelody(e) => e.inv(),
            AnyEffect::ButtonMultiMelody(e) => e.inv(),
            AnyEffect::HarmonyButtonMelody(e) => e.inv(),
            AnyEffect::ButtonMelodySustaining(e) => e.inv(),
            AnyEffect::ControlForwarder(e) => e.inv(),
            AnyEffect::ControlMultiplier(e) => e.inv(),
            AnyEffect::ControlSequenceStepper(e) => e.inv(),
            AnyEffect::ControlSequencer(e) => e.inv(),
            AnyEffect::ControlToPitchForwarder(e) => e.inv(),
            AnyEffect::HarmonyDrum(e) => e.inv(),
            AnyEffect::MidiForwarder(e) => e.inv(),
            AnyEffect::NoteSequencer(e) => e.inv(),
            AnyEffect::PedalButton(e) => e.inv(),
            AnyEffect::PedalMelody(e) => e.inv(),
            AnyEffect::SweepDown(e) => e.inv(),
        }
    }

    open spec fn event_ok(&self, device: Seq<char>, m: MidiMessage, now: u64) -> bool {
        match self {
            AnyEffect::ButtonMelody(e) => e.event_ok(device, m, now),
            AnyEffect::ButtonMultiMelody(e) => e.event_ok(device, m, now),
            AnyEffect::HarmonyButtonMelody(e) => e.event_ok(device, m, now),
            AnyEffect::ButtonMelodySustaining(e) => e.event_ok(device, m, now),
            AnyEffect::ControlForwarder(e) => e.event_ok(device, m, now),
            AnyEffect::ControlMultiplier(e) => e.event_ok(device, m, now),
            AnyEffect::ControlSequenceStepper(e) => e.event_ok(device, m, now),
            AnyEffect::ControlSequencer(e) => e.event_ok(device, m, now),
            AnyEffect::ControlToPitchForwarder(e) => e.event_ok(device, m, now),
            AnyEffect::HarmonyDrum(e) => e.event_ok(device, m, now),
            AnyEffect::MidiForwarder(e) => e.event_ok(device, m, now),
            AnyEffect::NoteSequencer(e) => e.event_ok(device, m, now),
            AnyEffect::PedalButton(e) => e.event_ok(device, m, now),
            AnyEffect::PedalMelody(e) => e.event_ok(device, m, now),
            AnyEffect::SweepDown(e) => e.event_ok(device, m, now),
        }
    }

    open spec fn on_event(&self, device: Seq<char>, m: MidiMessage, now: u64) -> (Self, Seq<OutputEventView>) {
        match self {
            AnyEffect::ButtonMelody(e) => (AnyEffect::ButtonMelody(e.on_event(device, m, now).0), e.on_event(device, m, now).1),
            AnyEffect::ButtonMultiMelody(e) => (AnyEffect::ButtonMultiMelody(e.on_event(device, m, now).0), e.on_event(device, m, now).1),
            AnyEffect::HarmonyButtonMelody(e) => (AnyEffect::HarmonyButtonMelody(e.on_event(device, m, now).0), e.on_event(device, m, now).1),
            AnyEffect::ButtonMelodySustaining(e) => (AnyEffect::ButtonMelodySustaining(e.on_event(device, m, now).0), e.on_event(device, m, now).1),
            AnyEffect::ControlForwarder(e) => (AnyEffect::ControlForwarder(e.on_event(device, m, now).0), e.on_event(device, m, now).1),
            AnyEffect::ControlMultiplier(e) => (AnyEffect::ControlMultiplier(e.on_event(device, m, now).0), e.on_event(device, m, now).1),
            AnyEffect::ControlSequenceStepper(e) => (AnyEffect::ControlSequenceStepper(e.on_event(device, m, now).0), e.on_event(device, m, now).1),
            AnyEffect::ControlSequencer(e) => (AnyEffect::ControlSequencer(e.on_event(device, m, now).0), e.on_event(device, m, now).1),
            AnyEffect::ControlToPitchForwarder(e) => (AnyEffect::ControlToPitchForwarder(e.on_event(device, m, now).0), e.on_event(device, m, now).1),
            AnyEffect::HarmonyDrum(e) => (AnyEffect::HarmonyDrum(e.on_event(device, m, now).0), e.on_event(device, m, now).1),
            AnyEffect::MidiForwarder(e) => (AnyEffect::MidiForwarder(e.on_event(device, m, now).0), e.on_event(device, m, now).1),
            AnyEffect::NoteSequencer(e) => (AnyEffect::NoteSequencer(e.on_event(device, m, now).0), e.on_event(device, m, now).1),
            AnyEffect::PedalButton(e) => (AnyEffect::PedalButton(e.on_event(device, m, now).0), e.on_event(device, m, now).1),
            AnyEffect::PedalMelody(e) => (AnyEffect::PedalMelody(e.on_event(device, m, now).0), e.on_event(device, m, now).1),
            AnyEffect::SweepDown(e) => (AnyEffect::SweepDown(e.on_event(device, m, now).0), e.on_event(device, m, now).1),
        }
    }

    open spec fn start_ok(&self, m: MidiMessage, now: u64) -> bool {
        match self {
            AnyEffect::ButtonMelody(e) => e.start_ok(m, now),
            AnyEffect::ButtonMultiMelody(e) => e.start_ok(m, now),
            AnyEffect::HarmonyButtonMelody(e) => e.start_ok(m, now),
            AnyEffect::ButtonMelodySustaining(e) => e.start_ok(m, now),
            AnyEffect::ControlForwarder(e) => e.start_ok(m, now),
            AnyEffect::ControlMultiplier(e) => e.start_ok(m, now),
            AnyEffect::ControlSequenceStepper(e) => e.start_ok(m, now),
            AnyEffect::ControlSequencer(e) => e.start_ok(m, now),
            AnyEffect::ControlToPitchForwarder(e) => e.start_ok(m, now),
            AnyEffect::HarmonyDrum(e) => e.start_ok(m, now),
            AnyEffect::MidiForwarder(e) => e.start_ok(m, now),
            AnyEffect::NoteSequencer(e) => e.start_ok(m, now),
            AnyEffect::PedalButton(e) => e.start_ok(m, now),
            AnyEffect::PedalMelody(e) => e.start_ok(m, now),
            AnyEffect::SweepDown(e) => e.start_ok(m, now),
        }
    }

    open spec fn on_start(&self, m: MidiMessage, now: u64) -> (Self, StartOutcomeView) {
        match self {
            AnyEffect::ButtonMelody(e) => (AnyEffect::ButtonMelody(e.on_start(m, now).0), e.on_start(m, now).1),
            AnyEffect::ButtonMultiMelody(e) => (AnyEffect::ButtonMultiMelody(e.on_start(m, now).0), e.on_start(m, now).1),
            AnyEffect::HarmonyButtonMelody(e) => (AnyEffect::HarmonyButtonMelody(e.on_start(m, now).0), e.on_start(m, now).1),
            AnyEffect::ButtonMelodySustaining(e) => (AnyEffect::ButtonMelodySustaining(e.on_start(m, now).0), e.on_start(m, now).1),
            AnyEffect::ControlForwarder(e) => (AnyEffect::ControlForwarder(e.on_start(m, now).0), e.on_start(m, now).1),
            AnyEffect::ControlMultiplier(e) => (AnyEffect::ControlMultiplier(e.on_start(m, now).0), e.on_start(m, now).1),
            AnyEffect::ControlSequenceStepper(e) => (AnyEffect::ControlSequenceStepper(e.on_start(m, now).0), e.on_start(m, now).1),
            AnyEffect::ControlSequencer(e) => (AnyEffect::ControlSequencer(e.on_start(m, now).0), e.on_start(m, now).1),
            AnyEffect::ControlToPitchForwarder(e) => (AnyEffect::ControlToPitchForwarder(e.on_start(m, now).0), e.on_start(m, now).1),
            AnyEffect::HarmonyDrum(e) => (AnyEffect::HarmonyDrum(e.on_start(m, now).0), e.on_start(m, now).1),
            AnyEffect::MidiForwarder(e) => (AnyEffect::MidiForwarder(e.on_start(m, now).0), e.on_start(m, now).1),
            AnyEffect::NoteSequencer(e) => (AnyEffect::NoteSequencer(e.on_start(m, now).0), e.on_start(m, now).1),
            AnyEffect::PedalButton(e) => (AnyEffect::PedalButton(e.on_start(m, now).0), e.on_start(m, now).1),
            AnyEffect::PedalMelody(e) => (AnyEffect::PedalMelody(e.on_start(m, now).0), e.on_start(m, now).1),
            AnyEffect::SweepDown(e) => (AnyEffect::SweepDown(e.on_start(m, now).0), e.on_start(m, now).1),
        }
    }

    open spec fn on_stop(&self) -> (Self, Seq<OutputEventView>) {
        match self {
            AnyEffect::ButtonMelody(e) => (AnyEffect::ButtonMelody(e.on_stop().0), e.on_stop().1),
            AnyEffect::ButtonMultiMelody(e) => (AnyEffect::ButtonMultiMelody(e.on_stop().0), e.on_stop().1),
            AnyEffect::HarmonyButtonMelody(e) => (AnyEffect::HarmonyButtonMelody(e.on_stop().0), e.on_stop().1),
            AnyEffect::ButtonMelodySustaining(e) => (AnyEffect::ButtonMelodySustaining(e.on_stop().0), e.on_stop().1),
            AnyEffect::ControlForwarder(e) => (AnyEffect::ControlForwarder(e.on_stop().0), e.on_stop().1),
            AnyEffect::ControlMultiplier(e) => (AnyEffect::ControlMultiplier(e.on_stop().0), e.on_stop().1),
            AnyEffect::ControlSequenceStepper(e) => (AnyEffect::ControlSequenceStepper(e.on_stop().0), e.on_stop().1),
            AnyEffect::ControlSequencer(e) => (AnyEffect::ControlSequencer(e.on_stop().0), e.on_stop().1),
            AnyEffect::ControlToPitchForwarder(e) => (AnyEffect::ControlToPitchForwarder(e.on_stop().0), e.on_stop().1),
            AnyEffect::HarmonyDrum(e) => (AnyEffect::HarmonyDrum(e.on_stop().0), e.on_stop().1),
            AnyEffect::MidiForwarder(e) => (AnyEffect::MidiForwarder(e.on_stop().0), e.on_stop().1),
            AnyEffect::NoteSequencer(e) => (AnyEffect::NoteSequencer(e.on_stop().0), e.on_stop().1),
            AnyEffect::PedalButton(e) => (AnyEffect::PedalButton(e.on_stop().0), e.on_stop().1),
            AnyEffect::PedalMelody(e) => (AnyEffect::PedalMelody(e.on_stop().0), e.on_stop().1),
            AnyEffect::SweepDown(e) => (AnyEffect::SweepDown(e.on_stop().0), e.on_stop().1),
        }
    }

    open spec fn running(&self) -> bool {
        match self {
            AnyEffect::ButtonMelody(e) => e.running(),
            AnyEffect::ButtonMultiMelody(e) => e.running(),
            AnyEffect::HarmonyButtonMelody(e) => e.running(),
            AnyEffect::ButtonMelodySustaining(e) => e.running(),
            AnyEffect::ControlForwarder(e) => e.running(),
            AnyEffect::ControlMultiplier(e) => e.running(),
            AnyEffect::ControlSequenceStepper(e) => e.running(),
            AnyEffect::ControlSequencer(e) => e.running(),
            AnyEffect::ControlToPitchForwarder(e) => e.running(),
            AnyEffect::HarmonyDrum(e) => e.running(),
            AnyEffect::MidiForwarder(e) => e.running(),
            AnyEffect::NoteSequencer(e) => e.running(),
            AnyEffect::PedalButton(e) => e.running(),
            AnyEffect::PedalMelody(e) => e.running(),
            AnyEffect::SweepDown(e) => e.running(),
        }
    }

    open spec fn group(&self) -> MonoGroup {
        match self {
            AnyEffect::ButtonMelody(e) => e.group(),
            AnyEffect::ButtonMultiMelody(e) => e.group(),
            AnyEffect::HarmonyButtonMelody(e) => e.group(),
            AnyEffect::ButtonMelodySustaining(e) => e.group(),
            AnyEffect::ControlForwarder(e) => e.group(),
            AnyEffect::ControlMultiplier(e) => e.group(),
            AnyEffect::ControlSequenceStepper(e) => e.group(),
            AnyEffect::ControlSequencer(e) => e.group(),
            AnyEffect::ControlToPitchForwarder(e) => e.group(),
            AnyEffect::HarmonyDrum(e) => e.group(),
            AnyEffect::MidiForwarder(e) => e.group(),
            AnyEffect::NoteSequencer(e) => e.group(),
            AnyEffect::PedalButton(e) => e.group(),
            AnyEffect::PedalMelody(e) => e.group(),
            AnyEffect::SweepDown(e) => e.group(),
        }
    }

    proof fn lemma_event_keeps_mode(&self, device: Seq<char>, m: MidiMessage, now: u64) {
        match self {
            AnyEffect::ButtonMelody(e) => e.lemma_event_keeps_mode(device, m, now),
            AnyEffect::ButtonMultiMelody(e) => e.lemma_event_keeps_mode(device, m, now),
            AnyEffect::HarmonyButtonMelody(e) => e.lemma_event_keeps_mode(device, m, now),
            AnyEffect::ButtonMelodySustaining(e) => e.lemma_event_keeps_mode(device, m, now),
            AnyEffect::ControlForwarder(e) => e.lemma_event_keeps_mode(device, m, now),
            AnyEffect::ControlMultiplier(e) => e.lemma_event_keeps_mode(device, m, now),
            AnyEffect::ControlSequenceStepper(e) => e.lemma_event_keeps_mode(device, m, now),
            AnyEffect::ControlSequencer(e) => e.lemma_event_keeps_mode(device, m, now),
            AnyEffect::ControlToPitchForwarder(e) => e.lemma_event_keeps_mode(device, m, now),
            AnyEffect::HarmonyDrum(e) => e.lemma_event_keeps_mode(device, m, now),
            AnyEffect::MidiForwarder(e) => e.lemma_event_keeps_mode(device, m, now),
            AnyEffect::NoteSequencer(e) => e.lemma_event_keeps_mode(device, m, now),
            AnyEffect::PedalButton(e) => e.lemma_event_keeps_mode(device, m, now),
            AnyEffect::PedalMelody(e) => e.lemma_event_keeps_mode(device, m, now),
            AnyEffect::SweepDown(e) => e.lemma_event_keeps_mode(device, m, now),
        }
    }

    proof fn lemma_stop_halts(&self) {
        match self {
            AnyEffect::ButtonMelody(e) => e.lemma_stop_halts(),
            AnyEffect::ButtonMultiMelody(e) => e.lemma_stop_halts(),
            AnyEffect::HarmonyButtonMelody(e) => e.lemma_stop_halts(),
            AnyEffect::ButtonMelodySustaining(e) => e.lemma_stop_halts(),
            AnyEffect::ControlForwarder(e) => e.lemma_stop_halts(),
            AnyEffect::ControlMultiplier(e) => e.lemma_stop_halts(),
            AnyEffect::ControlSequenceStepper(e) => e.lemma_stop_halts(),
            AnyEffect::ControlSequencer(e) => e.lemma_stop_halts(),
            AnyEffect::ControlToPitchForwarder(e) => e.lemma_stop_halts(),
            AnyEffect::HarmonyDrum(e) => e.lemma_stop_halts(),
            AnyEffect::MidiForwarder(e) => e.lemma_stop_halts(),
            AnyEffect::NoteSequencer(e) => e.lemma_stop_halts(),
            AnyEffect::PedalButton(e) => e.lemma_stop_halts(),
            AnyEffect::PedalMelody(e) => e.lemma_stop_halts(),
            AnyEffect::SweepDown(e) => e.lemma_stop_halts(),
        }
    }

    proof fn lemma_start_keeps_group(&self, m: MidiMessage, now: u64) {
        match self {
            AnyEffect::ButtonMelody(e) => e.lemma_start_keeps_group(m, now),
            AnyEffect::ButtonMultiMelody(e) => e.lemma_start_keeps_group(m, now),
            AnyEffect::HarmonyButtonMelody(e) => e.lemma_start_keeps_group(m, now),
            AnyEffect::ButtonMelodySustaining(e) => e.lemma_start_keeps_group(m, now),
            AnyEffect::ControlForwarder(e) => e.lemma_start_keeps_group(m, now),
            AnyEffect::ControlMultiplier(e) => e.lemma_start_keeps_group(m, now),
            AnyEffect::ControlSequenceStepper(e) => e.lemma_start_keeps_group(m, now),
            AnyEffect::ControlSequencer(e) => e.lemma_start_keeps_group(m, now),
            AnyEffect::ControlToPitchForwarder(e) => e.lemma_start_keeps_group(m, now),
            AnyEffect::HarmonyDrum(e) => e.lemma_start_keeps_group(m, now),
            AnyEffect::MidiForwarder(e) => e.lemma_start_keeps_group(m, now),
            AnyEffect::NoteSequencer(e) => e.lemma_start_keeps_group(m, now),
            AnyEffect::PedalButton(e) => e.lemma_start_keeps_group(m, now),
            AnyEffect::PedalMelody(e) => e.lemma_start_keeps_group(m, now),
            AnyEffect::SweepDown(e) => e.lemma_start_keeps_group(m, now),
        }
    }

    fn can_handle(&self, device: &str, midi_message: MidiMessage, now: u64) -> (b: bool) {
        match self {
            AnyEffect::ButtonMelody(e) => e.can_handle(device, midi_message, now),
            AnyEffect::ButtonMultiMelody(e) => e.can_handle(device, midi_message, now),
            AnyEffect::HarmonyButtonMelody(e) => e.can_handle(device, midi_message, now),
            AnyEffect::ButtonMelodySustaining(e) => e.can_handle(device, midi_message, now),
            AnyEffect::ControlForwarder(e) => e.can_handle(device, midi_message, now),
            AnyEffect::ControlMultiplier(e) => e.can_handle(device, midi_message, now),
            AnyEffect::ControlSequenceStepper(e) => e.can_handle(device, midi_message, now),
            AnyEffect::ControlSequencer(e) => e.can_handle(device, midi_message, now),
            AnyEffect::ControlToPitchForwarder(e) => e.can_handle(device, midi_message, now),
            AnyEffect::HarmonyDrum(e) => e.can_handle(device, midi_message, now),
            AnyEffect::MidiForwarder(e) => e.can_handle(device, midi_message, now),
            AnyEffect::NoteSequencer(e) => e.can_handle(device, midi_message, now),
            AnyEffect::PedalButton(e) => e.can_handle(device, midi_message, now),
            AnyEffect::PedalMelody(e) => e.can_handle(device, midi_message, now),
            AnyEffect::SweepDown(e) => e.can_handle(device, midi_message, now),
        }
    }

    fn can_start(&self, midi_message: MidiMessage, now: u64) -> (b: bool) {
        match self {
            AnyEffect::ButtonMelody(e) => e.can_start(midi_message, now),
            AnyEffect::ButtonMultiMelody(e) => e.can_start(midi_message, now),
            AnyEffect::HarmonyButtonMelody(e) => e.can_start(midi_message, now),
            AnyEffect::ButtonMelodySustaining(e) => e.can_start(midi_message, now),
            AnyEffect::ControlForwarder(e) => e.can_start(midi_message, now),
            AnyEffect::ControlMultiplier(e) => e.can_start(midi_message, now),
            AnyEffect::ControlSequenceStepper(e) => e.can_start(midi_message, now),
            AnyEffect::ControlSequencer(e) => e.can_start(midi_message, now),
            AnyEffect::ControlToPitchForwarder(e) => e.can_start(midi_message, now),
            AnyEffect::HarmonyDrum(e) => e.can_start(midi_message, now),
            AnyEffect::MidiForwarder(e) => e.can_start(midi_message, now),
            AnyEffect::NoteSequencer(e) => e.can_start(midi_message, now),
            AnyEffect::PedalButton(e) => e.can_start(midi_message, now),
            AnyEffect::PedalMelody(e) => e.can_start(midi_message, now),
            AnyEffect::SweepDown(e) => e.can_start(midi_message, now),
        }
    }

    fn on_midi_event(&mut self, device: &str, midi_message: MidiMessage, now: u64) -> (out: Vec<OutputEvent>) {
        match self {
            AnyEffect::ButtonMelody(e) => e.on_midi_event(device, midi_message, now),
            AnyEffect::ButtonMultiMelody(e) => e.on_midi_event(device, midi_message, now),
            AnyEffect::HarmonyButtonMelody(e) => e.on_midi_event(device, midi_message, now),
            AnyEffect::ButtonMelodySustaining(e) => e.on_midi_event(device, midi_message, now),
            AnyEffect::ControlForwarder(e) => e.on_midi_event(device, midi_message, now),
            AnyEffect::ControlMultiplier(e) => e.on_midi_event(device, midi_message, now),
            AnyEffect::ControlSequenceStepper(e) => e.on_midi_event(device, midi_message, now),
            AnyEffect::ControlSequencer(e) => e.on_midi_event(device, midi_message, now),
            AnyEffect::ControlToPitchForwarder(e) => e.on_midi_event(device, midi_message, now),
            AnyEffect::HarmonyDrum(e) => e.on_midi_event(device, midi_message, now),
            AnyEffect::MidiForwarder(e) => e.on_midi_event(device, midi_message, now),
            AnyEffect::NoteSequencer(e) => e.on_midi_event(device, midi_message, now),
            AnyEffect::PedalButton(e) => e.on_midi_event(device, midi_message, now),
            AnyEffect::PedalMelody(e) => e.on_midi_event(device, midi_message, now),
            AnyEffect::SweepDown(e) => e.on_midi_event(device, midi_message, now),
        }
    }

    fn start(&mut self, midi_message: MidiMessage, now: u64) -> (out: StartOutcome) {
        match self {
            AnyEffect::ButtonMelody(e) => e.start(midi_message, now),
            AnyEffect::ButtonMultiMelody(e) => e.start(midi_message, now),
            AnyEffect::HarmonyButtonMelody(e) => e.start(midi_message, now),
            AnyEffect::ButtonMelodySustaining(e) => e.start(midi_message, now),
            AnyEffect::ControlForwarder(e) => e.start(midi_message, now),
            AnyEffect::ControlMultiplier(e) => e.start(midi_message, now),
            AnyEffect::ControlSequenceStepper(e) => e.start(midi_message, now),
            AnyEffect::ControlSequencer(e) => e.start(midi_message, now),
            AnyEffect::ControlToPitchForwarder(e) => e.start(midi_message, now),
            AnyEffect::HarmonyDrum(e) => e.start(midi_message, now),
            AnyEffect::MidiForwarder(e) => e.start(midi_message, now),
            AnyEffect::NoteSequencer(e) => e.start(midi_message, now),
            AnyEffect::PedalButton(e) => e.start(midi_message, now),
            AnyEffect::PedalMelody(e) => e.start(midi_message, now),
            AnyEffect::SweepDown(e) => e.start(midi_message, now),
        }
    }

    fn stop(&mut self) -> (out: Vec<OutputEvent>) {
        match self {
            AnyEffect::ButtonMelody(e) => e.stop(),
            AnyEffect::ButtonMultiMelody(e) => e.stop(),
            AnyEffect::HarmonyButtonMelody(e) => e.stop(),
            AnyEffect::ButtonMelodySustaining(e) => e.stop(),
            AnyEffect::ControlForwarder(e) => e.stop(),
            AnyEffect::ControlMultiplier(e) => e.stop(),
            AnyEffect::ControlSequenceStepper(e) => e.stop(),
            AnyEffect::ControlSequencer(e) => e.stop(),
            AnyEffect::ControlToPitchForwarder(e) => e.stop(),
            AnyEffect::HarmonyDrum(e) => e.stop(),
            AnyEffect::MidiForwarder(e) => e.stop(),
            AnyEffect::NoteSequencer(e) => e.stop(),
            AnyEffect::PedalButton(e) => e.stop(),
            AnyEffect::PedalMelody(e) => e.stop(),
            AnyEffect::SweepDown(e) => e.stop(),
        }
    }

    fn is_running(&self) -> (b: bool) {
        match self {
            AnyEffect::ButtonMelody(e) => e.is_running(),
            AnyEffect::ButtonMultiMelody(e) => e.is_running(),
            AnyEffect::HarmonyButtonMelody(e) => e.is_running(),
            AnyEffect::ButtonMelodySustaining(e) => e.is_running(),
            AnyEffect::ControlForwarder(e) => e.is_running(),
            AnyEffect::ControlMultiplier(e) => e.is_running(),
            AnyEffect::ControlSequenceStepper(e) => e.is_running(),
            AnyEffect::ControlSequencer(e) => e.is_running(),
            AnyEffect::ControlToPitchForwarder(e) => e.is_running(),
            AnyEffect::HarmonyDrum(e) => e.is_running(),
            AnyEffect::MidiForwarder(e) => e.is_running(),
            AnyEffect::NoteSequencer(e) => e.is_running(),
            AnyEffect::PedalButton(e) => e.is_running(),
            AnyEffect::PedalMelody(e) => e.is_running(),
            AnyEffect::SweepDown(e) => e.is_running(),
        }
    }

    fn mono_group(&self) -> (g: MonoGroup) {
        match self {
            AnyEffect::ButtonMelody(e) => e.mono_group(),
            AnyEffect::ButtonMultiMelody(e) => e.mono_group(),
            AnyEffect::HarmonyButtonMelody(e) => e.mono_group(),
            AnyEffect::ButtonMelodySustaining(e) => e.mono_group(),
            AnyEffect::ControlForwarder(e) => e.mono_group(),
            AnyEffect::ControlMultiplier(e) => e.mono_group(),
            AnyEffect::ControlSequenceStepper(e) => e.mono_group(),
            AnyEffect::ControlSequencer(e) => e.mono_group(),
            AnyEffect::ControlToPitchForwarder(e) => e.mono_group(),
            AnyEffect::HarmonyDrum(e) => e.mono_group(),
            AnyEffect::MidiForwarder(e) => e.mono_group(),
            AnyEffect::NoteSequencer(e) => e.mono_group(),
            AnyEffect::PedalButton(e) => e.mono_group(),
            AnyEffect::PedalMelody(e) => e.mono_group(),
            AnyEffect::SweepDown(e) => e.mono_group(),
        }
    }
}

} // verus!
