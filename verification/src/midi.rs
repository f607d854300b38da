//! What a MIDI controller sends, as plain values.

use vstd::prelude::*;

verus! {

/// An event of a MIDI controller.
#[derive(Debug, Clone)]
#[allow(inconsistent_fields)]
pub enum MidiEvent {
    ControlChange { device: String, channel: u8, cc: u8, value: u8 },
    Note { device: String, channel: u8, note: u8, velocity: u8, on: bool },
    /// Pitch bend, which control surfaces send for their faders.
    PitchBend { device: String, channel: u8, value: u16 },
}

} // verus!
