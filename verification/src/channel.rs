//! One input strip of the mixer.

use crate::ieee::{clamp, clamped, is_less, larger, less, within};
use crate::protocol::{ChannelState, StripView};
use vstd::prelude::*;

verus! {

/// Lowest fader position, 0.
pub const FADER_MIN: u32 = 0x0000_0000;

/// Highest fader position, 1.25 (+10 dB).
pub const FADER_MAX: u32 = 0x3FA0_0000;

/// Fader position of a new strip, 0.75 (unity).
pub const FADER_UNITY: u32 = 0x3F40_0000;

/// Hard left, -1.
pub const PAN_LEFT: u32 = 0xBF80_0000;

/// Centre, 0.
pub const PAN_CENTER: u32 = 0x0000_0000;

/// Hard right, +1.
pub const PAN_RIGHT: u32 = 0x3F80_0000;

/// Lowest trim, -20 dB.
pub const TRIM_MIN: u32 = 0xC1A0_0000;

/// Highest trim, +20 dB.
pub const TRIM_MAX: u32 = 0x41A0_0000;

/// One input strip: its parameters and its peak meter.
pub struct Channel {
    id: u32,
    name: String,
    fader: u32,
    mute: bool,
    solo: bool,
    pan: u32,
    gain: u32,
    phase_invert: bool,
    color: String,
    meter_peak: u32,
    meter_peak_hold: u32,
}

/// The mathematical value of a [`Channel`].
pub struct ChannelView {
    pub id: u32,
    pub name: Seq<char>,
    pub fader: u32,
    pub mute: bool,
    pub solo: bool,
    pub pan: u32,
    pub gain: u32,
    pub phase_invert: bool,
    pub color: Seq<char>,
    pub meter_peak: u32,
    pub meter_peak_hold: u32,
}

impl ChannelView {
    /// Fader, pan and trim hold numbers within their ranges.
    pub open spec fn in_range(self) -> bool {
        &&& within(self.fader, FADER_MIN, FADER_MAX)
        &&& within(self.pan, PAN_LEFT, PAN_RIGHT)
        &&& within(self.gain, TRIM_MIN, TRIM_MAX)
    }

    /// The snapshot that clients get of the strip.
    pub open spec fn snapshot(self) -> StripView {
        StripView {
            id: self.id,
            name: self.name,
            fader: self.fader,
            mute: self.mute,
            solo: self.solo,
            pan: self.pan,
            gain: self.gain,
            phase_invert: self.phase_invert,
            color: self.color,
            meter: self.meter_peak,
        }
    }

    /// The strip after a block with the peak `peak`. The reading jumps up
    /// to a higher peak at once and falls to `released` otherwise; the
    /// held peak only ever rises.
    pub open spec fn metered(self, peak: u32, released: u32) -> ChannelView {
        ChannelView {
            meter_peak: if less(self.meter_peak, peak) {
                peak
            } else {
                released
            },
            meter_peak_hold: larger(self.meter_peak_hold, peak),
            ..self
        }
    }
}

impl View for Channel {
    type V = ChannelView;

    closed spec fn view(&self) -> ChannelView {
        ChannelView {
            id: self.id,
            name: self.name@,
            fader: self.fader,
            mute: self.mute,
            solo: self.solo,
            pan: self.pan,
            gain: self.gain,
            phase_invert: self.phase_invert,
            color: self.color@,
            meter_peak: self.meter_peak,
            meter_peak_hold: self.meter_peak_hold,
        }
    }
}

impl Channel {
    /// A strip at unity, centred, neither muted nor soloed, coloured blue.
    pub fn new(id: u32, name: String) -> (c: Self)
        ensures
            c@ == (ChannelView {
                id,
                name: name@,
                fader: FADER_UNITY,
                mute: false,
                solo: false,
                pan: PAN_CENTER,
                gain: 0,
                phase_invert: false,
                color: "#3B82F6"@,
                meter_peak: 0,
                meter_peak_hold: 0,
            }),
            c@.in_range(),
    {
        Channel {
            id,
            name,
            fader: FADER_UNITY,
            mute: false,
            solo: false,
            pan: PAN_CENTER,
            gain: 0,
            phase_invert: false,
            color: "#3B82F6".to_owned(),
            meter_peak: 0,
            meter_peak_hold: 0,
        }
    }

    /// Index of the strip in its mixer.
    pub fn id(&self) -> (id: u32)
        ensures
            id == self@.id,
    {
        self.id
    }

    /// The snapshot that clients get of the strip.
    pub fn state(&self) -> (s: ChannelState)
        ensures
            s@ == self@.snapshot(),
    {
        ChannelState {
            id: self.id,
            name: self.name.clone(),
            fader: self.fader,
            mute: self.mute,
            solo: self.solo,
            pan: self.pan,
            gain: self.gain,
            phase_invert: self.phase_invert,
            color: self.color.clone(),
            meter: self.meter_peak,
        }
    }

    /// Sets the fader, held to the range from 0 to 1.25.
    pub fn set_fader(&mut self, value: u32)
        ensures
            final(self)@ == (ChannelView { fader: clamped(value, FADER_MIN, FADER_MAX), ..old(self)@ }),
            within(final(self)@.fader, FADER_MIN, FADER_MAX),
    {
        self.fader = clamp(value, FADER_MIN, FADER_MAX);
    }

    pub fn set_mute(&mut self, muted: bool)
        ensures
            final(self)@ == (ChannelView { mute: muted, ..old(self)@ }),
    {
        self.mute = muted;
    }

    pub fn set_solo(&mut self, solo: bool)
        ensures
            final(self)@ == (ChannelView { solo, ..old(self)@ }),
    {
        self.solo = solo;
    }

    /// Sets the pan position, held to the range from -1 to +1.
    pub fn set_pan(&mut self, pan: u32)
        ensures
            final(self)@ == (ChannelView { pan: clamped(pan, PAN_LEFT, PAN_RIGHT), ..old(self)@ }),
            within(final(self)@.pan, PAN_LEFT, PAN_RIGHT),
    {
        self.pan = clamp(pan, PAN_LEFT, PAN_RIGHT);
    }

    /// Sets the trim, held to the range from -20 dB to +20 dB.
    pub fn set_gain(&mut self, gain: u32)
        ensures
            final(self)@ == (ChannelView { gain: clamped(gain, TRIM_MIN, TRIM_MAX), ..old(self)@ }),
            within(final(self)@.gain, TRIM_MIN, TRIM_MAX),
    {
        self.gain = clamp(gain, TRIM_MIN, TRIM_MAX);
    }

    pub fn set_phase_invert(&mut self, invert: bool)
        ensures
            final(self)@ == (ChannelView { phase_invert: invert, ..old(self)@ }),
    {
        self.phase_invert = invert;
    }

    pub fn set_name(&mut self, name: String)
        ensures
            final(self)@ == (ChannelView { name: name@, ..old(self)@ }),
    {
        self.name = name;
    }

    pub fn set_color(&mut self, color: String)
        ensures
            final(self)@ == (ChannelView { color: color@, ..old(self)@ }),
    {
        self.color = color;
    }

    /// The present peak reading.
    pub fn get_meter(&self) -> (m: u32)
        ensures
            m == self@.meter_peak,
    {
        self.meter_peak
    }

    /// The highest peak seen so far.
    pub fn get_peak_hold(&self) -> (m: u32)
        ensures
            m == self@.meter_peak_hold,
    {
        self.meter_peak_hold
    }

    /// Takes the peak of one block into the meter. `released` is what the
    /// present reading falls to when the block stays below it: the
    /// reading times the release factor, worked out by the caller.
    pub fn update_meter(&mut self, peak: u32, released: u32)
        ensures
            final(self)@ == old(self)@.metered(peak, released),
    {
        self.meter_peak = if is_less(self.meter_peak, peak) {
            peak
        } else {
            released
        };
        if is_less(self.meter_peak_hold, peak) {
            self.meter_peak_hold = peak;
        }
    }

    pub fn fader(&self) -> (v: u32)
        ensures
            v == self@.fader,
    {
        self.fader
    }

    pub fn is_muted(&self) -> (b: bool)
        ensures
            b == self@.mute,
    {
        self.mute
    }

    pub fn is_soloed(&self) -> (b: bool)
        ensures
            b == self@.solo,
    {
        self.solo
    }

    pub fn pan(&self) -> (v: u32)
        ensures
            v == self@.pan,
    {
        self.pan
    }

    pub fn gain(&self) -> (v: u32)
        ensures
            v == self@.gain,
    {
        self.gain
    }

    pub fn is_phase_inverted(&self) -> (b: bool)
        ensures
            b == self@.phase_invert,
    {
        self.phase_invert
    }
}

} // verus!
