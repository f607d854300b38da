//! The master section: the stereo bus behind all strips, with its fader,
//! mute, DIM, mono sum, limiter, test oscillator and meters.

use crate::ieee::{clamp, clamped, within};
use vstd::prelude::*;

verus! {

/// Master fader at unity, 0.75.
pub const MASTER_FADER_DEFAULT: u32 = 0x3F40_0000;

/// Highest master fader position, 1.
pub const MASTER_FADER_MAX: u32 = 0x3F80_0000;

/// Lowest DIM level and its value in a new section, -40 dB and -20 dB.
pub const DIM_LEVEL_MIN: u32 = 0xC220_0000;

pub const DIM_LEVEL_DEFAULT: u32 = 0xC1A0_0000;

/// Lowest limiter threshold and its value in a new section, -20 dB and
/// -0.5 dB.
pub const LIMITER_THRESHOLD_MIN: u32 = 0xC1A0_0000;

pub const LIMITER_THRESHOLD_DEFAULT: u32 = 0xBF00_0000;

/// Range of the limiter ratio, 1 to 100, and its value in a new section,
/// 20.
pub const LIMITER_RATIO_MIN: u32 = 0x3F80_0000;

pub const LIMITER_RATIO_MAX: u32 = 0x42C8_0000;

pub const LIMITER_RATIO_DEFAULT: u32 = 0x41A0_0000;

/// Range of the oscillator frequency, 20 Hz to 20 kHz, and its value in a
/// new section, 1 kHz.
pub const OSCILLATOR_FREQ_MIN: u32 = 0x41A0_0000;

pub const OSCILLATOR_FREQ_MAX: u32 = 0x469C_4000;

pub const OSCILLATOR_FREQ_DEFAULT: u32 = 0x447A_0000;

/// Lowest oscillator level and its value in a new section, -60 dB and
/// -20 dB.
pub const OSCILLATOR_LEVEL_MIN: u32 = 0xC270_0000;

pub const OSCILLATOR_LEVEL_DEFAULT: u32 = 0xC1A0_0000;

/// Peak reading of a section that has seen no signal, -60.
pub const PEAK_FLOOR: u32 = 0xC270_0000;

/// The settings and meters of the master section. Levels are words that
/// hold a single-precision number.
#[derive(Debug, Clone, Copy, PartialEq, Eq, Structural)]
pub struct MasterState {
    /// Fader position from 0 to 1; 0.75 is unity.
    pub fader: u32,
    pub mute: bool,
    pub dim: bool,
    /// DIM attenuation in dB, from -40 to 0.
    pub dim_level: u32,
    pub mono: bool,
    pub limiter_enabled: bool,
    /// Limiter threshold in dB, from -20 to 0.
    pub limiter_threshold: u32,
    /// Limiter ratio, from 1 to 100.
    pub limiter_ratio: u32,
    pub talkback: bool,
    pub oscillator: bool,
    /// Oscillator frequency in Hz, from 20 to 20000.
    pub oscillator_freq: u32,
    /// Oscillator level in dB, from -60 to 0.
    pub oscillator_level: u32,
    pub peak_left: u32,
    pub peak_right: u32,
    /// Gain reduction of the limiter in dB.
    pub limiter_gr: u32,
}

impl MasterState {
    /// The state of a new section.
    pub open spec fn initial() -> MasterState {
        MasterState {
            fader: MASTER_FADER_DEFAULT,
            mute: false,
            dim: false,
            dim_level: DIM_LEVEL_DEFAULT,
            mono: false,
            limiter_enabled: true,
            limiter_threshold: LIMITER_THRESHOLD_DEFAULT,
            limiter_ratio: LIMITER_RATIO_DEFAULT,
            talkback: false,
            oscillator: false,
            oscillator_freq: OSCILLATOR_FREQ_DEFAULT,
            oscillator_level: OSCILLATOR_LEVEL_DEFAULT,
            peak_left: PEAK_FLOOR,
            peak_right: PEAK_FLOOR,
            limiter_gr: 0,
        }
    }

    /// Every setting holds a number within its range.
    pub open spec fn in_range(self) -> bool {
        &&& within(self.fader, 0, MASTER_FADER_MAX)
        &&& within(self.dim_level, DIM_LEVEL_MIN, 0)
        &&& within(self.limiter_threshold, LIMITER_THRESHOLD_MIN, 0)
        &&& within(self.limiter_ratio, LIMITER_RATIO_MIN, LIMITER_RATIO_MAX)
        &&& within(self.oscillator_freq, OSCILLATOR_FREQ_MIN, OSCILLATOR_FREQ_MAX)
        &&& within(self.oscillator_level, OSCILLATOR_LEVEL_MIN, 0)
    }
}

impl Default for MasterState {
    fn default() -> (s: Self)
        ensures
            s == MasterState::initial(),
    {
        MasterState {
            fader: MASTER_FADER_DEFAULT,
            mute: false,
            dim: false,
            dim_level: DIM_LEVEL_DEFAULT,
            mono: false,
            limiter_enabled: true,
            limiter_threshold: LIMITER_THRESHOLD_DEFAULT,
            limiter_ratio: LIMITER_RATIO_DEFAULT,
            talkback: false,
            oscillator: false,
            oscillator_freq: OSCILLATOR_FREQ_DEFAULT,
            oscillator_level: OSCILLATOR_LEVEL_DEFAULT,
            peak_left: PEAK_FLOOR,
            peak_right: PEAK_FLOOR,
            limiter_gr: 0,
        }
    }
}

/// The master section. Every setter holds its value to the range of the
/// setting and returns the state after the change.
pub struct MasterSection {
    state: MasterState,
}

impl View for MasterSection {
    type V = MasterState;

    closed spec fn view(&self) -> MasterState {
        self.state
    }
}

impl MasterSection {
    pub fn new() -> (m: Self)
        ensures
            m@ == MasterState::initial(),
            m@.in_range(),
    {
        MasterSection { state: MasterState::default() }
    }

    pub fn get_state(&self) -> (s: MasterState)
        ensures
            s == self@,
    {
        self.state
    }

    /// Sets the fader, held to the range from 0 to 1.
    pub fn set_fader(&mut self, value: u32) -> (s: MasterState)
        ensures
            s == final(self)@,
            s == (MasterState { fader: clamped(value, 0, MASTER_FADER_MAX), ..old(self)@ }),
            within(s.fader, 0, MASTER_FADER_MAX),
    {
        self.state.fader = clamp(value, 0, MASTER_FADER_MAX);
        self.state
    }

    pub fn set_mute(&mut self, muted: bool) -> (s: MasterState)
        ensures
            s == final(self)@,
            s == (MasterState { mute: muted, ..old(self)@ }),
    {
        self.state.mute = muted;
        self.state
    }

    pub fn set_dim(&mut self, dim: bool) -> (s: MasterState)
        ensures
            s == final(self)@,
            s == (MasterState { dim, ..old(self)@ }),
    {
        self.state.dim = dim;
        self.state
    }

    /// Sets the DIM attenuation, held to the range from -40 dB to 0 dB.
    pub fn set_dim_level(&mut self, level_db: u32) -> (s: MasterState)
        ensures
            s == final(self)@,
            s == (MasterState { dim_level: clamped(level_db, DIM_LEVEL_MIN, 0), ..old(self)@ }),
            within(s.dim_level, DIM_LEVEL_MIN, 0),
    {
        self.state.dim_level = clamp(level_db, DIM_LEVEL_MIN, 0);
        self.state
    }

    pub fn set_mono(&mut self, mono: bool) -> (s: MasterState)
        ensures
            s == final(self)@,
            s == (MasterState { mono, ..old(self)@ }),
    {
        self.state.mono = mono;
        self.state
    }

    pub fn set_limiter_enabled(&mut self, enabled: bool) -> (s: MasterState)
        ensures
            s == final(self)@,
            s == (MasterState { limiter_enabled: enabled, ..old(self)@ }),
    {
        self.state.limiter_enabled = enabled;
        self.state
    }

    /// Sets the limiter threshold, held to the range from -20 dB to 0 dB.
    pub fn set_limiter_threshold(&mut self, threshold_db: u32) -> (s: MasterState)
        ensures
            s == final(self)@,
            s == (MasterState {
                limiter_threshold: clamped(threshold_db, LIMITER_THRESHOLD_MIN, 0),
                ..old(self)@
            }),
            within(s.limiter_threshold, LIMITER_THRESHOLD_MIN, 0),
    {
        self.state.limiter_threshold = clamp(threshold_db, LIMITER_THRESHOLD_MIN, 0);
        self.state
    }

    /// Sets the limiter ratio, held to the range from 1 to 100.
    pub fn set_limiter_ratio(&mut self, ratio: u32) -> (s: MasterState)
        ensures
            s == final(self)@,
            s == (MasterState {
                limiter_ratio: clamped(ratio, LIMITER_RATIO_MIN, LIMITER_RATIO_MAX),
                ..old(self)@
            }),
            within(s.limiter_ratio, LIMITER_RATIO_MIN, LIMITER_RATIO_MAX),
    {
        self.state.limiter_ratio = clamp(ratio, LIMITER_RATIO_MIN, LIMITER_RATIO_MAX);
        self.state
    }

    pub fn set_talkback(&mut self, talkback: bool) -> (s: MasterState)
        ensures
            s == final(self)@,
            s == (MasterState { talkback, ..old(self)@ }),
    {
        self.state.talkback = talkback;
        self.state
    }

    pub fn set_oscillator(&mut self, enabled: bool) -> (s: MasterState)
        ensures
            s == final(self)@,
            s == (MasterState { oscillator: enabled, ..old(self)@ }),
    {
        self.state.oscillator = enabled;
        self.state
    }

    /// Sets the oscillator frequency, held to the range from 20 Hz to
    /// 20 kHz.
    pub fn set_oscillator_freq(&mut self, freq_hz: u32) -> (s: MasterState)
        ensures
            s == final(self)@,
            s == (MasterState {
                oscillator_freq: clamped(freq_hz, OSCILLATOR_FREQ_MIN, OSCILLATOR_FREQ_MAX),
                ..old(self)@
            }),
            within(s.oscillator_freq, OSCILLATOR_FREQ_MIN, OSCILLATOR_FREQ_MAX),
    {
        self.state.oscillator_freq = clamp(freq_hz, OSCILLATOR_FREQ_MIN, OSCILLATOR_FREQ_MAX);
        self.state
    }

    /// Sets the oscillator level, held to the range from -60 dB to 0 dB.
    pub fn set_oscillator_level(&mut self, level_db: u32) -> (s: MasterState)
        ensures
            s == final(self)@,
            s == (MasterState {
                oscillator_level: clamped(level_db, OSCILLATOR_LEVEL_MIN, 0),
                ..old(self)@
            }),
            within(s.oscillator_level, OSCILLATOR_LEVEL_MIN, 0),
    {
        self.state.oscillator_level = clamp(level_db, OSCILLATOR_LEVEL_MIN, 0);
        self.state
    }

    /// Stores the peaks of the two bus channels behind the limiter.
    pub fn update_peaks(&mut self, left: u32, right: u32)
        ensures
            final(self)@ == (MasterState { peak_left: left, peak_right: right, ..old(self)@ }),
    {
        self.state.peak_left = left;
        self.state.peak_right = right;
    }

    /// Stores the gain reduction of the limiter.
    pub fn update_limiter_gr(&mut self, gr_db: u32)
        ensures
            final(self)@ == (MasterState { limiter_gr: gr_db, ..old(self)@ }),
    {
        self.state.limiter_gr = gr_db;
    }
}

impl Default for MasterSection {
    fn default() -> (m: Self)
        ensures
            m@ == MasterState::initial(),
    {
        MasterSection::new()
    }
}

/// Every setter keeps all settings within their ranges: a state in range
/// stays in range whichever value is asked for.
pub proof fn lemma_settings_stay_in_range(s: MasterState, v: u32)
    requires
        s.in_range(),
    ensures
        (MasterState { fader: clamped(v, 0, MASTER_FADER_MAX), ..s }).in_range(),
        (MasterState { dim_level: clamped(v, DIM_LEVEL_MIN, 0), ..s }).in_range(),
        (MasterState { limiter_threshold: clamped(v, LIMITER_THRESHOLD_MIN, 0), ..s }).in_range(),
        (MasterState {
            limiter_ratio: clamped(v, LIMITER_RATIO_MIN, LIMITER_RATIO_MAX),
            ..s
        }).in_range(),
        (MasterState {
            oscillator_freq: clamped(v, OSCILLATOR_FREQ_MIN, OSCILLATOR_FREQ_MAX),
            ..s
        }).in_range(),
        (MasterState { oscillator_level: clamped(v, OSCILLATOR_LEVEL_MIN, 0), ..s }).in_range(),
{
}

} // verus!
