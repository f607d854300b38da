//! What of a stored scene is taken back into the mixer.

use vstd::prelude::*;

verus! {

/// The parts of a scene that a recall takes back.
#[derive(Debug, Clone)]
pub struct RecallFilter {
    pub faders: bool,
    pub mutes: bool,
    pub solos: bool,
    pub pans: bool,
    pub eq: bool,
    pub routing: bool,
    pub names: bool,
    /// The strips that are recalled; all of them when empty.
    pub channels: Vec<u32>,
}

impl RecallFilter {
    /// Whether the filter takes the strip `id` back.
    pub open spec fn covers(&self, id: u32) -> bool {
        self.channels@.len() == 0 || self.channels@.contains(id)
    }

    /// Everything, for all strips.
    pub fn all() -> (f: Self)
        ensures
            f.faders && f.mutes && f.solos && f.pans && f.eq && f.routing && f.names,
            f.channels@.len() == 0,
    {
        RecallFilter {
            faders: true,
            mutes: true,
            solos: true,
            pans: true,
            eq: true,
            routing: true,
            names: true,
            channels: Vec::new(),
        }
    }

    /// Faders and mutes, for all strips.
    pub fn faders_only() -> (f: Self)
        ensures
            f.faders && f.mutes,
            !f.solos && !f.pans && !f.eq && !f.routing && !f.names,
            f.channels@.len() == 0,
    {
        RecallFilter {
            faders: true,
            mutes: true,
            solos: false,
            pans: false,
            eq: false,
            routing: false,
            names: false,
            channels: Vec::new(),
        }
    }

    /// The routing and nothing else.
    pub fn routing_only() -> (f: Self)
        ensures
            f.routing,
            !f.faders && !f.mutes && !f.solos && !f.pans && !f.eq && !f.names,
            f.channels@.len() == 0,
    {
        RecallFilter {
            faders: false,
            mutes: false,
            solos: false,
            pans: false,
            eq: false,
            routing: true,
            names: false,
            channels: Vec::new(),
        }
    }

    /// Whether the filter takes the strip `id` back.
    pub fn includes(&self, id: u32) -> (b: bool)
        ensures
            b == self.covers(id),
    {
        if self.channels.len() == 0 {
            return true;
        }
        let mut i: usize = 0;
        while i < self.channels.len()
            invariant
                i <= self.channels@.len(),
                forall|k: int| 0 <= k < i ==> self.channels@[k] != id,
            decreases self.channels@.len() - i,
        {
            if self.channels[i] == id {
                return true;
            }
            i = i + 1;
        }
        false
    }
}

impl Default for RecallFilter {
    /// Nothing, for all strips.
    fn default() -> (f: Self)
        ensures
            !f.faders && !f.mutes && !f.solos && !f.pans && !f.eq && !f.routing && !f.names,
            f.channels@.len() == 0,
    {
        RecallFilter {
            faders: false,
            mutes: false,
            solos: false,
            pans: false,
            eq: false,
            routing: false,
            names: false,
            channels: Vec::new(),
        }
    }
}

/// Shape of an equaliser band in a scene.
#[derive(Debug, Clone, Copy, PartialEq, Eq, Structural)]
pub enum EqFilterType {
    Peak,
    LowShelf,
    HighShelf,
    LowPass,
    HighPass,
}

impl Default for EqFilterType {
    fn default() -> (t: Self)
        ensures
            t == EqFilterType::Peak,
    {
        EqFilterType::Peak
    }
}

} // verus!
