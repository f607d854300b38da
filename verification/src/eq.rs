//! The shapes that a band of the parametric equaliser can take.

use vstd::prelude::*;

verus! {

/// The response of an equaliser band.
#[derive(Debug, Clone, Copy, PartialEq, Eq, Structural)]
pub enum FilterType {
    /// Boost or cut around a centre frequency.
    Peak,
    LowShelf,
    HighShelf,
    LowPass,
    HighPass,
    BandPass,
    Notch,
}

impl Default for FilterType {
    fn default() -> (t: Self)
        ensures
            t == FilterType::Peak,
    {
        FilterType::Peak
    }
}

/// Number of bands of the parametric equaliser.
pub const EQ_BANDS: usize = 4;

} // verus!
