//! Frequency bands of a magnitude spectrum and the bin ranges they cover.
use vstd::prelude::*;
use crate::frames::{FFT_SIZE, HALF_FFT};

verus! {

/// The seven analysis bands of a frame's spectrum.
#[derive(Clone, Copy, Debug, PartialEq, Eq, Structural)]
pub enum Band {
    SubBass,
    Bass,
    LowMid,
    Mid,
    UpperMid,
    Presence,
    Brilliance,
}

/// The three bands that the smoothed output carries; each merges
/// neighbouring analysis bands by summing them.
#[derive(Clone, Copy, Debug, PartialEq, Eq, Structural)]
pub enum MergedBand {
    Bass,
    Mid,
    High,
}

/// Lower and upper edge of a band, in Hz.
pub open spec fn spec_band_edges(band: Band) -> (nat, nat) {
    match band {
        Band::SubBass => (20, 60),
        Band::Bass => (60, 250),
        Band::LowMid => (250, 500),
        Band::Mid => (500, 2000),
        Band::UpperMid => (2000, 4000),
        Band::Presence => (4000, 6000),
        Band::Brilliance => (6000, 20000),
    }
}

/// The merged output band that an analysis band is summed into.
pub open spec fn spec_merged(band: Band) -> MergedBand {
    match band {
        Band::SubBass | Band::Bass => MergedBand::Bass,
        Band::LowMid | Band::Mid => MergedBand::Mid,
        _ => MergedBand::High,
    }
}

/// Bin of frequency `hz` at `sample_rate` Hz: `floor(hz / (sample_rate / FFT_SIZE))`.
pub open spec fn spec_bin_of(hz: nat, sample_rate: nat) -> nat
    recommends
        sample_rate > 0,
{
    (hz * FFT_SIZE as nat / sample_rate) as nat
}

/// `b` capped at the number of kept bins.
pub open spec fn cap_bin(b: nat) -> nat {
    if b <= HALF_FFT { b } else { HALF_FFT as nat }
}

/// The half-open bin range `[low, high)` of a band: the bins of its edges,
/// both capped at the number of kept bins. The range is empty when
/// `low >= high`.
pub open spec fn spec_band_bins(low_hz: nat, high_hz: nat, sample_rate: nat) -> (nat, nat) {
    (cap_bin(spec_bin_of(low_hz, sample_rate)), cap_bin(spec_bin_of(high_hz, sample_rate)))
}

impl Band {
    /// All bands, from the lowest to the highest.
    pub fn all() -> (r: Vec<Band>)
        ensures
            r@ == seq![
                Band::SubBass,
                Band::Bass,
                Band::LowMid,
                Band::Mid,
                Band::UpperMid,
                Band::Presence,
                Band::Brilliance,
            ],
    {
        vec![
            Band::SubBass,
            Band::Bass,
            Band::LowMid,
            Band::Mid,
            Band::UpperMid,
            Band::Presence,
            Band::Brilliance,
        ]
    }

    /// Lower and upper edge of the band, in Hz.
    pub fn edges(&self) -> (r: (u32, u32))
        ensures
            (r.0 as nat, r.1 as nat) == spec_band_edges(*self),
    {
        match self {
            Band::SubBass => (20, 60),
            Band::Bass => (60, 250),
            Band::LowMid => (250, 500),
            Band::Mid => (500, 2000),
            Band::UpperMid => (2000, 4000),
            Band::Presence => (4000, 6000),
            Band::Brilliance => (6000, 20000),
        }
    }

    /// The merged output band this band contributes to.
    pub fn merged(&self) -> (r: MergedBand)
        ensures
            r == spec_merged(*self),
    {
        match self {
            Band::SubBass | Band::Bass => MergedBand::Bass,
            Band::LowMid | Band::Mid => MergedBand::Mid,
            _ => MergedBand::High,
        }
    }

    /// The bin range that the band covers at `sample_rate` Hz.
    pub fn bins(&self, sample_rate: u32) -> (r: (usize, usize))
        requires
            sample_rate > 0,
        ensures
            ({
                let e = spec_band_edges(*self);
                (r.0 as nat, r.1 as nat) == spec_band_bins(e.0, e.1, sample_rate as nat)
            }),
            r.1 <= HALF_FFT,
    {
        let (lo, hi) = self.edges();
        band_bins(lo, hi, sample_rate)
    }
}

/// The half-open range of spectrum bins between `low_hz` and `high_hz` at
/// `sample_rate` Hz, with the upper end capped at `HALF_FFT`.
pub fn band_bins(low_hz: u32, high_hz: u32, sample_rate: u32) -> (r: (usize, usize))
    requires
        sample_rate > 0,
    ensures
        (r.0 as nat, r.1 as nat) == spec_band_bins(low_hz as nat, high_hz as nat, sample_rate as nat),
        r.0 <= HALF_FFT,
        r.1 <= HALF_FFT,
{
    let sr = sample_rate as u64;
    let lo: u64 = low_hz as u64 * 2048 / sr;
    let hi: u64 = high_hz as u64 * 2048 / sr;
    let lo_capped: u64 = if lo <= HALF_FFT as u64 { lo } else { HALF_FFT as u64 };
    let hi_capped: u64 = if hi <= HALF_FFT as u64 { hi } else { HALF_FFT as u64 };
    (lo_capped as usize, hi_capped as usize)
}

} // verus!
