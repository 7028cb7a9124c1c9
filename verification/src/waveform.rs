//! Integer skeleton of the chirp waveform generator.
//!
//! The generator proper computes `cos`/`sin` of a quadratic phase and an
//! amplitude window, all in floating point; none of that is decided here.
//! What is decided here, and verified, is the discrete structure around it:
//! which sample indices fall into the tapered edges and which window
//! arguments they are given, and how a sample's components are selected
//! (a real-only waveform carries an imaginary part that is exactly zero).
//!
//! Sample components cross the boundary as raw IEEE-754 single-precision
//! bit patterns (`u32`), so that the selection logic can be stated and
//! proved exactly without this crate ever holding a floating-point value.

use vstd::prelude::*;

verus! {

/// Whether the generated waveform carries an imaginary component.
#[derive(Clone, Copy, Debug, PartialEq, Eq, Structural)]
pub enum ComplexType {
    Real,
    Complex,
}

/// The amplitude window applied to the tapered edges of the waveform.
#[derive(Clone, Copy, Debug, PartialEq, Eq, Structural)]
pub enum WindowingType {
    NoWindow,
    Hanning,
    Hamming,
    Blackman,
}

/// One evaluation request for a window formula: which formula, the 1-based
/// sample number `n`, and the full window width `2 * windowed_edge_samples`.
/// The caller turns this into the scale
/// `0.5 * (1 - cos(2*pi*n / (width - 1)))` (Hanning) and its Hamming and
/// Blackman variants; a sample with no request keeps unit scale.
#[derive(Clone, Copy, Debug, PartialEq, Eq, Structural)]
pub struct TaperPoint {
    pub kind: WindowingType,
    pub n: i64,
    pub width: i64,
}

/// One waveform sample; both components are raw IEEE-754 single-precision
/// bit patterns. The pattern `0` is positive zero exactly.
#[derive(Clone, Copy, Debug, PartialEq, Eq, Structural)]
pub struct SampleBits {
    pub re_bits: u32,
    pub im_bits: u32,
}

/// The discrete shape of one waveform: the derived sample counts together
/// with the signal and windowing policies. The two counts are derived by
/// the caller from the continuous configuration as
/// `total_samples = floor(length_sec * sample_rate_hz)` and
/// `windowed_edge_samples = floor(total_samples * (1 - unwindowed_fraction) / 2)`.
#[derive(Clone, Copy, Debug, PartialEq, Eq, Structural)]
pub struct WaveformPlan {
    pub total_samples: i32,
    pub windowed_edge_samples: i32,
    pub ctype: ComplexType,
    pub windowing: WindowingType,
}

impl WaveformPlan {
    /// The counts a fraction in `[0, 1]` always produces: no negative edge,
    /// and the two edges never overlap the middle.
    pub open spec fn well_formed(self) -> bool {
        0 <= self.windowed_edge_samples && 2 * self.windowed_edge_samples <= self.total_samples
    }

    /// Index `i` lies in the leading or trailing tapered edge: among the
    /// first `windowed_edge_samples` indices of the buffer, or among the
    /// last, which begin at `total_samples - windowed_edge_samples`. An
    /// empty edge claims no index at all, so a fully unwindowed waveform
    /// tapers nowhere; indices past `total_samples`, which generation
    /// never produces, still fall to the window dispatch.
    pub open spec fn in_tapered_region(self, i: int) -> bool {
        i < self.windowed_edge_samples || (self.windowed_edge_samples > 0 && i
            >= self.total_samples - self.windowed_edge_samples) || i > self.total_samples
    }

    /// The window evaluation owed to sample `i`: a request for the selected
    /// formula when `i` lies in a tapered edge, and nothing (unit scale)
    /// otherwise or when windowing is disabled.
    pub open spec fn spec_taper_point(self, i: int) -> Option<TaperPoint> {
        if !(self.windowing is NoWindow) && self.in_tapered_region(i) {
            Some(
                TaperPoint {
                    kind: self.windowing,
                    n: (i + 1) as i64,
                    width: (2 * self.windowed_edge_samples) as i64,
                },
            )
        } else {
            None
        }
    }

    /// The imaginary component a sample keeps: a real-only waveform forces
    /// it to exactly zero, a complex one keeps the oscillator's value.
    pub open spec fn spec_imag_bits(self, raw: u32) -> u32 {
        if self.ctype is Complex {
            raw
        } else {
            0u32
        }
    }

    pub fn new(
        total_samples: i32,
        windowed_edge_samples: i32,
        ctype: ComplexType,
        windowing: WindowingType,
    ) -> (plan: WaveformPlan)
        ensures
            plan == (WaveformPlan { total_samples, windowed_edge_samples, ctype, windowing }),
    {
        WaveformPlan { total_samples, windowed_edge_samples, ctype, windowing }
    }

    /// Decide whether sample `i` is tapered and, if so, with which window
    /// arguments.
    pub fn taper_point(&self, sample: i32) -> (r: Option<TaperPoint>)
        ensures
            r == self.spec_taper_point(sample as int),
    {
        let edge: i32 = self.windowed_edge_samples;
        if sample < edge || (edge > 0 && (sample as i64) >= (self.total_samples as i64) - (edge
            as i64)) || sample > self.total_samples {
            match self.windowing {
                WindowingType::NoWindow => None,
                WindowingType::Hanning | WindowingType::Hamming | WindowingType::Blackman => Some(
                    TaperPoint {
                        kind: self.windowing,
                        n: (sample as i64) + 1,
                        width: 2 * (edge as i64),
                    },
                ),
            }
        } else {
            None
        }
    }

    /// Select the components one sample keeps: the real part is always the
    /// oscillator's, the imaginary part only for a complex waveform.
    pub fn assemble_sample(&self, re_raw: u32, im_raw: u32) -> (s: SampleBits)
        ensures
            s.re_bits == re_raw,
            s.im_bits == self.spec_imag_bits(im_raw),
    {
        let im_bits: u32 = match self.ctype {
            ComplexType::Real => 0,
            ComplexType::Complex => im_raw,
        };
        SampleBits { re_bits: re_raw, im_bits }
    }

    /// Build the sample buffer wholesale from the per-index oscillator
    /// outputs: one sample per raw `(real, imaginary)` pair, in index
    /// order. The buffer is returned fresh, so repeated generation
    /// replaces the previous buffer rather than appending to it; for a
    /// real-only waveform every imaginary component of the result is
    /// exactly zero.
    pub fn assemble(&self, raw: &Vec<(u32, u32)>) -> (out: Vec<SampleBits>)
        ensures
            out@.len() == raw@.len(),
            forall|k: int|
                0 <= k < raw@.len() ==> out@[k] == (SampleBits {
                    re_bits: raw@[k].0,
                    im_bits: self.spec_imag_bits(raw@[k].1),
                }),
            self.ctype is Real ==> forall|k: int| 0 <= k < out@.len() ==> out@[k].im_bits == 0,
    {
        let mut out: Vec<SampleBits> = Vec::new();
        let mut idx: usize = 0;
        while idx < raw.len()
            invariant
                idx <= raw@.len(),
                out@.len() == idx,
                forall|k: int|
                    0 <= k < idx ==> out@[k] == (SampleBits {
                        re_bits: raw@[k].0,
                        im_bits: self.spec_imag_bits(raw@[k].1),
                    }),
            decreases raw@.len() - idx,
        {
            let pair: (u32, u32) = raw[idx];
            let s = self.assemble_sample(pair.0, pair.1);
            out.push(s);
            idx = idx + 1;
        }
        out
    }
}

/// For well-formed counts the two tapered edges are disjoint: no sample
/// index lies both in the leading and in the trailing edge, so each
/// tapered sample is owed exactly one window evaluation.
pub proof fn lemma_edges_disjoint(plan: WaveformPlan, i: int)
    requires
        plan.well_formed(),
    ensures
        !(i < plan.windowed_edge_samples && i >= plan.total_samples - plan.windowed_edge_samples),
{
}

/// With windowing disabled, no sample is ever tapered: every index keeps
/// unit scale, whatever the edge width or the fraction it came from.
pub proof fn lemma_no_window_all_unit(plan: WaveformPlan, i: int)
    requires
        plan.windowing is NoWindow,
    ensures
        plan.spec_taper_point(i) is None,
{
}

/// With no tapered edge samples — the shape every fully unwindowed
/// configuration derives — nothing is tapered: every buffer index, the
/// past-the-end index included, keeps unit scale.
pub proof fn lemma_no_edge_all_unit(plan: WaveformPlan, i: int)
    requires
        plan.windowed_edge_samples == 0,
        0 <= i <= plan.total_samples,
    ensures
        plan.spec_taper_point(i) is None,
{
}

} // verus!
