//! Per-channel intensity grids and the framing rules of the short-time analysis.
//!
//! The numerical transform itself (window, FFT, power to dBFS, scaling) runs in
//! floating point outside this library; what it hands over is a grid of
//! intensity levels (see `crate::color::INTENSITY_MAX`).
use vstd::prelude::*;

verus! {

/// Window function applied to each frame before the transform.
/// `Nuttall`, `Kaiser` and `FlatTop` are reserved and fall back to `Rectangular`.
#[derive(Debug, Copy, Clone, PartialEq, Eq, Structural)]
pub enum WindowFunction {
    Rectangular,
    Hann,
    Hamming,
    Blackman,
    Nuttall,
    Kaiser,
    FlatTop,
}

/// Analysis errors.
#[derive(Debug, Copy, Clone, PartialEq, Eq, Structural)]
pub enum AnalysisError {
    InvalidParameters,
    ProcessingFailed,
    Cancelled,
}

/// Intensity grid of one channel, frequency-major: `data[f][t]`.
#[derive(Debug, Clone)]
pub struct Spectrogram {
    pub freq_bins: usize,
    pub time_bins: usize,
    pub data: Vec<Vec<u16>>,
}

impl Spectrogram {
    /// The grid has `freq_bins` rows of `time_bins` levels each.
    pub open spec fn wf(&self) -> bool {
        &&& self.data@.len() == self.freq_bins
        &&& forall|f: int| 0 <= f < self.freq_bins ==> (#[trigger] self.data@[f])@.len() == self.time_bins
    }

    /// Level at frequency bin `f` and frame `t`.
    pub open spec fn level(&self, f: int, t: int) -> int {
        self.data@[f]@[t] as int
    }

    /// A grid of the given size with every level at zero.
    pub fn new(freq_bins: usize, time_bins: usize) -> (r: Spectrogram)
        ensures
            r.wf(),
            r.freq_bins == freq_bins,
            r.time_bins == time_bins,
            forall|f: int, t: int| 0 <= f < freq_bins && 0 <= t < time_bins ==> #[trigger] r.level(f, t) == 0,
    {
        let mut data: Vec<Vec<u16>> = Vec::new();
        let mut f: usize = 0;
        while f < freq_bins
            invariant
                f <= freq_bins,
                data@.len() == f,
                forall|g: int| 0 <= g < f ==> (#[trigger] data@[g])@.len() == time_bins,
                forall|g: int, t: int| 0 <= g < f && 0 <= t < time_bins ==> #[trigger] data@[g]@[t] == 0,
            decreases freq_bins - f,
        {
            let mut row: Vec<u16> = Vec::new();
            let mut t: usize = 0;
            while t < time_bins
                invariant
                    t <= time_bins,
                    row@.len() == t,
                    forall|s: int| 0 <= s < t ==> #[trigger] row@[s] == 0,
                decreases time_bins - t,
            {
                row.push(0);
                t = t + 1;
            }
            data.push(row);
            f = f + 1;
        }
        Spectrogram { freq_bins, time_bins, data }
    }

    /// Level at frequency bin `f` and frame `t`.
    pub fn get(&self, f: usize, t: usize) -> (r: u16)
        requires
            self.wf(),
            f < self.freq_bins,
            t < self.time_bins,
        ensures
            r as int == self.level(f as int, t as int),
    {
        self.data[f][t]
    }

    /// Writes one level; every other level is kept.
    pub fn set(&mut self, f: usize, t: usize, level: u16)
        requires
            old(self).wf(),
            f < old(self).freq_bins,
            t < old(self).time_bins,
        ensures
            final(self).wf(),
            final(self).freq_bins == old(self).freq_bins,
            final(self).time_bins == old(self).time_bins,
            final(self).level(f as int, t as int) == level,
            forall|g: int, s: int|
                0 <= g < old(self).freq_bins && 0 <= s < old(self).time_bins && (g != f || s != t)
                    ==> #[trigger] final(self).level(g, s) == old(self).level(g, s),
    {
        let mut row = self.data[f].clone();
        row.set(t, level);
        self.data.set(f, row);
    }
}

/// Every intensity of a grid lies in `[0, INTENSITY_MAX]`, that is in `[0, 1]` of full scale.
pub proof fn lemma_level_in_range(s: Spectrogram, f: int, t: int)
    requires
        s.wf(),
        0 <= f < s.freq_bins,
        0 <= t < s.time_bins,
    ensures
        0 <= s.level(f, t) <= crate::color::INTENSITY_MAX,
{
}

/// One grid per channel, all of the same size.
#[derive(Debug, Clone)]
pub struct SpectrogramSet {
    pub channels: Vec<Spectrogram>,
}

impl SpectrogramSet {
    pub open spec fn freq_bins(&self) -> int {
        self.channels@[0].freq_bins as int
    }

    pub open spec fn time_bins(&self) -> int {
        self.channels@[0].time_bins as int
    }

    /// Every grid is well formed and has the size of the first.
    pub open spec fn wf(&self) -> bool {
        forall|c: int|
            0 <= c < self.channels@.len() ==> {
                &&& (#[trigger] self.channels@[c]).wf()
                &&& self.channels@[c].freq_bins == self.channels@[0].freq_bins
                &&& self.channels@[c].time_bins == self.channels@[0].time_bins
            }
    }
}

/// How the interleaved samples of a clip are cut into frames.
#[derive(Debug, Copy, Clone, PartialEq, Eq, Structural)]
pub struct FrameLayout {
    pub channels: usize,
    pub fft_size: usize,
    pub hop_size: usize,
    pub freq_bins: usize,
    pub time_bins: usize,
}

/// Number of whole frames: `(samples_per_channel - fft_size) / hop_size`, the
/// subtraction saturating at zero.
pub open spec fn frame_count(samples_per_channel: int, fft_size: int, hop_size: int) -> int {
    if samples_per_channel <= fft_size {
        0
    } else {
        (samples_per_channel - fft_size) / hop_size
    }
}

/// Framing of `sample_count` interleaved samples of `channels` channels into
/// frames of `fft_size` samples every `hop_size` samples: `InvalidParameters`
/// when a size is zero or there are no samples, `ProcessingFailed` when not one
/// whole frame fits.
pub open spec fn frame_plan(sample_count: int, channels: int, fft_size: int, hop_size: int) -> Result<FrameLayout, AnalysisError> {
    if fft_size == 0 || hop_size == 0 || channels == 0 || sample_count == 0 {
        Err(AnalysisError::InvalidParameters)
    } else if frame_count(sample_count / channels, fft_size, hop_size) == 0 {
        Err(AnalysisError::ProcessingFailed)
    } else {
        Ok(FrameLayout {
            channels: channels as usize,
            fft_size: fft_size as usize,
            hop_size: hop_size as usize,
            freq_bins: (fft_size / 2) as usize,
            time_bins: frame_count(sample_count / channels, fft_size, hop_size) as usize,
        })
    }
}

/// Cuts the samples into frames as `frame_plan` states.
pub fn plan_frames(sample_count: usize, channels: usize, fft_size: usize, hop_size: usize) -> (r: Result<FrameLayout, AnalysisError>)
    ensures
        r == frame_plan(sample_count as int, channels as int, fft_size as int, hop_size as int),
{
    if fft_size == 0 || hop_size == 0 || channels == 0 || sample_count == 0 {
        return Err(AnalysisError::InvalidParameters);
    }
    let per_channel = sample_count / channels;
    let time_bins = per_channel.saturating_sub(fft_size) / hop_size;
    if time_bins == 0 {
        return Err(AnalysisError::ProcessingFailed);
    }
    Ok(FrameLayout { channels, fft_size, hop_size, freq_bins: fft_size / 2, time_bins })
}

/// Index into the interleaved buffer of sample `i` of frame `t` of channel `ch`:
/// `(t * hop_size + i) * channels + ch`; `None` when that lies at or past `sample_count`.
pub fn frame_sample_index(layout: &FrameLayout, t: usize, i: usize, ch: usize, sample_count: usize) -> (r: Option<usize>)
    requires
        layout.channels > 0,
    ensures
        ((t * layout.hop_size + i) * layout.channels + ch < sample_count) ==> r == Some(
            ((t * layout.hop_size + i) * layout.channels + ch) as usize,
        ),
        ((t * layout.hop_size + i) * layout.channels + ch >= sample_count) ==> r is None,
{
    proof {
        let c = layout.channels as int;
        let x = t as int * layout.hop_size as int;
        assert((x + i) * c + ch >= x + i) by (nonlinear_arith)
            requires c >= 1, x >= 0, i >= 0, ch >= 0;
    }
    let a = match t.checked_mul(layout.hop_size) {
        Some(v) => v,
        None => return None,
    };
    let b = match a.checked_add(i) {
        Some(v) => v,
        None => return None,
    };
    let c = match b.checked_mul(layout.channels) {
        Some(v) => v,
        None => return None,
    };
    let idx = match c.checked_add(ch) {
        Some(v) => v,
        None => return None,
    };
    if idx < sample_count {
        Some(idx)
    } else {
        None
    }
}

/// Reference analyzer: its transform runs on an outside FFT library.
pub struct BasicAnalyzer;

/// Analyzer with its own radix-2 transform.
pub struct FftAnalyzer;

impl BasicAnalyzer {
    pub fn new() -> (r: BasicAnalyzer) {
        BasicAnalyzer
    }
}

impl FftAnalyzer {
    pub fn new() -> (r: FftAnalyzer) {
        FftAnalyzer
    }
}

} // verus!
