//! Resampling of intensity grids onto a raster (nearest neighbour), with channel
//! layout and orientation.
use vstd::prelude::*;
use vstd::arithmetic::div_mod::{
    lemma_div_by_multiple, lemma_div_is_ordered, lemma_fundamental_div_mod,
    lemma_fundamental_div_mod_converse, lemma_mod_bound,
    lemma_multiply_divide_lt,
};
use crate::analysis::{Spectrogram, SpectrogramSet};
use crate::color::{palette_color, Rgba, SpekColorMapper};
use crate::image::pixel_bytes;

pub use crate::image::ImageBuffer;

verus! {

/// Which image axis carries time.
#[derive(Debug, Copy, Clone, PartialEq, Eq, Structural)]
pub enum Orientation {
    /// Time runs left to right, frequency bottom to top.
    Vertical,
    /// Time runs top to bottom, frequency right to left.
    Horizontal,
}

/// How several channels share the image.
#[derive(Debug, Copy, Clone, PartialEq, Eq, Structural)]
pub enum ChannelMode {
    /// One plot of the mean of all channels.
    Combined,
    /// One band per channel along the frequency axis.
    Split,
}

/// Output raster size and layout.
#[derive(Debug, Copy, Clone, PartialEq, Eq, Structural)]
pub struct RenderSettings {
    pub width: usize,
    pub height: usize,
    pub orientation: Orientation,
    pub channels: ChannelMode,
}

/// Render errors.
#[derive(Debug, Copy, Clone, PartialEq, Eq, Structural)]
pub enum RenderError {
    InvalidDimensions,
    Failed,
}

/// Pixels along the time axis.
pub open spec fn time_extent(s: RenderSettings) -> int {
    if s.orientation is Vertical { s.width as int } else { s.height as int }
}

/// Pixels along the frequency axis.
pub open spec fn freq_extent(s: RenderSettings) -> int {
    if s.orientation is Vertical { s.height as int } else { s.width as int }
}

/// Coordinate of pixel `(x, y)` along the time axis.
pub open spec fn time_coord(s: RenderSettings, x: int, y: int) -> int {
    if s.orientation is Vertical { x } else { y }
}

/// Coordinate of pixel `(x, y)` along the frequency axis.
pub open spec fn freq_coord(s: RenderSettings, x: int, y: int) -> int {
    if s.orientation is Vertical { y } else { x }
}

/// Nearest-neighbour bin for pixel `a` of `d` pixels over `n` bins.
pub open spec fn scale_index(a: int, n: int, d: int) -> int {
    a * n / d
}

/// In Split layout, the channel whose band holds coordinate `fc` of `extent`
/// pixels shared by `count` channels: bands of `extent / count` pixels, the
/// last one taking the remainder.
pub open spec fn split_channel(extent: int, count: int, fc: int) -> int {
    if fc / (extent / count) >= count - 1 { count - 1 } else { fc / (extent / count) }
}

/// Sum of the levels of the first `n` channels at `(f, t)`.
pub open spec fn level_sum(chs: Seq<Spectrogram>, f: int, t: int, n: int) -> int
    decreases n,
{
    if n <= 0 { 0 } else { level_sum(chs, f, t, n - 1) + chs[n - 1].level(f, t) }
}

/// The intensity level that pixel `(x, y)` shows.
pub open spec fn pixel_level(set: SpectrogramSet, s: RenderSettings, x: int, y: int) -> int {
    let count = set.channels@.len() as int;
    let t = scale_index(time_coord(s, x, y), set.time_bins(), time_extent(s));
    let fc = freq_coord(s, x, y);
    let e = freq_extent(s);
    if s.channels is Combined {
        level_sum(set.channels@, scale_index(e - 1 - fc, set.freq_bins(), e), t, count) / count
    } else {
        let band = e / count;
        let ch = split_channel(e, count, fc);
        set.channels@[ch].level(scale_index(band - 1 - fc % band, set.freq_bins(), band), t)
    }
}

/// Color of a level: the palette, or a gray ramp.
pub open spec fn shade(level: int, gray: bool) -> Rgba {
    if gray {
        Rgba { r: (level / 257) as u8, g: (level / 257) as u8, b: (level / 257) as u8, a: 255 }
    } else {
        palette_color(level)
    }
}

pub open spec fn rgba_bytes(c: Rgba) -> (u8, u8, u8, u8) {
    (c.r, c.g, c.b, c.a)
}

/// Why a set cannot be rendered with these settings, if it cannot.
pub open spec fn render_failure(set: SpectrogramSet, s: RenderSettings) -> Option<RenderError> {
    if s.width == 0 || s.height == 0 {
        Some(RenderError::InvalidDimensions)
    } else if set.channels@.len() == 0 || set.freq_bins() == 0 || set.time_bins() == 0 {
        Some(RenderError::Failed)
    } else if s.channels is Split && freq_extent(s) < set.channels@.len() {
        Some(RenderError::InvalidDimensions)
    } else {
        None
    }
}

/// `img` is the rendering of `set` under `s`: of the requested size, each
/// pixel (row-major index `p`) the shade of the level it shows.
pub open spec fn renders(set: SpectrogramSet, s: RenderSettings, gray: bool, img: ImageBuffer) -> bool {
    &&& img.width == s.width
    &&& img.height == s.height
    &&& img.wf()
    &&& forall|p: int|
        0 <= p < s.width * s.height ==> #[trigger] pixel_bytes(img.data@, p) == rgba_bytes(
            shade(pixel_level(set, s, p % (s.width as int), p / (s.width as int)), gray),
        )
}

/// Rendering is deterministic: two renderings of the same set under the same
/// settings are the same image, byte for byte.
pub proof fn lemma_render_deterministic(set: SpectrogramSet, s: RenderSettings, gray: bool, a: ImageBuffer, b: ImageBuffer)
    requires
        renders(set, s, gray, a),
        renders(set, s, gray, b),
    ensures
        a.width == b.width,
        a.height == b.height,
        a.data@ == b.data@,
{
    let w = s.width as int;
    let h = s.height as int;
    assert forall|i: int| 0 <= i < a.data@.len() implies a.data@[i] == b.data@[i] by {
        let p = i / 4;
        lemma_fundamental_div_mod_converse(i, 4, p, i % 4);
        assert(0 <= p < w * h);
        assert(pixel_bytes(a.data@, p) == pixel_bytes(b.data@, p));
    }
    assert(a.data@ =~= b.data@);
}

/// Split layout partitions the frequency axis (`extent` pixels) among `count`
/// channels: channel `c` below the last owns exactly the `extent / count`
/// pixels from `c * (extent / count)`, the last channel owns everything from
/// `(count - 1) * (extent / count)`, and the remainder it absorbs is under `count`.
pub proof fn lemma_split_bands(extent: int, count: int, fc: int, c: int)
    requires
        1 <= count <= extent,
        0 <= fc < extent,
        0 <= c < count,
    ensures
        c < count - 1 ==> (split_channel(extent, count, fc) == c <==> c * (extent / count) <= fc < (c + 1) * (
        extent / count)),
        split_channel(extent, count, fc) == count - 1 <==> fc >= (count - 1) * (extent / count),
        0 <= extent - count * (extent / count) < count,
{
    let band = extent / count;
    lemma_div_is_ordered(count, extent, count);
    lemma_div_by_multiple(1, count);
    assert(band >= 1);
    let q = fc / band;
    lemma_fundamental_div_mod(fc, band);
    lemma_mod_bound(fc, band);
    assert(q * band <= fc < (q + 1) * band) by (nonlinear_arith)
        requires fc == band * q + fc % band, 0 <= fc % band < band;
    lemma_fundamental_div_mod(extent, count);
    lemma_mod_bound(extent, count);
    if c * band <= fc < (c + 1) * band {
        assert((c + 1) * band == c * band + band) by (nonlinear_arith);
        lemma_fundamental_div_mod_converse(fc, band, c, fc - c * band);
    }
    if q >= count - 1 {
        assert(q * band >= (count - 1) * band) by (nonlinear_arith)
            requires q >= count - 1, band >= 1;
    } else {
        assert((q + 1) * band <= (count - 1) * band) by (nonlinear_arith)
            requires q + 1 <= count - 1, band >= 1;
    }
}

proof fn lemma_scale_index_bound(a: int, n: int, d: int)
    requires
        0 <= a < d,
        n > 0,
    ensures
        0 <= scale_index(a, n, d) < n,
{
    assert(a * n < d * n) by (nonlinear_arith)
        requires 0 <= a < d, n > 0;
    assert(0 <= a * n) by (nonlinear_arith)
        requires 0 <= a, n > 0;
    lemma_multiply_divide_lt(a * n, d, n);
    lemma_div_is_ordered(0, a * n, d);
}

fn scaled(a: usize, n: usize, d: usize) -> (r: usize)
    requires
        a < d,
        n > 0,
    ensures
        r == scale_index(a as int, n as int, d as int),
        r < n,
{
    proof {
        lemma_scale_index_bound(a as int, n as int, d as int);
        assert((a as int) * (n as int) < 0x1_0000_0000_0000_0000_0000_0000_0000_0000) by (nonlinear_arith)
            requires a < 0x1_0000_0000_0000_0000, n < 0x1_0000_0000_0000_0000;
    }
    ((a as u128) * (n as u128) / (d as u128)) as usize
}

proof fn lemma_level_sum_bound(chs: Seq<Spectrogram>, f: int, t: int, n: int)
    requires
        0 <= n <= chs.len(),
    ensures
        0 <= level_sum(chs, f, t, n) <= n * 65535,
    decreases n,
{
    if n > 0 {
        lemma_level_sum_bound(chs, f, t, n - 1);
    }
}

fn level_at(set: &SpectrogramSet, s: &RenderSettings, x: usize, y: usize) -> (r: u16)
    requires
        set.wf(),
        render_failure(*set, *s) is None,
        x < s.width,
        y < s.height,
    ensures
        r as int == pixel_level(*set, *s, x as int, y as int),
{
    let count = set.channels.len();
    let freq_bins = set.channels[0].freq_bins;
    let time_bins = set.channels[0].time_bins;
    let (tc, td, fc, fe) = match s.orientation {
        Orientation::Vertical => (x, s.width, y, s.height),
        Orientation::Horizontal => (y, s.height, x, s.width),
    };
    let t = scaled(tc, time_bins, td);
    match s.channels {
        ChannelMode::Combined => {
            let f = scaled(fe - 1 - fc, freq_bins, fe);
            let mut sum: u128 = 0;
            let mut i: usize = 0;
            while i < count
                invariant
                    set.wf(),
                    count == set.channels@.len(),
                    freq_bins == set.freq_bins(),
                    time_bins == set.time_bins(),
                    f < freq_bins,
                    t < time_bins,
                    i <= count,
                    sum == level_sum(set.channels@, f as int, t as int, i as int),
                    sum <= i * 65535,
                decreases count - i,
            {
                let v = set.channels[i].get(f, t);
                sum = sum + v as u128;
                i = i + 1;
            }
            proof {
                lemma_div_is_ordered(sum as int, count * 65535, count as int);
                lemma_div_by_multiple(65535, count as int);
                assert(count * 65535 == 65535 * count);
            }
            (sum / (count as u128)) as u16
        },
        ChannelMode::Split => {
            let band = fe / count;
            proof {
                lemma_div_is_ordered(count as int, fe as int, count as int);
                lemma_div_by_multiple(1, count as int);
            }
            let q = fc / band;
            let ch = if q >= count - 1 {
                count - 1
            } else {
                q
            };
            let local = fc % band;
            let f = scaled(band - 1 - local, freq_bins, band);
            set.channels[ch].get(f, t)
        },
    }
}

fn shade_of(mapper: &SpekColorMapper, level: u16, gray: bool) -> (r: Rgba)
    ensures
        r == shade(level as int, gray),
{
    if gray {
        let g = (level / 257) as u8;
        Rgba { r: g, g, b: g, a: 255 }
    } else {
        mapper.map(level)
    }
}

/// Shared body of the renderers: every pixel in row-major order.
fn render_shaded(set: &SpectrogramSet, s: &RenderSettings, mapper: &SpekColorMapper, gray: bool) -> (r: Result<ImageBuffer, RenderError>)
    requires
        set.wf(),
        s.width * s.height * 4 <= usize::MAX,
    ensures
        match r {
            Ok(img) => render_failure(*set, *s) is None && renders(*set, *s, gray, img) && img.is_opaque(),
            Err(e) => render_failure(*set, *s) == Some(e),
        },
{
    if s.width == 0 || s.height == 0 {
        return Err(RenderError::InvalidDimensions);
    }
    let count = set.channels.len();
    if count == 0 || set.channels[0].freq_bins == 0 || set.channels[0].time_bins == 0 {
        return Err(RenderError::Failed);
    }
    let fe = match s.orientation {
        Orientation::Vertical => s.height,
        Orientation::Horizontal => s.width,
    };
    match s.channels {
        ChannelMode::Split => {
            if fe < count {
                return Err(RenderError::InvalidDimensions);
            }
        },
        ChannelMode::Combined => {},
    }
    let w = s.width;
    let n = s.width * s.height;
    let mut data: Vec<u8> = Vec::new();
    let mut p: usize = 0;
    while p < n
        invariant
            set.wf(),
            render_failure(*set, *s) is None,
            w == s.width,
            n == s.width * s.height,
            n * 4 <= usize::MAX,
            p <= n,
            data@.len() == 4 * p,
            forall|j: int|
                0 <= j < p ==> #[trigger] pixel_bytes(data@, j) == rgba_bytes(
                    shade(pixel_level(*set, *s, j % (w as int), j / (w as int)), gray),
                ),
        decreases n - p,
    {
        let x = p % w;
        let y = p / w;
        proof {
            lemma_multiply_divide_lt(p as int, w as int, s.height as int);
        }
        let level = level_at(set, s, x, y);
        let c = shade_of(mapper, level, gray);
        let ghost before = data@;
        data.push(c.r);
        data.push(c.g);
        data.push(c.b);
        data.push(c.a);
        assert forall|j: int| 0 <= j < p + 1 implies #[trigger] pixel_bytes(data@, j) == rgba_bytes(
            shade(pixel_level(*set, *s, j % (w as int), j / (w as int)), gray),
        ) by {
            if j < p {
                assert(pixel_bytes(data@, j) == pixel_bytes(before, j));
            }
        }
        p = p + 1;
    }
    let img = ImageBuffer { width: s.width, height: s.height, data };
    assert forall|p: int| 0 <= p < img.pixel_count() implies #[trigger] img.data@[4 * p + 3] == 255u8 by {
        assert(pixel_bytes(img.data@, p).3 == 255u8);
    }
    Ok(img)
}

/// Renderer that colors with the Spek palette.
pub struct BasicRenderer {
    pub color_mapper: SpekColorMapper,
}

impl BasicRenderer {
    pub fn new(color_mapper: SpekColorMapper) -> (r: BasicRenderer) {
        BasicRenderer { color_mapper }
    }

    /// The palette rendering of `set`; fails as `render_failure` says.
    pub fn render(&self, set: &SpectrogramSet, settings: &RenderSettings) -> (r: Result<ImageBuffer, RenderError>)
        requires
            set.wf(),
            settings.width * settings.height * 4 <= usize::MAX,
        ensures
            match r {
                Ok(img) => render_failure(*set, *settings) is None && renders(*set, *settings, false, img)
                    && img.is_opaque(),
                Err(e) => render_failure(*set, *settings) == Some(e),
            },
    {
        render_shaded(set, settings, &self.color_mapper, false)
    }
}

/// Renderer that draws levels as a gray ramp.
pub struct CpuRenderer;

impl CpuRenderer {
    pub fn new() -> (r: CpuRenderer) {
        CpuRenderer
    }

    /// The gray rendering of `set`; fails as `render_failure` says.
    pub fn render(&self, set: &SpectrogramSet, settings: &RenderSettings) -> (r: Result<ImageBuffer, RenderError>)
        requires
            set.wf(),
            settings.width * settings.height * 4 <= usize::MAX,
        ensures
            match r {
                Ok(img) => render_failure(*set, *settings) is None && renders(*set, *settings, true, img)
                    && img.is_opaque(),
                Err(e) => render_failure(*set, *settings) == Some(e),
            },
    {
        render_shaded(set, settings, &SpekColorMapper::new(), true)
    }
}

} // verus!
