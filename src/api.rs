//! Public entry points, settings and the stable error taxonomy.
//!
//! The driver takes the per-channel intensity grids produced by the analysis
//! stage, renders them, generates the legend and composites it onto the image.
use vstd::prelude::*;
use crate::analysis::{AnalysisError, SpectrogramSet, WindowFunction};
use crate::audio::{AudioError, AudioMetadata};
use crate::legend::{legend_ops, margins_fit, LegendContext, LegendMargins, LegendSettings, SimpleLegendRenderer};
use crate::overlay::{apply_legend_overlay, commands_drawn, white};
use crate::render::{render_failure, renders, BasicRenderer, ChannelMode, RenderError, RenderSettings};
use crate::color::SpekColorMapper;

pub use crate::image::ImageBuffer;

verus! {

/// Errors of the public API.
#[derive(Debug, Copy, Clone, PartialEq, Eq, Structural)]
pub enum SpekError {
    InvalidInput,
    DecodeError,
    AnalysisError,
    RenderError,
    Cancelled,
}

/// Errors of the generation stages, before they are made public.
#[derive(Debug, Copy, Clone, PartialEq, Eq, Structural)]
pub enum GenerateError {
    DecodeFailed,
    AnalysisFailed,
    RenderFailed,
}

/// Intensity scaling applied after the dBFS mapping.
#[derive(Debug, Copy, Clone, PartialEq, Eq, Structural)]
pub enum ScaleMode {
    Linear,
    Sqrt,
    Cbrt,
    Log,
}

/// Analysis settings. Decibel bounds are whole dBFS.
#[derive(Debug, Copy, Clone, PartialEq, Eq, Structural)]
pub struct SpectrogramSettings {
    pub fft_size: usize,
    pub hop_size: usize,
    pub window: WindowFunction,
    pub channels: ChannelMode,
    /// dBFS floor, below zero.
    pub min_db: i32,
    /// dBFS ceiling; the normalisation is against 0 dBFS, so it must be 0.
    pub max_db: i32,
    pub scale: ScaleMode,
}

/// Complete settings of one generation.
#[derive(Debug, Copy, Clone, PartialEq, Eq, Structural)]
pub struct SpekSettings {
    pub spectrogram: SpectrogramSettings,
    pub render: RenderSettings,
}

/// The finished image and facts about its source.
#[derive(Debug, Clone)]
pub struct SpectrogramResult {
    pub image: ImageBuffer,
    pub duration_ms: u64,
    pub sample_rate: u32,
    pub channels: u32,
}

/// Every audio failure is a decode failure to the caller.
pub fn map_audio_error(err: AudioError) -> (r: GenerateError)
    ensures
        r == GenerateError::DecodeFailed,
{
    match err {
        AudioError::UnsupportedFormat => GenerateError::DecodeFailed,
        AudioError::DecodeFailed => GenerateError::DecodeFailed,
        AudioError::IoError => GenerateError::DecodeFailed,
        AudioError::Cancelled => GenerateError::DecodeFailed,
    }
}

/// Public error of an analysis failure.
pub fn map_analysis_error(err: AnalysisError) -> (r: SpekError)
    ensures
        err == AnalysisError::InvalidParameters ==> r == SpekError::InvalidInput,
        err == AnalysisError::ProcessingFailed ==> r == SpekError::AnalysisError,
        err == AnalysisError::Cancelled ==> r == SpekError::Cancelled,
{
    match err {
        AnalysisError::InvalidParameters => SpekError::InvalidInput,
        AnalysisError::ProcessingFailed => SpekError::AnalysisError,
        AnalysisError::Cancelled => SpekError::Cancelled,
    }
}

/// Public error of a stage error.
pub fn map_generate_error(err: GenerateError) -> (r: SpekError)
    ensures
        err == GenerateError::DecodeFailed ==> r == SpekError::DecodeError,
        err == GenerateError::AnalysisFailed ==> r == SpekError::AnalysisError,
        err == GenerateError::RenderFailed ==> r == SpekError::RenderError,
{
    match err {
        GenerateError::DecodeFailed => SpekError::DecodeError,
        GenerateError::AnalysisFailed => SpekError::AnalysisError,
        GenerateError::RenderFailed => SpekError::RenderError,
    }
}

pub open spec fn is_power_of_two(n: nat) -> bool
    decreases n,
{
    if n <= 1 {
        n == 1
    } else {
        n % 2 == 0 && is_power_of_two(n / 2)
    }
}

/// The analysis settings are usable: the frame is a positive power of two,
/// the hop is positive and at most a frame, the floor is below 0 dBFS and the
/// ceiling is 0 dBFS.
pub open spec fn settings_valid(s: SpectrogramSettings) -> bool {
    &&& is_power_of_two(s.fft_size as nat)
    &&& 0 < s.hop_size <= s.fft_size
    &&& s.min_db < 0
    &&& s.max_db == 0
}

/// `Ok` exactly when `settings_valid`, else `InvalidInput`.
pub fn validate_settings(s: &SpectrogramSettings) -> (r: Result<(), SpekError>)
    ensures
        r is Ok <==> settings_valid(*s),
        r is Err ==> r == Err::<(), SpekError>(SpekError::InvalidInput),
{
    let mut m = s.fft_size;
    while m > 1 && m % 2 == 0
        invariant
            is_power_of_two(m as nat) == is_power_of_two(s.fft_size as nat),
        decreases m,
    {
        m = m / 2;
    }
    if m != 1 || s.hop_size == 0 || s.hop_size > s.fft_size || s.min_db >= 0 || s.max_db != 0 {
        Err(SpekError::InvalidInput)
    } else {
        Ok(())
    }
}

/// Margins of the legend around the plot.
pub open spec fn default_margins() -> LegendMargins {
    LegendMargins { left: 80, right: 100, top: 60, bottom: 60 }
}

/// Tick density and font size of the legend.
pub open spec fn default_legend_settings() -> LegendSettings {
    LegendSettings { font_size: 14, freq_ticks: 10, time_ticks: 10, db_ticks: 6 }
}

/// Clip duration in whole milliseconds (saturating; zero without a sample rate).
pub open spec fn duration_ms_of(meta: AudioMetadata) -> int {
    if meta.sample_rate == 0 {
        0
    } else if meta.total_samples * 1000 / meta.sample_rate as int > u64::MAX {
        u64::MAX as int
    } else {
        meta.total_samples * 1000 / meta.sample_rate as int
    }
}

/// What the legend of a generation describes.
pub open spec fn context_for(meta: AudioMetadata, s: SpekSettings, file_name: Option<String>, app_version: Option<String>) -> LegendContext {
    LegendContext {
        audio: meta,
        duration_ms: duration_ms_of(meta) as u64,
        min_db: s.spectrogram.min_db,
        max_db: s.spectrogram.max_db,
        channel_mode: s.render.channels,
        file_name,
        app_version,
    }
}

/// The legend fits on an image of this size.
pub open spec fn legend_fits(s: RenderSettings) -> bool {
    s.width <= u32::MAX && s.height <= u32::MAX && margins_fit(default_margins(), s.width as int, s.height as int)
}

fn duration_ms(meta: &AudioMetadata) -> (r: u64)
    ensures
        r == duration_ms_of(*meta),
{
    if meta.sample_rate == 0 {
        0
    } else {
        let d = (meta.total_samples as u128) * 1000 / (meta.sample_rate as u128);
        if d > u64::MAX as u128 {
            u64::MAX
        } else {
            d as u64
        }
    }
}

/// Renders `set` with the Spek palette, generates the legend for `meta` and
/// composites it in white.
///
/// Fails with `RenderError` when the set cannot be rendered (see
/// `render_failure`) or the image is too small for the legend margins.
/// Otherwise the image is the rendering of `set` with the legend commands
/// drawn over it, opaque everywhere.
pub fn generate_spectrogram(
    set: &SpectrogramSet,
    meta: &AudioMetadata,
    settings: &SpekSettings,
    file_name: Option<String>,
    app_version: Option<String>,
) -> (r: Result<SpectrogramResult, SpekError>)
    requires
        set.wf(),
        settings.render.width * settings.render.height * 4 <= usize::MAX,
    ensures
        r is Err <==> (render_failure(*set, settings.render) is Some || !legend_fits(settings.render)),
        r is Err ==> r->Err_0 == SpekError::RenderError,
        r is Ok ==> ({
            let res = r->Ok_0;
            let w = settings.render.width as int;
            let h = settings.render.height as int;
            &&& res.image.width == settings.render.width
            &&& res.image.height == settings.render.height
            &&& res.image.wf()
            &&& res.image.is_opaque()
            &&& res.duration_ms == duration_ms_of(*meta)
            &&& res.sample_rate == meta.sample_rate
            &&& res.channels == meta.channels
            &&& exists|plot: ImageBuffer|
                renders(*set, settings.render, false, plot) && commands_drawn(plot.data@, res.image.data@, w, h, legend_ops(
                    default_legend_settings(), context_for(*meta, *settings, file_name, app_version), default_margins(), w, h),
                    white())
        }),
{
    let renderer = BasicRenderer::new(SpekColorMapper::new());
    let mut image = match renderer.render(set, &settings.render) {
        Ok(img) => img,
        Err(_) => return Err(SpekError::RenderError),
    };
    let ghost plot = image;
    let margins = LegendMargins { left: 80, right: 100, top: 60, bottom: 60 };
    let w = settings.render.width;
    let h = settings.render.height;
    if w > u32::MAX as usize || h > u32::MAX as usize || w < 180 || h < 120 {
        return Err(SpekError::RenderError);
    }
    let context = LegendContext {
        audio: *meta,
        duration_ms: duration_ms(meta),
        min_db: settings.spectrogram.min_db,
        max_db: settings.spectrogram.max_db,
        channel_mode: settings.render.channels,
        file_name,
        app_version,
    };
    let legend_settings = LegendSettings { font_size: 14, freq_ticks: 10, time_ticks: 10, db_ticks: 6 };
    let legend = SimpleLegendRenderer::new();
    let commands = legend.generate(&legend_settings, &context, margins, w as u32, h as u32);
    apply_legend_overlay(&mut image, commands.as_slice());
    Ok(SpectrogramResult {
        image,
        duration_ms: context.duration_ms,
        sample_rate: meta.sample_rate,
        channels: meta.channels as u32,
    })
}

} // verus!
