use spek_core::analysis::{plan_frames, frame_sample_index, AnalysisError, FrameLayout, Spectrogram, SpectrogramSet, WindowFunction};
use spek_core::api::{
    generate_spectrogram, map_analysis_error, map_audio_error, map_generate_error, validate_settings, GenerateError,
    ScaleMode, SpekError, SpekSettings, SpectrogramSettings,
};
use spek_core::audio::{parse_probe_output, AudioError, AudioMetadata, ProbeInfo};
use spek_core::color::{Rgba, SpekColorMapper, INTENSITY_MAX};
use spek_core::image::ImageBuffer;
use spek_core::render::{BasicRenderer, ChannelMode, CpuRenderer, Orientation, RenderError, RenderSettings};

fn filled(freq_bins: usize, time_bins: usize, level_of_bin: &dyn Fn(usize) -> u16) -> Spectrogram {
    let mut s = Spectrogram::new(freq_bins, time_bins);
    for f in 0..freq_bins {
        for t in 0..time_bins {
            s.set(f, t, level_of_bin(f));
        }
    }
    s
}

fn pixel(img: &ImageBuffer, x: usize, y: usize) -> [u8; 4] {
    let i = (y * img.width + x) * 4;
    [img.data[i], img.data[i + 1], img.data[i + 2], img.data[i + 3]]
}

fn rgba(c: Rgba) -> [u8; 4] {
    [c.r, c.g, c.b, c.a]
}

fn settings(width: usize, height: usize, channels: ChannelMode) -> RenderSettings {
    RenderSettings { width, height, orientation: Orientation::Vertical, channels }
}

fn spek_settings(render: RenderSettings) -> SpekSettings {
    SpekSettings {
        spectrogram: SpectrogramSettings {
            fft_size: 2048,
            hop_size: 512,
            window: WindowFunction::Hann,
            channels: render.channels,
            min_db: -120,
            max_db: 0,
            scale: ScaleMode::Log,
        },
        render,
    }
}

fn luma(c: Rgba) -> u32 {
    (299 * c.r as u32 + 587 * c.g as u32 + 114 * c.b as u32) / 1000
}

#[test]
fn palette_endpoints() {
    let m = SpekColorMapper::new();
    assert_eq!(m.map(0), Rgba { r: 48, g: 0, b: 12, a: 255 });
    assert_eq!(m.map(INTENSITY_MAX), Rgba { r: 255, g: 255, b: 255, a: 255 });
    assert!(luma(m.map(0)) < 64);
    assert!(luma(m.map(INTENSITY_MAX)) > 200);
}

#[test]
fn palette_luma_nondecreasing_at_256_points() {
    let m = SpekColorMapper::new();
    let mut prev = luma(m.map(0));
    for i in 1..256u32 {
        let c = m.map((i * 257) as u16);
        assert_eq!(c.a, 255);
        let l = luma(c);
        assert!(l >= prev, "luma drops at sample {}", i);
        prev = l;
    }
}

#[test]
fn palette_midpoint() {
    let m = SpekColorMapper::new();
    // Just below halfway, close to the cyan stop (0.45, 0.45, 0.40).
    assert_eq!(m.map(32767), Rgba { r: 79, g: 137, b: 92, a: 255 });
    // Just past it red truncates one lower: 255 * (0.45 - 0.1402) = 78.999.
    assert_eq!(m.map(32768), Rgba { r: 78, g: 137, b: 92, a: 255 });
}

#[test]
fn short_audio_is_analysis_error() {
    let r = plan_frames(512, 1, 2048, 512);
    assert_eq!(r, Err(AnalysisError::ProcessingFailed));
    assert_eq!(map_analysis_error(AnalysisError::ProcessingFailed), SpekError::AnalysisError);
}

#[test]
fn invalid_analysis_parameters() {
    assert_eq!(plan_frames(0, 1, 2048, 512), Err(AnalysisError::InvalidParameters));
    assert_eq!(plan_frames(44100, 1, 0, 512), Err(AnalysisError::InvalidParameters));
    assert_eq!(plan_frames(44100, 1, 2048, 0), Err(AnalysisError::InvalidParameters));
    assert_eq!(plan_frames(44100, 0, 2048, 512), Err(AnalysisError::InvalidParameters));
    assert_eq!(map_analysis_error(AnalysisError::InvalidParameters), SpekError::InvalidInput);
    assert_eq!(map_analysis_error(AnalysisError::Cancelled), SpekError::Cancelled);
}

#[test]
fn frame_layout_of_one_second() {
    let layout = plan_frames(44100, 1, 2048, 512).unwrap();
    assert_eq!(layout, FrameLayout { channels: 1, fft_size: 2048, hop_size: 512, freq_bins: 1024, time_bins: 82 });
    // Two seconds of stereo: 88200 samples per channel.
    let stereo = plan_frames(176400, 2, 2048, 512).unwrap();
    assert_eq!(stereo.time_bins, (88200 - 2048) / 512);
}

#[test]
fn frame_sample_indices() {
    let layout = plan_frames(1000, 2, 16, 4).unwrap();
    assert_eq!(frame_sample_index(&layout, 3, 5, 1, 1000), Some((3 * 4 + 5) * 2 + 1));
    assert_eq!(frame_sample_index(&layout, 200, 0, 0, 1000), None);
    assert_eq!(frame_sample_index(&layout, usize::MAX, 1, 0, 1000), None);
}

#[test]
fn zero_dimensions_are_render_errors() {
    let set = SpectrogramSet { channels: vec![filled(4, 4, &|_| 0)] };
    let r = BasicRenderer::new(SpekColorMapper::new());
    assert_eq!(r.render(&set, &settings(0, 10, ChannelMode::Combined)).unwrap_err(), RenderError::InvalidDimensions);
    assert_eq!(r.render(&set, &settings(10, 0, ChannelMode::Combined)).unwrap_err(), RenderError::InvalidDimensions);
    let api = generate_spectrogram(&set, &meta(1, 44100), &spek_settings(settings(0, 512, ChannelMode::Combined)), None, None);
    assert_eq!(api.unwrap_err(), SpekError::RenderError);
}

#[test]
fn empty_set_fails() {
    let r = BasicRenderer::new(SpekColorMapper::new());
    let empty = SpectrogramSet { channels: vec![] };
    assert_eq!(r.render(&empty, &settings(8, 8, ChannelMode::Combined)).unwrap_err(), RenderError::Failed);
    let no_frames = SpectrogramSet { channels: vec![Spectrogram::new(4, 0)] };
    assert_eq!(r.render(&no_frames, &settings(8, 8, ChannelMode::Combined)).unwrap_err(), RenderError::Failed);
}

#[test]
fn split_needs_a_row_per_channel() {
    let set = SpectrogramSet { channels: vec![filled(4, 4, &|_| 0), filled(4, 4, &|_| 0), filled(4, 4, &|_| 0)] };
    let r = BasicRenderer::new(SpekColorMapper::new());
    assert_eq!(r.render(&set, &settings(8, 2, ChannelMode::Split)).unwrap_err(), RenderError::InvalidDimensions);
    assert!(r.render(&set, &settings(8, 3, ChannelMode::Split)).is_ok());
}

fn meta(channels: u16, total_samples: u64) -> AudioMetadata {
    AudioMetadata { sample_rate: 44100, channels, total_samples, bit_depth: None }
}

#[test]
fn silence_mono_fills_plot_with_floor_color() {
    let set = SpectrogramSet { channels: vec![filled(1024, 82, &|_| 0)] };
    let s = spek_settings(settings(1024, 512, ChannelMode::Combined));
    let res = generate_spectrogram(&set, &meta(1, 44100), &s, None, None).unwrap();
    assert_eq!(res.image.data.len(), 1024 * 512 * 4);
    assert_eq!(res.duration_ms, 1000);
    assert_eq!(res.channels, 1);
    let floor = rgba(SpekColorMapper::new().map(0));
    for y in 61..452 {
        for x in 81..924 {
            assert_eq!(pixel(&res.image, x, y), floor);
        }
    }
    // Frame lines are white.
    assert_eq!(pixel(&res.image, 80, 200), [255, 255, 255, 255]);
    assert_eq!(pixel(&res.image, 500, 452), [255, 255, 255, 255]);
    for p in 0..1024 * 512 {
        assert_eq!(res.image.data[p * 4 + 3], 255);
    }
}

#[test]
fn dc_stereo_lights_lowest_bin() {
    let bright = |f: usize| if f == 0 { INTENSITY_MAX } else { 0 };
    let set = SpectrogramSet { channels: vec![filled(1024, 168, &bright), filled(1024, 168, &bright)] };
    let img = BasicRenderer::new(SpekColorMapper::new()).render(&set, &settings(1024, 512, ChannelMode::Combined)).unwrap();
    let white = [255, 255, 255, 255];
    let floor = rgba(SpekColorMapper::new().map(0));
    for x in 0..1024 {
        // Two bins per row: only the bottom row shows bin 0.
        assert_eq!(pixel(&img, x, 511), white);
        assert_eq!(pixel(&img, x, 510), floor);
        assert_eq!(pixel(&img, x, 0), floor);
    }
}

#[test]
fn half_nyquist_line_at_mid_height() {
    let set = SpectrogramSet { channels: vec![filled(1024, 82, &|f| if f == 512 { INTENSITY_MAX } else { 0 })] };
    let img = BasicRenderer::new(SpekColorMapper::new()).render(&set, &settings(1024, 512, ChannelMode::Combined)).unwrap();
    let white = [255, 255, 255, 255];
    for y in 0..512 {
        let expected = if y == 255 { white } else { rgba(SpekColorMapper::new().map(0)) };
        assert_eq!(pixel(&img, 17, y), expected, "row {}", y);
    }
}

#[test]
fn combined_mode_averages_channels() {
    let set = SpectrogramSet { channels: vec![filled(2, 2, &|_| 1000), filled(2, 2, &|_| 3001)] };
    let img = CpuRenderer::new().render(&set, &settings(2, 2, ChannelMode::Combined)).unwrap();
    // Mean level 2000 (rounded down), gray 2000 / 257 = 7.
    assert_eq!(pixel(&img, 0, 0), [7, 7, 7, 255]);
}

#[test]
fn split_stereo_halves() {
    let set = SpectrogramSet { channels: vec![filled(1024, 82, &|_| 0), filled(1024, 82, &|_| INTENSITY_MAX)] };
    let img = BasicRenderer::new(SpekColorMapper::new()).render(&set, &settings(1024, 512, ChannelMode::Split)).unwrap();
    let floor = rgba(SpekColorMapper::new().map(0));
    for y in 0..512 {
        let expected = if y < 256 { floor } else { [255, 255, 255, 255] };
        assert_eq!(pixel(&img, 300, y), expected, "row {}", y);
    }
}

#[test]
fn split_remainder_rows_go_to_last_channel() {
    let set = SpectrogramSet {
        channels: vec![filled(4, 4, &|_| 0), filled(4, 4, &|_| 0), filled(4, 4, &|_| INTENSITY_MAX)],
    };
    let img = CpuRenderer::new().render(&set, &settings(4, 11, ChannelMode::Split)).unwrap();
    // Bands of 3 rows: 0..3, 3..6, and 6..11 for the last channel.
    for y in 0..11 {
        let expected = if y >= 6 { [255, 255, 255, 255] } else { [0, 0, 0, 255] };
        assert_eq!(pixel(&img, 1, y), expected, "row {}", y);
    }
}

#[test]
fn horizontal_orientation_puts_time_down_the_rows() {
    let mut s = Spectrogram::new(1, 2);
    s.set(0, 1, INTENSITY_MAX);
    let set = SpectrogramSet { channels: vec![s] };
    let r = RenderSettings { width: 3, height: 4, orientation: Orientation::Horizontal, channels: ChannelMode::Combined };
    let img = CpuRenderer::new().render(&set, &r).unwrap();
    assert_eq!(pixel(&img, 1, 0), [0, 0, 0, 255]);
    assert_eq!(pixel(&img, 1, 3), [255, 255, 255, 255]);
}

#[test]
fn rendering_is_deterministic() {
    let set = SpectrogramSet { channels: vec![filled(16, 9, &|f| (f as u16) * 4000), filled(16, 9, &|f| 65535 - f as u16)] };
    let r = BasicRenderer::new(SpekColorMapper::new());
    let s = settings(33, 17, ChannelMode::Combined);
    assert_eq!(r.render(&set, &s).unwrap().data, r.render(&set, &s).unwrap().data);
}

#[test]
fn settings_validation() {
    let good = spek_settings(settings(1024, 512, ChannelMode::Combined)).spectrogram;
    assert_eq!(validate_settings(&good), Ok(()));
    assert_eq!(validate_settings(&SpectrogramSettings { fft_size: 1000, ..good }), Err(SpekError::InvalidInput));
    assert_eq!(validate_settings(&SpectrogramSettings { fft_size: 0, ..good }), Err(SpekError::InvalidInput));
    assert_eq!(validate_settings(&SpectrogramSettings { hop_size: 0, ..good }), Err(SpekError::InvalidInput));
    assert_eq!(validate_settings(&SpectrogramSettings { hop_size: 4096, ..good }), Err(SpekError::InvalidInput));
    assert_eq!(validate_settings(&SpectrogramSettings { max_db: -1, ..good }), Err(SpekError::InvalidInput));
    assert_eq!(validate_settings(&SpectrogramSettings { min_db: 0, ..good }), Err(SpekError::InvalidInput));
    assert_eq!(validate_settings(&SpectrogramSettings { fft_size: 1, hop_size: 1, ..good }), Ok(()));
}

#[test]
fn error_mapping() {
    for e in [AudioError::UnsupportedFormat, AudioError::DecodeFailed, AudioError::IoError, AudioError::Cancelled] {
        assert_eq!(map_audio_error(e), GenerateError::DecodeFailed);
    }
    assert_eq!(map_generate_error(GenerateError::DecodeFailed), SpekError::DecodeError);
    assert_eq!(map_generate_error(GenerateError::AnalysisFailed), SpekError::AnalysisError);
    assert_eq!(map_generate_error(GenerateError::RenderFailed), SpekError::RenderError);
}

#[test]
fn legend_needs_room_for_margins() {
    let set = SpectrogramSet { channels: vec![filled(4, 4, &|_| 0)] };
    let r = generate_spectrogram(&set, &meta(1, 44100), &spek_settings(settings(179, 512, ChannelMode::Combined)), None, None);
    assert_eq!(r.unwrap_err(), SpekError::RenderError);
    assert!(generate_spectrogram(&set, &meta(1, 44100), &spek_settings(settings(180, 120, ChannelMode::Combined)), None, None).is_ok());
}

#[test]
fn spectrogram_grid_access() {
    let mut s = Spectrogram::new(3, 5);
    assert_eq!(s.data.len(), 3);
    assert_eq!(s.data[2].len(), 5);
    s.set(1, 4, 77);
    assert_eq!(s.get(1, 4), 77);
    assert_eq!(s.get(0, 4), 0);
}

#[test]
fn probe_output_parsing() {
    assert_eq!(parse_probe_output(b"44100\n2\n"), Ok(ProbeInfo { sample_rate: 44100, channels: 2 }));
    assert_eq!(parse_probe_output(b"48000\r\n1"), Ok(ProbeInfo { sample_rate: 48000, channels: 1 }));
    assert_eq!(parse_probe_output(b"+8000\n+6\n"), Ok(ProbeInfo { sample_rate: 8000, channels: 6 }));
    assert_eq!(parse_probe_output(b"44100\n"), Err(AudioError::DecodeFailed));
    assert_eq!(parse_probe_output(b""), Err(AudioError::DecodeFailed));
    assert_eq!(parse_probe_output(b"44k\n2\n"), Err(AudioError::DecodeFailed));
    assert_eq!(parse_probe_output(b"44100\n65536\n"), Err(AudioError::DecodeFailed));
    assert_eq!(parse_probe_output(b"4294967296\n2\n"), Err(AudioError::DecodeFailed));
    assert_eq!(parse_probe_output(b"4294967295\n65535\n"), Ok(ProbeInfo { sample_rate: 4294967295, channels: 65535 }));
}
