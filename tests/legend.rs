use spek_core::audio::AudioMetadata;
use spek_core::color::{SpekColorMapper, INTENSITY_MAX};
use spek_core::image::ImageBuffer;
use spek_core::label::time_label;
use spek_core::legend::{LegendCommand, LegendContext, LegendMargins, LegendSettings, SimpleLegendRenderer};
use spek_core::overlay::{apply_legend_overlay, draw_dbfs_gradient, put_pixel, LegendCompositor};
use spek_core::render::ChannelMode;
use spek_core::color::Rgba;

fn context(channels: u16, mode: ChannelMode) -> LegendContext {
    LegendContext {
        audio: AudioMetadata { sample_rate: 44100, channels, total_samples: 44100, bit_depth: Some(16) },
        duration_ms: 125_000,
        min_db: -120,
        max_db: 0,
        channel_mode: mode,
        file_name: Some("take.wav".to_string()),
        app_version: Some("spek-core 0.1.0".to_string()),
    }
}

fn legend_settings() -> LegendSettings {
    LegendSettings { font_size: 14, freq_ticks: 10, time_ticks: 10, db_ticks: 6 }
}

fn margins() -> LegendMargins {
    LegendMargins { left: 80, right: 100, top: 60, bottom: 60 }
}

fn texts(cmds: &[LegendCommand]) -> Vec<(u32, u32, String)> {
    cmds.iter()
        .filter_map(|c| match c {
            LegendCommand::Text { x, y, content } => Some((*x, *y, content.clone())),
            _ => None,
        })
        .collect()
}

fn blank(width: usize, height: usize) -> ImageBuffer {
    let mut data = vec![0u8; width * height * 4];
    for p in 0..width * height {
        data[p * 4 + 3] = 255;
    }
    ImageBuffer { width, height, data }
}

fn pixel(img: &ImageBuffer, x: usize, y: usize) -> [u8; 4] {
    let i = (y * img.width + x) * 4;
    [img.data[i], img.data[i + 1], img.data[i + 2], img.data[i + 3]]
}

#[test]
fn header_and_frame_come_first() {
    let cmds = SimpleLegendRenderer::new().generate(&legend_settings(), &context(2, ChannelMode::Combined), margins(), 1024, 512);
    let t = texts(&cmds);
    assert_eq!(t[0], (80, 38, "take.wav".to_string()));
    assert_eq!(t[1], (422, 38, "44100 Hz · Stereo · 16-bit".to_string()));
    assert_eq!(t[2], (784, 38, "spek-core 0.1.0".to_string()));
    let lines: Vec<&LegendCommand> = cmds.iter().filter(|c| matches!(c, LegendCommand::Line { .. })).collect();
    assert!(matches!(lines[0], LegendCommand::Line { x1: 80, y1: 60, x2: 80, y2: 452 }));
    assert!(matches!(lines[1], LegendCommand::Line { x1: 80, y1: 452, x2: 924, y2: 452 }));
    assert!(matches!(lines[2], LegendCommand::Line { x1: 924, y1: 60, x2: 924, y2: 452 }));
}

#[test]
fn audio_info_variants() {
    let mut ctx = context(1, ChannelMode::Combined);
    ctx.audio.bit_depth = None;
    ctx.file_name = None;
    ctx.app_version = None;
    let t = texts(&SimpleLegendRenderer::new().generate(&legend_settings(), &ctx, margins(), 1024, 512));
    assert_eq!(t[0].2, "44100 Hz · Mono · unknown bit");
    ctx.audio.channels = 6;
    let t = texts(&SimpleLegendRenderer::new().generate(&legend_settings(), &ctx, margins(), 1024, 512));
    assert_eq!(t[0].2, "44100 Hz · 6 ch · unknown bit");
}

#[test]
fn time_axis_labels() {
    let t = texts(&SimpleLegendRenderer::new().generate(&legend_settings(), &context(1, ChannelMode::Combined), margins(), 1024, 512));
    let labels: Vec<String> = t.iter().filter(|(_, y, _)| *y == 462).map(|(_, _, s)| s.clone()).collect();
    assert_eq!(labels, vec!["0:00", "0:12", "0:25", "0:37", "0:50", "1:02", "1:15", "1:27", "1:40", "1:52", "2:05"]);
    // Ticks at L + round((R - L) * i / 10): 80 + round(84.4 i).
    let xs: Vec<u32> = t.iter().filter(|(_, y, _)| *y == 462).map(|(x, _, _)| *x + 14).collect();
    assert_eq!(xs, vec![80, 164, 249, 333, 418, 502, 586, 671, 755, 840, 924]);
    assert!(t.contains(&(484, 480, "Time".to_string())));
    assert_eq!(time_label(3725), "62:05");
}

#[test]
fn db_scale_labels() {
    let t = texts(&SimpleLegendRenderer::new().generate(&legend_settings(), &context(1, ChannelMode::Combined), margins(), 1024, 512));
    let labels: Vec<(u32, String)> = t.iter().filter(|(x, _, _)| *x == 934).map(|(_, y, s)| (*y, s.clone())).collect();
    assert_eq!(
        labels,
        vec![
            (445, "-120".to_string()),
            (380, "-100".to_string()),
            (314, "-80".to_string()),
            (249, "-60".to_string()),
            (184, "-40".to_string()),
            (118, "-20".to_string()),
            (53, "0".to_string()),
            (480, "dBFS".to_string()),
        ]
    );
}

#[test]
fn gradient_command_right_of_plot() {
    let cmds = SimpleLegendRenderer::new().generate(&legend_settings(), &context(1, ChannelMode::Combined), margins(), 1024, 512);
    let g: Vec<&LegendCommand> = cmds.iter().filter(|c| matches!(c, LegendCommand::DbfsGradient { .. })).collect();
    assert_eq!(g.len(), 1);
    assert!(matches!(g[0], LegendCommand::DbfsGradient { x: 958, y_top: 60, y_bottom: 452 }));
}

#[test]
fn mono_frequency_axis() {
    let t = texts(&SimpleLegendRenderer::new().generate(&legend_settings(), &context(1, ChannelMode::Combined), margins(), 1024, 512));
    let labels: Vec<String> = t.iter().filter(|(x, _, _)| *x == 4).map(|(_, _, s)| s.clone()).collect();
    // 392 rows, step max(24, 392 / 10) = 39, 392 / 39 = 10 intervals of 2205 Hz.
    assert_eq!(labels.len(), 11);
    assert_eq!(labels[0], "0 kHz");
    assert_eq!(labels[1], "2.2 kHz");
    assert_eq!(labels[10], "22.1 kHz");
}

#[test]
fn split_stereo_frequency_bands() {
    let cmds = SimpleLegendRenderer::new().generate(&legend_settings(), &context(2, ChannelMode::Split), margins(), 1024, 512);
    let t = texts(&cmds);
    let labels: Vec<(u32, String)> = t.iter().filter(|(x, _, _)| *x == 4).map(|(_, y, s)| (*y, s.clone())).collect();
    // Two bands of 196 rows, 5 intervals each; the lower band has no Nyquist label.
    assert_eq!(labels.len(), 6 + 5);
    assert_eq!(labels.iter().filter(|(_, s)| s == "22.1 kHz").count(), 1);
    assert_eq!(labels[0], (249, "0 kHz".to_string()));
    assert_eq!(labels[5], (53, "22.1 kHz".to_string()));
    assert_eq!(labels[6], (445, "0 kHz".to_string()));
    // Left ticks: six per band.
    let left_ticks = cmds.iter().filter(|c| matches!(c, LegendCommand::Line { x1: 74, x2: 80, .. })).count();
    assert_eq!(left_ticks, 12);
}

#[test]
fn commands_stay_inside_small_images() {
    let m = LegendMargins { left: 2, right: 3, top: 1, bottom: 2 };
    let cmds = SimpleLegendRenderer::new().generate(&legend_settings(), &context(2, ChannelMode::Split), m, 20, 10);
    for c in &cmds {
        match c {
            LegendCommand::Text { x, y, .. } => assert!(*x <= 20 && *y <= 10),
            LegendCommand::Line { x1, y1, x2, y2 } => assert!(*x1 <= 20 && *x2 <= 20 && *y1 <= 10 && *y2 <= 10),
            LegendCommand::DbfsGradient { x, y_top, y_bottom } => assert!(*x <= 20 && *y_top <= 10 && *y_bottom <= 10),
        }
    }
}

#[test]
fn zero_ticks_give_one_tick() {
    let s = LegendSettings { font_size: 14, freq_ticks: 0, time_ticks: 0, db_ticks: 0 };
    let t = texts(&SimpleLegendRenderer::new().generate(&s, &context(1, ChannelMode::Combined), margins(), 1024, 512));
    assert!(t.contains(&(66, 462, "0:00".to_string())));
    assert!(t.contains(&(934, 445, "-120".to_string())));
}

#[test]
fn lines_are_drawn_white() {
    let mut img = blank(10, 6);
    LegendCompositor::draw_line(&mut img, 1, 2, 8, 2, Rgba { r: 255, g: 255, b: 255, a: 255 });
    for x in 0..10 {
        let expected = if (1..=8).contains(&x) { [255, 255, 255, 255] } else { [0, 0, 0, 255] };
        assert_eq!(pixel(&img, x, 2), expected);
    }
    let mut diag = blank(5, 5);
    LegendCompositor::draw_line(&mut diag, 4, 4, 0, 0, Rgba { r: 9, g: 8, b: 7, a: 255 });
    for i in 0..5 {
        assert_eq!(pixel(&diag, i, i), [9, 8, 7, 255]);
    }
    assert_eq!(pixel(&diag, 1, 0), [0, 0, 0, 255]);
}

#[test]
fn pixels_outside_are_skipped() {
    let mut img = blank(4, 4);
    let before = img.data.clone();
    put_pixel(&mut img, 4, 0, Rgba { r: 1, g: 2, b: 3, a: 4 });
    put_pixel(&mut img, 0, 9, Rgba { r: 1, g: 2, b: 3, a: 4 });
    assert_eq!(img.data, before);
    LegendCompositor::draw_line(&mut img, 2, 1, 7, 1, Rgba { r: 255, g: 255, b: 255, a: 255 });
    assert_eq!(pixel(&img, 3, 1), [255, 255, 255, 255]);
}

#[test]
fn gradient_runs_bright_to_dark() {
    let mut img = blank(3, 11);
    draw_dbfs_gradient(&mut img, 1, 0, 10);
    let m = SpekColorMapper::new();
    let top = m.map(INTENSITY_MAX);
    let bottom = m.map(0);
    assert_eq!(pixel(&img, 1, 0), [top.r, top.g, top.b, 255]);
    assert_eq!(pixel(&img, 1, 10), [bottom.r, bottom.g, bottom.b, 255]);
    let mid = m.map(32767);
    assert_eq!(pixel(&img, 1, 5), [mid.r, mid.g, mid.b, 255]);
    assert_eq!(pixel(&img, 0, 5), [0, 0, 0, 255]);
}

#[test]
fn overlay_executes_all_commands() {
    let mut img = blank(12, 12);
    let cmds = vec![
        LegendCommand::Line { x1: 0, y1: 0, x2: 0, y2: 11 },
        LegendCommand::Text { x: 3, y: 3, content: "hidden".to_string() },
        LegendCommand::DbfsGradient { x: 11, y_top: 11, y_bottom: 0 },
    ];
    apply_legend_overlay(&mut img, &cmds);
    assert_eq!(pixel(&img, 0, 7), [255, 255, 255, 255]);
    assert_eq!(pixel(&img, 3, 3), [0, 0, 0, 255]);
    assert_eq!(pixel(&img, 11, 0), [255, 255, 255, 255]);
    for p in 0..144 {
        assert_eq!(img.data[p * 4 + 3], 255);
    }
}
