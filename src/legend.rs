//! Legend generation: axes, ticks, labels and the dBFS key, as draw commands.
//!
//! Layout: with `L = left margin`, `R = width - right margin`, `T = top margin`
//! and `B = height - bottom margin`, the plot is the box `[L, R] x [T, B]`.
//! Every coordinate is clipped to `[0, width] x [0, height]`; subtractions
//! saturate at zero.
use vstd::prelude::*;
use vstd::arithmetic::div_mod::{
    lemma_div_pos_is_pos, lemma_fundamental_div_mod, lemma_fundamental_div_mod_converse,
    lemma_mod_bound, lemma_multiply_divide_lt,
};
use crate::audio::AudioMetadata;
use crate::label::{
    decimal, freq_label, freq_text, push_decimal, push_signed_decimal, push_text, signed_decimal,
    time_label, time_text,
};
use crate::render::ChannelMode;

verus! {

/// Margins around the plot, in pixels.
#[derive(Debug, Copy, Clone, PartialEq, Eq, Structural)]
pub struct LegendMargins {
    pub left: u32,
    pub right: u32,
    pub top: u32,
    pub bottom: u32,
}

/// Density of the legend.
#[derive(Debug, Copy, Clone, PartialEq, Eq, Structural)]
pub struct LegendSettings {
    /// Font size in pixels; offsets labels.
    pub font_size: u32,
    /// Frequency tick density.
    pub freq_ticks: usize,
    /// Number of time intervals.
    pub time_ticks: usize,
    /// Number of dBFS intervals.
    pub db_ticks: usize,
}

/// What the legend describes.
#[derive(Debug, Clone)]
pub struct LegendContext {
    pub audio: AudioMetadata,
    /// Clip duration in milliseconds.
    pub duration_ms: u64,
    /// dBFS at the bottom of the key.
    pub min_db: i32,
    /// dBFS at the top of the key.
    pub max_db: i32,
    /// Channel layout of the plot the legend frames.
    pub channel_mode: ChannelMode,
    pub file_name: Option<String>,
    pub app_version: Option<String>,
}

/// A drawing command.
#[derive(Debug, Clone)]
pub enum LegendCommand {
    /// Text anchored at the top-left of its box.
    Text { x: u32, y: u32, content: String },
    /// One-pixel straight line.
    Line { x1: u32, y1: u32, x2: u32, y2: u32 },
    /// One-pixel-wide color key from 0 dBFS at `y_top` down to the floor at `y_bottom`.
    DbfsGradient { x: u32, y_top: u32, y_bottom: u32 },
}

/// Mathematical view of a drawing command.
pub enum DrawOp {
    Text { x: int, y: int, content: Seq<char> },
    Line { x1: int, y1: int, x2: int, y2: int },
    Gradient { x: int, y_top: int, y_bottom: int },
}

impl View for LegendCommand {
    type V = DrawOp;

    open spec fn view(&self) -> DrawOp {
        match self {
            LegendCommand::Text { x, y, content } => DrawOp::Text { x: *x as int, y: *y as int, content: content@ },
            LegendCommand::Line { x1, y1, x2, y2 } => DrawOp::Line {
                x1: *x1 as int,
                y1: *y1 as int,
                x2: *x2 as int,
                y2: *y2 as int,
            },
            LegendCommand::DbfsGradient { x, y_top, y_bottom } => DrawOp::Gradient {
                x: *x as int,
                y_top: *y_top as int,
                y_bottom: *y_bottom as int,
            },
        }
    }
}

pub open spec fn ops_of(cmds: Seq<LegendCommand>) -> Seq<DrawOp> {
    cmds.map_values(|c: LegendCommand| c@)
}

/// All coordinates of `op` lie in `[0, w] x [0, h]`.
pub open spec fn in_bounds(op: DrawOp, w: int, h: int) -> bool {
    match op {
        DrawOp::Text { x, y, .. } => 0 <= x <= w && 0 <= y <= h,
        DrawOp::Line { x1, y1, x2, y2 } => 0 <= x1 <= w && 0 <= x2 <= w && 0 <= y1 <= h && 0 <= y2 <= h,
        DrawOp::Gradient { x, y_top, y_bottom } => 0 <= x <= w && 0 <= y_top <= h && 0 <= y_bottom <= h,
    }
}

pub open spec fn all_in_bounds(ops: Seq<DrawOp>, w: int, h: int) -> bool {
    forall|k: int| 0 <= k < ops.len() ==> in_bounds(#[trigger] ops[k], w, h)
}

/// `a - b`, saturating at zero.
pub open spec fn sat(a: int, b: int) -> int {
    if a > b { a - b } else { 0 }
}

/// `v` capped at `hi`.
pub open spec fn clip(v: int, hi: int) -> int {
    if v > hi { hi } else { v }
}

/// `a / d` rounded to the nearest integer, halves up.
pub open spec fn round_ratio(a: int, d: int) -> int {
    (2 * a + d) / (2 * d)
}

/// `span * i / n` rounded; zero when `n` is zero.
pub open spec fn round_frac(span: int, i: int, n: int) -> int {
    if n == 0 { 0 } else { round_ratio(span * i, n) }
}

pub open spec fn left_of(m: LegendMargins) -> int {
    m.left as int
}

pub open spec fn right_of(m: LegendMargins, w: int) -> int {
    w - m.right
}

pub open spec fn top_of(m: LegendMargins) -> int {
    m.top as int
}

pub open spec fn bottom_of(m: LegendMargins, h: int) -> int {
    h - m.bottom
}

/// The margins leave a plot box inside the image.
pub open spec fn margins_fit(m: LegendMargins, w: int, h: int) -> bool {
    m.left + m.right <= w && m.top + m.bottom <= h
}

pub open spec fn channel_text(n: nat) -> Seq<char> {
    if n == 1 {
        "Mono"@
    } else if n == 2 {
        "Stereo"@
    } else {
        decimal(n) + " ch"@
    }
}

pub open spec fn depth_text(bits: Option<u16>) -> Seq<char> {
    match bits {
        Some(b) => decimal(b as nat) + "-bit"@,
        None => "unknown bit"@,
    }
}

/// `<rate> Hz · <channels> · <bit depth>`.
pub open spec fn audio_text(a: AudioMetadata) -> Seq<char> {
    decimal(a.sample_rate as nat) + " Hz · "@ + channel_text(a.channels as nat) + " · "@ + depth_text(a.bit_depth)
}

/// Header line above the plot: file name, audio facts, version.
pub open spec fn header_ops(s: LegendSettings, ctx: LegendContext, m: LegendMargins, w: int, h: int) -> Seq<DrawOp> {
    let hy = sat(top_of(m), s.font_size + 8);
    let name = match ctx.file_name {
        Some(n) => seq![DrawOp::Text { x: left_of(m), y: hy, content: n@ }],
        None => Seq::empty(),
    };
    let info = seq![DrawOp::Text { x: sat((left_of(m) + right_of(m, w)) / 2, 80), y: hy, content: audio_text(ctx.audio) }];
    let version = match ctx.app_version {
        Some(v) => seq![DrawOp::Text { x: sat(right_of(m, w), 140), y: hy, content: v@ }],
        None => Seq::empty(),
    };
    name + info + version
}

/// Left, bottom and right sides of the plot box.
pub open spec fn frame_ops(m: LegendMargins, w: int, h: int) -> Seq<DrawOp> {
    let (l, r, t, b) = (left_of(m), right_of(m, w), top_of(m), bottom_of(m, h));
    seq![
        DrawOp::Line { x1: l, y1: t, x2: l, y2: b },
        DrawOp::Line { x1: l, y1: b, x2: r, y2: b },
        DrawOp::Line { x1: r, y1: t, x2: r, y2: b },
    ]
}

/// Whole seconds at time tick `i` of `n`.
pub open spec fn seconds_at(duration_ms: int, i: int, n: int) -> int {
    if n == 0 { 0 } else { duration_ms * i / n / 1000 }
}

/// Time tick `i`: a tick below the plot, one above it, and an `m:ss` label.
pub open spec fn time_tick_ops(s: LegendSettings, ctx: LegendContext, m: LegendMargins, w: int, h: int, i: int) -> Seq<DrawOp> {
    let (l, r, t, b) = (left_of(m), right_of(m, w), top_of(m), bottom_of(m, h));
    let x = l + round_frac(r - l, i, s.time_ticks as int);
    seq![
        DrawOp::Line { x1: x, y1: b, x2: x, y2: clip(b + 6, h) },
        DrawOp::Line { x1: x, y1: sat(t, 6), x2: x, y2: t },
        DrawOp::Text { x: sat(x, 14), y: clip(b + 10, h), content: time_text(seconds_at(ctx.duration_ms as int, i, s.time_ticks as int) as nat) },
    ]
}

/// Time ticks `0 .. k`.
pub open spec fn time_ticks_upto(s: LegendSettings, ctx: LegendContext, m: LegendMargins, w: int, h: int, k: int) -> Seq<DrawOp>
    decreases k,
{
    if k <= 0 { Seq::empty() } else { time_ticks_upto(s, ctx, m, w, h, k - 1) + time_tick_ops(s, ctx, m, w, h, k - 1) }
}

/// The time axis: ticks `0 ..= time_ticks` and its title.
pub open spec fn time_ops(s: LegendSettings, ctx: LegendContext, m: LegendMargins, w: int, h: int) -> Seq<DrawOp> {
    let (l, r, b) = (left_of(m), right_of(m, w), bottom_of(m, h));
    time_ticks_upto(s, ctx, m, w, h, s.time_ticks + 1) + seq![DrawOp::Text { x: sat((l + r) / 2, 18), y: clip(b + 28, h), content: "Time"@ }]
}

/// Frequency bands: two for a split multi-channel plot, else one.
pub open spec fn band_count(ctx: LegendContext) -> int {
    if ctx.channel_mode is Split && ctx.audio.channels > 1 { 2 } else { 1 }
}

pub open spec fn band_height(ctx: LegendContext, m: LegendMargins, h: int) -> int {
    (bottom_of(m, h) - top_of(m)) / band_count(ctx)
}

/// Pixels per frequency tick: at least 24.
pub open spec fn tick_step(s: LegendSettings, m: LegendMargins, h: int) -> int {
    let per = (bottom_of(m, h) - top_of(m)) / (if s.freq_ticks < 2 { 2 } else { s.freq_ticks as int });
    if per < 24 { 24 } else { per }
}

/// Frequency intervals per band: at least 2.
pub open spec fn freq_tick_count(s: LegendSettings, ctx: LegendContext, m: LegendMargins, h: int) -> int {
    let n = band_height(ctx, m, h) / tick_step(s, m, h);
    if n < 2 { 2 } else { n }
}

/// Bottom row of band `ch`.
pub open spec fn band_bottom(ctx: LegendContext, m: LegendMargins, h: int, ch: int) -> int {
    if ch == 0 { top_of(m) + band_height(ctx, m, h) } else { top_of(m) + 2 * band_height(ctx, m, h) }
}

/// Frequency tick `i` of band `ch`: ticks on both sides, and a kHz label on the
/// left but for the Nyquist label of the lower of two bands.
pub open spec fn freq_tick_ops(s: LegendSettings, ctx: LegendContext, m: LegendMargins, w: int, h: int, ch: int, i: int) -> Seq<DrawOp> {
    let n = freq_tick_count(s, ctx, m, h);
    let y = band_bottom(ctx, m, h, ch) - round_frac(band_height(ctx, m, h), i, n);
    let (l, r) = (left_of(m), right_of(m, w));
    let lines = seq![
        DrawOp::Line { x1: sat(l, 6), y1: y, x2: l, y2: y },
        DrawOp::Line { x1: r, y1: y, x2: clip(r + 6, w), y2: y },
    ];
    if band_count(ctx) == 2 && ch == 1 && i == n {
        lines
    } else {
        lines.push(DrawOp::Text { x: clip(4, w), y: sat(y, s.font_size as int / 2), content: freq_text((ctx.audio.sample_rate * i) as nat, (2 * n) as nat) })
    }
}

/// Frequency ticks `0 .. k` of band `ch`.
pub open spec fn freq_ticks_upto(s: LegendSettings, ctx: LegendContext, m: LegendMargins, w: int, h: int, ch: int, k: int) -> Seq<DrawOp>
    decreases k,
{
    if k <= 0 { Seq::empty() } else { freq_ticks_upto(s, ctx, m, w, h, ch, k - 1) + freq_tick_ops(s, ctx, m, w, h, ch, k - 1) }
}

/// The frequency axis: ticks `0 ..= n` of each band, upper band first.
pub open spec fn freq_ops(s: LegendSettings, ctx: LegendContext, m: LegendMargins, w: int, h: int) -> Seq<DrawOp> {
    let n = freq_tick_count(s, ctx, m, h);
    freq_ticks_upto(s, ctx, m, w, h, 0, n + 1) + if band_count(ctx) == 2 { freq_ticks_upto(s, ctx, m, w, h, 1, n + 1) } else { Seq::empty() }
}

/// The dBFS key right of the plot.
pub open spec fn gradient_ops(m: LegendMargins, w: int, h: int) -> Seq<DrawOp> {
    seq![DrawOp::Gradient { x: clip(right_of(m, w) + 34, w), y_top: top_of(m), y_bottom: bottom_of(m, h) }]
}

/// dBFS at tick `i` of `n`, rounded to whole decibels.
pub open spec fn db_at(ctx: LegendContext, i: int, n: int) -> int {
    if n == 0 { ctx.min_db as int } else { round_ratio(ctx.min_db * n + (ctx.max_db - ctx.min_db) * i, n) }
}

/// dBFS tick `i`: a tick right of the plot and its label.
pub open spec fn db_tick_ops(s: LegendSettings, ctx: LegendContext, m: LegendMargins, w: int, h: int, i: int) -> Seq<DrawOp> {
    let (r, t, b) = (right_of(m, w), top_of(m), bottom_of(m, h));
    let y = b - round_frac(b - t, i, s.db_ticks as int);
    seq![
        DrawOp::Line { x1: r, y1: y, x2: clip(r + 6, w), y2: y },
        DrawOp::Text { x: clip(r + 10, w), y: sat(y, s.font_size as int / 2), content: signed_decimal(db_at(ctx, i, s.db_ticks as int)) },
    ]
}

pub open spec fn db_ticks_upto(s: LegendSettings, ctx: LegendContext, m: LegendMargins, w: int, h: int, k: int) -> Seq<DrawOp>
    decreases k,
{
    if k <= 0 { Seq::empty() } else { db_ticks_upto(s, ctx, m, w, h, k - 1) + db_tick_ops(s, ctx, m, w, h, k - 1) }
}

/// The dBFS scale: ticks `0 ..= db_ticks` and its title.
pub open spec fn db_ops(s: LegendSettings, ctx: LegendContext, m: LegendMargins, w: int, h: int) -> Seq<DrawOp> {
    let (r, b) = (right_of(m, w), bottom_of(m, h));
    db_ticks_upto(s, ctx, m, w, h, s.db_ticks + 1) + seq![DrawOp::Text { x: clip(r + 10, w), y: clip(b + 28, h), content: "dBFS"@ }]
}

/// The whole legend, in drawing order.
pub open spec fn legend_ops(s: LegendSettings, ctx: LegendContext, m: LegendMargins, w: int, h: int) -> Seq<DrawOp> {
    header_ops(s, ctx, m, w, h) + frame_ops(m, w, h) + time_ops(s, ctx, m, w, h) + freq_ops(s, ctx, m, w, h)
        + gradient_ops(m, w, h) + db_ops(s, ctx, m, w, h)
}

proof fn lemma_bounds_concat(a: Seq<DrawOp>, b: Seq<DrawOp>, w: int, h: int)
    requires
        all_in_bounds(a, w, h),
        all_in_bounds(b, w, h),
    ensures
        all_in_bounds(a + b, w, h),
{
    assert forall|k: int| 0 <= k < (a + b).len() implies in_bounds(#[trigger] (a + b)[k], w, h) by {
        if k >= a.len() {
            assert((a + b)[k] == b[k - a.len()]);
        }
    }
}

proof fn lemma_round_frac_bound(span: int, i: int, n: int)
    requires
        span >= 0,
        0 <= i <= n,
    ensures
        0 <= round_frac(span, i, n) <= span,
{
    if n > 0 {
        assert(0 <= span * i <= span * n) by (nonlinear_arith)
            requires span >= 0, 0 <= i <= n;
        assert(2 * (span * i) + n < (2 * n) * (span + 1)) by (nonlinear_arith)
            requires span * i <= span * n, n > 0, span >= 0;
        lemma_multiply_divide_lt(2 * (span * i) + n, 2 * n, span + 1);
        lemma_div_pos_is_pos(2 * (span * i) + n, 2 * n);
    }
}

fn emit(cmds: &mut Vec<LegendCommand>, c: LegendCommand)
    ensures
        ops_of(final(cmds)@) == ops_of(old(cmds)@).push(c@),
{
    cmds.push(c);
    assert(ops_of(cmds@) =~= ops_of(old(cmds)@).push(c@));
}

fn clip_to(v: u64, hi: u64) -> (r: u64)
    ensures
        r == clip(v as int, hi as int),
{
    if v > hi {
        hi
    } else {
        v
    }
}

fn rounded_frac(span: u64, i: u128, n: u128) -> (r: u64)
    requires
        span <= u32::MAX,
        i <= n,
        n <= u64::MAX,
    ensures
        r == round_frac(span as int, i as int, n as int),
        r <= span,
{
    proof {
        lemma_round_frac_bound(span as int, i as int, n as int);
    }
    if n == 0 {
        0
    } else {
        assert((span as int) * (i as int) <= 0x1_0000_0000 * 0x1_0000_0000_0000_0000) by (nonlinear_arith)
            requires span <= u32::MAX, i <= u64::MAX;
        ((2 * ((span as u128) * i) + n) / (2 * n)) as u64
    }
}

/// `a / d` rounded down, for any sign of `a`.
fn floor_div(a: i128, d: i128) -> (r: i128)
    requires
        d > 0,
        a > i128::MIN,
    ensures
        r == a / d,
{
    if a >= 0 {
        a / d
    } else {
        let q = (-a - 1) / d;
        proof {
            let ai = a as int;
            let di = d as int;
            let q0 = ai / di;
            lemma_fundamental_div_mod(ai, di);
            lemma_mod_bound(ai, di);
            assert(-ai - 1 == (-q0 - 1) * di + (di - 1 - ai % di)) by (nonlinear_arith)
                requires ai == di * q0 + ai % di;
            lemma_fundamental_div_mod_converse(-ai - 1, di, -q0 - 1, di - 1 - ai % di);
        }
        -q - 1
    }
}

fn audio_label(a: &AudioMetadata) -> (r: String)
    ensures
        r@ == audio_text(*a),
{
    let mut s = String::new();
    push_decimal(&mut s, a.sample_rate as u128);
    push_text(&mut s, " Hz · ");
    if a.channels == 1 {
        push_text(&mut s, "Mono");
    } else if a.channels == 2 {
        push_text(&mut s, "Stereo");
    } else {
        push_decimal(&mut s, a.channels as u128);
        push_text(&mut s, " ch");
    }
    push_text(&mut s, " · ");
    match a.bit_depth {
        Some(b) => {
            push_decimal(&mut s, b as u128);
            push_text(&mut s, "-bit");
        },
        None => {
            push_text(&mut s, "unknown bit");
        },
    }
    assert(s@ =~= audio_text(*a));
    s
}

fn emit_header(cmds: &mut Vec<LegendCommand>, s: &LegendSettings, ctx: &LegendContext, m: LegendMargins, w: u32, h: u32)
    requires
        margins_fit(m, w as int, h as int),
    ensures
        ops_of(final(cmds)@) == ops_of(old(cmds)@) + header_ops(*s, *ctx, m, w as int, h as int),
        all_in_bounds(header_ops(*s, *ctx, m, w as int, h as int), w as int, h as int),
{
    let left = m.left as u64;
    let right = w as u64 - m.right as u64;
    let hy = (m.top as u64).saturating_sub(s.font_size as u64 + 8);
    let ghost start = ops_of(cmds@);
    match &ctx.file_name {
        Some(name) => emit(cmds, LegendCommand::Text { x: left as u32, y: hy as u32, content: name.clone() }),
        None => {},
    }
    let info = audio_label(&ctx.audio);
    emit(cmds, LegendCommand::Text { x: ((left + right) / 2).saturating_sub(80) as u32, y: hy as u32, content: info });
    match &ctx.app_version {
        Some(v) => emit(cmds, LegendCommand::Text { x: right.saturating_sub(140) as u32, y: hy as u32, content: v.clone() }),
        None => {},
    }
    assert(ops_of(cmds@) =~= start + header_ops(*s, *ctx, m, w as int, h as int));
}

fn emit_frame(cmds: &mut Vec<LegendCommand>, m: LegendMargins, w: u32, h: u32)
    requires
        margins_fit(m, w as int, h as int),
    ensures
        ops_of(final(cmds)@) == ops_of(old(cmds)@) + frame_ops(m, w as int, h as int),
        all_in_bounds(frame_ops(m, w as int, h as int), w as int, h as int),
{
    let l = m.left;
    let r = w - m.right;
    let t = m.top;
    let b = h - m.bottom;
    emit(cmds, LegendCommand::Line { x1: l, y1: t, x2: l, y2: b });
    emit(cmds, LegendCommand::Line { x1: l, y1: b, x2: r, y2: b });
    emit(cmds, LegendCommand::Line { x1: r, y1: t, x2: r, y2: b });
    assert(ops_of(cmds@) =~= ops_of(old(cmds)@) + frame_ops(m, w as int, h as int));
}

fn emit_time_axis(cmds: &mut Vec<LegendCommand>, s: &LegendSettings, ctx: &LegendContext, m: LegendMargins, w: u32, h: u32)
    requires
        margins_fit(m, w as int, h as int),
    ensures
        ops_of(final(cmds)@) == ops_of(old(cmds)@) + time_ops(*s, *ctx, m, w as int, h as int),
        all_in_bounds(time_ops(*s, *ctx, m, w as int, h as int), w as int, h as int),
{
    let left = m.left as u64;
    let right = w as u64 - m.right as u64;
    let top = m.top as u64;
    let bottom = h as u64 - m.bottom as u64;
    let hh = h as u64;
    let n = s.time_ticks as u128;
    let ghost start = ops_of(cmds@);
    let ghost (wi, hi) = (w as int, h as int);
    let mut k: u128 = 0;
    while k <= n
        invariant
            margins_fit(m, wi, hi),
            wi == w,
            hi == h,
            left == m.left,
            right == w - m.right,
            top == m.top,
            bottom == h - m.bottom,
            hh == h,
            n == s.time_ticks,
            k <= n + 1,
            ops_of(cmds@) == start + time_ticks_upto(*s, *ctx, m, wi, hi, k as int),
            all_in_bounds(time_ticks_upto(*s, *ctx, m, wi, hi, k as int), wi, hi),
        decreases n + 1 - k,
    {
        let x = left + rounded_frac(right - left, k, n);
        let below = clip_to(bottom + 6, hh);
        emit(cmds, LegendCommand::Line { x1: x as u32, y1: bottom as u32, x2: x as u32, y2: below as u32 });
        emit(cmds, LegendCommand::Line { x1: x as u32, y1: top.saturating_sub(6) as u32, x2: x as u32, y2: top as u32 });
        let secs: u128 = if n == 0 {
            0
        } else {
            assert((ctx.duration_ms as int) * (k as int) <= 0xFFFF_FFFF_FFFF_FFFF * 0x1_0000_0000_0000_0000) by (nonlinear_arith)
                requires ctx.duration_ms <= u64::MAX, k <= 0x1_0000_0000_0000_0000;
            (ctx.duration_ms as u128) * k / n / 1000
        };
        let label = time_label(secs);
        emit(cmds, LegendCommand::Text { x: x.saturating_sub(14) as u32, y: clip_to(bottom + 10, hh) as u32, content: label });
        proof {
            let prev = time_ticks_upto(*s, *ctx, m, wi, hi, k as int);
            let tick = time_tick_ops(*s, *ctx, m, wi, hi, k as int);
            assert(in_bounds(tick[0], wi, hi));
            assert(in_bounds(tick[1], wi, hi));
            assert(in_bounds(tick[2], wi, hi));
            lemma_bounds_concat(prev, tick, wi, hi);
            assert(ops_of(cmds@) =~= start + time_ticks_upto(*s, *ctx, m, wi, hi, k + 1));
        }
        k = k + 1;
    }
    emit(cmds, LegendCommand::Text {
        x: ((left + right) / 2).saturating_sub(18) as u32,
        y: clip_to(bottom + 28, hh) as u32,
        content: "Time".to_string(),
    });
    proof {
        let ticks = time_ticks_upto(*s, *ctx, m, wi, hi, n + 1);
        let title = seq![DrawOp::Text { x: sat((m.left + right) / 2, 18), y: clip(bottom + 28, hi), content: "Time"@ }];
        assert(in_bounds(title[0], wi, hi));
        lemma_bounds_concat(ticks, title, wi, hi);
        assert(ops_of(cmds@) =~= start + time_ops(*s, *ctx, m, wi, hi));
    }
}

fn emit_freq_band(cmds: &mut Vec<LegendCommand>, s: &LegendSettings, ctx: &LegendContext, m: LegendMargins, w: u32, h: u32, ch: u64)
    requires
        margins_fit(m, w as int, h as int),
        ch < band_count(*ctx),
    ensures
        ops_of(final(cmds)@) == ops_of(old(cmds)@) + freq_ticks_upto(*s, *ctx, m, w as int, h as int, ch as int,
            freq_tick_count(*s, *ctx, m, h as int) + 1),
        all_in_bounds(freq_ticks_upto(*s, *ctx, m, w as int, h as int, ch as int, freq_tick_count(*s, *ctx, m, h as int) + 1),
            w as int, h as int),
{
    let top = m.top as u64;
    let bottom = h as u64 - m.bottom as u64;
    let height = bottom - top;
    let max_ticks: u64 = if s.freq_ticks < 2 {
        2
    } else {
        s.freq_ticks as u64
    };
    let per = height / max_ticks;
    let step: u64 = if per < 24 {
        24
    } else {
        per
    };
    let split = match ctx.channel_mode {
        ChannelMode::Split => ctx.audio.channels > 1,
        ChannelMode::Combined => false,
    };
    let bands: u64 = if split {
        2
    } else {
        1
    };
    let bh = height / bands;
    let n: u64 = if bh / step < 2 {
        2
    } else {
        bh / step
    };
    proof {
        lemma_fundamental_div_mod(height as int, bands as int);
        lemma_mod_bound(height as int, bands as int);
    }
    let base = if ch == 0 {
        top + bh
    } else {
        top + 2 * bh
    };
    let ghost start = ops_of(cmds@);
    let ghost (wi, hi) = (w as int, h as int);
    assert(n == freq_tick_count(*s, *ctx, m, hi));
    assert(bh == band_height(*ctx, m, hi));
    assert(base == band_bottom(*ctx, m, hi, ch as int));
    let mut k: u128 = 0;
    while k <= n as u128
        invariant
            margins_fit(m, wi, hi),
            wi == w,
            hi == h,
            ch < band_count(*ctx),
            n == freq_tick_count(*s, *ctx, m, hi),
            bh == band_height(*ctx, m, hi),
            base == band_bottom(*ctx, m, hi, ch as int),
            base <= h,
            bh <= base,
            bh <= u32::MAX,
            2 <= n <= bh || n == 2,
            bands == band_count(*ctx),
            k <= n + 1,
            ops_of(cmds@) == start + freq_ticks_upto(*s, *ctx, m, wi, hi, ch as int, k as int),
            all_in_bounds(freq_ticks_upto(*s, *ctx, m, wi, hi, ch as int, k as int), wi, hi),
        decreases n + 1 - k,
    {
        emit_freq_tick(cmds, s, ctx, m, w, h, ch, base, bh, n, k, bands == 2 && ch == 1 && k == n as u128);
        proof {
            let prev = freq_ticks_upto(*s, *ctx, m, wi, hi, ch as int, k as int);
            let tick = freq_tick_ops(*s, *ctx, m, wi, hi, ch as int, k as int);
            lemma_bounds_concat(prev, tick, wi, hi);
            assert(ops_of(cmds@) =~= start + freq_ticks_upto(*s, *ctx, m, wi, hi, ch as int, k + 1));
        }
        k = k + 1;
    }
}

/// Tick `k` of frequency band `ch`: `base` is the band's bottom row, `bh` its
/// height and `n` its interval count; `skip_label` drops the kHz label.
fn emit_freq_tick(
    cmds: &mut Vec<LegendCommand>,
    s: &LegendSettings,
    ctx: &LegendContext,
    m: LegendMargins,
    w: u32,
    h: u32,
    ch: u64,
    base: u64,
    bh: u64,
    n: u64,
    k: u128,
    skip_label: bool,
)
    requires
        margins_fit(m, w as int, h as int),
        ch < band_count(*ctx),
        n == freq_tick_count(*s, *ctx, m, h as int),
        bh == band_height(*ctx, m, h as int),
        base == band_bottom(*ctx, m, h as int, ch as int),
        base <= h,
        bh <= base,
        bh <= u32::MAX,
        2 <= n <= bh || n == 2,
        k <= n,
        skip_label == (band_count(*ctx) == 2 && ch == 1 && k == n),
    ensures
        ops_of(final(cmds)@) == ops_of(old(cmds)@) + freq_tick_ops(*s, *ctx, m, w as int, h as int, ch as int, k as int),
        all_in_bounds(freq_tick_ops(*s, *ctx, m, w as int, h as int, ch as int, k as int), w as int, h as int),
{
    let left = m.left as u64;
    let right = w as u64 - m.right as u64;
    let ww = w as u64;
    let y = base - rounded_frac(bh, k, n as u128);
    emit(cmds, LegendCommand::Line { x1: left.saturating_sub(6) as u32, y1: y as u32, x2: left as u32, y2: y as u32 });
    emit(cmds, LegendCommand::Line { x1: right as u32, y1: y as u32, x2: clip_to(right + 6, ww) as u32, y2: y as u32 });
    if !skip_label {
        assert((ctx.audio.sample_rate as int) * (k as int) <= 0x1_0000_0000 * 0x1_0000_0001) by (nonlinear_arith)
            requires ctx.audio.sample_rate <= u32::MAX, k <= 0x1_0000_0001;
        let label = freq_label((ctx.audio.sample_rate as u128) * k, 2 * (n as u128));
        emit(cmds, LegendCommand::Text {
            x: clip_to(4, ww) as u32,
            y: y.saturating_sub((s.font_size / 2) as u64) as u32,
            content: label,
        });
    }
    let ghost tick = freq_tick_ops(*s, *ctx, m, w as int, h as int, ch as int, k as int);
    assert forall|j: int| 0 <= j < tick.len() implies in_bounds(#[trigger] tick[j], w as int, h as int) by {}
    assert(ops_of(cmds@) =~= ops_of(old(cmds)@) + tick);
}

fn emit_freq_axis(cmds: &mut Vec<LegendCommand>, s: &LegendSettings, ctx: &LegendContext, m: LegendMargins, w: u32, h: u32)
    requires
        margins_fit(m, w as int, h as int),
    ensures
        ops_of(final(cmds)@) == ops_of(old(cmds)@) + freq_ops(*s, *ctx, m, w as int, h as int),
        all_in_bounds(freq_ops(*s, *ctx, m, w as int, h as int), w as int, h as int),
{
    let ghost start = ops_of(cmds@);
    let ghost n = freq_tick_count(*s, *ctx, m, h as int);
    emit_freq_band(cmds, s, ctx, m, w, h, 0);
    let split = match ctx.channel_mode {
        ChannelMode::Split => ctx.audio.channels > 1,
        ChannelMode::Combined => false,
    };
    if split {
        emit_freq_band(cmds, s, ctx, m, w, h, 1);
        proof {
            lemma_bounds_concat(freq_ticks_upto(*s, *ctx, m, w as int, h as int, 0, n + 1),
                freq_ticks_upto(*s, *ctx, m, w as int, h as int, 1, n + 1), w as int, h as int);
        }
    } else {
        proof {
            lemma_bounds_concat(freq_ticks_upto(*s, *ctx, m, w as int, h as int, 0, n + 1), Seq::empty(), w as int, h as int);
        }
    }
    assert(ops_of(cmds@) =~= start + freq_ops(*s, *ctx, m, w as int, h as int));
}

fn emit_gradient(cmds: &mut Vec<LegendCommand>, m: LegendMargins, w: u32, h: u32)
    requires
        margins_fit(m, w as int, h as int),
    ensures
        ops_of(final(cmds)@) == ops_of(old(cmds)@) + gradient_ops(m, w as int, h as int),
        all_in_bounds(gradient_ops(m, w as int, h as int), w as int, h as int),
{
    let right = w as u64 - m.right as u64;
    emit(cmds, LegendCommand::DbfsGradient { x: clip_to(right + 34, w as u64) as u32, y_top: m.top, y_bottom: h - m.bottom });
    assert(ops_of(cmds@) =~= ops_of(old(cmds)@) + gradient_ops(m, w as int, h as int));
}

fn db_label(min_db: i32, max_db: i32, k: u128, n: u128) -> (r: String)
    requires
        k <= n,
        n <= u64::MAX,
    ensures
        r@ == signed_decimal(if n == 0 { min_db as int } else { round_ratio(min_db * n + (max_db - min_db) * k, n as int) }),
{
    let db: i128 = if n == 0 {
        min_db as i128
    } else {
        let lo = min_db as i128;
        let span = (max_db as i128) - lo;
        let ni = n as i128;
        let ki = k as i128;
        assert(-0x1_0000_0000_0000_0000_0000_0000 <= lo * ni <= 0x1_0000_0000_0000_0000_0000_0000) by (nonlinear_arith)
            requires -0x8000_0000 <= lo <= 0x8000_0000, 0 <= ni <= 0x1_0000_0000_0000_0000;
        assert(-0x1_0000_0000_0000_0000_0000_0000_0 <= span * ki <= 0x1_0000_0000_0000_0000_0000_0000_0) by (nonlinear_arith)
            requires -0x1_0000_0000 <= span <= 0x1_0000_0000, 0 <= ki <= 0x1_0000_0000_0000_0000;
        floor_div(2 * (lo * ni + span * ki) + ni, 2 * ni)
    };
    let mut label = String::new();
    push_signed_decimal(&mut label, db);
    label
}

fn emit_db_axis(cmds: &mut Vec<LegendCommand>, s: &LegendSettings, ctx: &LegendContext, m: LegendMargins, w: u32, h: u32)
    requires
        margins_fit(m, w as int, h as int),
    ensures
        ops_of(final(cmds)@) == ops_of(old(cmds)@) + db_ops(*s, *ctx, m, w as int, h as int),
        all_in_bounds(db_ops(*s, *ctx, m, w as int, h as int), w as int, h as int),
{
    let right = w as u64 - m.right as u64;
    let top = m.top as u64;
    let bottom = h as u64 - m.bottom as u64;
    let ww = w as u64;
    let hh = h as u64;
    let n = s.db_ticks as u128;
    let ghost start = ops_of(cmds@);
    let ghost (wi, hi) = (w as int, h as int);
    let mut k: u128 = 0;
    while k <= n
        invariant
            margins_fit(m, wi, hi),
            wi == w,
            hi == h,
            right == w - m.right,
            top == m.top,
            bottom == h - m.bottom,
            ww == w,
            hh == h,
            n == s.db_ticks,
            k <= n + 1,
            ops_of(cmds@) == start + db_ticks_upto(*s, *ctx, m, wi, hi, k as int),
            all_in_bounds(db_ticks_upto(*s, *ctx, m, wi, hi, k as int), wi, hi),
        decreases n + 1 - k,
    {
        let y = bottom - rounded_frac(bottom - top, k, n);
        emit(cmds, LegendCommand::Line { x1: right as u32, y1: y as u32, x2: clip_to(right + 6, ww) as u32, y2: y as u32 });
        let label = db_label(ctx.min_db, ctx.max_db, k, n);
        emit(cmds, LegendCommand::Text {
            x: clip_to(right + 10, ww) as u32,
            y: y.saturating_sub((s.font_size / 2) as u64) as u32,
            content: label,
        });
        proof {
            let prev = db_ticks_upto(*s, *ctx, m, wi, hi, k as int);
            let tick = db_tick_ops(*s, *ctx, m, wi, hi, k as int);
            assert(in_bounds(tick[0], wi, hi));
            assert(in_bounds(tick[1], wi, hi));
            lemma_bounds_concat(prev, tick, wi, hi);
            assert(ops_of(cmds@) =~= start + db_ticks_upto(*s, *ctx, m, wi, hi, k + 1));
        }
        k = k + 1;
    }
    emit(cmds, LegendCommand::Text {
        x: clip_to(right + 10, ww) as u32,
        y: clip_to(bottom + 28, hh) as u32,
        content: "dBFS".to_string(),
    });
    proof {
        let ticks = db_ticks_upto(*s, *ctx, m, wi, hi, n + 1);
        let title = seq![DrawOp::Text { x: clip(right + 10, wi), y: clip(bottom + 28, hi), content: "dBFS"@ }];
        assert(in_bounds(title[0], wi, hi));
        lemma_bounds_concat(ticks, title, wi, hi);
        assert(ops_of(cmds@) =~= start + db_ops(*s, *ctx, m, wi, hi));
    }
}

/// Default legend generator: header, frame, time axis, frequency axis, dBFS key.
pub struct SimpleLegendRenderer;

impl SimpleLegendRenderer {
    pub fn new() -> (r: SimpleLegendRenderer) {
        SimpleLegendRenderer
    }

    /// The draw commands of the legend, in order: header, frame, time axis,
    /// frequency axis, dBFS gradient, dBFS scale. Every coordinate lies in
    /// `[0, image_width] x [0, image_height]`.
    pub fn generate(
        &self,
        settings: &LegendSettings,
        context: &LegendContext,
        margins: LegendMargins,
        image_width: u32,
        image_height: u32,
    ) -> (r: Vec<LegendCommand>)
        requires
            margins_fit(margins, image_width as int, image_height as int),
        ensures
            ops_of(r@) == legend_ops(*settings, *context, margins, image_width as int, image_height as int),
            all_in_bounds(ops_of(r@), image_width as int, image_height as int),
    {
        let (w, h) = (image_width, image_height);
        let ghost (wi, hi) = (w as int, h as int);
        let mut cmds: Vec<LegendCommand> = Vec::new();
        assert(ops_of(cmds@) =~= Seq::empty());
        emit_header(&mut cmds, settings, context, margins, w, h);
        emit_frame(&mut cmds, margins, w, h);
        emit_time_axis(&mut cmds, settings, context, margins, w, h);
        emit_freq_axis(&mut cmds, settings, context, margins, w, h);
        emit_gradient(&mut cmds, margins, w, h);
        emit_db_axis(&mut cmds, settings, context, margins, w, h);
        proof {
            let a = header_ops(*settings, *context, margins, wi, hi);
            let b = frame_ops(margins, wi, hi);
            let c = time_ops(*settings, *context, margins, wi, hi);
            let d = freq_ops(*settings, *context, margins, wi, hi);
            let e = gradient_ops(margins, wi, hi);
            let f = db_ops(*settings, *context, margins, wi, hi);
            assert(ops_of(cmds@) =~= a + b + c + d + e + f);
            lemma_bounds_concat(a, b, wi, hi);
            lemma_bounds_concat(a + b, c, wi, hi);
            lemma_bounds_concat(a + b + c, d, wi, hi);
            lemma_bounds_concat(a + b + c + d, e, wi, hi);
            lemma_bounds_concat(a + b + c + d + e, f, wi, hi);
        }
        cmds
    }
}

} // verus!
