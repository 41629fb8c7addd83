//! Execution of legend draw commands onto a raster.
//!
//! Lines are drawn with Bresenham's algorithm, the dBFS key as a column of
//! palette colors, and text through a rasterizer hook that does nothing yet.
//! Pixels outside the image are silently skipped.
use vstd::prelude::*;
use vstd::arithmetic::div_mod::{lemma_div_by_multiple, lemma_div_is_ordered, lemma_fundamental_div_mod_converse};
use crate::color::{lemma_palette_opaque, level_max, palette_color, Rgba, SpekColorMapper};
use crate::image::{pixel_at, ImageBuffer};
use crate::legend::{ops_of, DrawOp, LegendCommand};
use crate::render::rgba_bytes;

verus! {

/// Opaque white, the color of legend lines.
pub open spec fn white() -> Rgba {
    Rgba { r: 255, g: 255, b: 255, a: 255 }
}

/// The raster after pixel `(x, y)` is set to `c`; unchanged when the pixel
/// lies outside the `w` x `h` image.
pub open spec fn with_pixel(data: Seq<u8>, w: int, h: int, x: int, y: int, c: Rgba) -> Seq<u8> {
    if 0 <= x < w && 0 <= y < h {
        let i = 4 * (y * w + x);
        data.update(i, c.r).update(i + 1, c.g).update(i + 2, c.b).update(i + 3, c.a)
    } else {
        data
    }
}

/// Pixel `(x, y)`, if inside the image, has color `c`.
pub open spec fn painted(data: Seq<u8>, w: int, h: int, x: int, y: int, c: Rgba) -> bool {
    (0 <= x < w && 0 <= y < h) ==> pixel_at(data, w, x, y) == rgba_bytes(c)
}

/// `v` lies between `a` and `b`, whichever is larger.
pub open spec fn between(v: int, a: int, b: int) -> bool {
    (a <= v <= b) || (b <= v <= a)
}

/// From `old` to `new` only pixels in the box spanned by `(x1, y1)` and
/// `(x2, y2)` changed, and each of them to `c`.
pub open spec fn only_paints(old: Seq<u8>, new: Seq<u8>, w: int, h: int, x1: int, y1: int, x2: int, y2: int, c: Rgba) -> bool {
    &&& new.len() == old.len()
    &&& forall|x: int, y: int|
        0 <= x < w && 0 <= y < h ==> #[trigger] pixel_at(new, w, x, y) == pixel_at(old, w, x, y) || (between(x, x1, x2)
            && between(y, y1, y2) && pixel_at(new, w, x, y) == rgba_bytes(c))
}

/// The effect of drawing the line from `(x1, y1)` to `(x2, y2)` in color `c`:
/// only pixels of its bounding box change, to `c`; both endpoints are painted;
/// a horizontal or vertical line paints every pixel between its endpoints.
pub open spec fn line_drawn(old: Seq<u8>, new: Seq<u8>, w: int, h: int, x1: int, y1: int, x2: int, y2: int, c: Rgba) -> bool {
    &&& only_paints(old, new, w, h, x1, y1, x2, y2, c)
    &&& painted(new, w, h, x1, y1, c)
    &&& painted(new, w, h, x2, y2, c)
    &&& y1 == y2 ==> forall|x: int| between(x, x1, x2) ==> #[trigger] painted(new, w, h, x, y1, c)
    &&& x1 == x2 ==> forall|y: int| between(y, y1, y2) ==> #[trigger] painted(new, w, h, x1, y, c)
}

proof fn lemma_pixel_index_injective(w: int, x: int, y: int, x0: int, y0: int)
    requires
        0 <= x < w,
        0 <= x0 < w,
        0 <= y,
        0 <= y0,
        y * w + x == y0 * w + x0,
    ensures
        x == x0,
        y == y0,
{
    lemma_fundamental_div_mod_converse(y * w + x, w, y, x);
    lemma_fundamental_div_mod_converse(y0 * w + x0, w, y0, x0);
}

proof fn lemma_pixel_index_bound(w: int, h: int, x: int, y: int)
    requires
        0 <= x < w,
        0 <= y < h,
    ensures
        0 <= y * w + x < w * h,
{
    assert(0 <= y * w + x < w * h) by (nonlinear_arith)
        requires 0 <= x < w, 0 <= y < h;
}

/// Writing one pixel changes that pixel alone.
proof fn lemma_with_pixel(data: Seq<u8>, w: int, h: int, x0: int, y0: int, c: Rgba)
    requires
        data.len() == w * h * 4,
    ensures
        with_pixel(data, w, h, x0, y0, c).len() == data.len(),
        painted(with_pixel(data, w, h, x0, y0, c), w, h, x0, y0, c),
        forall|x: int, y: int|
            0 <= x < w && 0 <= y < h && (x != x0 || y != y0) ==> #[trigger] pixel_at(with_pixel(data, w, h, x0, y0, c), w, x, y)
                == pixel_at(data, w, x, y),
{
    if 0 <= x0 < w && 0 <= y0 < h {
        lemma_pixel_index_bound(w, h, x0, y0);
    }
    assert forall|x: int, y: int|
        0 <= x < w && 0 <= y < h && (x != x0 || y != y0) implies #[trigger] pixel_at(with_pixel(data, w, h, x0, y0, c), w, x, y)
            == pixel_at(data, w, x, y) by {
        lemma_pixel_index_bound(w, h, x, y);
        if 0 <= x0 < w && 0 <= y0 < h {
            if y * w + x == y0 * w + x0 {
                lemma_pixel_index_injective(w, x, y, x0, y0);
            }
        }
    }
}

/// Writes pixel `(x, y)`; a pixel outside the image is skipped.
pub fn put_pixel(image: &mut ImageBuffer, x: u32, y: u32, color: Rgba)
    requires
        old(image).wf(),
    ensures
        final(image).width == old(image).width,
        final(image).height == old(image).height,
        final(image).data@ == with_pixel(old(image).data@, old(image).width as int, old(image).height as int, x as int, y as int, color),
        final(image).wf(),
        old(image).is_opaque() && color.a == 255 ==> final(image).is_opaque(),
{
    let len = image.data.len();
    if (x as usize) < image.width && (y as usize) < image.height {
        proof {
            lemma_pixel_index_bound(image.width as int, image.height as int, x as int, y as int);
        }
        let idx = (y as usize * image.width + x as usize) * 4;
        image.data.set(idx, color.r);
        image.data.set(idx + 1, color.g);
        image.data.set(idx + 2, color.b);
        image.data.set(idx + 3, color.a);
    }
    assert(image.data@ =~= with_pixel(old(image).data@, image.width as int, image.height as int, x as int, y as int, color));
}

/// Coordinate `j` steps from `a` towards `b`.
pub open spec fn step_from(a: int, b: int, j: int) -> int {
    if a < b { a + j } else { a - j }
}

proof fn lemma_only_paints_refl(data: Seq<u8>, w: int, h: int, x1: int, y1: int, x2: int, y2: int, c: Rgba)
    ensures
        only_paints(data, data, w, h, x1, y1, x2, y2, c),
{
}

/// Painting one more pixel of the box keeps `only_paints`, and keeps every
/// pixel that already had the color.
proof fn lemma_paint_step(start: Seq<u8>, cur: Seq<u8>, w: int, h: int, x1: int, y1: int, x2: int, y2: int, c: Rgba, x0: int, y0: int)
    requires
        cur.len() == w * h * 4,
        only_paints(start, cur, w, h, x1, y1, x2, y2, c),
        between(x0, x1, x2),
        between(y0, y1, y2),
    ensures
        only_paints(start, with_pixel(cur, w, h, x0, y0, c), w, h, x1, y1, x2, y2, c),
        painted(with_pixel(cur, w, h, x0, y0, c), w, h, x0, y0, c),
        forall|x: int, y: int| painted(cur, w, h, x, y, c) ==> #[trigger] painted(with_pixel(cur, w, h, x0, y0, c), w, h, x, y, c),
{
    lemma_with_pixel(cur, w, h, x0, y0, c);
    let new = with_pixel(cur, w, h, x0, y0, c);
    assert forall|x: int, y: int| 0 <= x < w && 0 <= y < h implies #[trigger] pixel_at(new, w, x, y) == pixel_at(start, w, x, y) || (
    between(x, x1, x2) && between(y, y1, y2) && pixel_at(new, w, x, y) == rgba_bytes(c)) by {
        if x != x0 || y != y0 {
            assert(pixel_at(new, w, x, y) == pixel_at(cur, w, x, y));
        }
    }
    assert forall|x: int, y: int| painted(cur, w, h, x, y, c) implies #[trigger] painted(new, w, h, x, y, c) by {
        if (x != x0 || y != y0) && 0 <= x < w && 0 <= y < h {
            assert(pixel_at(new, w, x, y) == pixel_at(cur, w, x, y));
        }
    }
}

/// One step of Bresenham's loop from `nx` of `dx` columns and `ny` of `ady`
/// rows, short of the end: it moves along at least one axis and overshoots
/// neither.
proof fn lemma_bresenham_step(dx: int, ady: int, nx: int, ny: int)
    requires
        0 <= nx <= dx,
        0 <= ny <= ady,
        !(nx == dx && ny == ady),
    ensures
        ({
            let e2 = 2 * (dx * (1 + ny) - ady * (1 + nx));
            &&& (e2 >= -ady || e2 <= dx)
            &&& (e2 >= -ady ==> nx < dx)
            &&& (e2 <= dx ==> ny < ady)
        }),
{
    if nx == dx {
        assert(dx * (1 + ny) <= dx * ady) by (nonlinear_arith)
            requires 1 + ny <= ady, dx >= 0;
        assert(ady * (1 + nx) == ady + dx * ady) by (nonlinear_arith)
            requires nx == dx;
    }
    if ny == ady {
        assert(ady * (1 + nx) <= ady * dx) by (nonlinear_arith)
            requires 1 + nx <= dx, ady >= 0;
        assert(dx * (1 + ny) == dx + ady * dx) by (nonlinear_arith)
            requires ny == ady;
    }
}

/// Composites legend commands onto an image.
pub struct LegendCompositor;

impl LegendCompositor {
    /// Draws the line from `(x1, y1)` to `(x2, y2)` with Bresenham's algorithm.
    pub fn draw_line(image: &mut ImageBuffer, x1: u32, y1: u32, x2: u32, y2: u32, color: Rgba)
        requires
            old(image).wf(),
        ensures
            final(image).width == old(image).width,
            final(image).height == old(image).height,
            final(image).wf(),
            line_drawn(old(image).data@, final(image).data@, old(image).width as int, old(image).height as int, x1 as int,
                y1 as int, x2 as int, y2 as int, color),
            old(image).is_opaque() && color.a == 255 ==> final(image).is_opaque(),
    {
        let ghost w = image.width as int;
        let ghost h = image.height as int;
        let ghost start = image.data@;
        let ghost (gx1, gy1, gx2, gy2) = (x1 as int, y1 as int, x2 as int, y2 as int);
        let xe = x2 as i64;
        let ye = y2 as i64;
        let mut x = x1 as i64;
        let mut y = y1 as i64;
        let dx: i64 = if xe >= x {
            xe - x
        } else {
            x - xe
        };
        let ady: i64 = if ye >= y {
            ye - y
        } else {
            y - ye
        };
        let sx: i64 = if x < xe {
            1
        } else {
            -1
        };
        let sy: i64 = if y < ye {
            1
        } else {
            -1
        };
        let mut err: i128 = dx as i128 - ady as i128;
        let ghost mut nx: int = 0;
        let ghost mut ny: int = 0;
        proof {
            lemma_only_paints_refl(start, w, h, gx1, gy1, gx2, gy2, color);
            lemma_paint_step(start, start, w, h, gx1, gy1, gx2, gy2, color, gx1, gy1);
        }
        put_pixel(image, x1, y1, color);
        assert(dx * (1 + nx) == dx && ady * (1 + nx) == ady);
        while !(x == xe && y == ye)
            invariant
                image.wf(),
                image.width == w,
                image.height == h,
                image.data@.len() == w * h * 4,
                dx == if gx2 >= gx1 { gx2 - gx1 } else { gx1 - gx2 },
                ady == if gy2 >= gy1 { gy2 - gy1 } else { gy1 - gy2 },
                sx == if gx1 < gx2 { 1int } else { -1int },
                sy == if gy1 < gy2 { 1int } else { -1int },
                xe == gx2,
                ye == gy2,
                gx1 == x1,
                gy1 == y1,
                gx2 == x2,
                gy2 == y2,
                0 <= nx <= dx <= 0xFFFF_FFFF,
                0 <= ny <= ady <= 0xFFFF_FFFF,
                x == step_from(gx1, gx2, nx),
                y == step_from(gy1, gy2, ny),
                err == dx * (1 + ny) - ady * (1 + nx),
                only_paints(start, image.data@, w, h, gx1, gy1, gx2, gy2, color),
                painted(image.data@, w, h, gx1, gy1, color),
                painted(image.data@, w, h, x as int, y as int, color),
                gy1 == gy2 ==> ny == 0,
                gx1 == gx2 ==> nx == 0,
                gy1 == gy2 ==> forall|j: int| 0 <= j <= nx ==> #[trigger] painted(image.data@, w, h, step_from(gx1, gx2, j), gy1, color),
                gx1 == gx2 ==> forall|j: int| 0 <= j <= ny ==> #[trigger] painted(image.data@, w, h, gx1, step_from(gy1, gy2, j), color),
                start.len() == w * h * 4,
                old(image).data@ == start,
                old(image).is_opaque() && color.a == 255 ==> image.is_opaque(),
            decreases (dx - nx) + (ady - ny),
        {
            proof {
                lemma_bresenham_step(dx as int, ady as int, nx, ny);
                assert(0 <= dx * (1 + ny) <= 0x1_0000_0000 * 0x1_0000_0001) by (nonlinear_arith)
                    requires 0 <= dx <= 0x1_0000_0000, 0 <= ny <= 0x1_0000_0000;
                assert(0 <= ady * (1 + nx) <= 0x1_0000_0000 * 0x1_0000_0001) by (nonlinear_arith)
                    requires 0 <= ady <= 0x1_0000_0000, 0 <= nx <= 0x1_0000_0000;
            }
            let e2 = 2 * err;
            if e2 >= -(ady as i128) {
                proof {
                    assert(ady * (1 + nx) + ady == ady * (1 + (nx + 1))) by (nonlinear_arith);
                    nx = nx + 1;
                }
                err = err - ady as i128;
                x = x + sx;
            }
            if e2 <= dx as i128 {
                proof {
                    assert(dx * (1 + ny) + dx == dx * (1 + (ny + 1))) by (nonlinear_arith);
                    ny = ny + 1;
                }
                err = err + dx as i128;
                y = y + sy;
            }
            assert(0 <= x <= 0xFFFF_FFFF && 0 <= y <= 0xFFFF_FFFF);
            proof {
                lemma_paint_step(start, image.data@, w, h, gx1, gy1, gx2, gy2, color, x as int, y as int);
            }
            put_pixel(image, x as u32, y as u32, color);
        }
        proof {
            if gy1 == gy2 {
                assert forall|xx: int| between(xx, gx1, gx2) implies #[trigger] painted(image.data@, w, h, xx, gy1, color) by {
                    let j = if gx1 < gx2 { xx - gx1 } else { gx1 - xx };
                    assert(painted(image.data@, w, h, step_from(gx1, gx2, j), gy1, color));
                }
            }
            if gx1 == gx2 {
                assert forall|yy: int| between(yy, gy1, gy2) implies #[trigger] painted(image.data@, w, h, gx1, yy, color) by {
                    let j = if gy1 < gy2 { yy - gy1 } else { gy1 - yy };
                    assert(painted(image.data@, w, h, gx1, step_from(gy1, gy2, j), color));
                }
            }
        }
    }
}

/// Level of row `y` of a gradient from `start` (full intensity) to `end` (zero):
/// `1 - (y - start) / max(1, end - start)`, as a level rounded down.
pub open spec fn gradient_level(y: int, start: int, end: int) -> int {
    let span = if end - start < 1 { 1 } else { end - start };
    (span - (y - start)) * level_max() / span
}

/// The raster after rows `start .. start + k` of column `x` are painted with
/// the gradient from `start` to `end`.
pub open spec fn paint_column(data: Seq<u8>, w: int, h: int, x: int, start: int, end: int, k: int) -> Seq<u8>
    decreases k,
{
    if k <= 0 {
        data
    } else {
        let y = start + k - 1;
        with_pixel(paint_column(data, w, h, x, start, end, k - 1), w, h, x, y, palette_color(gradient_level(y, start, end)))
    }
}

/// The raster after the dBFS key from `y_top` to `y_bottom` is painted at column `x`.
pub open spec fn gradient_drawn(data: Seq<u8>, w: int, h: int, x: int, y_top: int, y_bottom: int) -> Seq<u8> {
    let (start, end) = if y_top <= y_bottom { (y_top, y_bottom) } else { (y_bottom, y_top) };
    paint_column(data, w, h, x, start, end, end - start + 1)
}

/// What one command does to a raster: a line is drawn in `c`, the key is
/// painted, text leaves the raster as it was.
pub open spec fn command_drawn(old: Seq<u8>, new: Seq<u8>, w: int, h: int, op: DrawOp, c: Rgba) -> bool {
    match op {
        DrawOp::Line { x1, y1, x2, y2 } => line_drawn(old, new, w, h, x1, y1, x2, y2, c),
        DrawOp::Gradient { x, y_top, y_bottom } => new == gradient_drawn(old, w, h, x, y_top, y_bottom),
        DrawOp::Text { .. } => new == old,
    }
}

/// `new` is `old` after the commands `ops` in turn.
pub open spec fn commands_drawn(old: Seq<u8>, new: Seq<u8>, w: int, h: int, ops: Seq<DrawOp>, c: Rgba) -> bool {
    exists|states: Seq<Seq<u8>>|
        {
            &&& states.len() == ops.len() + 1
            &&& states[0] == old
            &&& states[ops.len() as int] == new
            &&& forall|j: int| 0 <= j < ops.len() ==> #[trigger] command_drawn(states[j], states[j + 1], w, h, ops[j], c)
        }
}

/// Paints the dBFS key in column `x`: full intensity at `y_top`, zero at `y_bottom`.
pub fn draw_dbfs_gradient(image: &mut ImageBuffer, x: u32, y_top: u32, y_bottom: u32)
    requires
        old(image).wf(),
    ensures
        final(image).width == old(image).width,
        final(image).height == old(image).height,
        final(image).wf(),
        final(image).data@ == gradient_drawn(old(image).data@, old(image).width as int, old(image).height as int, x as int,
            y_top as int, y_bottom as int),
        old(image).is_opaque() ==> final(image).is_opaque(),
{
    let ghost w = image.width as int;
    let ghost h = image.height as int;
    let ghost data0 = image.data@;
    let (start, end) = if y_top <= y_bottom {
        (y_top as u64, y_bottom as u64)
    } else {
        (y_bottom as u64, y_top as u64)
    };
    let span: u64 = if end - start < 1 {
        1
    } else {
        end - start
    };
    let mapper = SpekColorMapper::new();
    let mut y: u64 = start;
    while y <= end
        invariant
            image.wf(),
            image.width == w,
            image.height == h,
            start <= y <= end + 1,
            end <= u32::MAX,
            span == (if end - start < 1 { 1 } else { end - start }),
            image.data@ == paint_column(data0, w, h, x as int, start as int, end as int, y - start),
            old(image).is_opaque() ==> image.is_opaque(),
        decreases end + 1 - y,
    {
        let a = span - (y - start);
        proof {
            lemma_div_is_ordered((a * 65535) as int, (span * 65535) as int, span as int);
            lemma_div_by_multiple(65535, span as int);
            lemma_palette_opaque(gradient_level(y as int, start as int, end as int));
        }
        let level = (a * 65535 / span) as u16;
        let c = mapper.map(level);
        put_pixel(image, x, y as u32, c);
        y = y + 1;
    }
}

/// Text goes to a font rasterizer; none is plugged in, so text draws nothing.
pub fn draw_text_stub(image: &mut ImageBuffer, x: u32, y: u32, text: &str)
    ensures
        *final(image) == *old(image),
{
}

impl LegendCompositor {
    /// Executes `commands` in order: lines in `color`, the dBFS key from the
    /// palette, text through the rasterizer hook.
    pub fn apply(image: &mut ImageBuffer, commands: &[LegendCommand], color: Rgba)
        requires
            old(image).wf(),
        ensures
            final(image).width == old(image).width,
            final(image).height == old(image).height,
            final(image).wf(),
            commands_drawn(old(image).data@, final(image).data@, old(image).width as int, old(image).height as int,
                ops_of(commands@), color),
            old(image).is_opaque() && color.a == 255 ==> final(image).is_opaque(),
    {
        let ghost w = image.width as int;
        let ghost h = image.height as int;
        let ghost ops = ops_of(commands@);
        let ghost mut states: Seq<Seq<u8>> = seq![image.data@];
        let mut i: usize = 0;
        while i < commands.len()
            invariant
                image.wf(),
                image.width == w,
                image.height == h,
                ops == ops_of(commands@),
                i <= commands@.len(),
                states.len() == i + 1,
                states[0] == old(image).data@,
                states[i as int] == image.data@,
                forall|j: int| 0 <= j < i ==> #[trigger] command_drawn(states[j], states[j + 1], w, h, ops[j], color),
                old(image).is_opaque() && color.a == 255 ==> image.is_opaque(),
            decreases commands@.len() - i,
        {
            let ghost before = image.data@;
            match &commands[i] {
                LegendCommand::Line { x1, y1, x2, y2 } => {
                    Self::draw_line(image, *x1, *y1, *x2, *y2, color);
                },
                LegendCommand::DbfsGradient { x, y_top, y_bottom } => {
                    draw_dbfs_gradient(image, *x, *y_top, *y_bottom);
                },
                LegendCommand::Text { x, y, content } => {
                    draw_text_stub(image, *x, *y, content.as_str());
                },
            }
            proof {
                assert(command_drawn(before, image.data@, w, h, ops[i as int], color));
                states = states.push(image.data@);
                assert forall|j: int| 0 <= j < i + 1 implies #[trigger] command_drawn(states[j], states[j + 1], w, h, ops[j], color) by {
                }
            }
            i = i + 1;
        }
        assert(states[ops.len() as int] == image.data@);
    }
}

/// Executes legend commands onto the image: lines in opaque white.
pub fn apply_legend_overlay(image: &mut ImageBuffer, commands: &[LegendCommand])
    requires
        old(image).wf(),
    ensures
        final(image).width == old(image).width,
        final(image).height == old(image).height,
        final(image).wf(),
        commands_drawn(old(image).data@, final(image).data@, old(image).width as int, old(image).height as int, ops_of(commands@),
            white()),
        old(image).is_opaque() ==> final(image).is_opaque(),
{
    LegendCompositor::apply(image, commands, Rgba { r: 255, g: 255, b: 255, a: 255 });
}

} // verus!
