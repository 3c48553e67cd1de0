//! Glyph rasterization: one character's coverage samples become a cell of
//! fixed height, moved up or down so that the outline is not clipped.

use crate::canvas::{lemma_blank_pixel, lemma_offsets_differ, lemma_with_pixel, Canvas, CanvasView, Rgba8};
use crate::fixed::{ceil_px, floor_px, px_ceil, px_floor, px_round, px_trunc, round_px, trunc_px, whole};
use crate::metrics::{fixed_height, fixed_height_of};
use crate::types::{CharData, FontSizeConfig};
use vstd::prelude::*;

verus! {

/// The outline of a glyph at one render size, as the font gives it.
pub struct Coverage {
    /// Bounding box in sub-pixel steps, relative to the pen position on the
    /// baseline; `y` grows downward.
    pub min_x: i32,
    pub min_y: i32,
    pub max_x: i32,
    pub max_y: i32,
    /// Number of samples in a row.
    pub cols: u32,
    /// Opacity of each sample from 0 to 255, row by row from the upper left
    /// corner of the bounding box.
    pub alpha: Vec<u8>,
}

/// What a font says of one character at one render size.
pub struct ScaledGlyph {
    /// Horizontal advance in sub-pixel steps.
    pub h_advance: i32,
    /// The outline, where the font has one for the character.
    pub outline: Option<Coverage>,
}

/// `v`, or 0 where `v` is negative.
pub open spec fn at_least_zero(v: int) -> int {
    if v < 0 {
        0
    } else {
        v
    }
}

/// Width of a character's cell in whole pixels: the largest of its advance
/// rounded up, the width of its outline rounded up, and the tier's minimum
/// width without its fraction.
pub open spec fn cell_width_of(glyph: ScaledGlyph, tier: FontSizeConfig) -> int {
    let advance = at_least_zero(px_ceil(glyph.h_advance as int));
    let content = match glyph.outline {
        Some(o) => at_least_zero(px_ceil(o.max_x - o.min_x)),
        None => 0,
    };
    let least = at_least_zero(px_trunc(tier.minWidth as int));
    let wider = if advance >= content { advance } else { content };
    if wider >= least {
        wider
    } else {
        least
    }
}

/// The move that fits an outline reaching from `top` to `bottom` into a cell
/// of the given height, all in sub-pixel steps: down to the top edge where
/// the outline starts above it; else up to the bottom edge where it ends
/// below that, but never past the top edge; else none.
pub open spec fn clamp_shift(top: int, bottom: int, height: int) -> int {
    if top < 0 {
        -top
    } else if bottom > height {
        if top + (height - bottom) >= 0 {
            height - bottom
        } else {
            -top
        }
    } else {
        0
    }
}

/// Top edge of a glyph's outline in its cell before any move, in sub-pixel
/// steps.
pub open spec fn outline_top(o: Coverage, offset_y: int, baseline_y: int) -> int {
    o.min_y + baseline_y + offset_y
}

/// Bottom edge of a glyph's outline in its cell before any move.
pub open spec fn outline_bottom(o: Coverage, offset_y: int, baseline_y: int) -> int {
    o.max_y + baseline_y + offset_y
}

/// The move applied to a glyph in whole pixels: `clamp_shift` rounded to the
/// nearest pixel, and 0 for a glyph without an outline.
pub open spec fn glyph_shift(
    glyph: ScaledGlyph,
    offset_y: int,
    tier: FontSizeConfig,
    baseline_y: int,
) -> int {
    match glyph.outline {
        Some(o) => px_round(
            clamp_shift(
                outline_top(o, offset_y, baseline_y),
                outline_bottom(o, offset_y, baseline_y),
                whole(fixed_height_of(tier)),
            ),
        ),
        None => 0,
    }
}

/// Opacity of the sample in column `x` and row `y` of an outline; 0 outside
/// the samples.
pub open spec fn sample_alpha(o: Coverage, x: int, y: int) -> u8 {
    if 0 <= x < o.cols && 0 <= y && y * o.cols + x < o.alpha@.len() {
        o.alpha@[y * o.cols + x]
    } else {
        0
    }
}

/// The pixel drawn for a sample of the given opacity: white with that
/// opacity; for opacity 0 nothing, which leaves the pixel fully transparent.
pub open spec fn ink(alpha: u8) -> Rgba8 {
    if alpha != 0 {
        Rgba8 { r: 255, g: 255, b: 255, a: alpha }
    } else {
        Rgba8 { r: 0, g: 0, b: 0, a: 0 }
    }
}

/// Column of the cell that takes the first column of samples.
pub open spec fn origin_x(o: Coverage) -> int {
    px_floor(o.min_x as int)
}

/// Row of the cell that takes the first row of samples, the glyph moved by
/// `shift` whole pixels.
pub open spec fn origin_y(o: Coverage, offset_y: int, baseline_y: int, shift: int) -> int {
    px_floor(outline_top(o, offset_y, baseline_y)) + shift
}

/// The pixel at `(px, py)` of a glyph's cell.
pub open spec fn glyph_pixel(
    glyph: ScaledGlyph,
    offset_y: int,
    tier: FontSizeConfig,
    baseline_y: int,
    px: int,
    py: int,
) -> Rgba8 {
    match glyph.outline {
        Some(o) => ink(
            sample_alpha(
                o,
                px - origin_x(o),
                py - origin_y(o, offset_y, baseline_y, glyph_shift(glyph, offset_y, tier, baseline_y)),
            ),
        ),
        None => ink(0),
    }
}

/// `cell` is the rasterization of character `c`: its width, height, advance
/// and vertical move are those of the glyph in the tier, and it has a buffer
/// of that size whose every pixel is the glyph's.
pub open spec fn is_cell_of(
    cell: CharData,
    c: char,
    glyph: ScaledGlyph,
    offset_y: int,
    tier: FontSizeConfig,
    baseline_y: int,
) -> bool {
    &&& cell.c == c
    &&& cell.w == cell_width_of(glyph, tier)
    &&& cell.h == fixed_height_of(tier)
    &&& cell.advance == (if glyph.h_advance >= tier.minWidth {
        glyph.h_advance
    } else {
        tier.minWidth
    })
    &&& cell.offset_correction_y == glyph_shift(glyph, offset_y, tier, baseline_y)
    &&& cell.img matches Some(img) && {
        &&& img@.wf()
        &&& img@.width == cell.w
        &&& img@.height == cell.h
        &&& forall|px: int, py: int|
            0 <= px < cell.w && 0 <= py < cell.h ==> #[trigger] img@.pixel(px, py) == glyph_pixel(
                glyph,
                offset_y,
                tier,
                baseline_y,
                px,
                py,
            )
    }
}

/// Rasterization is a function of its arguments: two cells of one character,
/// glyph, offset, tier and baseline agree in everything.
pub proof fn lemma_cell_determined(
    a: CharData,
    b: CharData,
    c: char,
    glyph: ScaledGlyph,
    offset_y: int,
    tier: FontSizeConfig,
    baseline_y: int,
)
    requires
        is_cell_of(a, c, glyph, offset_y, tier, baseline_y),
        is_cell_of(b, c, glyph, offset_y, tier, baseline_y),
    ensures
        crate::packer::same_cell(a, b),
{
    crate::canvas::lemma_pixels_determine(a.img->0@, b.img->0@);
}

/// Whether the buffer of a glyph's cell fits in memory.
pub open spec fn cell_fits(glyph: ScaledGlyph, tier: FontSizeConfig) -> bool {
    crate::canvas::buffer_fits(cell_width_of(glyph, tier), fixed_height_of(tier))
}

/// Width of a character's cell in whole pixels.
pub fn cell_width(glyph: &ScaledGlyph, size_config: &FontSizeConfig) -> (w: u32)
    ensures
        w == cell_width_of(*glyph, *size_config),
        w <= 65536,
{
    let advance: i128 = ceil_px(glyph.h_advance as i128);
    let advance_w: u32 = if advance < 0 { 0 } else { advance as u32 };
    let content_w: u32 = match &glyph.outline {
        Some(o) => {
            let width: i128 = ceil_px(o.max_x as i128 - o.min_x as i128);
            if width < 0 { 0 } else { width as u32 }
        },
        None => 0,
    };
    let least: i128 = trunc_px(size_config.minWidth as i128);
    let least_w: u32 = if least < 0 { 0 } else { least as u32 };
    let wider: u32 = if advance_w >= content_w { advance_w } else { content_w };
    if wider >= least_w {
        wider
    } else {
        least_w
    }
}

/// The move in sub-pixel steps that fits an outline into its cell.
fn shift_to_fit(top: i128, bottom: i128, height: i128) -> (shift: i128)
    requires
        -0x1_0000_0000_0000_0000 <= top <= 0x1_0000_0000_0000_0000,
        -0x1_0000_0000_0000_0000 <= bottom <= 0x1_0000_0000_0000_0000,
        0 <= height <= 0x1_0000_0000_0000_0000,
    ensures
        shift == clamp_shift(top as int, bottom as int, height as int),
{
    if top < 0 {
        -top
    } else if bottom > height {
        let up: i128 = height - bottom;
        if top + up >= 0 {
            up
        } else {
            -top
        }
    } else {
        0
    }
}

/// The clamp: the move leaves a glyph that fits where it is; it puts the top
/// of the outline at or below the top of the cell; it puts the bottom at or
/// above the bottom of the cell where the outline is no higher than the cell;
/// and it puts the top exactly on the top of the cell where the outline is
/// higher than the cell.
pub proof fn lemma_clamp_shift(top: int, bottom: int, height: int)
    requires
        top <= bottom,
        0 <= height,
    ensures
        0 <= top && bottom <= height ==> clamp_shift(top, bottom, height) == 0,
        0 <= top + clamp_shift(top, bottom, height),
        bottom - top <= height ==> bottom + clamp_shift(top, bottom, height) <= height,
        bottom - top > height ==> top + clamp_shift(top, bottom, height) == 0,
{
}

/// The clamp in the cell: an outline that lies on whole pixels and is no
/// higher than the cell keeps all its rows. With `rows` rows of samples, the
/// first falls on row `origin_y >= 0` of the cell and the last on a row
/// below the cell's height.
pub proof fn lemma_rows_stay_in_cell(
    glyph: ScaledGlyph,
    offset_y: int,
    tier: FontSizeConfig,
    baseline_y: int,
    rows: int,
)
    requires
        glyph.outline is Some,
        glyph.outline->0.min_y <= glyph.outline->0.max_y,
        outline_top(glyph.outline->0, offset_y, baseline_y) % 65536 == 0,
        glyph.outline->0.max_y - glyph.outline->0.min_y == whole(rows),
        rows <= fixed_height_of(tier),
    ensures
        0 <= origin_y(
            glyph.outline->0,
            offset_y,
            baseline_y,
            glyph_shift(glyph, offset_y, tier, baseline_y),
        ),
        origin_y(glyph.outline->0, offset_y, baseline_y, glyph_shift(glyph, offset_y, tier, baseline_y))
            + rows <= fixed_height_of(tier),
{
    let o = glyph.outline->0;
    let top = outline_top(o, offset_y, baseline_y);
    let bottom = outline_bottom(o, offset_y, baseline_y);
    let height = whole(fixed_height_of(tier));
    lemma_clamp_shift(top, bottom, height);
}

/// The move of a glyph is below `2^48` pixels in either direction, whatever
/// the baseline.
pub proof fn lemma_shift_bound(glyph: ScaledGlyph, offset_y: int, tier: FontSizeConfig, baseline_y: int)
    requires
        -0x8000_0000 <= offset_y < 0x8000_0000,
        -0x8000_0000_0000_0000 <= baseline_y < 0x8000_0000_0000_0000,
    ensures
        -0x1_0000_0000_0000 <= glyph_shift(glyph, offset_y, tier, baseline_y) <= 0x1_0000_0000_0000,
{
}

/// The move applied to a glyph, in whole pixels.
pub fn vertical_shift(
    glyph: &ScaledGlyph,
    offset_y: i32,
    size_config: &FontSizeConfig,
    drawing_baseline_y: i64,
) -> (shift: i64)
    ensures
        shift == glyph_shift(*glyph, offset_y as int, *size_config, drawing_baseline_y as int),
        -0x1_0000_0000_0000 <= shift <= 0x1_0000_0000_0000,
{
    match &glyph.outline {
        Some(o) => {
            let base: i128 = drawing_baseline_y as i128 + offset_y as i128;
            let top: i128 = o.min_y as i128 + base;
            let bottom: i128 = o.max_y as i128 + base;
            let height: i128 = fixed_height(size_config) as i128 * 65536;
            let exact: i128 = shift_to_fit(top, bottom, height);
            round_px(exact) as i64
        },
        None => 0,
    }
}

/// The pixel at `(px, py)` of a cell on which the first `limit` samples of
/// the outline were drawn, the first column and row of samples falling on
/// column `ox` and row `oy`.
pub open spec fn drawn_pixel(o: Coverage, ox: int, oy: int, limit: int, px: int, py: int) -> Rgba8 {
    let x = px - ox;
    let y = py - oy;
    if 0 <= x < o.cols && 0 <= y && y * o.cols + x < limit {
        ink(sample_alpha(o, x, y))
    } else {
        ink(0)
    }
}

/// Draws the samples of an outline on a blank cell; what falls outside the
/// cell is dropped.
fn draw_samples(img: &mut Canvas, o: &Coverage, ox: i64, oy: i64)
    requires
        old(img)@ == CanvasView::blank(old(img)@.width, old(img)@.height),
        old(img)@.wf(),
        -0x1_0000_0000_0000_0000 <= ox <= 0x1_0000_0000_0000_0000,
        -0x1_0000_0000_0000_0000 <= oy <= 0x1_0000_0000_0000_0000,
    ensures
        final(img)@.width == old(img)@.width,
        final(img)@.height == old(img)@.height,
        final(img)@.wf(),
        forall|px: int, py: int|
            final(img)@.contains(px, py) ==> #[trigger] final(img)@.pixel(px, py) == ink(
                sample_alpha(*o, px - ox, py - oy),
            ),
{
    let n: usize = o.alpha.len();
    let cols: u32 = o.cols;
    let w: u32 = img.width();
    let h: u32 = img.height();
    proof {
        assert forall|px: int, py: int| img@.contains(px, py) implies #[trigger] img@.pixel(px, py)
            == drawn_pixel(*o, ox as int, oy as int, 0, px, py) by {
            lemma_blank_pixel(w as int, h as int, px, py);
            let x = px - ox;
            let y = py - oy;
            if 0 <= x < o.cols && 0 <= y {
                assert(y * o.cols >= 0) by (nonlinear_arith)
                    requires
                        y >= 0,
                        o.cols >= 0,
                ;
            }
        }
    }
    if cols == 0 {
        return ;
    }
    let mut i: usize = 0;
    let mut x: u32 = 0;
    let mut y: u64 = 0;
    while i < n
        invariant
            n == o.alpha@.len(),
            cols == o.cols,
            cols > 0,
            i <= n,
            x < cols,
            y <= i,
            i == y * cols + x,
            img@.width == w,
            img@.height == h,
            img@.wf(),
            -0x1_0000_0000_0000_0000 <= ox <= 0x1_0000_0000_0000_0000,
            -0x1_0000_0000_0000_0000 <= oy <= 0x1_0000_0000_0000_0000,
            forall|px: int, py: int|
                img@.contains(px, py) ==> #[trigger] img@.pixel(px, py) == drawn_pixel(
                    *o,
                    ox as int,
                    oy as int,
                    i as int,
                    px,
                    py,
                ),
        decreases n - i,
    {
        let alpha: u8 = o.alpha[i];
        let col: i128 = ox as i128 + x as i128;
        let line: i128 = oy as i128 + y as i128;
        let ghost prev = img@;
        let mut done: bool = false;
        if alpha != 0 && 0 <= col && col <= 0xffff_ffff && 0 <= line && line <= 0xffff_ffff {
            done = img.set_pixel(col as u32, line as u32, Rgba8 { r: 255, g: 255, b: 255, a: alpha });
        }
        proof {
            assert(sample_alpha(*o, x as int, y as int) == alpha);
            assert forall|px: int, py: int| img@.contains(px, py) implies #[trigger] img@.pixel(px, py)
                == drawn_pixel(*o, ox as int, oy as int, i as int + 1, px, py) by {
                let sx = px - ox;
                let sy = py - oy;
                assert(prev.pixel(px, py) == drawn_pixel(*o, ox as int, oy as int, i as int, px, py));
                if done {
                    lemma_with_pixel(
                        prev,
                        col as int,
                        line as int,
                        Rgba8 { r: 255, g: 255, b: 255, a: alpha },
                        px,
                        py,
                    );
                }
                if 0 <= sx < cols && 0 <= sy {
                    if sx != x || sy != y {
                        lemma_offsets_differ(cols as int, sx, sy, x as int, y as int);
                    }
                }
            }
        }
        i += 1;
        if x + 1 == cols {
            proof {
                assert((y + 1) * cols == y * cols + cols) by (nonlinear_arith);
            }
            x = 0;
            y += 1;
        } else {
            x += 1;
        }
    }
    proof {
        assert forall|px: int, py: int| img@.contains(px, py) implies #[trigger] img@.pixel(px, py)
            == ink(sample_alpha(*o, px - ox, py - oy)) by {
            assert(img@.pixel(px, py) == drawn_pixel(*o, ox as int, oy as int, n as int, px, py));
        }
    }
}

/// Rasterizes one character into a cell of the tier's fixed height.
///
/// `glyph` is what the chosen font says of the character at its render size,
/// `offset_y` that font's vertical offset and `drawing_baseline_y` the tier's
/// baseline, both in sub-pixel steps. The cell is as wide as `cell_width_of`
/// says. The outline is moved by `glyph_shift` whole pixels and drawn in white
/// with the samples' opacity; fully transparent samples and samples outside
/// the cell are skipped. The recorded advance is the glyph's, but at least
/// the tier's minimum width.
pub fn rasterize_char(
    c: char,
    glyph: &ScaledGlyph,
    offset_y: i32,
    size_config: &FontSizeConfig,
    drawing_baseline_y: i64,
) -> (cell: CharData)
    requires
        cell_fits(*glyph, *size_config),
    ensures
        is_cell_of(cell, c, *glyph, offset_y as int, *size_config, drawing_baseline_y as int),
{
    let img_w: u32 = cell_width(glyph, size_config);
    let fixed_h: u32 = fixed_height(size_config);
    let shift_y: i64 = vertical_shift(glyph, offset_y, size_config, drawing_baseline_y);
    let mut img_buf: Canvas = Canvas::new(img_w, fixed_h).unwrap();
    match &glyph.outline {
        Some(o) => {
            let top: i128 = o.min_y as i128 + drawing_baseline_y as i128 + offset_y as i128;
            let ox: i64 = floor_px(o.min_x as i128) as i64;
            let oy: i64 = (floor_px(top) + shift_y as i128) as i64;
            draw_samples(&mut img_buf, o, ox, oy);
        },
        None => {
            proof {
                assert forall|px: int, py: int|
                    0 <= px < img_w && 0 <= py < fixed_h implies #[trigger] img_buf@.pixel(px, py)
                    == ink(0) by {
                    lemma_blank_pixel(img_w as int, fixed_h as int, px, py);
                }
            }
        },
    }
    let final_advance: i32 = if glyph.h_advance >= size_config.minWidth {
        glyph.h_advance
    } else {
        size_config.minWidth
    };
    CharData {
        c,
        img: Some(img_buf),
        w: img_w,
        h: fixed_h,
        advance: final_advance,
        offset_correction_y: shift_y,
    }
}

} // verus!
