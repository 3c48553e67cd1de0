//! Metric unification: one baseline and one vertical envelope for all glyphs
//! of a size tier.

use crate::fixed::{ceil_px, px_ceil, round_div, round_ratio, whole};
use crate::types::{AppConfig, FontMetrics, FontSizeConfig};
use vstd::prelude::*;

verus! {

/// The height in whole pixels of every glyph cell of a tier: the larger of
/// its two heights, rounded up, and 0 where that is negative.
pub open spec fn fixed_height_of(tier: FontSizeConfig) -> int {
    let tallest: int = if tier.maxHeight >= tier.minHeight {
        tier.maxHeight as int
    } else {
        tier.minHeight as int
    };
    if px_ceil(tallest) < 0 {
        0
    } else {
        px_ceil(tallest)
    }
}

/// The baseline correction of a tier in whole pixels: the global correction
/// times the ratio of the tier's height to the reference height, rounded.
pub open spec fn dynamic_offset(correction: int, height: int, reference: int) -> int
    recommends
        reference != 0,
{
    round_ratio(correction * height, whole(reference))
}

/// Distance in sub-pixel steps of the baseline from the top of the cell: the
/// render size is centred in the cell (to the sub-pixel step at or above the
/// centre line) and the font's ascent is added.
pub open spec fn baseline_of(ascent: int, tier: FontSizeConfig, render_size: int) -> int {
    (whole(fixed_height_of(tier)) - render_size) / 2 + ascent
}

/// Bottom of the unified envelope in sub-pixel steps.
pub open spec fn envelope_bottom(
    ascent: int,
    tier: FontSizeConfig,
    correction: int,
    reference: int,
    render_size: int,
) -> int {
    baseline_of(ascent, tier, render_size) + whole(
        dynamic_offset(correction, tier.maxHeight as int, reference),
    )
}

/// Top of the unified envelope in sub-pixel steps: one cell above its bottom.
pub open spec fn envelope_top(
    ascent: int,
    tier: FontSizeConfig,
    correction: int,
    reference: int,
    render_size: int,
) -> int {
    envelope_bottom(ascent, tier, correction, reference, render_size) - whole(fixed_height_of(tier))
}

/// The height in whole pixels of every glyph cell of a tier.
pub fn fixed_height(tier: &FontSizeConfig) -> (h: u32)
    ensures
        h == fixed_height_of(*tier),
        h <= 32768,
{
    let tallest: i32 = if tier.maxHeight >= tier.minHeight {
        tier.maxHeight
    } else {
        tier.minHeight
    };
    let up: i128 = ceil_px(tallest as i128);
    if up < 0 {
        0
    } else {
        up as u32
    }
}

/// The metrics of one tier.
///
/// `ascent` is the ascent of the first font at this tier's render size,
/// `render_size` that size; both in sub-pixel steps. The reference height for
/// the baseline correction is the `maxHeight` of the last configured tier,
/// which must exist and must not be 0.
pub fn calculate_metrics(
    ascent: i32,
    size_config: &FontSizeConfig,
    global_config: &AppConfig,
    render_size: i32,
) -> (m: FontMetrics)
    requires
        global_config.font_sizes@.len() > 0,
        global_config.font_sizes@.last().maxHeight != 0,
    ensures
        m.baseline_y == baseline_of(ascent as int, *size_config, render_size as int),
        m.param_b == envelope_bottom(
            ascent as int,
            *size_config,
            global_config.global_offset_correction as int,
            global_config.font_sizes@.last().maxHeight as int,
            render_size as int,
        ),
        m.param_a == envelope_top(
            ascent as int,
            *size_config,
            global_config.global_offset_correction as int,
            global_config.font_sizes@.last().maxHeight as int,
            render_size as int,
        ),
        m.param_d == size_config.maxHeight,
{
    let fixed: i64 = fixed_height(size_config) as i64;
    let room: i64 = fixed * 65536 - render_size as i64;
    let centre: i64 = if room >= 0 {
        room / 2
    } else {
        -((-room + 1) / 2)
    };
    let baseline_y: i64 = centre + ascent as i64;
    let last: usize = global_config.font_sizes.len() - 1;
    let reference: i128 = global_config.font_sizes[last].maxHeight as i128;
    let correction: i128 = global_config.global_offset_correction as i128;
    let height: i128 = size_config.maxHeight as i128;
    assert(-0x8000_0000 * 0x8000_0000 <= correction * height <= 0x8000_0000 * 0x8000_0000)
        by (nonlinear_arith)
        requires
            -0x8000_0000 <= correction <= 0x8000_0000,
            -0x8000_0000 <= height <= 0x8000_0000,
    ;
    let offset: i128 = round_div(correction * height, reference * 65536);
    proof {
        lemma_round_ratio_bound(correction * height, reference as int);
    }
    let param_b: i64 = baseline_y + (offset * 65536) as i64;
    let param_a: i64 = param_b - fixed * 65536;
    FontMetrics { baseline_y, param_a, param_b, param_d: size_config.maxHeight as i64 }
}

/// The rounding of a fraction does not decrease as the numerator grows.
pub proof fn lemma_round_ratio_monotonic(n1: int, n2: int, d: int)
    requires
        d > 0,
        n1 <= n2,
    ensures
        round_ratio(n1, d) <= round_ratio(n2, d),
{
    let m1 = if n1 < 0 { -n1 } else { n1 };
    let m2 = if n2 < 0 { -n2 } else { n2 };
    let q1 = (2 * m1 + d) / (2 * d);
    let q2 = (2 * m2 + d) / (2 * d);
    assert(q1 >= 0 && q2 >= 0) by (nonlinear_arith)
        requires
            m1 >= 0,
            m2 >= 0,
            d > 0,
            q1 == (2 * m1 + d) / (2 * d),
            q2 == (2 * m2 + d) / (2 * d),
    ;
    if n1 >= 0 {
        assert(q1 <= q2) by (nonlinear_arith)
            requires
                0 <= m1 <= m2,
                d > 0,
                q1 == (2 * m1 + d) / (2 * d),
                q2 == (2 * m2 + d) / (2 * d),
        ;
    } else if n2 < 0 {
        assert(q2 <= q1) by (nonlinear_arith)
            requires
                0 <= m2 <= m1,
                d > 0,
                q1 == (2 * m1 + d) / (2 * d),
                q2 == (2 * m2 + d) / (2 * d),
        ;
    }
}

/// A larger global correction never lowers a tier's baseline correction,
/// as long as the tier's height and the reference height are positive.
pub proof fn lemma_dynamic_offset_monotonic(c1: int, c2: int, height: int, reference: int)
    requires
        c1 <= c2,
        height >= 0,
        reference > 0,
    ensures
        dynamic_offset(c1, height, reference) <= dynamic_offset(c2, height, reference),
{
    assert(c1 * height <= c2 * height) by (nonlinear_arith)
        requires
            c1 <= c2,
            height >= 0,
    ;
    lemma_round_ratio_monotonic(c1 * height, c2 * height, whole(reference));
}

/// Changing the global correction moves the top and the bottom of a tier's
/// envelope by the same whole number of pixels: the difference of the two
/// baseline corrections. The baseline itself and the cell height stay.
pub proof fn lemma_correction_moves_envelope(
    ascent: int,
    tier: FontSizeConfig,
    c1: int,
    c2: int,
    reference: int,
    render_size: int,
)
    ensures
        envelope_top(ascent, tier, c2, reference, render_size) - envelope_top(
            ascent,
            tier,
            c1,
            reference,
            render_size,
        ) == whole(
            dynamic_offset(c2, tier.maxHeight as int, reference) - dynamic_offset(
                c1,
                tier.maxHeight as int,
                reference,
            ),
        ),
        envelope_bottom(ascent, tier, c2, reference, render_size) - envelope_bottom(
            ascent,
            tier,
            c1,
            reference,
            render_size,
        ) == whole(
            dynamic_offset(c2, tier.maxHeight as int, reference) - dynamic_offset(
                c1,
                tier.maxHeight as int,
                reference,
            ),
        ),
{
}

/// A fraction over whole pixels, rounded and taken as whole pixels again,
/// is within half the denominator of the numerator.
pub proof fn lemma_round_ratio_bound(n: int, r: int)
    requires
        r != 0,
    ensures
        ({
            let m = if n < 0 { -n } else { n };
            let e = if r < 0 { whole(-r) } else { whole(r) };
            -(2 * m + e) <= 2 * whole(round_ratio(n, whole(r))) <= 2 * m + e
        }),
{
    let m = if n < 0 { -n } else { n };
    let e = if r < 0 { whole(-r) } else { whole(r) };
    let q = (2 * m + e) / (2 * e);
    assert(0 <= q && q * 131072 <= 2 * m + e) by (nonlinear_arith)
        requires
            m >= 0,
            e >= 65536,
            q == (2 * m + e) / (2 * e),
    ;
}

} // verus!
