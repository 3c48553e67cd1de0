//! Configuration, intermediate and descriptor types.
//!
//! Real-valued fields are fixed-point counts of sub-pixel steps (see
//! `crate::fixed`), unless their comment says that they hold whole pixels.

use crate::canvas::Canvas;
use std::collections::BTreeMap;
use vstd::prelude::*;

verus! {

/// The settings of one run.
pub struct AppConfig {
    /// Directory that receives the descriptors and the page images.
    pub output_dir: String,
    /// Path of the text whose characters make up the character set.
    pub chars_file: String,
    /// The size tiers, one output unit each. The last one is the reference
    /// for the baseline correction of all the others.
    pub font_sizes: Vec<FontSizeConfig>,
    /// Side of a square atlas page before trimming, in whole pixels.
    pub atlas_max_size: u32,
    /// Baseline correction at the reference tier, in sub-pixel steps.
    pub global_offset_correction: i32,
    /// Render size as a multiple of a tier's height, `UNIT` standing for 1.
    pub global_scale: i32,
    /// The fonts, in fallback order.
    pub fonts: Vec<FontConfig>,
}

/// One size tier, in sub-pixel steps.
#[allow(non_snake_case)]
#[derive(Clone, Copy, Debug)]
pub struct FontSizeConfig {
    pub maxHeight: i32,
    pub maxWidth: i32,
    pub minHeight: i32,
    pub minWidth: i32,
}

/// One configured font.
pub struct FontConfig {
    pub path: String,
    /// Multiplier on the render size, `UNIT` standing for 1.
    pub scale: i32,
    /// Vertical offset applied to every glyph of this font, in sub-pixel steps.
    pub offset_y: i32,
}

/// Page side used when the configuration names none.
pub fn default_atlas_size() -> (size: u32)
    ensures
        size == 2048,
{
    2048
}

/// Scale used when the configuration names none: exactly 1.
pub fn default_scale() -> (scale: i32)
    ensures
        scale == crate::fixed::UNIT,
{
    65536
}

/// The font-metrics document of one tier.
#[allow(non_snake_case)]
pub struct PsbFont {
    /// Format version in hundredths (`108` is version 1.08).
    pub version: u32,
    pub id: String,
    pub spec: String,
    pub label: String,
    /// The tier's bounds, rounded to whole pixels.
    pub minWidth: i64,
    pub minHeight: i64,
    pub maxWidth: i64,
    pub maxHeight: i64,
    /// One entry per atlas page, in page order.
    pub source: Vec<PsbFontSource>,
    /// Placement record of each character, keyed by its code point.
    pub code: BTreeMap<u32, CharEntry>,
}

/// One atlas page as the font-metrics document lists it.
pub struct PsbFontSource {
    pub source_type: String,
    pub pixel: String,
    pub width: u32,
    pub height: u32,
}

/// Where one character sits in the atlas and how it is placed on a line.
/// Every field holds whole pixels.
#[derive(Clone, Copy, Debug, PartialEq, Eq, Structural)]
pub struct CharEntry {
    /// Index of the page that holds the glyph.
    pub id: u32,
    pub x: u32,
    pub y: u32,
    /// Advance width.
    pub width: i64,
    /// Nominal height of the tier.
    pub height: i64,
    /// Size of the glyph cell.
    pub w: u32,
    pub h: u32,
    /// Top and bottom of the unified envelope, moved with the glyph.
    pub a: i64,
    pub b: i64,
    /// Nominal height of the tier.
    pub d: i64,
}

/// The resource manifest of one tier.
#[allow(non_snake_case)]
pub struct PsbResx {
    pub PsbVersion: u32,
    pub PsbType: String,
    pub Platform: String,
    pub CryptKey: Option<String>,
    pub ExternalTextures: bool,
    pub Context: PsbResxContext,
    /// Page index in decimal and the page image's relative path, in page order.
    pub Resources: Vec<(String, String)>,
}

/// The fixed context block of a resource manifest.
#[allow(non_snake_case)]
pub struct PsbResxContext {
    pub MdfKeyLength: u32,
    pub FileName: String,
    pub MdfKey: String,
    pub PsbZlibFastCompress: bool,
    pub PsbShellType: String,
}

/// A parsed font with its configuration. The font borrows the bytes that it
/// was parsed from.
pub struct LoadedFont<'a> {
    pub font_ref: ab_glyph::FontRef<'a>,
    pub config: &'a FontConfig,
}

/// The vertical metrics shared by all glyphs of one tier, in sub-pixel steps.
#[derive(Clone, Copy, Debug, PartialEq, Eq, Structural)]
pub struct FontMetrics {
    /// Distance of the baseline from the top of the cell.
    pub baseline_y: i64,
    /// Top of the unified envelope.
    pub param_a: i64,
    /// Bottom of the unified envelope.
    pub param_b: i64,
    /// Nominal height of the tier.
    pub param_d: i64,
}

/// One rasterized character.
pub struct CharData {
    pub c: char,
    /// The cell's pixels; `None` for a cell without a buffer.
    pub img: Option<Canvas>,
    /// Cell width in whole pixels.
    pub w: u32,
    /// Cell height in whole pixels: the tier's fixed height.
    pub h: u32,
    /// Advance width in sub-pixel steps.
    pub advance: i32,
    /// Whole pixels by which the glyph was moved to fit the cell; positive
    /// is downward.
    pub offset_correction_y: i64,
}

} // verus!
