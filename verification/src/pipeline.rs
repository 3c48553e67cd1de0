//! One size tier from glyphs to documents.

use crate::canvas::Canvas;
use crate::descriptor::{
    base_name, base_name_of, char_entries, code_map, decimal, entry_of, font_document,
    lemma_code_map_determined, lemma_code_map_records, mdf_key_of, page_path_of, page_sources,
    pixel_ref_of, resource_manifest, SHIFT_LIMIT,
};
use crate::fixed::px_round;
use crate::metrics::{baseline_of, calculate_metrics, envelope_bottom, envelope_top};
use crate::packer::{
    cell_visible, contained, is_power_of_two, lemma_pages_determined, pack, page_fits, pages_of,
    placement_of, same_cells, Placement,
};
use crate::raster::{cell_fits, is_cell_of, lemma_cell_determined, lemma_shift_bound, rasterize_char, ScaledGlyph};
use crate::types::{AppConfig, CharData, FontMetrics, FontSizeConfig, PsbFont, PsbResx};
use vstd::prelude::*;

verus! {

/// One character with what its font says of it.
pub struct GlyphRequest {
    pub c: char,
    /// The glyph in the font chosen for the character, at that font's
    /// render size.
    pub glyph: ScaledGlyph,
    /// That font's vertical offset, in sub-pixel steps.
    pub offset_y: i32,
}

/// All that is written for one tier.
pub struct TierOutput {
    /// Base name of the two documents and name of the directory of pages.
    pub base_name: String,
    /// The tier's metrics.
    pub metrics: FontMetrics,
    /// The rasterized characters, in input order.
    pub cells: Vec<CharData>,
    /// Where each of them was recorded, in input order.
    pub placements: Vec<Placement>,
    /// The atlas pages, in order.
    pub atlases: Vec<Canvas>,
    /// The font-metrics document.
    pub font: PsbFont,
    /// The resource manifest.
    pub resx: PsbResx,
}

/// The metrics of a tier.
pub open spec fn tier_metrics(
    ascent: int,
    tier: FontSizeConfig,
    config: AppConfig,
    render_size: int,
) -> FontMetrics {
    let reference = config.font_sizes@.last().maxHeight as int;
    let correction = config.global_offset_correction as int;
    FontMetrics {
        baseline_y: baseline_of(ascent, tier, render_size) as i64,
        param_a: envelope_top(ascent, tier, correction, reference, render_size) as i64,
        param_b: envelope_bottom(ascent, tier, correction, reference, render_size) as i64,
        param_d: tier.maxHeight as i64,
    }
}

/// `cells` are the rasterizations of `requests`, one for one.
pub open spec fn are_cells_of(
    cells: Seq<CharData>,
    requests: Seq<GlyphRequest>,
    tier: FontSizeConfig,
    baseline_y: int,
) -> bool {
    &&& cells.len() == requests.len()
    &&& forall|i: int|
        0 <= i < cells.len() ==> is_cell_of(
            #[trigger] cells[i],
            requests[i].c,
            requests[i].glyph,
            requests[i].offset_y as int,
            tier,
            baseline_y,
        )
}

/// `doc` is the font-metrics document of a tier with these pages and this
/// character map.
pub open spec fn is_font_document(
    doc: PsbFont,
    tier: FontSizeConfig,
    pages: Seq<crate::canvas::CanvasView>,
    code: Map<u32, crate::types::CharEntry>,
) -> bool {
    &&& doc.version == 108
    &&& doc.id@ == "font"@
    &&& doc.spec@ == "vita"@
    &&& doc.label@ == "normal"@
    &&& doc.minWidth == px_round(tier.minWidth as int)
    &&& doc.minHeight == px_round(tier.minHeight as int)
    &&& doc.maxWidth == px_round(tier.maxWidth as int)
    &&& doc.maxHeight == px_round(tier.maxHeight as int)
    &&& doc.source@.len() == pages.len()
    &&& forall|p: int|
        0 <= p < doc.source@.len() ==> {
            &&& (#[trigger] doc.source@[p]).source_type@ == "A8_SW"@
            &&& doc.source@[p].pixel@ == pixel_ref_of(p as nat)
            &&& doc.source@[p].width == pages[p].width
            &&& doc.source@[p].height == pages[p].height
        }
    &&& doc.code@ == code
}

/// `doc` is the resource manifest of a tier of the given size with `pages`
/// pages.
pub open spec fn is_resource_manifest(doc: PsbResx, base_size: int, pages: int) -> bool {
    &&& doc.PsbVersion == 2
    &&& doc.PsbType@ == "BmpFont"@
    &&& doc.Platform@ == "vita"@
    &&& doc.CryptKey is None
    &&& !doc.ExternalTextures
    &&& doc.Context.MdfKeyLength == 131
    &&& doc.Context.FileName@ == base_name_of(base_size)
    &&& doc.Context.MdfKey@ == mdf_key_of(base_size)
    &&& !doc.Context.PsbZlibFastCompress
    &&& doc.Context.PsbShellType@ == "MDF"@
    &&& doc.Resources@.len() == pages
    &&& forall|p: int|
        0 <= p < doc.Resources@.len() ==> {
            &&& (#[trigger] doc.Resources@[p]).0@ == decimal(p as nat)
            &&& doc.Resources@[p].1@ == page_path_of(base_size, p as nat)
        }
}

/// `out` is the output of a tier: its metrics are those of the tier, its
/// cells the rasterizations of the requests against those metrics, its
/// pages and placements the packing of the cells, and its documents those of
/// the pages and of the cells' records.
pub open spec fn is_tier_output(
    out: TierOutput,
    ascent: int,
    render_size: int,
    requests: Seq<GlyphRequest>,
    tier: FontSizeConfig,
    config: AppConfig,
) -> bool {
    let cap = config.atlas_max_size as int;
    let pages = pages_of(out.cells@, cap);
    &&& out.base_name@ == base_name_of(tier.maxHeight as int)
    &&& out.metrics == tier_metrics(ascent, tier, config, render_size)
    &&& are_cells_of(out.cells@, requests, tier, out.metrics.baseline_y as int)
    &&& out.placements@.len() == out.cells@.len()
    &&& forall|i: int|
        0 <= i < out.placements@.len() ==> #[trigger] out.placements@[i] == placement_of(
            out.cells@,
            cap,
            i,
        )
    &&& out.atlases@.len() == pages.len()
    &&& forall|p: int| 0 <= p < out.atlases@.len() ==> (#[trigger] out.atlases@[p])@ == pages[p]
    &&& is_font_document(
        out.font,
        tier,
        pages,
        code_map(out.cells@, out.placements@, out.metrics, tier.maxHeight as int, out.cells@.len() as int),
    )
    &&& is_resource_manifest(out.resx, tier.maxHeight as int, pages.len() as int)
}

/// Rasterizes every requested character.
pub fn rasterize_all(requests: &Vec<GlyphRequest>, size_config: &FontSizeConfig, baseline_y: i64) -> (cells:
    Vec<CharData>)
    requires
        forall|i: int|
            0 <= i < requests@.len() ==> cell_fits((#[trigger] requests@[i]).glyph, *size_config),
    ensures
        are_cells_of(cells@, requests@, *size_config, baseline_y as int),
{
    let mut cells: Vec<CharData> = Vec::new();
    let n: usize = requests.len();
    let mut i: usize = 0;
    while i < n
        invariant
            n == requests@.len(),
            i <= n,
            cells@.len() == i,
            forall|j: int|
                0 <= j < requests@.len() ==> cell_fits((#[trigger] requests@[j]).glyph, *size_config),
            forall|j: int|
                0 <= j < i ==> is_cell_of(
                    #[trigger] cells@[j],
                    requests@[j].c,
                    requests@[j].glyph,
                    requests@[j].offset_y as int,
                    *size_config,
                    baseline_y as int,
                ),
        decreases n - i,
    {
        let request: &GlyphRequest = &requests[i];
        let cell: CharData = rasterize_char(
            request.c,
            &request.glyph,
            request.offset_y,
            size_config,
            baseline_y,
        );
        cells.push(cell);
        i += 1;
    }
    cells
}

/// Produces the pages and documents of one tier.
///
/// `ascent` is the first font's ascent at this tier's render size and
/// `render_size` that size, in sub-pixel steps; `requests` holds the
/// characters in character-set order. The metrics are computed once, every
/// character is rasterized against them, the cells are packed in order, and
/// the two documents are assembled from the result.
///
/// Every page has sides that are powers of two of at least 64 where the
/// configured page side is one. Every cell that has something to show and is
/// no larger than a page lies inside the page it is recorded for.
pub fn process_font_size(
    ascent: i32,
    render_size: i32,
    requests: &Vec<GlyphRequest>,
    size_config: &FontSizeConfig,
    global_config: &AppConfig,
) -> (out: TierOutput)
    requires
        global_config.font_sizes@.len() > 0,
        global_config.font_sizes@.last().maxHeight != 0,
        page_fits(global_config.atlas_max_size as int),
        requests@.len() <= u32::MAX,
        forall|i: int|
            0 <= i < requests@.len() ==> cell_fits((#[trigger] requests@[i]).glyph, *size_config),
    ensures
        is_tier_output(
            out,
            ascent as int,
            render_size as int,
            requests@,
            *size_config,
            *global_config,
        ),
        is_power_of_two(global_config.atlas_max_size as int) && global_config.atlas_max_size >= 64
            ==> forall|p: int|
            0 <= p < out.atlases@.len() ==> {
                &&& is_power_of_two((#[trigger] out.atlases@[p])@.width)
                &&& is_power_of_two(out.atlases@[p]@.height)
                &&& out.atlases@[p]@.width >= 64
                &&& out.atlases@[p]@.height >= 64
            },
        forall|i: int|
            0 <= i < out.cells@.len() && cell_visible(out.cells@[i]) && out.cells@[i].w
                <= global_config.atlas_max_size && out.cells@[i].h <= global_config.atlas_max_size
                ==> contained(
                out.cells@[i],
                #[trigger] out.placements@[i],
                pages_of(out.cells@, global_config.atlas_max_size as int),
            ),
{
    let base_size: i32 = size_config.maxHeight;
    let metrics: FontMetrics = calculate_metrics(ascent, size_config, global_config, render_size);
    let cells: Vec<CharData> = rasterize_all(requests, size_config, metrics.baseline_y);
    let (atlases, placements) = pack(&cells, global_config.atlas_max_size);
    proof {
        assert forall|i: int| 0 <= i < cells@.len() implies -SHIFT_LIMIT <= (
        #[trigger] cells@[i]).offset_correction_y <= SHIFT_LIMIT by {
            lemma_shift_bound(
                requests@[i].glyph,
                requests@[i].offset_y as int,
                *size_config,
                metrics.baseline_y as int,
            );
        }
    }
    let code = char_entries(&cells, &placements, &metrics, base_size);
    let sources = page_sources(&atlases);
    let font: PsbFont = font_document(size_config, sources, code);
    let resx: PsbResx = resource_manifest(base_size, atlases.len());
    TierOutput { base_name: base_name(base_size), metrics, cells, placements, atlases, font, resx }
}

/// Determinism: whatever is the output of a tier for given inputs, any other
/// output for the same inputs has the same name, metrics, cells, placements,
/// pages (pixel for pixel) and documents.
pub proof fn lemma_output_determined(
    a: TierOutput,
    b: TierOutput,
    ascent: int,
    render_size: int,
    requests: Seq<GlyphRequest>,
    tier: FontSizeConfig,
    config: AppConfig,
)
    requires
        is_tier_output(a, ascent, render_size, requests, tier, config),
        is_tier_output(b, ascent, render_size, requests, tier, config),
    ensures
        a.base_name@ == b.base_name@,
        a.metrics == b.metrics,
        same_cells(a.cells@, b.cells@),
        a.placements@ == b.placements@,
        a.atlases@.len() == b.atlases@.len(),
        forall|p: int| 0 <= p < a.atlases@.len() ==> (#[trigger] a.atlases@[p])@ == b.atlases@[p]@,
        a.font.code@ == b.font.code@,
        a.font.version == b.font.version,
        a.font.id@ == b.font.id@,
        a.font.spec@ == b.font.spec@,
        a.font.label@ == b.font.label@,
        a.font.minWidth == b.font.minWidth,
        a.font.minHeight == b.font.minHeight,
        a.font.maxWidth == b.font.maxWidth,
        a.font.maxHeight == b.font.maxHeight,
        a.font.source@.len() == b.font.source@.len(),
        forall|p: int|
            0 <= p < a.font.source@.len() ==> {
                &&& (#[trigger] a.font.source@[p]).source_type@ == b.font.source@[p].source_type@
                &&& a.font.source@[p].pixel@ == b.font.source@[p].pixel@
                &&& a.font.source@[p].width == b.font.source@[p].width
                &&& a.font.source@[p].height == b.font.source@[p].height
            },
        a.resx.PsbVersion == b.resx.PsbVersion,
        a.resx.PsbType@ == b.resx.PsbType@,
        a.resx.Platform@ == b.resx.Platform@,
        a.resx.CryptKey is None && b.resx.CryptKey is None,
        a.resx.ExternalTextures == b.resx.ExternalTextures,
        a.resx.Context.MdfKeyLength == b.resx.Context.MdfKeyLength,
        a.resx.Context.FileName@ == b.resx.Context.FileName@,
        a.resx.Context.MdfKey@ == b.resx.Context.MdfKey@,
        a.resx.Context.PsbZlibFastCompress == b.resx.Context.PsbZlibFastCompress,
        a.resx.Context.PsbShellType@ == b.resx.Context.PsbShellType@,
        a.resx.Resources@.len() == b.resx.Resources@.len(),
        forall|p: int|
            0 <= p < a.resx.Resources@.len() ==> {
                &&& (#[trigger] a.resx.Resources@[p]).0@ == b.resx.Resources@[p].0@
                &&& a.resx.Resources@[p].1@ == b.resx.Resources@[p].1@
            },
{
    let cap = config.atlas_max_size as int;
    assert(same_cells(a.cells@, b.cells@)) by {
        assert forall|i: int| 0 <= i < a.cells@.len() implies crate::packer::same_cell(
            #[trigger] a.cells@[i],
            b.cells@[i],
        ) by {
            lemma_cell_determined(
                a.cells@[i],
                b.cells@[i],
                requests[i].c,
                requests[i].glyph,
                requests[i].offset_y as int,
                tier,
                a.metrics.baseline_y as int,
            );
        }
    }
    lemma_pages_determined(a.cells@, b.cells@, cap);
    assert(a.placements@ =~= b.placements@);
    lemma_code_map_determined(
        a.cells@,
        b.cells@,
        a.placements@,
        a.metrics,
        tier.maxHeight as int,
        a.cells@.len() as int,
    );
}

/// Containment of records: the record that the character map holds under
/// `key` lies inside the page that it names, provided the cell it was made
/// for has something to show and is no larger than a page. (A cell with
/// nothing to show is recorded at the fixed anchor `(1, 1)`, which need not
/// lie inside the page with the cell's size.)
pub proof fn lemma_record_contained(
    out: TierOutput,
    ascent: int,
    render_size: int,
    requests: Seq<GlyphRequest>,
    tier: FontSizeConfig,
    config: AppConfig,
    key: u32,
)
    requires
        is_tier_output(out, ascent, render_size, requests, tier, config),
        out.font.code@.contains_key(key),
        forall|i: int|
            0 <= i < out.cells@.len() && cell_visible(out.cells@[i]) && out.cells@[i].w
                <= config.atlas_max_size && out.cells@[i].h <= config.atlas_max_size ==> contained(
                out.cells@[i],
                #[trigger] out.placements@[i],
                pages_of(out.cells@, config.atlas_max_size as int),
            ),
        forall|i: int|
            0 <= i < out.cells@.len() && (#[trigger] out.cells@[i]).c as u32 == key ==> {
                &&& cell_visible(out.cells@[i])
                &&& out.cells@[i].w <= config.atlas_max_size
                &&& out.cells@[i].h <= config.atlas_max_size
            },
    ensures
        out.font.code@[key].id < out.atlases@.len(),
        out.font.code@[key].x + out.font.code@[key].w <= out.atlases@[out.font.code@[key].id as int]@.width,
        out.font.code@[key].y + out.font.code@[key].h <= out.atlases@[out.font.code@[key].id as int]@.height,
{
    let cells = out.cells@;
    let n = cells.len() as int;
    let base = tier.maxHeight as int;
    lemma_code_map_records(cells, out.placements@, out.metrics, base, n, key);
    let i = choose|i: int|
        {
            &&& 0 <= i < n
            &&& (#[trigger] cells[i]).c as u32 == key
            &&& forall|j: int| i < j < n ==> (#[trigger] cells[j]).c as u32 != key
            &&& code_map(cells, out.placements@, out.metrics, base, n)[key] == entry_of(
                cells[i],
                out.placements@[i],
                out.metrics,
                base,
            )
        };
    assert(contained(cells[i], out.placements@[i], pages_of(cells, config.atlas_max_size as int)));
}

} // verus!
