//! The descriptor documents of one tier: the font-metrics document with its
//! page list and character map, and the resource manifest.
//!
//! Every number is rounded to whole pixels here, once, and nowhere before.

use crate::canvas::Canvas;
use crate::fixed::{px_round, px_round_even, round_even_px, round_px, whole};
use crate::packer::Placement;
use crate::types::{CharData, CharEntry, FontMetrics, FontSizeConfig, PsbFont, PsbFontSource, PsbResx, PsbResxContext};
use std::collections::BTreeMap;
use vstd::prelude::*;

verus! {

/// Largest vertical move of a glyph, in whole pixels, for which the sums of
/// a placement record fit their fields.
pub const SHIFT_LIMIT: i64 = 0x4000_0000_0000_0000;

/// The character that writes the digit `d`.
pub open spec fn digit_char(d: int) -> char {
    if d == 0 {
        '0'
    } else if d == 1 {
        '1'
    } else if d == 2 {
        '2'
    } else if d == 3 {
        '3'
    } else if d == 4 {
        '4'
    } else if d == 5 {
        '5'
    } else if d == 6 {
        '6'
    } else if d == 7 {
        '7'
    } else if d == 8 {
        '8'
    } else {
        '9'
    }
}

/// A natural number in decimal, without leading zeros.
pub open spec fn decimal(n: nat) -> Seq<char>
    decreases n,
{
    if n < 10 {
        seq![digit_char(n as int)]
    } else {
        decimal(n / 10).push(digit_char((n % 10) as int))
    }
}

/// A tier's size as it appears in file names: rounded to the nearest whole
/// pixel, halves to even, with a minus sign before a negative size.
pub open spec fn size_label(size: int) -> Seq<char> {
    if size < 0 {
        seq!['-'] + decimal(px_round_even(-size) as nat)
    } else {
        decimal(px_round_even(size) as nat)
    }
}

/// Base name of a tier's descriptors, and name of its directory of pages.
pub open spec fn base_name_of(size: int) -> Seq<char> {
    "textfont"@ + size_label(size) + ".psb.m"@
}

/// File name of a tier's font-metrics document.
pub open spec fn font_file_name_of(size: int) -> Seq<char> {
    base_name_of(size) + ".json"@
}

/// File name of a tier's resource manifest.
pub open spec fn manifest_file_name_of(size: int) -> Seq<char> {
    base_name_of(size) + ".resx.json"@
}

/// File name of the image of page `i`.
pub open spec fn page_file_name_of(i: nat) -> Seq<char> {
    "["@ + decimal(i) + "]-["@ + decimal(i) + "].png"@
}

/// Path of the image of page `i` relative to the output directory.
pub open spec fn page_path_of(size: int, i: nat) -> Seq<char> {
    base_name_of(size) + "/"@ + page_file_name_of(i)
}

/// The token by which the font-metrics document refers to page `i`.
pub open spec fn pixel_ref_of(i: nat) -> Seq<char> {
    "#resource#"@ + decimal(i)
}

/// The key string of a tier's resource manifest.
pub open spec fn mdf_key_of(size: int) -> Seq<char> {
    "2shj693vwue5t"@ + base_name_of(size)
}

/// The placement record of one cell.
pub open spec fn entry_of(cell: CharData, place: Placement, metrics: FontMetrics, base_size: int) -> CharEntry {
    CharEntry {
        id: place.page,
        x: place.x,
        y: place.y,
        width: px_round(cell.advance as int) as i64,
        height: px_round(base_size) as i64,
        w: cell.w,
        h: cell.h,
        a: px_round(metrics.param_a + whole(cell.offset_correction_y as int)) as i64,
        b: px_round(metrics.param_b + whole(cell.offset_correction_y as int)) as i64,
        d: px_round(metrics.param_d as int) as i64,
    }
}

/// The character map after the first `n` cells: each character's code point
/// leads to the record of the last of them that carries it.
pub open spec fn code_map(
    cells: Seq<CharData>,
    places: Seq<Placement>,
    metrics: FontMetrics,
    base_size: int,
    n: int,
) -> Map<u32, CharEntry>
    decreases n,
{
    if n <= 0 {
        Map::empty()
    } else {
        code_map(cells, places, metrics, base_size, n - 1).insert(
            cells[n - 1].c as u32,
            entry_of(cells[n - 1], places[n - 1], metrics, base_size),
        )
    }
}

/// Whether rounding `v` and rounding `v` moved by `k` whole pixels differ by
/// exactly `k`. It fails only for a `v` that lies halfway between two pixels
/// and is carried across zero by the move.
pub open spec fn rounds_alike(v: int, k: int) -> bool {
    v % 65536 != 32768 || (v >= 0) == (v + whole(k) >= 0)
}

/// Metric monotonicity: when the envelope of a tier moves by `delta` whole
/// pixels (as it does when the global correction changes), the `a` and `b`
/// of every record move by `delta` too, and nothing else in the record
/// changes. The one exception is a value exactly halfway between two pixels
/// that the move carries across zero, which `rounds_alike` leaves out.
pub proof fn lemma_records_follow_envelope(
    cell: CharData,
    place: Placement,
    before: FontMetrics,
    after: FontMetrics,
    base_size: int,
    delta: int,
)
    requires
        after.baseline_y == before.baseline_y,
        after.param_d == before.param_d,
        after.param_a == before.param_a + whole(delta),
        after.param_b == before.param_b + whole(delta),
        rounds_alike(before.param_a + whole(cell.offset_correction_y as int), delta),
        rounds_alike(before.param_b + whole(cell.offset_correction_y as int), delta),
    ensures
        px_round(after.param_a + whole(cell.offset_correction_y as int)) == px_round(
            before.param_a + whole(cell.offset_correction_y as int),
        ) + delta,
        px_round(after.param_b + whole(cell.offset_correction_y as int)) == px_round(
            before.param_b + whole(cell.offset_correction_y as int),
        ) + delta,
        entry_of(cell, place, after, base_size).id == entry_of(cell, place, before, base_size).id,
        entry_of(cell, place, after, base_size).x == entry_of(cell, place, before, base_size).x,
        entry_of(cell, place, after, base_size).y == entry_of(cell, place, before, base_size).y,
        entry_of(cell, place, after, base_size).width == entry_of(cell, place, before, base_size).width,
        entry_of(cell, place, after, base_size).height == entry_of(cell, place, before, base_size).height,
        entry_of(cell, place, after, base_size).w == entry_of(cell, place, before, base_size).w,
        entry_of(cell, place, after, base_size).h == entry_of(cell, place, before, base_size).h,
        entry_of(cell, place, after, base_size).d == entry_of(cell, place, before, base_size).d,
{
    crate::fixed::lemma_px_round_shift(before.param_a + whole(cell.offset_correction_y as int), delta);
    crate::fixed::lemma_px_round_shift(before.param_b + whole(cell.offset_correction_y as int), delta);
}

/// Every record of the character map is the record of a cell: of the last
/// among the first `n` cells that carries the character of the key.
pub proof fn lemma_code_map_records(
    cells: Seq<CharData>,
    places: Seq<Placement>,
    metrics: FontMetrics,
    base_size: int,
    n: int,
    key: u32,
)
    requires
        0 <= n <= cells.len(),
        code_map(cells, places, metrics, base_size, n).contains_key(key),
    ensures
        exists|i: int|
            {
                &&& 0 <= i < n
                &&& (#[trigger] cells[i]).c as u32 == key
                &&& forall|j: int| i < j < n ==> (#[trigger] cells[j]).c as u32 != key
                &&& code_map(cells, places, metrics, base_size, n)[key] == entry_of(
                    cells[i],
                    places[i],
                    metrics,
                    base_size,
                )
            },
    decreases n,
{
    if n > 0 {
        if cells[n - 1].c as u32 == key {
            assert(cells[n - 1].c as u32 == key);
        } else {
            lemma_code_map_records(cells, places, metrics, base_size, n - 1, key);
            let i = choose|i: int|
                {
                    &&& 0 <= i < n - 1
                    &&& (#[trigger] cells[i]).c as u32 == key
                    &&& forall|j: int| i < j < n - 1 ==> (#[trigger] cells[j]).c as u32 != key
                    &&& code_map(cells, places, metrics, base_size, n - 1)[key] == entry_of(
                        cells[i],
                        places[i],
                        metrics,
                        base_size,
                    )
                };
            assert(cells[i].c as u32 == key);
        }
    }
}

/// Every cell has a record in the character map, under its character.
pub proof fn lemma_code_map_keys(
    cells: Seq<CharData>,
    places: Seq<Placement>,
    metrics: FontMetrics,
    base_size: int,
    n: int,
    i: int,
)
    requires
        0 <= i < n <= cells.len(),
    ensures
        code_map(cells, places, metrics, base_size, n).contains_key(cells[i].c as u32),
    decreases n,
{
    if i < n - 1 {
        lemma_code_map_keys(cells, places, metrics, base_size, n - 1, i);
    }
}

/// The character map is a function of what is read of the cells.
pub proof fn lemma_code_map_determined(
    a: Seq<CharData>,
    b: Seq<CharData>,
    places: Seq<Placement>,
    metrics: FontMetrics,
    base_size: int,
    n: int,
)
    requires
        crate::packer::same_cells(a, b),
        0 <= n <= a.len(),
    ensures
        code_map(a, places, metrics, base_size, n) == code_map(b, places, metrics, base_size, n),
    decreases n,
{
    if n > 0 {
        lemma_code_map_determined(a, b, places, metrics, base_size, n - 1);
        assert(crate::packer::same_cell(a[n - 1], b[n - 1]));
    }
}

/// One decimal digit as text.
fn digit_str(d: u64) -> (s: &'static str)
    requires
        d < 10,
    ensures
        s@ == seq![digit_char(d as int)],
{
    proof {
        reveal_strlit("0");
        reveal_strlit("1");
        reveal_strlit("2");
        reveal_strlit("3");
        reveal_strlit("4");
        reveal_strlit("5");
        reveal_strlit("6");
        reveal_strlit("7");
        reveal_strlit("8");
        reveal_strlit("9");
    }
    let s: &'static str = if d == 0 {
        "0"
    } else if d == 1 {
        "1"
    } else if d == 2 {
        "2"
    } else if d == 3 {
        "3"
    } else if d == 4 {
        "4"
    } else if d == 5 {
        "5"
    } else if d == 6 {
        "6"
    } else if d == 7 {
        "7"
    } else if d == 8 {
        "8"
    } else {
        "9"
    };
    assert(s@ =~= seq![digit_char(d as int)]);
    s
}

/// A number in decimal.
pub fn decimal_string(n: u64) -> (s: String)
    ensures
        s@ == decimal(n as nat),
    decreases n,
{
    if n < 10 {
        String::from_str(digit_str(n))
    } else {
        let mut s: String = decimal_string(n / 10);
        let ghost head = s@;
        s.append(digit_str(n % 10));
        assert(s@ =~= head.push(digit_char((n % 10) as int)));
        s
    }
}

/// Base name of a tier's descriptors and of its directory of pages.
pub fn base_name(base_size: i32) -> (name: String)
    ensures
        name@ == base_name_of(base_size as int),
{
    let mut name: String = String::from_str("textfont");
    if base_size < 0 {
        proof {
            reveal_strlit("-");
        }
        name.append("-");
        let digits: String = decimal_string(round_even_px((-(base_size as i64)) as u64));
        name.append(digits.as_str());
        assert(name@ =~= "textfont"@ + size_label(base_size as int)) by {
            assert("-"@ =~= seq!['-']);
        }
    } else {
        let digits: String = decimal_string(round_even_px(base_size as u64));
        name.append(digits.as_str());
    }
    name.append(".psb.m");
    name
}

/// File name of a tier's font-metrics document.
pub fn font_file_name(base_size: i32) -> (name: String)
    ensures
        name@ == font_file_name_of(base_size as int),
{
    let mut name: String = base_name(base_size);
    name.append(".json");
    name
}

/// File name of a tier's resource manifest.
pub fn manifest_file_name(base_size: i32) -> (name: String)
    ensures
        name@ == manifest_file_name_of(base_size as int),
{
    let mut name: String = base_name(base_size);
    name.append(".resx.json");
    name
}

/// File name of the image of page `i`.
pub fn page_file_name(i: u64) -> (name: String)
    ensures
        name@ == page_file_name_of(i as nat),
{
    let digits: String = decimal_string(i);
    let mut name: String = String::from_str("[");
    name.append(digits.as_str());
    name.append("]-[");
    name.append(digits.as_str());
    name.append("].png");
    name
}

/// The page list of the font-metrics document: one entry per page, in order,
/// with the page's size.
pub fn page_sources(atlases: &Vec<Canvas>) -> (sources: Vec<PsbFontSource>)
    ensures
        sources@.len() == atlases@.len(),
        forall|i: int|
            0 <= i < sources@.len() ==> {
                &&& (#[trigger] sources@[i]).source_type@ == "A8_SW"@
                &&& sources@[i].pixel@ == pixel_ref_of(i as nat)
                &&& sources@[i].width == atlases@[i]@.width
                &&& sources@[i].height == atlases@[i]@.height
            },
{
    let mut sources: Vec<PsbFontSource> = Vec::new();
    let n: usize = atlases.len();
    let mut i: usize = 0;
    while i < n
        invariant
            n == atlases@.len(),
            i <= n,
            sources@.len() == i,
            forall|j: int|
                0 <= j < i ==> {
                    &&& (#[trigger] sources@[j]).source_type@ == "A8_SW"@
                    &&& sources@[j].pixel@ == pixel_ref_of(j as nat)
                    &&& sources@[j].width == atlases@[j]@.width
                    &&& sources@[j].height == atlases@[j]@.height
                },
        decreases n - i,
    {
        let digits: String = decimal_string(i as u64);
        let mut pixel: String = String::from_str("#resource#");
        pixel.append(digits.as_str());
        sources.push(
            PsbFontSource {
                source_type: String::from_str("A8_SW"),
                pixel,
                width: atlases[i].width(),
                height: atlases[i].height(),
            },
        );
        i += 1;
    }
    sources
}

/// The placement record of one cell.
pub fn char_entry(cell: &CharData, place: &Placement, metrics: &FontMetrics, base_size: i32) -> (entry:
    CharEntry)
    requires
        -SHIFT_LIMIT <= cell.offset_correction_y <= SHIFT_LIMIT,
    ensures
        entry == entry_of(*cell, *place, *metrics, base_size as int),
{
    let moved: i128 = cell.offset_correction_y as i128 * 65536;
    CharEntry {
        id: place.page,
        x: place.x,
        y: place.y,
        width: round_px(cell.advance as i128) as i64,
        height: round_px(base_size as i128) as i64,
        w: cell.w,
        h: cell.h,
        a: round_px(metrics.param_a as i128 + moved) as i64,
        b: round_px(metrics.param_b as i128 + moved) as i64,
        d: round_px(metrics.param_d as i128) as i64,
    }
}

/// The character map: the placement record of every cell under its
/// character's code point. Where a character occurs more than once the last
/// occurrence stays.
pub fn char_entries(
    char_list: &Vec<CharData>,
    placements: &Vec<Placement>,
    metrics: &FontMetrics,
    base_size: i32,
) -> (code: BTreeMap<u32, CharEntry>)
    requires
        placements@.len() == char_list@.len(),
        forall|i: int|
            0 <= i < char_list@.len() ==> -SHIFT_LIMIT <= (#[trigger] char_list@[i]).offset_correction_y
                <= SHIFT_LIMIT,
    ensures
        code@ == code_map(char_list@, placements@, *metrics, base_size as int, char_list@.len() as int),
{
    let mut code: BTreeMap<u32, CharEntry> = BTreeMap::new();
    let n: usize = char_list.len();
    let mut i: usize = 0;
    while i < n
        invariant
            n == char_list@.len(),
            n == placements@.len(),
            i <= n,
            forall|j: int|
                0 <= j < char_list@.len() ==> -SHIFT_LIMIT <= (#[trigger] char_list@[j]).offset_correction_y
                    <= SHIFT_LIMIT,
            code@ == code_map(char_list@, placements@, *metrics, base_size as int, i as int),
        decreases n - i,
    {
        let entry: CharEntry = char_entry(&char_list[i], &placements[i], metrics, base_size);
        code.insert(char_list[i].c as u32, entry);
        i += 1;
    }
    code
}

/// The font-metrics document of a tier.
pub fn font_document(
    size_config: &FontSizeConfig,
    sources: Vec<PsbFontSource>,
    code: BTreeMap<u32, CharEntry>,
) -> (doc: PsbFont)
    ensures
        doc.version == 108,
        doc.id@ == "font"@,
        doc.spec@ == "vita"@,
        doc.label@ == "normal"@,
        doc.minWidth == px_round(size_config.minWidth as int),
        doc.minHeight == px_round(size_config.minHeight as int),
        doc.maxWidth == px_round(size_config.maxWidth as int),
        doc.maxHeight == px_round(size_config.maxHeight as int),
        doc.source == sources,
        doc.code == code,
{
    PsbFont {
        version: 108,
        id: String::from_str("font"),
        spec: String::from_str("vita"),
        label: String::from_str("normal"),
        minWidth: round_px(size_config.minWidth as i128) as i64,
        minHeight: round_px(size_config.minHeight as i128) as i64,
        maxWidth: round_px(size_config.maxWidth as i128) as i64,
        maxHeight: round_px(size_config.maxHeight as i128) as i64,
        source: sources,
        code,
    }
}

/// The resource manifest of a tier with `pages` atlas pages.
pub fn resource_manifest(base_size: i32, pages: usize) -> (doc: PsbResx)
    ensures
        doc.PsbVersion == 2,
        doc.PsbType@ == "BmpFont"@,
        doc.Platform@ == "vita"@,
        doc.CryptKey is None,
        !doc.ExternalTextures,
        doc.Context.MdfKeyLength == 131,
        doc.Context.FileName@ == base_name_of(base_size as int),
        doc.Context.MdfKey@ == mdf_key_of(base_size as int),
        !doc.Context.PsbZlibFastCompress,
        doc.Context.PsbShellType@ == "MDF"@,
        doc.Resources@.len() == pages,
        forall|i: int|
            0 <= i < pages ==> {
                &&& (#[trigger] doc.Resources@[i]).0@ == decimal(i as nat)
                &&& doc.Resources@[i].1@ == page_path_of(base_size as int, i as nat)
            },
{
    let file_name: String = base_name(base_size);
    let mut mdf_key: String = String::from_str("2shj693vwue5t");
    mdf_key.append(file_name.as_str());
    let mut resources: Vec<(String, String)> = Vec::new();
    let mut i: usize = 0;
    while i < pages
        invariant
            i <= pages,
            file_name@ == base_name_of(base_size as int),
            resources@.len() == i,
            forall|j: int|
                0 <= j < i ==> {
                    &&& (#[trigger] resources@[j]).0@ == decimal(j as nat)
                    &&& resources@[j].1@ == page_path_of(base_size as int, j as nat)
                },
        decreases pages - i,
    {
        let mut path: String = file_name.clone();
        path.append("/");
        let page: String = page_file_name(i as u64);
        path.append(page.as_str());
        resources.push((decimal_string(i as u64), path));
        i += 1;
    }
    PsbResx {
        PsbVersion: 2,
        PsbType: String::from_str("BmpFont"),
        Platform: String::from_str("vita"),
        CryptKey: None,
        ExternalTextures: false,
        Context: PsbResxContext {
            MdfKeyLength: 131,
            FileName: file_name,
            MdfKey: mdf_key,
            PsbZlibFastCompress: false,
            PsbShellType: String::from_str("MDF"),
        },
        Resources: resources,
    }
}

} // verus!
