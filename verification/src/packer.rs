//! Shelf packing of glyph cells into atlas pages.
//!
//! Cells are placed left to right in rows, rows top to bottom, pages one after
//! another, strictly in input order. A finished page is cut down to a power of
//! two in each direction, never below 64 and never beyond the page itself.

use crate::canvas::{Canvas, CanvasView};
use crate::types::CharData;
use vstd::prelude::*;

verus! {

/// `n` is 1, 2, 4, 8, ...
pub open spec fn is_power_of_two(n: int) -> bool
    decreases n,
{
    n == 1 || (n > 1 && n % 2 == 0 && is_power_of_two(n / 2))
}

/// The first of `p`, `2p`, `4p`, ... that is not below `v`.
pub open spec fn doubled_to(p: int, v: int) -> int
    decreases (if p < v { v - p } else { 0 }),
{
    if 0 < p < v {
        doubled_to(2 * p, v)
    } else {
        p
    }
}

/// The smallest power of two that is at least `v` and at least 64.
pub open spec fn next_pow2(v: int) -> int {
    doubled_to(64, v)
}

/// A side of a finished page with `used` pixels in use, on a page of side
/// `cap`: the next power of two, but no more than the page has.
pub open spec fn trimmed(used: int, cap: int) -> int {
    if next_pow2(used) <= cap {
        next_pow2(used)
    } else {
        cap
    }
}

/// Doubling a power of two gives the least of its multiples by a power of two
/// that reaches `v`.
pub proof fn lemma_doubled_to(p: int, v: int)
    requires
        is_power_of_two(p),
    ensures
        is_power_of_two(doubled_to(p, v)),
        doubled_to(p, v) >= p,
        doubled_to(p, v) >= v,
        doubled_to(p, v) == p || doubled_to(p, v) < 2 * v,
    decreases (if p < v { v - p } else { 0 }),
{
    if 0 < p < v {
        assert(is_power_of_two(2 * p)) by {
            assert((2 * p) / 2 == p);
        }
        lemma_doubled_to(2 * p, v);
    }
}

/// `next_pow2(v)` is a power of two, at least 64 and at least `v`, and the
/// smallest such: half of it is below `v` unless it is 64.
pub proof fn lemma_next_pow2(v: int)
    ensures
        is_power_of_two(next_pow2(v)),
        next_pow2(v) >= 64,
        next_pow2(v) >= v,
        next_pow2(v) == 64 || next_pow2(v) < 2 * v,
{
    reveal_with_fuel(is_power_of_two, 8);
    assert(is_power_of_two(64));
    lemma_doubled_to(64, v);
}

/// Between a power of two and the next one there is none.
pub proof fn lemma_power_of_two_gap(p: int, q: int)
    requires
        is_power_of_two(p),
        is_power_of_two(q),
        p < q,
    ensures
        2 * p <= q,
    decreases q,
{
    if p > q / 2 {
        lemma_power_of_two_gap(p / 2, q / 2);
    }
}

/// Every page side is a power of two of at least 64 where the page itself
/// has such a side.
pub proof fn lemma_trimmed_power_of_two(used: int, cap: int)
    requires
        is_power_of_two(cap),
        cap >= 64,
    ensures
        is_power_of_two(trimmed(used, cap)),
        trimmed(used, cap) >= 64,
        trimmed(used, cap) <= cap,
{
    lemma_next_pow2(used);
}

/// The smallest power of two that is at least `v`, starting at 64.
pub fn next_power_of_two(v: u32) -> (p: u32)
    requires
        v <= 0x8000_0000,
    ensures
        p == next_pow2(v as int),
        is_power_of_two(p as int),
        p >= 64,
        p >= v,
        p == 64 || p < 2 * v,
{
    let mut p: u32 = 64;
    proof {
        reveal_with_fuel(is_power_of_two, 8);
        assert(is_power_of_two(64));
        lemma_next_pow2(v as int);
    }
    while p < v
        invariant
            v <= 0x8000_0000,
            is_power_of_two(p as int),
            doubled_to(p as int, v as int) == next_pow2(v as int),
        decreases (if p < v { v - p } else { 0 }),
    {
        proof {
            reveal_with_fuel(is_power_of_two, 32);
            assert(is_power_of_two(0x8000_0000));
            if p < 0x8000_0000 {
                lemma_power_of_two_gap(p as int, 0x8000_0000);
            }
            assert((2 * p) / 2 == p);
        }
        p *= 2;
    }
    p
}

/// Where the packer stands: the page it fills, the cursor, the height of the
/// current row and how much of the page is in use.
pub struct ShelfState {
    pub page: int,
    pub x: int,
    pub y: int,
    pub row: int,
    pub used_w: int,
    pub used_h: int,
}

impl ShelfState {
    /// The packer at the upper left corner of an empty page.
    pub open spec fn fresh(page: int) -> ShelfState {
        ShelfState { page, x: 0, y: 0, row: 0, used_w: 0, used_h: 0 }
    }

    /// The state with the cursor in the row that takes a cell of width `w`:
    /// a new row if the cell would cross the right edge.
    pub open spec fn in_row(self, w: int, cap: int) -> ShelfState {
        if self.x + w > cap {
            ShelfState { x: 0, y: self.y + self.row, row: 0, ..self }
        } else {
            self
        }
    }

    /// Whether a `w * h` cell no longer fits the page below the cursor.
    pub open spec fn breaks_page(self, w: int, h: int, cap: int) -> bool {
        self.in_row(w, cap).y + h > cap
    }

    /// The state with the cursor where a `w * h` cell goes.
    pub open spec fn at_cell(self, w: int, h: int, cap: int) -> ShelfState {
        if self.breaks_page(w, h, cap) {
            ShelfState::fresh(self.page + 1)
        } else {
            self.in_row(w, cap)
        }
    }

    /// The state after a `w * h` cell was placed.
    pub open spec fn after_cell(self, w: int, h: int, cap: int) -> ShelfState {
        let at = self.at_cell(w, h, cap);
        ShelfState {
            page: at.page,
            x: at.x + w,
            y: at.y,
            row: if h > at.row { h } else { at.row },
            used_w: if at.x + w > at.used_w { at.x + w } else { at.used_w },
            used_h: if at.y + h > at.used_h { at.y + h } else { at.used_h },
        }
    }
}

/// Whether a cell has anything to show: a buffer with a pixel that is not
/// fully transparent.
pub open spec fn cell_visible(cell: CharData) -> bool {
    cell.img matches Some(img) && img@.visible()
}

/// Two cells that agree in all that is read of a cell: character, size,
/// advance, vertical move, and the buffer's size and bytes.
pub open spec fn same_cell(a: CharData, b: CharData) -> bool {
    &&& a.c == b.c
    &&& a.w == b.w
    &&& a.h == b.h
    &&& a.advance == b.advance
    &&& a.offset_correction_y == b.offset_correction_y
    &&& a.img is Some <==> b.img is Some
    &&& a.img is Some ==> a.img->0@ == b.img->0@
}

/// Two lists of cells that agree cell by cell.
pub open spec fn same_cells(a: Seq<CharData>, b: Seq<CharData>) -> bool {
    &&& a.len() == b.len()
    &&& forall|i: int| 0 <= i < a.len() ==> same_cell(#[trigger] a[i], b[i])
}

/// The packer's state before cell `n`, having placed the cells before it.
pub open spec fn shelf_before(cells: Seq<CharData>, cap: int, n: int) -> ShelfState
    decreases n,
{
    if n <= 0 {
        ShelfState::fresh(0)
    } else {
        shelf_before(cells, cap, n - 1).after_cell(cells[n - 1].w as int, cells[n - 1].h as int, cap)
    }
}

/// The packer's state with the cursor where cell `i` goes.
pub open spec fn shelf_at(cells: Seq<CharData>, cap: int, i: int) -> ShelfState {
    shelf_before(cells, cap, i).at_cell(cells[i].w as int, cells[i].h as int, cap)
}

/// Page, column and row recorded for a cell.
#[derive(Clone, Copy, Debug, PartialEq, Eq, Structural)]
pub struct Placement {
    pub page: u32,
    pub x: u32,
    pub y: u32,
}

/// What is recorded for cell `i`: its page, and the cursor where it was
/// drawn; for a cell with nothing to show the fixed anchor `(1, 1)`.
pub open spec fn placement_of(cells: Seq<CharData>, cap: int, i: int) -> Placement {
    let at = shelf_at(cells, cap, i);
    if cell_visible(cells[i]) {
        Placement { page: at.page as u32, x: at.x as u32, y: at.y as u32 }
    } else {
        Placement { page: at.page as u32, x: 1, y: 1 }
    }
}

/// The working page before cell `n`: every cell placed on it so far that has
/// a buffer was blended in at its cursor.
pub open spec fn page_fill(cells: Seq<CharData>, cap: int, n: int) -> CanvasView
    decreases n,
{
    if n <= 0 {
        CanvasView::blank(cap, cap)
    } else {
        let before = shelf_before(cells, cap, n - 1);
        let cell = cells[n - 1];
        let base = if before.breaks_page(cell.w as int, cell.h as int, cap) {
            CanvasView::blank(cap, cap)
        } else {
            page_fill(cells, cap, n - 1)
        };
        let at = shelf_at(cells, cap, n - 1);
        match cell.img {
            Some(img) => base.overlaid(img@, at.x as i64, at.y as i64),
            None => base,
        }
    }
}

/// A working page cut down to what is in use.
pub open spec fn trim(page: CanvasView, state: ShelfState, cap: int) -> CanvasView {
    page.cropped(0, 0, trimmed(state.used_w, cap), trimmed(state.used_h, cap))
}

/// The pages that were full before cell `n`, in order.
pub open spec fn pages_done(cells: Seq<CharData>, cap: int, n: int) -> Seq<CanvasView>
    decreases n,
{
    if n <= 0 {
        Seq::empty()
    } else {
        let before = shelf_before(cells, cap, n - 1);
        let done = pages_done(cells, cap, n - 1);
        if before.breaks_page(cells[n - 1].w as int, cells[n - 1].h as int, cap) {
            done.push(trim(page_fill(cells, cap, n - 1), before, cap))
        } else {
            done
        }
    }
}

/// All pages of a packing: the full ones and the last, partly filled one.
pub open spec fn pages_of(cells: Seq<CharData>, cap: int) -> Seq<CanvasView> {
    let n = cells.len() as int;
    pages_done(cells, cap, n).push(trim(page_fill(cells, cap, n), shelf_before(cells, cap, n), cap))
}

/// A cell that lies inside the page it was recorded for.
pub open spec fn contained(cell: CharData, place: Placement, pages: Seq<CanvasView>) -> bool {
    &&& place.page < pages.len()
    &&& place.x + cell.w <= pages[place.page as int].width
    &&& place.y + cell.h <= pages[place.page as int].height
}

/// Whether a square page of side `cap` fits in memory.
pub open spec fn page_fits(cap: int) -> bool {
    crate::canvas::buffer_fits(cap, cap)
}

/// A page that fits in memory has a side below `2^31`.
proof fn lemma_page_side(cap: u32)
    requires
        page_fits(cap as int),
    ensures
        cap < 0x8000_0000,
{
    if cap >= 0x8000_0000 {
        assert(cap * cap >= 0x8000_0000 * 0x8000_0000) by (nonlinear_arith)
            requires
                cap >= 0x8000_0000,
        ;
    }
}

/// A working page cut down to the next powers of two of what is in use.
fn trim_page(page: &Canvas, used_w: u32, used_h: u32, cap: u32) -> (out: Canvas)
    requires
        page@.width == cap,
        page@.height == cap,
        cap < 0x8000_0000,
    ensures
        out@ == page@.cropped(0, 0, trimmed(used_w as int, cap as int), trimmed(used_h as int, cap as int)),
{
    let w: u32 = trim_side(used_w, cap);
    let h: u32 = trim_side(used_h, cap);
    page.crop(w, h)
}

/// One side of a trimmed page.
fn trim_side(used: u32, cap: u32) -> (side: u32)
    requires
        cap < 0x8000_0000,
    ensures
        side == trimmed(used as int, cap as int),
{
    if used > cap {
        proof {
            lemma_next_pow2(used as int);
        }
        cap
    } else {
        let p: u32 = next_power_of_two(used);
        if p <= cap {
            p
        } else {
            cap
        }
    }
}

/// Packs the cells, in order, into pages of side `atlas_size`.
///
/// Returns the trimmed pages and, for each cell, where it was recorded. Both
/// are exactly what the shelf rule gives (`pages_of`, `placement_of`). Every
/// page has sides that are powers of two of at least 64 where `atlas_size` is
/// one; every cell that has something to show and is no larger than a page
/// lies inside the page recorded for it.
pub fn pack(char_list: &Vec<CharData>, atlas_size: u32) -> (r: (Vec<Canvas>, Vec<Placement>))
    requires
        page_fits(atlas_size as int),
        char_list.len() <= u32::MAX,
    ensures
        r.0@.len() == pages_of(char_list@, atlas_size as int).len(),
        forall|p: int|
            0 <= p < r.0@.len() ==> (#[trigger] r.0@[p])@ == pages_of(char_list@, atlas_size as int)[p],
        r.1@.len() == char_list@.len(),
        forall|i: int|
            0 <= i < char_list@.len() ==> #[trigger] r.1@[i] == placement_of(
                char_list@,
                atlas_size as int,
                i,
            ),
        is_power_of_two(atlas_size as int) && atlas_size >= 64 ==> forall|p: int|
            0 <= p < r.0@.len() ==> {
                &&& is_power_of_two((#[trigger] r.0@[p])@.width)
                &&& is_power_of_two(r.0@[p]@.height)
                &&& r.0@[p]@.width >= 64
                &&& r.0@[p]@.height >= 64
            },
        forall|i: int|
            0 <= i < char_list@.len() && cell_visible(char_list@[i]) && char_list@[i].w <= atlas_size
                && char_list@[i].h <= atlas_size ==> contained(
                char_list@[i],
                #[trigger] r.1@[i],
                pages_of(char_list@, atlas_size as int),
            ),
{
    let cap: u32 = atlas_size;
    let ghost cells = char_list@;
    let ghost capi = cap as int;
    proof {
        lemma_page_side(cap);
    }
    let mut atlases: Vec<Canvas> = Vec::new();
    let mut placements: Vec<Placement> = Vec::new();
    let mut current: Canvas = Canvas::new(cap, cap).unwrap();
    let mut page: u32 = 0;
    let mut x: u32 = 0;
    let mut y: u32 = 0;
    let mut row: u32 = 0;
    let mut used_w: u32 = 0;
    let mut used_h: u32 = 0;
    let n: usize = char_list.len();
    let mut i: usize = 0;
    while i < n
        invariant
            n == char_list.len(),
            n <= u32::MAX,
            cells == char_list@,
            capi == cap as int,
            cap == atlas_size,
            cap < 0x8000_0000,
            page_fits(capi),
            i <= n,
            page <= i,
            shelf_before(cells, capi, i as int) == (ShelfState {
                page: page as int,
                x: x as int,
                y: y as int,
                row: row as int,
                used_w: used_w as int,
                used_h: used_h as int,
            }),
            x <= used_w,
            y + row <= used_h,
            current@ == page_fill(cells, capi, i as int),
            current@.width == cap,
            current@.height == cap,
            atlases@.len() == page,
            atlases@.len() == pages_done(cells, capi, i as int).len(),
            forall|p: int|
                0 <= p < atlases@.len() ==> (#[trigger] atlases@[p])@ == pages_done(
                    cells,
                    capi,
                    i as int,
                )[p],
            placements@.len() == i,
            forall|j: int| 0 <= j < i ==> #[trigger] placements@[j] == placement_of(cells, capi, j),
            forall|j: int|
                0 <= j < i && cell_visible(cells[j]) && cells[j].w <= cap && cells[j].h <= cap ==> {
                    let place = #[trigger] placements@[j];
                    &&& place.page <= page
                    &&& place.x + cells[j].w <= cap
                    &&& place.y + cells[j].h <= cap
                    &&& place.page == page ==> place.x + cells[j].w <= used_w && place.y
                        + cells[j].h <= used_h
                    &&& place.page < page ==> contained(cells[j], place, pages_done(cells, capi, i as int))
                },
        decreases n - i,
    {
        let item: &CharData = &char_list[i];
        let ghost before = shelf_before(cells, capi, i as int);
        let ghost done = pages_done(cells, capi, i as int);
        assert(cells[i as int] == *item);
        if x as u64 + item.w as u64 > cap as u64 {
            x = 0;
            y = y + row;
            row = 0;
        }
        if y as u64 + item.h as u64 > cap as u64 {
            let full: Canvas = trim_page(&current, used_w, used_h, cap);
            proof {
                lemma_next_pow2(used_w as int);
                lemma_next_pow2(used_h as int);
            }
            atlases.push(full);
            current = Canvas::new(cap, cap).unwrap();
            page = page + 1;
            x = 0;
            y = 0;
            used_w = 0;
            used_h = 0;
            row = 0;
        }
        assert(shelf_at(cells, capi, i as int) == (ShelfState {
            page: page as int,
            x: x as int,
            y: y as int,
            row: row as int,
            used_w: used_w as int,
            used_h: used_h as int,
        }));
        let visible: bool = match &item.img {
            Some(glyph) => {
                current.overlay(glyph, x as i64, y as i64);
                glyph.has_visible_pixel()
            },
            None => false,
        };
        let place: Placement = if visible {
            Placement { page, x, y }
        } else {
            Placement { page, x: 1, y: 1 }
        };
        if x as u64 + item.w as u64 > used_w as u64 {
            used_w = x + item.w;
        }
        if y as u64 + item.h as u64 > used_h as u64 {
            used_h = y + item.h;
        }
        if item.h > row {
            row = item.h;
        }
        x = x + item.w;
        placements.push(place);
        proof {
            let after = shelf_before(cells, capi, i as int + 1);
            assert(after == before.after_cell(item.w as int, item.h as int, capi));
            let done_after = pages_done(cells, capi, i as int + 1);
            assert forall|j: int|
                0 <= j < i + 1 && cell_visible(cells[j]) && cells[j].w <= cap && cells[j].h
                    <= cap implies {
                let place = #[trigger] placements@[j];
                &&& place.page <= page
                &&& place.x + cells[j].w <= cap
                &&& place.y + cells[j].h <= cap
                &&& place.page == page ==> place.x + cells[j].w <= used_w && place.y + cells[j].h
                    <= used_h
                &&& place.page < page ==> contained(cells[j], place, done_after)
            } by {
                if j < i {
                    let pl = placements@[j];
                    if pl.page < page && pl.page as int == before.page {
                        assert(done_after[pl.page as int] == trim(
                            page_fill(cells, capi, i as int),
                            before,
                            capi,
                        ));
                        lemma_next_pow2(before.used_w);
                        lemma_next_pow2(before.used_h);
                    } else if pl.page < page {
                        assert(done_after[pl.page as int] == done[pl.page as int]);
                    }
                }
            }
        }
        i += 1;
    }
    let last: Canvas = trim_page(&current, used_w, used_h, cap);
    proof {
        lemma_next_pow2(used_w as int);
        lemma_next_pow2(used_h as int);
    }
    atlases.push(last);
    proof {
        let pages = pages_of(cells, capi);
        assert(atlases@.len() == pages.len());
        assert forall|p: int| 0 <= p < atlases@.len() implies (#[trigger] atlases@[p])@ == pages[p] by {}
        if is_power_of_two(capi) && cap >= 64 {
            assert forall|p: int| 0 <= p < atlases@.len() implies {
                &&& is_power_of_two((#[trigger] atlases@[p])@.width)
                &&& is_power_of_two(atlases@[p]@.height)
                &&& atlases@[p]@.width >= 64
                &&& atlases@[p]@.height >= 64
            } by {
                lemma_pages_power_of_two(cells, capi, p);
            }
        }
    }
    (atlases, placements)
}

/// Packing is a function of what is read of the cells: lists that agree
/// cell by cell lead the packer through the same states and leave the same
/// working page and the same full pages.
pub proof fn lemma_packing_determined(a: Seq<CharData>, b: Seq<CharData>, cap: int, n: int)
    requires
        same_cells(a, b),
        0 <= n <= a.len(),
    ensures
        shelf_before(a, cap, n) == shelf_before(b, cap, n),
        page_fill(a, cap, n) == page_fill(b, cap, n),
        pages_done(a, cap, n) == pages_done(b, cap, n),
    decreases n,
{
    if n > 0 {
        lemma_packing_determined(a, b, cap, n - 1);
        assert(same_cell(a[n - 1], b[n - 1]));
    }
}

/// Lists of cells that agree cell by cell are packed into the same pages,
/// with every cell recorded at the same place.
pub proof fn lemma_pages_determined(a: Seq<CharData>, b: Seq<CharData>, cap: int)
    requires
        same_cells(a, b),
    ensures
        pages_of(a, cap) == pages_of(b, cap),
        forall|i: int| 0 <= i < a.len() ==> #[trigger] placement_of(a, cap, i) == placement_of(b, cap, i),
{
    lemma_packing_determined(a, b, cap, a.len() as int);
    assert forall|i: int| 0 <= i < a.len() implies #[trigger] placement_of(a, cap, i) == placement_of(
        b,
        cap,
        i,
    ) by {
        lemma_packing_determined(a, b, cap, i);
        assert(same_cell(a[i], b[i]));
    }
}

/// The sides of every page are powers of two of at least 64 where the side of
/// a full page is one.
pub proof fn lemma_pages_power_of_two(cells: Seq<CharData>, cap: int, p: int)
    requires
        is_power_of_two(cap),
        cap >= 64,
        0 <= p < pages_of(cells, cap).len(),
    ensures
        is_power_of_two(pages_of(cells, cap)[p].width),
        is_power_of_two(pages_of(cells, cap)[p].height),
        pages_of(cells, cap)[p].width >= 64,
        pages_of(cells, cap)[p].height >= 64,
{
    let n = cells.len() as int;
    let last = shelf_before(cells, cap, n);
    lemma_trimmed_power_of_two(last.used_w, cap);
    lemma_trimmed_power_of_two(last.used_h, cap);
    if p < pages_done(cells, cap, n).len() {
        lemma_done_power_of_two(cells, cap, n, p);
    }
}

/// The same for the pages that were full before cell `n`.
proof fn lemma_done_power_of_two(cells: Seq<CharData>, cap: int, n: int, p: int)
    requires
        is_power_of_two(cap),
        cap >= 64,
        0 <= p < pages_done(cells, cap, n).len(),
    ensures
        is_power_of_two(pages_done(cells, cap, n)[p].width),
        is_power_of_two(pages_done(cells, cap, n)[p].height),
        pages_done(cells, cap, n)[p].width >= 64,
        pages_done(cells, cap, n)[p].height >= 64,
    decreases n,
{
    if n > 0 {
        let before = shelf_before(cells, cap, n - 1);
        let done = pages_done(cells, cap, n - 1);
        if p < done.len() {
            lemma_done_power_of_two(cells, cap, n - 1, p);
        } else {
            lemma_trimmed_power_of_two(before.used_w, cap);
            lemma_trimmed_power_of_two(before.used_h, cap);
        }
    }
}

} // verus!
