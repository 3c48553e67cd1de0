use psbfont::raster::{cell_width, rasterize_char, vertical_shift, Coverage, ScaledGlyph};
use psbfont::types::FontSizeConfig;

const ONE: i32 = 65536;
const HALF: i32 = 32768;

fn tier_32() -> FontSizeConfig {
    FontSizeConfig { maxHeight: 32 * ONE, maxWidth: 32 * ONE, minHeight: 24 * ONE, minWidth: 8 * ONE }
}

fn outline(min_x: i32, min_y: i32, max_x: i32, max_y: i32, alpha: Vec<u8>) -> Coverage {
    let cols = ((max_x - min_x) / ONE) as u32;
    Coverage { min_x, min_y, max_x, max_y, cols, alpha }
}

fn boxed(min_y: i32, max_y: i32) -> ScaledGlyph {
    let rows = ((max_y - min_y) / ONE) as usize;
    ScaledGlyph {
        h_advance: 4 * ONE,
        outline: Some(outline(0, min_y, 4 * ONE, max_y, vec![255; 4 * rows])),
    }
}

fn alpha_at(bytes: &Vec<u8>, width: u32, x: u32, y: u32) -> u8 {
    bytes[(4 * (y * width + x) + 3) as usize]
}

#[test]
fn cell_width_is_the_largest_of_advance_outline_and_minimum() {
    let t = tier_32();
    let g = ScaledGlyph { h_advance: 18 * ONE + HALF, outline: Some(outline(ONE, 0, 17 * ONE, ONE, vec![0; 16])) };
    assert_eq!(cell_width(&g, &t), 19);
    let g = ScaledGlyph { h_advance: 3 * ONE, outline: Some(outline(-ONE, 0, 11 * ONE, ONE, vec![0; 12])) };
    assert_eq!(cell_width(&g, &t), 12);
    let g = ScaledGlyph { h_advance: 3 * ONE, outline: None };
    assert_eq!(cell_width(&g, &t), 8);
    let g = ScaledGlyph { h_advance: 8 * ONE + 1, outline: None };
    assert_eq!(cell_width(&g, &t), 9);
}

#[test]
fn minimum_width_loses_its_fraction() {
    let t = FontSizeConfig { maxHeight: 32 * ONE, maxWidth: 32 * ONE, minHeight: 24 * ONE, minWidth: 12 * ONE + 45875 };
    let g = ScaledGlyph { h_advance: 3 * ONE, outline: None };
    assert_eq!(cell_width(&g, &t), 12);
}

#[test]
fn negative_measures_count_as_zero_width() {
    let t = FontSizeConfig { maxHeight: 32 * ONE, maxWidth: 32 * ONE, minHeight: 24 * ONE, minWidth: -4 * ONE };
    let g = ScaledGlyph { h_advance: -3 * ONE, outline: None };
    assert_eq!(cell_width(&g, &t), 0);
}

#[test]
fn a_glyph_that_fits_is_not_moved() {
    assert_eq!(vertical_shift(&boxed(-20 * ONE, 0), 0, &tier_32(), 26 * 65536), 0);
    assert_eq!(vertical_shift(&boxed(-26 * ONE, 6 * ONE), 0, &tier_32(), 26 * 65536), 0);
}

#[test]
fn a_glyph_above_the_cell_moves_down() {
    assert_eq!(vertical_shift(&boxed(-30 * ONE, 0), 0, &tier_32(), 26 * 65536), 4);
}

#[test]
fn a_glyph_below_the_cell_moves_up() {
    assert_eq!(vertical_shift(&boxed(-10 * ONE, 10 * ONE), 0, &tier_32(), 26 * 65536), -4);
}

#[test]
fn moving_up_never_clips_the_top() {
    assert_eq!(vertical_shift(&boxed(-26 * ONE, 10 * ONE), 0, &tier_32(), 26 * 65536), 0);
    assert_eq!(vertical_shift(&boxed(-24 * ONE, 14 * ONE), 0, &tier_32(), 26 * 65536), -2);
    assert_eq!(vertical_shift(&boxed(-30 * ONE, 14 * ONE), 0, &tier_32(), 26 * 65536), 4);
}

#[test]
fn the_move_is_rounded_to_whole_pixels() {
    let g = boxed(-30 * ONE, 0);
    assert_eq!(vertical_shift(&g, 0, &tier_32(), 26 * 65536 + 19661), 4);
    assert_eq!(vertical_shift(&g, 0, &tier_32(), 26 * 65536 + 32768), 4);
    assert_eq!(vertical_shift(&g, 0, &tier_32(), 26 * 65536 + 39322), 3);
    let low = boxed(-10 * ONE, 10 * ONE);
    assert_eq!(vertical_shift(&low, 0, &tier_32(), 26 * 65536 + 32768), -5);
    assert_eq!(vertical_shift(&low, 0, &tier_32(), 26 * 65536 + 32767), -4);
}

#[test]
fn the_font_offset_counts_toward_the_move() {
    assert_eq!(vertical_shift(&boxed(-20 * ONE, 0), -10 * ONE, &tier_32(), 26 * 65536), 4);
    assert_eq!(vertical_shift(&boxed(-20 * ONE, 0), 10 * ONE, &tier_32(), 26 * 65536), -4);
}

#[test]
fn a_glyph_without_outline_is_not_moved() {
    let g = ScaledGlyph { h_advance: 4 * ONE, outline: None };
    assert_eq!(vertical_shift(&g, 0, &tier_32(), -1000 * 65536), 0);
}

#[test]
fn samples_are_drawn_white_with_their_opacity() {
    let g = ScaledGlyph {
        h_advance: 4 * ONE,
        outline: Some(outline(ONE, -2 * ONE, 3 * ONE, 0, vec![0, 128, 255, 7])),
    };
    let cell = rasterize_char('x', &g, 0, &tier_32(), 5 * 65536);
    assert_eq!(cell.c, 'x');
    assert_eq!(cell.w, 8);
    assert_eq!(cell.h, 32);
    assert_eq!(cell.offset_correction_y, 0);
    let img = cell.img.unwrap();
    assert_eq!(img.width(), 8);
    assert_eq!(img.height(), 32);
    let mut expected = vec![0u8; 4 * 8 * 32];
    let mut put = |x: usize, y: usize, a: u8| {
        let k = 4 * (y * 8 + x);
        expected[k] = 255;
        expected[k + 1] = 255;
        expected[k + 2] = 255;
        expected[k + 3] = a;
    };
    put(2, 3, 128);
    put(1, 4, 255);
    put(2, 4, 7);
    assert_eq!(img.bytes(), &expected);
}

#[test]
fn a_moved_glyph_is_drawn_at_its_new_place() {
    let g = ScaledGlyph {
        h_advance: 2 * ONE,
        outline: Some(outline(0, -30 * ONE, ONE, -28 * ONE, vec![10, 20])),
    };
    let cell = rasterize_char('x', &g, 0, &tier_32(), 26 * 65536);
    assert_eq!(cell.offset_correction_y, 4);
    let img = cell.img.unwrap();
    assert_eq!(alpha_at(img.bytes(), 8, 0, 0), 10);
    assert_eq!(alpha_at(img.bytes(), 8, 0, 1), 20);
    assert_eq!(img.bytes().iter().filter(|b| **b != 0).count(), 8);
}

#[test]
fn every_drawn_pixel_lies_in_the_cell() {
    let rows = 40usize;
    let g = ScaledGlyph {
        h_advance: 3 * ONE,
        outline: Some(outline(-ONE, -30 * ONE, 2 * ONE, 10 * ONE, vec![9; 3 * rows])),
    };
    let cell = rasterize_char('x', &g, 0, &tier_32(), 26 * 65536);
    assert_eq!(cell.offset_correction_y, 4);
    assert_eq!(cell.w, 8);
    assert_eq!(cell.h, 32);
    let img = cell.img.unwrap();
    assert_eq!(img.bytes().len(), 4 * 8 * 32);
    for y in 0..32 {
        for x in 0..8 {
            let expected = if x < 2 { 9 } else { 0 };
            assert_eq!(alpha_at(img.bytes(), 8, x, y), expected);
        }
    }
}

#[test]
fn a_fractional_origin_falls_on_the_pixel_below_it() {
    let g = ScaledGlyph {
        h_advance: 4 * ONE,
        outline: Some(Coverage {
            min_x: ONE + HALF,
            min_y: 2 * ONE,
            max_x: 2 * ONE + HALF,
            max_y: 3 * ONE,
            cols: 1,
            alpha: vec![200],
        }),
    };
    let cell = rasterize_char('x', &g, HALF, &tier_32(), 65536 / 4);
    let img = cell.img.unwrap();
    assert_eq!(alpha_at(img.bytes(), 8, 1, 2), 200);
    assert_eq!(img.bytes().iter().filter(|b| **b != 0).count(), 4);
}

#[test]
fn a_character_without_outline_gives_a_blank_cell() {
    let g = ScaledGlyph { h_advance: 5 * ONE, outline: None };
    let cell = rasterize_char(' ', &g, 0, &tier_32(), 26 * 65536);
    assert_eq!(cell.c, ' ');
    assert_eq!(cell.w, 8);
    assert_eq!(cell.h, 32);
    assert_eq!(cell.advance, 8 * ONE);
    assert_eq!(cell.offset_correction_y, 0);
    let img = cell.img.unwrap();
    assert_eq!(img.width(), 8);
    assert_eq!(img.height(), 32);
    assert!(img.bytes().iter().all(|b| *b == 0));
    assert!(!img.has_visible_pixel());
}

#[test]
fn the_advance_is_at_least_the_minimum_width() {
    let g = ScaledGlyph { h_advance: 18 * ONE + HALF, outline: None };
    assert_eq!(rasterize_char('w', &g, 0, &tier_32(), 0).advance, 18 * ONE + HALF);
    let g = ScaledGlyph { h_advance: 2 * ONE, outline: None };
    assert_eq!(rasterize_char('i', &g, 0, &tier_32(), 0).advance, 8 * ONE);
}

#[test]
fn samples_beyond_the_list_are_transparent() {
    let g = ScaledGlyph {
        h_advance: 4 * ONE,
        outline: Some(Coverage { min_x: 0, min_y: 0, max_x: 2 * ONE, max_y: 2 * ONE, cols: 2, alpha: vec![1, 2, 3] }),
    };
    let cell = rasterize_char('x', &g, 0, &tier_32(), 0);
    let img = cell.img.unwrap();
    assert_eq!(alpha_at(img.bytes(), 8, 0, 0), 1);
    assert_eq!(alpha_at(img.bytes(), 8, 1, 0), 2);
    assert_eq!(alpha_at(img.bytes(), 8, 0, 1), 3);
    assert_eq!(alpha_at(img.bytes(), 8, 1, 1), 0);
}

#[test]
fn an_outline_without_columns_draws_nothing() {
    let g = ScaledGlyph {
        h_advance: 4 * ONE,
        outline: Some(Coverage { min_x: 0, min_y: 0, max_x: 0, max_y: ONE, cols: 0, alpha: vec![255, 255] }),
    };
    let cell = rasterize_char('x', &g, 0, &tier_32(), 0);
    assert!(cell.img.unwrap().bytes().iter().all(|b| *b == 0));
}
