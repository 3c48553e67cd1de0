use psbfont::canvas::{Canvas, Rgba8};
use psbfont::packer::{next_power_of_two, pack, Placement};
use psbfont::types::{default_atlas_size, default_scale, CharData};

fn solid(c: char, w: u32, h: u32, alpha: u8) -> CharData {
    let mut img = Canvas::new(w, h).unwrap();
    for y in 0..h {
        for x in 0..w {
            img.set_pixel(x, y, Rgba8 { r: 255, g: 255, b: 255, a: alpha });
        }
    }
    CharData { c, img: Some(img), w, h, advance: (w as i32) * 65536, offset_correction_y: 0 }
}

fn bufferless(c: char, w: u32, h: u32) -> CharData {
    CharData { c, img: None, w, h, advance: (w as i32) * 65536, offset_correction_y: 0 }
}

fn is_power_of_two_of_at_least_64(v: u32) -> bool {
    v >= 64 && v.count_ones() == 1
}

fn assert_contained(cell: &CharData, place: &Placement, pages: &Vec<Canvas>) {
    let page = &pages[place.page as usize];
    assert!(place.x + cell.w <= page.width());
    assert!(place.y + cell.h <= page.height());
}

#[test]
fn next_power_of_two_starts_at_64() {
    assert_eq!(next_power_of_two(0), 64);
    assert_eq!(next_power_of_two(1), 64);
    assert_eq!(next_power_of_two(63), 64);
    assert_eq!(next_power_of_two(64), 64);
}

#[test]
fn next_power_of_two_is_the_smallest_that_reaches_the_value() {
    assert_eq!(next_power_of_two(65), 128);
    assert_eq!(next_power_of_two(128), 128);
    assert_eq!(next_power_of_two(129), 256);
    assert_eq!(next_power_of_two(1000), 1024);
    assert_eq!(next_power_of_two(2048), 2048);
    assert_eq!(next_power_of_two(0x4000_0001), 0x8000_0000);
    assert_eq!(next_power_of_two(0x8000_0000), 0x8000_0000);
}

#[test]
fn defaults_are_2048_pixels_and_scale_one() {
    assert_eq!(default_atlas_size(), 2048);
    assert_eq!(default_scale(), 65536);
}

#[test]
fn empty_list_gives_one_blank_page_of_64() {
    let (pages, places) = pack(&Vec::new(), 2048);
    assert_eq!(places.len(), 0);
    assert_eq!(pages.len(), 1);
    assert_eq!(pages[0].width(), 64);
    assert_eq!(pages[0].height(), 64);
    assert!(!pages[0].has_visible_pixel());
}

#[test]
fn cells_fill_a_row_from_left_to_right() {
    let cells = vec![solid('a', 10, 20, 255), solid('b', 7, 20, 255), solid('c', 30, 20, 255)];
    let (pages, places) = pack(&cells, 2048);
    assert_eq!(
        places,
        vec![
            Placement { page: 0, x: 0, y: 0 },
            Placement { page: 0, x: 10, y: 0 },
            Placement { page: 0, x: 17, y: 0 },
        ]
    );
    assert_eq!(pages.len(), 1);
    assert_eq!(pages[0].width(), 64);
    assert_eq!(pages[0].height(), 64);
}

#[test]
fn a_cell_that_would_cross_the_edge_starts_a_new_row() {
    let cells = vec![solid('a', 40, 10, 255), solid('b', 40, 10, 255), solid('c', 40, 20, 255)];
    let (pages, places) = pack(&cells, 100);
    assert_eq!(
        places,
        vec![
            Placement { page: 0, x: 0, y: 0 },
            Placement { page: 0, x: 40, y: 0 },
            Placement { page: 0, x: 0, y: 10 },
        ]
    );
    assert_eq!(pages.len(), 1);
    assert_eq!(pages[0].width(), 100);
    assert_eq!(pages[0].height(), 64);
}

#[test]
fn a_row_is_as_high_as_its_tallest_cell() {
    let cells = vec![
        solid('a', 60, 10, 255),
        solid('b', 60, 30, 255),
        solid('c', 60, 5, 255),
        solid('d', 100, 5, 255),
    ];
    let (_, places) = pack(&cells, 128);
    assert_eq!(
        places,
        vec![
            Placement { page: 0, x: 0, y: 0 },
            Placement { page: 0, x: 60, y: 0 },
            Placement { page: 0, x: 0, y: 30 },
            Placement { page: 0, x: 0, y: 35 },
        ]
    );
}

#[test]
fn a_cell_that_exactly_reaches_the_edge_stays_in_the_row() {
    let cells = vec![solid('a', 64, 64, 255), solid('b', 64, 64, 255)];
    let (pages, places) = pack(&cells, 128);
    assert_eq!(
        places,
        vec![Placement { page: 0, x: 0, y: 0 }, Placement { page: 0, x: 64, y: 0 }]
    );
    assert_eq!(pages.len(), 1);
    assert_eq!(pages[0].width(), 128);
    assert_eq!(pages[0].height(), 64);
}

#[test]
fn capacity_below_the_footprint_gives_several_pages() {
    let cells = vec![solid('a', 40, 40, 255), solid('b', 40, 40, 255), solid('c', 40, 40, 255)];
    let (pages, places) = pack(&cells, 64);
    assert!(pages.len() >= 2);
    assert_eq!(pages.len(), 3);
    assert_eq!(
        places,
        vec![
            Placement { page: 0, x: 0, y: 0 },
            Placement { page: 1, x: 0, y: 0 },
            Placement { page: 2, x: 0, y: 0 },
        ]
    );
    for page in pages.iter() {
        assert!(is_power_of_two_of_at_least_64(page.width()));
        assert!(is_power_of_two_of_at_least_64(page.height()));
    }
    for i in 0..cells.len() {
        assert_contained(&cells[i], &places[i], &pages);
    }
}

#[test]
fn pages_are_powers_of_two_and_hold_their_cells() {
    let mut cells = Vec::new();
    for i in 0..50u32 {
        cells.push(solid(char::from_u32(65 + i).unwrap(), 20 + (i * 7) % 30, 48, 200));
    }
    let (pages, places) = pack(&cells, 256);
    assert!(pages.len() >= 2);
    for page in pages.iter() {
        assert!(is_power_of_two_of_at_least_64(page.width()));
        assert!(is_power_of_two_of_at_least_64(page.height()));
        assert!(page.width() <= 256);
        assert!(page.height() <= 256);
    }
    for i in 0..cells.len() {
        assert!((places[i].page as usize) < pages.len());
        assert_contained(&cells[i], &places[i], &pages);
    }
}

#[test]
fn a_cell_without_a_buffer_is_recorded_at_one_one_and_still_takes_room() {
    let cells = vec![bufferless(' ', 8, 32), solid('A', 20, 32, 255)];
    let (pages, places) = pack(&cells, 2048);
    assert_eq!(
        places,
        vec![Placement { page: 0, x: 1, y: 1 }, Placement { page: 0, x: 8, y: 0 }]
    );
    assert_eq!(pages.len(), 1);
    assert_eq!(pages[0].width(), 64);
    assert_eq!(pages[0].height(), 64);
}

#[test]
fn a_fully_transparent_cell_is_recorded_at_one_one() {
    let cells = vec![solid('x', 5, 5, 255), solid(' ', 8, 5, 0), solid('y', 5, 5, 1)];
    let (_, places) = pack(&cells, 2048);
    assert_eq!(
        places,
        vec![
            Placement { page: 0, x: 0, y: 0 },
            Placement { page: 0, x: 1, y: 1 },
            Placement { page: 0, x: 13, y: 0 },
        ]
    );
}

#[test]
fn pages_hold_the_pixels_of_their_cells() {
    let cells = vec![solid('a', 2, 2, 255), bufferless(' ', 3, 2), solid('b', 1, 1, 255)];
    let (pages, places) = pack(&cells, 64);
    assert_eq!(places[2], Placement { page: 0, x: 5, y: 0 });
    assert_eq!(pages[0].width(), 64);
    let bytes = pages[0].bytes();
    let alpha = |x: usize, y: usize| bytes[4 * (y * 64 + x) + 3];
    assert_eq!(alpha(0, 0), 255);
    assert_eq!(alpha(1, 0), 255);
    assert_eq!(alpha(0, 1), 255);
    assert_eq!(alpha(1, 1), 255);
    assert_eq!(alpha(2, 0), 0);
    assert_eq!(alpha(4, 1), 0);
    assert_eq!(alpha(5, 0), 255);
    assert_eq!(alpha(5, 1), 0);
    assert_eq!(alpha(6, 0), 0);
    assert_eq!(bytes.iter().filter(|b| **b != 0).count(), 20);
}

#[test]
fn a_finished_page_keeps_only_its_own_cells() {
    let cells = vec![solid('a', 64, 64, 255), solid('b', 1, 1, 255)];
    let (pages, places) = pack(&cells, 64);
    assert_eq!(places, vec![Placement { page: 0, x: 0, y: 0 }, Placement { page: 1, x: 0, y: 0 }]);
    assert_eq!(pages.len(), 2);
    assert!(pages[0].bytes().iter().all(|b| *b == 255));
    assert_eq!(pages[1].bytes().iter().filter(|b| **b != 0).count(), 4);
}

#[test]
fn a_page_is_never_larger_than_its_capacity() {
    let cells = vec![solid('a', 70, 10, 255)];
    let (pages, _) = pack(&cells, 100);
    assert_eq!(pages[0].width(), 100);
    assert_eq!(pages[0].height(), 64);
    let (small, _) = pack(&Vec::new(), 10);
    assert_eq!(small[0].width(), 10);
    assert_eq!(small[0].height(), 10);
}

#[test]
fn a_cell_taller_than_the_page_opens_a_page_of_its_own() {
    let cells = vec![solid('a', 4, 4, 255), solid('b', 4, 80, 255)];
    let (pages, places) = pack(&cells, 64);
    assert_eq!(places, vec![Placement { page: 0, x: 0, y: 0 }, Placement { page: 1, x: 0, y: 0 }]);
    assert_eq!(pages.len(), 2);
    assert_eq!(pages[1].height(), 64);
}

#[test]
fn packing_twice_gives_the_same_pages() {
    let cells = vec![solid('a', 9, 9, 77), solid('b', 60, 9, 200), solid('c', 9, 60, 3)];
    let (pages1, places1) = pack(&cells, 64);
    let (pages2, places2) = pack(&cells, 64);
    assert_eq!(places1, places2);
    assert_eq!(pages1.len(), pages2.len());
    for i in 0..pages1.len() {
        assert_eq!(pages1[i].width(), pages2[i].width());
        assert_eq!(pages1[i].height(), pages2[i].height());
        assert_eq!(pages1[i].bytes(), pages2[i].bytes());
    }
}
