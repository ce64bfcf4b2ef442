use knoten_core::canvas::{
    edge_crossing, fill_poly, get_glyph, iso_render, sort_values, ui_clear, ui_draw_rect, ui_draw_text,
    Canvas,
};
use knoten_core::store::compare_names;

#[test]
fn clear_paints_every_pixel() {
    let mut c = Canvas::new(3, 2, 7);
    ui_clear(&mut c, 0x123456);
    assert_eq!(c.buffer, vec![0x123456u32; 6]);
}

#[test]
fn rectangles_are_clipped() {
    let mut c = Canvas::new(4, 3, 0);
    ui_draw_rect(&mut c, 2, 1, 5, 5, 9);
    assert_eq!(c.buffer, vec![0, 0, 0, 0, 0, 0, 9, 9, 0, 0, 9, 9]);
    let mut d = Canvas::new(4, 3, 0);
    ui_draw_rect(&mut d, -1, -1, 2, 2, 5);
    assert_eq!(d.buffer, vec![5, 0, 0, 0, 0, 0, 0, 0, 0, 0, 0, 0]);
}

#[test]
fn glyphs_follow_the_font() {
    assert_eq!(get_glyph('1'), [0b00100, 0b01100, 0b00100, 0b00100, 0b00100, 0b00100, 0b01110]);
    assert_eq!(get_glyph(' '), [0; 7]);
    assert_eq!(get_glyph('~'), [0b11111, 0b10001, 0b10001, 0b10001, 0b10001, 0b10001, 0b11111]);
}

#[test]
fn text_lights_glyph_pixels() {
    let mut c = Canvas::new(12, 7, 0);
    ui_draw_text(&mut c, 0, 0, "-1", 1);
    // '-' lights row 3 of the first cell; '1' starts at column 6.
    let row3: Vec<u32> = c.buffer[36..48].to_vec();
    assert_eq!(row3, vec![1, 1, 1, 1, 1, 0, 0, 0, 1, 0, 0, 0]);
    let row0: Vec<u32> = c.buffer[0..12].to_vec();
    assert_eq!(row0, vec![0, 0, 0, 0, 0, 0, 0, 0, 1, 0, 0, 0]);
}

#[test]
fn edges_cross_scanlines_with_truncation() {
    assert_eq!(edge_crossing((0, 0), (10, 10), 5, 100), Some(5));
    assert_eq!(edge_crossing((0, 0), (3, 2), 1, 100), Some(1));
    assert_eq!(edge_crossing((0, 0), (10, 10), 10, 100), None);
    assert_eq!(edge_crossing((0, 0), (10, 0), 0, 100), None);
    assert_eq!(edge_crossing((-50, 0), (-50, 10), 5, 100), Some(-1));
}

#[test]
fn polygons_fill_their_inside() {
    let mut buf = vec![0u32; 25];
    fill_poly(&mut buf, 5, 5, &vec![(1, 1), (4, 1), (4, 4), (1, 4)], 7);
    let expected: Vec<u32> = (0..25)
        .map(|i| {
            let (x, y) = (i % 5, i / 5);
            if (1..=4).contains(&x) && (1..4).contains(&y) { 7 } else { 0 }
        })
        .collect();
    assert_eq!(buf, expected);
}

#[test]
fn isometric_render_uses_scene_colours() {
    let mut buf = vec![1u32; 40 * 30];
    iso_render(&mut buf, 40, 30, &vec![(0, 0, 0)]);
    assert!(buf.iter().all(|&p| [0x0d1b2a, 0x5b9bd5, 0x2e6ea8, 0x1a4a7c].contains(&p)));
    assert!(buf.contains(&0x5b9bd5));
    let mut empty = vec![1u32; 6];
    iso_render(&mut empty, 3, 2, &vec![]);
    assert_eq!(empty, vec![0x0d1b2a; 6]);
}

#[test]
fn values_sort_ascending() {
    let mut v = vec![5, -1, 3, 3, 0];
    sort_values(&mut v);
    assert_eq!(v, vec![-1, 0, 3, 3, 5]);
}

#[test]
fn names_compare_lexicographically() {
    assert!(compare_names("a", "b") < 0);
    assert!(compare_names("ab", "a") > 0);
    assert_eq!(compare_names("xy", "xy"), 0);
    assert!(compare_names("", "a") < 0);
}
