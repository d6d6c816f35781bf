use cursor_overlay::cursor::{
    color_cursor, cursor_draw_origin, cursor_size, monochrome_cursor, pointer_position, to_overlay,
};

#[test]
fn cursor_size_colour_and_monochrome() {
    assert_eq!(cursor_size(32, 32, true), (32, 32));
    assert_eq!(cursor_size(32, 64, false), (32, 32));
    assert_eq!(cursor_size(48, 97, false), (48, 48));
    // values are reinterpreted as unsigned, division rounds toward zero
    assert_eq!(cursor_size(-1, 7, true), (u32::MAX, 7));
    assert_eq!(cursor_size(1, -3, false), (1, u32::MAX));
    assert_eq!(cursor_size(1, -3, true), (1, (-3i32) as u32));
    assert_eq!(cursor_size(1, i32::MIN, false), (1, (i32::MIN / 2) as u32));
}

#[test]
fn color_cursor_masks_and_repairs_alpha() {
    let img = color_cursor(&[0x00FF_FFFF, 0x0000_0000], &[0x00FF_FFFF, 0x0000_0000], 2, 1, 0, 0);
    assert_eq!(img.pixels, vec![0x0000_0000, 0xFF00_0000]);
    assert_eq!((img.width, img.height, img.hotspot_x, img.hotspot_y), (2, 1, 0, 0));
    let img = color_cursor(&[0x0011_2233, 0x0144_5566], &[0, 0], 1, 2, u32::MAX, 4);
    assert_eq!(img.pixels, vec![0xFF11_2233, 0x0144_5566]);
    assert_eq!((img.hotspot_x, img.hotspot_y), (-1, 4));
}

#[test]
fn monochrome_cursor_decodes_masks() {
    let mask = vec![0, 1, /* xor */ 1, 1];
    let img = monochrome_cursor(&mask, 2, 1, 1, 0);
    assert_eq!(img.pixels, vec![0xFFFF_FFFF, 0x0000_0000]);
    assert_eq!((img.width, img.height, img.hotspot_x, img.hotspot_y), (2, 1, 1, 0));
}

#[test]
fn to_overlay_subtracts_origin() {
    assert_eq!(to_overlay(100, 50, -1920, 0), (2020, 50));
    assert_eq!(to_overlay(i32::MIN, i32::MAX, i32::MAX, i32::MIN), (-(1i64 << 32) + 1, (1i64 << 32) - 1));
}

#[test]
fn pointer_position_choices() {
    let origin = (-100, -10);
    // reported position, cursor drawn: fallback ignored
    assert_eq!(pointer_position(Some((5, 6)), true, Some((50, 60)), origin), (105, 16));
    // cursor not drawn: fallback wins
    assert_eq!(pointer_position(Some((5, 6)), false, Some((50, 60)), origin), (150, 70));
    // cursor not drawn, fallback failed: reported position stays
    assert_eq!(pointer_position(Some((5, 6)), false, None, origin), (105, 16));
    // nothing known
    assert_eq!(pointer_position(None, false, None, origin), (0, 0));
    assert_eq!(pointer_position(None, false, Some((0, 0)), origin), (100, 10));
}

#[test]
fn cursor_draw_origin_puts_hotspot_on_pointer() {
    let (x, y) = cursor_draw_origin(100, 200, 7, -3);
    assert_eq!((x, y), (93, 203));
    assert_eq!((x + 7, y - 3), (100, 200));
}
