use cursor_overlay::pixels::{
    color_pixel, color_to_argb, disc_texture, inside_disc, mono_pixel, mono_to_argb, white_with_alpha,
    BLACK_PIXEL, TRANSPARENT_PIXEL, WHITE_PIXEL,
};

#[test]
fn color_pixel_rules() {
    // a set AND bit makes the pixel transparent, whatever its colour word
    assert_eq!(color_pixel(0x00FF_FFFF, 0x00FF_FFFF), TRANSPARENT_PIXEL);
    assert_eq!(color_pixel(0x80AB_CDEF, 1), TRANSPARENT_PIXEL);
    // unmasked and without alpha: made opaque
    assert_eq!(color_pixel(0x0012_3456, 0), 0xFF12_3456);
    assert_eq!(color_pixel(0x0000_0000, 0), BLACK_PIXEL);
    // unmasked with alpha: kept
    assert_eq!(color_pixel(0x7F12_3456, 0), 0x7F12_3456);
    // only the lowest AND bit counts
    assert_eq!(color_pixel(0x0012_3456, 0xFFFF_FFFE), 0xFF12_3456);
}

#[test]
fn color_to_argb_applies_the_and_mask() {
    // 2 x 1 colour cursor without alpha: the white pixel is masked out
    let out = color_to_argb(&[0x00FF_FFFF, 0x0000_0000], &[0x00FF_FFFF, 0x0000_0000]);
    assert_eq!(out, vec![0x0000_0000, 0xFF00_0000]);
    let out = color_to_argb(&[0x0000_0000, 0x7F12_3456, 0x0011_2233], &[0, 0, 1]);
    assert_eq!(out, vec![0xFF00_0000, 0x7F12_3456, 0x0000_0000]);
    assert!(color_to_argb(&[], &[]).is_empty());
}

#[test]
fn color_pixel_is_idempotent_and_keeps_colour() {
    for &(c, a) in &[(0x0012_3456u32, 0u32), (0x7F00_0001, 0), (0x00FF_FFFF, 1), (0, 0)] {
        let once = color_pixel(c, a);
        assert_eq!(color_pixel(once, a), once);
        if a & 1 == 0 {
            assert_eq!(once & 0x00FF_FFFF, c & 0x00FF_FFFF);
            assert_ne!(once >> 24, 0);
        } else {
            assert_eq!(once >> 24, 0);
        }
    }
}

#[test]
fn mono_pixel_rules() {
    assert_eq!(mono_pixel(1, 0), TRANSPARENT_PIXEL);
    assert_eq!(mono_pixel(1, 1), TRANSPARENT_PIXEL);
    assert_eq!(mono_pixel(0, 1), WHITE_PIXEL);
    assert_eq!(mono_pixel(0, 0), BLACK_PIXEL);
    // only the lowest bit of each sample counts
    assert_eq!(mono_pixel(0xFFFF_FFFE, 0x0000_0003), WHITE_PIXEL);
    assert_eq!(mono_pixel(0xFFFF_FFFE, 0xFFFF_FFFE), BLACK_PIXEL);
}

#[test]
fn mono_to_argb_pairs_and_with_xor_rows() {
    // 2 x 2 image: AND rows first, then XOR rows.
    let mask = vec![1, 0, 0, 0, /* xor */ 0, 1, 0, 1];
    let out = mono_to_argb(&mask, 2, 2);
    assert_eq!(out, vec![TRANSPARENT_PIXEL, WHITE_PIXEL, BLACK_PIXEL, WHITE_PIXEL]);
}

#[test]
fn mono_to_argb_empty() {
    assert!(mono_to_argb(&[], 0, 5).is_empty());
    assert!(mono_to_argb(&[], 3, 0).is_empty());
}

#[test]
fn white_with_alpha_packs_alpha_byte() {
    assert_eq!(white_with_alpha(0), 0x00FF_FFFF);
    assert_eq!(white_with_alpha(0x80), 0x80FF_FFFF);
    assert_eq!(white_with_alpha(255), 0xFFFF_FFFF);
}

#[test]
fn inside_disc_of_square() {
    // 64 x 64: the centre pixels are inside, the corners are not.
    assert!(inside_disc(64, 31, 31));
    assert!(inside_disc(64, 32, 32));
    assert!(!inside_disc(64, 0, 0));
    assert!(!inside_disc(64, 63, 63));
    // edge midpoint: centre (0.5, 32.5) is 31.5 from (32, 32), inside
    assert!(inside_disc(64, 0, 32));
    // (1, 9): offsets 30.5 and 22.5 give 930.25 + 506.25 = 1436.5 > 1024
    assert!(!inside_disc(64, 1, 9));
}

#[test]
fn inside_disc_agrees_with_float_distance_for_64() {
    let size = 64usize;
    let c = size as f32 / 2.0;
    for y in 0..size {
        for x in 0..size {
            let dx = x as f32 + 0.5 - c;
            let dy = y as f32 + 0.5 - c;
            let d = (dx * dx + dy * dy).sqrt();
            assert_eq!(d < c, inside_disc(64, x as u16, y as u16), "at {} {}", x, y);
        }
    }
}

#[test]
fn disc_texture_small() {
    // 2 x 2: every pixel centre is 0.707 from the middle, inside a radius of 1.
    let out = disc_texture(2, &[10, 20, 30, 40]);
    assert_eq!(out, vec![0x0AFF_FFFF, 0x14FF_FFFF, 0x1EFF_FFFF, 0x28FF_FFFF]);
    // 3 x 3: corner centres are sqrt(2) from the middle, inside a radius of 1.5.
    assert_eq!(disc_texture(3, &[255; 9]), vec![0xFFFF_FFFF; 9]);
    // 4 x 4: the corners lie outside, the rest inside.
    let out = disc_texture(4, &[255; 16]);
    let w = 0xFFFF_FFFFu32;
    assert_eq!(
        out,
        vec![0, w, w, 0, w, w, w, w, w, w, w, w, 0, w, w, 0]
    );
}
