//! Turning the bitmaps of a system cursor into an ARGB image, and placing
//! that image so that its hotspot sits on the pointer.

use vstd::prelude::*;
use crate::pixels::{color_to_argb, color_to_argb_spec, mono_to_argb, mono_to_argb_spec};

verus! {

/// A decoded cursor: `width * height` ARGB pixels, row by row from the top,
/// and the hotspot, the pixel that marks the pointer's tip.
pub struct CursorImage {
    pub pixels: Vec<u32>,
    pub width: u32,
    pub height: u32,
    pub hotspot_x: i32,
    pub hotspot_y: i32,
}

impl CursorImage {
    /// The pixel buffer holds exactly one pixel per position of the image.
    pub open spec fn wf(&self) -> bool {
        self.pixels@.len() == (self.width as int) * (self.height as int)
    }
}

/// `h / 2` rounded toward zero, as integer division does on machine integers.
pub open spec fn half_toward_zero(h: int) -> int {
    if h >= 0 {
        h / 2
    } else {
        -((-h) / 2)
    }
}

/// The image size of a cursor whose bitmap (as the system describes it) is
/// `bm_width` by `bm_height`: a colour cursor uses the whole bitmap, a
/// monochrome one stacks its AND and XOR masks and so is half as tall. Each
/// value is reinterpreted as unsigned, as the system's values are.
pub open spec fn cursor_size_spec(bm_width: i32, bm_height: i32, has_color: bool) -> (u32, u32) {
    (
        bm_width as u32,
        if has_color {
            bm_height as u32
        } else {
            half_toward_zero(bm_height as int) as u32
        },
    )
}

/// Width and height of the cursor image for a bitmap of the given size.
pub fn cursor_size(bm_width: i32, bm_height: i32, has_color: bool) -> (r: (u32, u32))
    ensures
        r == cursor_size_spec(bm_width, bm_height, has_color),
        r.0 == bm_width as u32,
        has_color ==> r.1 == bm_height as u32,
        !has_color && bm_height >= 0 ==> 2 * r.1 <= bm_height <= 2 * r.1 + 1,
{
    let height: u32 = if has_color {
        bm_height as u32
    } else {
        let h: i64 = bm_height as i64;
        let q: i64 = if h >= 0 {
            h / 2
        } else {
            -((-h) / 2)
        };
        q as u32
    };
    (bm_width as u32, height)
}

/// The cursor image of a colour cursor from its `width * height` colour
/// words and the `width * height` samples of its AND mask: masked pixels
/// are transparent, unmasked ones without alpha are made opaque. The
/// hotspot, which the system gives unsigned, is reinterpreted as signed.
pub fn color_cursor(
    colors: &[u32],
    and_mask: &[u32],
    width: u32,
    height: u32,
    x_hotspot: u32,
    y_hotspot: u32,
) -> (r: CursorImage)
    requires
        colors@.len() == (width as int) * (height as int),
        and_mask@.len() == (width as int) * (height as int),
    ensures
        r.wf(),
        r.pixels@ == color_to_argb_spec(colors@, and_mask@),
        r.width == width,
        r.height == height,
        r.hotspot_x == x_hotspot as i32,
        r.hotspot_y == y_hotspot as i32,
{
    let pixels = color_to_argb(colors, and_mask);
    CursorImage {
        pixels,
        width,
        height,
        hotspot_x: x_hotspot as i32,
        hotspot_y: y_hotspot as i32,
    }
}

/// The cursor image of a monochrome cursor from its mask of `width` by
/// `2 * height` samples (AND mask above, XOR mask below).
pub fn monochrome_cursor(mask: &[u32], width: u32, height: u32, x_hotspot: u32, y_hotspot: u32) -> (r:
    CursorImage)
    requires
        mask@.len() == 2 * ((width as int) * (height as int)),
    ensures
        r.wf(),
        r.pixels@ == mono_to_argb_spec(mask@, (width as int) * (height as int)),
        r.width == width,
        r.height == height,
        r.hotspot_x == x_hotspot as i32,
        r.hotspot_y == y_hotspot as i32,
{
    let pixels = mono_to_argb(mask, width, height);
    CursorImage {
        pixels,
        width,
        height,
        hotspot_x: x_hotspot as i32,
        hotspot_y: y_hotspot as i32,
    }
}

/// A point given in virtual-desktop coordinates, taken relative to the
/// overlay's top-left corner at (`origin_x`, `origin_y`).
pub fn to_overlay(screen_x: i32, screen_y: i32, origin_x: i32, origin_y: i32) -> (r: (i64, i64))
    ensures
        r.0 == screen_x - origin_x,
        r.1 == screen_y - origin_y,
{
    ((screen_x as i64) - (origin_x as i64), (screen_y as i64) - (origin_y as i64))
}

/// The pointer position the overlay uses for a frame, relative to the
/// overlay's origin: the position reported with the cursor information when
/// there is one, replaced by the directly queried position when no cursor
/// image is drawn this frame and that query succeeded; (0, 0) when neither
/// is known.
pub open spec fn pointer_position_spec(
    reported: Option<(i32, i32)>,
    cursor_drawn: bool,
    queried: Option<(i32, i32)>,
    origin: (i32, i32),
) -> (int, int) {
    match (cursor_drawn, queried, reported) {
        (false, Some((qx, qy)), _) => (qx - origin.0, qy - origin.1),
        (_, _, Some((px, py))) => (px - origin.0, py - origin.1),
        _ => (0, 0),
    }
}

/// Chooses the frame's pointer position from the cursor report, whether the
/// cursor image is drawn, and the fallback position query (asked only when
/// the cursor image is not drawn).
pub fn pointer_position(
    reported: Option<(i32, i32)>,
    cursor_drawn: bool,
    queried: Option<(i32, i32)>,
    origin: (i32, i32),
) -> (r: (i64, i64))
    ensures
        r.0 == pointer_position_spec(reported, cursor_drawn, queried, origin).0,
        r.1 == pointer_position_spec(reported, cursor_drawn, queried, origin).1,
        !cursor_drawn && queried is Some ==> r.0 + origin.0 == queried.unwrap().0 && r.1 + origin.1
            == queried.unwrap().1,
        (cursor_drawn || queried is None) && reported is Some ==> r.0 + origin.0
            == reported.unwrap().0 && r.1 + origin.1 == reported.unwrap().1,
        (cursor_drawn || queried is None) && reported is None ==> r == (0i64, 0i64),
{
    let mut pos: (i64, i64) = (0, 0);
    if let Some(p) = reported {
        pos = to_overlay(p.0, p.1, origin.0, origin.1);
    }
    if !cursor_drawn {
        if let Some(q) = queried {
            pos = to_overlay(q.0, q.1, origin.0, origin.1);
        }
    }
    pos
}

/// Where the cursor image's top-left corner goes so that its hotspot lands
/// on the pointer at (`pointer_x`, `pointer_y`).
pub fn cursor_draw_origin(pointer_x: i64, pointer_y: i64, hotspot_x: i32, hotspot_y: i32) -> (r: (
    i64,
    i64,
))
    requires
        i64::MIN <= pointer_x - hotspot_x <= i64::MAX,
        i64::MIN <= pointer_y - hotspot_y <= i64::MAX,
    ensures
        r.0 == pointer_x - hotspot_x,
        r.1 == pointer_y - hotspot_y,
{
    (pointer_x - hotspot_x as i64, pointer_y - hotspot_y as i64)
}

} // verus!
