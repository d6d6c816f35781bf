//! 32-bit ARGB pixel rules: the decoding of colour cursors (colour words
//! under an AND mask) and of monochrome AND/XOR cursor masks, and the soft white
//! disc used for trail dots and click ripples.

use vstd::prelude::*;

verus! {

/// The alpha byte of a fully opaque pixel, in place.
pub const OPAQUE_ALPHA: u32 = 0xFF00_0000;

/// A fully transparent pixel.
pub const TRANSPARENT_PIXEL: u32 = 0x0000_0000;

/// Opaque white.
pub const WHITE_PIXEL: u32 = 0xFFFF_FFFF;

/// Opaque black.
pub const BLACK_PIXEL: u32 = 0xFF00_0000;

/// The colour bits (red, green, blue) of a pixel.
pub const COLOR_MASK: u32 = 0x00FF_FFFF;

/// The alpha byte of an ARGB pixel.
pub open spec fn alpha(p: u32) -> u32 {
    p >> 24u32
}

/// `p` with its alpha byte set to fully opaque.
pub open spec fn make_opaque(p: u32) -> u32 {
    p | OPAQUE_ALPHA
}

/// One pixel of a colour cursor from its colour word `c` and its AND-mask
/// sample: a set AND bit makes the pixel transparent; otherwise a colour word
/// without alpha is made opaque, and one with alpha is kept as it is.
pub open spec fn color_pixel_spec(c: u32, and_px: u32) -> u32 {
    if and_px & 1 != 0 {
        TRANSPARENT_PIXEL
    } else if alpha(c) == 0 {
        make_opaque(c)
    } else {
        c
    }
}

/// Decodes one colour-cursor pixel from its colour word and AND-mask sample.
pub fn color_pixel(c: u32, and_px: u32) -> (r: u32)
    ensures
        r == color_pixel_spec(c, and_px),
        and_px & 1 != 0 ==> r == 0x0000_0000,
        and_px & 1 == 0 && c >> 24u32 == 0 ==> r == c | 0xFF00_0000,
        and_px & 1 == 0 && c >> 24u32 != 0 ==> r == c,
{
    if (and_px & 1) != 0 {
        TRANSPARENT_PIXEL
    } else if (c >> 24u32) == 0 {
        c | OPAQUE_ALPHA
    } else {
        c
    }
}

/// Pixel `i` of a colour cursor combines colour word `i` with AND-mask
/// sample `i`.
pub open spec fn color_to_argb_spec(colors: Seq<u32>, and_mask: Seq<u32>) -> Seq<u32> {
    Seq::new(colors.len(), |i: int| color_pixel_spec(colors[i], and_mask[i]))
}

/// Decodes a colour cursor from its colour words and its AND mask, one
/// sample per pixel, both row by row from the top.
pub fn color_to_argb(colors: &[u32], and_mask: &[u32]) -> (r: Vec<u32>)
    requires
        and_mask@.len() == colors@.len(),
    ensures
        r@ == color_to_argb_spec(colors@, and_mask@),
        r@.len() == colors@.len(),
        forall|i: int|
            0 <= i < colors@.len() ==> {
                &&& and_mask@[i] & 1 != 0 ==> #[trigger] r@[i] == 0x0000_0000u32
                &&& and_mask@[i] & 1 == 0 && colors@[i] >> 24u32 == 0 ==> r@[i] == colors@[i]
                    | 0xFF00_0000u32
                &&& and_mask@[i] & 1 == 0 && colors@[i] >> 24u32 != 0 ==> r@[i] == colors@[i]
            },
{
    let mut out: Vec<u32> = Vec::with_capacity(colors.len());
    let mut i: usize = 0;
    while i < colors.len()
        invariant
            and_mask@.len() == colors@.len(),
            i <= colors@.len(),
            out@.len() == i,
            forall|j: int|
                0 <= j < i ==> #[trigger] out@[j] == color_pixel_spec(colors@[j], and_mask@[j]),
        decreases colors@.len() - i,
    {
        out.push(color_pixel(colors[i], and_mask[i]));
        i += 1;
    }
    assert(out@ =~= color_to_argb_spec(colors@, and_mask@));
    assert forall|i: int| 0 <= i < colors@.len() implies {
        &&& and_mask@[i] & 1 != 0 ==> #[trigger] out@[i] == 0x0000_0000u32
        &&& and_mask@[i] & 1 == 0 && colors@[i] >> 24u32 == 0 ==> out@[i] == colors@[i]
            | 0xFF00_0000u32
        &&& and_mask@[i] & 1 == 0 && colors@[i] >> 24u32 != 0 ==> out@[i] == colors@[i]
    } by {
        lemma_color_pixel_by_low_bit(colors@[i], and_mask@[i]);
    }
    out
}

proof fn lemma_opaque_bits(p: u32)
    ensures
        alpha(make_opaque(p)) == 0xFF,
        make_opaque(p) & COLOR_MASK == p & COLOR_MASK,
{
    assert((p | 0xFF00_0000u32) >> 24u32 == 0xFFu32) by (bit_vector);
    assert((p | 0xFF00_0000u32) & 0x00FF_FFFFu32 == p & 0x00FF_FFFFu32) by (bit_vector);
}

/// A decoded colour-cursor pixel is visible (has non-zero alpha) exactly
/// where its AND-mask bit is clear: masked pixels are fully transparent,
/// and no unmasked pixel is lost to a missing alpha channel.
pub proof fn lemma_color_pixel_visible(c: u32, and_px: u32)
    ensures
        (alpha(color_pixel_spec(c, and_px)) == 0) == (and_px & 1 != 0),
        and_px & 1 != 0 ==> color_pixel_spec(c, and_px) == TRANSPARENT_PIXEL,
{
    lemma_opaque_bits(c);
    assert(0u32 >> 24u32 == 0u32) by (bit_vector);
}

/// An unmasked colour-cursor pixel keeps its colour: decoding only ever
/// touches its alpha byte, and keeps an alpha byte that is already there.
pub proof fn lemma_color_pixel_keeps_color(c: u32, and_px: u32)
    requires
        and_px & 1 == 0,
    ensures
        color_pixel_spec(c, and_px) & COLOR_MASK == c & COLOR_MASK,
        alpha(c) != 0 ==> color_pixel_spec(c, and_px) == c,
{
    lemma_opaque_bits(c);
}

/// Decoding a colour-cursor pixel a second time, with the same mask
/// sample, changes nothing.
pub proof fn lemma_color_pixel_idempotent(c: u32, and_px: u32)
    ensures
        color_pixel_spec(color_pixel_spec(c, and_px), and_px) == color_pixel_spec(c, and_px),
{
    lemma_opaque_bits(c);
}

/// One pixel of a monochrome cursor: a set AND bit is transparent; else a
/// set XOR bit is white; else black.
pub open spec fn mono_pixel_spec(and_px: u32, xor_px: u32) -> u32 {
    if and_px & 1 != 0 {
        TRANSPARENT_PIXEL
    } else if xor_px & 1 != 0 {
        WHITE_PIXEL
    } else {
        BLACK_PIXEL
    }
}

/// Decodes one monochrome pixel from its AND-mask and XOR-mask samples.
pub fn mono_pixel(and_px: u32, xor_px: u32) -> (r: u32)
    ensures
        r == mono_pixel_spec(and_px, xor_px),
        and_px & 1 != 0 ==> r == 0x0000_0000,
        and_px & 1 == 0 && xor_px & 1 != 0 ==> r == 0xFFFF_FFFF,
        and_px & 1 == 0 && xor_px & 1 == 0 ==> r == 0xFF00_0000,
{
    if (and_px & 1) != 0 {
        TRANSPARENT_PIXEL
    } else if (xor_px & 1) != 0 {
        WHITE_PIXEL
    } else {
        BLACK_PIXEL
    }
}

/// A monochrome mask of `2 * count` samples holds the AND mask in its first
/// `count` samples and the XOR mask in the rest; pixel `i` combines sample
/// `i` of each.
pub open spec fn mono_to_argb_spec(mask: Seq<u32>, count: int) -> Seq<u32> {
    Seq::new(count as nat, |i: int| mono_pixel_spec(mask[i], mask[i + count]))
}

/// Decodes a monochrome cursor mask of `width` by `2 * height` samples (AND
/// mask above, XOR mask below) into `width * height` ARGB pixels, row by row.
pub fn mono_to_argb(mask: &[u32], width: u32, height: u32) -> (r: Vec<u32>)
    requires
        mask@.len() == 2 * ((width as int) * (height as int)),
    ensures
        r@ == mono_to_argb_spec(mask@, (width as int) * (height as int)),
        r@.len() == (width as int) * (height as int),
        forall|i: int|
            0 <= i < r@.len() ==> {
                let a = mask@[i];
                let x = mask@[i + r@.len()];
                &&& a & 1 != 0 ==> #[trigger] r@[i] == 0x0000_0000u32
                &&& a & 1 == 0 && x & 1 != 0 ==> r@[i] == 0xFFFF_FFFFu32
                &&& a & 1 == 0 && x & 1 == 0 ==> r@[i] == 0xFF00_0000u32
            },
{
    let count: usize = mask.len() / 2;
    let mut out: Vec<u32> = Vec::with_capacity(count);
    let mut i: usize = 0;
    while i < count
        invariant
            count == (width as int) * (height as int),
            mask@.len() == 2 * count,
            i <= count,
            out@.len() == i,
            forall|j: int|
                0 <= j < i ==> #[trigger] out@[j] == mono_pixel_spec(mask@[j], mask@[j + count]),
        decreases count - i,
    {
        out.push(mono_pixel(mask[i], mask[i + count]));
        i += 1;
    }
    assert(out@ =~= mono_to_argb_spec(mask@, (width as int) * (height as int)));
    assert forall|i: int| 0 <= i < out@.len() implies {
        let a = mask@[i];
        let x = mask@[i + out@.len()];
        &&& a & 1 != 0 ==> #[trigger] out@[i] == 0x0000_0000u32
        &&& a & 1 == 0 && x & 1 != 0 ==> out@[i] == 0xFFFF_FFFFu32
        &&& a & 1 == 0 && x & 1 == 0 ==> out@[i] == 0xFF00_0000u32
    } by {
        lemma_mono_pixel_by_low_bits(mask@[i], mask@[i + out@.len()]);
    }
    out
}

/// A decoded monochrome pixel is either fully transparent or fully
/// opaque, and it is transparent exactly where the AND mask is set.
pub proof fn lemma_mono_pixel_alpha(and_px: u32, xor_px: u32)
    ensures
        alpha(mono_pixel_spec(and_px, xor_px)) == 0 || alpha(mono_pixel_spec(and_px, xor_px))
            == 0xFF,
        (alpha(mono_pixel_spec(and_px, xor_px)) == 0) == (and_px & 1 != 0),
{
    assert(0u32 >> 24u32 == 0u32) by (bit_vector);
    assert(0xFFFF_FFFFu32 >> 24u32 == 0xFFu32) by (bit_vector);
    assert(0xFF00_0000u32 >> 24u32 == 0xFFu32) by (bit_vector);
}

/// A monochrome pixel is decided by bit 0 of its two samples alone: a set
/// AND bit gives transparent (0), else a set XOR bit gives opaque white
/// (0xFFFFFFFF), else opaque black (0xFF000000); the other bits of the
/// samples, such as the 0x00FFFFFF words that a set mask bit reads as at
/// 32 bits per pixel, change nothing.
pub proof fn lemma_mono_pixel_by_low_bits(and_px: u32, xor_px: u32)
    ensures
        and_px & 1 != 0 ==> mono_pixel_spec(and_px, xor_px) == 0x0000_0000u32,
        and_px & 1 == 0 ==> (mono_pixel_spec(and_px, xor_px) == 0xFFFF_FFFFu32 <==> xor_px & 1
            != 0),
        and_px & 1 == 0 && xor_px & 1 == 0 ==> mono_pixel_spec(and_px, xor_px) == 0xFF00_0000u32,
        mono_pixel_spec(and_px, xor_px) == mono_pixel_spec(and_px & 1, xor_px & 1),
{
    assert((and_px & 1) & 1 == and_px & 1) by (bit_vector);
    assert((xor_px & 1) & 1 == xor_px & 1) by (bit_vector);
}

/// A colour-cursor pixel depends on bit 0 of its AND sample alone, and a
/// set AND bit always gives the transparent pixel 0.
pub proof fn lemma_color_pixel_by_low_bit(c: u32, and_px: u32)
    ensures
        and_px & 1 != 0 ==> color_pixel_spec(c, and_px) == 0x0000_0000u32,
        and_px & 1 == 0 && c >> 24u32 == 0 ==> color_pixel_spec(c, and_px) == c | 0xFF00_0000u32,
        and_px & 1 == 0 && c >> 24u32 != 0 ==> color_pixel_spec(c, and_px) == c,
        color_pixel_spec(c, and_px) == color_pixel_spec(c, and_px & 1),
{
    assert((and_px & 1) & 1 == and_px & 1) by (bit_vector);
}

/// Opaque-white colour bits under the given alpha byte.
pub open spec fn white_with_alpha_spec(a: u8) -> u32 {
    ((a as u32) << 24u32) | COLOR_MASK
}

/// A white pixel whose alpha byte is `a`.
pub fn white_with_alpha(a: u8) -> (r: u32)
    ensures
        r == white_with_alpha_spec(a),
        alpha(r) == a,
        r & COLOR_MASK == COLOR_MASK,
{
    let v: u32 = a as u32;
    assert(((v << 24u32) | 0x00FF_FFFFu32) >> 24u32 == v) by (bit_vector)
        requires
            v < 256,
    ;
    assert(((v << 24u32) | 0x00FF_FFFFu32) & 0x00FF_FFFFu32 == 0x00FF_FFFFu32) by (bit_vector);
    (v << 24u32) | COLOR_MASK
}

/// The centre of pixel (`x`, `y`) lies strictly inside the disc inscribed
/// in a `size` by `size` square. With `d = 2 * offset` this is the test
/// `sqrt(dx * dx + dy * dy) < size / 2` on the doubled offsets of the pixel
/// centre from the square's centre, in exact integers.
pub open spec fn inside_disc_spec(size: int, x: int, y: int) -> bool {
    let dx = 2 * x + 1 - size;
    let dy = 2 * y + 1 - size;
    dx * dx + dy * dy < size * size
}

/// Whether the centre of pixel (`x`, `y`) of a `size`-pixel square lies
/// inside its inscribed disc.
pub fn inside_disc(size: u16, x: u16, y: u16) -> (r: bool)
    requires
        x < size,
        y < size,
    ensures
        r == inside_disc_spec(size as int, x as int, y as int),
{
    let s: i64 = size as i64;
    let dx: i64 = 2 * (x as i64) + 1 - s;
    let dy: i64 = 2 * (y as i64) + 1 - s;
    assert(0 <= dx * dx <= 0x4_0000_0000) by (nonlinear_arith)
        requires
            -0x2_0000 <= dx <= 0x2_0000,
    ;
    assert(0 <= dy * dy <= 0x4_0000_0000) by (nonlinear_arith)
        requires
            -0x2_0000 <= dy <= 0x2_0000,
    ;
    assert(0 <= s * s <= 0x1_0000_0000) by (nonlinear_arith)
        requires
            0 <= s <= 0x1_0000,
    ;
    dx * dx + dy * dy < s * s
}

/// The disc is symmetric under swapping the axes and under mirroring
/// either axis; the centre pixel of any non-empty square is inside it, and
/// the corner pixels of a square of side 4 or more are outside it.
pub proof fn lemma_disc_shape(size: int, x: int, y: int)
    requires
        size > 0,
        0 <= x < size,
        0 <= y < size,
    ensures
        inside_disc_spec(size, x, y) == inside_disc_spec(size, y, x),
        inside_disc_spec(size, x, y) == inside_disc_spec(size, size - 1 - x, y),
        inside_disc_spec(size, x, y) == inside_disc_spec(size, x, size - 1 - y),
        inside_disc_spec(size, size / 2, size / 2),
        size >= 4 ==> !inside_disc_spec(size, 0, 0),
{
    let dx = 2 * x + 1 - size;
    let mx = 2 * (size - 1 - x) + 1 - size;
    assert(mx == -dx);
    assert(mx * mx == dx * dx) by (nonlinear_arith)
        requires
            mx == -dx,
    ;
    let dy = 2 * y + 1 - size;
    let my = 2 * (size - 1 - y) + 1 - size;
    assert(my * my == dy * dy) by (nonlinear_arith)
        requires
            my == -dy,
    ;
    let c = 2 * (size / 2) + 1 - size;
    assert(0 <= c <= 1);
    assert(c * c + c * c < size * size) by (nonlinear_arith)
        requires
            0 <= c <= 1,
            size >= 1,
            c == 1 ==> size >= 2,
    ;
    if size >= 4 {
        assert((1 - size) * (1 - size) + (1 - size) * (1 - size) >= size * size) by (nonlinear_arith)
            requires
                size >= 4,
        ;
    }
}

/// Pixel `i` of the soft disc texture of side `size`: white under the alpha
/// byte given for it inside the disc, transparent outside.
pub open spec fn disc_texture_spec(size: int, alphas: Seq<u8>) -> Seq<u32> {
    Seq::new(
        (size * size) as nat,
        |i: int|
            if inside_disc_spec(size, i % size, i / size) {
                white_with_alpha_spec(alphas[i])
            } else {
                TRANSPARENT_PIXEL
            },
    )
}

/// Builds the row-major pixels of a `size` by `size` white disc whose edge
/// ramp is given by `alphas`, one alpha byte per pixel; pixels whose centre
/// lies outside the disc are transparent whatever their alpha byte.
pub fn disc_texture(size: u16, alphas: &[u8]) -> (r: Vec<u32>)
    requires
        alphas@.len() == (size as int) * (size as int),
    ensures
        r@ == disc_texture_spec(size as int, alphas@),
{
    let n: usize = size as usize;
    let total: usize = alphas.len();
    let mut out: Vec<u32> = Vec::with_capacity(total);
    let mut i: usize = 0;
    while i < total
        invariant
            n == size,
            total == (n as int) * (n as int),
            alphas@.len() == total,
            i <= total,
            out@.len() == i,
            forall|j: int|
                0 <= j < i ==> #[trigger] out@[j] == disc_texture_spec(size as int, alphas@)[j],
        decreases total - i,
    {
        assert(n > 0 && i / n < n) by (nonlinear_arith)
            requires
                i < total,
                total == n * n,
        ;
        let x: usize = i % n;
        let y: usize = i / n;
        let px = if inside_disc(size, x as u16, y as u16) {
            white_with_alpha(alphas[i])
        } else {
            TRANSPARENT_PIXEL
        };
        out.push(px);
        i += 1;
    }
    assert(out@ =~= disc_texture_spec(size as int, alphas@));
    out
}

} // verus!
