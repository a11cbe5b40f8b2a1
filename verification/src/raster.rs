//! Packed row-major RGBA8 pixel buffers: the index model, geometric
//! transforms and per-texel colour operations.
use vstd::prelude::*;

verus! {

/// Byte offset of channel 0 of texel (`x`, `y`) in a packed row-major RGBA8
/// buffer whose rows hold `width` texels.
pub open spec fn texel_start(width: int, x: int, y: int) -> int {
    (y * width + x) * 4
}

/// Whether `len` bytes hold exactly `width * height` RGBA8 texels, with both
/// dimensions positive.
pub open spec fn is_packed_rgba8(width: int, height: int, len: int) -> bool {
    &&& width > 0
    &&& height > 0
    &&& len == width * height * 4
}

/// Column of the texel that holds byte `i` of a buffer whose rows hold `width` texels.
pub open spec fn column_of(width: int, i: int) -> int {
    (i / 4) % width
}

/// Row of the texel that holds byte `i` of a buffer whose rows hold `width` texels.
pub open spec fn row_of(width: int, i: int) -> int {
    (i / 4) / width
}

/// The four channels of texel (`x`, `y`).
pub open spec fn texel(p: Seq<u8>, width: int, x: int, y: int) -> Seq<u8> {
    p.subrange(texel_start(width, x, y), texel_start(width, x, y) + 4)
}

/// `p` with the four bytes from `start` replaced by `value`.
pub open spec fn with_texel(p: Seq<u8>, start: int, value: Seq<u8>) -> Seq<u8> {
    Seq::new(p.len(), |i: int| if start <= i < start + 4 { value[i - start] } else { p[i] })
}

/// The image mirrored left-to-right: texel (`x`, `y`) of the result is texel
/// (`width - 1 - x`, `y`) of `p`.
pub open spec fn flipped_horizontal(width: int, p: Seq<u8>) -> Seq<u8> {
    Seq::new(
        p.len(),
        |i: int| p[texel_start(width, width - 1 - column_of(width, i), row_of(width, i)) + i % 4],
    )
}

/// The image mirrored top-to-bottom: texel (`x`, `y`) of the result is texel
/// (`x`, `height - 1 - y`) of `p`.
pub open spec fn flipped_vertical(width: int, height: int, p: Seq<u8>) -> Seq<u8> {
    Seq::new(
        p.len(),
        |i: int| p[texel_start(width, column_of(width, i), height - 1 - row_of(width, i)) + i % 4],
    )
}

/// The `width` x `height` image at the start of `p` rotated 90 degrees
/// clockwise. The result is `height` texels wide; its texel (`x`, `y`) is
/// texel (`y`, `height - 1 - x`) of `p`. Bytes of `p` past the image become zero.
pub open spec fn rotated90(width: int, height: int, p: Seq<u8>) -> Seq<u8> {
    Seq::new(
        p.len(),
        |i: int|
            if i < width * height * 4 {
                p[texel_start(width, row_of(height, i), height - 1 - column_of(height, i)) + i % 4]
            } else {
                0
            },
    )
}

/// The `width` x `height` image at the start of `p` rotated 270 degrees
/// clockwise. The result is `height` texels wide; its texel (`x`, `y`) is
/// texel (`width - 1 - y`, `x`) of `p`. Bytes of `p` past the image become zero.
pub open spec fn rotated270(width: int, height: int, p: Seq<u8>) -> Seq<u8> {
    Seq::new(
        p.len(),
        |i: int|
            if i < width * height * 4 {
                p[texel_start(width, width - 1 - row_of(height, i), column_of(height, i)) + i % 4]
            } else {
                0
            },
    )
}

/// The complete four-byte texels of `p` in reverse order; bytes after the last
/// complete texel stay where they are.
pub open spec fn reversed_texels(p: Seq<u8>) -> Seq<u8> {
    let texels = p.len() / 4;
    Seq::new(
        p.len(),
        |i: int| if i < texels * 4 { p[(texels - 1 - i / 4) * 4 + i % 4] } else { p[i] },
    )
}

/// The byte-space Rec. 709 luma of an RGB triple, computed exactly and
/// rounded half up (single-precision arithmetic can round a near-half value
/// the other way).
pub open spec fn luma(r: u8, g: u8, b: u8) -> u8 {
    ((2126 * r + 7152 * g + 722 * b + 5000) / 10000) as u8
}

/// Every complete texel's RGB channels replaced by its luma; alpha and any
/// trailing partial texel are kept.
pub open spec fn grayscaled(p: Seq<u8>) -> Seq<u8> {
    Seq::new(
        p.len(),
        |i: int|
            if i < (p.len() / 4) * 4 && i % 4 < 3 {
                luma(p[i - i % 4], p[i - i % 4 + 1], p[i - i % 4 + 2])
            } else {
                p[i]
            },
    )
}

/// Every complete texel's RGB channels replaced by `255 - value`; alpha and
/// any trailing partial texel are kept.
pub open spec fn inverted_rgb(p: Seq<u8>) -> Seq<u8> {
    Seq::new(
        p.len(),
        |i: int| if i < (p.len() / 4) * 4 && i % 4 < 3 { (255 - p[i]) as u8 } else { p[i] },
    )
}

/// Byte `i` of a texel-aligned position splits into texel, channel, column and row.
pub proof fn lemma_texel_decompose(width: int, x: int, y: int, c: int)
    requires
        0 <= x < width,
        0 <= y,
        0 <= c < 4,
    ensures
        (texel_start(width, x, y) + c) / 4 == y * width + x,
        (texel_start(width, x, y) + c) % 4 == c,
        column_of(width, texel_start(width, x, y) + c) == x,
        row_of(width, texel_start(width, x, y) + c) == y,
{
    let t = y * width + x;
    vstd::arithmetic::div_mod::lemma_fundamental_div_mod_converse(t * 4 + c, 4, t, c);
    vstd::arithmetic::div_mod::lemma_fundamental_div_mod_converse(t, width, y, x);
}

/// A texel inside the image lies inside the packed buffer.
pub proof fn lemma_texel_in_bounds(width: int, height: int, x: int, y: int)
    requires
        0 <= x < width,
        0 <= y < height,
    ensures
        0 <= y * width + x < width * height,
        0 <= texel_start(width, x, y),
        texel_start(width, x, y) + 4 <= width * height * 4,
{
    assert(0 <= y * width + x < width * height) by (nonlinear_arith)
        requires
            0 <= x < width,
            0 <= y < height,
    ;
}

/// Every byte of a packed buffer belongs to a texel inside the image.
pub proof fn lemma_byte_coordinates(width: int, height: int, i: int)
    requires
        width > 0,
        height > 0,
        0 <= i < width * height * 4,
    ensures
        0 <= column_of(width, i) < width,
        0 <= row_of(width, i) < height,
        0 <= i % 4 < 4,
        i == texel_start(width, column_of(width, i), row_of(width, i)) + i % 4,
{
    let t = i / 4;
    vstd::arithmetic::div_mod::lemma_fundamental_div_mod(i, 4);
    vstd::arithmetic::div_mod::lemma_fundamental_div_mod(t, width);
    assert(0 <= t < width * height) by (nonlinear_arith)
        requires
            0 <= i < width * height * 4,
            i == 4 * t + i % 4,
            0 <= i % 4 < 4,
    ;
    assert(i == ((t / width) * width + t % width) * 4 + i % 4) by (nonlinear_arith)
        requires
            i == 4 * t + i % 4,
            t == width * (t / width) + t % width,
    ;
    assert(0 <= t / width < height) by (nonlinear_arith)
        requires
            0 <= t < width * height,
            width > 0,
            t == width * (t / width) + t % width,
            0 <= t % width < width,
    ;
}


/// A geometric transform that moves whole texels.
#[derive(Clone, Copy)]
pub(crate) enum Remap {
    FlipHorizontal,
    FlipVertical,
    Rotate90,
    Rotate270,
}

/// The buffer that `op` makes of the `width` x `height` image `p`.
pub(crate) open spec fn remapped(op: Remap, width: int, height: int, p: Seq<u8>) -> Seq<u8> {
    match op {
        Remap::FlipHorizontal => flipped_horizontal(width, p),
        Remap::FlipVertical => flipped_vertical(width, height, p),
        Remap::Rotate90 => rotated90(width, height, p),
        Remap::Rotate270 => rotated270(width, height, p),
    }
}

/// Applies `op` to the `width` x `height` RGBA8 image at the start of
/// `pixels`, returning a buffer of the same length whose bytes past the image
/// are zero.
pub(crate) fn remap_rgba8(op: Remap, width: u32, height: u32, pixels: &Vec<u8>) -> (out: Vec<u8>)
    requires
        width * height * 4 <= pixels@.len(),
        op is FlipHorizontal || op is FlipVertical ==> width * height * 4 == pixels@.len(),
    ensures
        out@ == remapped(op, width as int, height as int, pixels@),
{
    let len: usize = pixels.len();
    let w: usize = width as usize;
    let h: usize = height as usize;
    let rotates: bool = match op {
        Remap::Rotate90 | Remap::Rotate270 => true,
        _ => false,
    };
    let dw: usize = if rotates { h } else { w };
    let dh: usize = if rotates { w } else { h };
    let ghost target = remapped(op, width as int, height as int, pixels@);
    assert(dw * dh == w * h) by (nonlinear_arith)
        requires
            (dw == h && dh == w) || (dw == w && dh == h),
    ;
    let mut out: Vec<u8> = Vec::new();
    let mut y: usize = 0;
    while y < dh
        invariant
            w * h * 4 <= len,
            w == width,
            h == height,
            rotates == (op is Rotate90 || op is Rotate270),
            dw == (if rotates { h } else { w }),
            dh == (if rotates { w } else { h }),
            dw * dh == w * h,
            pixels@.len() == len,
            target.len() == len,
            target == remapped(op, width as int, height as int, pixels@),
            y <= dh,
            out@.len() == y * dw * 4,
            forall|j: int| 0 <= j < out@.len() ==> out@[j] == target[j],
        decreases dh - y,
    {
        let mut x: usize = 0;
        while x < dw
            invariant
                w * h * 4 <= len,
                w == width,
                h == height,
                rotates == (op is Rotate90 || op is Rotate270),
                dw == (if rotates { h } else { w }),
                dh == (if rotates { w } else { h }),
                dw * dh == w * h,
                pixels@.len() == len,
                target.len() == len,
                target == remapped(op, width as int, height as int, pixels@),
                y < dh,
                x <= dw,
                out@.len() == texel_start(dw as int, x as int, y as int),
                forall|j: int| 0 <= j < out@.len() ==> out@[j] == target[j],
            decreases dw - x,
        {
            let (sx, sy): (usize, usize) = match op {
                Remap::FlipHorizontal => (w - 1 - x, y),
                Remap::FlipVertical => (x, h - 1 - y),
                Remap::Rotate90 => (y, h - 1 - x),
                Remap::Rotate270 => (w - 1 - y, x),
            };
            proof {
                lemma_texel_in_bounds(w as int, h as int, sx as int, sy as int);
                lemma_texel_in_bounds(dw as int, dh as int, x as int, y as int);
            }
            let s: usize = (sy * w + sx) * 4;
            let ghost before = out@;
            out.push(pixels[s]);
            out.push(pixels[s + 1]);
            out.push(pixels[s + 2]);
            out.push(pixels[s + 3]);
            proof {
                assert forall|j: int| 0 <= j < out@.len() implies out@[j] == target[j] by {
                    if j >= before.len() {
                        let c = j - before.len();
                        lemma_texel_decompose(dw as int, x as int, y as int, c);
                        assert(j == texel_start(dw as int, x as int, y as int) + c);
                        assert(j < w * h * 4);
                    }
                }
                assert(out@.len() == texel_start(dw as int, x as int + 1, y as int)) by (nonlinear_arith)
                    requires
                        out@.len() == texel_start(dw as int, x as int, y as int) + 4,
                ;
            }
            x = x + 1;
        }
        assert(out@.len() == (y + 1) * dw * 4) by (nonlinear_arith)
            requires
                out@.len() == texel_start(dw as int, dw as int, y as int),
        ;
        y = y + 1;
    }
    assert(out@.len() == w * h * 4) by (nonlinear_arith)
        requires
            out@.len() == dh * dw * 4,
            dw * dh == w * h,
    ;
    let mut i: usize = out.len();
    while i < len
        invariant
            i == out@.len(),
            w * h * 4 <= i <= len,
            pixels@.len() == len,
            target.len() == len,
            target == remapped(op, width as int, height as int, pixels@),
            rotates == (op is Rotate90 || op is Rotate270),
            op is FlipHorizontal || op is FlipVertical ==> w * h * 4 == len,
            w == width,
            h == height,
            forall|j: int| 0 <= j < out@.len() ==> out@[j] == target[j],
        decreases len - i,
    {
        assert(target[i as int] == 0);
        out.push(0);
        i = i + 1;
    }
    assert(out@ =~= target);
    out
}

/// Byte offset of texel (`x`, `y`) in a packed RGBA8 buffer of the given width.
pub(crate) fn pixel_index(width: u32, height: u32, x: u32, y: u32) -> (start: usize)
    requires
        x < width,
        y < height,
        texel_start(width as int, x as int, y as int) + 4 <= usize::MAX,
    ensures
        start == texel_start(width as int, x as int, y as int),
{
    proof {
        lemma_texel_in_bounds(width as int, height as int, x as int, y as int);
        assert(0 <= y * width <= y * width + x) by (nonlinear_arith)
            requires
                0 <= x,
                0 <= y,
                0 < width,
        ;
    }
    (y as usize * width as usize + x as usize) * 4
}

/// Mirrors a packed image left-to-right.
pub(crate) fn flip_horizontal_in_place(width: u32, height: u32, pixels: &mut Vec<u8>)
    requires
        width > 0,
        old(pixels)@.len() == width * height * 4,
    ensures
        final(pixels)@ == flipped_horizontal(width as int, old(pixels)@),
{
    let flipped: Vec<u8> = remap_rgba8(Remap::FlipHorizontal, width, height, pixels);
    *pixels = flipped;
}

/// Mirrors a packed image top-to-bottom.
pub(crate) fn flip_vertical_in_place(width: u32, height: u32, pixels: &mut Vec<u8>)
    requires
        old(pixels)@.len() == width * height * 4,
    ensures
        final(pixels)@ == flipped_vertical(width as int, height as int, old(pixels)@),
{
    let flipped: Vec<u8> = remap_rgba8(Remap::FlipVertical, width, height, pixels);
    *pixels = flipped;
}

/// 90 degrees clockwise: destination (`x`, `y`) samples source
/// (`y`, `source_height - 1 - x`) and the dimensions swap.
pub(crate) fn rotate90_cw_in_place(width: &mut u32, height: &mut u32, pixels: &mut Vec<u8>)
    requires
        *old(width) * *old(height) * 4 <= old(pixels)@.len(),
    ensures
        *final(width) == *old(height),
        *final(height) == *old(width),
        final(pixels)@ == rotated90(*old(width) as int, *old(height) as int, old(pixels)@),
{
    let rotated: Vec<u8> = remap_rgba8(Remap::Rotate90, *width, *height, pixels);
    *pixels = rotated;
    core::mem::swap(width, height);
}

/// 270 degrees clockwise: destination (`x`, `y`) samples source
/// (`source_width - 1 - y`, `x`) and the dimensions swap.
pub(crate) fn rotate270_cw_in_place(width: &mut u32, height: &mut u32, pixels: &mut Vec<u8>)
    requires
        *old(width) * *old(height) * 4 <= old(pixels)@.len(),
    ensures
        *final(width) == *old(height),
        *final(height) == *old(width),
        final(pixels)@ == rotated270(*old(width) as int, *old(height) as int, old(pixels)@),
{
    let rotated: Vec<u8> = remap_rgba8(Remap::Rotate270, *width, *height, pixels);
    *pixels = rotated;
    core::mem::swap(width, height);
}

/// Splits a byte offset inside texel `t` into the texel and its channel.
proof fn lemma_channel_of(t: int, c: int)
    requires
        0 <= c < 4,
    ensures
        (t * 4 + c) / 4 == t,
        (t * 4 + c) % 4 == c,
{
    vstd::arithmetic::div_mod::lemma_fundamental_div_mod_converse(t * 4 + c, 4, t, c);
}

/// Reverses the order of the complete texels of `pixels`, leaving any trailing
/// partial texel in place: a 180 degree rotation of a packed image.
pub(crate) fn rotate180_in_place(pixels: &mut Vec<u8>)
    ensures
        final(pixels)@ == reversed_texels(old(pixels)@),
{
    let len: usize = pixels.len();
    let texels: usize = len / 4;
    let ghost p = pixels@;
    let ghost target = reversed_texels(p);
    let mut out: Vec<u8> = Vec::new();
    let mut t: usize = 0;
    while t < texels
        invariant
            p == pixels@,
            len == p.len(),
            texels == len / 4,
            target == reversed_texels(p),
            t <= texels,
            out@.len() == t * 4,
            forall|j: int| 0 <= j < out@.len() ==> out@[j] == target[j],
        decreases texels - t,
    {
        let s: usize = (texels - 1 - t) * 4;
        let ghost before = out@;
        out.push(pixels[s]);
        out.push(pixels[s + 1]);
        out.push(pixels[s + 2]);
        out.push(pixels[s + 3]);
        proof {
            assert forall|j: int| 0 <= j < out@.len() implies out@[j] == target[j] by {
                if j >= before.len() {
                    lemma_channel_of(t as int, j - t * 4);
                }
            }
        }
        t = t + 1;
    }
    let mut i: usize = texels * 4;
    while i < len
        invariant
            p == pixels@,
            len == p.len(),
            texels == len / 4,
            target == reversed_texels(p),
            texels * 4 <= i <= len,
            out@.len() == i,
            forall|j: int| 0 <= j < out@.len() ==> out@[j] == target[j],
        decreases len - i,
    {
        out.push(pixels[i]);
        i = i + 1;
    }
    assert(out@ =~= target);
    *pixels = out;
}

/// Replaces the RGB channels of every complete texel by its luma, keeping alpha.
pub(crate) fn grayscale_in_place(pixels: &mut Vec<u8>)
    ensures
        final(pixels)@ == grayscaled(old(pixels)@),
{
    let len: usize = pixels.len();
    let texels: usize = len / 4;
    let ghost p = pixels@;
    let ghost target = grayscaled(p);
    let mut t: usize = 0;
    while t < texels
        invariant
            len == p.len(),
            len == pixels@.len(),
            texels == len / 4,
            target == grayscaled(p),
            t <= texels,
            forall|j: int| 0 <= j < t * 4 ==> pixels@[j] == target[j],
            forall|j: int| t * 4 <= j < len ==> pixels@[j] == p[j],
        decreases texels - t,
    {
        let s: usize = t * 4;
        let r: u32 = pixels[s] as u32;
        let g: u32 = pixels[s + 1] as u32;
        let b: u32 = pixels[s + 2] as u32;
        let value: u8 = ((2126 * r + 7152 * g + 722 * b + 5000) / 10000) as u8;
        pixels[s] = value;
        pixels[s + 1] = value;
        pixels[s + 2] = value;
        proof {
            assert forall|j: int| 0 <= j < (t + 1) * 4 implies pixels@[j] == target[j] by {
                if j >= t * 4 {
                    lemma_channel_of(t as int, j - t * 4);
                }
            }
        }
        t = t + 1;
    }
    assert(pixels@ =~= target);
}

/// Replaces every RGB channel of every complete texel by `255 - value`, keeping alpha.
pub(crate) fn invert_rgb_in_place(pixels: &mut Vec<u8>)
    ensures
        final(pixels)@ == inverted_rgb(old(pixels)@),
{
    let len: usize = pixels.len();
    let texels: usize = len / 4;
    let ghost p = pixels@;
    let ghost target = inverted_rgb(p);
    let mut t: usize = 0;
    while t < texels
        invariant
            len == p.len(),
            len == pixels@.len(),
            texels == len / 4,
            target == inverted_rgb(p),
            t <= texels,
            forall|j: int| 0 <= j < t * 4 ==> pixels@[j] == target[j],
            forall|j: int| t * 4 <= j < len ==> pixels@[j] == p[j],
        decreases texels - t,
    {
        let s: usize = t * 4;
        pixels[s] = 255 - pixels[s];
        pixels[s + 1] = 255 - pixels[s + 1];
        pixels[s + 2] = 255 - pixels[s + 2];
        proof {
            assert forall|j: int| 0 <= j < (t + 1) * 4 implies pixels@[j] == target[j] by {
                if j >= t * 4 {
                    lemma_channel_of(t as int, j - t * 4);
                }
            }
        }
        t = t + 1;
    }
    assert(pixels@ =~= target);
}


/// Mirroring left-to-right twice gives back the original image.
pub proof fn law_flip_horizontal_involutive(width: int, height: int, p: Seq<u8>)
    requires
        is_packed_rgba8(width, height, p.len() as int),
    ensures
        flipped_horizontal(width, flipped_horizontal(width, p)) == p,
{
    let q = flipped_horizontal(width, p);
    assert forall|i: int| 0 <= i < p.len() implies flipped_horizontal(width, q)[i] == p[i] by {
        lemma_byte_coordinates(width, height, i);
        let (x, y, c) = (column_of(width, i), row_of(width, i), i % 4);
        lemma_texel_in_bounds(width, height, width - 1 - x, y);
        lemma_texel_decompose(width, width - 1 - x, y, c);
    }
    assert(flipped_horizontal(width, q) =~= p);
}

/// Mirroring top-to-bottom twice gives back the original image.
pub proof fn law_flip_vertical_involutive(width: int, height: int, p: Seq<u8>)
    requires
        is_packed_rgba8(width, height, p.len() as int),
    ensures
        flipped_vertical(width, height, flipped_vertical(width, height, p)) == p,
{
    let q = flipped_vertical(width, height, p);
    assert forall|i: int| 0 <= i < p.len() implies flipped_vertical(width, height, q)[i] == p[i] by {
        lemma_byte_coordinates(width, height, i);
        let (x, y, c) = (column_of(width, i), row_of(width, i), i % 4);
        lemma_texel_in_bounds(width, height, x, height - 1 - y);
        lemma_texel_decompose(width, x, height - 1 - y, c);
    }
    assert(flipped_vertical(width, height, q) =~= p);
}

/// A clockwise quarter turn followed by a counter-clockwise one gives back the
/// original image (the first result is `height` texels wide).
pub proof fn law_rotate90_then_rotate270(width: int, height: int, p: Seq<u8>)
    requires
        is_packed_rgba8(width, height, p.len() as int),
    ensures
        rotated270(height, width, rotated90(width, height, p)) == p,
{
    let q = rotated90(width, height, p);
    assert forall|i: int| 0 <= i < p.len() implies rotated270(height, width, q)[i] == p[i] by {
        lemma_byte_coordinates(width, height, i);
        let (x, y, c) = (column_of(width, i), row_of(width, i), i % 4);
        lemma_texel_in_bounds(height, width, height - 1 - y, x);
        lemma_texel_decompose(height, height - 1 - y, x, c);
    }
    assert(rotated270(height, width, q) =~= p);
}

/// A counter-clockwise quarter turn followed by a clockwise one gives back the
/// original image (the first result is `height` texels wide).
pub proof fn law_rotate270_then_rotate90(width: int, height: int, p: Seq<u8>)
    requires
        is_packed_rgba8(width, height, p.len() as int),
    ensures
        rotated90(height, width, rotated270(width, height, p)) == p,
{
    let q = rotated270(width, height, p);
    assert forall|i: int| 0 <= i < p.len() implies rotated90(height, width, q)[i] == p[i] by {
        lemma_byte_coordinates(width, height, i);
        let (x, y, c) = (column_of(width, i), row_of(width, i), i % 4);
        lemma_texel_in_bounds(height, width, y, width - 1 - x);
        lemma_texel_decompose(height, y, width - 1 - x, c);
    }
    assert(rotated90(height, width, q) =~= p);
}

/// Two clockwise quarter turns make a half turn.
pub proof fn law_rotate90_twice_is_rotate180(width: int, height: int, p: Seq<u8>)
    requires
        is_packed_rgba8(width, height, p.len() as int),
    ensures
        rotated90(height, width, rotated90(width, height, p)) == reversed_texels(p),
{
    let q = rotated90(width, height, p);
    let texels = p.len() / 4;
    assert(texels == width * height) by {
        vstd::arithmetic::div_mod::lemma_fundamental_div_mod_converse(p.len() as int, 4, width * height, 0);
    }
    assert forall|i: int| 0 <= i < p.len() implies rotated90(height, width, q)[i] == reversed_texels(p)[i] by {
        lemma_byte_coordinates(width, height, i);
        let (x, y, c) = (column_of(width, i), row_of(width, i), i % 4);
        lemma_texel_in_bounds(height, width, y, width - 1 - x);
        lemma_texel_decompose(height, y, width - 1 - x, c);
        lemma_texel_decompose(width, x, y, c);
        assert(texels - 1 - i / 4 == (height - 1 - y) * width + (width - 1 - x)) by (nonlinear_arith)
            requires
                texels == width * height,
                i / 4 == y * width + x,
        ;
    }
    assert(rotated90(height, width, q) =~= reversed_texels(p));
}

/// Reversing the texel order twice gives back the original buffer.
pub proof fn law_reverse_texels_involutive(p: Seq<u8>)
    ensures
        reversed_texels(reversed_texels(p)) == p,
{
    let q = reversed_texels(p);
    let texels = p.len() / 4;
    assert forall|i: int| 0 <= i < p.len() implies reversed_texels(q)[i] == p[i] by {
        if i < texels * 4 {
            let t = i / 4;
            let c = i % 4;
            vstd::arithmetic::div_mod::lemma_fundamental_div_mod(i, 4);
            lemma_channel_of(texels - 1 - t, c);
        }
    }
    assert(reversed_texels(q) =~= p);
}

/// Four clockwise quarter turns give back the original image.
pub proof fn law_rotate90_four_times(width: int, height: int, p: Seq<u8>)
    requires
        is_packed_rgba8(width, height, p.len() as int),
    ensures
        rotated90(height, width, rotated90(width, height,
            rotated90(height, width, rotated90(width, height, p)))) == p,
{
    law_rotate90_twice_is_rotate180(width, height, p);
    let half = reversed_texels(p);
    law_rotate90_twice_is_rotate180(width, height, half);
    law_reverse_texels_involutive(p);
}

/// Mirroring left-to-right and then top-to-bottom is a half turn.
pub proof fn law_flips_compose_to_rotate180(width: int, height: int, p: Seq<u8>)
    requires
        is_packed_rgba8(width, height, p.len() as int),
    ensures
        flipped_vertical(width, height, flipped_horizontal(width, p)) == reversed_texels(p),
{
    let q = flipped_horizontal(width, p);
    let texels = p.len() / 4;
    assert(texels == width * height) by {
        vstd::arithmetic::div_mod::lemma_fundamental_div_mod_converse(p.len() as int, 4, width * height, 0);
    }
    assert forall|i: int| 0 <= i < p.len() implies flipped_vertical(width, height, q)[i] == reversed_texels(p)[i] by {
        lemma_byte_coordinates(width, height, i);
        let (x, y, c) = (column_of(width, i), row_of(width, i), i % 4);
        lemma_texel_in_bounds(width, height, x, height - 1 - y);
        lemma_texel_decompose(width, x, height - 1 - y, c);
        lemma_texel_decompose(width, x, y, c);
        assert(texels - 1 - i / 4 == (height - 1 - y) * width + (width - 1 - x)) by (nonlinear_arith)
            requires
                texels == width * height,
                i / 4 == y * width + x,
        ;
    }
    assert(flipped_vertical(width, height, q) =~= reversed_texels(p));
}

/// Inverting the RGB channels twice gives back the original buffer.
pub proof fn law_invert_rgb_involutive(p: Seq<u8>)
    ensures
        inverted_rgb(inverted_rgb(p)) == p,
{
    assert(inverted_rgb(inverted_rgb(p)) =~= p);
}

/// Converting to grayscale a second time changes nothing: the luma of a gray
/// texel is its own value.
pub proof fn law_grayscale_idempotent(p: Seq<u8>)
    ensures
        grayscaled(grayscaled(p)) == grayscaled(p),
{
    let q = grayscaled(p);
    assert forall|i: int| 0 <= i < p.len() implies grayscaled(q)[i] == q[i] by {
        if i < (p.len() / 4) * 4 && i % 4 < 3 {
            let s = i - i % 4;
            vstd::arithmetic::div_mod::lemma_fundamental_div_mod(i, 4);
            lemma_channel_of(i / 4, 0);
            lemma_channel_of(i / 4, 1);
            lemma_channel_of(i / 4, 2);
            let l = q[s];
            assert(luma(l, l, l) == l);
        }
    }
    assert(grayscaled(q) =~= q);
}


/// Reading a texel after writing it gives the written value; every other
/// texel keeps its value.
pub proof fn law_texel_read_after_write(
    p: Seq<u8>,
    width: int,
    height: int,
    x: int,
    y: int,
    value: Seq<u8>,
    x2: int,
    y2: int,
)
    requires
        is_packed_rgba8(width, height, p.len() as int),
        0 <= x < width,
        0 <= y < height,
        0 <= x2 < width,
        0 <= y2 < height,
        value.len() == 4,
    ensures
        texel(with_texel(p, texel_start(width, x, y), value), width, x2, y2) == (if x2 == x && y2 == y {
            value
        } else {
            texel(p, width, x2, y2)
        }),
{
    lemma_texel_in_bounds(width, height, x, y);
    lemma_texel_in_bounds(width, height, x2, y2);
    lemma_texel_decompose(width, x, y, 0);
    lemma_texel_decompose(width, x2, y2, 0);
    let q = with_texel(p, texel_start(width, x, y), value);
    if x2 == x && y2 == y {
        assert(texel(q, width, x2, y2) =~= value);
    } else {
        assert(y * width + x != y2 * width + x2);
        assert(texel(q, width, x2, y2) =~= texel(p, width, x2, y2));
    }
}

} // verus!
