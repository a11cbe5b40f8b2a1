//! CPU-side preparation of texture data for upload: packed surface maps,
//! sRGB re-encoding, buffer alignment and the unpadding of read-back rows.
use vstd::prelude::*;
use crate::material::Texture;
use crate::raster::{column_of, row_of, texel_start, lemma_texel_in_bounds, lemma_texel_decompose};
use crate::srgb::{srgb_encoded, linear_to_srgb_byte};

verus! {

/// The source row (or column) sampled for destination row (or column) `i`
/// when `source` rows are resampled to `target` by nearest neighbour.
pub open spec fn nearest(i: int, source: int, target: int) -> int {
    i * source / target
}

/// Channel `c` of destination texel (`x`, `y`) of the packed surface map:
/// the normal map's red and green, then the metallic-roughness map's blue
/// (metallic) and green (roughness), each sampled by nearest neighbour.
pub open spec fn surface_channel(normal: Texture, metallic_roughness: Texture, width: int, height: int, x: int, y: int, c: int) -> u8 {
    let n = texel_start(normal.width as int, nearest(x, normal.width as int, width), nearest(y, normal.height as int, height));
    let m = texel_start(
        metallic_roughness.width as int,
        nearest(x, metallic_roughness.width as int, width),
        nearest(y, metallic_roughness.height as int, height),
    );
    if c == 0 {
        normal.pixels@[n]
    } else if c == 1 {
        normal.pixels@[n + 1]
    } else if c == 2 {
        metallic_roughness.pixels@[m + 2]
    } else {
        metallic_roughness.pixels@[m + 1]
    }
}

/// The `width` x `height` packed surface map of a normal map and a
/// metallic-roughness map.
pub open spec fn packed_surface(normal: Texture, metallic_roughness: Texture, width: int, height: int) -> Seq<u8> {
    Seq::new(
        (width * height * 4) as nat,
        |i: int| surface_channel(normal, metallic_roughness, width, height, column_of(width, i), row_of(width, i), i % 4),
    )
}

/// Texel (`x`, `y`) of a packed `width` x `height` surface map takes the
/// normal map's red and green from normal texel
/// (`x * nw / width`, `y * nh / height`), and the metallic-roughness map's
/// blue and green from its texel (`x * mw / width`, `y * mh / height`): the
/// sources are scaled to the target, so a source of the target's own size is
/// read texel for texel, and the map is neither mirrored nor shifted.
pub proof fn law_surface_texels_sample_the_scaled_position(
    normal: Texture,
    metallic_roughness: Texture,
    width: int,
    height: int,
    x: int,
    y: int,
)
    requires
        0 <= x < width,
        0 <= y < height,
    ensures
        ({
            let packed = packed_surface(normal, metallic_roughness, width, height);
            let at = (y * width + x) * 4;
            let nw = normal.width as int;
            let nh = normal.height as int;
            let mw = metallic_roughness.width as int;
            let mh = metallic_roughness.height as int;
            let n = ((y * nh / height) * nw + x * nw / width) * 4;
            let m = ((y * mh / height) * mw + x * mw / width) * 4;
            &&& packed.len() == width * height * 4
            &&& packed[at] == normal.pixels@[n]
            &&& packed[at + 1] == normal.pixels@[n + 1]
            &&& packed[at + 2] == metallic_roughness.pixels@[m + 2]
            &&& packed[at + 3] == metallic_roughness.pixels@[m + 1]
            &&& (nw == width && nh == height ==> n == at)
            &&& (mw == width && mh == height ==> m == at)
        }),
{
    lemma_texel_in_bounds(width, height, x, y);
    lemma_texel_decompose(width, x, y, 0);
    lemma_texel_decompose(width, x, y, 1);
    lemma_texel_decompose(width, x, y, 2);
    lemma_texel_decompose(width, x, y, 3);
    assert(width * height * 4 >= 0) by (nonlinear_arith)
        requires
            width > 0,
            height > 0,
    ;
    if normal.width as int == width && normal.height as int == height {
        vstd::arithmetic::div_mod::lemma_div_multiples_vanish(x, width);
        vstd::arithmetic::div_mod::lemma_div_multiples_vanish(y, height);
        assert(x * width / width == x && y * height / height == y) by (nonlinear_arith)
            requires
                width > 0,
                height > 0,
                x * width / width == x,
                y * height / height == y,
        ;
    }
    if metallic_roughness.width as int == width && metallic_roughness.height as int == height {
        vstd::arithmetic::div_mod::lemma_div_multiples_vanish(x, width);
        vstd::arithmetic::div_mod::lemma_div_multiples_vanish(y, height);
    }
}

/// Nearest-neighbour resampling stays inside the source.
pub proof fn lemma_nearest(i: int, source: int, target: int)
    requires
        0 <= i < target,
        source > 0,
    ensures
        0 <= nearest(i, source, target) < source,
{
    let a = i * source;
    vstd::arithmetic::div_mod::lemma_fundamental_div_mod(a, target);
    let q = a / target;
    assert(0 <= q < source) by (nonlinear_arith)
        requires
            a == i * source,
            0 <= i < target,
            source > 0,
            a == target * q + a % target,
            0 <= a % target < target,
    ;
}

/// The source index sampled for destination index `i`.
fn nearest_index(i: u32, source: u32, target: u32) -> (index: u32)
    requires
        i < target,
        source > 0,
    ensures
        index == nearest(i as int, source as int, target as int),
        index < source,
{
    proof {
        lemma_nearest(i as int, source as int, target as int);
        assert(i * source <= u64::MAX) by (nonlinear_arith)
            requires
                i < target,
                target <= u32::MAX,
                source <= u32::MAX,
        ;
    }
    (i as u64 * source as u64 / target as u64) as u32
}

/// Packs the normal map's XY and the metallic-roughness map's metallic and
/// roughness channels into one `width` x `height` RGBA8 surface map,
/// resampling both by nearest neighbour.
pub fn pack_surface_pixels(normal: &Texture, metallic_roughness: &Texture, width: u32, height: u32) -> (pixels: Vec<u8>)
    requires
        normal.width > 0,
        normal.height > 0,
        normal.width * normal.height * 4 <= normal.pixels@.len(),
        metallic_roughness.width > 0,
        metallic_roughness.height > 0,
        metallic_roughness.width * metallic_roughness.height * 4 <= metallic_roughness.pixels@.len(),
        width * height * 4 <= usize::MAX,
    ensures
        pixels@ == packed_surface(*normal, *metallic_roughness, width as int, height as int),
{
    let normal_len: usize = normal.pixels.len();
    let surface_len: usize = metallic_roughness.pixels.len();
    let ghost target = packed_surface(*normal, *metallic_roughness, width as int, height as int);
    let mut out: Vec<u8> = Vec::new();
    let mut y: u32 = 0;
    while y < height
        invariant
            normal.width > 0,
            normal.height > 0,
            normal.width * normal.height * 4 <= normal_len,
            metallic_roughness.width > 0,
            metallic_roughness.height > 0,
            metallic_roughness.width * metallic_roughness.height * 4 <= surface_len,
            normal_len == normal.pixels@.len(),
            surface_len == metallic_roughness.pixels@.len(),
            width * height * 4 <= usize::MAX,
            target == packed_surface(*normal, *metallic_roughness, width as int, height as int),
            target.len() == width * height * 4,
            y <= height,
            out@.len() == y * width * 4,
            forall|j: int| 0 <= j < out@.len() ==> out@[j] == target[j],
        decreases height - y,
    {
        let normal_y: u32 = nearest_index(y, normal.height, height);
        let surface_y: u32 = nearest_index(y, metallic_roughness.height, height);
        let mut x: u32 = 0;
        while x < width
            invariant
                normal.width > 0,
                normal.height > 0,
                normal.width * normal.height * 4 <= normal_len,
                metallic_roughness.width > 0,
                metallic_roughness.height > 0,
                metallic_roughness.width * metallic_roughness.height * 4 <= surface_len,
                normal_len == normal.pixels@.len(),
                surface_len == metallic_roughness.pixels@.len(),
                width * height * 4 <= usize::MAX,
                target == packed_surface(*normal, *metallic_roughness, width as int, height as int),
                target.len() == width * height * 4,
                y < height,
                normal_y == nearest(y as int, normal.height as int, height as int),
                surface_y == nearest(y as int, metallic_roughness.height as int, height as int),
                normal_y < normal.height,
                surface_y < metallic_roughness.height,
                x <= width,
                out@.len() == texel_start(width as int, x as int, y as int),
                forall|j: int| 0 <= j < out@.len() ==> out@[j] == target[j],
            decreases width - x,
        {
            let normal_x: u32 = nearest_index(x, normal.width, width);
            let surface_x: u32 = nearest_index(x, metallic_roughness.width, width);
            proof {
                lemma_texel_in_bounds(normal.width as int, normal.height as int, normal_x as int, normal_y as int);
                lemma_texel_in_bounds(
                    metallic_roughness.width as int,
                    metallic_roughness.height as int,
                    surface_x as int,
                    surface_y as int,
                );
                lemma_texel_in_bounds(width as int, height as int, x as int, y as int);
                assert(0 <= normal_y * normal.width <= normal_y * normal.width + normal_x) by (nonlinear_arith)
                    requires
                        0 <= normal_x,
                        0 <= normal_y,
                        0 < normal.width,
                ;
                assert(0 <= surface_y * metallic_roughness.width <= surface_y * metallic_roughness.width + surface_x)
                    by (nonlinear_arith)
                    requires
                        0 <= surface_x,
                        0 <= surface_y,
                        0 < metallic_roughness.width,
                ;
            }
            let n: usize = (normal_y as usize * normal.width as usize + normal_x as usize) * 4;
            let m: usize = (surface_y as usize * metallic_roughness.width as usize + surface_x as usize) * 4;
            let ghost before = out@;
            out.push(normal.pixels[n]);
            out.push(normal.pixels[n + 1]);
            out.push(metallic_roughness.pixels[m + 2]);
            out.push(metallic_roughness.pixels[m + 1]);
            proof {
                assert forall|j: int| 0 <= j < out@.len() implies out@[j] == target[j] by {
                    if j >= before.len() {
                        let c = j - before.len();
                        lemma_texel_decompose(width as int, x as int, y as int, c);
                        assert(j == texel_start(width as int, x as int, y as int) + c);
                    }
                }
                assert(out@.len() == texel_start(width as int, x as int + 1, y as int)) by (nonlinear_arith)
                    requires
                        out@.len() == texel_start(width as int, x as int, y as int) + 4,
                ;
            }
            x = x + 1;
        }
        assert(out@.len() == (y + 1) * width * 4) by (nonlinear_arith)
            requires
                out@.len() == texel_start(width as int, width as int, y as int),
        ;
        y = y + 1;
    }
    assert(out@.len() == target.len()) by (nonlinear_arith)
        requires
            out@.len() == height * width * 4,
            target.len() == width * height * 4,
    ;
    assert(out@ =~= target);
    out
}

/// Every complete texel's RGB channels encoded from linear bytes to sRGB;
/// alpha and any trailing partial texel are kept.
pub open spec fn srgb_encoded_rgb(p: Seq<u8>) -> Seq<u8> {
    Seq::new(
        p.len(),
        |i: int| if i < (p.len() / 4) * 4 && i % 4 < 3 { srgb_encoded(p[i] * 257) } else { p[i] },
    )
}

/// Copies RGBA8 pixels, encoding the RGB channels of every texel from linear
/// to sRGB and keeping alpha.
pub fn encode_srgb_rgb(pixels: &[u8]) -> (encoded: Vec<u8>)
    ensures
        encoded@ == srgb_encoded_rgb(pixels@),
{
    let len: usize = pixels.len();
    let texels: usize = len / 4;
    let ghost target = srgb_encoded_rgb(pixels@);
    let mut out: Vec<u8> = Vec::new();
    let mut i: usize = 0;
    while i < len
        invariant
            len == pixels@.len(),
            texels == len / 4,
            target == srgb_encoded_rgb(pixels@),
            i <= len,
            out@.len() == i,
            forall|j: int| 0 <= j < out@.len() ==> out@[j] == target[j],
        decreases len - i,
    {
        let value: u8 = pixels[i];
        if i < texels * 4 && i % 4 < 3 {
            out.push(linear_to_srgb_byte(value));
        } else {
            out.push(value);
        }
        i = i + 1;
    }
    assert(out@ =~= target);
    out
}

/// The smallest multiple of `alignment` that is at least `value`.
pub open spec fn aligned_up(value: int, alignment: int) -> int {
    (value + alignment - 1) / alignment * alignment
}

/// Rounds `value` up to the next multiple of `alignment`.
pub fn align_to(value: u64, alignment: u64) -> (aligned: u64)
    requires
        alignment > 0,
        aligned_up(value as int, alignment as int) <= u64::MAX,
    ensures
        aligned == aligned_up(value as int, alignment as int),
        aligned % alignment == 0,
        value <= aligned < value + alignment,
{
    let quotient: u64 = value / alignment;
    let remainder: u64 = value % alignment;
    proof {
        let a = alignment as int;
        let v = value as int;
        vstd::arithmetic::div_mod::lemma_fundamental_div_mod(v, a);
        let q = v / a;
        let r = v % a;
        if r == 0 {
            assert(v + a - 1 == q * a + (a - 1)) by (nonlinear_arith)
                requires
                    v == a * q + r,
                    r == 0,
            ;
            vstd::arithmetic::div_mod::lemma_fundamental_div_mod_converse(v + a - 1, a, q, a - 1);
        } else {
            assert(v + a - 1 == (q + 1) * a + (r - 1)) by (nonlinear_arith)
                requires
                    v == a * q + r,
            ;
            vstd::arithmetic::div_mod::lemma_fundamental_div_mod_converse(v + a - 1, a, q + 1, r - 1);
            assert(q + 1 <= (q + 1) * a) by (nonlinear_arith)
                requires
                    q >= 0,
                    a >= 1,
            ;
        }
    }
    let rounded: u64 = if remainder == 0 { quotient } else { quotient + 1 };
    proof {
        let a = alignment as int;
        let v = value as int;
        vstd::arithmetic::div_mod::lemma_fundamental_div_mod_converse(rounded * a, a, rounded as int, 0);
        assert(v <= rounded * a < v + a) by (nonlinear_arith)
            requires
                v == a * quotient + remainder,
                0 <= remainder < a,
                rounded == (if remainder == 0 { quotient as int } else { quotient + 1 }),
        ;
    }
    rounded * alignment
}


/// The `k`-th pixel of rows of `width` RGBA8 pixels laid out every `padded`
/// bytes: its four bytes at its column within its row.
pub open spec fn unpadded_pixel(mapped: Seq<u8>, padded: int, width: int, k: int) -> Seq<u8> {
    let start = (k / width) * padded + (k % width) * 4;
    mapped.subrange(start, start + 4)
}

/// Reads the pixels of every whole row of a read-back buffer whose rows are
/// `padded_bytes_per_row` bytes apart and `width` RGBA8 pixels wide, dropping
/// the padding at the end of each row and any incomplete last row.
pub fn unpadded_pixels(mapped: &[u8], padded_bytes_per_row: usize, width: u32) -> (pixels: Vec<[u8; 4]>)
    requires
        padded_bytes_per_row > 0,
        width * 4 <= padded_bytes_per_row,
    ensures
        pixels@.len() == ((mapped@.len() as int) / (padded_bytes_per_row as int)) * width,
        forall|k: int| 0 <= k < pixels@.len()
            ==> (#[trigger] pixels@[k])@ == unpadded_pixel(mapped@, padded_bytes_per_row as int, width as int, k),
{
    let padded = padded_bytes_per_row;
    let length: usize = mapped.len();
    let rows: usize = length / padded;
    let ghost w = width as int;
    let ghost p = padded as int;
    proof {
        vstd::arithmetic::div_mod::lemma_fundamental_div_mod(mapped@.len() as int, p);
        assert(rows * p <= mapped@.len()) by (nonlinear_arith)
            requires
                mapped@.len() == p * ((mapped@.len() as int) / p) + (mapped@.len() as int) % p,
                rows == (mapped@.len() as int) / p,
                (mapped@.len() as int) % p >= 0,
        ;
    }
    let mut pixels: Vec<[u8; 4]> = Vec::new();
    let mut row: usize = 0;
    while row < rows
        invariant
            p == padded, w == width, p > 0, w * 4 <= p,
            rows * p <= mapped@.len(),
            mapped@.len() <= usize::MAX,
            rows == (mapped@.len() as int) / p,
            row <= rows,
            pixels@.len() == row * w,
            forall|k: int| 0 <= k < pixels@.len() ==> (#[trigger] pixels@[k])@ == unpadded_pixel(mapped@, p, w, k),
        decreases rows - row,
    {
        proof {
            assert((row + 1) * p <= rows * p) by (nonlinear_arith)
                requires
                    row + 1 <= rows,
                    p > 0,
            ;
            assert((row + 1) * p == row * p + p) by (nonlinear_arith);
        }
        let base: usize = row * padded;
        let mut col: u32 = 0;
        while col < width
            invariant
                p == padded, w == width, p > 0, w * 4 <= p,
                (row + 1) * p <= mapped@.len(),
                mapped@.len() <= usize::MAX,
                base == row * p,
                row < rows,
                col <= width,
                pixels@.len() == row * w + col,
                forall|k: int| 0 <= k < pixels@.len() ==> (#[trigger] pixels@[k])@ == unpadded_pixel(mapped@, p, w, k),
            decreases width - col,
        {
            proof {
                assert((row + 1) * p == row * p + p) by (nonlinear_arith);
                assert(base + col * 4 + 4 <= mapped@.len());
            }
            let start: usize = base + (col as usize) * 4;
            let pixel: [u8; 4] = [mapped[start], mapped[start + 1], mapped[start + 2], mapped[start + 3]];
            proof {
                let k = row * w + col;
                vstd::arithmetic::div_mod::lemma_fundamental_div_mod_converse(k, w, row as int, col as int);
                assert(pixel@ =~= unpadded_pixel(mapped@, p, w, k));
            }
            pixels.push(pixel);
            col = col + 1;
        }
        proof {
            assert(row * w + w == (row + 1) * w) by (nonlinear_arith);
        }
        row = row + 1;
    }
    pixels
}

} // verus!
