//! Mip-chain generation: box-filter downsampling of RGBA8 buffers.
use vstd::prelude::*;
use crate::material::{TextureColorSpace, Image, Texture};
use crate::raster::{column_of, row_of, texel_start, is_packed_rgba8, lemma_texel_in_bounds, lemma_texel_decompose, lemma_byte_coordinates};
use crate::srgb::{srgb_linear, srgb_encoded, linear_level, srgb_to_linear, linear_to_srgb, law_srgb_round_trip, LINEAR_ONE};

verus! {

/// Whether channel `c` of a texture in `color_space` is averaged in linear light.
pub open spec fn averages_in_linear_light(color_space: TextureColorSpace, c: int) -> bool {
    color_space == TextureColorSpace::Srgb && c < 3
}

/// The value that a source byte of channel `c` adds to a box-filter sum: its
/// linear intensity (in units of `1 / LINEAR_ONE`) for the RGB channels of an
/// sRGB texture, the byte itself otherwise.
pub open spec fn sample_value(color_space: TextureColorSpace, c: int, v: u8) -> int {
    if averages_in_linear_light(color_space, c) { srgb_linear(v) } else { v as int }
}

/// The largest value that [`sample_value`] takes for channel `c`.
pub open spec fn sample_max(color_space: TextureColorSpace, c: int) -> int {
    if averages_in_linear_light(color_space, c) { LINEAR_ONE as int } else { 255 }
}

/// First source row (or column) covered by destination row (or column) `i`
/// when `source` rows shrink to `target`.
pub open spec fn span_start(i: int, source: int, target: int) -> int {
    i * source / target
}

/// One past the last source row (or column) covered by destination row (or
/// column) `i`: the ceiling of `(i + 1) * source / target`, at most `source`.
pub open spec fn span_end(i: int, source: int, target: int) -> int {
    let end = ((i + 1) * source + target - 1) / target;
    if end < source { end } else { source }
}

/// Sum of channel `c` over source columns `x0..x1` of row `y`.
pub open spec fn row_sum(
    src: Seq<u8>,
    sw: int,
    y: int,
    x0: int,
    x1: int,
    c: int,
    color_space: TextureColorSpace,
) -> int
    decreases x1 - x0,
{
    if x1 <= x0 {
        0
    } else {
        row_sum(src, sw, y, x0, x1 - 1, c, color_space) + sample_value(
            color_space,
            c,
            src[texel_start(sw, x1 - 1, y) + c],
        )
    }
}

/// Sum of channel `c` over source columns `x0..x1` of rows `y0..y1`.
pub open spec fn region_sum(
    src: Seq<u8>,
    sw: int,
    x0: int,
    x1: int,
    y0: int,
    y1: int,
    c: int,
    color_space: TextureColorSpace,
) -> int
    decreases y1 - y0,
{
    if y1 <= y0 {
        0
    } else {
        region_sum(src, sw, x0, x1, y0, y1 - 1, c, color_space) + row_sum(
            src,
            sw,
            y1 - 1,
            x0,
            x1,
            c,
            color_space,
        )
    }
}

/// The byte that averages `count` samples adding up to `sum`: encoded back
/// to sRGB for the RGB channels of an sRGB texture, rounded half up otherwise.
/// The mean is exact, so near a rounding boundary it can differ by one from a
/// mean summed in single precision.
pub open spec fn average_byte(color_space: TextureColorSpace, c: int, sum: int, count: int) -> u8 {
    if averages_in_linear_light(color_space, c) {
        srgb_encoded(linear_level(sum, count))
    } else {
        ((2 * sum + count) / (2 * count)) as u8
    }
}

/// Channel `c` of destination texel (`x`, `y`) when a `sw` x `sh` image is box
/// filtered to `w` x `h`: the average over the source texels it covers.
pub open spec fn downsampled_channel(
    src: Seq<u8>,
    sw: int,
    sh: int,
    w: int,
    h: int,
    x: int,
    y: int,
    c: int,
    color_space: TextureColorSpace,
) -> u8 {
    let x0 = span_start(x, sw, w);
    let x1 = span_end(x, sw, w);
    let y0 = span_start(y, sh, h);
    let y1 = span_end(y, sh, h);
    average_byte(color_space, c, region_sum(src, sw, x0, x1, y0, y1, c, color_space), (x1 - x0) * (y1 - y0))
}

/// The `w` x `h` box-filtered version of the `sw` x `sh` image `src`.
pub open spec fn downsampled(
    src: Seq<u8>,
    sw: int,
    sh: int,
    w: int,
    h: int,
    color_space: TextureColorSpace,
) -> Seq<u8> {
    Seq::new(
        (w * h * 4) as nat,
        |i: int| downsampled_channel(src, sw, sh, w, h, column_of(w, i), row_of(w, i), i % 4, color_space),
    )
}

/// Destination row (or column) `i` of `target` averages its own share of the
/// `source` rows: its span starts at the floor of `i * source / target` and
/// ends no later than the ceiling of `(i + 1) * source / target` (and no
/// later than the source), but no earlier than that ceiling unless the
/// source ends first.
pub proof fn law_span_is_the_destination_share(i: int, source: int, target: int)
    requires
        0 <= i < target,
        source > 0,
    ensures
        span_start(i, source, target) * target <= i * source,
        i * source < (span_start(i, source, target) + 1) * target,
        span_end(i, source, target) <= source,
        (span_end(i, source, target) - 1) * target < (i + 1) * source,
        span_end(i, source, target) == source || (i + 1) * source <= span_end(i, source, target) * target,
{
    let a = i * source;
    let b = (i + 1) * source + target - 1;
    vstd::arithmetic::div_mod::lemma_fundamental_div_mod(a, target);
    vstd::arithmetic::div_mod::lemma_fundamental_div_mod(b, target);
    let qa = a / target;
    let qb = b / target;
    assert(qa * target <= a < (qa + 1) * target) by (nonlinear_arith)
        requires
            a == target * qa + a % target,
            0 <= a % target < target,
    ;
    assert((qb - 1) * target < (i + 1) * source && (i + 1) * source <= qb * target) by (nonlinear_arith)
        requires
            b == (i + 1) * source + target - 1,
            b == target * qb + b % target,
            0 <= b % target < target,
    ;
    let end = span_end(i, source, target);
    if end < qb {
        assert((end - 1) * target < (qb - 1) * target) by (nonlinear_arith)
            requires
                end < qb,
                target > 0,
        ;
    }
}

/// The spans of consecutive destination rows tile the source: the first
/// starts at the first source row, the last ends at the last, and each
/// starts where the one before it ends or one row before that.
pub proof fn law_spans_tile_the_source(i: int, source: int, target: int)
    requires
        0 <= i < target,
        source > 0,
    ensures
        span_start(0, source, target) == 0,
        span_end(target - 1, source, target) == source,
        i + 1 < target ==> span_start(i + 1, source, target) <= span_end(i, source, target)
            <= span_start(i + 1, source, target) + 1,
{
    law_span_is_the_destination_share(i, source, target);
    law_span_is_the_destination_share(target - 1, source, target);
    let last = (target * source + target - 1) / target;
    vstd::arithmetic::div_mod::lemma_fundamental_div_mod(target * source + target - 1, target);
    assert(last >= source) by (nonlinear_arith)
        requires
            target * source + target - 1 == target * last + (target * source + target - 1) % target,
            0 <= (target * source + target - 1) % target < target,
            target > 0,
    ;
    assert(((target - 1) + 1) * source + target - 1 == target * source + target - 1) by (nonlinear_arith);
    if i + 1 < target {
        law_span_is_the_destination_share(i + 1, source, target);
        lemma_span(i + 1, source, target);
        let s1 = span_start(i + 1, source, target);
        let e = span_end(i, source, target);
        assert(s1 <= e && e <= s1 + 1) by (nonlinear_arith)
            requires
                s1 * target <= (i + 1) * source,
                (i + 1) * source < (s1 + 1) * target,
                (e - 1) * target < (i + 1) * source,
                e == source || (i + 1) * source <= e * target,
                s1 < source,
                target > 0,
        ;
    }
}

/// A destination row covers a non-empty run of source rows inside the source.
pub proof fn lemma_span(i: int, source: int, target: int)
    requires
        0 <= i < target,
        source > 0,
    ensures
        0 <= span_start(i, source, target) < span_end(i, source, target) <= source,
{
    let a = i * source;
    let b = (i + 1) * source + target - 1;
    assert(0 <= a) by (nonlinear_arith)
        requires
            a == i * source,
            0 <= i,
            source > 0,
    ;
    vstd::arithmetic::div_mod::lemma_fundamental_div_mod(a, target);
    vstd::arithmetic::div_mod::lemma_fundamental_div_mod(b, target);
    let qa = a / target;
    let qb = b / target;
    assert(0 <= qa < qb && qa < source) by (nonlinear_arith)
        requires
            a == i * source,
            b == (i + 1) * source + target - 1,
            0 <= i < target,
            source > 0,
            a == target * qa + a % target,
            0 <= a % target < target,
            b == target * qb + b % target,
            0 <= b % target < target,
    ;
}

proof fn lemma_sample_bounds(color_space: TextureColorSpace, c: int, v: u8)
    ensures
        0 <= sample_value(color_space, c, v) <= sample_max(color_space, c),
{
    assert(0 <= srgb_linear(v) <= LINEAR_ONE);
}

/// The value that source byte `v` adds to the box-filter sum of channel `c`.
fn sample_at(color_space: TextureColorSpace, c: usize, v: u8) -> (value: u128)
    requires
        c < 4,
    ensures
        value == sample_value(color_space, c as int, v),
        value <= sample_max(color_space, c as int),
{
    proof {
        lemma_sample_bounds(color_space, c as int, v);
    }
    match color_space {
        TextureColorSpace::Srgb => {
            if c < 3 {
                srgb_to_linear(v) as u128
            } else {
                v as u128
            }
        },
        TextureColorSpace::Linear => v as u128,
    }
}

/// One step of a running sum bound: `n` samples of at most `m` plus one more.
proof fn lemma_bound_step(n: int, m: int)
    ensures
        n * m + m == (n + 1) * m,
{
    assert(n * m + m == (n + 1) * m) by (nonlinear_arith);
}

/// The four channel sums over source columns `x0..x1` of rows `y0..y1`.
fn region_sums(
    src: &Vec<u8>,
    sw: usize,
    sh: usize,
    x0: usize,
    x1: usize,
    y0: usize,
    y1: usize,
    color_space: TextureColorSpace,
) -> (sums: (u128, u128, u128, u128))
    requires
        is_packed_rgba8(sw as int, sh as int, src@.len() as int),
        x0 < x1 <= sw,
        y0 < y1 <= sh,
    ensures
        sums.0 == region_sum(src@, sw as int, x0 as int, x1 as int, y0 as int, y1 as int, 0, color_space),
        sums.1 == region_sum(src@, sw as int, x0 as int, x1 as int, y0 as int, y1 as int, 1, color_space),
        sums.2 == region_sum(src@, sw as int, x0 as int, x1 as int, y0 as int, y1 as int, 2, color_space),
        sums.3 == region_sum(src@, sw as int, x0 as int, x1 as int, y0 as int, y1 as int, 3, color_space),
        sums.0 <= (y1 - y0) * ((x1 - x0) * sample_max(color_space, 0)),
        sums.1 <= (y1 - y0) * ((x1 - x0) * sample_max(color_space, 1)),
        sums.2 <= (y1 - y0) * ((x1 - x0) * sample_max(color_space, 2)),
        sums.3 <= (y1 - y0) * ((x1 - x0) * sample_max(color_space, 3)),
{
    let len: usize = src.len();
    let ghost p = src@;
    let ghost sw_i = sw as int;
    let ghost w_i = (x1 - x0) as int;
    let ghost m0 = sample_max(color_space, 0);
    let ghost m1 = sample_max(color_space, 1);
    let ghost m2 = sample_max(color_space, 2);
    let ghost m3 = sample_max(color_space, 3);
    assert(sw * sh * LINEAR_ONE < 0x1_0000_0000_0000_0000_0000_0000_0000_0000) by (nonlinear_arith)
        requires
            sw * sh * 4 == len,
            len <= usize::MAX,
            usize::MAX < 0x1_0000_0000_0000_0000,
            LINEAR_ONE == 2147483648,
    ;
    let mut s0: u128 = 0;
    let mut s1: u128 = 0;
    let mut s2: u128 = 0;
    let mut s3: u128 = 0;
    let mut y: usize = y0;
    while y < y1
        invariant
            p == src@,
            len == p.len(),
            is_packed_rgba8(sw as int, sh as int, len as int),
            sw * sh * LINEAR_ONE < 0x1_0000_0000_0000_0000_0000_0000_0000_0000,
            x0 < x1 <= sw,
            y0 <= y <= y1 <= sh,
            sw_i == sw,
            w_i == x1 - x0,
            m0 == sample_max(color_space, 0),
            m1 == sample_max(color_space, 1),
            m2 == sample_max(color_space, 2),
            m3 == sample_max(color_space, 3),
            s0 == region_sum(p, sw_i, x0 as int, x1 as int, y0 as int, y as int, 0, color_space),
            s1 == region_sum(p, sw_i, x0 as int, x1 as int, y0 as int, y as int, 1, color_space),
            s2 == region_sum(p, sw_i, x0 as int, x1 as int, y0 as int, y as int, 2, color_space),
            s3 == region_sum(p, sw_i, x0 as int, x1 as int, y0 as int, y as int, 3, color_space),
            s0 <= (y - y0) * (w_i * m0),
            s1 <= (y - y0) * (w_i * m1),
            s2 <= (y - y0) * (w_i * m2),
            s3 <= (y - y0) * (w_i * m3),
        decreases y1 - y,
    {
        let ghost r0 = s0;
        let ghost r1 = s1;
        let ghost r2 = s2;
        let ghost r3 = s3;
        let mut x: usize = x0;
        while x < x1
            invariant
                p == src@,
                len == p.len(),
                is_packed_rgba8(sw as int, sh as int, len as int),
                sw * sh * LINEAR_ONE < 0x1_0000_0000_0000_0000_0000_0000_0000_0000,
                x0 <= x <= x1 <= sw,
                y0 <= y < y1 <= sh,
                sw_i == sw,
                w_i == x1 - x0,
                m0 == sample_max(color_space, 0),
                m1 == sample_max(color_space, 1),
                m2 == sample_max(color_space, 2),
                m3 == sample_max(color_space, 3),
                r0 <= (y - y0) * (w_i * m0),
                r1 <= (y - y0) * (w_i * m1),
                r2 <= (y - y0) * (w_i * m2),
                r3 <= (y - y0) * (w_i * m3),
                s0 == r0 + row_sum(p, sw_i, y as int, x0 as int, x as int, 0, color_space),
                s1 == r1 + row_sum(p, sw_i, y as int, x0 as int, x as int, 1, color_space),
                s2 == r2 + row_sum(p, sw_i, y as int, x0 as int, x as int, 2, color_space),
                s3 == r3 + row_sum(p, sw_i, y as int, x0 as int, x as int, 3, color_space),
                s0 <= r0 + (x - x0) * m0,
                s1 <= r1 + (x - x0) * m1,
                s2 <= r2 + (x - x0) * m2,
                s3 <= r3 + (x - x0) * m3,
            decreases x1 - x,
        {
            proof {
                lemma_texel_in_bounds(sw as int, sh as int, x as int, y as int);
                lemma_bound_step((x - x0) as int, m0);
                lemma_bound_step((x - x0) as int, m1);
                lemma_bound_step((x - x0) as int, m2);
                lemma_bound_step((x - x0) as int, m3);
                assert((y - y0) * (w_i * m0) + (x + 1 - x0) * m0 <= sw * sh * LINEAR_ONE
                    && (y - y0) * (w_i * m1) + (x + 1 - x0) * m1 <= sw * sh * LINEAR_ONE
                    && (y - y0) * (w_i * m2) + (x + 1 - x0) * m2 <= sw * sh * LINEAR_ONE
                    && (y - y0) * (w_i * m3) + (x + 1 - x0) * m3 <= sw * sh * LINEAR_ONE) by (nonlinear_arith)
                    requires
                        y0 <= y < y1 <= sh,
                        x0 <= x < x1 <= sw,
                        w_i == x1 - x0,
                        0 <= m0 <= LINEAR_ONE,
                        0 <= m1 <= LINEAR_ONE,
                        0 <= m2 <= LINEAR_ONE,
                        0 <= m3 <= LINEAR_ONE,
                ;
            }
            let i: usize = (y * sw + x) * 4;
            s0 = s0 + sample_at(color_space, 0, src[i]);
            s1 = s1 + sample_at(color_space, 1, src[i + 1]);
            s2 = s2 + sample_at(color_space, 2, src[i + 2]);
            s3 = s3 + sample_at(color_space, 3, src[i + 3]);
            x = x + 1;
        }
        proof {
            lemma_bound_step((y - y0) as int, w_i * m0);
            lemma_bound_step((y - y0) as int, w_i * m1);
            lemma_bound_step((y - y0) as int, w_i * m2);
            lemma_bound_step((y - y0) as int, w_i * m3);
        }
        y = y + 1;
    }
    (s0, s1, s2, s3)
}


/// The average byte of `count` samples of channel `c` adding up to `sum`.
fn average_at(color_space: TextureColorSpace, c: usize, sum: u128, count: u128) -> (byte: u8)
    requires
        c < 4,
        0 < count,
        count * LINEAR_ONE < 0x1_0000_0000_0000_0000_0000_0000,
        sum <= count * sample_max(color_space, c as int),
    ensures
        byte == average_byte(color_space, c as int, sum as int, count as int),
{
    let linear_light: bool = match color_space {
        TextureColorSpace::Srgb => c < 3,
        TextureColorSpace::Linear => false,
    };
    if linear_light {
        let one: u128 = LINEAR_ONE as u128;
        let numerator: u128 = 2 * sum * 65535 + count * one;
        let denominator: u128 = 2 * count * one;
        let level: u128 = numerator / denominator;
        proof {
            vstd::arithmetic::div_mod::lemma_fundamental_div_mod(numerator as int, denominator as int);
            assert(level <= 65535) by (nonlinear_arith)
                requires
                    numerator == 2 * sum * 65535 + count * one,
                    denominator == 2 * count * one,
                    sum <= count * one,
                    count > 0,
                    one > 0,
                    numerator == denominator * level + numerator % denominator,
                    0 <= numerator % denominator,
            ;
        }
        linear_to_srgb(level as u32)
    } else {
        let numerator: u128 = 2 * sum + count;
        let denominator: u128 = 2 * count;
        let value: u128 = numerator / denominator;
        proof {
            vstd::arithmetic::div_mod::lemma_fundamental_div_mod(numerator as int, denominator as int);
            assert(value <= 255) by (nonlinear_arith)
                requires
                    numerator == 2 * sum + count,
                    denominator == 2 * count,
                    sum <= count * 255,
                    count > 0,
                    numerator == denominator * value + numerator % denominator,
                    0 <= numerator % denominator,
            ;
        }
        value as u8
    }
}

proof fn lemma_scaled_area(rows: int, columns: int, m: int)
    ensures
        rows * (columns * m) == (columns * rows) * m,
{
    assert(rows * (columns * m) == (columns * rows) * m) by (nonlinear_arith);
}

/// The source span `start..end` covered by destination row (or column) `i`.
fn span(i: u32, source: u32, target: u32) -> (range: (usize, usize))
    requires
        i < target,
        source > 0,
    ensures
        range.0 == span_start(i as int, source as int, target as int),
        range.1 == span_end(i as int, source as int, target as int),
        0 <= range.0 < range.1 <= source,
{
    proof {
        lemma_span(i as int, source as int, target as int);
        assert((i + 1) * source + target - 1 <= u64::MAX && (i + 1) * source <= u64::MAX) by (nonlinear_arith)
            requires
                i < target,
                target <= u32::MAX,
                source <= u32::MAX,
        ;
        assert(i * source <= u64::MAX) by (nonlinear_arith)
            requires
                i < target,
                target <= u32::MAX,
                source <= u32::MAX,
        ;
    }
    let start: u64 = i as u64 * source as u64 / target as u64;
    let covered: u64 = (i as u64 + 1) * source as u64;
    let end: u64 = (covered + (target as u64 - 1)) / target as u64;
    let end: u64 = if end < source as u64 { end } else { source as u64 };
    (start as usize, end as usize)
}

/// Box-filters the packed `source_width` x `source_height` RGBA8 image down to
/// `width` x `height`: every destination channel is the average of the source
/// texels that its span covers, taken in linear light for the RGB channels of
/// an sRGB texture.
pub fn downsample_rgba8(
    source_width: u32,
    source_height: u32,
    width: u32,
    height: u32,
    source: &Vec<u8>,
    color_space: TextureColorSpace,
) -> (pixels: Vec<u8>)
    requires
        is_packed_rgba8(source_width as int, source_height as int, source@.len() as int),
        width > 0,
        height > 0,
        width * height * 4 <= usize::MAX,
    ensures
        pixels@ == downsampled(source@, source_width as int, source_height as int, width as int, height as int, color_space),
{
    let len: usize = source.len();
    let ghost target = downsampled(source@, source_width as int, source_height as int, width as int, height as int, color_space);
    let sw: usize = source_width as usize;
    let sh: usize = source_height as usize;
    let mut out: Vec<u8> = Vec::new();
    let mut y: u32 = 0;
    while y < height
        invariant
            len == source@.len(),
            is_packed_rgba8(source_width as int, source_height as int, len as int),
            sw == source_width,
            sh == source_height,
            width > 0,
            height > 0,
            width * height * 4 <= usize::MAX,
            target == downsampled(source@, source_width as int, source_height as int, width as int, height as int, color_space),
            target.len() == width * height * 4,
            y <= height,
            out@.len() == y * width * 4,
            forall|j: int| 0 <= j < out@.len() ==> out@[j] == target[j],
        decreases height - y,
    {
        let (y0, y1): (usize, usize) = span(y, source_height, height);
        let mut x: u32 = 0;
        while x < width
            invariant
                len == source@.len(),
                is_packed_rgba8(source_width as int, source_height as int, len as int),
                sw == source_width,
                sh == source_height,
                width > 0,
                height > 0,
                width * height * 4 <= usize::MAX,
                target == downsampled(source@, source_width as int, source_height as int, width as int, height as int, color_space),
                target.len() == width * height * 4,
                y < height,
                y0 == span_start(y as int, source_height as int, height as int),
                y1 == span_end(y as int, source_height as int, height as int),
                0 <= y0 < y1 <= sh,
                x <= width,
                out@.len() == texel_start(width as int, x as int, y as int),
                forall|j: int| 0 <= j < out@.len() ==> out@[j] == target[j],
            decreases width - x,
        {
            let (x0, x1): (usize, usize) = span(x, source_width, width);
            let (s0, s1, s2, s3): (u128, u128, u128, u128) = region_sums(source, sw, sh, x0, x1, y0, y1, color_space);
            proof {
                assert((x1 - x0) * (y1 - y0) * LINEAR_ONE < 0x1_0000_0000_0000_0000_0000_0000) by (nonlinear_arith)
                    requires
                        0 <= x0 < x1 <= sw,
                        0 <= y0 < y1 <= sh,
                        sw * sh * 4 == len,
                        len <= usize::MAX,
                        usize::MAX < 0x1_0000_0000_0000_0000,
                        LINEAR_ONE == 2147483648,
                ;
                assert((y1 - y0) * (x1 - x0) == (x1 - x0) * (y1 - y0)) by (nonlinear_arith);
                assert((x1 - x0) * (y1 - y0) <= sw * sh) by (nonlinear_arith)
                    requires
                        0 <= x0 < x1 <= sw,
                        0 <= y0 < y1 <= sh,
                ;
                assert(0 < (x1 - x0) * (y1 - y0)) by (nonlinear_arith)
                    requires
                        x0 < x1,
                        y0 < y1,
                ;
                let count = (x1 - x0) * (y1 - y0);
                lemma_scaled_area(y1 - y0, x1 - x0, sample_max(color_space, 0));
                lemma_scaled_area(y1 - y0, x1 - x0, sample_max(color_space, 1));
                lemma_scaled_area(y1 - y0, x1 - x0, sample_max(color_space, 2));
                lemma_scaled_area(y1 - y0, x1 - x0, sample_max(color_space, 3));
            }
            let count: u128 = ((x1 - x0) * (y1 - y0)) as u128;
            let ghost before = out@;
            out.push(average_at(color_space, 0, s0, count));
            out.push(average_at(color_space, 1, s1, count));
            out.push(average_at(color_space, 2, s2, count));
            out.push(average_at(color_space, 3, s3, count));
            proof {
                lemma_texel_in_bounds(width as int, height as int, x as int, y as int);
                assert forall|j: int| 0 <= j < out@.len() implies out@[j] == target[j] by {
                    if j >= before.len() {
                        let c = j - before.len();
                        lemma_texel_decompose(width as int, x as int, y as int, c);
                        assert(j == texel_start(width as int, x as int, y as int) + c);
                    }
                }
                assert(out@.len() == texel_start(width as int, x as int + 1, y as int)) by (nonlinear_arith)
                    requires
                        out@.len() == texel_start(width as int, x as int, y as int) + 4,
                ;
            }
            x = x + 1;
        }
        assert(out@.len() == (y + 1) * width * 4) by (nonlinear_arith)
            requires
                out@.len() == texel_start(width as int, width as int, y as int),
        ;
        y = y + 1;
    }
    assert(out@.len() == target.len()) by (nonlinear_arith)
        requires
            out@.len() == height * width * 4,
            target.len() == width * height * 4,
    ;
    assert(out@ =~= target);
    out
}


/// Number of binary digits of `n`: the number of halvings that take it to zero.
pub open spec fn bit_length(n: nat) -> nat
    decreases n,
{
    if n == 0 {
        0
    } else {
        1 + bit_length(n / 2)
    }
}

/// The larger of two dimensions.
pub open spec fn larger(a: int, b: int) -> int {
    if a >= b { a } else { b }
}

/// Number of levels in the mip chain of a `width` x `height` texture: one
/// more than the integer base-2 logarithm of the larger dimension, and zero
/// when that dimension is zero.
pub open spec fn mip_count(width: int, height: int) -> nat {
    bit_length(larger(width, height) as nat)
}

/// The dimension of the next mip level: half, rounded down, but at least one.
pub open spec fn next_mip_extent(extent: int) -> int {
    if extent / 2 > 1 { extent / 2 } else { 1 }
}

/// Whether `levels` is the complete mip chain of `texture`: level zero is the
/// texture itself, each further level halves the previous one (never below
/// one texel) by box filtering, and there are [`mip_count`] levels.
pub open spec fn is_mip_chain(levels: Seq<Image>, texture: Texture) -> bool {
    &&& levels.len() == mip_count(texture.width as int, texture.height as int)
    &&& levels.len() >= 1
    &&& levels[0].width == texture.width
    &&& levels[0].height == texture.height
    &&& levels[0].pixels@ == texture.pixels@
    &&& forall|k: int|
        1 <= k < levels.len() ==> {
            &&& (#[trigger] levels[k]).width == next_mip_extent(levels[k - 1].width as int)
            &&& levels[k].height == next_mip_extent(levels[k - 1].height as int)
            &&& levels[k].pixels@ == downsampled(
                levels[k - 1].pixels@,
                levels[k - 1].width as int,
                levels[k - 1].height as int,
                levels[k].width as int,
                levels[k].height as int,
                texture.color_space,
            )
        }
}

/// Halving both dimensions removes one binary digit from the larger one.
pub proof fn lemma_mip_step(width: int, height: int)
    requires
        width >= 1,
        height >= 1,
        width > 1 || height > 1,
    ensures
        larger(next_mip_extent(width), next_mip_extent(height)) == larger(width, height) / 2,
        bit_length(larger(next_mip_extent(width), next_mip_extent(height)) as nat) + 1 == bit_length(
            larger(width, height) as nat,
        ),
        1 <= next_mip_extent(width) <= width,
        1 <= next_mip_extent(height) <= height,
        next_mip_extent(width) + next_mip_extent(height) < width + height,
{
    if width >= height {
        vstd::arithmetic::div_mod::lemma_div_is_ordered(height, width, 2);
    } else {
        vstd::arithmetic::div_mod::lemma_div_is_ordered(width, height, 2);
    }
}

/// Counts the levels of the mip chain of a `width` x `height` texture.
pub(crate) fn mip_level_count_of(width: u32, height: u32) -> (count: u32)
    ensures
        count == mip_count(width as int, height as int),
{
    let mut remaining: u32 = if width >= height { width } else { height };
    let mut count: u32 = 0;
    while remaining > 0
        invariant
            count + bit_length(remaining as nat) == mip_count(width as int, height as int),
            count + remaining <= 0xffff_ffff,
        decreases remaining,
    {
        remaining = remaining / 2;
        count = count + 1;
    }
    count
}


proof fn lemma_chain_level(levels: Seq<Image>, texture: Texture, k: int)
    requires
        texture.is_valid(),
        is_mip_chain(levels, texture),
        0 <= k < levels.len(),
    ensures
        levels[k].is_valid(),
        bit_length(larger(levels[k].width as int, levels[k].height as int) as nat) == levels.len() - k,
    decreases k,
{
    if k > 0 {
        lemma_chain_level(levels, texture, k - 1);
        let (w, h) = (levels[k - 1].width as int, levels[k - 1].height as int);
        assert(larger(w, h) >= 2) by {
            if larger(w, h) <= 1 {
                assert(bit_length(0) == 0);
                assert(bit_length(1) == 1);
            }
        }
        lemma_mip_step(w, h);
        let next = levels[k];
        assert(next.pixels@.len() == next.width * next.height * 4);
    }
}

/// Every level of a mip chain is a valid image, and the chain ends at a
/// single texel.
pub proof fn law_mip_chain_ends_at_one_texel(levels: Seq<Image>, texture: Texture)
    requires
        texture.is_valid(),
        is_mip_chain(levels, texture),
    ensures
        forall|k: int| 0 <= k < levels.len() ==> (#[trigger] levels[k]).is_valid(),
        levels[levels.len() - 1].width == 1,
        levels[levels.len() - 1].height == 1,
{
    assert forall|k: int| 0 <= k < levels.len() implies (#[trigger] levels[k]).is_valid() by {
        lemma_chain_level(levels, texture, k);
    }
    let last = levels.len() - 1;
    lemma_chain_level(levels, texture, last);
    let m = larger(levels[last].width as int, levels[last].height as int);
    assert(m == 1) by {
        if m >= 2 {
            assert(bit_length((m / 2) as nat) >= 1);
        }
    }
}


/// Whether every texel of `p` is the four bytes `v`.
pub open spec fn is_uniform(p: Seq<u8>, v: Seq<u8>) -> bool {
    &&& v.len() == 4
    &&& forall|i: int| 0 <= i < p.len() ==> #[trigger] p[i] == v[i % 4]
}

proof fn lemma_uniform_row_sum(
    src: Seq<u8>,
    v: Seq<u8>,
    sw: int,
    sh: int,
    y: int,
    x0: int,
    x1: int,
    c: int,
    color_space: TextureColorSpace,
)
    requires
        is_packed_rgba8(sw, sh, src.len() as int),
        is_uniform(src, v),
        0 <= y < sh,
        0 <= x0 <= x1 <= sw,
        0 <= c < 4,
    ensures
        row_sum(src, sw, y, x0, x1, c, color_space) == (x1 - x0) * sample_value(color_space, c, v[c]),
    decreases x1 - x0,
{
    if x1 > x0 {
        lemma_uniform_row_sum(src, v, sw, sh, y, x0, x1 - 1, c, color_space);
        lemma_texel_in_bounds(sw, sh, x1 - 1, y);
        lemma_texel_decompose(sw, x1 - 1, y, c);
        let i = texel_start(sw, x1 - 1, y) + c;
        assert(src[i] == v[i % 4]);
        lemma_bound_step(x1 - 1 - x0, sample_value(color_space, c, v[c]));
    } else {
        assert((x1 - x0) * sample_value(color_space, c, v[c]) == 0) by (nonlinear_arith)
            requires
                x1 == x0,
        ;
    }
}

proof fn lemma_uniform_region_sum(
    src: Seq<u8>,
    v: Seq<u8>,
    sw: int,
    sh: int,
    x0: int,
    x1: int,
    y0: int,
    y1: int,
    c: int,
    color_space: TextureColorSpace,
)
    requires
        is_packed_rgba8(sw, sh, src.len() as int),
        is_uniform(src, v),
        0 <= x0 <= x1 <= sw,
        0 <= y0 <= y1 <= sh,
        0 <= c < 4,
    ensures
        region_sum(src, sw, x0, x1, y0, y1, c, color_space) == (y1 - y0) * ((x1 - x0) * sample_value(
            color_space,
            c,
            v[c],
        )),
    decreases y1 - y0,
{
    if y1 > y0 {
        lemma_uniform_region_sum(src, v, sw, sh, x0, x1, y0, y1 - 1, c, color_space);
        lemma_uniform_row_sum(src, v, sw, sh, y1 - 1, x0, x1, c, color_space);
        lemma_bound_step(y1 - 1 - y0, (x1 - x0) * sample_value(color_space, c, v[c]));
    } else {
        assert((y1 - y0) * ((x1 - x0) * sample_value(color_space, c, v[c])) == 0) by (nonlinear_arith)
            requires
                y1 == y0,
        ;
    }
}

/// The average of `count` equal samples of byte `b` is `b` again.
proof fn lemma_average_of_equal_samples(color_space: TextureColorSpace, c: int, b: u8, count: int)
    requires
        count > 0,
    ensures
        average_byte(color_space, c, count * sample_value(color_space, c, b), count) == b,
{
    if averages_in_linear_light(color_space, c) {
        let d = srgb_linear(b);
        let one = LINEAR_ONE as int;
        let q = (2 * d * 65535 + one) / (2 * one);
        let r = (2 * d * 65535 + one) % (2 * one);
        vstd::arithmetic::div_mod::lemma_fundamental_div_mod(2 * d * 65535 + one, 2 * one);
        assert(2 * (count * d) * 65535 + count * one == q * (2 * count * one) + r * count
            && 0 <= r * count < 2 * count * one) by (nonlinear_arith)
            requires
                2 * d * 65535 + one == (2 * one) * q + r,
                0 <= r < 2 * one,
                count > 0,
                one > 0,
        ;
        vstd::arithmetic::div_mod::lemma_fundamental_div_mod_converse(
            2 * (count * d) * 65535 + count * one,
            2 * count * one,
            q,
            r * count,
        );
        law_srgb_round_trip(b);
    } else {
        assert(2 * (count * b) + count == b * (2 * count) + count) by (nonlinear_arith);
        vstd::arithmetic::div_mod::lemma_fundamental_div_mod_converse(2 * (count * b) + count, 2 * count, b as int, count);
    }
}

/// Alpha, and every channel of a linear texture, is averaged as plain
/// bytes: the averaged byte `v` is the mean of the samples rounded to the
/// nearest whole value, halves up (`v - 1/2 <= sum / count < v + 1/2`).
/// Only the RGB channels of an sRGB texture are averaged in linear light.
pub proof fn law_plain_channels_round_to_the_nearest_mean(
    color_space: TextureColorSpace,
    c: int,
    sum: int,
    count: int,
)
    requires
        0 <= c < 4,
        count > 0,
        0 <= sum <= 255 * count,
    ensures
        averages_in_linear_light(color_space, c) <==> (color_space == TextureColorSpace::Srgb && c != 3),
        !averages_in_linear_light(color_space, c) ==> {
            let v = average_byte(color_space, c, sum, count) as int;
            &&& 2 * v * count - count <= 2 * sum
            &&& 2 * sum < 2 * v * count + count
        },
{
    let n = 2 * sum + count;
    let d = 2 * count;
    vstd::arithmetic::div_mod::lemma_fundamental_div_mod(n, d);
    let q = n / d;
    assert(0 <= q <= 255 && 2 * q * count - count <= 2 * sum && 2 * sum < 2 * q * count + count) by (nonlinear_arith)
        requires
            n == 2 * sum + count,
            d == 2 * count,
            n == d * q + n % d,
            0 <= n % d < d,
            count > 0,
            0 <= sum <= 255 * count,
    ;
}

/// Whether source texel (`sx`, `sy`) of a `sw` x `sh` image lies in the share
/// of destination texel (`x`, `y`) of a `w` x `h` downsampling: the column
/// from the floor of `x * sw / w` to below the ceiling of `(x + 1) * sw / w`,
/// and likewise for the row.
pub open spec fn in_share(sw: int, sh: int, w: int, h: int, x: int, y: int, sx: int, sy: int) -> bool {
    &&& 0 <= sx < sw
    &&& 0 <= sy < sh
    &&& x * sw < (sx + 1) * w
    &&& sx * w < (x + 1) * sw
    &&& y * sh < (sy + 1) * h
    &&& sy * h < (y + 1) * sh
}

proof fn lemma_equal_row_sum(
    src: Seq<u8>,
    sw: int,
    sh: int,
    y: int,
    x0: int,
    x1: int,
    c: int,
    b: u8,
    color_space: TextureColorSpace,
)
    requires
        is_packed_rgba8(sw, sh, src.len() as int),
        0 <= y < sh,
        0 <= x0 <= x1 <= sw,
        0 <= c < 4,
        forall|sx: int| x0 <= sx < x1 ==> #[trigger] src[texel_start(sw, sx, y) + c] == b,
    ensures
        row_sum(src, sw, y, x0, x1, c, color_space) == (x1 - x0) * sample_value(color_space, c, b),
    decreases x1 - x0,
{
    if x1 > x0 {
        lemma_equal_row_sum(src, sw, sh, y, x0, x1 - 1, c, b, color_space);
        assert(src[texel_start(sw, x1 - 1, y) + c] == b);
        lemma_bound_step(x1 - 1 - x0, sample_value(color_space, c, b));
    } else {
        assert((x1 - x0) * sample_value(color_space, c, b) == 0) by (nonlinear_arith)
            requires
                x1 == x0,
        ;
    }
}

proof fn lemma_equal_region_sum(
    src: Seq<u8>,
    sw: int,
    sh: int,
    x0: int,
    x1: int,
    y0: int,
    y1: int,
    c: int,
    b: u8,
    color_space: TextureColorSpace,
)
    requires
        is_packed_rgba8(sw, sh, src.len() as int),
        0 <= x0 <= x1 <= sw,
        0 <= y0 <= y1 <= sh,
        0 <= c < 4,
        forall|sx: int, sy: int| x0 <= sx < x1 && y0 <= sy < y1 ==> #[trigger] src[texel_start(sw, sx, sy) + c] == b,
    ensures
        region_sum(src, sw, x0, x1, y0, y1, c, color_space) == (y1 - y0) * ((x1 - x0) * sample_value(color_space, c, b)),
    decreases y1 - y0,
{
    if y1 > y0 {
        lemma_equal_region_sum(src, sw, sh, x0, x1, y0, y1 - 1, c, b, color_space);
        assert forall|sx: int| x0 <= sx < x1 implies #[trigger] src[texel_start(sw, sx, y1 - 1) + c] == b by {}
        lemma_equal_row_sum(src, sw, sh, y1 - 1, x0, x1, c, b, color_space);
        lemma_bound_step(y1 - 1 - y0, (x1 - x0) * sample_value(color_space, c, b));
    } else {
        assert((y1 - y0) * ((x1 - x0) * sample_value(color_space, c, b)) == 0) by (nonlinear_arith)
            requires
                y1 == y0,
        ;
    }
}

/// Each destination texel of a downsampling averages its own share of the
/// source and nothing else: when channel `c` of every source texel in the
/// share of destination texel (`x`, `y`) is `b`, channel `c` of that
/// destination texel is `b`, whatever the rest of the source holds. So an
/// image made of solid blocks, one per destination texel, keeps its colors.
pub proof fn law_downsampling_averages_each_share(
    src: Seq<u8>,
    sw: int,
    sh: int,
    w: int,
    h: int,
    color_space: TextureColorSpace,
    x: int,
    y: int,
    c: int,
    b: u8,
)
    requires
        is_packed_rgba8(sw, sh, src.len() as int),
        0 <= x < w,
        0 <= y < h,
        0 <= c < 4,
        forall|sx: int, sy: int| #[trigger] in_share(sw, sh, w, h, x, y, sx, sy)
            ==> src[(sy * sw + sx) * 4 + c] == b,
    ensures
        downsampled(src, sw, sh, w, h, color_space)[(y * w + x) * 4 + c] == b,
{
    lemma_span(x, sw, w);
    lemma_span(y, sh, h);
    law_span_is_the_destination_share(x, sw, w);
    law_span_is_the_destination_share(y, sh, h);
    let (x0, x1) = (span_start(x, sw, w), span_end(x, sw, w));
    let (y0, y1) = (span_start(y, sh, h), span_end(y, sh, h));
    assert forall|sx: int, sy: int| x0 <= sx < x1 && y0 <= sy < y1 implies #[trigger] src[texel_start(sw, sx, sy) + c] == b by {
        assert(x * sw < (sx + 1) * w && sx * w < (x + 1) * sw) by (nonlinear_arith)
            requires
                x0 * w <= x * sw,
                x * sw < (x0 + 1) * w,
                (x1 - 1) * w < (x + 1) * sw,
                x0 <= sx < x1,
                w > 0,
        ;
        assert(y * sh < (sy + 1) * h && sy * h < (y + 1) * sh) by (nonlinear_arith)
            requires
                y0 * h <= y * sh,
                y * sh < (y0 + 1) * h,
                (y1 - 1) * h < (y + 1) * sh,
                y0 <= sy < y1,
                h > 0,
        ;
        assert(in_share(sw, sh, w, h, x, y, sx, sy));
    }
    lemma_equal_region_sum(src, sw, sh, x0, x1, y0, y1, c, b, color_space);
    let count = (x1 - x0) * (y1 - y0);
    lemma_scaled_area(y1 - y0, x1 - x0, sample_value(color_space, c, b));
    assert(count > 0) by (nonlinear_arith)
        requires
            count == (x1 - x0) * (y1 - y0),
            x0 < x1,
            y0 < y1,
    ;
    lemma_average_of_equal_samples(color_space, c, b, count);
    lemma_texel_in_bounds(w, h, x, y);
    lemma_texel_decompose(w, x, y, c);
    assert(w * h * 4 >= 0) by (nonlinear_arith)
        requires
            w > 0,
            h > 0,
    ;
}

/// Box filtering a texture of one solid color gives the same solid color:
/// averaging in linear light and encoding back to sRGB loses nothing.
pub proof fn law_downsampling_keeps_solid_colors(
    src: Seq<u8>,
    v: Seq<u8>,
    sw: int,
    sh: int,
    w: int,
    h: int,
    color_space: TextureColorSpace,
)
    requires
        is_packed_rgba8(sw, sh, src.len() as int),
        is_uniform(src, v),
        w > 0,
        h > 0,
    ensures
        is_uniform(downsampled(src, sw, sh, w, h, color_space), v),
{
    let out = downsampled(src, sw, sh, w, h, color_space);
    assert forall|i: int| 0 <= i < out.len() implies #[trigger] out[i] == v[i % 4] by {
        lemma_byte_coordinates(w, h, i);
        let (x, y, c) = (column_of(w, i), row_of(w, i), i % 4);
        lemma_span(x, sw, w);
        lemma_span(y, sh, h);
        let (x0, x1) = (span_start(x, sw, w), span_end(x, sw, w));
        let (y0, y1) = (span_start(y, sh, h), span_end(y, sh, h));
        lemma_uniform_region_sum(src, v, sw, sh, x0, x1, y0, y1, c, color_space);
        let count = (x1 - x0) * (y1 - y0);
        lemma_scaled_area(y1 - y0, x1 - x0, sample_value(color_space, c, v[c]));
        assert(count > 0) by (nonlinear_arith)
            requires
                count == (x1 - x0) * (y1 - y0),
                x0 < x1,
                y0 < y1,
        ;
        lemma_average_of_equal_samples(color_space, c, v[c], count);
    }
}

} // verus!
