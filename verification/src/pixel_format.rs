//! Conversion of decoded glTF image data to packed RGBA8.
use vstd::prelude::*;
use vstd::endian::{endianness, Endian};

verus! {

/// The pixel layouts that glTF image data arrives in.
#[derive(Clone, Copy, Debug, PartialEq, Eq)]
pub enum PixelFormat {
    /// One 8-bit channel: gray.
    R8,
    /// Two 8-bit channels: gray and alpha.
    R8G8,
    /// Three 8-bit channels: red, green and blue.
    R8G8B8,
    /// Four 8-bit channels: red, green, blue and alpha.
    R8G8B8A8,
    /// One 16-bit channel: gray.
    R16,
    /// Two 16-bit channels: gray and alpha.
    R16G16,
    /// Three 16-bit channels: red, green and blue.
    R16G16B16,
    /// Four 16-bit channels: red, green, blue and alpha.
    R16G16B16A16,
    /// Three 32-bit float channels: red, green and blue.
    R32G32B32FLOAT,
    /// Four 32-bit float channels: red, green, blue and alpha.
    R32G32B32A32FLOAT,
}

/// Which source component fills RGBA channel `k` (`0..4`) of a pixel with
/// `channels` components; `None` means the channel is fully opaque (255).
/// One component is gray, two are gray and alpha, three are RGB, four RGBA.
pub open spec fn component_for(channels: int, k: int) -> Option<int> {
    if channels == 1 {
        if k < 3 { Some(0) } else { None }
    } else if channels == 2 {
        if k < 3 { Some(0) } else { Some(1) }
    } else if channels == 3 {
        if k < 3 { Some(k) } else { None }
    } else {
        Some(k)
    }
}

/// Byte `i` of the RGBA8 expansion of `pixels`, a buffer of 8-bit
/// components with `channels` components per pixel.
pub open spec fn u8_expansion_byte(pixels: Seq<u8>, channels: int, i: int) -> u8 {
    match component_for(channels, i % 4) {
        Some(j) => pixels[(i / 4) * channels + j],
        None => 255,
    }
}

/// The RGBA8 expansion of every complete pixel of `pixels`.
pub open spec fn u8_expansion(pixels: Seq<u8>, channels: int) -> Seq<u8> {
    Seq::new(((pixels.len() as int / channels) * 4) as nat, |i: int| u8_expansion_byte(pixels, channels, i))
}

/// The 16-bit value stored in two bytes in this machine's byte order.
pub open spec fn native_u16(first: u8, second: u8) -> int {
    match endianness() {
        Endian::Little => first + 256 * second,
        Endian::Big => 256 * first + second,
    }
}

/// A 16-bit component scaled to 8 bits, rounded to nearest.
pub open spec fn scale16(value: int) -> u8 {
    ((value * 255 + 32767) / 65535) as u8
}

/// Byte `i` of the RGBA8 expansion of `pixels`, a buffer of native-endian
/// 16-bit components with `channels` components per pixel.
pub open spec fn u16_expansion_byte(pixels: Seq<u8>, channels: int, i: int) -> u8 {
    match component_for(channels, i % 4) {
        Some(j) => {
            let at = ((i / 4) * channels + j) * 2;
            scale16(native_u16(pixels[at], pixels[at + 1]))
        },
        None => 255,
    }
}

/// The RGBA8 expansion of every complete pixel of `pixels`.
pub open spec fn u16_expansion(pixels: Seq<u8>, channels: int) -> Seq<u8> {
    Seq::new(((pixels.len() as int / (channels * 2)) * 4) as nat, |i: int| u16_expansion_byte(pixels, channels, i))
}

/// Reads a `u16` from two bytes in the machine's native byte order.
///
/// Calls `u16::from_ne_bytes`; the contract states the value for either byte
/// order, through vstd's `endianness()`.
#[verifier::external_body]
fn u16_from_ne_bytes(bytes: [u8; 2]) -> (value: u16)
    ensures
        value == native_u16(bytes@[0], bytes@[1]),
{
    u16::from_ne_bytes(bytes)
}

/// Splits the offset of component `j` of pixel `t`.
proof fn lemma_component_offset(t: int, k: int, channels: int, j: int)
    requires
        0 <= t,
        0 <= k < 4,
        1 <= channels,
        0 <= j < channels,
    ensures
        (t * 4 + k) / 4 == t,
        (t * 4 + k) % 4 == k,
        0 <= t * channels + j,
{
    vstd::arithmetic::div_mod::lemma_fundamental_div_mod_converse(t * 4 + k, 4, t, k);
    assert(0 <= t * channels) by (nonlinear_arith)
        requires
            0 <= t,
            1 <= channels,
    ;
}

/// Appends the RGBA8 expansion of 8-bit gray, gray-alpha, RGB or RGBA pixels
/// (`channels` components each) to `rgba`; a trailing partial pixel is ignored.
pub fn append_u8_pixels(rgba: &mut Vec<u8>, pixels: &[u8], channels: usize)
    requires
        1 <= channels <= 4,
    ensures
        final(rgba)@ == old(rgba)@ + u8_expansion(pixels@, channels as int),
{
    let len: usize = pixels.len();
    let count: usize = len / channels;
    let ghost start = rgba@;
    let ghost target = u8_expansion(pixels@, channels as int);
    let mut t: usize = 0;
    while t < count
        invariant
            1 <= channels <= 4,
            len == pixels@.len(),
            count == len / channels,
            target == u8_expansion(pixels@, channels as int),
            t <= count,
            rgba@.len() == start.len() + t * 4,
            forall|j: int| 0 <= j < start.len() ==> rgba@[j] == start[j],
            forall|j: int| 0 <= j < t * 4 ==> rgba@[start.len() + j] == target[j],
        decreases count - t,
    {
        proof {
            vstd::arithmetic::div_mod::lemma_fundamental_div_mod(len as int, channels as int);
            assert(t * channels + channels <= len) by (nonlinear_arith)
                requires
                    t < count,
                    count == len / channels,
                    len == channels * (len / channels) + len % channels,
                    0 <= len % channels,
            ;
            assert(0 <= t * channels) by (nonlinear_arith)
                requires
                    0 <= t,
            ;
        }
        let base: usize = t * channels;
        let red: u8 = pixels[base];
        let texel: [u8; 4] = if channels == 1 {
            [red, red, red, 255]
        } else if channels == 2 {
            [red, red, red, pixels[base + 1]]
        } else if channels == 3 {
            [red, pixels[base + 1], pixels[base + 2], 255]
        } else {
            [red, pixels[base + 1], pixels[base + 2], pixels[base + 3]]
        };
        let ghost before = rgba@;
        rgba.push(texel[0]);
        rgba.push(texel[1]);
        rgba.push(texel[2]);
        rgba.push(texel[3]);
        proof {
            assert forall|j: int| 0 <= j < (t + 1) * 4 implies rgba@[start.len() + j] == target[j] by {
                if j >= t * 4 {
                    let k = j - t * 4;
                    lemma_component_offset(t as int, k, channels as int, 0);
                    assert(j == t * 4 + k);
                }
            }
        }
        t = t + 1;
    }
    assert(rgba@ =~= start + target);
}

/// Appends the RGBA8 expansion of native-endian 16-bit gray, gray-alpha, RGB
/// or RGBA pixels (`channels` components each) to `rgba`, scaling each
/// component to 8 bits; a trailing partial pixel is ignored.
pub fn append_u16_pixels(rgba: &mut Vec<u8>, pixels: &[u8], channels: usize)
    requires
        1 <= channels <= 4,
    ensures
        final(rgba)@ == old(rgba)@ + u16_expansion(pixels@, channels as int),
{
    let len: usize = pixels.len();
    let stride: usize = channels * 2;
    let count: usize = len / stride;
    let ghost start = rgba@;
    let ghost target = u16_expansion(pixels@, channels as int);
    let mut t: usize = 0;
    while t < count
        invariant
            1 <= channels <= 4,
            stride == channels * 2,
            len == pixels@.len(),
            count == len / stride,
            target == u16_expansion(pixels@, channels as int),
            t <= count,
            rgba@.len() == start.len() + t * 4,
            forall|j: int| 0 <= j < start.len() ==> rgba@[j] == start[j],
            forall|j: int| 0 <= j < t * 4 ==> rgba@[start.len() + j] == target[j],
        decreases count - t,
    {
        proof {
            vstd::arithmetic::div_mod::lemma_fundamental_div_mod(len as int, stride as int);
            assert(t * stride + stride <= len) by (nonlinear_arith)
                requires
                    t < count,
                    count == len / stride,
                    len == stride * (len / stride) + len % stride,
                    0 <= len % stride,
            ;
            assert(0 <= t * stride && t * stride == (t * channels) * 2) by (nonlinear_arith)
                requires
                    0 <= t,
                    stride == channels * 2,
            ;
        }
        let base: usize = t * stride;
        let mut components: [u8; 4] = [0, 0, 0, 0];
        let mut j: usize = 0;
        while j < channels
            invariant
                1 <= channels <= 4,
                len == pixels@.len(),
                base + channels * 2 <= len,
                base == (t * channels) * 2,
                0 <= j <= channels,
                forall|q: int| 0 <= q < j ==> components@[q] == scale16(
                    native_u16(pixels@[base + q * 2], pixels@[base + q * 2 + 1]),
                ),
            decreases channels - j,
        {
            let value: u16 = u16_from_ne_bytes([pixels[base + j * 2], pixels[base + j * 2 + 1]]);
            let scaled: u32 = (value as u32 * 255 + 32767) / 65535;
            components[j] = scaled as u8;
            j = j + 1;
        }
        let red: u8 = components[0];
        let texel: [u8; 4] = if channels == 1 {
            [red, red, red, 255]
        } else if channels == 2 {
            [red, red, red, components[1]]
        } else if channels == 3 {
            [red, components[1], components[2], 255]
        } else {
            [red, components[1], components[2], components[3]]
        };
        rgba.push(texel[0]);
        rgba.push(texel[1]);
        rgba.push(texel[2]);
        rgba.push(texel[3]);
        proof {
            assert forall|q: int| 0 <= q < (t + 1) * 4 implies rgba@[start.len() + q] == target[q] by {
                if q >= t * 4 {
                    let k = q - t * 4;
                    lemma_component_offset(t as int, k, channels as int, 0);
                    assert(q == t * 4 + k);
                    assert(((t * channels + k) * 2) == base + k * 2) by (nonlinear_arith)
                        requires
                            base == (t * channels) * 2,
                    ;
                    assert(((t * channels + 0) * 2) == base + 0 * 2) by (nonlinear_arith)
                        requires
                            base == (t * channels) * 2,
                    ;
                    assert(((t * channels + 1) * 2) == base + 1 * 2) by (nonlinear_arith)
                        requires
                            base == (t * channels) * 2,
                    ;
                }
            }
        }
        t = t + 1;
    }
    assert(rgba@ =~= start + target);
}


/// The number of components per pixel of an 8- or 16-bit format, and whether
/// they are 16-bit; `None` for the 32-bit float formats.
pub open spec fn integer_layout(format: PixelFormat) -> Option<(int, bool)> {
    match format {
        PixelFormat::R8 => Some((1, false)),
        PixelFormat::R8G8 => Some((2, false)),
        PixelFormat::R8G8B8 => Some((3, false)),
        PixelFormat::R8G8B8A8 => Some((4, false)),
        PixelFormat::R16 => Some((1, true)),
        PixelFormat::R16G16 => Some((2, true)),
        PixelFormat::R16G16B16 => Some((3, true)),
        PixelFormat::R16G16B16A16 => Some((4, true)),
        PixelFormat::R32G32B32FLOAT => None,
        PixelFormat::R32G32B32A32FLOAT => None,
    }
}

/// The RGBA8 conversion of decoded image data of `format`, or `None` for the
/// float formats.
pub open spec fn rgba8_conversion(format: PixelFormat, pixels: Seq<u8>) -> Option<Seq<u8>> {
    match integer_layout(format) {
        None => None,
        Some((channels, false)) => Some(if channels == 4 { pixels } else { u8_expansion(pixels, channels) }),
        Some((channels, true)) => Some(u16_expansion(pixels, channels)),
    }
}

/// Converts decoded 8- or 16-bit image data to packed RGBA8: RGBA8 data is
/// copied as it is, gray becomes opaque gray, gray-alpha keeps its alpha, RGB
/// becomes opaque, and 16-bit components are scaled to 8 bits. The 32-bit
/// float formats give `None`; their conversion is left to the caller.
pub fn image_to_rgba8(format: PixelFormat, pixels: &[u8]) -> (rgba: Option<Vec<u8>>)
    ensures
        match integer_layout(format) {
            None => rgba is None,
            Some((channels, false)) => rgba matches Some(out) && out@ == (if channels == 4 {
                pixels@
            } else {
                u8_expansion(pixels@, channels)
            }),
            Some((channels, true)) => rgba matches Some(out) && out@ == u16_expansion(pixels@, channels),
        },
        match rgba8_conversion(format, pixels@) {
            Some(converted) => rgba matches Some(out) && out@ == converted,
            None => rgba is None,
        },
{
    let mut rgba: Vec<u8> = Vec::new();
    match format {
        PixelFormat::R8 => append_u8_pixels(&mut rgba, pixels, 1),
        PixelFormat::R8G8 => append_u8_pixels(&mut rgba, pixels, 2),
        PixelFormat::R8G8B8 => append_u8_pixels(&mut rgba, pixels, 3),
        PixelFormat::R8G8B8A8 => {
            rgba.extend_from_slice(pixels);
            assert(rgba@ =~= pixels@);
        },
        PixelFormat::R16 => append_u16_pixels(&mut rgba, pixels, 1),
        PixelFormat::R16G16 => append_u16_pixels(&mut rgba, pixels, 2),
        PixelFormat::R16G16B16 => append_u16_pixels(&mut rgba, pixels, 3),
        PixelFormat::R16G16B16A16 => append_u16_pixels(&mut rgba, pixels, 4),
        PixelFormat::R32G32B32FLOAT | PixelFormat::R32G32B32A32FLOAT => return None,
    }
    proof {
        assert(seq![] + u8_expansion(pixels@, 1) =~= u8_expansion(pixels@, 1));
        assert(seq![] + u8_expansion(pixels@, 2) =~= u8_expansion(pixels@, 2));
        assert(seq![] + u8_expansion(pixels@, 3) =~= u8_expansion(pixels@, 3));
        assert(seq![] + u16_expansion(pixels@, 1) =~= u16_expansion(pixels@, 1));
        assert(seq![] + u16_expansion(pixels@, 2) =~= u16_expansion(pixels@, 2));
        assert(seq![] + u16_expansion(pixels@, 3) =~= u16_expansion(pixels@, 3));
        assert(seq![] + u16_expansion(pixels@, 4) =~= u16_expansion(pixels@, 4));
    }
    Some(rgba)
}


/// 8-bit data expands pixel by pixel: gray `g` becomes opaque `(g, g, g)`,
/// gray-alpha `(g, a)` becomes `(g, g, g, a)`, RGB three bytes at a time
/// becomes opaque RGBA four bytes at a time, and RGBA is kept as it is. A
/// trailing partial pixel is dropped. Float data is not converted.
pub proof fn law_eight_bit_pixels_expand_to_rgba8(pixels: Seq<u8>)
    ensures
        ({
            let n = pixels.len() as int;
            let gray = rgba8_conversion(PixelFormat::R8, pixels)->0;
            let gray_alpha = rgba8_conversion(PixelFormat::R8G8, pixels)->0;
            let rgb = rgba8_conversion(PixelFormat::R8G8B8, pixels)->0;
            &&& rgba8_conversion(PixelFormat::R8, pixels) is Some
            &&& gray.len() == n * 4
            &&& forall|t: int, k: int| 0 <= t < n && 0 <= k < 3 ==> #[trigger] gray[4 * t + k] == pixels[t]
            &&& forall|t: int| 0 <= t < n ==> #[trigger] gray[4 * t + 3] == 255
            &&& rgba8_conversion(PixelFormat::R8G8, pixels) is Some
            &&& gray_alpha.len() == (n / 2) * 4
            &&& forall|t: int, k: int| 0 <= t < n / 2 && 0 <= k < 3 ==> #[trigger] gray_alpha[4 * t + k] == pixels[2 * t]
            &&& forall|t: int| 0 <= t < n / 2 ==> #[trigger] gray_alpha[4 * t + 3] == pixels[2 * t + 1]
            &&& rgba8_conversion(PixelFormat::R8G8B8, pixels) is Some
            &&& rgb.len() == (n / 3) * 4
            &&& forall|t: int, k: int| 0 <= t < n / 3 && 0 <= k < 3 ==> #[trigger] rgb[4 * t + k] == pixels[3 * t + k]
            &&& forall|t: int| 0 <= t < n / 3 ==> #[trigger] rgb[4 * t + 3] == 255
            &&& rgba8_conversion(PixelFormat::R8G8B8A8, pixels) == Some(pixels)
            &&& rgba8_conversion(PixelFormat::R32G32B32FLOAT, pixels) is None
            &&& rgba8_conversion(PixelFormat::R32G32B32A32FLOAT, pixels) is None
        }),
{
    let n = pixels.len() as int;
    let gray = rgba8_conversion(PixelFormat::R8, pixels)->0;
    let gray_alpha = rgba8_conversion(PixelFormat::R8G8, pixels)->0;
    let rgb = rgba8_conversion(PixelFormat::R8G8B8, pixels)->0;
    assert forall|t: int, k: int| 0 <= t < n && 0 <= k < 4 implies #[trigger] gray[4 * t + k]
        == u8_expansion_byte(pixels, 1, 4 * t + k) && (4 * t + k) / 4 == t && (4 * t + k) % 4 == k by {
        lemma_component_offset(t, k, 1, 0);
    }
    assert forall|t: int, k: int| 0 <= t < n / 2 && 0 <= k < 4 implies #[trigger] gray_alpha[4 * t + k]
        == u8_expansion_byte(pixels, 2, 4 * t + k) && (4 * t + k) / 4 == t && (4 * t + k) % 4 == k by {
        lemma_component_offset(t, k, 2, 0);
        assert(4 * t + k < (n / 2) * 4);
    }
    assert forall|t: int, k: int| 0 <= t < n / 3 && 0 <= k < 4 implies #[trigger] rgb[4 * t + k]
        == u8_expansion_byte(pixels, 3, 4 * t + k) && (4 * t + k) / 4 == t && (4 * t + k) % 4 == k by {
        lemma_component_offset(t, k, 3, 0);
        assert(4 * t + k < (n / 3) * 4);
    }
    assert forall|t: int, k: int| 0 <= t < n && 0 <= k < 3 implies #[trigger] gray[4 * t + k] == pixels[t] by {
        assert(gray[4 * t + k] == u8_expansion_byte(pixels, 1, 4 * t + k));
    }
    assert forall|t: int| 0 <= t < n implies #[trigger] gray[4 * t + 3] == 255 by {
        assert(gray[4 * t + 3] == u8_expansion_byte(pixels, 1, 4 * t + 3));
    }
    assert forall|t: int, k: int| 0 <= t < n / 2 && 0 <= k < 3 implies #[trigger] gray_alpha[4 * t + k] == pixels[2 * t] by {
        assert(gray_alpha[4 * t + k] == u8_expansion_byte(pixels, 2, 4 * t + k));
    }
    assert forall|t: int| 0 <= t < n / 2 implies #[trigger] gray_alpha[4 * t + 3] == pixels[2 * t + 1] by {
        assert(gray_alpha[4 * t + 3] == u8_expansion_byte(pixels, 2, 4 * t + 3));
    }
    assert forall|t: int, k: int| 0 <= t < n / 3 && 0 <= k < 3 implies #[trigger] rgb[4 * t + k] == pixels[3 * t + k] by {
        assert(rgb[4 * t + k] == u8_expansion_byte(pixels, 3, 4 * t + k));
    }
    assert forall|t: int| 0 <= t < n / 3 implies #[trigger] rgb[4 * t + 3] == 255 by {
        assert(rgb[4 * t + 3] == u8_expansion_byte(pixels, 3, 4 * t + 3));
    }
}

/// 16-bit data expands like 8-bit data, with each native-endian component
/// `v` (two bytes) scaled to the byte nearest `v * 255 / 65535`: RGB data of
/// six bytes per pixel becomes opaque RGBA of four, gray-alpha and RGBA
/// data keep their scaled alpha, and gray is opaque.
pub proof fn law_sixteen_bit_pixels_scale_to_rgba8(pixels: Seq<u8>)
    ensures
        ({
            let n = pixels.len() as int;
            let component = |index: int| scale16(native_u16(pixels[2 * index], pixels[2 * index + 1]));
            let gray = rgba8_conversion(PixelFormat::R16, pixels)->0;
            let gray_alpha = rgba8_conversion(PixelFormat::R16G16, pixels)->0;
            let rgb = rgba8_conversion(PixelFormat::R16G16B16, pixels)->0;
            let rgba = rgba8_conversion(PixelFormat::R16G16B16A16, pixels)->0;
            &&& rgba8_conversion(PixelFormat::R16G16, pixels) is Some
            &&& gray_alpha.len() == (n / 4) * 4
            &&& forall|t: int, k: int| 0 <= t < n / 4 && 0 <= k < 3 ==> #[trigger] gray_alpha[4 * t + k] == component(2 * t)
            &&& forall|t: int| 0 <= t < n / 4 ==> #[trigger] gray_alpha[4 * t + 3] == component(2 * t + 1)
            &&& rgba8_conversion(PixelFormat::R16, pixels) is Some
            &&& gray.len() == (n / 2) * 4
            &&& forall|t: int, k: int| 0 <= t < n / 2 && 0 <= k < 3 ==> #[trigger] gray[4 * t + k] == component(t)
            &&& forall|t: int| 0 <= t < n / 2 ==> #[trigger] gray[4 * t + 3] == 255
            &&& rgba8_conversion(PixelFormat::R16G16B16, pixels) is Some
            &&& rgb.len() == (n / 6) * 4
            &&& forall|t: int, k: int| 0 <= t < n / 6 && 0 <= k < 3 ==> #[trigger] rgb[4 * t + k] == component(3 * t + k)
            &&& forall|t: int| 0 <= t < n / 6 ==> #[trigger] rgb[4 * t + 3] == 255
            &&& rgba8_conversion(PixelFormat::R16G16B16A16, pixels) is Some
            &&& rgba.len() == (n / 8) * 4
            &&& forall|t: int, k: int| 0 <= t < n / 8 && 0 <= k < 4 ==> #[trigger] rgba[4 * t + k] == component(4 * t + k)
        }),
{
    let n = pixels.len() as int;
    let gray = rgba8_conversion(PixelFormat::R16, pixels)->0;
    let gray_alpha = rgba8_conversion(PixelFormat::R16G16, pixels)->0;
    let rgb = rgba8_conversion(PixelFormat::R16G16B16, pixels)->0;
    let rgba = rgba8_conversion(PixelFormat::R16G16B16A16, pixels)->0;
    assert forall|t: int, k: int| 0 <= t < n / 4 && 0 <= k < 4 implies #[trigger] gray_alpha[4 * t + k]
        == u16_expansion_byte(pixels, 2, 4 * t + k) && (4 * t + k) / 4 == t && (4 * t + k) % 4 == k by {
        lemma_component_offset(t, k, 2, 0);
    }
    assert forall|t: int, k: int| 0 <= t < n / 4 && 0 <= k < 3 implies #[trigger] gray_alpha[4 * t + k]
        == scale16(native_u16(pixels[2 * (2 * t)], pixels[2 * (2 * t) + 1])) by {
        assert(gray_alpha[4 * t + k] == u16_expansion_byte(pixels, 2, 4 * t + k));
    }
    assert forall|t: int| 0 <= t < n / 4 implies #[trigger] gray_alpha[4 * t + 3]
        == scale16(native_u16(pixels[2 * (2 * t + 1)], pixels[2 * (2 * t + 1) + 1])) by {
        assert(gray_alpha[4 * t + 3] == u16_expansion_byte(pixels, 2, 4 * t + 3));
    }
    assert forall|t: int, k: int| 0 <= t < n / 2 && 0 <= k < 4 implies #[trigger] gray[4 * t + k]
        == u16_expansion_byte(pixels, 1, 4 * t + k) && (4 * t + k) / 4 == t && (4 * t + k) % 4 == k by {
        lemma_component_offset(t, k, 1, 0);
    }
    assert forall|t: int, k: int| 0 <= t < n / 6 && 0 <= k < 4 implies #[trigger] rgb[4 * t + k]
        == u16_expansion_byte(pixels, 3, 4 * t + k) && (4 * t + k) / 4 == t && (4 * t + k) % 4 == k by {
        lemma_component_offset(t, k, 3, 0);
    }
    assert forall|t: int, k: int| 0 <= t < n / 8 && 0 <= k < 4 implies #[trigger] rgba[4 * t + k]
        == u16_expansion_byte(pixels, 4, 4 * t + k) && (4 * t + k) / 4 == t && (4 * t + k) % 4 == k by {
        lemma_component_offset(t, k, 4, 0);
    }
    assert forall|t: int, k: int| 0 <= t < n / 2 && 0 <= k < 3 implies #[trigger] gray[4 * t + k]
        == scale16(native_u16(pixels[2 * t], pixels[2 * t + 1])) by {
        assert(gray[4 * t + k] == u16_expansion_byte(pixels, 1, 4 * t + k));
    }
    assert forall|t: int| 0 <= t < n / 2 implies #[trigger] gray[4 * t + 3] == 255 by {
        assert(gray[4 * t + 3] == u16_expansion_byte(pixels, 1, 4 * t + 3));
    }
    assert forall|t: int, k: int| 0 <= t < n / 6 && 0 <= k < 3 implies #[trigger] rgb[4 * t + k]
        == scale16(native_u16(pixels[2 * (3 * t + k)], pixels[2 * (3 * t + k) + 1])) by {
        assert(rgb[4 * t + k] == u16_expansion_byte(pixels, 3, 4 * t + k));
    }
    assert forall|t: int| 0 <= t < n / 6 implies #[trigger] rgb[4 * t + 3] == 255 by {
        assert(rgb[4 * t + 3] == u16_expansion_byte(pixels, 3, 4 * t + 3));
    }
    assert forall|t: int, k: int| 0 <= t < n / 8 && 0 <= k < 4 implies #[trigger] rgba[4 * t + k]
        == scale16(native_u16(pixels[2 * (4 * t + k)], pixels[2 * (4 * t + k) + 1])) by {
        assert(rgba[4 * t + k] == u16_expansion_byte(pixels, 4, 4 * t + k));
    }
}

} // verus!
