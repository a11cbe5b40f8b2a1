//! Textures, images and the material vocabulary of the engine.
use vstd::prelude::*;
use crate::mip::{mip_count, is_mip_chain, next_mip_extent, downsampled, larger, bit_length, lemma_mip_step, mip_level_count_of, downsample_rgba8};
use crate::raster::{
    is_packed_rgba8, texel_start, texel, with_texel, flipped_horizontal, flipped_vertical,
    rotated90, rotated270, reversed_texels, grayscaled, inverted_rgb, rotate180_in_place,
    grayscale_in_place, invert_rgb_in_place, pixel_index, flip_horizontal_in_place,
    flip_vertical_in_place, rotate90_cw_in_place, rotate270_cw_in_place,
};

verus! {

/// Number of directional material slots available to a mesh.
pub const MATERIAL_SLOT_COUNT: usize = 6;

/// A handle to a texture stored in a workspace.
#[derive(Clone, Copy, Debug, PartialEq, Eq, Hash)]
pub struct TextureHandle(
    /// Index into the CPU texture storage owned by a workspace.
    pub usize,
);

/// The material slot selected by a mesh vertex.
///
/// Directional slots describe the orientation of a face in the mesh's local
/// space, so they apply to any mesh. [`Top`](Self::Top) faces toward `+Y`,
/// [`Bottom`](Self::Bottom) toward `-Y`, [`Front`](Self::Front) toward `+Z`,
/// [`Back`](Self::Back) toward `-Z`, [`Right`](Self::Right) toward `+X`, and
/// [`Left`](Self::Left) toward `-X`.
#[derive(Clone, Copy, Debug, PartialEq, Eq, Hash)]
pub enum MaterialSlot {
    /// The top-facing material slot.
    Top,
    /// The bottom-facing material slot.
    Bottom,
    /// The front-facing material slot toward `+Z`.
    Front,
    /// The back-facing material slot toward `-Z`.
    Back,
    /// The left-facing material slot toward `-X`.
    Left,
    /// The right-facing material slot toward `+X`.
    Right,
}

/// The GPU slot index of each directional material slot.
pub open spec fn slot_index(slot: MaterialSlot) -> int {
    match slot {
        MaterialSlot::Top => 0,
        MaterialSlot::Bottom => 1,
        MaterialSlot::Front => 2,
        MaterialSlot::Back => 3,
        MaterialSlot::Left => 4,
        MaterialSlot::Right => 5,
    }
}

impl MaterialSlot {
    /// All directional slots in GPU slot order.
    pub const ALL_DIRECTIONS: [MaterialSlot; MATERIAL_SLOT_COUNT] = [
        MaterialSlot::Top,
        MaterialSlot::Bottom,
        MaterialSlot::Front,
        MaterialSlot::Back,
        MaterialSlot::Left,
        MaterialSlot::Right,
    ];

    /// Returns the zero-based GPU slot index.
    pub fn index(self) -> (index: usize)
        ensures
            index == slot_index(self),
            index < MATERIAL_SLOT_COUNT,
    {
        match self {
            MaterialSlot::Top => 0,
            MaterialSlot::Bottom => 1,
            MaterialSlot::Front => 2,
            MaterialSlot::Back => 3,
            MaterialSlot::Left => 4,
            MaterialSlot::Right => 5,
        }
    }
}

/// Texture maps used by a PBR material.
#[derive(Clone, Copy, Debug, Default, PartialEq)]
pub struct TextureSet {
    /// Optional sRGB base-color texture.
    pub base_color: Option<TextureHandle>,
    /// Optional linear tangent-space normal texture.
    pub normal: Option<TextureHandle>,
    /// Optional linear glTF metallic-roughness texture.
    pub metallic_roughness: Option<TextureHandle>,
    /// Optional sRGB emissive texture.
    pub emissive: Option<TextureHandle>,
}

/// Materials assigned to the directional slots of a mesh.
///
/// The first element in this list is [`MaterialSlot::Top`], followed by the
/// remaining slots in [`MaterialSlot::ALL_DIRECTIONS`] order. Entries are
/// `Some` only for slots assigned through [`MeshMaterialSlots::set`]; skipped
/// slots stay `None` and fall back to the default material at render time.
/// The material type is a parameter so that the slot bookkeeping does not
/// depend on how a material is represented.
#[derive(Clone, Debug, Default, PartialEq)]
pub struct MeshMaterialSlots<M> {
    /// Materials stored by directional slot order.
    ///
    /// `None` entries were never assigned and fall back to the default material.
    pub slots: Vec<Option<M>>,
}

/// The material stored for `slot` in `slots`, if any.
pub open spec fn slot_material<M>(slots: Seq<Option<M>>, slot: MaterialSlot) -> Option<M> {
    if slot_index(slot) < slots.len() { slots[slot_index(slot)] } else { None }
}

/// `slots` with `slot` assigned `material`, first grown with `None` entries
/// up to that slot if it is too short.
pub open spec fn with_slot<M>(slots: Seq<Option<M>>, slot: MaterialSlot, material: M) -> Seq<Option<M>> {
    let len = if slots.len() > slot_index(slot) { slots.len() as int } else { slot_index(slot) + 1 };
    Seq::new(
        len as nat,
        |i: int| if i == slot_index(slot) { Some(material) } else if i < slots.len() { slots[i] } else { None },
    )
}

impl<M> MeshMaterialSlots<M> {
    /// Assigns a directional material slot, growing the slot list as needed.
    ///
    /// Skipped slots stay `None` and fall back to the default material.
    pub fn set(&mut self, slot: MaterialSlot, material: M)
        ensures
            final(self).slots@ == with_slot(old(self).slots@, slot, material),
    {
        let index: usize = slot.index();
        let ghost before = self.slots@;
        while self.slots.len() <= index
            invariant
                index == slot_index(slot),
                index < MATERIAL_SLOT_COUNT,
                self.slots@.len() <= if before.len() > index { before.len() as int } else { index + 1 },
                self.slots@.len() >= before.len(),
                forall|i: int| 0 <= i < self.slots@.len() ==> #[trigger] self.slots@[i]
                    == (if i < before.len() { before[i] } else { None }),
            decreases index + 1 - self.slots@.len(),
        {
            self.slots.push(None);
        }
        self.slots.set(index, Some(material));
        assert(self.slots@ =~= with_slot(before, slot, material));
    }

    /// Returns the material assigned to a directional slot, if any.
    pub fn get(&self, slot: MaterialSlot) -> (material: Option<&M>)
        ensures
            match slot_material(self.slots@, slot) {
                Some(m) => material matches Some(r) && *r == m,
                None => material is None,
            },
    {
        let index: usize = slot.index();
        if index < self.slots.len() {
            match &self.slots[index] {
                Some(material) => Some(material),
                None => None,
            }
        } else {
            None
        }
    }
}

impl<M> MeshMaterialSlots<M> {
    /// Returns the mutable material assigned to a directional slot, if any.
    pub fn get_mut(&mut self, slot: MaterialSlot) -> (material: Option<&mut M>)
        ensures
            match slot_material(old(self).slots@, slot) {
                Some(m) => material matches Some(r) && *r == m
                    && final(self).slots@ == old(self).slots@.update(slot_index(slot), Some(*final(r))),
                None => material is None && final(self).slots@ == old(self).slots@,
            },
    {
        let index: usize = slot.index();
        if index < self.slots.len() {
            self.slots[index].as_mut()
        } else {
            None
        }
    }
}

/// The color space used when sampling an RGBA8 texture.
#[derive(Clone, Copy, Debug, PartialEq, Eq, Hash)]
pub enum TextureColorSpace {
    /// Color data such as a base-color map. The GPU converts it to linear space.
    Srgb,
    /// Data maps such as normals and metallic-roughness.
    Linear,
}

/// Texture sampling filter used by a material.
///
/// The sampler each variant selects is given by
/// [`sampler_settings`](crate::sampler::sampler_settings).
///
/// All variants repeat the texture on wrap. Mipmaps are always generated; the
/// `Nearest`/`Bilinear` variants only change whether the closest mip level is
/// picked (`Nearest`) or two levels are blended (`Linear`).
#[derive(Clone, Copy, Debug, Default, PartialEq, Eq, Hash)]
pub enum TextureFilter {
    /// Point sampling for magnification, minification, and mips. Best for
    /// pixel art where texels should stay crisp.
    Nearest,
    /// Bilinear magnification/minification with the nearest mip level.
    Bilinear,
    /// Bilinear magnification/minification blended across mip levels. This is
    /// the default.
    #[default]
    Trilinear,
    /// Trilinear sampling with `4x` anisotropic filtering for grazing angles.
    Anisotropic4x,
    /// Trilinear sampling with `8x` anisotropic filtering for grazing angles.
    Anisotropic8x,
    /// Trilinear sampling with `16x` anisotropic filtering for grazing angles.
    Anisotropic16x,
}

impl TextureFilter {
    /// All filter modes in a stable order, useful for pre-creating samplers.
    pub const ALL: [TextureFilter; 6] = [
        TextureFilter::Nearest,
        TextureFilter::Bilinear,
        TextureFilter::Trilinear,
        TextureFilter::Anisotropic4x,
        TextureFilter::Anisotropic8x,
        TextureFilter::Anisotropic16x,
    ];
}

#[verifier::external_type_specification]
#[verifier::external_body]
pub struct ExImageError(image::ImageError);

/// Errors produced while decoding or validating image and texture data.
#[derive(Debug)]
pub enum TextureError {
    /// The image decoder could not read the supplied bytes.
    ImageDecode(image::ImageError),
    /// Width or height was zero.
    ZeroDimensions,
    /// The dimensions overflowed while calculating the expected byte count.
    DimensionsTooLarge,
    /// The pixel buffer length did not equal `width * height * 4`.
    InvalidData {
        /// Number of bytes supplied by the caller.
        actual: usize,
        /// Number of bytes required by the dimensions.
        expected: usize,
    },
    /// A workspace texture handle did not identify a stored texture.
    InvalidHandle {
        /// The invalid workspace-local texture index.
        index: usize,
    },
}

/// The outcome of checking that `len` bytes are a tightly packed RGBA8 image
/// of `width` x `height` texels.
pub open spec fn rgba8_check(width: u32, height: u32, len: int) -> Result<(), TextureError> {
    if width == 0 || height == 0 {
        Err(TextureError::ZeroDimensions)
    } else if width * height * 4 > usize::MAX {
        Err(TextureError::DimensionsTooLarge)
    } else if len != width * height * 4 {
        Err(TextureError::InvalidData { actual: len as usize, expected: (width * height * 4) as usize })
    } else {
        Ok(())
    }
}

/// [`MaterialSlot::ALL_DIRECTIONS`] lists every slot at its own index.
pub proof fn law_all_directions_in_slot_order()
    ensures
        forall|i: int| 0 <= i < 6 ==> slot_index(#[trigger] MaterialSlot::ALL_DIRECTIONS@[i]) == i,
{
    assert(MaterialSlot::ALL_DIRECTIONS@ =~= seq![
        MaterialSlot::Top,
        MaterialSlot::Bottom,
        MaterialSlot::Front,
        MaterialSlot::Back,
        MaterialSlot::Left,
        MaterialSlot::Right,
    ]);
}

/// After assigning a slot, reading it gives the assigned material; every other
/// slot reads as before, so skipped slots stay unassigned.
pub proof fn law_slot_read_after_set<M>(slots: Seq<Option<M>>, slot: MaterialSlot, material: M, other: MaterialSlot)
    ensures
        slot_material(with_slot(slots, slot, material), slot) == Some(material),
        other != slot ==> slot_material(with_slot(slots, slot, material), other) == slot_material(slots, other),
{
}

/// The check passes exactly on packed buffers.
pub proof fn lemma_rgba8_check_ok(width: u32, height: u32, len: int)
    requires
        0 <= len <= usize::MAX,
    ensures
        rgba8_check(width, height, len) is Ok <==> is_packed_rgba8(width as int, height as int, len),
{
}

/// Checks dimensions and verifies that `len` bytes are tightly packed RGBA8.
fn check_rgba8(width: u32, height: u32, len: usize) -> (checked: Result<(), TextureError>)
    ensures
        checked == rgba8_check(width, height, len as int),
{
    if width == 0 || height == 0 {
        return Err(TextureError::ZeroDimensions);
    }
    let texels: usize = match (width as usize).checked_mul(height as usize) {
        Some(texels) => texels,
        None => {
            proof {
                assert(width * height * 4 > usize::MAX) by (nonlinear_arith)
                    requires
                        width * height > usize::MAX,
                ;
            }
            return Err(TextureError::DimensionsTooLarge);
        },
    };
    let expected: usize = match texels.checked_mul(4) {
        Some(expected) => expected,
        None => return Err(TextureError::DimensionsTooLarge),
    };
    if len != expected {
        return Err(TextureError::InvalidData { actual: len, expected });
    }
    Ok(())
}

/// Whether a decoding outcome holds at least `width * height * 4` pixel bytes
/// when it succeeds.
pub open spec fn holds_all_texels(decoded: Result<(u32, u32, Vec<u8>), image::ImageError>) -> bool {
    decoded matches Ok((width, height, pixels)) ==> width * height * 4 <= pixels@.len()
}

/// Whether decoding `bytes` with the codecs and hooks of `image` can give a
/// `width` x `height` image whose RGBA8 conversion is `pixels`. Nothing is
/// assumed of it beyond what `decode_rgba8` states: it relates a decoded
/// image to the bytes it came from, and does not say which image that is.
pub uninterp spec fn may_decode_to(bytes: Seq<u8>, width: u32, height: u32, pixels: Seq<u8>) -> bool;

/// Whether `decoded` is an outcome of decoding `bytes`: a success is a
/// decoding of those bytes with room for every texel.
pub open spec fn is_decoding_of(bytes: Seq<u8>, decoded: Result<(u32, u32, Vec<u8>), image::ImageError>) -> bool {
    &&& holds_all_texels(decoded)
    &&& decoded matches Ok((width, height, pixels)) ==> may_decode_to(bytes, width, height, pixels@)
}

/// Decodes `bytes` with the image codecs compiled into the `image` crate and
/// converts the result to packed RGBA8.
///
/// Calls `image::load_from_memory`, then `DynamicImage::to_rgba8`,
/// `ImageBuffer::dimensions` and `ImageBuffer::into_raw`. Which format the
/// bytes are read as, and whether decoding succeeds, also depends on the
/// detection and decoding hooks registered with `image` in the running
/// process, so nothing is said of which image comes back. What is said holds
/// of every image buffer: `ImageBuffer::from_raw` and `ImageBuffer::new`
/// only build buffers with room for every channel of every pixel. The buffer
/// is not promised to be exactly that long: a decoder may report a larger
/// `total_bytes`, and `from_raw` keeps the whole vector.
#[verifier::external_body]
fn decode_rgba8(bytes: &[u8]) -> (decoded: Result<(u32, u32, Vec<u8>), image::ImageError>)
    ensures
        holds_all_texels(decoded),
        decoded matches Ok((width, height, pixels)) ==> may_decode_to(bytes@, width, height, pixels@),
{
    match image::load_from_memory(bytes) {
        Ok(image) => {
            let rgba = image.to_rgba8();
            let (width, height) = rgba.dimensions();
            Ok((width, height, rgba.into_raw()))
        },
        Err(error) => Err(error),
    }
}


/// What building an image from an outcome of decoding gives: the decoded
/// size and pixels when they are a packed RGBA8 image, the decoder's error
/// wrapped, or the error that the packed-buffer check reports.
pub open spec fn image_from_decoding(
    decoded: Result<(u32, u32, Vec<u8>), image::ImageError>,
) -> Result<(u32, u32, Seq<u8>), TextureError> {
    match decoded {
        Err(error) => Err(TextureError::ImageDecode(error)),
        Ok((width, height, pixels)) => match rgba8_check(width, height, pixels@.len() as int) {
            Ok(()) => Ok((width, height, pixels@)),
            Err(error) => Err(error),
        },
    }
}

/// CPU-side image data independent of GPU texture resources.
#[derive(Clone, Debug)]
pub struct Image {
    /// Image width in pixels.
    pub width: u32,
    /// Image height in pixels.
    pub height: u32,
    /// Packed row-major RGBA8 pixels, four bytes per pixel.
    pub pixels: Vec<u8>,
}

impl Image {
    /// Decodes any image format supported by the configured image codecs.
    pub fn from_bytes(bytes: &[u8]) -> (image: Result<Self, TextureError>)
        ensures
            image matches Ok(image) ==> image.is_valid(),
            image matches Ok(image) ==> may_decode_to(bytes@, image.width, image.height, image.pixels@),
            exists|decoded: Result<(u32, u32, Vec<u8>), image::ImageError>|
                is_decoding_of(bytes@, decoded) && #[trigger] image_from_decoding(decoded) == match image {
                    Ok(image) => Ok((image.width, image.height, image.pixels@)),
                    Err(error) => Err(error),
                },
    {
        let decoded = decode_rgba8(bytes);
        let ghost outcome = decoded;
        let image = Self::from_decoded(decoded);
        assert(image_from_decoding(outcome) == match image {
            Ok(image) => Ok((image.width, image.height, image.pixels@)),
            Err(error) => Err(error),
        });
        image
    }

    /// Builds an image from the outcome of decoding: a decoder error becomes
    /// [`TextureError::ImageDecode`], decoded pixels are checked as by
    /// [`Image::from_rgba8`].
    pub fn from_decoded(decoded: Result<(u32, u32, Vec<u8>), image::ImageError>) -> (image: Result<Self, TextureError>)
        ensures
            match decoded {
                Err(error) => image matches Err(TextureError::ImageDecode(e)) && e == error,
                Ok((width, height, pixels)) => match rgba8_check(width, height, pixels@.len() as int) {
                    Ok(()) => image matches Ok(image) && image.width == width && image.height == height && image.pixels@ == pixels@,
                    Err(error) => image matches Err(e) && e == error,
                },
            },
            image matches Ok(image) ==> image.is_valid(),
    {
        match decoded {
            Ok((width, height, pixels)) => Self::from_rgba8(width, height, pixels),
            Err(error) => Err(TextureError::ImageDecode(error)),
        }
    }

    /// Creates an image from RGBA8 pixels.
    pub fn from_rgba8(width: u32, height: u32, pixels: Vec<u8>) -> (image: Result<Self, TextureError>)
        ensures
            match rgba8_check(width, height, pixels@.len() as int) {
                Ok(()) => image matches Ok(image) && image.width == width && image.height == height && image.pixels@ == pixels@,
                Err(error) => image matches Err(e) && e == error,
            },
            image matches Ok(image) ==> image.is_valid(),
    {
        let image = Self { width, height, pixels };
        match image.validate() {
            Ok(()) => Ok(image),
            Err(error) => Err(error),
        }
    }

    /// Checks dimensions and verifies that the pixel buffer is tightly packed RGBA8.
    fn validate(&self) -> (checked: Result<(), TextureError>)
        ensures
            checked == rgba8_check(self.width, self.height, self.pixels@.len() as int),
            checked is Ok <==> self.is_valid(),
    {
        let len: usize = self.pixels.len();
        proof {
            lemma_rgba8_check_ok(self.width, self.height, len as int);
        }
        check_rgba8(self.width, self.height, len)
    }

    /// Whether the pixel buffer holds exactly `width * height` RGBA8 texels
    /// and neither dimension is zero.
    pub open spec fn is_valid(&self) -> bool {
        is_packed_rgba8(self.width as int, self.height as int, self.pixels@.len() as int)
    }

    /// Returns the RGBA8 pixel at (`x`, `y`), with the origin at the top-left.
    pub fn pixel(&self, x: u32, y: u32) -> (pixel: [u8; 4])
        requires
            x < self.width,
            y < self.height,
            texel_start(self.width as int, x as int, y as int) + 4 <= self.pixels@.len(),
        ensures
            pixel@ == texel(self.pixels@, self.width as int, x as int, y as int),
    {
        let len: usize = self.pixels.len();
        assert(texel_start(self.width as int, x as int, y as int) + 4 <= len);
        let start: usize = pixel_index(self.width, self.height, x, y);
        let pixel: [u8; 4] = [self.pixels[start], self.pixels[start + 1], self.pixels[start + 2], self.pixels[start + 3]];
        assert(pixel@ =~= texel(self.pixels@, self.width as int, x as int, y as int));
        pixel
    }

    /// Sets the RGBA8 pixel at (`x`, `y`) and returns this image for chaining.
    pub fn set_pixel(&mut self, x: u32, y: u32, pixel: [u8; 4]) -> (this: &mut Self)
        requires
            x < old(self).width,
            y < old(self).height,
            texel_start(old(self).width as int, x as int, y as int) + 4 <= old(self).pixels@.len(),
        ensures
            this.width == old(self).width,
            this.height == old(self).height,
            this.pixels@ == with_texel(old(self).pixels@, texel_start(old(self).width as int, x as int, y as int), pixel@),
            *final(self) == *final(this),
    {
        let len: usize = self.pixels.len();
        assert(texel_start(self.width as int, x as int, y as int) + 4 <= len);
        let start: usize = pixel_index(self.width, self.height, x, y);
        self.pixels[start] = pixel[0];
        self.pixels[start + 1] = pixel[1];
        self.pixels[start + 2] = pixel[2];
        self.pixels[start + 3] = pixel[3];
        assert(self.pixels@ =~= with_texel(old(self).pixels@, start as int, pixel@));
        self
    }

    /// Returns the packed row-major RGBA8 pixels, four bytes per pixel.
    pub fn pixels(&self) -> (pixels: &[u8])
        ensures
            pixels@ == self.pixels@,
    {
        self.pixels.as_slice()
    }

    /// Returns the packed row-major RGBA8 pixels for manual editing.
    ///
    /// The buffer must stay tightly packed RGBA8 (`width * height * 4` bytes);
    /// its length cannot change through the returned slice.
    pub fn pixels_mut(&mut self) -> (pixels: &mut [u8])
        ensures
            pixels@ == old(self).pixels@,
            final(self).pixels@ == final(pixels)@,
            final(self).width == old(self).width,
            final(self).height == old(self).height,
    {
        self.pixels.as_mut_slice()
    }

    /// Mirrors the image left-to-right and returns it for chaining.
    pub fn flip_horizontal(self) -> (flipped: Self)
        requires
            self.width > 0,
            self.pixels@.len() == self.width * self.height * 4,
        ensures
            self.is_valid() ==> flipped.is_valid(),
            flipped.width == self.width,
            flipped.height == self.height,
            flipped.pixels@ == flipped_horizontal(self.width as int, self.pixels@),
    {
        let mut this = self;
        flip_horizontal_in_place(this.width, this.height, &mut this.pixels);
        this
    }

    /// Mirrors the image top-to-bottom and returns it for chaining.
    pub fn flip_vertical(self) -> (flipped: Self)
        requires
            self.pixels@.len() == self.width * self.height * 4,
        ensures
            self.is_valid() ==> flipped.is_valid(),
            flipped.width == self.width,
            flipped.height == self.height,
            flipped.pixels@ == flipped_vertical(self.width as int, self.height as int, self.pixels@),
    {
        let mut this = self;
        flip_vertical_in_place(this.width, this.height, &mut this.pixels);
        this
    }

    /// Rotates the image 90 degrees clockwise and returns it for chaining.
    ///
    /// Width and height are swapped.
    pub fn rotate90(self) -> (rotated: Self)
        requires
            self.width * self.height * 4 <= self.pixels@.len(),
        ensures
            self.is_valid() ==> rotated.is_valid(),
            rotated.width == self.height,
            rotated.height == self.width,
            rotated.pixels@ == rotated90(self.width as int, self.height as int, self.pixels@),
    {
        let mut this = self;
        rotate90_cw_in_place(&mut this.width, &mut this.height, &mut this.pixels);
        assert(this.width * this.height * 4 == this.height * this.width * 4) by (nonlinear_arith);
        this
    }

    /// Rotates the image 180 degrees and returns it for chaining.
    pub fn rotate180(self) -> (rotated: Self)
        ensures
            self.is_valid() ==> rotated.is_valid(),
            rotated.width == self.width,
            rotated.height == self.height,
            rotated.pixels@ == reversed_texels(self.pixels@),
    {
        let mut this = self;
        rotate180_in_place(&mut this.pixels);
        this
    }

    /// Rotates the image 270 degrees clockwise (90 degrees
    /// counter-clockwise) and returns it for chaining.
    ///
    /// Width and height are swapped.
    pub fn rotate270(self) -> (rotated: Self)
        requires
            self.width * self.height * 4 <= self.pixels@.len(),
        ensures
            self.is_valid() ==> rotated.is_valid(),
            rotated.width == self.height,
            rotated.height == self.width,
            rotated.pixels@ == rotated270(self.width as int, self.height as int, self.pixels@),
    {
        let mut this = self;
        rotate270_cw_in_place(&mut this.width, &mut this.height, &mut this.pixels);
        assert(this.width * this.height * 4 == this.height * this.width * 4) by (nonlinear_arith);
        this
    }

    /// Converts the image to grayscale and returns it for chaining.
    ///
    /// Each pixel's RGB channels are replaced by their byte-space luma while
    /// alpha is preserved.
    ///
    /// The luma is computed exactly in integers and rounded half up; where the
    /// weighted sum lies within rounding error of a half, single-precision
    /// arithmetic can give one less: the texel (3, 44, 47) gets luma 36 here,
    /// where a computation in `f32` gives 35.
    pub fn grayscale(self) -> (gray: Self)
        ensures
            self.is_valid() ==> gray.is_valid(),
            gray.width == self.width,
            gray.height == self.height,
            gray.pixels@ == grayscaled(self.pixels@),
    {
        let mut this = self;
        grayscale_in_place(&mut this.pixels);
        this
    }

    /// Inverts the RGB channels (`255 - value`) and returns the image for
    /// chaining. Alpha is preserved.
    pub fn invert_rgb(self) -> (inverted: Self)
        ensures
            self.is_valid() ==> inverted.is_valid(),
            inverted.width == self.width,
            inverted.height == self.height,
            inverted.pixels@ == inverted_rgb(self.pixels@),
    {
        let mut this = self;
        invert_rgb_in_place(&mut this.pixels);
        this
    }
}

/// CPU-side RGBA8 texture data ready to be uploaded to a renderer.
///
/// The geometric transforms ([`flip_horizontal`](Self::flip_horizontal),
/// [`flip_vertical`](Self::flip_vertical), [`rotate90`](Self::rotate90),
/// [`rotate180`](Self::rotate180), [`rotate270`](Self::rotate270)) move texels
/// unchanged. That is correct for color and data maps, but tangent-space
/// normal maps encode direction: after mirroring or rotating a normal map,
/// adjust its red/green channels to match the new orientation.
#[derive(Clone, Debug, PartialEq, Eq, Hash)]
pub struct Texture {
    /// Texture width in pixels.
    pub width: u32,
    /// Texture height in pixels.
    pub height: u32,
    /// Packed row-major RGBA8 pixels, four bytes per pixel.
    pub pixels: Vec<u8>,
    /// Whether the bytes should be sampled as color or data.
    pub color_space: TextureColorSpace,
}

impl Texture {
    /// Creates an sRGB RGBA8 texture, suitable for a base-color map.
    pub fn new(width: u32, height: u32, pixels: Vec<u8>) -> (texture: Result<Self, TextureError>)
        ensures
            match rgba8_check(width, height, pixels@.len() as int) {
                Ok(()) => texture matches Ok(texture) && texture.width == width && texture.height == height
                    && texture.pixels@ == pixels@ && texture.color_space == TextureColorSpace::Srgb,
                Err(error) => texture matches Err(e) && e == error,
            },
            texture matches Ok(texture) ==> texture.is_valid(),
    {
        Self::with_color_space(width, height, pixels, TextureColorSpace::Srgb)
    }

    /// Creates an RGBA8 texture with an explicit color space.
    pub fn with_color_space(
        width: u32,
        height: u32,
        pixels: Vec<u8>,
        color_space: TextureColorSpace,
    ) -> (texture: Result<Self, TextureError>)
        ensures
            match rgba8_check(width, height, pixels@.len() as int) {
                Ok(()) => texture matches Ok(texture) && texture.width == width && texture.height == height
                    && texture.pixels@ == pixels@ && texture.color_space == color_space,
                Err(error) => texture matches Err(e) && e == error,
            },
            texture matches Ok(texture) ==> texture.is_valid(),
    {
        let texture = Self { width, height, pixels, color_space };
        match texture.validate() {
            Ok(()) => Ok(texture),
            Err(error) => Err(error),
        }
    }

    /// Creates a texture from decoded image data.
    pub fn from_image(image: Image, color_space: TextureColorSpace) -> (texture: Result<Self, TextureError>)
        ensures
            match rgba8_check(image.width, image.height, image.pixels@.len() as int) {
                Ok(()) => texture matches Ok(texture) && texture.width == image.width && texture.height == image.height
                    && texture.pixels@ == image.pixels@ && texture.color_space == color_space,
                Err(error) => texture matches Err(e) && e == error,
            },
            texture matches Ok(texture) ==> texture.is_valid(),
    {
        Self::with_color_space(image.width, image.height, image.pixels, color_space)
    }

    /// Creates a linear RGBA8 texture, suitable for normal or metallic-roughness data.
    pub fn linear(width: u32, height: u32, pixels: Vec<u8>) -> (texture: Result<Self, TextureError>)
        ensures
            match rgba8_check(width, height, pixels@.len() as int) {
                Ok(()) => texture matches Ok(texture) && texture.width == width && texture.height == height
                    && texture.pixels@ == pixels@ && texture.color_space == TextureColorSpace::Linear,
                Err(error) => texture matches Err(e) && e == error,
            },
            texture matches Ok(texture) ==> texture.is_valid(),
    {
        Self::with_color_space(width, height, pixels, TextureColorSpace::Linear)
    }

    /// Decodes an image from memory with an explicit texture color space.
    pub fn from_bytes(bytes: &[u8], color_space: TextureColorSpace) -> (texture: Result<Self, TextureError>)
        ensures
            texture matches Ok(texture) ==> texture.is_valid() && texture.color_space == color_space,
            texture matches Ok(texture) ==> may_decode_to(bytes@, texture.width, texture.height, texture.pixels@),
            exists|decoded: Result<(u32, u32, Vec<u8>), image::ImageError>|
                is_decoding_of(bytes@, decoded) && #[trigger] image_from_decoding(decoded) == match texture {
                    Ok(texture) => Ok((texture.width, texture.height, texture.pixels@)),
                    Err(error) => Err(error),
                },
    {
        let image = Image::from_bytes(bytes);
        let ghost decoded = choose|decoded: Result<(u32, u32, Vec<u8>), image::ImageError>|
            is_decoding_of(bytes@, decoded) && #[trigger] image_from_decoding(decoded) == match image {
                Ok(image) => Ok((image.width, image.height, image.pixels@)),
                Err(error) => Err(error),
            };
        let texture = match image {
            Ok(image) => Self::from_image(image, color_space),
            Err(error) => Err(error),
        };
        assert(image_from_decoding(decoded) == match texture {
            Ok(texture) => Ok((texture.width, texture.height, texture.pixels@)),
            Err(error) => Err(error),
        });
        texture
    }

    /// Returns the number of mip levels in the automatically generated chain.
    pub fn mip_level_count(&self) -> (count: u32)
        ensures
            count == mip_count(self.width as int, self.height as int),
    {
        mip_level_count_of(self.width, self.height)
    }

    /// Generates the complete mip chain, including the original image at level zero.
    ///
    /// RGB channels in sRGB textures are averaged in linear space before being
    /// encoded again. Linear textures, including normal and metallic-roughness
    /// maps, are averaged directly. The last row or column is included when a
    /// dimension is odd.
    ///
    /// Averages are exact: samples are summed in fixed point and the mean is
    /// rounded half up, so next to a rounding boundary a level byte can differ
    /// by one from an average summed in single precision.
    pub fn mip_levels(&self) -> (levels: Result<Vec<Image>, TextureError>)
        ensures
            match levels {
                Ok(levels) => self.is_valid() && is_mip_chain(levels@, *self),
                Err(error) => !self.is_valid() && rgba8_check(self.width, self.height, self.pixels@.len() as int)
                    == Err::<(), TextureError>(error),
            },
    {
        match self.validate() {
            Ok(()) => {},
            Err(error) => return Err(error),
        }
        let total: usize = self.pixels.len();
        let mut levels: Vec<Image> = Vec::with_capacity(self.mip_level_count() as usize);
        let mut width: u32 = self.width;
        let mut height: u32 = self.height;
        let pixels: Vec<u8> = self.pixels.clone();
        assert(pixels@ =~= self.pixels@);
        levels.push(Image { width, height, pixels });
        while width > 1 || height > 1
            invariant
                self.is_valid(),
                total == self.pixels@.len(),
                levels@.len() >= 1,
                levels@[levels@.len() - 1].width == width,
                levels@[levels@.len() - 1].height == height,
                levels@[levels@.len() - 1].is_valid(),
                1 <= width <= self.width,
                1 <= height <= self.height,
                levels@.len() + bit_length(larger(width as int, height as int) as nat) == mip_count(
                    self.width as int,
                    self.height as int,
                ) + 1,
                levels@[0].width == self.width,
                levels@[0].height == self.height,
                levels@[0].pixels@ == self.pixels@,
                forall|k: int|
                    1 <= k < levels@.len() ==> {
                        &&& (#[trigger] levels@[k]).width == next_mip_extent(levels@[k - 1].width as int)
                        &&& levels@[k].height == next_mip_extent(levels@[k - 1].height as int)
                        &&& levels@[k].pixels@ == downsampled(
                            levels@[k - 1].pixels@,
                            levels@[k - 1].width as int,
                            levels@[k - 1].height as int,
                            levels@[k].width as int,
                            levels@[k].height as int,
                            self.color_space,
                        )
                    },
            decreases width + height,
        {
            proof {
                lemma_mip_step(width as int, height as int);
            }
            let next_width: u32 = if width / 2 > 1 { width / 2 } else { 1 };
            let next_height: u32 = if height / 2 > 1 { height / 2 } else { 1 };
            let last: usize = levels.len() - 1;
            proof {
                assert(next_width * next_height * 4 <= self.width * self.height * 4) by (nonlinear_arith)
                    requires
                        1 <= next_width <= width <= self.width,
                        1 <= next_height <= height <= self.height,
                ;
            }
            let pixels: Vec<u8> = downsample_rgba8(
                width,
                height,
                next_width,
                next_height,
                &levels[last].pixels,
                self.color_space,
            );
            let ghost previous = levels@;
            width = next_width;
            height = next_height;
            levels.push(Image { width, height, pixels });
            proof {
                assert(levels@[levels@.len() - 1].is_valid()) by (nonlinear_arith)
                    requires
                        levels@[levels@.len() - 1].pixels@.len() == width * height * 4,
                        levels@[levels@.len() - 1].width == width,
                        levels@[levels@.len() - 1].height == height,
                        width >= 1,
                        height >= 1,
                ;
                assert forall|k: int| 1 <= k < levels@.len() implies {
                    &&& (#[trigger] levels@[k]).width == next_mip_extent(levels@[k - 1].width as int)
                    &&& levels@[k].height == next_mip_extent(levels@[k - 1].height as int)
                    &&& levels@[k].pixels@ == downsampled(
                        levels@[k - 1].pixels@,
                        levels@[k - 1].width as int,
                        levels@[k - 1].height as int,
                        levels@[k].width as int,
                        levels@[k].height as int,
                        self.color_space,
                    )
                } by {
                    if k < previous.len() {
                        assert(levels@[k] == previous[k]);
                        assert(levels@[k - 1] == previous[k - 1]);
                    }
                }
            }
        }
        assert(larger(width as int, height as int) == 1);
        assert(bit_length(0) == 0);
        assert(bit_length(1) == 1);
        Ok(levels)
    }

    /// Checks dimensions and verifies that the pixel buffer is tightly packed RGBA8.
    pub fn validate(&self) -> (checked: Result<(), TextureError>)
        ensures
            checked == rgba8_check(self.width, self.height, self.pixels@.len() as int),
            checked is Ok <==> self.is_valid(),
    {
        let len: usize = self.pixels.len();
        proof {
            lemma_rgba8_check_ok(self.width, self.height, len as int);
        }
        check_rgba8(self.width, self.height, len)
    }

    /// Whether the pixel buffer holds exactly `width * height` RGBA8 texels
    /// and neither dimension is zero.
    pub open spec fn is_valid(&self) -> bool {
        is_packed_rgba8(self.width as int, self.height as int, self.pixels@.len() as int)
    }

    /// Returns the RGBA8 pixel at (`x`, `y`), with the origin at the top-left.
    pub fn pixel(&self, x: u32, y: u32) -> (pixel: [u8; 4])
        requires
            x < self.width,
            y < self.height,
            texel_start(self.width as int, x as int, y as int) + 4 <= self.pixels@.len(),
        ensures
            pixel@ == texel(self.pixels@, self.width as int, x as int, y as int),
    {
        let len: usize = self.pixels.len();
        assert(texel_start(self.width as int, x as int, y as int) + 4 <= len);
        let start: usize = pixel_index(self.width, self.height, x, y);
        let pixel: [u8; 4] = [self.pixels[start], self.pixels[start + 1], self.pixels[start + 2], self.pixels[start + 3]];
        assert(pixel@ =~= texel(self.pixels@, self.width as int, x as int, y as int));
        pixel
    }

    /// Sets the RGBA8 pixel at (`x`, `y`) and returns this texture for chaining.
    pub fn set_pixel(&mut self, x: u32, y: u32, pixel: [u8; 4]) -> (this: &mut Self)
        requires
            x < old(self).width,
            y < old(self).height,
            texel_start(old(self).width as int, x as int, y as int) + 4 <= old(self).pixels@.len(),
        ensures
            this.width == old(self).width,
            this.height == old(self).height,
            this.color_space == old(self).color_space,
            this.pixels@ == with_texel(old(self).pixels@, texel_start(old(self).width as int, x as int, y as int), pixel@),
            *final(self) == *final(this),
    {
        let len: usize = self.pixels.len();
        assert(texel_start(self.width as int, x as int, y as int) + 4 <= len);
        let start: usize = pixel_index(self.width, self.height, x, y);
        self.pixels[start] = pixel[0];
        self.pixels[start + 1] = pixel[1];
        self.pixels[start + 2] = pixel[2];
        self.pixels[start + 3] = pixel[3];
        assert(self.pixels@ =~= with_texel(old(self).pixels@, start as int, pixel@));
        self
    }

    /// Returns the packed row-major RGBA8 pixels, four bytes per pixel.
    pub fn pixels(&self) -> (pixels: &[u8])
        ensures
            pixels@ == self.pixels@,
    {
        self.pixels.as_slice()
    }

    /// Returns the packed row-major RGBA8 pixels for manual editing.
    ///
    /// The buffer must stay tightly packed RGBA8 (`width * height * 4` bytes);
    /// its length cannot change through the returned slice.
    pub fn pixels_mut(&mut self) -> (pixels: &mut [u8])
        ensures
            pixels@ == old(self).pixels@,
            final(self).pixels@ == final(pixels)@,
            final(self).width == old(self).width,
            final(self).height == old(self).height,
            final(self).color_space == old(self).color_space,
    {
        self.pixels.as_mut_slice()
    }

    /// Mirrors the texture left-to-right and returns it for chaining.
    pub fn flip_horizontal(self) -> (flipped: Self)
        requires
            self.width > 0,
            self.pixels@.len() == self.width * self.height * 4,
        ensures
            self.is_valid() ==> flipped.is_valid(),
            flipped.width == self.width,
            flipped.height == self.height,
            flipped.color_space == self.color_space,
            flipped.pixels@ == flipped_horizontal(self.width as int, self.pixels@),
    {
        let mut this = self;
        flip_horizontal_in_place(this.width, this.height, &mut this.pixels);
        this
    }

    /// Mirrors the texture top-to-bottom and returns it for chaining.
    pub fn flip_vertical(self) -> (flipped: Self)
        requires
            self.pixels@.len() == self.width * self.height * 4,
        ensures
            self.is_valid() ==> flipped.is_valid(),
            flipped.width == self.width,
            flipped.height == self.height,
            flipped.color_space == self.color_space,
            flipped.pixels@ == flipped_vertical(self.width as int, self.height as int, self.pixels@),
    {
        let mut this = self;
        flip_vertical_in_place(this.width, this.height, &mut this.pixels);
        this
    }

    /// Rotates the texture 90 degrees clockwise and returns it for chaining.
    ///
    /// Width and height are swapped.
    pub fn rotate90(self) -> (rotated: Self)
        requires
            self.width * self.height * 4 <= self.pixels@.len(),
        ensures
            self.is_valid() ==> rotated.is_valid(),
            rotated.width == self.height,
            rotated.height == self.width,
            rotated.color_space == self.color_space,
            rotated.pixels@ == rotated90(self.width as int, self.height as int, self.pixels@),
    {
        let mut this = self;
        rotate90_cw_in_place(&mut this.width, &mut this.height, &mut this.pixels);
        assert(this.width * this.height * 4 == this.height * this.width * 4) by (nonlinear_arith);
        this
    }

    /// Rotates the texture 180 degrees and returns it for chaining.
    pub fn rotate180(self) -> (rotated: Self)
        ensures
            self.is_valid() ==> rotated.is_valid(),
            rotated.width == self.width,
            rotated.height == self.height,
            rotated.color_space == self.color_space,
            rotated.pixels@ == reversed_texels(self.pixels@),
    {
        let mut this = self;
        rotate180_in_place(&mut this.pixels);
        this
    }

    /// Rotates the texture 270 degrees clockwise (90 degrees
    /// counter-clockwise) and returns it for chaining.
    ///
    /// Width and height are swapped.
    pub fn rotate270(self) -> (rotated: Self)
        requires
            self.width * self.height * 4 <= self.pixels@.len(),
        ensures
            self.is_valid() ==> rotated.is_valid(),
            rotated.width == self.height,
            rotated.height == self.width,
            rotated.color_space == self.color_space,
            rotated.pixels@ == rotated270(self.width as int, self.height as int, self.pixels@),
    {
        let mut this = self;
        rotate270_cw_in_place(&mut this.width, &mut this.height, &mut this.pixels);
        assert(this.width * this.height * 4 == this.height * this.width * 4) by (nonlinear_arith);
        this
    }

    /// Converts the texture to grayscale and returns it for chaining.
    ///
    /// Each pixel's RGB channels are replaced by their byte-space luma while
    /// alpha is preserved.
    ///
    /// The luma is computed exactly in integers and rounded half up; where the
    /// weighted sum lies within rounding error of a half, single-precision
    /// arithmetic can give one less: the texel (3, 44, 47) gets luma 36 here,
    /// where a computation in `f32` gives 35.
    pub fn grayscale(self) -> (gray: Self)
        ensures
            self.is_valid() ==> gray.is_valid(),
            gray.width == self.width,
            gray.height == self.height,
            gray.color_space == self.color_space,
            gray.pixels@ == grayscaled(self.pixels@),
    {
        let mut this = self;
        grayscale_in_place(&mut this.pixels);
        this
    }

    /// Inverts the RGB channels (`255 - value`) and returns the texture for
    /// chaining. Alpha is preserved.
    pub fn invert_rgb(self) -> (inverted: Self)
        ensures
            self.is_valid() ==> inverted.is_valid(),
            inverted.width == self.width,
            inverted.height == self.height,
            inverted.color_space == self.color_space,
            inverted.pixels@ == inverted_rgb(self.pixels@),
    {
        let mut this = self;
        invert_rgb_in_place(&mut this.pixels);
        this
    }
}

} // verus!
