//! The texture part of glTF material import: which texture maps of a
//! material become workspace textures, in which color space, with which
//! sampling filter, and how images shared between maps are stored once.
use vstd::prelude::*;
use crate::material::{Image, Texture, TextureColorSpace, TextureFilter, TextureHandle, TextureSet, rgba8_check};
use crate::mesh_import::GltfError;
use crate::workspace_textures::{WorkspaceTextures, next_revision};

verus! {

/// The magnification filter of a glTF sampler.
#[derive(Clone, Copy, Debug, PartialEq, Eq)]
pub enum MagFilter {
    /// Point sampling.
    Nearest,
    /// Bilinear sampling.
    Linear,
}

/// The minification filter of a glTF sampler.
#[derive(Clone, Copy, Debug, PartialEq, Eq)]
pub enum MinFilter {
    /// Point sampling of the base level.
    Nearest,
    /// Bilinear sampling of the base level.
    Linear,
    /// Point sampling of the nearest mip level.
    NearestMipmapNearest,
    /// Bilinear sampling of the nearest mip level.
    LinearMipmapNearest,
    /// Point sampling blended across two mip levels.
    NearestMipmapLinear,
    /// Bilinear sampling blended across two mip levels.
    LinearMipmapLinear,
}

/// A texture map of a glTF material: the image it samples, the
/// texture-coordinate set it reads and the filters of its sampler.
#[derive(Clone, Copy, Debug, PartialEq, Eq)]
pub struct TextureSource {
    /// Index of the sampled image among the document's images.
    pub image: usize,
    /// The texture-coordinate set the map is sampled with.
    pub tex_coord: u32,
    /// The sampler's minification filter, if it names one.
    pub min_filter: Option<MinFilter>,
    /// The sampler's magnification filter, if it names one.
    pub mag_filter: Option<MagFilter>,
}

/// The texture filter that a glTF sampler maps to: point-sampled
/// minification gives `Nearest`, bilinear minification that does not blend
/// bilinear mips gives `Bilinear`, fully trilinear minification gives
/// `Trilinear`; with no minification filter, a nearest magnification filter
/// gives `Nearest` and anything else `Trilinear`.
pub open spec fn import_filter_spec(min_filter: Option<MinFilter>, mag_filter: Option<MagFilter>) -> TextureFilter {
    match min_filter {
        Some(MinFilter::Nearest) | Some(MinFilter::NearestMipmapNearest) => TextureFilter::Nearest,
        Some(MinFilter::Linear) | Some(MinFilter::LinearMipmapNearest) | Some(MinFilter::NearestMipmapLinear) => TextureFilter::Bilinear,
        Some(MinFilter::LinearMipmapLinear) => TextureFilter::Trilinear,
        None => if mag_filter == Some(MagFilter::Nearest) { TextureFilter::Nearest } else { TextureFilter::Trilinear },
    }
}

/// Maps the filters of a glTF sampler to a material texture filter.
pub fn import_filter(min_filter: Option<MinFilter>, mag_filter: Option<MagFilter>) -> (filter: TextureFilter)
    ensures
        filter == import_filter_spec(min_filter, mag_filter),
{
    match min_filter {
        Some(MinFilter::Nearest) | Some(MinFilter::NearestMipmapNearest) => TextureFilter::Nearest,
        Some(MinFilter::Linear) | Some(MinFilter::LinearMipmapNearest) | Some(MinFilter::NearestMipmapLinear) => TextureFilter::Bilinear,
        Some(MinFilter::LinearMipmapLinear) => TextureFilter::Trilinear,
        None => match mag_filter {
            Some(MagFilter::Nearest) => TextureFilter::Nearest,
            _ => TextureFilter::Trilinear,
        },
    }
}

/// A cache entry: the image, the color space it was stored in, and the
/// handle of the stored texture.
pub type CacheEntry = (usize, TextureColorSpace, TextureHandle);

/// A stored texture as its width, height, pixels and color space.
pub open spec fn texture_view(texture: Texture) -> (u32, u32, Seq<u8>, TextureColorSpace) {
    (texture.width, texture.height, texture.pixels@, texture.color_space)
}

/// The part of a workspace's texture store and of the import cache that
/// material import reads and changes.
pub struct ImportState {
    /// The stored textures, in handle order.
    pub textures: Seq<(u32, u32, Seq<u8>, TextureColorSpace)>,
    /// The revision of each stored texture.
    pub revisions: Seq<u64>,
    /// The store's revision counter.
    pub revision: u64,
    /// The number of changes the store has seen.
    pub changes: nat,
    /// The cache of imported images.
    pub cache: Seq<CacheEntry>,
}

/// The import state of `store` together with `cache`.
pub open spec fn import_state(store: WorkspaceTextures, cache: Seq<CacheEntry>) -> ImportState {
    ImportState {
        textures: store.textures().map_values(|t: Texture| texture_view(t)),
        revisions: store.revisions(),
        revision: store.revision(),
        changes: store.changes(),
        cache,
    }
}

/// The handle cached for `image` in `color_space`; the latest entry wins.
pub open spec fn cached_texture(cache: Seq<CacheEntry>, image: usize, color_space: TextureColorSpace) -> Option<TextureHandle>
    decreases cache.len(),
{
    if cache.len() == 0 {
        None
    } else if cache.last().0 == image && cache.last().1 == color_space {
        Some(cache.last().2)
    } else {
        cached_texture(cache.drop_last(), image, color_space)
    }
}

/// Whether no image is cached twice in the same color space.
pub open spec fn cache_keys_distinct(cache: Seq<CacheEntry>) -> bool {
    forall|i: int, j: int| 0 <= i < j < cache.len() ==> !(#[trigger] cache[i].0 == #[trigger] cache[j].0 && cache[i].1 == cache[j].1)
}

/// An image that the cache has no handle for appears in no entry.
proof fn lemma_uncached_absent(cache: Seq<CacheEntry>, image: usize, color_space: TextureColorSpace)
    requires
        cached_texture(cache, image, color_space) is None,
    ensures
        forall|i: int| 0 <= i < cache.len() ==> !(#[trigger] cache[i].0 == image && cache[i].1 == color_space),
    decreases cache.len(),
{
    if cache.len() > 0 {
        lemma_uncached_absent(cache.drop_last(), image, color_space);
        assert forall|i: int| 0 <= i < cache.len() implies !(#[trigger] cache[i].0 == image && cache[i].1 == color_space) by {
            if i < cache.len() - 1 {
                assert(cache.drop_last()[i] == cache[i]);
            }
        }
    }
}

/// Whether a map is imported at all: it is present and reads the first
/// texture-coordinate set, the only one the renderer supports.
pub open spec fn is_imported(source: Option<TextureSource>) -> bool {
    source matches Some(source) && source.tex_coord == 0
}

/// Whether importing `source` stays within `images`: it is skipped, found
/// in the cache, or names one of the images.
pub open spec fn map_in_range(images: Seq<Image>, source: Option<TextureSource>, color_space: TextureColorSpace, s: ImportState) -> bool {
    is_imported(source) ==> (cached_texture(s.cache, source->0.image, color_space) is Some || source->0.image < images.len())
}

/// Importing one map: a skipped map gives no handle; a cached image gives
/// its cached handle; otherwise the image is stored as a new texture in
/// `color_space` and cached, or its pixel check fails.
pub open spec fn imported_map(
    images: Seq<Image>,
    source: Option<TextureSource>,
    color_space: TextureColorSpace,
    s: ImportState,
) -> (Result<Option<TextureHandle>, GltfError>, ImportState) {
    if !is_imported(source) {
        (Ok(None), s)
    } else {
        let index = source->0.image;
        match cached_texture(s.cache, index, color_space) {
            Some(handle) => (Ok(Some(handle)), s),
            None => {
                let image = images[index as int];
                match rgba8_check(image.width, image.height, image.pixels@.len() as int) {
                    Err(error) => (Err(GltfError::Texture(error)), s),
                    Ok(()) => {
                        let handle = TextureHandle(s.textures.len() as usize);
                        let revision = next_revision(s.revision);
                        (Ok(Some(handle)), ImportState {
                            textures: s.textures.push((image.width, image.height, image.pixels@, color_space)),
                            revisions: s.revisions.push(revision),
                            revision,
                            changes: s.changes + 1,
                            cache: s.cache.push((index, color_space, handle)),
                        })
                    },
                }
            },
        }
    }
}

/// The filter of an imported material: the sampler of the first map present,
/// in the order base color, normal, metallic-roughness, emissive, if that
/// map is imported; none otherwise.
pub open spec fn material_filter(
    base_color: Option<TextureSource>,
    normal: Option<TextureSource>,
    metallic_roughness: Option<TextureSource>,
    emissive: Option<TextureSource>,
) -> Option<TextureFilter> {
    let first = if base_color is Some {
        base_color
    } else if normal is Some {
        normal
    } else if metallic_roughness is Some {
        metallic_roughness
    } else {
        emissive
    };
    if is_imported(first) {
        Some(import_filter_spec(first->0.min_filter, first->0.mag_filter))
    } else {
        None
    }
}

/// Importing the four maps of a material in turn, base color and emissive
/// in sRGB, normal and metallic-roughness as linear data, stopping at the
/// first error.
pub open spec fn imported_material(
    images: Seq<Image>,
    base_color: Option<TextureSource>,
    normal: Option<TextureSource>,
    metallic_roughness: Option<TextureSource>,
    emissive: Option<TextureSource>,
    s0: ImportState,
) -> (Result<TextureSet, GltfError>, ImportState) {
    let (r0, s1) = imported_map(images, base_color, TextureColorSpace::Srgb, s0);
    let (r1, s2) = imported_map(images, normal, TextureColorSpace::Linear, s1);
    let (r2, s3) = imported_map(images, metallic_roughness, TextureColorSpace::Linear, s2);
    let (r3, s4) = imported_map(images, emissive, TextureColorSpace::Srgb, s3);
    match r0 {
        Err(error) => (Err(error), s1),
        Ok(b) => match r1 {
            Err(error) => (Err(error), s2),
            Ok(n) => match r2 {
                Err(error) => (Err(error), s3),
                Ok(m) => match r3 {
                    Err(error) => (Err(error), s4),
                    Ok(e) => (Ok(TextureSet { base_color: b, normal: n, metallic_roughness: m, emissive: e }), s4),
                },
            },
        },
    }
}

/// Whether every map that material import reaches names an image in range
/// or finds its image in the cache.
pub open spec fn material_in_range(
    images: Seq<Image>,
    base_color: Option<TextureSource>,
    normal: Option<TextureSource>,
    metallic_roughness: Option<TextureSource>,
    emissive: Option<TextureSource>,
    s0: ImportState,
) -> bool {
    let (r0, s1) = imported_map(images, base_color, TextureColorSpace::Srgb, s0);
    let (r1, s2) = imported_map(images, normal, TextureColorSpace::Linear, s1);
    let (r2, s3) = imported_map(images, metallic_roughness, TextureColorSpace::Linear, s2);
    &&& map_in_range(images, base_color, TextureColorSpace::Srgb, s0)
    &&& r0 is Ok ==> map_in_range(images, normal, TextureColorSpace::Linear, s1)
    &&& r0 is Ok && r1 is Ok ==> map_in_range(images, metallic_roughness, TextureColorSpace::Linear, s2)
    &&& r0 is Ok && r1 is Ok && r2 is Ok ==> map_in_range(images, emissive, TextureColorSpace::Srgb, s3)
}

fn same_color_space(a: TextureColorSpace, b: TextureColorSpace) -> (same: bool)
    ensures
        same == (a == b),
{
    match (a, b) {
        (TextureColorSpace::Srgb, TextureColorSpace::Srgb) => true,
        (TextureColorSpace::Linear, TextureColorSpace::Linear) => true,
        _ => false,
    }
}

/// Looks `image` in `color_space` up in the cache.
fn find_cached(cache: &Vec<CacheEntry>, image: usize, color_space: TextureColorSpace) -> (found: Option<TextureHandle>)
    ensures
        found == cached_texture(cache@, image, color_space),
{
    let mut i: usize = cache.len();
    assert(cache@.take(i as int) =~= cache@);
    while i > 0
        invariant
            i <= cache@.len(),
            cached_texture(cache@, image, color_space) == cached_texture(cache@.take(i as int), image, color_space),
        decreases i,
    {
        let entry: CacheEntry = cache[i - 1];
        proof {
            assert(cache@.take(i as int).last() == cache@[i - 1]);
            assert(cache@.take(i - 1) =~= cache@.take(i as int).drop_last());
        }
        if entry.0 == image && same_color_space(entry.1, color_space) {
            return Some(entry.2);
        }
        i = i - 1;
    }
    assert(cache@.take(0) =~= Seq::<CacheEntry>::empty());
    None
}

/// Imports one texture map of a material into `store`, reusing a texture
/// already imported from the same image in the same color space.
fn import_map(
    source: Option<TextureSource>,
    color_space: TextureColorSpace,
    images: &[Image],
    store: &mut WorkspaceTextures,
    cache: &mut Vec<CacheEntry>,
) -> (imported: Result<Option<TextureHandle>, GltfError>)
    requires
        old(store).wf(),
        cache_keys_distinct(old(cache)@),
        map_in_range(images@, source, color_space, import_state(*old(store), old(cache)@)),
    ensures
        final(store).wf(),
        cache_keys_distinct(final(cache)@),
        (imported, import_state(*final(store), final(cache)@))
            == imported_map(images@, source, color_space, import_state(*old(store), old(cache)@)),
{
    let source = match source {
        Some(source) => source,
        None => return Ok(None),
    };
    if source.tex_coord != 0 {
        return Ok(None);
    }
    match find_cached(cache, source.image, color_space) {
        Some(handle) => return Ok(Some(handle)),
        None => {},
    }
    let image = &images[source.image];
    let pixels = image.pixels.clone();
    assert(pixels@ =~= image.pixels@);
    let texture = match Texture::with_color_space(image.width, image.height, pixels, color_space) {
        Ok(texture) => texture,
        Err(error) => return Err(GltfError::Texture(error)),
    };
    let ghost before = *store;
    let ghost old_cache = cache@;
    proof {
        lemma_uncached_absent(old_cache, source.image, color_space);
    }
    let handle = match store.add_texture(texture) {
        Ok(handle) => handle,
        Err(error) => return Err(GltfError::Texture(error)),
    };
    cache.push((source.image, color_space, handle));
    proof {
        assert forall|i: int, j: int| 0 <= i < j < cache@.len() implies
            !(#[trigger] cache@[i].0 == #[trigger] cache@[j].0 && cache@[i].1 == cache@[j].1) by {
            if j == cache@.len() - 1 {
                assert(cache@[i] == old_cache[i]);
            } else {
                assert(cache@[i] == old_cache[i] && cache@[j] == old_cache[j]);
            }
        }
        assert(store.textures().map_values(|t: Texture| texture_view(t))
            =~= before.textures().map_values(|t: Texture| texture_view(t)).push(
                (image.width, image.height, image.pixels@, color_space)));
    }
    Ok(Some(handle))
}

/// Imports the texture maps of a glTF material into `store`.
///
/// Only maps on the first texture-coordinate set are imported. Base color
/// and emissive maps are stored as sRGB, normal and metallic-roughness maps
/// as linear data. Each image is stored once per color space: `cache`
/// remembers the handle it was stored under, and never holds an image twice
/// in one color space. The sampler of the first map
/// present picks the material's filter. Each element of `images` is the
/// RGBA8 expansion of the document image at that index.
pub fn material_textures(
    base_color: Option<TextureSource>,
    normal: Option<TextureSource>,
    metallic_roughness: Option<TextureSource>,
    emissive: Option<TextureSource>,
    images: &[Image],
    store: &mut WorkspaceTextures,
    cache: &mut Vec<CacheEntry>,
) -> (imported: Result<(TextureSet, Option<TextureFilter>), GltfError>)
    requires
        old(store).wf(),
        cache_keys_distinct(old(cache)@),
        material_in_range(images@, base_color, normal, metallic_roughness, emissive, import_state(*old(store), old(cache)@)),
    ensures
        final(store).wf(),
        cache_keys_distinct(final(cache)@),
        ({
            let (result, after) = imported_material(
                images@, base_color, normal, metallic_roughness, emissive, import_state(*old(store), old(cache)@));
            &&& import_state(*final(store), final(cache)@) == after
            &&& match result {
                Ok(set) => imported == Ok::<(TextureSet, Option<TextureFilter>), GltfError>(
                    (set, material_filter(base_color, normal, metallic_roughness, emissive))),
                Err(error) => imported matches Err(e) && e == error,
            }
        }),
{
    let base_color_handle = match import_map(base_color, TextureColorSpace::Srgb, images, store, cache) {
        Ok(handle) => handle,
        Err(error) => return Err(error),
    };
    let normal_handle = match import_map(normal, TextureColorSpace::Linear, images, store, cache) {
        Ok(handle) => handle,
        Err(error) => return Err(error),
    };
    let metallic_roughness_handle = match import_map(metallic_roughness, TextureColorSpace::Linear, images, store, cache) {
        Ok(handle) => handle,
        Err(error) => return Err(error),
    };
    let emissive_handle = match import_map(emissive, TextureColorSpace::Srgb, images, store, cache) {
        Ok(handle) => handle,
        Err(error) => return Err(error),
    };
    let first = if base_color.is_some() {
        base_color
    } else if normal.is_some() {
        normal
    } else if metallic_roughness.is_some() {
        metallic_roughness
    } else {
        emissive
    };
    let filter = match first {
        Some(source) => if source.tex_coord == 0 {
            Some(import_filter(source.min_filter, source.mag_filter))
        } else {
            None
        },
        None => None,
    };
    let set = TextureSet {
        base_color: base_color_handle,
        normal: normal_handle,
        metallic_roughness: metallic_roughness_handle,
        emissive: emissive_handle,
    };
    Ok((set, filter))
}


/// The filter of an imported material comes from the first of its maps that
/// is present, in the order base color, normal, metallic-roughness,
/// emissive: it is that map's sampler filter when the map reads the first
/// texture-coordinate set, and none when it reads another; the maps after it
/// play no part. A material with no map has no filter.
pub proof fn law_first_present_map_picks_the_filter(
    base_color: Option<TextureSource>,
    normal: Option<TextureSource>,
    metallic_roughness: Option<TextureSource>,
    emissive: Option<TextureSource>,
)
    ensures
        ({
            let filter = material_filter(base_color, normal, metallic_roughness, emissive);
            let picked_by = |map: TextureSource|
                if map.tex_coord == 0 { Some(import_filter_spec(map.min_filter, map.mag_filter)) } else { None };
            &&& base_color is Some ==> filter == picked_by(base_color->0)
            &&& base_color is None && normal is Some ==> filter == picked_by(normal->0)
            &&& base_color is None && normal is None && metallic_roughness is Some
                ==> filter == picked_by(metallic_roughness->0)
            &&& base_color is None && normal is None && metallic_roughness is None && emissive is Some
                ==> filter == picked_by(emissive->0)
            &&& base_color is None && normal is None && metallic_roughness is None && emissive is None
                ==> filter is None
            &&& forall|n: Option<TextureSource>, m: Option<TextureSource>, e: Option<TextureSource>|
                base_color is Some ==> #[trigger] material_filter(base_color, n, m, e) == filter
            &&& forall|m: Option<TextureSource>, e: Option<TextureSource>|
                base_color is None && normal is Some ==> #[trigger] material_filter(base_color, normal, m, e) == filter
        }),
{
}

/// The filter imported for a glTF sampler samples minification the way the
/// sampler asks: by the nearest texel exactly when its minification filter
/// is a nearest one (or, when it names none, when its magnification filter
/// is nearest), and blending neighbouring texels otherwise.
pub proof fn law_imported_filter_keeps_the_minification(min_filter: Option<MinFilter>, mag_filter: Option<MagFilter>)
    ensures
        (crate::sampler::sampler_settings_spec(import_filter_spec(min_filter, mag_filter)).min_filter
            == crate::sampler::FilterMode::Nearest) <==> match min_filter {
            Some(MinFilter::Nearest) | Some(MinFilter::NearestMipmapNearest) => true,
            Some(_) => false,
            None => mag_filter == Some(MagFilter::Nearest),
        },
{
}


/// The stored texture view of image `index` of `images` in `color_space`.
pub open spec fn image_as_texture(images: Seq<Image>, index: usize, color_space: TextureColorSpace) -> (u32, u32, Seq<u8>, TextureColorSpace) {
    (images[index as int].width, images[index as int].height, images[index as int].pixels@, color_space)
}

/// Whether every cache entry names an image of `images` and a stored
/// texture that is that image in the entry's color space.
pub open spec fn cache_matches_store(images: Seq<Image>, s: ImportState) -> bool {
    forall|e: int| 0 <= e < s.cache.len() ==> {
        let (index, color_space, handle) = #[trigger] s.cache[e];
        &&& index < images.len()
        &&& handle.0 < s.textures.len()
        &&& s.textures[handle.0 as int] == image_as_texture(images, index, color_space)
    }
}

proof fn lemma_cached_entry(cache: Seq<CacheEntry>, image: usize, color_space: TextureColorSpace)
    requires
        cached_texture(cache, image, color_space) is Some,
    ensures
        exists|e: int| 0 <= e < cache.len() && #[trigger] cache[e]
            == (image, color_space, cached_texture(cache, image, color_space)->0),
    decreases cache.len(),
{
    if !(cache.last().0 == image && cache.last().1 == color_space) {
        lemma_cached_entry(cache.drop_last(), image, color_space);
        let e = choose|e: int| 0 <= e < cache.drop_last().len() && #[trigger] cache.drop_last()[e]
            == (image, color_space, cached_texture(cache.drop_last(), image, color_space)->0);
        assert(cache[e] == cache.drop_last()[e]);
    } else {
        assert(cache[cache.len() - 1] == cache.last());
    }
}

/// Importing one map keeps the cache true to the store, keeps every stored
/// texture, and hands out a handle exactly for an imported map, naming the
/// map's image in the map's color space.
proof fn lemma_imported_map_faithful(
    images: Seq<Image>,
    source: Option<TextureSource>,
    color_space: TextureColorSpace,
    s: ImportState,
)
    requires
        cache_matches_store(images, s),
        map_in_range(images, source, color_space, s),
        s.textures.len() < usize::MAX,
    ensures
        ({
            let (result, after) = imported_map(images, source, color_space, s);
            &&& cache_matches_store(images, after)
            &&& s.textures.len() <= after.textures.len() <= s.textures.len() + 1
            &&& forall|k: int| 0 <= k < s.textures.len() ==> #[trigger] after.textures[k] == s.textures[k]
            &&& result matches Ok(handle) ==> (handle is Some <==> is_imported(source))
            &&& result matches Ok(Some(handle)) ==> handle.0 < after.textures.len()
                && after.textures[handle.0 as int] == image_as_texture(images, source->0.image, color_space)
        }),
{
    if is_imported(source) {
        let index = source->0.image;
        match cached_texture(s.cache, index, color_space) {
            Some(handle) => {
                lemma_cached_entry(s.cache, index, color_space);
                let e = choose|e: int| 0 <= e < s.cache.len() && #[trigger] s.cache[e] == (index, color_space, handle);
                assert(s.cache[e] == (index, color_space, handle));
            },
            None => {
                let (result, after) = imported_map(images, source, color_space, s);
                if result is Ok {
                    let handle = TextureHandle(s.textures.len() as usize);
                    assert(index < images.len());
                    assert(after.textures == s.textures.push(image_as_texture(images, index, color_space)));
                    assert(after.cache == s.cache.push((index, color_space, handle)));
                    assert forall|e: int| 0 <= e < after.cache.len() implies {
                        let (i2, c2, h2) = #[trigger] after.cache[e];
                        &&& i2 < images.len()
                        &&& h2.0 < after.textures.len()
                        &&& after.textures[h2.0 as int] == image_as_texture(images, i2, c2)
                    } by {
                        if e < s.cache.len() {
                            assert(after.cache[e] == s.cache[e]);
                            let (i2, c2, h2) = s.cache[e];
                            assert(after.textures[h2.0 as int] == s.textures[h2.0 as int]);
                        }
                    }
                }
            },
        }
    }
}

/// Material import stores each map on the first texture-coordinate set and
/// only those: the handle returned for a map names a stored texture that is
/// the map's image, in sRGB for the base color and emissive maps and as
/// linear data for the normal and metallic-roughness maps. The textures
/// already stored stay as they were, and the cache stays true to the store.
pub proof fn law_imported_maps_are_their_images(
    images: Seq<Image>,
    base_color: Option<TextureSource>,
    normal: Option<TextureSource>,
    metallic_roughness: Option<TextureSource>,
    emissive: Option<TextureSource>,
    s0: ImportState,
)
    requires
        cache_matches_store(images, s0),
        material_in_range(images, base_color, normal, metallic_roughness, emissive, s0),
        s0.textures.len() + 4 <= usize::MAX,
    ensures
        ({
            let (result, after) = imported_material(images, base_color, normal, metallic_roughness, emissive, s0);
            let stored_as = |handle: Option<TextureHandle>, map: Option<TextureSource>, color_space: TextureColorSpace|
                (handle is Some <==> is_imported(map)) && (handle matches Some(h) ==> h.0 < after.textures.len()
                    && after.textures[h.0 as int] == image_as_texture(images, map->0.image, color_space));
            &&& cache_matches_store(images, after)
            &&& s0.textures.len() <= after.textures.len()
            &&& forall|k: int| 0 <= k < s0.textures.len() ==> #[trigger] after.textures[k] == s0.textures[k]
            &&& result matches Ok(set) ==> {
                &&& stored_as(set.base_color, base_color, TextureColorSpace::Srgb)
                &&& stored_as(set.normal, normal, TextureColorSpace::Linear)
                &&& stored_as(set.metallic_roughness, metallic_roughness, TextureColorSpace::Linear)
                &&& stored_as(set.emissive, emissive, TextureColorSpace::Srgb)
            }
        }),
{
    let (r0, s1) = imported_map(images, base_color, TextureColorSpace::Srgb, s0);
    lemma_imported_map_faithful(images, base_color, TextureColorSpace::Srgb, s0);
    if r0 is Ok {
        let (r1, s2) = imported_map(images, normal, TextureColorSpace::Linear, s1);
        lemma_imported_map_faithful(images, normal, TextureColorSpace::Linear, s1);
        if r1 is Ok {
            let (r2, s3) = imported_map(images, metallic_roughness, TextureColorSpace::Linear, s2);
            lemma_imported_map_faithful(images, metallic_roughness, TextureColorSpace::Linear, s2);
            if r2 is Ok {
                let (r3, s4) = imported_map(images, emissive, TextureColorSpace::Srgb, s3);
                lemma_imported_map_faithful(images, emissive, TextureColorSpace::Srgb, s3);
            }
        }
    }
}

} // verus!
