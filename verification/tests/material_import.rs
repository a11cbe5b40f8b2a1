use terrarium::material_import::CacheEntry;
use terrarium::surface::unpadded_pixels;
use terrarium::{
    import_filter, material_textures, sampler_settings, FilterMode, GltfError, Image, MagFilter, MinFilter,
    SamplerSettings, TextureColorSpace, TextureError, TextureFilter, TextureHandle, TextureSource, WorkspaceTextures,
};

fn source(image: usize, tex_coord: u32, min_filter: Option<MinFilter>, mag_filter: Option<MagFilter>) -> TextureSource {
    TextureSource { image, tex_coord, min_filter, mag_filter }
}

fn solid(width: u32, height: u32, value: u8) -> Image {
    Image { width, height, pixels: vec![value; (width * height * 4) as usize] }
}

#[test]
fn gltf_samplers_map_to_texture_filters() {
    assert_eq!(import_filter(Some(MinFilter::Nearest), None), TextureFilter::Nearest);
    assert_eq!(import_filter(Some(MinFilter::NearestMipmapNearest), Some(MagFilter::Linear)), TextureFilter::Nearest);
    assert_eq!(import_filter(Some(MinFilter::Linear), None), TextureFilter::Bilinear);
    assert_eq!(import_filter(Some(MinFilter::LinearMipmapNearest), None), TextureFilter::Bilinear);
    assert_eq!(import_filter(Some(MinFilter::NearestMipmapLinear), None), TextureFilter::Bilinear);
    assert_eq!(import_filter(Some(MinFilter::LinearMipmapLinear), Some(MagFilter::Nearest)), TextureFilter::Trilinear);
    assert_eq!(import_filter(None, Some(MagFilter::Nearest)), TextureFilter::Nearest);
    assert_eq!(import_filter(None, Some(MagFilter::Linear)), TextureFilter::Trilinear);
    assert_eq!(import_filter(None, None), TextureFilter::Trilinear);
}

#[test]
fn each_filter_selects_its_sampler() {
    let nearest = FilterMode::Nearest;
    let linear = FilterMode::Linear;
    let expected = [
        (TextureFilter::Nearest, nearest, nearest, nearest, 1),
        (TextureFilter::Bilinear, linear, linear, nearest, 1),
        (TextureFilter::Trilinear, linear, linear, linear, 1),
        (TextureFilter::Anisotropic4x, linear, linear, linear, 4),
        (TextureFilter::Anisotropic8x, linear, linear, linear, 8),
        (TextureFilter::Anisotropic16x, linear, linear, linear, 16),
    ];
    for (filter, mag_filter, min_filter, mipmap_filter, anisotropy_clamp) in expected {
        assert_eq!(
            sampler_settings(filter),
            SamplerSettings { mag_filter, min_filter, mipmap_filter, anisotropy_clamp }
        );
    }
}

#[test]
fn material_maps_are_imported_in_their_color_spaces_and_shared() {
    let images = vec![solid(1, 1, 10), solid(2, 1, 20)];
    let mut store = WorkspaceTextures::new();
    let mut cache: Vec<CacheEntry> = Vec::new();
    let (set, filter) = material_textures(
        Some(source(0, 0, Some(MinFilter::Linear), None)),
        Some(source(1, 0, Some(MinFilter::Nearest), None)),
        Some(source(1, 0, None, None)),
        Some(source(0, 0, None, None)),
        &images,
        &mut store,
        &mut cache,
    )
    .unwrap();
    assert_eq!(set.base_color, Some(TextureHandle(0)));
    assert_eq!(set.normal, Some(TextureHandle(1)));
    assert_eq!(set.metallic_roughness, Some(TextureHandle(1)));
    assert_eq!(set.emissive, Some(TextureHandle(0)));
    assert_eq!(filter, Some(TextureFilter::Bilinear));
    assert_eq!(store.get_texture(TextureHandle(0)).unwrap().color_space, TextureColorSpace::Srgb);
    assert_eq!(store.get_texture(TextureHandle(1)).unwrap().color_space, TextureColorSpace::Linear);
    assert_eq!(store.get_texture(TextureHandle(1)).unwrap().width, 2);
    assert!(store.get_texture(TextureHandle(2)).is_none());
    assert_eq!(cache.len(), 2);

    // The same image as linear data is a texture of its own.
    let (set, _) = material_textures(None, Some(source(0, 0, None, None)), None, None, &images, &mut store, &mut cache)
        .unwrap();
    assert_eq!(set.normal, Some(TextureHandle(2)));
    assert_eq!(store.get_texture(TextureHandle(2)).unwrap().color_space, TextureColorSpace::Linear);
}

#[test]
fn maps_on_other_uv_sets_are_skipped_and_the_first_map_present_picks_the_filter() {
    let images = vec![solid(1, 1, 10)];
    let mut store = WorkspaceTextures::new();
    let mut cache: Vec<CacheEntry> = Vec::new();
    let (set, filter) = material_textures(
        Some(source(0, 1, Some(MinFilter::Nearest), None)),
        Some(source(0, 0, Some(MinFilter::Linear), None)),
        None,
        None,
        &images,
        &mut store,
        &mut cache,
    )
    .unwrap();
    assert_eq!(set.base_color, None);
    assert_eq!(set.normal, Some(TextureHandle(0)));
    assert_eq!(filter, None);

    let (_, filter) = material_textures(
        None,
        None,
        None,
        Some(source(0, 0, None, Some(MagFilter::Nearest))),
        &images,
        &mut store,
        &mut cache,
    )
    .unwrap();
    assert_eq!(filter, Some(TextureFilter::Nearest));

    let (set, filter) = material_textures(None, None, None, None, &images, &mut store, &mut cache).unwrap();
    assert_eq!(set.base_color, None);
    assert_eq!(filter, None);
}

#[test]
fn a_bad_image_stops_the_import_after_the_earlier_maps() {
    let images = vec![solid(1, 1, 10), Image { width: 2, height: 2, pixels: vec![0; 3] }];
    let mut store = WorkspaceTextures::new();
    let mut cache: Vec<CacheEntry> = Vec::new();
    let result = material_textures(
        Some(source(0, 0, None, None)),
        Some(source(1, 0, None, None)),
        Some(source(0, 0, None, None)),
        None,
        &images,
        &mut store,
        &mut cache,
    );
    assert!(matches!(
        result,
        Err(GltfError::Texture(TextureError::InvalidData { actual: 3, expected: 16 }))
    ));
    assert!(store.get_texture(TextureHandle(0)).is_some());
    assert!(store.get_texture(TextureHandle(1)).is_none());
    assert_eq!(cache.len(), 1);
}

#[test]
fn read_back_rows_drop_their_padding() {
    // Two rows of two pixels, each row padded to 12 bytes, and a partial row.
    let mapped: Vec<u8> = (0..28).collect();
    let pixels = unpadded_pixels(&mapped, 12, 2);
    assert_eq!(pixels, vec![[0, 1, 2, 3], [4, 5, 6, 7], [12, 13, 14, 15], [16, 17, 18, 19]]);
    assert!(unpadded_pixels(&mapped, 12, 0).is_empty());
}
