use terrarium::face::Face;
use terrarium::pixel_format::{append_u16_pixels, append_u8_pixels};
use terrarium::srgb::{linear_to_srgb, linear_to_srgb_byte, srgb_to_linear, LINEAR_ONE};
use terrarium::surface::{align_to, encode_srgb_rgb, pack_surface_pixels};
use terrarium::mip::downsample_rgba8;
use terrarium::{Image, OutlineMode, Texture, TextureColorSpace, TextureError, TextureFilter};

// A 2x1 RGBA PNG holding the pixels [1, 2, 3, 4] and [5, 6, 7, 8].
const PNG_2X1: [u8; 74] = [
    137, 80, 78, 71, 13, 10, 26, 10, 0, 0, 0, 13, 73, 72, 68, 82, 0, 0, 0, 2, 0, 0, 0, 1, 8, 6, 0,
    0, 0, 244, 34, 127, 138, 0, 0, 0, 17, 73, 68, 65, 84, 120, 156, 99, 96, 100, 98, 102, 97, 101,
    99, 231, 0, 0, 0, 129, 0, 37, 152, 117, 208, 159, 0, 0, 0, 0, 73, 69, 78, 68, 174, 66, 96, 130,
];

#[test]
fn validation_reports_each_error() {
    assert!(matches!(Texture::new(0, 4, vec![]), Err(TextureError::ZeroDimensions)));
    assert!(matches!(Texture::new(4, 0, vec![]), Err(TextureError::ZeroDimensions)));
    assert!(matches!(
        Texture::linear(u32::MAX, u32::MAX, vec![]),
        Err(TextureError::DimensionsTooLarge)
    ));
    assert!(matches!(
        Image::from_rgba8(1, 2, vec![0; 9]),
        Err(TextureError::InvalidData { actual: 9, expected: 8 })
    ));
    let texture = Texture { width: 1, height: 1, pixels: vec![0; 5], color_space: TextureColorSpace::Srgb };
    assert!(matches!(texture.validate(), Err(TextureError::InvalidData { actual: 5, expected: 4 })));
    assert!(matches!(texture.mip_levels(), Err(TextureError::InvalidData { actual: 5, expected: 4 })));
    assert!(Texture::new(1, 1, vec![0; 4]).unwrap().validate().is_ok());
}

#[test]
fn decoding_reads_png_pixels() {
    let image = Image::from_bytes(&PNG_2X1).unwrap();
    assert_eq!((image.width, image.height), (2, 1));
    assert_eq!(image.pixels, vec![1, 2, 3, 4, 5, 6, 7, 8]);
    let texture = Texture::from_bytes(&PNG_2X1, TextureColorSpace::Linear).unwrap();
    assert_eq!(texture.pixel(1, 0), [5, 6, 7, 8]);
    assert_eq!(texture.color_space, TextureColorSpace::Linear);
}

#[test]
fn decoding_garbage_reports_an_image_error() {
    assert!(matches!(Image::from_bytes(&[1, 2, 3]), Err(TextureError::ImageDecode(_))));
    assert!(matches!(
        Texture::from_bytes(&PNG_2X1[..40], TextureColorSpace::Srgb),
        Err(TextureError::ImageDecode(_))
    ));
}

#[test]
fn decoded_pixels_are_checked_like_raw_pixels() {
    let image = Image::from_decoded(Ok((1, 1, vec![1, 2, 3, 4]))).unwrap();
    assert_eq!(image.pixel(0, 0), [1, 2, 3, 4]);
    assert!(matches!(
        Image::from_decoded(Ok((2, 1, vec![1, 2, 3, 4]))),
        Err(TextureError::InvalidData { actual: 4, expected: 8 })
    ));
    let texture = Texture::from_image(image, TextureColorSpace::Srgb).unwrap();
    assert_eq!(texture.pixels(), &[1, 2, 3, 4]);
}

#[test]
fn transforms_compose_as_the_laws_state() {
    let pixels: Vec<u8> = (0..24).collect();
    let texture = Texture::linear(3, 2, pixels.clone()).unwrap();
    let half_turn = texture.clone().rotate180();
    assert_eq!(texture.clone().flip_horizontal().flip_vertical(), half_turn);
    assert_eq!(texture.clone().rotate90().rotate90(), half_turn);
    assert_eq!(texture.clone().rotate90().rotate270(), texture);
    assert_eq!(texture.clone().rotate270().rotate90(), texture);
    assert_eq!(texture.clone().invert_rgb().invert_rgb(), texture);
    let gray = texture.clone().grayscale();
    assert_eq!(gray.clone().grayscale(), gray);
    let rotated = texture.clone().rotate90();
    assert_eq!((rotated.width, rotated.height), (2, 3));
    // Texel (1, 0) of the 3x2 source lands at (1, 1) after a clockwise turn.
    assert_eq!(rotated.pixel(1, 1), texture.pixel(1, 0));
}

#[test]
fn set_pixel_changes_only_its_texel() {
    let mut texture = Texture::linear(2, 2, vec![0; 16]).unwrap();
    texture.set_pixel(1, 1, [1, 2, 3, 4]).set_pixel(0, 1, [5, 6, 7, 8]);
    assert_eq!(texture.pixel(1, 1), [1, 2, 3, 4]);
    assert_eq!(texture.pixel(0, 1), [5, 6, 7, 8]);
    assert_eq!(texture.pixel(0, 0), [0, 0, 0, 0]);
    assert_eq!(texture.pixel(1, 0), [0, 0, 0, 0]);
}

#[test]
fn rotate180_and_colour_ops_keep_a_trailing_partial_texel() {
    let image = Image { width: 1, height: 1, pixels: vec![1, 2, 3, 4, 5, 6, 7, 8, 9] };
    assert_eq!(image.clone().rotate180().pixels, vec![5, 6, 7, 8, 1, 2, 3, 4, 9]);
    assert_eq!(image.clone().invert_rgb().pixels, vec![254, 253, 252, 4, 250, 249, 248, 8, 9]);
    assert_eq!(image.grayscale().pixels, vec![2, 2, 2, 4, 6, 6, 6, 8, 9]);
}

#[test]
fn mip_chains_halve_to_one_texel() {
    let texture = Texture::linear(5, 2, vec![100; 40]).unwrap();
    assert_eq!(texture.mip_level_count(), 3);
    let levels = texture.mip_levels().unwrap();
    let sizes: Vec<(u32, u32)> = levels.iter().map(|level| (level.width, level.height)).collect();
    assert_eq!(sizes, vec![(5, 2), (2, 1), (1, 1)]);
    assert_eq!(levels[2].pixels, vec![100; 4]);
    assert_eq!(Texture::linear(1, 1, vec![0; 4]).unwrap().mip_level_count(), 1);
    assert_eq!(Texture { width: 0, height: 0, pixels: vec![], color_space: TextureColorSpace::Linear }.mip_level_count(), 0);
    assert_eq!(Texture::linear(1024, 1, vec![0; 4096]).unwrap().mip_level_count(), 11);
}

#[test]
fn downsampling_rounds_linear_averages_half_up() {
    let source = vec![0, 0, 0, 0, 1, 1, 1, 1];
    assert_eq!(downsample_rgba8(2, 1, 1, 1, &source, TextureColorSpace::Linear), vec![1, 1, 1, 1]);
    // The 3-wide row keeps its last column: 0, 3 and 6 average to 3.
    let source = vec![0, 0, 0, 0, 3, 3, 3, 3, 6, 6, 6, 6];
    assert_eq!(downsample_rgba8(3, 1, 1, 1, &source, TextureColorSpace::Linear), vec![3, 3, 3, 3]);
}

#[test]
fn srgb_transfer_matches_the_reference_curve() {
    assert_eq!(srgb_to_linear(0), 0);
    assert_eq!(srgb_to_linear(255) as u64, LINEAR_ONE);
    assert_eq!(linear_to_srgb(0), 0);
    assert_eq!(linear_to_srgb(65535), 255);
    assert_eq!(linear_to_srgb(32768), 188);
    assert_eq!(linear_to_srgb_byte(0), 0);
    assert_eq!(linear_to_srgb_byte(1), 13);
    assert_eq!(linear_to_srgb_byte(10), 56);
    assert_eq!(linear_to_srgb_byte(128), 188);
    assert_eq!(linear_to_srgb_byte(255), 255);
    assert_eq!(encode_srgb_rgb(&[0, 1, 128, 77, 10]), vec![0, 13, 188, 77, 10]);
}

#[test]
fn alignment_rounds_up_to_a_multiple() {
    assert_eq!(align_to(0, 256), 0);
    assert_eq!(align_to(1, 256), 256);
    assert_eq!(align_to(256, 256), 256);
    assert_eq!(align_to(257, 256), 512);
    assert_eq!(align_to(7, 1), 7);
}

#[test]
fn gltf_pixel_formats_expand_to_rgba8() {
    let mut rgba = vec![9];
    append_u8_pixels(&mut rgba, &[7, 8], 1);
    assert_eq!(rgba, vec![9, 7, 7, 7, 255, 8, 8, 8, 255]);
    let mut rgba = Vec::new();
    append_u8_pixels(&mut rgba, &[1, 2, 3, 4, 5], 2);
    assert_eq!(rgba, vec![1, 1, 1, 2, 3, 3, 3, 4]);
    let mut rgba = Vec::new();
    append_u8_pixels(&mut rgba, &[1, 2, 3], 3);
    assert_eq!(rgba, vec![1, 2, 3, 255]);

    let mut bytes = Vec::new();
    for value in [65535u16, 0, 32896, 129] {
        bytes.extend_from_slice(&value.to_ne_bytes());
    }
    let mut rgba = Vec::new();
    append_u16_pixels(&mut rgba, &bytes, 4);
    assert_eq!(rgba, vec![255, 0, 128, 1]);
    let mut rgba = Vec::new();
    append_u16_pixels(&mut rgba, &bytes, 3);
    assert_eq!(rgba, vec![255, 0, 128, 255]);
    let mut rgba = Vec::new();
    append_u16_pixels(&mut rgba, &bytes[..4], 1);
    assert_eq!(rgba, vec![255, 255, 255, 255, 0, 0, 0, 255]);
}

#[test]
fn faces_and_modes_number_their_variants() {
    for (index, face) in Face::ALL.iter().enumerate() {
        assert_eq!(face.material_index(), index);
    }
    for (index, face) in Face::ALL_CUBEMAP.iter().enumerate() {
        assert_eq!(face.cubemap_index(), index);
    }
    assert_eq!(Face::default(), Face::Front);
    assert_eq!(OutlineMode::Toon.index(), 0);
    assert_eq!(OutlineMode::Stencil.index(), 2);
    assert_eq!(TextureFilter::default(), TextureFilter::Trilinear);
    assert_eq!(TextureFilter::ALL[5], TextureFilter::Anisotropic16x);
}

#[test]
fn rotations_zero_bytes_past_the_image() {
    let image = Image { width: 1, height: 1, pixels: vec![1, 2, 3, 4, 9, 9] };
    let rotated = image.rotate90();
    assert_eq!(rotated.pixels, vec![1, 2, 3, 4, 0, 0]);
    let image = Image { width: 2, height: 0, pixels: vec![7, 7] };
    assert_eq!(image.rotate270().pixels, vec![0, 0]);
}

#[test]
fn solid_colors_survive_every_mip_level() {
    let texel = [77u8, 140, 200, 99];
    let pixels: Vec<u8> = texel.iter().copied().cycle().take(7 * 3 * 4).collect();
    for color_space in [TextureColorSpace::Srgb, TextureColorSpace::Linear] {
        let texture = Texture::with_color_space(7, 3, pixels.clone(), color_space).unwrap();
        for level in texture.mip_levels().unwrap() {
            for chunk in level.pixels.chunks(4) {
                assert_eq!(chunk, &texel);
            }
        }
    }
}

#[test]
fn surface_packing_resamples_by_nearest_neighbour() {
    let normal = Texture::linear(2, 1, vec![1, 2, 3, 4, 5, 6, 7, 8]).unwrap();
    let surface = Texture::linear(1, 1, vec![40, 50, 60, 70]).unwrap();
    assert_eq!(pack_surface_pixels(&normal, &surface, 4, 1), vec![
        1, 2, 60, 50, 1, 2, 60, 50, 5, 6, 60, 50, 5, 6, 60, 50,
    ]);
    assert_eq!(pack_surface_pixels(&normal, &surface, 0, 3), Vec::<u8>::new());
}

#[test]
fn luma_is_rounded_exactly_half_up() {
    let texture = Texture::linear(1, 1, vec![3, 44, 47, 200]).unwrap().grayscale();
    assert_eq!(texture.pixel(0, 0), [36, 36, 36, 200]);
}
