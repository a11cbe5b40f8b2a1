use terrarium::surface::pack_surface_pixels;
use terrarium::{Image, Texture, TextureColorSpace, TextureError};

#[test]
fn textures_validate_rgba8_data_and_material_defaults_are_rough_dielectrics() {
    assert!(matches!(
        Texture::new(2, 2, vec![0; 3]),
        Err(TextureError::InvalidData {
            actual: 3,
            expected: 16
        })
    ));
    let texture = Texture::linear(1, 1, vec![128, 128, 255, 255]).unwrap();
    assert_eq!(texture.color_space, TextureColorSpace::Linear);
}

#[test]
fn texture_mip_levels_downsample_odd_dimensions_and_retain_alpha() {
    let texture = Texture::linear(
        3,
        2,
        vec![
            0, 10, 20, 30, 10, 20, 30, 40, 20, 30, 40, 50, 30, 40, 50, 60, 40, 50, 60, 70, 50, 60,
            70, 80,
        ],
    )
    .unwrap();

    assert_eq!(texture.mip_level_count(), 2);
    let levels = texture.mip_levels().unwrap();
    assert_eq!(levels.len(), 2);
    assert_eq!((levels[1].width, levels[1].height), (1, 1));
    assert_eq!(levels[1].pixels, vec![25, 35, 45, 55]);
}

#[test]
fn srgb_mip_levels_average_rgb_in_linear_space() {
    let texture = Texture::new(2, 1, vec![0, 0, 0, 0, 255, 255, 255, 255]).unwrap();

    let levels = texture.mip_levels().unwrap();
    assert_eq!(levels[1].pixels, vec![188, 188, 188, 128]);
}

#[test]
fn texture_pixel_access_reads_and_writes_texels() {
    let mut texture = Texture::linear(2, 1, vec![1, 2, 3, 4, 5, 6, 7, 8]).unwrap();
    assert_eq!(texture.pixel(0, 0), [1, 2, 3, 4]);
    assert_eq!(texture.pixel(1, 0), [5, 6, 7, 8]);

    texture.set_pixel(1, 0, [9, 9, 9, 9]);
    assert_eq!(texture.pixel(1, 0), [9, 9, 9, 9]);

    texture.pixels_mut()[0] = 42;
    assert_eq!(texture.pixels()[0], 42);
    assert_eq!(texture.pixel(0, 0), [42, 2, 3, 4]);
}

#[test]
fn texture_flips_mirror_texel_positions() {
    // Row-major 2x2: A B / C D.
    let pixels: Vec<u8> = [
        [10, 0, 0, 255],
        [20, 0, 0, 255],
        [30, 0, 0, 255],
        [40, 0, 0, 255],
    ]
    .into_iter()
    .flatten()
    .collect();

    let mut texture = Texture::linear(2, 2, pixels.clone()).unwrap();
    texture = texture.flip_horizontal();
    assert_eq!(texture.pixel(0, 0)[0], 20);
    assert_eq!(texture.pixel(1, 0)[0], 10);
    assert_eq!(texture.pixel(0, 1)[0], 40);
    assert_eq!(texture.pixel(1, 1)[0], 30);
    texture = texture.flip_horizontal();
    assert_eq!(texture.pixels(), &pixels);

    let mut texture = Texture::linear(2, 2, pixels.clone()).unwrap();
    texture = texture.flip_vertical();
    assert_eq!(texture.pixel(0, 0)[0], 30);
    assert_eq!(texture.pixel(0, 1)[0], 10);
    texture = texture.flip_vertical();
    assert_eq!(texture.pixels(), &pixels);
}

#[test]
fn texture_rotations_move_texels_and_swap_dimensions() {
    // Row-major 2x1: A B.
    let pixels: Vec<u8> = [[10, 0, 0, 255], [20, 0, 0, 255]]
        .into_iter()
        .flatten()
        .collect();

    let texture = Texture::linear(2, 1, pixels.clone()).unwrap().rotate90();
    assert_eq!((texture.width, texture.height), (1, 2));
    // Clockwise: the left texel swings to the top.
    assert_eq!(texture.pixel(0, 0)[0], 10);
    assert_eq!(texture.pixel(0, 1)[0], 20);
    let texture = texture.rotate270();
    assert_eq!((texture.width, texture.height), (2, 1));
    assert_eq!(texture.pixels(), &pixels);

    let texture = Texture::linear(2, 1, pixels.clone()).unwrap().rotate270();
    assert_eq!((texture.width, texture.height), (1, 2));
    // Counter-clockwise: the right texel swings to the top.
    assert_eq!(texture.pixel(0, 0)[0], 20);
    assert_eq!(texture.pixel(0, 1)[0], 10);

    let texture = Texture::linear(2, 1, pixels.clone()).unwrap().rotate180();
    assert_eq!((texture.width, texture.height), (2, 1));
    assert_eq!(texture.pixel(0, 0)[0], 20);
    assert_eq!(texture.pixel(1, 0)[0], 10);
    let texture = texture.rotate180();
    assert_eq!(texture.pixels(), &pixels);

    let mut texture = Texture::linear(2, 1, pixels.clone()).unwrap();
    for _ in 0..4 {
        texture = texture.rotate90();
    }
    assert_eq!((texture.width, texture.height), (2, 1));
    assert_eq!(texture.pixels(), &pixels);
}

#[test]
fn texture_color_adjustments_scale_and_replace_channels() {
    let texture = Texture::linear(1, 1, vec![255, 0, 0, 128]).unwrap().grayscale();
    let gray = texture.pixel(0, 0);
    assert_eq!(gray, [54, 54, 54, 128]);

    let texture = Texture::linear(1, 1, vec![10, 20, 30, 40]).unwrap().invert_rgb();
    assert_eq!(texture.pixel(0, 0), [245, 235, 225, 40]);
}

#[test]
fn image_transforms_mirror_the_texture_api() {
    let mut image = Image::from_rgba8(2, 1, vec![1, 2, 3, 4, 5, 6, 7, 8]).unwrap();
    assert_eq!(image.pixel(1, 0), [5, 6, 7, 8]);
    image.set_pixel(0, 0, [9, 9, 9, 9]);
    assert_eq!(image.pixel(0, 0), [9, 9, 9, 9]);

    image = image.flip_horizontal().flip_vertical();
    assert_eq!(image.pixel(0, 0), [5, 6, 7, 8]);
    assert_eq!(image.pixel(1, 0), [9, 9, 9, 9]);

    image = image.rotate90();
    assert_eq!((image.width, image.height), (1, 2));
    image = image.rotate270();
    assert_eq!((image.width, image.height), (2, 1));

    image = image.rotate180().rotate180();
    image = image.grayscale().invert_rgb();
    assert_eq!(image.pixels().len(), 8);
}

#[test]
fn surface_packing_preserves_normal_xy_and_material_channels() {
    let normal = Texture::linear(1, 1, vec![10, 20, 30, 255]).unwrap();
    let metallic_roughness = Texture::linear(1, 1, vec![40, 50, 60, 255]).unwrap();

    assert_eq!(
        pack_surface_pixels(&normal, &metallic_roughness, 1, 1),
        vec![10, 20, 60, 50]
    );
}
