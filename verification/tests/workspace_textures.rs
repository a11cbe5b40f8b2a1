use terrarium::{Texture, TextureColorSpace, TextureError, TextureHandle, WorkspaceTextures};

#[test]
fn workspace_textures_can_be_replaced_and_edited_in_place() {
    let mut workspace = WorkspaceTextures::new();
    let handle = workspace
        .add_texture(Texture::linear(1, 1, vec![200, 100, 50, 255]).unwrap())
        .unwrap();
    let added_version = workspace.texture_version(handle).unwrap();

    workspace
        .with_texture(handle, Texture::linear(2, 1, vec![1, 2, 3, 4, 5, 6, 7, 8]).unwrap())
        .unwrap();
    assert!(workspace.texture_version(handle).unwrap() != added_version);
    assert_eq!(workspace.get_texture(handle).unwrap().width, 2);

    workspace.get_texture_mut(handle).unwrap().set_pixel(0, 0, [9, 9, 9, 9]);
    assert_eq!(workspace.get_texture(handle).unwrap().pixel(0, 0), [9, 9, 9, 9]);

    assert!(matches!(
        workspace.with_texture(TextureHandle(999), Texture::linear(1, 1, vec![0, 0, 0, 0]).unwrap()),
        Err(TextureError::InvalidHandle { index: 999 })
    ));
    assert!(workspace.get_texture_mut(TextureHandle(999)).is_none());
    assert!(workspace.texture_version(TextureHandle(999)).is_none());
    assert_eq!(workspace.clone().get_texture(handle), workspace.get_texture(handle));
}

#[test]
fn workspace_owns_validated_cpu_textures() {
    let texture = Texture::linear(1, 1, vec![1, 2, 3, 4]).unwrap();
    let mut workspace = WorkspaceTextures::new();
    let handle = workspace.add_texture(texture.clone()).unwrap();

    assert_eq!(workspace.get_texture(handle), Some(&texture));
    assert_eq!(workspace.clone().get_texture(handle), Some(&texture));
    assert!(workspace
        .add_texture(Texture {
            width: 1,
            height: 1,
            pixels: vec![],
            color_space: TextureColorSpace::Linear,
        })
        .is_err());
}

#[test]
fn every_change_bumps_the_version_of_its_texture_only() {
    let mut workspace = WorkspaceTextures::new();
    let first = workspace.add_texture(Texture::linear(1, 1, vec![0; 4]).unwrap()).unwrap();
    let second = workspace.add_texture(Texture::new(1, 1, vec![1; 4]).unwrap()).unwrap();
    assert_eq!((first, second), (TextureHandle(0), TextureHandle(1)));
    assert_eq!(workspace.texture_version(first), Some(1));
    assert_eq!(workspace.texture_version(second), Some(2));
    workspace.get_texture_mut(first);
    assert_eq!(workspace.texture_version(first), Some(3));
    assert_eq!(workspace.texture_version(second), Some(2));
    assert!(matches!(
        workspace.with_texture(second, Texture::linear(0, 1, vec![]).unwrap_or(Texture {
            width: 0,
            height: 1,
            pixels: vec![],
            color_space: TextureColorSpace::Linear,
        })),
        Err(TextureError::ZeroDimensions)
    ));
    assert_eq!(workspace.texture_version(second), Some(2));
}

#[test]
fn each_change_gives_a_higher_version() {
    let mut workspace = WorkspaceTextures::new();
    let first = workspace.add_texture(Texture::linear(1, 1, vec![0, 0, 0, 0]).unwrap()).unwrap();
    let second = workspace.add_texture(Texture::linear(1, 1, vec![1, 1, 1, 1]).unwrap()).unwrap();
    let v1 = workspace.texture_version(first).unwrap();
    let v2 = workspace.texture_version(second).unwrap();
    assert!(v1 < v2);
    workspace.get_texture_mut(first).unwrap();
    let v3 = workspace.texture_version(first).unwrap();
    assert!(v3 > v2);
    workspace.with_texture(second, Texture::linear(1, 1, vec![2, 2, 2, 2]).unwrap()).unwrap();
    assert!(workspace.texture_version(second).unwrap() > v3);
    assert_eq!(workspace.texture_version(first), Some(v3));
}
