use terrarium::mesh_import::{
    append_primitive_topology, append_rebased_indices, assign_material_slot, primitive_indices, reverse_winding,
    sequential_indices, triangulate, vertex_budget,
};
use terrarium::pixel_format::image_to_rgba8;
use terrarium::{GltfError, PixelFormat, PrimitiveMode};

#[test]
fn triangle_lists_pass_through_and_must_be_whole() {
    assert_eq!(triangulate(PrimitiveMode::Triangles, &[0, 1, 2, 2, 1, 3]).unwrap(), vec![0, 1, 2, 2, 1, 3]);
    assert!(matches!(
        triangulate(PrimitiveMode::Triangles, &[0, 1, 2, 3]),
        Err(GltfError::InvalidTriangleCount { count: 4 })
    ));
}

#[test]
fn strips_alternate_winding_and_drop_degenerate_triangles() {
    assert_eq!(
        triangulate(PrimitiveMode::TriangleStrip, &[0, 1, 2, 3, 4]).unwrap(),
        vec![0, 1, 2, 2, 1, 3, 2, 3, 4]
    );
    assert_eq!(triangulate(PrimitiveMode::TriangleStrip, &[0, 1, 1, 2]).unwrap(), Vec::<u32>::new());
    assert_eq!(triangulate(PrimitiveMode::TriangleStrip, &[5]).unwrap(), Vec::<u32>::new());
}

#[test]
fn fans_share_the_first_index() {
    assert_eq!(
        triangulate(PrimitiveMode::TriangleFan, &[0, 1, 2, 3, 3]).unwrap(),
        vec![0, 1, 2, 0, 2, 3]
    );
}

#[test]
fn points_and_lines_are_refused() {
    for mode in [PrimitiveMode::Points, PrimitiveMode::Lines, PrimitiveMode::LineLoop, PrimitiveMode::LineStrip] {
        assert!(matches!(
            triangulate(mode, &[0, 1, 2]),
            Err(GltfError::UnsupportedPrimitiveMode { mode: m }) if m == mode
        ));
    }
}

#[test]
fn primitive_indices_are_checked_and_rewound() {
    assert_eq!(primitive_indices(PrimitiveMode::Triangles, &[0, 1, 2], 3, false).unwrap(), vec![0, 1, 2]);
    assert_eq!(primitive_indices(PrimitiveMode::Triangles, &[0, 1, 2], 3, true).unwrap(), vec![0, 2, 1]);
    assert!(matches!(
        primitive_indices(PrimitiveMode::Triangles, &[0, 5, 7], 3, false),
        Err(GltfError::InvalidIndex { index: 5, vertex_count: 3 })
    ));
    let mut indices = vec![0, 1, 2, 3, 4, 5, 6];
    reverse_winding(&mut indices);
    assert_eq!(indices, vec![0, 2, 1, 3, 5, 4, 6]);
    reverse_winding(&mut indices);
    assert_eq!(indices, vec![0, 1, 2, 3, 4, 5, 6]);
}

#[test]
fn vertex_budget_stops_at_sixteen_bit_indices() {
    assert_eq!(vertex_budget(65000, 536).unwrap(), 65536);
    assert!(matches!(vertex_budget(65000, 537), Err(GltfError::TooManyVertices { count: 65537 })));
    assert_eq!(sequential_indices(4), vec![0, 1, 2, 3]);
}

#[test]
fn material_slots_are_shared_then_wrap() {
    let mut keys = Vec::new();
    assert_eq!(assign_material_slot(&mut keys, Some(7)), 0);
    assert_eq!(assign_material_slot(&mut keys, None), 1);
    assert_eq!(assign_material_slot(&mut keys, Some(7)), 0);
    for key in 10..14 {
        assign_material_slot(&mut keys, Some(key));
    }
    assert_eq!(keys.len(), 6);
    assert_eq!(assign_material_slot(&mut keys, Some(20)), 2);
    assert_eq!(assign_material_slot(&mut keys, None), 1);
    assert_eq!(keys.len(), 6);
}

#[test]
fn rebased_indices_follow_earlier_vertices() {
    let mut indices: Vec<u16> = vec![0, 1, 2];
    append_rebased_indices(&mut indices, 3, &[0, 2, 1]);
    assert_eq!(indices, vec![0, 1, 2, 3, 5, 4]);
}

#[test]
fn integer_pixel_formats_expand_and_float_formats_are_left_out() {
    assert_eq!(image_to_rgba8(PixelFormat::R8G8B8A8, &[1, 2, 3, 4, 5]).unwrap(), vec![1, 2, 3, 4, 5]);
    assert_eq!(image_to_rgba8(PixelFormat::R8G8, &[9, 8]).unwrap(), vec![9, 9, 9, 8]);
    let bytes = 65535u16.to_ne_bytes();
    assert_eq!(image_to_rgba8(PixelFormat::R16, &bytes).unwrap(), vec![255, 255, 255, 255]);
    assert!(image_to_rgba8(PixelFormat::R32G32B32FLOAT, &[0; 12]).is_none());
}

#[test]
fn material_slots_are_found_past_six_keys() {
    let mut keys = vec![None, Some(1), Some(2), Some(3), Some(4), Some(5), Some(6)];
    assert_eq!(assign_material_slot(&mut keys, Some(6)), 6);
    assert_eq!(assign_material_slot(&mut keys, Some(9)), 3);
    assert_eq!(keys.len(), 7);
}

#[test]
fn a_primitive_is_appended_whole_or_not_at_all() {
    let mut indices: Vec<u16> = vec![0, 1, 2];
    let mut keys: Vec<Option<usize>> = vec![Some(4)];

    // A mirrored strip without an index buffer, after three existing vertices.
    let slot = append_primitive_topology(PrimitiveMode::TriangleStrip, None, 4, 3, true, Some(7), &mut indices, &mut keys);
    assert_eq!(slot.unwrap(), 1);
    assert_eq!(indices, vec![0, 1, 2, 3, 5, 4, 5, 6, 4]);
    assert_eq!(keys, vec![Some(4), Some(7)]);

    // An index past the primitive's vertices changes nothing.
    let result = append_primitive_topology(PrimitiveMode::Triangles, Some(&[0, 1, 5]), 3, 7, false, Some(9), &mut indices, &mut keys);
    assert!(matches!(result, Err(GltfError::InvalidIndex { index: 5, vertex_count: 3 })));
    assert_eq!(indices.len(), 9);
    assert_eq!(keys.len(), 2);

    // Too many vertices changes nothing either.
    let result = append_primitive_topology(PrimitiveMode::Triangles, Some(&[0, 1, 2]), 65530, 7, false, None, &mut indices, &mut keys);
    assert!(matches!(result, Err(GltfError::TooManyVertices { count: 65537 })));
    assert_eq!(indices.len(), 9);

    // Known materials reuse their slot.
    let slot = append_primitive_topology(PrimitiveMode::Triangles, Some(&[2, 1, 0]), 3, 7, false, Some(4), &mut indices, &mut keys);
    assert_eq!(slot.unwrap(), 0);
    assert_eq!(&indices[9..], &[9, 8, 7]);
}
