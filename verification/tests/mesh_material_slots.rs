use terrarium::{MaterialSlot, MeshMaterialSlots};

// The material is represented by its RGBA base colour here.
type Material = [f32; 4];

#[test]
fn mesh_material_slots_round_trip_through_get() {
    let mut slots: MeshMaterialSlots<Material> = MeshMaterialSlots::default();
    assert!(slots.get(MaterialSlot::Top).is_none());

    let material: Material = [1.0, 0.0, 0.0, 1.0];
    slots.set(MaterialSlot::Top, material);
    assert_eq!(slots.get(MaterialSlot::Top), Some(&material));
    assert!(slots.get(MaterialSlot::Bottom).is_none());
}

#[test]
fn mesh_material_slots_leave_skipped_slots_unset() {
    let mut slots: MeshMaterialSlots<Material> = MeshMaterialSlots::default();
    let right: Material = [0.0, 1.0, 0.0, 1.0];
    let bottom: Material = [0.0, 0.0, 1.0, 1.0];
    slots.set(MaterialSlot::Right, right);
    slots.set(MaterialSlot::Bottom, bottom);
    assert!(slots.get(MaterialSlot::Top).is_none());
    assert_eq!(slots.get(MaterialSlot::Bottom), Some(&bottom));
    assert_eq!(slots.get(MaterialSlot::Right), Some(&right));
}

#[test]
fn slot_lists_grow_to_the_assigned_slot_and_get_mut_edits_in_place() {
    let mut slots: MeshMaterialSlots<u32> = MeshMaterialSlots::default();
    slots.set(MaterialSlot::Back, 7);
    assert_eq!(slots.slots, vec![None, None, None, Some(7)]);
    slots.set(MaterialSlot::Top, 1);
    assert_eq!(slots.slots, vec![Some(1), None, None, Some(7)]);
    assert!(slots.get_mut(MaterialSlot::Right).is_none());
    assert!(slots.get_mut(MaterialSlot::Front).is_none());
    *slots.get_mut(MaterialSlot::Back).unwrap() = 9;
    assert_eq!(slots.get(MaterialSlot::Back), Some(&9));
}

#[test]
fn material_slot_indices_follow_all_directions() {
    for (index, slot) in MaterialSlot::ALL_DIRECTIONS.iter().enumerate() {
        assert_eq!(slot.index(), index);
    }
    assert_eq!(MaterialSlot::Left.index(), 4);
}
