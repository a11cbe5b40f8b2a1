use terrarium::{draw_runs, plan_batches, DrawCandidate, DrawRun, PreparedBatchKey};

fn candidate(mesh: usize, textures: usize, filters: usize, visibility_mask: u8) -> DrawCandidate {
    DrawCandidate { mesh, textures, filters, visibility_mask }
}

#[test]
fn visible_candidates_are_grouped_by_key_and_ordered_by_mesh_then_mask() {
    let candidates = [
        candidate(2, 0, 0, 1),
        candidate(1, 0, 0, 3),
        candidate(2, 0, 0, 1),
        candidate(1, 0, 0, 0),
        candidate(1, 5, 0, 1),
        candidate(2, 0, 0, 2),
        candidate(1, 0, 0, 3),
    ];
    let batches = plan_batches(&candidates);
    let summary: Vec<(usize, usize, u8, Vec<usize>, usize)> = batches
        .iter()
        .map(|b| (b.mesh, b.textures, b.visibility_mask, b.instances.clone(), b.instance_start))
        .collect();
    assert_eq!(
        summary,
        vec![
            (1, 5, 1, vec![4], 0),
            (1, 0, 3, vec![1, 6], 1),
            (2, 0, 1, vec![0, 2], 3),
            (2, 0, 2, vec![5], 5),
        ]
    );
}

#[test]
fn invisible_candidates_make_no_batch() {
    assert!(plan_batches(&[candidate(0, 0, 0, 0), candidate(1, 1, 1, 0)]).is_empty());
    assert!(plan_batches(&[]).is_empty());
}

fn prepared(mesh: usize, textures: usize, visibility_mask: u8, instance_start: usize, instance_count: u32) -> PreparedBatchKey {
    PreparedBatchKey { mesh, textures, filters: 0, visibility_mask, instance_start, instance_count }
}

#[test]
fn contiguous_batches_of_one_mesh_are_drawn_together() {
    let batches = [
        prepared(0, 1, 1, 0, 2),
        prepared(0, 1, 3, 2, 3),
        prepared(0, 2, 1, 5, 1),
        prepared(1, 2, 2, 6, 4),
        prepared(1, 2, 1, 10, 0),
        prepared(1, 2, 1, 10, 2),
    ];
    let runs = draw_runs(&batches, true, 1, 2);
    assert_eq!(
        runs,
        vec![
            DrawRun { mesh: 0, textures: 1, filters: 0, instance_start: 0, instance_count: 5, bind_mesh: true, bind_material: true },
            DrawRun { mesh: 0, textures: 2, filters: 0, instance_start: 5, instance_count: 1, bind_mesh: false, bind_material: true },
            DrawRun { mesh: 1, textures: 2, filters: 0, instance_start: 10, instance_count: 2, bind_mesh: true, bind_material: false },
        ]
    );
    // Without materials the first three batches form one run.
    let runs = draw_runs(&batches, false, 1, 2);
    assert_eq!(runs[0].instance_count, 6);
    assert!(!runs[0].bind_material);
    // The shadow view of bit 2 sees the second and fourth batch only.
    let runs = draw_runs(&batches, false, 2, 2);
    assert_eq!(runs.len(), 2);
    assert_eq!((runs[0].instance_start, runs[0].instance_count), (2, 3));
    assert_eq!((runs[1].mesh, runs[1].instance_start, runs[1].instance_count), (1, 6, 4));
}

#[test]
fn runs_of_unknown_meshes_are_not_drawn() {
    let batches = [prepared(3, 0, 1, 0, 2), prepared(0, 0, 1, 2, 1)];
    let runs = draw_runs(&batches, true, 1, 1);
    assert_eq!(runs.len(), 1);
    assert_eq!((runs[0].mesh, runs[0].bind_mesh, runs[0].bind_material), (0, true, true));
}
