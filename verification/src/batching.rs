//! Planning of instanced draws: visible instances are grouped into batches
//! that share a mesh, a material and a visibility mask, batches are laid out
//! one after another in the instance buffer, and consecutive batches are
//! merged into draw runs.
use vstd::prelude::*;

verus! {

/// What decides the batch of an instance: its mesh, its material textures
/// and filters (as keys of the renderer's material tables), and the mask of
/// views (bit 0 the camera, the next bits the shadow cascades) that see it.
#[derive(Clone, Copy, Debug, PartialEq, Eq)]
pub struct DrawCandidate {
    /// The mesh drawn.
    pub mesh: usize,
    /// The key of the material textures bound.
    pub textures: usize,
    /// The key of the sampler filters bound.
    pub filters: usize,
    /// The views that see the instance; zero when none does.
    pub visibility_mask: u8,
}

/// A batch of instances drawn with one mesh, material and visibility mask.
#[derive(Clone, Debug)]
pub struct PlannedBatch {
    /// The mesh drawn.
    pub mesh: usize,
    /// The key of the material textures bound.
    pub textures: usize,
    /// The key of the sampler filters bound.
    pub filters: usize,
    /// The views that see every instance of the batch.
    pub visibility_mask: u8,
    /// The candidates drawn, by index, in candidate order.
    pub instances: Vec<usize>,
    /// Where the batch's instances start in the instance buffer.
    pub instance_start: usize,
}

/// The key that a batch was grouped by.
pub open spec fn key_of(batch: PlannedBatch) -> DrawCandidate {
    DrawCandidate {
        mesh: batch.mesh,
        textures: batch.textures,
        filters: batch.filters,
        visibility_mask: batch.visibility_mask,
    }
}

/// Whether `a` may be drawn before `b`: batches go by mesh, then by
/// visibility mask.
pub open spec fn draw_order_le(a: DrawCandidate, b: DrawCandidate) -> bool {
    a.mesh < b.mesh || (a.mesh == b.mesh && a.visibility_mask <= b.visibility_mask)
}

/// How many instances the first `b` batches hold.
pub open spec fn instances_before(batches: Seq<PlannedBatch>, b: int) -> int
    decreases b,
{
    if b <= 0 {
        0
    } else {
        instances_before(batches, b - 1) + batches[b - 1].instances@.len()
    }
}

/// Whether `batches` is a batch plan for `candidates`:
/// - every batch holds at least one instance, its mask is not zero, and it
///   starts where the instances of the batches before it end;
/// - a batch holds candidates of its own key, in increasing index order;
/// - no two batches share a key, and they are ordered by mesh, then mask
///   (batches that tie on both are in no particular order);
/// - every candidate seen by some view is in some batch.
/// So every visible candidate is in exactly one batch and no invisible one is.
pub open spec fn is_batch_plan(candidates: Seq<DrawCandidate>, batches: Seq<PlannedBatch>) -> bool {
    &&& forall|b: int| 0 <= b < batches.len() ==> {
        &&& (#[trigger] batches[b]).instances@.len() > 0
        &&& batches[b].visibility_mask != 0
        &&& batches[b].instance_start == instances_before(batches, b)
    }
    &&& forall|b: int, j: int|
        0 <= b < batches.len() && 0 <= j < batches[b].instances@.len() ==> {
            &&& #[trigger] batches[b].instances@[j] < candidates.len()
            &&& candidates[batches[b].instances@[j] as int] == key_of(batches[b])
        }
    &&& forall|b: int, i: int, j: int|
        0 <= b < batches.len() && 0 <= i < j < batches[b].instances@.len()
            ==> #[trigger] batches[b].instances@[i] < #[trigger] batches[b].instances@[j]
    &&& forall|a: int, b: int|
        0 <= a < b < batches.len() ==> key_of(#[trigger] batches[a]) != key_of(#[trigger] batches[b])
            && draw_order_le(key_of(batches[a]), key_of(batches[b]))
    &&& forall|k: int|
        0 <= k < candidates.len() && (#[trigger] candidates[k]).visibility_mask != 0
            ==> exists|b: int, j: int|
            0 <= b < batches.len() && 0 <= j < batches[b].instances@.len() && #[trigger] batches[b].instances@[j] == k
}

fn same_candidate(a: DrawCandidate, b: DrawCandidate) -> (same: bool)
    ensures
        same == (a == b),
{
    a.mesh == b.mesh && a.textures == b.textures && a.filters == b.filters && a.visibility_mask == b.visibility_mask
}

fn drawn_no_later(a: DrawCandidate, b: DrawCandidate) -> (le: bool)
    ensures
        le == draw_order_le(a, b),
{
    a.mesh < b.mesh || (a.mesh == b.mesh && a.visibility_mask <= b.visibility_mask)
}

/// The distinct keys of the visible candidates, ordered by mesh, then mask.
#[verifier::spinoff_prover]
fn sorted_keys(candidates: &[DrawCandidate]) -> (result: (Vec<DrawCandidate>, Ghost<Seq<int>>))
    ensures
        forall|i: int, j: int| 0 <= i < j < result.0@.len()
            ==> #[trigger] result.0@[i] != #[trigger] result.0@[j] && draw_order_le(result.0@[i], result.0@[j]),
        result.1@.len() == result.0@.len(),
        forall|i: int| 0 <= i < result.0@.len() ==> (#[trigger] result.0@[i]).visibility_mask != 0
            && 0 <= result.1@[i] < candidates@.len() && candidates@[result.1@[i]] == result.0@[i],
        forall|k: int| 0 <= k < candidates@.len() && (#[trigger] candidates@[k]).visibility_mask != 0
            ==> result.0@.contains(candidates@[k]),
{
    let mut keys: Vec<DrawCandidate> = Vec::new();
    let ghost mut origin: Seq<int> = Seq::empty();
    let mut k: usize = 0;
    while k < candidates.len()
        invariant
            k <= candidates@.len(),
            forall|i: int, j: int| 0 <= i < j < keys@.len()
                ==> #[trigger] keys@[i] != #[trigger] keys@[j] && draw_order_le(keys@[i], keys@[j]),
            origin.len() == keys@.len(),
            forall|i: int| 0 <= i < keys@.len() ==> (#[trigger] keys@[i]).visibility_mask != 0
                && 0 <= origin[i] < candidates@.len() && candidates@[origin[i]] == keys@[i],
            forall|k2: int| 0 <= k2 < k && (#[trigger] candidates@[k2]).visibility_mask != 0
                ==> keys@.contains(candidates@[k2]),
        decreases candidates@.len() - k,
    {
        let c = candidates[k];
        if c.visibility_mask != 0 {
            let mut found = false;
            let mut i: usize = 0;
            while i < keys.len()
                invariant
                    i <= keys@.len(),
                    found ==> keys@.contains(c),
                    !found ==> forall|i2: int| 0 <= i2 < i ==> keys@[i2] != c,
                decreases keys@.len() - i,
            {
                if same_candidate(keys[i], c) {
                    found = true;
                }
                i = i + 1;
            }
            if !found {
                let mut p: usize = 0;
                while p < keys.len() && drawn_no_later(keys[p], c)
                    invariant
                        p <= keys@.len(),
                        forall|i2: int| 0 <= i2 < p ==> draw_order_le(#[trigger] keys@[i2], c),
                    decreases keys@.len() - p,
                {
                    p = p + 1;
                }
                let ghost before = keys@;
                let ghost before_origin = origin;
                proof {
                    assert forall|q: int| p <= q < before.len() implies !draw_order_le(#[trigger] before[q], c) by {
                        assert(draw_order_le(before[p as int], before[q]) || p == q);
                    }
                    before.insert_ensures(p as int, c);
                }
                keys.insert(p, c);
                proof {
                    before_origin.insert_ensures(p as int, k as int);
                    origin = before_origin.insert(p as int, k as int);
                    assert forall|i2: int, j2: int| 0 <= i2 < j2 < keys@.len()
                        implies #[trigger] keys@[i2] != #[trigger] keys@[j2] && draw_order_le(keys@[i2], keys@[j2]) by {
                        if j2 < p {
                        } else if j2 == p {
                            assert(keys@[i2] == before[i2]);
                        } else if i2 < p {
                            assert(keys@[j2] == before[j2 - 1]);
                            assert(keys@[i2] == before[i2]);
                        } else if i2 == p {
                            assert(keys@[j2] == before[j2 - 1]);
                        } else {
                            assert(keys@[i2] == before[i2 - 1]);
                            assert(keys@[j2] == before[j2 - 1]);
                        }
                    }
                    assert forall|i2: int| 0 <= i2 < keys@.len() implies (#[trigger] keys@[i2]).visibility_mask != 0
                        && 0 <= origin[i2] < candidates@.len() && candidates@[origin[i2]] == keys@[i2] by {
                        if i2 < p {
                            assert(keys@[i2] == before[i2]);
                        } else if i2 == p {
                        } else {
                            assert(keys@[i2] == before[i2 - 1]);
                        }
                    }
                    assert forall|k2: int| 0 <= k2 <= k && (#[trigger] candidates@[k2]).visibility_mask != 0
                        implies keys@.contains(candidates@[k2]) by {
                        if k2 == k {
                            assert(keys@[p as int] == c);
                        } else {
                            assert(before.contains(candidates@[k2]));
                            let w = choose|w: int| 0 <= w < before.len() && before[w] == candidates@[k2];
                            if w < p {
                                assert(keys@[w] == before[w]);
                            } else {
                                assert(keys@[w + 1] == before[w]);
                            }
                        }
                    }
                }
            }
        }
        k = k + 1;
    }
    (keys, Ghost(origin))
}

/// The candidates of key `key`, in index order.
#[verifier::spinoff_prover]
fn members(candidates: &[DrawCandidate], key: DrawCandidate) -> (instances: Vec<usize>)
    ensures
        forall|j: int| 0 <= j < instances@.len()
            ==> #[trigger] instances@[j] < candidates@.len() && candidates@[instances@[j] as int] == key,
        forall|i: int, j: int| 0 <= i < j < instances@.len() ==> #[trigger] instances@[i] < #[trigger] instances@[j],
        forall|k: int| 0 <= k < candidates@.len() && #[trigger] candidates@[k] == key
            ==> exists|j: int| 0 <= j < instances@.len() && instances@[j] == k,
{
    let mut instances: Vec<usize> = Vec::new();
    let mut k: usize = 0;
    while k < candidates.len()
        invariant
            k <= candidates@.len(),
            forall|j: int| 0 <= j < instances@.len()
                ==> #[trigger] instances@[j] < k && candidates@[instances@[j] as int] == key,
            forall|i: int, j: int| 0 <= i < j < instances@.len() ==> #[trigger] instances@[i] < #[trigger] instances@[j],
            forall|k2: int| 0 <= k2 < k && #[trigger] candidates@[k2] == key
                ==> exists|j: int| 0 <= j < instances@.len() && instances@[j] == k2,
        decreases candidates@.len() - k,
    {
        if same_candidate(candidates[k], key) {
            let ghost before = instances@;
            instances.push(k);
            proof {
                assert forall|k2: int| 0 <= k2 <= k && #[trigger] candidates@[k2] == key
                    implies exists|j: int| 0 <= j < instances@.len() && instances@[j] == k2 by {
                    if k2 == k {
                        assert(instances@[before.len() as int] == k2);
                    } else {
                        let j = choose|j: int| 0 <= j < before.len() && before[j] == k2;
                        assert(instances@[j] == k2);
                    }
                }
            }
        }
        k = k + 1;
    }
    instances
}

/// Groups the visible candidates into batches that share a mesh, material
/// and visibility mask, ordered by mesh and then mask, and lays the batches
/// out one after another in the instance buffer. Candidates that no view
/// sees are left out.
#[verifier::spinoff_prover]
pub fn plan_batches(candidates: &[DrawCandidate]) -> (batches: Vec<PlannedBatch>)
    ensures
        is_batch_plan(candidates@, batches@),
{
    let sorted = sorted_keys(candidates);
    let ghost origin = sorted.1@;
    let keys = sorted.0;
    let mut batches: Vec<PlannedBatch> = Vec::new();
    let mut order: Vec<usize> = Vec::new();
    let mut b: usize = 0;
    while b < keys.len()
        invariant
            b <= keys@.len(),
            batches@.len() == b,
            order@.len() == instances_before(batches@, b as int),
            forall|i: int, j: int| 0 <= i < j < keys@.len()
                ==> #[trigger] keys@[i] != #[trigger] keys@[j] && draw_order_le(keys@[i], keys@[j]),
            origin.len() == keys@.len(),
            forall|i: int| 0 <= i < keys@.len() ==> (#[trigger] keys@[i]).visibility_mask != 0
                && 0 <= origin[i] < candidates@.len() && candidates@[origin[i]] == keys@[i],
            forall|a: int| 0 <= a < b ==> key_of(#[trigger] batches@[a]) == keys@[a],
            forall|a: int| 0 <= a < b ==> {
                &&& (#[trigger] batches@[a]).instances@.len() > 0
                &&& batches@[a].visibility_mask != 0
                &&& batches@[a].instance_start == instances_before(batches@, a)
            },
            forall|a: int, j: int|
                0 <= a < b && 0 <= j < batches@[a].instances@.len() ==> {
                    &&& #[trigger] batches@[a].instances@[j] < candidates@.len()
                    &&& candidates@[batches@[a].instances@[j] as int] == key_of(batches@[a])
                },
            forall|a: int, i: int, j: int|
                0 <= a < b && 0 <= i < j < batches@[a].instances@.len()
                    ==> #[trigger] batches@[a].instances@[i] < #[trigger] batches@[a].instances@[j],
            forall|a: int, k: int| 0 <= a < b && 0 <= k < candidates@.len() && #[trigger] candidates@[k] == #[trigger] keys@[a]
                ==> exists|j: int| 0 <= j < batches@[a].instances@.len() && batches@[a].instances@[j] == k,
        decreases keys@.len() - b,
    {
        let key = keys[b];
        let instances = members(candidates, key);
        proof {
            assert(candidates@[origin[b as int]] == key);
        }
        let start: usize = order.len();
        let mut j: usize = 0;
        while j < instances.len()
            invariant
                j <= instances@.len(),
                order@.len() == start + j,
            decreases instances@.len() - j,
        {
            order.push(instances[j]);
            j = j + 1;
        }
        let ghost before = batches@;
        batches.push(PlannedBatch {
            mesh: key.mesh,
            textures: key.textures,
            filters: key.filters,
            visibility_mask: key.visibility_mask,
            instances,
            instance_start: start,
        });
        proof {
            assert forall|a: int| 0 <= a <= b implies instances_before(batches@, a) == instances_before(before, a) by {
                lemma_instances_before_prefix(before, batches@, a);
            }
            lemma_instances_before_prefix(before, batches@, b as int);
            assert forall|a: int, k: int| 0 <= a <= b && 0 <= k < candidates@.len() && #[trigger] candidates@[k] == #[trigger] keys@[a]
                implies exists|j: int| 0 <= j < batches@[a].instances@.len() && batches@[a].instances@[j] == k by {
                if a == b {
                    assert(candidates@[k] == key);
                    let j = choose|j: int| 0 <= j < instances@.len() && instances@[j] == k;
                    assert(batches@[a].instances@[j] == k);
                } else {
                    assert(batches@[a] == before[a]);
                    let j = choose|j: int| 0 <= j < before[a].instances@.len() && before[a].instances@[j] == k;
                    assert(batches@[a].instances@[j] == k);
                }
            }
        }
        b = b + 1;
    }
    proof {
        assert forall|k: int| 0 <= k < candidates@.len() && (#[trigger] candidates@[k]).visibility_mask != 0
            implies exists|a: int, j: int|
            0 <= a < batches@.len() && 0 <= j < batches@[a].instances@.len() && #[trigger] batches@[a].instances@[j] == k by {
            assert(keys@.contains(candidates@[k]));
            let a = choose|a: int| 0 <= a < keys@.len() && keys@[a] == candidates@[k];
            assert(candidates@[k] == keys@[a]);
            let j = choose|j: int| 0 <= j < batches@[a].instances@.len() && batches@[a].instances@[j] == k;
            assert(batches@[a].instances@[j] == k);
        }
    }
    batches
}

/// Batches that agree on a prefix agree on how many instances come before
/// each batch of it.
proof fn lemma_instances_before_prefix(s: Seq<PlannedBatch>, t: Seq<PlannedBatch>, b: int)
    requires
        0 <= b <= s.len(),
        s.len() <= t.len(),
        forall|i: int| 0 <= i < s.len() ==> s[i] == t[i],
    ensures
        instances_before(s, b) == instances_before(t, b),
    decreases b,
{
    if b > 0 {
        lemma_instances_before_prefix(s, t, b - 1);
    }
}


/// A prepared batch, as drawing it needs: what it binds and where its
/// instances lie in the instance buffer.
#[derive(Clone, Copy, Debug, PartialEq, Eq)]
pub struct PreparedBatchKey {
    /// The mesh drawn.
    pub mesh: usize,
    /// The key of the packed material textures bound.
    pub textures: usize,
    /// The key of the sampler filters bound.
    pub filters: usize,
    /// The views that see the batch.
    pub visibility_mask: u8,
    /// The first instance of the batch in the instance buffer.
    pub instance_start: usize,
    /// How many instances the batch holds.
    pub instance_count: u32,
}

/// One instanced draw call: consecutive batches merged, and whether the mesh
/// and the material have to be bound before it.
#[derive(Clone, Copy, Debug, PartialEq, Eq)]
pub struct DrawRun {
    /// The mesh drawn.
    pub mesh: usize,
    /// The key of the packed material textures of the run.
    pub textures: usize,
    /// The key of the sampler filters of the run.
    pub filters: usize,
    /// The first instance drawn.
    pub instance_start: usize,
    /// How many instances are drawn.
    pub instance_count: u32,
    /// Whether the mesh's buffers must be bound first.
    pub bind_mesh: bool,
    /// Whether the run's material must be bound first.
    pub bind_material: bool,
}

/// Whether a batch opens a draw in the view of `visibility_bit`: it has
/// instances and the view sees it.
pub open spec fn opens_run(batch: PreparedBatchKey, visibility_bit: u8) -> bool {
    batch.instance_count != 0 && batch.visibility_mask & visibility_bit != 0
}

/// Whether `next` joins the run opened by `first` that holds `count`
/// instances so far: the view sees it, it draws the same mesh (with the same
/// material when materials are bound), and its instances follow on.
pub open spec fn joins_run(
    first: PreparedBatchKey,
    next: PreparedBatchKey,
    count: int,
    use_materials: bool,
    visibility_bit: u8,
) -> bool {
    &&& next.visibility_mask & visibility_bit != 0
    &&& next.mesh == first.mesh
    &&& use_materials ==> next.textures == first.textures && next.filters == first.filters
    &&& next.instance_start == first.instance_start + count
}

/// Where the run opened at `i` ends and how many instances it holds, having
/// reached batch `next` with `count` instances.
pub open spec fn run_extent(
    batches: Seq<PreparedBatchKey>,
    i: int,
    next: int,
    count: int,
    use_materials: bool,
    visibility_bit: u8,
) -> (int, int)
    decreases batches.len() - next,
{
    if 0 <= next < batches.len() && joins_run(batches[i], batches[next], count, use_materials, visibility_bit) {
        run_extent(batches, i, next + 1, count + batches[next].instance_count, use_materials, visibility_bit)
    } else {
        (next, count)
    }
}

/// A run ends no earlier than where it has reached and holds no fewer
/// instances than it has gathered.
pub proof fn lemma_run_extent(
    batches: Seq<PreparedBatchKey>,
    i: int,
    next: int,
    count: int,
    use_materials: bool,
    visibility_bit: u8,
)
    ensures
        run_extent(batches, i, next, count, use_materials, visibility_bit).0 >= next,
        run_extent(batches, i, next, count, use_materials, visibility_bit).1 >= count,
        next <= batches.len() ==> run_extent(batches, i, next, count, use_materials, visibility_bit).0 <= batches.len(),
    decreases batches.len() - next,
{
    if 0 <= next < batches.len() && joins_run(batches[i], batches[next], count, use_materials, visibility_bit) {
        lemma_run_extent(batches, i, next + 1, count + batches[next].instance_count, use_materials, visibility_bit);
    }
}

/// The draw calls from batch `i` on, with `bound_mesh` and `bound_material`
/// bound: batches that open no run are passed over; a run extends over the
/// batches that join it; a run whose mesh is not among the first
/// `mesh_count` meshes is not drawn; a drawn run binds its mesh and (when
/// materials are used) its material unless they are already bound.
pub open spec fn runs_from(
    batches: Seq<PreparedBatchKey>,
    use_materials: bool,
    visibility_bit: u8,
    mesh_count: int,
    i: int,
    bound_mesh: Option<usize>,
    bound_material: Option<(usize, usize)>,
) -> Seq<DrawRun>
    decreases batches.len() - i,
{
    if i < 0 || i >= batches.len() {
        Seq::empty()
    } else if !opens_run(batches[i], visibility_bit) {
        runs_from(batches, use_materials, visibility_bit, mesh_count, i + 1, bound_mesh, bound_material)
    } else {
        let batch = batches[i];
        let extent = run_extent(batches, i, i + 1, batch.instance_count as int, use_materials, visibility_bit);
        proof {
            lemma_run_extent(batches, i, i + 1, batch.instance_count as int, use_materials, visibility_bit);
            assert(i < extent.0 <= batches.len());
        }
        let next = extent.0;
        let count = extent.1;
        if batch.mesh >= mesh_count {
            runs_from(batches, use_materials, visibility_bit, mesh_count, next, bound_mesh, bound_material)
        } else {
            let material = (batch.textures, batch.filters);
            let bind_material = use_materials && bound_material != Some(material);
            let run = DrawRun {
                mesh: batch.mesh,
                textures: batch.textures,
                filters: batch.filters,
                instance_start: batch.instance_start,
                instance_count: count as u32,
                bind_mesh: bound_mesh != Some(batch.mesh),
                bind_material,
            };
            seq![run] + runs_from(
                batches,
                use_materials,
                visibility_bit,
                mesh_count,
                next,
                Some(batch.mesh),
                if bind_material { Some(material) } else { bound_material },
            )
        }
    }
}

/// Whether every run from batch `i` on holds at most `u32::MAX` instances.
pub open spec fn runs_fit(
    batches: Seq<PreparedBatchKey>,
    use_materials: bool,
    visibility_bit: u8,
    i: int,
) -> bool
    decreases batches.len() - i,
{
    if i < 0 || i >= batches.len() {
        true
    } else if !opens_run(batches[i], visibility_bit) {
        runs_fit(batches, use_materials, visibility_bit, i + 1)
    } else {
        let extent = run_extent(batches, i, i + 1, batches[i].instance_count as int, use_materials, visibility_bit);
        proof {
            lemma_run_extent(batches, i, i + 1, batches[i].instance_count as int, use_materials, visibility_bit);
            assert(i < extent.0 <= batches.len());
        }
        let next = extent.0;
        let count = extent.1;
        count <= u32::MAX && runs_fit(batches, use_materials, visibility_bit, next)
    }
}

/// The draw calls for the view of `visibility_bit`: batches merged into runs
/// and the binds each run needs, for a renderer holding `mesh_count` meshes.
#[verifier::spinoff_prover]
pub fn draw_runs(
    batches: &[PreparedBatchKey],
    use_materials: bool,
    visibility_bit: u8,
    mesh_count: usize,
) -> (runs: Vec<DrawRun>)
    requires
        runs_fit(batches@, use_materials, visibility_bit, 0),
    ensures
        runs@ == runs_from(batches@, use_materials, visibility_bit, mesh_count as int, 0, None, None),
{
    let mut runs: Vec<DrawRun> = Vec::new();
    let mut bound_mesh: Option<usize> = None;
    let mut bound_material: Option<(usize, usize)> = None;
    let mut index: usize = 0;
    while index < batches.len()
        invariant
            index <= batches@.len(),
            runs_fit(batches@, use_materials, visibility_bit, index as int),
            runs@ + runs_from(batches@, use_materials, visibility_bit, mesh_count as int, index as int, bound_mesh, bound_material)
                == runs_from(batches@, use_materials, visibility_bit, mesh_count as int, 0, None, None),
        decreases batches@.len() - index,
    {
        let batch = batches[index];
        if batch.instance_count == 0 || batch.visibility_mask & visibility_bit == 0 {
            index = index + 1;
            continue;
        }
        let ghost total = run_extent(batches@, index as int, index + 1, batch.instance_count as int, use_materials, visibility_bit).1;
        let mut instance_count: u32 = batch.instance_count;
        let mut next: usize = index + 1;
        proof {
            lemma_run_extent(batches@, index as int, index + 1, batch.instance_count as int, use_materials, visibility_bit);
        }
        while next < batches.len()
            invariant
                index < next <= batches@.len(),
                batch == batches@[index as int],
                run_extent(batches@, index as int, next as int, instance_count as int, use_materials, visibility_bit)
                    == run_extent(batches@, index as int, index + 1, batch.instance_count as int, use_materials, visibility_bit),
                total == run_extent(batches@, index as int, index + 1, batch.instance_count as int, use_materials, visibility_bit).1,
                total <= u32::MAX,
                instance_count <= total,
            ensures
                run_extent(batches@, index as int, next as int, instance_count as int, use_materials, visibility_bit)
                    == (next as int, instance_count as int),
            decreases batches@.len() - next,
        {
            let candidate = batches[next];
            let joins: bool = candidate.visibility_mask & visibility_bit != 0
                && candidate.mesh == batch.mesh
                && (!use_materials || (candidate.textures == batch.textures && candidate.filters == batch.filters))
                && candidate.instance_start >= batch.instance_start
                && candidate.instance_start - batch.instance_start == instance_count as usize;
            if !joins {
                break;
            }
            proof {
                lemma_run_extent(batches@, index as int, next + 1, instance_count + candidate.instance_count, use_materials, visibility_bit);
            }
            instance_count = instance_count + candidate.instance_count;
            next = next + 1;
        }
        let ghost rest = runs_from(batches@, use_materials, visibility_bit, mesh_count as int, next as int, bound_mesh, bound_material);
        if batch.mesh >= mesh_count {
            index = next;
            continue;
        }
        let material = (batch.textures, batch.filters);
        let bind_mesh = match bound_mesh {
            Some(mesh) => mesh != batch.mesh,
            None => true,
        };
        let bind_material = use_materials && match bound_material {
            Some((textures, filters)) => textures != batch.textures || filters != batch.filters,
            None => true,
        };
        let run = DrawRun {
            mesh: batch.mesh,
            textures: batch.textures,
            filters: batch.filters,
            instance_start: batch.instance_start,
            instance_count,
            bind_mesh,
            bind_material,
        };
        let ghost previous = runs@;
        runs.push(run);
        bound_mesh = Some(batch.mesh);
        if bind_material {
            bound_material = Some(material);
        }
        proof {
            assert(runs@ =~= previous + seq![run]);
            assert(previous + (seq![run] + runs_from(batches@, use_materials, visibility_bit, mesh_count as int, next as int, bound_mesh, bound_material))
                =~= runs@ + runs_from(batches@, use_materials, visibility_bit, mesh_count as int, next as int, bound_mesh, bound_material));
        }
        index = next;
    }
    assert(runs@ + Seq::<DrawRun>::empty() =~= runs@);
    runs
}


/// The binds of the runs from batch `i` on: the first run binds its mesh
/// unless `bound_mesh` is it, and (when materials are used) its material
/// unless `bound_material` is it; every later run binds its mesh exactly
/// when the run before it drew another mesh, and its material exactly when
/// materials are used and the run before it had other textures or filters.
pub proof fn lemma_runs_bind_what_changes(
    batches: Seq<PreparedBatchKey>,
    use_materials: bool,
    visibility_bit: u8,
    mesh_count: int,
    i: int,
    bound_mesh: Option<usize>,
    bound_material: Option<(usize, usize)>,
)
    ensures
        ({
            let runs = runs_from(batches, use_materials, visibility_bit, mesh_count, i, bound_mesh, bound_material);
            forall|r: int| 0 <= r < runs.len() ==> {
                &&& (#[trigger] runs[r]).bind_mesh == if r == 0 {
                    bound_mesh != Some(runs[r].mesh)
                } else {
                    runs[r].mesh != runs[r - 1].mesh
                }
                &&& runs[r].bind_material == (use_materials && if r == 0 {
                    bound_material != Some((runs[r].textures, runs[r].filters))
                } else {
                    runs[r].textures != runs[r - 1].textures || runs[r].filters != runs[r - 1].filters
                })
            }
        }),
    decreases batches.len() - i,
{
    if 0 <= i < batches.len() {
        if !opens_run(batches[i], visibility_bit) {
            lemma_runs_bind_what_changes(batches, use_materials, visibility_bit, mesh_count, i + 1, bound_mesh, bound_material);
            assert(runs_from(batches, use_materials, visibility_bit, mesh_count, i, bound_mesh, bound_material)
                == runs_from(batches, use_materials, visibility_bit, mesh_count, i + 1, bound_mesh, bound_material));
        } else {
            let batch = batches[i];
            lemma_run_extent(batches, i, i + 1, batch.instance_count as int, use_materials, visibility_bit);
            let next = run_extent(batches, i, i + 1, batch.instance_count as int, use_materials, visibility_bit).0;
            if batch.mesh >= mesh_count {
                lemma_runs_bind_what_changes(batches, use_materials, visibility_bit, mesh_count, next, bound_mesh, bound_material);
                assert(runs_from(batches, use_materials, visibility_bit, mesh_count, i, bound_mesh, bound_material)
                    == runs_from(batches, use_materials, visibility_bit, mesh_count, next, bound_mesh, bound_material));
            } else {
                let material = (batch.textures, batch.filters);
                let bind_material = use_materials && bound_material != Some(material);
                let next_material = if bind_material { Some(material) } else { bound_material };
                lemma_runs_bind_what_changes(batches, use_materials, visibility_bit, mesh_count, next, Some(batch.mesh), next_material);
                let runs = runs_from(batches, use_materials, visibility_bit, mesh_count, i, bound_mesh, bound_material);
                let rest = runs_from(batches, use_materials, visibility_bit, mesh_count, next, Some(batch.mesh), next_material);
                let first = runs[0];
                assert(runs == seq![first] + rest);
                assert(first.mesh == batch.mesh && first.textures == batch.textures && first.filters == batch.filters);
                assert(first.bind_mesh == (bound_mesh != Some(batch.mesh)));
                assert(first.bind_material == bind_material);
                assert(use_materials ==> next_material == Some(material));
                assert forall|r: int| 0 <= r < runs.len() implies {
                    &&& (#[trigger] runs[r]).bind_mesh == if r == 0 {
                        bound_mesh != Some(runs[r].mesh)
                    } else {
                        runs[r].mesh != runs[r - 1].mesh
                    }
                    &&& runs[r].bind_material == (use_materials && if r == 0 {
                        bound_material != Some((runs[r].textures, runs[r].filters))
                    } else {
                        runs[r].textures != runs[r - 1].textures || runs[r].filters != runs[r - 1].filters
                    })
                } by {
                    if r == 1 {
                        assert(runs[1] == rest[0]);
                    } else if r > 1 {
                        assert(runs[r] == rest[r - 1]);
                        assert(runs[r - 1] == rest[r - 2]);
                        assert(rest[r - 1] == rest[(r - 1) as int]);
                    }
                }
            }
        }
    }
}

/// With nothing bound beforehand, the first run binds its mesh and (when
/// materials are used) its material, and every later run binds its mesh
/// exactly when it draws another mesh than the run before it, and its
/// material exactly when materials are used and its textures or filters
/// differ from the run before it; without materials no run binds one.
pub proof fn law_runs_bind_what_changes(
    batches: Seq<PreparedBatchKey>,
    use_materials: bool,
    visibility_bit: u8,
    mesh_count: int,
)
    ensures
        ({
            let runs = runs_from(batches, use_materials, visibility_bit, mesh_count, 0, None, None);
            forall|r: int| 0 <= r < runs.len() ==> {
                &&& (#[trigger] runs[r]).bind_mesh == (r == 0 || runs[r].mesh != runs[r - 1].mesh)
                &&& runs[r].bind_material == (use_materials && (r == 0
                    || runs[r].textures != runs[r - 1].textures || runs[r].filters != runs[r - 1].filters))
            }
        }),
{
    lemma_runs_bind_what_changes(batches, use_materials, visibility_bit, mesh_count, 0, None, None);
}


/// How many instances the batches from `i` on hold that the view of
/// `visibility_bit` sees and whose mesh is among the first `mesh_count`.
pub open spec fn visible_instances(batches: Seq<PreparedBatchKey>, visibility_bit: u8, mesh_count: int, i: int) -> int
    decreases batches.len() - i,
{
    if i < 0 || i >= batches.len() {
        0
    } else {
        (if batches[i].visibility_mask & visibility_bit != 0 && batches[i].mesh < mesh_count {
            batches[i].instance_count as int
        } else {
            0
        }) + visible_instances(batches, visibility_bit, mesh_count, i + 1)
    }
}

/// How many instances `runs` draw.
pub open spec fn drawn_instances(runs: Seq<DrawRun>) -> int
    decreases runs.len(),
{
    if runs.len() == 0 {
        0
    } else {
        runs[0].instance_count + drawn_instances(runs.skip(1))
    }
}

proof fn lemma_extent_visible(
    batches: Seq<PreparedBatchKey>,
    i: int,
    next: int,
    count: int,
    use_materials: bool,
    visibility_bit: u8,
    mesh_count: int,
)
    requires
        0 <= i < next <= batches.len(),
        visible_instances(batches, visibility_bit, mesh_count, i)
            == (if batches[i].mesh < mesh_count { count } else { 0 }) + visible_instances(batches, visibility_bit, mesh_count, next),
    ensures
        ({
            let extent = run_extent(batches, i, next, count, use_materials, visibility_bit);
            visible_instances(batches, visibility_bit, mesh_count, i)
                == (if batches[i].mesh < mesh_count { extent.1 } else { 0 })
                + visible_instances(batches, visibility_bit, mesh_count, extent.0)
        }),
    decreases batches.len() - next,
{
    if next < batches.len() && joins_run(batches[i], batches[next], count, use_materials, visibility_bit) {
        lemma_extent_visible(
            batches,
            i,
            next + 1,
            count + batches[next].instance_count,
            use_materials,
            visibility_bit,
            mesh_count,
        );
    }
}

/// The runs from batch `i` on draw every instance that the view sees of a
/// known mesh, once.
pub proof fn lemma_runs_draw_visible_instances(
    batches: Seq<PreparedBatchKey>,
    use_materials: bool,
    visibility_bit: u8,
    mesh_count: int,
    i: int,
    bound_mesh: Option<usize>,
    bound_material: Option<(usize, usize)>,
)
    requires
        0 <= i,
        runs_fit(batches, use_materials, visibility_bit, i),
    ensures
        drawn_instances(runs_from(batches, use_materials, visibility_bit, mesh_count, i, bound_mesh, bound_material))
            == visible_instances(batches, visibility_bit, mesh_count, i),
    decreases batches.len() - i,
{
    if i < batches.len() {
        let batch = batches[i];
        if !opens_run(batch, visibility_bit) {
            lemma_runs_draw_visible_instances(batches, use_materials, visibility_bit, mesh_count, i + 1, bound_mesh, bound_material);
            assert(runs_from(batches, use_materials, visibility_bit, mesh_count, i, bound_mesh, bound_material)
                == runs_from(batches, use_materials, visibility_bit, mesh_count, i + 1, bound_mesh, bound_material));
        } else {
            lemma_run_extent(batches, i, i + 1, batch.instance_count as int, use_materials, visibility_bit);
            let extent = run_extent(batches, i, i + 1, batch.instance_count as int, use_materials, visibility_bit);
            let next = extent.0;
            lemma_extent_visible(batches, i, i + 1, batch.instance_count as int, use_materials, visibility_bit, mesh_count);
            if batch.mesh >= mesh_count {
                lemma_runs_draw_visible_instances(batches, use_materials, visibility_bit, mesh_count, next, bound_mesh, bound_material);
                assert(runs_from(batches, use_materials, visibility_bit, mesh_count, i, bound_mesh, bound_material)
                    == runs_from(batches, use_materials, visibility_bit, mesh_count, next, bound_mesh, bound_material));
            } else {
                let material = (batch.textures, batch.filters);
                let bind_material = use_materials && bound_material != Some(material);
                let next_material = if bind_material { Some(material) } else { bound_material };
                lemma_runs_draw_visible_instances(batches, use_materials, visibility_bit, mesh_count, next, Some(batch.mesh), next_material);
                let runs = runs_from(batches, use_materials, visibility_bit, mesh_count, i, bound_mesh, bound_material);
                let rest = runs_from(batches, use_materials, visibility_bit, mesh_count, next, Some(batch.mesh), next_material);
                let first = runs[0];
                assert(runs == seq![first] + rest);
                assert(runs.skip(1) =~= rest);
                assert(first.instance_count == extent.1);
            }
        }
    }
}

/// The runs for a view draw, together, every instance of every batch that
/// the view sees and whose mesh the renderer holds, and no other: merging
/// batches into runs neither drops nor repeats an instance.
pub proof fn law_runs_draw_every_visible_instance_once(
    batches: Seq<PreparedBatchKey>,
    use_materials: bool,
    visibility_bit: u8,
    mesh_count: int,
)
    requires
        runs_fit(batches, use_materials, visibility_bit, 0),
    ensures
        drawn_instances(runs_from(batches, use_materials, visibility_bit, mesh_count, 0, None, None))
            == visible_instances(batches, visibility_bit, mesh_count, 0),
{
    lemma_runs_draw_visible_instances(batches, use_materials, visibility_bit, mesh_count, 0, None, None);
}


/// Whether batch `j` holds instance `p`, the view of `visibility_bit` sees
/// it, and it draws `mesh` (with `textures` and `filters` when materials are
/// used).
pub open spec fn batch_draws(
    batches: Seq<PreparedBatchKey>,
    j: int,
    p: int,
    use_materials: bool,
    visibility_bit: u8,
    mesh: usize,
    textures: usize,
    filters: usize,
) -> bool {
    &&& 0 <= j < batches.len()
    &&& batches[j].instance_start <= p < batches[j].instance_start + batches[j].instance_count
    &&& batches[j].visibility_mask & visibility_bit != 0
    &&& batches[j].mesh == mesh
    &&& use_materials ==> batches[j].textures == textures && batches[j].filters == filters
}

/// Whether some batch that the view sees and that draws `mesh` (with
/// `textures` and `filters` when materials are used) holds instance `p`.
pub open spec fn instance_drawn_by(
    batches: Seq<PreparedBatchKey>,
    p: int,
    use_materials: bool,
    visibility_bit: u8,
    mesh: usize,
    textures: usize,
    filters: usize,
) -> bool {
    exists|j: int| #[trigger] batch_draws(batches, j, p, use_materials, visibility_bit, mesh, textures, filters)
}

/// Whether every instance a run draws belongs to a batch that the view sees
/// and that draws the run's mesh (and material, when materials are used).
pub open spec fn run_is_covered(batches: Seq<PreparedBatchKey>, run: DrawRun, use_materials: bool, visibility_bit: u8) -> bool {
    forall|p: int| run.instance_start <= p < run.instance_start + run.instance_count
        ==> #[trigger] instance_drawn_by(batches, p, use_materials, visibility_bit, run.mesh, run.textures, run.filters)
}

proof fn lemma_extent_covered(
    batches: Seq<PreparedBatchKey>,
    i: int,
    next: int,
    count: int,
    use_materials: bool,
    visibility_bit: u8,
)
    requires
        0 <= i < next <= batches.len(),
        forall|p: int| batches[i].instance_start <= p < batches[i].instance_start + count
            ==> #[trigger] instance_drawn_by(batches, p, use_materials, visibility_bit,
                batches[i].mesh, batches[i].textures, batches[i].filters),
    ensures
        ({
            let total = run_extent(batches, i, next, count, use_materials, visibility_bit).1;
            forall|p: int| batches[i].instance_start <= p < batches[i].instance_start + total
                ==> #[trigger] instance_drawn_by(batches, p, use_materials, visibility_bit,
                    batches[i].mesh, batches[i].textures, batches[i].filters)
        }),
    decreases batches.len() - next,
{
    if next < batches.len() && joins_run(batches[i], batches[next], count, use_materials, visibility_bit) {
        let first = batches[i];
        let count2 = count + batches[next].instance_count;
        assert forall|p: int| first.instance_start <= p < first.instance_start + count2
            implies #[trigger] instance_drawn_by(batches, p, use_materials, visibility_bit,
                first.mesh, first.textures, first.filters) by {
            if p >= first.instance_start + count {
                assert(batch_draws(batches, next, p, use_materials, visibility_bit, first.mesh, first.textures, first.filters));
            }
        }
        lemma_extent_covered(batches, i, next + 1, count2, use_materials, visibility_bit);
    }
}

proof fn lemma_runs_covered(
    batches: Seq<PreparedBatchKey>,
    use_materials: bool,
    visibility_bit: u8,
    mesh_count: int,
    i: int,
    bound_mesh: Option<usize>,
    bound_material: Option<(usize, usize)>,
)
    requires
        0 <= i,
        runs_fit(batches, use_materials, visibility_bit, i),
    ensures
        ({
            let runs = runs_from(batches, use_materials, visibility_bit, mesh_count, i, bound_mesh, bound_material);
            forall|r: int| 0 <= r < runs.len() ==> run_is_covered(batches, #[trigger] runs[r], use_materials, visibility_bit)
        }),
    decreases batches.len() - i,
{
    if i < batches.len() {
        let batch = batches[i];
        if !opens_run(batch, visibility_bit) {
            lemma_runs_covered(batches, use_materials, visibility_bit, mesh_count, i + 1, bound_mesh, bound_material);
            assert(runs_from(batches, use_materials, visibility_bit, mesh_count, i, bound_mesh, bound_material)
                == runs_from(batches, use_materials, visibility_bit, mesh_count, i + 1, bound_mesh, bound_material));
        } else {
            lemma_run_extent(batches, i, i + 1, batch.instance_count as int, use_materials, visibility_bit);
            let extent = run_extent(batches, i, i + 1, batch.instance_count as int, use_materials, visibility_bit);
            let next = extent.0;
            if batch.mesh >= mesh_count {
                lemma_runs_covered(batches, use_materials, visibility_bit, mesh_count, next, bound_mesh, bound_material);
                assert(runs_from(batches, use_materials, visibility_bit, mesh_count, i, bound_mesh, bound_material)
                    == runs_from(batches, use_materials, visibility_bit, mesh_count, next, bound_mesh, bound_material));
            } else {
                assert forall|p: int| batch.instance_start <= p < batch.instance_start + batch.instance_count
                    implies #[trigger] instance_drawn_by(batches, p, use_materials, visibility_bit,
                        batch.mesh, batch.textures, batch.filters) by {
                    assert(batch_draws(batches, i, p, use_materials, visibility_bit, batch.mesh, batch.textures, batch.filters));
                }
                lemma_extent_covered(batches, i, i + 1, batch.instance_count as int, use_materials, visibility_bit);
                let material = (batch.textures, batch.filters);
                let bind_material = use_materials && bound_material != Some(material);
                let next_material = if bind_material { Some(material) } else { bound_material };
                lemma_runs_covered(batches, use_materials, visibility_bit, mesh_count, next, Some(batch.mesh), next_material);
                let runs = runs_from(batches, use_materials, visibility_bit, mesh_count, i, bound_mesh, bound_material);
                let rest = runs_from(batches, use_materials, visibility_bit, mesh_count, next, Some(batch.mesh), next_material);
                let first = runs[0];
                assert(runs == seq![first] + rest);
                assert(first.instance_count == extent.1);
                assert forall|r: int| 0 <= r < runs.len() implies run_is_covered(batches, #[trigger] runs[r], use_materials, visibility_bit) by {
                    if r > 0 {
                        assert(runs[r] == rest[r - 1]);
                    }
                }
            }
        }
    }
}

/// A run draws only instances that the batches it merges hold: every
/// instance in its range belongs to a batch that the view sees and that
/// draws the run's mesh, and its material when materials are used. So no
/// run reaches into a gap between batches or into another mesh's batch.
pub proof fn law_runs_draw_only_their_batches(
    batches: Seq<PreparedBatchKey>,
    use_materials: bool,
    visibility_bit: u8,
    mesh_count: int,
)
    requires
        runs_fit(batches, use_materials, visibility_bit, 0),
    ensures
        ({
            let runs = runs_from(batches, use_materials, visibility_bit, mesh_count, 0, None, None);
            forall|r: int| 0 <= r < runs.len() ==> run_is_covered(batches, #[trigger] runs[r], use_materials, visibility_bit)
        }),
{
    lemma_runs_covered(batches, use_materials, visibility_bit, mesh_count, 0, None, None);
}

} // verus!
