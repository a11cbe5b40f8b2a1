//! The index and material bookkeeping of glTF mesh import: triangulation of
//! primitive index lists, index validation, winding, the 16-bit vertex budget
//! and the six material slots.
use vstd::prelude::*;
use crate::material::{TextureError, MATERIAL_SLOT_COUNT};

verus! {

/// The topology of a glTF mesh primitive.
#[derive(Clone, Copy, Debug, PartialEq, Eq)]
pub enum PrimitiveMode {
    /// Isolated points.
    Points,
    /// Separate line segments.
    Lines,
    /// A closed line loop.
    LineLoop,
    /// A connected line strip.
    LineStrip,
    /// Separate triangles, three indices each.
    Triangles,
    /// A triangle strip.
    TriangleStrip,
    /// A triangle fan around the first index.
    TriangleFan,
}

/// Errors in the geometry and textures of an imported glTF scene.
#[derive(Debug)]
pub enum GltfError {
    /// The document did not define a default or fallback scene for its render view.
    NoScene,
    /// The selected scene did not contain any mesh geometry for its render view.
    NoMesh,
    /// A mesh primitive did not contain the required `POSITION` attribute.
    MissingPositions {
        /// Zero-based glTF mesh index.
        mesh: usize,
        /// Zero-based primitive index within the mesh.
        primitive: usize,
    },
    /// Flattened geometry exceeded the renderer's 16-bit index range.
    TooManyVertices {
        /// Number of vertices required by the flattened scene.
        count: usize,
    },
    /// The asset used more materials than the built-in shader can bind at once.
    TooManyMaterials {
        /// Number of materials used by scene primitives.
        count: usize,
    },
    /// A primitive index referred past the end of its position attribute.
    InvalidIndex {
        /// Invalid primitive-local index.
        index: u32,
        /// Number of vertices in the primitive.
        vertex_count: usize,
    },
    /// A triangle-list primitive had an incomplete final triangle.
    InvalidTriangleCount {
        /// Number of source indices.
        count: usize,
    },
    /// A point or line primitive cannot be represented by the triangle renderer.
    UnsupportedPrimitiveMode {
        /// Unsupported glTF primitive mode.
        mode: PrimitiveMode,
    },
    /// A material sampled a UV set other than the single supported set.
    UnsupportedTextureCoordinates {
        /// Unsupported texture-coordinate set index.
        set: u32,
    },
    /// An imported image could not be represented as a workspace texture.
    Texture(TextureError),
}

/// Whether a triangle uses three distinct vertices.
pub open spec fn is_proper(a: u32, b: u32, c: u32) -> bool {
    a != b && b != c && c != a
}

/// The triangle that index `i` (`i >= 2`) of a strip closes, with every
/// other triangle flipped so that all keep the same winding.
pub open spec fn strip_triangle(s: Seq<u32>, i: int) -> Seq<u32> {
    if i % 2 == 0 { seq![s[i - 2], s[i - 1], s[i]] } else { seq![s[i - 1], s[i - 2], s[i]] }
}

/// The triangle that index `i` (`i >= 2`) of a fan closes.
pub open spec fn fan_triangle(s: Seq<u32>, i: int) -> Seq<u32> {
    seq![s[0], s[i - 1], s[i]]
}

/// `t` if it is a proper triangle, nothing otherwise.
pub open spec fn kept(t: Seq<u32>) -> Seq<u32> {
    if is_proper(t[0], t[1], t[2]) { t } else { Seq::empty() }
}

/// The proper triangles closed by indices `2..n` of a strip.
pub open spec fn strip_triangles(s: Seq<u32>, n: int) -> Seq<u32>
    decreases n,
{
    if n <= 2 { Seq::empty() } else { strip_triangles(s, n - 1) + kept(strip_triangle(s, n - 1)) }
}

/// The proper triangles closed by indices `2..n` of a fan.
pub open spec fn fan_triangles(s: Seq<u32>, n: int) -> Seq<u32>
    decreases n,
{
    if n <= 2 { Seq::empty() } else { fan_triangles(s, n - 1) + kept(fan_triangle(s, n - 1)) }
}

/// The triangle list of a primitive: lists pass through, strips and fans are
/// unrolled with degenerate triangles dropped.
pub open spec fn triangulated(mode: PrimitiveMode, s: Seq<u32>) -> Option<Seq<u32>> {
    match mode {
        PrimitiveMode::Triangles => if s.len() % 3 == 0 { Some(s) } else { None },
        PrimitiveMode::TriangleStrip => Some(strip_triangles(s, s.len() as int)),
        PrimitiveMode::TriangleFan => Some(fan_triangles(s, s.len() as int)),
        _ => None,
    }
}

/// The error that triangulating `s` as `mode` reports, when it fails.
pub open spec fn triangulation_error(mode: PrimitiveMode, count: int) -> GltfError {
    match mode {
        PrimitiveMode::Triangles => GltfError::InvalidTriangleCount { count: count as usize },
        _ => GltfError::UnsupportedPrimitiveMode { mode },
    }
}

/// Converts a primitive's index list to a triangle list.
pub fn triangulate(mode: PrimitiveMode, source: &[u32]) -> (indices: Result<Vec<u32>, GltfError>)
    ensures
        match triangulated(mode, source@) {
            Some(t) => indices matches Ok(v) && v@ == t,
            None => indices matches Err(e) && e == triangulation_error(mode, source@.len() as int),
        },
{
    let len: usize = source.len();
    match mode {
        PrimitiveMode::Triangles => {
            if len % 3 != 0 {
                return Err(GltfError::InvalidTriangleCount { count: len });
            }
            let mut indices: Vec<u32> = Vec::new();
            indices.extend_from_slice(source);
            assert(indices@ =~= source@);
            assert(triangulated(mode, source@) == Some(source@));
            Ok(indices)
        },
        PrimitiveMode::TriangleStrip | PrimitiveMode::TriangleFan => {
            let strip: bool = match mode {
                PrimitiveMode::TriangleStrip => true,
                _ => false,
            };
            let mut indices: Vec<u32> = Vec::new();
            let mut index: usize = 2;
            while index < len
                invariant
                    len == source@.len(),
                    strip == (mode is TriangleStrip),
                    mode is TriangleStrip || mode is TriangleFan,
                    2 <= index,
                    index <= len || index == 2,
                    indices@ == (if strip {
                        strip_triangles(source@, index as int)
                    } else {
                        fan_triangles(source@, index as int)
                    }),
                decreases len - index,
            {
                let triangle: [u32; 3] = if strip {
                    if index % 2 == 0 {
                        [source[index - 2], source[index - 1], source[index]]
                    } else {
                        [source[index - 1], source[index - 2], source[index]]
                    }
                } else {
                    [source[0], source[index - 1], source[index]]
                };
                let ghost closed = if strip {
                    strip_triangle(source@, index as int)
                } else {
                    fan_triangle(source@, index as int)
                };
                assert(triangle@ =~= closed);
                if triangle[0] != triangle[1] && triangle[1] != triangle[2] && triangle[2] != triangle[0] {
                    indices.push(triangle[0]);
                    indices.push(triangle[1]);
                    indices.push(triangle[2]);
                }
                proof {
                    if strip {
                        assert(indices@ =~= strip_triangles(source@, index + 1));
                    } else {
                        assert(indices@ =~= fan_triangles(source@, index + 1));
                    }
                }
                index = index + 1;
            }
            proof {
                if len < 2 {
                    let empty = Seq::<u32>::empty();
                    assert(strip_triangles(source@, 2) == empty);
                    assert(fan_triangles(source@, 2) == empty);
                    assert(strip_triangles(source@, len as int) == empty);
                    assert(fan_triangles(source@, len as int) == empty);
                    assert(index == 2);
                } else {
                    assert(index == len);
                }
            }
            Ok(indices)
        },
        _ => Err(GltfError::UnsupportedPrimitiveMode { mode }),
    }
}


/// The largest number of vertices that 16-bit indices can address.
pub const MAX_VERTICES: usize = 65536;

/// Adds a primitive's vertices to the running total of a flattened scene,
/// refusing a total that 16-bit indices cannot address.
pub fn vertex_budget(existing: usize, added: usize) -> (total: Result<usize, GltfError>)
    requires
        existing + added <= usize::MAX,
    ensures
        existing + added > MAX_VERTICES ==> (total matches Err(e) && e == (GltfError::TooManyVertices {
            count: (existing + added) as usize,
        })),
        existing + added <= MAX_VERTICES ==> (total matches Ok(t) && t == existing + added),
{
    let total: usize = existing + added;
    if total > MAX_VERTICES {
        return Err(GltfError::TooManyVertices { count: total });
    }
    Ok(total)
}

/// The indices `0..n` of a primitive without an index buffer, where `n` is
/// the vertex count truncated to 32 bits.
pub fn sequential_indices(vertex_count: usize) -> (indices: Vec<u32>)
    ensures
        indices@.len() == vertex_count as u32,
        forall|i: int| 0 <= i < indices@.len() ==> indices@[i] == i,
{
    let count: u32 = vertex_count as u32;
    let mut indices: Vec<u32> = Vec::new();
    let mut i: u32 = 0;
    while i < count
        invariant
            i <= count,
            count == vertex_count as u32,
            indices@.len() == i,
            forall|j: int| 0 <= j < indices@.len() ==> indices@[j] == j,
        decreases count - i,
    {
        indices.push(i);
        i = i + 1;
    }
    indices
}

/// `t` with the second and third index of every complete triangle swapped,
/// which reverses the triangles' winding.
pub open spec fn rewound(t: Seq<u32>) -> Seq<u32> {
    Seq::new(
        t.len(),
        |i: int|
            if i < (t.len() / 3) * 3 && i % 3 == 1 {
                t[i + 1]
            } else if i < (t.len() / 3) * 3 && i % 3 == 2 {
                t[i - 1]
            } else {
                t[i]
            },
    )
}

/// Whether position `k` holds the first index of `t` that is not below `vertex_count`.
pub open spec fn first_invalid_at(t: Seq<u32>, vertex_count: int, k: int) -> bool {
    &&& 0 <= k < t.len()
    &&& t[k] >= vertex_count
    &&& forall|j: int| 0 <= j < k ==> t[j] < vertex_count
}

/// Reverses the winding of every complete triangle of `indices`.
pub fn reverse_winding(indices: &mut Vec<u32>)
    ensures
        final(indices)@ == rewound(old(indices)@),
{
    let len: usize = indices.len();
    let triangles: usize = len / 3;
    let ghost t = indices@;
    let mut k: usize = 0;
    while k < triangles
        invariant
            len == t.len(),
            len == indices@.len(),
            triangles == len / 3,
            k <= triangles,
            forall|j: int| 0 <= j < k * 3 ==> indices@[j] == rewound(t)[j],
            forall|j: int| k * 3 <= j < len ==> indices@[j] == t[j],
        decreases triangles - k,
    {
        let second: u32 = indices[k * 3 + 1];
        let third: u32 = indices[k * 3 + 2];
        indices.set(k * 3 + 1, third);
        indices.set(k * 3 + 2, second);
        proof {
            assert forall|j: int| 0 <= j < (k + 1) * 3 implies indices@[j] == rewound(t)[j] by {
                if j >= k * 3 {
                    vstd::arithmetic::div_mod::lemma_fundamental_div_mod_converse(j, 3, k as int, j - k * 3);
                }
            }
        }
        k = k + 1;
    }
    assert(indices@ =~= rewound(t));
}

/// Triangulates a primitive's index list, checks every index against the
/// primitive's vertex count, and reverses the winding when the primitive's
/// transform mirrors it.
pub fn primitive_indices(
    mode: PrimitiveMode,
    source: &[u32],
    vertex_count: usize,
    reflected: bool,
) -> (indices: Result<Vec<u32>, GltfError>)
    ensures
        match triangulated(mode, source@) {
            None => indices matches Err(e) && e == triangulation_error(mode, source@.len() as int),
            Some(t) => if exists|k: int| #[trigger] first_invalid_at(t, vertex_count as int, k) {
                indices matches Err(e) && exists|k: int|
                    #[trigger] first_invalid_at(t, vertex_count as int, k) && e == (GltfError::InvalidIndex {
                        index: t[k],
                        vertex_count,
                    })
            } else {
                indices matches Ok(v) && v@ == (if reflected { rewound(t) } else { t })
                    && forall|j: int| 0 <= j < v@.len() ==> v@[j] < vertex_count
            },
        },
{
    let mut indices: Vec<u32> = match triangulate(mode, source) {
        Ok(indices) => indices,
        Err(error) => return Err(error),
    };
    let ghost t = indices@;
    assert(triangulated(mode, source@) == Some(t));
    let len: usize = indices.len();
    let mut i: usize = 0;
    while i < len
        invariant
            triangulated(mode, source@) == Some(t),
            t == indices@,
            len == t.len(),
            i <= len,
            forall|j: int| 0 <= j < i ==> t[j] < vertex_count,
        decreases len - i,
    {
        let index: u32 = indices[i];
        if index as usize >= vertex_count {
            assert(first_invalid_at(t, vertex_count as int, i as int));
            return Err(GltfError::InvalidIndex { index, vertex_count });
        }
        i = i + 1;
    }
    proof {
        if exists|k: int| first_invalid_at(t, vertex_count as int, k) {
            let k = choose|k: int| first_invalid_at(t, vertex_count as int, k);
            assert(t[k] < vertex_count);
        }
    }
    if reflected {
        reverse_winding(&mut indices);
    }
    Ok(indices)
}

/// The first position at which `keys` holds `key`, if any.
pub open spec fn key_position(keys: Seq<Option<usize>>, key: Option<usize>) -> Option<int> {
    if exists|i: int| 0 <= i < keys.len() && keys[i] == key {
        Some(choose|i: int| 0 <= i < keys.len() && keys[i] == key && forall|j: int| 0 <= j < i ==> keys[j] != key)
    } else {
        None
    }
}

/// Picks the material slot of a primitive whose glTF material is `key`
/// (`None` for the default material): the slot already given to that
/// material, else a new slot while fewer than six are in use, else the
/// material index modulo six.
pub fn assign_material_slot(material_keys: &mut Vec<Option<usize>>, key: Option<usize>) -> (slot: u32)
    ensures
        old(material_keys)@.len() <= MATERIAL_SLOT_COUNT ==> slot < MATERIAL_SLOT_COUNT
            && final(material_keys)@.len() <= MATERIAL_SLOT_COUNT,
        match key_position(old(material_keys)@, key) {
            Some(i) => slot == i as u32 && final(material_keys)@ == old(material_keys)@,
            None => if old(material_keys)@.len() < MATERIAL_SLOT_COUNT {
                slot == old(material_keys)@.len() && final(material_keys)@ == old(material_keys)@.push(key)
            } else {
                final(material_keys)@ == old(material_keys)@ && slot == (match key {
                    Some(index) => index % 6,
                    None => 0,
                })
            },
        },
{
    let len: usize = material_keys.len();
    let mut i: usize = 0;
    while i < len
        invariant
            len == material_keys@.len(),
            i <= len,
            forall|j: int| 0 <= j < i ==> material_keys@[j] != key,
        decreases len - i,
    {
        let same: bool = match (material_keys[i], key) {
            (Some(a), Some(b)) => a == b,
            (None, None) => true,
            _ => false,
        };
        if same {
            proof {
                assert(material_keys@[i as int] == key);
                let p = choose|p: int|
                    0 <= p < material_keys@.len() && material_keys@[p] == key && forall|j: int|
                        0 <= j < p ==> material_keys@[j] != key;
                assert(p == i);
            }
            return i as u32;
        }
        i = i + 1;
    }
    if len < MATERIAL_SLOT_COUNT {
        material_keys.push(key);
        return len as u32;
    }
    match key {
        Some(index) => (index % MATERIAL_SLOT_COUNT) as u32,
        None => 0,
    }
}

/// The 16-bit scene index of primitive index `index` placed after
/// `base_vertex` earlier vertices.
pub open spec fn rebased(base_vertex: u32, index: u32) -> u16 {
    (base_vertex + index) as u16
}

/// Appends a primitive's triangle list to the scene's 16-bit index buffer,
/// offsetting every index by the number of vertices before the primitive.
pub fn append_rebased_indices(indices: &mut Vec<u16>, base_vertex: u32, primitive_indices: &[u32])
    requires
        forall|j: int| 0 <= j < primitive_indices@.len() ==> base_vertex + #[trigger] primitive_indices@[j] <= u32::MAX,
    ensures
        final(indices)@ == old(indices)@ + Seq::new(
            primitive_indices@.len(),
            |j: int| rebased(base_vertex, primitive_indices@[j]),
        ),
{
    let ghost start = indices@;
    let ghost target = Seq::new(primitive_indices@.len(), |j: int| rebased(base_vertex, primitive_indices@[j]));
    let len: usize = primitive_indices.len();
    let mut i: usize = 0;
    while i < len
        invariant
            len == primitive_indices@.len(),
            forall|j: int| 0 <= j < primitive_indices@.len() ==> base_vertex + #[trigger] primitive_indices@[j] <= u32::MAX,
            target == Seq::new(primitive_indices@.len(), |j: int| rebased(base_vertex, primitive_indices@[j])),
            i <= len,
            indices@ == start + target.subrange(0, i as int),
        decreases len - i,
    {
        let value: u32 = base_vertex + primitive_indices[i];
        indices.push(value as u16);
        assert(target.subrange(0, i + 1) =~= target.subrange(0, i as int).push(value as u16));
        i = i + 1;
    }
    assert(target.subrange(0, len as int) =~= target);
}

/// The source indices of a primitive: its index buffer, or `0..n` for `n`
/// vertices when it has none.
pub open spec fn source_indices(source: Option<Seq<u32>>, vertex_count: usize) -> Seq<u32> {
    match source {
        Some(indices) => indices,
        None => Seq::new(vertex_count as u32 as nat, |i: int| i as u32),
    }
}

/// The index buffer of a primitive, if it has one.
pub open spec fn given_indices(source: Option<&[u32]>) -> Option<Seq<u32>> {
    match source {
        Some(given) => Some(given@),
        None => None,
    }
}

/// The index and material bookkeeping of one primitive of a flattened
/// scene: the vertex budget is checked, the source indices (or `0..n`) are
/// triangulated, checked against the primitive's `vertex_count` vertices
/// and rewound if the primitive's transform mirrors it, and then its
/// material gets a slot and its indices, offset by the `existing_vertices`
/// before it, are appended. A primitive that fails changes nothing.
pub fn append_primitive_topology(
    mode: PrimitiveMode,
    source: Option<&[u32]>,
    vertex_count: usize,
    existing_vertices: usize,
    reflected: bool,
    material_key: Option<usize>,
    indices: &mut Vec<u16>,
    material_keys: &mut Vec<Option<usize>>,
) -> (slot: Result<u32, GltfError>)
    requires
        existing_vertices + vertex_count <= usize::MAX,
    ensures
        slot is Err ==> final(indices)@ == old(indices)@ && final(material_keys)@ == old(material_keys)@,
        existing_vertices + vertex_count > MAX_VERTICES ==> (slot matches Err(e) && e == (GltfError::TooManyVertices {
            count: (existing_vertices + vertex_count) as usize,
        })),
        existing_vertices + vertex_count <= MAX_VERTICES ==> {
            let s = given_indices(source);
            match triangulated(mode, source_indices(s, vertex_count)) {
                None => slot matches Err(e) && e == triangulation_error(mode, source_indices(s, vertex_count).len() as int),
                Some(t) => if exists|k: int| #[trigger] first_invalid_at(t, vertex_count as int, k) {
                    slot matches Err(e) && exists|k: int|
                        #[trigger] first_invalid_at(t, vertex_count as int, k) && e == (GltfError::InvalidIndex {
                            index: t[k],
                            vertex_count,
                        })
                } else {
                    let placed = if reflected { rewound(t) } else { t };
                    &&& slot matches Ok(slot_index) && match key_position(old(material_keys)@, material_key) {
                        Some(i) => slot_index == i as u32 && final(material_keys)@ == old(material_keys)@,
                        None => if old(material_keys)@.len() < MATERIAL_SLOT_COUNT {
                            slot_index == old(material_keys)@.len() && final(material_keys)@ == old(material_keys)@.push(material_key)
                        } else {
                            final(material_keys)@ == old(material_keys)@ && slot_index == (match material_key {
                                Some(index) => index % 6,
                                None => 0,
                            })
                        },
                    }
                    &&& final(indices)@ == old(indices)@ + Seq::new(
                        placed.len(),
                        |j: int| rebased(existing_vertices as u32, placed[j]),
                    )
                }
            }
        },
{
    match vertex_budget(existing_vertices, vertex_count) {
        Ok(_) => {},
        Err(error) => return Err(error),
    }
    let ghost s = given_indices(source);
    let sequential: Vec<u32>;
    let source_slice: &[u32] = match source {
        Some(given) => given,
        None => {
            sequential = sequential_indices(vertex_count);
            proof {
                assert(sequential@ =~= source_indices(s, vertex_count));
            }
            sequential.as_slice()
        },
    };
    assert(source_slice@ == source_indices(s, vertex_count));
    let placed = match primitive_indices(mode, source_slice, vertex_count, reflected) {
        Ok(placed) => placed,
        Err(error) => return Err(error),
    };
    let slot = assign_material_slot(material_keys, material_key);
    append_rebased_indices(indices, existing_vertices as u32, placed.as_slice());
    Ok(slot)
}

/// Every triangle list that triangulation produces is made of whole
/// triangles, and strips and fans yield only proper triangles whose indices
/// all come from the source list.
pub proof fn law_triangulation_yields_whole_triangles(mode: PrimitiveMode, s: Seq<u32>)
    ensures
        triangulated(mode, s) matches Some(t) ==> t.len() % 3 == 0,
        (mode is TriangleStrip || mode is TriangleFan) ==> (triangulated(mode, s) matches Some(t)
            && proper_triangles_from(t, s)),
{
    if mode is TriangleStrip {
        lemma_strip_triangles(s, s.len() as int);
    } else if mode is TriangleFan {
        lemma_fan_triangles(s, s.len() as int);
    }
}

/// Whether `t` is a list of whole, proper triangles drawn from the indices of `s`.
pub open spec fn proper_triangles_from(t: Seq<u32>, s: Seq<u32>) -> bool {
    &&& t.len() % 3 == 0
    &&& forall|k: int| 0 <= k < t.len() / 3 ==> is_proper(t[3 * k], t[3 * k + 1], #[trigger] t[3 * k + 2])
    &&& forall|j: int| 0 <= j < t.len() ==> s.contains(#[trigger] t[j])
}

proof fn lemma_append_kept(prev: Seq<u32>, tri: Seq<u32>, s: Seq<u32>)
    requires
        proper_triangles_from(prev, s),
        tri.len() == 3,
        s.contains(tri[0]),
        s.contains(tri[1]),
        s.contains(tri[2]),
    ensures
        proper_triangles_from(prev + kept(tri), s),
{
    let t = prev + kept(tri);
    let m: int = prev.len() as int / 3;
    vstd::arithmetic::div_mod::lemma_fundamental_div_mod(prev.len() as int, 3);
    if is_proper(tri[0], tri[1], tri[2]) {
        assert(t.len() == 3 * (m + 1));
        vstd::arithmetic::div_mod::lemma_fundamental_div_mod_converse(t.len() as int, 3, m + 1, 0);
        assert forall|k: int| 0 <= k < t.len() / 3 implies is_proper(t[3 * k], t[3 * k + 1], #[trigger] t[3 * k + 2]) by {
            if k < m {
                assert(t[3 * k] == prev[3 * k]);
                assert(t[3 * k + 1] == prev[3 * k + 1]);
                assert(prev[3 * k + 2] == t[3 * k + 2]);
            } else {
                assert(t[3 * k] == tri[0] && t[3 * k + 1] == tri[1] && t[3 * k + 2] == tri[2]);
            }
        }
        assert forall|j: int| 0 <= j < t.len() implies s.contains(#[trigger] t[j]) by {
            if j < prev.len() {
                assert(t[j] == prev[j]);
            } else {
                assert(t[j] == tri[j - prev.len()]);
            }
        }
    } else {
        assert(t =~= prev);
    }
}

proof fn lemma_strip_triangles(s: Seq<u32>, n: int)
    requires
        n <= s.len(),
    ensures
        proper_triangles_from(strip_triangles(s, n), s),
    decreases n,
{
    if n > 2 {
        lemma_strip_triangles(s, n - 1);
        let tri = strip_triangle(s, n - 1);
        assert(s.contains(s[n - 1]) && s.contains(s[n - 2]) && s.contains(s[n - 3]));
        lemma_append_kept(strip_triangles(s, n - 1), tri, s);
    }
}

proof fn lemma_fan_triangles(s: Seq<u32>, n: int)
    requires
        n <= s.len(),
    ensures
        proper_triangles_from(fan_triangles(s, n), s),
    decreases n,
{
    if n > 2 {
        lemma_fan_triangles(s, n - 1);
        let tri = fan_triangle(s, n - 1);
        assert(s.contains(s[0]) && s.contains(s[n - 1]) && s.contains(s[n - 2]));
        lemma_append_kept(fan_triangles(s, n - 1), tri, s);
    }
}

/// Reversing the winding twice restores the index list.
pub proof fn law_reverse_winding_involutive(t: Seq<u32>)
    ensures
        rewound(rewound(t)) == t,
{
    let r = rewound(t);
    assert forall|i: int| 0 <= i < t.len() implies rewound(r)[i] == t[i] by {
        if i < (t.len() / 3) * 3 {
            vstd::arithmetic::div_mod::lemma_fundamental_div_mod(i, 3);
            let k = i / 3;
            vstd::arithmetic::div_mod::lemma_fundamental_div_mod_converse(3 * k + 1, 3, k, 1);
            vstd::arithmetic::div_mod::lemma_fundamental_div_mod_converse(3 * k + 2, 3, k, 2);
            vstd::arithmetic::div_mod::lemma_fundamental_div_mod_converse(3 * k, 3, k, 0);
        }
    }
    assert(rewound(r) =~= t);
}

} // verus!
