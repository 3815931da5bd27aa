use vstd::prelude::*;

verus! {

/// Fewest segments used for circles and rings.
pub const MIN_ROUND_SEGMENTS: usize = 16;

/// Corner `corner` (0, 1 or 2) of triangle `i` of a fan around vertex 0
/// over `n` rim vertices numbered 1 to `n`; the last triangle closes back
/// to vertex 1.
pub open spec fn fan_index(n: int, i: int, corner: int) -> int {
    if corner == 0 { 0 } else if corner == 1 { i + 1 } else if i + 1 == n { 1 } else { i + 2 }
}

/// Triangle list of a closed fan over `rim_vertices` rim vertices around a
/// center vertex 0, as used for species areas and circles.
pub fn fan_triangle_indices(rim_vertices: usize) -> (indices: Vec<u32>)
    requires
        rim_vertices < u32::MAX,
    ensures
        indices.len() == 3 * rim_vertices,
        forall|i: int, c: int| 0 <= i < rim_vertices && 0 <= c < 3 ==>
            #[trigger] indices@[3 * i + c] as int == fan_index(rim_vertices as int, i, c),
{
    let mut indices: Vec<u32> = Vec::new();
    let mut i: usize = 0;
    while i < rim_vertices
        invariant
            i <= rim_vertices < u32::MAX,
            indices.len() == 3 * i,
            forall|k: int, c: int| 0 <= k < i && 0 <= c < 3 ==>
                #[trigger] indices@[3 * k + c] as int == fan_index(rim_vertices as int, k, c),
        decreases rim_vertices - i,
    {
        let next = if i + 1 == rim_vertices { 1 } else { i + 2 };
        indices.push(0);
        indices.push((i + 1) as u32);
        indices.push(next as u32);
        assert forall|k: int, c: int| 0 <= k < i + 1 && 0 <= c < 3 implies
            #[trigger] indices@[3 * k + c] as int == fan_index(rim_vertices as int, k, c) by {
            if k == i {
                assert(3 * k + c == 3 * i + c);
            }
        }
        i = i + 1;
    }
    indices
}

/// Triangle list of a filled circle with `segments` rim vertices (at least
/// 16) around its center.
pub fn circle_mesh_indices(segments: usize) -> (indices: Vec<u32>)
    requires
        segments < u32::MAX,
    ensures
        ({
            let n = if segments < MIN_ROUND_SEGMENTS { MIN_ROUND_SEGMENTS as int } else { segments as int };
            &&& indices.len() == 3 * n
            &&& forall|i: int, c: int| 0 <= i < n && 0 <= c < 3 ==> #[trigger] indices@[3 * i + c] as int == fan_index(n, i, c)
        }),
{
    let n = if segments < MIN_ROUND_SEGMENTS { MIN_ROUND_SEGMENTS } else { segments };
    fan_triangle_indices(n)
}

/// Corner `corner` (0 to 5) of the two triangles of quad `i` of a ring with
/// `n` segments, whose vertices alternate inner (even) and outer (odd).
pub open spec fn ring_index(n: int, i: int, corner: int) -> int {
    let inner_a = 2 * i;
    let outer_a = inner_a + 1;
    let next = if i + 1 == n { 0 } else { i + 1 };
    let inner_b = 2 * next;
    let outer_b = inner_b + 1;
    if corner == 0 { inner_a }
    else if corner == 1 { outer_a }
    else if corner == 2 { outer_b }
    else if corner == 3 { inner_a }
    else if corner == 4 { outer_b }
    else { inner_b }
}

/// Triangle list of a ring with `segments` segments (at least 16).
pub fn ring_mesh_indices(segments: usize) -> (indices: Vec<u32>)
    requires
        segments < u32::MAX / 2,
    ensures
        ({
            let n = if segments < MIN_ROUND_SEGMENTS { MIN_ROUND_SEGMENTS as int } else { segments as int };
            &&& indices.len() == 6 * n
            &&& forall|i: int, c: int| 0 <= i < n && 0 <= c < 6 ==> #[trigger] indices@[6 * i + c] as int == ring_index(n, i, c)
        }),
{
    let n = if segments < MIN_ROUND_SEGMENTS { MIN_ROUND_SEGMENTS } else { segments };
    let mut indices: Vec<u32> = Vec::new();
    let mut i: usize = 0;
    while i < n
        invariant
            i <= n < u32::MAX / 2,
            indices.len() == 6 * i,
            forall|k: int, c: int| 0 <= k < i && 0 <= c < 6 ==>
                #[trigger] indices@[6 * k + c] as int == ring_index(n as int, k, c),
        decreases n - i,
    {
        let inner_a = (i * 2) as u32;
        let outer_a = inner_a + 1;
        let next_index = if i + 1 == n { 0 } else { i + 1 };
        let inner_b = (next_index * 2) as u32;
        let outer_b = inner_b + 1;
        indices.push(inner_a);
        indices.push(outer_a);
        indices.push(outer_b);
        indices.push(inner_a);
        indices.push(outer_b);
        indices.push(inner_b);
        assert forall|k: int, c: int| 0 <= k < i + 1 && 0 <= c < 6 implies
            #[trigger] indices@[6 * k + c] as int == ring_index(n as int, k, c) by {
            if k == i {
                assert(6 * k + c == 6 * i + c);
            }
        }
        i = i + 1;
    }
    indices
}

/// Every fan and ring index names an existing vertex: a fan over `n` rim
/// vertices has `n + 1` vertices, a ring with `n` segments has `2n`.
pub proof fn lemma_mesh_indices_in_range(n: int, i: int, c: int)
    requires
        n >= 1,
        0 <= i < n,
    ensures
        0 <= c < 3 ==> 0 <= fan_index(n, i, c) <= n,
        0 <= c < 6 ==> 0 <= ring_index(n, i, c) < 2 * n,
{
}

} // verus!
