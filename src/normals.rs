//! Which triangles contribute to each vertex's smooth normal. Every corner
//! of a triangle adds the triangle's face normal once to its vertex.
use vstd::prelude::*;

verus! {

/// The triangles that the corners in `indices` give to vertex `v`, one entry
/// per corner, in corner order; corner `k` belongs to triangle `k / 3`.
pub open spec fn contributions(indices: Seq<usize>, v: usize) -> Seq<usize>
    decreases indices.len(),
{
    if indices.len() == 0 {
        Seq::empty()
    } else {
        let rest = contributions(indices.drop_last(), v);
        if indices.last() == v {
            rest.push(((indices.len() - 1) / 3) as usize)
        } else {
            rest
        }
    }
}

/// For each of `vertex_count` vertices, the triangles whose face normals
/// make up its smooth normal. A vertex that no corner uses gets none.
pub fn vertex_triangles(indices: &Vec<usize>, vertex_count: usize) -> (r: Vec<Vec<usize>>)
    requires
        forall|k: int| 0 <= k < indices.len() ==> #[trigger] indices@[k] < vertex_count,
    ensures
        r.len() == vertex_count,
        forall|v: int| 0 <= v < vertex_count ==> (#[trigger] r@[v])@ == contributions(indices@, v as usize),
{
    let mut groups: Vec<Vec<usize>> = Vec::new();
    let mut v: usize = 0;
    while v < vertex_count
        invariant
            v <= vertex_count,
            groups.len() == v,
            forall|u: int| 0 <= u < v ==> (#[trigger] groups@[u])@ == Seq::<usize>::empty(),
        decreases vertex_count - v,
    {
        groups.push(Vec::new());
        v = v + 1;
    }
    let mut k: usize = 0;
    while k < indices.len()
        invariant
            k <= indices.len(),
            groups.len() == vertex_count,
            forall|i: int| 0 <= i < indices.len() ==> #[trigger] indices@[i] < vertex_count,
            forall|u: int|
                0 <= u < vertex_count ==> (#[trigger] groups@[u])@ == contributions(
                    indices@.take(k as int),
                    u as usize,
                ),
        decreases indices.len() - k,
    {
        let w = indices[k];
        proof {
            assert(indices@.take(k + 1).drop_last() =~= indices@.take(k as int));
            assert(indices@.take(k + 1).last() == w);
        }
        groups[w].push(k / 3);
        k = k + 1;
    }
    assert(indices@.take(indices.len() as int) =~= indices@);
    groups
}

} // verus!
