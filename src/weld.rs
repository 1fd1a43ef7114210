//! The mesh welder: one output vertex per distinct face triplet, numbered in
//! the order the triplets first occur.
use vstd::prelude::*;

use crate::error::{AttributeKind, ErrorKind, Failure};
use crate::face::FaceTriplet;

verus! {

/// An index that is no 1-based reference into a table of `n` entries.
pub open spec fn out_of_table(i: usize, n: nat) -> bool {
    i == 0 || i > n
}

/// The first reference of `t` that lies outside its table (position, then
/// texture coordinate, then normal), for tables of the given sizes.
pub open spec fn reference_failure(t: FaceTriplet, np: nat, nn: nat, nt: nat) -> Option<Failure> {
    if out_of_table(t.position, np) {
        Some(Failure::InvalidReference { attribute: AttributeKind::Position, index: t.position })
    } else if t.tex_coord is Some && out_of_table(t.tex_coord->0, nt) {
        Some(
            Failure::InvalidReference { attribute: AttributeKind::TexCoord, index: t.tex_coord->0 },
        )
    } else if t.normal is Some && out_of_table(t.normal->0, nn) {
        Some(Failure::InvalidReference { attribute: AttributeKind::Normal, index: t.normal->0 })
    } else {
        None
    }
}

/// Indices as numbers.
pub open spec fn index_view(s: Seq<usize>) -> Seq<nat> {
    s.map_values(|i: usize| i as nat)
}

/// The effect of one more triplet on the distinct triplets and the indices
/// assigned so far: a triplet seen before gets its old index, a new one the
/// next index.
pub open spec fn weld_step(st: (Seq<FaceTriplet>, Seq<nat>), t: FaceTriplet) -> (
    Seq<FaceTriplet>,
    Seq<nat>,
) {
    if st.0.contains(t) {
        (st.0, st.1.push(st.0.index_of(t) as nat))
    } else {
        (st.0.push(t), st.1.push(st.0.len()))
    }
}

/// Welds `faces` against tables of the given sizes: the distinct triplets in
/// order of first occurrence and each corner's index among them, or the
/// first reference that lies outside its table.
pub open spec fn weld_faces(faces: Seq<FaceTriplet>, np: nat, nn: nat, nt: nat) -> Result<
    (Seq<FaceTriplet>, Seq<nat>),
    Failure,
>
    decreases faces.len(),
{
    if faces.len() == 0 {
        Ok((Seq::empty(), Seq::empty()))
    } else {
        match weld_faces(faces.drop_last(), np, nn, nt) {
            Err(f) => Err(f),
            Ok(st) => match reference_failure(faces.last(), np, nn, nt) {
                Some(f) => Err(f),
                None => Ok(weld_step(st, faces.last())),
            },
        }
    }
}

proof fn lemma_weld_failure_stays(faces: Seq<FaceTriplet>, k: int, np: nat, nn: nat, nt: nat)
    requires
        0 <= k <= faces.len(),
        weld_faces(faces.take(k), np, nn, nt) is Err,
    ensures
        weld_faces(faces, np, nn, nt) == weld_faces(faces.take(k), np, nn, nt),
    decreases faces.len() - k,
{
    if k < faces.len() {
        assert(faces.take(k + 1).drop_last() =~= faces.take(k));
        lemma_weld_failure_stays(faces, k + 1, np, nn, nt);
    } else {
        assert(faces.take(k) =~= faces);
    }
}

fn reference_check(t: FaceTriplet, np: usize, nn: usize, nt: usize) -> (r: Result<(), ErrorKind>)
    ensures
        match reference_failure(t, np as nat, nn as nat, nt as nat) {
            None => r is Ok,
            Some(f) => r is Err && r->Err_0.reports(f),
        },
{
    if t.position == 0 || t.position > np {
        return Err(
            ErrorKind::InvalidReference { attribute: AttributeKind::Position, index: t.position },
        );
    }
    if let Some(i) = t.tex_coord {
        if i == 0 || i > nt {
            return Err(ErrorKind::InvalidReference { attribute: AttributeKind::TexCoord, index: i });
        }
    }
    if let Some(i) = t.normal {
        if i == 0 || i > nn {
            return Err(ErrorKind::InvalidReference { attribute: AttributeKind::Normal, index: i });
        }
    }
    Ok(())
}

/// Welds the face triplets against attribute tables of sizes `np`
/// (positions), `nn` (normals) and `nt` (texture coordinates). The lookup
/// keeps, for each position, the output vertices that use it.
pub fn weld(faces: &Vec<FaceTriplet>, np: usize, nn: usize, nt: usize) -> (r: Result<
    (Vec<FaceTriplet>, Vec<usize>),
    ErrorKind,
>)
    ensures
        match weld_faces(faces@, np as nat, nn as nat, nt as nat) {
            Ok(st) => r is Ok && r->Ok_0.0@ == st.0 && index_view(r->Ok_0.1@) == st.1,
            Err(f) => r is Err && r->Err_0.reports(f),
        },
{
    let mut buckets: Vec<Vec<usize>> = Vec::new();
    let mut p: usize = 0;
    while p < np
        invariant
            p <= np,
            buckets.len() == p,
            forall|q: int| 0 <= q < p ==> (#[trigger] buckets@[q])@.len() == 0,
        decreases np - p,
    {
        buckets.push(Vec::new());
        p = p + 1;
    }
    let mut verts: Vec<FaceTriplet> = Vec::new();
    let mut indices: Vec<usize> = Vec::new();
    let mut k: usize = 0;
    assert(index_view(indices@) =~= Seq::<nat>::empty());
    while k < faces.len()
        invariant
            k <= faces.len(),
            buckets.len() == np,
            weld_faces(faces@.take(k as int), np as nat, nn as nat, nt as nat) == Ok::<
                (Seq<FaceTriplet>, Seq<nat>),
                Failure,
            >((verts@, index_view(indices@))),
            verts.len() <= k,
            verts@.no_duplicates(),
            forall|q: int, i: int|
                0 <= q < np && 0 <= i < buckets@[q]@.len() ==> #[trigger] buckets@[q]@[i]
                    < verts.len() && verts@[buckets@[q]@[i] as int].position == q + 1,
            forall|j: int|
                0 <= j < verts.len() ==> 1 <= (#[trigger] verts@[j]).position <= np
                    && buckets@[verts@[j].position - 1]@.contains(j as usize),
        decreases faces.len() - k,
    {
        let t = faces[k];
        proof {
            assert(faces@.take(k + 1).drop_last() =~= faces@.take(k as int));
            assert(faces@.take(k + 1).last() == t);
        }
        let checked = reference_check(t, np, nn, nt);
        if checked.is_err() {
            proof {
                lemma_weld_failure_stays(faces@, k + 1, np as nat, nn as nat, nt as nat);
            }
            return Err(checked.unwrap_err());
        }
        assert(reference_failure(t, np as nat, nn as nat, nt as nat) is None);
        let ghost st0 = (verts@, index_view(indices@));
        let p = t.position - 1;
        let mut found: Option<usize> = None;
        let mut i: usize = 0;
        while i < buckets[p].len()
            invariant_except_break
                found is None,
            invariant
                p < buckets.len(),
                i <= buckets@[p as int]@.len(),
                forall|m: int| 0 <= m < i ==> verts@[#[trigger] buckets@[p as int]@[m] as int] != t,
                forall|q: int, m: int|
                    0 <= q < np && 0 <= m < buckets@[q]@.len() ==> #[trigger] buckets@[q]@[m]
                        < verts.len() && verts@[buckets@[q]@[m] as int].position == q + 1,
                buckets.len() == np,
            ensures
                match found {
                    Some(j) => j < verts.len() && verts@[j as int] == t,
                    None => forall|m: int|
                        0 <= m < buckets@[p as int]@.len() ==> verts@[
                            #[trigger] buckets@[p as int]@[m] as int] != t,
                },
            decreases buckets@[p as int]@.len() - i,
        {
            let j = buckets[p][i];
            if verts[j] == t {
                found = Some(j);
                break;
            }
            i = i + 1;
        }
        match found {
            Some(j) => {
                proof {
                    assert(verts@.contains(t));
                    let c = verts@.index_of(t);
                    assert(verts@[c] == t);
                    assert(c == j);
                }
                let ghost before = indices@;
                indices.push(j);
                assert(index_view(indices@) =~= index_view(before).push(j as nat));
            },
            None => {
                let j = verts.len();
                proof {
                    if verts@.contains(t) {
                        let c = verts@.index_of(t);
                        assert(verts@[c] == t);
                        let m = choose|m: int|
                            0 <= m < buckets@[p as int]@.len() && buckets@[p as int]@[m] == c;
                        assert(verts@[buckets@[p as int]@[m] as int] != t);
                    }
                }
                let ghost old_b = buckets@;
                verts.push(t);
                buckets[p].push(j);
                assert(buckets@[p as int]@ == old_b[p as int]@.push(j));
                indices.push(j);
                proof {
                    assert forall|q: int, m: int|
                        0 <= q < np && 0 <= m < buckets@[q]@.len() implies #[trigger] buckets@[q]@[m]
                        < verts.len() && verts@[buckets@[q]@[m] as int].position == q + 1 by {}
                    assert forall|jj: int| 0 <= jj < verts.len() implies 1 <= (
                    #[trigger] verts@[jj]).position <= np && buckets@[verts@[jj].position
                        - 1]@.contains(jj as usize) by {
                        if jj == j {
                            assert(buckets@[p as int]@[buckets@[p as int]@.len() - 1] == j);
                        } else {
                            let q = verts@[jj].position - 1;
                            assert(old_b[q]@.contains(jj as usize));
                            let m = choose|m: int|
                                0 <= m < old_b[q]@.len() && old_b[q]@[m] == jj as usize;
                            assert(buckets@[q]@[m] == jj as usize);
                        }
                    }
                }
            },
        }
        assert(weld_step(st0, t) == (verts@, index_view(indices@)));
        k = k + 1;
    }
    assert(faces@.take(faces.len() as int) =~= faces@);
    Ok((verts, indices))
}

} // verus!
