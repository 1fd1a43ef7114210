//! Facts about every load: the shape of the mesh, welding, and the order in
//! which output vertices are numbered.
use vstd::prelude::*;

use crate::collect::{read_line, read_lines, RawModel};
use crate::error::{AttributeKind, Failure};
use crate::face::{face_fields, FaceTriplet};
use crate::model::{load_model, refers_inside};
use crate::text::words;
use crate::weld::{out_of_table, reference_failure, weld_faces, weld_step};

verus! {

/// What welding `faces` gives, in terms of the faces themselves: each
/// corner's index names its own triplet, distinct vertices are distinct
/// triplets, every vertex is used, and an index is first used only after
/// every smaller one.
pub open spec fn welds(
    faces: Seq<FaceTriplet>,
    vertices: Seq<FaceTriplet>,
    indices: Seq<nat>,
    np: nat,
    nn: nat,
    nt: nat,
) -> bool {
    &&& indices.len() == faces.len()
    &&& vertices.no_duplicates()
    &&& forall|k: int|
        0 <= k < faces.len() ==> #[trigger] indices[k] < vertices.len() && vertices[indices[k] as int]
            == faces[k]
    &&& forall|j: nat| j < vertices.len() ==> #[trigger] indices.contains(j)
    &&& forall|k: int, j: nat|
        0 <= k < faces.len() && j < indices[k] ==> #[trigger] indices.take(k).contains(j)
    &&& forall|j: int| 0 <= j < vertices.len() ==> refers_inside(#[trigger] vertices[j], np, nn, nt)
}

/// The distinct triplets of `faces`, each where it first occurs.
pub open spec fn distinct_in_order(faces: Seq<FaceTriplet>) -> Seq<FaceTriplet>
    decreases faces.len(),
{
    if faces.len() == 0 {
        Seq::empty()
    } else {
        let d = distinct_in_order(faces.drop_last());
        if d.contains(faces.last()) {
            d
        } else {
            d.push(faces.last())
        }
    }
}

/// The number of lines whose first word is `f`.
pub open spec fn face_line_count(lines: Seq<Seq<char>>) -> nat
    decreases lines.len(),
{
    if lines.len() == 0 {
        0
    } else {
        let w = words(lines.last());
        face_line_count(lines.drop_last()) + if w.len() > 0 && w[0] == seq!['f'] {
            1nat
        } else {
            0nat
        }
    }
}

proof fn lemma_weld_vertices_distinct_in_order(faces: Seq<FaceTriplet>, np: nat, nn: nat, nt: nat)
    requires
        weld_faces(faces, np, nn, nt) is Ok,
    ensures
        weld_faces(faces, np, nn, nt)->Ok_0.0 == distinct_in_order(faces),
    decreases faces.len(),
{
    if faces.len() > 0 {
        lemma_weld_vertices_distinct_in_order(faces.drop_last(), np, nn, nt);
    }
}

proof fn lemma_weld_facts(faces: Seq<FaceTriplet>, np: nat, nn: nat, nt: nat)
    requires
        weld_faces(faces, np, nn, nt) is Ok,
    ensures
        welds(
            faces,
            weld_faces(faces, np, nn, nt)->Ok_0.0,
            weld_faces(faces, np, nn, nt)->Ok_0.1,
            np,
            nn,
            nt,
        ),
    decreases faces.len(),
{
    if faces.len() > 0 {
        let pre = faces.drop_last();
        let t = faces.last();
        lemma_weld_facts(pre, np, nn, nt);
        let st = weld_faces(pre, np, nn, nt)->Ok_0;
        let vs = weld_step(st, t).0;
        let ix = weld_step(st, t).1;
        let n = pre.len() as int;
        assert(reference_failure(t, np, nn, nt) is None);
        assert(ix.take(n) =~= st.1);
        assert forall|k: int| 0 <= k < n implies #[trigger] ix.take(k) =~= st.1.take(k) by {}
        if st.0.contains(t) {
            let c = st.0.index_of(t);
            assert(st.0[c] == t);
        }
        assert forall|k: int| 0 <= k < faces.len() implies #[trigger] ix[k] < vs.len() && vs[ix[k] as int]
            == faces[k] by {
            if k < n {
                assert(st.1[k] == ix[k]);
                assert(pre[k] == faces[k]);
            }
        }
        assert forall|k: int, j: nat| 0 <= k < faces.len() && j < ix[k] implies #[trigger] ix.take(k).contains(j) by {
            if k == n {
                assert(st.1.contains(j));
            } else {
                assert(ix[k] == st.1[k]);
                assert(st.1.take(k).contains(j));
            }
        }
        assert forall|j: nat| j < vs.len() implies #[trigger] ix.contains(j) by {
            if j < st.0.len() {
                assert(st.1.contains(j));
                let m = choose|m: int| 0 <= m < st.1.len() && st.1[m] == j;
                assert(ix[m] == j);
            } else {
                assert(ix[n] == j);
            }
        }
        assert forall|j: int| 0 <= j < vs.len() implies refers_inside(#[trigger] vs[j], np, nn, nt) by {
            if j < st.0.len() {
                assert(vs[j] == st.0[j]);
            }
        }
    }
}

/// Every face line adds three corners, and no other line adds any.
pub proof fn lemma_corners_by_threes(lines: Seq<Seq<char>>)
    requires
        read_lines(lines) is Ok,
    ensures
        read_lines(lines)->Ok_0.faces.len() == 3 * face_line_count(lines),
    decreases lines.len(),
{
    if lines.len() > 0 {
        lemma_corners_by_threes(lines.drop_last());
        let f = seq!['f'];
        assert(f[0] == 'f' && seq!['v'][0] == 'v');
        assert(f.len() != seq!['v', 'n'].len() && f.len() != seq!['v', 't'].len());
    }
}

/// Every model that loads is a triangle mesh: the number of indices is a
/// multiple of three, each index names an output vertex, and each output
/// vertex refers inside the attribute tables.
pub proof fn lemma_loaded_well_formed(lines: Seq<Seq<char>>)
    requires
        load_model(lines) is Ok,
    ensures
        load_model(lines)->Ok_0.well_formed(),
        load_model(lines)->Ok_0.indices.len() == 3 * face_line_count(lines),
{
    let raw = read_lines(lines)->Ok_0;
    lemma_corners_by_threes(lines);
    lemma_weld_facts(raw.faces, raw.positions.len(), raw.normals.len(), raw.tex_coords.len());
}

/// Welding gives the same output vertex to two face corners exactly when
/// they name the same triplet, wherever in the file they stand.
pub proof fn lemma_same_triplet_same_vertex(lines: Seq<Seq<char>>, k1: int, k2: int)
    requires
        load_model(lines) is Ok,
        0 <= k1 < read_lines(lines)->Ok_0.faces.len(),
        0 <= k2 < read_lines(lines)->Ok_0.faces.len(),
    ensures
        (load_model(lines)->Ok_0.indices[k1] == load_model(lines)->Ok_0.indices[k2]) <==> (read_lines(
            lines,
        )->Ok_0.faces[k1] == read_lines(lines)->Ok_0.faces[k2]),
{
    let raw = read_lines(lines)->Ok_0;
    let m = load_model(lines)->Ok_0;
    lemma_weld_facts(raw.faces, raw.positions.len(), raw.normals.len(), raw.tex_coords.len());
    assert(m.indices[k1] < m.vertices.len() && m.indices[k2] < m.vertices.len());
}

/// Output vertices are numbered in the order in which their triplets first
/// occur among the face corners: the vertices are the distinct triplets in
/// that order, each corner's index is the place of its triplet among them,
/// every vertex is used, and a corner gets index `j` only after every
/// smaller index has been given to an earlier corner.
pub proof fn lemma_first_occurrence_order(lines: Seq<Seq<char>>)
    requires
        load_model(lines) is Ok,
    ensures
        ({
            let faces = read_lines(lines)->Ok_0.faces;
            let m = load_model(lines)->Ok_0;
            &&& m.indices.len() == faces.len()
            &&& m.vertices == distinct_in_order(faces)
            &&& forall|k: int|
                0 <= k < faces.len() ==> #[trigger] m.indices[k] == m.vertices.index_of(faces[k])
            &&& forall|k: int|
                0 <= k < faces.len() ==> m.vertices[#[trigger] m.indices[k] as int] == faces[k]
            &&& forall|j: nat| j < m.vertices.len() ==> #[trigger] m.indices.contains(j)
            &&& forall|k: int, j: nat|
                0 <= k < faces.len() && j < m.indices[k] ==> #[trigger] m.indices.take(k).contains(j)
        }),
{
    let raw = read_lines(lines)->Ok_0;
    let m = load_model(lines)->Ok_0;
    lemma_weld_facts(raw.faces, raw.positions.len(), raw.normals.len(), raw.tex_coords.len());
    lemma_weld_vertices_distinct_in_order(
        raw.faces,
        raw.positions.len(),
        raw.normals.len(),
        raw.tex_coords.len(),
    );
    assert forall|k: int| 0 <= k < raw.faces.len() implies #[trigger] m.indices[k] == m.vertices.index_of(
        raw.faces[k],
    ) by {
        assert(m.vertices[m.indices[k] as int] == raw.faces[k]);
        assert(m.vertices.contains(raw.faces[k]));
        let c = m.vertices.index_of(raw.faces[k]);
        assert(m.vertices[c] == raw.faces[k]);
    }
}

/// The model depends only on the tables and face corners read: two sources
/// that read the same (differing, say, in comments, blank lines or where the
/// attribute lines stand) load the same model, and loading is repeatable.
pub proof fn lemma_same_reading_same_model(a: Seq<Seq<char>>, b: Seq<Seq<char>>)
    requires
        read_lines(a) == read_lines(b),
    ensures
        load_model(a) == load_model(b),
{
}

proof fn lemma_weld_failure_is_reference(faces: Seq<FaceTriplet>, np: nat, nn: nat, nt: nat)
    requires
        weld_faces(faces, np, nn, nt) is Err,
    ensures
        weld_faces(faces, np, nn, nt)->Err_0 is InvalidReference,
    decreases faces.len(),
{
    if weld_faces(faces.drop_last(), np, nn, nt) is Err {
        lemma_weld_failure_is_reference(faces.drop_last(), np, nn, nt);
    }
}

/// A face corner whose position index is 0, or above the number of
/// positions read, makes the load fail with an invalid reference.
pub proof fn lemma_bad_position_rejected(lines: Seq<Seq<char>>, k: int)
    requires
        read_lines(lines) is Ok,
        0 <= k < read_lines(lines)->Ok_0.faces.len(),
        out_of_table(
            read_lines(lines)->Ok_0.faces[k].position,
            read_lines(lines)->Ok_0.positions.len(),
        ),
    ensures
        load_model(lines) is Err,
        load_model(lines)->Err_0 is InvalidReference,
{
    let raw = read_lines(lines)->Ok_0;
    let (np, nn, nt) = (raw.positions.len(), raw.normals.len(), raw.tex_coords.len());
    if weld_faces(raw.faces, np, nn, nt) is Ok {
        lemma_weld_facts(raw.faces, np, nn, nt);
        let st = weld_faces(raw.faces, np, nn, nt)->Ok_0;
        assert(refers_inside(st.0[st.1[k] as int], np, nn, nt));
    } else {
        lemma_weld_failure_is_reference(raw.faces, np, nn, nt);
    }
}

proof fn lemma_weld_failure_names_a_corner(faces: Seq<FaceTriplet>, np: nat, nn: nat, nt: nat)
    requires
        weld_faces(faces, np, nn, nt) is Err,
    ensures
        exists|k: int|
            0 <= k < faces.len() && #[trigger] reference_failure(faces[k], np, nn, nt) == Some(
                weld_faces(faces, np, nn, nt)->Err_0,
            ),
    decreases faces.len(),
{
    let pre = faces.drop_last();
    if weld_faces(pre, np, nn, nt) is Err {
        lemma_weld_failure_names_a_corner(pre, np, nn, nt);
        let k = choose|k: int|
            0 <= k < pre.len() && #[trigger] reference_failure(pre[k], np, nn, nt) == Some(
                weld_faces(pre, np, nn, nt)->Err_0,
            );
        assert(faces[k] == pre[k]);
    } else {
        assert(reference_failure(faces[faces.len() - 1], np, nn, nt) == Some(
            weld_faces(faces, np, nn, nt)->Err_0,
        ));
    }
}

/// For lines that read without error, loading fails exactly when some face
/// corner has a reference (position, texture coordinate or normal) outside
/// its table; the failure is then an invalid reference that names the kind
/// and 1-based index of one such corner's first bad reference.
pub proof fn lemma_invalid_reference_exactly(lines: Seq<Seq<char>>)
    requires
        read_lines(lines) is Ok,
    ensures
        ({
            let raw = read_lines(lines)->Ok_0;
            let (np, nn, nt) = (raw.positions.len(), raw.normals.len(), raw.tex_coords.len());
            &&& (load_model(lines) is Err) <==> exists|k: int|
                0 <= k < raw.faces.len() && #[trigger] reference_failure(raw.faces[k], np, nn, nt)
                    is Some
            &&& load_model(lines) is Err ==> {
                &&& load_model(lines)->Err_0 is InvalidReference
                &&& exists|k: int|
                    0 <= k < raw.faces.len() && #[trigger] reference_failure(
                        raw.faces[k],
                        np,
                        nn,
                        nt,
                    ) == Some(load_model(lines)->Err_0)
            }
        }),
{
    let raw = read_lines(lines)->Ok_0;
    let (np, nn, nt) = (raw.positions.len(), raw.normals.len(), raw.tex_coords.len());
    if weld_faces(raw.faces, np, nn, nt) is Ok {
        lemma_weld_facts(raw.faces, np, nn, nt);
        let st = weld_faces(raw.faces, np, nn, nt)->Ok_0;
        assert forall|k: int| 0 <= k < raw.faces.len() implies #[trigger] reference_failure(
            raw.faces[k],
            np,
            nn,
            nt,
        ) is None by {
            assert(refers_inside(st.0[st.1[k] as int], np, nn, nt));
        }
    } else {
        lemma_weld_failure_is_reference(raw.faces, np, nn, nt);
        lemma_weld_failure_names_a_corner(raw.faces, np, nn, nt);
    }
}

/// A face line whose fields, split on slashes, number other than 3, 6 or 9
/// (four plain corners among them) fails as malformed, with that count.
pub proof fn lemma_malformed_face_rejected(raw: RawModel, text: Seq<char>, line: usize)
    requires
        words(text).len() > 0,
        words(text)[0] == seq!['f'],
        ({
            let n = face_fields(words(text)).len();
            n != 3 && n != 6 && n != 9
        }),
    ensures
        read_line(raw, text, line) == Err::<RawModel, Failure>(
            Failure::MalformedFace { count: face_fields(words(text)).len() as usize, line },
        ),
{
    let f = seq!['f'];
    assert(f[0] == 'f' && seq!['v'][0] == 'v');
    assert(f.len() != seq!['v', 'n'].len() && f.len() != seq!['v', 't'].len());
}

} // verus!
