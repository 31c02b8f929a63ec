//! What holds of triangulation and of the two solids, whatever the vertices
//! are.

use vstd::prelude::*;
use crate::figure::{
    all_triangles, face_within, faces_within, fan, tetrahedron_faces, torus_faces, torus_index,
    torus_quad, triangulated,
};

verus! {

/// The fan of a polygon consists of triangles, and their corners are
/// corners of the polygon.
pub proof fn lemma_fan(face: Seq<usize>, vertex_count: nat)
    ensures
        all_triangles(fan(face)),
        face_within(face, vertex_count) ==> faces_within(fan(face), vertex_count),
        face.len() >= 2 ==> fan(face).len() == face.len() - 2,
        face.len() < 2 ==> fan(face).len() == 0,
{
}

/// Triangulation leaves nothing but triangles.
pub proof fn lemma_triangulated_all_triangles(faces: Seq<Seq<usize>>)
    ensures
        all_triangles(triangulated(faces)),
    decreases faces.len(),
{
    if faces.len() > 0 {
        lemma_triangulated_all_triangles(faces.drop_last());
        lemma_fan(faces.last(), 0);
    }
}

/// Triangulation invents no corner: where every face refers to existing
/// vertices, every triangle does.
pub proof fn lemma_triangulated_within(faces: Seq<Seq<usize>>, vertex_count: nat)
    requires
        faces_within(faces, vertex_count),
    ensures
        faces_within(triangulated(faces), vertex_count),
    decreases faces.len(),
{
    if faces.len() > 0 {
        let front = faces.drop_last();
        assert forall|f: int| 0 <= f < front.len() implies face_within(
            #[trigger] front[f],
            vertex_count,
        ) by {
            assert(front[f] == faces[f]);
        }
        lemma_triangulated_within(front, vertex_count);
        lemma_fan(faces.last(), vertex_count);
    }
}

/// Faces of `corners` corners each give `corners - 2` triangles each.
pub proof fn lemma_triangulated_len(faces: Seq<Seq<usize>>, corners: nat)
    requires
        corners >= 2,
        forall|f: int| 0 <= f < faces.len() ==> (#[trigger] faces[f]).len() == corners,
    ensures
        triangulated(faces).len() == faces.len() * (corners - 2),
    decreases faces.len(),
{
    if faces.len() > 0 {
        let front = faces.drop_last();
        assert forall|f: int| 0 <= f < front.len() implies (#[trigger] front[f]).len()
            == corners by {
            assert(front[f] == faces[f]);
        }
        lemma_triangulated_len(front, corners);
        lemma_fan(faces.last(), 0);
        assert(front.len() * (corners - 2) + (corners - 2) == faces.len() * (corners - 2))
            by (nonlinear_arith)
            requires
                front.len() + 1 == faces.len(),
        ;
    }
}

/// Triangulating a list of triangles changes nothing.
pub proof fn lemma_triangulated_triangles(faces: Seq<Seq<usize>>)
    requires
        all_triangles(faces),
    ensures
        triangulated(faces) == faces,
    decreases faces.len(),
{
    if faces.len() > 0 {
        let front = faces.drop_last();
        let last = faces.last();
        assert forall|f: int| 0 <= f < front.len() implies (#[trigger] front[f]).len() == 3 by {
            assert(front[f] == faces[f]);
        }
        lemma_triangulated_triangles(front);
        assert(fan(last)[0] =~= last);
        assert(fan(last) =~= seq![last]);
        assert(front + seq![last] =~= faces);
    } else {
        assert(triangulated(faces) =~= faces);
    }
}

/// Triangulating twice gives what triangulating once gives.
pub proof fn lemma_triangulated_twice(faces: Seq<Seq<usize>>)
    ensures
        triangulated(triangulated(faces)) == triangulated(faces),
{
    lemma_triangulated_all_triangles(faces);
    lemma_triangulated_triangles(triangulated(faces));
}

/// The vertex on ring `ring`, segment `segment` stands at a position of its
/// own below `rings * ring_points`, from which ring and segment can be read
/// back.
pub proof fn lemma_torus_index(ring: int, segment: int, rings: int, ring_points: int)
    requires
        0 <= ring < rings,
        0 <= segment < ring_points,
    ensures
        0 <= torus_index(ring, segment, ring_points) < rings * ring_points,
        torus_index(ring, segment, ring_points) / ring_points == ring,
        torus_index(ring, segment, ring_points) % ring_points == segment,
{
    assert(ring * ring_points + segment < rings * ring_points && 0 <= ring * ring_points)
        by (nonlinear_arith)
        requires
            0 <= ring < rings,
            0 <= segment < ring_points,
    ;
    vstd::arithmetic::div_mod::lemma_fundamental_div_mod_converse(
        torus_index(ring, segment, ring_points),
        ring_points,
        ring,
        segment,
    );
}

/// Every face of a torus has four corners, all of them among its
/// `rings * ring_points` vertices.
pub proof fn lemma_torus_faces_within(rings: int, ring_points: int)
    requires
        0 <= rings,
        0 <= ring_points,
    ensures
        torus_faces(rings, ring_points).len() == rings * ring_points,
        forall|f: int|
            0 <= f < rings * ring_points ==> (#[trigger] torus_faces(rings, ring_points)[f]).len()
                == 4,
        faces_within(torus_faces(rings, ring_points), (rings * ring_points) as nat),
{
    assert(0 <= rings * ring_points) by (nonlinear_arith)
        requires
            0 <= rings,
            0 <= ring_points,
    ;
    let faces = torus_faces(rings, ring_points);
    assert forall|f: int| 0 <= f < faces.len() implies face_within(
        #[trigger] faces[f],
        (rings * ring_points) as nat,
    ) by {
        let ring = f / ring_points;
        let segment = f % ring_points;
        assert(ring_points > 0 && rings > 0) by (nonlinear_arith)
            requires
                0 <= f < rings * ring_points,
                0 <= rings,
                0 <= ring_points,
        ;
        vstd::arithmetic::div_mod::lemma_fundamental_div_mod(f, ring_points);
        assert(0 <= ring < rings) by (nonlinear_arith)
            requires
                f == ring_points * ring + segment,
                0 <= segment < ring_points,
                0 <= f < rings * ring_points,
        ;
        let next_ring = (ring + 1) % rings;
        let next_segment = (segment + 1) % ring_points;
        lemma_torus_index(ring, segment, rings, ring_points);
        lemma_torus_index(next_ring, segment, rings, ring_points);
        lemma_torus_index(next_ring, next_segment, rings, ring_points);
        lemma_torus_index(ring, next_segment, rings, ring_points);
    }
}

/// The quad that starts at the vertex on ring `ring`, segment `segment`
/// stands in the face list where that vertex stands in the vertex list.
pub proof fn lemma_torus_face_at(ring: int, segment: int, rings: int, ring_points: int)
    requires
        0 <= ring < rings,
        0 <= segment < ring_points,
    ensures
        torus_faces(rings, ring_points)[torus_index(ring, segment, ring_points)] == torus_quad(
            ring,
            segment,
            rings,
            ring_points,
        ),
{
    lemma_torus_index(ring, segment, rings, ring_points);
}

/// The tetrahedron has four faces, all of them triangles between its four
/// vertices, so that triangulation leaves it as it is.
pub proof fn lemma_tetrahedron()
    ensures
        tetrahedron_faces().len() == 4,
        all_triangles(tetrahedron_faces()),
        faces_within(tetrahedron_faces(), 4),
        triangulated(tetrahedron_faces()) == tetrahedron_faces(),
{
    lemma_triangulated_triangles(tetrahedron_faces());
}

/// A torus of `rings` rings with `ring_points` vertices on each has
/// `rings * ring_points` quads, and triangulation cuts them into twice as
/// many triangles between the same vertices.
pub proof fn lemma_torus_triangulated(rings: nat, ring_points: nat)
    ensures
        torus_faces(rings as int, ring_points as int).len() == rings * ring_points,
        forall|f: int|
            0 <= f < rings * ring_points ==> (#[trigger] torus_faces(
                rings as int,
                ring_points as int,
            )[f]).len() == 4,
        triangulated(torus_faces(rings as int, ring_points as int)).len() == 2 * rings
            * ring_points,
        all_triangles(triangulated(torus_faces(rings as int, ring_points as int))),
        faces_within(
            triangulated(torus_faces(rings as int, ring_points as int)),
            rings * ring_points,
        ),
{
    let quads = torus_faces(rings as int, ring_points as int);
    lemma_torus_faces_within(rings as int, ring_points as int);
    lemma_triangulated_len(quads, 4);
    lemma_triangulated_all_triangles(quads);
    lemma_triangulated_within(quads, rings * ring_points);
    assert(quads.len() * (4 - 2) == 2 * rings * ring_points) by (nonlinear_arith)
        requires
            quads.len() == rings * ring_points,
    ;
}

} // verus!
