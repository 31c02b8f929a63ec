//! Indexed polygon surfaces: vertices of any kind, and faces that refer
//! to them by position.

use vstd::prelude::*;
use crate::figure_laws::{
    lemma_torus_faces_within, lemma_torus_index, lemma_triangulated_all_triangles,
    lemma_triangulated_within,
};

verus! {

/// A polygon, given as the positions of its corners in the vertex list of
/// the mesh it belongs to, counter-clockwise as seen from outside the solid.
pub struct Face {
    pub indexes: Vec<usize>,
}

impl View for Face {
    type V = Seq<usize>;

    open spec fn view(&self) -> Seq<usize> {
        self.indexes@
    }
}

impl Face {
    /// The polygon with the given corners.
    pub fn new(indexes: Vec<usize>) -> (face: Face)
        ensures
            face@ == indexes@,
    {
        Face { indexes }
    }
}

/// Every corner of `face` is the position of one of `vertex_count` vertices.
pub open spec fn face_within(face: Seq<usize>, vertex_count: nat) -> bool {
    forall|k: int| 0 <= k < face.len() ==> face[k] < vertex_count
}

/// Every face of the list refers to existing vertices only.
pub open spec fn faces_within(faces: Seq<Seq<usize>>, vertex_count: nat) -> bool {
    forall|f: int| 0 <= f < faces.len() ==> face_within(#[trigger] faces[f], vertex_count)
}

/// Every face of the list has exactly three corners.
pub open spec fn all_triangles(faces: Seq<Seq<usize>>) -> bool {
    forall|f: int| 0 <= f < faces.len() ==> (#[trigger] faces[f]).len() == 3
}

/// The triangles that a polygon is cut into from its first corner: one for
/// each pair of neighbouring corners after it. A polygon with fewer than
/// three corners gives none, a triangle gives itself.
pub open spec fn fan(face: Seq<usize>) -> Seq<Seq<usize>> {
    if face.len() < 3 {
        Seq::empty()
    } else {
        Seq::new((face.len() - 2) as nat, |k: int| seq![face[0], face[k + 1], face[k + 2]])
    }
}

/// The fans of all the faces, in the order of the faces.
pub open spec fn triangulated(faces: Seq<Seq<usize>>) -> Seq<Seq<usize>>
    decreases faces.len(),
{
    if faces.len() == 0 {
        Seq::empty()
    } else {
        triangulated(faces.drop_last()) + fan(faces.last())
    }
}

/// Where the vertex on ring `ring`, segment `segment` stands in the vertex
/// list of a torus with `ring_points` segments on each ring.
pub open spec fn torus_index(ring: int, segment: int, ring_points: int) -> int {
    ring * ring_points + segment
}

/// The quad of a torus between ring `ring` and the next ring, and between
/// segment `segment` and the next segment; the last ring is followed by the
/// first, and so is the last segment.
pub open spec fn torus_quad(ring: int, segment: int, rings: int, ring_points: int) -> Seq<usize> {
    let next_ring = (ring + 1) % rings;
    let next_segment = (segment + 1) % ring_points;
    seq![
        torus_index(ring, segment, ring_points) as usize,
        torus_index(next_ring, segment, ring_points) as usize,
        torus_index(next_ring, next_segment, ring_points) as usize,
        torus_index(ring, next_segment, ring_points) as usize,
    ]
}

/// The faces of a torus: one quad for each vertex, in the order of the
/// vertices.
pub open spec fn torus_faces(rings: int, ring_points: int) -> Seq<Seq<usize>> {
    Seq::new(
        (rings * ring_points) as nat,
        |f: int| torus_quad(f / ring_points, f % ring_points, rings, ring_points),
    )
}

/// The corners of the tetrahedron, four of the eight corners of the cube of
/// half-extent 1 around the origin, no two of them on one edge.
pub open spec fn tetrahedron_corner(k: int) -> (i32, i32, i32) {
    let low = (-1) as i32;
    if k == 0 {
        (1, low, low)
    } else if k == 1 {
        (low, 1, low)
    } else if k == 2 {
        (1, 1, 1)
    } else {
        (low, low, 1)
    }
}

/// The four faces of the tetrahedron.
pub open spec fn tetrahedron_faces() -> Seq<Seq<usize>> {
    seq![seq![0usize, 1, 2], seq![0usize, 2, 3], seq![0usize, 3, 1], seq![1usize, 3, 2]]
}

/// The faces of a list as index sequences.
pub open spec fn face_views(faces: Seq<Face>) -> Seq<Seq<usize>> {
    Seq::new(faces.len(), |f: int| faces[f]@)
}

/// A surface: vertices, and faces that name their corners by position in
/// the vertex list.
pub struct Mesh<V> {
    pub vertices: Vec<V>,
    pub faces: Vec<Face>,
}

impl<V> Mesh<V> {
    /// The faces as index sequences.
    pub open spec fn face_seq(&self) -> Seq<Seq<usize>> {
        face_views(self.faces@)
    }

    /// No face refers to a vertex that the mesh does not have.
    pub open spec fn wf(&self) -> bool {
        faces_within(self.face_seq(), self.vertices@.len())
    }

    /// The regular tetrahedron inscribed in the cube of half-extent 1.
    /// `point` is asked once for each corner, with the corner's three
    /// coordinates, and gives the vertex that stands there.
    pub fn new_tetrahedron<F: Fn(i32, i32, i32) -> V>(point: F) -> (mesh: Mesh<V>)
        requires
            forall|k: int| 0 <= k < 4 ==> point.requires(#[trigger] tetrahedron_corner(k)),
        ensures
            mesh.vertices@.len() == 4,
            forall|k: int|
                0 <= k < 4 ==> point.ensures(tetrahedron_corner(k), #[trigger] mesh.vertices@[k]),
            mesh.face_seq() == tetrahedron_faces(),
            mesh.face_seq().len() == 4,
            all_triangles(mesh.face_seq()),
            mesh.wf(),
    {
        proof {
            let low = (-1) as i32;
            assert(tetrahedron_corner(0) == (1i32, low, low));
            assert(tetrahedron_corner(1) == (low, 1i32, low));
            assert(tetrahedron_corner(2) == (1i32, 1i32, 1i32));
            assert(tetrahedron_corner(3) == (low, low, 1i32));
        }
        let mut vertices: Vec<V> = Vec::new();
        vertices.push(point(1, -1, -1));
        vertices.push(point(-1, 1, -1));
        vertices.push(point(1, 1, 1));
        vertices.push(point(-1, -1, 1));
        let mut faces: Vec<Face> = Vec::new();
        faces.push(Face::new(vec![0, 1, 2]));
        faces.push(Face::new(vec![0, 2, 3]));
        faces.push(Face::new(vec![0, 3, 1]));
        faces.push(Face::new(vec![1, 3, 2]));
        proof {
            assert(faces@[0]@ =~= seq![0usize, 1, 2]);
            assert(faces@[1]@ =~= seq![0usize, 2, 3]);
            assert(faces@[2]@ =~= seq![0usize, 3, 1]);
            assert(faces@[3]@ =~= seq![1usize, 3, 2]);
            assert(face_views(faces@) =~= tetrahedron_faces());
        }
        Mesh { vertices, faces }
    }

    /// A torus of `rings_amt` rings with `ring_points_amt` vertices on each.
    /// `vertex` is asked once for each ring and segment, ring by ring, and
    /// gives the vertex that stands there. Each vertex starts one quad,
    /// which leads on to the next ring and the next segment.
    pub fn new_torus<F: Fn(u32, u32) -> V>(rings_amt: u32, ring_points_amt: u32, vertex: F) -> (mesh:
        Mesh<V>)
        requires
            rings_amt * ring_points_amt <= usize::MAX,
            forall|ring: u32, segment: u32|
                ring < rings_amt && segment < ring_points_amt ==> vertex.requires((ring, segment)),
        ensures
            mesh.vertices@.len() == rings_amt * ring_points_amt,
            forall|ring: u32, segment: u32|
                ring < rings_amt && segment < ring_points_amt ==> vertex.ensures(
                    (ring, segment),
                    #[trigger] mesh.vertices@[torus_index(
                        ring as int,
                        segment as int,
                        ring_points_amt as int,
                    )],
                ),
            mesh.face_seq() == torus_faces(rings_amt as int, ring_points_amt as int),
            mesh.face_seq().len() == rings_amt * ring_points_amt,
            forall|f: int|
                0 <= f < rings_amt * ring_points_amt ==> (#[trigger] mesh.face_seq()[f]).len() == 4,
            mesh.wf(),
    {
        let ghost n = rings_amt as int;
        let ghost m = ring_points_amt as int;
        let mut vertices: Vec<V> = Vec::new();
        let mut i: u32 = 0;
        while i < rings_amt
            invariant
                i <= rings_amt,
                n == rings_amt,
                m == ring_points_amt,
                forall|ring: u32, segment: u32|
                    ring < rings_amt && segment < ring_points_amt ==> vertex.requires(
                        (ring, segment),
                    ),
                vertices@.len() == i * m,
                forall|ring: u32, segment: u32|
                    ring < i && segment < ring_points_amt ==> vertex.ensures(
                        (ring, segment),
                        #[trigger] vertices@[torus_index(ring as int, segment as int, m)],
                    ),
            decreases rings_amt - i,
        {
            let mut j: u32 = 0;
            while j < ring_points_amt
                invariant
                    i < rings_amt,
                    j <= ring_points_amt,
                    n == rings_amt,
                    m == ring_points_amt,
                    forall|ring: u32, segment: u32|
                        ring < rings_amt && segment < ring_points_amt ==> vertex.requires(
                            (ring, segment),
                        ),
                    vertices@.len() == i * m + j,
                    forall|ring: u32, segment: u32|
                        (ring < i && segment < ring_points_amt) || (ring == i && segment < j)
                            ==> vertex.ensures(
                            (ring, segment),
                            #[trigger] vertices@[torus_index(ring as int, segment as int, m)],
                        ),
                decreases ring_points_amt - j,
            {
                let ghost before = vertices@;
                let v = vertex(i, j);
                vertices.push(v);
                proof {
                    assert forall|ring: u32, segment: u32|
                        (ring < i && segment < ring_points_amt) || (ring == i && segment < j + 1)
                        implies vertex.ensures(
                        (ring, segment),
                        #[trigger] vertices@[torus_index(ring as int, segment as int, m)],
                    ) by {
                        if ring == i && segment == j {
                        } else {
                            lemma_torus_index(ring as int, segment as int, i + 1, m);
                            assert(ring as int * m + segment < i * m + j) by (nonlinear_arith)
                                requires
                                    (0 <= ring < i && 0 <= segment < m) || (ring == i && 0
                                        <= segment < j),
                                    0 <= j < m,
                            ;
                            assert(vertices@[torus_index(ring as int, segment as int, m)]
                                == before[torus_index(ring as int, segment as int, m)]);
                        }
                    }
                }
                j += 1;
            }
            proof {
                assert(i * m + m == (i + 1) * m) by (nonlinear_arith);
            }
            i += 1;
        }
        let mut faces: Vec<Face> = Vec::new();
        let mut i: u32 = 0;
        while i < rings_amt
            invariant
                i <= rings_amt,
                n == rings_amt,
                m == ring_points_amt,
                n * m <= usize::MAX,
                face_views(faces@) == torus_faces(n, m).take(i * m),
            decreases rings_amt - i,
        {
            let next_i = (i + 1) % rings_amt;
            let mut j: u32 = 0;
            while j < ring_points_amt
                invariant
                    i < rings_amt,
                    j <= ring_points_amt,
                    next_i == (i + 1) % n,
                    n == rings_amt,
                    m == ring_points_amt,
                    n * m <= usize::MAX,
                    face_views(faces@) == torus_faces(n, m).take(i * m + j),
                decreases ring_points_amt - j,
            {
                let next_j = (j + 1) % ring_points_amt;
                proof {
                    lemma_torus_index(i as int, j as int, n, m);
                    lemma_torus_index(next_i as int, j as int, n, m);
                    lemma_torus_index(next_i as int, next_j as int, n, m);
                    lemma_torus_index(i as int, next_j as int, n, m);
                }
                let here = i as usize * ring_points_amt as usize;
                let there = next_i as usize * ring_points_amt as usize;
                let mut corners: Vec<usize> = Vec::new();
                corners.push(here + j as usize);
                corners.push(there + j as usize);
                corners.push(there + next_j as usize);
                corners.push(here + next_j as usize);
                let ghost before = faces@;
                faces.push(Face::new(corners));
                proof {
                    let f = i * m + j;
                    assert(corners@ =~= torus_quad(i as int, j as int, n, m));
                    assert(torus_faces(n, m)[f] == torus_quad(i as int, j as int, n, m));
                    assert(face_views(faces@) =~= face_views(before).push(corners@));
                    assert(torus_faces(n, m).take(f + 1) =~= torus_faces(n, m).take(f).push(
                        torus_faces(n, m)[f],
                    ));
                }
                j += 1;
            }
            proof {
                assert(i * m + m == (i + 1) * m) by (nonlinear_arith);
            }
            i += 1;
        }
        proof {
            assert(torus_faces(n, m).take(n * m) =~= torus_faces(n, m));
            lemma_torus_faces_within(n, m);
        }
        Mesh { vertices, faces }
    }

    /// Replaces every face by its fan, so that only triangles remain.
    /// The vertices stay as they are.
    pub fn triangulate(&mut self)
        ensures
            final(self).vertices == old(self).vertices,
            final(self).face_seq() == triangulated(old(self).face_seq()),
            all_triangles(final(self).face_seq()),
            old(self).wf() ==> final(self).wf(),
    {
        let mut new_faces: Vec<Face> = Vec::new();
        let ghost faces = self.face_seq();
        let mut f: usize = 0;
        while f < self.faces.len()
            invariant
                f <= self.faces.len(),
                faces == self.face_seq(),
                face_views(new_faces@) == triangulated(faces.take(f as int)),
            decreases self.faces.len() - f,
        {
            let ghost done = face_views(new_faces@);
            let face = &self.faces[f];
            let len = face.indexes.len();
            let mut k: usize = 2;
            while k < len
                invariant
                    2 <= k,
                    len == face@.len(),
                    len >= 3 ==> k <= len,
                    len < 3 ==> k == 2,
                    face_views(new_faces@) == done + fan(face@).take(k - 2),
                decreases len - k,
            {
                let mut corners: Vec<usize> = Vec::new();
                corners.push(face.indexes[0]);
                corners.push(face.indexes[k - 1]);
                corners.push(face.indexes[k]);
                let ghost before = new_faces@;
                new_faces.push(Face::new(corners));
                proof {
                    assert(corners@ =~= fan(face@)[k - 2]);
                    assert(face_views(new_faces@) =~= face_views(before).push(corners@));
                    assert(fan(face@).take(k - 1) =~= fan(face@).take(k - 2).push(fan(face@)[k - 2]));
                    assert(done + fan(face@).take(k - 1) =~= (done + fan(face@).take(k - 2)).push(
                        fan(face@)[k - 2],
                    ));
                }
                k += 1;
            }
            proof {
                assert(face@ == faces[f as int]);
                assert(faces.take(f + 1).drop_last() =~= faces.take(f as int));
                assert(faces.take(f + 1).last() == face@);
                assert(fan(face@).take(k - 2) =~= fan(face@));
            }
            f += 1;
        }
        proof {
            assert(faces.take(f as int) =~= faces);
            lemma_triangulated_all_triangles(faces);
            if old(self).wf() {
                lemma_triangulated_within(faces, self.vertices@.len());
            }
        }
        self.faces = new_faces;
    }

    /// Replaces every vertex by what `t` makes of it. The faces stay as
    /// they are: only positions move.
    pub fn transform<F: Fn(&V) -> V>(&mut self, t: F)
        requires
            forall|k: int|
                0 <= k < old(self).vertices@.len() ==> t.requires(
                    (&#[trigger] old(self).vertices@[k],),
                ),
        ensures
            final(self).vertices@.len() == old(self).vertices@.len(),
            forall|k: int|
                0 <= k < old(self).vertices@.len() ==> t.ensures(
                    (&old(self).vertices@[k],),
                    #[trigger] final(self).vertices@[k],
                ),
            final(self).faces == old(self).faces,
    {
        let mut k: usize = 0;
        while k < self.vertices.len()
            invariant
                k <= self.vertices@.len(),
                self.vertices@.len() == old(self).vertices@.len(),
                self.faces == old(self).faces,
                forall|h: int|
                    0 <= h < old(self).vertices@.len() ==> t.requires(
                        (&#[trigger] old(self).vertices@[h],),
                    ),
                forall|h: int|
                    0 <= h < k ==> t.ensures(
                        (&old(self).vertices@[h],),
                        #[trigger] self.vertices@[h],
                    ),
                forall|h: int|
                    k <= h < self.vertices@.len() ==> self.vertices@[h] == old(self).vertices@[h],
            decreases self.vertices@.len() - k,
        {
            let moved = t(&self.vertices[k]);
            self.vertices.set(k, moved);
            k += 1;
        }
    }

    /// The three vertices at the corners of face number `face`, in the
    /// order of its corners. There are none where the mesh has no such
    /// face, where the face is no triangle, or where one of its corners
    /// is no vertex of the mesh.
    pub fn triangle(&self, face: usize) -> (corners: Option<(&V, &V, &V)>)
        ensures
            corners is Some <==> face < self.faces@.len() && self.faces@[face as int]@.len() == 3
                && face_within(self.faces@[face as int]@, self.vertices@.len()),
            corners matches Some((a, b, c)) ==> {
                let at = self.faces@[face as int]@;
                &&& *a == self.vertices@[at[0] as int]
                &&& *b == self.vertices@[at[1] as int]
                &&& *c == self.vertices@[at[2] as int]
            },
    {
        if face >= self.faces.len() {
            return None;
        }
        let indexes = &self.faces[face].indexes;
        if indexes.len() != 3 {
            return None;
        }
        let count = self.vertices.len();
        if indexes[0] >= count || indexes[1] >= count || indexes[2] >= count {
            return None;
        }
        Some((&self.vertices[indexes[0]], &self.vertices[indexes[1]], &self.vertices[indexes[2]]))
    }
}

} // verus!
