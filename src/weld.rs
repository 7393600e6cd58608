//! Vertex welding: vertices that share a grid key become one indexed vertex.
use std::collections::BTreeMap;
use vstd::prelude::*;

verus! {

broadcast use vstd::std_specs::btree::group_btree_axioms, vstd::laws_cmp::group_laws_cmp;

/// A vertex position: the IEEE-754 single-precision bit patterns of its three
/// coordinates.
#[derive(Clone, Copy, Debug, PartialEq, Eq, Structural)]
pub struct Position {
    pub x: u32,
    pub y: u32,
    pub z: u32,
}

/// The quantized form of a position: each coordinate divided by the welding
/// step and rounded to the nearest integer. Two positions are one vertex
/// exactly when their keys are equal.
#[derive(Clone, Copy, Debug, PartialEq, Eq, Structural)]
pub struct GridKey {
    pub x: i64,
    pub y: i64,
    pub z: i64,
}

impl GridKey {
    /// The key as a tuple, the form the vertex table is ordered by.
    pub open spec fn cell(self) -> (i64, i64, i64) {
        (self.x, self.y, self.z)
    }

    fn to_cell(&self) -> (c: (i64, i64, i64))
        ensures
            c == self.cell(),
    {
        (self.x, self.y, self.z)
    }
}

/// A raw vertex as a decoder met it, together with its grid key.
#[derive(Clone, Copy, Debug, PartialEq, Eq, Structural)]
pub struct KeyedVertex {
    pub position: Position,
    pub key: GridKey,
}

/// Whether some vertex of `reps` has key `k`.
pub open spec fn has_key(reps: Seq<KeyedVertex>, k: GridKey) -> bool {
    exists|i: int| 0 <= i < reps.len() && reps[i].key == k
}

/// No key occurs twice in `reps`.
pub open spec fn keys_distinct(reps: Seq<KeyedVertex>) -> bool {
    forall|i: int, j: int| 0 <= i < j < reps.len() ==> reps[i].key != reps[j].key
}

/// The place in `reps` of the vertex with key `k`.
pub open spec fn slot_of(reps: Seq<KeyedVertex>, k: GridKey) -> int {
    choose|i: int| 0 <= i < reps.len() && reps[i].key == k
}

/// The index that welding `v` into the representatives `reps` gives: the index
/// of the vertex already there with the same key, else the next free index.
pub open spec fn weld_index(reps: Seq<KeyedVertex>, v: KeyedVertex) -> int {
    if has_key(reps, v.key) {
        slot_of(reps, v.key)
    } else {
        reps.len() as int
    }
}

/// The representatives after welding `v`: unchanged when its key is known
/// (the first vertex seen keeps its position), else `v` appended.
pub open spec fn weld_into(reps: Seq<KeyedVertex>, v: KeyedVertex) -> Seq<KeyedVertex> {
    if has_key(reps, v.key) {
        reps
    } else {
        reps.push(v)
    }
}

/// The representatives after welding the vertices of `vs` in order.
pub open spec fn welded(vs: Seq<KeyedVertex>) -> Seq<KeyedVertex>
    decreases vs.len(),
{
    if vs.len() == 0 {
        seq![]
    } else {
        weld_into(welded(vs.drop_last()), vs.last())
    }
}

/// The index that the `j`-th vertex of the stream `vs` receives.
pub open spec fn corner_index(vs: Seq<KeyedVertex>, j: int) -> int {
    weld_index(welded(vs.take(j)), vs[j])
}

/// The positions of a sequence of representatives.
pub open spec fn positions(reps: Seq<KeyedVertex>) -> Seq<Position> {
    reps.map_values(|v: KeyedVertex| v.position)
}

/// Every index of every face is below `n`.
pub open spec fn faces_below(faces: Seq<[u32; 3]>, n: int) -> bool {
    forall|t: int, c: int| 0 <= t < faces.len() && 0 <= c < 3 ==> (#[trigger] faces[t]@[c]) < n
}

/// The vertices of the complete facets of `facets` (those with exactly three
/// corners), in order; incomplete facets contribute nothing.
pub open spec fn corners(facets: Seq<Seq<KeyedVertex>>) -> Seq<KeyedVertex>
    decreases facets.len(),
{
    if facets.len() == 0 {
        seq![]
    } else if facets.last().len() == 3 {
        corners(facets.drop_last()) + facets.last()
    } else {
        corners(facets.drop_last())
    }
}

/// The facets as sequences.
pub open spec fn facet_views(facets: Seq<Vec<KeyedVertex>>) -> Seq<Seq<KeyedVertex>> {
    facets.map_values(|f: Vec<KeyedVertex>| f@)
}

/// `vertices` and `faces` are the mesh that welding the vertex stream `vs`
/// gives, three corners to a face: the first vertex of each key in the order
/// first seen, and for each corner the index that its welding returned.
pub open spec fn is_welded_mesh(vertices: Seq<Position>, faces: Seq<[u32; 3]>, vs: Seq<KeyedVertex>) -> bool {
    &&& vertices == positions(welded(vs))
    &&& faces.len() * 3 == vs.len()
    &&& forall|t: int, c: int|
        0 <= t < faces.len() && 0 <= c < 3 ==> (#[trigger] faces[t]@[c]) as int == corner_index(vs, 3 * t + c)
}

pub proof fn lemma_welded_push(s: Seq<KeyedVertex>, v: KeyedVertex)
    ensures
        welded(s.push(v)) == weld_into(welded(s), v),
{
    assert(s.push(v).drop_last() =~= s);
}

/// Welding adds at most one representative, keeps the earlier ones, and gives
/// an index inside the result.
pub proof fn lemma_weld_step(reps: Seq<KeyedVertex>, v: KeyedVertex)
    ensures
        weld_into(reps, v).len() <= reps.len() + 1,
        reps.len() <= weld_into(reps, v).len(),
        weld_into(reps, v).take(reps.len() as int) == reps,
        0 <= weld_index(reps, v) < weld_into(reps, v).len(),
        weld_into(reps, v)[weld_index(reps, v)].key == v.key,
{
    if !has_key(reps, v.key) {
        assert(reps.push(v).take(reps.len() as int) =~= reps);
    } else {
        assert(reps.take(reps.len() as int) =~= reps);
    }
}

/// Welding never yields more representatives than vertices.
pub proof fn lemma_welded_len(vs: Seq<KeyedVertex>)
    ensures
        welded(vs).len() <= vs.len(),
    decreases vs.len(),
{
    if vs.len() > 0 {
        lemma_welded_len(vs.drop_last());
        lemma_weld_step(welded(vs.drop_last()), vs.last());
    }
}

/// The vertex stream of the first `t + 1` facets extends that of the first `t`.
proof fn lemma_corners_step(f: Seq<Seq<KeyedVertex>>, t: int)
    requires
        0 <= t < f.len(),
    ensures
        corners(f.take(t + 1)) == if f[t].len() == 3 {
            corners(f.take(t)) + f[t]
        } else {
            corners(f.take(t))
        },
{
    assert(f.take(t + 1).drop_last() =~= f.take(t));
}

/// An indexed triangle mesh: a vertex list and triangles as index triples.
pub struct Mesh {
    pub vertices: Vec<Position>,
    pub faces: Vec<[u32; 3]>,
}

impl Mesh {
    /// The coordinates of all vertices, three to a vertex, in order.
    pub fn flat_vertices(&self) -> (r: Vec<u32>)
        requires
            self.vertices@.len() * 3 <= usize::MAX,
        ensures
            r@.len() == 3 * self.vertices@.len(),
            forall|i: int|
                0 <= i < self.vertices@.len() ==> r@[3 * i] == (#[trigger] self.vertices@[i]).x && r@[3 * i
                    + 1] == self.vertices@[i].y && r@[3 * i + 2] == self.vertices@[i].z,
    {
        let mut r: Vec<u32> = Vec::new();
        let mut i: usize = 0;
        while i < self.vertices.len()
            invariant
                i <= self.vertices@.len(),
                r@.len() == 3 * i,
                forall|k: int|
                    0 <= k < i ==> r@[3 * k] == (#[trigger] self.vertices@[k]).x && r@[3 * k + 1]
                        == self.vertices@[k].y && r@[3 * k + 2] == self.vertices@[k].z,
            decreases self.vertices@.len() - i,
        {
            let p = self.vertices[i];
            r.push(p.x);
            r.push(p.y);
            r.push(p.z);
            i = i + 1;
        }
        r
    }

    /// The indices of all faces, three to a face, in order.
    pub fn flat_faces(&self) -> (r: Vec<u32>)
        requires
            self.faces@.len() * 3 <= usize::MAX,
        ensures
            r@.len() == 3 * self.faces@.len(),
            forall|t: int, c: int| 0 <= t < self.faces@.len() && 0 <= c < 3 ==> r@[3 * t + c] == (#[trigger] self.faces@[t]@[c]),
    {
        let mut r: Vec<u32> = Vec::new();
        let mut t: usize = 0;
        while t < self.faces.len()
            invariant
                t <= self.faces@.len(),
                r@.len() == 3 * t,
                forall|u: int, c: int| 0 <= u < t && 0 <= c < 3 ==> r@[3 * u + c] == (#[trigger] self.faces@[u]@[c]),
            decreases self.faces@.len() - t,
        {
            let f = self.faces[t];
            r.push(f[0]);
            r.push(f[1]);
            r.push(f[2]);
            proof {
                assert forall|u: int, c: int| 0 <= u < t + 1 && 0 <= c < 3 implies r@[3 * u + c] == (#[trigger] self.faces@[u]@[c]) by {
                    if u == t {
                        assert(c == 0 || c == 1 || c == 2);
                    }
                }
            }
            t = t + 1;
        }
        r
    }
}

/// The welding state of one decode pass: the vertex table, the vertex list and
/// the faces met so far. The table is an ordered map keyed by the key's
/// tuple, whose ordering laws are known, so that every lookup is proved.
pub struct Welder {
    table: BTreeMap<(i64, i64, i64), u32>,
    vertices: Vec<Position>,
    faces: Vec<[u32; 3]>,
    reps: Ghost<Seq<KeyedVertex>>,
}

impl Welder {
    /// The first vertex of each key, in the order first seen.
    pub closed spec fn reps(&self) -> Seq<KeyedVertex> {
        self.reps@
    }

    /// The faces added so far.
    pub closed spec fn faces(&self) -> Seq<[u32; 3]> {
        self.faces@
    }

    /// The table maps each representative's key to its index, the vertex list
    /// holds the representatives' positions, and every face index is in range.
    pub closed spec fn wf(&self) -> bool {
        &&& keys_distinct(self.reps@)
        &&& self.reps@.len() <= u32::MAX
        &&& self.vertices@ == positions(self.reps@)
        &&& forall|k: GridKey| #[trigger] self.table@.contains_key(k.cell()) <==> has_key(self.reps@, k)
        &&& forall|c: (i64, i64, i64)| #[trigger] self.table@.contains_key(c) ==> exists|k: GridKey| k.cell() == c
        &&& forall|i: int|
            0 <= i < self.reps@.len() ==> self.table@[#[trigger] self.reps@[i].key.cell()] as int == i
        &&& faces_below(self.faces@, self.reps@.len() as int)
    }

    /// An empty welding state.
    pub fn new() -> (w: Welder)
        ensures
            w.wf(),
            w.reps() == Seq::<KeyedVertex>::empty(),
            w.faces() == Seq::<[u32; 3]>::empty(),
    {
        let w = Welder {
            table: BTreeMap::new(),
            vertices: Vec::new(),
            faces: Vec::new(),
            reps: Ghost(Seq::empty()),
        };
        assert(w.vertices@ =~= positions(w.reps@));
        w
    }

    /// The number of distinct vertices so far.
    pub fn vertex_count(&self) -> (n: usize)
        requires
            self.wf(),
        ensures
            n == self.reps().len(),
    {
        self.vertices.len()
    }

    /// Welds one vertex and returns its index.
    pub fn weld(&mut self, v: KeyedVertex) -> (r: u32)
        requires
            old(self).wf(),
            old(self).reps().len() < u32::MAX,
        ensures
            final(self).wf(),
            final(self).reps() == weld_into(old(self).reps(), v),
            r as int == weld_index(old(self).reps(), v),
            final(self).faces() == old(self).faces(),
    {
        let cell = v.key.to_cell();
        match self.table.get(&cell) {
            Some(i) => {
                let i = *i;
                proof {
                    let j = choose|j: int| 0 <= j < self.reps@.len() && self.reps@[j].key == v.key;
                    assert(self.table@[self.reps@[j].key.cell()] as int == j);
                }
                i
            },
            None => {
                let n = self.vertices.len() as u32;
                self.vertices.push(v.position);
                self.table.insert(cell, n);
                let ghost old_reps = self.reps@;
                self.reps = Ghost(self.reps@.push(v));
                proof {
                    assert(!has_key(old_reps, v.key));
                    assert(self.vertices@ =~= positions(self.reps@));
                    assert forall|k: GridKey| #[trigger] self.table@.contains_key(k.cell()) <==> has_key(self.reps@, k) by {
                        if k == v.key {
                            assert(self.reps@[old_reps.len() as int].key == k);
                        } else {
                            assert(k.cell() != cell);
                        }
                        if has_key(old_reps, k) {
                            let j = choose|j: int| 0 <= j < old_reps.len() && old_reps[j].key == k;
                            assert(self.reps@[j].key == k);
                        }
                        if has_key(self.reps@, k) && k != v.key {
                            let j = choose|j: int| 0 <= j < self.reps@.len() && self.reps@[j].key == k;
                            assert(old_reps[j].key == k);
                        }
                    }
                    assert forall|i: int, j: int| 0 <= i < j < self.reps@.len() implies self.reps@[i].key != self.reps@[j].key by {
                        if j == old_reps.len() {
                            assert(old_reps[i].key == self.reps@[i].key);
                        }
                    }
                    assert forall|c: (i64, i64, i64)| #[trigger] self.table@.contains_key(c) implies exists|k: GridKey| k.cell() == c by {
                        if c == cell {
                            assert(v.key.cell() == c);
                        }
                    }
                    assert forall|i: int| 0 <= i < self.reps@.len() implies self.table@[#[trigger] self.reps@[i].key.cell()] as int == i by {
                        if i < old_reps.len() {
                            assert(old_reps[i].key != v.key);
                        }
                    }
                }
                n
            },
        }
    }

    /// Welds the three corners of a triangle and appends the face they give.
    pub fn add_triangle(&mut self, a: KeyedVertex, b: KeyedVertex, c: KeyedVertex) -> (face: [u32; 3])
        requires
            old(self).wf(),
            old(self).reps().len() + 3 <= u32::MAX,
        ensures
            final(self).wf(),
            final(self).reps() == weld_into(weld_into(weld_into(old(self).reps(), a), b), c),
            face@[0] as int == weld_index(old(self).reps(), a),
            face@[1] as int == weld_index(weld_into(old(self).reps(), a), b),
            face@[2] as int == weld_index(weld_into(weld_into(old(self).reps(), a), b), c),
            final(self).faces() == old(self).faces().push(face),
    {
        let ghost r0 = self.reps@;
        proof { lemma_weld_step(r0, a); }
        let ia = self.weld(a);
        let ghost r1 = self.reps@;
        proof { lemma_weld_step(r1, b); }
        let ib = self.weld(b);
        let ghost r2 = self.reps@;
        proof { lemma_weld_step(r2, c); }
        let ic = self.weld(c);
        let face = [ia, ib, ic];
        let ghost old_faces = self.faces@;
        self.faces.push(face);
        proof {
            assert(face@ =~= seq![ia, ib, ic]);
            assert forall|t: int, k: int| 0 <= t < self.faces@.len() && 0 <= k < 3 implies (#[trigger] self.faces@[t]@[k]) < self.reps@.len() by {
                if t < old_faces.len() {
                    assert(old_faces[t] == self.faces@[t]);
                }
            }
        }
        face
    }

    /// Hands over the vertex list and the faces as a mesh.
    pub fn into_mesh(self) -> (m: Mesh)
        requires
            self.wf(),
        ensures
            m.vertices@ == positions(self.reps()),
            m.faces@ == self.faces(),
            faces_below(m.faces@, m.vertices@.len() as int),
    {
        Mesh { vertices: self.vertices, faces: self.faces }
    }
}

/// Welds the complete facets of `facets` into an indexed mesh, in order.
/// A facet with other than three corners gives no face and no vertex.
pub fn weld_facets(facets: &Vec<Vec<KeyedVertex>>) -> (m: Mesh)
    requires
        facets@.len() * 3 <= u32::MAX,
    ensures
        is_welded_mesh(m.vertices@, m.faces@, corners(facet_views(facets@))),
        faces_below(m.faces@, m.vertices@.len() as int),
{
    let ghost f = facet_views(facets@);
    let mut w = Welder::new();
    let mut t: usize = 0;
    proof {
        assert(f.take(0) =~= Seq::<Seq<KeyedVertex>>::empty());
    }
    while t < facets.len()
        invariant
            t <= facets@.len(),
            facets@.len() * 3 <= u32::MAX,
            f == facet_views(facets@),
            w.wf(),
            w.reps() == welded(corners(f.take(t as int))),
            is_welded_mesh(positions(w.reps()), w.faces(), corners(f.take(t as int))),
            corners(f.take(t as int)).len() <= 3 * t,
        decreases facets@.len() - t,
    {
        let ghost p = corners(f.take(t as int));
        proof {
            lemma_corners_step(f, t as int);
            lemma_welded_len(p);
        }
        let facet = &facets[t];
        if facet.len() == 3 {
            let ghost q = p + f[t as int];
            let ghost old_faces = w.faces();
            proof {
                lemma_weld_step(w.reps(), facet@[0]);
                lemma_weld_step(weld_into(w.reps(), facet@[0]), facet@[1]);
            }
            let face = w.add_triangle(facet[0], facet[1], facet[2]);
            proof {
                let a = facet@[0];
                let b = facet@[1];
                let c = facet@[2];
                assert(q.take(p.len() as int) =~= p);
                assert(q.take(p.len() as int + 1) =~= p.push(a));
                assert(q.take(p.len() as int + 2) =~= p.push(a).push(b));
                assert(q =~= p.push(a).push(b).push(c));
                lemma_welded_push(p, a);
                lemma_welded_push(p.push(a), b);
                lemma_welded_push(p.push(a).push(b), c);
                assert forall|j: int| 0 <= j < p.len() implies corner_index(q, j) == corner_index(p, j) by {
                    assert(q.take(j) =~= p.take(j));
                }
                assert forall|u: int, k: int| 0 <= u < w.faces().len() && 0 <= k < 3 implies (#[trigger] w.faces()[u]@[k]) as int == corner_index(q, 3 * u + k) by {
                    if u < old_faces.len() {
                        assert(w.faces()[u] == old_faces[u]);
                        assert(3 * u + k < p.len());
                    } else {
                        assert(3 * u == p.len());
                        assert(k == 0 || k == 1 || k == 2);
                    }
                }
            }
        }
        t = t + 1;
    }
    proof {
        assert(f.take(facets@.len() as int) =~= f);
    }
    w.into_mesh()
}

} // verus!
