//! Properties of welding that hold for every input.
use crate::weld::{
    corner_index, corners, has_key, keys_distinct, lemma_weld_step, slot_of,
    weld_index, weld_into, welded, KeyedVertex,
};
use vstd::prelude::*;

verus! {

/// Welding keeps the keys of the representatives distinct.
pub proof fn lemma_weld_into_distinct(reps: Seq<KeyedVertex>, v: KeyedVertex)
    requires
        keys_distinct(reps),
    ensures
        keys_distinct(weld_into(reps, v)),
{
}

/// The representatives of any stream have distinct keys.
pub proof fn lemma_welded_distinct(vs: Seq<KeyedVertex>)
    ensures
        keys_distinct(welded(vs)),
    decreases vs.len(),
{
    if vs.len() > 0 {
        lemma_welded_distinct(vs.drop_last());
        lemma_weld_into_distinct(welded(vs.drop_last()), vs.last());
    }
}

/// With distinct keys, the vertex of key `k` sits at one place only.
proof fn lemma_slot_unique(reps: Seq<KeyedVertex>, j: int)
    requires
        keys_distinct(reps),
        0 <= j < reps.len(),
    ensures
        slot_of(reps, reps[j].key) == j,
{
    assert(has_key(reps, reps[j].key));
}

/// Every key of the stream has a representative.
pub proof fn lemma_welded_covers(vs: Seq<KeyedVertex>, k: int)
    requires
        0 <= k < vs.len(),
    ensures
        has_key(welded(vs), vs[k].key),
    decreases vs.len(),
{
    let p = vs.drop_last();
    lemma_weld_step(welded(p), vs.last());
    let r = welded(vs);
    if k < vs.len() - 1 {
        lemma_welded_covers(p, k);
        let i = choose|i: int| 0 <= i < welded(p).len() && welded(p)[i].key == vs[k].key;
        assert(r.take(welded(p).len() as int)[i] == r[i]);
    } else {
        let i = weld_index(welded(p), vs.last());
        assert(r[i].key == vs[k].key);
    }
}

/// Welding the same vertex a second time returns the index it returned the
/// first time and changes nothing.
pub proof fn law_weld_twice(reps: Seq<KeyedVertex>, v: KeyedVertex)
    ensures
        weld_index(weld_into(reps, v), v) == weld_index(reps, v),
        weld_into(weld_into(reps, v), v) == weld_into(reps, v),
{
    if !has_key(reps, v.key) {
        let r = reps.push(v);
        assert(r[reps.len() as int].key == v.key);
        let j = slot_of(r, v.key);
        if j < reps.len() {
            assert(reps[j].key == v.key);
        }
    }
}

/// After `u` has been welded, welding `v` returns the index of `u` exactly
/// when the two have the same grid key.
pub proof fn law_same_index_iff_same_key(reps: Seq<KeyedVertex>, u: KeyedVertex, v: KeyedVertex)
    requires
        keys_distinct(reps),
    ensures
        weld_index(weld_into(reps, u), v) == weld_index(reps, u) <==> u.key == v.key,
{
    let r = weld_into(reps, u);
    let iu = weld_index(reps, u);
    lemma_weld_step(reps, u);
    lemma_weld_into_distinct(reps, u);
    if u.key == v.key {
        lemma_slot_unique(r, iu);
    } else if has_key(r, v.key) {
        let j = slot_of(r, v.key);
        assert(r[j].key == v.key);
    }
}

/// A stream whose keys are all different welds to itself: one vertex per
/// corner.
pub proof fn law_distinct_keys_keep_all(vs: Seq<KeyedVertex>)
    requires
        keys_distinct(vs),
    ensures
        welded(vs) == vs,
    decreases vs.len(),
{
    if vs.len() > 0 {
        let p = vs.drop_last();
        law_distinct_keys_keep_all(p);
        if has_key(p, vs.last().key) {
            let i = choose|i: int| 0 <= i < p.len() && p[i].key == vs.last().key;
            assert(vs[i].key == vs[vs.len() - 1].key);
        }
        assert(p.push(vs.last()) =~= vs);
    }
}

/// Where two vertices of a stream share a key, welding yields fewer vertices
/// than the stream holds.
pub proof fn law_shared_key_fewer(vs: Seq<KeyedVertex>, i: int, j: int)
    requires
        0 <= i < j < vs.len(),
        vs[i].key == vs[j].key,
    ensures
        welded(vs).len() < vs.len(),
    decreases vs.len(),
{
    let p = vs.drop_last();
    lemma_weld_step(welded(p), vs.last());
    if j < vs.len() - 1 {
        law_shared_key_fewer(p, i, j);
    } else {
        lemma_welded_covers(p, i);
        crate::weld::lemma_welded_len(p);
    }
}

/// A sequence of complete facets has three corners for each facet.
pub proof fn lemma_corners_complete(f: Seq<Seq<KeyedVertex>>)
    requires
        forall|t: int| 0 <= t < f.len() ==> (#[trigger] f[t]).len() == 3,
    ensures
        corners(f).len() == 3 * f.len(),
    decreases f.len(),
{
    if f.len() > 0 {
        lemma_corners_complete(f.drop_last());
    }
}

/// Triangles whose corners all have different keys give three vertices each.
pub proof fn law_unshared_vertex_count(f: Seq<Seq<KeyedVertex>>)
    requires
        forall|t: int| 0 <= t < f.len() ==> (#[trigger] f[t]).len() == 3,
        keys_distinct(corners(f)),
    ensures
        welded(corners(f)).len() == 3 * f.len(),
{
    lemma_corners_complete(f);
    law_distinct_keys_keep_all(corners(f));
}

/// Triangles of which two corners share a key give fewer than three vertices
/// each.
pub proof fn law_shared_vertex_count(f: Seq<Seq<KeyedVertex>>, i: int, j: int)
    requires
        forall|t: int| 0 <= t < f.len() ==> (#[trigger] f[t]).len() == 3,
        0 <= i < j < corners(f).len(),
        corners(f)[i].key == corners(f)[j].key,
    ensures
        welded(corners(f)).len() < 3 * f.len(),
{
    lemma_corners_complete(f);
    law_shared_key_fewer(corners(f), i, j);
}

/// Two streams with the same keys, corner by corner, weld to representatives
/// with the same keys in the same order.
pub proof fn lemma_same_keys_same_reps(a: Seq<KeyedVertex>, b: Seq<KeyedVertex>)
    requires
        a.len() == b.len(),
        forall|k: int| 0 <= k < a.len() ==> (#[trigger] a[k]).key == b[k].key,
    ensures
        welded(a).len() == welded(b).len(),
        forall|i: int| 0 <= i < welded(a).len() ==> (#[trigger] welded(a)[i]).key == welded(b)[i].key,
    decreases a.len(),
{
    if a.len() > 0 {
        let pa = a.drop_last();
        let pb = b.drop_last();
        lemma_same_keys_same_reps(pa, pb);
        let ra = welded(pa);
        let rb = welded(pb);
        if has_key(ra, a.last().key) {
            let i = choose|i: int| 0 <= i < ra.len() && ra[i].key == a.last().key;
            assert(rb[i].key == b.last().key);
        }
        if has_key(rb, b.last().key) {
            let i = choose|i: int| 0 <= i < rb.len() && rb[i].key == b.last().key;
            assert(ra[i].key == a.last().key);
        }
    }
}

/// Two vertex streams with the same keys, corner by corner (a binary file and a
/// text file describing the same triangles), give the same faces and the same
/// number of vertices, the vertices in the same key order.
pub proof fn law_same_keys_same_mesh(a: Seq<KeyedVertex>, b: Seq<KeyedVertex>)
    requires
        a.len() == b.len(),
        forall|k: int| 0 <= k < a.len() ==> (#[trigger] a[k]).key == b[k].key,
    ensures
        welded(a).len() == welded(b).len(),
        forall|i: int| 0 <= i < welded(a).len() ==> (#[trigger] welded(a)[i]).key == welded(b)[i].key,
        forall|j: int| 0 <= j < a.len() ==> #[trigger] corner_index(a, j) == corner_index(b, j),
{
    lemma_same_keys_same_reps(a, b);
    assert forall|j: int| 0 <= j < a.len() implies #[trigger] corner_index(a, j) == corner_index(b, j) by {
        let ta = a.take(j);
        let tb = b.take(j);
        lemma_same_keys_same_reps(ta, tb);
        let ra = welded(ta);
        let rb = welded(tb);
        lemma_welded_distinct(ta);
        lemma_welded_distinct(tb);
        if has_key(ra, a[j].key) {
            let i = slot_of(ra, a[j].key);
            assert(rb[i].key == b[j].key);
            lemma_slot_unique(rb, i);
        } else if has_key(rb, b[j].key) {
            let i = slot_of(rb, b[j].key);
            assert(ra[i].key == a[j].key);
        }
    }
}

} // verus!
