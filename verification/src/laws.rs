//! Structural laws of the adjacency model.
//!
//! These proof functions state, once and for all inputs, the properties the
//! store guarantees: symmetry of the neighbour relation, absence of
//! duplicate neighbours, absence of entries for unreferenced vertices, and
//! idempotence of repeated triangle insertion. Each is phrased over the
//! model functions of [`crate::adjacency`], which the store's operations are
//! specified against.

use vstd::prelude::*;

use crate::adjacency::{insert_unique, owner_after, owner_list, triangle_after, triangles_after};

verus! {

/// `insert_unique` makes its element present, keeps every element that was
/// present, and adds nothing else.
pub proof fn lemma_insert_unique_contains(l: Seq<usize>, x: usize, y: usize)
    ensures
        insert_unique(l, x).contains(x),
        l.contains(y) ==> insert_unique(l, x).contains(y),
        insert_unique(l, x).contains(y) ==> y == x || l.contains(y),
{
    if l.contains(x) {
    } else {
        assert(l.push(x)[l.len() as int] == x);
    }
    if l.contains(y) {
        let i = choose|i: int| 0 <= i < l.len() && l[i] == y;
        if !l.contains(x) {
            assert(l.push(x)[i] == y);
        }
    }
    if insert_unique(l, x).contains(y) && !l.contains(x) {
        let i = choose|i: int| 0 <= i < l.push(x).len() && l.push(x)[i] == y;
        if i < l.len() {
            assert(l[i] == y);
        }
    }
}

/// A rotation makes its owner present and records both candidates in the
/// owner's list.
pub proof fn lemma_owner_after_membership(m: Map<usize, Seq<usize>>, a: usize, b: usize, c: usize)
    ensures
        owner_after(m, a, b, c).contains_key(a),
        owner_after(m, a, b, c)[a].contains(b),
        owner_after(m, a, b, c)[a].contains(c),
{
    let l = owner_list(m, a);
    lemma_insert_unique_contains(l, b, b);
    lemma_insert_unique_contains(insert_unique(l, b), c, b);
    lemma_insert_unique_contains(insert_unique(l, b), c, c);
}

/// A rotation never removes a vertex's entry nor a recorded neighbour.
pub proof fn lemma_owner_after_preserves(
    m: Map<usize, Seq<usize>>,
    a: usize,
    b: usize,
    c: usize,
    v: usize,
    x: usize,
)
    ensures
        m.contains_key(v) ==> owner_after(m, a, b, c).contains_key(v),
        m.contains_key(v) && m[v].contains(x) ==> owner_after(m, a, b, c)[v].contains(x),
{
    if m.contains_key(v) && m[v].contains(x) && v == a {
        let l = owner_list(m, a);
        lemma_insert_unique_contains(l, b, x);
        lemma_insert_unique_contains(insert_unique(l, b), c, x);
    }
}

/// A triangle never removes a vertex's entry nor a recorded neighbour.
pub proof fn lemma_triangle_after_preserves(
    m: Map<usize, Seq<usize>>,
    a: usize,
    b: usize,
    c: usize,
    v: usize,
    x: usize,
)
    ensures
        m.contains_key(v) ==> triangle_after(m, a, b, c).contains_key(v),
        m.contains_key(v) && m[v].contains(x) ==> triangle_after(m, a, b, c)[v].contains(x),
{
    let m1 = owner_after(m, a, b, c);
    let m2 = owner_after(m1, b, c, a);
    lemma_owner_after_preserves(m, a, b, c, v, x);
    lemma_owner_after_preserves(m1, b, c, a, v, x);
    lemma_owner_after_preserves(m2, c, a, b, v, x);
}

/// After one triangle, each of its vertices has an entry that records the
/// other two vertices.
pub proof fn lemma_triangle_after_membership(
    m: Map<usize, Seq<usize>>,
    a: usize,
    b: usize,
    c: usize,
)
    ensures
        triangle_after(m, a, b, c).contains_key(a),
        triangle_after(m, a, b, c).contains_key(b),
        triangle_after(m, a, b, c).contains_key(c),
        triangle_after(m, a, b, c)[a].contains(b),
        triangle_after(m, a, b, c)[a].contains(c),
        triangle_after(m, a, b, c)[b].contains(c),
        triangle_after(m, a, b, c)[b].contains(a),
        triangle_after(m, a, b, c)[c].contains(a),
        triangle_after(m, a, b, c)[c].contains(b),
{
    let m1 = owner_after(m, a, b, c);
    let m2 = owner_after(m1, b, c, a);
    lemma_owner_after_membership(m, a, b, c);
    lemma_owner_after_membership(m1, b, c, a);
    lemma_owner_after_membership(m2, c, a, b);
    lemma_owner_after_preserves(m1, b, c, a, a, b);
    lemma_owner_after_preserves(m1, b, c, a, a, c);
    lemma_owner_after_preserves(m2, c, a, b, a, b);
    lemma_owner_after_preserves(m2, c, a, b, a, c);
    lemma_owner_after_preserves(m2, c, a, b, b, c);
    lemma_owner_after_preserves(m2, c, a, b, b, a);
}

/// A whole index list never removes a vertex's entry nor a recorded
/// neighbour.
pub proof fn lemma_triangles_after_preserves(
    m: Map<usize, Seq<usize>>,
    l: Seq<usize>,
    v: usize,
    x: usize,
)
    ensures
        m.contains_key(v) ==> triangles_after(m, l).contains_key(v),
        m.contains_key(v) && m[v].contains(x) ==> triangles_after(m, l)[v].contains(x),
    decreases l.len(),
{
    if l.len() >= 3 {
        let n = l.len() as int;
        lemma_triangles_after_preserves(m, l.take(n - 3), v, x);
        lemma_triangle_after_preserves(
            triangles_after(m, l.take(n - 3)),
            l[n - 3],
            l[n - 2],
            l[n - 1],
            v,
            x,
        );
    }
}

/// Symmetry: for every complete triple of the index list, each of its three
/// vertices has an entry in the final map that records the other two as
/// neighbours.
pub proof fn lemma_symmetry(m: Map<usize, Seq<usize>>, l: Seq<usize>, k: int)
    requires
        l.len() % 3 == 0,
        0 <= k,
        3 * k + 2 < l.len(),
    ensures
        ({
            let r = triangles_after(m, l);
            let a = l[3 * k];
            let b = l[3 * k + 1];
            let c = l[3 * k + 2];
            &&& r.contains_key(a)
            &&& r.contains_key(b)
            &&& r.contains_key(c)
            &&& r[a].contains(b)
            &&& r[a].contains(c)
            &&& r[b].contains(c)
            &&& r[b].contains(a)
            &&& r[c].contains(a)
            &&& r[c].contains(b)
        }),
    decreases l.len(),
{
    let n = l.len() as int;
    let a = l[3 * k];
    let b = l[3 * k + 1];
    let c = l[3 * k + 2];
    let prev = triangles_after(m, l.take(n - 3));
    if 3 * k + 2 == n - 1 {
        lemma_triangle_after_membership(prev, l[n - 3], l[n - 2], l[n - 1]);
    } else {
        assert(3 * k + 2 < n - 3);
        assert(l.take(n - 3)[3 * k] == a);
        assert(l.take(n - 3)[3 * k + 1] == b);
        assert(l.take(n - 3)[3 * k + 2] == c);
        lemma_symmetry(m, l.take(n - 3), k);
        lemma_triangle_after_preserves(prev, l[n - 3], l[n - 2], l[n - 1], a, b);
        lemma_triangle_after_preserves(prev, l[n - 3], l[n - 2], l[n - 1], a, c);
        lemma_triangle_after_preserves(prev, l[n - 3], l[n - 2], l[n - 1], b, c);
        lemma_triangle_after_preserves(prev, l[n - 3], l[n - 2], l[n - 1], b, a);
        lemma_triangle_after_preserves(prev, l[n - 3], l[n - 2], l[n - 1], c, a);
        lemma_triangle_after_preserves(prev, l[n - 3], l[n - 2], l[n - 1], c, b);
    }
}

/// Every neighbour list of the map holds no vertex id twice.
pub open spec fn all_lists_unique(m: Map<usize, Seq<usize>>) -> bool {
    forall|v: usize| #[trigger] m.contains_key(v) ==> m[v].no_duplicates()
}

/// `insert_unique` keeps a list free of duplicates.
pub proof fn lemma_insert_unique_no_dup(l: Seq<usize>, x: usize)
    requires
        l.no_duplicates(),
    ensures
        insert_unique(l, x).no_duplicates(),
{
    if !l.contains(x) {
        assert forall|i: int, j: int|
            0 <= i < l.push(x).len() && 0 <= j < l.push(x).len() && i != j implies l.push(x)[i]
            != l.push(x)[j] by {
            if i < l.len() && j < l.len() {
                assert(l.push(x)[i] == l[i]);
                assert(l.push(x)[j] == l[j]);
            } else if j == l.len() && i < l.len() {
                assert(l[i] != x);
            } else if i == l.len() && j < l.len() {
                assert(l[j] != x);
            }
        }
    }
}

/// A rotation keeps every neighbour list free of duplicates.
pub proof fn lemma_owner_after_unique(m: Map<usize, Seq<usize>>, a: usize, b: usize, c: usize)
    requires
        all_lists_unique(m),
    ensures
        all_lists_unique(owner_after(m, a, b, c)),
{
    let l = owner_list(m, a);
    assert(l.no_duplicates());
    lemma_insert_unique_no_dup(l, b);
    lemma_insert_unique_no_dup(insert_unique(l, b), c);
    assert forall|v: usize| #[trigger] owner_after(m, a, b, c).contains_key(v) implies owner_after(
        m,
        a,
        b,
        c,
    )[v].no_duplicates() by {
        if v != a {
            assert(m.contains_key(v));
        }
    }
}

/// No duplicates: whatever index list is folded into a map whose lists are
/// duplicate-free, every neighbour list of the result is duplicate-free.
pub proof fn lemma_no_duplicate_neighbours(m: Map<usize, Seq<usize>>, l: Seq<usize>)
    requires
        all_lists_unique(m),
    ensures
        all_lists_unique(triangles_after(m, l)),
    decreases l.len(),
{
    if l.len() >= 3 {
        let n = l.len() as int;
        lemma_no_duplicate_neighbours(m, l.take(n - 3));
        let prev = triangles_after(m, l.take(n - 3));
        let m1 = owner_after(prev, l[n - 3], l[n - 2], l[n - 1]);
        let m2 = owner_after(m1, l[n - 2], l[n - 1], l[n - 3]);
        lemma_owner_after_unique(prev, l[n - 3], l[n - 2], l[n - 1]);
        lemma_owner_after_unique(m1, l[n - 2], l[n - 1], l[n - 3]);
        lemma_owner_after_unique(m2, l[n - 1], l[n - 3], l[n - 2]);
    }
}

/// The empty map trivially has duplicate-free lists, so the law holds of
/// every store built from an index list alone.
pub proof fn lemma_no_duplicate_neighbours_from_empty(l: Seq<usize>)
    ensures
        all_lists_unique(triangles_after(Map::<usize, Seq<usize>>::empty(), l)),
{
    lemma_no_duplicate_neighbours(Map::<usize, Seq<usize>>::empty(), l);
}

/// Absence correctness: a vertex id that no index of the list mentions, and
/// that had no entry before, has no entry afterwards either.
pub proof fn lemma_absent_vertex(m: Map<usize, Seq<usize>>, l: Seq<usize>, v: usize)
    requires
        !m.contains_key(v),
        !l.contains(v),
    ensures
        !triangles_after(m, l).contains_key(v),
    decreases l.len(),
{
    if l.len() >= 3 {
        let n = l.len() as int;
        assert forall|i: int| 0 <= i < n - 3 implies #[trigger] l.take(n - 3)[i] != v by {
            assert(l[i] != v);
        }
        assert(!l.take(n - 3).contains(v));
        lemma_absent_vertex(m, l.take(n - 3), v);
        assert(l[n - 3] != v);
        assert(l[n - 2] != v);
        assert(l[n - 1] != v);
    }
}

/// Idempotent structural closure: folding the same triangle in a second
/// time leaves the map exactly as it was after the first time.
pub proof fn lemma_idempotent_insertion(m: Map<usize, Seq<usize>>, a: usize, b: usize, c: usize)
    ensures
        triangle_after(triangle_after(m, a, b, c), a, b, c) == triangle_after(m, a, b, c),
{
    let m1 = triangle_after(m, a, b, c);
    lemma_triangle_after_membership(m, a, b, c);
    lemma_owner_after_same(m1, a, b, c);
    lemma_owner_after_same(m1, b, c, a);
    lemma_owner_after_same(m1, c, a, b);
}

/// A rotation whose owner already records both candidates changes nothing.
proof fn lemma_owner_after_same(m: Map<usize, Seq<usize>>, a: usize, b: usize, c: usize)
    requires
        m.contains_key(a),
        m[a].contains(b),
        m[a].contains(c),
    ensures
        owner_after(m, a, b, c) == m,
{
    lemma_insert_unique_contains(m[a], b, c);
    assert(insert_unique(m[a], b) == m[a]);
    assert(insert_unique(insert_unique(m[a], b), c) == insert_unique(m[a], b));
    assert(owner_after(m, a, b, c) =~= m);
}

/// Folding one triangle twice through the bulk operation equals folding it
/// once: the six-index list of a repeated triangle builds the same map as
/// the three-index list of the triangle alone.
pub proof fn lemma_repeated_triangle(m: Map<usize, Seq<usize>>, a: usize, b: usize, c: usize)
    ensures
        triangles_after(m, seq![a, b, c, a, b, c]) == triangles_after(m, seq![a, b, c]),
{
    let s6 = seq![a, b, c, a, b, c];
    let s3 = seq![a, b, c];
    assert(s6.take(3) =~= s3);
    assert(s3.take(0) =~= Seq::<usize>::empty());
    assert(triangles_after(m, s3.take(0)) == m);
    assert(triangles_after(m, s3) == triangle_after(m, a, b, c));
    assert(triangles_after(m, s6) == triangle_after(triangles_after(m, s6.take(3)), a, b, c));
    lemma_idempotent_insertion(m, a, b, c);
}

} // verus!
