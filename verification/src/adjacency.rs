//! The adjacency store and its mathematical model.
//!
//! The model of a store is a `Map<usize, Seq<usize>>` from vertex id to the
//! ordered sequence of its neighbours. The spec functions below describe how
//! one triangle, and then a whole flattened index list, fold into that map;
//! every operation of [`AdjacentStore`] is specified against them.

use std::collections::HashMap;

use vstd::prelude::*;

use crate::small_list::{list_as_slice, list_elems, list_new, list_push, NeighbourList};

verus! {

/// Appends `x` to `l` unless it is already present.
pub open spec fn insert_unique(l: Seq<usize>, x: usize) -> Seq<usize> {
    if l.contains(x) {
        l
    } else {
        l.push(x)
    }
}

/// The neighbour list recorded for `a`, or the empty sequence if none is.
pub open spec fn owner_list(m: Map<usize, Seq<usize>>, a: usize) -> Seq<usize> {
    if m.contains_key(a) {
        m[a]
    } else {
        Seq::empty()
    }
}

/// One rotation of a triangle: vertex `a` owns the rotation and records `b`
/// and `c` as neighbours, each only if not already present.
pub open spec fn owner_after(
    m: Map<usize, Seq<usize>>,
    a: usize,
    b: usize,
    c: usize,
) -> Map<usize, Seq<usize>> {
    m.insert(a, insert_unique(insert_unique(owner_list(m, a), b), c))
}

/// A whole triangle: each of the three cyclic rotations of `(a, b, c)` is
/// folded in turn, so every vertex of the triangle records the other two.
pub open spec fn triangle_after(
    m: Map<usize, Seq<usize>>,
    a: usize,
    b: usize,
    c: usize,
) -> Map<usize, Seq<usize>> {
    owner_after(owner_after(owner_after(m, a, b, c), b, c, a), c, a, b)
}

/// A flattened index list, taken three at a time from the front: the map
/// after every complete triple of `l` has been folded into `m`, in order.
pub open spec fn triangles_after(m: Map<usize, Seq<usize>>, l: Seq<usize>) -> Map<
    usize,
    Seq<usize>,
>
    decreases l.len(),
{
    if l.len() < 3 {
        m
    } else {
        let n = l.len() as int;
        triangle_after(triangles_after(m, l.take(n - 3)), l[n - 3], l[n - 2], l[n - 1])
    }
}

/// Stores the neighbours of a subdivided shape.
///
/// Abstractly a store is the map [`triangles_after`] builds from the
/// triangles added so far, reachable through `@`, together with a
/// `subdivisions` counter carried as caller metadata.
pub struct AdjacentStore {
    pub(crate) subdivisions: usize,
    pub(crate) map: HashMap<usize, NeighbourList>,
}

impl View for AdjacentStore {
    type V = Map<usize, Seq<usize>>;

    closed spec fn view(&self) -> Map<usize, Seq<usize>> {
        self.map@.map_values(|l: NeighbourList| list_elems(l))
    }
}

impl AdjacentStore {
    /// The subdivision level of the mesh the store was built from; metadata
    /// for the caller, not used in adjacency computation.
    pub closed spec fn spec_subdivisions(&self) -> usize {
        self.subdivisions
    }

    /// Creates an empty neighbour storage.
    pub fn new() -> (r: Self)
        ensures
            r@ == Map::<usize, Seq<usize>>::empty(),
            r.spec_subdivisions() == 0,
    {
        let r = AdjacentStore { subdivisions: 0, map: HashMap::new() };
        proof {
            assert(r@ =~= Map::<usize, Seq<usize>>::empty());
        }
        r
    }

    /// Optionally returns the neighbours for a vertex.
    ///
    /// In the case of an IcoSphere, this is of length `5` or `6`.
    ///
    /// A vertex that no added triangle mentions has no entry at all, so the
    /// result distinguishes absence from an empty list.
    pub fn neighbours(&self, id: usize) -> (r: Option<&[usize]>)
        ensures
            match r {
                Some(s) => self@.contains_key(id) && s@ == self@[id],
                None => !self@.contains_key(id),
            },
    {
        match self.map.get(&id) {
            Some(l) => Some(list_as_slice(l)),
            None => None,
        }
    }

    /// Creates the map given the indices of a shape.
    pub fn from_indices(indices: &[usize]) -> (r: Self)
        requires
            indices@.len() % 3 == 0,
        ensures
            r@ == triangles_after(Map::<usize, Seq<usize>>::empty(), indices@),
            r.spec_subdivisions() == 0,
    {
        let mut this = Self::new();
        this.add_triangle_indices(indices);
        this
    }

    /// Adds the indices to the map.
    ///
    /// Every three consecutive indices are one triangle; the list's length
    /// must therefore be a multiple of three.
    pub fn add_triangle_indices(&mut self, triangles: &[usize])
        requires
            triangles@.len() % 3 == 0,
        ensures
            final(self)@ == triangles_after(old(self)@, triangles@),
            final(self).spec_subdivisions() == old(self).spec_subdivisions(),
    {
        let n = triangles.len();
        let mut i: usize = 0;
        while i < n
            invariant
                i <= n,
                i % 3 == 0,
                n % 3 == 0,
                n == triangles@.len(),
                self@ == triangles_after(old(self)@, triangles@.take(i as int)),
                self.spec_subdivisions() == old(self).spec_subdivisions(),
            decreases n - i,
        {
            let a = triangles[i];
            let b = triangles[i + 1];
            let c = triangles[i + 2];
            self.add_triangle(a, b, c);
            proof {
                let t = triangles@;
                let ii = i as int;
                assert(t.take(ii + 3).take(ii) =~= t.take(ii));
                assert(t.take(ii + 3)[ii] == a);
                assert(t.take(ii + 3)[ii + 1] == b);
                assert(t.take(ii + 3)[ii + 2] == c);
            }
            i = i + 3;
        }
        proof {
            assert(triangles@.take(n as int) =~= triangles@);
        }
    }

    /// Adds a single subdivided triangle to the storage.
    fn add_triangle(&mut self, a: usize, b: usize, c: usize)
        ensures
            final(self)@ == triangle_after(old(self)@, a, b, c),
            final(self).spec_subdivisions() == old(self).spec_subdivisions(),
    {
        self.add_owner(a, b, c);
        self.add_owner(b, c, a);
        self.add_owner(c, a, b);
    }

    /// One rotation of [`Self::add_triangle`]: records `b` and `c` in the
    /// neighbour list of `a`, creating the list if `a` has none yet.
    fn add_owner(&mut self, a: usize, b: usize, c: usize)
        ensures
            final(self)@ == owner_after(old(self)@, a, b, c),
            final(self).spec_subdivisions() == old(self).spec_subdivisions(),
    {
        let list = match self.map.remove(&a) {
            Some(l) => l,
            None => list_new(),
        };
        proof {
            assert(list_elems(list) == owner_list(old(self)@, a));
        }
        let list = list_add(list, b);
        let list = list_add(list, c);
        self.map.insert(a, list);
        proof {
            assert(self@ =~= owner_after(old(self)@, a, b, c));
        }
    }
}

impl Default for AdjacentStore {
    /// Equivalent to [`AdjacentStore::new`].
    fn default() -> (r: Self)
        ensures
            r@ == Map::<usize, Seq<usize>>::empty(),
            r.spec_subdivisions() == 0,
    {
        AdjacentStore::new()
    }
}

/// Appends `x` to the list unless it is already present.
fn list_add(l: NeighbourList, x: usize) -> (r: NeighbourList)
    ensures
        list_elems(r) == insert_unique(list_elems(l), x),
{
    let mut out = l;
    let present = slice_has(list_as_slice(&out), x);
    if !present {
        list_push(&mut out, x);
    }
    out
}

/// Whether the slice holds `x`.
fn slice_has(s: &[usize], x: usize) -> (r: bool)
    ensures
        r == s@.contains(x),
{
    let n = s.len();
    let mut i: usize = 0;
    while i < n
        invariant
            i <= n,
            n == s@.len(),
            forall|j: int| 0 <= j < i ==> s@[j] != x,
        decreases n - i,
    {
        if s[i] == x {
            proof {
                assert(s@[i as int] == x);
            }
            return true;
        }
        i = i + 1;
    }
    proof {
        assert(forall|j: int| 0 <= j < s@.len() ==> s@[j] != x);
    }
    false
}

} // verus!
