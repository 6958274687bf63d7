use mesh_adjacency::adjacency::AdjacentStore;

/// The 20 faces of a regular icosahedron over 12 vertices, flattened to 60
/// vertex indices, three per triangle.
fn icosahedron_indices() -> Vec<usize> {
    const TRIANGLES: [[usize; 3]; 20] = [
        [0, 1, 2],
        [0, 1, 5],
        [0, 2, 3],
        [0, 3, 4],
        [0, 4, 5],
        [1, 2, 7],
        [1, 6, 7],
        [1, 5, 6],
        [2, 3, 8],
        [2, 7, 8],
        [3, 4, 9],
        [3, 8, 9],
        [4, 5, 10],
        [4, 9, 10],
        [5, 6, 10],
        [6, 7, 11],
        [6, 10, 11],
        [7, 8, 11],
        [8, 9, 11],
        [9, 10, 11],
    ];

    let mut indices: Vec<usize> = Vec::new();
    for i in 0..20 {
        indices.extend_from_slice(&TRIANGLES[i]);
    }
    indices
}

#[test]
fn creation() {
    let indices = icosahedron_indices();
    let _ = AdjacentStore::from_indices(&indices);
}

#[test]
fn correct_indices() {
    let indices = icosahedron_indices();

    let store = AdjacentStore::from_indices(&indices);

    const REFERENCE_DATA: [[usize; 5]; 12] = [
        [1, 2, 3, 4, 5],
        [0, 2, 7, 6, 5],
        [0, 1, 3, 8, 7],
        [0, 4, 2, 9, 8],
        [0, 5, 10, 9, 3],
        [0, 1, 6, 10, 4],
        [5, 1, 7, 11, 10],
        [1, 2, 8, 11, 6],
        [2, 3, 9, 11, 7],
        [3, 4, 10, 11, 8],
        [4, 5, 6, 11, 9],
        [6, 7, 8, 9, 10],
    ];

    for i in 0..12 {
        let expected = REFERENCE_DATA[i];
        let actual = store.neighbours(i).unwrap();
        assert_eq!(actual.len(), 5);
        let mut values: [usize; 5] = [0; 5];
        for (x, i) in actual.iter().enumerate() {
            assert!(expected.contains(i));
            values[x] += 1;
        }
        assert_eq!(values, [1; 5]);
    }
}

fn sorted(s: &[usize]) -> Vec<usize> {
    let mut v: Vec<usize> = s.to_vec();
    v.sort_unstable();
    v
}

#[test]
fn single_triangle() {
    let store = AdjacentStore::from_indices(&[0, 1, 2]);
    assert_eq!(sorted(store.neighbours(0).unwrap()), vec![1, 2]);
    assert_eq!(sorted(store.neighbours(1).unwrap()), vec![0, 2]);
    assert_eq!(sorted(store.neighbours(2).unwrap()), vec![0, 1]);
}

#[test]
fn symmetry_per_triangle() {
    let indices: [usize; 9] = [0, 1, 2, 2, 3, 4, 7, 8, 9];
    let store = AdjacentStore::from_indices(&indices);
    for t in indices.chunks(3) {
        for &v in t {
            let neighbours = store.neighbours(v).unwrap();
            for &w in t {
                if w != v {
                    assert!(neighbours.contains(&w));
                }
            }
        }
    }
}

#[test]
fn shared_edge_no_duplicates() {
    // Two triangles sharing the edge (1, 2): the shared neighbours are
    // recorded once for each vertex.
    let store = AdjacentStore::from_indices(&[0, 1, 2, 1, 2, 3]);
    for v in 0..4 {
        let neighbours = store.neighbours(v).unwrap();
        let mut seen: Vec<usize> = Vec::new();
        for &w in neighbours {
            assert!(!seen.contains(&w));
            seen.push(w);
        }
    }
    assert_eq!(sorted(store.neighbours(1).unwrap()), vec![0, 2, 3]);
    assert_eq!(sorted(store.neighbours(2).unwrap()), vec![0, 1, 3]);
}

#[test]
fn repeated_triangle_is_stable() {
    let once = AdjacentStore::from_indices(&[4, 5, 6]);
    let twice = AdjacentStore::from_indices(&[4, 5, 6, 4, 5, 6]);
    for v in 4..7 {
        assert_eq!(once.neighbours(v).unwrap(), twice.neighbours(v).unwrap());
        assert_eq!(once.neighbours(v).unwrap().len(), 2);
    }
}

#[test]
fn bulk_equivalence() {
    let indices = icosahedron_indices();
    let built = AdjacentStore::from_indices(&indices);
    let mut added = AdjacentStore::new();
    added.add_triangle_indices(&indices);
    for v in 0..12 {
        assert_eq!(
            sorted(built.neighbours(v).unwrap()),
            sorted(added.neighbours(v).unwrap())
        );
    }
}

#[test]
fn absent_vertex_is_none() {
    let store = AdjacentStore::from_indices(&[0, 1, 2]);
    assert!(store.neighbours(3).is_none());
    assert!(store.neighbours(usize::MAX).is_none());
}

#[test]
fn empty_store_has_no_entries() {
    let store = AdjacentStore::new();
    assert!(store.neighbours(0).is_none());
    let built = AdjacentStore::from_indices(&[]);
    assert!(built.neighbours(0).is_none());
}

#[test]
fn incremental_insertion_extends_entries() {
    let mut store = AdjacentStore::new();
    store.add_triangle_indices(&[0, 1, 2]);
    assert_eq!(sorted(store.neighbours(0).unwrap()), vec![1, 2]);
    store.add_triangle_indices(&[0, 2, 3]);
    assert_eq!(sorted(store.neighbours(0).unwrap()), vec![1, 2, 3]);
    assert_eq!(sorted(store.neighbours(2).unwrap()), vec![0, 1, 3]);
    assert_eq!(sorted(store.neighbours(3).unwrap()), vec![0, 2]);
}

#[test]
fn first_insertion_order_is_kept() {
    // The cyclic-rotation rule records, for each vertex of (a, b, c), the
    // other two in rotation order; later triangles append after them.
    let store = AdjacentStore::from_indices(&[0, 1, 2, 0, 2, 3]);
    assert_eq!(store.neighbours(0).unwrap().to_vec(), vec![1, 2, 3]);
    assert_eq!(store.neighbours(1).unwrap().to_vec(), vec![2, 0]);
    assert_eq!(store.neighbours(2).unwrap().to_vec(), vec![0, 1, 3]);
    assert_eq!(store.neighbours(3).unwrap().to_vec(), vec![0, 2]);
}
