//! The edge sort: the sorted sequence's top keys are non-decreasing and
//! the entries are a reordering of the input.

use piston_truetype::edges::{sort_edges, sort_edges_ins_sort, sort_edges_quicksort, Edge};

fn edges_from(keys: &[u64]) -> Vec<Edge> {
    keys.iter().enumerate().map(|(i, &y0)| Edge { y0, index: i }).collect()
}

fn assert_sorted_permutation(sorted: &[Edge], original: &[Edge]) {
    assert_eq!(sorted.len(), original.len());
    for w in sorted.windows(2) {
        assert!(w[0].y0 <= w[1].y0);
    }
    let mut a: Vec<(u64, usize)> = sorted.iter().map(|e| (e.y0, e.index)).collect();
    let mut b: Vec<(u64, usize)> = original.iter().map(|e| (e.y0, e.index)).collect();
    a.sort();
    b.sort();
    assert_eq!(a, b);
}

#[test]
fn sort_small_edge_set() {
    let original = edges_from(&[5, 1, 3, 3, 2]);
    let mut p = original.clone();
    sort_edges(&mut p);
    assert_sorted_permutation(&p, &original);
    assert_eq!(p[0].y0, 1);
    assert_eq!(p[4].y0, 5);
}

#[test]
fn sort_crosses_quicksort_threshold() {
    // More than twelve entries, so the quicksort pass really partitions.
    let keys: Vec<u64> = (0..40u64).map(|i| (i * 7919) % 101).collect();
    let original = edges_from(&keys);
    let mut p = original.clone();
    sort_edges(&mut p);
    assert_sorted_permutation(&p, &original);
}

#[test]
fn insertion_sort_alone_sorts() {
    let original = edges_from(&[9, 8, 7, 0, 7]);
    let mut p = original.clone();
    sort_edges_ins_sort(&mut p);
    assert_sorted_permutation(&p, &original);
}

#[test]
fn quicksort_keeps_entries() {
    let original = edges_from(&[20, 10, 30, 25, 5, 15, 35, 1, 2, 3, 40, 50, 45, 22]);
    let mut p = original.clone();
    let n = p.len();
    sort_edges_quicksort(&mut p, 0, n);
    let mut a: Vec<u64> = p.iter().map(|e| e.y0).collect();
    let mut b: Vec<u64> = original.iter().map(|e| e.y0).collect();
    a.sort();
    b.sort();
    assert_eq!(a, b);
}

#[test]
fn quicksort_orders_distant_entries() {
    // After the quicksort pass alone, entries twelve or more positions
    // apart are already in key order, and entries outside the sorted
    // range are untouched.
    let keys: Vec<u64> = (0..80u64).map(|i| (i * 6007) % 131).collect();
    let original = edges_from(&keys);
    let mut p = original.clone();
    sort_edges_quicksort(&mut p, 2, 75);
    for i in 2..77 {
        for j in (i + 12)..77 {
            assert!(p[i].y0 <= p[j].y0, "entries {} and {} out of order", i, j);
        }
    }
    assert_eq!(&p[..2], &original[..2]);
    assert_eq!(&p[77..], &original[77..]);
    let mut a: Vec<u64> = p[2..77].iter().map(|e| e.y0).collect();
    let mut b: Vec<u64> = original[2..77].iter().map(|e| e.y0).collect();
    a.sort();
    b.sort();
    assert_eq!(a, b);
}

#[test]
fn sort_empty_and_single() {
    let mut p: Vec<Edge> = Vec::new();
    sort_edges(&mut p);
    assert!(p.is_empty());
    let mut p = edges_from(&[7]);
    sort_edges(&mut p);
    assert_eq!(p.len(), 1);
    assert_eq!(p[0].y0, 7);
}
