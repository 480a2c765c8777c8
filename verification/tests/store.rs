//! Tests for the deduplicating object store.

use fj_kernel::math::p3;
use fj_kernel::objects::{GlobalVertex, Objects};

#[test]
fn insert_is_idempotent() {
    let mut objects = Objects::new();

    let first = objects.global_vertices.insert(GlobalVertex { position: p3(1, 2, 3) });
    let second = objects.global_vertices.insert(GlobalVertex { position: p3(1, 2, 3) });

    assert_eq!(first, second);
    assert_eq!(objects.global_vertices.len(), 1);
}

#[test]
fn insert_distinguishes_values() {
    let mut objects = Objects::new();

    let first = objects.global_vertices.insert(GlobalVertex { position: p3(1, 2, 3) });
    let other = objects.global_vertices.insert(GlobalVertex { position: p3(3, 2, 1) });

    assert_ne!(first, other);
    assert_eq!(objects.global_vertices.len(), 2);
    assert_eq!(objects.global_vertices.get(&first).position, p3(1, 2, 3));
    assert_eq!(objects.global_vertices.get(&other).position, p3(3, 2, 1));
}
