use vectron_render::render_core::operation::batch::{
    batch_precedes, generate_batch_key, BatchKey, Batcher,
};
use vectron_render::render_core::types::common::Dimensionality;
use vectron_render::render_core::types::uuid::Uuid;

fn key(layer: i32, z: i32, resource: Option<Uuid>) -> BatchKey {
    generate_batch_key(Dimensionality::D2, Some((7, z)), layer).with_style_info(resource, None)
}

#[test]
fn batch_key_from_operation_parts() {
    let k = generate_batch_key(Dimensionality::D3, Some((99, 4)), -2);
    assert_eq!(k.dimensionality, Dimensionality::D3);
    assert_eq!(k.style_type_id, 99);
    assert_eq!(k.z_index, 4);
    assert_eq!(k.layer, -2);
    assert_eq!(k.resource_id, None);
    assert_eq!(k.custom_data, None);
    let none = generate_batch_key(Dimensionality::D2, None, 5);
    assert_eq!(none.style_type_id, 0);
    assert_eq!(none.z_index, 0);
    let with = none.with_style_info(Some(Uuid::from_u64(3)), Some(11));
    assert_eq!(with.resource_id, Some(Uuid::from_u64(3)));
    assert_eq!(with.custom_data, Some(11));
    assert_eq!(with.layer, 5);
}

#[test]
fn render_order_of_keys() {
    assert!(batch_precedes(&key(0, 5, None), &key(1, 0, None)));
    assert!(batch_precedes(&key(1, 0, None), &key(1, 1, None)));
    assert!(!batch_precedes(&key(1, 1, None), &key(1, 1, Some(Uuid::from_u64(1)))));
    assert!(batch_precedes(&key(1, 1, Some(Uuid::from_u64(1))), &key(1, 1, None)));
    assert!(batch_precedes(&key(1, 1, Some(Uuid::new(0, 9))), &key(1, 1, Some(Uuid::new(1, 0)))));
    assert!(batch_precedes(&key(1, 1, Some(Uuid::new(2, 3))), &key(1, 1, Some(Uuid::new(2, 4)))));
    assert!(!batch_precedes(&key(1, 1, None), &key(1, 1, None)));
}

#[test]
fn batcher_groups_and_sorts() {
    let mut b: Batcher<&str> = Batcher::new();
    b.add(key(2, 0, None), "late");
    b.add(key(0, 3, None), "early-high-z");
    b.add(key(0, 1, None), "early");
    b.add(key(2, 0, None), "late-second");
    b.add(key(0, 1, Some(Uuid::from_u64(5))), "early-textured");
    assert_eq!(b.batch_count(), 4);
    assert_eq!(b.operation_count(), 5);
    let sorted = b.get_sorted_batches();
    let order: Vec<(i32, i32, Option<Uuid>, Vec<&str>)> = sorted
        .iter()
        .map(|(k, ops)| (k.layer, k.z_index, k.resource_id, (*ops).clone()))
        .collect();
    assert_eq!(
        order,
        vec![
            (0, 1, Some(Uuid::from_u64(5)), vec!["early-textured"]),
            (0, 1, None, vec!["early"]),
            (0, 3, None, vec!["early-high-z"]),
            (2, 0, None, vec!["late", "late-second"]),
        ]
    );
    b.clear();
    assert_eq!(b.batch_count(), 0);
    assert_eq!(b.operation_count(), 0);
    assert!(b.get_sorted_batches().is_empty());
}
