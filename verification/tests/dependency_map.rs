use std::any::TypeId;
use std::sync::Arc;

use tokio::sync::Mutex;
use world_id_deployer::dependency_map::DependencyMap;

#[derive(Debug, Clone, PartialEq, Eq)]
struct TypedU32(pub u32);

#[derive(Debug, Clone, PartialEq, Eq)]
struct AnotherTypedU32(pub u32);

#[derive(Debug, Clone)]
struct ComplexType {
    _mutexed: Arc<Mutex<Vec<u32>>>,
}

#[test]
fn dependency_map_test_typed_cache() {
    let mut cache = DependencyMap::new();

    cache.set(TypedU32(23));
    cache.set(AnotherTypedU32(32));

    assert_eq!(cache.get::<TypedU32>(0), Some(Arc::new(TypedU32(23))));
    assert_eq!(
        cache.get::<AnotherTypedU32>(0),
        Some(Arc::new(AnotherTypedU32(32)))
    );
}

#[test]
fn dependency_map_complex_send_and_sync_type() {
    let mut cache = DependencyMap::new();

    cache.set(ComplexType {
        _mutexed: Arc::new(Mutex::new(vec![1, 2, 3])),
    });

    assert!(cache.get::<ComplexType>(0).is_some());
}

#[test]
fn dependency_map_is_send_and_sync() {
    let mut cache = DependencyMap::new();

    cache.set(TypedU32(23));
    cache.set(AnotherTypedU32(32));

    let cache = Arc::new(Mutex::new(cache));

    let runtime = tokio::runtime::Runtime::new().unwrap();

    let handle_1 = {
        let cache = cache.clone();
        runtime.spawn(async move {
            assert_eq!(
                cache.lock().await.get::<TypedU32>(1),
                Some(Arc::new(TypedU32(23)))
            );
        })
    };

    let handle_2 = {
        let cache = cache.clone();
        runtime.spawn(async move {
            assert_eq!(
                cache.lock().await.get::<AnotherTypedU32>(2),
                Some(Arc::new(AnotherTypedU32(32)))
            );
        })
    };

    runtime.block_on(handle_1).unwrap();
    runtime.block_on(handle_2).unwrap();
}

#[test]
fn early_requests_are_parked_and_all_woken_by_one_set() {
    let mut registry = DependencyMap::new();

    assert_eq!(registry.get::<TypedU32>(1), None);
    assert_eq!(registry.get::<TypedU32>(2), None);
    assert_eq!(registry.get::<TypedU32>(3), None);
    assert_eq!(registry.get::<AnotherTypedU32>(9), None);

    let woken = registry.set(TypedU32(5));
    assert_eq!(woken, vec![1, 2, 3]);

    let first = registry.get::<TypedU32>(1).unwrap();
    let second = registry.get::<TypedU32>(2).unwrap();
    let third = registry.get::<TypedU32>(3).unwrap();
    assert_eq!(*first, TypedU32(5));
    assert!(Arc::ptr_eq(&first, &second));
    assert!(Arc::ptr_eq(&second, &third));

    assert_eq!(registry.get::<AnotherTypedU32>(9), None);
}

#[test]
fn late_request_is_answered_without_parking() {
    let mut registry = DependencyMap::new();

    assert_eq!(registry.set(TypedU32(8)), Vec::<u64>::new());
    assert_eq!(registry.get::<TypedU32>(4), Some(Arc::new(TypedU32(8))));

    // Nobody was parked by the request: a second set wakes no one.
    assert_eq!(registry.set(TypedU32(9)), Vec::<u64>::new());
    assert_eq!(registry.get::<TypedU32>(4), Some(Arc::new(TypedU32(9))));
}

#[test]
fn distinct_types_have_distinct_slots() {
    let mut registry = DependencyMap::new();

    assert_eq!(registry.get::<TypedU32>(1), None);
    assert_eq!(registry.get::<AnotherTypedU32>(2), None);

    assert_eq!(registry.set(AnotherTypedU32(1)), vec![2]);
    assert_eq!(registry.get::<TypedU32>(1), None);
    assert_eq!(registry.set(TypedU32(1)), vec![1, 1]);
}

#[test]
fn registry_is_keyed_by_type_identifier() {
    let mut registry = DependencyMap::new();

    assert!(registry.get_cell(TypeId::of::<u8>(), 1).is_none());
    assert!(registry.get_cell(TypeId::of::<u8>(), 2).is_none());
    assert!(registry.get_cell(TypeId::of::<u16>(), 3).is_none());
    assert!(registry.map.contains_key(&TypeId::of::<u8>()));
    assert!(registry.map.contains_key(&TypeId::of::<u16>()));
    assert!(!registry.map.contains_key(&TypeId::of::<u32>()));

    assert_eq!(registry.set(7u8), vec![1, 2]);
    assert_eq!(registry.get::<u8>(5), Some(Arc::new(7u8)));
}
