use std::sync::Arc;

use tokio::sync::Mutex;
use world_id_deployer::error::Dependency;
use world_id_deployer::error::DeployError;
use world_id_deployer::typed_map::TypedMap;

#[derive(Debug, Clone, PartialEq, Eq)]
struct TypedU32(pub u32);

#[derive(Debug, Clone, PartialEq, Eq)]
struct AnotherTypedU32(pub u32);

#[derive(Debug, Clone)]
struct ComplexType {
    _mutexed: Arc<Mutex<Vec<u32>>>,
}

#[test]
fn typed_map_test_typed_cache() {
    let mut cache = TypedMap::new();

    cache.insert(TypedU32(23));
    cache.insert(AnotherTypedU32(32));

    assert_eq!(cache.try_get::<TypedU32>(), Some(&TypedU32(23)));
    assert_eq!(
        cache.try_get::<AnotherTypedU32>(),
        Some(&AnotherTypedU32(32))
    );
}

#[test]
fn typed_map_complex_send_and_sync_type() {
    let mut cache = TypedMap::new();

    cache.insert(ComplexType {
        _mutexed: Arc::new(Mutex::new(vec![1, 2, 3])),
    });

    assert!(cache.try_get::<ComplexType>().is_some());
}

#[test]
fn typed_map_is_send_and_sync() {
    let mut cache = TypedMap::new();

    cache.insert(TypedU32(23));
    cache.insert(AnotherTypedU32(32));

    let cache = Arc::new(cache);

    let runtime = tokio::runtime::Runtime::new().unwrap();

    let handle_1 = {
        let cache = cache.clone();
        runtime.spawn(async move {
            assert_eq!(cache.try_get::<TypedU32>(), Some(&TypedU32(23)));
        })
    };

    let handle_2 = {
        let cache = cache.clone();
        runtime.spawn(async move {
            assert_eq!(
                cache.try_get::<AnotherTypedU32>(),
                Some(&AnotherTypedU32(32))
            );
        })
    };

    runtime.block_on(handle_1).unwrap();
    runtime.block_on(handle_2).unwrap();
}

#[test]
fn typed_map_starts_empty() {
    let cache = TypedMap::new();

    assert_eq!(cache.try_get::<TypedU32>(), None);
    assert_eq!(
        cache.get::<TypedU32>(),
        Err(DeployError::MissingDependency(Dependency::Unregistered))
    );
}

#[test]
fn typed_map_keeps_one_value_per_type() {
    let mut cache = TypedMap::new();

    cache.insert(TypedU32(1));
    cache.insert(AnotherTypedU32(2));
    cache.insert(TypedU32(3));

    assert_eq!(cache.get::<TypedU32>(), Ok(&TypedU32(3)));
    assert_eq!(cache.get::<AnotherTypedU32>(), Ok(&AnotherTypedU32(2)));
    assert_eq!(cache.try_get::<u32>(), None);
}
