use nexus_wasm_bridge::config::RuntimeConfig;
use nexus_wasm_bridge::pool::InstancePool;

fn create_pool() -> InstancePool {
    let config = RuntimeConfig::default();
    InstancePool::new(&config).unwrap()
}

#[test]
fn test_pool_creation() {
    let pool = create_pool();
    assert_eq!(pool.active_count(), 0);
}

#[test]
fn test_acquire_release() {
    let mut pool = create_pool();

    let instance = pool.acquire().unwrap();
    assert_eq!(pool.active_count(), 1);

    pool.release(instance);
    assert_eq!(pool.active_count(), 0);
    assert!(pool.available_count() > 0);
}

#[test]
fn test_multiple_acquire() {
    let mut pool = create_pool();

    let i1 = pool.acquire().unwrap();
    let i2 = pool.acquire().unwrap();
    let i3 = pool.acquire().unwrap();

    assert_eq!(pool.active_count(), 3);

    pool.release(i1);
    pool.release(i2);
    pool.release(i3);

    assert_eq!(pool.active_count(), 0);
}

#[test]
fn test_instance_reuse() {
    let mut pool = create_pool();

    let instance = pool.acquire().unwrap();
    let id1 = instance.inner().id().to_string();
    pool.release(instance);

    let instance = pool.acquire().unwrap();
    let id2 = instance.inner().id().to_string();
    pool.release(instance);

    assert_eq!(id1, id2, "Should reuse instance");
}

#[test]
fn test_shutdown() {
    let mut pool = create_pool();

    let _instance = pool.acquire().unwrap();
    pool.shutdown();

    assert!(pool.acquire().is_err());
}

#[test]
fn test_pool_stats() {
    let mut pool = create_pool();

    let i1 = pool.acquire().unwrap();
    let i2 = pool.acquire().unwrap();

    assert_eq!(pool.active_count(), 2);
    assert!(pool.instances_created() >= 2);

    pool.release(i1);
    pool.release(i2);
}

#[test]
fn test_single_permit_serializes_checkouts() {
    let config = RuntimeConfig::default().with_max_instances(1);
    let mut pool = InstancePool::new(&config).unwrap();

    let first = pool.acquire().unwrap();
    assert!(pool.acquire().is_err(), "second checkout must wait for the permit");
    pool.release(first);
    let again = pool.acquire().unwrap();
    pool.release(again);
    assert_eq!(pool.active_count(), 0);
}

#[test]
fn test_acquire_release_nets_to_zero() {
    let mut pool = create_pool();
    let active0 = pool.active_count();
    let available0 = pool.available_count();

    let handle = pool.acquire().unwrap();
    pool.release(handle);

    assert_eq!(pool.active_count(), active0);
    assert!(pool.available_count() >= available0);
}

#[test]
fn test_prewarmed_instances() {
    let config = RuntimeConfig::default();
    let pool = InstancePool::new(&config).unwrap();
    assert_eq!(pool.available_count(), config.min_instances);
    assert_eq!(pool.suspended_count(), 0);
}
