//! Key-value storage and the storage host functions.

use std::time::{SystemTime, UNIX_EPOCH};
use vudo_vm::capability::{CapabilityGrant, CapabilityScope, CapabilitySet, CapabilityType};
use vudo_vm::host::storage::{
    host_storage_delete, host_storage_read, host_storage_write, InMemoryStorage, StorageBackend, StoreState,
    MAX_KEY_SIZE, MAX_VALUE_SIZE,
};

fn now() -> u64 {
    SystemTime::now().duration_since(UNIX_EPOCH).expect("Time went backwards").as_secs()
}

fn create_storage_caps() -> CapabilitySet {
    let mut cap_set = CapabilitySet::new();
    for cap_type in [CapabilityType::StorageRead, CapabilityType::StorageWrite, CapabilityType::StorageDelete] {
        cap_set.add_grant(CapabilityGrant::new(1, cap_type, CapabilityScope::Sandboxed, [0u8; 32], [1u8; 32], now(), None, [0u8; 64]));
    }
    cap_set
}

fn create_unrestricted_capset() -> CapabilitySet {
    let mut cap_set = CapabilitySet::new();
    cap_set.add_grant(CapabilityGrant::new(1, CapabilityType::Unrestricted, CapabilityScope::Global, [0u8; 32], [1u8; 32], now(), None, [0u8; 64]));
    cap_set
}

#[test]
fn test_in_memory_storage_basic() {
    let storage = InMemoryStorage::new();
    assert_eq!(storage.count().unwrap(), 0);

    storage.write(b"key1", b"value1").unwrap();
    assert_eq!(storage.count().unwrap(), 1);

    let value = storage.read(b"key1").unwrap();
    assert_eq!(value, Some(b"value1".to_vec()));

    let value = storage.read(b"key2").unwrap();
    assert_eq!(value, None);

    let deleted = storage.delete(b"key1").unwrap();
    assert!(deleted);
    assert_eq!(storage.count().unwrap(), 0);

    let deleted = storage.delete(b"key1").unwrap();
    assert!(!deleted);
}

#[test]
fn test_in_memory_storage_overwrite() {
    let storage = InMemoryStorage::new();
    storage.write(b"key", b"value1").unwrap();
    storage.write(b"key", b"value2").unwrap();
    let value = storage.read(b"key").unwrap();
    assert_eq!(value, Some(b"value2".to_vec()));
    assert_eq!(storage.count().unwrap(), 1);
}

#[test]
fn test_in_memory_storage_clear() {
    let storage = InMemoryStorage::new();
    storage.write(b"key1", b"value1").unwrap();
    storage.write(b"key2", b"value2").unwrap();
    assert_eq!(storage.count().unwrap(), 2);
    storage.clear().unwrap();
    assert_eq!(storage.count().unwrap(), 0);
}

#[test]
fn test_host_storage_read_with_capability() {
    let caps = create_storage_caps();
    let storage = InMemoryStorage::new();
    storage.write(b"test_key", b"test_value").unwrap();
    let result = host_storage_read(&caps, &storage, b"test_key");
    assert!(result.success);
    assert_eq!(result.return_value, Some(b"test_value".to_vec()));
}

#[test]
fn test_host_storage_read_not_found() {
    let caps = create_storage_caps();
    let storage = InMemoryStorage::new();
    let result = host_storage_read(&caps, &storage, b"nonexistent");
    assert!(result.success);
    assert_eq!(result.return_value, None);
}

#[test]
fn test_host_storage_read_without_capability() {
    let caps = CapabilitySet::new();
    let storage = InMemoryStorage::new();
    let result = host_storage_read(&caps, &storage, b"key");
    assert!(!result.success);
    assert!(result.error.unwrap().contains("Capability denied"));
}

#[test]
fn test_host_storage_write_with_capability() {
    let caps = create_storage_caps();
    let storage = InMemoryStorage::new();
    let result = host_storage_write(&caps, &storage, b"key", b"value");
    assert!(result.success);
    let value = storage.read(b"key").unwrap();
    assert_eq!(value, Some(b"value".to_vec()));
}

#[test]
fn test_host_storage_write_without_capability() {
    let caps = CapabilitySet::new();
    let storage = InMemoryStorage::new();
    let result = host_storage_write(&caps, &storage, b"key", b"value");
    assert!(!result.success);
    assert!(result.error.unwrap().contains("Capability denied"));
}

#[test]
fn test_host_storage_delete_with_capability() {
    let caps = create_storage_caps();
    let storage = InMemoryStorage::new();
    storage.write(b"key", b"value").unwrap();
    let result = host_storage_delete(&caps, &storage, b"key");
    assert!(result.success);
    assert_eq!(result.return_value, Some(vec![1]));
    let value = storage.read(b"key").unwrap();
    assert_eq!(value, None);
}

#[test]
fn test_host_storage_delete_not_found() {
    let caps = create_storage_caps();
    let storage = InMemoryStorage::new();
    let result = host_storage_delete(&caps, &storage, b"nonexistent");
    assert!(result.success);
    assert_eq!(result.return_value, Some(vec![0]));
}

#[test]
fn test_host_storage_delete_without_capability() {
    let caps = CapabilitySet::new();
    let storage = InMemoryStorage::new();
    let result = host_storage_delete(&caps, &storage, b"key");
    assert!(!result.success);
    assert!(result.error.unwrap().contains("Capability denied"));
}

#[test]
fn test_host_storage_empty_key() {
    let caps = create_storage_caps();
    let storage = InMemoryStorage::new();
    let result = host_storage_read(&caps, &storage, b"");
    assert!(!result.success);
    assert!(result.error.unwrap().contains("cannot be empty"));
}

#[test]
fn test_host_storage_key_too_large() {
    let caps = create_storage_caps();
    let storage = InMemoryStorage::new();
    let large_key = vec![0u8; MAX_KEY_SIZE + 1];
    let result = host_storage_read(&caps, &storage, &large_key);
    assert!(!result.success);
    assert!(result.error.unwrap().contains("exceeds maximum"));
}

#[test]
fn test_host_storage_value_too_large() {
    let caps = create_storage_caps();
    let storage = InMemoryStorage::new();
    let large_value = vec![0u8; MAX_VALUE_SIZE + 1];
    let result = host_storage_write(&caps, &storage, b"key", &large_value);
    assert!(!result.success);
    assert!(result.error.unwrap().contains("exceeds maximum"));
}

#[test]
fn test_host_storage_with_unrestricted() {
    let caps = create_unrestricted_capset();
    let storage = InMemoryStorage::new();
    assert!(host_storage_write(&caps, &storage, b"key", b"value").success);
    assert!(host_storage_read(&caps, &storage, b"key").success);
    assert!(host_storage_delete(&caps, &storage, b"key").success);
}

// ─── further cases ────────────────────────────────────────────────────────

#[test]
fn storage_read_after_write_and_delete() {
    let mut s = StoreState::new();
    s.write(b"a", b"1");
    s.write(b"b", b"2");
    assert_eq!(s.read(b"a"), Some(b"1".to_vec()));
    s.write(b"a", b"3");
    assert_eq!(s.read(b"a"), Some(b"3".to_vec()));
    assert_eq!(s.read(b"b"), Some(b"2".to_vec()));
    assert_eq!(s.count(), 2);
    assert!(s.delete(b"a"));
    assert_eq!(s.read(b"a"), None);
    assert_eq!(s.read(b"b"), Some(b"2".to_vec()));
    assert!(!s.delete(b"a"));
    assert_eq!(s.count(), 1);
    s.clear();
    assert_eq!(s.count(), 0);
}

#[test]
fn storage_clones_share_store() {
    let storage = InMemoryStorage::new();
    let other = storage.clone();
    storage.write(b"k", b"v").unwrap();
    assert_eq!(other.read(b"k").unwrap(), Some(b"v".to_vec()));
}

#[test]
fn storage_size_limits_exact() {
    let caps = create_storage_caps();
    let storage = InMemoryStorage::new();
    let key = vec![7u8; MAX_KEY_SIZE];
    assert!(host_storage_write(&caps, &storage, &key, b"v").success);
    let r = host_storage_write(&caps, &storage, &vec![7u8; MAX_KEY_SIZE + 1], b"v");
    assert_eq!(r.error.unwrap(), "Key size exceeds maximum of 1024 bytes");
    let r = host_storage_write(&caps, &storage, b"", b"v");
    assert_eq!(r.error.unwrap(), "Key cannot be empty");
    let r = host_storage_write(&caps, &storage, b"k", &vec![0u8; MAX_VALUE_SIZE + 1]);
    assert_eq!(r.error.unwrap(), "Value size exceeds maximum of 10485760 bytes");
    let r = host_storage_delete(&caps, &storage, b"");
    assert_eq!(r.error.unwrap(), "Key cannot be empty");
}

#[test]
fn storage_global_scope_required_is_sandboxed() {
    let mut caps = CapabilitySet::new();
    caps.add_grant(CapabilityGrant::new(1, CapabilityType::StorageRead, CapabilityScope::Peer, [0u8; 32], [1u8; 32], now(), None, [0u8; 64]));
    let storage = InMemoryStorage::new();
    let r = host_storage_read(&caps, &storage, b"k");
    assert_eq!(r.error.unwrap(), "Capability denied: StorageRead");
}
