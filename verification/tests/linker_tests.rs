//! The guest side of the host functions: codes, memory access and the
//! integer results guest code gets back.

use std::time::{SystemTime, UNIX_EPOCH};
use vudo_vm::capability::{CapabilityGrant, CapabilityScope, CapabilitySet, CapabilityType};
use vudo_vm::host::credit::{CreditBackend, InMemoryCreditLedger};
use vudo_vm::host::network::MockNetworkBackend;
use vudo_vm::host::storage::{InMemoryStorage, StorageBackend};
use vudo_vm::linker::error_codes;
use vudo_vm::linker::{
    guest_credit_available, guest_credit_balance, guest_credit_consume, guest_credit_release, guest_credit_reserve,
    guest_credit_transfer, guest_log, guest_network_broadcast, guest_network_connect, guest_network_listen,
    guest_random_bytes, guest_storage_delete, guest_storage_read, guest_storage_write, guest_time_now,
    read_memory, write_memory, HOST_ERROR, HOST_SUCCESS,
};

fn now() -> u64 {
    SystemTime::now().duration_since(UNIX_EPOCH).expect("Time went backwards").as_secs()
}

fn caps_of(kinds: &[CapabilityType]) -> CapabilitySet {
    let mut set = CapabilitySet::new();
    for (i, &k) in kinds.iter().enumerate() {
        set.add_grant(CapabilityGrant::new(i as u64 + 1, k, CapabilityScope::Global, [0u8; 32], [1u8; 32], now(), None, [0u8; 64]));
    }
    set
}

fn all_caps() -> CapabilitySet {
    caps_of(&[CapabilityType::Unrestricted])
}

#[test]
fn test_error_codes_constants() {
    assert_eq!(error_codes::SUCCESS, 0);
    assert_eq!(error_codes::CAPABILITY_DENIED, -1);
    assert_eq!(error_codes::INVALID_MEMORY, -2);
    assert_eq!(error_codes::INVALID_PARAMETER, -3);
    assert_eq!(error_codes::STORAGE_ERROR, -4);
    assert_eq!(error_codes::NETWORK_ERROR, -5);
    assert_eq!(error_codes::CREDIT_ERROR, -6);
    assert_eq!(error_codes::BUFFER_TOO_SMALL, -7);
    assert_eq!(error_codes::INTERNAL_ERROR, -8);
}

#[test]
fn test_host_error_and_success_constants() {
    assert_eq!(HOST_ERROR, -1);
    assert_eq!(HOST_SUCCESS, 0);
}

// ─── further cases ────────────────────────────────────────────────────────

#[test]
fn guest_memory_read_out_of_bounds() {
    let mem = vec![0u8; 16];
    assert_eq!(read_memory(&mem, 10, 7), None);
    assert_eq!(read_memory(&mem, 10, 6), Some(vec![0u8; 6]));
    assert_eq!(read_memory(&mem, 16, 0), Some(vec![]));
    assert_eq!(read_memory(&mem, 17, 0), None);
}

#[test]
fn guest_memory_negative_pointer() {
    let mut mem = vec![0u8; 16];
    assert_eq!(read_memory(&mem, -1, 1), None);
    assert_eq!(read_memory(&mem, 0, -1), None);
    assert!(!write_memory(&mut mem, -1, &[1]));
    assert_eq!(mem, vec![0u8; 16]);
}

#[test]
fn guest_memory_write_out_of_bounds() {
    let mut mem = vec![0u8; 8];
    assert!(!write_memory(&mut mem, 6, &[1, 2, 3]));
    assert_eq!(mem, vec![0u8; 8]);
    assert!(write_memory(&mut mem, 5, &[1, 2, 3]));
    assert_eq!(mem, vec![0, 0, 0, 0, 0, 1, 2, 3]);
}

#[test]
fn guest_time_and_random() {
    let caps = caps_of(&[CapabilityType::SensorTime, CapabilityType::SensorRandom]);
    assert!(guest_time_now(&caps) > 0);
    assert_eq!(guest_time_now(&CapabilitySet::new()), -1);

    let mut mem = vec![0u8; 64];
    assert_eq!(guest_random_bytes(&caps, &mut mem, 0, 0), HOST_ERROR);
    assert_eq!(guest_random_bytes(&caps, &mut mem, 0, -4), HOST_ERROR);
    assert_eq!(guest_random_bytes(&caps, &mut mem, 60, 8), HOST_ERROR);
    assert_eq!(mem, vec![0u8; 64]);
    assert_eq!(guest_random_bytes(&caps, &mut mem, 16, 32), HOST_SUCCESS);
    assert!(mem[16..48].iter().any(|&b| b != 0));
    assert_eq!(&mem[0..16], &[0u8; 16]);
    assert_eq!(guest_random_bytes(&CapabilitySet::new(), &mut mem, 0, 4), HOST_ERROR);
}

#[test]
fn guest_log_cases() {
    let caps = caps_of(&[CapabilityType::ActuatorLog]);
    let mut mem = vec![0u8; 32];
    mem[..5].copy_from_slice(b"hello");
    let (code, line) = guest_log(&caps, &mem, 2, 0, 5);
    assert_eq!(code, HOST_SUCCESS);
    assert_eq!(line.unwrap().text, "[VUDO:INFO] hello");
    assert_eq!(guest_log(&caps, &mem, 9, 0, 5).0, HOST_ERROR);
    assert_eq!(guest_log(&caps, &mem, 2 + 256, 0, 5).0, HOST_SUCCESS);
    assert_eq!(guest_log(&caps, &mem, 2, 30, 5).0, HOST_ERROR);
    mem[0] = 0xff;
    assert_eq!(guest_log(&caps, &mem, 2, 0, 5), (HOST_ERROR, None));
    assert_eq!(guest_log(&CapabilitySet::new(), &mem, 2, 1, 4), (HOST_ERROR, None));
}

#[test]
fn guest_storage_write_then_read() {
    let caps = caps_of(&[CapabilityType::StorageRead, CapabilityType::StorageWrite]);
    let storage = InMemoryStorage::new();
    let mut mem = vec![0u8; 64];
    mem[0..3].copy_from_slice(b"key");
    mem[8..13].copy_from_slice(b"value");
    assert_eq!(guest_storage_write(&caps, &storage, &mem, 0, 3, 8, 5), HOST_SUCCESS);
    assert_eq!(storage.read(b"key").unwrap(), Some(b"value".to_vec()));
    assert_eq!(guest_storage_read(&caps, &storage, &mut mem, 0, 3, 32, 16), 5);
    assert_eq!(&mem[32..37], b"value");
    assert_eq!(guest_storage_read(&caps, &storage, &mut mem, 0, 3, 40, 4), HOST_ERROR);
    assert_eq!(guest_storage_read(&caps, &storage, &mut mem, 0, 2, 40, 16), HOST_SUCCESS);
    assert_eq!(guest_storage_read(&caps, &storage, &mut mem, 60, 8, 0, 16), HOST_ERROR);
    assert_eq!(guest_storage_write(&caps, &storage, &mem, 0, 3, 60, 8), HOST_ERROR);
}

#[test]
fn guest_storage_delete_codes() {
    let caps = caps_of(&[CapabilityType::StorageDelete]);
    let storage = InMemoryStorage::new();
    storage.write(b"k", b"v").unwrap();
    let mem = b"k".to_vec();
    assert_eq!(guest_storage_delete(&caps, &storage, &mem, 0, 1), 1);
    assert_eq!(guest_storage_delete(&caps, &storage, &mem, 0, 1), 0);
    assert_eq!(guest_storage_delete(&caps, &storage, &mem, 0, 0), HOST_ERROR);
    assert_eq!(guest_storage_delete(&CapabilitySet::new(), &storage, &mem, 0, 1), HOST_ERROR);
}

#[test]
fn test_host_storage_without_capability() {
    let storage = InMemoryStorage::new();
    let mut one_page = vec![0u8; 65536];
    assert_eq!(guest_storage_read(&CapabilitySet::new(), &storage, &mut one_page, 0, 4, 16, 64), HOST_ERROR);
    let mut mem = vec![1u8; 16];
    assert_eq!(guest_storage_write(&CapabilitySet::new(), &storage, &mem, 0, 2, 2, 2), HOST_ERROR);
    assert_eq!(guest_storage_read(&CapabilitySet::new(), &storage, &mut mem, 0, 2, 2, 2), HOST_ERROR);
    assert_eq!(storage.count().unwrap(), 0);
}

#[test]
fn guest_network_connect_handles() {
    let caps = all_caps();
    let network = MockNetworkBackend::new();
    let mem = b"peer:1".to_vec();
    assert_eq!(guest_network_connect(&caps, &network, &mem, 0, 6), 1);
    assert_eq!(guest_network_connect(&caps, &network, &mem, 0, 6), 2);
    assert_eq!(guest_network_connect(&caps, &network, &mem, 0, 0), -1);
    assert_eq!(guest_network_connect(&caps, &network, &[0xc3], 0, 1), -1);
    assert_eq!(network.connected_addresses(), vec!["peer:1".to_string(), "peer:1".to_string()]);
}

#[test]
fn guest_network_listen_handles() {
    let caps = all_caps();
    let network = MockNetworkBackend::new();
    assert_eq!(guest_network_listen(&caps, &network, 8080), 1);
    assert_eq!(guest_network_listen(&caps, &network, 8080), -1);
    assert_eq!(guest_network_listen(&caps, &network, 0), 2);
}

#[test]
fn test_host_network_listen_invalid_port() {
    let caps = caps_of(&[CapabilityType::NetworkListen]);
    let network = MockNetworkBackend::new();
    assert_eq!(guest_network_listen(&caps, &network, 70000), -1);
    assert_eq!(guest_network_listen(&caps, &network, -1), -1);
    assert_eq!(guest_network_listen(&caps, &network, 65536), -1);
    assert_eq!(guest_network_listen(&caps, &network, 65535), 1);
}

#[test]
fn guest_network_broadcast_counts() {
    let caps = all_caps();
    let network = MockNetworkBackend::new();
    let mem = b"hi".to_vec();
    assert_eq!(guest_network_broadcast(&caps, &network, &mem, 0, 2), 0);
    guest_network_connect(&caps, &network, &mem, 0, 2);
    assert_eq!(guest_network_broadcast(&caps, &network, &mem, 0, 2), 1);
    assert_eq!(guest_network_broadcast(&caps, &network, &mem, 0, 0), -1);
    assert_eq!(network.broadcast_messages().len(), 2);
}

#[test]
fn guest_credit_balance_reads_key() {
    let caps = caps_of(&[CapabilityType::ActuatorCredit]);
    let ledger = InMemoryCreditLedger::with_balances(vec![([5u8; 32], 1234)]);
    let mem = vec![5u8; 40];
    assert_eq!(guest_credit_balance(&caps, &ledger, &mem, 0), 1234);
    assert_eq!(guest_credit_available(&caps, &ledger, &mem, 8), 1234);
    assert_eq!(guest_credit_balance(&caps, &ledger, &mem, 9), -1);
    assert_eq!(guest_credit_balance(&CapabilitySet::new(), &ledger, &mem, 0), -1);
}

#[test]
fn guest_credit_transfer_moves() {
    let caps = caps_of(&[CapabilityType::ActuatorCredit]);
    let ledger = InMemoryCreditLedger::with_balances(vec![([5u8; 32], 1000)]);
    let mut mem = vec![5u8; 64];
    mem[32..].copy_from_slice(&[6u8; 32]);
    assert_eq!(guest_credit_transfer(&caps, &ledger, &mem, 0, 32, 300), HOST_SUCCESS);
    assert_eq!(ledger.balance(&[6u8; 32]).unwrap(), 300);
    assert_eq!(guest_credit_transfer(&caps, &ledger, &mem, 0, 0, 1), HOST_ERROR);
    assert_eq!(guest_credit_transfer(&caps, &ledger, &mem, 0, 40, 1), HOST_ERROR);
}

#[test]
fn test_host_credit_transfer_negative_amount() {
    let caps = caps_of(&[CapabilityType::ActuatorCredit]);
    let funded = InMemoryCreditLedger::with_balances(vec![([1u8; 32], 1000)]);
    let mut keys = vec![0u8; 65536];
    keys[0..32].copy_from_slice(&[1u8; 32]);
    keys[32..64].copy_from_slice(&[2u8; 32]);
    assert_eq!(guest_credit_transfer(&caps, &funded, &keys, 0, 32, -100), HOST_ERROR);
    assert_eq!(funded.balance(&[1u8; 32]).unwrap(), 1000);
    assert_eq!(funded.balance(&[2u8; 32]).unwrap(), 0);
    let ledger = InMemoryCreditLedger::with_balances(vec![([5u8; 32], 1000)]);
    let mem = vec![5u8; 64];
    assert_eq!(guest_credit_transfer(&caps, &ledger, &mem, 0, 32, -1), HOST_ERROR);
    assert_eq!(ledger.balance(&[5u8; 32]).unwrap(), 1000);
}

#[test]
fn guest_credit_reserve_and_release() {
    let caps = caps_of(&[CapabilityType::ActuatorCredit]);
    let ledger = InMemoryCreditLedger::with_balances(vec![([5u8; 32], 1000)]);
    let mem = vec![5u8; 32];
    let id = guest_credit_reserve(&caps, &ledger, &mem, 0, 400);
    assert_eq!(id, 1);
    assert_eq!(guest_credit_available(&caps, &ledger, &mem, 0), 600);
    assert_eq!(guest_credit_release(&caps, &ledger, id), HOST_SUCCESS);
    assert_eq!(guest_credit_release(&caps, &ledger, id), HOST_ERROR);
    assert_eq!(guest_credit_release(&caps, &ledger, -1), HOST_ERROR);
    assert_eq!(guest_credit_reserve(&caps, &ledger, &mem, 0, 0), -1);
    assert_eq!(guest_credit_reserve(&caps, &ledger, &mem, 0, -5), -1);
}

#[test]
fn guest_credit_consume_deducts() {
    let caps = caps_of(&[CapabilityType::ActuatorCredit]);
    let ledger = InMemoryCreditLedger::with_balances(vec![([5u8; 32], 1000)]);
    let mem = vec![5u8; 32];
    let id = guest_credit_reserve(&caps, &ledger, &mem, 0, 250);
    assert_eq!(guest_credit_consume(&caps, &ledger, id), HOST_SUCCESS);
    assert_eq!(guest_credit_balance(&caps, &ledger, &mem, 0), 750);
    assert_eq!(guest_credit_consume(&caps, &ledger, id), HOST_ERROR);
    assert_eq!(guest_credit_consume(&caps, &ledger, -3), HOST_ERROR);
}

#[test]
fn test_host_random_bytes_zero_length() {
    let caps = caps_of(&[CapabilityType::SensorRandom]);
    let mut mem = vec![0u8; 65536];
    assert_eq!(guest_random_bytes(&caps, &mut mem, 0, 0), HOST_ERROR);
    assert!(mem.iter().all(|&b| b == 0));
}

#[test]
fn test_host_log_invalid_level() {
    let caps = caps_of(&[CapabilityType::ActuatorLog]);
    let mut mem = vec![0u8; 65536];
    mem[0..12].copy_from_slice(b"Test message");
    assert_eq!(guest_log(&caps, &mem, 255, 0, 12), (HOST_ERROR, None));
}

#[test]
fn test_memory_read_out_of_bounds() {
    let caps = caps_of(&[CapabilityType::StorageRead]);
    let storage = InMemoryStorage::new();
    let mut mem = vec![0u8; 65536];
    assert_eq!(guest_storage_read(&caps, &storage, &mut mem, 65536, 10, 0, 64), HOST_ERROR);
    assert!(mem.iter().all(|&b| b == 0));
}

#[test]
fn test_memory_write_out_of_bounds() {
    let caps = caps_of(&[CapabilityType::SensorRandom]);
    let mut mem = vec![0u8; 65536];
    assert_eq!(guest_random_bytes(&caps, &mut mem, 65530, 100), HOST_ERROR);
    assert!(mem.iter().all(|&b| b == 0));
}

#[test]
fn test_negative_pointer() {
    let caps = caps_of(&[CapabilityType::ActuatorLog]);
    let mem = vec![0u8; 65536];
    assert_eq!(guest_log(&caps, &mem, 1, -1, 10), (HOST_ERROR, None));
}

#[test]
fn guest_storage_read_value_past_memory_end() {
    let caps = caps_of(&[CapabilityType::StorageRead, CapabilityType::StorageWrite]);
    let storage = InMemoryStorage::new();
    storage.write(b"key", b"value").unwrap();
    let mut mem = vec![0u8; 64];
    mem[0..3].copy_from_slice(b"key");
    let before = mem.clone();
    // The value fits the caller's buffer but not the memory at 62.
    assert_eq!(guest_storage_read(&caps, &storage, &mut mem, 0, 3, 62, 16), HOST_ERROR);
    assert_eq!(mem, before);
    assert_eq!(guest_storage_read(&caps, &storage, &mut mem, 0, 3, -1, 16), HOST_ERROR);
    assert_eq!(guest_storage_read(&caps, &storage, &mut mem, 0, 3, 59, 16), 5);
    assert_eq!(&mem[59..64], b"value");
}
