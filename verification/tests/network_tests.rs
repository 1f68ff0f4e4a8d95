//! Connection and listener handles, the simulated network, and the network
//! host functions.

use std::time::{SystemTime, UNIX_EPOCH};
use vudo_vm::capability::{CapabilityGrant, CapabilityScope, CapabilitySet, CapabilityType};
use vudo_vm::host::network::{
    host_network_broadcast, host_network_connect, host_network_listen, ConnectionHandle, ListenerHandle,
    MockNetworkBackend, NetworkBackend, NetworkState, MAX_ADDRESS_SIZE, MAX_MESSAGE_SIZE,
};

fn current_timestamp() -> u64 {
    SystemTime::now().duration_since(UNIX_EPOCH).expect("Time went backwards").as_secs()
}

fn caps_of(kinds: &[CapabilityType]) -> CapabilitySet {
    let now = current_timestamp();
    let mut cap_set = CapabilitySet::new();
    for &cap_type in kinds {
        cap_set.add_grant(CapabilityGrant::new(1, cap_type, CapabilityScope::Global, [0u8; 32], [1u8; 32], now, None, [0u8; 64]));
    }
    cap_set
}

fn create_network_caps() -> CapabilitySet {
    caps_of(&[CapabilityType::NetworkConnect, CapabilityType::NetworkListen, CapabilityType::NetworkBroadcast])
}

fn create_connect_only_caps() -> CapabilitySet {
    caps_of(&[CapabilityType::NetworkConnect])
}

fn create_unrestricted_capset() -> CapabilitySet {
    caps_of(&[CapabilityType::Unrestricted])
}

fn le_u64(bytes: Vec<u8>) -> u64 {
    u64::from_le_bytes(bytes.try_into().unwrap())
}

// ─── handles ──────────────────────────────────────────────────────────────

#[test]
fn test_connection_handle_serialization() {
    let handle = ConnectionHandle::new(12345);
    let bytes = handle.to_bytes();
    assert_eq!(bytes.len(), 8);
    let restored = ConnectionHandle::from_bytes(&bytes);
    assert_eq!(restored, Some(handle));
}

#[test]
fn test_connection_handle_invalid_bytes() {
    let invalid = ConnectionHandle::from_bytes(&[1, 2, 3]);
    assert_eq!(invalid, None);
}

#[test]
fn test_listener_handle_serialization() {
    let handle = ListenerHandle::new(67890);
    let bytes = handle.to_bytes();
    assert_eq!(bytes.len(), 8);
    let restored = ListenerHandle::from_bytes(&bytes);
    assert_eq!(restored, Some(handle));
}

#[test]
fn test_listener_handle_invalid_bytes() {
    let invalid = ListenerHandle::from_bytes(&[1, 2, 3, 4, 5]);
    assert_eq!(invalid, None);
}

// ─── the simulated network ────────────────────────────────────────────────

#[test]
fn test_mock_network_connect() {
    let network = MockNetworkBackend::new();
    let handle = network.connect("localhost:8080").unwrap();
    assert_eq!(handle.id(), 1);
    assert_eq!(network.connection_count(), 1);
    let addresses = network.connected_addresses();
    assert!(addresses.contains(&"localhost:8080".to_string()));
}

#[test]
fn test_mock_network_listen() {
    let network = MockNetworkBackend::new();
    let handle = network.listen(8080).unwrap();
    assert_eq!(handle.id(), 1);
    assert_eq!(network.listener_count(), 1);
    let ports = network.listening_ports();
    assert!(ports.contains(&8080));
}

#[test]
fn test_mock_network_listen_port_in_use() {
    let network = MockNetworkBackend::new();
    network.listen(8080).unwrap();
    let result = network.listen(8080);
    assert!(result.is_err());
    assert!(result.unwrap_err().contains("already in use"));
}

#[test]
fn test_mock_network_broadcast() {
    let network = MockNetworkBackend::new();
    network.connect("peer1:8080").unwrap();
    network.connect("peer2:8080").unwrap();
    let count = network.broadcast(b"Hello, peers!").unwrap();
    assert_eq!(count, 2);
    let messages = network.broadcast_messages();
    assert_eq!(messages.len(), 1);
    assert_eq!(messages[0], b"Hello, peers!");
}

#[test]
fn test_mock_network_close_connection() {
    let network = MockNetworkBackend::new();
    let handle = network.connect("localhost:8080").unwrap();
    assert_eq!(network.connection_count(), 1);
    network.close_connection(handle).unwrap();
    assert_eq!(network.connection_count(), 0);
}

#[test]
fn test_mock_network_close_listener() {
    let network = MockNetworkBackend::new();
    let handle = network.listen(8080).unwrap();
    assert_eq!(network.listener_count(), 1);
    network.close_listener(handle).unwrap();
    assert_eq!(network.listener_count(), 0);
}

#[test]
fn test_mock_network_simulated_errors() {
    let network = MockNetworkBackend::new();

    network.set_connect_error(Some("Simulated connection failure".to_string()));
    let result = network.connect("localhost:8080");
    assert!(result.is_err());

    network.set_connect_error(None);
    network.set_listen_error(Some("Simulated listen failure".to_string()));
    let result = network.listen(8080);
    assert!(result.is_err());

    network.set_listen_error(None);
    network.set_broadcast_error(Some("Simulated broadcast failure".to_string()));
    let result = network.broadcast(b"test");
    assert!(result.is_err());
}

#[test]
fn test_mock_network_clear() {
    let network = MockNetworkBackend::new();
    network.connect("localhost:8080").unwrap();
    network.listen(9090).unwrap();
    network.broadcast(b"test").unwrap();
    network.clear();
    assert_eq!(network.connection_count(), 0);
    assert_eq!(network.listener_count(), 0);
    assert!(network.broadcast_messages().is_empty());
}

// ─── host functions ───────────────────────────────────────────────────────

#[test]
fn test_host_network_connect_with_capability() {
    let caps = create_network_caps();
    let network = MockNetworkBackend::new();
    let result = host_network_connect(&caps, &network, "localhost:8080");
    assert!(result.success);
    assert!(result.error.is_none());
    assert!(result.return_value.is_some());
    let bytes = result.return_value.unwrap();
    assert_eq!(bytes.len(), 8);
    let handle = ConnectionHandle::from_bytes(&bytes);
    assert!(handle.is_some());
}

#[test]
fn test_host_network_connect_without_capability() {
    let caps = CapabilitySet::new();
    let network = MockNetworkBackend::new();
    let result = host_network_connect(&caps, &network, "localhost:8080");
    assert!(!result.success);
    assert!(result.return_value.is_none());
    assert!(result.error.is_some());
    assert!(result.error.unwrap().contains("Capability denied"));
}

#[test]
fn test_host_network_connect_empty_address() {
    let caps = create_network_caps();
    let network = MockNetworkBackend::new();
    let result = host_network_connect(&caps, &network, "");
    assert!(!result.success);
    assert!(result.error.unwrap().contains("cannot be empty"));
}

#[test]
fn test_host_network_connect_address_too_large() {
    let caps = create_network_caps();
    let network = MockNetworkBackend::new();
    let large_address = "x".repeat(MAX_ADDRESS_SIZE + 1);
    let result = host_network_connect(&caps, &network, &large_address);
    assert!(!result.success);
    assert!(result.error.unwrap().contains("exceeds maximum"));
}

#[test]
fn test_host_network_connect_network_error() {
    let caps = create_network_caps();
    let network = MockNetworkBackend::new();
    network.set_connect_error(Some("Connection refused".to_string()));
    let result = host_network_connect(&caps, &network, "localhost:8080");
    assert!(!result.success);
    assert!(result.error.unwrap().contains("Connection refused"));
}

#[test]
fn test_host_network_connect_with_unrestricted() {
    let caps = create_unrestricted_capset();
    let network = MockNetworkBackend::new();
    let result = host_network_connect(&caps, &network, "localhost:8080");
    assert!(result.success);
    assert!(result.return_value.is_some());
}

#[test]
fn test_host_network_listen_with_capability() {
    let caps = create_network_caps();
    let network = MockNetworkBackend::new();
    let result = host_network_listen(&caps, &network, 8080);
    assert!(result.success);
    assert!(result.error.is_none());
    assert!(result.return_value.is_some());
    let bytes = result.return_value.unwrap();
    assert_eq!(bytes.len(), 8);
    let handle = ListenerHandle::from_bytes(&bytes);
    assert!(handle.is_some());
}

#[test]
fn test_host_network_listen_without_capability() {
    let caps = CapabilitySet::new();
    let network = MockNetworkBackend::new();
    let result = host_network_listen(&caps, &network, 8080);
    assert!(!result.success);
    assert!(result.return_value.is_none());
    assert!(result.error.is_some());
    assert!(result.error.unwrap().contains("Capability denied"));
}

#[test]
fn test_host_network_listen_with_only_connect_capability() {
    let caps = create_connect_only_caps();
    let network = MockNetworkBackend::new();
    let result = host_network_listen(&caps, &network, 8080);
    assert!(!result.success);
    assert!(result.error.unwrap().contains("Capability denied"));
}

#[test]
fn test_host_network_listen_port_in_use() {
    let caps = create_network_caps();
    let network = MockNetworkBackend::new();
    let result1 = host_network_listen(&caps, &network, 8080);
    assert!(result1.success);
    let result2 = host_network_listen(&caps, &network, 8080);
    assert!(!result2.success);
    assert!(result2.error.unwrap().contains("already in use"));
}

#[test]
fn test_host_network_listen_network_error() {
    let caps = create_network_caps();
    let network = MockNetworkBackend::new();
    network.set_listen_error(Some("Bind failed".to_string()));
    let result = host_network_listen(&caps, &network, 8080);
    assert!(!result.success);
    assert!(result.error.unwrap().contains("Bind failed"));
}

#[test]
fn test_host_network_listen_with_unrestricted() {
    let caps = create_unrestricted_capset();
    let network = MockNetworkBackend::new();
    let result = host_network_listen(&caps, &network, 8080);
    assert!(result.success);
    assert!(result.return_value.is_some());
}

#[test]
fn test_host_network_listen_port_zero() {
    let caps = create_network_caps();
    let network = MockNetworkBackend::new();
    let result = host_network_listen(&caps, &network, 0);
    assert!(result.success);
}

#[test]
fn test_host_network_listen_max_port() {
    let caps = create_network_caps();
    let network = MockNetworkBackend::new();
    let result = host_network_listen(&caps, &network, 65535);
    assert!(result.success);
}

#[test]
fn test_host_network_broadcast_with_capability() {
    let caps = create_network_caps();
    let network = MockNetworkBackend::new();
    network.connect("peer1:8080").unwrap();
    network.connect("peer2:8080").unwrap();
    let result = host_network_broadcast(&caps, &network, b"Hello, peers!");
    assert!(result.success);
    assert!(result.error.is_none());
    assert!(result.return_value.is_some());
    let bytes = result.return_value.unwrap();
    assert_eq!(bytes.len(), 8);
    assert_eq!(le_u64(bytes), 2);
}

#[test]
fn test_host_network_broadcast_without_capability() {
    let caps = CapabilitySet::new();
    let network = MockNetworkBackend::new();
    let result = host_network_broadcast(&caps, &network, b"Hello");
    assert!(!result.success);
    assert!(result.return_value.is_none());
    assert!(result.error.is_some());
    assert!(result.error.unwrap().contains("Capability denied"));
}

#[test]
fn test_host_network_broadcast_empty_message() {
    let caps = create_network_caps();
    let network = MockNetworkBackend::new();
    let result = host_network_broadcast(&caps, &network, b"");
    assert!(!result.success);
    assert!(result.error.unwrap().contains("cannot be empty"));
}

#[test]
fn test_host_network_broadcast_message_too_large() {
    let caps = create_network_caps();
    let network = MockNetworkBackend::new();
    let large_message = vec![0u8; MAX_MESSAGE_SIZE + 1];
    let result = host_network_broadcast(&caps, &network, &large_message);
    assert!(!result.success);
    assert!(result.error.unwrap().contains("exceeds maximum"));
}

#[test]
fn test_host_network_broadcast_no_peers() {
    let caps = create_network_caps();
    let network = MockNetworkBackend::new();
    let result = host_network_broadcast(&caps, &network, b"Hello");
    assert!(result.success);
    assert_eq!(le_u64(result.return_value.unwrap()), 0);
}

#[test]
fn test_host_network_broadcast_network_error() {
    let caps = create_network_caps();
    let network = MockNetworkBackend::new();
    network.set_broadcast_error(Some("Broadcast failed".to_string()));
    let result = host_network_broadcast(&caps, &network, b"Hello");
    assert!(!result.success);
    assert!(result.error.unwrap().contains("Broadcast failed"));
}

#[test]
fn test_host_network_broadcast_with_unrestricted() {
    let caps = create_unrestricted_capset();
    let network = MockNetworkBackend::new();
    let result = host_network_broadcast(&caps, &network, b"Hello");
    assert!(result.success);
    assert!(result.return_value.is_some());
}

#[test]
fn test_full_network_workflow() {
    let caps = create_network_caps();
    let network = MockNetworkBackend::new();

    assert!(host_network_listen(&caps, &network, 8080).success);
    assert!(host_network_connect(&caps, &network, "peer1:9000").success);
    assert!(host_network_connect(&caps, &network, "peer2:9000").success);

    let broadcast_result = host_network_broadcast(&caps, &network, b"Sync message");
    assert!(broadcast_result.success);
    assert_eq!(le_u64(broadcast_result.return_value.unwrap()), 2);

    assert_eq!(network.connection_count(), 2);
    assert_eq!(network.listener_count(), 1);
    assert_eq!(network.broadcast_messages().len(), 1);
}

#[test]
fn test_capability_isolation() {
    let network = MockNetworkBackend::new();
    let connect_only = create_connect_only_caps();
    assert!(host_network_connect(&connect_only, &network, "localhost:8080").success);
    assert!(!host_network_listen(&connect_only, &network, 9090).success);
    assert!(!host_network_broadcast(&connect_only, &network, b"test").success);
}

// ─── further cases ────────────────────────────────────────────────────────

#[test]
fn network_handle_bytes_little_endian() {
    assert_eq!(ConnectionHandle::new(0x0102).to_bytes(), vec![2, 1, 0, 0, 0, 0, 0, 0]);
    assert_eq!(ListenerHandle::from_bytes(&[1, 0, 0, 0, 0, 0, 0, 0]), Some(ListenerHandle(1)));
    assert_eq!(ConnectionHandle::from_bytes(&[0u8; 9]), None);
    assert_eq!(ConnectionHandle::from_bytes(&[]), None);
}

#[test]
fn network_identifiers_are_sequential_and_reset_by_clear() {
    let network = MockNetworkBackend::new();
    assert_eq!(network.connect("a").unwrap().id(), 1);
    assert_eq!(network.connect("b").unwrap().id(), 2);
    assert_eq!(network.listen(1).unwrap().id(), 1);
    network.clear();
    assert_eq!(network.connect("c").unwrap().id(), 1);
    assert_eq!(network.connected_addresses(), vec!["c".to_string()]);
}

#[test]
fn network_close_unknown_refused() {
    let network = MockNetworkBackend::new();
    assert_eq!(network.close_connection(ConnectionHandle(5)).unwrap_err(), "Connection 5 not found");
    assert_eq!(network.close_listener(ListenerHandle(6)).unwrap_err(), "Listener 6 not found");
    let h = network.connect("x").unwrap();
    network.close_connection(h).unwrap();
    assert!(network.close_connection(h).is_err());
}

#[test]
fn network_port_in_use_message_and_reuse_after_close() {
    let network = MockNetworkBackend::new();
    let h = network.listen(8080).unwrap();
    assert_eq!(network.listen(8080).unwrap_err(), "Port 8080 is already in use");
    network.close_listener(h).unwrap();
    assert!(network.listen(8080).is_ok());
}

#[test]
fn network_errors_change_nothing_and_persist_through_clear() {
    let mut state = NetworkState::new();
    state.set_connect_error(Some("down".to_string()));
    assert_eq!(state.connect("a").unwrap_err(), "down");
    assert_eq!(state.connection_count(), 0);
    state.clear();
    assert_eq!(state.connect("a").unwrap_err(), "down");
    state.set_connect_error(None);
    assert_eq!(state.connect("a").unwrap().id(), 1);
}

#[test]
fn network_host_errors_carry_prefix() {
    let caps = create_network_caps();
    let network = MockNetworkBackend::new();
    network.listen(7).unwrap();
    let r = host_network_listen(&caps, &network, 7);
    assert_eq!(r.error.unwrap(), "Network listen error: Port 7 is already in use");
    let r = host_network_connect(&caps, &network, &"y".repeat(MAX_ADDRESS_SIZE));
    assert!(r.success);
    network.set_broadcast_error(Some("x".to_string()));
    let r = host_network_broadcast(&caps, &network, b"m");
    assert_eq!(r.error.unwrap(), "Network broadcast error: x");
    let r = host_network_broadcast(&caps, &network, &vec![1u8; MAX_MESSAGE_SIZE + 1]);
    assert_eq!(r.error.unwrap(), "Message size exceeds maximum of 65536 bytes");
}

#[test]
fn network_connect_counts_bytes_not_characters() {
    let caps = create_network_caps();
    let network = MockNetworkBackend::new();
    let address = "é".repeat(129);
    assert_eq!(address.len(), 258);
    let r = host_network_connect(&caps, &network, &address);
    assert_eq!(r.error.unwrap(), "Address size exceeds maximum of 256 bytes");
}
