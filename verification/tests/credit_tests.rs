//! The credit ledger and the credit host functions.

use std::time::{SystemTime, UNIX_EPOCH};
use vudo_vm::capability::{CapabilityGrant, CapabilityScope, CapabilitySet, CapabilityType};
use vudo_vm::host::credit::{
    host_credit_available, host_credit_balance, host_credit_consume, host_credit_release,
    host_credit_reserve, host_credit_transfer, CreditBackend, InMemoryCreditLedger, LedgerState,
    PublicKey, MAX_RESERVE_AMOUNT, MAX_TRANSFER_AMOUNT,
};

fn alice_key() -> PublicKey {
    let mut key = [0u8; 32];
    key[0] = 0xAA;
    key
}

fn bob_key() -> PublicKey {
    let mut key = [0u8; 32];
    key[0] = 0xBB;
    key
}

fn charlie_key() -> PublicKey {
    let mut key = [0u8; 32];
    key[0] = 0xCC;
    key
}

fn now() -> u64 {
    SystemTime::now().duration_since(UNIX_EPOCH).expect("Time went backwards").as_secs()
}

fn caps_with(cap: CapabilityType) -> CapabilitySet {
    let mut cap_set = CapabilitySet::new();
    cap_set.add_grant(CapabilityGrant::new(1, cap, CapabilityScope::Global, [0u8; 32], [1u8; 32], now(), None, [0u8; 64]));
    cap_set
}

fn create_credit_caps() -> CapabilitySet {
    caps_with(CapabilityType::ActuatorCredit)
}

fn create_unrestricted_capset() -> CapabilitySet {
    caps_with(CapabilityType::Unrestricted)
}

fn le_u64(bytes: Vec<u8>) -> u64 {
    u64::from_le_bytes(bytes.try_into().unwrap())
}

// ─── the in-memory ledger ─────────────────────────────────────────────────

#[test]
fn test_ledger_initial_balance() {
    let ledger = InMemoryCreditLedger::new();
    let balance = ledger.balance(&alice_key()).unwrap();
    assert_eq!(balance, 0);
}

#[test]
fn test_ledger_credit_account() {
    let ledger = InMemoryCreditLedger::new();
    ledger.credit(&alice_key(), 1000).unwrap();
    assert_eq!(ledger.balance(&alice_key()).unwrap(), 1000);
}

#[test]
fn test_ledger_with_initial_balances() {
    let ledger = InMemoryCreditLedger::with_balances(vec![(alice_key(), 1000), (bob_key(), 500)]);
    assert_eq!(ledger.balance(&alice_key()).unwrap(), 1000);
    assert_eq!(ledger.balance(&bob_key()).unwrap(), 500);
    assert_eq!(ledger.balance(&charlie_key()).unwrap(), 0);
}

#[test]
fn test_ledger_transfer_success() {
    let ledger = InMemoryCreditLedger::with_balances(vec![(alice_key(), 1000)]);
    ledger.transfer(&alice_key(), &bob_key(), 300).unwrap();
    assert_eq!(ledger.balance(&alice_key()).unwrap(), 700);
    assert_eq!(ledger.balance(&bob_key()).unwrap(), 300);
}

#[test]
fn test_ledger_transfer_insufficient_funds() {
    let ledger = InMemoryCreditLedger::with_balances(vec![(alice_key(), 100)]);
    let result = ledger.transfer(&alice_key(), &bob_key(), 200);
    assert!(result.is_err());
    assert!(result.unwrap_err().contains("Insufficient"));
}

#[test]
fn test_ledger_transfer_zero_amount() {
    let ledger = InMemoryCreditLedger::with_balances(vec![(alice_key(), 1000)]);
    let result = ledger.transfer(&alice_key(), &bob_key(), 0);
    assert!(result.is_err());
    assert!(result.unwrap_err().contains("greater than zero"));
}

#[test]
fn test_ledger_reserve_success() {
    let ledger = InMemoryCreditLedger::with_balances(vec![(alice_key(), 1000)]);
    let reservation_id = ledger.reserve(&alice_key(), 300).unwrap();
    assert!(reservation_id > 0);
    assert_eq!(ledger.balance(&alice_key()).unwrap(), 1000);
    assert_eq!(ledger.reserved_balance(&alice_key()).unwrap(), 300);
    assert_eq!(ledger.available_balance(&alice_key()).unwrap(), 700);
}

#[test]
fn test_ledger_reserve_insufficient_available() {
    let ledger = InMemoryCreditLedger::with_balances(vec![(alice_key(), 1000)]);
    ledger.reserve(&alice_key(), 800).unwrap();
    let result = ledger.reserve(&alice_key(), 300);
    assert!(result.is_err());
    assert!(result.unwrap_err().contains("Insufficient"));
}

#[test]
fn test_ledger_release_reservation() {
    let ledger = InMemoryCreditLedger::with_balances(vec![(alice_key(), 1000)]);
    let reservation_id = ledger.reserve(&alice_key(), 300).unwrap();
    assert_eq!(ledger.available_balance(&alice_key()).unwrap(), 700);
    ledger.release_reservation(reservation_id).unwrap();
    assert_eq!(ledger.available_balance(&alice_key()).unwrap(), 1000);
    assert_eq!(ledger.reserved_balance(&alice_key()).unwrap(), 0);
}

#[test]
fn test_ledger_consume_reservation() {
    let ledger = InMemoryCreditLedger::with_balances(vec![(alice_key(), 1000)]);
    let reservation_id = ledger.reserve(&alice_key(), 300).unwrap();
    assert_eq!(ledger.balance(&alice_key()).unwrap(), 1000);
    ledger.consume_reservation(reservation_id).unwrap();
    assert_eq!(ledger.balance(&alice_key()).unwrap(), 700);
    assert_eq!(ledger.reserved_balance(&alice_key()).unwrap(), 0);
    assert_eq!(ledger.available_balance(&alice_key()).unwrap(), 700);
}

#[test]
fn test_ledger_double_release_fails() {
    let ledger = InMemoryCreditLedger::with_balances(vec![(alice_key(), 1000)]);
    let reservation_id = ledger.reserve(&alice_key(), 300).unwrap();
    ledger.release_reservation(reservation_id).unwrap();
    let result = ledger.release_reservation(reservation_id);
    assert!(result.is_err());
    assert!(result.unwrap_err().contains("already released"));
}

#[test]
fn test_ledger_transfer_with_reservation() {
    let ledger = InMemoryCreditLedger::with_balances(vec![(alice_key(), 1000)]);
    ledger.reserve(&alice_key(), 600).unwrap();
    ledger.transfer(&alice_key(), &bob_key(), 400).unwrap();
    let result = ledger.transfer(&alice_key(), &bob_key(), 100);
    assert!(result.is_err());
}

#[test]
fn test_ledger_multiple_reservations() {
    let ledger = InMemoryCreditLedger::with_balances(vec![(alice_key(), 1000)]);

    let res1 = ledger.reserve(&alice_key(), 200).unwrap();
    let res2 = ledger.reserve(&alice_key(), 300).unwrap();
    let res3 = ledger.reserve(&alice_key(), 100).unwrap();

    assert_eq!(ledger.reserved_balance(&alice_key()).unwrap(), 600);
    assert_eq!(ledger.available_balance(&alice_key()).unwrap(), 400);

    ledger.release_reservation(res2).unwrap();
    assert_eq!(ledger.reserved_balance(&alice_key()).unwrap(), 300);
    assert_eq!(ledger.available_balance(&alice_key()).unwrap(), 700);

    ledger.consume_reservation(res1).unwrap();
    assert_eq!(ledger.balance(&alice_key()).unwrap(), 800);
    assert_eq!(ledger.reserved_balance(&alice_key()).unwrap(), 100);
    assert_eq!(ledger.available_balance(&alice_key()).unwrap(), 700);

    ledger.release_reservation(res3).unwrap();
    assert_eq!(ledger.balance(&alice_key()).unwrap(), 800);
    assert_eq!(ledger.available_balance(&alice_key()).unwrap(), 800);
}

#[test]
fn test_ledger_clone_shares_state() {
    let ledger = InMemoryCreditLedger::with_balances(vec![(alice_key(), 1000)]);
    let ledger_clone = ledger.clone();
    ledger.transfer(&alice_key(), &bob_key(), 300).unwrap();
    assert_eq!(ledger_clone.balance(&alice_key()).unwrap(), 700);
    assert_eq!(ledger_clone.balance(&bob_key()).unwrap(), 300);
}

// ─── the credit host functions ────────────────────────────────────────────

#[test]
fn test_host_credit_balance_with_capability() {
    let caps = create_credit_caps();
    let ledger = InMemoryCreditLedger::with_balances(vec![(alice_key(), 1000)]);
    let result = host_credit_balance(&caps, &ledger, &alice_key());
    assert!(result.success);
    assert!(result.error.is_none());
    let bytes = result.return_value.unwrap();
    assert_eq!(bytes.len(), 8);
    assert_eq!(le_u64(bytes), 1000);
}

#[test]
fn test_host_credit_balance_without_capability() {
    let caps = CapabilitySet::new();
    let ledger = InMemoryCreditLedger::new();
    let result = host_credit_balance(&caps, &ledger, &alice_key());
    assert!(!result.success);
    assert!(result.error.unwrap().contains("Capability denied"));
}

#[test]
fn test_host_credit_transfer_success() {
    let caps = create_credit_caps();
    let ledger = InMemoryCreditLedger::with_balances(vec![(alice_key(), 1000)]);
    let result = host_credit_transfer(&caps, &ledger, &alice_key(), &bob_key(), 400);
    assert!(result.success);
    assert!(result.error.is_none());
    assert_eq!(ledger.balance(&alice_key()).unwrap(), 600);
    assert_eq!(ledger.balance(&bob_key()).unwrap(), 400);
}

#[test]
fn test_host_credit_transfer_without_capability() {
    let caps = CapabilitySet::new();
    let ledger = InMemoryCreditLedger::new();
    let result = host_credit_transfer(&caps, &ledger, &alice_key(), &bob_key(), 100);
    assert!(!result.success);
    assert!(result.error.unwrap().contains("Capability denied"));
}

#[test]
fn test_host_credit_transfer_zero_amount() {
    let caps = create_credit_caps();
    let ledger = InMemoryCreditLedger::with_balances(vec![(alice_key(), 1000)]);
    let result = host_credit_transfer(&caps, &ledger, &alice_key(), &bob_key(), 0);
    assert!(!result.success);
    assert!(result.error.unwrap().contains("greater than zero"));
}

#[test]
fn test_host_credit_transfer_same_account() {
    let caps = create_credit_caps();
    let ledger = InMemoryCreditLedger::with_balances(vec![(alice_key(), 1000)]);
    let result = host_credit_transfer(&caps, &ledger, &alice_key(), &alice_key(), 100);
    assert!(!result.success);
    assert!(result.error.unwrap().contains("same account"));
}

#[test]
fn test_host_credit_transfer_exceeds_max() {
    let caps = create_credit_caps();
    let ledger = InMemoryCreditLedger::new();
    let result = host_credit_transfer(&caps, &ledger, &alice_key(), &bob_key(), MAX_TRANSFER_AMOUNT + 1);
    assert!(!result.success);
    assert!(result.error.unwrap().contains("exceeds maximum"));
}

#[test]
fn test_host_credit_reserve_success() {
    let caps = create_credit_caps();
    let ledger = InMemoryCreditLedger::with_balances(vec![(alice_key(), 1000)]);
    let result = host_credit_reserve(&caps, &ledger, &alice_key(), 300);
    assert!(result.success);
    let bytes = result.return_value.unwrap();
    assert_eq!(bytes.len(), 8);
    let reservation_id = le_u64(bytes);
    assert!(reservation_id > 0);
    assert_eq!(ledger.reserved_balance(&alice_key()).unwrap(), 300);
}

#[test]
fn test_host_credit_reserve_without_capability() {
    let caps = CapabilitySet::new();
    let ledger = InMemoryCreditLedger::new();
    let result = host_credit_reserve(&caps, &ledger, &alice_key(), 100);
    assert!(!result.success);
    assert!(result.error.unwrap().contains("Capability denied"));
}

#[test]
fn test_host_credit_reserve_zero_amount() {
    let caps = create_credit_caps();
    let ledger = InMemoryCreditLedger::with_balances(vec![(alice_key(), 1000)]);
    let result = host_credit_reserve(&caps, &ledger, &alice_key(), 0);
    assert!(!result.success);
    assert!(result.error.unwrap().contains("greater than zero"));
}

#[test]
fn test_host_credit_reserve_exceeds_max() {
    let caps = create_credit_caps();
    let ledger = InMemoryCreditLedger::new();
    let result = host_credit_reserve(&caps, &ledger, &alice_key(), MAX_RESERVE_AMOUNT + 1);
    assert!(!result.success);
    assert!(result.error.unwrap().contains("exceeds maximum"));
}

#[test]
fn test_host_credit_release_success() {
    let caps = create_credit_caps();
    let ledger = InMemoryCreditLedger::with_balances(vec![(alice_key(), 1000)]);
    let reserve_result = host_credit_reserve(&caps, &ledger, &alice_key(), 300);
    let reservation_id = le_u64(reserve_result.return_value.unwrap());
    let result = host_credit_release(&caps, &ledger, reservation_id);
    assert!(result.success);
    assert_eq!(ledger.available_balance(&alice_key()).unwrap(), 1000);
}

#[test]
fn test_host_credit_consume_success() {
    let caps = create_credit_caps();
    let ledger = InMemoryCreditLedger::with_balances(vec![(alice_key(), 1000)]);
    let reserve_result = host_credit_reserve(&caps, &ledger, &alice_key(), 300);
    let reservation_id = le_u64(reserve_result.return_value.unwrap());
    let result = host_credit_consume(&caps, &ledger, reservation_id);
    assert!(result.success);
    assert_eq!(ledger.balance(&alice_key()).unwrap(), 700);
}

#[test]
fn test_host_credit_available_success() {
    let caps = create_credit_caps();
    let ledger = InMemoryCreditLedger::with_balances(vec![(alice_key(), 1000)]);
    ledger.reserve(&alice_key(), 400).unwrap();
    let result = host_credit_available(&caps, &ledger, &alice_key());
    assert!(result.success);
    assert_eq!(le_u64(result.return_value.unwrap()), 600);
}

#[test]
fn test_host_credit_with_unrestricted() {
    let caps = create_unrestricted_capset();
    let ledger = InMemoryCreditLedger::with_balances(vec![(alice_key(), 1000)]);

    assert!(host_credit_balance(&caps, &ledger, &alice_key()).success);
    assert!(host_credit_transfer(&caps, &ledger, &alice_key(), &bob_key(), 100).success);

    let reserve_result = host_credit_reserve(&caps, &ledger, &alice_key(), 100);
    assert!(reserve_result.success);
    let reservation_id = le_u64(reserve_result.return_value.unwrap());

    assert!(host_credit_release(&caps, &ledger, reservation_id).success);
    assert!(host_credit_available(&caps, &ledger, &alice_key()).success);
}

#[test]
fn test_full_credit_workflow() {
    let caps = create_credit_caps();
    let ledger = InMemoryCreditLedger::new();

    ledger.credit(&alice_key(), 10000).unwrap();

    let result = host_credit_balance(&caps, &ledger, &alice_key());
    assert_eq!(le_u64(result.return_value.unwrap()), 10000);

    let result = host_credit_transfer(&caps, &ledger, &alice_key(), &bob_key(), 3000);
    assert!(result.success);

    let result = host_credit_reserve(&caps, &ledger, &alice_key(), 2000);
    assert!(result.success);
    let reservation_id = le_u64(result.return_value.unwrap());

    let result = host_credit_available(&caps, &ledger, &alice_key());
    assert_eq!(le_u64(result.return_value.unwrap()), 5000);

    let result = host_credit_consume(&caps, &ledger, reservation_id);
    assert!(result.success);

    let result = host_credit_balance(&caps, &ledger, &alice_key());
    assert_eq!(le_u64(result.return_value.unwrap()), 5000);

    let result = host_credit_balance(&caps, &ledger, &bob_key());
    assert_eq!(le_u64(result.return_value.unwrap()), 3000);
}

// ─── further cases ────────────────────────────────────────────────────────

#[test]
fn ledger_state_failure_messages() {
    let mut l = LedgerState::with_balances(vec![(alice_key(), 100)]);
    assert_eq!(l.transfer(&alice_key(), &bob_key(), 200).unwrap_err(),
        "Insufficient available credits: have 100, need 200, reserved 0");
    assert_eq!(l.reserve(&alice_key(), 150).unwrap_err(),
        "Insufficient available credits for reservation: have 100, need 150");
    assert_eq!(l.release_reservation(9).unwrap_err(), "Reservation 9 not found");
    let id = l.reserve(&alice_key(), 60).unwrap();
    l.consume_reservation(id).unwrap();
    assert_eq!(l.consume_reservation(id).unwrap_err(),
        format!("Reservation {} already released or consumed", id));
    assert_eq!(l.release_reservation(id).unwrap_err(),
        format!("Reservation {} already released or consumed", id));
    assert_eq!(l.reserve(&alice_key(), 0).unwrap_err(), "Reserve amount must be greater than zero");
}

#[test]
fn ledger_refusals_change_nothing() {
    let mut l = LedgerState::with_balances(vec![(alice_key(), 100), (bob_key(), 5)]);
    let _ = l.reserve(&alice_key(), 40).unwrap();
    assert!(l.transfer(&alice_key(), &bob_key(), 61).is_err());
    assert_eq!(l.balance(&alice_key()), 100);
    assert_eq!(l.balance(&bob_key()), 5);
    assert_eq!(l.reserved_balance(&alice_key()), 40);
    assert!(l.reserve(&alice_key(), 61).is_err());
    assert_eq!(l.available_balance(&alice_key()), 60);
}

#[test]
fn ledger_credit_overflow_refused() {
    let mut l = LedgerState::with_balances(vec![(alice_key(), u64::MAX - 1)]);
    assert_eq!(l.credit(&alice_key(), 2).unwrap_err(), "Credit overflow");
    assert_eq!(l.balance(&alice_key()), u64::MAX - 1);
    l.credit(&alice_key(), 1).unwrap();
    assert_eq!(l.balance(&alice_key()), u64::MAX);
}

#[test]
fn ledger_later_initial_balance_counts() {
    let l = LedgerState::with_balances(vec![(alice_key(), 1), (alice_key(), 7)]);
    assert_eq!(l.balance(&alice_key()), 7);
}

#[test]
fn ledger_reservation_ids_start_at_one() {
    let ledger = InMemoryCreditLedger::with_balances(vec![(alice_key(), 1000)]);
    assert_eq!(ledger.reserve(&alice_key(), 1).unwrap(), 1);
    assert_eq!(ledger.reserve(&alice_key(), 1).unwrap(), 2);
}

#[test]
fn host_credit_errors_carry_prefix() {
    let caps = create_credit_caps();
    let ledger = InMemoryCreditLedger::with_balances(vec![(alice_key(), 10)]);
    let r = host_credit_transfer(&caps, &ledger, &alice_key(), &bob_key(), 11);
    assert_eq!(r.error.unwrap(), "Credit transfer error: Insufficient available credits: have 10, need 11, reserved 0");
    let r = host_credit_release(&caps, &ledger, 3);
    assert_eq!(r.error.unwrap(), "Credit release error: Reservation 3 not found");
    let r = host_credit_consume(&caps, &ledger, 3);
    assert_eq!(r.error.unwrap(), "Credit consume error: Reservation 3 not found");
    let r = host_credit_reserve(&caps, &ledger, &alice_key(), 11);
    assert_eq!(r.error.unwrap(), "Credit reserve error: Insufficient available credits for reservation: have 10, need 11");
}

#[test]
fn host_credit_denied_message() {
    let ledger = InMemoryCreditLedger::new();
    let r = host_credit_balance(&CapabilitySet::new(), &ledger, &alice_key());
    assert_eq!(r, vudo_vm::host::HostCallResult::error("Capability denied: ActuatorCredit"));
}

#[test]
fn host_credit_balance_encodes_little_endian() {
    let caps = create_credit_caps();
    let ledger = InMemoryCreditLedger::with_balances(vec![(alice_key(), 0x0102030405060708)]);
    let r = host_credit_balance(&caps, &ledger, &alice_key());
    assert_eq!(r.return_value.unwrap(), vec![8, 7, 6, 5, 4, 3, 2, 1]);
}

#[test]
fn ledger_invariant_after_operations() {
    let mut l = LedgerState::with_balances(vec![([9u8; 32], 50)]);
    l.reveal_invariant();
    let id = l.reserve(&[9u8; 32], 50).unwrap();
    l.reveal_invariant();
    assert_eq!(l.get_reserved_for_account(&[9u8; 32]), 50);
    assert!(l.transfer(&[9u8; 32], &[8u8; 32], 1).is_err());
    l.release_reservation(id).unwrap();
    assert_eq!(l.available_balance(&[9u8; 32]), 50);
}

#[test]
fn ledger_transfer_receiver_overflow_keeps_sender() {
    let mut l = LedgerState::with_balances(vec![(alice_key(), 10), (bob_key(), u64::MAX - 3)]);
    assert_eq!(l.transfer(&alice_key(), &bob_key(), 5).unwrap_err(), "Credit overflow");
    assert_eq!(l.balance(&alice_key()), 10);
    assert_eq!(l.balance(&bob_key()), u64::MAX - 3);
    l.transfer(&alice_key(), &bob_key(), 3).unwrap();
    assert_eq!(l.balance(&alice_key()), 7);
    assert_eq!(l.balance(&bob_key()), u64::MAX);
    l.transfer(&alice_key(), &alice_key(), 7).unwrap();
    assert_eq!(l.balance(&alice_key()), 7);
}
