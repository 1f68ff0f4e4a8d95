//! Credits: the accounting unit of resource use, tied to Ed25519 public keys.
//!
//! `LedgerState` is the ledger itself: balances, and reservations that hold
//! credits in escrow until they are released or consumed. Every account keeps
//! at least as many credits as it has reserved. `InMemoryCreditLedger` shares
//! one `LedgerState` between clones of a handle, behind a lock.

use vstd::prelude::*;
use vstd::string::*;
use std::sync::{Arc, RwLock};
use crate::text::{decimal, text_with_number, join2};
use crate::shared::{Guarded, lock_new, lock_apply, lock_query, lock_failed};
use crate::bytes::{le_bytes, u64_to_le_vec};
use crate::capability::{CapabilitySet, CapabilityType, CapabilityScope, CapabilityGrant};
use crate::host::{HostCallResult, check_capability, gated, failed_with,
    succeeded_empty, succeeded_with};

verus! {

/// Size of an Ed25519 public key in bytes.
pub const PUBLIC_KEY_SIZE: usize = 32;

/// Largest amount of credits one transfer may move.
pub const MAX_TRANSFER_AMOUNT: u64 = 1_000_000_000_000;

/// Largest amount of credits one reservation may hold.
pub const MAX_RESERVE_AMOUNT: u64 = 100_000_000_000;

/// An Ed25519 public key, naming an account.
pub type PublicKey = [u8; 32];

/// A credit ledger, as the host functions use it. Implementations provide
/// the accounting (in memory, in a database, on a chain, ...), and say in
/// the `*_reply` spec functions what each method may answer.
pub trait CreditBackend: Send + Sync {
    /// What a balance query for `account` may answer.
    spec fn balance_reply(&self, account: PublicKey, r: Result<u64, String>) -> bool;

    /// What a transfer of `amount` from `from` to `to` may answer.
    spec fn transfer_reply(&self, from: PublicKey, to: PublicKey, amount: u64, r: Result<(), String>) -> bool;

    /// What a reservation of `amount` credits of `account` may answer.
    spec fn reserve_reply(&self, account: PublicKey, amount: u64, r: Result<u64, String>) -> bool;

    /// What a release of reservation `id` may answer.
    spec fn release_reply(&self, id: u64, r: Result<(), String>) -> bool;

    /// What consuming reservation `id` may answer.
    spec fn consume_reply(&self, id: u64, r: Result<(), String>) -> bool;

    /// What a reserved-balance query for `account` may answer.
    spec fn reserved_reply(&self, account: PublicKey, r: Result<u64, String>) -> bool;

    /// What an available-balance query for `account` may answer.
    spec fn available_reply(&self, account: PublicKey, r: Result<u64, String>) -> bool;

    /// What crediting `amount` to `account` may answer.
    spec fn credit_reply(&self, account: PublicKey, amount: u64, r: Result<(), String>) -> bool;

    /// The balance of `account`.
    fn balance(&self, account: &PublicKey) -> (r: Result<u64, String>)
        ensures
            self.balance_reply(*account, r),
    ;

    /// Moves `amount` credits from `from` to `to`.
    fn transfer(&self, from: &PublicKey, to: &PublicKey, amount: u64) -> (r: Result<(), String>)
        ensures
            self.transfer_reply(*from, *to, amount, r),
    ;

    /// Holds `amount` credits of `account` in escrow; answers the id of the
    /// reservation.
    fn reserve(&self, account: &PublicKey, amount: u64) -> (r: Result<u64, String>)
        ensures
            self.reserve_reply(*account, amount, r),
    ;

    /// Returns a reservation's credits to the available balance.
    fn release_reservation(&self, reservation_id: u64) -> (r: Result<(), String>)
        ensures
            self.release_reply(reservation_id, r),
    ;

    /// Deducts a reservation's credits from the balance for good.
    fn consume_reservation(&self, reservation_id: u64) -> (r: Result<(), String>)
        ensures
            self.consume_reply(reservation_id, r),
    ;

    /// The credits of `account` held in active reservations.
    fn reserved_balance(&self, account: &PublicKey) -> (r: Result<u64, String>)
        ensures
            self.reserved_reply(*account, r),
    ;

    /// The balance of `account` less what it has reserved.
    fn available_balance(&self, account: &PublicKey) -> (r: Result<u64, String>)
        ensures
            self.available_reply(*account, r),
    ;

    /// Adds `amount` credits to `account` (funding).
    fn credit(&self, account: &PublicKey, amount: u64) -> (r: Result<(), String>)
        ensures
            self.credit_reply(*account, amount, r),
    ;
}

/// A reservation: credits of `account` held in escrow while `active`.
#[derive(Debug, Clone, Copy)]
pub struct Reservation {
    pub account: PublicKey,
    pub amount: u64,
    pub active: bool,
}

/// The ledger as contracts see it: a balance per account (absent means 0)
/// and the reservations in the order they were made; reservation `id` is the
/// one at position `id - 1`.
pub struct LedgerModel {
    pub balances: Map<Seq<u8>, u64>,
    pub reservations: Seq<Reservation>,
}

/// The balance of account `k`.
pub open spec fn balance_of(m: LedgerModel, k: Seq<u8>) -> u64 {
    if m.balances.dom().contains(k) { m.balances[k] } else { 0 }
}

/// What reservation `r` holds of account `k`.
pub open spec fn held_for(r: Reservation, k: Seq<u8>) -> nat {
    if r.active && r.account@ == k { r.amount as nat } else { 0 }
}

/// What the reservations `rs` hold of account `k`.
pub open spec fn reserved_in(rs: Seq<Reservation>, k: Seq<u8>) -> nat
    decreases rs.len(),
{
    if rs.len() == 0 { 0 } else { reserved_in(rs.drop_last(), k) + held_for(rs.last(), k) }
}

/// What the active reservations hold of account `k`.
pub open spec fn reserved_of(m: LedgerModel, k: Seq<u8>) -> nat {
    reserved_in(m.reservations, k)
}

/// The balance of `k` less what it has reserved (0 if that is negative).
pub open spec fn available_of(m: LedgerModel, k: Seq<u8>) -> u64 {
    if reserved_of(m, k) >= balance_of(m, k) { 0 } else { (balance_of(m, k) - reserved_of(m, k)) as u64 }
}

/// The ledger's invariant: no account has reserved more than its balance,
/// and reservation ids stay below `u64::MAX`.
pub open spec fn ledger_wf(m: LedgerModel) -> bool {
    &&& forall|k: Seq<u8>| #[trigger] reserved_of(m, k) <= balance_of(m, k)
    &&& m.reservations.len() < u64::MAX
}

/// `m` with the balance of `k` set to `v`.
pub open spec fn with_balance(m: LedgerModel, k: Seq<u8>, v: u64) -> LedgerModel {
    LedgerModel { balances: m.balances.insert(k, v), reservations: m.reservations }
}

/// The empty ledger.
pub open spec fn empty_ledger() -> LedgerModel {
    LedgerModel { balances: Map::empty(), reservations: Seq::empty() }
}

/// The empty ledger is well formed.
pub proof fn lemma_empty_ledger_wf()
    ensures
        ledger_wf(empty_ledger()),
{
    let m = empty_ledger();
    assert forall|k: Seq<u8>| #[trigger] reserved_of(m, k) <= balance_of(m, k) by {}
}

/// Why a ledger operation failed.
#[derive(Debug, Clone, Copy, PartialEq, Eq, Structural)]
pub enum LedgerFailure {
    ZeroTransfer,
    InsufficientForTransfer { available: u64, amount: u64, reserved: u64 },
    CreditOverflow,
    ZeroReserve,
    InsufficientForReserve { available: u64, amount: u64 },
    ReservationIdOverflow,
    ReservationClosed { id: u64 },
    ReservationNotFound { id: u64 },
}

/// The message of a failure.
pub open spec fn failure_text(f: LedgerFailure) -> Seq<char> {
    match f {
        LedgerFailure::ZeroTransfer => "Transfer amount must be greater than zero"@,
        LedgerFailure::InsufficientForTransfer { available, amount, reserved } =>
            "Insufficient available credits: have "@ + decimal(available as nat) + ", need "@
                + decimal(amount as nat) + ", reserved "@ + decimal(reserved as nat),
        LedgerFailure::CreditOverflow => "Credit overflow"@,
        LedgerFailure::ZeroReserve => "Reserve amount must be greater than zero"@,
        LedgerFailure::InsufficientForReserve { available, amount } =>
            "Insufficient available credits for reservation: have "@ + decimal(available as nat)
                + ", need "@ + decimal(amount as nat),
        LedgerFailure::ReservationIdOverflow => "Reservation ID overflow"@,
        LedgerFailure::ReservationClosed { id } =>
            "Reservation "@ + decimal(id as nat) + " already released or consumed"@,
        LedgerFailure::ReservationNotFound { id } =>
            "Reservation "@ + decimal(id as nat) + " not found"@,
    }
}

impl LedgerFailure {
    /// The message of this failure.
    pub fn message(&self) -> (s: String)
        ensures
            s@ == failure_text(*self),
    {
        match self {
            LedgerFailure::ZeroTransfer => String::from_str("Transfer amount must be greater than zero"),
            LedgerFailure::InsufficientForTransfer { available, amount, reserved } => {
                let mut s = text_with_number("Insufficient available credits: have ", *available);
                let a = text_with_number(", need ", *amount);
                let r = text_with_number(", reserved ", *reserved);
                s.append(a.as_str());
                s.append(r.as_str());
                s
            },
            LedgerFailure::CreditOverflow => String::from_str("Credit overflow"),
            LedgerFailure::ZeroReserve => String::from_str("Reserve amount must be greater than zero"),
            LedgerFailure::InsufficientForReserve { available, amount } => {
                let mut s = text_with_number("Insufficient available credits for reservation: have ", *available);
                let a = text_with_number(", need ", *amount);
                s.append(a.as_str());
                s
            },
            LedgerFailure::ReservationIdOverflow => String::from_str("Reservation ID overflow"),
            LedgerFailure::ReservationClosed { id } => {
                let mut s = text_with_number("Reservation ", *id);
                s.append(" already released or consumed");
                s
            },
            LedgerFailure::ReservationNotFound { id } => {
                let mut s = text_with_number("Reservation ", *id);
                s.append(" not found");
                s
            },
        }
    }
}

/// Whether the answer `r` is the one `expected` describes: the same value,
/// or an error carrying the failure's message.
pub open spec fn reply_matches<T>(r: Result<T, String>, expected: Result<T, LedgerFailure>) -> bool {
    match expected {
        Ok(v) => r matches Ok(x) && x == v,
        Err(f) => r matches Err(e) && e@ == failure_text(f),
    }
}

/// `transfer`: refuses zero and more than the sender's available balance,
/// and refuses with "Credit overflow" where the receiver's balance, once
/// the sender is debited, would pass `u64::MAX`; every refusal leaves the
/// ledger as it was, so no credits are lost. Otherwise deducts from the
/// sender and credits the receiver.
pub open spec fn transfer_step(m: LedgerModel, from: PublicKey, to: PublicKey, amount: u64)
    -> (LedgerModel, Result<(), LedgerFailure>)
{
    if amount == 0 {
        (m, Err(LedgerFailure::ZeroTransfer))
    } else if available_of(m, from@) < amount {
        (m, Err(LedgerFailure::InsufficientForTransfer {
            available: available_of(m, from@), amount, reserved: reserved_of(m, from@) as u64 }))
    } else {
        let m1 = with_balance(m, from@, (balance_of(m, from@) - amount) as u64);
        if balance_of(m1, to@) + amount > u64::MAX {
            (m, Err(LedgerFailure::CreditOverflow))
        } else {
            (with_balance(m1, to@, (balance_of(m1, to@) + amount) as u64), Ok(()))
        }
    }
}

/// `reserve`: refuses zero and more than the available balance; otherwise
/// records an active reservation with the next id (one more than the number
/// of reservations so far), failing where that id would be `u64::MAX`.
pub open spec fn reserve_step(m: LedgerModel, account: PublicKey, amount: u64)
    -> (LedgerModel, Result<u64, LedgerFailure>)
{
    if amount == 0 {
        (m, Err(LedgerFailure::ZeroReserve))
    } else if available_of(m, account@) < amount {
        (m, Err(LedgerFailure::InsufficientForReserve { available: available_of(m, account@), amount }))
    } else if m.reservations.len() + 1 >= u64::MAX {
        (m, Err(LedgerFailure::ReservationIdOverflow))
    } else {
        (LedgerModel {
            balances: m.balances,
            reservations: m.reservations.push(Reservation { account, amount, active: true }),
        }, Ok((m.reservations.len() + 1) as u64))
    }
}

/// Whether `id` names a reservation of `m`.
pub open spec fn reservation_exists(m: LedgerModel, id: u64) -> bool {
    1 <= id && id <= m.reservations.len()
}

/// The reservation named `id`.
pub open spec fn reservation(m: LedgerModel, id: u64) -> Reservation {
    m.reservations[id - 1]
}

/// `m` with reservation `id` closed.
pub open spec fn close_reservation(m: LedgerModel, id: u64) -> LedgerModel {
    LedgerModel {
        balances: m.balances,
        reservations: m.reservations.update(id - 1, Reservation { active: false, ..reservation(m, id) }),
    }
}

/// `release_reservation`: closes an active reservation; its credits are
/// available again.
pub open spec fn release_step(m: LedgerModel, id: u64) -> (LedgerModel, Result<(), LedgerFailure>) {
    if !reservation_exists(m, id) {
        (m, Err(LedgerFailure::ReservationNotFound { id }))
    } else if !reservation(m, id).active {
        (m, Err(LedgerFailure::ReservationClosed { id }))
    } else {
        (close_reservation(m, id), Ok(()))
    }
}

/// `consume_reservation`: closes an active reservation and deducts its
/// credits from the account's balance (saturating at 0).
pub open spec fn consume_step(m: LedgerModel, id: u64) -> (LedgerModel, Result<(), LedgerFailure>) {
    if !reservation_exists(m, id) {
        (m, Err(LedgerFailure::ReservationNotFound { id }))
    } else if !reservation(m, id).active {
        (m, Err(LedgerFailure::ReservationClosed { id }))
    } else {
        let r = reservation(m, id);
        let m1 = close_reservation(m, id);
        let b = balance_of(m1, r.account@);
        (with_balance(m1, r.account@, if b >= r.amount { (b - r.amount) as u64 } else { 0 }), Ok(()))
    }
}

/// `credit`: adds `amount` to the balance of `account`, failing with
/// "Credit overflow" where it would overflow.
pub open spec fn credit_step(m: LedgerModel, account: PublicKey, amount: u64)
    -> (LedgerModel, Result<(), LedgerFailure>)
{
    if balance_of(m, account@) + amount > u64::MAX {
        (m, Err(LedgerFailure::CreditOverflow))
    } else {
        (with_balance(m, account@, (balance_of(m, account@) + amount) as u64), Ok(()))
    }
}

// ─── lemmas on the representation ─────────────────────────────────────────

/// The balances that a list of (account, balance) entries describes; a later
/// entry for the same account overrides an earlier one.
pub open spec fn entries_map(es: Seq<(PublicKey, u64)>) -> Map<Seq<u8>, u64>
    decreases es.len(),
{
    if es.len() == 0 {
        Map::empty()
    } else {
        entries_map(es.drop_last()).insert(es.last().0@, es.last().1)
    }
}

proof fn lemma_entries_absent(es: Seq<(PublicKey, u64)>, k: Seq<u8>)
    requires
        forall|j: int| 0 <= j < es.len() ==> (#[trigger] es[j]).0@ != k,
    ensures
        !entries_map(es).dom().contains(k),
    decreases es.len(),
{
    if es.len() > 0 {
        assert forall|j: int| 0 <= j < es.drop_last().len() implies (#[trigger] es.drop_last()[j]).0@ != k by {
            assert(es.drop_last()[j] == es[j]);
        }
        lemma_entries_absent(es.drop_last(), k);
        assert(es.last() == es[es.len() - 1]);
    }
}

proof fn lemma_entries_last(es: Seq<(PublicKey, u64)>, k: Seq<u8>, i: int)
    requires
        0 <= i < es.len(),
        es[i].0@ == k,
        forall|j: int| i < j < es.len() ==> (#[trigger] es[j]).0@ != k,
    ensures
        entries_map(es).dom().contains(k),
        entries_map(es)[k] == es[i].1,
    decreases es.len(),
{
    if i < es.len() - 1 {
        assert forall|j: int| i < j < es.drop_last().len() implies (#[trigger] es.drop_last()[j]).0@ != k by {
            assert(es.drop_last()[j] == es[j]);
        }
        assert(es.drop_last()[i] == es[i]);
        lemma_entries_last(es.drop_last(), k, i);
        assert(es.last() == es[es.len() - 1]);
    }
}

proof fn lemma_entries_update(es: Seq<(PublicKey, u64)>, i: int, e: (PublicKey, u64))
    requires
        0 <= i < es.len(),
        e.0@ == es[i].0@,
        forall|j: int| i < j < es.len() ==> (#[trigger] es[j]).0@ != es[i].0@,
    ensures
        entries_map(es.update(i, e)) == entries_map(es).insert(e.0@, e.1),
    decreases es.len(),
{
    let es2 = es.update(i, e);
    if i == es.len() - 1 {
        assert(es2.drop_last() =~= es.drop_last());
        assert(entries_map(es2) =~= entries_map(es).insert(e.0@, e.1));
    } else {
        assert(es2.drop_last() =~= es.drop_last().update(i, e));
        assert forall|j: int| i < j < es.drop_last().len() implies (#[trigger] es.drop_last()[j]).0@ != es.drop_last()[i].0@ by {
            assert(es.drop_last()[j] == es[j]);
        }
        lemma_entries_update(es.drop_last(), i, e);
        assert(es.last() == es[es.len() - 1]);
        assert(es2.last() == es.last());
        assert(entries_map(es2) =~= entries_map(es).insert(e.0@, e.1));
    }
}

proof fn lemma_reserved_push(rs: Seq<Reservation>, r: Reservation, k: Seq<u8>)
    ensures
        reserved_in(rs.push(r), k) == reserved_in(rs, k) + held_for(r, k),
{
    assert(rs.push(r).drop_last() =~= rs);
}

proof fn lemma_reserved_close(rs: Seq<Reservation>, i: int, k: Seq<u8>)
    requires
        0 <= i < rs.len(),
    ensures
        reserved_in(rs.update(i, Reservation { active: false, ..rs[i] }), k) + held_for(rs[i], k)
            == reserved_in(rs, k),
    decreases rs.len(),
{
    let c = Reservation { active: false, ..rs[i] };
    let rs2 = rs.update(i, c);
    if i == rs.len() - 1 {
        assert(rs2.drop_last() =~= rs.drop_last());
        assert(rs.last() == rs[i]);
    } else {
        assert(rs2.drop_last() =~= rs.drop_last().update(i, c));
        assert(rs.drop_last()[i] == rs[i]);
        lemma_reserved_close(rs.drop_last(), i, k);
        assert(rs2.last() == rs.last());
    }
}

proof fn lemma_reserved_prefix(rs: Seq<Reservation>, j: int, k: Seq<u8>)
    requires
        0 <= j <= rs.len(),
    ensures
        reserved_in(rs.take(j), k) <= reserved_in(rs, k),
    decreases rs.len(),
{
    if j < rs.len() {
        assert(rs.drop_last().take(j) =~= rs.take(j));
        lemma_reserved_prefix(rs.drop_last(), j, k);
    } else {
        assert(rs.take(j) =~= rs);
    }
}

// ─── laws of the ledger ───────────────────────────────────────────────────

/// In a ledger that keeps its invariant, the available balance and the
/// reserved credits of an account add up to its balance.
pub proof fn law_available_plus_reserved(m: LedgerModel, k: Seq<u8>)
    requires
        ledger_wf(m),
    ensures
        available_of(m, k) + reserved_of(m, k) == balance_of(m, k),
{
    assert(reserved_of(m, k) <= balance_of(m, k));
}

/// Every operation keeps the ledger's invariant: no account ever has more
/// credits reserved than its balance.
pub proof fn law_operations_keep_invariant(m: LedgerModel, a: PublicKey, b: PublicKey, amount: u64, id: u64)
    requires
        ledger_wf(m),
    ensures
        ledger_wf(transfer_step(m, a, b, amount).0),
        ledger_wf(reserve_step(m, a, amount).0),
        ledger_wf(release_step(m, id).0),
        ledger_wf(consume_step(m, id).0),
        ledger_wf(credit_step(m, a, amount).0),
{
    if amount > 0 && available_of(m, a@) >= amount {
        let m1 = with_balance(m, a@, (balance_of(m, a@) - amount) as u64);
        assert forall|k: Seq<u8>| #[trigger] reserved_of(m1, k) <= balance_of(m1, k) by {
            assert(reserved_of(m, k) <= balance_of(m, k));
        }
        if balance_of(m1, b@) + amount <= u64::MAX {
            let m2 = with_balance(m1, b@, (balance_of(m1, b@) + amount) as u64);
            assert forall|k: Seq<u8>| #[trigger] reserved_of(m2, k) <= balance_of(m2, k) by {
                assert(reserved_of(m, k) <= balance_of(m, k));
            }
        }
        if m.reservations.len() + 1 < u64::MAX {
            let r = Reservation { account: a, amount, active: true };
            let m3 = reserve_step(m, a, amount).0;
            assert forall|k: Seq<u8>| #[trigger] reserved_of(m3, k) <= balance_of(m3, k) by {
                lemma_reserved_push(m.reservations, r, k);
                assert(reserved_of(m, k) <= balance_of(m, k));
            }
        }
    }
    if reservation_exists(m, id) && reservation(m, id).active {
        let m1 = close_reservation(m, id);
        assert forall|k: Seq<u8>| #[trigger] reserved_of(m1, k) <= balance_of(m1, k) by {
            lemma_reserved_close(m.reservations, id - 1, k);
            assert(reserved_of(m, k) <= balance_of(m, k));
        }
        let r = reservation(m, id);
        let m2 = consume_step(m, id).0;
        assert forall|k: Seq<u8>| #[trigger] reserved_of(m2, k) <= balance_of(m2, k) by {
            lemma_reserved_close(m.reservations, id - 1, k);
            assert(reserved_of(m, k) <= balance_of(m, k));
        }
    }
    if balance_of(m, a@) + amount <= u64::MAX {
        let m1 = credit_step(m, a, amount).0;
        assert forall|k: Seq<u8>| #[trigger] reserved_of(m1, k) <= balance_of(m1, k) by {
            assert(reserved_of(m, k) <= balance_of(m, k));
        }
    }
}

/// A successful transfer between two accounts moves exactly `amount` from
/// the sender to the receiver and touches no other balance and no
/// reservation; a transfer of an account to itself changes no balance.
pub proof fn law_transfer_moves_amount(m: LedgerModel, from: PublicKey, to: PublicKey, amount: u64, k: Seq<u8>)
    requires
        ledger_wf(m),
        transfer_step(m, from, to, amount).1 is Ok,
    ensures
        transfer_step(m, from, to, amount).0.reservations == m.reservations,
        from@ != to@ ==> balance_of(transfer_step(m, from, to, amount).0, from@) + amount == balance_of(m, from@),
        from@ != to@ ==> balance_of(transfer_step(m, from, to, amount).0, to@) == balance_of(m, to@) + amount,
        from@ == to@ ==> balance_of(transfer_step(m, from, to, amount).0, k) == balance_of(m, k),
        k != from@ && k != to@ ==> balance_of(transfer_step(m, from, to, amount).0, k) == balance_of(m, k),
{
    assert(reserved_of(m, from@) <= balance_of(m, from@));
}

/// Crediting succeeds exactly when the balance stays within `u64::MAX`;
/// then it adds exactly `amount` to the account's balance, so its available
/// balance rises by `amount` too, and changes no other balance and no
/// reservation.
pub proof fn law_credit_adds_amount(m: LedgerModel, account: PublicKey, amount: u64, k: Seq<u8>)
    ensures
        ({
            let (m2, r) = credit_step(m, account, amount);
            &&& (r is Ok <==> balance_of(m, account@) + amount <= u64::MAX)
            &&& (r is Ok ==> balance_of(m2, account@) == balance_of(m, account@) + amount)
            &&& (r is Ok && ledger_wf(m) ==> available_of(m2, account@) == available_of(m, account@) + amount)
            &&& (k != account@ ==> balance_of(m2, k) == balance_of(m, k))
            &&& m2.reservations == m.reservations
        }),
{
    assert(reserved_of(credit_step(m, account, amount).0, account@) == reserved_of(m, account@));
    if ledger_wf(m) {
        assert(reserved_of(m, account@) <= balance_of(m, account@));
    }
}

/// A refused operation changes nothing: in particular a transfer whose
/// receiver would overflow destroys no credits.
pub proof fn law_refusals_change_nothing(m: LedgerModel, a: PublicKey, b: PublicKey, amount: u64, id: u64)
    ensures
        transfer_step(m, a, b, amount).1 is Err ==> transfer_step(m, a, b, amount).0 == m,
        reserve_step(m, a, amount).1 is Err ==> reserve_step(m, a, amount).0 == m,
        release_step(m, id).1 is Err ==> release_step(m, id).0 == m,
        consume_step(m, id).1 is Err ==> consume_step(m, id).0 == m,
        credit_step(m, a, amount).1 is Err ==> credit_step(m, a, amount).0 == m,
{
}

/// A successful reservation leaves every balance as it was, lowers the
/// available balance of its account by its amount, and answers a fresh id
/// that names it.
pub proof fn law_reserve_holds_amount(m: LedgerModel, account: PublicKey, amount: u64, k: Seq<u8>)
    requires
        ledger_wf(m),
        reserve_step(m, account, amount).1 is Ok,
    ensures
        ({
            let (m1, r) = reserve_step(m, account, amount);
            let id = r->Ok_0;
            &&& balance_of(m1, k) == balance_of(m, k)
            &&& !reservation_exists(m, id) && reservation_exists(m1, id)
            &&& reservation(m1, id) == (Reservation { account, amount, active: true })
            &&& available_of(m1, account@) + amount == available_of(m, account@)
            &&& k != account@ ==> available_of(m1, k) == available_of(m, k)
        }),
{
    let r = Reservation { account, amount, active: true };
    lemma_reserved_push(m.reservations, r, k);
    lemma_reserved_push(m.reservations, r, account@);
    assert(reserved_of(m, account@) <= balance_of(m, account@));
    assert(reserved_of(m, k) <= balance_of(m, k));
}

/// Releasing a reservation just made restores the ledger's balances,
/// reserved credits and available balances.
pub proof fn law_reserve_then_release_restores(m: LedgerModel, account: PublicKey, amount: u64, k: Seq<u8>)
    requires
        ledger_wf(m),
        reserve_step(m, account, amount).1 is Ok,
    ensures
        ({
            let (m1, r) = reserve_step(m, account, amount);
            let (m2, r2) = release_step(m1, r->Ok_0);
            &&& r2 is Ok
            &&& balance_of(m2, k) == balance_of(m, k)
            &&& reserved_of(m2, k) == reserved_of(m, k)
            &&& available_of(m2, k) == available_of(m, k)
        }),
{
    let r = Reservation { account, amount, active: true };
    let m1 = reserve_step(m, account, amount).0;
    let id = reserve_step(m, account, amount).1->Ok_0;
    let m2 = release_step(m1, id).0;
    assert(m2.reservations =~= m.reservations.push(Reservation { active: false, ..r }));
    lemma_reserved_push(m.reservations, Reservation { active: false, ..r }, k);
}

/// Consuming a reservation just made deducts its amount from the balance
/// and from the available balance of its account, and from nothing else.
pub proof fn law_reserve_then_consume_deducts(m: LedgerModel, account: PublicKey, amount: u64, k: Seq<u8>)
    requires
        ledger_wf(m),
        reserve_step(m, account, amount).1 is Ok,
    ensures
        ({
            let (m1, r) = reserve_step(m, account, amount);
            let (m2, r2) = consume_step(m1, r->Ok_0);
            &&& r2 is Ok
            &&& balance_of(m2, account@) + amount == balance_of(m, account@)
            &&& available_of(m2, account@) + amount == available_of(m, account@)
            &&& reserved_of(m2, k) == reserved_of(m, k)
            &&& k != account@ ==> balance_of(m2, k) == balance_of(m, k)
        }),
{
    let r = Reservation { account, amount, active: true };
    let m1 = reserve_step(m, account, amount).0;
    let id = reserve_step(m, account, amount).1->Ok_0;
    let m2 = consume_step(m1, id).0;
    assert(m2.reservations =~= m.reservations.push(Reservation { active: false, ..r }));
    lemma_reserved_push(m.reservations, Reservation { active: false, ..r }, k);
    lemma_reserved_push(m.reservations, Reservation { active: false, ..r }, account@);
    assert(reserved_of(m, account@) <= balance_of(m, account@));
}

/// A reservation closes once: after it is released or consumed, releasing
/// or consuming it again is refused as already closed, and changes nothing.
pub proof fn law_reservation_closes_once(m: LedgerModel, id: u64)
    requires
        release_step(m, id).1 is Ok || consume_step(m, id).1 is Ok,
    ensures
        release_step(m, id).1 is Ok ==> release_step(release_step(m, id).0, id).1
            == Err::<(), LedgerFailure>(LedgerFailure::ReservationClosed { id }),
        release_step(m, id).1 is Ok ==> consume_step(release_step(m, id).0, id).1
            == Err::<(), LedgerFailure>(LedgerFailure::ReservationClosed { id }),
        consume_step(m, id).1 is Ok ==> release_step(consume_step(m, id).0, id).1
            == Err::<(), LedgerFailure>(LedgerFailure::ReservationClosed { id }),
        consume_step(m, id).1 is Ok ==> consume_step(consume_step(m, id).0, id).1
            == Err::<(), LedgerFailure>(LedgerFailure::ReservationClosed { id }),
{
}

/// Whether two keys are the same bytes.
fn key_eq(a: &PublicKey, b: &PublicKey) -> (r: bool)
    ensures
        r == (a@ == b@),
{
    let mut i: usize = 0;
    while i < 32
        invariant
            i <= 32,
            a@.len() == 32,
            b@.len() == 32,
            forall|j: int| 0 <= j < i ==> a@[j] == b@[j],
        decreases 32 - i,
    {
        if a[i] != b[i] {
            assert(a@[i as int] != b@[i as int]);
            return false;
        }
        i = i + 1;
    }
    assert(a@ =~= b@);
    true
}

// ─── the ledger ───────────────────────────────────────────────────────────

/// The position of the last entry for `k` in `es`.
fn find_entry(es: &Vec<(PublicKey, u64)>, k: &PublicKey) -> (r: Option<usize>)
    ensures
        r matches Some(i) ==> i < es@.len() && es@[i as int].0@ == k@
            && forall|j: int| i < j < es@.len() ==> (#[trigger] es@[j]).0@ != k@,
        r is None ==> forall|j: int| 0 <= j < es@.len() ==> (#[trigger] es@[j]).0@ != k@,
{
    let mut i = es.len();
    while i > 0
        invariant
            i <= es@.len(),
            forall|j: int| i <= j < es@.len() ==> (#[trigger] es@[j]).0@ != k@,
        decreases i,
    {
        if key_eq(&es[i - 1].0, k) {
            return Some(i - 1);
        }
        i = i - 1;
    }
    None
}

/// The balance that `es` records for `k` (0 where none).
fn entry_balance(es: &Vec<(PublicKey, u64)>, k: &PublicKey) -> (b: u64)
    ensures
        b == (if entries_map(es@).dom().contains(k@) { entries_map(es@)[k@] } else { 0 }),
{
    match find_entry(es, k) {
        Some(i) => {
            proof { lemma_entries_last(es@, k@, i as int); }
            es[i].1
        },
        None => {
            proof { lemma_entries_absent(es@, k@); }
            0
        },
    }
}

/// Records `v` as the balance of `k` in `es`.
fn set_entry(es: &mut Vec<(PublicKey, u64)>, k: &PublicKey, v: u64)
    ensures
        entries_map(final(es)@) == entries_map(old(es)@).insert(k@, v),
{
    match find_entry(es, k) {
        Some(i) => {
            proof { lemma_entries_update(es@, i as int, (*k, v)); }
            es.set(i, (*k, v));
        },
        None => {
            let ghost before = es@;
            es.push((*k, v));
            assert(es@.drop_last() =~= before);
        },
    }
}

/// A credit ledger: balances per account and reservations held in escrow.
#[derive(Debug)]
pub struct LedgerState {
    accounts: Vec<(PublicKey, u64)>,
    reservations: Vec<Reservation>,
}

impl View for LedgerState {
    type V = LedgerModel;

    closed spec fn view(&self) -> LedgerModel {
        LedgerModel { balances: entries_map(self.accounts@), reservations: self.reservations@ }
    }
}

impl LedgerState {
    #[verifier::type_invariant]
    spec fn inv(&self) -> bool {
        ledger_wf(self@)
    }

    /// Every ledger keeps its invariant, `ledger_wf`: no account has
    /// reserved more than its balance. This makes it known of `self` to the
    /// caller; it computes nothing.
    pub fn reveal_invariant(&self)
        ensures
            ledger_wf(self@),
    {
        proof { use_type_invariant(self); }
    }

    /// An empty ledger.
    pub fn new() -> (l: Self)
        ensures
            l@ == empty_ledger(),
    {
        let l = LedgerState { accounts: Vec::new(), reservations: Vec::new() };
        assert(l@.balances =~= Map::<Seq<u8>, u64>::empty());
        l
    }

    /// A ledger with the given balances and no reservations; where an
    /// account occurs twice, the later balance counts.
    pub fn with_balances(initial: Vec<(PublicKey, u64)>) -> (l: Self)
        ensures
            l@ == (LedgerModel { balances: entries_map(initial@), reservations: Seq::empty() }),
    {
        LedgerState { accounts: initial, reservations: Vec::new() }
    }

    /// Moves the contents out, leaving an empty ledger.
    fn take_parts(&mut self) -> (parts: (Vec<(PublicKey, u64)>, Vec<Reservation>))
        ensures
            final(self)@ == empty_ledger(),
            parts.0@ == old(self).accounts@,
            parts.1@ == old(self).reservations@,
            (LedgerModel { balances: entries_map(parts.0@), reservations: parts.1@ }) == old(self)@,
    {
        let mut rs: Vec<Reservation> = Vec::new();
        std::mem::swap(&mut rs, &mut self.reservations);
        let mut accs: Vec<(PublicKey, u64)> = Vec::new();
        std::mem::swap(&mut accs, &mut self.accounts);
        assert(self@.balances =~= Map::<Seq<u8>, u64>::empty());
        (accs, rs)
    }

    /// Stores `accs` and `rs` as the contents.
    fn put_parts(&mut self, accs: Vec<(PublicKey, u64)>, rs: Vec<Reservation>)
        requires
            old(self)@ == empty_ledger(),
            ledger_wf(LedgerModel { balances: entries_map(accs@), reservations: rs@ }),
        ensures
            final(self)@ == (LedgerModel { balances: entries_map(accs@), reservations: rs@ }),
    {
        proof { use_type_invariant(&*self); }
        assert(self.reservations@ =~= Seq::<Reservation>::empty());
        self.accounts = accs;
        self.reservations = rs;
    }

    /// The balance of `account`.
    pub fn balance(&self, account: &PublicKey) -> (b: u64)
        ensures
            b == balance_of(self@, account@),
    {
        entry_balance(&self.accounts, account)
    }

    /// The credits of `account` held in active reservations.
    pub fn get_reserved_for_account(&self, account: &PublicKey) -> (total: u64)
        ensures
            total == reserved_of(self@, account@),
    {
        proof {
            use_type_invariant(self);
            assert(reserved_of(self@, account@) <= balance_of(self@, account@));
        }
        let ghost rs = self.reservations@;
        let ghost k = account@;
        let n = self.reservations.len();
        let mut total: u64 = 0;
        let mut i: usize = 0;
        while i < n
            invariant
                n == rs.len(),
                rs == self.reservations@,
                k == account@,
                i <= n,
                total == reserved_in(rs.take(i as int), k),
                reserved_in(rs, k) <= u64::MAX,
            decreases n - i,
        {
            let r = self.reservations[i];
            proof {
                assert(rs.take(i + 1).drop_last() =~= rs.take(i as int));
                assert(rs.take(i + 1).last() == rs[i as int]);
                lemma_reserved_prefix(rs, i + 1, k);
            }
            if r.active && key_eq(&r.account, account) {
                total = total + r.amount;
            }
            i = i + 1;
        }
        assert(rs.take(n as int) =~= rs);
        total
    }

    /// The credits of `account` held in active reservations.
    pub fn reserved_balance(&self, account: &PublicKey) -> (total: u64)
        ensures
            total == reserved_of(self@, account@),
    {
        self.get_reserved_for_account(account)
    }

    /// The balance of `account` less what it has reserved.
    pub fn available_balance(&self, account: &PublicKey) -> (a: u64)
        ensures
            a == available_of(self@, account@),
    {
        let total = self.balance(account);
        let reserved = self.get_reserved_for_account(account);
        total.saturating_sub(reserved)
    }

    /// Moves `amount` credits from `from` to `to` (see `transfer_step`).
    pub fn transfer(&mut self, from: &PublicKey, to: &PublicKey, amount: u64) -> (r: Result<(), String>)
        ensures
            final(self)@ == transfer_step(old(self)@, *from, *to, amount).0,
            reply_matches(r, transfer_step(old(self)@, *from, *to, amount).1),
    {
        proof { use_type_invariant(&*self); }
        if amount == 0 {
            return Err(LedgerFailure::ZeroTransfer.message());
        }
        let from_balance = self.balance(from);
        let reserved = self.get_reserved_for_account(from);
        let available = from_balance.saturating_sub(reserved);
        if available < amount {
            return Err(LedgerFailure::InsufficientForTransfer { available, amount, reserved }.message());
        }
        let to_balance = if key_eq(from, to) { from_balance - amount } else { self.balance(to) };
        let ghost m0 = self@;
        let ghost m1 = with_balance(m0, from@, (from_balance - amount) as u64);
        assert(to_balance == balance_of(m1, to@));
        let v = match to_balance.checked_add(amount) {
            Some(v) => v,
            None => { return Err(LedgerFailure::CreditOverflow.message()); },
        };
        let (mut accs, rs) = self.take_parts();
        set_entry(&mut accs, from, from_balance - amount);
        assert(entries_map(accs@) == m1.balances);
        set_entry(&mut accs, to, v);
        proof {
            let m2 = with_balance(m1, to@, v);
            assert(entries_map(accs@) == m2.balances);
            assert forall|k: Seq<u8>| #[trigger] reserved_of(m2, k) <= balance_of(m2, k) by {
                assert(reserved_of(m0, k) <= balance_of(m0, k));
            }
        }
        self.put_parts(accs, rs);
        Ok(())
    }

    /// Holds `amount` credits of `account` in escrow (see `reserve_step`).
    pub fn reserve(&mut self, account: &PublicKey, amount: u64) -> (r: Result<u64, String>)
        ensures
            final(self)@ == reserve_step(old(self)@, *account, amount).0,
            reply_matches(r, reserve_step(old(self)@, *account, amount).1),
    {
        proof { use_type_invariant(&*self); }
        if amount == 0 {
            return Err(LedgerFailure::ZeroReserve.message());
        }
        let available = self.available_balance(account);
        if available < amount {
            return Err(LedgerFailure::InsufficientForReserve { available, amount }.message());
        }
        let n = self.reservations.len();
        let id: u64 = n as u64 + 1;
        if id == u64::MAX {
            return Err(LedgerFailure::ReservationIdOverflow.message());
        }
        let ghost m0 = self@;
        let r = Reservation { account: *account, amount, active: true };
        let (accs, mut rs) = self.take_parts();
        rs.push(r);
        proof {
            assert forall|k: Seq<u8>| #[trigger] reserved_in(rs@, k) <= balance_of(m0, k) by {
                lemma_reserved_push(m0.reservations, r, k);
                assert(reserved_of(m0, k) <= balance_of(m0, k));
            }
            let m1 = LedgerModel { balances: entries_map(accs@), reservations: rs@ };
            assert forall|k: Seq<u8>| #[trigger] reserved_of(m1, k) <= balance_of(m1, k) by {
                assert(reserved_in(rs@, k) <= balance_of(m0, k));
            }
        }
        self.put_parts(accs, rs);
        Ok(id)
    }

    /// Closes reservation `id` in `rs`, having checked that it is active.
    fn close_in(rs: &mut Vec<Reservation>, idx: usize)
        requires
            idx < old(rs)@.len(),
        ensures
            final(rs)@ == old(rs)@.update(idx as int, Reservation { active: false, ..old(rs)@[idx as int] }),
    {
        let res = rs[idx];
        rs.set(idx, Reservation { active: false, ..res });
    }

    /// Closes reservation `id`, returning its credits to the available
    /// balance (see `release_step`).
    pub fn release_reservation(&mut self, reservation_id: u64) -> (r: Result<(), String>)
        ensures
            final(self)@ == release_step(old(self)@, reservation_id).0,
            reply_matches(r, release_step(old(self)@, reservation_id).1),
    {
        proof { use_type_invariant(&*self); }
        let n = self.reservations.len();
        if reservation_id == 0 || reservation_id > n as u64 {
            return Err(LedgerFailure::ReservationNotFound { id: reservation_id }.message());
        }
        let idx = (reservation_id - 1) as usize;
        if !self.reservations[idx].active {
            return Err(LedgerFailure::ReservationClosed { id: reservation_id }.message());
        }
        let ghost m0 = self@;
        let (accs, mut rs) = self.take_parts();
        Self::close_in(&mut rs, idx);
        proof {
            let m1 = LedgerModel { balances: entries_map(accs@), reservations: rs@ };
            assert(m1 == close_reservation(m0, reservation_id));
            assert forall|k: Seq<u8>| #[trigger] reserved_of(m1, k) <= balance_of(m1, k) by {
                lemma_reserved_close(m0.reservations, idx as int, k);
                assert(reserved_of(m0, k) <= balance_of(m0, k));
            }
        }
        self.put_parts(accs, rs);
        Ok(())
    }

    /// Closes reservation `id` and deducts its credits from the balance (see
    /// `consume_step`).
    pub fn consume_reservation(&mut self, reservation_id: u64) -> (r: Result<(), String>)
        ensures
            final(self)@ == consume_step(old(self)@, reservation_id).0,
            reply_matches(r, consume_step(old(self)@, reservation_id).1),
    {
        proof { use_type_invariant(&*self); }
        let n = self.reservations.len();
        if reservation_id == 0 || reservation_id > n as u64 {
            return Err(LedgerFailure::ReservationNotFound { id: reservation_id }.message());
        }
        let idx = (reservation_id - 1) as usize;
        let res = self.reservations[idx];
        if !res.active {
            return Err(LedgerFailure::ReservationClosed { id: reservation_id }.message());
        }
        let ghost m0 = self@;
        let (mut accs, mut rs) = self.take_parts();
        Self::close_in(&mut rs, idx);
        let b = entry_balance(&accs, &res.account);
        let nb = b.saturating_sub(res.amount);
        set_entry(&mut accs, &res.account, nb);
        proof {
            let m1 = close_reservation(m0, reservation_id);
            assert(rs@ == m1.reservations);
            let m2 = with_balance(m1, res.account@, nb);
            assert(entries_map(accs@) == m2.balances);
            assert forall|k: Seq<u8>| #[trigger] reserved_of(m2, k) <= balance_of(m2, k) by {
                lemma_reserved_close(m0.reservations, idx as int, k);
                assert(reserved_of(m0, k) <= balance_of(m0, k));
            }
        }
        self.put_parts(accs, rs);
        Ok(())
    }

    /// Adds `amount` credits to `account` (see `credit_step`).
    pub fn credit(&mut self, account: &PublicKey, amount: u64) -> (r: Result<(), String>)
        ensures
            final(self)@ == credit_step(old(self)@, *account, amount).0,
            reply_matches(r, credit_step(old(self)@, *account, amount).1),
    {
        proof { use_type_invariant(&*self); }
        let b = self.balance(account);
        match b.checked_add(amount) {
            Some(v) => {
                let ghost m0 = self@;
                let (mut accs, rs) = self.take_parts();
                set_entry(&mut accs, account, v);
                proof {
                    let m1 = with_balance(m0, account@, v);
                    assert(entries_map(accs@) == m1.balances);
                    assert forall|k: Seq<u8>| #[trigger] reserved_of(m1, k) <= balance_of(m1, k) by {
                        assert(reserved_of(m0, k) <= balance_of(m0, k));
                    }
                }
                self.put_parts(accs, rs);
                Ok(())
            },
            None => Err(LedgerFailure::CreditOverflow.message()),
        }
    }
}

// ─── the shared in-memory ledger ──────────────────────────────────────────

/// A change to a ledger, run under its lock.
pub(crate) enum LedgerOp {
    Transfer(PublicKey, PublicKey, u64),
    Reserve(PublicKey, u64),
    Release(u64),
    Consume(u64),
    Credit(PublicKey, u64),
}

/// The answer to a `LedgerOp`: a reservation id for `Reserve`, nothing for
/// the others.
pub(crate) enum LedgerAnswer {
    Done(Result<(), String>),
    Id(Result<u64, String>),
}

/// A question to a ledger, answered under its lock.
pub(crate) enum LedgerQuery {
    Balance(PublicKey),
    Reserved(PublicKey),
    Available(PublicKey),
}

impl Guarded for LedgerState {
    type Op = LedgerOp;
    type Answer = LedgerAnswer;
    type Query = LedgerQuery;
    type Reply = u64;

    closed spec fn applies(self, op: LedgerOp, next: Self, answer: LedgerAnswer) -> bool {
        ledger_wf(self@) && match op {
            LedgerOp::Transfer(from, to, amount) => answer matches LedgerAnswer::Done(r)
                && reply_matches(r, transfer_step(self@, from, to, amount).1)
                && next@ == transfer_step(self@, from, to, amount).0,
            LedgerOp::Reserve(account, amount) => answer matches LedgerAnswer::Id(r)
                && reply_matches(r, reserve_step(self@, account, amount).1)
                && next@ == reserve_step(self@, account, amount).0,
            LedgerOp::Release(id) => answer matches LedgerAnswer::Done(r)
                && reply_matches(r, release_step(self@, id).1) && next@ == release_step(self@, id).0,
            LedgerOp::Consume(id) => answer matches LedgerAnswer::Done(r)
                && reply_matches(r, consume_step(self@, id).1) && next@ == consume_step(self@, id).0,
            LedgerOp::Credit(account, amount) => answer matches LedgerAnswer::Done(r)
                && reply_matches(r, credit_step(self@, account, amount).1)
                && next@ == credit_step(self@, account, amount).0,
        }
    }

    closed spec fn replies(&self, q: LedgerQuery, reply: u64) -> bool {
        ledger_wf(self@) && match q {
            LedgerQuery::Balance(k) => reply == balance_of(self@, k@),
            LedgerQuery::Reserved(k) => reply == reserved_of(self@, k@),
            LedgerQuery::Available(k) => reply == available_of(self@, k@),
        }
    }

    fn apply(&mut self, op: LedgerOp) -> (answer: LedgerAnswer) {
        proof { use_type_invariant(&*self); }
        match op {
            LedgerOp::Transfer(from, to, amount) => LedgerAnswer::Done(self.transfer(&from, &to, amount)),
            LedgerOp::Reserve(account, amount) => LedgerAnswer::Id(self.reserve(&account, amount)),
            LedgerOp::Release(id) => LedgerAnswer::Done(self.release_reservation(id)),
            LedgerOp::Consume(id) => LedgerAnswer::Done(self.consume_reservation(id)),
            LedgerOp::Credit(account, amount) => LedgerAnswer::Done(self.credit(&account, amount)),
        }
    }

    fn query(&self, q: &LedgerQuery) -> (reply: u64) {
        proof { use_type_invariant(self); }
        match q {
            LedgerQuery::Balance(k) => self.balance(k),
            LedgerQuery::Reserved(k) => self.get_reserved_for_account(k),
            LedgerQuery::Available(k) => self.available_balance(k),
        }
    }
}

/// An in-memory credit ledger for testing and development. Clones share one
/// ledger: a change through one handle is seen through all.
///
/// Each operation runs the `LedgerState` operation of the same name under
/// the lock. What the ledger holds between two calls is not stated, since
/// another handle may change it: a reply is stated as the answer of the
/// operation on some well-formed ledger, or the refusal of a poisoned lock.
#[derive(Debug, Clone)]
pub struct InMemoryCreditLedger {
    state: Arc<RwLock<LedgerState>>,
}

impl InMemoryCreditLedger {
    /// A handle on a new, empty ledger.
    pub fn new() -> (l: Self) {
        InMemoryCreditLedger { state: Arc::new(lock_new(LedgerState::new())) }
    }

    /// A handle on a new ledger with the given balances; where an account
    /// occurs twice, the later balance counts.
    pub fn with_balances(initial: Vec<(PublicKey, u64)>) -> (l: Self) {
        InMemoryCreditLedger { state: Arc::new(lock_new(LedgerState::with_balances(initial))) }
    }

    /// Answers `q` from the shared ledger.
    fn ask(&self, q: LedgerQuery) -> (r: Result<u64, String>)
        ensures
            lock_failed(r) || exists|s: LedgerState| #[trigger] s.replies(q, r->Ok_0) && r is Ok,
    {
        lock_query(&*self.state, q)
    }

    /// Runs `op` on the shared ledger; the answer of `op` on some ledger, or
    /// the refusal of a poisoned lock.
    fn run(&self, op: LedgerOp) -> (r: Result<LedgerAnswer, String>)
        ensures
            lock_failed(r) || r is Ok && exists|pre: LedgerState, post: LedgerState|
                #[trigger] pre.applies(op, post, r->Ok_0),
    {
        lock_apply(&*self.state, op)
    }

    /// The credits of `account` held in active reservations, read under the
    /// lock.
    pub fn get_reserved_for_account(&self, account: &PublicKey) -> (r: Result<u64, String>)
        ensures
            lock_failed(r) || exists|m: LedgerModel| ledger_wf(m)
                && r == Ok::<u64, String>(#[trigger] reserved_of(m, account@) as u64),
    {
        let q = LedgerQuery::Reserved(*account);
        let out = self.ask(q);
        proof {
            if out is Ok {
                let s = choose|s: LedgerState| #[trigger] s.replies(q, out->Ok_0);
                assert(reserved_of(s@, account@) as u64 == out->Ok_0);
            }
        }
        out
    }
}

impl Default for InMemoryCreditLedger {
    /// A handle on a new, empty ledger.
    fn default() -> (l: Self) {
        InMemoryCreditLedger::new()
    }
}

impl CreditBackend for InMemoryCreditLedger {
    /// The balance of `account` in some well-formed ledger.
    open spec fn balance_reply(&self, account: PublicKey, r: Result<u64, String>) -> bool {
        lock_failed(r) || exists|m: LedgerModel| ledger_wf(m)
            && r == Ok::<u64, String>(#[trigger] balance_of(m, account@))
    }

    /// A zero amount is refused; otherwise the reply of `transfer_step` on
    /// some well-formed ledger.
    open spec fn transfer_reply(&self, from: PublicKey, to: PublicKey, amount: u64, r: Result<(), String>) -> bool {
        &&& amount == 0 ==> reply_matches(r, Err(LedgerFailure::ZeroTransfer))
        &&& lock_failed(r) || exists|m: LedgerModel| ledger_wf(m)
            && reply_matches(r, (#[trigger] transfer_step(m, from, to, amount)).1)
    }

    /// A zero amount is refused; otherwise the reply of `reserve_step` on
    /// some well-formed ledger.
    open spec fn reserve_reply(&self, account: PublicKey, amount: u64, r: Result<u64, String>) -> bool {
        &&& amount == 0 ==> reply_matches(r, Err(LedgerFailure::ZeroReserve))
        &&& lock_failed(r) || exists|m: LedgerModel| ledger_wf(m)
            && reply_matches(r, (#[trigger] reserve_step(m, account, amount)).1)
    }

    /// The reply of `release_step` on some well-formed ledger.
    open spec fn release_reply(&self, id: u64, r: Result<(), String>) -> bool {
        lock_failed(r) || exists|m: LedgerModel| ledger_wf(m)
            && reply_matches(r, (#[trigger] release_step(m, id)).1)
    }

    /// The reply of `consume_step` on some well-formed ledger.
    open spec fn consume_reply(&self, id: u64, r: Result<(), String>) -> bool {
        lock_failed(r) || exists|m: LedgerModel| ledger_wf(m)
            && reply_matches(r, (#[trigger] consume_step(m, id)).1)
    }

    /// The reserved credits of `account` in some well-formed ledger.
    open spec fn reserved_reply(&self, account: PublicKey, r: Result<u64, String>) -> bool {
        lock_failed(r) || exists|m: LedgerModel| ledger_wf(m)
            && r == Ok::<u64, String>(#[trigger] reserved_of(m, account@) as u64)
    }

    /// The available credits of `account` in some well-formed ledger.
    open spec fn available_reply(&self, account: PublicKey, r: Result<u64, String>) -> bool {
        lock_failed(r) || exists|m: LedgerModel| ledger_wf(m)
            && r == Ok::<u64, String>(#[trigger] available_of(m, account@))
    }

    /// The reply of `credit_step` on some well-formed ledger.
    open spec fn credit_reply(&self, account: PublicKey, amount: u64, r: Result<(), String>) -> bool {
        lock_failed(r) || exists|m: LedgerModel| ledger_wf(m)
            && reply_matches(r, (#[trigger] credit_step(m, account, amount)).1)
    }

    /// The balance of `account` in the shared ledger.
    fn balance(&self, account: &PublicKey) -> (r: Result<u64, String>) {
        let q = LedgerQuery::Balance(*account);
        let out = self.ask(q);
        proof {
            if out is Ok {
                let s = choose|s: LedgerState| #[trigger] s.replies(q, out->Ok_0);
                assert(balance_of(s@, account@) == out->Ok_0);
            }
        }
        out
    }

    /// Applies `transfer_step` to the shared ledger.
    fn transfer(&self, from: &PublicKey, to: &PublicKey, amount: u64) -> (r: Result<(), String>) {
        if amount == 0 {
            proof {
                lemma_empty_ledger_wf();
                assert(transfer_step(empty_ledger(), *from, *to, amount).1
                    == Err::<(), LedgerFailure>(LedgerFailure::ZeroTransfer));
            }
            return Err(LedgerFailure::ZeroTransfer.message());
        }
        let op = LedgerOp::Transfer(*from, *to, amount);
        match self.run(op) {
            Ok(LedgerAnswer::Done(v)) => {
                proof {
                    let (pre, post) = choose|pre: LedgerState, post: LedgerState| #[trigger] pre.applies(op, post, LedgerAnswer::Done(v));
                    assert(reply_matches(v, transfer_step(pre@, *from, *to, amount).1));
                }
                v
            },
            Ok(LedgerAnswer::Id(v)) => {
                proof {
                    let (pre, post) = choose|pre: LedgerState, post: LedgerState| #[trigger] pre.applies(op, post, LedgerAnswer::Id(v));
                    assert(false);
                }
                Ok(())
            },
            Err(e) => Err(e),
        }
    }

    /// Applies `reserve_step` to the shared ledger.
    fn reserve(&self, account: &PublicKey, amount: u64) -> (r: Result<u64, String>) {
        if amount == 0 {
            proof {
                lemma_empty_ledger_wf();
                assert(reserve_step(empty_ledger(), *account, amount).1
                    == Err::<u64, LedgerFailure>(LedgerFailure::ZeroReserve));
            }
            return Err(LedgerFailure::ZeroReserve.message());
        }
        let op = LedgerOp::Reserve(*account, amount);
        match self.run(op) {
            Ok(LedgerAnswer::Id(v)) => {
                proof {
                    let (pre, post) = choose|pre: LedgerState, post: LedgerState| #[trigger] pre.applies(op, post, LedgerAnswer::Id(v));
                    assert(reply_matches(v, reserve_step(pre@, *account, amount).1));
                }
                v
            },
            Ok(LedgerAnswer::Done(v)) => {
                proof {
                    let (pre, post) = choose|pre: LedgerState, post: LedgerState| #[trigger] pre.applies(op, post, LedgerAnswer::Done(v));
                    assert(false);
                }
                Ok(0)
            },
            Err(e) => Err(e),
        }
    }

    /// Applies `release_step` to the shared ledger.
    fn release_reservation(&self, reservation_id: u64) -> (r: Result<(), String>) {
        let op = LedgerOp::Release(reservation_id);
        match self.run(op) {
            Ok(LedgerAnswer::Done(v)) => {
                proof {
                    let (pre, post) = choose|pre: LedgerState, post: LedgerState| #[trigger] pre.applies(op, post, LedgerAnswer::Done(v));
                    assert(reply_matches(v, release_step(pre@, reservation_id).1));
                }
                v
            },
            Ok(LedgerAnswer::Id(v)) => {
                proof {
                    let (pre, post) = choose|pre: LedgerState, post: LedgerState| #[trigger] pre.applies(op, post, LedgerAnswer::Id(v));
                    assert(false);
                }
                Ok(())
            },
            Err(e) => Err(e),
        }
    }

    /// Applies `consume_step` to the shared ledger.
    fn consume_reservation(&self, reservation_id: u64) -> (r: Result<(), String>) {
        let op = LedgerOp::Consume(reservation_id);
        match self.run(op) {
            Ok(LedgerAnswer::Done(v)) => {
                proof {
                    let (pre, post) = choose|pre: LedgerState, post: LedgerState| #[trigger] pre.applies(op, post, LedgerAnswer::Done(v));
                    assert(reply_matches(v, consume_step(pre@, reservation_id).1));
                }
                v
            },
            Ok(LedgerAnswer::Id(v)) => {
                proof {
                    let (pre, post) = choose|pre: LedgerState, post: LedgerState| #[trigger] pre.applies(op, post, LedgerAnswer::Id(v));
                    assert(false);
                }
                Ok(())
            },
            Err(e) => Err(e),
        }
    }

    /// The reserved credits of `account` in the shared ledger.
    fn reserved_balance(&self, account: &PublicKey) -> (r: Result<u64, String>) {
        self.get_reserved_for_account(account)
    }

    /// The available balance of `account` in the shared ledger.
    fn available_balance(&self, account: &PublicKey) -> (r: Result<u64, String>) {
        let q = LedgerQuery::Available(*account);
        let out = self.ask(q);
        proof {
            if out is Ok {
                let s = choose|s: LedgerState| #[trigger] s.replies(q, out->Ok_0);
                assert(available_of(s@, account@) == out->Ok_0);
            }
        }
        out
    }

    /// Applies `credit_step` to the shared ledger.
    fn credit(&self, account: &PublicKey, amount: u64) -> (r: Result<(), String>) {
        let op = LedgerOp::Credit(*account, amount);
        match self.run(op) {
            Ok(LedgerAnswer::Done(v)) => {
                proof {
                    let (pre, post) = choose|pre: LedgerState, post: LedgerState| #[trigger] pre.applies(op, post, LedgerAnswer::Done(v));
                    assert(reply_matches(v, credit_step(pre@, *account, amount).1));
                }
                v
            },
            Ok(LedgerAnswer::Id(v)) => {
                proof {
                    let (pre, post) = choose|pre: LedgerState, post: LedgerState| #[trigger] pre.applies(op, post, LedgerAnswer::Id(v));
                    assert(false);
                }
                Ok(())
            },
            Err(e) => Err(e),
        }
    }
}

// ─── host functions ───────────────────────────────────────────────────────

/// The answer to the guest for a ledger's reply that carries a number: its
/// eight little-endian bytes, or the ledger's message after `prefix`.
pub open spec fn number_outcome(reply: Result<u64, String>, prefix: Seq<char>, r: HostCallResult) -> bool {
    match reply {
        Ok(n) => succeeded_with(r, le_bytes(n)),
        Err(e) => failed_with(r, prefix + e@),
    }
}

/// The answer to the guest for a ledger's reply that carries nothing.
pub open spec fn done_outcome(reply: Result<(), String>, prefix: Seq<char>, r: HostCallResult) -> bool {
    match reply {
        Ok(_) => succeeded_empty(r),
        Err(e) => failed_with(r, prefix + e@),
    }
}

/// What `host_credit_balance` answers: the outcome of a reply of
/// `ledger.balance(account)`.
pub open spec fn balance_answer<B: CreditBackend + ?Sized>(ledger: &B, caps: Seq<CapabilityGrant>,
    account: PublicKey, r: HostCallResult) -> bool {
    gated(caps, CapabilityType::ActuatorCredit, CapabilityScope::Global, r,
        exists|reply: Result<u64, String>| #[trigger] ledger.balance_reply(account, reply)
            && number_outcome(reply, "Credit balance error: "@, r))
}

/// What `host_credit_transfer` answers: the refusals, and otherwise the
/// outcome of a reply of `ledger.transfer(from, to, amount)`.
pub open spec fn transfer_answer<B: CreditBackend + ?Sized>(ledger: &B, caps: Seq<CapabilityGrant>,
    from: PublicKey, to: PublicKey, amount: u64, r: HostCallResult) -> bool {
    gated(caps, CapabilityType::ActuatorCredit, CapabilityScope::Global, r,
        (amount == 0 ==> failed_with(r, "Transfer amount must be greater than zero"@))
        && (amount > MAX_TRANSFER_AMOUNT ==> failed_with(r,
            "Transfer amount exceeds maximum of 1000000000000 credits"@))
        && (0 < amount <= MAX_TRANSFER_AMOUNT && from@ == to@ ==> failed_with(r,
            "Cannot transfer to the same account"@))
        && (0 < amount <= MAX_TRANSFER_AMOUNT && from@ != to@ ==> exists|reply: Result<(), String>|
            #[trigger] ledger.transfer_reply(from, to, amount, reply)
            && done_outcome(reply, "Credit transfer error: "@, r)))
}

/// What `host_credit_reserve` answers: the refusals, and otherwise the
/// outcome of a reply of `ledger.reserve(account, amount)`.
pub open spec fn reserve_answer<B: CreditBackend + ?Sized>(ledger: &B, caps: Seq<CapabilityGrant>,
    account: PublicKey, amount: u64, r: HostCallResult) -> bool {
    gated(caps, CapabilityType::ActuatorCredit, CapabilityScope::Global, r,
        (amount == 0 ==> failed_with(r, "Reserve amount must be greater than zero"@))
        && (amount > MAX_RESERVE_AMOUNT ==> failed_with(r,
            "Reserve amount exceeds maximum of 100000000000 credits"@))
        && (0 < amount <= MAX_RESERVE_AMOUNT ==> exists|reply: Result<u64, String>|
            #[trigger] ledger.reserve_reply(account, amount, reply)
            && number_outcome(reply, "Credit reserve error: "@, r)))
}

/// What `host_credit_release` answers: the outcome of a reply of
/// `ledger.release_reservation(id)`.
pub open spec fn release_answer<B: CreditBackend + ?Sized>(ledger: &B, caps: Seq<CapabilityGrant>, id: u64,
    r: HostCallResult) -> bool {
    gated(caps, CapabilityType::ActuatorCredit, CapabilityScope::Global, r,
        exists|reply: Result<(), String>| #[trigger] ledger.release_reply(id, reply)
            && done_outcome(reply, "Credit release error: "@, r))
}

/// What `host_credit_consume` answers: the outcome of a reply of
/// `ledger.consume_reservation(id)`.
pub open spec fn consume_answer<B: CreditBackend + ?Sized>(ledger: &B, caps: Seq<CapabilityGrant>, id: u64,
    r: HostCallResult) -> bool {
    gated(caps, CapabilityType::ActuatorCredit, CapabilityScope::Global, r,
        exists|reply: Result<(), String>| #[trigger] ledger.consume_reply(id, reply)
            && done_outcome(reply, "Credit consume error: "@, r))
}

/// What `host_credit_available` answers: the outcome of a reply of
/// `ledger.available_balance(account)`.
pub open spec fn available_answer<B: CreditBackend + ?Sized>(ledger: &B, caps: Seq<CapabilityGrant>,
    account: PublicKey, r: HostCallResult) -> bool {
    gated(caps, CapabilityType::ActuatorCredit, CapabilityScope::Global, r,
        exists|reply: Result<u64, String>| #[trigger] ledger.available_reply(account, reply)
            && number_outcome(reply, "Credit available error: "@, r))
}

/// The credit balance of `account`, as eight little-endian bytes.
///
/// Requires ActuatorCredit at Global scope. The ledger's error is reported
/// as "Credit balance error: " followed by its message.
pub fn host_credit_balance<B: CreditBackend + ?Sized>(caps: &CapabilitySet, ledger: &B, account: &PublicKey) -> (r: HostCallResult)
    ensures
        balance_answer(ledger, caps@, *account, r),
{
    if !check_capability(caps, CapabilityType::ActuatorCredit, CapabilityScope::Global) {
        return HostCallResult::capability_denied(CapabilityType::ActuatorCredit);
    }
    let reply = ledger.balance(account);
    match reply {
        Ok(balance) => {
            let r = HostCallResult::success_with_value(u64_to_le_vec(balance));
            assert(succeeded_with(r, le_bytes(balance)));
            r
        },
        Err(e) => {
            let msg = join2("Credit balance error: ", e.as_str());
            let r = HostCallResult::error(msg.as_str());
            assert(failed_with(r, "Credit balance error: "@ + e@));
            r
        },
    }
}

/// Moves `amount` credits from `from` to `to`.
///
/// Requires ActuatorCredit at Global scope. Refuses zero, more than
/// `MAX_TRANSFER_AMOUNT`, and a transfer of an account to itself, in that
/// order, before the ledger is asked. The ledger's error is reported as
/// "Credit transfer error: " followed by its message.
pub fn host_credit_transfer<B: CreditBackend + ?Sized>(caps: &CapabilitySet, ledger: &B, from: &PublicKey,
    to: &PublicKey, amount: u64) -> (r: HostCallResult)
    ensures
        transfer_answer(ledger, caps@, *from, *to, amount, r),
{
    if !check_capability(caps, CapabilityType::ActuatorCredit, CapabilityScope::Global) {
        return HostCallResult::capability_denied(CapabilityType::ActuatorCredit);
    }
    if amount == 0 {
        return HostCallResult::error("Transfer amount must be greater than zero");
    }
    if amount > MAX_TRANSFER_AMOUNT {
        return HostCallResult::error("Transfer amount exceeds maximum of 1000000000000 credits");
    }
    if key_eq(from, to) {
        return HostCallResult::error("Cannot transfer to the same account");
    }
    let reply = ledger.transfer(from, to, amount);
    match reply {
        Ok(()) => HostCallResult::success(),
        Err(e) => {
            let msg = join2("Credit transfer error: ", e.as_str());
            let r = HostCallResult::error(msg.as_str());
            assert(failed_with(r, "Credit transfer error: "@ + e@));
            r
        },
    }
}

/// Reserves `amount` credits of `account`; answers the reservation id as
/// eight little-endian bytes.
///
/// Requires ActuatorCredit at Global scope. Refuses zero and more than
/// `MAX_RESERVE_AMOUNT` before the ledger is asked. The ledger's error is
/// reported as "Credit reserve error: " followed by its message.
pub fn host_credit_reserve<B: CreditBackend + ?Sized>(caps: &CapabilitySet, ledger: &B, account: &PublicKey,
    amount: u64) -> (r: HostCallResult)
    ensures
        reserve_answer(ledger, caps@, *account, amount, r),
{
    if !check_capability(caps, CapabilityType::ActuatorCredit, CapabilityScope::Global) {
        return HostCallResult::capability_denied(CapabilityType::ActuatorCredit);
    }
    if amount == 0 {
        return HostCallResult::error("Reserve amount must be greater than zero");
    }
    if amount > MAX_RESERVE_AMOUNT {
        return HostCallResult::error("Reserve amount exceeds maximum of 100000000000 credits");
    }
    let reply = ledger.reserve(account, amount);
    match reply {
        Ok(id) => {
            let r = HostCallResult::success_with_value(u64_to_le_vec(id));
            assert(succeeded_with(r, le_bytes(id)));
            r
        },
        Err(e) => {
            let msg = join2("Credit reserve error: ", e.as_str());
            let r = HostCallResult::error(msg.as_str());
            assert(failed_with(r, "Credit reserve error: "@ + e@));
            r
        },
    }
}

/// Releases reservation `reservation_id`.
///
/// Requires ActuatorCredit at Global scope. The ledger's error is reported
/// as "Credit release error: " followed by its message.
pub fn host_credit_release<B: CreditBackend + ?Sized>(caps: &CapabilitySet, ledger: &B, reservation_id: u64) -> (r: HostCallResult)
    ensures
        release_answer(ledger, caps@, reservation_id, r),
{
    if !check_capability(caps, CapabilityType::ActuatorCredit, CapabilityScope::Global) {
        return HostCallResult::capability_denied(CapabilityType::ActuatorCredit);
    }
    let reply = ledger.release_reservation(reservation_id);
    match reply {
        Ok(()) => HostCallResult::success(),
        Err(e) => {
            let msg = join2("Credit release error: ", e.as_str());
            let r = HostCallResult::error(msg.as_str());
            assert(failed_with(r, "Credit release error: "@ + e@));
            r
        },
    }
}

/// Consumes reservation `reservation_id`: its credits leave the account.
///
/// Requires ActuatorCredit at Global scope. The ledger's error is reported
/// as "Credit consume error: " followed by its message.
pub fn host_credit_consume<B: CreditBackend + ?Sized>(caps: &CapabilitySet, ledger: &B, reservation_id: u64) -> (r: HostCallResult)
    ensures
        consume_answer(ledger, caps@, reservation_id, r),
{
    if !check_capability(caps, CapabilityType::ActuatorCredit, CapabilityScope::Global) {
        return HostCallResult::capability_denied(CapabilityType::ActuatorCredit);
    }
    let reply = ledger.consume_reservation(reservation_id);
    match reply {
        Ok(()) => HostCallResult::success(),
        Err(e) => {
            let msg = join2("Credit consume error: ", e.as_str());
            let r = HostCallResult::error(msg.as_str());
            assert(failed_with(r, "Credit consume error: "@ + e@));
            r
        },
    }
}

/// The available balance of `account` (balance less reserved), as eight
/// little-endian bytes.
///
/// Requires ActuatorCredit at Global scope. The ledger's error is reported
/// as "Credit available error: " followed by its message.
pub fn host_credit_available<B: CreditBackend + ?Sized>(caps: &CapabilitySet, ledger: &B, account: &PublicKey) -> (r: HostCallResult)
    ensures
        available_answer(ledger, caps@, *account, r),
{
    if !check_capability(caps, CapabilityType::ActuatorCredit, CapabilityScope::Global) {
        return HostCallResult::capability_denied(CapabilityType::ActuatorCredit);
    }
    let reply = ledger.available_balance(account);
    match reply {
        Ok(available) => {
            let r = HostCallResult::success_with_value(u64_to_le_vec(available));
            assert(succeeded_with(r, le_bytes(available)));
            r
        },
        Err(e) => {
            let msg = join2("Credit available error: ", e.as_str());
            let r = HostCallResult::error(msg.as_str());
            assert(failed_with(r, "Credit available error: "@ + e@));
            r
        },
    }
}

} // verus!
