//! Fuel metering.
//!
//! A `FuelManager` tracks the fuel given to a sandbox: what it started with,
//! what remains, and what has been consumed in total, across refuelling.
//! Fuel bounds execution deterministically and is the basis of billing.

use vstd::prelude::*;
use vstd::string::*;
use crate::text::{decimal, text_with_number};

verus! {

/// Default fuel allocation: one billion units.
pub const DEFAULT_FUEL: u64 = 1_000_000_000;

/// Approximate fuel consumed per second of execution.
pub const FUEL_PER_SECOND: u64 = 100_000_000;

/// Largest amount of fuel a manager may hold.
pub const MAX_FUEL: u64 = 9_223_372_036_854_775_807;

/// Failures of fuel operations.
#[derive(Debug, Clone, PartialEq, Eq)]
pub enum FuelError {
    /// Not enough fuel remains for the requested consumption.
    Exhausted { consumed: u64, remaining: u64 },
    /// Refuelling would take the remaining fuel above `MAX_FUEL`.
    OverLimit { requested: u64, max: u64 },
    /// A zero amount was given where a positive one is needed.
    InvalidAmount { amount: u64, reason: String },
}

/// The text of an error, as the error's display shows it.
pub open spec fn fuel_error_text(e: FuelError) -> Seq<char> {
    match e {
        FuelError::Exhausted { consumed, remaining } =>
            "fuel exhausted: "@ + decimal(consumed as nat) + " units consumed, "@
                + decimal(remaining as nat) + " remaining"@,
        FuelError::OverLimit { requested, max } =>
            "fuel over limit: requested "@ + decimal(requested as nat) + ", max allowed "@
                + decimal(max as nat),
        FuelError::InvalidAmount { amount, reason } =>
            "invalid fuel amount: "@ + decimal(amount as nat) + " (reason: "@ + reason@ + ")"@,
    }
}

impl FuelError {
    /// The message of this error.
    pub fn to_string(&self) -> (s: String)
        ensures
            s@ == fuel_error_text(*self),
    {
        match self {
            FuelError::Exhausted { consumed, remaining } => {
                let mut s = text_with_number("fuel exhausted: ", *consumed);
                let r = text_with_number(" units consumed, ", *remaining);
                s.append(r.as_str());
                s.append(" remaining");
                s
            },
            FuelError::OverLimit { requested, max } => {
                let mut s = text_with_number("fuel over limit: requested ", *requested);
                let m = text_with_number(", max allowed ", *max);
                s.append(m.as_str());
                s
            },
            FuelError::InvalidAmount { amount, reason } => {
                let mut s = text_with_number("invalid fuel amount: ", *amount);
                s.append(" (reason: ");
                s.append(reason.as_str());
                s.append(")");
                s
            },
        }
    }
}

/// The state of a fuel manager, as contracts see it.
pub struct FuelState {
    pub initial: u64,
    pub remaining: u64,
    pub consumed: u64,
}

/// Fuel manager: initial allocation, remaining fuel and total consumption.
#[derive(Debug, Clone, Copy, PartialEq, Eq)]
pub struct FuelManager {
    initial_fuel: u64,
    remaining_fuel: u64,
    consumed_fuel: u64,
}

impl View for FuelManager {
    type V = FuelState;

    closed spec fn view(&self) -> FuelState {
        FuelState {
            initial: self.initial_fuel,
            remaining: self.remaining_fuel,
            consumed: self.consumed_fuel,
        }
    }
}

/// Whether `consume(amount)` succeeds from state `s`.
pub open spec fn consume_succeeds(s: FuelState, amount: u64) -> bool {
    0 < amount && amount <= s.remaining
}

/// The state after a successful `consume(amount)`.
pub open spec fn state_after_consume(s: FuelState, amount: u64) -> FuelState {
    FuelState { initial: s.initial, remaining: (s.remaining - amount) as u64, consumed: (s.consumed + amount) as u64 }
}

/// Whether `refuel(amount)` succeeds from state `s`.
pub open spec fn refuel_succeeds(s: FuelState, amount: u64) -> bool {
    0 < amount && s.remaining + amount <= MAX_FUEL
}

/// The state after a successful `refuel(amount)`.
pub open spec fn state_after_refuel(s: FuelState, amount: u64) -> FuelState {
    FuelState { initial: s.initial, remaining: (s.remaining + amount) as u64, consumed: s.consumed }
}

/// The state after `reset`.
pub open spec fn state_after_reset(s: FuelState) -> FuelState {
    FuelState { initial: s.initial, remaining: s.initial, consumed: 0 }
}

/// The bounds every fuel manager keeps.
pub open spec fn fuel_state_wf(s: FuelState) -> bool {
    s.initial <= MAX_FUEL && s.remaining <= MAX_FUEL
}

impl FuelManager {
    #[verifier::type_invariant]
    spec fn inv(&self) -> bool {
        fuel_state_wf(self@)
    }

    /// A manager holding `initial_fuel`, none consumed.
    pub fn new(initial_fuel: u64) -> (m: Self)
        requires
            initial_fuel <= MAX_FUEL,
        ensures
            m@ == (FuelState { initial: initial_fuel, remaining: initial_fuel, consumed: 0 }),
    {
        FuelManager { initial_fuel, remaining_fuel: initial_fuel, consumed_fuel: 0 }
    }

    /// Consumes `amount` units of fuel.
    ///
    /// Zero is refused; so is more than what remains. On success the remaining
    /// fuel drops by `amount` and the total consumed grows by it.
    pub fn consume(&mut self, amount: u64) -> (r: Result<(), FuelError>)
        requires
            !consume_succeeds(old(self)@, amount) || old(self)@.consumed + amount <= u64::MAX,
        ensures
            fuel_state_wf(final(self)@),
            r is Ok <==> consume_succeeds(old(self)@, amount),
            r is Ok ==> final(self)@ == state_after_consume(old(self)@, amount),
            r is Err ==> final(self)@ == old(self)@,
            amount == 0 ==> (r matches Err(FuelError::InvalidAmount { amount: a, reason })
                && a == 0 && reason@ == "cannot consume zero fuel"@),
            amount > old(self)@.remaining ==> (r matches Err(FuelError::Exhausted { consumed, remaining })
                && consumed == old(self)@.consumed && remaining == old(self)@.remaining),
    {
        proof { use_type_invariant(&*self); }
        if amount == 0 {
            return Err(FuelError::InvalidAmount { amount: 0, reason: String::from_str("cannot consume zero fuel") });
        }
        if amount > self.remaining_fuel {
            return Err(FuelError::Exhausted { consumed: self.consumed_fuel, remaining: self.remaining_fuel });
        }
        self.remaining_fuel = self.remaining_fuel - amount;
        self.consumed_fuel = self.consumed_fuel + amount;
        Ok(())
    }

    /// Adds `amount` units of fuel.
    ///
    /// Zero is refused; so is an amount that would take the remaining fuel
    /// above `MAX_FUEL`. The total consumed is not touched.
    pub fn refuel(&mut self, amount: u64) -> (r: Result<(), FuelError>)
        ensures
            fuel_state_wf(final(self)@),
            r is Ok <==> refuel_succeeds(old(self)@, amount),
            r is Ok ==> final(self)@ == state_after_refuel(old(self)@, amount),
            r is Err ==> final(self)@ == old(self)@,
            amount == 0 ==> (r matches Err(FuelError::InvalidAmount { amount: a, reason })
                && a == 0 && reason@ == "cannot refuel with zero fuel"@),
            amount > 0 && old(self)@.remaining + amount > u64::MAX ==> r == Err::<(), FuelError>(
                FuelError::OverLimit { requested: amount, max: MAX_FUEL }),
            amount > 0 && old(self)@.remaining + amount <= u64::MAX && old(self)@.remaining + amount > MAX_FUEL
                ==> r == Err::<(), FuelError>(FuelError::OverLimit {
                    requested: amount, max: (MAX_FUEL - old(self)@.remaining) as u64 }),
    {
        proof { use_type_invariant(&*self); }
        if amount == 0 {
            return Err(FuelError::InvalidAmount { amount: 0, reason: String::from_str("cannot refuel with zero fuel") });
        }
        let new_remaining = match self.remaining_fuel.checked_add(amount) {
            Some(v) => v,
            None => { return Err(FuelError::OverLimit { requested: amount, max: MAX_FUEL }); },
        };
        if new_remaining > MAX_FUEL {
            return Err(FuelError::OverLimit { requested: amount, max: MAX_FUEL - self.remaining_fuel });
        }
        self.remaining_fuel = new_remaining;
        Ok(())
    }

    /// The fuel that remains.
    pub fn remaining(&self) -> (r: u64)
        ensures
            r == self@.remaining,
    {
        self.remaining_fuel
    }

    /// Whether no fuel remains.
    pub fn is_exhausted(&self) -> (r: bool)
        ensures
            r == (self@.remaining == 0),
    {
        self.remaining_fuel == 0
    }

    /// The fuel consumed in total since creation or the last reset.
    pub fn total_consumed(&self) -> (r: u64)
        ensures
            r == self@.consumed,
    {
        self.consumed_fuel
    }

    /// The initial allocation.
    pub fn initial_fuel(&self) -> (r: u64)
        ensures
            r == self@.initial,
    {
        self.initial_fuel
    }

    /// Restores the initial allocation and clears the consumed total.
    pub fn reset(&mut self)
        ensures
            final(self)@ == state_after_reset(old(self)@),
    {
        proof { use_type_invariant(&*self); }
        self.remaining_fuel = self.initial_fuel;
        self.consumed_fuel = 0;
    }
}

impl Default for FuelManager {
    /// A manager holding `DEFAULT_FUEL`.
    fn default() -> (m: Self)
        ensures
            m@ == (FuelState { initial: DEFAULT_FUEL, remaining: DEFAULT_FUEL, consumed: 0 }),
    {
        FuelManager::new(DEFAULT_FUEL)
    }
}

// ─── laws of fuel ─────────────────────────────────────────────────────────

/// Consumption moves fuel from remaining to consumed: their sum is kept.
pub proof fn law_consume_conserves(s: FuelState, amount: u64)
    requires
        consume_succeeds(s, amount),
        s.consumed + amount <= u64::MAX,
    ensures
        state_after_consume(s, amount).remaining + state_after_consume(s, amount).consumed
            == s.remaining + s.consumed,
        state_after_consume(s, amount).initial == s.initial,
{
}

/// Refuelling adds to what remains and leaves the consumed total alone.
pub proof fn law_refuel_keeps_consumed(s: FuelState, amount: u64)
    requires
        refuel_succeeds(s, amount),
    ensures
        state_after_refuel(s, amount).consumed == s.consumed,
        state_after_refuel(s, amount).remaining == s.remaining + amount,
{
}

/// Refuelling what was just consumed restores the remaining fuel; the
/// consumption stays counted.
pub proof fn law_consume_then_refuel(s: FuelState, amount: u64)
    requires
        fuel_state_wf(s),
        consume_succeeds(s, amount),
        s.consumed + amount <= u64::MAX,
    ensures
        refuel_succeeds(state_after_consume(s, amount), amount),
        state_after_refuel(state_after_consume(s, amount), amount).remaining == s.remaining,
        state_after_refuel(state_after_consume(s, amount), amount).consumed == s.consumed + amount,
{
}

/// A reset restores the initial allocation whatever happened before, and a
/// second reset changes nothing.
pub proof fn law_reset_restores(s: FuelState)
    ensures
        state_after_reset(s).remaining == s.initial,
        state_after_reset(s).consumed == 0,
        state_after_reset(state_after_reset(s)) == state_after_reset(s),
{
}

/// Every operation keeps the bounds of a fuel manager.
pub proof fn law_fuel_operations_keep_bounds(s: FuelState, amount: u64)
    requires
        fuel_state_wf(s),
    ensures
        consume_succeeds(s, amount) ==> fuel_state_wf(state_after_consume(s, amount)),
        refuel_succeeds(s, amount) ==> fuel_state_wf(state_after_refuel(s, amount)),
        fuel_state_wf(state_after_reset(s)),
{
}

// ─── keeping a manager in step with a store ───────────────────────────────

/// The state after taking in a store's reading `store_fuel`: where the
/// store holds less than what remains, the difference is consumed;
/// otherwise nothing changes.
pub open spec fn state_after_sync(s: FuelState, store_fuel: u64) -> FuelState {
    if store_fuel < s.remaining {
        state_after_consume(s, (s.remaining - store_fuel) as u64)
    } else {
        s
    }
}

/// The fuel a sync with reading `store_fuel` counts as consumed.
pub open spec fn consumed_by_sync(s: FuelState, store_fuel: u64) -> u64 {
    if store_fuel < s.remaining { (s.remaining - store_fuel) as u64 } else { 0 }
}

impl FuelManager {
    /// Takes in a store's fuel reading: what the store has used since the
    /// last sync is consumed here too. Answers the fuel so consumed; a
    /// reading at or above the remaining fuel consumes nothing.
    pub fn sync_with_reading(&mut self, store_fuel: u64) -> (consumed: u64)
        requires
            old(self)@.consumed + consumed_by_sync(old(self)@, store_fuel) <= u64::MAX,
        ensures
            consumed == consumed_by_sync(old(self)@, store_fuel),
            final(self)@ == state_after_sync(old(self)@, store_fuel),
    {
        let previous_remaining = self.remaining();
        if store_fuel < previous_remaining {
            let consumed = previous_remaining - store_fuel;
            let _ = self.consume(consumed);
            consumed
        } else {
            0
        }
    }
}

/// Whether taking in reading `store_fuel` would push the consumed total past
/// `u64::MAX`.
pub open spec fn sync_overflows(s: FuelState, store_fuel: u64) -> bool {
    s.consumed + consumed_by_sync(s, store_fuel) > u64::MAX
}

/// The state and answer after taking in a store's reading, which is either
/// the fuel left in the store or the text of the store's error: an error is
/// passed on and changes nothing; a reading that would push the consumed
/// total past `u64::MAX` is refused and changes nothing; any other reading
/// is synced (see `state_after_sync`) and the fuel consumed is answered.
pub open spec fn sync_outcome(s: FuelState, reading: Result<u64, Seq<char>>) -> (FuelState, Result<u64, Seq<char>>) {
    match reading {
        Err(e) => (s, Err(e)),
        Ok(store_fuel) => if sync_overflows(s, store_fuel) {
            (s, Err("fuel consumed counter overflow"@))
        } else {
            (state_after_sync(s, store_fuel), Ok(consumed_by_sync(s, store_fuel)))
        },
    }
}

/// A reading or an answer with its error as text.
pub open spec fn text_reply(r: Result<u64, String>) -> Result<u64, Seq<char>> {
    match r {
        Ok(v) => Ok(v),
        Err(e) => Err(e@),
    }
}

impl FuelManager {
    /// Takes in a store's reading, or the store's error (see
    /// `sync_outcome`).
    pub fn sync_from_reading(&mut self, reading: Result<u64, String>) -> (r: Result<u64, String>)
        ensures
            (final(self)@, text_reply(r)) == sync_outcome(old(self)@, text_reply(reading)),
    {
        match reading {
            Ok(store_fuel) => {
                let consumed = self.total_consumed();
                let remaining = self.remaining();
                if store_fuel < remaining && remaining - store_fuel > u64::MAX - consumed {
                    proof { reveal_strlit("fuel consumed counter overflow"); }
                    return Err(String::from_str("fuel consumed counter overflow"));
                }
                let used = self.sync_with_reading(store_fuel);
                Ok(used)
            },
            Err(e) => Err(e),
        }
    }
}

/// After a sync, the manager holds what the store holds, where the store
/// held no more than the manager.
pub proof fn law_sync_matches_store(s: FuelState, store_fuel: u64)
    requires
        store_fuel <= s.remaining,
        s.consumed + s.remaining <= u64::MAX,
    ensures
        state_after_sync(s, store_fuel).remaining == store_fuel,
        state_after_sync(s, store_fuel).consumed == s.consumed + consumed_by_sync(s, store_fuel),
{
}

#[verifier::external_type_specification]
#[verifier::external_body]
#[verifier::reject_recursive_types(T)]
pub struct ExStore<T: 'static>(wasmtime::Store<T>);

/// `Store::get_fuel`: the fuel left in the store, or the text of its error
/// (fuel consumption not enabled in the engine). What the store holds is
/// not stated: it changes as guest code runs.
#[verifier::external_body]
fn store_get_fuel<T: 'static>(store: &wasmtime::Store<T>) -> (r: Result<u64, String>) {
    store.get_fuel().map_err(|e| format!("{}", e))
}

/// `Store::set_fuel`: gives the store `fuel` to run on, or the text of its
/// error (fuel consumption not enabled in the engine). Nothing is stated of
/// the store.
#[verifier::external_body]
fn store_set_fuel<T: 'static>(store: &mut wasmtime::Store<T>, fuel: u64) -> (r: Result<(), String>) {
    store.set_fuel(fuel).map_err(|e| format!("{}", e))
}

/// Gives `store` `fuel` to run on. Fails where the store's engine does not
/// meter fuel.
pub fn configure_store_with_fuel<T: 'static>(store: &mut wasmtime::Store<T>, fuel: u64) -> (r: Result<(), String>) {
    store_set_fuel(store, fuel)
}

/// Brings `manager` in step with `store`: the store's fuel is read
/// (`Store::get_fuel`) and taken in by `sync_from_reading`. The store's
/// error is passed on, leaving the manager as it was; so is a refusal where
/// the consumed total would pass `u64::MAX`. Which reading the store gives
/// is not stated.
pub fn sync_fuel_from_store<T: 'static>(store: &wasmtime::Store<T>, manager: &mut FuelManager) -> (r: Result<u64, String>)
    ensures
        exists|reading: Result<u64, Seq<char>>|
            (final(manager)@, text_reply(r)) == #[trigger] sync_outcome(old(manager)@, reading),
        r is Err ==> final(manager)@ == old(manager)@,
        r matches Ok(consumed) ==> exists|store_fuel: u64| consumed == consumed_by_sync(old(manager)@, store_fuel)
            && final(manager)@ == #[trigger] state_after_sync(old(manager)@, store_fuel),
{
    let reading = store_get_fuel(store);
    let r = manager.sync_from_reading(reading);
    proof {
        let rd = text_reply(reading);
        assert((final(manager)@, text_reply(r)) == sync_outcome(old(manager)@, rd));
        if rd is Ok {
            assert(final(manager)@ == state_after_sync(old(manager)@, rd->Ok_0) || r is Err);
        }
    }
    r
}

/// Gives `store` the fuel that `manager` has left. Fails where the store's
/// engine does not meter fuel.
pub fn apply_fuel_to_store<T: 'static>(store: &mut wasmtime::Store<T>, manager: &FuelManager) -> (r: Result<(), String>) {
    store_set_fuel(store, manager.remaining())
}

} // verus!
