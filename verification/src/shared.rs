//! State shared between clones of a backend handle, behind a read-write lock.
//!
//! The in-memory backends keep their state in an `Arc<RwLock<_>>`, so that
//! clones of a handle see each other's changes. Under the lock runs one
//! operation of the state's `Guarded` impl; the lock itself is `std`'s.
//!
//! Only the backend states of this crate implement `Guarded`. Their
//! operations are plain values (keys, amounts, messages) and their `apply`
//! and `query` are verified functions on the state alone, which touch no
//! lock. The functions that take a lock (`lock_write`, `lock_read`) are
//! private to this file and called only by `lock_apply` and `lock_query`,
//! each once, which release the guard before they return: a thread that
//! holds a lock never asks for it again, so the case in which
//! `RwLock::write` and `RwLock::read` may panic or deadlock (the lock
//! already held by the current thread) does not arise.

use vstd::prelude::*;
use std::sync::{RwLock, RwLockReadGuard, RwLockWriteGuard};

verus! {

#[verifier::external_type_specification]
#[verifier::external_body]
#[verifier::reject_recursive_types(T)]
pub struct ExRwLock<T: ?Sized>(RwLock<T>);

/// A state that lives behind a lock, with the operations that may run under
/// it: `Op`s change the state and answer an `Answer`; `Query`s only read it
/// and answer a `Reply`.
pub(crate) trait Guarded: Sized {
    type Op;
    type Answer;
    type Query;
    type Reply;

    /// `op` on `self` leaves `next` and answers `answer`.
    spec fn applies(self, op: Self::Op, next: Self, answer: Self::Answer) -> bool;

    /// `q` on `self` answers `reply`.
    spec fn replies(&self, q: Self::Query, reply: Self::Reply) -> bool;

    /// Runs `op` on the state.
    fn apply(&mut self, op: Self::Op) -> (answer: Self::Answer)
        ensures
            Self::applies(*old(self), op, *final(self), answer),
    ;

    /// Answers `q` from the state.
    fn query(&self, q: &Self::Query) -> (reply: Self::Reply)
        ensures
            self.replies(*q, reply),
    ;
}

/// `r` is the refusal of a poisoned lock.
pub open spec fn lock_failed<T>(r: Result<T, String>) -> bool {
    r matches Err(e) && e@.len() >= 12 && e@.subrange(0, 12) == "Lock error: "@
}

/// `RwLock::new`: a lock holding `value`. Nothing is claimed of the lock
/// beyond its type: what it holds is read back only through the functions
/// below.
#[verifier::external_body]
pub(crate) fn lock_new<T>(value: T) -> (lock: RwLock<T>) {
    RwLock::new(value)
}

#[verifier::external_type_specification]
#[verifier::external_body]
#[verifier::reject_recursive_types(T)]
pub struct ExRwLockWriteGuard<'a, T: ?Sized + 'a>(RwLockWriteGuard<'a, T>);

#[verifier::external_type_specification]
#[verifier::external_body]
#[verifier::reject_recursive_types(T)]
pub struct ExRwLockReadGuard<'a, T: ?Sized>(RwLockReadGuard<'a, T>);

/// `RwLock::write`: the write guard of `lock`, or, where the lock is
/// poisoned, "Lock error: " followed by the poison error's text. Claimed of
/// an error: it begins with "Lock error: ". Nothing is claimed of the guard.
#[verifier::external_body]
fn lock_write<'a, T>(lock: &'a RwLock<T>) -> (r: Result<RwLockWriteGuard<'a, T>, String>)
    ensures
        r matches Err(e) ==> e@.len() >= 12 && e@.subrange(0, 12) == "Lock error: "@,
{
    lock.write().map_err(|e| format!("Lock error: {}", e))
}

/// `RwLock::read`: the read guard of `lock`, or, where the lock is
/// poisoned, "Lock error: " followed by the poison error's text. Claimed of
/// an error: it begins with "Lock error: ". Nothing is claimed of the guard.
#[verifier::external_body]
fn lock_read<'a, T>(lock: &'a RwLock<T>) -> (r: Result<RwLockReadGuard<'a, T>, String>)
    ensures
        r matches Err(e) ==> e@.len() >= 12 && e@.subrange(0, 12) == "Lock error: "@,
{
    lock.read().map_err(|e| format!("Lock error: {}", e))
}

/// `DerefMut` of a write guard: the state it guards. Nothing is claimed of
/// that state: other handles may have changed it.
#[verifier::external_body]
fn guard_state_mut<'a, 'b, T>(guard: &'b mut RwLockWriteGuard<'a, T>) -> (state: &'b mut T) {
    &mut **guard
}

/// `Deref` of a read guard: the state it guards. Nothing is claimed of that
/// state: other handles may have changed it.
#[verifier::external_body]
fn guard_state<'a, 'b, T>(guard: &'b RwLockReadGuard<'a, T>) -> (state: &'b T) {
    &**guard
}

/// Takes the write lock and runs `op` on the state it guards
/// (`Guarded::apply`), answering what `op` answers; the lock is released on
/// return. A poisoned lock answers "Lock error: ..." and runs nothing.
/// Which state the lock held is not stated: other handles may have changed
/// it.
pub(crate) fn lock_apply<T: Guarded>(lock: &RwLock<T>, op: T::Op) -> (r: Result<T::Answer, String>)
    ensures
        r matches Ok(a) ==> exists|pre: T, post: T| #[trigger] pre.applies(op, post, a),
        r matches Err(e) ==> e@.len() >= 12 && e@.subrange(0, 12) == "Lock error: "@,
{
    match lock_write(lock) {
        Ok(mut guard) => {
            let state = guard_state_mut(&mut guard);
            let ghost pre = *state;
            let answer = state.apply(op);
            let ghost post = *state;
            let r: Result<T::Answer, String> = Ok(answer);
            assert(r->Ok_0 == answer);
            assert(pre.applies(op, post, r->Ok_0));
            r
        },
        Err(e) => Err(e),
    }
}

/// Takes the read lock and answers `q` from the state it guards
/// (`Guarded::query`); the lock is released on return. A poisoned lock
/// answers "Lock error: ...".
pub(crate) fn lock_query<T: Guarded>(lock: &RwLock<T>, q: T::Query) -> (r: Result<T::Reply, String>)
    ensures
        r matches Ok(a) ==> exists|s: T| #[trigger] s.replies(q, a),
        r matches Err(e) ==> e@.len() >= 12 && e@.subrange(0, 12) == "Lock error: "@,
{
    match lock_read(lock) {
        Ok(guard) => {
            let state = guard_state(&guard);
            let reply = state.query(&q);
            let r: Result<T::Reply, String> = Ok(reply);
            assert(r->Ok_0 == reply);
            assert(state.replies(q, r->Ok_0));
            r
        },
        Err(e) => Err(e),
    }
}

} // verus!
