//! Key-value storage for sandboxes.
//!
//! `StoreState` is a map from byte keys to byte values; `InMemoryStorage`
//! shares one `StoreState` between clones of a handle, behind a lock. The
//! host functions check capabilities and sizes before asking a backend.

use vstd::prelude::*;
use vstd::string::*;
use std::sync::{Arc, RwLock};
use crate::shared::{Guarded, lock_new, lock_apply, lock_query, lock_failed};
use crate::capability::{CapabilitySet, CapabilityType, CapabilityScope, CapabilityGrant};
use crate::host::{HostCallResult, check_capability, gated, failed_with, succeeded_empty, succeeded_with};
use crate::text::join2;

verus! {

/// Largest key, in bytes.
pub const MAX_KEY_SIZE: usize = 1024;

/// Largest value, in bytes (10 MiB).
pub const MAX_VALUE_SIZE: usize = 10485760;

/// A storage backend, as the host functions use it. Implementations provide
/// the storage itself (in memory, on disk, in a database, ...), and say in
/// the `*_reply` spec functions what each method may answer.
pub trait StorageBackend: Send + Sync {
    /// What a read of `key` may answer.
    spec fn read_reply(&self, key: Seq<u8>, r: Result<Option<Vec<u8>>, String>) -> bool;

    /// What a write of `value` under `key` may answer.
    spec fn write_reply(&self, key: Seq<u8>, value: Seq<u8>, r: Result<(), String>) -> bool;

    /// What a delete of `key` may answer.
    spec fn delete_reply(&self, key: Seq<u8>, r: Result<bool, String>) -> bool;

    /// What a count may answer.
    spec fn count_reply(&self, r: Result<usize, String>) -> bool;

    /// What a clear may answer.
    spec fn clear_reply(&self, r: Result<(), String>) -> bool;

    /// The value stored under `key`, or `None` where there is none.
    fn read(&self, key: &[u8]) -> (r: Result<Option<Vec<u8>>, String>)
        ensures
            self.read_reply(key@, r),
    ;

    /// Stores `value` under `key`, replacing any earlier value.
    fn write(&self, key: &[u8], value: &[u8]) -> (r: Result<(), String>)
        ensures
            self.write_reply(key@, value@, r),
    ;

    /// Removes `key`; answers whether it was there.
    fn delete(&self, key: &[u8]) -> (r: Result<bool, String>)
        ensures
            self.delete_reply(key@, r),
    ;

    /// The number of stored keys.
    fn count(&self) -> (r: Result<usize, String>)
        ensures
            self.count_reply(r),
    ;

    /// Removes every key.
    fn clear(&self) -> (r: Result<(), String>)
        ensures
            self.clear_reply(r),
    ;
}

// ─── the model ────────────────────────────────────────────────────────────

/// The value stored under `k` in `m`, if any.
pub open spec fn stored_value(m: Map<Seq<u8>, Seq<u8>>, k: Seq<u8>) -> Option<Seq<u8>> {
    if m.dom().contains(k) { Some(m[k]) } else { None }
}

/// The bytes of an optional value.
pub open spec fn value_view(v: Option<Vec<u8>>) -> Option<Seq<u8>> {
    match v {
        Some(x) => Some(x@),
        None => None,
    }
}

/// The map that a list of (key, value) pairs describes; a later pair for
/// the same key overrides an earlier one.
pub open spec fn pairs_map(s: Seq<(Seq<u8>, Seq<u8>)>) -> Map<Seq<u8>, Seq<u8>>
    decreases s.len(),
{
    if s.len() == 0 {
        Map::empty()
    } else {
        pairs_map(s.drop_last()).insert(s.last().0, s.last().1)
    }
}

/// No key occurs twice in `s`.
pub open spec fn keys_distinct(s: Seq<(Seq<u8>, Seq<u8>)>) -> bool {
    forall|i: int, j: int| 0 <= i < s.len() && 0 <= j < s.len() && i != j
        ==> (#[trigger] s[i]).0 != (#[trigger] s[j]).0
}

/// The bytes of a list of stored pairs.
pub open spec fn pairs_view(es: Seq<(Vec<u8>, Vec<u8>)>) -> Seq<(Seq<u8>, Seq<u8>)> {
    es.map_values(|e: (Vec<u8>, Vec<u8>)| (e.0@, e.1@))
}

proof fn lemma_pairs_absent(s: Seq<(Seq<u8>, Seq<u8>)>, k: Seq<u8>)
    requires
        forall|j: int| 0 <= j < s.len() ==> (#[trigger] s[j]).0 != k,
    ensures
        !pairs_map(s).dom().contains(k),
    decreases s.len(),
{
    if s.len() > 0 {
        assert forall|j: int| 0 <= j < s.drop_last().len() implies (#[trigger] s.drop_last()[j]).0 != k by {
            assert(s.drop_last()[j] == s[j]);
        }
        lemma_pairs_absent(s.drop_last(), k);
        assert(s.last() == s[s.len() - 1]);
    }
}

proof fn lemma_pairs_present(s: Seq<(Seq<u8>, Seq<u8>)>, i: int)
    requires
        keys_distinct(s),
        0 <= i < s.len(),
    ensures
        pairs_map(s).dom().contains(s[i].0),
        pairs_map(s)[s[i].0] == s[i].1,
    decreases s.len(),
{
    if i < s.len() - 1 {
        let t = s.drop_last();
        assert forall|a: int, b: int| 0 <= a < t.len() && 0 <= b < t.len() && a != b
            implies (#[trigger] t[a]).0 != (#[trigger] t[b]).0 by {
            assert(t[a] == s[a] && t[b] == s[b]);
        }
        assert(t[i] == s[i]);
        lemma_pairs_present(t, i);
        assert(s.last() == s[s.len() - 1]);
    }
}

proof fn lemma_pairs_update(s: Seq<(Seq<u8>, Seq<u8>)>, i: int, e: (Seq<u8>, Seq<u8>))
    requires
        keys_distinct(s),
        0 <= i < s.len(),
        e.0 == s[i].0,
    ensures
        pairs_map(s.update(i, e)) == pairs_map(s).insert(e.0, e.1),
        keys_distinct(s.update(i, e)),
    decreases s.len(),
{
    let s2 = s.update(i, e);
    assert forall|a: int, b: int| 0 <= a < s2.len() && 0 <= b < s2.len() && a != b
        implies (#[trigger] s2[a]).0 != (#[trigger] s2[b]).0 by {
        assert(s2[a].0 == s[a].0 && s2[b].0 == s[b].0);
    }
    if i == s.len() - 1 {
        assert(s2.drop_last() =~= s.drop_last());
        assert(pairs_map(s2) =~= pairs_map(s).insert(e.0, e.1));
    } else {
        let t = s.drop_last();
        assert forall|a: int, b: int| 0 <= a < t.len() && 0 <= b < t.len() && a != b
            implies (#[trigger] t[a]).0 != (#[trigger] t[b]).0 by {
            assert(t[a] == s[a] && t[b] == s[b]);
        }
        assert(s2.drop_last() =~= t.update(i, e));
        assert(t[i] == s[i]);
        lemma_pairs_update(t, i, e);
        assert(s2.last() == s.last());
        assert(s.last() == s[s.len() - 1]);
        assert(pairs_map(s2) =~= pairs_map(s).insert(e.0, e.1));
    }
}

proof fn lemma_pairs_push(s: Seq<(Seq<u8>, Seq<u8>)>, e: (Seq<u8>, Seq<u8>))
    requires
        keys_distinct(s),
        forall|j: int| 0 <= j < s.len() ==> (#[trigger] s[j]).0 != e.0,
    ensures
        pairs_map(s.push(e)) == pairs_map(s).insert(e.0, e.1),
        keys_distinct(s.push(e)),
{
    assert(s.push(e).drop_last() =~= s);
    let s2 = s.push(e);
    assert forall|a: int, b: int| 0 <= a < s2.len() && 0 <= b < s2.len() && a != b
        implies (#[trigger] s2[a]).0 != (#[trigger] s2[b]).0 by {
        if a < s.len() { assert(s2[a] == s[a]); }
        if b < s.len() { assert(s2[b] == s[b]); }
    }
}

proof fn lemma_pairs_remove(s: Seq<(Seq<u8>, Seq<u8>)>, i: int)
    requires
        keys_distinct(s),
        0 <= i < s.len(),
    ensures
        pairs_map(s.remove(i)) == pairs_map(s).remove(s[i].0),
        keys_distinct(s.remove(i)),
    decreases s.len(),
{
    let s2 = s.remove(i);
    assert forall|a: int, b: int| 0 <= a < s2.len() && 0 <= b < s2.len() && a != b
        implies (#[trigger] s2[a]).0 != (#[trigger] s2[b]).0 by {
        let a1 = if a < i { a } else { a + 1 };
        let b1 = if b < i { b } else { b + 1 };
        assert(s2[a] == s[a1] && s2[b] == s[b1]);
    }
    let k = s[i].0;
    if i == s.len() - 1 {
        assert(s2 =~= s.drop_last());
        assert forall|j: int| 0 <= j < s2.len() implies (#[trigger] s2[j]).0 != k by {
            assert(s2[j] == s[j]);
        }
        lemma_pairs_absent(s2, k);
        assert(pairs_map(s2) =~= pairs_map(s).remove(k));
    } else {
        let t = s.drop_last();
        assert forall|a: int, b: int| 0 <= a < t.len() && 0 <= b < t.len() && a != b
            implies (#[trigger] t[a]).0 != (#[trigger] t[b]).0 by {
            assert(t[a] == s[a] && t[b] == s[b]);
        }
        assert(t[i] == s[i]);
        lemma_pairs_remove(t, i);
        assert(s2.drop_last() =~= t.remove(i));
        assert(s2.last() == s.last());
        assert(s.last() == s[s.len() - 1]);
        assert(s.last().0 != k);
        assert(pairs_map(s2) =~= pairs_map(s).remove(k));
    }
}

proof fn lemma_pairs_len(s: Seq<(Seq<u8>, Seq<u8>)>)
    requires
        keys_distinct(s),
    ensures
        pairs_map(s).dom().finite(),
        pairs_map(s).dom().len() == s.len(),
    decreases s.len(),
{
    if s.len() > 0 {
        let t = s.drop_last();
        assert forall|a: int, b: int| 0 <= a < t.len() && 0 <= b < t.len() && a != b
            implies (#[trigger] t[a]).0 != (#[trigger] t[b]).0 by {
            assert(t[a] == s[a] && t[b] == s[b]);
        }
        lemma_pairs_len(t);
        assert forall|j: int| 0 <= j < t.len() implies (#[trigger] t[j]).0 != s.last().0 by {
            assert(t[j] == s[j]);
            assert(s.last() == s[s.len() - 1]);
        }
        lemma_pairs_absent(t, s.last().0);
    }
}

// ─── laws of storage ──────────────────────────────────────────────────────

/// A read after a write of `v` under `k` gives `v`; reads of other keys
/// are unchanged by it.
pub proof fn law_read_after_write(m: Map<Seq<u8>, Seq<u8>>, k: Seq<u8>, v: Seq<u8>, k2: Seq<u8>)
    ensures
        stored_value(m.insert(k, v), k) == Some(v),
        k2 != k ==> stored_value(m.insert(k, v), k2) == stored_value(m, k2),
{
}

/// A write replaces what an earlier write stored under the same key.
pub proof fn law_overwrite(m: Map<Seq<u8>, Seq<u8>>, k: Seq<u8>, v1: Seq<u8>, v2: Seq<u8>)
    ensures
        m.insert(k, v1).insert(k, v2) == m.insert(k, v2),
{
    assert(m.insert(k, v1).insert(k, v2) =~= m.insert(k, v2));
}

/// After a delete of `k`, a read of `k` finds nothing; reads of other keys
/// are unchanged; the delete reports whether `k` was there.
pub proof fn law_read_after_delete(m: Map<Seq<u8>, Seq<u8>>, k: Seq<u8>, k2: Seq<u8>)
    ensures
        stored_value(m.remove(k), k) is None,
        k2 != k ==> stored_value(m.remove(k), k2) == stored_value(m, k2),
        m.dom().contains(k) == (stored_value(m, k) is Some),
{
}

/// A write of a new key adds one to the count; a write of a stored key and
/// a delete of an absent key leave it; a delete of a stored key takes one.
pub proof fn law_count(m: Map<Seq<u8>, Seq<u8>>, k: Seq<u8>, v: Seq<u8>)
    requires
        m.dom().finite(),
    ensures
        !m.dom().contains(k) ==> m.insert(k, v).dom().len() == m.dom().len() + 1,
        m.dom().contains(k) ==> m.insert(k, v).dom().len() == m.dom().len(),
        m.dom().contains(k) ==> m.remove(k).dom().len() == m.dom().len() - 1,
        !m.dom().contains(k) ==> m.remove(k).dom().len() == m.dom().len(),
{
    assert(m.insert(k, v).dom() =~= m.dom().insert(k));
    assert(m.remove(k).dom() =~= m.dom().remove(k));
    if !m.dom().contains(k) {
        assert(m.dom().remove(k) =~= m.dom());
    } else {
        assert(m.dom().insert(k) =~= m.dom());
    }
}

// ─── the store ────────────────────────────────────────────────────────────

/// Whether two byte strings are equal.
pub fn bytes_eq(a: &[u8], b: &[u8]) -> (r: bool)
    ensures
        r == (a@ == b@),
{
    if a.len() != b.len() {
        return false;
    }
    let mut i: usize = 0;
    while i < a.len()
        invariant
            i <= a@.len(),
            a@.len() == b@.len(),
            forall|j: int| 0 <= j < i ==> a@[j] == b@[j],
        decreases a@.len() - i,
    {
        if a[i] != b[i] {
            assert(a@[i as int] != b@[i as int]);
            return false;
        }
        i = i + 1;
    }
    assert(a@ =~= b@);
    true
}

/// A map from byte keys to byte values.
#[derive(Debug)]
pub struct StoreState {
    entries: Vec<(Vec<u8>, Vec<u8>)>,
}

impl View for StoreState {
    type V = Map<Seq<u8>, Seq<u8>>;

    closed spec fn view(&self) -> Map<Seq<u8>, Seq<u8>> {
        pairs_map(pairs_view(self.entries@))
    }
}

impl StoreState {
    #[verifier::type_invariant]
    spec fn inv(&self) -> bool {
        keys_distinct(pairs_view(self.entries@))
    }

    /// An empty store.
    pub fn new() -> (s: Self)
        ensures
            s@ == Map::<Seq<u8>, Seq<u8>>::empty(),
    {
        let s = StoreState { entries: Vec::new() };
        assert(pairs_view(s.entries@) =~= Seq::<(Seq<u8>, Seq<u8>)>::empty());
        assert(s@ =~= Map::<Seq<u8>, Seq<u8>>::empty());
        s
    }

    /// The position of `key`, if it is stored.
    fn find(&self, key: &[u8]) -> (r: Option<usize>)
        ensures
            r matches Some(i) ==> i < self.entries@.len() && self.entries@[i as int].0@ == key@,
            r is None ==> forall|j: int| 0 <= j < self.entries@.len()
                ==> (#[trigger] self.entries@[j]).0@ != key@,
    {
        let n = self.entries.len();
        let mut i: usize = 0;
        while i < n
            invariant
                n == self.entries@.len(),
                i <= n,
                forall|j: int| 0 <= j < i ==> (#[trigger] self.entries@[j]).0@ != key@,
            decreases n - i,
        {
            if bytes_eq(self.entries[i].0.as_slice(), key) {
                return Some(i);
            }
            i = i + 1;
        }
        None
    }

    /// The value stored under `key`, if any.
    pub fn read(&self, key: &[u8]) -> (r: Option<Vec<u8>>)
        ensures
            value_view(r) == stored_value(self@, key@),
    {
        proof { use_type_invariant(self); }
        let ghost pv = pairs_view(self.entries@);
        match self.find(key) {
            Some(i) => {
                proof {
                    assert(pv[i as int] == (self.entries@[i as int].0@, self.entries@[i as int].1@));
                    lemma_pairs_present(pv, i as int);
                }
                Some(vstd::slice::slice_to_vec(self.entries[i].1.as_slice()))
            },
            None => {
                proof {
                    assert forall|j: int| 0 <= j < pv.len() implies (#[trigger] pv[j]).0 != key@ by {
                        assert(pv[j].0 == self.entries@[j].0@);
                    }
                    lemma_pairs_absent(pv, key@);
                }
                None
            },
        }
    }

    /// Stores `value` under `key`, replacing any earlier value.
    pub fn write(&mut self, key: &[u8], value: &[u8])
        ensures
            final(self)@ == old(self)@.insert(key@, value@),
    {
        proof { use_type_invariant(&*self); }
        let ghost pv = pairs_view(self.entries@);
        let pos = self.find(key);
        let mut entries: Vec<(Vec<u8>, Vec<u8>)> = Vec::new();
        std::mem::swap(&mut entries, &mut self.entries);
        let e = (vstd::slice::slice_to_vec(key), vstd::slice::slice_to_vec(value));
        match pos {
            Some(i) => {
                proof {
                    assert(pv[i as int].0 == key@);
                    lemma_pairs_update(pv, i as int, (key@, value@));
                }
                entries.set(i, e);
                assert(pairs_view(entries@) =~= pv.update(i as int, (key@, value@)));
            },
            None => {
                proof {
                    assert forall|j: int| 0 <= j < pv.len() implies (#[trigger] pv[j]).0 != key@ by {
                        assert(pv[j].0 == entries@[j].0@);
                    }
                    lemma_pairs_push(pv, (key@, value@));
                }
                entries.push(e);
                assert(pairs_view(entries@) =~= pv.push((key@, value@)));
            },
        }
        self.entries = entries;
    }

    /// Removes `key`; answers whether it was stored.
    pub fn delete(&mut self, key: &[u8]) -> (found: bool)
        ensures
            found == old(self)@.dom().contains(key@),
            final(self)@ == old(self)@.remove(key@),
    {
        proof { use_type_invariant(&*self); }
        let ghost pv = pairs_view(self.entries@);
        match self.find(key) {
            Some(i) => {
                proof {
                    lemma_pairs_present(pv, i as int);
                    lemma_pairs_remove(pv, i as int);
                }
                let mut entries: Vec<(Vec<u8>, Vec<u8>)> = Vec::new();
                std::mem::swap(&mut entries, &mut self.entries);
                entries.remove(i);
                assert(pairs_view(entries@) =~= pv.remove(i as int));
                self.entries = entries;
                true
            },
            None => {
                proof {
                    assert forall|j: int| 0 <= j < pv.len() implies (#[trigger] pv[j]).0 != key@ by {
                        assert(pv[j].0 == self.entries@[j].0@);
                    }
                    lemma_pairs_absent(pv, key@);
                    assert(self@.remove(key@) =~= self@);
                }
                false
            },
        }
    }

    /// The number of stored keys.
    pub fn count(&self) -> (n: usize)
        ensures
            self@.dom().finite(),
            n == self@.dom().len(),
    {
        proof {
            use_type_invariant(self);
            lemma_pairs_len(pairs_view(self.entries@));
        }
        self.entries.len()
    }

    /// Removes every key.
    pub fn clear(&mut self)
        ensures
            final(self)@ == Map::<Seq<u8>, Seq<u8>>::empty(),
    {
        self.entries = Vec::new();
        assert(pairs_view(self.entries@) =~= Seq::<(Seq<u8>, Seq<u8>)>::empty());
        assert(self@ =~= Map::<Seq<u8>, Seq<u8>>::empty());
    }
}

// ─── the shared in-memory store ───────────────────────────────────────────

/// A change to a store, run under its lock.
pub(crate) enum StoreOp {
    Write(Vec<u8>, Vec<u8>),
    Delete(Vec<u8>),
    Clear,
}

/// A question to a store, answered under its lock.
pub(crate) enum StoreQuery {
    Read(Vec<u8>),
    Count,
}

/// The answer to a `StoreQuery`.
pub(crate) enum StoreReply {
    Value(Option<Vec<u8>>),
    Count(usize),
}

impl Guarded for StoreState {
    type Op = StoreOp;
    /// Whether a deleted key was there (false for the other changes).
    type Answer = bool;
    type Query = StoreQuery;
    type Reply = StoreReply;

    closed spec fn applies(self, op: StoreOp, next: Self, answer: bool) -> bool {
        match op {
            StoreOp::Write(k, v) => next@ == self@.insert(k@, v@),
            StoreOp::Delete(k) => next@ == self@.remove(k@) && answer == self@.dom().contains(k@),
            StoreOp::Clear => next@ == Map::<Seq<u8>, Seq<u8>>::empty(),
        }
    }

    closed spec fn replies(&self, q: StoreQuery, reply: StoreReply) -> bool {
        match q {
            StoreQuery::Read(k) => reply matches StoreReply::Value(v) && value_view(v) == stored_value(self@, k@),
            StoreQuery::Count => reply matches StoreReply::Count(n) && self@.dom().finite() && n == self@.dom().len(),
        }
    }

    fn apply(&mut self, op: StoreOp) -> (answer: bool) {
        match op {
            StoreOp::Write(k, v) => {
                self.write(k.as_slice(), v.as_slice());
                false
            },
            StoreOp::Delete(k) => self.delete(k.as_slice()),
            StoreOp::Clear => {
                self.clear();
                false
            },
        }
    }

    fn query(&self, q: &StoreQuery) -> (reply: StoreReply) {
        match q {
            StoreQuery::Read(k) => StoreReply::Value(self.read(k.as_slice())),
            StoreQuery::Count => StoreReply::Count(self.count()),
        }
    }
}

/// In-memory storage for testing and development. Clones share one store:
/// a change through one handle is seen through all.
///
/// Each operation runs the `StoreState` operation of the same name under
/// the lock. What the store holds between two calls is not stated, since
/// another handle may change it: a reply is stated as the answer of the
/// operation on some store, or the refusal of a poisoned lock.
#[derive(Debug, Clone)]
pub struct InMemoryStorage {
    data: Arc<RwLock<StoreState>>,
}

impl InMemoryStorage {
    /// A handle on a new, empty store.
    pub fn new() -> (s: Self) {
        InMemoryStorage { data: Arc::new(lock_new(StoreState::new())) }
    }
}

impl Default for InMemoryStorage {
    /// A handle on a new, empty store.
    fn default() -> (s: Self) {
        InMemoryStorage::new()
    }
}

impl StorageBackend for InMemoryStorage {
    /// The value under `key` in some store, or a lock refusal.
    open spec fn read_reply(&self, key: Seq<u8>, r: Result<Option<Vec<u8>>, String>) -> bool {
        lock_failed(r) || exists|m: Map<Seq<u8>, Seq<u8>>|
            r matches Ok(v) && value_view(v) == #[trigger] stored_value(m, key)
    }

    /// Success, or a lock refusal.
    open spec fn write_reply(&self, key: Seq<u8>, value: Seq<u8>, r: Result<(), String>) -> bool {
        lock_failed(r) || r is Ok
    }

    /// Whether `key` was in some store, or a lock refusal.
    open spec fn delete_reply(&self, key: Seq<u8>, r: Result<bool, String>) -> bool {
        lock_failed(r) || exists|m: Map<Seq<u8>, Seq<u8>>|
            r == Ok::<bool, String>(#[trigger] m.dom().contains(key))
    }

    /// The number of keys of some finite store, or a lock refusal.
    open spec fn count_reply(&self, r: Result<usize, String>) -> bool {
        lock_failed(r) || exists|m: Map<Seq<u8>, Seq<u8>>| m.dom().finite()
            && r == Ok::<usize, String>((#[trigger] m.dom().len()) as usize)
    }

    /// Success, or a lock refusal.
    open spec fn clear_reply(&self, r: Result<(), String>) -> bool {
        lock_failed(r) || r is Ok
    }

    /// The value under `key` in the shared store.
    fn read(&self, key: &[u8]) -> (r: Result<Option<Vec<u8>>, String>) {
        let q = StoreQuery::Read(vstd::slice::slice_to_vec(key));
        let ghost gq = q;
        match lock_query(&*self.data, q) {
            Ok(StoreReply::Value(v)) => {
                proof {
                    let s = choose|s: StoreState| #[trigger] s.replies(gq, StoreReply::Value(v));
                    assert(value_view(v) == stored_value(s@, key@));
                }
                Ok(v)
            },
            Ok(StoreReply::Count(n)) => {
                proof {
                    let s = choose|s: StoreState| #[trigger] s.replies(gq, StoreReply::Count(n));
                    assert(false);
                }
                Ok(None)
            },
            Err(e) => Err(e),
        }
    }

    /// Writes `value` under `key` in the shared store.
    fn write(&self, key: &[u8], value: &[u8]) -> (r: Result<(), String>) {
        let op = StoreOp::Write(vstd::slice::slice_to_vec(key), vstd::slice::slice_to_vec(value));
        match lock_apply(&*self.data, op) {
            Ok(_) => Ok(()),
            Err(e) => Err(e),
        }
    }

    /// Deletes `key` from the shared store; answers whether it was there.
    fn delete(&self, key: &[u8]) -> (r: Result<bool, String>) {
        let op = StoreOp::Delete(vstd::slice::slice_to_vec(key));
        let ghost gop = op;
        let out = lock_apply(&*self.data, op);
        proof {
            if out is Ok {
                let (pre, post) = choose|pre: StoreState, post: StoreState| #[trigger] pre.applies(gop, post, out->Ok_0);
                assert(out->Ok_0 == pre@.dom().contains(key@));
            }
        }
        out
    }

    /// The number of keys in the shared store.
    fn count(&self) -> (r: Result<usize, String>) {
        let q = StoreQuery::Count;
        let ghost gq = q;
        match lock_query(&*self.data, q) {
            Ok(StoreReply::Count(n)) => {
                proof {
                    let s = choose|s: StoreState| #[trigger] s.replies(gq, StoreReply::Count(n));
                    assert(s@.dom().finite() && n == s@.dom().len());
                }
                Ok(n)
            },
            Ok(StoreReply::Value(v)) => {
                proof {
                    let s = choose|s: StoreState| #[trigger] s.replies(gq, StoreReply::Value(v));
                    assert(false);
                }
                Ok(0)
            },
            Err(e) => Err(e),
        }
    }

    /// Empties the shared store.
    fn clear(&self) -> (r: Result<(), String>) {
        match lock_apply(&*self.data, StoreOp::Clear) {
            Ok(_) => Ok(()),
            Err(e) => Err(e),
        }
    }
}

// ─── host functions ───────────────────────────────────────────────────────

/// The refusal of a key: empty, or longer than `MAX_KEY_SIZE`.
pub open spec fn key_refusal(key: Seq<u8>) -> Option<Seq<char>> {
    if key.len() == 0 {
        Some("Key cannot be empty"@)
    } else if key.len() > MAX_KEY_SIZE {
        Some("Key size exceeds maximum of 1024 bytes"@)
    } else {
        None
    }
}

/// Checks a key's size.
fn check_key(key: &[u8]) -> (r: Option<HostCallResult>)
    ensures
        key_refusal(key@) is None ==> r is None,
        key_refusal(key@) matches Some(msg) ==> (r matches Some(x) && failed_with(x, msg)),
{
    if key.len() == 0 {
        return Some(HostCallResult::error("Key cannot be empty"));
    }
    if key.len() > MAX_KEY_SIZE {
        return Some(HostCallResult::error("Key size exceeds maximum of 1024 bytes"));
    }
    None
}

/// The answer to the guest for a backend's reply to a read.
pub open spec fn read_outcome(reply: Result<Option<Vec<u8>>, String>, r: HostCallResult) -> bool {
    match reply {
        Ok(Some(v)) => succeeded_with(r, v@),
        Ok(None) => succeeded_empty(r),
        Err(e) => failed_with(r, "Storage read error: "@ + e@),
    }
}

/// The answer to the guest for a backend's reply to a write.
pub open spec fn write_outcome(reply: Result<(), String>, r: HostCallResult) -> bool {
    match reply {
        Ok(_) => succeeded_empty(r),
        Err(e) => failed_with(r, "Storage write error: "@ + e@),
    }
}

/// The answer to the guest for a backend's reply to a delete: one byte, 1
/// where the key was there and 0 where it was not.
pub open spec fn delete_outcome(reply: Result<bool, String>, r: HostCallResult) -> bool {
    match reply {
        Ok(found) => succeeded_with(r, seq![if found { 1u8 } else { 0u8 }]),
        Err(e) => failed_with(r, "Storage delete error: "@ + e@),
    }
}

/// What `host_storage_read` answers for `key`: the refusals, and otherwise
/// the outcome of a reply of `storage.read(key)`.
pub open spec fn storage_read_answer<S: StorageBackend + ?Sized>(storage: &S, caps: Seq<CapabilityGrant>,
    key: Seq<u8>, r: HostCallResult) -> bool {
    gated(caps, CapabilityType::StorageRead, CapabilityScope::Sandboxed, r,
        (key_refusal(key) matches Some(msg) ==> failed_with(r, msg))
        && (key_refusal(key) is None ==> exists|reply: Result<Option<Vec<u8>>, String>|
            #[trigger] storage.read_reply(key, reply) && read_outcome(reply, r)))
}

/// What `host_storage_write` answers for `key` and `value`: the refusals,
/// and otherwise the outcome of a reply of `storage.write(key, value)`.
pub open spec fn storage_write_answer<S: StorageBackend + ?Sized>(storage: &S, caps: Seq<CapabilityGrant>,
    key: Seq<u8>, value: Seq<u8>, r: HostCallResult) -> bool {
    gated(caps, CapabilityType::StorageWrite, CapabilityScope::Sandboxed, r,
        (key_refusal(key) matches Some(msg) ==> failed_with(r, msg))
        && (key_refusal(key) is None && value.len() > MAX_VALUE_SIZE ==> failed_with(r,
            "Value size exceeds maximum of 10485760 bytes"@))
        && (key_refusal(key) is None && value.len() <= MAX_VALUE_SIZE ==> exists|reply: Result<(), String>|
            #[trigger] storage.write_reply(key, value, reply) && write_outcome(reply, r)))
}

/// What `host_storage_delete` answers for `key`: the refusals, and
/// otherwise the outcome of a reply of `storage.delete(key)`.
pub open spec fn storage_delete_answer<S: StorageBackend + ?Sized>(storage: &S, caps: Seq<CapabilityGrant>,
    key: Seq<u8>, r: HostCallResult) -> bool {
    gated(caps, CapabilityType::StorageDelete, CapabilityScope::Sandboxed, r,
        (key_refusal(key) matches Some(msg) ==> failed_with(r, msg))
        && (key_refusal(key) is None ==> exists|reply: Result<bool, String>|
            #[trigger] storage.delete_reply(key, reply) && delete_outcome(reply, r)))
}

/// Reads `key` from `storage`: the stored bytes, or a success with no value
/// where the key is absent.
///
/// Requires StorageRead at Sandboxed scope. Refuses an empty key and one
/// longer than `MAX_KEY_SIZE` before the backend is asked. The backend's
/// error is reported as "Storage read error: " followed by its message.
pub fn host_storage_read<S: StorageBackend + ?Sized>(caps: &CapabilitySet, storage: &S, key: &[u8]) -> (r: HostCallResult)
    ensures
        storage_read_answer(storage, caps@, key@, r),
{
    if !check_capability(caps, CapabilityType::StorageRead, CapabilityScope::Sandboxed) {
        return HostCallResult::capability_denied(CapabilityType::StorageRead);
    }
    if let Some(refusal) = check_key(key) {
        return refusal;
    }
    let reply = storage.read(key);
    let ghost g = reply;
    match reply {
        Ok(Some(value)) => {
            let ghost v = value@;
            let r = HostCallResult::success_with_value(value);
            assert(read_outcome(g, r));
            r
        },
        Ok(None) => HostCallResult::success(),
        Err(e) => {
            let msg = join2("Storage read error: ", e.as_str());
            let r = HostCallResult::error(msg.as_str());
            assert(failed_with(r, "Storage read error: "@ + e@));
            r
        },
    }
}

/// Writes `value` under `key` in `storage`.
///
/// Requires StorageWrite at Sandboxed scope. Refuses an empty key, a key
/// longer than `MAX_KEY_SIZE` and a value longer than `MAX_VALUE_SIZE`, in
/// that order, before the backend is asked. The backend's error is reported
/// as "Storage write error: " followed by its message.
pub fn host_storage_write<S: StorageBackend + ?Sized>(caps: &CapabilitySet, storage: &S, key: &[u8],
    value: &[u8]) -> (r: HostCallResult)
    ensures
        storage_write_answer(storage, caps@, key@, value@, r),
{
    if !check_capability(caps, CapabilityType::StorageWrite, CapabilityScope::Sandboxed) {
        return HostCallResult::capability_denied(CapabilityType::StorageWrite);
    }
    if let Some(refusal) = check_key(key) {
        return refusal;
    }
    if value.len() > MAX_VALUE_SIZE {
        return HostCallResult::error("Value size exceeds maximum of 10485760 bytes");
    }
    let reply = storage.write(key, value);
    match reply {
        Ok(()) => HostCallResult::success(),
        Err(e) => {
            let msg = join2("Storage write error: ", e.as_str());
            let r = HostCallResult::error(msg.as_str());
            assert(failed_with(r, "Storage write error: "@ + e@));
            r
        },
    }
}

/// Deletes `key` from `storage`; the value is one byte, 1 where the key was
/// there and 0 where it was not.
///
/// Requires StorageDelete at Sandboxed scope. Refuses an empty key and one
/// longer than `MAX_KEY_SIZE` before the backend is asked. The backend's
/// error is reported as "Storage delete error: " followed by its message.
pub fn host_storage_delete<S: StorageBackend + ?Sized>(caps: &CapabilitySet, storage: &S, key: &[u8]) -> (r: HostCallResult)
    ensures
        storage_delete_answer(storage, caps@, key@, r),
{
    if !check_capability(caps, CapabilityType::StorageDelete, CapabilityScope::Sandboxed) {
        return HostCallResult::capability_denied(CapabilityType::StorageDelete);
    }
    if let Some(refusal) = check_key(key) {
        return refusal;
    }
    let reply = storage.delete(key);
    match reply {
        Ok(deleted) => {
            let b: u8 = if deleted { 1 } else { 0 };
            let v = vec![b];
            assert(v@ =~= seq![b]);
            let r = HostCallResult::success_with_value(v);
            assert(delete_outcome(reply, r));
            r
        },
        Err(e) => {
            let msg = join2("Storage delete error: ", e.as_str());
            let r = HostCallResult::error(msg.as_str());
            assert(failed_with(r, "Storage delete error: "@ + e@));
            r
        },
    }
}

} // verus!
