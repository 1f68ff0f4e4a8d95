//! The capability system.
//!
//! A capability grant is an explicit, signed, scoped, possibly expiring and
//! revocable permission for one kind of privileged operation. A capability
//! set holds the grants of a sandbox and is consulted before every privileged
//! operation.

use vstd::prelude::*;
use crate::bytes::{le_bytes, u64_to_le_vec, extend_bytes};
use crate::clock::current_timestamp;
use sha2::Digest;
use ed25519_dalek::Verifier;

verus! {

/// The kinds of privileged operation.
#[derive(Debug, Clone, Copy, PartialEq, Eq, Hash, Structural)]
pub enum CapabilityType {
    NetworkListen,
    NetworkConnect,
    NetworkBroadcast,
    StorageRead,
    StorageWrite,
    StorageDelete,
    SpawnSandbox,
    CrossSandboxCall,
    SensorTime,
    SensorRandom,
    SensorEnvironment,
    ActuatorLog,
    ActuatorNotify,
    ActuatorCredit,
    /// Granted to system Spirits only; stands for every capability.
    Unrestricted,
}

/// The position of a capability kind in the declaration (its `as u8` value).
pub open spec fn capability_code(c: CapabilityType) -> u8 {
    match c {
        CapabilityType::NetworkListen => 0,
        CapabilityType::NetworkConnect => 1,
        CapabilityType::NetworkBroadcast => 2,
        CapabilityType::StorageRead => 3,
        CapabilityType::StorageWrite => 4,
        CapabilityType::StorageDelete => 5,
        CapabilityType::SpawnSandbox => 6,
        CapabilityType::CrossSandboxCall => 7,
        CapabilityType::SensorTime => 8,
        CapabilityType::SensorRandom => 9,
        CapabilityType::SensorEnvironment => 10,
        CapabilityType::ActuatorLog => 11,
        CapabilityType::ActuatorNotify => 12,
        CapabilityType::ActuatorCredit => 13,
        CapabilityType::Unrestricted => 14,
    }
}

/// The name of a capability kind, as its `Debug` form writes it.
pub open spec fn capability_name(c: CapabilityType) -> Seq<char> {
    match c {
        CapabilityType::NetworkListen => "NetworkListen"@,
        CapabilityType::NetworkConnect => "NetworkConnect"@,
        CapabilityType::NetworkBroadcast => "NetworkBroadcast"@,
        CapabilityType::StorageRead => "StorageRead"@,
        CapabilityType::StorageWrite => "StorageWrite"@,
        CapabilityType::StorageDelete => "StorageDelete"@,
        CapabilityType::SpawnSandbox => "SpawnSandbox"@,
        CapabilityType::CrossSandboxCall => "CrossSandboxCall"@,
        CapabilityType::SensorTime => "SensorTime"@,
        CapabilityType::SensorRandom => "SensorRandom"@,
        CapabilityType::SensorEnvironment => "SensorEnvironment"@,
        CapabilityType::ActuatorLog => "ActuatorLog"@,
        CapabilityType::ActuatorNotify => "ActuatorNotify"@,
        CapabilityType::ActuatorCredit => "ActuatorCredit"@,
        CapabilityType::Unrestricted => "Unrestricted"@,
    }
}

impl CapabilityType {
    /// The `as u8` value of this kind.
    pub fn code(&self) -> (r: u8)
        ensures
            r == capability_code(*self),
    {
        match self {
            CapabilityType::NetworkListen => 0,
            CapabilityType::NetworkConnect => 1,
            CapabilityType::NetworkBroadcast => 2,
            CapabilityType::StorageRead => 3,
            CapabilityType::StorageWrite => 4,
            CapabilityType::StorageDelete => 5,
            CapabilityType::SpawnSandbox => 6,
            CapabilityType::CrossSandboxCall => 7,
            CapabilityType::SensorTime => 8,
            CapabilityType::SensorRandom => 9,
            CapabilityType::SensorEnvironment => 10,
            CapabilityType::ActuatorLog => 11,
            CapabilityType::ActuatorNotify => 12,
            CapabilityType::ActuatorCredit => 13,
            CapabilityType::Unrestricted => 14,
        }
    }

    /// The name of this kind, as its `Debug` form writes it.
    pub fn name(&self) -> (r: &'static str)
        ensures
            r@ == capability_name(*self),
    {
        match self {
            CapabilityType::NetworkListen => "NetworkListen",
            CapabilityType::NetworkConnect => "NetworkConnect",
            CapabilityType::NetworkBroadcast => "NetworkBroadcast",
            CapabilityType::StorageRead => "StorageRead",
            CapabilityType::StorageWrite => "StorageWrite",
            CapabilityType::StorageDelete => "StorageDelete",
            CapabilityType::SpawnSandbox => "SpawnSandbox",
            CapabilityType::CrossSandboxCall => "CrossSandboxCall",
            CapabilityType::SensorTime => "SensorTime",
            CapabilityType::SensorRandom => "SensorRandom",
            CapabilityType::SensorEnvironment => "SensorEnvironment",
            CapabilityType::ActuatorLog => "ActuatorLog",
            CapabilityType::ActuatorNotify => "ActuatorNotify",
            CapabilityType::ActuatorCredit => "ActuatorCredit",
            CapabilityType::Unrestricted => "Unrestricted",
        }
    }
}

/// The reach of a grant.
#[derive(Debug, Clone, Copy, PartialEq, Eq, Hash, Structural)]
pub enum CapabilityScope {
    /// No restriction on the target.
    Global,
    /// Only within the sandbox's own context.
    Sandboxed,
    /// Limited to a specific peer.
    Peer,
    /// Limited to a network domain pattern.
    Domain,
}

/// The position of a scope in the declaration (its `as u8` value).
pub open spec fn scope_code(s: CapabilityScope) -> u8 {
    match s {
        CapabilityScope::Global => 0,
        CapabilityScope::Sandboxed => 1,
        CapabilityScope::Peer => 2,
        CapabilityScope::Domain => 3,
    }
}

/// Whether scope `a` covers scope `b`: Global covers every scope, and every
/// other scope covers itself only.
pub open spec fn scope_covers(a: CapabilityScope, b: CapabilityScope) -> bool {
    a == CapabilityScope::Global || a == b
}

impl CapabilityScope {
    /// The `as u8` value of this scope.
    pub fn code(&self) -> (r: u8)
        ensures
            r == scope_code(*self),
    {
        match self {
            CapabilityScope::Global => 0,
            CapabilityScope::Sandboxed => 1,
            CapabilityScope::Peer => 2,
            CapabilityScope::Domain => 3,
        }
    }

    /// Whether this scope covers (is broader than or equal to) `other`.
    pub fn covers(&self, other: &CapabilityScope) -> (r: bool)
        ensures
            r == scope_covers(*self, *other),
    {
        match (self, other) {
            (CapabilityScope::Global, _) => true,
            (CapabilityScope::Sandboxed, CapabilityScope::Sandboxed) => true,
            (CapabilityScope::Peer, CapabilityScope::Peer) => true,
            (CapabilityScope::Domain, CapabilityScope::Domain) => true,
            _ => false,
        }
    }

    /// Whether this scope is a subset of `other`.
    pub fn is_subset_of(&self, other: &CapabilityScope) -> (r: bool)
        ensures
            r == scope_covers(*other, *self),
    {
        other.covers(self)
    }
}

/// Covering is a partial order with Global on top: reflexive, transitive and
/// antisymmetric, and Global covers every scope.
pub proof fn law_scope_covers_partial_order(a: CapabilityScope, b: CapabilityScope, c: CapabilityScope)
    ensures
        scope_covers(a, a),
        scope_covers(a, b) && scope_covers(b, c) ==> scope_covers(a, c),
        scope_covers(a, b) && scope_covers(b, a) ==> a == b,
        scope_covers(CapabilityScope::Global, a),
{
}

/// A signed, scoped, possibly expiring and revocable permission.
#[derive(Debug, Clone, Copy, PartialEq, Eq)]
pub struct CapabilityGrant {
    pub id: u64,
    pub capability: CapabilityType,
    pub scope: CapabilityScope,
    /// Ed25519 public key of the granter.
    pub granter: [u8; 32],
    /// Ed25519 public key of the grantee.
    pub grantee: [u8; 32],
    /// Unix time in seconds.
    pub granted_at: u64,
    pub expires_at: Option<u64>,
    pub revoked: bool,
    /// Ed25519 signature over `hash_for_signing`.
    pub signature: [u8; 64],
}

/// Whether grant `g` is valid at Unix time `now`: not revoked, and `now`
/// strictly before its expiry if it has one.
pub open spec fn grant_valid_at(g: CapabilityGrant, now: u64) -> bool {
    !g.revoked && match g.expires_at {
        Some(expiry) => now < expiry,
        None => true,
    }
}

/// The bytes that a grant's signature covers: every field but the signature,
/// in declaration order, integers little-endian, the expiry preceded by a
/// presence marker, the revocation flag as one byte.
pub open spec fn signing_payload(g: CapabilityGrant) -> Seq<u8> {
    le_bytes(g.id) + seq![capability_code(g.capability)] + seq![scope_code(g.scope)]
        + g.granter@ + g.grantee@ + le_bytes(g.granted_at)
        + (match g.expires_at {
            Some(e) => seq![1u8] + le_bytes(e),
            None => seq![0u8],
        })
        + seq![if g.revoked { 1u8 } else { 0u8 }]
}

/// What SHA-256 gives for `data`.
pub uninterp spec fn sha256_digest(data: Seq<u8>) -> Seq<u8>;

/// Whether Ed25519 verification accepts `signature` for `message` under the
/// public key `public_key` (false where the key bytes are no valid point).
pub uninterp spec fn ed25519_accepts(public_key: Seq<u8>, message: Seq<u8>, signature: Seq<u8>) -> bool;

/// SHA-256 of `data`, by `sha2::Sha256::digest`. The contract claims only
/// that the result is the digest named `sha256_digest` of the bytes given.
#[verifier::external_body]
fn sha256(data: &[u8]) -> (out: [u8; 32])
    ensures
        out@ == sha256_digest(data@),
{
    sha2::Sha256::digest(data).into()
}

/// Ed25519 verification by `ed25519_dalek`: the key bytes are decoded by
/// `VerifyingKey::from_bytes` (a decoding failure answers false), the
/// signature bytes by `Signature::from_bytes`, and `Verifier::verify` decides.
/// The contract claims only that the answer is the one named
/// `ed25519_accepts` for the three byte strings.
#[verifier::external_body]
fn ed25519_verify(public_key: &[u8; 32], message: &[u8], signature: &[u8; 64]) -> (ok: bool)
    ensures
        ok == ed25519_accepts(public_key@, message@, signature@),
{
    match ed25519_dalek::VerifyingKey::from_bytes(public_key) {
        Ok(key) => key.verify(message, &ed25519_dalek::Signature::from_bytes(signature)).is_ok(),
        Err(_) => false,
    }
}

impl CapabilityGrant {
    /// A grant that is not revoked, with the given fields.
    pub fn new(
        id: u64,
        capability: CapabilityType,
        scope: CapabilityScope,
        granter: [u8; 32],
        grantee: [u8; 32],
        granted_at: u64,
        expires_at: Option<u64>,
        signature: [u8; 64],
    ) -> (g: Self)
        ensures
            g == (CapabilityGrant {
                id, capability, scope, granter, grantee, granted_at, expires_at,
                revoked: false, signature,
            }),
    {
        CapabilityGrant {
            id, capability, scope, granter, grantee, granted_at, expires_at,
            revoked: false, signature,
        }
    }

    /// Whether the grant is valid at Unix time `now`.
    pub fn is_valid_at(&self, now: u64) -> (r: bool)
        ensures
            r == grant_valid_at(*self, now),
    {
        if self.revoked {
            return false;
        }
        match self.expires_at {
            Some(expiry) => now < expiry,
            None => true,
        }
    }

    /// Whether the grant is valid now, by the system clock.
    ///
    /// The answer is the one `is_valid_at` gives for the clock's reading:
    /// a revoked grant is never valid, an unrevoked grant without expiry
    /// always is.
    pub fn is_valid(&self) -> (r: bool)
        ensures
            exists|now: u64| r == #[trigger] grant_valid_at(*self, now),
            self.revoked ==> !r,
            !self.revoked && self.expires_at is None ==> r,
    {
        let now = current_timestamp();
        self.is_valid_at(now)
    }

    /// Marks the grant revoked; nothing else changes.
    pub fn revoke(&mut self)
        ensures
            *final(self) == (CapabilityGrant { revoked: true, ..*old(self) }),
    {
        self.revoked = true;
    }

    /// The bytes that the signature covers.
    pub fn signing_payload(&self) -> (v: Vec<u8>)
        ensures
            v@ == signing_payload(*self),
    {
        let mut v = u64_to_le_vec(self.id);
        v.push(self.capability.code());
        v.push(self.scope.code());
        extend_bytes(&mut v, self.granter.as_slice());
        extend_bytes(&mut v, self.grantee.as_slice());
        let t = u64_to_le_vec(self.granted_at);
        extend_bytes(&mut v, t.as_slice());
        match self.expires_at {
            Some(e) => {
                v.push(1u8);
                let eb = u64_to_le_vec(e);
                extend_bytes(&mut v, eb.as_slice());
            },
            None => {
                v.push(0u8);
            },
        }
        v.push(if self.revoked { 1u8 } else { 0u8 });
        proof {
            let base = le_bytes(self.id) + seq![capability_code(self.capability)]
                + seq![scope_code(self.scope)] + self.granter@ + self.grantee@
                + le_bytes(self.granted_at);
            assert(v@ =~= signing_payload(*self));
        }
        v
    }

    /// SHA-256 of the signing payload: the hash the signature covers.
    pub fn hash_for_signing(&self) -> (h: [u8; 32])
        ensures
            h@ == sha256_digest(signing_payload(*self)),
    {
        let payload = self.signing_payload();
        sha256(payload.as_slice())
    }

    /// Whether the signature verifies, under the granter's key, over the
    /// hash of the signing payload.
    pub fn verify_signature(&self) -> (ok: bool)
        ensures
            ok == ed25519_accepts(self.granter@, sha256_digest(signing_payload(*self)),
                self.signature@),
    {
        let message = self.hash_for_signing();
        ed25519_verify(&self.granter, message.as_slice(), &self.signature)
    }
}

/// A grant that is valid at `now` for capability `cap`.
pub open spec fn valid_for(g: CapabilityGrant, cap: CapabilityType, now: u64) -> bool {
    g.capability == cap && grant_valid_at(g, now)
}

/// Whether some grant in `gs` is a valid Unrestricted grant at `now`.
pub open spec fn unrestricted_active(gs: Seq<CapabilityGrant>, now: u64) -> bool {
    exists|i: int| 0 <= i < gs.len() && #[trigger] valid_for(gs[i], CapabilityType::Unrestricted, now)
}

/// Whether the grants `gs` allow capability `cap` at scope `scope` at `now`:
/// a valid Unrestricted grant allows everything; otherwise a valid grant of
/// `cap` whose scope covers `scope` is needed.
pub open spec fn grants_allow(gs: Seq<CapabilityGrant>, cap: CapabilityType, scope: CapabilityScope, now: u64) -> bool {
    unrestricted_active(gs, now)
        || exists|i: int| 0 <= i < gs.len() && #[trigger] valid_for(gs[i], cap, now)
            && scope_covers(gs[i].scope, scope)
}

/// Whether some grant of `cap` in `gs` is valid at `now`.
pub open spec fn has_valid_grant(gs: Seq<CapabilityGrant>, cap: CapabilityType, now: u64) -> bool {
    exists|i: int| 0 <= i < gs.len() && #[trigger] valid_for(gs[i], cap, now)
}

/// Whether some grant of `cap` in `gs` is valid at `now` and global.
pub open spec fn has_valid_global_grant(gs: Seq<CapabilityGrant>, cap: CapabilityType, now: u64) -> bool {
    exists|i: int| 0 <= i < gs.len() && #[trigger] valid_for(gs[i], cap, now)
        && gs[i].scope == CapabilityScope::Global
}

/// The first index at or after `i` of a grant of `cap` valid at `now`
/// (`gs.len()` where there is none).
pub open spec fn first_valid_from(gs: Seq<CapabilityGrant>, cap: CapabilityType, now: u64, i: int) -> int
    decreases gs.len() - i,
{
    if i >= gs.len() || i < 0 {
        gs.len() as int
    } else if valid_for(gs[i], cap, now) {
        i
    } else {
        first_valid_from(gs, cap, now, i + 1)
    }
}

/// The effective scope of `cap` under `gs` at `now`: Global where a valid
/// Unrestricted grant or a valid global grant of `cap` exists, otherwise the
/// scope of the earliest valid grant of `cap`, and none without one.
pub open spec fn effective_scope_of(gs: Seq<CapabilityGrant>, cap: CapabilityType, now: u64) -> Option<CapabilityScope> {
    if unrestricted_active(gs, now) || has_valid_global_grant(gs, cap, now) {
        Some(CapabilityScope::Global)
    } else if has_valid_grant(gs, cap, now) {
        Some(gs[first_valid_from(gs, cap, now, 0)].scope)
    } else {
        None
    }
}

/// The first index at or after `i` of a grant with id `id`.
pub open spec fn first_with_id_from(gs: Seq<CapabilityGrant>, id: u64, i: int) -> int
    decreases gs.len() - i,
{
    if i >= gs.len() || i < 0 {
        gs.len() as int
    } else if gs[i].id == id {
        i
    } else {
        first_with_id_from(gs, id, i + 1)
    }
}

/// The grants of `gs` that are valid at `now`, in order.
pub open spec fn valid_at(gs: Seq<CapabilityGrant>, now: u64) -> Seq<CapabilityGrant> {
    gs.filter(|g: CapabilityGrant| grant_valid_at(g, now))
}

proof fn lemma_first_valid_from(gs: Seq<CapabilityGrant>, cap: CapabilityType, now: u64, i: int)
    requires
        0 <= i <= gs.len(),
    ensures
        i <= first_valid_from(gs, cap, now, i) <= gs.len(),
        first_valid_from(gs, cap, now, i) < gs.len() ==> valid_for(gs[first_valid_from(gs, cap, now, i)], cap, now),
        forall|k: int| i <= k < first_valid_from(gs, cap, now, i) ==> !valid_for(#[trigger] gs[k], cap, now),
        (exists|k: int| i <= k < gs.len() && #[trigger] valid_for(gs[k], cap, now))
            ==> first_valid_from(gs, cap, now, i) < gs.len(),
    decreases gs.len() - i,
{
    if i < gs.len() && !valid_for(gs[i], cap, now) {
        lemma_first_valid_from(gs, cap, now, i + 1);
        if exists|k: int| i <= k < gs.len() && #[trigger] valid_for(gs[k], cap, now) {
            let k = choose|k: int| i <= k < gs.len() && #[trigger] valid_for(gs[k], cap, now);
            assert(k != i);
            assert(i + 1 <= k);
        }
    }
}

proof fn lemma_first_with_id_from(gs: Seq<CapabilityGrant>, id: u64, i: int)
    requires
        0 <= i <= gs.len(),
    ensures
        i <= first_with_id_from(gs, id, i) <= gs.len(),
        first_with_id_from(gs, id, i) < gs.len() ==> gs[first_with_id_from(gs, id, i)].id == id,
        forall|k: int| i <= k < first_with_id_from(gs, id, i) ==> (#[trigger] gs[k]).id != id,
        (exists|k: int| i <= k < gs.len() && (#[trigger] gs[k]).id == id)
            ==> first_with_id_from(gs, id, i) < gs.len(),
    decreases gs.len() - i,
{
    if i < gs.len() && gs[i].id != id {
        lemma_first_with_id_from(gs, id, i + 1);
        if exists|k: int| i <= k < gs.len() && (#[trigger] gs[k]).id == id {
            let k = choose|k: int| i <= k < gs.len() && (#[trigger] gs[k]).id == id;
            assert(k != i);
        }
    }
}

/// The effective permissions of a sandbox: its grants, in the order they were
/// added (of every kind in one list, so that the order among kinds is kept
/// too).
#[derive(Debug, Clone)]
pub struct CapabilitySet {
    pub grants: Vec<CapabilityGrant>,
}

impl View for CapabilitySet {
    type V = Seq<CapabilityGrant>;

    open spec fn view(&self) -> Seq<CapabilityGrant> {
        self.grants@
    }
}

impl CapabilitySet {
    /// An empty set.
    pub fn new() -> (s: Self)
        ensures
            s@ == Seq::<CapabilityGrant>::empty(),
    {
        CapabilitySet { grants: Vec::new() }
    }

    /// A set holding `grants`, in order.
    pub fn from_grants(grants: Vec<CapabilityGrant>) -> (s: Self)
        ensures
            s@ == grants@,
    {
        CapabilitySet { grants }
    }

    /// Adds a grant.
    pub fn add_grant(&mut self, grant: CapabilityGrant)
        ensures
            final(self)@ == old(self)@.push(grant),
    {
        self.grants.push(grant);
    }

    /// Removes the earliest grant with id `grant_id`; answers whether there
    /// was one.
    pub fn remove_grant(&mut self, grant_id: u64) -> (found: bool)
        ensures
            found == (first_with_id_from(old(self)@, grant_id, 0) < old(self)@.len()),
            found ==> final(self)@ == old(self)@.remove(first_with_id_from(old(self)@, grant_id, 0)),
            !found ==> final(self)@ == old(self)@,
    {
        let ghost gs = self@;
        proof { lemma_first_with_id_from(gs, grant_id, 0); }
        let n = self.grants.len();
        let mut i: usize = 0;
        while i < n
            invariant
                n == self.grants@.len(),
                self.grants@ == gs,
                gs == old(self)@,
                i <= n,
                forall|k: int| 0 <= k < i ==> (#[trigger] gs[k]).id != grant_id,
                i <= first_with_id_from(gs, grant_id, 0) <= n,
                first_with_id_from(gs, grant_id, 0) < n ==> gs[first_with_id_from(gs, grant_id, 0)].id == grant_id,
                forall|k: int| 0 <= k < first_with_id_from(gs, grant_id, 0) ==> (#[trigger] gs[k]).id != grant_id,
            decreases n - i,
        {
            if self.grants[i].id == grant_id {
                assert(first_with_id_from(gs, grant_id, 0) == i);
                self.grants.remove(i);
                assert(self.grants@ =~= gs.remove(i as int));
                return true;
            }
            i = i + 1;
        }
        false
    }

    /// Whether the set allows `cap` at `scope` at Unix time `now`.
    pub fn has_capability_at(&self, cap: CapabilityType, scope: CapabilityScope, now: u64) -> (r: bool)
        ensures
            r == grants_allow(self@, cap, scope, now),
    {
        let n = self.grants.len();
        let mut i: usize = 0;
        while i < n
            invariant
                n == self@.len(),
                i <= n,
                forall|k: int| 0 <= k < i ==> !#[trigger] valid_for(self@[k], CapabilityType::Unrestricted, now),
            decreases n - i,
        {
            let g = &self.grants[i];
            if g.capability == CapabilityType::Unrestricted && g.is_valid_at(now) {
                assert(valid_for(self@[i as int], CapabilityType::Unrestricted, now));
                return true;
            }
            i = i + 1;
        }
        let mut j: usize = 0;
        while j < n
            invariant
                n == self@.len(),
                j <= n,
                !unrestricted_active(self@, now),
                forall|k: int| 0 <= k < j ==> !(#[trigger] valid_for(self@[k], cap, now) && scope_covers(self@[k].scope, scope)),
            decreases n - j,
        {
            let g = &self.grants[j];
            if g.capability == cap && g.scope.covers(&scope) && g.is_valid_at(now) {
                assert(valid_for(self@[j as int], cap, now));
                return true;
            }
            j = j + 1;
        }
        false
    }

    /// Whether the set allows `cap` at `scope` now, by the system clock.
    pub fn has_capability(&self, cap: CapabilityType, scope: CapabilityScope) -> (r: bool)
        ensures
            exists|now: u64| r == #[trigger] grants_allow(self@, cap, scope, now),
    {
        let now = current_timestamp();
        self.has_capability_at(cap, scope, now)
    }

    /// The effective scope of `cap` at Unix time `now`.
    pub fn effective_scope_at(&self, cap: CapabilityType, now: u64) -> (r: Option<CapabilityScope>)
        ensures
            r == effective_scope_of(self@, cap, now),
    {
        let ghost gs = self@;
        let n = self.grants.len();
        let mut i: usize = 0;
        while i < n
            invariant
                n == gs.len(),
                gs == self@,
                i <= n,
                forall|k: int| 0 <= k < i ==> !#[trigger] valid_for(gs[k], CapabilityType::Unrestricted, now),
            decreases n - i,
        {
            let g = &self.grants[i];
            if g.capability == CapabilityType::Unrestricted && g.is_valid_at(now) {
                assert(valid_for(gs[i as int], CapabilityType::Unrestricted, now));
                return Some(CapabilityScope::Global);
            }
            i = i + 1;
        }
        proof { lemma_first_valid_from(gs, cap, now, 0); }
        let mut first: Option<CapabilityScope> = None;
        let mut j: usize = 0;
        while j < n
            invariant
                n == gs.len(),
                gs == self@,
                j <= n,
                !unrestricted_active(gs, now),
                forall|k: int| 0 <= k < j ==> !(#[trigger] valid_for(gs[k], cap, now) && gs[k].scope == CapabilityScope::Global),
                first_valid_from(gs, cap, now, 0) <= n,
                first_valid_from(gs, cap, now, 0) < n ==> valid_for(gs[first_valid_from(gs, cap, now, 0)], cap, now),
                forall|k: int| 0 <= k < first_valid_from(gs, cap, now, 0) ==> !valid_for(#[trigger] gs[k], cap, now),
                first is None <==> j <= first_valid_from(gs, cap, now, 0),
                first matches Some(s) ==> s == gs[first_valid_from(gs, cap, now, 0)].scope,
            decreases n - j,
        {
            let g = &self.grants[j];
            if g.capability == cap && g.is_valid_at(now) {
                assert(valid_for(gs[j as int], cap, now));
                if first.is_none() {
                    first = Some(g.scope);
                }
                if g.scope == CapabilityScope::Global {
                    assert(has_valid_global_grant(gs, cap, now));
                    return Some(CapabilityScope::Global);
                }
            }
            j = j + 1;
        }
        proof {
            if has_valid_grant(gs, cap, now) {
                let k = choose|k: int| 0 <= k < gs.len() && #[trigger] valid_for(gs[k], cap, now);
                assert(first_valid_from(gs, cap, now, 0) < n);
            }
        }
        first
    }

    /// The effective scope of `cap` now, by the system clock.
    pub fn effective_scope(&self, cap: CapabilityType) -> (r: Option<CapabilityScope>)
        ensures
            exists|now: u64| r == #[trigger] effective_scope_of(self@, cap, now),
    {
        let now = current_timestamp();
        self.effective_scope_at(cap, now)
    }

    /// The grants valid at Unix time `now`, in order.
    pub fn valid_grants_at(&self, now: u64) -> (r: Vec<CapabilityGrant>)
        ensures
            r@ == valid_at(self@, now),
    {
        let ghost gs = self@;
        let ghost pred = |g: CapabilityGrant| grant_valid_at(g, now);
        let n = self.grants.len();
        let mut out: Vec<CapabilityGrant> = Vec::new();
        let mut i: usize = 0;
        while i < n
            invariant
                n == gs.len(),
                gs == self@,
                i <= n,
                pred == (|g: CapabilityGrant| grant_valid_at(g, now)),
                out@ == gs.take(i as int).filter(pred),
            decreases n - i,
        {
            let g = self.grants[i];
            let keep = g.is_valid_at(now);
            proof {
                let s = gs.take(i + 1);
                assert(s.drop_last() =~= gs.take(i as int));
                assert(s.last() == gs[i as int]);
                assert(pred(s.last()) == keep);
                assert(s.filter(pred) == (if pred(s.last()) { s.drop_last().filter(pred).push(s.last()) }
                    else { s.drop_last().filter(pred) })) by {
                    reveal(Seq::filter);
                }
            }
            if keep {
                out.push(g);
            }
            i = i + 1;
        }
        assert(gs.take(n as int) =~= gs);
        out
    }

    /// The grants valid now, by the system clock, in order.
    pub fn valid_grants(&self) -> (r: Vec<CapabilityGrant>)
        ensures
            exists|now: u64| r@ == #[trigger] valid_at(self@, now),
    {
        let now = current_timestamp();
        self.valid_grants_at(now)
    }

    /// Drops the grants that are not valid at Unix time `now`.
    pub fn clean_expired_at(&mut self, now: u64)
        ensures
            final(self)@ == valid_at(old(self)@, now),
    {
        let kept = self.valid_grants_at(now);
        self.grants = kept;
    }

    /// Drops the grants that are not valid now, by the system clock.
    pub fn clean_expired(&mut self)
        ensures
            exists|now: u64| final(self)@ == #[trigger] valid_at(old(self)@, now),
    {
        let now = current_timestamp();
        self.clean_expired_at(now);
    }

    /// Whether no grant is valid at Unix time `now`.
    pub fn is_empty_at(&self, now: u64) -> (r: bool)
        ensures
            r == (valid_at(self@, now).len() == 0),
    {
        let v = self.valid_grants_at(now);
        v.len() == 0
    }

    /// Whether no grant is valid now, by the system clock.
    pub fn is_empty(&self) -> (r: bool)
        ensures
            exists|now: u64| r == ((#[trigger] valid_at(self@, now)).len() == 0),
    {
        let now = current_timestamp();
        self.is_empty_at(now)
    }
}

impl Default for CapabilitySet {
    /// An empty set.
    fn default() -> (s: Self)
        ensures
            s@ == Seq::<CapabilityGrant>::empty(),
    {
        CapabilitySet::new()
    }
}

/// A grant valid at some time is valid at every earlier time, and a revoked
/// grant is valid at no time.
pub proof fn law_validity_only_ends(g: CapabilityGrant, earlier: u64, later: u64)
    ensures
        earlier <= later && grant_valid_at(g, later) ==> grant_valid_at(g, earlier),
        g.revoked ==> !grant_valid_at(g, later),
{
}

/// Adding a grant never takes a permission away.
pub proof fn law_add_grant_monotone(gs: Seq<CapabilityGrant>, g: CapabilityGrant,
    cap: CapabilityType, scope: CapabilityScope, now: u64)
    ensures
        grants_allow(gs, cap, scope, now) ==> grants_allow(gs.push(g), cap, scope, now),
{
    let gs2 = gs.push(g);
    if unrestricted_active(gs, now) {
        let k = choose|k: int| 0 <= k < gs.len() && #[trigger] valid_for(gs[k], CapabilityType::Unrestricted, now);
        assert(gs2[k] == gs[k]);
        assert(valid_for(gs2[k], CapabilityType::Unrestricted, now));
    } else if grants_allow(gs, cap, scope, now) {
        let k = choose|k: int| 0 <= k < gs.len() && #[trigger] valid_for(gs[k], cap, now)
            && scope_covers(gs[k].scope, scope);
        assert(gs2[k] == gs[k]);
        assert(valid_for(gs2[k], cap, now));
    }
}

/// A grant that is not valid at `now` adds no permission at `now`.
pub proof fn law_invalid_grant_adds_nothing(gs: Seq<CapabilityGrant>, g: CapabilityGrant,
    cap: CapabilityType, scope: CapabilityScope, now: u64)
    requires
        !grant_valid_at(g, now),
    ensures
        grants_allow(gs.push(g), cap, scope, now) == grants_allow(gs, cap, scope, now),
{
    law_add_grant_monotone(gs, g, cap, scope, now);
    let gs2 = gs.push(g);
    if unrestricted_active(gs2, now) {
        let k = choose|k: int| 0 <= k < gs2.len() && #[trigger] valid_for(gs2[k], CapabilityType::Unrestricted, now);
        assert(k < gs.len());
        assert(gs[k] == gs2[k]);
        assert(valid_for(gs[k], CapabilityType::Unrestricted, now));
    } else if grants_allow(gs2, cap, scope, now) {
        let k = choose|k: int| 0 <= k < gs2.len() && #[trigger] valid_for(gs2[k], cap, now)
            && scope_covers(gs2[k].scope, scope);
        assert(k < gs.len());
        assert(gs[k] == gs2[k]);
        assert(valid_for(gs[k], cap, now));
    }
}

/// A valid Unrestricted grant allows every capability at every scope.
pub proof fn law_unrestricted_allows_all(gs: Seq<CapabilityGrant>, cap: CapabilityType,
    scope: CapabilityScope, now: u64)
    requires
        unrestricted_active(gs, now),
    ensures
        grants_allow(gs, cap, scope, now),
        effective_scope_of(gs, cap, now) == Some(CapabilityScope::Global),
{
}

/// The effective scope of a capability is one at which the capability is
/// allowed; where there is none, the capability is allowed at no scope.
pub proof fn law_effective_scope_allowed(gs: Seq<CapabilityGrant>, cap: CapabilityType,
    scope: CapabilityScope, now: u64)
    ensures
        effective_scope_of(gs, cap, now) matches Some(s) ==> grants_allow(gs, cap, s, now),
        effective_scope_of(gs, cap, now) is None ==> !grants_allow(gs, cap, scope, now),
{
    lemma_first_valid_from(gs, cap, now, 0);
    if !unrestricted_active(gs, now) && has_valid_global_grant(gs, cap, now) {
        let k = choose|k: int| 0 <= k < gs.len() && #[trigger] valid_for(gs[k], cap, now)
            && gs[k].scope == CapabilityScope::Global;
        assert(scope_covers(gs[k].scope, CapabilityScope::Global));
    } else if !unrestricted_active(gs, now) && has_valid_grant(gs, cap, now) {
        let k = choose|k: int| 0 <= k < gs.len() && #[trigger] valid_for(gs[k], cap, now);
        let f = first_valid_from(gs, cap, now, 0);
        assert(valid_for(gs[f], cap, now));
        assert(scope_covers(gs[f].scope, gs[f].scope));
    } else if !unrestricted_active(gs, now) {
        if grants_allow(gs, cap, scope, now) {
            let k = choose|k: int| 0 <= k < gs.len() && #[trigger] valid_for(gs[k], cap, now)
                && scope_covers(gs[k].scope, scope);
            assert(has_valid_grant(gs, cap, now));
        }
    }
}

/// Dropping the grants that are not valid at `now` changes no permission at
/// `now`.
pub proof fn law_clean_expired_keeps_permissions(gs: Seq<CapabilityGrant>, cap: CapabilityType,
    scope: CapabilityScope, now: u64)
    ensures
        grants_allow(valid_at(gs, now), cap, scope, now) == grants_allow(gs, cap, scope, now),
{
    broadcast use vstd::seq_lib::group_filter_ensures;
    let pred = |g: CapabilityGrant| grant_valid_at(g, now);
    let f = valid_at(gs, now);
    assert(f == gs.filter(pred));
    if unrestricted_active(gs, now) {
        let k = choose|k: int| 0 <= k < gs.len() && #[trigger] valid_for(gs[k], CapabilityType::Unrestricted, now);
        assert(pred(gs[k]));
        assert(f.contains(gs[k]));
        let j = choose|j: int| 0 <= j < f.len() && f[j] == gs[k];
        assert(valid_for(f[j], CapabilityType::Unrestricted, now));
    } else if grants_allow(gs, cap, scope, now) {
        let k = choose|k: int| 0 <= k < gs.len() && #[trigger] valid_for(gs[k], cap, now)
            && scope_covers(gs[k].scope, scope);
        assert(pred(gs[k]));
        assert(f.contains(gs[k]));
        let j = choose|j: int| 0 <= j < f.len() && f[j] == gs[k];
        assert(valid_for(f[j], cap, now));
    }
    if unrestricted_active(f, now) {
        let j = choose|j: int| 0 <= j < f.len() && #[trigger] valid_for(f[j], CapabilityType::Unrestricted, now);
        lemma_filter_in_source(gs, pred, j);
        let k = choose|k: int| 0 <= k < gs.len() && gs[k] == f[j];
        assert(valid_for(gs[k], CapabilityType::Unrestricted, now));
    } else if grants_allow(f, cap, scope, now) {
        let j = choose|j: int| 0 <= j < f.len() && #[trigger] valid_for(f[j], cap, now)
            && scope_covers(f[j].scope, scope);
        lemma_filter_in_source(gs, pred, j);
        let k = choose|k: int| 0 <= k < gs.len() && gs[k] == f[j];
        assert(valid_for(gs[k], cap, now));
    }
}

proof fn lemma_filter_in_source(gs: Seq<CapabilityGrant>, pred: spec_fn(CapabilityGrant) -> bool, j: int)
    requires
        0 <= j < gs.filter(pred).len(),
    ensures
        exists|k: int| 0 <= k < gs.len() && gs[k] == gs.filter(pred)[j],
    decreases gs.len(),
{
    reveal(Seq::filter);
    if gs.len() > 0 {
        let sub = gs.drop_last().filter(pred);
        if j < sub.len() {
            lemma_filter_in_source(gs.drop_last(), pred, j);
            let k = choose|k: int| 0 <= k < gs.drop_last().len() && gs.drop_last()[k] == sub[j];
            assert(gs[k] == gs.drop_last()[k]);
            if pred(gs.last()) {
                assert(gs.filter(pred)[j] == sub[j]);
            }
        } else {
            assert(gs.filter(pred)[j] == gs.last());
            assert(gs[gs.len() - 1] == gs.last());
        }
    }
}

/// Minimal capabilities granted to all sandboxes.
pub const MINIMAL_CAPABILITIES: [CapabilityType; 3] = [
    CapabilityType::SensorTime,
    CapabilityType::SensorRandom,
    CapabilityType::ActuatorLog,
];

/// Standard capabilities for network-enabled Spirits.
pub const NETWORK_SPIRIT_CAPABILITIES: [CapabilityType; 6] = [
    CapabilityType::SensorTime,
    CapabilityType::SensorRandom,
    CapabilityType::ActuatorLog,
    CapabilityType::NetworkConnect,
    CapabilityType::StorageRead,
    CapabilityType::StorageWrite,
];

/// Capabilities of system Spirits: everything.
pub const SYSTEM_SPIRIT_CAPABILITIES: [CapabilityType; 1] = [CapabilityType::Unrestricted];

} // verus!
