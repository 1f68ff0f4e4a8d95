//! Networking for sandboxes.
//!
//! Connections and listeners are named by handles, which travel to guest
//! code as eight little-endian bytes. `NetworkState` is a simulated network
//! (connections, listeners, broadcast messages, and errors to report), and
//! `MockNetworkBackend` shares one between clones of a handle, behind a lock.

use vstd::prelude::*;
use vstd::string::*;
use std::sync::{Arc, RwLock};
use crate::shared::{Guarded, lock_new, lock_apply, lock_query, lock_failed};
use crate::bytes::{le_bytes, from_le, u64_to_le_vec, u64_from_le_slice, lemma_from_le_of_le_bytes,
    lemma_le_bytes_of_from_le};
use crate::capability::{CapabilitySet, CapabilityType, CapabilityScope, CapabilityGrant};
use crate::host::{HostCallResult, check_capability, gated, failed_with, succeeded_with};
use crate::text::{decimal, text_with_number, join2};

verus! {

/// Longest address, in bytes.
pub const MAX_ADDRESS_SIZE: usize = 256;

/// Longest broadcast message, in bytes (64 KiB).
pub const MAX_MESSAGE_SIZE: usize = 65536;

// ─── handles ──────────────────────────────────────────────────────────────

/// Names a connection made by `connect`.
#[derive(Debug, Clone, Copy, PartialEq, Eq, Hash, Structural)]
pub struct ConnectionHandle(pub u64);

impl ConnectionHandle {
    /// The handle with identifier `id`.
    pub fn new(id: u64) -> (h: Self)
        ensures
            h.0 == id,
    {
        ConnectionHandle(id)
    }

    /// The identifier of this handle.
    pub fn id(&self) -> (id: u64)
        ensures
            id == self.0,
    {
        self.0
    }

    /// The identifier as eight little-endian bytes.
    pub fn to_bytes(&self) -> (v: Vec<u8>)
        ensures
            v@ == le_bytes(self.0),
    {
        u64_to_le_vec(self.0)
    }

    /// The handle written in `bytes`: exactly eight little-endian bytes,
    /// and no handle for any other length.
    pub fn from_bytes(bytes: &[u8]) -> (h: Option<Self>)
        ensures
            h == (if bytes@.len() == 8 { Some(ConnectionHandle(from_le(bytes@))) } else { None }),
    {
        if bytes.len() == 8 {
            Some(ConnectionHandle(u64_from_le_slice(bytes)))
        } else {
            None
        }
    }
}

/// Names a listener opened by `listen`.
#[derive(Debug, Clone, Copy, PartialEq, Eq, Hash, Structural)]
pub struct ListenerHandle(pub u64);

impl ListenerHandle {
    /// The handle with identifier `id`.
    pub fn new(id: u64) -> (h: Self)
        ensures
            h.0 == id,
    {
        ListenerHandle(id)
    }

    /// The identifier of this handle.
    pub fn id(&self) -> (id: u64)
        ensures
            id == self.0,
    {
        self.0
    }

    /// The identifier as eight little-endian bytes.
    pub fn to_bytes(&self) -> (v: Vec<u8>)
        ensures
            v@ == le_bytes(self.0),
    {
        u64_to_le_vec(self.0)
    }

    /// The handle written in `bytes`: exactly eight little-endian bytes,
    /// and no handle for any other length.
    pub fn from_bytes(bytes: &[u8]) -> (h: Option<Self>)
        ensures
            h == (if bytes@.len() == 8 { Some(ListenerHandle(from_le(bytes@))) } else { None }),
    {
        if bytes.len() == 8 {
            Some(ListenerHandle(u64_from_le_slice(bytes)))
        } else {
            None
        }
    }
}

/// A handle read back from its bytes is the handle; bytes of length eight
/// written back from the handle they encode are the bytes.
pub proof fn law_handle_bytes_roundtrip(id: u64, bytes: Seq<u8>)
    ensures
        le_bytes(id).len() == 8,
        from_le(le_bytes(id)) == id,
        bytes.len() == 8 ==> le_bytes(from_le(bytes)) == bytes,
{
    lemma_from_le_of_le_bytes(id);
    if bytes.len() == 8 {
        lemma_le_bytes_of_from_le(bytes);
    }
}

// ─── the backend interface ────────────────────────────────────────────────

/// A network, as the host functions use it. Implementations provide the
/// transport (simulated, TCP, WebSocket, ...), and say in the `*_reply`
/// spec functions what each method may answer.
pub trait NetworkBackend: Send + Sync {
    /// What a connection to `address` may answer.
    spec fn connect_reply(&self, address: Seq<char>, r: Result<ConnectionHandle, String>) -> bool;

    /// What listening on `port` may answer.
    spec fn listen_reply(&self, port: u16, r: Result<ListenerHandle, String>) -> bool;

    /// What a broadcast of `message` may answer.
    spec fn broadcast_reply(&self, message: Seq<u8>, r: Result<usize, String>) -> bool;

    /// What closing connection `id` may answer.
    spec fn close_connection_reply(&self, id: u64, r: Result<(), String>) -> bool;

    /// What closing listener `id` may answer.
    spec fn close_listener_reply(&self, id: u64, r: Result<(), String>) -> bool;

    /// What the connection count may be.
    spec fn connection_count_reply(&self, n: usize) -> bool;

    /// What the listener count may be.
    spec fn listener_count_reply(&self, n: usize) -> bool;

    /// Connects to `address`.
    fn connect(&self, address: &str) -> (r: Result<ConnectionHandle, String>)
        ensures
            self.connect_reply(address@, r),
    ;

    /// Starts listening on `port`.
    fn listen(&self, port: u16) -> (r: Result<ListenerHandle, String>)
        ensures
            self.listen_reply(port, r),
    ;

    /// Sends `message` to every connected peer; answers how many peers
    /// received it.
    fn broadcast(&self, message: &[u8]) -> (r: Result<usize, String>)
        ensures
            self.broadcast_reply(message@, r),
    ;

    /// Closes a connection.
    fn close_connection(&self, handle: ConnectionHandle) -> (r: Result<(), String>)
        ensures
            self.close_connection_reply(handle.0, r),
    ;

    /// Stops a listener.
    fn close_listener(&self, handle: ListenerHandle) -> (r: Result<(), String>)
        ensures
            self.close_listener_reply(handle.0, r),
    ;

    /// The number of open connections.
    fn connection_count(&self) -> (n: usize)
        ensures
            self.connection_count_reply(n),
    ;

    /// The number of active listeners.
    fn listener_count(&self) -> (n: usize)
        ensures
            self.listener_count_reply(n),
    ;
}

// ─── the model ────────────────────────────────────────────────────────────

/// A simulated network as contracts see it: open connections (identifier
/// and address) and listeners (identifier and port), each in the order
/// they were opened; the next identifiers to hand out; the messages
/// broadcast so far; and the errors that operations are to report.
pub struct NetModel {
    pub connections: Seq<(u64, Seq<char>)>,
    pub listeners: Seq<(u64, u16)>,
    pub next_connection_id: u64,
    pub next_listener_id: u64,
    pub messages: Seq<Seq<u8>>,
    pub connect_error: Option<Seq<char>>,
    pub listen_error: Option<Seq<char>>,
    pub broadcast_error: Option<Seq<char>>,
}

/// Identifiers rise strictly along `s`, and each lies in `1..next`.
pub open spec fn ids_ordered<T>(s: Seq<(u64, T)>, next: u64) -> bool {
    &&& forall|i: int, j: int| 0 <= i < j < s.len() ==> (#[trigger] s[i]).0 < (#[trigger] s[j]).0
    &&& forall|i: int| 0 <= i < s.len() ==> 1 <= (#[trigger] s[i]).0 < next
}

/// Whether an entry of `s` has identifier `id`.
pub open spec fn has_id<T>(s: Seq<(u64, T)>, id: u64) -> bool {
    exists|i: int| 0 <= i < s.len() && (#[trigger] s[i]).0 == id
}

/// The position of the entry with identifier `id`.
pub open spec fn id_index<T>(s: Seq<(u64, T)>, id: u64) -> int {
    choose|i: int| 0 <= i < s.len() && (#[trigger] s[i]).0 == id
}

/// Whether a listener is on `port`.
pub open spec fn port_in_use(s: Seq<(u64, u16)>, port: u16) -> bool {
    exists|i: int| 0 <= i < s.len() && (#[trigger] s[i]).1 == port
}

/// No two listeners share a port.
pub open spec fn ports_distinct(s: Seq<(u64, u16)>) -> bool {
    forall|i: int, j: int| 0 <= i < s.len() && 0 <= j < s.len() && i != j
        ==> (#[trigger] s[i]).1 != (#[trigger] s[j]).1
}

/// The invariant of a simulated network: identifiers ordered and below the
/// next ones, which are at least 1; no port listened on twice.
pub open spec fn net_wf(m: NetModel) -> bool {
    &&& ids_ordered(m.connections, m.next_connection_id)
    &&& ids_ordered(m.listeners, m.next_listener_id)
    &&& m.next_connection_id >= 1
    &&& m.next_listener_id >= 1
    &&& ports_distinct(m.listeners)
}

/// A new network: nothing open, identifiers starting at 1, no errors set.
pub open spec fn empty_net() -> NetModel {
    NetModel {
        connections: Seq::empty(),
        listeners: Seq::empty(),
        next_connection_id: 1,
        next_listener_id: 1,
        messages: Seq::empty(),
        connect_error: None,
        listen_error: None,
        broadcast_error: None,
    }
}

/// Connecting to `address`: the set connect error if there is one;
/// otherwise a new connection with the next identifier. Identifiers never
/// wrap: when they run out, the connection is refused.
pub open spec fn connect_step(m: NetModel, address: Seq<char>) -> (NetModel, Result<ConnectionHandle, Seq<char>>) {
    match m.connect_error {
        Some(e) => (m, Err(e)),
        None => if m.next_connection_id == u64::MAX {
            (m, Err("Connection ID overflow"@))
        } else {
            let id = m.next_connection_id;
            (NetModel { connections: m.connections.push((id, address)), next_connection_id: (id + 1) as u64, ..m },
                Ok(ConnectionHandle(id)))
        },
    }
}

/// Listening on `port`: the set listen error if there is one; a refusal
/// where a listener is on the port already; otherwise a new listener with
/// the next identifier.
pub open spec fn listen_step(m: NetModel, port: u16) -> (NetModel, Result<ListenerHandle, Seq<char>>) {
    match m.listen_error {
        Some(e) => (m, Err(e)),
        None => if port_in_use(m.listeners, port) {
            (m, Err("Port "@ + decimal(port as nat) + " is already in use"@))
        } else if m.next_listener_id == u64::MAX {
            (m, Err("Listener ID overflow"@))
        } else {
            let id = m.next_listener_id;
            (NetModel { listeners: m.listeners.push((id, port)), next_listener_id: (id + 1) as u64, ..m },
                Ok(ListenerHandle(id)))
        },
    }
}

/// Broadcasting `message`: the set broadcast error if there is one;
/// otherwise the message is recorded and every open connection counts as a
/// peer that received it.
pub open spec fn broadcast_step(m: NetModel, message: Seq<u8>) -> (NetModel, Result<usize, Seq<char>>) {
    match m.broadcast_error {
        Some(e) => (m, Err(e)),
        None => (NetModel { messages: m.messages.push(message), ..m }, Ok(m.connections.len() as usize)),
    }
}

/// Closing connection `id`: removed where open, refused otherwise.
pub open spec fn close_connection_step(m: NetModel, id: u64) -> (NetModel, Result<(), Seq<char>>) {
    if has_id(m.connections, id) {
        (NetModel { connections: m.connections.remove(id_index(m.connections, id)), ..m }, Ok(()))
    } else {
        (m, Err("Connection "@ + decimal(id as nat) + " not found"@))
    }
}

/// Closing listener `id`: removed where active, refused otherwise.
pub open spec fn close_listener_step(m: NetModel, id: u64) -> (NetModel, Result<(), Seq<char>>) {
    if has_id(m.listeners, id) {
        (NetModel { listeners: m.listeners.remove(id_index(m.listeners, id)), ..m }, Ok(()))
    } else {
        (m, Err("Listener "@ + decimal(id as nat) + " not found"@))
    }
}

/// Clearing: no connections, listeners or messages, identifiers from 1
/// again; the errors set stay.
pub open spec fn clear_step(m: NetModel) -> NetModel {
    NetModel {
        connections: Seq::empty(),
        listeners: Seq::empty(),
        next_connection_id: 1,
        next_listener_id: 1,
        messages: Seq::empty(),
        ..m
    }
}

/// A reply with its error as text.
pub open spec fn reply_view<T>(r: Result<T, String>) -> Result<T, Seq<char>> {
    match r {
        Ok(v) => Ok(v),
        Err(e) => Err(e@),
    }
}

/// The text of an optional error.
pub open spec fn error_view(e: Option<String>) -> Option<Seq<char>> {
    match e {
        Some(s) => Some(s@),
        None => None,
    }
}

// ─── laws of the simulated network ────────────────────────────────────────

proof fn lemma_remove_keeps_order<T>(s: Seq<(u64, T)>, next: u64, i: int)
    requires
        ids_ordered(s, next),
        0 <= i < s.len(),
    ensures
        ids_ordered(s.remove(i), next),
{
    let s2 = s.remove(i);
    assert forall|a: int, b: int| 0 <= a < b < s2.len() implies (#[trigger] s2[a]).0 < (#[trigger] s2[b]).0 by {
        let a1 = if a < i { a } else { a + 1 };
        let b1 = if b < i { b } else { b + 1 };
        assert(s2[a] == s[a1] && s2[b] == s[b1]);
    }
    assert forall|a: int| 0 <= a < s2.len() implies 1 <= (#[trigger] s2[a]).0 < next by {
        let a1 = if a < i { a } else { a + 1 };
        assert(s2[a] == s[a1]);
    }
}

proof fn lemma_push_keeps_order<T>(s: Seq<(u64, T)>, next: u64, e: T)
    requires
        ids_ordered(s, next),
        1 <= next < u64::MAX,
    ensures
        ids_ordered(s.push((next, e)), (next + 1) as u64),
        !has_id(s, next),
{
    let s2 = s.push((next, e));
    assert forall|a: int, b: int| 0 <= a < b < s2.len() implies (#[trigger] s2[a]).0 < (#[trigger] s2[b]).0 by {
        assert(s2[a] == s[a]);
        if b < s.len() { assert(s2[b] == s[b]); }
    }
    assert forall|a: int| 0 <= a < s2.len() implies 1 <= (#[trigger] s2[a]).0 < next + 1 by {
        if a < s.len() { assert(s2[a] == s[a]); }
    }
}

/// Every operation keeps the invariant of the simulated network.
pub proof fn law_network_operations_keep_invariant(m: NetModel, address: Seq<char>, port: u16,
    message: Seq<u8>, id: u64)
    requires
        net_wf(m),
    ensures
        net_wf(connect_step(m, address).0),
        net_wf(listen_step(m, port).0),
        net_wf(broadcast_step(m, message).0),
        net_wf(close_connection_step(m, id).0),
        net_wf(close_listener_step(m, id).0),
        net_wf(clear_step(m)),
        net_wf(empty_net()),
{
    if m.connect_error is None && m.next_connection_id < u64::MAX {
        lemma_push_keeps_order(m.connections, m.next_connection_id, address);
    }
    if m.listen_error is None && !port_in_use(m.listeners, port) && m.next_listener_id < u64::MAX {
        lemma_push_keeps_order(m.listeners, m.next_listener_id, port);
        let s2 = m.listeners.push((m.next_listener_id, port));
        assert forall|i: int, j: int| 0 <= i < s2.len() && 0 <= j < s2.len() && i != j
            implies (#[trigger] s2[i]).1 != (#[trigger] s2[j]).1 by {
            if i < m.listeners.len() { assert(s2[i] == m.listeners[i]); }
            if j < m.listeners.len() { assert(s2[j] == m.listeners[j]); }
        }
    }
    if has_id(m.connections, id) {
        lemma_remove_keeps_order(m.connections, m.next_connection_id, id_index(m.connections, id));
    }
    if has_id(m.listeners, id) {
        let i = id_index(m.listeners, id);
        lemma_remove_keeps_order(m.listeners, m.next_listener_id, i);
        let s2 = m.listeners.remove(i);
        assert forall|a: int, b: int| 0 <= a < s2.len() && 0 <= b < s2.len() && a != b
            implies (#[trigger] s2[a]).1 != (#[trigger] s2[b]).1 by {
            let a1 = if a < i { a } else { a + 1 };
            let b1 = if b < i { b } else { b + 1 };
            assert(s2[a] == m.listeners[a1] && s2[b] == m.listeners[b1]);
        }
    }
}

/// A connection gets an identifier that no open connection has, one more
/// than the previous one handed out, and the connection count rises by one.
pub proof fn law_connect_fresh_identifier(m: NetModel, address: Seq<char>)
    requires
        net_wf(m),
        m.connect_error is None,
        m.next_connection_id < u64::MAX,
    ensures
        connect_step(m, address).1 == Ok::<ConnectionHandle, Seq<char>>(ConnectionHandle(m.next_connection_id)),
        !has_id(m.connections, m.next_connection_id),
        connect_step(m, address).0.connections.len() == m.connections.len() + 1,
        connect_step(m, address).0.next_connection_id == m.next_connection_id + 1,
{
    lemma_push_keeps_order(m.connections, m.next_connection_id, address);
}

/// A connection closed right after it was made leaves the connections as
/// they were; a second close of it is refused.
pub proof fn law_connect_then_close(m: NetModel, address: Seq<char>)
    requires
        net_wf(m),
        m.connect_error is None,
        m.next_connection_id < u64::MAX,
    ensures
        ({
            let (m1, r) = connect_step(m, address);
            let id = m.next_connection_id;
            &&& close_connection_step(m1, id).1 is Ok
            &&& close_connection_step(m1, id).0.connections == m.connections
            &&& close_connection_step(close_connection_step(m1, id).0, id).1 is Err
        }),
{
    let (m1, r) = connect_step(m, address);
    let id = m.next_connection_id;
    lemma_push_keeps_order(m.connections, id, address);
    let s1 = m1.connections;
    assert(s1[s1.len() - 1].0 == id);
    assert(has_id(s1, id));
    let i = id_index(s1, id);
    if i != s1.len() - 1 {
        assert(s1[i] == m.connections[i]);
    }
    assert(i == s1.len() - 1);
    assert(s1.remove(i) =~= m.connections);
}

/// Closing connection `id` succeeds exactly when it is open; it then
/// removes that connection alone: one connection fewer, `id` no longer open,
/// every other connection still open with its address, and listeners,
/// messages and identifiers unchanged.
pub proof fn law_close_connection_removes_only(m: NetModel, id: u64, other: u64)
    requires
        net_wf(m),
    ensures
        ({
            let (m2, r) = close_connection_step(m, id);
            &&& (r is Ok <==> has_id(m.connections, id))
            &&& (r is Ok ==> m2.connections.len() + 1 == m.connections.len())
            &&& !has_id(m2.connections, id)
            &&& (other != id && has_id(m.connections, other) ==> has_id(m2.connections, other)
                && m2.connections[id_index(m2.connections, other)] == m.connections[id_index(m.connections, other)])
            &&& (other != id && !has_id(m.connections, other) ==> !has_id(m2.connections, other))
            &&& m2.listeners == m.listeners
            &&& m2.messages == m.messages
            &&& m2.next_connection_id == m.next_connection_id
            &&& m2.next_listener_id == m.next_listener_id
        }),
{
    let s = m.connections;
    if has_id(s, id) {
        let i = id_index(s, id);
        let t = s.remove(i);
        lemma_id_index_unique(s, m.next_connection_id, i);
        assert forall|j: int| 0 <= j < t.len() implies (#[trigger] t[j]).0 != id by {
            if j < i {
                assert(t[j] == s[j]);
            } else {
                assert(t[j] == s[j + 1]);
            }
        }
        if other != id && has_id(s, other) {
            let k = id_index(s, other);
            lemma_id_index_unique(s, m.next_connection_id, k);
            let k2 = if k < i { k } else { k - 1 };
            assert(t[k2] == s[k]);
            assert(has_id(t, other));
            let kk = id_index(t, other);
            assert forall|j: int| 0 <= j < t.len() && (#[trigger] t[j]).0 == other implies j == k2 by {
                if j < i {
                    assert(t[j] == s[j]);
                } else {
                    assert(t[j] == s[j + 1]);
                }
            }
        }
        if other != id && !has_id(s, other) {
            assert forall|j: int| 0 <= j < t.len() implies (#[trigger] t[j]).0 != other by {
                if j < i {
                    assert(t[j] == s[j]);
                } else {
                    assert(t[j] == s[j + 1]);
                }
            }
        }
    }
}

/// A listener stopped right after it was opened leaves the listeners as
/// they were; while it is active, its port is refused to others.
pub proof fn law_listen_then_close(m: NetModel, port: u16)
    requires
        net_wf(m),
        m.listen_error is None,
        !port_in_use(m.listeners, port),
        m.next_listener_id < u64::MAX,
    ensures
        ({
            let (m1, r) = listen_step(m, port);
            let id = m.next_listener_id;
            &&& r == Ok::<ListenerHandle, Seq<char>>(ListenerHandle(id))
            &&& listen_step(m1, port).1 is Err
            &&& close_listener_step(m1, id).1 is Ok
            &&& close_listener_step(m1, id).0.listeners == m.listeners
        }),
{
    let (m1, r) = listen_step(m, port);
    let id = m.next_listener_id;
    lemma_push_keeps_order(m.listeners, id, port);
    let s1 = m1.listeners;
    assert(s1[s1.len() - 1] == (id, port));
    assert(port_in_use(s1, port));
    assert(has_id(s1, id));
    let i = id_index(s1, id);
    if i != s1.len() - 1 {
        assert(s1[i] == m.listeners[i]);
    }
    assert(i == s1.len() - 1);
    assert(s1.remove(i) =~= m.listeners);
}

/// An operation refused by a set error reports that error and changes
/// nothing; so does a close of an unknown identifier.
pub proof fn law_refusals_change_nothing(m: NetModel, address: Seq<char>, port: u16, message: Seq<u8>, id: u64)
    ensures
        m.connect_error matches Some(e) ==> connect_step(m, address) == (m, Err::<ConnectionHandle, Seq<char>>(e)),
        m.listen_error matches Some(e) ==> listen_step(m, port) == (m, Err::<ListenerHandle, Seq<char>>(e)),
        m.broadcast_error matches Some(e) ==> broadcast_step(m, message) == (m, Err::<usize, Seq<char>>(e)),
        connect_step(m, address).1 is Err ==> connect_step(m, address).0 == m,
        listen_step(m, port).1 is Err ==> listen_step(m, port).0 == m,
        !has_id(m.connections, id) ==> close_connection_step(m, id).0 == m,
        !has_id(m.listeners, id) ==> close_listener_step(m, id).0 == m,
{
}

/// A broadcast reaches as many peers as there are open connections and is
/// recorded after the earlier messages.
pub proof fn law_broadcast_counts_connections(m: NetModel, message: Seq<u8>)
    requires
        m.broadcast_error is None,
        m.connections.len() <= usize::MAX,
    ensures
        broadcast_step(m, message).1 == Ok::<usize, Seq<char>>(m.connections.len() as usize),
        broadcast_step(m, message).0.messages == m.messages.push(message),
        broadcast_step(m, message).0.connections == m.connections,
{
}

/// Clearing forgets connections, listeners and messages and hands out
/// identifiers from 1 again.
pub proof fn law_clear_restarts(m: NetModel, address: Seq<char>)
    ensures
        clear_step(m).connections.len() == 0,
        clear_step(m).listeners.len() == 0,
        clear_step(m).messages.len() == 0,
        m.connect_error is None ==> connect_step(clear_step(m), address).1
            == Ok::<ConnectionHandle, Seq<char>>(ConnectionHandle(1)),
{
}

// ─── the simulated network ────────────────────────────────────────────────

/// A simulated network: no I/O, only the record of what was asked.
#[derive(Debug)]
pub struct NetworkState {
    connections: Vec<(u64, String)>,
    listeners: Vec<(u64, u16)>,
    next_connection_id: u64,
    next_listener_id: u64,
    messages: Vec<Vec<u8>>,
    connect_error: Option<String>,
    listen_error: Option<String>,
    broadcast_error: Option<String>,
}

/// The (identifier, address) pairs of a list of connections.
pub open spec fn connections_view(cs: Seq<(u64, String)>) -> Seq<(u64, Seq<char>)> {
    cs.map_values(|e: (u64, String)| (e.0, e.1@))
}

/// The bytes of a list of messages.
pub open spec fn messages_view(ms: Seq<Vec<u8>>) -> Seq<Seq<u8>> {
    ms.map_values(|v: Vec<u8>| v@)
}

impl View for NetworkState {
    type V = NetModel;

    closed spec fn view(&self) -> NetModel {
        NetModel {
            connections: connections_view(self.connections@),
            listeners: self.listeners@,
            next_connection_id: self.next_connection_id,
            next_listener_id: self.next_listener_id,
            messages: messages_view(self.messages@),
            connect_error: error_view(self.connect_error),
            listen_error: error_view(self.listen_error),
            broadcast_error: error_view(self.broadcast_error),
        }
    }
}

/// The position of identifier `id` in `s`, if it is there.
fn find_id<T>(s: &Vec<(u64, T)>, id: u64) -> (r: Option<usize>)
    ensures
        r matches Some(i) ==> i < s@.len() && s@[i as int].0 == id,
        r is None ==> forall|j: int| 0 <= j < s@.len() ==> (#[trigger] s@[j]).0 != id,
{
    let n = s.len();
    let mut i: usize = 0;
    while i < n
        invariant
            n == s@.len(),
            i <= n,
            forall|j: int| 0 <= j < i ==> (#[trigger] s@[j]).0 != id,
        decreases n - i,
    {
        if s[i].0 == id {
            return Some(i);
        }
        i = i + 1;
    }
    None
}

proof fn lemma_id_index_unique<T>(s: Seq<(u64, T)>, next: u64, i: int)
    requires
        ids_ordered(s, next),
        0 <= i < s.len(),
    ensures
        has_id(s, s[i].0),
        id_index(s, s[i].0) == i,
{
    let id = s[i].0;
    assert(has_id(s, id));
    let k = id_index(s, id);
    if k < i {
        assert(s[k].0 < s[i].0);
    } else if k > i {
        assert(s[i].0 < s[k].0);
    }
}

impl NetworkState {
    #[verifier::type_invariant]
    spec fn inv(&self) -> bool {
        net_wf(self@)
    }

    /// A new network: nothing open, identifiers from 1, no errors set.
    pub fn new() -> (n: Self)
        ensures
            n@ == empty_net(),
    {
        let n = NetworkState {
            connections: Vec::new(),
            listeners: Vec::new(),
            next_connection_id: 1,
            next_listener_id: 1,
            messages: Vec::new(),
            connect_error: None,
            listen_error: None,
            broadcast_error: None,
        };
        assert(connections_view(n.connections@) =~= Seq::<(u64, Seq<char>)>::empty());
        assert(messages_view(n.messages@) =~= Seq::<Seq<u8>>::empty());
        n
    }

    /// Connects to `address` (see `connect_step`).
    pub fn connect(&mut self, address: &str) -> (r: Result<ConnectionHandle, String>)
        ensures
            final(self)@ == connect_step(old(self)@, address@).0,
            reply_view(r) == connect_step(old(self)@, address@).1,
    {
        proof { use_type_invariant(&*self); }
        if let Some(e) = &self.connect_error {
            return Err(e.clone());
        }
        if self.next_connection_id == u64::MAX {
            let msg = String::from_str("Connection ID overflow");
            proof { reveal_strlit("Connection ID overflow"); }
            return Err(msg);
        }
        let id = self.next_connection_id;
        let ghost before = connections_view(self.connections@);
        proof { lemma_push_keeps_order(before, id, address@); }
        let mut conns: Vec<(u64, String)> = Vec::new();
        std::mem::swap(&mut conns, &mut self.connections);
        assert(connections_view(self.connections@) =~= Seq::<(u64, Seq<char>)>::empty());
        conns.push((id, String::from_str(address)));
        assert(connections_view(conns@) =~= before.push((id, address@)));
        self.next_connection_id = id + 1;
        self.connections = conns;
        Ok(ConnectionHandle(id))
    }

    /// Whether a listener is on `port`.
    fn port_taken(&self, port: u16) -> (r: bool)
        ensures
            r == port_in_use(self@.listeners, port),
    {
        let n = self.listeners.len();
        let mut i: usize = 0;
        while i < n
            invariant
                n == self.listeners@.len(),
                i <= n,
                forall|j: int| 0 <= j < i ==> (#[trigger] self.listeners@[j]).1 != port,
            decreases n - i,
        {
            if self.listeners[i].1 == port {
                assert(self@.listeners[i as int].1 == port);
                return true;
            }
            i = i + 1;
        }
        false
    }

    /// Listens on `port` (see `listen_step`).
    pub fn listen(&mut self, port: u16) -> (r: Result<ListenerHandle, String>)
        ensures
            final(self)@ == listen_step(old(self)@, port).0,
            reply_view(r) == listen_step(old(self)@, port).1,
    {
        proof { use_type_invariant(&*self); }
        if let Some(e) = &self.listen_error {
            return Err(e.clone());
        }
        if self.port_taken(port) {
            let mut msg = text_with_number("Port ", port as u64);
            msg.append(" is already in use");
            return Err(msg);
        }
        if self.next_listener_id == u64::MAX {
            let msg = String::from_str("Listener ID overflow");
            proof { reveal_strlit("Listener ID overflow"); }
            return Err(msg);
        }
        let id = self.next_listener_id;
        let ghost before = self.listeners@;
        proof {
            lemma_push_keeps_order(before, id, port);
            let s2 = before.push((id, port));
            assert forall|i: int, j: int| 0 <= i < s2.len() && 0 <= j < s2.len() && i != j
                implies (#[trigger] s2[i]).1 != (#[trigger] s2[j]).1 by {
                if i < before.len() { assert(s2[i] == before[i]); }
                if j < before.len() { assert(s2[j] == before[j]); }
            }
        }
        let mut ls: Vec<(u64, u16)> = Vec::new();
        std::mem::swap(&mut ls, &mut self.listeners);
        ls.push((id, port));
        self.next_listener_id = id + 1;
        self.listeners = ls;
        Ok(ListenerHandle(id))
    }

    /// Broadcasts `message` (see `broadcast_step`).
    pub fn broadcast(&mut self, message: &[u8]) -> (r: Result<usize, String>)
        ensures
            final(self)@ == broadcast_step(old(self)@, message@).0,
            reply_view(r) == broadcast_step(old(self)@, message@).1,
    {
        proof { use_type_invariant(&*self); }
        if let Some(e) = &self.broadcast_error {
            return Err(e.clone());
        }
        let ghost before = messages_view(self.messages@);
        let mut ms: Vec<Vec<u8>> = Vec::new();
        std::mem::swap(&mut ms, &mut self.messages);
        ms.push(vstd::slice::slice_to_vec(message));
        assert(messages_view(ms@) =~= before.push(message@));
        self.messages = ms;
        Ok(self.connections.len())
    }

    /// Closes connection `handle` (see `close_connection_step`).
    pub fn close_connection(&mut self, handle: ConnectionHandle) -> (r: Result<(), String>)
        ensures
            final(self)@ == close_connection_step(old(self)@, handle.0).0,
            reply_view(r) == close_connection_step(old(self)@, handle.0).1,
    {
        proof { use_type_invariant(&*self); }
        let ghost before = connections_view(self.connections@);
        match find_id(&self.connections, handle.0) {
            Some(i) => {
                proof {
                    assert(before[i as int].0 == handle.0);
                    lemma_id_index_unique(before, self.next_connection_id, i as int);
                    lemma_remove_keeps_order(before, self.next_connection_id, i as int);
                }
                let mut conns: Vec<(u64, String)> = Vec::new();
                std::mem::swap(&mut conns, &mut self.connections);
                assert(connections_view(self.connections@) =~= Seq::<(u64, Seq<char>)>::empty());
                conns.remove(i);
                assert(connections_view(conns@) =~= before.remove(i as int));
                self.connections = conns;
                Ok(())
            },
            None => {
                proof {
                    assert forall|j: int| 0 <= j < before.len() implies (#[trigger] before[j]).0 != handle.0 by {
                        assert(before[j].0 == self.connections@[j].0);
                    }
                }
                let mut msg = text_with_number("Connection ", handle.0);
                msg.append(" not found");
                Err(msg)
            },
        }
    }

    /// Stops listener `handle` (see `close_listener_step`).
    pub fn close_listener(&mut self, handle: ListenerHandle) -> (r: Result<(), String>)
        ensures
            final(self)@ == close_listener_step(old(self)@, handle.0).0,
            reply_view(r) == close_listener_step(old(self)@, handle.0).1,
    {
        proof { use_type_invariant(&*self); }
        let ghost before = self.listeners@;
        match find_id(&self.listeners, handle.0) {
            Some(i) => {
                proof {
                    lemma_id_index_unique(before, self.next_listener_id, i as int);
                    lemma_remove_keeps_order(before, self.next_listener_id, i as int);
                    let s2 = before.remove(i as int);
                    assert forall|a: int, b: int| 0 <= a < s2.len() && 0 <= b < s2.len() && a != b
                        implies (#[trigger] s2[a]).1 != (#[trigger] s2[b]).1 by {
                        let a1 = if a < i { a } else { a + 1 };
                        let b1 = if b < i { b } else { b + 1 };
                        assert(s2[a] == before[a1] && s2[b] == before[b1]);
                    }
                }
                let mut ls: Vec<(u64, u16)> = Vec::new();
                std::mem::swap(&mut ls, &mut self.listeners);
                ls.remove(i);
                self.listeners = ls;
                Ok(())
            },
            None => {
                let mut msg = text_with_number("Listener ", handle.0);
                msg.append(" not found");
                Err(msg)
            },
        }
    }

    /// The number of open connections.
    pub fn connection_count(&self) -> (n: usize)
        ensures
            n == self@.connections.len(),
    {
        self.connections.len()
    }

    /// The number of active listeners.
    pub fn listener_count(&self) -> (n: usize)
        ensures
            n == self@.listeners.len(),
    {
        self.listeners.len()
    }

    /// The addresses of the open connections, in the order they were made.
    pub fn connected_addresses(&self) -> (v: Vec<String>)
        ensures
            v@.len() == self@.connections.len(),
            forall|i: int| 0 <= i < v@.len() ==> (#[trigger] v@[i])@ == self@.connections[i].1,
    {
        let n = self.connections.len();
        let mut out: Vec<String> = Vec::new();
        let mut i: usize = 0;
        while i < n
            invariant
                n == self.connections@.len(),
                i <= n,
                out@.len() == i,
                forall|j: int| 0 <= j < i ==> (#[trigger] out@[j])@ == self.connections@[j].1@,
            decreases n - i,
        {
            out.push(self.connections[i].1.clone());
            i = i + 1;
        }
        out
    }

    /// The ports listened on, in the order the listeners were opened.
    pub fn listening_ports(&self) -> (v: Vec<u16>)
        ensures
            v@ == self@.listeners.map_values(|e: (u64, u16)| e.1),
    {
        let n = self.listeners.len();
        let mut out: Vec<u16> = Vec::new();
        let mut i: usize = 0;
        while i < n
            invariant
                n == self.listeners@.len(),
                i <= n,
                out@ == self.listeners@.take(i as int).map_values(|e: (u64, u16)| e.1),
            decreases n - i,
        {
            out.push(self.listeners[i].1);
            i = i + 1;
            assert(out@ =~= self.listeners@.take(i as int).map_values(|e: (u64, u16)| e.1));
        }
        assert(self.listeners@.take(n as int) =~= self.listeners@);
        out
    }

    /// The messages broadcast so far, oldest first.
    pub fn broadcast_messages(&self) -> (v: Vec<Vec<u8>>)
        ensures
            messages_view(v@) == self@.messages,
    {
        let n = self.messages.len();
        let mut out: Vec<Vec<u8>> = Vec::new();
        let mut i: usize = 0;
        while i < n
            invariant
                n == self.messages@.len(),
                i <= n,
                out@.len() == i,
                forall|j: int| 0 <= j < i ==> (#[trigger] out@[j])@ == self.messages@[j]@,
            decreases n - i,
        {
            out.push(vstd::slice::slice_to_vec(self.messages[i].as_slice()));
            i = i + 1;
        }
        assert(messages_view(out@) =~= messages_view(self.messages@));
        out
    }

    /// Sets or unsets the error that connections report.
    pub fn set_connect_error(&mut self, error: Option<String>)
        ensures
            final(self)@ == (NetModel { connect_error: error_view(error), ..old(self)@ }),
    {
        proof { use_type_invariant(&*self); }
        self.connect_error = error;
    }

    /// Sets or unsets the error that listens report.
    pub fn set_listen_error(&mut self, error: Option<String>)
        ensures
            final(self)@ == (NetModel { listen_error: error_view(error), ..old(self)@ }),
    {
        proof { use_type_invariant(&*self); }
        self.listen_error = error;
    }

    /// Sets or unsets the error that broadcasts report.
    pub fn set_broadcast_error(&mut self, error: Option<String>)
        ensures
            final(self)@ == (NetModel { broadcast_error: error_view(error), ..old(self)@ }),
    {
        proof { use_type_invariant(&*self); }
        self.broadcast_error = error;
    }

    /// Forgets connections, listeners and messages; identifiers start from
    /// 1 again (see `clear_step`).
    pub fn clear(&mut self)
        ensures
            final(self)@ == clear_step(old(self)@),
    {
        proof { use_type_invariant(&*self); }
        self.connections = Vec::new();
        self.listeners = Vec::new();
        self.messages = Vec::new();
        self.next_connection_id = 1;
        self.next_listener_id = 1;
        assert(connections_view(self.connections@) =~= Seq::<(u64, Seq<char>)>::empty());
        assert(messages_view(self.messages@) =~= Seq::<Seq<u8>>::empty());
    }
}

// ─── the shared simulated network ─────────────────────────────────────────

/// A change to a simulated network, run under its lock.
pub(crate) enum NetOp {
    Connect(String),
    Listen(u16),
    Broadcast(Vec<u8>),
    CloseConnection(ConnectionHandle),
    CloseListener(ListenerHandle),
    SetConnectError(Option<String>),
    SetListenError(Option<String>),
    SetBroadcastError(Option<String>),
    Clear,
}

/// The answer to a `NetOp`.
pub(crate) enum NetAnswer {
    Connection(Result<ConnectionHandle, String>),
    Listener(Result<ListenerHandle, String>),
    Peers(Result<usize, String>),
    Done(Result<(), String>),
}

/// A question to a simulated network, answered under its lock.
pub(crate) enum NetQuery {
    ConnectionCount,
    ListenerCount,
    Addresses,
    Ports,
    Messages,
}

/// The answer to a `NetQuery`.
pub(crate) enum NetReply {
    Count(usize),
    Addresses(Vec<String>),
    Ports(Vec<u16>),
    Messages(Vec<Vec<u8>>),
}

/// The addresses `v` are those of the connections of `m`, in order.
pub open spec fn addresses_of(m: NetModel, v: Seq<String>) -> bool {
    v.len() == m.connections.len() && forall|i: int| 0 <= i < v.len() ==> (#[trigger] v[i])@ == m.connections[i].1
}

/// The ports of the listeners of `m`, in order.
pub open spec fn ports_of(m: NetModel) -> Seq<u16> {
    m.listeners.map_values(|e: (u64, u16)| e.1)
}

/// A new network is well formed.
pub proof fn lemma_empty_net_wf()
    ensures
        net_wf(empty_net()),
{
}

/// `reply` is what a new network answers to `q`.
pub(crate) open spec fn new_net_reply(q: NetQuery, reply: NetReply) -> bool {
    let m = empty_net();
    net_wf(m) && match q {
        NetQuery::ConnectionCount => reply matches NetReply::Count(n) && n == m.connections.len(),
        NetQuery::ListenerCount => reply matches NetReply::Count(n) && n == m.listeners.len(),
        NetQuery::Addresses => reply matches NetReply::Addresses(v) && addresses_of(m, v@),
        NetQuery::Ports => reply matches NetReply::Ports(v) && v@ == ports_of(m),
        NetQuery::Messages => reply matches NetReply::Messages(v) && messages_view(v@) == m.messages,
    }
}

impl Guarded for NetworkState {
    type Op = NetOp;
    type Answer = NetAnswer;
    type Query = NetQuery;
    type Reply = NetReply;

    closed spec fn applies(self, op: NetOp, next: Self, answer: NetAnswer) -> bool {
        net_wf(self@) && match op {
            NetOp::Connect(a) => answer matches NetAnswer::Connection(r)
                && reply_view(r) == connect_step(self@, a@).1 && next@ == connect_step(self@, a@).0,
            NetOp::Listen(port) => answer matches NetAnswer::Listener(r)
                && reply_view(r) == listen_step(self@, port).1 && next@ == listen_step(self@, port).0,
            NetOp::Broadcast(msg) => answer matches NetAnswer::Peers(r)
                && reply_view(r) == broadcast_step(self@, msg@).1 && next@ == broadcast_step(self@, msg@).0,
            NetOp::CloseConnection(h) => answer matches NetAnswer::Done(r)
                && reply_view(r) == close_connection_step(self@, h.0).1
                && next@ == close_connection_step(self@, h.0).0,
            NetOp::CloseListener(h) => answer matches NetAnswer::Done(r)
                && reply_view(r) == close_listener_step(self@, h.0).1
                && next@ == close_listener_step(self@, h.0).0,
            NetOp::SetConnectError(e) => next@ == (NetModel { connect_error: error_view(e), ..self@ }),
            NetOp::SetListenError(e) => next@ == (NetModel { listen_error: error_view(e), ..self@ }),
            NetOp::SetBroadcastError(e) => next@ == (NetModel { broadcast_error: error_view(e), ..self@ }),
            NetOp::Clear => next@ == clear_step(self@),
        }
    }

    closed spec fn replies(&self, q: NetQuery, reply: NetReply) -> bool {
        net_wf(self@) && match q {
            NetQuery::ConnectionCount => reply matches NetReply::Count(n) && n == self@.connections.len(),
            NetQuery::ListenerCount => reply matches NetReply::Count(n) && n == self@.listeners.len(),
            NetQuery::Addresses => reply matches NetReply::Addresses(v) && addresses_of(self@, v@),
            NetQuery::Ports => reply matches NetReply::Ports(v) && v@ == ports_of(self@),
            NetQuery::Messages => reply matches NetReply::Messages(v) && messages_view(v@) == self@.messages,
        }
    }

    fn apply(&mut self, op: NetOp) -> (answer: NetAnswer) {
        proof { use_type_invariant(&*self); }
        match op {
            NetOp::Connect(a) => NetAnswer::Connection(self.connect(a.as_str())),
            NetOp::Listen(port) => NetAnswer::Listener(self.listen(port)),
            NetOp::Broadcast(msg) => NetAnswer::Peers(self.broadcast(msg.as_slice())),
            NetOp::CloseConnection(h) => NetAnswer::Done(self.close_connection(h)),
            NetOp::CloseListener(h) => NetAnswer::Done(self.close_listener(h)),
            NetOp::SetConnectError(e) => {
                self.set_connect_error(e);
                NetAnswer::Done(Ok(()))
            },
            NetOp::SetListenError(e) => {
                self.set_listen_error(e);
                NetAnswer::Done(Ok(()))
            },
            NetOp::SetBroadcastError(e) => {
                self.set_broadcast_error(e);
                NetAnswer::Done(Ok(()))
            },
            NetOp::Clear => {
                self.clear();
                NetAnswer::Done(Ok(()))
            },
        }
    }

    fn query(&self, q: &NetQuery) -> (reply: NetReply) {
        proof { use_type_invariant(self); }
        match q {
            NetQuery::ConnectionCount => NetReply::Count(self.connection_count()),
            NetQuery::ListenerCount => NetReply::Count(self.listener_count()),
            NetQuery::Addresses => NetReply::Addresses(self.connected_addresses()),
            NetQuery::Ports => NetReply::Ports(self.listening_ports()),
            NetQuery::Messages => NetReply::Messages(self.broadcast_messages()),
        }
    }
}

/// A simulated network backend for testing: no I/O. Clones share one
/// `NetworkState`: a change through one handle is seen through all.
///
/// Each operation runs the `NetworkState` operation of the same name under
/// the lock. What the network holds between two calls is not stated, since
/// another handle may change it: a reply is stated as the answer of the
/// operation on some well-formed network. Where the lock is poisoned, the
/// operations answer "Lock error: ...", the queries answer an empty list and
/// a count of 0 (the answers of a new network), and the setters change
/// nothing.
#[derive(Debug, Clone)]
pub struct MockNetworkBackend {
    state: Arc<RwLock<NetworkState>>,
}

impl MockNetworkBackend {
    /// A handle on a new simulated network.
    pub fn new() -> (n: Self) {
        MockNetworkBackend { state: Arc::new(lock_new(NetworkState::new())) }
    }

    /// Answers `q` from the shared network; on a poisoned lock, the answer
    /// of a new network.
    fn ask(&self, q: NetQuery) -> (reply: NetReply)
        ensures
            (exists|s: NetworkState| #[trigger] s.replies(q, reply)) || new_net_reply(q, reply),
    {
        let fallback = match &q {
            NetQuery::ConnectionCount => NetReply::Count(0),
            NetQuery::ListenerCount => NetReply::Count(0),
            NetQuery::Addresses => NetReply::Addresses(Vec::new()),
            NetQuery::Ports => NetReply::Ports(Vec::new()),
            NetQuery::Messages => NetReply::Messages(Vec::new()),
        };
        proof {
            lemma_empty_net_wf();
            assert(ports_of(empty_net()) =~= Seq::<u16>::empty());
            assert(messages_view(Seq::<Vec<u8>>::empty()) =~= Seq::<Seq<u8>>::empty());
            assert(new_net_reply(q, fallback));
        }
        match lock_query(&*self.state, q) {
            Ok(reply) => reply,
            Err(_) => fallback,
        }
    }

    /// Runs `op` on the shared network.
    fn run(&self, op: NetOp) -> (r: Result<NetAnswer, String>)
        ensures
            lock_failed(r) || r is Ok && exists|pre: NetworkState, post: NetworkState|
                #[trigger] pre.applies(op, post, r->Ok_0),
    {
        lock_apply(&*self.state, op)
    }

    /// The addresses of the open connections of some well-formed network,
    /// in the order they were made.
    pub fn connected_addresses(&self) -> (v: Vec<String>)
        ensures
            exists|m: NetModel| net_wf(m) && #[trigger] addresses_of(m, v@),
    {
        let q = NetQuery::Addresses;
        match self.ask(q) {
            NetReply::Addresses(v) => {
                proof {
                    if exists|s: NetworkState| #[trigger] s.replies(q, NetReply::Addresses(v)) {
                        let s = choose|s: NetworkState| #[trigger] s.replies(q, NetReply::Addresses(v));
                        assert(addresses_of(s@, v@));
                    } else {
                        assert(addresses_of(empty_net(), v@));
                    }
                }
                v
            },
            _ => {
                proof { assert(false); }
                Vec::new()
            },
        }
    }

    /// The ports listened on in some well-formed network, each at most once
    /// (a port is never listened on twice), in the order the listeners were
    /// opened.
    pub fn listening_ports(&self) -> (v: Vec<u16>)
        ensures
            exists|m: NetModel| net_wf(m) && v@ == #[trigger] ports_of(m),
            forall|i: int, j: int| 0 <= i < v@.len() && 0 <= j < v@.len() && i != j ==> v@[i] != v@[j],
    {
        let q = NetQuery::Ports;
        match self.ask(q) {
            NetReply::Ports(v) => {
                proof {
                    let m = if exists|s: NetworkState| #[trigger] s.replies(q, NetReply::Ports(v)) {
                        let s = choose|s: NetworkState| #[trigger] s.replies(q, NetReply::Ports(v));
                        s@
                    } else {
                        empty_net()
                    };
                    assert(net_wf(m) && v@ == ports_of(m));
                    assert forall|i: int, j: int| 0 <= i < v@.len() && 0 <= j < v@.len() && i != j
                        implies v@[i] != v@[j] by {
                        assert(v@[i] == m.listeners[i].1 && v@[j] == m.listeners[j].1);
                    }
                }
                v
            },
            _ => {
                proof { assert(false); }
                Vec::new()
            },
        }
    }

    /// The messages broadcast so far in some well-formed network, oldest
    /// first.
    pub fn broadcast_messages(&self) -> (v: Vec<Vec<u8>>)
        ensures
            exists|m: NetModel| net_wf(m) && messages_view(v@) == #[trigger] m.messages,
    {
        let q = NetQuery::Messages;
        match self.ask(q) {
            NetReply::Messages(v) => {
                proof {
                    if exists|s: NetworkState| #[trigger] s.replies(q, NetReply::Messages(v)) {
                        let s = choose|s: NetworkState| #[trigger] s.replies(q, NetReply::Messages(v));
                        assert(messages_view(v@) == s@.messages);
                    } else {
                        assert(messages_view(v@) == empty_net().messages);
                    }
                }
                v
            },
            _ => {
                proof { assert(false); }
                Vec::new()
            },
        }
    }

    /// Sets or unsets the error that connections report.
    pub fn set_connect_error(&self, error: Option<String>) {
        let _ = self.run(NetOp::SetConnectError(error));
    }

    /// Sets or unsets the error that listens report.
    pub fn set_listen_error(&self, error: Option<String>) {
        let _ = self.run(NetOp::SetListenError(error));
    }

    /// Sets or unsets the error that broadcasts report.
    pub fn set_broadcast_error(&self, error: Option<String>) {
        let _ = self.run(NetOp::SetBroadcastError(error));
    }

    /// Forgets connections, listeners and messages; identifiers start from
    /// 1 again.
    pub fn clear(&self) {
        let _ = self.run(NetOp::Clear);
    }
}

impl Default for MockNetworkBackend {
    /// A handle on a new simulated network.
    fn default() -> (n: Self) {
        MockNetworkBackend::new()
    }
}

impl NetworkBackend for MockNetworkBackend {
    /// The reply of `connect_step` on some well-formed network.
    open spec fn connect_reply(&self, address: Seq<char>, r: Result<ConnectionHandle, String>) -> bool {
        lock_failed(r) || exists|m: NetModel| net_wf(m) && reply_view(r) == (#[trigger] connect_step(m, address)).1
    }

    /// The reply of `listen_step` on some well-formed network.
    open spec fn listen_reply(&self, port: u16, r: Result<ListenerHandle, String>) -> bool {
        lock_failed(r) || exists|m: NetModel| net_wf(m) && reply_view(r) == (#[trigger] listen_step(m, port)).1
    }

    /// The reply of `broadcast_step` on some well-formed network.
    open spec fn broadcast_reply(&self, message: Seq<u8>, r: Result<usize, String>) -> bool {
        lock_failed(r) || exists|m: NetModel| net_wf(m)
            && reply_view(r) == (#[trigger] broadcast_step(m, message)).1
    }

    /// The reply of `close_connection_step` on some well-formed network.
    open spec fn close_connection_reply(&self, id: u64, r: Result<(), String>) -> bool {
        lock_failed(r) || exists|m: NetModel| net_wf(m)
            && reply_view(r) == (#[trigger] close_connection_step(m, id)).1
    }

    /// The reply of `close_listener_step` on some well-formed network.
    open spec fn close_listener_reply(&self, id: u64, r: Result<(), String>) -> bool {
        lock_failed(r) || exists|m: NetModel| net_wf(m)
            && reply_view(r) == (#[trigger] close_listener_step(m, id)).1
    }

    /// The number of connections of some well-formed network.
    open spec fn connection_count_reply(&self, n: usize) -> bool {
        exists|m: NetModel| net_wf(m) && n == (#[trigger] m.connections.len())
    }

    /// The number of listeners of some well-formed network.
    open spec fn listener_count_reply(&self, n: usize) -> bool {
        exists|m: NetModel| net_wf(m) && n == (#[trigger] m.listeners.len())
    }

    /// Applies `connect_step` to the shared network.
    fn connect(&self, address: &str) -> (r: Result<ConnectionHandle, String>) {
        let op = NetOp::Connect(String::from_str(address));
        let ghost gop = op;
        match self.run(op) {
            Ok(NetAnswer::Connection(v)) => {
                proof {
                    let (pre, post) = choose|pre: NetworkState, post: NetworkState| #[trigger] pre.applies(gop, post, NetAnswer::Connection(v));
                    assert(reply_view(v) == connect_step(pre@, address@).1);
                }
                v
            },
            Ok(other) => {
                proof {
                    let (pre, post) = choose|pre: NetworkState, post: NetworkState| #[trigger] pre.applies(gop, post, other);
                    assert(false);
                }
                Err(String::new())
            },
            Err(e) => Err(e),
        }
    }

    /// Applies `listen_step` to the shared network.
    fn listen(&self, port: u16) -> (r: Result<ListenerHandle, String>) {
        let op = NetOp::Listen(port);
        let ghost gop = op;
        match self.run(op) {
            Ok(NetAnswer::Listener(v)) => {
                proof {
                    let (pre, post) = choose|pre: NetworkState, post: NetworkState| #[trigger] pre.applies(gop, post, NetAnswer::Listener(v));
                    assert(reply_view(v) == listen_step(pre@, port).1);
                }
                v
            },
            Ok(other) => {
                proof {
                    let (pre, post) = choose|pre: NetworkState, post: NetworkState| #[trigger] pre.applies(gop, post, other);
                    assert(false);
                }
                Err(String::new())
            },
            Err(e) => Err(e),
        }
    }

    /// Applies `broadcast_step` to the shared network.
    fn broadcast(&self, message: &[u8]) -> (r: Result<usize, String>) {
        let op = NetOp::Broadcast(vstd::slice::slice_to_vec(message));
        let ghost gop = op;
        match self.run(op) {
            Ok(NetAnswer::Peers(v)) => {
                proof {
                    let (pre, post) = choose|pre: NetworkState, post: NetworkState| #[trigger] pre.applies(gop, post, NetAnswer::Peers(v));
                    assert(reply_view(v) == broadcast_step(pre@, message@).1);
                }
                v
            },
            Ok(other) => {
                proof {
                    let (pre, post) = choose|pre: NetworkState, post: NetworkState| #[trigger] pre.applies(gop, post, other);
                    assert(false);
                }
                Err(String::new())
            },
            Err(e) => Err(e),
        }
    }

    /// Applies `close_connection_step` to the shared network.
    fn close_connection(&self, handle: ConnectionHandle) -> (r: Result<(), String>) {
        let op = NetOp::CloseConnection(handle);
        let ghost gop = op;
        match self.run(op) {
            Ok(NetAnswer::Done(v)) => {
                proof {
                    let (pre, post) = choose|pre: NetworkState, post: NetworkState| #[trigger] pre.applies(gop, post, NetAnswer::Done(v));
                    assert(reply_view(v) == close_connection_step(pre@, handle.0).1);
                }
                v
            },
            Ok(other) => {
                proof {
                    let (pre, post) = choose|pre: NetworkState, post: NetworkState| #[trigger] pre.applies(gop, post, other);
                    assert(false);
                }
                Err(String::new())
            },
            Err(e) => Err(e),
        }
    }

    /// Applies `close_listener_step` to the shared network.
    fn close_listener(&self, handle: ListenerHandle) -> (r: Result<(), String>) {
        let op = NetOp::CloseListener(handle);
        let ghost gop = op;
        match self.run(op) {
            Ok(NetAnswer::Done(v)) => {
                proof {
                    let (pre, post) = choose|pre: NetworkState, post: NetworkState| #[trigger] pre.applies(gop, post, NetAnswer::Done(v));
                    assert(reply_view(v) == close_listener_step(pre@, handle.0).1);
                }
                v
            },
            Ok(other) => {
                proof {
                    let (pre, post) = choose|pre: NetworkState, post: NetworkState| #[trigger] pre.applies(gop, post, other);
                    assert(false);
                }
                Err(String::new())
            },
            Err(e) => Err(e),
        }
    }

    /// The number of open connections; 0 where the lock is poisoned.
    fn connection_count(&self) -> (n: usize) {
        let q = NetQuery::ConnectionCount;
        match self.ask(q) {
            NetReply::Count(n) => {
                proof {
                    if exists|s: NetworkState| #[trigger] s.replies(q, NetReply::Count(n)) {
                        let s = choose|s: NetworkState| #[trigger] s.replies(q, NetReply::Count(n));
                        assert(n == s@.connections.len());
                    } else {
                        assert(n == empty_net().connections.len());
                    }
                }
                n
            },
            _ => {
                proof { assert(false); }
                0
            },
        }
    }

    /// The number of active listeners; 0 where the lock is poisoned.
    fn listener_count(&self) -> (n: usize) {
        let q = NetQuery::ListenerCount;
        match self.ask(q) {
            NetReply::Count(n) => {
                proof {
                    if exists|s: NetworkState| #[trigger] s.replies(q, NetReply::Count(n)) {
                        let s = choose|s: NetworkState| #[trigger] s.replies(q, NetReply::Count(n));
                        assert(n == s@.listeners.len());
                    } else {
                        assert(n == empty_net().listeners.len());
                    }
                }
                n
            },
            _ => {
                proof { assert(false); }
                0
            },
        }
    }
}

// ─── host functions ───────────────────────────────────────────────────────

/// The answer to the guest for a backend's reply to a connection: the
/// handle as eight little-endian bytes, or the backend's message.
pub open spec fn connect_outcome(reply: Result<ConnectionHandle, String>, r: HostCallResult) -> bool {
    match reply {
        Ok(h) => succeeded_with(r, le_bytes(h.0)),
        Err(e) => failed_with(r, "Network connect error: "@ + e@),
    }
}

/// The answer to the guest for a backend's reply to a listen.
pub open spec fn listen_outcome(reply: Result<ListenerHandle, String>, r: HostCallResult) -> bool {
    match reply {
        Ok(h) => succeeded_with(r, le_bytes(h.0)),
        Err(e) => failed_with(r, "Network listen error: "@ + e@),
    }
}

/// The answer to the guest for a backend's reply to a broadcast: the
/// number of peers as eight little-endian bytes, or the backend's message.
pub open spec fn broadcast_outcome(reply: Result<usize, String>, r: HostCallResult) -> bool {
    match reply {
        Ok(n) => succeeded_with(r, le_bytes(n as u64)),
        Err(e) => failed_with(r, "Network broadcast error: "@ + e@),
    }
}

/// What `host_network_connect` answers for an address of `byte_len` bytes
/// holding `address`: the refusals, and otherwise the outcome of a reply of
/// `network.connect(address)`.
pub open spec fn connect_answer<N: NetworkBackend + ?Sized>(network: &N, caps: Seq<CapabilityGrant>,
    address: Seq<char>, byte_len: usize, r: HostCallResult) -> bool {
    gated(caps, CapabilityType::NetworkConnect, CapabilityScope::Global, r,
        (address.len() == 0 ==> failed_with(r, "Address cannot be empty"@))
        && (address.len() != 0 && byte_len > MAX_ADDRESS_SIZE ==> failed_with(r,
            "Address size exceeds maximum of 256 bytes"@))
        && (address.len() != 0 && byte_len <= MAX_ADDRESS_SIZE ==> exists|reply: Result<ConnectionHandle, String>|
            #[trigger] network.connect_reply(address, reply) && connect_outcome(reply, r)))
}

/// What `host_network_listen` answers: the outcome of a reply of
/// `network.listen(port)`.
pub open spec fn listen_answer<N: NetworkBackend + ?Sized>(network: &N, caps: Seq<CapabilityGrant>, port: u16,
    r: HostCallResult) -> bool {
    gated(caps, CapabilityType::NetworkListen, CapabilityScope::Global, r,
        exists|reply: Result<ListenerHandle, String>| #[trigger] network.listen_reply(port, reply)
            && listen_outcome(reply, r))
}

/// What `host_network_broadcast` answers for `message`: the refusals, and
/// otherwise the outcome of a reply of `network.broadcast(message)`.
pub open spec fn broadcast_answer<N: NetworkBackend + ?Sized>(network: &N, caps: Seq<CapabilityGrant>,
    message: Seq<u8>, r: HostCallResult) -> bool {
    gated(caps, CapabilityType::NetworkBroadcast, CapabilityScope::Global, r,
        (message.len() == 0 ==> failed_with(r, "Message cannot be empty"@))
        && (message.len() > MAX_MESSAGE_SIZE ==> failed_with(r,
            "Message size exceeds maximum of 65536 bytes"@))
        && (0 < message.len() <= MAX_MESSAGE_SIZE ==> exists|reply: Result<usize, String>|
            #[trigger] network.broadcast_reply(message, reply) && broadcast_outcome(reply, r)))
}

/// Connects to `address`; answers the connection handle as eight
/// little-endian bytes.
///
/// Requires NetworkConnect at Global scope. Refuses an empty address and
/// one longer than `MAX_ADDRESS_SIZE` bytes before the backend is asked.
/// The backend's error is reported as "Network connect error: " followed by
/// its message.
pub fn host_network_connect<N: NetworkBackend + ?Sized>(caps: &CapabilitySet, network: &N, address: &str) -> (r: HostCallResult)
    ensures
        connect_answer(network, caps@, address@, address.len(), r),
{
    if !check_capability(caps, CapabilityType::NetworkConnect, CapabilityScope::Global) {
        return HostCallResult::capability_denied(CapabilityType::NetworkConnect);
    }
    if address.is_empty() {
        return HostCallResult::error("Address cannot be empty");
    }
    if address.len() > MAX_ADDRESS_SIZE {
        return HostCallResult::error("Address size exceeds maximum of 256 bytes");
    }
    let reply = network.connect(address);
    match reply {
        Ok(handle) => {
            let r = HostCallResult::success_with_value(handle.to_bytes());
            assert(succeeded_with(r, le_bytes(handle.0)));
            r
        },
        Err(e) => {
            let msg = join2("Network connect error: ", e.as_str());
            let r = HostCallResult::error(msg.as_str());
            assert(failed_with(r, "Network connect error: "@ + e@));
            r
        },
    }
}

/// Listens on `port`; answers the listener handle as eight little-endian
/// bytes. Every port, 0 and 65535 included, may be asked for.
///
/// Requires NetworkListen at Global scope. The backend's error is reported
/// as "Network listen error: " followed by its message.
pub fn host_network_listen<N: NetworkBackend + ?Sized>(caps: &CapabilitySet, network: &N, port: u16) -> (r: HostCallResult)
    ensures
        listen_answer(network, caps@, port, r),
{
    if !check_capability(caps, CapabilityType::NetworkListen, CapabilityScope::Global) {
        return HostCallResult::capability_denied(CapabilityType::NetworkListen);
    }
    let reply = network.listen(port);
    match reply {
        Ok(handle) => {
            let r = HostCallResult::success_with_value(handle.to_bytes());
            assert(succeeded_with(r, le_bytes(handle.0)));
            r
        },
        Err(e) => {
            let msg = join2("Network listen error: ", e.as_str());
            let r = HostCallResult::error(msg.as_str());
            assert(failed_with(r, "Network listen error: "@ + e@));
            r
        },
    }
}

/// Broadcasts `message` to the connected peers; answers the number of peers
/// that received it as eight little-endian bytes.
///
/// Requires NetworkBroadcast at Global scope. Refuses an empty message and
/// one longer than `MAX_MESSAGE_SIZE` before the backend is asked. The
/// backend's error is reported as "Network broadcast error: " followed by
/// its message.
pub fn host_network_broadcast<N: NetworkBackend + ?Sized>(caps: &CapabilitySet, network: &N, message: &[u8]) -> (r: HostCallResult)
    ensures
        broadcast_answer(network, caps@, message@, r),
{
    if !check_capability(caps, CapabilityType::NetworkBroadcast, CapabilityScope::Global) {
        return HostCallResult::capability_denied(CapabilityType::NetworkBroadcast);
    }
    if message.len() == 0 {
        return HostCallResult::error("Message cannot be empty");
    }
    if message.len() > MAX_MESSAGE_SIZE {
        return HostCallResult::error("Message size exceeds maximum of 65536 bytes");
    }
    let reply = network.broadcast(message);
    match reply {
        Ok(peer_count) => {
            let r = HostCallResult::success_with_value(u64_to_le_vec(peer_count as u64));
            assert(succeeded_with(r, le_bytes(peer_count as u64)));
            r
        },
        Err(e) => {
            let msg = join2("Network broadcast error: ", e.as_str());
            let r = HostCallResult::error(msg.as_str());
            assert(failed_with(r, "Network broadcast error: "@ + e@));
            r
        },
    }
}

} // verus!
