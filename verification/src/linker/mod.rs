//! The guest side of the host functions.
//!
//! Guest code calls host functions with integers only: pointers and lengths
//! into its linear memory, and plain numbers. Each `guest_*` function here
//! takes those integers and the guest memory as bytes, checks them, calls
//! the host function, and turns its answer into the integer the guest gets
//! back (and, for some, bytes written into guest memory). Negative results
//! are failures.

use vstd::prelude::*;
use vstd::string::*;
use vstd::utf8::{valid_utf8, encode_utf8};
use crate::bytes::{from_le, u64_from_le_slice};
use crate::capability::CapabilitySet;
use crate::host::HostCallResult;
use crate::host::time::{host_time_now, time_now_answer};
use crate::host::random::{host_random_bytes, random_answer};
use crate::host::log::{LogLevel, LogLine, host_log_line, log_answer, level_of_code};
use crate::host::storage::{StorageBackend, host_storage_read, host_storage_write, host_storage_delete,
    storage_read_answer, storage_write_answer, storage_delete_answer};
use crate::host::network::{NetworkBackend, host_network_connect, host_network_listen, host_network_broadcast,
    connect_answer, listen_answer, broadcast_answer};
use crate::host::credit::{CreditBackend, PublicKey, host_credit_balance, host_credit_transfer, host_credit_reserve,
    host_credit_release, host_credit_consume, host_credit_available, balance_answer, transfer_answer,
    reserve_answer, release_answer, consume_answer, available_answer};

pub mod error_codes;

verus! {

/// What a host function returns to the guest on failure.
pub const HOST_ERROR: i32 = -1;

/// What a host function with no result returns to the guest on success.
pub const HOST_SUCCESS: i32 = 0;

// ─── guest memory ─────────────────────────────────────────────────────────

/// Whether `len` bytes at `ptr` lie within a guest memory of `size` bytes.
pub open spec fn range_ok(size: int, ptr: i32, len: int) -> bool {
    0 <= ptr && 0 <= len && ptr + len <= size
}

/// The `len` bytes of `mem` at `ptr`.
pub open spec fn bytes_at(mem: Seq<u8>, ptr: i32, len: int) -> Seq<u8> {
    mem.subrange(ptr as int, ptr + len)
}

/// `mem` with `data` written at `ptr`.
pub open spec fn written(mem: Seq<u8>, ptr: i32, data: Seq<u8>) -> Seq<u8> {
    mem.subrange(0, ptr as int) + data + mem.subrange(ptr + data.len(), mem.len() as int)
}

/// The bytes of an optional byte vector.
pub open spec fn read_view(r: Option<Vec<u8>>) -> Option<Seq<u8>> {
    match r {
        Some(v) => Some(v@),
        None => None,
    }
}

/// The `len` bytes of guest memory at `ptr`; nothing where the pointer or
/// the length is negative or the range runs past the end of memory.
pub fn read_memory(memory: &[u8], ptr: i32, len: i32) -> (r: Option<Vec<u8>>)
    ensures
        read_view(r) == (if range_ok(memory@.len() as int, ptr, len as int) {
            Some(bytes_at(memory@, ptr, len as int))
        } else {
            None
        }),
{
    if ptr < 0 || len < 0 {
        return None;
    }
    let p = ptr as usize;
    let l = len as usize;
    if p > memory.len() || l > memory.len() - p {
        return None;
    }
    Some(vstd::slice::slice_to_vec(vstd::slice::slice_subrange(memory, p, p + l)))
}

/// Writes `data` into guest memory at `ptr`; answers false, writing
/// nothing, where the pointer is negative or the data would run past the
/// end of memory.
pub fn write_memory(memory: &mut [u8], ptr: i32, data: &[u8]) -> (ok: bool)
    ensures
        ok == range_ok(old(memory)@.len() as int, ptr, data@.len() as int),
        ok ==> final(memory)@ == written(old(memory)@, ptr, data@),
        !ok ==> final(memory)@ == old(memory)@,
{
    if ptr < 0 {
        return false;
    }
    let p = ptr as usize;
    if p > memory.len() || data.len() > memory.len() - p {
        return false;
    }
    let ghost before = memory@;
    let n = data.len();
    let mlen = memory.len();
    let mut i: usize = 0;
    while i < n
        invariant
            n == data@.len(),
            mlen == before.len(),
            p + n <= mlen,
            memory@.len() == before.len(),
            i <= n,
            forall|j: int| 0 <= j < p ==> memory@[j] == before[j],
            forall|j: int| p <= j < p + i ==> memory@[j] == data@[j - p],
            forall|j: int| p + i <= j < before.len() ==> memory@[j] == before[j],
        decreases n - i,
    {
        memory[p + i] = data[i];
        i = i + 1;
    }
    assert(memory@ =~= written(before, ptr, data@));
    true
}

/// A read of guest memory gives back what a write put there, and a write
/// changes nothing outside its range nor the size of memory.
pub proof fn law_write_then_read(mem: Seq<u8>, ptr: i32, data: Seq<u8>, i: int)
    requires
        range_ok(mem.len() as int, ptr, data.len() as int),
    ensures
        written(mem, ptr, data).len() == mem.len(),
        bytes_at(written(mem, ptr, data), ptr, data.len() as int) == data,
        0 <= i < mem.len() && !(ptr <= i < ptr + data.len()) ==> written(mem, ptr, data)[i] == mem[i],
{
    assert(bytes_at(written(mem, ptr, data), ptr, data.len() as int) =~= data);
}

/// Reads a 32-byte account key from guest memory at `ptr`.
fn read_key(memory: &[u8], ptr: i32) -> (r: Option<[u8; 32]>)
    ensures
        r is Some <==> range_ok(memory@.len() as int, ptr, 32),
        r matches Some(k) ==> k@ == bytes_at(memory@, ptr, 32),
{
    if ptr < 0 {
        return None;
    }
    let p = ptr as usize;
    if p > memory.len() || 32 > memory.len() - p {
        return None;
    }
    let mut k = [0u8; 32];
    let mlen = memory.len();
    let mut i: usize = 0;
    while i < 32
        invariant
            mlen == memory@.len(),
            p + 32 <= mlen,
            k@.len() == 32,
            i <= 32,
            forall|j: int| 0 <= j < i ==> k@[j] == memory@[p + j],
        decreases 32 - i,
    {
        k[i] = memory[p + i];
        i = i + 1;
    }
    assert(k@ =~= bytes_at(memory@, ptr, 32));
    Some(k)
}

/// `String::from_utf8`: the text the bytes encode, where they are valid
/// UTF-8. Claimed, as std documents: there is a text exactly when the bytes
/// are valid UTF-8, and its encoding is the bytes.
#[verifier::external_body]
fn utf8_text(bytes: Vec<u8>) -> (r: Option<String>)
    ensures
        r is Some <==> valid_utf8(bytes@),
        r matches Some(s) ==> encode_utf8(s@) == bytes@,
{
    String::from_utf8(bytes).ok()
}

// ─── answers as guest values ──────────────────────────────────────────────

/// A host answer carrying eight bytes, as the signed number they encode;
/// -1 for any other answer.
pub open spec fn answer_i64(r: HostCallResult) -> i64 {
    if r.success && r.return_value is Some && r.return_value->Some_0@.len() == 8 {
        from_le(r.return_value->Some_0@) as i64
    } else {
        -1i64
    }
}

/// A host answer as a status code: success or failure.
pub open spec fn answer_code(r: HostCallResult) -> i32 {
    if r.success { HOST_SUCCESS } else { HOST_ERROR }
}

/// Computes `answer_i64`.
fn result_i64(r: &HostCallResult) -> (v: i64)
    ensures
        v == answer_i64(*r),
{
    if r.success {
        match &r.return_value {
            Some(b) => {
                if b.len() == 8 {
                    return u64_from_le_slice(b.as_slice()) as i64;
                }
            },
            None => {},
        }
    }
    -1
}

/// Computes `answer_code`.
fn result_code(r: &HostCallResult) -> (v: i32)
    ensures
        v == answer_code(*r),
{
    if r.success { HOST_SUCCESS } else { HOST_ERROR }
}

/// The guest's result and memory after a host answer whose bytes are to be
/// written at `ptr`: success where they fit, failure (memory untouched)
/// otherwise.
pub open spec fn fill_delivery(r: HostCallResult, mem: Seq<u8>, ptr: i32) -> (i32, Seq<u8>) {
    if r.success && r.return_value is Some
        && range_ok(mem.len() as int, ptr, r.return_value->Some_0@.len() as int) {
        (HOST_SUCCESS, written(mem, ptr, r.return_value->Some_0@))
    } else {
        (HOST_ERROR, mem)
    }
}

// ─── time, randomness, logging ────────────────────────────────────────────

/// `host_time_now` for the guest: the time in nanoseconds, -1 on failure.
pub fn guest_time_now(caps: &CapabilitySet) -> (ret: i64)
    ensures
        exists|r: HostCallResult| #[trigger] time_now_answer(caps@, r) && ret == answer_i64(r),
{
    let r = host_time_now(caps);
    result_i64(&r)
}

/// `host_random_bytes` for the guest: fills `len` bytes at `ptr` with
/// random bytes. 0 on success; -1 for a length that is not positive,
/// before anything else, and for any failure, memory then untouched.
pub fn guest_random_bytes(caps: &CapabilitySet, memory: &mut [u8], ptr: i32, len: i32) -> (ret: i32)
    ensures
        len <= 0 ==> ret == HOST_ERROR && final(memory)@ == old(memory)@,
        len > 0 ==> exists|r: HostCallResult| #[trigger] random_answer(caps@, len as u32, r)
            && (ret, final(memory)@) == fill_delivery(r, old(memory)@, ptr),
{
    if len <= 0 {
        return HOST_ERROR;
    }
    let r = host_random_bytes(caps, len as u32);
    if r.success {
        match &r.return_value {
            Some(bytes) => {
                if write_memory(memory, ptr, bytes.as_slice()) {
                    assert(fill_delivery(r, old(memory)@, ptr) == (HOST_SUCCESS, final(memory)@));
                    return HOST_SUCCESS;
                }
            },
            None => {},
        }
    }
    HOST_ERROR
}

/// `host_log` for the guest: logs the UTF-8 message of `len` bytes at
/// `ptr` at the level numbered `level` (cut to a byte). Answers 0 and the
/// line to write on success; -1 and no line for an unknown level, a range
/// outside memory, bytes that are not UTF-8, or a refusal.
pub fn guest_log(caps: &CapabilitySet, memory: &[u8], level: i32, ptr: i32, len: i32) -> (out: (i32, Option<LogLine>))
    ensures
        level_of_code(level as u8) is None ==> out == (HOST_ERROR, None::<LogLine>),
        level_of_code(level as u8) is Some && !range_ok(memory@.len() as int, ptr, len as int)
            ==> out == (HOST_ERROR, None::<LogLine>),
        level_of_code(level as u8) is Some && range_ok(memory@.len() as int, ptr, len as int)
            && !valid_utf8(bytes_at(memory@, ptr, len as int)) ==> out == (HOST_ERROR, None::<LogLine>),
        level_of_code(level as u8) is Some && range_ok(memory@.len() as int, ptr, len as int)
            && valid_utf8(bytes_at(memory@, ptr, len as int)) ==> exists|o: (HostCallResult, Option<LogLine>), text: Seq<char>|
                encode_utf8(text) == bytes_at(memory@, ptr, len as int)
                && #[trigger] log_answer(caps@, level_of_code(level as u8)->Some_0, text, len as usize, o)
                && out == (answer_code(o.0), o.1),
{
    let lvl = match LogLevel::from_u8(level as u8) {
        Some(l) => l,
        None => { return (HOST_ERROR, None); },
    };
    let bytes = match read_memory(memory, ptr, len) {
        Some(b) => b,
        None => { return (HOST_ERROR, None); },
    };
    let ghost b = bytes@;
    let text = match utf8_text(bytes) {
        Some(s) => s,
        None => { return (HOST_ERROR, None); },
    };
    let msg = text.as_str();
    assert(msg.len() == len as usize);
    let o = host_log_line(caps, lvl, msg);
    let code = result_code(&o.0);
    (code, o.1)
}

// ─── storage ──────────────────────────────────────────────────────────────

/// The guest's result and memory after a storage read answered `r`, the
/// value to go to `val_ptr` in a buffer of `val_cap` bytes: the length
/// written; 0 for an absent key; -1 for a failure, a value longer than the
/// buffer, or a value that does not fit in memory at `val_ptr`.
pub open spec fn read_delivery(r: HostCallResult, mem: Seq<u8>, val_ptr: i32, val_cap: i32) -> (i32, Seq<u8>) {
    if !r.success {
        (HOST_ERROR, mem)
    } else {
        match r.return_value {
            Some(v) => if v@.len() > (val_cap as usize) {
                (HOST_ERROR, mem)
            } else if range_ok(mem.len() as int, val_ptr, v@.len() as int) {
                (v@.len() as i32, written(mem, val_ptr, v@))
            } else {
                (HOST_ERROR, mem)
            },
            None => (HOST_SUCCESS, mem),
        }
    }
}

/// A storage delete's answer as the guest sees it: 1 where the key was
/// there, 0 where it was not, -1 on failure.
pub open spec fn delete_code(r: HostCallResult) -> i32 {
    if !r.success {
        HOST_ERROR
    } else if r.return_value is Some && r.return_value->Some_0@.len() > 0 {
        r.return_value->Some_0@[0] as i32
    } else {
        HOST_SUCCESS
    }
}

/// `host_storage_read` for the guest: reads the key of `key_len` bytes at
/// `key_ptr` and writes its value at `val_ptr` (see `read_delivery`). -1,
/// memory untouched, where the key lies outside memory.
pub fn guest_storage_read<S: StorageBackend + ?Sized>(caps: &CapabilitySet, storage: &S, memory: &mut [u8],
    key_ptr: i32, key_len: i32, val_ptr: i32, val_cap: i32) -> (ret: i32)
    ensures
        !range_ok(old(memory)@.len() as int, key_ptr, key_len as int) ==> ret == HOST_ERROR
            && final(memory)@ == old(memory)@,
        range_ok(old(memory)@.len() as int, key_ptr, key_len as int) ==> exists|r: HostCallResult|
            #[trigger] storage_read_answer(storage, caps@, bytes_at(old(memory)@, key_ptr, key_len as int), r)
            && (ret, final(memory)@) == read_delivery(r, old(memory)@, val_ptr, val_cap),
{
    let key = match read_memory(memory, key_ptr, key_len) {
        Some(k) => k,
        None => { return HOST_ERROR; },
    };
    let r = host_storage_read(caps, storage, key.as_slice());
    if r.success {
        match &r.return_value {
            Some(value) => {
                if value.len() > val_cap as usize {
                    return HOST_ERROR;
                }
                if write_memory(memory, val_ptr, value.as_slice()) {
                    return value.len() as i32;
                }
                return HOST_ERROR;
            },
            None => {},
        }
        return HOST_SUCCESS;
    }
    HOST_ERROR
}

/// `host_storage_write` for the guest: writes the value of `val_len` bytes
/// at `val_ptr` under the key of `key_len` bytes at `key_ptr`. 0 on
/// success; -1 for a range outside memory or a failure.
pub fn guest_storage_write<S: StorageBackend + ?Sized>(caps: &CapabilitySet, storage: &S, memory: &[u8],
    key_ptr: i32, key_len: i32, val_ptr: i32, val_len: i32) -> (ret: i32)
    ensures
        !range_ok(memory@.len() as int, key_ptr, key_len as int)
            || !range_ok(memory@.len() as int, val_ptr, val_len as int) ==> ret == HOST_ERROR,
        range_ok(memory@.len() as int, key_ptr, key_len as int)
            && range_ok(memory@.len() as int, val_ptr, val_len as int) ==> exists|r: HostCallResult|
            #[trigger] storage_write_answer(storage, caps@, bytes_at(memory@, key_ptr, key_len as int),
                bytes_at(memory@, val_ptr, val_len as int), r)
            && ret == answer_code(r),
{
    let key = match read_memory(memory, key_ptr, key_len) {
        Some(k) => k,
        None => { return HOST_ERROR; },
    };
    let value = match read_memory(memory, val_ptr, val_len) {
        Some(v) => v,
        None => { return HOST_ERROR; },
    };
    let r = host_storage_write(caps, storage, key.as_slice(), value.as_slice());
    result_code(&r)
}

/// `host_storage_delete` for the guest: deletes the key of `key_len` bytes
/// at `key_ptr` (see `delete_code`); -1 where the key lies outside memory.
pub fn guest_storage_delete<S: StorageBackend + ?Sized>(caps: &CapabilitySet, storage: &S, memory: &[u8],
    key_ptr: i32, key_len: i32) -> (ret: i32)
    ensures
        !range_ok(memory@.len() as int, key_ptr, key_len as int) ==> ret == HOST_ERROR,
        range_ok(memory@.len() as int, key_ptr, key_len as int) ==> exists|r: HostCallResult|
            #[trigger] storage_delete_answer(storage, caps@, bytes_at(memory@, key_ptr, key_len as int), r)
            && ret == delete_code(r),
{
    let key = match read_memory(memory, key_ptr, key_len) {
        Some(k) => k,
        None => { return HOST_ERROR; },
    };
    let r = host_storage_delete(caps, storage, key.as_slice());
    if r.success {
        match &r.return_value {
            Some(bytes) => {
                if bytes.len() > 0 {
                    return bytes[0] as i32;
                }
            },
            None => {},
        }
        return HOST_SUCCESS;
    }
    HOST_ERROR
}

// ─── network ──────────────────────────────────────────────────────────────

/// `host_network_connect` for the guest: connects to the UTF-8 address of
/// `addr_len` bytes at `addr_ptr`; the connection handle, or -1 for a
/// range outside memory, bytes that are not UTF-8, or a failure.
pub fn guest_network_connect<N: NetworkBackend + ?Sized>(caps: &CapabilitySet, network: &N, memory: &[u8],
    addr_ptr: i32, addr_len: i32) -> (ret: i64)
    ensures
        !range_ok(memory@.len() as int, addr_ptr, addr_len as int) ==> ret == -1,
        range_ok(memory@.len() as int, addr_ptr, addr_len as int)
            && !valid_utf8(bytes_at(memory@, addr_ptr, addr_len as int)) ==> ret == -1,
        range_ok(memory@.len() as int, addr_ptr, addr_len as int)
            && valid_utf8(bytes_at(memory@, addr_ptr, addr_len as int)) ==> exists|r: HostCallResult, text: Seq<char>|
            encode_utf8(text) == bytes_at(memory@, addr_ptr, addr_len as int)
            && #[trigger] connect_answer(network, caps@, text, addr_len as usize, r) && ret == answer_i64(r),
{
    let bytes = match read_memory(memory, addr_ptr, addr_len) {
        Some(b) => b,
        None => { return -1; },
    };
    let text = match utf8_text(bytes) {
        Some(s) => s,
        None => { return -1; },
    };
    let address = text.as_str();
    assert(address.len() == addr_len as usize);
    let r = host_network_connect(caps, network, address);
    result_i64(&r)
}

/// `host_network_listen` for the guest: listens on `port`; the listener
/// handle, or -1 for a port outside 0..=65535 or a failure.
pub fn guest_network_listen<N: NetworkBackend + ?Sized>(caps: &CapabilitySet, network: &N, port: i32) -> (ret: i64)
    ensures
        !(0 <= port <= 65535) ==> ret == -1,
        0 <= port <= 65535 ==> exists|r: HostCallResult| #[trigger] listen_answer(network, caps@, port as u16, r) && ret == answer_i64(r),
{
    if port < 0 || port > 65535 {
        return -1;
    }
    let r = host_network_listen(caps, network, port as u16);
    result_i64(&r)
}

/// `host_network_broadcast` for the guest: broadcasts the message of
/// `msg_len` bytes at `msg_ptr`; the number of peers reached, or -1 for a
/// range outside memory or a failure.
pub fn guest_network_broadcast<N: NetworkBackend + ?Sized>(caps: &CapabilitySet, network: &N, memory: &[u8],
    msg_ptr: i32, msg_len: i32) -> (ret: i64)
    ensures
        !range_ok(memory@.len() as int, msg_ptr, msg_len as int) ==> ret == -1,
        range_ok(memory@.len() as int, msg_ptr, msg_len as int) ==> exists|r: HostCallResult|
            #[trigger] broadcast_answer(network, caps@, bytes_at(memory@, msg_ptr, msg_len as int), r) && ret == answer_i64(r),
{
    let message = match read_memory(memory, msg_ptr, msg_len) {
        Some(m) => m,
        None => { return -1; },
    };
    let r = host_network_broadcast(caps, network, message.as_slice());
    result_i64(&r)
}

// ─── credits ──────────────────────────────────────────────────────────────

/// `host_credit_balance` for the guest: the balance of the account whose
/// 32-byte key is at `account_ptr`, or -1 for a key outside memory or a
/// failure.
pub fn guest_credit_balance<B: CreditBackend + ?Sized>(caps: &CapabilitySet, credit: &B, memory: &[u8],
    account_ptr: i32) -> (ret: i64)
    ensures
        !range_ok(memory@.len() as int, account_ptr, 32) ==> ret == -1,
        range_ok(memory@.len() as int, account_ptr, 32) ==> exists|r: HostCallResult, k: PublicKey| k@ == bytes_at(memory@, account_ptr, 32)
            && #[trigger] balance_answer(credit, caps@, k, r) && ret == answer_i64(r),
{
    let account = match read_key(memory, account_ptr) {
        Some(k) => k,
        None => { return -1; },
    };
    let r = host_credit_balance(caps, credit, &account);
    result_i64(&r)
}

/// `host_credit_transfer` for the guest: moves `amount` credits between the
/// accounts whose keys are at `from_ptr` and `to_ptr`. 0 on success; -1 for
/// a negative amount (checked first), a key outside memory, or a failure.
pub fn guest_credit_transfer<B: CreditBackend + ?Sized>(caps: &CapabilitySet, credit: &B, memory: &[u8],
    from_ptr: i32, to_ptr: i32, amount: i64) -> (ret: i32)
    ensures
        amount < 0 ==> ret == HOST_ERROR,
        amount >= 0 && (!range_ok(memory@.len() as int, from_ptr, 32) || !range_ok(memory@.len() as int, to_ptr, 32))
            ==> ret == HOST_ERROR,
        amount >= 0 && range_ok(memory@.len() as int, from_ptr, 32) && range_ok(memory@.len() as int, to_ptr, 32)
            ==> exists|r: HostCallResult, from: PublicKey, to: PublicKey| from@ == bytes_at(memory@, from_ptr, 32)
                && to@ == bytes_at(memory@, to_ptr, 32)
                && #[trigger] transfer_answer(credit, caps@, from, to, amount as u64, r) && ret == answer_code(r),
{
    if amount < 0 {
        return HOST_ERROR;
    }
    let from = match read_key(memory, from_ptr) {
        Some(k) => k,
        None => { return HOST_ERROR; },
    };
    let to = match read_key(memory, to_ptr) {
        Some(k) => k,
        None => { return HOST_ERROR; },
    };
    let r = host_credit_transfer(caps, credit, &from, &to, amount as u64);
    result_code(&r)
}

/// `host_credit_reserve` for the guest: reserves `amount` credits of the
/// account whose key is at `account_ptr`; the reservation id, or -1 for an
/// amount that is not positive (checked first), a key outside memory, or a
/// failure.
pub fn guest_credit_reserve<B: CreditBackend + ?Sized>(caps: &CapabilitySet, credit: &B, memory: &[u8],
    account_ptr: i32, amount: i64) -> (ret: i64)
    ensures
        amount <= 0 ==> ret == -1,
        amount > 0 && !range_ok(memory@.len() as int, account_ptr, 32) ==> ret == -1,
        amount > 0 && range_ok(memory@.len() as int, account_ptr, 32) ==> exists|r: HostCallResult, k: PublicKey| k@ == bytes_at(memory@, account_ptr, 32)
            && #[trigger] reserve_answer(credit, caps@, k, amount as u64, r) && ret == answer_i64(r),
{
    if amount <= 0 {
        return -1;
    }
    let account = match read_key(memory, account_ptr) {
        Some(k) => k,
        None => { return -1; },
    };
    let r = host_credit_reserve(caps, credit, &account, amount as u64);
    result_i64(&r)
}

/// `host_credit_release` for the guest: 0 on success; -1 for a negative id
/// or a failure.
pub fn guest_credit_release<B: CreditBackend + ?Sized>(caps: &CapabilitySet, credit: &B, reservation_id: i64) -> (ret: i32)
    ensures
        reservation_id < 0 ==> ret == HOST_ERROR,
        reservation_id >= 0 ==> exists|r: HostCallResult| #[trigger] release_answer(credit, caps@, reservation_id as u64, r) && ret == answer_code(r),
{
    if reservation_id < 0 {
        return HOST_ERROR;
    }
    let r = host_credit_release(caps, credit, reservation_id as u64);
    result_code(&r)
}

/// `host_credit_consume` for the guest: 0 on success; -1 for a negative id
/// or a failure.
pub fn guest_credit_consume<B: CreditBackend + ?Sized>(caps: &CapabilitySet, credit: &B, reservation_id: i64) -> (ret: i32)
    ensures
        reservation_id < 0 ==> ret == HOST_ERROR,
        reservation_id >= 0 ==> exists|r: HostCallResult| #[trigger] consume_answer(credit, caps@, reservation_id as u64, r) && ret == answer_code(r),
{
    if reservation_id < 0 {
        return HOST_ERROR;
    }
    let r = host_credit_consume(caps, credit, reservation_id as u64);
    result_code(&r)
}

/// `host_credit_available` for the guest: the available balance of the
/// account whose key is at `account_ptr`, or -1 for a key outside memory
/// or a failure.
pub fn guest_credit_available<B: CreditBackend + ?Sized>(caps: &CapabilitySet, credit: &B, memory: &[u8],
    account_ptr: i32) -> (ret: i64)
    ensures
        !range_ok(memory@.len() as int, account_ptr, 32) ==> ret == -1,
        range_ok(memory@.len() as int, account_ptr, 32) ==> exists|r: HostCallResult, k: PublicKey| k@ == bytes_at(memory@, account_ptr, 32)
            && #[trigger] available_answer(credit, caps@, k, r) && ret == answer_i64(r),
{
    let account = match read_key(memory, account_ptr) {
        Some(k) => k,
        None => { return -1; },
    };
    let r = host_credit_available(caps, credit, &account);
    result_i64(&r)
}

} // verus!
