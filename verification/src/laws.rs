//! The protocol's cross-operation guarantees, each proved once and for
//! all inputs: typed write/read round trips at every width and either
//! signedness, the bulk-copy round trip, and the failure of every
//! operation on a handle that has been closed.
use vstd::prelude::*;
use vstd::arithmetic::div_mod::lemma_small_mod;
use crate::bytes::{
    le_bytes, pow256, lemma_le_bytes_len, lemma_le_val_le_bytes, lemma_pow256_pos,
    lemma_pow256_increases, lemma_pow256_values,
};
use crate::width::{signed_trunc, lemma_mod_width_of_mod_full, lemma_signed_trunc_identity};
use crate::server::{
    ServerView, resource, handle_open, access_ok, range_ok, store_bytes, splice_bytes,
    read_u_val, read_i_val, wrapped, mem_store_post, reg_store_post, mem_copy_to_post,
    close_post,
};
use crate::valid_width;

verus! {

/// Writing an unsigned value at width `size` into a byte store and
/// reading the same window back unsigned yields the value reduced
/// modulo `256^size`; a value that already fits the width comes back
/// exactly.
pub proof fn lemma_store_read_u(bs: Seq<u8>, offset: u64, data: u64, size: u64)
    requires
        valid_width(size),
        offset + size <= bs.len(),
    ensures
        ({
            let bs1 = store_bytes(bs, offset as int, data as nat, size as nat);
            &&& bs1.len() == bs.len()
            &&& read_u_val(bs1, offset, size) as nat == (data as nat) % pow256(size as nat)
            &&& (data as nat) < pow256(size as nat) ==> read_u_val(bs1, offset, size) == data
        }),
{
    lemma_le_bytes_len(data as nat, size as nat);
    let bs1 = store_bytes(bs, offset as int, data as nat, size as nat);
    assert(bs1.subrange(offset as int, offset + size) =~= le_bytes(data as nat, size as nat));
    lemma_le_val_le_bytes(data as nat, size as nat);
    lemma_pow256_pos(size as nat);
    lemma_pow256_values();
    lemma_pow256_increases(size as nat, 8);
    if (data as nat) < pow256(size as nat) {
        lemma_small_mod(data as nat, pow256(size as nat));
    }
}

/// Writing a signed value at width `size` (its two's-complement
/// encoding truncated to the low `size` bytes) and reading the same
/// window back signed yields the value truncated and sign-extended from
/// bit `8 * size - 1`; a value within the width's signed range comes
/// back exactly. Reading the same window back unsigned instead yields
/// the same bit pattern zero-extended.
pub proof fn lemma_store_read_i(bs: Seq<u8>, offset: u64, data: i64, size: u64)
    requires
        valid_width(size),
        offset + size <= bs.len(),
    ensures
        ({
            let bs1 = store_bytes(bs, offset as int, wrapped(data), size as nat);
            &&& bs1.len() == bs.len()
            &&& read_i_val(bs1, offset, size) as int == signed_trunc(data as int, size as nat)
            &&& read_u_val(bs1, offset, size) as int == (data as int) % (pow256(size as nat)
                as int)
            &&& (-(pow256(size as nat) as int) <= 2 * (data as int) < pow256(size as nat))
                ==> read_i_val(bs1, offset, size) == data
        }),
{
    lemma_le_bytes_len(wrapped(data), size as nat);
    let bs1 = store_bytes(bs, offset as int, wrapped(data), size as nat);
    assert(bs1.subrange(offset as int, offset + size) =~= le_bytes(wrapped(data), size as nat));
    lemma_le_val_le_bytes(wrapped(data), size as nat);
    lemma_pow256_pos(size as nat);
    lemma_pow256_values();
    lemma_pow256_increases(size as nat, 8);
    lemma_mod_width_of_mod_full(data as int, size as nat);
    assert(wrapped(data) % pow256(size as nat) == ((data as int) % (pow256(size as nat) as int))
        as nat);
    if -(pow256(size as nat) as int) <= 2 * (data as int) < pow256(size as nat) {
        lemma_signed_trunc_identity(data as int, size as nat);
    }
}

/// Round trip over the server: a typed unsigned memory write followed
/// by a typed unsigned memory read of the same handle, offset and width
/// returns the written value reduced to the width — exactly the written
/// value whenever it fits.
pub proof fn lemma_mem_write_read_u(s: ServerView, id: u32, offset: u64, data: u64, size: u64)
    requires
        s.wf(),
        access_ok(s, id, offset, size),
    ensures
        ({
            let s1 = mem_store_post(s, id, offset, data as nat, size);
            &&& access_ok(s1, id, offset, size)
            &&& read_u_val(resource(s1, id).mem, offset, size) as nat == (data as nat) % pow256(
                size as nat,
            )
            &&& (data as nat) < pow256(size as nat) ==> read_u_val(
                resource(s1, id).mem,
                offset,
                size,
            ) == data
        }),
{
    lemma_store_read_u(resource(s, id).mem, offset, data, size);
}

/// Round trip over the server: a typed signed memory write followed by
/// a typed signed memory read of the same handle, offset and width
/// returns the written value truncated and sign-extended — exactly the
/// written value whenever it lies in the width's signed range. An
/// unsigned read of the same window sees the same bit pattern.
pub proof fn lemma_mem_write_read_i(s: ServerView, id: u32, offset: u64, data: i64, size: u64)
    requires
        s.wf(),
        access_ok(s, id, offset, size),
    ensures
        ({
            let s1 = mem_store_post(s, id, offset, wrapped(data), size);
            &&& access_ok(s1, id, offset, size)
            &&& read_i_val(resource(s1, id).mem, offset, size) as int == signed_trunc(
                data as int,
                size as nat,
            )
            &&& read_u_val(resource(s1, id).mem, offset, size) as int == (data as int) % (pow256(
                size as nat,
            ) as int)
            &&& (-(pow256(size as nat) as int) <= 2 * (data as int) < pow256(size as nat))
                ==> read_i_val(resource(s1, id).mem, offset, size) == data
        }),
{
    lemma_store_read_i(resource(s, id).mem, offset, data, size);
}

/// Round trip over the server's register space, unsigned.
pub proof fn lemma_reg_write_read_u(s: ServerView, id: u32, reg: u64, data: u64, size: u64)
    requires
        s.wf(),
        access_ok(s, id, reg, size),
    ensures
        ({
            let s1 = reg_store_post(s, id, reg, data as nat, size);
            &&& access_ok(s1, id, reg, size)
            &&& read_u_val(resource(s1, id).reg, reg, size) as nat == (data as nat) % pow256(
                size as nat,
            )
            &&& (data as nat) < pow256(size as nat) ==> read_u_val(
                resource(s1, id).reg,
                reg,
                size,
            ) == data
        }),
{
    lemma_store_read_u(resource(s, id).reg, reg, data, size);
}

/// Round trip over the server's register space, signed; the same stored
/// bytes read unsigned give the same bit pattern zero-extended.
pub proof fn lemma_reg_write_read_i(s: ServerView, id: u32, reg: u64, data: i64, size: u64)
    requires
        s.wf(),
        access_ok(s, id, reg, size),
    ensures
        ({
            let s1 = reg_store_post(s, id, reg, wrapped(data), size);
            &&& access_ok(s1, id, reg, size)
            &&& read_i_val(resource(s1, id).reg, reg, size) as int == signed_trunc(
                data as int,
                size as nat,
            )
            &&& read_u_val(resource(s1, id).reg, reg, size) as int == (data as int) % (pow256(
                size as nat,
            ) as int)
            &&& (-(pow256(size as nat) as int) <= 2 * (data as int) < pow256(size as nat))
                ==> read_i_val(resource(s1, id).reg, reg, size) == data
        }),
{
    lemma_store_read_i(resource(s, id).reg, reg, data, size);
}

/// Bulk round trip: after a bulk copy of `data` to `offset` of an open
/// handle, the same window of that handle's memory holds exactly
/// `data`, which is what a bulk read of the same handle, offset and
/// length returns.
pub proof fn lemma_mem_copy_round_trip(s: ServerView, id: u32, offset: u64, data: Seq<u8>)
    requires
        s.wf(),
        range_ok(s, id, offset, data.len()),
    ensures
        ({
            let s1 = mem_copy_to_post(s, id, offset, data);
            &&& range_ok(s1, id, offset, data.len())
            &&& resource(s1, id).mem.subrange(offset as int, offset + data.len()) == data
        }),
{
    let s1 = mem_copy_to_post(s, id, offset, data);
    assert(resource(s1, id).mem =~= splice_bytes(resource(s, id).mem, offset as int, data));
    assert(resource(s1, id).mem.subrange(offset as int, offset + data.len()) =~= data);
}

/// Typed writes and bulk copies never change which handles are open.
pub proof fn lemma_writes_preserve_handles(
    s: ServerView,
    id: u32,
    offset: u64,
    v: nat,
    size: u64,
    data: Seq<u8>,
)
    ensures
        forall|h: u32|
            handle_open(#[trigger] mem_store_post(s, id, offset, v, size), h) == handle_open(
                s,
                h,
            ),
        forall|h: u32|
            handle_open(#[trigger] reg_store_post(s, id, offset, v, size), h) == handle_open(
                s,
                h,
            ),
        forall|h: u32|
            handle_open(#[trigger] mem_copy_to_post(s, id, offset, data), h) == handle_open(
                s,
                h,
            ),
{
}

/// After a close, the closed handle is open no more, so every typed
/// access, bulk range and subclone admission test on it refuses — each
/// operation then reports `false` and leaves the server unchanged, by
/// the operations' own contracts.
pub proof fn lemma_close_then_ops_fail(s: ServerView, id: u32)
    ensures
        !handle_open(close_post(s, id), id),
        forall|offset: u64, size: u64| !(#[trigger] access_ok(close_post(s, id), id, offset, size)),
        forall|offset: u64, n: nat| !(#[trigger] range_ok(close_post(s, id), id, offset, n)),
        forall|offset: u64, size: u64|
            !(#[trigger] crate::server::subclone_ok(close_post(s, id), id, offset, size)),
{
}

/// An operation on a handle that is not open leaves the server exactly
/// as it was.
pub proof fn lemma_failed_ops_change_nothing(s: ServerView, id: u32)
    requires
        !handle_open(s, id),
    ensures
        forall|offset: u64, v: nat, size: u64|
            #[trigger] mem_store_post(s, id, offset, v, size) == s,
        forall|offset: u64, v: nat, size: u64|
            #[trigger] reg_store_post(s, id, offset, v, size) == s,
        forall|offset: u64, data: Seq<u8>| #[trigger] mem_copy_to_post(s, id, offset, data) == s,
        close_post(s, id) == s,
{
}

} // verus!
