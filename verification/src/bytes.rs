//! Little-endian byte codec used by the typed accessors: a value written at
//! width `w` occupies exactly the low `w` bytes of its two's-complement
//! encoding, and reading reassembles the value from the stored bytes.
use vstd::prelude::*;
use vstd::arithmetic::div_mod::{lemma_div_denominator, lemma_mod_breakdown};

verus! {

/// `256^w`: the number of distinct values a `w`-byte field can hold.
pub open spec fn pow256(w: nat) -> nat
    decreases w,
{
    if w == 0 {
        1
    } else {
        256 * pow256((w - 1) as nat)
    }
}

/// The low `w` bytes of `v`, least significant byte first.
pub open spec fn le_bytes(v: nat, w: nat) -> Seq<u8>
    decreases w,
{
    if w == 0 {
        Seq::empty()
    } else {
        seq![(v % 256) as u8] + le_bytes(v / 256, (w - 1) as nat)
    }
}

/// The value encoded by a little-endian byte sequence.
pub open spec fn le_val(bs: Seq<u8>) -> nat
    decreases bs.len(),
{
    if bs.len() == 0 {
        0nat
    } else {
        (bs[0] + 256 * le_val(bs.subrange(1, bs.len() as int))) as nat
    }
}

pub proof fn lemma_pow256_pos(w: nat)
    ensures
        pow256(w) >= 1,
    decreases w,
{
    if w > 0 {
        lemma_pow256_pos((w - 1) as nat);
    }
}

pub proof fn lemma_pow256_increases(v: nat, w: nat)
    requires
        v <= w,
    ensures
        pow256(v) <= pow256(w),
    decreases w,
{
    if v < w {
        lemma_pow256_increases(v, (w - 1) as nat);
        lemma_pow256_pos((w - 1) as nat);
    }
}

/// Concrete sizes of the supported widths.
pub proof fn lemma_pow256_values()
    ensures
        pow256(1) == 0x100,
        pow256(2) == 0x1_0000,
        pow256(4) == 0x1_0000_0000,
        pow256(7) == 0x100_0000_0000_0000,
        pow256(8) == 0x1_0000_0000_0000_0000,
{
    reveal_with_fuel(pow256, 9);
}

pub proof fn lemma_le_bytes_len(v: nat, w: nat)
    ensures
        le_bytes(v, w).len() == w,
    decreases w,
{
    if w > 0 {
        lemma_le_bytes_len(v / 256, (w - 1) as nat);
    }
}

/// An encoded field decodes to the value reduced modulo the field size.
pub proof fn lemma_le_val_le_bytes(v: nat, w: nat)
    ensures
        le_val(le_bytes(v, w)) == v % pow256(w),
    decreases w,
{
    if w == 0 {
        assert(v % 1 == 0) by (nonlinear_arith);
    } else {
        let bs = le_bytes(v, w);
        lemma_le_bytes_len(v / 256, (w - 1) as nat);
        assert(bs.subrange(1, bs.len() as int) =~= le_bytes(v / 256, (w - 1) as nat));
        lemma_le_val_le_bytes(v / 256, (w - 1) as nat);
        lemma_pow256_pos((w - 1) as nat);
        lemma_mod_breakdown(v as int, 256, pow256((w - 1) as nat) as int);
    }
}

/// A decoded value is bounded by the field size.
pub proof fn lemma_le_val_bound(bs: Seq<u8>)
    ensures
        le_val(bs) < pow256(bs.len()),
    decreases bs.len(),
{
    if bs.len() > 0 {
        lemma_le_val_bound(bs.subrange(1, bs.len() as int));
    }
}

/// Appending the next more-significant byte to an encoding.
pub proof fn lemma_le_bytes_snoc(v: nat, w: nat)
    ensures
        le_bytes(v, w + 1) == le_bytes(v, w).push(((v / pow256(w)) % 256) as u8),
    decreases w,
{
    if w == 0 {
        assert(v / 1 == v) by (nonlinear_arith);
        reveal_with_fuel(le_bytes, 2);
        assert(pow256(0) == 1);
        assert(le_bytes(v, 1) =~= le_bytes(v, 0).push(((v / pow256(0)) % 256) as u8));
    } else {
        lemma_le_bytes_snoc(v / 256, (w - 1) as nat);
        lemma_pow256_pos((w - 1) as nat);
        lemma_div_denominator(v as int, 256, pow256((w - 1) as nat) as int);
        assert(le_bytes(v, w + 1) =~= le_bytes(v, w).push(((v / pow256(w)) % 256) as u8));
    }
}

/// Writes the low `w` bytes of `v` into `buf` at `off`, little-endian,
/// leaving every other byte unchanged.
pub fn store_le(buf: &mut Vec<u8>, off: usize, v: u64, w: usize)
    requires
        w <= 8,
        off + w <= old(buf)@.len(),
    ensures
        final(buf)@.len() == old(buf)@.len(),
        final(buf)@.subrange(off as int, (off + w) as int) == le_bytes(v as nat, w as nat),
        forall|k: int|
            0 <= k < old(buf)@.len() && !(off <= k < off + w) ==> final(buf)@[k] == old(
                buf,
            )@[k],
{
    let len = buf.len();
    let mut j: usize = 0;
    let mut x: u64 = v;
    proof {
        assert(le_bytes(v as nat, 0) =~= Seq::<u8>::empty());
        assert((v as nat) / 1 == v as nat) by (nonlinear_arith);
    }
    while j < w
        invariant
            j <= w,
            w <= 8,
            off + w <= len,
            buf@.len() == len,
            off + w <= old(buf)@.len(),
            buf@.len() == old(buf)@.len(),
            x as nat == (v as nat) / pow256(j as nat),
            buf@.subrange(off as int, (off + j) as int) == le_bytes(v as nat, j as nat),
            forall|k: int|
                0 <= k < old(buf)@.len() && !(off <= k < off + j) ==> buf@[k] == old(buf)@[k],
        decreases w - j,
    {
        let b: u8 = (x % 256) as u8;
        buf[off + j] = b;
        proof {
            lemma_pow256_pos(j as nat);
            assert(b == ((v as nat / pow256(j as nat)) % 256) as u8);
            lemma_le_bytes_snoc(v as nat, j as nat);
            lemma_le_bytes_len(v as nat, j as nat);
            assert(buf@.subrange(off as int, (off + j + 1) as int) =~= le_bytes(
                v as nat,
                j as nat,
            ).push(b));
            lemma_div_denominator(v as int, pow256(j as nat) as int, 256);
            assert(pow256(j as nat) * 256 == pow256((j + 1) as nat)) by {
                assert(pow256((j + 1) as nat) == 256 * pow256(j as nat));
            }
        }
        x = x / 256;
        j = j + 1;
    }
    proof {
        assert(buf@.subrange(off as int, (off + w) as int) == le_bytes(v as nat, w as nat));
    }
}

/// Copies `src[start..end]` into a fresh buffer.
pub fn copy_range(src: &Vec<u8>, start: usize, end: usize) -> (r: Vec<u8>)
    requires
        start <= end,
        end <= src@.len(),
    ensures
        r@ == src@.subrange(start as int, end as int),
{
    let mut r: Vec<u8> = Vec::new();
    let mut i: usize = start;
    while i < end
        invariant
            start <= i <= end,
            end <= src@.len(),
            r@ == src@.subrange(start as int, i as int),
        decreases end - i,
    {
        r.push(src[i]);
        proof {
            assert(r@ =~= src@.subrange(start as int, (i + 1) as int));
        }
        i = i + 1;
    }
    proof {
        assert(r@ =~= src@.subrange(start as int, end as int));
    }
    r
}

/// Overwrites `dst[off..off + src.len()]` with the bytes of `src`,
/// leaving every other byte unchanged.
pub fn write_range(dst: &mut Vec<u8>, off: usize, src: &Vec<u8>)
    requires
        off + src@.len() <= old(dst)@.len(),
    ensures
        final(dst)@.len() == old(dst)@.len(),
        final(dst)@.subrange(off as int, off + src@.len()) == src@,
        forall|k: int|
            0 <= k < old(dst)@.len() && !(off <= k < off + src@.len()) ==> final(dst)@[k] == old(
                dst,
            )@[k],
{
    let len = dst.len();
    let n = src.len();
    let mut i: usize = 0;
    while i < n
        invariant
            i <= n,
            n == src@.len(),
            off + n <= len,
            dst@.len() == len,
            dst@.subrange(off as int, (off + i) as int) == src@.subrange(0, i as int),
            forall|k: int|
                0 <= k < len && !(off <= k < off + i) ==> dst@[k] == old(dst)@[k],
        decreases n - i,
    {
        dst[off + i] = src[i];
        proof {
            assert(dst@.subrange(off as int, (off + i + 1) as int) =~= src@.subrange(
                0,
                (i + 1) as int,
            ));
        }
        i = i + 1;
    }
    proof {
        assert(src@.subrange(0, n as int) =~= src@);
    }
}

/// Reads the `w` bytes at `off` as a little-endian unsigned value.
pub fn load_le(buf: &Vec<u8>, off: usize, w: usize) -> (r: u64)
    requires
        w <= 8,
        off + w <= buf@.len(),
    ensures
        r as nat == le_val(buf@.subrange(off as int, (off + w) as int)),
{
    let len = buf.len();
    let mut j: usize = w;
    let mut acc: u64 = 0;
    proof {
        assert(buf@.subrange((off + w) as int, (off + w) as int) =~= Seq::<u8>::empty());
        lemma_pow256_values();
    }
    while j > 0
        invariant
            j <= w,
            w <= 8,
            off + w <= len,
            buf@.len() == len,
            off + w <= buf@.len(),
            acc as nat == le_val(buf@.subrange((off + j) as int, (off + w) as int)),
            (acc as nat) < pow256((w - j) as nat),
        decreases j,
    {
        j = j - 1;
        let b: u8 = buf[off + j];
        proof {
            let s = buf@.subrange((off + j) as int, (off + w) as int);
            assert(s[0] == b);
            assert(s.subrange(1, s.len() as int) =~= buf@.subrange(
                (off + j + 1) as int,
                (off + w) as int,
            ));
            assert(le_val(s) == b + 256 * le_val(
                buf@.subrange((off + j + 1) as int, (off + w) as int),
            ));
            assert(pow256(((w - j) as nat)) == 256 * pow256((w - j - 1) as nat));
            lemma_pow256_increases((w - j) as nat, 8);
            lemma_pow256_values();
        }
        acc = acc * 256 + (b as u64);
    }
    proof {
        assert(buf@.subrange((off + j) as int, (off + w) as int) =~= buf@.subrange(
            off as int,
            (off + w) as int,
        ));
    }
    acc
}

} // verus!
