//! Sign- and width-exact conversions behind the typed accessors: a signed
//! value written at width `w` keeps exactly the low `w` bytes of its
//! two's-complement encoding, and a signed read sign-extends from bit
//! `8w - 1`, with no platform-dependent casts involved.
use vstd::prelude::*;
use vstd::arithmetic::div_mod::{
    lemma_mod_mod, lemma_mod_add_multiples_vanish, lemma_small_mod,
};
use crate::bytes::{pow256, lemma_pow256_pos, lemma_pow256_values};

verus! {

/// The two's-complement reading of a `w`-byte unsigned encoding `u`.
pub open spec fn as_signed(u: nat, w: nat) -> int {
    if 2 * u < pow256(w) {
        u as int
    } else {
        u - pow256(w)
    }
}

/// `x` reduced to `w` bytes and then sign-extended: the value a signed
/// read at width `w` recovers after `x` was written at width `w`.
pub open spec fn signed_trunc(x: int, w: nat) -> int {
    as_signed((x % pow256(w) as int) as nat, w)
}

pub proof fn lemma_pow256_adds(a: nat, b: nat)
    ensures
        pow256(a + b) == pow256(a) * pow256(b),
    decreases a,
{
    if a == 0 {
        assert(pow256(b) == 1 * pow256(b));
    } else {
        lemma_pow256_adds((a - 1) as nat, b);
        assert(pow256(a + b) == 256 * pow256((a + b - 1) as nat));
        assert(256 * (pow256((a - 1) as nat) * pow256(b)) == (256 * pow256((a - 1) as nat))
            * pow256(b)) by (nonlinear_arith);
    }
}

/// Reducing modulo the full 8-byte range and then modulo a narrower
/// width is the same as reducing modulo the narrower width directly.
pub proof fn lemma_mod_width_of_mod_full(x: int, w: nat)
    requires
        w <= 8,
    ensures
        (x % pow256(8) as int) % pow256(w) as int == x % pow256(w) as int,
{
    lemma_pow256_pos(w);
    lemma_pow256_pos((8 - w) as nat);
    lemma_pow256_adds(w, (8 - w) as nat);
    lemma_mod_mod(x, pow256(w) as int, pow256((8 - w) as nat) as int);
}

/// A value already inside the signed range of width `w` comes back
/// unchanged from truncation followed by sign extension.
pub proof fn lemma_signed_trunc_identity(x: int, w: nat)
    requires
        0 < pow256(w),
        2 * x < pow256(w),
        2 * x >= -(pow256(w) as int),
    ensures
        signed_trunc(x, w) == x,
{
    let p = pow256(w) as int;
    if x >= 0 {
        lemma_small_mod(x as nat, pow256(w));
    } else {
        lemma_mod_add_multiples_vanish(x, p);
        lemma_small_mod((x + p) as nat, pow256(w));
        assert(x % p == x + p);
    }
}

/// Reinterprets a signed 64-bit value as its two's-complement unsigned
/// encoding, with no reliance on a platform cast.
pub fn wrap_i64(data: i64) -> (r: u64)
    ensures
        r as int == (data as int) % pow256(8) as int,
{
    proof {
        lemma_pow256_values();
        let p = pow256(8) as int;
        if data < 0 {
            lemma_mod_add_multiples_vanish(data as int, p);
            lemma_small_mod((data + p) as nat, pow256(8));
        } else {
            lemma_small_mod(data as nat, pow256(8));
        }
    }
    if data >= 0 {
        data as u64
    } else {
        u64::MAX - ((-(data + 1)) as u64)
    }
}

/// Sign-extends the `w`-byte unsigned encoding `u` into a full signed
/// 64-bit value, reading the sign from bit `8w - 1`.
pub fn sign_extend(u: u64, w: u64) -> (r: i64)
    requires
        crate::valid_width(w),
        (u as nat) < pow256(w as nat),
    ensures
        r as int == as_signed(u as nat, w as nat),
{
    proof {
        lemma_pow256_values();
    }
    let half: u64 = if w == 1 {
        0x80
    } else if w == 2 {
        0x8000
    } else if w == 4 {
        0x8000_0000
    } else {
        0x8000_0000_0000_0000
    };
    if u < half {
        u as i64
    } else if w == 8 {
        -((u64::MAX - u) as i64) - 1
    } else {
        (u as i64) - ((2 * (half as i64)) as i64)
    }
}

} // verus!
