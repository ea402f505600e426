//! Index arithmetic shared by the ring buffers: power-of-two capacities,
//! masking of free-running counters, and wrapping counter distances.
use vstd::prelude::*;
use vstd::arithmetic::power2::{pow2, lemma_pow2_pos, lemma_pow2_adds, lemma2_to64, lemma2_to64_rest};
use vstd::bits::lemma_usize_low_bits_mask_is_mod;
use vstd::arithmetic::div_mod::{
    lemma_fundamental_div_mod, lemma_mod_equivalence, lemma_mod_mod, lemma_small_mod,
    lemma_mod_add_multiples_vanish,
};

verus! {

/// Number of distinct values of a `usize` counter.
pub open spec fn modulus() -> int {
    usize::MAX as int + 1
}

/// `c` is a power of two that fits in a `usize`.
pub open spec fn is_pow2(c: usize) -> bool {
    exists|n: nat| n < usize::BITS && c as nat == pow2(n)
}

/// Distance from `from` to `to` when both are free-running `usize` counters
/// that wrap at `modulus()`: the value of `to.wrapping_sub(from)`.
pub open spec fn dist(from: int, to: int) -> int {
    if to >= from {
        to - from
    } else {
        to - from + modulus()
    }
}

/// The value of `x.wrapping_add(n)` for a counter `x` and a step `n` that fits.
pub open spec fn wrap_add(x: int, n: int) -> int {
    if x + n > usize::MAX {
        x + n - modulus()
    } else {
        x + n
    }
}

/// Advancing a counter by one moves it one step closer to every later
/// counter and one step further from every earlier one.
pub proof fn lemma_dist_succ(a: usize, b: usize)
    ensures
        0 <= dist(a as int, b as int) < modulus(),
        a == b <==> dist(a as int, b as int) == 0,
        a != b ==> dist(wrap_add(a as int, 1), b as int) == dist(a as int, b as int) - 1,
        dist(b as int, a as int) + 1 < modulus() ==> dist(b as int, wrap_add(a as int, 1))
            == dist(b as int, a as int) + 1,
        0 <= wrap_add(a as int, 1) <= usize::MAX,
{
}

/// Two positions less than a counter range apart are exactly as far apart as
/// their wrapped counters.
pub proof fn lemma_dist_of_residues(x: int, y: int)
    requires
        0 <= x <= y,
        y - x < modulus(),
    ensures
        dist(x % modulus(), y % modulus()) == y - x,
        x % modulus() == y % modulus() <==> x == y,
        0 <= x % modulus() < modulus(),
        0 <= y % modulus() < modulus(),
{
    let m = modulus();
    vstd::arithmetic::div_mod::lemma_fundamental_div_mod(x, m);
    vstd::arithmetic::div_mod::lemma_fundamental_div_mod(y, m);
    vstd::arithmetic::div_mod::lemma_mod_bound(x, m);
    vstd::arithmetic::div_mod::lemma_mod_bound(y, m);
    let qx = x / m;
    let qy = y / m;
    let d = qy - qx;
    assert(m * d == (y - x) - (y % m - x % m)) by (nonlinear_arith)
        requires
            x == m * qx + x % m,
            y == m * qy + y % m,
            d == qy - qx,
    ;
    assert(d == 0 || d == 1) by (nonlinear_arith)
        requires
            m * d > -m,
            m * d < 2 * m,
            m > 0,
    ;
    if d == 1 {
        assert(m * d == m) by (nonlinear_arith) requires d == 1;
    } else {
        assert(m * d == 0) by (nonlinear_arith) requires d == 0;
    }
}

/// Adding a small step to a wrapped counter wraps the sum.
pub proof fn lemma_wrap_add_mod(x: int, k: int)
    requires
        0 <= x,
        0 <= k < modulus(),
    ensures
        wrap_add(x % modulus(), k) == (x + k) % modulus(),
{
    let m = modulus();
    vstd::arithmetic::div_mod::lemma_mod_bound(x, m);
    vstd::arithmetic::div_mod::lemma_add_mod_noop(x, k, m);
    vstd::arithmetic::div_mod::lemma_mod_twice(x, m);
    vstd::arithmetic::div_mod::lemma_small_mod(k as nat, m as nat);
    if x % m + k >= m {
        vstd::arithmetic::div_mod::lemma_mod_sub_multiples_vanish(x % m + k, m);
        vstd::arithmetic::div_mod::lemma_small_mod((x % m + k - m) as nat, m as nat);
    } else {
        vstd::arithmetic::div_mod::lemma_small_mod((x % m + k) as nat, m as nat);
    }
}

/// `w.wrapping_sub(1)` of a wrapped counter is the wrapped predecessor.
pub proof fn lemma_pred_mod(w: int)
    requires
        w >= 1,
    ensures
        dist(1, w % modulus()) == (w - 1) % modulus(),
{
    lemma_dist_of_residues(w - 1, w);
}

/// Masking a counter with `c - 1` selects its residue modulo `c`.
pub proof fn lemma_mask_is_mod(x: usize, c: usize)
    requires
        is_pow2(c),
    ensures
        c > 0,
        x & ((c - 1) as usize) == x % c,
{
    let n = choose|n: nat| n < usize::BITS && c as nat == pow2(n);
    lemma_pow2_pos(n);
    lemma_usize_low_bits_mask_is_mod(x, n);
}

/// A power-of-two capacity divides the counter modulus, so residues modulo the
/// capacity survive counter wrap-around.
pub proof fn lemma_pow2_divides_modulus(c: usize)
    requires
        is_pow2(c),
    ensures
        c > 0,
        modulus() % (c as int) == 0,
        modulus() == (c as int) * (modulus() / (c as int)),
        modulus() / (c as int) > 0,
{
    let n = choose|n: nat| n < usize::BITS && c as nat == pow2(n);
    lemma_pow2_pos(n);
    let rest = (usize::BITS - n) as nat;
    lemma_pow2_adds(n, rest);
    lemma_pow2_pos(rest);
    lemma2_to64();
    lemma2_to64_rest();
    assert(modulus() == pow2(usize::BITS as nat));
    assert(modulus() == (c as int) * (pow2(rest) as int));
    lemma_fundamental_div_mod_converse_use(modulus(), c as int, pow2(rest) as int);
}

proof fn lemma_fundamental_div_mod_converse_use(x: int, d: int, q: int)
    requires
        d > 0,
        x == d * q,
    ensures
        x % d == 0,
        x / d == q,
{
    assert(x == q * d + 0) by (nonlinear_arith) requires x == d * q;
    vstd::arithmetic::div_mod::lemma_fundamental_div_mod_converse(x, d, q, 0);
}

/// Subtracting the counter modulus does not change the residue modulo a
/// power-of-two capacity.
pub proof fn lemma_unwrap_keeps_residue(x: int, c: usize)
    requires
        is_pow2(c),
    ensures
        (x - modulus()) % (c as int) == x % (c as int),
{
    lemma_pow2_divides_modulus(c);
    let k = modulus() / (c as int);
    assert(x - modulus() == (c as int) * (-k) + x) by (nonlinear_arith)
        requires
            modulus() == (c as int) * k,
    ;
    vstd::arithmetic::div_mod::lemma_mod_multiples_vanish(-k, x, c as int);
}

/// The slot of a wrapped counter is the slot of the unwrapped one.
pub proof fn lemma_wrap_add_residue(x: int, n: int, c: usize)
    requires
        is_pow2(c),
    ensures
        wrap_add(x, n) % (c as int) == (x + n) % (c as int),
{
    lemma_unwrap_keeps_residue(x + n, c);
}

/// Reducing modulo the counter modulus does not change the residue modulo a
/// power-of-two capacity.
pub proof fn lemma_wrap_keeps_residue(x: int, c: usize)
    requires
        is_pow2(c),
    ensures
        (x % modulus()) % (c as int) == x % (c as int),
{
    lemma_pow2_divides_modulus(c);
    lemma_mod_mod(x, c as int, modulus() / (c as int));
}

/// Distinct offsets below `c` from the same base land in distinct slots.
pub proof fn lemma_distinct_slots(h: int, i: int, j: int, c: int)
    requires
        0 <= i < c,
        0 <= j < c,
        i != j,
    ensures
        (h + i) % c != (h + j) % c,
{
    lemma_mod_equivalence(h + i, h + j, c);
    if i < j {
        lemma_small_mod((j - i) as nat, c as nat);
        lemma_mod_equivalence(h + j, h + i, c);
    } else {
        lemma_small_mod((i - j) as nat, c as nat);
    }
}

/// Going once round the ring returns to the same slot.
pub proof fn lemma_full_turn(h: int, c: int)
    requires
        c > 0,
    ensures
        (h + c) % c == h % c,
{
    lemma_mod_add_multiples_vanish(h, c);
}

} // verus!
