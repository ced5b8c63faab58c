//! Tap geometry: for tap `i` of `v` voices, the delay offset in samples and
//! the gain in milliunits.
//!
//! Gains decay geometrically by 3/4 per tap and are normalized so that the
//! taps' total radiated energy is one, independent of the voice count: the
//! exact gain of tap `i` is `(3/4)^i / sqrt(sum_k (3/4)^(2k))`. Scaling
//! numerator and denominator by `4^(v-1)` turns that into the integer ratio
//! `tap_weight(i, v) / sqrt(power_sum(v))`, which is what this module
//! computes, in milliunits and with a floor square root.

use vstd::prelude::*;

use vstd::arithmetic::div_mod::lemma_div_is_ordered;
use vstd::arithmetic::div_mod::lemma_div_multiples_vanish;

use crate::fixed::isqrt64;
use crate::fixed::sqrt_floor;
use crate::MAX_DELAY_SAMPLES;
use crate::MAX_VOICES;

verus! {

/// `b` to the power `e`.
pub open spec fn npow(b: int, e: nat) -> int
    decreases e,
{
    if e == 0 {
        1
    } else {
        b * npow(b, (e - 1) as nat)
    }
}

pub proof fn lemma_npow_pos(b: int, e: nat)
    requires
        b >= 1,
    ensures
        npow(b, e) >= 1,
    decreases e,
{
    if e > 0 {
        lemma_npow_pos(b, (e - 1) as nat);
        assert(b * npow(b, (e - 1) as nat) >= 1) by (nonlinear_arith)
            requires
                b >= 1,
                npow(b, (e - 1) as nat) >= 1,
        ;
    }
}

pub proof fn lemma_npow_mono(b: int, e1: nat, e2: nat)
    requires
        b >= 1,
        e1 <= e2,
    ensures
        npow(b, e1) <= npow(b, e2),
    decreases e2,
{
    if e1 < e2 {
        lemma_npow_mono(b, e1, (e2 - 1) as nat);
        lemma_npow_pos(b, (e2 - 1) as nat);
        assert(npow(b, (e2 - 1) as nat) <= b * npow(b, (e2 - 1) as nat)) by (nonlinear_arith)
            requires
                b >= 1,
                npow(b, (e2 - 1) as nat) >= 1,
        ;
    }
}

/// Powers of a product are products of powers.
pub proof fn lemma_npow_mul(a: int, b: int, e: nat)
    ensures
        npow(a, e) * npow(b, e) == npow(a * b, e),
    decreases e,
{
    if e > 0 {
        lemma_npow_mul(a, b, (e - 1) as nat);
        let pa = npow(a, (e - 1) as nat);
        let pb = npow(b, (e - 1) as nat);
        assert((a * pa) * (b * pb) == (a * b) * (pa * pb)) by (nonlinear_arith);
    }
}

/// The energy normalization total for `v` voices: `sum_{k<v} 9^k * 16^(v-1-k)`,
/// here by its recurrence.
pub open spec fn power_sum(v: nat) -> int
    decreases v,
{
    if v == 0 {
        0
    } else {
        16 * power_sum((v - 1) as nat) + npow(9, (v - 1) as nat)
    }
}

pub proof fn lemma_power_sum_pos(v: nat)
    requires
        v >= 1,
    ensures
        power_sum(v) >= 1,
    decreases v,
{
    lemma_npow_pos(9, (v - 1) as nat);
    if v > 1 {
        lemma_power_sum_pos((v - 1) as nat);
    } else {
        assert(power_sum(0) == 0);
    }
}

pub proof fn lemma_power_sum_mono(v1: nat, v2: nat)
    requires
        v1 <= v2,
    ensures
        power_sum(v1) <= power_sum(v2),
    decreases v2,
{
    if v1 < v2 {
        lemma_power_sum_mono(v1, (v2 - 1) as nat);
        if v2 - 1 >= 1 {
            lemma_power_sum_pos((v2 - 1) as nat);
        }
        lemma_npow_pos(9, (v2 - 1) as nat);
    }
}

/// The concrete bounds the executable code leans on: the largest power and
/// the largest normalization total that can arise with sixteen voices.
pub proof fn lemma_power_values()
    ensures
        npow(3, 15) == 14348907,
        npow(4, 15) == 0x4000_0000,
        npow(9, 15) == 205891132094649,
        power_sum(16) == 2634984436217242825,
{
    reveal_with_fuel(npow, 17);
    reveal_with_fuel(power_sum, 17);
}

/// The unnormalized integer weight of tap `i` among `v` voices:
/// `(3/4)^i` scaled by `4^(v-1)`.
pub open spec fn tap_weight(i: nat, v: nat) -> int {
    npow(3, i) * npow(4, (v - 1 - i) as nat)
}

/// The gain of tap `i` among `v` voices, in milliunits.
pub open spec fn gain_milli(i: nat, v: nat) -> int {
    1000 * tap_weight(i, v) / sqrt_floor(power_sum(v))
}

/// Sum of the squared weights of the first `t` taps of `v` voices.
pub open spec fn weight_energy(v: nat, t: nat) -> int
    decreases t,
{
    if t == 0 {
        0
    } else {
        weight_energy(v, (t - 1) as nat) + tap_weight((t - 1) as nat, v) * tap_weight(
            (t - 1) as nat,
            v,
        )
    }
}

proof fn lemma_weight_energy_shift(v: nat, t: nat)
    requires
        v >= 1,
        t <= v - 1,
    ensures
        weight_energy(v, t) == 16 * weight_energy((v - 1) as nat, t),
    decreases t,
{
    if t > 0 {
        let i = (t - 1) as nat;
        lemma_weight_energy_shift(v, i);
        let p3 = npow(3, i);
        let p4 = npow(4, (v - 2 - i) as nat);
        assert(npow(4, (v - 1 - i) as nat) == 4 * p4);
        assert((p3 * (4 * p4)) * (p3 * (4 * p4)) == 16 * ((p3 * p4) * (p3 * p4)))
            by (nonlinear_arith);
    }
}

/// Energy normalization: the squared tap weights of `v` voices sum exactly
/// to the normalization total, so the exact (unquantized) gains
/// `tap_weight(i, v) / sqrt(power_sum(v))` carry total energy one whatever
/// the voice count.
pub proof fn lemma_energy_normalized(v: nat)
    requires
        1 <= v,
    ensures
        weight_energy(v, v) == power_sum(v),
    decreases v,
{
    let i = (v - 1) as nat;
    assert(npow(4, (v - 1 - i) as nat) == 1);
    lemma_npow_mul(3, 3, i);
    assert(tap_weight(i, v) * tap_weight(i, v) == npow(9, i)) by {
        assert(tap_weight(i, v) == npow(3, i) * 1);
        assert(npow(3, i) * npow(3, i) == npow(9, i));
    }
    assert(weight_energy(v, v) == weight_energy(v, i) + tap_weight(i, v) * tap_weight(i, v));
    assert(power_sum(v) == 16 * power_sum(i) + npow(9, i));
    if v == 1 {
        assert(weight_energy(v, 0) == 0);
        assert(power_sum(0) == 0);
    } else {
        lemma_energy_normalized((v - 1) as nat);
        lemma_weight_energy_shift(v, i);
    }
}

proof fn lemma_weight_energy_mono(v: nat, t1: nat, t2: nat)
    requires
        t1 <= t2,
    ensures
        weight_energy(v, t1) <= weight_energy(v, t2),
    decreases t2,
{
    if t1 < t2 {
        lemma_weight_energy_mono(v, t1, (t2 - 1) as nat);
        let w = tap_weight((t2 - 1) as nat, v);
        assert(w * w >= 0) by (nonlinear_arith);
    }
}

/// Each squared weight is at most the whole normalization total.
proof fn lemma_weight_sq_le_power_sum(i: nat, v: nat)
    requires
        i < v,
    ensures
        tap_weight(i, v) * tap_weight(i, v) <= power_sum(v),
{
    lemma_weight_energy_mono(v, i + 1, v);
    lemma_weight_energy_mono(v, 0, i);
    lemma_energy_normalized(v);
}

/// `pow_u64(b, e)` is `b^e`.
pub fn pow_u64(b: u64, e: u64) -> (r: u64)
    requires
        b >= 1,
        npow(b as int, e as nat) <= u64::MAX,
    ensures
        r == npow(b as int, e as nat),
{
    let mut acc: u64 = 1;
    let mut i: u64 = 0;
    while i < e
        invariant
            i <= e,
            b >= 1,
            npow(b as int, e as nat) <= u64::MAX,
            acc == npow(b as int, i as nat),
        decreases e - i,
    {
        proof {
            lemma_npow_mono(b as int, (i + 1) as nat, e as nat);
            lemma_npow_pos(b as int, i as nat);
            assert(npow(b as int, (i + 1) as nat) == b * npow(b as int, i as nat));
        }
        acc = acc * b;
        i = i + 1;
    }
    acc
}

/// The normalization total `power_sum(v)`, by its recurrence.
pub fn power_sum_u64(voices: usize) -> (t: u64)
    requires
        1 <= voices <= MAX_VOICES,
    ensures
        t == power_sum(voices as nat),
        1 <= t < 0x4000_0000_0000_0000,
{
    proof {
        lemma_power_values();
    }
    let mut t: u64 = 0;
    let mut p: u64 = 1;
    let mut j: usize = 0;
    while j < voices
        invariant
            j <= voices <= MAX_VOICES,
            t == power_sum(j as nat),
            p == npow(9, j as nat),
        decreases voices - j,
    {
        proof {
            lemma_npow_pos(9, j as nat);
            lemma_npow_mono(9, j as nat, 15);
            lemma_npow_mono(9, (j + 1) as nat, 16);
            lemma_power_values();
            assert(npow(9, 16) == 9 * npow(9, 15));
            lemma_power_sum_mono((j + 1) as nat, 16);
            assert(power_sum((j + 1) as nat) == 16 * power_sum(j as nat) + npow(9, j as nat));
            assert(npow(9, (j + 1) as nat) == 9 * npow(9, j as nat));
            lemma_power_sum_pos((j + 1) as nat);
        }
        t = 16 * t + p;
        p = 9 * p;
        j = j + 1;
    }
    proof {
        lemma_power_sum_pos(voices as nat);
        lemma_power_sum_mono(voices as nat, 16);
        lemma_power_values();
    }
    t
}

/// The gain of one tap, in milliunits: its weight over the floor square
/// root of the normalization total. Never more than one unit, since no
/// single tap can carry more than the total energy.
pub fn tap_gain_milli(tap: usize, voices: usize) -> (g: u64)
    requires
        1 <= voices <= MAX_VOICES,
        tap < voices,
    ensures
        g == gain_milli(tap as nat, voices as nat),
        g <= 1000,
{
    let t = power_sum_u64(voices);
    let s = isqrt64(t);
    proof {
        lemma_power_values();
        lemma_npow_mono(3, tap as nat, 15);
        lemma_npow_mono(4, (voices - 1 - tap) as nat, 15);
        lemma_npow_pos(3, tap as nat);
        lemma_npow_pos(4, (voices - 1 - tap) as nat);
        assert(npow(3, tap as nat) * npow(4, (voices - 1 - tap) as nat) <= 14348907 * 0x4000_0000)
            by (nonlinear_arith)
            requires
                1 <= npow(3, tap as nat) <= 14348907,
                1 <= npow(4, (voices - 1 - tap) as nat) <= 0x4000_0000,
        ;
    }
    let w = pow_u64(3, tap as u64) * pow_u64(4, (voices - 1 - tap) as u64);
    proof {
        lemma_weight_sq_le_power_sum(tap as nat, voices as nat);
        // w * w <= t < (s + 1)^2 and both sides nonnegative pin w at or below s.
        assert(w <= s) by (nonlinear_arith)
            requires
                w >= 0,
                s >= 0,
                w * w <= t,
                t < (s + 1) * (s + 1),
        ;
        assert(s >= 1) by (nonlinear_arith)
            requires
                s >= 0,
                t >= 1,
                t < (s + 1) * (s + 1),
        ;
        assert(1000 * w <= 1000 * s) by (nonlinear_arith)
            requires
                w <= s,
        ;
        lemma_div_is_ordered(1000 * (w as int), 1000 * (s as int), s as int);
        lemma_div_multiples_vanish(1000, s as int);
        assert(s * 1000 == 1000 * s) by (nonlinear_arith);
    }
    let g = (1000 * w) / s;
    g
}

/// The delay of tap `i` among `v` voices for a base delay in samples:
/// `base * (i + 1)`, staggered forward by `base * i / v`, and capped one
/// short of the buffer capacity.
pub open spec fn tap_delay(i: nat, v: nat, base: nat) -> int {
    let plain = (base as int) * (i + 1) + if v > 1 {
        ((base as int) * (i as int)) / (v as int)
    } else {
        0
    };
    if plain < MAX_DELAY_SAMPLES - 1 {
        plain
    } else {
        (MAX_DELAY_SAMPLES - 1) as int
    }
}

/// A tap's delay always lands strictly inside the buffer, and is never zero,
/// so a read can never land on the slot being written this sample.
pub proof fn lemma_tap_delay_range(i: nat, v: nat, base: nat)
    requires
        1 <= v <= MAX_VOICES,
        i < v,
        1 <= base < MAX_DELAY_SAMPLES / MAX_VOICES,
    ensures
        1 <= tap_delay(i, v, base) < MAX_DELAY_SAMPLES,
{
    assert((base as int) * (i + 1) >= 1) by (nonlinear_arith)
        requires
            base >= 1,
            i >= 0,
    ;
    if v > 1 {
        vstd::arithmetic::div_mod::lemma_div_pos_is_pos((base as int) * (i as int), v as int);
    }
}

/// The staggered delay of one tap, in samples.
pub fn tap_delay_samples(tap: usize, voices: usize, base: usize) -> (d: usize)
    requires
        1 <= voices <= MAX_VOICES,
        tap < voices,
        1 <= base < MAX_DELAY_SAMPLES / MAX_VOICES,
    ensures
        d == tap_delay(tap as nat, voices as nat, base as nat),
        1 <= d < MAX_DELAY_SAMPLES,
{
    proof {
        assert(base * (tap + 1) <= 11999 * 16) by (nonlinear_arith)
            requires
                0 < base <= 11999,
                tap + 1 <= 16,
        ;
        assert(base * tap <= 11999 * 16) by (nonlinear_arith)
            requires
                0 < base <= 11999,
                tap <= 16,
        ;
        assert(base * (tap + 1) >= 1) by (nonlinear_arith)
            requires
                base >= 1,
                tap >= 0,
        ;
    }
    let base_tap_delay = base * (tap + 1);
    let offset = if voices > 1 {
        proof {
            vstd::arithmetic::div_mod::lemma_div_pos_is_pos((base * tap) as int, voices as int);
            vstd::arithmetic::div_mod::lemma_div_nonincreasing((base * tap) as int, voices as int);
        }
        (base * tap) / voices
    } else {
        0
    };
    let plain = base_tap_delay + offset;
    if plain < MAX_DELAY_SAMPLES - 1 {
        plain
    } else {
        MAX_DELAY_SAMPLES - 1
    }
}

/// Evenly spaced taps: when the voice count divides the base delay and the
/// cap is not reached, consecutive tap delays differ by exactly
/// `base + base / v` samples, one stagger step more than the base delay.
pub proof fn lemma_tap_spacing(i: nat, v: nat, base: nat)
    requires
        2 <= v,
        1 <= base,
        (base as int) % (v as int) == 0,
        i + 1 < v,
        (base as int) * (i + 2) + ((base as int) * (i + 1)) / (v as int) < MAX_DELAY_SAMPLES - 1,
    ensures
        tap_delay(i + 1, v, base) - tap_delay(i, v, base) == base + (base as int) / (v as int),
{
    let b = base as int;
    let n = v as int;
    let j = i as int;
    let q = b / n;
    assert(b == q * n) by {
        vstd::arithmetic::div_mod::lemma_fundamental_div_mod(b, n);
    }
    assert((b * j) / n == q * j) by {
        assert(b * j == n * (q * j)) by (nonlinear_arith)
            requires
                b == q * n,
        ;
        lemma_div_multiples_vanish(q * j, n);
    }
    assert((b * (j + 1)) / n == q * (j + 1)) by {
        assert(b * (j + 1) == n * (q * (j + 1))) by (nonlinear_arith)
            requires
                b == q * n,
        ;
        lemma_div_multiples_vanish(q * (j + 1), n);
    }
    assert(b * (j + 2) - b * (j + 1) == b) by (nonlinear_arith);
    assert(b * (j + 1) - b * j == b) by (nonlinear_arith);
    assert(q * (j + 1) - q * j == q) by (nonlinear_arith);
    assert(b * (j + 1) + (b * j) / n < MAX_DELAY_SAMPLES - 1) by {
        assert(q >= 0) by {
            vstd::arithmetic::div_mod::lemma_div_pos_is_pos(b, n);
        }
        assert(q * j <= q * (j + 1)) by (nonlinear_arith)
            requires
                q >= 0,
                j >= 0,
        ;
    }
}

} // verus!
