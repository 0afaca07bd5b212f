//! Exact integer views of the runtime's double-width number encoding.
//!
//! The runtime stores every number in one IEEE-754 double-width slot.  The
//! model carries such a slot as its raw 64-bit pattern and never performs
//! floating-point arithmetic: integer marshalling builds the pattern by
//! integer arithmetic alone and is proved to decode back exactly for every
//! magnitude below 2^53.

use vstd::prelude::*;
use vstd::arithmetic::power2::pow2;
use vstd::arithmetic::power2::lemma_pow2_unfold;
use vstd::arithmetic::power2::lemma_pow2_adds;
use vstd::arithmetic::power2::lemma_pow2_strictly_increases;
use vstd::arithmetic::power2::lemma_pow2_pos;
use vstd::arithmetic::power2::lemma2_to64;
use vstd::arithmetic::power2::lemma2_to64_rest;
use vstd::arithmetic::div_mod::lemma_fundamental_div_mod;
use vstd::arithmetic::div_mod::lemma_fundamental_div_mod_converse;
use vstd::arithmetic::div_mod::lemma_div_denominator;
use vstd::arithmetic::div_mod::lemma_mod_multiples_basic;
use vstd::arithmetic::div_mod::lemma_div_by_multiple;
use vstd::arithmetic::mul::lemma_mul_strict_inequality;
use vstd::arithmetic::mul::lemma_mul_inequality;
use vstd::arithmetic::mul::lemma_mul_is_commutative;
use vstd::arithmetic::mul::lemma_mul_is_associative;

verus! {

/// The sign field of a double's bit pattern.
pub open spec fn bits_sign(b: u64) -> int {
    b as int / 0x8000000000000000
}

/// The biased exponent field of a double's bit pattern.
pub open spec fn bits_exp(b: u64) -> int {
    (b as int % 0x8000000000000000) / 0x10000000000000
}

/// The fraction field of a double's bit pattern.
pub open spec fn bits_frac(b: u64) -> int {
    b as int % 0x10000000000000
}

/// The exact integer a double's bit pattern denotes, or `None` when the
/// pattern denotes no integer of magnitude below 2^53: a fractional
/// value, a subnormal, an infinity, a not-a-number, or a wider magnitude
/// than the bridge's integer marshalling range.
pub open spec fn num_int_of_bits(b: u64) -> Option<int> {
    let exp = bits_exp(b);
    let frac = bits_frac(b);
    if b as int % 0x8000000000000000 == 0 {
        Some(0)
    } else if exp < 1023 || exp > 1075 {
        None
    } else {
        let m = 0x10000000000000 + frac;
        let s = (1075 - exp) as nat;
        if m % (pow2(s) as int) == 0 {
            if bits_sign(b) == 1 {
                Some(-(m / (pow2(s) as int)))
            } else {
                Some(m / (pow2(s) as int))
            }
        } else {
            None
        }
    }
}

/// The integer a double's bit pattern truncates to (toward zero), with
/// magnitudes of 2^53 and above saturated to ±2^53.
pub open spec fn num_trunc_of_bits(b: u64) -> int {
    let exp = bits_exp(b);
    let frac = bits_frac(b);
    let neg = bits_sign(b) == 1;
    if exp < 1023 {
        0
    } else if exp > 1075 {
        if neg { -0x20000000000000 } else { 0x20000000000000 }
    } else {
        let m = 0x10000000000000 + frac;
        let s = (1075 - exp) as nat;
        let mag = m / (pow2(s) as int);
        if neg { -mag } else { mag }
    }
}

/// Whether `b` is the canonical pattern denoting the integer `n`:
/// it decodes to exactly `n`, and zero is the all-zero pattern.
pub open spec fn int_bits_pred(n: int, b: u64) -> bool {
    num_int_of_bits(b) == Some(n) && (n == 0 ==> b == 0)
}

/// The canonical double bit pattern of an integer of magnitude below
/// 2^53; [`lemma_int_bits_unique`] shows there is exactly one.
pub open spec fn int_bits(n: int) -> u64 {
    choose|b: u64| int_bits_pred(n, b)
}

/// Two patterns denoting the same integer are the same pattern: the
/// encoding the normalized exponent/fraction split produces is unique.
pub proof fn lemma_int_bits_unique(a: u64, b: u64)
    requires
        num_int_of_bits(a) == num_int_of_bits(b),
        num_int_of_bits(a) is Some,
        num_int_of_bits(a) == Some(0int) ==> a == 0 && b == 0,
    ensures
        a == b,
{
    let v = num_int_of_bits(a)->0;
    if v != 0 {
        lemma_bits_fields(a);
        lemma_bits_fields(b);
        let ea = bits_exp(a);
        let eb = bits_exp(b);
        let ma = 0x10000000000000 + bits_frac(a);
        let mb = 0x10000000000000 + bits_frac(b);
        let sa = (1075 - ea) as nat;
        let sb = (1075 - eb) as nat;
        lemma_pow2_pos(sa);
        lemma_pow2_pos(sb);
        let mag = if v < 0 { -v } else { v };
        assert(a as int % 0x8000000000000000 != 0);
        assert(1023 <= ea <= 1075 && ma % (pow2(sa) as int) == 0);
        assert(1023 <= eb <= 1075 && mb % (pow2(sb) as int) == 0);
        assert(mag == ma / (pow2(sa) as int));
        assert(mag == mb / (pow2(sb) as int));
        assert(ma == mag * pow2(sa)) by {
            lemma_fundamental_div_mod(ma, pow2(sa) as int);
            lemma_mul_is_commutative(pow2(sa) as int, mag);
        }
        assert(mb == mag * pow2(sb)) by {
            lemma_fundamental_div_mod(mb, pow2(sb) as int);
            lemma_mul_is_commutative(pow2(sb) as int, mag);
        }
        if sa != sb {
            if sa > sb {
                lemma_pow2_adds(sb as nat, (sa - sb) as nat);
                lemma_pow2_pos((sa - sb) as nat);
                assert(pow2(sa) == pow2(sb) * pow2((sa - sb) as nat));
                assert(ma == mb * pow2((sa - sb) as nat)) by {
                    lemma_mul_is_associative(mag as int, pow2(sb) as int, pow2((sa - sb) as nat) as int);
                }
                assert(pow2((sa - sb) as nat) >= 2) by {
                    lemma2_to64();
                    lemma_pow2_unfold(1);
                    if sa - sb > 1 {
                        lemma_pow2_strictly_increases(1, (sa - sb) as nat);
                    }
                }
                assert(ma >= mb * 2) by {
                    lemma_mul_inequality(2, pow2((sa - sb) as nat) as int, mb);
                }
                assert(false);
            } else {
                lemma_pow2_adds(sa as nat, (sb - sa) as nat);
                lemma_pow2_pos((sb - sa) as nat);
                assert(mb == ma * pow2((sb - sa) as nat)) by {
                    lemma_mul_is_associative(mag as int, pow2(sa) as int, pow2((sb - sa) as nat) as int);
                }
                assert(pow2((sb - sa) as nat) >= 2) by {
                    lemma2_to64();
                    lemma_pow2_unfold(1);
                    if sb - sa > 1 {
                        lemma_pow2_strictly_increases(1, (sb - sa) as nat);
                    }
                }
                assert(mb >= ma * 2) by {
                    lemma_mul_inequality(2, pow2((sb - sa) as nat) as int, ma);
                }
                assert(false);
            }
        }
        assert(bits_frac(a) == bits_frac(b));
        assert(bits_sign(a) == bits_sign(b));
    }
}

/// Reassembles a pattern from its fields: the decomposition the three
/// field functions perform is exact.
proof fn lemma_bits_fields(b: u64)
    ensures
        b as int == bits_sign(b) * 0x8000000000000000 + bits_exp(b) * 0x10000000000000
            + bits_frac(b),
        0 <= bits_sign(b) <= 1,
        0 <= bits_exp(b) < 0x800,
        0 <= bits_frac(b) < 0x10000000000000,
{
    lemma_fundamental_div_mod(b as int, 0x8000000000000000);
    lemma_fundamental_div_mod(b as int % 0x8000000000000000, 0x10000000000000);
    assert(bits_frac(b) == (b as int % 0x8000000000000000) % 0x10000000000000) by {
        lemma_mod_mod_smaller(b as int);
    }
}

/// A remainder by 2^63 leaves the remainder by 2^52 unchanged.
proof fn lemma_mod_mod_smaller(x: int)
    requires
        x >= 0,
    ensures
        (x % 0x8000000000000000) % 0x10000000000000 == x % 0x10000000000000,
{
    lemma_mod_breakdown_concrete(x);
}

/// Specialization of remainder nesting to the two field widths.
proof fn lemma_mod_breakdown_concrete(x: int)
    requires
        x >= 0,
    ensures
        (x % 0x8000000000000000) % 0x10000000000000 == x % 0x10000000000000,
{
    vstd::arithmetic::div_mod::lemma_mod_mod(x, 0x10000000000000, 0x800);
}

/// An integer clamped into an inclusive range, as a narrowing read
/// saturates at the target type's bounds.
pub open spec fn sat(v: int, lo: int, hi: int) -> int {
    if v < lo {
        lo
    } else if v > hi {
        hi
    } else {
        v
    }
}

/// Clamps a machine integer into an inclusive range.
pub fn sat_i64(v: i64, lo: i64, hi: i64) -> (r: i64)
    requires
        lo <= hi,
    ensures
        r as int == sat(v as int, lo as int, hi as int),
        lo <= r <= hi,
{
    if v < lo {
        lo
    } else if v > hi {
        hi
    } else {
        v
    }
}

/// 2^e as a machine word.
fn pow2_u64(e: u64) -> (r: u64)
    requires
        e <= 63,
    ensures
        r as int == pow2(e as nat),
{
    let mut i: u64 = 0;
    let mut r: u64 = 1;
    proof {
        lemma2_to64();
    }
    while i < e
        invariant
            i <= e,
            e <= 63,
            r as int == pow2(i as nat),
        decreases e - i,
    {
        proof {
            lemma2_to64();
            lemma2_to64_rest();
            lemma_pow2_unfold((i + 1) as nat);
            lemma_pow2_strictly_increases(i as nat, 63);
            assert(r * 2 == pow2((i + 1) as nat));
        }
        r = r * 2;
        i = i + 1;
    }
    r
}

/// Encodes an integer of magnitude below 2^53 as the bit pattern of the
/// double that denotes it exactly.
pub fn f64_bits_of_int(n: i64) -> (b: u64)
    requires
        -0x20000000000000 < n < 0x20000000000000,
    ensures
        num_int_of_bits(b) == Some(n as int),
        num_trunc_of_bits(b) == n as int,
        n >= 0 ==> bits_sign(b) == 0,
        n == 0 ==> b == 0,
        b == int_bits(n as int),
    decreases 0int,
{
    if n == 0 {
        proof {
            assert(int_bits_pred(0int, 0u64));
            assert(exists|bb: u64| int_bits_pred(0int, bb));
            let w = int_bits(0int);
            assert(int_bits_pred(0int, w));
            lemma_int_bits_unique(w, 0u64);
        }
        return 0;
    }
    let neg = n < 0;
    let mag: u64 = if neg {
        (-(n as i128)) as u64
    } else {
        n as u64
    };
    proof {
        lemma2_to64();
    }
    let mut k: u64 = 0;
    let mut t: u64 = mag;
    while t >= 2
        invariant
            1 <= mag < 0x20000000000000,
            1 <= t,
            k <= 52,
            t as int == mag as int / (pow2(k as nat) as int),
            pow2(k as nat) <= mag as int,
        decreases t,
    {
        proof {
            let p = pow2(k as nat) as int;
            lemma_pow2_pos(k as nat);
            lemma_pow2_unfold((k + 1) as nat);
            assert(pow2((k + 1) as nat) == 2 * pow2(k as nat));
            lemma_div_denominator(mag as int, p, 2);
            assert(mag as int / p / 2 == mag as int / (2 * p));
            // t >= 2 means mag >= 2 * pow2(k) == pow2(k + 1)
            lemma_fundamental_div_mod(mag as int, p);
            assert(mag as int == p * (mag as int / p) + mag as int % p);
            lemma_mul_inequality(2, t as int, p);
            lemma_mul_is_commutative(t as int, p);
            assert(mag as int >= 2 * p);
            // k + 1 stays within 52: pow2(k + 1) <= mag < pow2(53)
            lemma2_to64();
            lemma2_to64_rest();
            assert(pow2(53) == 0x20000000000000) by {
                lemma_pow2_unfold(53);
            }
            if k + 1 >= 53 {
                if k + 1 > 53 {
                    lemma_pow2_strictly_increases(53, (k + 1) as nat);
                }
                assert(pow2((k + 1) as nat) >= pow2(53));
                assert(false);
            }
        }
        t = t / 2;
        k = k + 1;
    }
    proof {
        // t == 1 pins pow2(k) <= mag < pow2(k + 1)
        lemma_pow2_pos(k as nat);
        lemma_fundamental_div_mod(mag as int, pow2(k as nat) as int);
        lemma_pow2_unfold((k + 1) as nat);
        assert((mag as int) < pow2((k + 1) as nat));
    }
    let s = 52 - k;
    let p = pow2_u64(s);
    proof {
        lemma_pow2_pos(s as nat);
        lemma_pow2_adds(k as nat, s as nat);
        lemma_pow2_adds((k + 1) as nat, s as nat);
        lemma2_to64();
        lemma2_to64_rest();
        // mag * p < pow2(k + 1) * pow2(s) == pow2(53)
        lemma_mul_strict_inequality(mag as int, pow2((k + 1) as nat) as int, p as int);
        lemma_mul_is_commutative(mag as int, p as int);
        assert(mag as int * p < pow2(53));
        // mag * p >= pow2(k) * pow2(s) == pow2(52)
        lemma_mul_inequality(pow2(k as nat) as int, mag as int, p as int);
        lemma_mul_is_commutative(pow2(k as nat) as int, p as int);
        assert(mag as int * p >= pow2(52));
        assert(pow2(52) == 0x10000000000000);
        assert(pow2(53) == 0x20000000000000);
    }
    let scaled = mag * p;
    let frac = scaled - 0x10000000000000;
    let exp = 1023 + k;
    let sign: u64 = if neg {
        1
    } else {
        0
    };
    let b = sign * 0x8000000000000000 + exp * 0x10000000000000 + frac;
    proof {
        let rest = exp as int * 0x10000000000000 + frac as int;
        lemma_fundamental_div_mod_converse(
            b as int,
            0x8000000000000000,
            sign as int,
            rest,
        );
        lemma_fundamental_div_mod_converse(rest, 0x10000000000000, exp as int, frac as int);
        assert(bits_sign(b) == sign as int);
        assert(bits_exp(b) == exp as int);
        assert(bits_frac(b) == frac as int);
        let sp = pow2(s as nat) as int;
        lemma_pow2_pos(s as nat);
        lemma_mod_multiples_basic(mag as int, sp);
        lemma_div_by_multiple(mag as int, sp);
        assert((mag as int * sp) % sp == 0);
        assert((mag as int * sp) / sp == mag as int);
        assert(0x10000000000000 + bits_frac(b) == mag as int * sp);
        // the pattern is the canonical one
        assert(int_bits_pred(n as int, b));
        assert(exists|bb: u64| int_bits_pred(n as int, bb));
        let w = int_bits(n as int);
        assert(int_bits_pred(n as int, w));
        lemma_int_bits_unique(w, b);
    }
    b
}

/// Decodes a double's bit pattern into the exact integer it denotes,
/// when it denotes one of magnitude at most 2^53.
pub fn int_of_f64_bits(b: u64) -> (r: Option<i64>)
    ensures
        match num_int_of_bits(b) {
            Some(v) => r == Some(v as i64),
            None => r == Option::<i64>::None,
        },
{
    let sign = b / 0x8000000000000000;
    let rest = b % 0x8000000000000000;
    let exp = rest / 0x10000000000000;
    let frac = rest % 0x10000000000000;
    proof {
        lemma_fundamental_div_mod(b as int, 0x8000000000000000);
        lemma_fundamental_div_mod(rest as int, 0x10000000000000);
        assert(bits_exp(b) == exp as int);
        assert(bits_frac(b) == frac as int);
    }
    if rest == 0 {
        return Some(0);
    }
    if exp < 1023 || exp > 1075 {
        return None;
    }
    let s = 1075 - exp;
    let p = pow2_u64(s);
    let m = 0x10000000000000 + frac;
    proof {
        lemma_pow2_pos(s as nat);
    }
    if m % p != 0 {
        return None;
    }
    let mag = m / p;
    proof {
        lemma_fundamental_div_mod(m as int, p as int);
    }
    if sign == 1 {
        Some(-(mag as i64))
    } else {
        Some(mag as i64)
    }
}

/// Truncates a double's bit pattern toward zero, saturating magnitudes of
/// 2^53 and above.
pub fn trunc_of_f64_bits(b: u64) -> (r: i64)
    ensures
        r as int == num_trunc_of_bits(b),
{
    let sign = b / 0x8000000000000000;
    let rest = b % 0x8000000000000000;
    let exp = rest / 0x10000000000000;
    let frac = rest % 0x10000000000000;
    proof {
        lemma_fundamental_div_mod(b as int, 0x8000000000000000);
        lemma_fundamental_div_mod(rest as int, 0x10000000000000);
        assert(bits_exp(b) == exp as int);
        assert(bits_frac(b) == frac as int);
    }
    if exp < 1023 {
        return 0;
    }
    if exp > 1075 {
        if sign == 1 {
            return -0x20000000000000;
        } else {
            return 0x20000000000000;
        }
    }
    let s = 1075 - exp;
    let p = pow2_u64(s);
    let m = 0x10000000000000 + frac;
    proof {
        lemma_pow2_pos(s as nat);
    }
    let mag = m / p;
    proof {
        lemma_fundamental_div_mod(m as int, p as int);
    }
    if sign == 1 {
        -(mag as i64)
    } else {
        mag as i64
    }
}

} // verus!
