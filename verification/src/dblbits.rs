//! Draw values as IEEE 754 bit patterns.
//!
//! A draw is the double `m * 2^-52` for a 52-bit mantissa `m` taken from the
//! generator state. This module computes, in pure integer arithmetic, the
//! exact bit pattern of that double (`value_bits_from_mantissa`) and the
//! exact result of the double multiplication `value * n` truncated to an
//! index (`pick_index`), emulating IEEE round-to-nearest, ties-to-even. Both
//! results are non-negative doubles below one (respectively below `n`), so
//! unsigned comparison of bit patterns coincides with the IEEE ordering.

use vstd::prelude::*;
use vstd::arithmetic::power2::{
    lemma2_to64, lemma2_to64_rest, lemma_pow2_adds, lemma_pow2_pos, lemma_pow2_strictly_increases,
    lemma_pow2_unfold, pow2,
};
use vstd::arithmetic::div_mod::{
    lemma_fundamental_div_mod, lemma_fundamental_div_mod_converse, lemma_mod_bound,
};

verus! {

/// The number of bits in the binary representation of `n` (zero for zero).
pub open spec fn bitlen(n: nat) -> nat
    decreases n,
{
    if n == 0 {
        0
    } else {
        1 + bitlen(n / 2)
    }
}

/// A positive number lies between the two powers of two its bit length names.
pub proof fn lemma_bitlen_bounds(n: nat)
    requires
        n >= 1,
    ensures
        bitlen(n) >= 1,
        pow2((bitlen(n) - 1) as nat) <= n < pow2(bitlen(n)),
    decreases n,
{
    reveal_with_fuel(bitlen, 3);
    if n == 1 {
        lemma2_to64();
        assert(bitlen(1) == 1);
    } else {
        lemma_bitlen_bounds(n / 2);
        assert(bitlen(n) == 1 + bitlen(n / 2));
        lemma_pow2_unfold(bitlen(n));
        lemma_pow2_unfold(bitlen(n / 2));
        assert(pow2((bitlen(n) - 1) as nat) == pow2(bitlen(n / 2)));
        assert(pow2(bitlen(n / 2)) == 2 * pow2((bitlen(n / 2) - 1) as nat));
        assert(2 * (n / 2) <= n);
    }
}

/// Anything below `pow2(k)` has bit length at most `k`.
pub proof fn lemma_bitlen_le(n: nat, k: nat)
    requires
        n < pow2(k),
    ensures
        bitlen(n) <= k,
    decreases n,
{
    if n > 0 {
        if k == 0 {
            lemma2_to64();
            assert(false);
        } else {
            lemma_pow2_unfold(k);
            lemma_bitlen_le(n / 2, (k - 1) as nat);
        }
    }
}

/// The bit length of `m`.
pub fn bit_length(m: u64) -> (len: u64)
    ensures
        len as nat == bitlen(m as nat),
        len <= 64,
{
    proof {
        lemma2_to64_rest();
        lemma_bitlen_le(m as nat, 64);
    }
    let mut x = m;
    let mut len: u64 = 0;
    while x > 0
        invariant
            len as nat + bitlen(x as nat) == bitlen(m as nat),
            bitlen(m as nat) <= 64,
        decreases x,
    {
        x = x / 2;
        len += 1;
    }
    len
}

/// The IEEE 754 bit pattern of the double `m * 2^-52`, for `m < 2^52`.
/// The value lies in `[0, 1)` and is exactly representable, so this is a
/// plain normalization: place the leading bit of `m`, fill the mantissa
/// field, and set the biased exponent accordingly.
pub open spec fn spec_value_bits(m: u64) -> u64 {
    if m == 0 {
        0u64
    } else {
        let l = (bitlen(m as nat) - 1) as nat;
        (((970 + l) * pow2(52) + (m as nat) * pow2((52 - l) as nat))) as u64
    }
}

/// Compute `spec_value_bits` executably.
pub fn value_bits_from_mantissa(m: u64) -> (r: u64)
    requires
        m < 0x10000000000000,
    ensures
        r == spec_value_bits(m),
{
    if m == 0 {
        return 0;
    }
    proof {
        lemma2_to64_rest();
        lemma_bitlen_le(m as nat, 52);
        lemma_bitlen_bounds(m as nat);
    }
    let len = bit_length(m);
    let l = len - 1;
    let shift = 52 - l;
    proof {
        assert(pow2(shift as nat) <= pow2(52)) by {
            if (shift as nat) < 52 {
                lemma_pow2_strictly_increases(shift as nat, 52);
            }
        }
        vstd::bits::lemma_u64_shl_is_mul(1u64, shift);
    }
    let scale = 1u64 << shift;
    proof {
        // m < pow2(len), so m * pow2(52 - l) < pow2(53).
        lemma_pow2_adds(len as nat, shift as nat);
        lemma_pow2_pos(shift as nat);
        assert((m as nat) * pow2(shift as nat) < pow2(len as nat) * pow2(shift as nat))
            by (nonlinear_arith)
            requires
                (m as nat) < pow2(len as nat),
                pow2(shift as nat) > 0,
        ;
        assert(pow2((len + shift) as nat) == pow2(53)) by {
            assert(len + shift == 53);
        }
    }
    (970 + l) * 0x10000000000000 + m * scale
}

/// The value bit pattern is always strictly below the pattern of `1.0`
/// (which is `0x3FF0000000000000`), and its sign bit is clear: as a double
/// it lies in `[0, 1)`.
pub proof fn lemma_value_bits_domain(m: u64)
    requires
        m < 0x10000000000000,
    ensures
        spec_value_bits(m) < 0x3FF0000000000000,
{
    if m != 0 {
        lemma2_to64_rest();
        lemma_bitlen_le(m as nat, 52);
        lemma_bitlen_bounds(m as nat);
        let l = (bitlen(m as nat) - 1) as nat;
        let sh = (52 - l) as nat;
        lemma_pow2_adds(bitlen(m as nat), sh);
        lemma_pow2_pos(sh);
        assert((m as nat) * pow2(sh) < pow2(bitlen(m as nat)) * pow2(sh)) by (nonlinear_arith)
            requires
                (m as nat) < pow2(bitlen(m as nat)),
                pow2(sh) > 0,
        ;
        assert(pow2((bitlen(m as nat) + sh) as nat) == pow2(53)) by {
            assert(bitlen(m as nat) + sh == 53);
        }
        lemma_pow2_unfold(53);
    }
}

/// In the modern mode the mantissa is the top 52 bits of the first state
/// word, so the value depends on those bits alone.
pub proof fn lemma_value_bits_top_bits(a: u64, b: u64)
    requires
        a >> 12 == b >> 12,
    ensures
        spec_value_bits(a >> 12) == spec_value_bits(b >> 12),
{
}

/// Round `p` to 53 significant bits, to the nearest, ties to even: the
/// significand rounding a double multiplication performs on the exact
/// product `p * 2^-52`.
pub open spec fn spec_round53(p: u64) -> nat {
    if p < 0x20000000000000 {
        p as nat
    } else {
        let sh = (bitlen(p as nat) - 53) as nat;
        let pw = pow2(sh);
        let base = (p as nat) / pw;
        let low = (p as nat) % pw;
        if 2 * low > pw || (2 * low == pw && base % 2 == 1) {
            (base + 1) * pw
        } else {
            base * pw
        }
    }
}

/// The index the host draws from a value with mantissa `m` and `n` options:
/// the double product `(m * 2^-52) * n`, rounded as IEEE multiplication
/// rounds, then truncated to an integer.
pub open spec fn spec_pick(m: u64, n: u64) -> nat {
    spec_round53((m * n) as u64) / pow2(52)
}

/// Compute `spec_pick` executably. The result is always a valid index:
/// strictly below `n`.
pub fn pick_index(m: u64, n: u64) -> (idx: u64)
    requires
        m < 0x10000000000000,
        1 <= n <= 1024,
    ensures
        idx as nat == spec_pick(m, n),
        idx < n,
{
    proof {
        lemma2_to64_rest();
        assert((m as nat) * (n as nat) <= (0x10000000000000 - 1) * 1024) by (nonlinear_arith)
            requires
                (m as nat) <= 0x10000000000000 - 1,
                (n as nat) <= 1024,
        ;
        // p <= n * 2^52 - n, since m <= 2^52 - 1.
        assert((m as nat) * (n as nat) <= (n as nat) * 0x10000000000000 - n as nat)
            by (nonlinear_arith)
            requires
                (m as nat) <= 0x10000000000000 - 1,
                1 <= (n as nat),
        ;
    }
    let p = m * n;
    if p < 0x20000000000000 {
        let idx = p / 0x10000000000000;
        if n == 1 {
            assert(p < 0x10000000000000);
        }
        idx
    } else {
        proof {
            lemma_bitlen_bounds(p as nat);
            lemma_bitlen_le(p as nat, 62);
            // p >= 2^53 forces the bit length past 53.
            if bitlen(p as nat) < 53 {
                lemma_pow2_strictly_increases(bitlen(p as nat), 53);
                assert(false);
            }
            if bitlen(p as nat) == 53 {
                assert(false);
            }
        }
        let len = bit_length(p);
        let sh = len - 53;
        proof {
            lemma2_to64();
            assert(pow2(sh as nat) <= pow2(9)) by {
                if (sh as nat) < 9 {
                    lemma_pow2_strictly_increases(sh as nat, 9);
                }
            }
            vstd::bits::lemma_u64_shl_is_mul(1u64, sh);
            lemma_pow2_pos(sh as nat);
        }
        let pw = 1u64 << sh;
        let base = p / pw;
        let low = p % pw;
        proof {
            lemma_pow2_unfold(sh as nat);
        }
        let rounded = if 2 * low > pw || (2 * low == pw && base % 2 == 1) {
            base + 1
        } else {
            base
        };
        proof {
            lemma_fundamental_div_mod(p as int, pw as int);
            // rounded * pw stays within a word: it is at most p + pw.
            assert((rounded as nat) * (pw as nat) <= p as nat + pw as nat) by (nonlinear_arith)
                requires
                    (pw as nat) * ((p as nat) / (pw as nat)) + (p as nat) % (pw as nat)
                        == p as nat,
                    (rounded as nat) <= (p as nat) / (pw as nat) + 1,
                    (p as nat) % (pw as nat) < pw as nat,
            ;
        }
        let q = rounded * pw;
        proof {
            lemma_pick_in_range(m, n, p, pw as nat, base as nat, low as nat, q as nat);
        }
        let idx = q / 0x10000000000000;
        idx
    }
}

/// The rounded product stays strictly below `n * 2^52`, so the truncated
/// index is strictly below `n`.
proof fn lemma_pick_in_range(m: u64, n: u64, p: u64, pw: nat, base: nat, low: nat, q: nat)
    requires
        m < 0x10000000000000,
        1 <= n <= 1024,
        p == m * n,
        p >= 0x20000000000000,
        pw == pow2((bitlen(p as nat) - 53) as nat),
        bitlen(p as nat) > 53,
        base == p as nat / pw,
        low == p as nat % pw,
        q == base * pw || (q == (base + 1) * pw && 2 * low >= pw),
    ensures
        q / pow2(52) < n,
        q / 0x10000000000000 == q / pow2(52),
{
    lemma2_to64_rest();
    lemma_pow2_pos((bitlen(p as nat) - 53) as nat);
    lemma_fundamental_div_mod(p as int, pw as int);
    // p <= n * 2^52 - n.
    assert((m as nat) * (n as nat) <= (n as nat) * pow2(52) - n as nat) by (nonlinear_arith)
        requires
            (m as nat) <= pow2(52) - 1,
            1 <= (n as nat),
            pow2(52) == 0x10000000000000,
    ;
    // n >= 2 here: p >= 2^53 > 1 * 2^52 - 1.
    assert(n >= 2);
    lemma_bitlen_bounds(n as nat);
    let bn = bitlen(n as nat);
    assert(bn >= 2) by {
        if bn < 2 {
            lemma2_to64();
            lemma_pow2_unfold(bn);
        }
    }
    // bitlen(p) <= bn + 52, since p < pow2(bn) * pow2(52) = pow2(bn + 52).
    lemma_pow2_adds(bn, 52);
    assert((n as nat) * pow2(52) <= pow2(bn) * pow2(52)) by (nonlinear_arith)
        requires
            (n as nat) < pow2(bn),
            pow2(52) > 0,
    ;
    lemma_bitlen_le(p as nat, bn + 52);
    let sh = (bitlen(p as nat) - 53) as nat;
    assert(sh + 1 <= bn - 1 + 1);
    // pw/2 = pow2(sh - 1) <= pow2(bn - 2) <= n/2 < n.
    assert(sh >= 1) by {
        lemma_pow2_unfold(53);
        if sh == 0 {
            lemma_bitlen_bounds(p as nat);
        }
    }
    lemma_pow2_unfold(sh);
    assert(pow2((sh - 1) as nat) <= pow2((bn - 2) as nat)) by {
        if sh - 1 < bn - 2 {
            lemma_pow2_strictly_increases((sh - 1) as nat, (bn - 2) as nat);
        }
    }
    lemma_pow2_unfold((bn - 1) as nat);
    // pow2(bn - 1) <= n, so pow2(bn - 2) <= n / 2 (as integers, 2*pow2(bn-2) <= n).
    assert(2 * pow2((sh - 1) as nat) <= n as nat);
    // q <= p + pw/2.
    assert(q <= p as nat + pow2((sh - 1) as nat)) by {
        if q == (base + 1) * pw && 2 * low >= pw {
            assert((base + 1) * pw == base * pw + pw) by (nonlinear_arith);
            assert(base * pw + low == p as nat) by {
                assert(pw * base + low == p as nat);
                assert(pw * base == base * pw) by (nonlinear_arith);
            }
        } else {
            assert(base * pw <= p as nat) by {
                assert(pw * base + low == p as nat);
                assert(pw * base == base * pw) by (nonlinear_arith);
            }
        }
    }
    // Hence q < n * 2^52.
    assert(q < (n as nat) * pow2(52));
    // And the truncated index is below n.
    assert(q / pow2(52) < n as nat) by {
        lemma_fundamental_div_mod_converse(
            ((n as nat) * pow2(52) - 1) as int,
            pow2(52) as int,
            n as int - 1,
            pow2(52) as int - 1,
        );
        vstd::arithmetic::div_mod::lemma_div_is_ordered(
            q as int,
            (n as nat) * pow2(52) - 1,
            pow2(52) as int,
        );
    }
}

} // verus!
