//! The replayable generator: xorshift128+ state plus a block offset, with
//! arbitrary-step arithmetic and checkpoint search.
//!
//! Values are produced in blocks of `B` recurrence results read in reverse
//! index order (`B` is 64, or 62 in the historical "v10" mode), so stepping
//! the logical position by `k` draws must move the recurrence and the
//! in-block offset together; `calculate_steps` does that bookkeeping with
//! Euclidean rounding throughout.

use vstd::prelude::*;
use vstd::arithmetic::div_mod::{
    lemma_fundamental_div_mod, lemma_fundamental_div_mod_converse, lemma_mod_bound,
    lemma_small_mod,
};
use vstd::string::{StrSliceExecFns, StringExecFns};
use crate::xs128p::{
    lemma_xs_iter_add, spec_xs128p, spec_xs128p_rev, xs128p, xs128p_rev, xs_iter, Xs128pState,
};

verus! {

/// A position in the draw stream: a recurrence state, the in-block offset,
/// and the flag selecting the historical value-extraction scheme.
#[derive(Clone, Copy, Debug, PartialEq, Eq, Hash, Structural)]
pub struct Rng {
    pub state: Xs128pState,
    pub offset: i32,
    pub v10: bool,
}

/// Draws per block: 62 in "v10" mode, 64 otherwise.
pub open spec fn spec_block_size(v10: bool) -> int {
    if v10 {
        62
    } else {
        64
    }
}

/// How many recurrence applications a step by `k` draws requires
/// (negative means reverse applications), per the block bookkeeping.
pub open spec fn spec_raw_steps(o: int, k: int, b: int) -> int {
    -((o - k) / b) * b * 2 - k
}

/// The in-block offset after a step by `k` draws.
pub open spec fn spec_new_offset(o: int, k: int, b: int) -> int {
    (o - k) % b
}

impl Rng {
    /// The offset is always kept normalized into the current block.
    pub open spec fn wf(self) -> bool {
        0 <= self.offset < spec_block_size(self.v10)
    }

    /// The generator after a step by `k` draws.
    pub open spec fn spec_step(self, k: int) -> Rng {
        let b = spec_block_size(self.v10);
        Rng {
            state: xs_iter(self.state, spec_raw_steps(self.offset as int, k, b)),
            offset: spec_new_offset(self.offset as int, k, b) as i32,
            v10: self.v10,
        }
    }
}

/// Euclidean quotient and remainder of `t` by `b`, matching the `int`
/// division and modulo of the specification language.
fn ediv_emod_i64(t: i64, b: i64) -> (r: (i64, i64))
    requires
        1 <= b <= 64,
        -0x4000_0000_0000_0000 <= t <= 0x4000_0000_0000_0000,
    ensures
        r.0 == t as int / b as int,
        r.1 == t as int % b as int,
        0 <= r.1 < b,
        b as int * r.0 + r.1 == t,
        t >= 0 ==> 0 <= r.0 <= t,
        t < 0 ==> t - 63 <= r.0 <= 0,
{
    if t >= 0 {
        let q = ((t as u64) / (b as u64)) as i64;
        let m = ((t as u64) % (b as u64)) as i64;
        proof {
            lemma_fundamental_div_mod(t as int, b as int);
            lemma_mod_bound(t as int, b as int);
            vstd::arithmetic::div_mod::lemma_div_nonincreasing(t as int, b as int);
            vstd::arithmetic::div_mod::lemma_div_pos_is_pos(t as int, b as int);
        }
        (q, m)
    } else {
        let u = (-t) as u64;
        let ghost c0 = (u + b - 1) / (b as int);
        proof {
            lemma_fundamental_div_mod(u + b - 1, b as int);
            lemma_mod_bound(u + b - 1, b as int);
            vstd::arithmetic::div_mod::lemma_div_nonincreasing(u + b - 1, b as int);
            vstd::arithmetic::div_mod::lemma_div_pos_is_pos(u + b - 1, b as int);
        }
        let c = (u + (b as u64) - 1) / (b as u64);
        let ghost m0 = (u + b - 1) % (b as int);
        proof {
            assert(b as int * (-c0) == -(b as int * c0)) by (nonlinear_arith);
            assert(t as int == b as int * (-c0) + (b - 1 - m0));
            lemma_fundamental_div_mod_converse(t as int, b as int, -c0, b - 1 - m0);
        }
        let q = -(c as i64);
        let m = (b - 1) - ((u + (b as u64) - 1) % (b as u64)) as i64;
        (q, m)
    }
}

/// Normalize a block offset by Euclidean modulus 64.
pub fn normalize_offset(offset: i32) -> (r: i32)
    ensures
        r == offset as int % 64,
        0 <= r < 64,
{
    let (_, m) = ediv_emod_i64(offset as i64, 64);
    m as i32
}

/// Compute the recurrence applications and the new in-block offset for a
/// step by `requested_steps` draws from offset `current_offset`.
pub fn calculate_steps(current_offset: i32, requested_steps: i32, block_size: i32) -> (r: (
    i32,
    i32,
))
    requires
        0 <= current_offset < block_size,
        block_size <= 64,
        -0x7FFF_FF00 <= requested_steps <= 0x7FFF_FF00,
    ensures
        r.0 == spec_raw_steps(current_offset as int, requested_steps as int, block_size as int),
        r.1 == spec_new_offset(current_offset as int, requested_steps as int, block_size as int),
        0 <= r.1 < block_size,
{
    let t: i64 = current_offset as i64 - requested_steps as i64;
    let (d, m) = ediv_emod_i64(t, block_size as i64);
    proof {
        // b * d + m == t pins the product: the block term is 2m - 2t.
        assert((-(d as int)) * (block_size as int) * 2 == 2 * (m as int) - 2 * (t as int))
            by (nonlinear_arith)
            requires
                block_size as int * d as int + m as int == t as int,
        ;
    }
    let total_blocks: i64 = -d;
    let block_steps: i64 = total_blocks * (block_size as i64) * 2;
    let total: i64 = block_steps - requested_steps as i64;
    (total as i32, m as i32)
}

impl Rng {
    /// A fresh generator in the modern mode, with the offset normalized.
    pub fn new(state: Xs128pState, offset: i32) -> (r: Rng)
        ensures
            r.state == state,
            r.offset == offset as int % 64,
            r.v10 == false,
            r.wf(),
    {
        Rng { state, offset: normalize_offset(offset), v10: false }
    }

    pub fn state_tuple(&self) -> (r: (u64, u64, i32))
        ensures
            r == (self.state.0, self.state.1, self.offset),
    {
        (self.state.0, self.state.1, self.offset)
    }

    /// Apply the recurrence `steps` times: forwards when positive,
    /// backwards when negative. The offset is untouched.
    pub fn step_raw(&mut self, steps: i32)
        requires
            steps > i32::MIN,
        ensures
            final(self).state == xs_iter(old(self).state, steps as int),
            final(self).offset == old(self).offset,
            final(self).v10 == old(self).v10,
    {
        if steps > 0 {
            let mut j: i32 = 0;
            while j < steps
                invariant
                    0 <= j <= steps,
                    self.state == xs_iter(old(self).state, j as int),
                    self.offset == old(self).offset,
                    self.v10 == old(self).v10,
                decreases steps - j,
            {
                self.state = xs128p(self.state);
                j += 1;
            }
        } else {
            let n = -steps;
            let mut j: i32 = 0;
            while j < n
                invariant
                    0 <= j <= n,
                    self.state == xs_iter(old(self).state, -(j as int)),
                    self.offset == old(self).offset,
                    self.v10 == old(self).v10,
                decreases n - j,
            {
                self.state = xs128p_rev(self.state);
                j += 1;
            }
        }
    }

    /// Move the logical position by `steps` draws.
    pub fn step(&mut self, steps: i32)
        requires
            old(self).wf(),
            -0x7FFF_FF00 <= steps <= 0x7FFF_FF00,
        ensures
            *final(self) == old(self).spec_step(steps as int),
            final(self).wf(),
    {
        let block_size: i32 = if self.v10 {
            62
        } else {
            64
        };
        let (total_steps, new_offset) = calculate_steps(self.offset, steps, block_size);
        self.step_raw(total_steps);
        self.offset = new_offset;
    }
}

/// Stepping by zero draws changes nothing.
pub proof fn lemma_step_zero(r: Rng)
    requires
        r.wf(),
    ensures
        r.spec_step(0) == r,
{
    let b = spec_block_size(r.v10);
    lemma_small_mod(r.offset as nat, b as nat);
    lemma_fundamental_div_mod_converse(r.offset as int, b, 0, r.offset as int);
}

/// Two consecutive steps combine into one: block and offset bookkeeping
/// composes additively.
pub proof fn lemma_step_additive(r: Rng, a: int, b: int)
    requires
        r.wf(),
    ensures
        r.spec_step(a).wf(),
        r.spec_step(a).spec_step(b) == r.spec_step(a + b),
{
    let bs = spec_block_size(r.v10);
    let o = r.offset as int;
    let d1 = (o - a) / bs;
    let o1 = (o - a) % bs;
    lemma_fundamental_div_mod(o - a, bs);
    lemma_mod_bound(o - a, bs);
    let d2 = (o1 - b) / bs;
    let o2 = (o1 - b) % bs;
    lemma_fundamental_div_mod(o1 - b, bs);
    lemma_mod_bound(o1 - b, bs);
    assert(o - (a + b) == (d1 + d2) * bs + o2) by {
        assert(o - a == bs * d1 + o1);
        assert(o1 - b == bs * d2 + o2);
        assert((d1 + d2) * bs == d1 * bs + d2 * bs) by (nonlinear_arith);
        assert(bs * d1 == d1 * bs) by (nonlinear_arith);
        assert(bs * d2 == d2 * bs) by (nonlinear_arith);
    }
    lemma_fundamental_div_mod_converse(o - (a + b), bs, d1 + d2, o2);
    let rs1 = spec_raw_steps(o, a, bs);
    let rs2 = spec_raw_steps(o1, b, bs);
    assert(rs1 + rs2 == spec_raw_steps(o, a + b, bs)) by {
        assert(-(d1 + d2) * bs == -d1 * bs + -d2 * bs) by (nonlinear_arith);
    }
    lemma_xs_iter_add(r.state, rs1, rs2);
}

/// Stepping forward and then back by the same count restores the
/// generator exactly, state and offset alike, for every step count.
pub proof fn lemma_step_symmetry(r: Rng, k: int)
    requires
        r.wf(),
    ensures
        r.spec_step(k).spec_step(-k) == r,
{
    lemma_step_additive(r, k, -k);
    lemma_step_zero(r);
}

/// A step by `k` is exactly `spec_raw_steps` recurrence applications
/// together with the Euclidean offset update: the block bookkeeping in
/// `spec_step` is nothing more than that pair.
pub proof fn lemma_step_block_consistency(r: Rng, k: int)
    requires
        r.wf(),
    ensures
        r.spec_step(k).state == xs_iter(
            r.state,
            spec_raw_steps(r.offset as int, k, spec_block_size(r.v10)),
        ),
        r.spec_step(k).offset == (r.offset as int - k) % spec_block_size(r.v10),
        r.spec_step(k).v10 == r.v10,
{
    lemma_mod_bound(r.offset as int - k, spec_block_size(r.v10));
}

/// The mantissa a value is built from: in the modern scheme the top 52 bits
/// of the first state word; in the "v10" scheme the low 52 bits of the
/// wrapping sum of both words.
pub open spec fn spec_rng_mantissa(r: Rng) -> u64 {
    if r.v10 {
        vstd::wrapping::u64_specs::wrapping_add(r.state.0, r.state.1) & 0xFFFFFFFFFFFFFu64
    } else {
        r.state.0 >> 12
    }
}

impl Rng {
    /// The IEEE 754 bit pattern of the double this position yields.
    pub open spec fn spec_value_bits(self) -> u64 {
        crate::dblbits::spec_value_bits(spec_rng_mantissa(self))
    }

    /// The mantissa of the current value.
    pub fn mantissa(&self) -> (r: u64)
        ensures
            r == spec_rng_mantissa(*self),
            r < 0x10000000000000,
    {
        proof {
            lemma_rng_mantissa_fits(*self);
        }
        if self.v10 {
            self.state.0.wrapping_add(self.state.1) & 0xFFFFFFFFFFFFF
        } else {
            self.state.0 >> 12
        }
    }

    /// Extract the current value, as the bit pattern of a double in `[0, 1)`.
    pub fn value_bits(&self) -> (r: u64)
        ensures
            r == self.spec_value_bits(),
    {
        crate::dblbits::value_bits_from_mantissa(self.mantissa())
    }

    /// Advance one draw and extract the value there.
    pub fn next_value_bits(&mut self) -> (r: u64)
        requires
            old(self).wf(),
        ensures
            *final(self) == old(self).spec_step(1),
            final(self).wf(),
            r == final(self).spec_value_bits(),
    {
        self.step(1);
        self.value_bits()
    }
}

/// The mantissa always fits in 52 bits.
pub proof fn lemma_rng_mantissa_fits(r: Rng)
    ensures
        spec_rng_mantissa(r) < 0x10000000000000,
{
    let x = vstd::wrapping::u64_specs::wrapping_add(r.state.0, r.state.1);
    assert(x & 0xFFFFFFFFFFFFFu64 < 0x10000000000000u64) by (bit_vector);
    let a = r.state.0;
    assert(a >> 12u64 < 0x10000000000000u64) by (bit_vector);
}

/// Every value lies in `[0, 1)`: its bit pattern has a clear sign bit and
/// sits strictly below the pattern of `1.0`.
pub proof fn lemma_value_domain(r: Rng)
    ensures
        r.spec_value_bits() < 0x3FF0000000000000,
{
    lemma_rng_mantissa_fits(r);
    crate::dblbits::lemma_value_bits_domain(spec_rng_mantissa(r));
}

/// In the modern mode the value depends only on the top 52 bits of the
/// first state word.
pub proof fn lemma_value_top_bits(a: Rng, b: Rng)
    requires
        !a.v10,
        !b.v10,
        a.state.0 >> 12 == b.state.0 >> 12,
    ensures
        a.spec_value_bits() == b.spec_value_bits(),
{
}

/// The serialized form `(s0, s1)+o`.
pub open spec fn spec_state_string(r: Rng) -> Seq<char> {
    "("@ + crate::numeral::spec_dec(r.state.0 as nat) + ", "@ + crate::numeral::spec_dec(
        r.state.1 as nat,
    ) + ")+"@ + crate::numeral::spec_dec(r.offset as nat)
}

impl Rng {
    /// Render the position in its serialized form `(s0, s1)+o`.
    pub fn state_string(&self) -> (s: String)
        requires
            self.wf(),
        ensures
            s@ == spec_state_string(*self),
    {
        let mut s = String::new();
        s.append("(");
        s.append(crate::numeral::u64_to_string(self.state.0).as_str());
        s.append(", ");
        s.append(crate::numeral::u64_to_string(self.state.1).as_str());
        s.append(")+");
        s.append(crate::numeral::u64_to_string(self.offset as u64).as_str());
        s
    }
}

/// Why a serialized generator string was rejected: the grammar
/// `(s0, s1)+o` did not match, or an integer in it overflowed its type.
#[derive(Clone, Copy, Debug, PartialEq, Eq, Structural)]
pub enum RngDeserializeError {
    ParseError,
    ParseIntError,
}

/// What parsing a serialized generator string yields: the grammar is
/// `"(" digits "," [" "] digits ")+" digits` to the end of the input, with
/// each digit run maximal; the two words must fit in a `u64` and the offset
/// in an `i32`; the offset is then normalized as `Rng::new` normalizes it.
pub open spec fn spec_parse_rng(s: Seq<char>) -> Result<Rng, RngDeserializeError> {
    let len = s.len() as int;
    if len < 1 || s[0] != '(' {
        Err(RngDeserializeError::ParseError)
    } else {
        let e0 = crate::numeral::digit_run_end(s, 1);
        if e0 == 1 || e0 >= len || s[e0] != ',' {
            Err(RngDeserializeError::ParseError)
        } else {
            let q = if e0 + 1 < len && s[e0 + 1] == ' ' {
                e0 + 2
            } else {
                e0 + 1
            };
            let e1 = crate::numeral::digit_run_end(s, q);
            if e1 == q || e1 + 2 > len || s[e1] != ')' || s[e1 + 1] != '+' {
                Err(RngDeserializeError::ParseError)
            } else {
                let e2 = crate::numeral::digit_run_end(s, e1 + 2);
                if e2 == e1 + 2 || e2 != len {
                    Err(RngDeserializeError::ParseError)
                } else {
                    let v0 = crate::numeral::dec_val(s.subrange(1, e0));
                    let v1 = crate::numeral::dec_val(s.subrange(q, e1));
                    let v2 = crate::numeral::dec_val(s.subrange(e1 + 2, e2));
                    if v0 > u64::MAX || v1 > u64::MAX || v2 > i32::MAX {
                        Err(RngDeserializeError::ParseIntError)
                    } else {
                        Ok(
                            Rng {
                                state: Xs128pState(v0 as u64, v1 as u64),
                                offset: ((v2 as int) % 64) as i32,
                                v10: false,
                            },
                        )
                    }
                }
            }
        }
    }
}

/// Build a generator from three strings of decimal digits: the two state
/// words and the offset. Fails when a string is empty, holds a non-digit,
/// or overflows its type.
pub fn rng_from_strs(s0: &str, s1: &str, o: &str) -> (r: Result<Rng, RngDeserializeError>)
    ensures
        ({
            let ok = crate::numeral::all_dec_digits(s0@) && s0@.len() >= 1
                && crate::numeral::dec_val(s0@) <= u64::MAX && crate::numeral::all_dec_digits(s1@)
                && s1@.len() >= 1 && crate::numeral::dec_val(s1@) <= u64::MAX
                && crate::numeral::all_dec_digits(o@) && o@.len() >= 1 && crate::numeral::dec_val(
                o@,
            ) <= i32::MAX;
            &&& r is Ok <==> ok
            &&& ok ==> r == Ok::<Rng, RngDeserializeError>(
                Rng {
                    state: Xs128pState(
                        crate::numeral::dec_val(s0@) as u64,
                        crate::numeral::dec_val(s1@) as u64,
                    ),
                    offset: ((crate::numeral::dec_val(o@) as int) % 64) as i32,
                    v10: false,
                },
            )
        }),
{
    let w0 = match parse_all_digits_u64(s0) {
        Some(v) => v,
        None => {
            return Err(RngDeserializeError::ParseIntError);
        },
    };
    let w1 = match parse_all_digits_u64(s1) {
        Some(v) => v,
        None => {
            return Err(RngDeserializeError::ParseIntError);
        },
    };
    let wo = match parse_all_digits_u64(o) {
        Some(v) => v,
        None => {
            return Err(RngDeserializeError::ParseIntError);
        },
    };
    if wo > 0x7FFF_FFFF {
        return Err(RngDeserializeError::ParseIntError);
    }
    Ok(Rng::new(Xs128pState(w0, w1), wo as i32))
}

/// Read a whole string as a decimal `u64`: every character must be a digit,
/// there must be at least one, and the value must fit.
fn parse_all_digits_u64(s: &str) -> (r: Option<u64>)
    ensures
        ({
            let ok = crate::numeral::all_dec_digits(s@) && s@.len() >= 1
                && crate::numeral::dec_val(s@) <= u64::MAX;
            &&& r is Some <==> ok
            &&& ok ==> r == Some((crate::numeral::dec_val(s@) as u64))
        }),
{
    let len = s.unicode_len();
    let (end, v) = crate::numeral::scan_digits(s, 0);
    proof {
        assert(s@.subrange(0, s@.len() as int) =~= s@);
        if end < len && crate::numeral::all_dec_digits(s@) {
            assert(crate::numeral::is_dec_digit(s@[end as int]));
        }
        if end == len {
            assert(crate::numeral::all_dec_digits(s@));
        }
    }
    if end != len || len == 0 {
        return None;
    }
    v
}

/// Parse the serialized form `(s0, s1)+o` back into a generator. The
/// result is exactly what `spec_parse_rng` prescribes: a grammar mismatch
/// is `ParseError`, an integer out of range is `ParseIntError`.
pub fn parse_rng_str(s: &str) -> (r: Result<Rng, RngDeserializeError>)
    ensures
        r == spec_parse_rng(s@),
{
    let len = s.unicode_len();
    if len < 1 || s.get_char(0) != '(' {
        return Err(RngDeserializeError::ParseError);
    }
    let (e0, v0) = crate::numeral::scan_digits(s, 1);
    if e0 == 1 || e0 >= len || s.get_char(e0) != ',' {
        return Err(RngDeserializeError::ParseError);
    }
    let q = if e0 + 1 < len && s.get_char(e0 + 1) == ' ' {
        e0 + 2
    } else {
        e0 + 1
    };
    let (e1, v1) = crate::numeral::scan_digits(s, q);
    if e1 == q || len - e1 < 2 || s.get_char(e1) != ')' || s.get_char(e1 + 1) != '+' {
        return Err(RngDeserializeError::ParseError);
    }
    let (e2, v2) = crate::numeral::scan_digits(s, e1 + 2);
    if e2 == e1 + 2 || e2 != len {
        return Err(RngDeserializeError::ParseError);
    }
    let w0 = match v0 {
        Some(v) => v,
        None => {
            return Err(RngDeserializeError::ParseIntError);
        },
    };
    let w1 = match v1 {
        Some(v) => v,
        None => {
            return Err(RngDeserializeError::ParseIntError);
        },
    };
    let wo = match v2 {
        Some(v) if v <= 0x7FFF_FFFF => v,
        _ => {
            return Err(RngDeserializeError::ParseIntError);
        },
    };
    Ok(Rng::new(Xs128pState(w0, w1), wo as i32))
}

/// The serializer and the parser are inverse: parsing a rendered position
/// gives the position back, exactly.
pub proof fn lemma_state_string_roundtrip(r: Rng)
    requires
        r.wf(),
        !r.v10,
    ensures
        spec_parse_rng(spec_state_string(r)) == Ok::<Rng, RngDeserializeError>(r),
{
    reveal_strlit("(");
    reveal_strlit(", ");
    reveal_strlit(")+");
    let d0 = crate::numeral::spec_dec(r.state.0 as nat);
    let d1 = crate::numeral::spec_dec(r.state.1 as nat);
    let d2 = crate::numeral::spec_dec(r.offset as nat);
    crate::numeral::lemma_spec_dec_digits(r.state.0 as nat);
    crate::numeral::lemma_spec_dec_digits(r.state.1 as nat);
    crate::numeral::lemma_spec_dec_digits(r.offset as nat);
    crate::numeral::lemma_dec_roundtrip(r.state.0 as nat);
    crate::numeral::lemma_dec_roundtrip(r.state.1 as nat);
    crate::numeral::lemma_dec_roundtrip(r.offset as nat);
    let s = spec_state_string(r);
    let e0 = 1 + d0.len() as int;
    let q = e0 + 2;
    let e1 = q + d1.len() as int;
    let e2 = e1 + 2 + d2.len() as int;
    assert(s.len() == e2);
    assert(s[0] == '(');
    assert forall|k: int| 1 <= k < e0 implies crate::numeral::is_dec_digit(#[trigger] s[k]) by {
        assert(s[k] == d0[k - 1]);
    }
    assert(s[e0] == ',' && s[e0 + 1] == ' ');
    assert(!crate::numeral::is_dec_digit(','));
    crate::numeral::lemma_digit_run_end(s, 1, e0);
    assert forall|k: int| q <= k < e1 implies crate::numeral::is_dec_digit(#[trigger] s[k]) by {
        assert(s[k] == d1[k - q]);
    }
    assert(s[e1] == ')' && s[e1 + 1] == '+');
    crate::numeral::lemma_digit_run_end(s, q, e1);
    assert forall|k: int| e1 + 2 <= k < e2 implies crate::numeral::is_dec_digit(
        #[trigger] s[k],
    ) by {
        assert(s[k] == d2[k - (e1 + 2)]);
    }
    crate::numeral::lemma_digit_run_end(s, e1 + 2, e2);
    assert(s.subrange(1, e0) =~= d0);
    assert(s.subrange(q, e1) =~= d1);
    assert(s.subrange(e1 + 2, e2) =~= d2);
    lemma_small_mod(r.offset as nat, 64);
}

/// Default checkpoint predicate width.
pub const CHECKPOINT_BITS: u64 = 20;

/// The low `CHECKPOINT_BITS` bits, all set.
pub const CHECKPOINT_MASK: u64 = 0xFFFFF;

/// The mask selecting the low `bits` bits of a word.
pub open spec fn spec_checkpoint_mask(bits: u64) -> u64 {
    ((1u64 << bits) - 1) as u64
}

/// A checkpoint state: the low `bits` bits of the first word are zero.
pub open spec fn spec_is_checkpoint_bits(s: Xs128pState, bits: u64) -> bool {
    s.0 & spec_checkpoint_mask(bits) == 0
}

pub fn is_checkpoint_bits(state: Xs128pState, bits: usize) -> (r: bool)
    requires
        bits < 64,
    ensures
        r == spec_is_checkpoint_bits(state, bits as u64),
{
    proof {
        let b = bits as u64;
        assert(b < 64 ==> (1u64 << b) >= 1) by (bit_vector);
    }
    let mask = (1u64 << (bits as u64)) - 1;
    (state.0 & mask) == 0
}

pub fn is_checkpoint(state: Xs128pState) -> (r: bool)
    ensures
        r == spec_is_checkpoint_bits(state, CHECKPOINT_BITS),
{
    proof {
        assert((1u64 << 20u64) - 1 == 0xFFFFFu64) by (bit_vector);
    }
    (state.0 & CHECKPOINT_MASK) == 0
}

impl Rng {
    /// Step backwards at least once, until the low `bits` of the first
    /// state word are zero, and return the distance travelled. The distance
    /// is minimal: every strictly earlier backward position fails the
    /// predicate. (If no checkpoint is ever found the search gives up when
    /// the distance counter saturates; the predicate clause below is then
    /// vacuous.)
    pub fn seek_prev_checkpoint(&mut self, bits: usize) -> (steps: usize)
        requires
            old(self).wf(),
            bits < 64,
        ensures
            1 <= steps,
            *final(self) == old(self).spec_step(-(steps as int)),
            final(self).wf(),
            steps < usize::MAX ==> spec_is_checkpoint_bits(final(self).state, bits as u64),
            forall|j: int|
                -(steps as int) < j <= -1 ==> !spec_is_checkpoint_bits(
                    old(self).spec_step(j).state,
                    bits as u64,
                ),
    {
        proof {
            lemma_step_additive(*old(self), 0, -1);
            lemma_step_zero(*old(self));
        }
        self.step(-1);
        let mut steps: usize = 1;
        loop
            invariant
                old(self).wf(),
                bits < 64,
                1 <= steps <= usize::MAX,
                *self == old(self).spec_step(-(steps as int)),
                self.wf(),
                forall|j: int|
                    -(steps as int) < j <= -1 ==> !spec_is_checkpoint_bits(
                        old(self).spec_step(j).state,
                        bits as u64,
                    ),
            ensures
                1 <= steps <= usize::MAX,
                *self == old(self).spec_step(-(steps as int)),
                self.wf(),
                steps < usize::MAX ==> spec_is_checkpoint_bits(self.state, bits as u64),
                forall|j: int|
                    -(steps as int) < j <= -1 ==> !spec_is_checkpoint_bits(
                        old(self).spec_step(j).state,
                        bits as u64,
                    ),
            decreases usize::MAX - steps,
        {
            if is_checkpoint_bits(self.state, bits) {
                break ;
            }
            if steps == usize::MAX {
                break ;
            }
            proof {
                lemma_step_additive(*old(self), -(steps as int), -1);
            }
            self.step(-1);
            steps += 1;
        }
        steps
    }

    /// Step forwards at least once, until the low `bits` of the first
    /// state word are zero. The position reached is the nearest such
    /// position ahead (unless the internal distance counter saturates
    /// without a find, in which case the search gives up there).
    pub fn seek_next_checkpoint(&mut self, bits: usize)
        requires
            old(self).wf(),
            bits < 64,
        ensures
            final(self).wf(),
            exists|n: int|
                1 <= n <= usize::MAX && *final(self) == old(self).spec_step(n) && (n < usize::MAX
                    ==> spec_is_checkpoint_bits(final(self).state, bits as u64)) && (forall|j: int|
                    1 <= j < n ==> !spec_is_checkpoint_bits(
                        old(self).spec_step(j).state,
                        bits as u64,
                    )),
    {
        proof {
            lemma_step_additive(*old(self), 0, 1);
            lemma_step_zero(*old(self));
        }
        self.step(1);
        let mut steps: usize = 1;
        loop
            invariant
                old(self).wf(),
                bits < 64,
                1 <= steps <= usize::MAX,
                *self == old(self).spec_step(steps as int),
                self.wf(),
                forall|j: int|
                    1 <= j < steps ==> !spec_is_checkpoint_bits(
                        old(self).spec_step(j).state,
                        bits as u64,
                    ),
            ensures
                1 <= steps <= usize::MAX,
                *self == old(self).spec_step(steps as int),
                self.wf(),
                steps < usize::MAX ==> spec_is_checkpoint_bits(self.state, bits as u64),
                forall|j: int|
                    1 <= j < steps ==> !spec_is_checkpoint_bits(
                        old(self).spec_step(j).state,
                        bits as u64,
                    ),
            decreases usize::MAX - steps,
        {
            if is_checkpoint_bits(self.state, bits) {
                break ;
            }
            if steps == usize::MAX {
                break ;
            }
            proof {
                lemma_step_additive(*old(self), steps as int, 1);
            }
            self.step(1);
            steps += 1;
        }
    }
}

/// Search backwards from `(state, offset)` for the nearest position, the
/// start included, whose state has its low `bits` bits zero. Returns the
/// state found, the distance travelled, and the offset there.
pub fn find_checkpoint_bits(state: Xs128pState, offset: i32, bits: usize) -> (r: (
    Xs128pState,
    i32,
    i32,
))
    requires
        bits < 64,
    ensures
        ({
            let start = Rng { state, offset: (offset as int % 64) as i32, v10: false };
            &&& 0 <= r.1
            &&& r.0 == start.spec_step(-(r.1 as int)).state
            &&& r.2 == start.spec_step(-(r.1 as int)).offset
            &&& r.1 < i32::MAX ==> spec_is_checkpoint_bits(r.0, bits as u64)
            &&& forall|j: int|
                -(r.1 as int) < j <= 0 ==> !spec_is_checkpoint_bits(
                    start.spec_step(j).state,
                    bits as u64,
                )
        }),
{
    let mut distance: i32 = 0;
    let mut rng = Rng::new(state, offset);
    let ghost start = rng;
    proof {
        lemma_step_zero(start);
    }
    loop
        invariant
            bits < 64,
            0 <= distance <= i32::MAX,
            rng == start.spec_step(-(distance as int)),
            rng.wf(),
            start.wf(),
            forall|j: int|
                -(distance as int) < j <= 0 ==> !spec_is_checkpoint_bits(
                    start.spec_step(j).state,
                    bits as u64,
                ),
        ensures
            0 <= distance,
            rng == start.spec_step(-(distance as int)),
            distance < i32::MAX ==> spec_is_checkpoint_bits(rng.state, bits as u64),
            forall|j: int|
                -(distance as int) < j <= 0 ==> !spec_is_checkpoint_bits(
                    start.spec_step(j).state,
                    bits as u64,
                ),
        decreases i32::MAX - distance,
    {
        if is_checkpoint_bits(rng.state, bits) {
            break ;
        }
        if distance == i32::MAX {
            break ;
        }
        proof {
            lemma_step_additive(start, -(distance as int), -1);
        }
        rng.step(-1);
        distance += 1;
    }
    (rng.state, distance, rng.offset)
}

/// `find_checkpoint_bits` with the historical default width of 16 bits.
pub fn find_checkpoint(state: Xs128pState, offset: i32) -> (r: (Xs128pState, i32, i32))
    ensures
        ({
            let start = Rng { state, offset: (offset as int % 64) as i32, v10: false };
            &&& 0 <= r.1
            &&& r.0 == start.spec_step(-(r.1 as int)).state
            &&& r.2 == start.spec_step(-(r.1 as int)).offset
            &&& r.1 < i32::MAX ==> spec_is_checkpoint_bits(r.0, 16)
            &&& forall|j: int|
                -(r.1 as int) < j <= 0 ==> !spec_is_checkpoint_bits(start.spec_step(j).state, 16)
        }),
{
    find_checkpoint_bits(state, offset, 16)
}

} // verus!
