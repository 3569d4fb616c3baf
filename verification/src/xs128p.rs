//! The xorshift128+ recurrence, its inverse, and iterated application.

use vstd::prelude::*;

verus! {

/// One xorshift128+ state: two 64-bit words.
#[derive(Clone, Copy, Debug, PartialEq, Eq, Hash, Structural)]
pub struct Xs128pState(pub u64, pub u64);

/// The scrambling half of the forward recurrence: the word that becomes the
/// new second state word.
pub open spec fn spec_scramble(a: u64, b: u64) -> u64 {
    ((a ^ (a << 23)) ^ ((a ^ (a << 23)) >> 17)) ^ b ^ (b >> 26)
}

/// One forward application of the recurrence.
pub open spec fn spec_xs128p(s: Xs128pState) -> Xs128pState {
    Xs128pState(s.1, spec_scramble(s.0, s.1))
}

/// Undo a `v ^ (v >> 17)` cascade.
pub open spec fn spec_reverse17(v: u64) -> u64 {
    v ^ (v >> 17) ^ (v >> 34) ^ (v >> 51)
}

/// Undo a `v ^ (v << 23)` cascade.
pub open spec fn spec_reverse23(v: u64) -> u64 {
    v ^ (v << 23) ^ (v << 46)
}

/// One reverse application of the recurrence.
pub open spec fn spec_xs128p_rev(s: Xs128pState) -> Xs128pState {
    Xs128pState(spec_reverse23(spec_reverse17(s.1 ^ (s.0 >> 26) ^ s.0)), s.0)
}

/// Advance the state one step.
pub fn xs128p(state: Xs128pState) -> (r: Xs128pState)
    ensures
        r == spec_xs128p(state),
{
    let mut s1 = state.0;
    let s0 = state.1;
    s1 ^= s1 << 23;
    s1 ^= s1 >> 17;
    s1 ^= s0;
    s1 ^= s0 >> 26;
    Xs128pState(state.1, s1)
}

pub fn reverse17(val: u64) -> (r: u64)
    ensures
        r == spec_reverse17(val),
{
    val ^ (val >> 17) ^ (val >> 34) ^ (val >> 51)
}

pub fn reverse23(val: u64) -> (r: u64)
    ensures
        r == spec_reverse23(val),
{
    val ^ (val << 23) ^ (val << 46)
}

/// Step the state one step backwards.
pub fn xs128p_rev(state: Xs128pState) -> (r: Xs128pState)
    ensures
        r == spec_xs128p_rev(state),
{
    let prev_state1 = state.0;
    let mut prev_state0 = state.1 ^ (state.0 >> 26);
    prev_state0 ^= state.0;
    prev_state0 = reverse17(prev_state0);
    prev_state0 = reverse23(prev_state0);
    Xs128pState(prev_state0, prev_state1)
}

/// Stepping backwards undoes stepping forwards.
pub proof fn lemma_rev_of_fwd(s: Xs128pState)
    ensures
        spec_xs128p_rev(spec_xs128p(s)) == s,
{
    let a = s.0;
    let b = s.1;
    let g1 = a ^ (a << 23);
    let g2 = g1 ^ (g1 >> 17);
    // The two xors of `b` cancel, leaving the seventeen-shift cascade.
    assert(((g2 ^ b ^ (b >> 26)) ^ (b >> 26) ^ b) == g2) by (bit_vector);
    assert(spec_reverse17(g2) == g1) by {
        assert((g1 ^ (g1 >> 17)) ^ ((g1 ^ (g1 >> 17)) >> 17) ^ ((g1 ^ (g1 >> 17)) >> 34) ^ ((g1
            ^ (g1 >> 17)) >> 51) == g1) by (bit_vector);
    }
    assert(spec_reverse23(g1) == a) by {
        assert((a ^ (a << 23)) ^ ((a ^ (a << 23)) << 23) ^ ((a ^ (a << 23)) << 46) == a)
            by (bit_vector);
    }
}

/// Stepping forwards undoes stepping backwards.
pub proof fn lemma_fwd_of_rev(s: Xs128pState)
    ensures
        spec_xs128p(spec_xs128p_rev(s)) == s,
{
    let c = s.0;
    let d = s.1;
    let e = d ^ (c >> 26) ^ c;
    let m = spec_reverse17(e);
    let p0 = spec_reverse23(m);
    assert(p0 ^ (p0 << 23) == m) by {
        assert((m ^ (m << 23) ^ (m << 46)) ^ ((m ^ (m << 23) ^ (m << 46)) << 23) == m)
            by (bit_vector);
    }
    let g1 = p0 ^ (p0 << 23);
    assert(g1 ^ (g1 >> 17) == e) by {
        assert((e ^ (e >> 17) ^ (e >> 34) ^ (e >> 51)) ^ ((e ^ (e >> 17) ^ (e >> 34) ^ (e
            >> 51)) >> 17) == e) by (bit_vector);
    }
    assert(spec_scramble(p0, c) == d) by {
        let dd = d;
        let cc = c;
        assert(((dd ^ (cc >> 26) ^ cc) ^ cc ^ (cc >> 26)) == dd) by (bit_vector);
    }
}

/// The state after `n` applications of the recurrence: forwards when `n` is
/// positive, backwards when it is negative.
pub open spec fn xs_iter(s: Xs128pState, n: int) -> Xs128pState
    decreases vstd::math::abs(n),
{
    if n == 0 {
        s
    } else if n > 0 {
        spec_xs128p(xs_iter(s, n - 1))
    } else {
        spec_xs128p_rev(xs_iter(s, n + 1))
    }
}

/// Unfolding `xs_iter` by one forward step, valid for every `n`.
pub proof fn lemma_xs_iter_succ(s: Xs128pState, n: int)
    ensures
        xs_iter(s, n + 1) == spec_xs128p(xs_iter(s, n)),
    decreases vstd::math::abs(n),
{
    if n >= 0 {
    } else {
        // xs_iter(s, n) == rev(xs_iter(s, n + 1)); apply the forward map.
        lemma_fwd_of_rev(xs_iter(s, n + 1));
    }
}

/// Unfolding `xs_iter` by one backward step, valid for every `n`.
pub proof fn lemma_xs_iter_pred(s: Xs128pState, n: int)
    ensures
        xs_iter(s, n - 1) == spec_xs128p_rev(xs_iter(s, n)),
{
    if n <= 0 {
    } else {
        lemma_xs_iter_succ(s, n - 1);
        lemma_rev_of_fwd(xs_iter(s, n - 1));
    }
}

/// Iteration is additive: stepping by `a` and then by `b` is stepping by
/// `a + b`.
pub proof fn lemma_xs_iter_add(s: Xs128pState, a: int, b: int)
    ensures
        xs_iter(xs_iter(s, a), b) == xs_iter(s, a + b),
    decreases vstd::math::abs(b),
{
    if b == 0 {
    } else if b > 0 {
        lemma_xs_iter_add(s, a, b - 1);
        lemma_xs_iter_succ(s, a + b - 1);
    } else {
        lemma_xs_iter_add(s, a, b + 1);
        lemma_xs_iter_pred(s, a + b + 1);
    }
}

} // verus!
