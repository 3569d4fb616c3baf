//! Decimal numerals: rendering unsigned integers as strings and reading
//! digit runs back, with overflow reported rather than wrapped.

use vstd::prelude::*;
use vstd::string::StringExecFns;
use vstd::string::StrSliceExecFns;
use std::borrow::ToOwned;

verus! {

pub open spec fn is_dec_digit(c: char) -> bool {
    '0' <= c && c <= '9'
}

pub open spec fn digit_val(c: char) -> int {
    c as int - '0' as int
}

pub open spec fn dec_digit(d: int) -> char {
    if d == 0 {
        '0'
    } else if d == 1 {
        '1'
    } else if d == 2 {
        '2'
    } else if d == 3 {
        '3'
    } else if d == 4 {
        '4'
    } else if d == 5 {
        '5'
    } else if d == 6 {
        '6'
    } else if d == 7 {
        '7'
    } else if d == 8 {
        '8'
    } else {
        '9'
    }
}

/// The canonical decimal numeral of `n`: no sign, no leading zeros
/// (except for the numeral of zero itself).
pub open spec fn spec_dec(n: nat) -> Seq<char>
    decreases n,
{
    if n < 10 {
        seq![dec_digit(n as int)]
    } else {
        spec_dec(n / 10) + seq![dec_digit((n % 10) as int)]
    }
}

/// The value of a run of decimal digits, most significant first.
pub open spec fn dec_val(s: Seq<char>) -> nat
    decreases s.len(),
{
    if s.len() == 0 {
        0
    } else {
        dec_val(s.drop_last()) * 10 + digit_val(s.last()) as nat
    }
}

pub open spec fn all_dec_digits(s: Seq<char>) -> bool {
    forall|i: int| 0 <= i < s.len() ==> is_dec_digit(#[trigger] s[i])
}

/// The position just past the digit run that starts at `i` (which may be
/// empty).
pub open spec fn digit_run_end(s: Seq<char>, i: int) -> int
    decreases s.len() - i,
{
    if 0 <= i < s.len() && is_dec_digit(s[i]) {
        digit_run_end(s, i + 1)
    } else {
        i
    }
}

/// A range of digits followed by a non-digit (or the end) is exactly the
/// digit run.
pub proof fn lemma_digit_run_end(s: Seq<char>, from: int, to: int)
    requires
        0 <= from <= to <= s.len(),
        forall|k: int| from <= k < to ==> is_dec_digit(#[trigger] s[k]),
        to < s.len() ==> !is_dec_digit(s[to]),
    ensures
        digit_run_end(s, from) == to,
    decreases to - from,
{
    if from < to {
        lemma_digit_run_end(s, from + 1, to);
    }
}

fn digit_str(d: u128) -> (r: &'static str)
    requires
        d < 10,
    ensures
        r@ == seq![dec_digit(d as int)],
{
    proof {
        reveal_strlit("0");
        reveal_strlit("1");
        reveal_strlit("2");
        reveal_strlit("3");
        reveal_strlit("4");
        reveal_strlit("5");
        reveal_strlit("6");
        reveal_strlit("7");
        reveal_strlit("8");
        reveal_strlit("9");
    }
    if d == 0 {
        "0"
    } else if d == 1 {
        "1"
    } else if d == 2 {
        "2"
    } else if d == 3 {
        "3"
    } else if d == 4 {
        "4"
    } else if d == 5 {
        "5"
    } else if d == 6 {
        "6"
    } else if d == 7 {
        "7"
    } else if d == 8 {
        "8"
    } else {
        "9"
    }
}

/// Reading a rendered digit back gives the digit.
pub proof fn lemma_digit_roundtrip(d: int)
    requires
        0 <= d < 10,
    ensures
        digit_val(dec_digit(d)) == d,
{
}

/// Render `n` as its canonical decimal numeral.
pub fn u128_to_string(n: u128) -> (s: String)
    ensures
        s@ == spec_dec(n as nat),
    decreases n,
{
    if n < 10 {
        digit_str(n).to_owned()
    } else {
        let mut s = u128_to_string(n / 10);
        s.append(digit_str(n % 10));
        s
    }
}

/// Render `n` as its canonical decimal numeral.
pub fn u64_to_string(n: u64) -> (s: String)
    ensures
        s@ == spec_dec(n as nat),
{
    u128_to_string(n as u128)
}

/// Every character of a canonical numeral is a digit.
pub proof fn lemma_spec_dec_digits(n: nat)
    ensures
        spec_dec(n).len() >= 1,
        all_dec_digits(spec_dec(n)),
    decreases n,
{
    if n >= 10 {
        lemma_spec_dec_digits(n / 10);
    }
}

/// Reading the canonical numeral back gives the number.
pub proof fn lemma_dec_roundtrip(n: nat)
    ensures
        dec_val(spec_dec(n)) == n,
    decreases n,
{
    reveal_with_fuel(dec_val, 3);
    if n < 10 {
        lemma_digit_roundtrip(n as int);
        assert(spec_dec(n).len() == 1);
        assert(spec_dec(n).drop_last() =~= Seq::<char>::empty());
        assert(spec_dec(n).last() == dec_digit(n as int));
    } else {
        lemma_dec_roundtrip(n / 10);
        lemma_digit_roundtrip((n % 10) as int);
        assert(spec_dec(n).drop_last() =~= spec_dec(n / 10));
        assert(spec_dec(n).last() == dec_digit((n % 10) as int));
    }
}

/// Read the run of decimal digits of `s` that starts at `from`, returning
/// the position just past the run together with the run's value, or `None`
/// in place of the value if it does not fit in a `u64`. The run may be
/// empty, in which case the value is zero.
pub fn scan_digits(s: &str, from: usize) -> (r: (usize, Option<u64>))
    requires
        from <= s@.len(),
    ensures
        from <= r.0 <= s@.len(),
        r.0 == digit_run_end(s@, from as int),
        all_dec_digits(s@.subrange(from as int, r.0 as int)),
        r.0 < s@.len() ==> !is_dec_digit(s@[r.0 as int]),
        r.1 matches Some(v) ==> v as nat == dec_val(s@.subrange(from as int, r.0 as int)),
        r.1 is None ==> dec_val(s@.subrange(from as int, r.0 as int)) > u64::MAX,
{
    let len = s.unicode_len();
    let mut i = from;
    let mut acc: u64 = 0;
    let mut overflow = false;
    loop
        invariant
            from <= i <= len,
            len == s@.len(),
            all_dec_digits(s@.subrange(from as int, i as int)),
            !overflow ==> acc as nat == dec_val(s@.subrange(from as int, i as int)),
            overflow ==> dec_val(s@.subrange(from as int, i as int)) > u64::MAX,
        ensures
            from <= i <= len,
            len == s@.len(),
            all_dec_digits(s@.subrange(from as int, i as int)),
            !overflow ==> acc as nat == dec_val(s@.subrange(from as int, i as int)),
            overflow ==> dec_val(s@.subrange(from as int, i as int)) > u64::MAX,
            i < len ==> !is_dec_digit(s@[i as int]),
        decreases len - i,
    {
        if i == len {
            break ;
        }
        let c = s.get_char(i);
        if !('0' <= c && c <= '9') {
            break ;
        }
        let d: u64 = (c as u32 as u64) - ('0' as u32 as u64);
        proof {
            assert(s@.subrange(from as int, i + 1 as int).drop_last() =~= s@.subrange(
                from as int,
                i as int,
            ));
            assert(s@.subrange(from as int, i + 1 as int).last() == c);
        }
        let ghost prev_val = dec_val(s@.subrange(from as int, i as int));
        if overflow {
            proof {
                assert(prev_val * 10 >= prev_val) by (nonlinear_arith)
                    requires
                        prev_val >= 0,
                ;
            }
        } else if acc > (u64::MAX - d) / 10 {
            overflow = true;
            proof {
                // acc > (MAX - d) / 10  ==>  acc * 10 + d > MAX
                assert(acc as nat * 10 + d as nat > u64::MAX) by (nonlinear_arith)
                    requires
                        acc as nat > (u64::MAX - d as nat) / 10,
                        d as nat <= 9,
                ;
            }
        } else {
            proof {
                assert(acc as nat * 10 + d as nat <= u64::MAX) by (nonlinear_arith)
                    requires
                        acc as nat <= (u64::MAX - d as nat) / 10,
                        d as nat <= 9,
                ;
            }
            acc = acc * 10 + d;
        }
        i = i + 1;
    }
    proof {
        assert forall|k: int| from <= k < i implies is_dec_digit(#[trigger] s@[k]) by {
            assert(s@.subrange(from as int, i as int)[k - from] == s@[k]);
        }
        lemma_digit_run_end(s@, from as int, i as int);
    }
    if overflow {
        (i, None)
    } else {
        (i, Some(acc))
    }
}


/// A signed decimal numeral.
pub open spec fn spec_dec_i64(n: int) -> Seq<char> {
    if n < 0 {
        seq!['-'] + spec_dec((-n) as nat)
    } else {
        spec_dec(n as nat)
    }
}

/// Render a signed number as its decimal numeral.
pub fn i64_to_string(n: i64) -> (s: String)
    ensures
        s@ == spec_dec_i64(n as int),
{
    if n >= 0 {
        u128_to_string(n as u128)
    } else {
        proof {
            reveal_strlit("-");
            assert("-"@ =~= seq!['-']);
        }
        let mut s = "-".to_owned();
        s.append(u128_to_string((-(n as i128)) as u128).as_str());
        s
    }
}

} // verus!
