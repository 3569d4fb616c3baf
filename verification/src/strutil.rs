//! Small verified text utilities shared by the parsers: anchored literal
//! matching, first-occurrence search, and character scans.

use vstd::prelude::*;
use vstd::string::StrSliceExecFns;
use std::borrow::ToOwned;

verus! {

/// `lit` occurs in `s` at position `i`.
pub open spec fn occurs_at(s: Seq<char>, lit: Seq<char>, i: int) -> bool {
    0 <= i && i + lit.len() <= s.len() && s.subrange(i, i + lit.len()) == lit
}

/// The position of the first occurrence of `lit` in `s` at or after `from`.
pub open spec fn find_spec(s: Seq<char>, lit: Seq<char>, from: int) -> Option<int>
    decreases s.len() - from + 1,
{
    if from + lit.len() > s.len() || s.len() < from {
        None
    } else if occurs_at(s, lit, from) {
        Some(from)
    } else {
        find_spec(s, lit, from + 1)
    }
}

/// `c` appears in `s` somewhere in `[from, to)`.
pub open spec fn char_in_range(s: Seq<char>, from: int, to: int, c: char) -> bool {
    exists|k: int| from <= k < to && s[k] == c
}

/// Does `lit` occur in `s` starting exactly at position `i`?
pub fn starts_with_at(s: &str, i: usize, lit: &str) -> (r: bool)
    ensures
        r == occurs_at(s@, lit@, i as int),
{
    let n = lit.unicode_len();
    let sl = s.unicode_len();
    if i > sl || n > sl - i {
        return false;
    }
    let mut j: usize = 0;
    while j < n
        invariant
            i + n <= sl,
            sl == s@.len(),
            n == lit@.len(),
            0 <= j <= n,
            forall|k: int| 0 <= k < j ==> s@[i + k] == lit@[k],
        decreases n - j,
    {
        if s.get_char(i + j) != lit.get_char(j) {
            assert(!occurs_at(s@, lit@, i as int)) by {
                assert(s@[i + j] != lit@[j as int]);
                if occurs_at(s@, lit@, i as int) {
                    assert(s@.subrange(i as int, i + lit@.len())[j as int] == lit@[j as int]);
                }
            }
            return false;
        }
        j += 1;
    }
    assert(s@.subrange(i as int, i + lit@.len()) =~= lit@);
    true
}

/// Find the first occurrence of `lit` in `s` at or after `from`.
pub fn find_from(s: &str, lit: &str, from: usize) -> (r: Option<usize>)
    requires
        from <= s@.len(),
        lit@.len() >= 1,
    ensures
        r matches Some(i) ==> find_spec(s@, lit@, from as int) == Some(i as int),
        r is None ==> find_spec(s@, lit@, from as int) is None,
{
    let n = lit.unicode_len();
    let sl = s.unicode_len();
    let mut i = from;
    let mut found = false;
    loop
        invariant_except_break
            !found,
        invariant
            from <= i <= sl,
            sl == s@.len(),
            n == lit@.len(),
            1 <= n,
            find_spec(s@, lit@, from as int) == find_spec(s@, lit@, i as int),
        ensures
            found ==> find_spec(s@, lit@, from as int) == Some(i as int),
            !found ==> find_spec(s@, lit@, from as int) is None,
        decreases sl - i,
    {
        if n > sl - i {
            break ;
        }
        if starts_with_at(s, i, lit) {
            found = true;
            break ;
        }
        i += 1;
    }
    if found {
        Some(i)
    } else {
        None
    }
}

/// Does `c` appear in `s` within `[from, to)`?
pub fn range_has_char(s: &str, from: usize, to: usize, c: char) -> (r: bool)
    requires
        from <= to <= s@.len(),
    ensures
        r == char_in_range(s@, from as int, to as int, c),
{
    let mut i = from;
    while i < to
        invariant
            from <= i <= to <= s@.len(),
            forall|k: int| from <= k < i ==> s@[k] != c,
        decreases to - i,
    {
        if s.get_char(i) == c {
            return true;
        }
        i += 1;
    }
    false
}

/// Copy `s[from .. to]` out as an owned string.
pub fn range_to_string(s: &str, from: usize, to: usize) -> (r: String)
    requires
        from <= to <= s@.len(),
    ensures
        r@ == s@.subrange(from as int, to as int),
{
    s.substring_char(from, to).to_owned()
}

/// A found occurrence really is the first: nothing matches earlier.
pub proof fn lemma_find_spec_first(s: Seq<char>, lit: Seq<char>, from: int, i: int)
    requires
        find_spec(s, lit, from) == Some(i),
    ensures
        from <= i,
        occurs_at(s, lit, i),
        forall|j: int| from <= j < i ==> !occurs_at(s, lit, j),
    decreases s.len() - from + 1,
{
    if from + lit.len() > s.len() || s.len() < from {
    } else if occurs_at(s, lit, from) {
    } else {
        lemma_find_spec_first(s, lit, from + 1, i);
    }
}


} // verus!
