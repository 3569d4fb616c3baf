//! The cross-check comparator: aligns a reconstructed draw with its
//! reference record and produces a structured match context.
//!
//! Draw values are exact bit patterns, so equality here is the host's exact
//! float equality on the values in play. When two values differ, their
//! decimal renderings are split at the longest common character prefix; the
//! renderings travel with the values (the reference side keeps the text it
//! was parsed from, the local side is rendered by the caller), since this
//! crate never touches a float itself.

use vstd::prelude::*;
use vstd::string::{StrSliceExecFns, StringExecFns};
use crate::fragments::{CheckRoll, CheckRollV};
use crate::rolls::{
    spec_purpose_tag, RollData, RollDataV, RollPurpose, RollPurposeV, RollUsage, RollUsageV,
};
use crate::strutil::range_to_string;

verus! {

/// The length of the longest common prefix of two texts, counted from `i`.
pub open spec fn spec_lccp_from(a: Seq<char>, b: Seq<char>, i: int) -> int
    decreases a.len() - i,
{
    if i < 0 || i >= a.len() || i >= b.len() || a[i] != b[i] {
        i
    } else {
        spec_lccp_from(a, b, i + 1)
    }
}

/// The length of the longest common character prefix of two texts.
pub open spec fn spec_lccp(a: Seq<char>, b: Seq<char>) -> int {
    spec_lccp_from(a, b, 0)
}

/// Count the characters two texts share from the start.
pub fn longest_common_char_prefix(a: &str, b: &str) -> (r: usize)
    ensures
        r == spec_lccp(a@, b@),
{
    let alen = a.unicode_len();
    let blen = b.unicode_len();
    let mut i: usize = 0;
    while i < alen && i < blen && a.get_char(i) == b.get_char(i)
        invariant
            i <= alen,
            i <= blen,
            alen == a@.len(),
            blen == b@.len(),
            spec_lccp(a@, b@) == spec_lccp_from(a@, b@, i as int),
        decreases alen - i,
    {
        i += 1;
    }
    i
}

/// Two differing values, rendered and split at the common decimal prefix:
/// the shared digits, the reference's differing tail, and whatever the
/// local rendering has beyond the reference's length.
pub struct FloatDigitsMismatchContext {
    pub mine: u64,
    pub resim: u64,
    pub matching_digits: String,
    pub mismatching_digits: String,
    pub extra_digits: String,
}

pub struct FloatDigitsMismatchContextV {
    pub mine: u64,
    pub resim: u64,
    pub matching_digits: Seq<char>,
    pub mismatching_digits: Seq<char>,
    pub extra_digits: Seq<char>,
}

impl View for FloatDigitsMismatchContext {
    type V = FloatDigitsMismatchContextV;

    open spec fn view(&self) -> FloatDigitsMismatchContextV {
        FloatDigitsMismatchContextV {
            mine: self.mine,
            resim: self.resim,
            matching_digits: self.matching_digits@,
            mismatching_digits: self.mismatching_digits@,
            extra_digits: self.extra_digits@,
        }
    }
}

/// The digit split of a mismatch, given both values' renderings.
pub open spec fn spec_digits_mismatch(
    mine: u64,
    resim: u64,
    my_text: Seq<char>,
    resim_text: Seq<char>,
) -> FloatDigitsMismatchContextV {
    let p = spec_lccp(my_text, resim_text);
    FloatDigitsMismatchContextV {
        mine,
        resim,
        matching_digits: resim_text.subrange(0, p),
        mismatching_digits: resim_text.subrange(p, resim_text.len() as int),
        extra_digits: if resim_text.len() <= my_text.len() {
            my_text.subrange(resim_text.len() as int, my_text.len() as int)
        } else {
            Seq::empty()
        },
    }
}

/// The prefix never exceeds either rendering.
pub proof fn lemma_lccp_bounds(a: Seq<char>, b: Seq<char>, i: int)
    requires
        0 <= i <= a.len(),
        0 <= i <= b.len(),
    ensures
        i <= spec_lccp_from(a, b, i),
        spec_lccp_from(a, b, i) <= a.len(),
        spec_lccp_from(a, b, i) <= b.len(),
    decreases a.len() - i,
{
    if i < a.len() && i < b.len() && a[i] == b[i] {
        lemma_lccp_bounds(a, b, i + 1);
    }
}

impl FloatDigitsMismatchContext {
    /// `None` when the values agree exactly; the digit split otherwise.
    pub fn from_values(my_val: u64, resim_val: u64, my_text: &str, resim_text: &str) -> (r: Option<
        FloatDigitsMismatchContext,
    >)
        ensures
            my_val == resim_val <==> r is None,
            r matches Some(m) ==> m@ == spec_digits_mismatch(
                my_val,
                resim_val,
                my_text@,
                resim_text@,
            ),
    {
        if my_val == resim_val {
            return None;
        }
        let prefix_len = longest_common_char_prefix(my_text, resim_text);
        proof {
            lemma_lccp_bounds(my_text@, resim_text@, 0);
        }
        let my_len = my_text.unicode_len();
        let resim_len = resim_text.unicode_len();
        let extra_digits = if resim_len <= my_len {
            range_to_string(my_text, resim_len, my_len)
        } else {
            crate::sim::literal_string("")
        };
        proof {
            reveal_strlit("");
            assert(""@ =~= Seq::<char>::empty());
        }
        Some(
            FloatDigitsMismatchContext {
                mine: my_val,
                resim: resim_val,
                matching_digits: range_to_string(resim_text, 0, prefix_len),
                mismatching_digits: range_to_string(resim_text, prefix_len, resim_len),
                extra_digits,
            },
        )
    }
}

/// Exact value comparison, with the digit split on a mismatch.
pub enum FloatMatchContext {
    Matches,
    Mismatch(FloatDigitsMismatchContext),
}

pub enum FloatMatchContextV {
    Matches,
    Mismatch(FloatDigitsMismatchContextV),
}

impl View for FloatMatchContext {
    type V = FloatMatchContextV;

    open spec fn view(&self) -> FloatMatchContextV {
        match self {
            FloatMatchContext::Matches => FloatMatchContextV::Matches,
            FloatMatchContext::Mismatch(m) => FloatMatchContextV::Mismatch(m@),
        }
    }
}

pub open spec fn spec_float_match(
    mine: u64,
    resim: u64,
    my_text: Seq<char>,
    resim_text: Seq<char>,
) -> FloatMatchContextV {
    if mine == resim {
        FloatMatchContextV::Matches
    } else {
        FloatMatchContextV::Mismatch(spec_digits_mismatch(mine, resim, my_text, resim_text))
    }
}

impl FloatMatchContext {
    pub fn from_values(my_val: u64, resim_val: u64, my_text: &str, resim_text: &str) -> (r:
        FloatMatchContext)
        ensures
            r@ == spec_float_match(my_val, resim_val, my_text@, resim_text@),
    {
        match FloatDigitsMismatchContext::from_values(my_val, resim_val, my_text, resim_text) {
            None => FloatMatchContext::Matches,
            Some(mismatch) => FloatMatchContext::Mismatch(mismatch),
        }
    }
}

/// Three-valued comparison of optional outcomes.
#[derive(Clone, Copy, Debug, PartialEq, Eq, Structural)]
pub enum OptionBoolMatchContext {
    Matches,
    MineMissingResimExists { resim: bool },
    MineExistsResimMissing { mine: bool },
    Mismatch { mine: bool, resim: bool },
}

pub open spec fn spec_option_bool_match(mine: Option<bool>, resim: Option<bool>) -> (r:
    OptionBoolMatchContext) {
    match (mine, resim) {
        (None, None) => OptionBoolMatchContext::Matches,
        (Some(m), None) => OptionBoolMatchContext::MineExistsResimMissing { mine: m },
        (None, Some(r)) => OptionBoolMatchContext::MineMissingResimExists { resim: r },
        (Some(m), Some(r)) => if m == r {
            OptionBoolMatchContext::Matches
        } else {
            OptionBoolMatchContext::Mismatch { mine: m, resim: r }
        },
    }
}

impl OptionBoolMatchContext {
    pub fn from_values(my_val: Option<bool>, resim_val: Option<bool>) -> (r:
        OptionBoolMatchContext)
        ensures
            r == spec_option_bool_match(my_val, resim_val),
    {
        match (my_val, resim_val) {
            (None, None) => OptionBoolMatchContext::Matches,
            (Some(mine), None) => OptionBoolMatchContext::MineExistsResimMissing { mine },
            (None, Some(resim)) => OptionBoolMatchContext::MineMissingResimExists { resim },
            (Some(mine), Some(resim)) => if mine == resim {
                OptionBoolMatchContext::Matches
            } else {
                OptionBoolMatchContext::Mismatch { mine, resim }
            },
        }
    }
}

/// Three-valued comparison of optional values, with the digit split when
/// both exist and differ.
pub enum OptionFloatMatchContext {
    Matches,
    MineMissingResimExists { resim: u64 },
    MineExistsResimMissing { mine: u64 },
    Mismatch(FloatDigitsMismatchContext),
}

pub enum OptionFloatMatchContextV {
    Matches,
    MineMissingResimExists { resim: u64 },
    MineExistsResimMissing { mine: u64 },
    Mismatch(FloatDigitsMismatchContextV),
}

impl View for OptionFloatMatchContext {
    type V = OptionFloatMatchContextV;

    open spec fn view(&self) -> OptionFloatMatchContextV {
        match self {
            OptionFloatMatchContext::Matches => OptionFloatMatchContextV::Matches,
            OptionFloatMatchContext::MineMissingResimExists { resim } => OptionFloatMatchContextV::MineMissingResimExists {
                resim: *resim,
            },
            OptionFloatMatchContext::MineExistsResimMissing { mine } => OptionFloatMatchContextV::MineExistsResimMissing {
                mine: *mine,
            },
            OptionFloatMatchContext::Mismatch(m) => OptionFloatMatchContextV::Mismatch(m@),
        }
    }
}

pub open spec fn spec_option_float_match(
    mine: Option<u64>,
    resim: Option<u64>,
    my_text: Seq<char>,
    resim_text: Seq<char>,
) -> OptionFloatMatchContextV {
    match (mine, resim) {
        (None, None) => OptionFloatMatchContextV::Matches,
        (Some(m), None) => OptionFloatMatchContextV::MineExistsResimMissing { mine: m },
        (None, Some(r)) => OptionFloatMatchContextV::MineMissingResimExists { resim: r },
        (Some(m), Some(r)) => if m == r {
            OptionFloatMatchContextV::Matches
        } else {
            OptionFloatMatchContextV::Mismatch(spec_digits_mismatch(m, r, my_text, resim_text))
        },
    }
}

impl OptionFloatMatchContext {
    /// The renderings are read only when both values exist and differ.
    pub fn from_values(
        my_val: Option<u64>,
        resim_val: Option<u64>,
        my_text: &str,
        resim_text: &str,
    ) -> (r: OptionFloatMatchContext)
        ensures
            r@ == spec_option_float_match(my_val, resim_val, my_text@, resim_text@),
    {
        match (my_val, resim_val) {
            (None, None) => OptionFloatMatchContext::Matches,
            (Some(mine), None) => OptionFloatMatchContext::MineExistsResimMissing { mine },
            (None, Some(resim)) => OptionFloatMatchContext::MineMissingResimExists { resim },
            (Some(mine), Some(resim)) => match FloatDigitsMismatchContext::from_values(
                mine,
                resim,
                my_text,
                resim_text,
            ) {
                None => OptionFloatMatchContext::Matches,
                Some(mismatch) => OptionFloatMatchContext::Mismatch(mismatch),
            },
        }
    }
}

/// Purpose comparison; a mismatch carries both purposes rendered.
pub enum RollPurposeMatchContext {
    Matches,
    Mismatch { mine: String, resim: String },
}

pub enum RollPurposeMatchContextV {
    Matches,
    Mismatch { mine: Seq<char>, resim: Seq<char> },
}

impl View for RollPurposeMatchContext {
    type V = RollPurposeMatchContextV;

    open spec fn view(&self) -> RollPurposeMatchContextV {
        match self {
            RollPurposeMatchContext::Matches => RollPurposeMatchContextV::Matches,
            RollPurposeMatchContext::Mismatch { mine, resim } => RollPurposeMatchContextV::Mismatch {
                mine: mine@,
                resim: resim@,
            },
        }
    }
}

pub open spec fn spec_purpose_match(mine: RollPurposeV, resim: RollPurposeV) -> (r:
    RollPurposeMatchContextV) {
    if mine == resim {
        RollPurposeMatchContextV::Matches
    } else {
        RollPurposeMatchContextV::Mismatch {
            mine: spec_purpose_tag(mine),
            resim: spec_purpose_tag(resim),
        }
    }
}

impl RollPurposeMatchContext {
    pub fn from_values(mine: &RollPurpose, resim: &RollPurpose) -> (r: RollPurposeMatchContext)
        ensures
            r@ == spec_purpose_match(mine@, resim@),
    {
        if mine.purpose_eq(resim) {
            RollPurposeMatchContext::Matches
        } else {
            RollPurposeMatchContext::Mismatch {
                mine: mine.render_tag(),
                resim: resim.render_tag(),
            }
        }
    }
}

/// The full match record for one draw: a threshold draw is compared on
/// value, purpose, outcome and threshold; a choice draw on value and
/// purpose only.
pub enum ResimMatchContext {
    Threshold {
        rolls: FloatMatchContext,
        purpose: RollPurposeMatchContext,
        passed: OptionBoolMatchContext,
        threshold: OptionFloatMatchContext,
    },
    Choice { rolls: FloatMatchContext, purpose: RollPurposeMatchContext },
}

pub enum ResimMatchContextV {
    Threshold {
        rolls: FloatMatchContextV,
        purpose: RollPurposeMatchContextV,
        passed: OptionBoolMatchContext,
        threshold: OptionFloatMatchContextV,
    },
    Choice { rolls: FloatMatchContextV, purpose: RollPurposeMatchContextV },
}

impl View for ResimMatchContext {
    type V = ResimMatchContextV;

    open spec fn view(&self) -> ResimMatchContextV {
        match self {
            ResimMatchContext::Threshold { rolls, purpose, passed, threshold } => ResimMatchContextV::Threshold {
                rolls: rolls@,
                purpose: purpose@,
                passed: *passed,
                threshold: threshold@,
            },
            ResimMatchContext::Choice { rolls, purpose } => ResimMatchContextV::Choice {
                rolls: rolls@,
                purpose: purpose@,
            },
        }
    }
}

/// The match record `for_roll` produces, given the local renderings.
pub open spec fn spec_for_roll(
    rd: RollDataV,
    check: CheckRollV,
    my_roll_text: Seq<char>,
    my_threshold_text: Seq<char>,
) -> ResimMatchContextV {
    match rd.usage {
        RollUsageV::Threshold { threshold, passed } => ResimMatchContextV::Threshold {
            rolls: spec_float_match(rd.roll, check.roll, my_roll_text, check.roll_text),
            purpose: spec_purpose_match(rd.purpose, check.purpose),
            passed: spec_option_bool_match(passed, check.passed),
            threshold: spec_option_float_match(
                threshold,
                check.threshold,
                my_threshold_text,
                match check.threshold_text {
                    Some(t) => t,
                    None => Seq::empty(),
                },
            ),
        },
        RollUsageV::Choice { .. } => ResimMatchContextV::Choice {
            rolls: spec_float_match(rd.roll, check.roll, my_roll_text, check.roll_text),
            purpose: spec_purpose_match(rd.purpose, check.purpose),
        },
    }
}

impl ResimMatchContext {
    /// Compare one reconstructed draw against its reference record.
    /// `my_roll_text` and `my_threshold_text` are the decimal renderings of
    /// the local value and threshold; they are read only where a mismatch
    /// must be split into digits.
    pub fn for_roll(
        roll_data: &RollData,
        check: &CheckRoll,
        my_roll_text: &str,
        my_threshold_text: &str,
    ) -> (r: ResimMatchContext)
        ensures
            r@ == spec_for_roll(roll_data@, check@, my_roll_text@, my_threshold_text@),
    {
        proof {
            reveal_strlit("");
            assert(""@ =~= Seq::<char>::empty());
        }
        match &roll_data.usage {
            RollUsage::Threshold { threshold, passed } => {
                let check_threshold_text: &str = match &check.threshold_text {
                    Some(t) => t.as_str(),
                    None => "",
                };
                ResimMatchContext::Threshold {
                    rolls: FloatMatchContext::from_values(
                        roll_data.roll,
                        check.roll,
                        my_roll_text,
                        check.roll_text.as_str(),
                    ),
                    purpose: RollPurposeMatchContext::from_values(
                        &roll_data.purpose,
                        &check.purpose,
                    ),
                    passed: OptionBoolMatchContext::from_values(*passed, check.passed),
                    threshold: OptionFloatMatchContext::from_values(
                        *threshold,
                        check.threshold,
                        my_threshold_text,
                        check_threshold_text,
                    ),
                }
            },
            RollUsage::Choice { .. } => ResimMatchContext::Choice {
                rolls: FloatMatchContext::from_values(
                    roll_data.roll,
                    check.roll,
                    my_roll_text,
                    check.roll_text.as_str(),
                ),
                purpose: RollPurposeMatchContext::from_values(&roll_data.purpose, &check.purpose),
            },
        }
    }
}

/// Comparator identity: when the reconstructed draw agrees with the
/// reference record on value, purpose, and (for a threshold draw) outcome
/// and threshold, the match record is `Matches` at every level, whatever
/// the renderings.
pub proof fn lemma_comparator_identity(
    rd: RollDataV,
    check: CheckRollV,
    my_roll_text: Seq<char>,
    my_threshold_text: Seq<char>,
)
    requires
        rd.roll == check.roll,
        rd.purpose == check.purpose,
        (rd.usage matches RollUsageV::Threshold { threshold, passed } ==> passed == check.passed
            && threshold == check.threshold),
    ensures
        (rd.usage is Threshold ==> spec_for_roll(rd, check, my_roll_text, my_threshold_text)
            == (ResimMatchContextV::Threshold {
            rolls: FloatMatchContextV::Matches,
            purpose: RollPurposeMatchContextV::Matches,
            passed: OptionBoolMatchContext::Matches,
            threshold: OptionFloatMatchContextV::Matches,
        })),
        (rd.usage is Choice ==> spec_for_roll(rd, check, my_roll_text, my_threshold_text)
            == (ResimMatchContextV::Choice {
            rolls: FloatMatchContextV::Matches,
            purpose: RollPurposeMatchContextV::Matches,
        })),
{
}

} // verus!
