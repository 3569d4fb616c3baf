//! Reference draw records and the catalog entry that selects a replay
//! window. Loading the catalog and the draw archive from disk is the
//! caller's concern; this module holds the record types, the FIFO the
//! comparator drains, and the recognizer that turns a reference label into
//! a purpose.

use vstd::prelude::*;
use vstd::string::{StrSliceExecFns, StringExecFns};
use std::borrow::ToOwned;
use crate::numeral::{dec_val, digit_run_end};
use crate::rng::Rng;
use crate::rolls::{RollPurpose, RollPurposeV};
use crate::strutil::{occurs_at, starts_with_at};
use crate::update_parser::{spec_num, spec_take_term};

verus! {

/// One reference draw: the purpose its label names, the value, and the
/// recorded outcome and threshold. Values are IEEE 754 bit patterns, with
/// the decimal text they were parsed from kept alongside so mismatches can
/// be rendered without refloating anything.
pub struct CheckRoll {
    pub purpose: RollPurpose,
    pub roll: u64,
    pub roll_text: String,
    pub passed: Option<bool>,
    pub threshold: Option<u64>,
    pub threshold_text: Option<String>,
}

pub struct CheckRollV {
    pub purpose: RollPurposeV,
    pub roll: u64,
    pub roll_text: Seq<char>,
    pub passed: Option<bool>,
    pub threshold: Option<u64>,
    pub threshold_text: Option<Seq<char>>,
}

impl View for CheckRoll {
    type V = CheckRollV;

    open spec fn view(&self) -> CheckRollV {
        CheckRollV {
            purpose: self.purpose@,
            roll: self.roll,
            roll_text: self.roll_text@,
            passed: self.passed,
            threshold: self.threshold,
            threshold_text: match &self.threshold_text {
                Some(t) => Some(t@),
                None => None,
            },
        }
    }
}

impl DeepView for CheckRoll {
    type V = CheckRollV;

    open spec fn deep_view(&self) -> CheckRollV {
        self.view()
    }
}

impl CheckRoll {
    /// Copy a reference draw.
    pub fn clone_check_roll(&self) -> (r: CheckRoll)
        ensures
            r@ == self@,
    {
        CheckRoll {
            purpose: self.purpose.clone_purpose(),
            roll: self.roll,
            roll_text: self.roll_text.clone(),
            passed: self.passed,
            threshold: self.threshold,
            threshold_text: match &self.threshold_text {
                Some(t) => Some(t.clone()),
                None => None,
            },
        }
    }
}

/// The reference draw FIFO: records are drained from the front as the
/// replay pairs them with reconstructed draws. The view is the remaining
/// records.
pub struct RollStream {
    rolls: Vec<CheckRoll>,
    next: usize,
}

impl View for RollStream {
    type V = Seq<CheckRollV>;

    closed spec fn view(&self) -> Seq<CheckRollV> {
        self.rolls.deep_view().skip(self.next as int)
    }
}

impl RollStream {
    pub closed spec fn wf(self) -> bool {
        self.next <= self.rolls.len()
    }

    pub fn new(rolls: Vec<CheckRoll>) -> (r: RollStream)
        ensures
            r@ == rolls.deep_view(),
            r.wf(),
    {
        let r = RollStream { rolls, next: 0 };
        proof {
            assert(r.rolls.deep_view().skip(0) =~= r.rolls.deep_view());
        }
        r
    }

    pub fn len(&self) -> (r: usize)
        requires
            self.wf(),
        ensures
            r == self@.len(),
    {
        self.rolls.len() - self.next
    }

    /// Discard everything left in the stream.
    pub fn clear(&mut self)
        ensures
            final(self).wf(),
            final(self)@ == Seq::<CheckRollV>::empty(),
    {
        self.rolls.clear();
        self.next = 0;
        proof {
            assert(self.rolls.deep_view().skip(0) =~= Seq::<CheckRollV>::empty());
        }
    }

    /// Take the next reference draw, if one is left.
    pub fn pop_front(&mut self) -> (r: Option<CheckRoll>)
        requires
            old(self).wf(),
        ensures
            final(self).wf(),
            old(self)@.len() == 0 ==> r is None && final(self)@ == old(self)@,
            old(self)@.len() > 0 ==> (r matches Some(c) && c@ == old(self)@[0] && final(self)@
                == old(self)@.drop_first()),
    {
        if self.next < self.rolls.len() {
            let c = self.rolls[self.next].clone_check_roll();
            self.next = self.next + 1;
            proof {
                assert(self.rolls.deep_view().skip(self.next as int) =~= old(
                    self,
                )@.drop_first());
            }
            Some(c)
        } else {
            None
        }
    }
}

/// A catalog entry: a labelled time window, the seeded generator it starts
/// from, and optionally the reference draws to check against.
pub struct Fragment {
    pub label: String,
    pub start_time: i64,
    pub end_time: i64,
    pub rng: Rng,
    pub check_rolls: Option<RollStream>,
}

/// `label (to name)`: a purpose label carrying a fielder name.
pub open spec fn spec_parse_to(s: Seq<char>, label: Seq<char>) -> Option<Seq<char>> {
    if occurs_at(s, label, 0) && occurs_at(s, " (to "@, label.len() as int) {
        match spec_take_term(s, label.len() as int + 5, ")"@) {
            Some(p) => Some(p.0),
            None => None,
        }
    } else {
        None
    }
}

/// `steal (n)`.
pub open spec fn spec_parse_steal(s: Seq<char>) -> Option<int> {
    if occurs_at(s, "steal ("@, 0) && spec_num(s, 7) {
        let e = digit_run_end(s, 7);
        if e < s.len() && s[e] == ')' {
            Some(dec_val(s.subrange(7, e)) as int)
        } else {
            None
        }
    } else {
        None
    }
}

/// `adv (n, False|True)`.
pub open spec fn spec_parse_advance(s: Seq<char>) -> Option<(int, bool)> {
    if occurs_at(s, "adv ("@, 0) && spec_num(s, 5) {
        let e = digit_run_end(s, 5);
        if occurs_at(s, ", "@, e) {
            let b: int = if occurs_at(s, "False"@, e + 2) {
                0
            } else if occurs_at(s, "True"@, e + 2) {
                1
            } else {
                -1
            };
            let after: int = e + 2 + (if b == 0 {
                5int
            } else {
                4int
            });
            if b >= 0 && occurs_at(s, ")"@, after) {
                Some((dec_val(s.subrange(5, e)) as int, b == 1))
            } else {
                None
            }
        } else {
            None
        }
    } else {
        None
    }
}

/// The deterministic recognizer from a reference label to a purpose:
/// anchored alternatives tried in order, with the whole label captured as
/// `Unparsed` when none matches.
pub open spec fn spec_parse_roll_purpose(s: Seq<char>) -> RollPurposeV {
    if occurs_at(s, "party time"@, 0) {
        RollPurposeV::Party
    } else if occurs_at(s, "steal fielder"@, 0) {
        RollPurposeV::StealFielder
    } else if occurs_at(s, "mild"@, 0) {
        RollPurposeV::MildPitch
    } else if occurs_at(s, "strike"@, 0) {
        RollPurposeV::InStrikeZone
    } else if occurs_at(s, "swing"@, 0) {
        RollPurposeV::Swing
    } else if occurs_at(s, "contact"@, 0) {
        RollPurposeV::Contact
    } else if occurs_at(s, "foul"@, 0) {
        RollPurposeV::FairOrFoul
    } else if occurs_at(s, "fielder"@, 0) {
        RollPurposeV::Fielder
    } else if spec_parse_to(s, "out"@) is Some {
        RollPurposeV::Out(spec_parse_to(s, "out"@).unwrap())
    } else if occurs_at(s, "fly"@, 0) {
        RollPurposeV::Fly
    } else if occurs_at(s, "home run"@, 0) {
        RollPurposeV::HomeRun
    } else if spec_parse_to(s, "double"@) is Some {
        RollPurposeV::Double(spec_parse_to(s, "double"@).unwrap())
    } else if spec_parse_to(s, "triple"@) is Some {
        RollPurposeV::Triple(spec_parse_to(s, "triple"@).unwrap())
    } else if spec_parse_steal(s) is Some {
        RollPurposeV::Steal(spec_parse_steal(s).unwrap())
    } else if spec_parse_advance(s) is Some {
        RollPurposeV::Advance(spec_parse_advance(s).unwrap())
    } else if occurs_at(s, "dp?"@, 0) {
        RollPurposeV::DoublePlayHappens
    } else if occurs_at(s, "dp where"@, 0) {
        RollPurposeV::DoublePlayWhere
    } else if occurs_at(s, "target team (not partying)"@, 0) {
        RollPurposeV::PartyTargetTeam
    } else {
        RollPurposeV::Unparsed(s)
    }
}

/// Exec form of `spec_parse_to`.
fn parse_to(s: &str, label: &str) -> (r: Option<String>)
    requires
        label@.len() >= 1,
    ensures
        r matches Some(name) ==> spec_parse_to(s@, label@) == Some(name@),
        r is None ==> spec_parse_to(s@, label@) is None,
{
    proof {
        reveal_strlit(" (to ");
        reveal_strlit(")");
    }
    let slen = s.unicode_len();
    let llen = label.unicode_len();
    if !starts_with_at(s, 0, label) {
        return None;
    }
    if !starts_with_at(s, llen, " (to ") {
        return None;
    }
    match crate::update_parser::take_term(s, llen + 5, ")") {
        Some(p) => Some(p.0),
        None => None,
    }
}

/// Exec form of `spec_parse_steal`.
fn parse_steal(s: &str) -> (r: Option<i64>)
    ensures
        r matches Some(v) ==> spec_parse_steal(s@) == Some(v as int),
        r is None ==> spec_parse_steal(s@) is None,
{
    proof {
        reveal_strlit("steal (");
    }
    let slen = s.unicode_len();
    if !starts_with_at(s, 0, "steal (") {
        return None;
    }
    let (e, v) = crate::numeral::scan_digits(s, 7);
    match v {
        Some(value) => {
            if e > 7 && value <= 0x7FFF_FFFF_FFFF_FFFF && e < slen && s.get_char(e) == ')' {
                Some(value as i64)
            } else {
                None
            }
        },
        None => None,
    }
}

/// Exec form of `spec_parse_advance`.
fn parse_advance(s: &str) -> (r: Option<(i64, bool)>)
    ensures
        r matches Some(v) ==> spec_parse_advance(s@) == Some((v.0 as int, v.1)),
        r is None ==> spec_parse_advance(s@) is None,
{
    proof {
        reveal_strlit("adv (");
        reveal_strlit(", ");
        reveal_strlit("False");
        reveal_strlit("True");
        reveal_strlit(")");
    }
    let slen = s.unicode_len();
    if !starts_with_at(s, 0, "adv (") {
        return None;
    }
    let (e, v) = crate::numeral::scan_digits(s, 5);
    let value = match v {
        Some(value) => {
            if e > 5 && value <= 0x7FFF_FFFF_FFFF_FFFF {
                value
            } else {
                return None;
            }
        },
        None => {
            return None;
        },
    };
    if !starts_with_at(s, e, ", ") {
        return None;
    }
    let is_false = starts_with_at(s, e + 2, "False");
    let is_true = !is_false && starts_with_at(s, e + 2, "True");
    if is_false {
        if starts_with_at(s, e + 7, ")") {
            Some((value as i64, false))
        } else {
            None
        }
    } else if is_true {
        if starts_with_at(s, e + 6, ")") {
            Some((value as i64, true))
        } else {
            None
        }
    } else {
        None
    }
}

/// Recognize a reference label as a purpose; an unrecognized label is
/// captured whole.
pub fn parse_roll_purpose(s: &str) -> (r: RollPurpose)
    ensures
        r@ == spec_parse_roll_purpose(s@),
{
    proof {
        reveal_strlit("party time");
        reveal_strlit("steal fielder");
        reveal_strlit("mild");
        reveal_strlit("strike");
        reveal_strlit("swing");
        reveal_strlit("contact");
        reveal_strlit("foul");
        reveal_strlit("fielder");
        reveal_strlit("out");
        reveal_strlit("fly");
        reveal_strlit("home run");
        reveal_strlit("double");
        reveal_strlit("triple");
        reveal_strlit("dp?");
        reveal_strlit("dp where");
        reveal_strlit("target team (not partying)");
    }
    if starts_with_at(s, 0, "party time") {
        return RollPurpose::Party;
    }
    if starts_with_at(s, 0, "steal fielder") {
        return RollPurpose::StealFielder;
    }
    if starts_with_at(s, 0, "mild") {
        return RollPurpose::MildPitch;
    }
    if starts_with_at(s, 0, "strike") {
        return RollPurpose::InStrikeZone;
    }
    if starts_with_at(s, 0, "swing") {
        return RollPurpose::Swing;
    }
    if starts_with_at(s, 0, "contact") {
        return RollPurpose::Contact;
    }
    if starts_with_at(s, 0, "foul") {
        return RollPurpose::FairOrFoul;
    }
    if starts_with_at(s, 0, "fielder") {
        return RollPurpose::Fielder;
    }
    match parse_to(s, "out") {
        Some(name) => {
            return RollPurpose::Out(name);
        },
        None => {},
    }
    if starts_with_at(s, 0, "fly") {
        return RollPurpose::Fly;
    }
    if starts_with_at(s, 0, "home run") {
        return RollPurpose::HomeRun;
    }
    match parse_to(s, "double") {
        Some(name) => {
            return RollPurpose::Double(name);
        },
        None => {},
    }
    match parse_to(s, "triple") {
        Some(name) => {
            return RollPurpose::Triple(name);
        },
        None => {},
    }
    match parse_steal(s) {
        Some(base) => {
            return RollPurpose::Steal(base);
        },
        None => {},
    }
    match parse_advance(s) {
        Some(p) => {
            return RollPurpose::Advance(p);
        },
        None => {},
    }
    if starts_with_at(s, 0, "dp?") {
        return RollPurpose::DoublePlayHappens;
    }
    if starts_with_at(s, 0, "dp where") {
        return RollPurpose::DoublePlayWhere;
    }
    if starts_with_at(s, 0, "target team (not partying)") {
        return RollPurpose::PartyTargetTeam;
    }
    RollPurpose::Unparsed(s.to_owned())
}

} // verus!
