//! The description parser: maps an update's free-text `last_update` line to
//! a typed play event.
//!
//! The grammar is a fixed list of alternatives, each anchored at the start
//! of the text and tried in order; the first to match wins, and trailing
//! text after a match is ignored. A `<name>` placeholder takes the shortest
//! non-empty prefix, free of newlines, that the following literal
//! terminates; a name terminated by a bare period may itself keep one
//! abbreviating period (the double-dot rule). Numbers are maximal digit
//! runs and must fit in an `i64`.

use vstd::prelude::*;
use vstd::string::{StrSliceExecFns, StringExecFns};
use crate::chron::ChroniclerGameUpdate;
use crate::numeral::{dec_val, digit_run_end, scan_digits};
use crate::strutil::{char_in_range, find_from, find_spec, occurs_at, range_has_char,
    range_to_string, starts_with_at};

verus! {

/// A parsed play event, with the names the grammar extracts.
pub enum ParsedUpdateData {
    Empty,
    PlayBall,
    InningTurnover,
    BatterUp,
    Ball,
    FoulBall,
    StrikeLooking,
    StrikeoutLooking,
    StrikeSwinging,
    StrikeoutSwinging,
    GroundOut,
    Flyout,
    InningEnd,
    Hit { bases: i64, scored: Vec<String> },
    DoublePlay,
}

/// The mathematical image of a parsed play event.
pub enum ParsedUpdateV {
    Empty,
    PlayBall,
    InningTurnover,
    BatterUp,
    Ball,
    FoulBall,
    StrikeLooking,
    StrikeoutLooking,
    StrikeSwinging,
    StrikeoutSwinging,
    GroundOut,
    Flyout,
    InningEnd,
    Hit { bases: int, scored: Seq<Seq<char>> },
    DoublePlay,
}

impl View for ParsedUpdateData {
    type V = ParsedUpdateV;

    open spec fn view(&self) -> ParsedUpdateV {
        match self {
            ParsedUpdateData::Empty => ParsedUpdateV::Empty,
            ParsedUpdateData::PlayBall => ParsedUpdateV::PlayBall,
            ParsedUpdateData::InningTurnover => ParsedUpdateV::InningTurnover,
            ParsedUpdateData::BatterUp => ParsedUpdateV::BatterUp,
            ParsedUpdateData::Ball => ParsedUpdateV::Ball,
            ParsedUpdateData::FoulBall => ParsedUpdateV::FoulBall,
            ParsedUpdateData::StrikeLooking => ParsedUpdateV::StrikeLooking,
            ParsedUpdateData::StrikeoutLooking => ParsedUpdateV::StrikeoutLooking,
            ParsedUpdateData::StrikeSwinging => ParsedUpdateV::StrikeSwinging,
            ParsedUpdateData::StrikeoutSwinging => ParsedUpdateV::StrikeoutSwinging,
            ParsedUpdateData::GroundOut => ParsedUpdateV::GroundOut,
            ParsedUpdateData::Flyout => ParsedUpdateV::Flyout,
            ParsedUpdateData::InningEnd => ParsedUpdateV::InningEnd,
            ParsedUpdateData::Hit { bases, scored } => ParsedUpdateV::Hit {
                bases: *bases as int,
                scored: scored.deep_view(),
            },
            ParsedUpdateData::DoublePlay => ParsedUpdateV::DoublePlay,
        }
    }
}

/// A parsed update.
pub struct ParsedUpdate {
    pub data: ParsedUpdateData,
}

/// Why an update's description was rejected: no grammar alternative
/// matched. The unparsed text is carried along.
pub enum UpdateParseError {
    FailedToParseDescription(String),
}

/// The shortest-prefix name rule: the name runs to the first occurrence of
/// `t` after `i`, must be non-empty, and must not span a newline. Yields
/// the name and the position after the terminator.
pub open spec fn spec_take_term(s: Seq<char>, i: int, t: Seq<char>) -> Option<(Seq<char>, int)> {
    match find_spec(s, t, i) {
        Some(j) => if j > i && !char_in_range(s, i, j, '\n') {
            Some((s.subrange(i, j), j + t.len() as int))
        } else {
            None
        },
        None => None,
    }
}

/// The name rule for a bare-period terminator: a name containing a
/// double period keeps one of them (so abbreviated names survive);
/// otherwise the plain shortest-prefix rule applies.
pub open spec fn spec_terminated_dot(s: Seq<char>, i: int) -> Option<(Seq<char>, int)> {
    match find_spec(s, seq!['.', '.'], i) {
        Some(j2) => if j2 > i && !char_in_range(s, i, j2 + 1, '\n') {
            Some((s.subrange(i, j2 + 1), j2 + 2))
        } else {
            spec_take_term(s, i, seq!['.'])
        },
        None => spec_take_term(s, i, seq!['.']),
    }
}

/// A maximal digit run starting at `i`, non-empty, whose value fits in an
/// `i64`; true when present, with `digit_run_end` giving its end.
pub open spec fn spec_num(s: Seq<char>, i: int) -> bool {
    let e = digit_run_end(s, i);
    e > i && dec_val(s.subrange(i, e)) <= i64::MAX
}

/// Two fitting numbers joined by a dash: a ball-strike count.
pub open spec fn spec_count_pair(s: Seq<char>, i: int) -> bool {
    let a = digit_run_end(s, i);
    &&& spec_num(s, i)
    &&& a < s.len() && s[a] == '-'
    &&& spec_num(s, a + 1)
}

/// Two digit runs joined by a dash, with no bound on their values.
pub open spec fn spec_digit_pair_raw(s: Seq<char>, i: int) -> bool {
    let a = digit_run_end(s, i);
    &&& a > i
    &&& a < s.len() && s[a] == '-'
    &&& digit_run_end(s, a + 1) > a + 1
}

pub open spec fn spec_is_inning_turnover(s: Seq<char>) -> bool {
    let start: int = if occurs_at(s, "Top"@, 0) {
        3
    } else if occurs_at(s, "Bottom"@, 0) {
        6
    } else {
        -1
    };
    &&& start >= 0
    &&& occurs_at(s, " of "@, start)
    &&& spec_num(s, start + 4)
    &&& occurs_at(s, ", "@, digit_run_end(s, start + 4))
    &&& spec_take_term(s, digit_run_end(s, start + 4) + 2, " batting."@) is Some
}

pub open spec fn spec_is_batter_up(s: Seq<char>) -> bool {
    match spec_take_term(s, 0, " batting for the "@) {
        Some(p) => spec_terminated_dot(s, p.1) is Some,
        None => false,
    }
}

pub open spec fn spec_is_ball(s: Seq<char>) -> bool {
    occurs_at(s, "Ball. "@, 0) && spec_count_pair(s, 6)
}

pub open spec fn spec_is_foul_ball(s: Seq<char>) -> bool {
    occurs_at(s, "Foul Ball. "@, 0) && spec_count_pair(s, 11)
}

/// `Some(true)` for a looking strikeout, `Some(false)` for a swinging one.
pub open spec fn spec_strikeout(s: Seq<char>) -> Option<bool> {
    if spec_take_term(s, 0, " strikes out looking."@) is Some {
        Some(true)
    } else if spec_take_term(s, 0, " strikes out swinging."@) is Some {
        Some(false)
    } else {
        None
    }
}

/// `Some(false)` for a swinging strike, `Some(true)` for a looking one.
pub open spec fn spec_strike(s: Seq<char>) -> Option<bool> {
    let after: int = if occurs_at(s, "Strike, swinging."@, 0) {
        17
    } else if occurs_at(s, "Strike, looking."@, 0) {
        16
    } else {
        -1
    };
    if after >= 0 && after < s.len() && s[after] == ' ' && spec_digit_pair_raw(s, after + 1) {
        Some(occurs_at(s, "Strike, looking."@, 0) && !occurs_at(s, "Strike, swinging."@, 0))
    } else {
        None
    }
}

pub open spec fn spec_is_ground_out(s: Seq<char>) -> bool {
    match spec_take_term(s, 0, " hit a ground out to "@) {
        Some(p) => spec_terminated_dot(s, p.1) is Some,
        None => false,
    }
}

pub open spec fn spec_is_flyout(s: Seq<char>) -> bool {
    match spec_take_term(s, 0, " hit a flyout to "@) {
        Some(p) => spec_terminated_dot(s, p.1) is Some,
        None => false,
    }
}

pub open spec fn spec_is_inning_end(s: Seq<char>) -> bool {
    &&& occurs_at(s, "Inning "@, 0)
    &&& spec_num(s, 7)
    &&& occurs_at(s, " is now an Outing."@, digit_run_end(s, 7))
}

/// The chain of `"\n" <name> " scores!"` lines after a hit, collected
/// greedily: the scoring names and the position where the chain stops.
pub open spec fn spec_scores(s: Seq<char>, i: int) -> (Seq<Seq<char>>, int)
    decreases s.len() - i,
{
    if i < s.len() && s[i] == '\n' {
        match spec_take_term(s, i + 1, " scores!"@) {
            Some(p) => if i < p.1 <= s.len() {
                let rest = spec_scores(s, p.1);
                (seq![p.0] + rest.0, rest.1)
            } else {
                (Seq::empty(), i)
            },
            None => (Seq::empty(), i),
        }
    } else {
        (Seq::empty(), i)
    }
}

/// A hit: batter name, the hit kind, and the scoring chain.
pub open spec fn spec_hit(s: Seq<char>) -> Option<(int, Seq<Seq<char>>)> {
    match spec_take_term(s, 0, " hits a "@) {
        Some(p) => {
            let rest = p.1;
            let bases: int = if occurs_at(s, "Single"@, rest) {
                1
            } else if occurs_at(s, "Double"@, rest) {
                2
            } else if occurs_at(s, "Triple"@, rest) {
                3
            } else if occurs_at(s, "Quadruple"@, rest) {
                4
            } else {
                -1
            };
            let after: int = rest + (if bases == 4 {
                9int
            } else {
                6int
            });
            if bases >= 1 && after < s.len() && s[after] == '!' {
                Some((bases, spec_scores(s, after + 1).0))
            } else {
                None
            }
        },
        None => None,
    }
}

pub open spec fn spec_is_double_play(s: Seq<char>) -> bool {
    match spec_take_term(s, 0, " hit into a double play!\n"@) {
        Some(p) => spec_take_term(s, p.1, " scores!"@) is Some,
        None => false,
    }
}

/// The whole grammar: the first alternative to match decides, `None` when
/// none does.
pub open spec fn spec_parse_update(s: Seq<char>) -> Option<ParsedUpdateV> {
    if s.len() == 0 {
        Some(ParsedUpdateV::Empty)
    } else if occurs_at(s, "Play ball!"@, 0) {
        Some(ParsedUpdateV::PlayBall)
    } else if spec_is_inning_turnover(s) {
        Some(ParsedUpdateV::InningTurnover)
    } else if spec_is_batter_up(s) {
        Some(ParsedUpdateV::BatterUp)
    } else if spec_is_ball(s) {
        Some(ParsedUpdateV::Ball)
    } else if spec_is_foul_ball(s) {
        Some(ParsedUpdateV::FoulBall)
    } else if spec_strikeout(s) is Some {
        if spec_strikeout(s).unwrap() {
            Some(ParsedUpdateV::StrikeoutLooking)
        } else {
            Some(ParsedUpdateV::StrikeoutSwinging)
        }
    } else if spec_strike(s) is Some {
        if spec_strike(s).unwrap() {
            Some(ParsedUpdateV::StrikeLooking)
        } else {
            Some(ParsedUpdateV::StrikeSwinging)
        }
    } else if spec_is_ground_out(s) {
        Some(ParsedUpdateV::GroundOut)
    } else if spec_is_flyout(s) {
        Some(ParsedUpdateV::Flyout)
    } else if spec_is_inning_end(s) {
        Some(ParsedUpdateV::InningEnd)
    } else if spec_hit(s) is Some {
        Some(
            ParsedUpdateV::Hit {
                bases: spec_hit(s).unwrap().0,
                scored: spec_hit(s).unwrap().1,
            },
        )
    } else if spec_is_double_play(s) {
        Some(ParsedUpdateV::DoublePlay)
    } else {
        None
    }
}

/// Exec form of `spec_take_term`.
pub(crate) fn take_term(s: &str, i: usize, t: &str) -> (r: Option<(String, usize)>)
    requires
        i <= s@.len(),
        t@.len() >= 1,
    ensures
        r matches Some(p) ==> spec_take_term(s@, i as int, t@) == Some((p.0@, p.1 as int))
            && p.1 <= s@.len(),
        r is None ==> spec_take_term(s@, i as int, t@) is None,
{
    let slen = s.unicode_len();
    match find_from(s, t, i) {
        Some(j) => {
            proof {
                crate::strutil::lemma_find_spec_first(s@, t@, i as int, j as int);
            }
            if j > i && !range_has_char(s, i, j, '\n') {
                let rest = j + t.unicode_len();
                Some((range_to_string(s, i, j), rest))
            } else {
                None
            }
        },
        None => None,
    }
}

/// Exec form of `spec_terminated_dot`.
fn take_term_dot(s: &str, i: usize) -> (r: Option<(String, usize)>)
    requires
        i <= s@.len(),
    ensures
        r matches Some(p) ==> spec_terminated_dot(s@, i as int) == Some((p.0@, p.1 as int)) && p.1
            <= s@.len(),
        r is None ==> spec_terminated_dot(s@, i as int) is None,
{
    proof {
        reveal_strlit("..");
        reveal_strlit(".");
        assert(".."@ =~= seq!['.', '.']);
        assert("."@ =~= seq!['.']);
    }
    let slen = s.unicode_len();
    match find_from(s, "..", i) {
        Some(j2) => {
            proof {
                crate::strutil::lemma_find_spec_first(s@, seq!['.', '.'], i as int, j2 as int);
            }
            if j2 > i && !range_has_char(s, i, j2 + 1, '\n') {
                Some((range_to_string(s, i, j2 + 1), j2 + 2))
            } else {
                take_term(s, i, ".")
            }
        },
        None => take_term(s, i, "."),
    }
}

/// Exec form of `spec_num`: when the run is present and fits, its end.
fn scan_num(s: &str, i: usize) -> (r: Option<usize>)
    requires
        i <= s@.len(),
    ensures
        r matches Some(e) ==> spec_num(s@, i as int) && e == digit_run_end(s@, i as int) && e
            <= s@.len(),
        r is None ==> !spec_num(s@, i as int),
{
    let (e, v) = scan_digits(s, i);
    match v {
        Some(value) => {
            if e > i && value <= 0x7FFF_FFFF_FFFF_FFFF {
                Some(e)
            } else {
                None
            }
        },
        None => None,
    }
}

/// Exec form of `spec_count_pair`.
fn scan_count_pair(s: &str, i: usize) -> (r: bool)
    requires
        i <= s@.len(),
    ensures
        r == spec_count_pair(s@, i as int),
{
    match scan_num(s, i) {
        Some(a) => {
            if a < s.unicode_len() && s.get_char(a) == '-' {
                scan_num(s, a + 1).is_some()
            } else {
                false
            }
        },
        None => false,
    }
}

/// Exec form of `spec_digit_pair_raw`.
fn scan_digit_pair_raw(s: &str, i: usize) -> (r: bool)
    requires
        i <= s@.len(),
    ensures
        r == spec_digit_pair_raw(s@, i as int),
{
    let (a, _) = scan_digits(s, i);
    if a > i && a < s.unicode_len() && s.get_char(a) == '-' {
        let (b, _) = scan_digits(s, a + 1);
        b > a + 1
    } else {
        false
    }
}

pub(crate) fn try_inning_turnover(s: &str) -> (r: bool)
    ensures
        r == spec_is_inning_turnover(s@),
{
    proof {
        reveal_strlit("Top");
        reveal_strlit("Bottom");
        reveal_strlit(" of ");
        reveal_strlit(", ");
        reveal_strlit(" batting.");
    }
    let slen = s.unicode_len();
    let start: usize = if starts_with_at(s, 0, "Top") {
        3
    } else if starts_with_at(s, 0, "Bottom") {
        6
    } else {
        return false;
    };
    if !starts_with_at(s, start, " of ") {
        return false;
    }
    match scan_num(s, start + 4) {
        Some(e) => {
            if !starts_with_at(s, e, ", ") {
                return false;
            }
            take_term(s, e + 2, " batting.").is_some()
        },
        None => false,
    }
}

pub(crate) fn try_batter_up(s: &str) -> (r: bool)
    ensures
        r == spec_is_batter_up(s@),
{
    proof {
        reveal_strlit(" batting for the ");
    }
    match take_term(s, 0, " batting for the ") {
        Some(p) => take_term_dot(s, p.1).is_some(),
        None => false,
    }
}

pub(crate) fn try_ball(s: &str) -> (r: bool)
    ensures
        r == spec_is_ball(s@),
{
    proof {
        reveal_strlit("Ball. ");
    }
    if !starts_with_at(s, 0, "Ball. ") {
        return false;
    }
    scan_count_pair(s, 6)
}

pub(crate) fn try_foul_ball(s: &str) -> (r: bool)
    ensures
        r == spec_is_foul_ball(s@),
{
    proof {
        reveal_strlit("Foul Ball. ");
    }
    if !starts_with_at(s, 0, "Foul Ball. ") {
        return false;
    }
    scan_count_pair(s, 11)
}

pub(crate) fn try_strikeout(s: &str) -> (r: Option<bool>)
    ensures
        r == spec_strikeout(s@),
{
    proof {
        reveal_strlit(" strikes out looking.");
        reveal_strlit(" strikes out swinging.");
    }
    if take_term(s, 0, " strikes out looking.").is_some() {
        Some(true)
    } else if take_term(s, 0, " strikes out swinging.").is_some() {
        Some(false)
    } else {
        None
    }
}

fn try_strike(s: &str) -> (r: Option<bool>)
    ensures
        r == spec_strike(s@),
{
    proof {
        reveal_strlit("Strike, swinging.");
        reveal_strlit("Strike, looking.");
    }
    let swinging = starts_with_at(s, 0, "Strike, swinging.");
    let looking = !swinging && starts_with_at(s, 0, "Strike, looking.");
    let after: usize = if swinging {
        17
    } else if looking {
        16
    } else {
        return None;
    };
    if after < s.unicode_len() && s.get_char(after) == ' ' && scan_digit_pair_raw(s, after + 1) {
        Some(looking)
    } else {
        None
    }
}

fn try_ground_out(s: &str) -> (r: bool)
    ensures
        r == spec_is_ground_out(s@),
{
    proof {
        reveal_strlit(" hit a ground out to ");
    }
    match take_term(s, 0, " hit a ground out to ") {
        Some(p) => take_term_dot(s, p.1).is_some(),
        None => false,
    }
}

fn try_flyout(s: &str) -> (r: bool)
    ensures
        r == spec_is_flyout(s@),
{
    proof {
        reveal_strlit(" hit a flyout to ");
    }
    match take_term(s, 0, " hit a flyout to ") {
        Some(p) => take_term_dot(s, p.1).is_some(),
        None => false,
    }
}

fn try_inning_end(s: &str) -> (r: bool)
    ensures
        r == spec_is_inning_end(s@),
{
    proof {
        reveal_strlit("Inning ");
        reveal_strlit(" is now an Outing.");
    }
    if !starts_with_at(s, 0, "Inning ") {
        return false;
    }
    match scan_num(s, 7) {
        Some(e) => starts_with_at(s, e, " is now an Outing."),
        None => false,
    }
}

/// Collect the scoring chain starting at `i`.
fn collect_scores(s: &str, i: usize) -> (r: (Vec<String>, usize))
    requires
        i <= s@.len(),
    ensures
        r.0.deep_view() == spec_scores(s@, i as int).0,
        r.1 as int == spec_scores(s@, i as int).1,
        r.1 <= s@.len(),
{
    proof {
        reveal_strlit(" scores!");
    }
    let len = s.unicode_len();
    let mut names: Vec<String> = Vec::new();
    let mut pos = i;
    loop
        invariant
            i <= s@.len(),
            pos <= s@.len(),
            len == s@.len(),
            spec_scores(s@, i as int).0 == names.deep_view() + spec_scores(s@, pos as int).0,
            spec_scores(s@, i as int).1 == spec_scores(s@, pos as int).1,
        ensures
            pos <= s@.len(),
            spec_scores(s@, pos as int).0 == Seq::<Seq<char>>::empty(),
            spec_scores(s@, pos as int).1 == pos as int,
            spec_scores(s@, i as int).0 == names.deep_view(),
            spec_scores(s@, i as int).1 == pos as int,
        decreases s@.len() - pos,
    {
        proof {
            reveal_strlit(" scores!");
        }
        if pos >= len || s.get_char(pos) != '\n' {
            proof {
                assert(names.deep_view() + spec_scores(s@, pos as int).0 =~= names.deep_view());
            }
            break ;
        }
        match take_term(s, pos + 1, " scores!") {
            Some(p) => {
                let (name, rest) = p;
                proof {
                    assert(spec_scores(s@, pos as int).0 == seq![name@] + spec_scores(
                        s@,
                        rest as int,
                    ).0);
                    assert(names.deep_view().push(name@) =~= names.deep_view() + seq![name@]);
                }
                let ghost old_names = names.deep_view();
                names.push(name);
                proof {
                    assert(names.deep_view() =~= old_names.push(name@));
                    assert(old_names + (seq![name@] + spec_scores(s@, rest as int).0)
                        =~= (old_names + seq![name@]) + spec_scores(s@, rest as int).0);
                }
                if rest <= pos {
                    // The terminator sits past the start, so the chain always
                    // advances; this branch is unreachable.
                    proof {
                        assert(false);
                    }
                    break ;
                }
                pos = rest;
            },
            None => {
                proof {
                    assert(names.deep_view() + spec_scores(s@, pos as int).0
                        =~= names.deep_view());
                }
                break ;
            },
        }
    }
    (names, pos)
}

fn try_hit(s: &str) -> (r: Option<(i64, Vec<String>)>)
    ensures
        r matches Some(h) ==> spec_hit(s@) == Some((h.0 as int, h.1.deep_view())),
        r is None ==> spec_hit(s@) is None,
{
    proof {
        reveal_strlit(" hits a ");
        reveal_strlit("Single");
        reveal_strlit("Double");
        reveal_strlit("Triple");
        reveal_strlit("Quadruple");
    }
    let p = match take_term(s, 0, " hits a ") {
        Some(p) => p,
        None => {
            return None;
        },
    };
    let rest = p.1;
    let bases: i64 = if starts_with_at(s, rest, "Single") {
        1
    } else if starts_with_at(s, rest, "Double") {
        2
    } else if starts_with_at(s, rest, "Triple") {
        3
    } else if starts_with_at(s, rest, "Quadruple") {
        4
    } else {
        return None;
    };
    let adv: usize = if bases == 4 {
        9
    } else {
        6
    };
    let len = s.unicode_len();
    if adv < len - rest && s.get_char(rest + adv) == '!' {
        let (scored, _) = collect_scores(s, rest + adv + 1);
        Some((bases, scored))
    } else {
        None
    }
}

fn try_double_play(s: &str) -> (r: bool)
    ensures
        r == spec_is_double_play(s@),
{
    proof {
        reveal_strlit(" hit into a double play!\n");
        reveal_strlit(" scores!");
    }
    match take_term(s, 0, " hit into a double play!\n") {
        Some(p) => take_term(s, p.1, " scores!").is_some(),
        None => false,
    }
}

/// Parse a description line. The result is exactly what
/// `spec_parse_update` prescribes.
pub fn parse_description(s: &str) -> (r: Option<ParsedUpdateData>)
    ensures
        r matches Some(p) ==> spec_parse_update(s@) == Some(p@),
        r is None ==> spec_parse_update(s@) is None,
{
    proof {
        reveal_strlit("Play ball!");
    }
    if s.unicode_len() == 0 {
        return Some(ParsedUpdateData::Empty);
    }
    if starts_with_at(s, 0, "Play ball!") {
        return Some(ParsedUpdateData::PlayBall);
    }
    if try_inning_turnover(s) {
        return Some(ParsedUpdateData::InningTurnover);
    }
    if try_batter_up(s) {
        return Some(ParsedUpdateData::BatterUp);
    }
    if try_ball(s) {
        return Some(ParsedUpdateData::Ball);
    }
    if try_foul_ball(s) {
        return Some(ParsedUpdateData::FoulBall);
    }
    match try_strikeout(s) {
        Some(true) => {
            return Some(ParsedUpdateData::StrikeoutLooking);
        },
        Some(false) => {
            return Some(ParsedUpdateData::StrikeoutSwinging);
        },
        None => {},
    }
    match try_strike(s) {
        Some(true) => {
            return Some(ParsedUpdateData::StrikeLooking);
        },
        Some(false) => {
            return Some(ParsedUpdateData::StrikeSwinging);
        },
        None => {},
    }
    if try_ground_out(s) {
        return Some(ParsedUpdateData::GroundOut);
    }
    if try_flyout(s) {
        return Some(ParsedUpdateData::Flyout);
    }
    if try_inning_end(s) {
        return Some(ParsedUpdateData::InningEnd);
    }
    match try_hit(s) {
        Some((bases, scored)) => {
            return Some(ParsedUpdateData::Hit { bases, scored });
        },
        None => {},
    }
    if try_double_play(s) {
        return Some(ParsedUpdateData::DoublePlay);
    }
    None
}

/// Parse an update's description into a typed play event; an unparsable
/// description is returned inside the error.
pub fn parse_update(game_update: &ChroniclerGameUpdate) -> (r: Result<
    ParsedUpdate,
    UpdateParseError,
>)
    ensures
        r matches Ok(p) ==> spec_parse_update(game_update.data.last_update@) == Some(p.data@),
        r matches Err(e) ==> spec_parse_update(game_update.data.last_update@) is None
            && (e matches UpdateParseError::FailedToParseDescription(d) && d@
            == game_update.data.last_update@),
{
    match parse_description(game_update.data.last_update.as_str()) {
        Some(data) => Ok(ParsedUpdate { data }),
        None => Err(
            UpdateParseError::FailedToParseDescription(game_update.data.last_update.clone()),
        ),
    }
}


/// Parser totality on the empty description: it is the `Empty` event.
pub proof fn lemma_parse_empty()
    ensures
        spec_parse_update(Seq::<char>::empty()) == Some(ParsedUpdateV::Empty),
{
}

} // verus!
