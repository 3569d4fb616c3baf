//! The roll planner: for a parsed play, the ordered draws the host must
//! have consumed, each taken from the generator and labelled with its
//! purpose and outcome.
//!
//! The order is fixed and bit-exact: every tick begins with the party
//! check, the steal-fielder pick and one steal check per starting runner;
//! a pitch adds the mild-pitch, strike-zone and swing draws; contact, the
//! fair-or-foul call, outs, flies and hits extend the chain as the play
//! demands. A "pick" (fielder choice) consumes two draws: one whose value
//! selects the index, and one recorded with the choice.

use vstd::prelude::*;
use vstd::string::StringExecFns;
use std::borrow::ToOwned;
use crate::dblbits::spec_pick;
use crate::rng::{spec_rng_mantissa, spec_state_string, Rng};
use crate::sim::{BaseRunner, GameAtTick, GameAtTickV};
use crate::thresholds::{Thresholds, ThresholdsV};
use crate::update_parser::{ParsedUpdate, ParsedUpdateV};

verus! {

/// What a single draw was for.
pub enum RollPurpose {
    Party,
    StealFielder,
    MildPitch,
    InStrikeZone,
    Swing,
    Contact,
    FairOrFoul,
    Fielder,
    Out(String),
    Fly,
    HomeRun,
    Double(String),
    Triple(String),
    Steal(i64),
    Advance((i64, bool)),
    DoublePlayHappens,
    DoublePlayWhere,
    PartyTargetTeam,
    Unparsed(String),
}

/// The mathematical image of a purpose.
pub enum RollPurposeV {
    Party,
    StealFielder,
    MildPitch,
    InStrikeZone,
    Swing,
    Contact,
    FairOrFoul,
    Fielder,
    Out(Seq<char>),
    Fly,
    HomeRun,
    Double(Seq<char>),
    Triple(Seq<char>),
    Steal(int),
    Advance((int, bool)),
    DoublePlayHappens,
    DoublePlayWhere,
    PartyTargetTeam,
    Unparsed(Seq<char>),
}

impl View for RollPurpose {
    type V = RollPurposeV;

    open spec fn view(&self) -> RollPurposeV {
        match self {
            RollPurpose::Party => RollPurposeV::Party,
            RollPurpose::StealFielder => RollPurposeV::StealFielder,
            RollPurpose::MildPitch => RollPurposeV::MildPitch,
            RollPurpose::InStrikeZone => RollPurposeV::InStrikeZone,
            RollPurpose::Swing => RollPurposeV::Swing,
            RollPurpose::Contact => RollPurposeV::Contact,
            RollPurpose::FairOrFoul => RollPurposeV::FairOrFoul,
            RollPurpose::Fielder => RollPurposeV::Fielder,
            RollPurpose::Out(name) => RollPurposeV::Out(name@),
            RollPurpose::Fly => RollPurposeV::Fly,
            RollPurpose::HomeRun => RollPurposeV::HomeRun,
            RollPurpose::Double(name) => RollPurposeV::Double(name@),
            RollPurpose::Triple(name) => RollPurposeV::Triple(name@),
            RollPurpose::Steal(base) => RollPurposeV::Steal(*base as int),
            RollPurpose::Advance(p) => RollPurposeV::Advance((p.0 as int, p.1)),
            RollPurpose::DoublePlayHappens => RollPurposeV::DoublePlayHappens,
            RollPurpose::DoublePlayWhere => RollPurposeV::DoublePlayWhere,
            RollPurpose::PartyTargetTeam => RollPurposeV::PartyTargetTeam,
            RollPurpose::Unparsed(text) => RollPurposeV::Unparsed(text@),
        }
    }
}

impl DeepView for RollPurpose {
    type V = RollPurposeV;

    open spec fn deep_view(&self) -> RollPurposeV {
        self.view()
    }
}

/// How a draw was used: checked against a threshold, or scaled into a
/// choice among `num_options`.
pub enum RollUsage {
    Threshold { threshold: Option<u64>, passed: Option<bool> },
    Choice {
        num_options: usize,
        selected_option: Option<usize>,
        selected_option_description: Option<String>,
    },
}

pub enum RollUsageV {
    Threshold { threshold: Option<u64>, passed: Option<bool> },
    Choice {
        num_options: int,
        selected_option: Option<int>,
        selected_option_description: Option<Seq<char>>,
    },
}

impl View for RollUsage {
    type V = RollUsageV;

    open spec fn view(&self) -> RollUsageV {
        match self {
            RollUsage::Threshold { threshold, passed } => RollUsageV::Threshold {
                threshold: *threshold,
                passed: *passed,
            },
            RollUsage::Choice { num_options, selected_option, selected_option_description } => RollUsageV::Choice {
                num_options: *num_options as int,
                selected_option: match selected_option {
                    Some(i) => Some(*i as int),
                    None => None,
                },
                selected_option_description: match selected_option_description {
                    Some(d) => Some(d@),
                    None => None,
                },
            },
        }
    }
}

/// One consumed draw: the generator position that produced it, its value
/// (as an IEEE 754 bit pattern), its purpose and its usage.
pub struct RollData {
    pub state_string: String,
    pub roll: u64,
    pub purpose: RollPurpose,
    pub usage: RollUsage,
}

pub struct RollDataV {
    pub state_string: Seq<char>,
    pub roll: u64,
    pub purpose: RollPurposeV,
    pub usage: RollUsageV,
}

impl View for RollData {
    type V = RollDataV;

    open spec fn view(&self) -> RollDataV {
        RollDataV {
            state_string: self.state_string@,
            roll: self.roll,
            purpose: self.purpose@,
            usage: self.usage@,
        }
    }
}

impl DeepView for RollData {
    type V = RollDataV;

    open spec fn deep_view(&self) -> RollDataV {
        self.view()
    }
}

/// A threshold draw: advance one step, record the new position and value.
pub open spec fn spec_threshold_roll(
    rng: Rng,
    purpose: RollPurposeV,
    threshold: Option<u64>,
    passed: Option<bool>,
) -> (Rng, RollDataV) {
    let r2 = rng.spec_step(1);
    (
        r2,
        RollDataV {
            state_string: spec_state_string(r2),
            roll: r2.spec_value_bits(),
            purpose,
            usage: RollUsageV::Threshold { threshold, passed },
        },
    )
}

/// A choice draw: advance one step, record the new position and value.
pub open spec fn spec_choice_roll(
    rng: Rng,
    purpose: RollPurposeV,
    num_options: int,
    selected_option: Option<int>,
    selected_option_description: Option<Seq<char>>,
) -> (Rng, RollDataV) {
    let r2 = rng.spec_step(1);
    (
        r2,
        RollDataV {
            state_string: spec_state_string(r2),
            roll: r2.spec_value_bits(),
            purpose,
            usage: RollUsageV::Choice { num_options, selected_option, selected_option_description },
        },
    )
}

impl RollData {
    /// Consume one draw and classify it against a threshold.
    pub fn for_threshold(
        rng: &mut Rng,
        purpose: RollPurpose,
        threshold: Option<u64>,
        passed: Option<bool>,
    ) -> (r: RollData)
        requires
            old(rng).wf(),
        ensures
            ({
                let sp = spec_threshold_roll(*old(rng), purpose@, threshold, passed);
                &&& *final(rng) == sp.0
                &&& r@ == sp.1
                &&& final(rng).wf()
            }),
    {
        rng.step(1);
        RollData {
            state_string: rng.state_string(),
            roll: rng.value_bits(),
            purpose,
            usage: RollUsage::Threshold { threshold, passed },
        }
    }

    /// Consume one draw and record it as a choice among `num_options`.
    pub fn for_choice(
        rng: &mut Rng,
        purpose: RollPurpose,
        num_options: usize,
        selected_option: Option<usize>,
        selected_option_description: Option<String>,
    ) -> (r: RollData)
        requires
            old(rng).wf(),
        ensures
            ({
                let sp = spec_choice_roll(
                    *old(rng),
                    purpose@,
                    num_options as int,
                    match selected_option {
                        Some(i) => Some(i as int),
                        None => None,
                    },
                    match selected_option_description {
                        Some(d) => Some(d@),
                        None => None,
                    },
                );
                &&& *final(rng) == sp.0
                &&& r@ == sp.1
                &&& final(rng).wf()
            }),
    {
        rng.step(1);
        RollData {
            state_string: rng.state_string(),
            roll: rng.value_bits(),
            purpose,
            usage: RollUsage::Choice { num_options, selected_option, selected_option_description },
        }
    }
}

/// Pick a fielder: one draw selects the index, a second is recorded with
/// the choice. Yields the new generator, the recorded draw, and the index.
pub open spec fn spec_choose_fielder(rng: Rng, g: GameAtTickV, purpose: RollPurposeV) -> (
    Rng,
    RollDataV,
    int,
) {
    let r1 = rng.spec_step(1);
    let idx = spec_pick(spec_rng_mantissa(r1), g.fielders().len() as u64) as int;
    let cr = spec_choice_roll(
        r1,
        purpose,
        g.fielders().len() as int,
        Some(idx),
        Some(g.fielders()[idx].name),
    );
    (cr.0, cr.1, idx)
}

/// The party check, and on a pass the two-way team choice.
pub open spec fn spec_party_rolls(rng: Rng, th: ThresholdsV) -> (Rng, Seq<RollDataV>) {
    let pr = spec_threshold_roll(rng, RollPurposeV::Party, Some(th.party), None);
    if pr.1.roll < th.party {
        let cr = spec_choice_roll(pr.0, RollPurposeV::PartyTargetTeam, 2, None, None);
        (cr.0, seq![pr.1, cr.1])
    } else {
        (pr.0, seq![pr.1])
    }
}

/// One steal check per starting runner, in list order, from position `i`.
pub open spec fn spec_steal_rolls(rng: Rng, runners: Seq<BaseRunner>, i: int) -> (
    Rng,
    Seq<RollDataV>,
)
    decreases runners.len() - i,
{
    if i < 0 || i >= runners.len() {
        (rng, Seq::empty())
    } else {
        let tr = spec_threshold_roll(
            rng,
            RollPurposeV::Steal(runners[i].base as int),
            None,
            None,
        );
        let rest = spec_steal_rolls(tr.0, runners, i + 1);
        (rest.0, seq![tr.1] + rest.1)
    }
}

/// The draws every tick consumes: party, the steal-fielder pick, and the
/// per-runner steal checks.
pub open spec fn spec_standard_rolls(rng: Rng, th: ThresholdsV, g: GameAtTickV) -> (
    Rng,
    Seq<RollDataV>,
) {
    let p = spec_party_rolls(rng, th);
    let cf = spec_choose_fielder(p.0, g, RollPurposeV::StealFielder);
    let st = spec_steal_rolls(cf.0, g.runners_at_start, 0);
    (st.0, p.1 + seq![cf.1] + st.1)
}

/// A pitch: the standard draws, then mild-pitch, strike-zone and swing.
pub open spec fn spec_pitch_rolls(
    rng: Rng,
    th: ThresholdsV,
    g: GameAtTickV,
    in_strike_zone: Option<bool>,
) -> (Rng, Seq<RollDataV>) {
    let s = spec_standard_rolls(rng, th, g);
    let mp = spec_threshold_roll(s.0, RollPurposeV::MildPitch, Some(th.mild_pitch), Some(false));
    let iz = spec_threshold_roll(
        mp.0,
        RollPurposeV::InStrikeZone,
        Some(th.in_strike_zone),
        in_strike_zone,
    );
    let sw = spec_threshold_roll(iz.0, RollPurposeV::Swing, None, None);
    (sw.0, s.1 + seq![mp.1, iz.1, sw.1])
}

/// A swing: a pitch plus the contact draw.
pub open spec fn spec_contact_rolls(rng: Rng, th: ThresholdsV, g: GameAtTickV) -> (
    Rng,
    Seq<RollDataV>,
) {
    let p = spec_pitch_rolls(rng, th, g, None);
    let c = spec_threshold_roll(p.0, RollPurposeV::Contact, None, None);
    (c.0, p.1 + seq![c.1])
}

/// Contact plus the fair-or-foul call.
pub open spec fn spec_foul_or_fair_rolls(rng: Rng, th: ThresholdsV, g: GameAtTickV, fair: bool) -> (
    Rng,
    Seq<RollDataV>,
) {
    let c = spec_contact_rolls(rng, th, g);
    let ff = spec_threshold_roll(c.0, RollPurposeV::FairOrFoul, Some(th.fair_ball), Some(fair));
    (ff.0, c.1 + seq![ff.1])
}

/// A fair ball: the fielder pick and the out check against that fielder.
/// Yields the picked fielder's index as well.
pub open spec fn spec_fair_rolls(rng: Rng, th: ThresholdsV, g: GameAtTickV, is_hit: bool) -> (
    Rng,
    Seq<RollDataV>,
    int,
) {
    let ff = spec_foul_or_fair_rolls(rng, th, g, true);
    let cf = spec_choose_fielder(ff.0, g, RollPurposeV::Fielder);
    let out = spec_threshold_roll(
        cf.0,
        RollPurposeV::Out(g.fielders()[cf.2].name),
        Some(th.out_by_fielder[cf.2]),
        Some(is_hit),
    );
    (out.0, ff.1 + seq![cf.1, out.1], cf.2)
}

/// Whether a ball in play can extend into a double play: runners are on
/// and one more out would end the half-inning.
pub open spec fn spec_dp_eligible(g: GameAtTickV) -> bool {
    g.runners_at_start.len() > 0 && g.outs + 1 >= g.max_outs
}

/// An out in play: the fly check, the displayed-fielder pick for ground
/// outs, and the double-play draws when eligible.
pub open spec fn spec_out_rolls(
    rng: Rng,
    th: ThresholdsV,
    g: GameAtTickV,
    is_flyout: bool,
    is_dp: bool,
) -> (Rng, Seq<RollDataV>) {
    let f = spec_fair_rolls(rng, th, g, false);
    let cf = spec_choose_fielder(f.0, g, RollPurposeV::Fielder);
    let fly = spec_threshold_roll(cf.0, RollPurposeV::Fly, Some(th.fly), Some(is_flyout));
    let base = if !is_flyout {
        let df = spec_choose_fielder(fly.0, g, RollPurposeV::Fielder);
        (df.0, f.1 + seq![cf.1, fly.1, df.1])
    } else {
        (fly.0, f.1 + seq![cf.1, fly.1])
    };
    if spec_dp_eligible(g) {
        let dp = spec_threshold_roll(base.0, RollPurposeV::DoublePlayHappens, None, None);
        if is_dp {
            let w = spec_choice_roll(
                dp.0,
                RollPurposeV::DoublePlayWhere,
                g.runners_at_start.len() as int,
                None,
                None,
            );
            (w.0, base.1 + seq![dp.1, w.1])
        } else {
            (dp.0, base.1 + seq![dp.1])
        }
    } else {
        base
    }
}

/// The end-of-tick base of the runner with the given identity, if still on
/// base: the first matching entry decides.
pub open spec fn spec_find_runner_end(ends: Seq<BaseRunner>, id: u128) -> Option<i64>
    decreases ends.len(),
{
    if ends.len() == 0 {
        None
    } else if ends[0].runner_id == id {
        Some(ends[0].base)
    } else {
        spec_find_runner_end(ends.drop_first(), id)
    }
}

/// The advancement data for the runner at position `i` is consistent:
/// occupied bases stay ahead of automatic advances, nobody moves by other
/// than zero or one extra base, and a vanished runner scored. `prev` is
/// the nearest occupied base ahead, once one is known.
pub open spec fn spec_advances_ok(g: GameAtTickV, i: int, prev: Option<int>, bases: int) -> bool
    decreases g.runners_at_start.len() - i,
{
    if i < 0 || i >= g.runners_at_start.len() {
        true
    } else {
        let runner = g.runners_at_start[i];
        let baa = runner.base + bases;
        if !(0 <= runner.base <= 1000) {
            false
        } else if prev is Some && !(prev.unwrap() > baa) {
            false
        } else if prev is Some && baa + 1 == prev.unwrap() {
            spec_advances_ok(g, i + 1, Some(baa), bases)
        } else {
            match spec_find_runner_end(g.runners_at_end, runner.runner_id) {
                Some(be) => {
                    &&& (be == baa || be == baa + 1)
                    &&& spec_advances_ok(g, i + 1, Some(be as int), bases)
                },
                None => {
                    if baa >= 3 {
                        spec_advances_ok(g, i + 1, prev, bases)
                    } else {
                        baa == 2 && spec_advances_ok(g, i + 1, prev, bases)
                    }
                },
            }
        }
    }
}

/// The advance checks after a hit, for the runners from position `i` on:
/// a runner whose next base was left open gets an advance draw, classified
/// by whether the end state shows the extra base taken. Meaningful under
/// `spec_advances_ok`.
pub open spec fn spec_advance_rolls(
    rng: Rng,
    g: GameAtTickV,
    th: ThresholdsV,
    fidx: int,
    i: int,
    prev: Option<int>,
    bases: int,
) -> (Rng, Seq<RollDataV>)
    decreases g.runners_at_start.len() - i,
{
    if i < 0 || i >= g.runners_at_start.len() {
        (rng, Seq::empty())
    } else {
        let runner = g.runners_at_start[i];
        let baa = runner.base + bases;
        if prev is Some && baa + 1 == prev.unwrap() {
            spec_advance_rolls(rng, g, th, fidx, i + 1, Some(baa), bases)
        } else {
            match spec_find_runner_end(g.runners_at_end, runner.runner_id) {
                Some(be) => {
                    let advanced = be == baa + 1;
                    let tr = spec_threshold_roll(
                        rng,
                        RollPurposeV::Advance((baa, advanced)),
                        Some(th.advance[i][fidx]),
                        Some(advanced),
                    );
                    let rest = spec_advance_rolls(tr.0, g, th, fidx, i + 1, Some(be as int), bases);
                    (rest.0, seq![tr.1] + rest.1)
                },
                None => {
                    if baa >= 3 {
                        spec_advance_rolls(rng, g, th, fidx, i + 1, prev, bases)
                    } else {
                        let tr = spec_threshold_roll(
                            rng,
                            RollPurposeV::Advance((baa, true)),
                            Some(th.advance[i][fidx]),
                            Some(true),
                        );
                        let rest = spec_advance_rolls(tr.0, g, th, fidx, i + 1, prev, bases);
                        (rest.0, seq![tr.1] + rest.1)
                    }
                },
            }
        }
    }
}

/// A hit: the home-run, double and triple checks against a freshly picked
/// fielder, then the advance chain.
pub open spec fn spec_hit_rolls(rng: Rng, th: ThresholdsV, g: GameAtTickV, bases: int) -> (
    Rng,
    Seq<RollDataV>,
) {
    let f = spec_fair_rolls(rng, th, g, true);
    let hr = spec_threshold_roll(f.0, RollPurposeV::HomeRun, Some(th.hr), Some(false));
    let cf = spec_choose_fielder(hr.0, g, RollPurposeV::Fielder);
    let dbl = spec_threshold_roll(
        cf.0,
        RollPurposeV::Double(g.fielders()[cf.2].name),
        Some(th.double_by_fielder[cf.2]),
        Some(bases == 2),
    );
    let tpl = spec_threshold_roll(
        dbl.0,
        RollPurposeV::Triple(g.fielders()[cf.2].name),
        Some(th.triple_by_fielder[cf.2]),
        Some(false),
    );
    let adv = spec_advance_rolls(tpl.0, g, th, cf.2, 0, None, bases);
    (adv.0, f.1 + seq![hr.1, cf.1, dbl.1, tpl.1] + adv.1)
}

/// The plan for a parsed update: which draws, in which order.
pub open spec fn spec_rolls_for_update(
    rng: Rng,
    parsed: ParsedUpdateV,
    th: ThresholdsV,
    g: GameAtTickV,
) -> (Rng, Seq<RollDataV>) {
    match parsed {
        ParsedUpdateV::Empty => (rng, Seq::empty()),
        ParsedUpdateV::PlayBall => (rng, Seq::empty()),
        ParsedUpdateV::InningTurnover => (rng, Seq::empty()),
        ParsedUpdateV::BatterUp => (rng, Seq::empty()),
        ParsedUpdateV::InningEnd => (rng, Seq::empty()),
        ParsedUpdateV::Ball => spec_pitch_rolls(rng, th, g, Some(false)),
        ParsedUpdateV::FoulBall => spec_foul_or_fair_rolls(rng, th, g, false),
        ParsedUpdateV::StrikeLooking => spec_pitch_rolls(rng, th, g, Some(true)),
        ParsedUpdateV::StrikeoutLooking => spec_pitch_rolls(rng, th, g, Some(true)),
        ParsedUpdateV::StrikeSwinging => spec_contact_rolls(rng, th, g),
        ParsedUpdateV::StrikeoutSwinging => spec_contact_rolls(rng, th, g),
        ParsedUpdateV::GroundOut => spec_out_rolls(rng, th, g, false, false),
        ParsedUpdateV::Flyout => spec_out_rolls(rng, th, g, true, false),
        ParsedUpdateV::Hit { bases, scored } => spec_hit_rolls(rng, th, g, bases),
        ParsedUpdateV::DoublePlay => spec_out_rolls(rng, th, g, false, true),
    }
}

/// The plan exists: a hit's advancement data must be consistent (the
/// replay treats contradictory baserunning as stream corruption).
pub open spec fn spec_plan_ok(parsed: ParsedUpdateV, g: GameAtTickV) -> bool {
    match parsed {
        ParsedUpdateV::Hit { bases, scored } => 1 <= bases <= 4 && spec_advances_ok(
            g,
            0,
            None,
            bases,
        ),
        _ => true,
    }
}


/// Exec form of `spec_find_runner_end`, from position `i`.
pub open spec fn spec_find_runner_end_from(ends: Seq<BaseRunner>, id: u128, i: int) -> Option<i64>
    decreases ends.len() - i,
{
    if i < 0 || i >= ends.len() {
        None
    } else if ends[i].runner_id == id {
        Some(ends[i].base)
    } else {
        spec_find_runner_end_from(ends, id, i + 1)
    }
}

/// The two search forms agree.
pub proof fn lemma_find_runner_end_from(ends: Seq<BaseRunner>, id: u128, i: int)
    requires
        0 <= i <= ends.len(),
    ensures
        spec_find_runner_end_from(ends, id, i) == spec_find_runner_end(ends.skip(i), id),
    decreases ends.len() - i,
{
    if i < ends.len() {
        assert(ends.skip(i)[0] == ends[i]);
        assert(ends.skip(i).drop_first() =~= ends.skip(i + 1));
        lemma_find_runner_end_from(ends, id, i + 1);
    }
}

/// Find a runner's end-of-tick base by identity: the first match decides.
fn find_runner_end(ends: &Vec<BaseRunner>, id: u128) -> (r: Option<i64>)
    ensures
        r == spec_find_runner_end_from(ends@, id, 0),
{
    let mut i: usize = 0;
    while i < ends.len()
        invariant
            i <= ends@.len(),
            spec_find_runner_end_from(ends@, id, 0) == spec_find_runner_end_from(
                ends@,
                id,
                i as int,
            ),
        decreases ends@.len() - i,
    {
        if ends[i].runner_id == id {
            return Some(ends[i].base);
        }
        i += 1;
    }
    None
}


/// Exec form of `spec_choose_fielder`: push the recorded draw and return
/// the picked index.
fn choose_fielder_for_purpose(
    rng: &mut Rng,
    game: &GameAtTick,
    rolls: &mut Vec<RollData>,
    purpose: RollPurpose,
) -> (idx: usize)
    requires
        old(rng).wf(),
        game@.wf(),
    ensures
        ({
            let sp = spec_choose_fielder(*old(rng), game@, purpose@);
            &&& *final(rng) == sp.0
            &&& final(rolls).deep_view() == old(rolls).deep_view() + seq![sp.1]
            &&& idx as int == sp.2
            &&& idx < game@.fielders().len()
            &&& final(rng).wf()
        }),
{
    rng.step(1);
    let n = game.num_fielders();
    let fielder_idx = crate::dblbits::pick_index(rng.mantissa(), n as u64) as usize;
    let fielder = game.fielder(fielder_idx);
    let rd = RollData::for_choice(
        rng,
        purpose,
        n,
        Some(fielder_idx),
        Some(fielder.name.clone()),
    );
    let ghost before = rolls.deep_view();
    let ghost rdv = rd@;
    rolls.push(rd);
    proof {
        assert(rolls.deep_view() =~= before + seq![rdv]);
    }
    fielder_idx
}

/// Exec form of `spec_choose_fielder` with the generic `Fielder` purpose.
fn choose_fielder(rng: &mut Rng, game: &GameAtTick, rolls: &mut Vec<RollData>) -> (idx: usize)
    requires
        old(rng).wf(),
        game@.wf(),
    ensures
        ({
            let sp = spec_choose_fielder(*old(rng), game@, RollPurposeV::Fielder);
            &&& *final(rng) == sp.0
            &&& final(rolls).deep_view() == old(rolls).deep_view() + seq![sp.1]
            &&& idx as int == sp.2
            &&& idx < game@.fielders().len()
            &&& final(rng).wf()
        }),
{
    choose_fielder_for_purpose(rng, game, rolls, RollPurpose::Fielder)
}

/// Exec form of `spec_party_rolls`.
fn party_rolls(rng: &mut Rng, th: &Thresholds) -> (rolls: Vec<RollData>)
    requires
        old(rng).wf(),
    ensures
        ({
            let sp = spec_party_rolls(*old(rng), th@);
            &&& *final(rng) == sp.0
            &&& rolls.deep_view() == sp.1
            &&& final(rng).wf()
        }),
{
    let mut rolls: Vec<RollData> = Vec::new();
    let party_threshold = th.party;
    let party_roll = RollData::for_threshold(
        rng,
        RollPurpose::Party,
        Some(party_threshold),
        None,
    );
    let party_roll_passed = party_roll.roll < party_threshold;
    let ghost pr = party_roll@;
    rolls.push(party_roll);
    if party_roll_passed {
        let second = RollData::for_choice(rng, RollPurpose::PartyTargetTeam, 2, None, None);
        let ghost sc = second@;
        rolls.push(second);
        proof {
            assert(rolls.deep_view() =~= seq![pr, sc]);
        }
    } else {
        proof {
            assert(rolls.deep_view() =~= seq![pr]);
        }
    }
    rolls
}

/// Exec form of `spec_standard_rolls`.
fn standard_rolls(rng: &mut Rng, th: &Thresholds, game: &GameAtTick) -> (rolls: Vec<RollData>)
    requires
        old(rng).wf(),
        game@.wf(),
    ensures
        ({
            let sp = spec_standard_rolls(*old(rng), th@, game@);
            &&& *final(rng) == sp.0
            &&& rolls.deep_view() == sp.1
            &&& final(rng).wf()
        }),
{
    let mut rolls = party_rolls(rng, th);
    let _steal_fielder = choose_fielder_for_purpose(
        rng,
        game,
        &mut rolls,
        RollPurpose::StealFielder,
    );
    let ghost rng_mid = *rng;
    let ghost acc_mid = rolls.deep_view();
    let ghost target = spec_steal_rolls(rng_mid, game.runners_at_start@, 0);
    let mut i: usize = 0;
    while i < game.runners_at_start.len()
        invariant
            rng.wf(),
            i <= game.runners_at_start@.len(),
            target.0 == spec_steal_rolls(*rng, game.runners_at_start@, i as int).0,
            acc_mid + target.1 == rolls.deep_view() + spec_steal_rolls(
                *rng,
                game.runners_at_start@,
                i as int,
            ).1,
        decreases game.runners_at_start@.len() - i,
    {
        let ghost rng_before = *rng;
        let ghost acc_before = rolls.deep_view();
        let rd = RollData::for_threshold(
            rng,
            RollPurpose::Steal(game.runners_at_start[i].base),
            None,
            None,
        );
        let ghost rdv = rd@;
        rolls.push(rd);
        proof {
            assert(rolls.deep_view() =~= acc_before + seq![rdv]);
            let rem_before = spec_steal_rolls(rng_before, game.runners_at_start@, i as int);
            let rem_after = spec_steal_rolls(*rng, game.runners_at_start@, i + 1 as int);
            assert(rem_before.1 =~= seq![rdv] + rem_after.1);
            assert((acc_before + seq![rdv]) + rem_after.1 =~= acc_before + (seq![rdv]
                + rem_after.1));
        }
        i += 1;
    }
    proof {
        assert(spec_steal_rolls(*rng, game.runners_at_start@, i as int).1
            =~= Seq::<RollDataV>::empty());
        assert(rolls.deep_view() + Seq::<RollDataV>::empty() =~= rolls.deep_view());
        assert(rolls.deep_view() =~= acc_mid + target.1);
        let sp = spec_standard_rolls(*old(rng), th@, game@);
        assert(sp.1 =~= acc_mid + target.1);
    }
    rolls
}

/// Exec form of `spec_pitch_rolls`.
fn rolls_for_pitch(
    rng: &mut Rng,
    th: &Thresholds,
    game: &GameAtTick,
    in_strike_zone: Option<bool>,
) -> (rolls: Vec<RollData>)
    requires
        old(rng).wf(),
        game@.wf(),
    ensures
        ({
            let sp = spec_pitch_rolls(*old(rng), th@, game@, in_strike_zone);
            &&& *final(rng) == sp.0
            &&& rolls.deep_view() == sp.1
            &&& final(rng).wf()
        }),
{
    let mut rolls = standard_rolls(rng, th, game);
    let ghost acc0 = rolls.deep_view();
    let r1 = RollData::for_threshold(rng, RollPurpose::MildPitch, Some(th.mild_pitch), Some(false));
    let ghost v1 = r1@;
    rolls.push(r1);
    let r2 = RollData::for_threshold(
        rng,
        RollPurpose::InStrikeZone,
        Some(th.in_strike_zone),
        in_strike_zone,
    );
    let ghost v2 = r2@;
    rolls.push(r2);
    let r3 = RollData::for_threshold(rng, RollPurpose::Swing, None, None);
    let ghost v3 = r3@;
    rolls.push(r3);
    proof {
        assert(rolls.deep_view() =~= acc0 + seq![v1, v2, v3]);
    }
    rolls
}

/// Exec form of `spec_contact_rolls`.
fn rolls_for_contact(rng: &mut Rng, th: &Thresholds, game: &GameAtTick) -> (rolls: Vec<RollData>)
    requires
        old(rng).wf(),
        game@.wf(),
    ensures
        ({
            let sp = spec_contact_rolls(*old(rng), th@, game@);
            &&& *final(rng) == sp.0
            &&& rolls.deep_view() == sp.1
            &&& final(rng).wf()
        }),
{
    let mut rolls = rolls_for_pitch(rng, th, game, None);
    let ghost acc0 = rolls.deep_view();
    let r1 = RollData::for_threshold(rng, RollPurpose::Contact, None, None);
    let ghost v1 = r1@;
    rolls.push(r1);
    proof {
        assert(rolls.deep_view() =~= acc0 + seq![v1]);
    }
    rolls
}

/// Exec form of `spec_foul_or_fair_rolls`.
fn rolls_for_foul_or_fair(rng: &mut Rng, th: &Thresholds, game: &GameAtTick, fair: bool) -> (rolls:
    Vec<RollData>)
    requires
        old(rng).wf(),
        game@.wf(),
    ensures
        ({
            let sp = spec_foul_or_fair_rolls(*old(rng), th@, game@, fair);
            &&& *final(rng) == sp.0
            &&& rolls.deep_view() == sp.1
            &&& final(rng).wf()
        }),
{
    let mut rolls = rolls_for_contact(rng, th, game);
    let ghost acc0 = rolls.deep_view();
    let r1 = RollData::for_threshold(
        rng,
        RollPurpose::FairOrFoul,
        Some(th.fair_ball),
        Some(fair),
    );
    let ghost v1 = r1@;
    rolls.push(r1);
    proof {
        assert(rolls.deep_view() =~= acc0 + seq![v1]);
    }
    rolls
}

/// A foul ball's draws.
fn rolls_for_foul(rng: &mut Rng, th: &Thresholds, game: &GameAtTick) -> (rolls: Vec<RollData>)
    requires
        old(rng).wf(),
        game@.wf(),
    ensures
        ({
            let sp = spec_foul_or_fair_rolls(*old(rng), th@, game@, false);
            &&& *final(rng) == sp.0
            &&& rolls.deep_view() == sp.1
            &&& final(rng).wf()
        }),
{
    rolls_for_foul_or_fair(rng, th, game, false)
}

/// Exec form of `spec_fair_rolls`: also hands back the picked fielder.
#[verifier::rlimit(100)]
#[verifier::spinoff_prover]
fn rolls_for_fair(rng: &mut Rng, th: &Thresholds, game: &GameAtTick, is_hit: bool) -> (r: (
    Vec<RollData>,
    usize,
))
    requires
        old(rng).wf(),
        game@.wf(),
        th@.wf(game@.fielders().len() as int, game@.runners_at_start.len() as int),
    ensures
        ({
            let sp = spec_fair_rolls(*old(rng), th@, game@, is_hit);
            &&& *final(rng) == sp.0
            &&& r.0.deep_view() == sp.1
            &&& r.1 as int == sp.2
            &&& r.1 < game@.fielders().len()
            &&& final(rng).wf()
        }),
{
    let mut rolls = rolls_for_foul_or_fair(rng, th, game, true);
    let ghost acc0 = rolls.deep_view();
    let hit_fielder = choose_fielder(rng, game, &mut rolls);
    let ghost acc1 = rolls.deep_view();
    let name = game.fielder(hit_fielder).name.clone();
    let r1 = RollData::for_threshold(
        rng,
        RollPurpose::Out(name),
        Some(th.out_by_fielder[hit_fielder]),
        Some(is_hit),
    );
    let ghost v1 = r1@;
    rolls.push(r1);
    proof {
        assert(rolls.deep_view() =~= acc1 + seq![v1]);
        let sp = spec_fair_rolls(*old(rng), th@, game@, is_hit);
        assert(rolls.deep_view() =~= sp.1);
    }
    (rolls, hit_fielder)
}

/// Exec form of `spec_out_rolls`.
#[verifier::rlimit(100)]
#[verifier::spinoff_prover]
fn rolls_for_out(
    rng: &mut Rng,
    th: &Thresholds,
    game: &GameAtTick,
    is_flyout: bool,
    is_dp: bool,
) -> (rolls: Vec<RollData>)
    requires
        old(rng).wf(),
        game@.wf(),
        th@.wf(game@.fielders().len() as int, game@.runners_at_start.len() as int),
    ensures
        ({
            let sp = spec_out_rolls(*old(rng), th@, game@, is_flyout, is_dp);
            &&& *final(rng) == sp.0
            &&& rolls.deep_view() == sp.1
            &&& final(rng).wf()
        }),
{
    let (mut rolls, _hit_fielder) = rolls_for_fair(rng, th, game, false);
    let _fly_fielder = choose_fielder(rng, game, &mut rolls);
    let ghost acc0 = rolls.deep_view();
    let r1 = RollData::for_threshold(rng, RollPurpose::Fly, Some(th.fly), Some(is_flyout));
    let ghost v1 = r1@;
    rolls.push(r1);
    proof {
        assert(rolls.deep_view() =~= acc0 + seq![v1]);
    }
    if !is_flyout {
        // Flyouts keep the catching fielder; ground outs pick the displayed
        // fielder afresh.
        let _displayed_fielder = choose_fielder(rng, game, &mut rolls);
    }
    let eligible_for_double_play = game.runners_at_start.len() > 0 && (game.outs as i128) + 1
        >= (game.max_outs as i128);
    if eligible_for_double_play {
        let ghost acc1 = rolls.deep_view();
        let r2 = RollData::for_threshold(rng, RollPurpose::DoublePlayHappens, None, None);
        let ghost v2 = r2@;
        rolls.push(r2);
        proof {
            assert(rolls.deep_view() =~= acc1 + seq![v2]);
        }
        if is_dp {
            let ghost acc2 = rolls.deep_view();
            let r3 = RollData::for_choice(
                rng,
                RollPurpose::DoublePlayWhere,
                game.runners_at_start.len(),
                None,
                None,
            );
            let ghost v3 = r3@;
            rolls.push(r3);
            proof {
                assert(rolls.deep_view() =~= acc2 + seq![v3]);
            }
        }
    }
    proof {
        let sp = spec_out_rolls(*old(rng), th@, game@, is_flyout, is_dp);
        assert(rolls.deep_view() =~= sp.1);
    }
    rolls
}

/// A plain out in play.
fn rolls_for_basic_out(rng: &mut Rng, th: &Thresholds, game: &GameAtTick, is_flyout: bool) -> (rolls:
    Vec<RollData>)
    requires
        old(rng).wf(),
        game@.wf(),
        th@.wf(game@.fielders().len() as int, game@.runners_at_start.len() as int),
    ensures
        ({
            let sp = spec_out_rolls(*old(rng), th@, game@, is_flyout, false);
            &&& *final(rng) == sp.0
            &&& rolls.deep_view() == sp.1
            &&& final(rng).wf()
        }),
{
    rolls_for_out(rng, th, game, is_flyout, false)
}

/// A double play.
fn rolls_for_double_play(rng: &mut Rng, th: &Thresholds, game: &GameAtTick) -> (rolls: Vec<
    RollData,
>)
    requires
        old(rng).wf(),
        game@.wf(),
        th@.wf(game@.fielders().len() as int, game@.runners_at_start.len() as int),
    ensures
        ({
            let sp = spec_out_rolls(*old(rng), th@, game@, false, true);
            &&& *final(rng) == sp.0
            &&& rolls.deep_view() == sp.1
            &&& final(rng).wf()
        }),
{
    rolls_for_out(rng, th, game, false, true)
}

/// The ghost image of an optional occupied base.
pub open spec fn spec_opt_base(o: Option<i64>) -> Option<int> {
    match o {
        Some(b) => Some(b as int),
        None => None,
    }
}

/// Exec form of `spec_hit_rolls`.
#[verifier::rlimit(100)]
#[verifier::spinoff_prover]
fn rolls_for_hit(
    rng: &mut Rng,
    th: &Thresholds,
    game: &GameAtTick,
    hit_bases: i64,
    scored: Vec<String>,
) -> (rolls: Vec<RollData>)
    requires
        old(rng).wf(),
        game@.wf(),
        th@.wf(game@.fielders().len() as int, game@.runners_at_start.len() as int),
        1 <= hit_bases <= 4,
        spec_advances_ok(game@, 0, None, hit_bases as int),
    ensures
        ({
            let sp = spec_hit_rolls(*old(rng), th@, game@, hit_bases as int);
            &&& *final(rng) == sp.0
            &&& rolls.deep_view() == sp.1
            &&& final(rng).wf()
        }),
{
    let (mut rolls, _hit_fielder) = rolls_for_fair(rng, th, game, true);
    let ghost acc0 = rolls.deep_view();
    let r1 = RollData::for_threshold(rng, RollPurpose::HomeRun, Some(th.hr), Some(false));
    let ghost v1 = r1@;
    rolls.push(r1);
    proof {
        assert(rolls.deep_view() =~= acc0 + seq![v1]);
    }
    let fielder = choose_fielder(rng, game, &mut rolls);
    let ghost acc1 = rolls.deep_view();
    let r2 = RollData::for_threshold(
        rng,
        RollPurpose::Double(game.fielder(fielder).name.clone()),
        Some(th.double_by_fielder[fielder]),
        Some(hit_bases == 2),
    );
    let ghost v2 = r2@;
    rolls.push(r2);
    let r3 = RollData::for_threshold(
        rng,
        RollPurpose::Triple(game.fielder(fielder).name.clone()),
        Some(th.triple_by_fielder[fielder]),
        Some(false),
    );
    let ghost v3 = r3@;
    rolls.push(r3);
    proof {
        assert(rolls.deep_view() =~= acc1 + seq![v2, v3]);
    }
    let ghost rng_mid = *rng;
    let ghost acc_mid = rolls.deep_view();
    let ghost target = spec_advance_rolls(
        rng_mid,
        game@,
        th@,
        fielder as int,
        0,
        None,
        hit_bases as int,
    );
    let mut prev_occupied: Option<i64> = None;
    let mut i: usize = 0;
    while i < game.runners_at_start.len()
        invariant
            rng.wf(),
            game@.wf(),
            th@.wf(game@.fielders().len() as int, game@.runners_at_start.len() as int),
            i <= game.runners_at_start@.len(),
            fielder < game@.fielders().len(),
            1 <= hit_bases <= 4,
            spec_advances_ok(game@, i as int, spec_opt_base(prev_occupied), hit_bases as int),
            prev_occupied matches Some(b) ==> 0 <= b <= 2000,
            target.0 == spec_advance_rolls(
                *rng,
                game@,
                th@,
                fielder as int,
                i as int,
                spec_opt_base(prev_occupied),
                hit_bases as int,
            ).0,
            acc_mid + target.1 == rolls.deep_view() + spec_advance_rolls(
                *rng,
                game@,
                th@,
                fielder as int,
                i as int,
                spec_opt_base(prev_occupied),
                hit_bases as int,
            ).1,
        decreases game.runners_at_start@.len() - i,
    {
        let ghost prev0 = spec_opt_base(prev_occupied);
        let ghost rng0 = *rng;
        let ghost acc0 = rolls.deep_view();
        let ghost rem0 = spec_advance_rolls(
            rng0,
            game@,
            th@,
            fielder as int,
            i as int,
            prev0,
            hit_bases as int,
        );
        proof {
            assert(th@.advance =~= th.advance.deep_view());
            assert(i < th.advance@.len());
            assert(th@.advance[i as int] =~= th.advance@[i as int].deep_view());
            assert(fielder < th.advance@[i as int]@.len());
            assert(th.advance@[i as int]@[fielder as int] == th@.advance[i as int][fielder as int]);
        }
        let runner = game.runners_at_start[i];
        let base_after_automatic_advance = runner.base + hit_bases;
        let mut skip = false;
        match prev_occupied {
            Some(occupied_base) => {
                if base_after_automatic_advance + 1 == occupied_base {
                    // The next base up is taken: this runner cannot advance.
                    prev_occupied = Some(base_after_automatic_advance);
                    skip = true;
                }
            },
            None => {},
        }
        if !skip {
            let base_at_end = find_runner_end(&game.runners_at_end, runner.runner_id);
            proof {
                lemma_find_runner_end_from(game.runners_at_end@, runner.runner_id, 0);
                assert(game.runners_at_end@.skip(0) =~= game.runners_at_end@);
            }
            match base_at_end {
                Some(be) => {
                    proof {
                        // The consistency precondition pins the end base to
                        // the automatic advance or one beyond it.
                        assert(be == base_after_automatic_advance || be
                            == base_after_automatic_advance + 1);
                    }
                    let advanced = if be == base_after_automatic_advance {
                        false
                    } else {
                        true
                    };
                    let rd = RollData::for_threshold(
                        rng,
                        RollPurpose::Advance((base_after_automatic_advance, advanced)),
                        Some(th.advance[i][fielder]),
                        Some(advanced),
                    );
                    let ghost rdv = rd@;
                    rolls.push(rd);
                    prev_occupied = Some(be);
                    proof {
                        assert(rolls.deep_view() =~= acc0 + seq![rdv]);
                        let rem_after = spec_advance_rolls(
                            *rng,
                            game@,
                            th@,
                            fielder as int,
                            i + 1 as int,
                            Some(be as int),
                            hit_bases as int,
                        );
                        assert(rem0.1 =~= seq![rdv] + rem_after.1);
                        assert((acc0 + seq![rdv]) + rem_after.1 =~= acc0 + (seq![rdv]
                            + rem_after.1));
                    }
                },
                None => {
                    if base_after_automatic_advance >= 3 {
                        // Scored on the automatic advance: no draw.
                    } else {
                        let rd = RollData::for_threshold(
                            rng,
                            RollPurpose::Advance((base_after_automatic_advance, true)),
                            Some(th.advance[i][fielder]),
                            Some(true),
                        );
                        let ghost rdv = rd@;
                        rolls.push(rd);
                        proof {
                            assert(rolls.deep_view() =~= acc0 + seq![rdv]);
                            let rem_after = spec_advance_rolls(
                                *rng,
                                game@,
                                th@,
                                fielder as int,
                                i + 1 as int,
                                prev0,
                                hit_bases as int,
                            );
                            assert(rem0.1 =~= seq![rdv] + rem_after.1);
                            assert((acc0 + seq![rdv]) + rem_after.1 =~= acc0 + (seq![rdv]
                                + rem_after.1));
                        }
                    }
                },
            }
        }
        i += 1;
    }
    proof {
        assert(spec_advance_rolls(
            *rng,
            game@,
            th@,
            fielder as int,
            i as int,
            spec_opt_base(prev_occupied),
            hit_bases as int,
        ).1 =~= Seq::<RollDataV>::empty());
        assert(rolls.deep_view() + Seq::<RollDataV>::empty() =~= rolls.deep_view());
        assert(rolls.deep_view() =~= acc_mid + target.1);
        let sp = spec_hit_rolls(*old(rng), th@, game@, hit_bases as int);
        assert(sp.1 =~= acc_mid + target.1);
    }
    rolls
}

/// Exec form of `spec_advances_ok`: can this hit's advancement data be
/// replayed?
pub fn advances_ok(game: &GameAtTick, hit_bases: i64) -> (r: bool)
    requires
        1 <= hit_bases <= 4,
    ensures
        r == spec_advances_ok(game@, 0, None, hit_bases as int),
{
    let mut prev_occupied: Option<i64> = None;
    let mut i: usize = 0;
    loop
        invariant
            1 <= hit_bases <= 4,
            i <= game.runners_at_start@.len(),
            prev_occupied matches Some(b) ==> 0 <= b <= 2000,
            spec_advances_ok(game@, 0, None, hit_bases as int) == spec_advances_ok(
                game@,
                i as int,
                spec_opt_base(prev_occupied),
                hit_bases as int,
            ),
        ensures
            spec_advances_ok(game@, 0, None, hit_bases as int) == spec_advances_ok(
                game@,
                i as int,
                spec_opt_base(prev_occupied),
                hit_bases as int,
            ),
            i >= game.runners_at_start@.len() || !spec_advances_ok(
                game@,
                i as int,
                spec_opt_base(prev_occupied),
                hit_bases as int,
            ),
        decreases game.runners_at_start@.len() - i,
    {
        if i >= game.runners_at_start.len() {
            break ;
        }
        let runner = game.runners_at_start[i];
        if !(0 <= runner.base && runner.base <= 1000) {
            break ;
        }
        let baa = runner.base + hit_bases;
        let mut skip = false;
        let mut bad = false;
        match prev_occupied {
            Some(ob) => {
                if !(ob > baa) {
                    bad = true;
                } else if baa + 1 == ob {
                    prev_occupied = Some(baa);
                    skip = true;
                }
            },
            None => {},
        }
        if bad {
            break ;
        }
        if !skip {
            let base_at_end = find_runner_end(&game.runners_at_end, runner.runner_id);
            proof {
                lemma_find_runner_end_from(game.runners_at_end@, runner.runner_id, 0);
                assert(game.runners_at_end@.skip(0) =~= game.runners_at_end@);
            }
            match base_at_end {
                Some(be) => {
                    if be == baa || be == baa + 1 {
                        prev_occupied = Some(be);
                    } else {
                        break ;
                    }
                },
                None => {
                    if baa >= 3 {
                    } else if baa == 2 {
                    } else {
                        break ;
                    }
                },
            }
        }
        i += 1;
    }
    if i >= game.runners_at_start.len() {
        proof {
            assert(spec_advances_ok(
                game@,
                i as int,
                spec_opt_base(prev_occupied),
                hit_bases as int,
            ));
        }
        true
    } else {
        false
    }
}

/// Exec form of `spec_plan_ok`.
pub fn plan_ok(update: &ParsedUpdate, game: &GameAtTick) -> (r: bool)
    ensures
        r == spec_plan_ok(update.data@, game@),
{
    match &update.data {
        crate::update_parser::ParsedUpdateData::Hit { bases, scored } => {
            if 1 <= *bases && *bases <= 4 {
                advances_ok(game, *bases)
            } else {
                false
            }
        },
        _ => true,
    }
}

/// The draws for one parsed update, in host order, consumed from the
/// generator. Every draw, its purpose, threshold and outcome are exactly
/// those `spec_rolls_for_update` prescribes.
#[verifier::rlimit(100)]
pub fn rolls_for_update(
    rng: &mut Rng,
    update: ParsedUpdate,
    th: &Thresholds,
    game: &GameAtTick,
) -> (rolls: Vec<RollData>)
    requires
        old(rng).wf(),
        game@.wf(),
        th@.wf(game@.fielders().len() as int, game@.runners_at_start.len() as int),
        spec_plan_ok(update.data@, game@),
    ensures
        ({
            let sp = spec_rolls_for_update(*old(rng), update.data@, th@, game@);
            &&& *final(rng) == sp.0
            &&& rolls.deep_view() == sp.1
            &&& final(rng).wf()
        }),
{
    match update.data {
        crate::update_parser::ParsedUpdateData::Empty => Vec::new(),
        crate::update_parser::ParsedUpdateData::PlayBall => Vec::new(),
        crate::update_parser::ParsedUpdateData::InningTurnover => Vec::new(),
        crate::update_parser::ParsedUpdateData::BatterUp => Vec::new(),
        crate::update_parser::ParsedUpdateData::InningEnd => Vec::new(),
        crate::update_parser::ParsedUpdateData::Ball => rolls_for_pitch(
            rng,
            th,
            game,
            Some(false),
        ),
        crate::update_parser::ParsedUpdateData::FoulBall => rolls_for_foul(rng, th, game),
        crate::update_parser::ParsedUpdateData::StrikeLooking => rolls_for_pitch(
            rng,
            th,
            game,
            Some(true),
        ),
        crate::update_parser::ParsedUpdateData::StrikeoutLooking => rolls_for_pitch(
            rng,
            th,
            game,
            Some(true),
        ),
        crate::update_parser::ParsedUpdateData::StrikeSwinging => rolls_for_contact(rng, th, game),
        crate::update_parser::ParsedUpdateData::StrikeoutSwinging => rolls_for_contact(
            rng,
            th,
            game,
        ),
        crate::update_parser::ParsedUpdateData::GroundOut => rolls_for_basic_out(
            rng,
            th,
            game,
            false,
        ),
        crate::update_parser::ParsedUpdateData::Flyout => rolls_for_basic_out(rng, th, game, true),
        crate::update_parser::ParsedUpdateData::Hit { bases, scored } => rolls_for_hit(
            rng,
            th,
            game,
            bases,
            scored,
        ),
        crate::update_parser::ParsedUpdateData::DoublePlay => rolls_for_double_play(rng, th, game),
    }
}


/// The display line a purpose renders to.
pub open spec fn spec_purpose_text(p: RollPurposeV) -> Seq<char> {
    match p {
        RollPurposeV::Party => "Did the party roll pass?"@,
        RollPurposeV::StealFielder => "Choose the steal fielder"@,
        RollPurposeV::MildPitch => "Mild pitch?"@,
        RollPurposeV::InStrikeZone => "Ball in strike zone?"@,
        RollPurposeV::Swing => "Did batter swing?"@,
        RollPurposeV::Contact => "Did batter make contact?"@,
        RollPurposeV::FairOrFoul => "Was the ball fair?"@,
        RollPurposeV::Fielder => "Choose the fielder"@,
        RollPurposeV::Out(name) => "Did "@ + name + " catch the out?"@,
        RollPurposeV::Fly => "Was it a flyout?"@,
        RollPurposeV::HomeRun => "Was it a home run?"@,
        RollPurposeV::Double(name) => "Was it a double? (with fielder "@ + name + ")"@,
        RollPurposeV::Triple(name) => "Was it a triple? (with fielder "@ + name + ")"@,
        RollPurposeV::Steal(base) => "Did the runner steal base "@
            + crate::numeral::spec_dec_i64(base) + "?"@,
        RollPurposeV::Advance(p) => "Did the runner advance?"@,
        RollPurposeV::DoublePlayHappens => "Was there a double play?"@,
        RollPurposeV::DoublePlayWhere => "Where was the double play?"@,
        RollPurposeV::PartyTargetTeam => "Which team partied?"@,
        RollPurposeV::Unparsed(val) => "Other: "@ + val,
    }
}

/// The tag-and-payload rendering of a purpose, used when two purposes are
/// shown side by side on a mismatch.
pub open spec fn spec_purpose_tag(p: RollPurposeV) -> Seq<char> {
    match p {
        RollPurposeV::Party => "Party"@,
        RollPurposeV::StealFielder => "StealFielder"@,
        RollPurposeV::MildPitch => "MildPitch"@,
        RollPurposeV::InStrikeZone => "InStrikeZone"@,
        RollPurposeV::Swing => "Swing"@,
        RollPurposeV::Contact => "Contact"@,
        RollPurposeV::FairOrFoul => "FairOrFoul"@,
        RollPurposeV::Fielder => "Fielder"@,
        RollPurposeV::Out(name) => "Out("@ + name + ")"@,
        RollPurposeV::Fly => "Fly"@,
        RollPurposeV::HomeRun => "HomeRun"@,
        RollPurposeV::Double(name) => "Double("@ + name + ")"@,
        RollPurposeV::Triple(name) => "Triple("@ + name + ")"@,
        RollPurposeV::Steal(base) => "Steal("@ + crate::numeral::spec_dec_i64(base) + ")"@,
        RollPurposeV::Advance(p) => "Advance(("@ + crate::numeral::spec_dec_i64(p.0) + ", "@ + (
        if p.1 {
            "true"@
        } else {
            "false"@
        }) + "))"@,
        RollPurposeV::DoublePlayHappens => "DoublePlayHappens"@,
        RollPurposeV::DoublePlayWhere => "DoublePlayWhere"@,
        RollPurposeV::PartyTargetTeam => "PartyTargetTeam"@,
        RollPurposeV::Unparsed(val) => "Unparsed("@ + val + ")"@,
    }
}

impl RollPurpose {
    /// Render the purpose as its display line.
    pub fn describe(&self) -> (r: String)
        ensures
            r@ == spec_purpose_text(self@),
    {
        match self {
            RollPurpose::Party => "Did the party roll pass?".to_owned(),
            RollPurpose::StealFielder => "Choose the steal fielder".to_owned(),
            RollPurpose::MildPitch => "Mild pitch?".to_owned(),
            RollPurpose::InStrikeZone => "Ball in strike zone?".to_owned(),
            RollPurpose::Swing => "Did batter swing?".to_owned(),
            RollPurpose::Contact => "Did batter make contact?".to_owned(),
            RollPurpose::FairOrFoul => "Was the ball fair?".to_owned(),
            RollPurpose::Fielder => "Choose the fielder".to_owned(),
            RollPurpose::Out(name) => {
                let mut s = "Did ".to_owned();
                s.append(name.as_str());
                s.append(" catch the out?");
                s
            },
            RollPurpose::Fly => "Was it a flyout?".to_owned(),
            RollPurpose::HomeRun => "Was it a home run?".to_owned(),
            RollPurpose::Double(name) => {
                let mut s = "Was it a double? (with fielder ".to_owned();
                s.append(name.as_str());
                s.append(")");
                s
            },
            RollPurpose::Triple(name) => {
                let mut s = "Was it a triple? (with fielder ".to_owned();
                s.append(name.as_str());
                s.append(")");
                s
            },
            RollPurpose::Steal(base) => {
                let mut s = "Did the runner steal base ".to_owned();
                s.append(crate::numeral::i64_to_string(*base).as_str());
                s.append("?");
                s
            },
            RollPurpose::Advance(p) => "Did the runner advance?".to_owned(),
            RollPurpose::DoublePlayHappens => "Was there a double play?".to_owned(),
            RollPurpose::DoublePlayWhere => "Where was the double play?".to_owned(),
            RollPurpose::PartyTargetTeam => "Which team partied?".to_owned(),
            RollPurpose::Unparsed(val) => {
                let mut s = "Other: ".to_owned();
                s.append(val.as_str());
                s
            },
        }
    }

    /// Render the purpose as its tag-and-payload form.
    pub fn render_tag(&self) -> (r: String)
        ensures
            r@ == spec_purpose_tag(self@),
    {
        match self {
            RollPurpose::Party => "Party".to_owned(),
            RollPurpose::StealFielder => "StealFielder".to_owned(),
            RollPurpose::MildPitch => "MildPitch".to_owned(),
            RollPurpose::InStrikeZone => "InStrikeZone".to_owned(),
            RollPurpose::Swing => "Swing".to_owned(),
            RollPurpose::Contact => "Contact".to_owned(),
            RollPurpose::FairOrFoul => "FairOrFoul".to_owned(),
            RollPurpose::Fielder => "Fielder".to_owned(),
            RollPurpose::Out(name) => {
                let mut s = "Out(".to_owned();
                s.append(name.as_str());
                s.append(")");
                s
            },
            RollPurpose::Fly => "Fly".to_owned(),
            RollPurpose::HomeRun => "HomeRun".to_owned(),
            RollPurpose::Double(name) => {
                let mut s = "Double(".to_owned();
                s.append(name.as_str());
                s.append(")");
                s
            },
            RollPurpose::Triple(name) => {
                let mut s = "Triple(".to_owned();
                s.append(name.as_str());
                s.append(")");
                s
            },
            RollPurpose::Steal(base) => {
                let mut s = "Steal(".to_owned();
                s.append(crate::numeral::i64_to_string(*base).as_str());
                s.append(")");
                s
            },
            RollPurpose::Advance(p) => {
                let mut s = "Advance((".to_owned();
                s.append(crate::numeral::i64_to_string(p.0).as_str());
                s.append(", ");
                if p.1 {
                    s.append("true");
                } else {
                    s.append("false");
                }
                s.append("))");
                s
            },
            RollPurpose::DoublePlayHappens => "DoublePlayHappens".to_owned(),
            RollPurpose::DoublePlayWhere => "DoublePlayWhere".to_owned(),
            RollPurpose::PartyTargetTeam => "PartyTargetTeam".to_owned(),
            RollPurpose::Unparsed(val) => {
                let mut s = "Unparsed(".to_owned();
                s.append(val.as_str());
                s.append(")");
                s
            },
        }
    }

    /// Structural equality of purposes, payloads included.
    #[verifier::rlimit(100)]
    pub fn purpose_eq(&self, other: &RollPurpose) -> (r: bool)
        ensures
            r == (self@ == other@),
    {
        match (self, other) {
            (RollPurpose::Party, RollPurpose::Party) => true,
            (RollPurpose::StealFielder, RollPurpose::StealFielder) => true,
            (RollPurpose::MildPitch, RollPurpose::MildPitch) => true,
            (RollPurpose::InStrikeZone, RollPurpose::InStrikeZone) => true,
            (RollPurpose::Swing, RollPurpose::Swing) => true,
            (RollPurpose::Contact, RollPurpose::Contact) => true,
            (RollPurpose::FairOrFoul, RollPurpose::FairOrFoul) => true,
            (RollPurpose::Fielder, RollPurpose::Fielder) => true,
            (RollPurpose::Out(a), RollPurpose::Out(b)) => *a == *b,
            (RollPurpose::Fly, RollPurpose::Fly) => true,
            (RollPurpose::HomeRun, RollPurpose::HomeRun) => true,
            (RollPurpose::Double(a), RollPurpose::Double(b)) => *a == *b,
            (RollPurpose::Triple(a), RollPurpose::Triple(b)) => *a == *b,
            (RollPurpose::Steal(a), RollPurpose::Steal(b)) => *a == *b,
            (RollPurpose::Advance(a), RollPurpose::Advance(b)) => a.0 == b.0 && a.1 == b.1,
            (RollPurpose::DoublePlayHappens, RollPurpose::DoublePlayHappens) => true,
            (RollPurpose::DoublePlayWhere, RollPurpose::DoublePlayWhere) => true,
            (RollPurpose::PartyTargetTeam, RollPurpose::PartyTargetTeam) => true,
            (RollPurpose::Unparsed(a), RollPurpose::Unparsed(b)) => *a == *b,
            _ => false,
        }
    }

    /// Copy a purpose.
    pub fn clone_purpose(&self) -> (r: RollPurpose)
        ensures
            r@ == self@,
    {
        match self {
            RollPurpose::Party => RollPurpose::Party,
            RollPurpose::StealFielder => RollPurpose::StealFielder,
            RollPurpose::MildPitch => RollPurpose::MildPitch,
            RollPurpose::InStrikeZone => RollPurpose::InStrikeZone,
            RollPurpose::Swing => RollPurpose::Swing,
            RollPurpose::Contact => RollPurpose::Contact,
            RollPurpose::FairOrFoul => RollPurpose::FairOrFoul,
            RollPurpose::Fielder => RollPurpose::Fielder,
            RollPurpose::Out(name) => RollPurpose::Out(name.clone()),
            RollPurpose::Fly => RollPurpose::Fly,
            RollPurpose::HomeRun => RollPurpose::HomeRun,
            RollPurpose::Double(name) => RollPurpose::Double(name.clone()),
            RollPurpose::Triple(name) => RollPurpose::Triple(name.clone()),
            RollPurpose::Steal(base) => RollPurpose::Steal(*base),
            RollPurpose::Advance(p) => RollPurpose::Advance((p.0, p.1)),
            RollPurpose::DoublePlayHappens => RollPurpose::DoublePlayHappens,
            RollPurpose::DoublePlayWhere => RollPurpose::DoublePlayWhere,
            RollPurpose::PartyTargetTeam => RollPurpose::PartyTargetTeam,
            RollPurpose::Unparsed(text) => RollPurpose::Unparsed(text.clone()),
        }
    }
}

} // verus!
