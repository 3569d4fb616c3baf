//! The tick scheduler: ingests a chronological stream of updates, groups
//! same-timestamped updates into ticks, keeps day boundaries, and replays
//! each game's draws, pairing them with reference records when a stream is
//! attached.
//!
//! Outside work is the caller's: each update arrives together with the
//! rosters for its game (used if the game is new to the engine) and the
//! per-tick threshold table. The engine never panics; updates whose
//! baserunner data cannot be replayed, or whose threshold table does not
//! cover the rosters, are surfaced as per-tick errors like a parse failure,
//! and a game first seen past its opening plays is flagged the same way.

use vstd::prelude::*;
use vstd::string::{StrSliceExecFns, StringExecFns};
use std::borrow::ToOwned;
use crate::chron::{ChroniclerGameUpdate, GameUpdateV};
use crate::fragments::{CheckRoll, CheckRollV, RollStream};
use crate::rolls::{
    spec_plan_ok, spec_purpose_text, spec_rolls_for_update, RollData, RollDataV, RollUsage,
    RollUsageV,
};
use crate::sim::{spec_at_tick, spec_batter_mismatch, spec_pitcher_mismatch, Game, GameAtTickV,
    GameV};
use crate::thresholds::{Thresholds, ThresholdsV};
use crate::update_parser::{parse_update, spec_parse_update, ParsedUpdateV};

verus! {

/// The replay cannot continue: the stream violated a structural invariant.
#[derive(Clone, Copy, Debug, PartialEq, Eq, Structural)]
pub enum EngineFatalError {
    /// An update arrived with a timestamp before the pending tick's.
    EventOutOfOrder { stored_event_timestamp: i64, new_event_timestamp: i64 },
    /// An update arrived for an earlier day.
    DaysOutOfOrder {
        stored_season: i64,
        stored_day: i64,
        new_season: i64,
        new_day: i64,
        in_game: u128,
    },
    /// A reference stream was attached but ran dry mid-tick.
    RanOutOfCheckRolls,
}

/// One reconstructed draw in a tick's report, paired with its reference
/// record when a stream is attached. Match records are derived from the
/// pair by the comparator, which additionally needs the values' decimal
/// renderings.
pub struct RollContext {
    pub purpose: String,
    pub rng_state: String,
    pub roll: u64,
    pub usage: RollUsage,
    pub check: Option<CheckRoll>,
}

pub struct RollContextV {
    pub purpose: Seq<char>,
    pub rng_state: Seq<char>,
    pub roll: u64,
    pub usage: RollUsageV,
    pub check: Option<CheckRollV>,
}

impl View for RollContext {
    type V = RollContextV;

    open spec fn view(&self) -> RollContextV {
        RollContextV {
            purpose: self.purpose@,
            rng_state: self.rng_state@,
            roll: self.roll,
            usage: self.usage@,
            check: match &self.check {
                Some(c) => Some(c@),
                None => None,
            },
        }
    }
}

impl DeepView for RollContext {
    type V = RollContextV;

    open spec fn deep_view(&self) -> RollContextV {
        self.view()
    }
}

/// The context a draw reports as.
pub open spec fn spec_roll_context(rd: RollDataV, check: Option<CheckRollV>) -> RollContextV {
    RollContextV {
        purpose: spec_purpose_text(rd.purpose),
        rng_state: rd.state_string,
        roll: rd.roll,
        usage: rd.usage,
        check,
    }
}

impl RollContext {
    /// Wrap a consumed draw, and the reference record it is paired with.
    pub fn for_roll(roll_data: RollData, check_roll: Option<CheckRoll>) -> (r: RollContext)
        ensures
            r@ == spec_roll_context(
                roll_data@,
                match check_roll {
                    Some(c) => Some(c@),
                    None => None,
                },
            ),
    {
        let purpose = roll_data.purpose.describe();
        RollContext {
            purpose,
            rng_state: roll_data.state_string,
            roll: roll_data.roll,
            usage: roll_data.usage,
            check: check_roll,
        }
    }
}

/// One game's share of a tick.
pub struct GameTickContext {
    pub game_label: String,
    pub description: String,
    pub errors: Vec<String>,
    pub warnings: Vec<String>,
    pub rolls: Vec<RollContext>,
}

pub struct GameTickContextV {
    pub game_label: Seq<char>,
    pub description: Seq<char>,
    pub errors: Seq<Seq<char>>,
    pub warnings: Seq<Seq<char>>,
    pub rolls: Seq<RollContextV>,
}

impl View for GameTickContext {
    type V = GameTickContextV;

    open spec fn view(&self) -> GameTickContextV {
        GameTickContextV {
            game_label: self.game_label@,
            description: self.description@,
            errors: self.errors.deep_view(),
            warnings: self.warnings.deep_view(),
            rolls: self.rolls.deep_view(),
        }
    }
}

impl DeepView for GameTickContext {
    type V = GameTickContextV;

    open spec fn deep_view(&self) -> GameTickContextV {
        self.view()
    }
}

/// One tick: the games that moved at one timestamp.
pub struct TickContext {
    pub tick_number: usize,
    pub tick_timestamp: i64,
    pub games: Vec<GameTickContext>,
}

pub struct TickContextV {
    pub tick_number: int,
    pub tick_timestamp: i64,
    pub games: Seq<GameTickContextV>,
}

impl View for TickContext {
    type V = TickContextV;

    open spec fn view(&self) -> TickContextV {
        TickContextV {
            tick_number: self.tick_number as int,
            tick_timestamp: self.tick_timestamp,
            games: self.games.deep_view(),
        }
    }
}

impl DeepView for TickContext {
    type V = TickContextV;

    open spec fn deep_view(&self) -> TickContextV {
        self.view()
    }
}

/// One day's finished report.
pub struct DayContext {
    pub season: i64,
    pub day: i64,
    pub ticks: Vec<TickContext>,
}

pub struct DayContextV {
    pub season: i64,
    pub day: i64,
    pub ticks: Seq<TickContextV>,
}

impl View for DayContext {
    type V = DayContextV;

    open spec fn view(&self) -> DayContextV {
        DayContextV { season: self.season, day: self.day, ticks: self.ticks.deep_view() }
    }
}

/// An update as fed to the engine: the snapshot, the rosters to use if its
/// game is new, and the tick's threshold table.
pub struct PendingUpdate {
    pub update: ChroniclerGameUpdate,
    pub game: Game,
    pub thresholds: Thresholds,
}

pub struct PendingUpdateV {
    pub update: GameUpdateV,
    pub game: GameV,
    pub thresholds: ThresholdsV,
}

impl View for PendingUpdate {
    type V = PendingUpdateV;

    open spec fn view(&self) -> PendingUpdateV {
        PendingUpdateV { update: self.update@, game: self.game@, thresholds: self.thresholds@ }
    }
}

impl DeepView for PendingUpdate {
    type V = PendingUpdateV;

    open spec fn deep_view(&self) -> PendingUpdateV {
        self.view()
    }
}

/// The engine's state.
pub struct Engine {
    pub rng: crate::rng::Rng,
    pub check_rolls: Option<RollStream>,
    pub active_games: Vec<(u128, Game)>,
    pub pending_updates: Vec<PendingUpdate>,
    pub current_day: Option<DayContext>,
    pub tick_number: usize,
}

pub struct EngineV {
    pub rng: crate::rng::Rng,
    pub check_rolls: Option<Seq<CheckRollV>>,
    pub active_games: Seq<(u128, GameV)>,
    pub pending_updates: Seq<PendingUpdateV>,
    pub current_day: Option<DayContextV>,
    pub tick_number: int,
}

/// The remaining reference records, when a stream is attached.
pub open spec fn spec_checks_view(c: Option<RollStream>) -> Option<Seq<CheckRollV>> {
    match c {
        Some(s) => Some(s@),
        None => None,
    }
}

impl View for Engine {
    type V = EngineV;

    open spec fn view(&self) -> EngineV {
        EngineV {
            rng: self.rng,
            check_rolls: spec_checks_view(self.check_rolls),
            active_games: spec_games_view(self.active_games@),
            pending_updates: self.pending_updates.deep_view(),
            current_day: match &self.current_day {
                Some(d) => Some(d@),
                None => None,
            },
            tick_number: self.tick_number as int,
        }
    }
}

impl Engine {
    /// The engine's standing well-formedness: the generator's offset is
    /// normalized, the reference stream (if any) is intact, and every
    /// roster it holds is usable.
    pub open spec fn inv(&self) -> bool {
        &&& self.rng.wf()
        &&& match &self.check_rolls {
            Some(s) => s.wf(),
            None => true,
        }
        &&& forall|i: int|
            0 <= i < self@.active_games.len() ==> (#[trigger] self@.active_games[i].1).wf()
        &&& forall|i: int|
            0 <= i < self@.pending_updates.len() ==> (#[trigger] self@.pending_updates[i].game).wf()
    }

    /// A fresh engine with no pending updates and no day in progress.
    pub fn new(rng: crate::rng::Rng, check_rolls: Option<RollStream>) -> (r: Engine)
        requires
            rng.wf(),
            match &check_rolls {
                Some(s) => s.wf(),
                None => true,
            },
        ensures
            r.inv(),
            r@.rng == rng,
            r@.check_rolls == spec_checks_view(check_rolls),
            r@.active_games == Seq::<(u128, GameV)>::empty(),
            r@.pending_updates == Seq::<PendingUpdateV>::empty(),
            r@.current_day is None,
            r@.tick_number == 0,
    {
        let r = Engine {
            rng,
            check_rolls,
            active_games: Vec::new(),
            pending_updates: Vec::new(),
            current_day: None,
            tick_number: 0,
        };
        proof {
            assert(r@.active_games =~= Seq::<(u128, GameV)>::empty());
            assert(r@.pending_updates =~= Seq::<PendingUpdateV>::empty());
        }
        r
    }
}

/// The label a game reports under: away nickname at home nickname.
pub open spec fn spec_game_label(u: GameUpdateV) -> Seq<char> {
    u.away_team_nickname + " @ "@ + u.home_team_nickname
}

/// The error lines the identity checks contribute.
pub open spec fn spec_validate_errors(g: GameAtTickV, u: GameUpdateV) -> Seq<Seq<char>> {
    (if spec_batter_mismatch(g, u) {
        seq!["Batter did not match"@]
    } else {
        Seq::<Seq<char>>::empty()
    }) + (if spec_pitcher_mismatch(g, u) {
        seq!["Pitcher did not match"@]
    } else {
        Seq::<Seq<char>>::empty()
    })
}

/// The contexts a tick's draws report as, paired positionally with the
/// reference records when a stream is attached.
pub open spec fn spec_roll_contexts(rolls: Seq<RollDataV>, checks: Option<Seq<CheckRollV>>) -> Seq<
    RollContextV,
> {
    Seq::new(
        rolls.len(),
        |i: int|
            spec_roll_context(
                rolls[i],
                match checks {
                    Some(cs) => Some(cs[i]),
                    None => None,
                },
            ),
    )
}

/// One game's tick: the per-tick view, the identity checks, the parse, the
/// plan, and the draws. Yields the game afterwards (its carried runners
/// updated), the generator and stream afterwards, and the context --- or
/// `None` for the context when the reference stream ran dry, in which case
/// the game keeps its old runners and the stream is drained.
#[verifier::opaque]
pub open spec fn spec_game_tick(
    gv: GameV,
    u: GameUpdateV,
    th: ThresholdsV,
    rng: crate::rng::Rng,
    checks: Option<Seq<CheckRollV>>,
    joined_late: bool,
) -> (GameV, crate::rng::Rng, Option<Seq<CheckRollV>>, Option<GameTickContextV>) {
    let gat = spec_at_tick(gv, u);
    let base_errors = (if joined_late {
        seq!["Game entered the replay after its opening plays"@]
    } else {
        Seq::<Seq<char>>::empty()
    }) + spec_validate_errors(gat, u);
    let gv2 = GameV {
        away_team: gv.away_team,
        home_team: gv.home_team,
        prev_runners: gat.runners_at_end,
    };
    match spec_parse_update(u.last_update) {
        None => (
            gv2,
            rng,
            checks,
            Some(
                GameTickContextV {
                    game_label: spec_game_label(u),
                    description: u.last_update,
                    errors: base_errors + seq!["Parse error: could not parse description"@],
                    warnings: Seq::empty(),
                    rolls: Seq::empty(),
                },
            ),
        ),
        Some(pv) => {
            if !spec_plan_ok(pv, gat) || !th.wf(
                gat.fielders().len() as int,
                gat.runners_at_start.len() as int,
            ) {
                (
                    gv2,
                    rng,
                    checks,
                    Some(
                        GameTickContextV {
                            game_label: spec_game_label(u),
                            description: u.last_update,
                            errors: base_errors + seq![
                                "Replay error: inconsistent baserunners or threshold table"@,
                            ],
                            warnings: Seq::empty(),
                            rolls: Seq::empty(),
                        },
                    ),
                )
            } else {
                let plan = spec_rolls_for_update(rng, pv, th, gat);
                match checks {
                    Some(cs) => {
                        if cs.len() < plan.1.len() {
                            (gv, plan.0, Some(Seq::empty()), None)
                        } else {
                            (
                                gv2,
                                plan.0,
                                Some(cs.skip(plan.1.len() as int)),
                                Some(
                                    GameTickContextV {
                                        game_label: spec_game_label(u),
                                        description: u.last_update,
                                        errors: base_errors,
                                        warnings: Seq::empty(),
                                        rolls: spec_roll_contexts(plan.1, Some(cs)),
                                    },
                                ),
                            )
                        }
                    },
                    None => (
                        gv2,
                        plan.0,
                        None,
                        Some(
                            GameTickContextV {
                                game_label: spec_game_label(u),
                                description: u.last_update,
                                errors: base_errors,
                                warnings: Seq::empty(),
                                rolls: spec_roll_contexts(plan.1, None),
                            },
                        ),
                    ),
                }
            }
        },
    }
}

/// The first slot holding the given game, if any.
pub open spec fn spec_lookup_game(games: Seq<(u128, GameV)>, id: u128) -> Option<int>
    decreases games.len(),
{
    if games.len() == 0 {
        None
    } else if games[0].0 == id {
        Some(0)
    } else {
        match spec_lookup_game(games.drop_first(), id) {
            Some(i) => Some(i + 1),
            None => None,
        }
    }
}

/// Process a tick's batch from position `i` on: look each update's game up
/// (registering a new one from the rosters that arrived with the update),
/// run its tick, and collect the contexts. `None` for the contexts means
/// the reference stream ran dry at some update; the state still reflects
/// everything consumed up to that point.
#[verifier::opaque]
pub open spec fn spec_process_batch(
    games: Seq<(u128, GameV)>,
    rng: crate::rng::Rng,
    checks: Option<Seq<CheckRollV>>,
    batch: Seq<PendingUpdateV>,
    i: int,
) -> (Seq<(u128, GameV)>, crate::rng::Rng, Option<Seq<CheckRollV>>, Option<Seq<GameTickContextV>>)
    decreases batch.len() - i,
{
    if i < 0 || i >= batch.len() {
        (games, rng, checks, Some(Seq::empty()))
    } else {
        let p = batch[i];
        let id = p.update.game_id;
        let lk = spec_lookup_game(games, id);
        let games1 = if lk is Some {
            games
        } else {
            games.push((id, p.game))
        };
        let k = spec_lookup_game(games1, id).unwrap();
        let gv = games1[k].1;
        let joined_late = lk is None && p.update.play_count >= 3;
        let step = spec_game_tick(gv, p.update, p.thresholds, rng, checks, joined_late);
        match step.3 {
            None => (games1.update(k, (id, step.0)), step.1, step.2, None),
            Some(ctx) => {
                let games2 = games1.update(k, (id, step.0));
                let rest = spec_process_batch(games2, step.1, step.2, batch, i + 1);
                (
                    rest.0,
                    rest.1,
                    rest.2,
                    match rest.3 {
                        Some(more) => Some(seq![ctx] + more),
                        None => None,
                    },
                )
            },
        }
    }
}


/// Past the batch's end, processing is a no-op.
pub proof fn lemma_process_batch_done(
    games: Seq<(u128, GameV)>,
    rng: crate::rng::Rng,
    checks: Option<Seq<CheckRollV>>,
    batch: Seq<PendingUpdateV>,
    i: int,
)
    requires
        i >= batch.len(),
    ensures
        spec_process_batch(games, rng, checks, batch, i) == (
            games,
            rng,
            checks,
            Some(Seq::<GameTickContextV>::empty()),
        ),
{
    reveal(spec_process_batch);
}

/// One unfolding of batch processing.
pub proof fn lemma_process_batch_step(
    games: Seq<(u128, GameV)>,
    rng: crate::rng::Rng,
    checks: Option<Seq<CheckRollV>>,
    batch: Seq<PendingUpdateV>,
    i: int,
)
    requires
        0 <= i < batch.len(),
    ensures
        ({
            let p = batch[i];
            let id = p.update.game_id;
            let lk = spec_lookup_game(games, id);
            let games1 = if lk is Some {
                games
            } else {
                games.push((id, p.game))
            };
            let k = spec_lookup_game(games1, id).unwrap();
            let step = spec_game_tick(
                games1[k].1,
                p.update,
                p.thresholds,
                rng,
                checks,
                lk is None && p.update.play_count >= 3,
            );
            spec_process_batch(games, rng, checks, batch, i) == (match step.3 {
                None => (games1.update(k, (id, step.0)), step.1, step.2, None::<
                    Seq<GameTickContextV>,
                >),
                Some(ctx) => {
                    let rest = spec_process_batch(
                        games1.update(k, (id, step.0)),
                        step.1,
                        step.2,
                        batch,
                        i + 1,
                    );
                    (
                        rest.0,
                        rest.1,
                        rest.2,
                        match rest.3 {
                            Some(more) => Some(seq![ctx] + more),
                            None => None,
                        },
                    )
                },
            })
        }),
{
    reveal(spec_process_batch);
}

/// Strict lexicographic order on `(season, day)` pairs.
pub open spec fn spec_day_lt(a: (i64, i64), b: (i64, i64)) -> bool {
    a.0 < b.0 || (a.0 == b.0 && a.1 < b.1)
}

/// One tick: resolve the day boundary against the batch's day, then
/// process the batch. `e` is the engine with the new update already
/// pending; `batch` is the displaced batch being processed.
pub open spec fn spec_tick(e: EngineV, batch: Seq<PendingUpdateV>) -> (
    EngineV,
    Result<Option<DayContextV>, EngineFatalError>,
) {
    let u0 = batch[0].update;
    let new_day = (u0.season, u0.day);
    if e.current_day matches Some(d) && spec_day_lt(new_day, (d.season, d.day)) {
        (
            e,
            Err(
                EngineFatalError::DaysOutOfOrder {
                    stored_season: e.current_day.unwrap().season,
                    stored_day: e.current_day.unwrap().day,
                    new_season: u0.season,
                    new_day: u0.day,
                    in_game: u0.game_id,
                },
            ),
        )
    } else {
        let same = e.current_day matches Some(d) && (d.season, d.day) == new_day;
        let finished: Option<DayContextV> = if e.current_day is Some && !same {
            e.current_day
        } else {
            None
        };
        let day0 = if same {
            e.current_day.unwrap()
        } else {
            DayContextV { season: u0.season, day: u0.day, ticks: Seq::empty() }
        };
        let games0: Seq<(u128, GameV)> = if e.current_day is Some && !same {
            Seq::empty()
        } else {
            e.active_games
        };
        let tn: int = if e.current_day is Some && !same {
            0
        } else {
            e.tick_number
        };
        let pb = spec_process_batch(games0, e.rng, e.check_rolls, batch, 0);
        match pb.3 {
            None => (
                EngineV {
                    rng: pb.1,
                    check_rolls: pb.2,
                    active_games: pb.0,
                    pending_updates: e.pending_updates,
                    current_day: Some(day0),
                    tick_number: tn,
                },
                Err(EngineFatalError::RanOutOfCheckRolls),
            ),
            Some(ctxs) => (
                EngineV {
                    rng: pb.1,
                    check_rolls: pb.2,
                    active_games: pb.0,
                    pending_updates: e.pending_updates,
                    current_day: Some(
                        DayContextV {
                            season: day0.season,
                            day: day0.day,
                            ticks: day0.ticks + seq![
                                TickContextV {
                                    tick_number: tn,
                                    tick_timestamp: u0.timestamp,
                                    games: ctxs,
                                },
                            ],
                        },
                    ),
                    tick_number: tn + 1,
                },
                Ok(finished),
            ),
        }
    }
}

/// The engine's sole ingress, one update at a time: buffer it with its
/// tick-mates, or close out the displaced tick when a later timestamp
/// arrives.
pub open spec fn spec_next_update(e: EngineV, p: PendingUpdateV) -> (
    EngineV,
    Result<Option<DayContextV>, EngineFatalError>,
) {
    if e.pending_updates.len() == 0 {
        (
            EngineV { pending_updates: seq![p], ..e },
            Ok(None),
        )
    } else {
        let t0 = e.pending_updates[0].update.timestamp;
        if p.update.timestamp < t0 {
            (
                e,
                Err(
                    EngineFatalError::EventOutOfOrder {
                        stored_event_timestamp: t0,
                        new_event_timestamp: p.update.timestamp,
                    },
                ),
            )
        } else if p.update.timestamp == t0 {
            (EngineV { pending_updates: e.pending_updates.push(p), ..e }, Ok(None))
        } else {
            spec_tick(EngineV { pending_updates: seq![p], ..e }, e.pending_updates)
        }
    }
}

/// The view of a day-or-error result.
pub open spec fn spec_result_view(r: &Result<Option<DayContext>, EngineFatalError>) -> Result<
    Option<DayContextV>,
    EngineFatalError,
> {
    match r {
        Ok(Some(d)) => Ok(Some(d@)),
        Ok(None) => Ok(None),
        Err(e) => Err(*e),
    }
}



/// The deep view of a vector is its elements' deep views, positionally.
pub proof fn lemma_vec_deep_view<T: DeepView>(v: &Vec<T>)
    ensures
        v.deep_view().len() == v@.len(),
        forall|i: int| 0 <= i < v@.len() ==> v.deep_view()[i] == #[trigger] v@[i].deep_view(),
{
}

/// Build the report label for a game.
fn build_game_label(u: &ChroniclerGameUpdate) -> (r: String)
    ensures
        r@ == spec_game_label(u@),
{
    let mut s = u.data.away_team_nickname.clone();
    s.append(" @ ");
    s.append(u.data.home_team_nickname.as_str());
    s
}

/// The first slot holding the given game, searching from `i`.
pub open spec fn spec_lookup_game_from(games: Seq<(u128, GameV)>, id: u128, i: int) -> Option<int>
    decreases games.len() - i,
{
    if i < 0 || i >= games.len() {
        None
    } else if games[i].0 == id {
        Some(i)
    } else {
        spec_lookup_game_from(games, id, i + 1)
    }
}

/// The two lookup forms agree.
pub proof fn lemma_lookup_game_from(games: Seq<(u128, GameV)>, id: u128, i: int)
    requires
        0 <= i <= games.len(),
    ensures
        ({
            let a = spec_lookup_game_from(games, id, i);
            let b = spec_lookup_game(games.skip(i), id);
            match (a, b) {
                (Some(x), Some(y)) => x == y + i,
                (None, None) => true,
                _ => false,
            }
        }),
    decreases games.len() - i,
{
    if i < games.len() {
        assert(games.skip(i)[0] == games[i]);
        assert(games.skip(i).drop_first() =~= games.skip(i + 1));
        lemma_lookup_game_from(games, id, i + 1);
    }
}

/// Looking a game up after registering a new one finds the new slot.
pub proof fn lemma_lookup_after_push(games: Seq<(u128, GameV)>, id: u128, g: GameV, i: int)
    requires
        0 <= i <= games.len(),
        spec_lookup_game_from(games, id, i) is None,
    ensures
        spec_lookup_game_from(games.push((id, g)), id, i) == Some(games.len() as int),
    decreases games.len() - i,
{
    if i < games.len() {
        assert(games.push((id, g))[i] == games[i]);
        lemma_lookup_after_push(games, id, g, i + 1);
    } else {
        assert(games.push((id, g))[i] == (id, g));
    }
}

/// A found slot holds the game.
pub proof fn lemma_lookup_found(games: Seq<(u128, GameV)>, id: u128, i: int)
    requires
        0 <= i <= games.len(),
        spec_lookup_game_from(games, id, i) is Some,
    ensures
        ({
            let k = spec_lookup_game_from(games, id, i).unwrap();
            i <= k < games.len() && games[k].0 == id
        }),
    decreases games.len() - i,
{
    if i < games.len() && games[i].0 != id {
        lemma_lookup_found(games, id, i + 1);
    }
}

/// The view of the active-game table.
pub open spec fn spec_games_view(v: Seq<(u128, Game)>) -> Seq<(u128, GameV)> {
    Seq::new(v.len(), |i: int| (v[i].0, v[i].1@))
}

/// Find a game's slot in the table.
fn find_game_index(games: &Vec<(u128, Game)>, id: u128) -> (r: Option<usize>)
    ensures
        r matches Some(k) ==> spec_lookup_game_from(spec_games_view(games@), id, 0) == Some(
            k as int,
        ) && k < games@.len(),
        r is None ==> spec_lookup_game_from(spec_games_view(games@), id, 0) is None,
{
    let mut i: usize = 0;
    while i < games.len()
        invariant
            i <= games@.len(),
            spec_lookup_game_from(spec_games_view(games@), id, 0) == spec_lookup_game_from(
                spec_games_view(games@),
                id,
                i as int,
            ),
        decreases games@.len() - i,
    {
        if games[i].0 == id {
            return Some(i);
        }
        i += 1;
    }
    None
}

/// Run one game's tick. On success the game carries the tick's end runners
/// forward; when the reference stream runs dry the game is left untouched,
/// the stream is drained, and the fatal error is returned.
#[verifier::rlimit(100)]
fn run_game_tick(
    game: &mut Game,
    update: &ChroniclerGameUpdate,
    th: &Thresholds,
    rng: &mut crate::rng::Rng,
    check_rolls: &mut Option<RollStream>,
    joined_late: bool,
) -> (r: Result<GameTickContext, EngineFatalError>)
    requires
        old(game)@.wf(),
        old(rng).wf(),
        match *old(check_rolls) {
            Some(s) => s.wf(),
            None => true,
        },
    ensures
        ({
            let sp = spec_game_tick(
                old(game)@,
                update@,
                th@,
                *old(rng),
                spec_checks_view(*old(check_rolls)),
                joined_late,
            );
            &&& final(game)@ == sp.0
            &&& *final(rng) == sp.1
            &&& spec_checks_view(*final(check_rolls)) == sp.2
            &&& (r matches Ok(ctx) ==> sp.3 == Some(ctx@))
            &&& (r matches Err(e) ==> e == EngineFatalError::RanOutOfCheckRolls && sp.3 is None)
            &&& final(rng).wf()
            &&& match *final(check_rolls) {
                Some(s) => s.wf(),
                None => true,
            }
            &&& final(game)@.wf()
        }),
{
    proof {
        reveal(spec_game_tick);
    }
    let game_at_tick = game.at_tick(update);
    let ghost gatv = game_at_tick@;
    let (mut verrors, warnings) = game_at_tick.validate(update);
    let mut errors: Vec<String> = Vec::new();
    if joined_late {
        errors.push(
            crate::sim::literal_string("Game entered the replay after its opening plays"),
        );
    }
    errors.append(&mut verrors);
    proof {
        if joined_late {
            assert(errors.deep_view() =~= seq![
                "Game entered the replay after its opening plays"@,
            ] + spec_validate_errors(gatv, update@));
        } else {
            assert(errors.deep_view() =~= Seq::<Seq<char>>::empty() + spec_validate_errors(
                gatv,
                update@,
            ));
        }
    }
    let game_label = build_game_label(update);
    match parse_update(update) {
        Ok(parsed) => {
            let feasible = crate::rolls::plan_ok(&parsed, &game_at_tick) && th.fits(
                game_at_tick.num_fielders(),
                game_at_tick.runners_at_start.len(),
            );
            if !feasible {
                errors.push(
                    crate::sim::literal_string(
                        "Replay error: inconsistent baserunners or threshold table",
                    ),
                );
                let crate::sim::GameAtTick { runners_at_end, .. } = game_at_tick;
                game.set_prev(runners_at_end);
                let rolls: Vec<RollContext> = Vec::new();
                proof {
                    assert(rolls.deep_view() =~= Seq::<RollContextV>::empty());
                    assert(errors.deep_view() =~= ((if joined_late {
                        seq!["Game entered the replay after its opening plays"@]
                    } else {
                        Seq::<Seq<char>>::empty()
                    }) + spec_validate_errors(gatv, update@)) + seq![
                        "Replay error: inconsistent baserunners or threshold table"@,
                    ]);
                }
                Ok(
                    GameTickContext {
                        game_label,
                        description: update.data.last_update.clone(),
                        errors,
                        warnings,
                        rolls,
                    },
                )
            } else {
                let mut rolls = crate::rolls::rolls_for_update(rng, parsed, th, &game_at_tick);
                let ghost rolls_v = rolls.deep_view();
                let mut contexts: Vec<RollContext> = Vec::new();
                let ran_out: bool;
                match check_rolls {
                    Some(stream) => {
                        let ghost cs = stream@;
                        if stream.len() < rolls.len() {
                            stream.clear();
                            ran_out = true;
                        } else {
                            let total = rolls.len();
                            let mut k: usize = 0;
                            while k < total
                                invariant
                                    k <= total,
                                    total == rolls_v.len(),
                                    rolls.deep_view() =~= rolls_v.skip(k as int),
                                    stream.wf(),
                                    stream@ =~= cs.skip(k as int),
                                    cs.len() >= total,
                                    contexts.deep_view() =~= Seq::new(
                                        k as nat,
                                        |i: int| spec_roll_context(rolls_v[i], Some(cs[i])),
                                    ),
                                decreases total - k,
                            {
                                let ghost rvd = rolls.deep_view();
                                let ghost rv0 = rolls@;
                                proof {
                                    lemma_vec_deep_view(&rolls);
                                    assert(rvd.len() == rolls_v.len() - k);
                                    assert(cs.skip(k as int).len() > 0);
                                }
                                let rd = rolls.remove(0);
                                proof {
                                    lemma_vec_deep_view(&rolls);
                                    assert(rvd[0] == rv0[0].deep_view());
                                    assert(rolls_v.skip(k as int)[0] == rolls_v[k as int]);
                                    assert(rd.deep_view() == rolls_v[k as int]);
                                    assert forall|i: int| 0 <= i < rolls@.len() implies
                                        rolls.deep_view()[i] == rvd[i + 1] by {
                                        assert(rolls@[i] == rv0[i + 1]);
                                    }
                                    assert(rolls.deep_view() =~= rvd.skip(1));
                                    assert(rvd.skip(1) =~= rolls_v.skip(k + 1 as int));
                                }
                                let c = match stream.pop_front() {
                                    Some(c) => c,
                                    None => {
                                        proof {
                                            assert(false);
                                        }
                                        return Err(EngineFatalError::RanOutOfCheckRolls);
                                    },
                                };
                                proof {
                                    assert(cs.skip(k as int)[0] == cs[k as int]);
                                    assert(cs.skip(k as int).drop_first() =~= cs.skip(
                                        k + 1 as int,
                                    ));
                                }
                                let ghost before = contexts.deep_view();
                                let ghost cv0 = contexts@;
                                proof {
                                    lemma_vec_deep_view(&contexts);
                                }
                                let ctx = RollContext::for_roll(rd, Some(c));
                                let ghost ctxv = ctx@;
                                contexts.push(ctx);
                                proof {
                                    lemma_vec_deep_view(&contexts);
                                    assert forall|i: int| 0 <= i < k + 1 implies
                                        contexts.deep_view()[i] == (Seq::new(
                                        (k + 1) as nat,
                                        |j: int| spec_roll_context(rolls_v[j], Some(cs[j])),
                                    ))[i] by {
                                        if i < k {
                                            assert(contexts@[i] == cv0[i]);
                                            assert(contexts@[i].deep_view() == before[i]);
                                        } else {
                                            assert(contexts@[i].deep_view() == ctxv);
                                        }
                                    }
                                    assert(contexts.deep_view() =~= Seq::new(
                                        (k + 1) as nat,
                                        |i: int| spec_roll_context(rolls_v[i], Some(cs[i])),
                                    ));
                                }
                                k += 1;
                            }
                            proof {
                                assert(contexts.deep_view() =~= spec_roll_contexts(
                                    rolls_v,
                                    Some(cs),
                                ));
                            }
                            ran_out = false;
                        }
                    },
                    None => {
                        let total = rolls.len();
                        let mut k: usize = 0;
                        while k < total
                            invariant
                                k <= total,
                                total == rolls_v.len(),
                                rolls.deep_view() =~= rolls_v.skip(k as int),
                                contexts.deep_view() =~= Seq::new(
                                    k as nat,
                                    |i: int| spec_roll_context(rolls_v[i], None),
                                ),
                            decreases total - k,
                        {
                            let ghost rvd = rolls.deep_view();
                            let ghost rv0 = rolls@;
                            proof {
                                lemma_vec_deep_view(&rolls);
                                assert(rvd.len() == rolls_v.len() - k);
                            }
                            let rd = rolls.remove(0);
                            proof {
                                lemma_vec_deep_view(&rolls);
                                assert(rvd[0] == rv0[0].deep_view());
                                assert(rolls_v.skip(k as int)[0] == rolls_v[k as int]);
                                assert(rd.deep_view() == rolls_v[k as int]);
                                assert forall|i: int| 0 <= i < rolls@.len() implies
                                    rolls.deep_view()[i] == rvd[i + 1] by {
                                    assert(rolls@[i] == rv0[i + 1]);
                                }
                                assert(rolls.deep_view() =~= rvd.skip(1));
                                assert(rvd.skip(1) =~= rolls_v.skip(k + 1 as int));
                            }
                            let ghost before = contexts.deep_view();
                            let ghost cv0 = contexts@;
                            proof {
                                lemma_vec_deep_view(&contexts);
                            }
                            let ctx = RollContext::for_roll(rd, None);
                            let ghost ctxv = ctx@;
                            contexts.push(ctx);
                            proof {
                                lemma_vec_deep_view(&contexts);
                                assert forall|i: int| 0 <= i < k + 1 implies
                                    contexts.deep_view()[i] == (Seq::new(
                                    (k + 1) as nat,
                                    |j: int| spec_roll_context(rolls_v[j], None),
                                ))[i] by {
                                    if i < k {
                                        assert(contexts@[i] == cv0[i]);
                                        assert(contexts@[i].deep_view() == before[i]);
                                    } else {
                                        assert(contexts@[i].deep_view() == ctxv);
                                    }
                                }
                                assert(contexts.deep_view() =~= Seq::new(
                                    (k + 1) as nat,
                                    |i: int| spec_roll_context(rolls_v[i], None),
                                ));
                            }
                            k += 1;
                        }
                        proof {
                            assert(contexts.deep_view() =~= spec_roll_contexts(rolls_v, None));
                        }
                        ran_out = false;
                    },
                }
                if ran_out {
                    return Err(EngineFatalError::RanOutOfCheckRolls);
                }
                let crate::sim::GameAtTick { runners_at_end, .. } = game_at_tick;
                game.set_prev(runners_at_end);
                proof {
                    assert(errors.deep_view() =~= (if joined_late {
                        seq!["Game entered the replay after its opening plays"@]
                    } else {
                        Seq::<Seq<char>>::empty()
                    }) + spec_validate_errors(gatv, update@));
                }
                Ok(
                    GameTickContext {
                        game_label,
                        description: update.data.last_update.clone(),
                        errors,
                        warnings,
                        rolls: contexts,
                    },
                )
            }
        },
        Err(_) => {
            errors.push(crate::sim::literal_string("Parse error: could not parse description"));
            let crate::sim::GameAtTick { runners_at_end, .. } = game_at_tick;
            game.set_prev(runners_at_end);
            let rolls: Vec<RollContext> = Vec::new();
            proof {
                assert(rolls.deep_view() =~= Seq::<RollContextV>::empty());
                assert(errors.deep_view() =~= ((if joined_late {
                    seq!["Game entered the replay after its opening plays"@]
                } else {
                    Seq::<Seq<char>>::empty()
                }) + spec_validate_errors(gatv, update@)) + seq![
                    "Parse error: could not parse description"@,
                ]);
            }
            Ok(
                GameTickContext {
                    game_label,
                    description: update.data.last_update.clone(),
                    errors,
                    warnings,
                    rolls,
                },
            )
        },
    }
}



/// One update of a batch: look its game up (registering it from the
/// rosters if new), run the game's tick, and store the game back.
#[verifier::rlimit(100)]
fn batch_step(
    games: &mut Vec<(u128, Game)>,
    rng: &mut crate::rng::Rng,
    check_rolls: &mut Option<RollStream>,
    p: PendingUpdate,
) -> (r: Result<GameTickContext, EngineFatalError>)
    requires
        old(rng).wf(),
        match *old(check_rolls) {
            Some(s) => s.wf(),
            None => true,
        },
        forall|j: int|
            0 <= j < old(games)@.len() ==> (#[trigger] spec_games_view(old(games)@)[j].1).wf(),
        p@.game.wf(),
    ensures
        ({
            let games_in = spec_games_view(old(games)@);
            let id = p@.update.game_id;
            let lk = spec_lookup_game(games_in, id);
            let games1 = if lk is Some {
                games_in
            } else {
                games_in.push((id, p@.game))
            };
            let k = spec_lookup_game(games1, id).unwrap();
            let step = spec_game_tick(
                games1[k].1,
                p@.update,
                p@.thresholds,
                *old(rng),
                spec_checks_view(*old(check_rolls)),
                lk is None && p@.update.play_count >= 3,
            );
            &&& spec_games_view(final(games)@) == games1.update(k, (id, step.0))
            &&& *final(rng) == step.1
            &&& spec_checks_view(*final(check_rolls)) == step.2
            &&& (r matches Ok(ctx) ==> step.3 == Some(ctx@))
            &&& (r matches Err(e) ==> e == EngineFatalError::RanOutOfCheckRolls && step.3 is None)
            &&& final(rng).wf()
            &&& match *final(check_rolls) {
                Some(s) => s.wf(),
                None => true,
            }
            &&& forall|j: int|
                0 <= j < final(games)@.len() ==> (#[trigger] spec_games_view(
                    final(games)@,
                )[j].1).wf()
        }),
{
    let id = p.update.game_id;
    let ghost games_in = spec_games_view(games@);
    let mut joined_late = false;
    let idx = match find_game_index(games, id) {
        Some(k) => {
            proof {
                lemma_lookup_game_from(games_in, id, 0);
                assert(games_in.skip(0) =~= games_in);
                lemma_lookup_found(games_in, id, 0);
            }
            k
        },
        None => {
            proof {
                lemma_lookup_game_from(games_in, id, 0);
                assert(games_in.skip(0) =~= games_in);
                lemma_lookup_after_push(games_in, id, p.game@, 0);
            }
            joined_late = p.update.data.play_count >= 3;
            let glen = games.len();
            games.push((id, p.game));
            proof {
                assert(spec_games_view(games@) =~= games_in.push((id, p@.game)));
                lemma_lookup_game_from(spec_games_view(games@), id, 0);
                assert(spec_games_view(games@).skip(0) =~= spec_games_view(games@));
            }
            glen
        },
    };
    let ghost games1 = spec_games_view(games@);
    proof {
        lemma_lookup_game_from(games1, id, 0);
        assert(games1.skip(0) =~= games1);
        lemma_lookup_found(games1, id, 0);
        assert(spec_lookup_game(games1, id) == Some(idx as int));
    }
    let mut entry = games.remove(idx);
    let ghost step = spec_game_tick(
        games1[idx as int].1,
        p@.update,
        p@.thresholds,
        *rng,
        spec_checks_view(*check_rolls),
        joined_late,
    );
    let res = run_game_tick(&mut entry.1, &p.update, &p.thresholds, rng, check_rolls, joined_late);
    games.insert(idx, entry);
    proof {
        assert(spec_games_view(games@) =~= games1.update(idx as int, (id, step.0)));
    }
    res
}

impl Engine {
    /// Process one displaced batch as a tick: resolve the day boundary,
    /// replay every update in arrival order, and append the tick to the
    /// day under construction.
    #[verifier::rlimit(100)]
    #[verifier::loop_isolation(false)]
    fn tick(&mut self, updates: Vec<PendingUpdate>) -> (r: Result<
        Option<DayContext>,
        EngineFatalError,
    >)
        requires
            old(self).inv(),
            old(self).tick_number < usize::MAX,
            updates.deep_view().len() >= 1,
            forall|i: int|
                0 <= i < updates.deep_view().len() ==> (#[trigger] updates.deep_view()[i].game).wf(),
        ensures
            final(self).inv(),
            ({
                let sp = spec_tick(old(self)@, updates.deep_view());
                &&& final(self)@ == sp.0
                &&& spec_result_view(&r) == sp.1
            }),
    {
        let ghost e0 = old(self)@;
        let ghost batch = updates.deep_view();
        proof {
            lemma_vec_deep_view(&updates);
        }
        let ghost updates_head = batch[0];
        let u0_season = updates[0].update.data.season;
        let u0_day = updates[0].update.data.day;
        let u0_ts = updates[0].update.timestamp;
        let u0_gid = updates[0].update.game_id;
        let (has_day, d_season, d_day) = match &self.current_day {
            Some(d) => (true, d.season, d.day),
            None => (false, 0i64, 0i64),
        };
        if has_day && (u0_season < d_season || (u0_season == d_season && u0_day < d_day)) {
            return Err(
                EngineFatalError::DaysOutOfOrder {
                    stored_season: d_season,
                    stored_day: d_day,
                    new_season: u0_season,
                    new_day: u0_day,
                    in_game: u0_gid,
                },
            );
        }
        let same = has_day && u0_season == d_season && u0_day == d_day;
        let mut finished: Option<DayContext> = None;
        if !same {
            if has_day {
                self.tick_number = 0;
                self.active_games.clear();
                proof {
                    assert(spec_games_view(self.active_games@) =~= Seq::<(u128, GameV)>::empty());
                }
                core::mem::swap(&mut finished, &mut self.current_day);
            }
            self.current_day = Some(
                DayContext { season: u0_season, day: u0_day, ticks: Vec::new() },
            );
        }
        let ghost day0v = self@.current_day.unwrap();
        let ghost finishedv = (match &finished {
            Some(d) => Some(d@),
            None => None::<DayContextV>,
        });
        let ghost tnv = self@.tick_number;
        let ghost games0 = self@.active_games;
        let ghost rng0 = self.rng;
        let ghost checks0 = spec_checks_view(self.check_rolls);
        let ghost target = spec_process_batch(games0, rng0, checks0, batch, 0);
        proof {
            if !same {
                assert(day0v.ticks =~= Seq::<TickContextV>::empty());
            }
        }
        let mut updates = updates;
        let nupd = updates.len();
        let ghost total = batch.len();
        proof {
            lemma_vec_deep_view(&updates);
            assert(total == nupd as int);
        }
        let mut game_contexts: Vec<GameTickContext> = Vec::new();
        let mut i: usize = 0;
        while updates.len() > 0
            invariant
                self.inv(),
                0 <= i,
                i + updates.deep_view().len() == total,
                total == batch.len(),
                total <= usize::MAX,
                updates.deep_view() =~= batch.skip(i as int),
                forall|j: int|
                    0 <= j < batch.len() ==> (#[trigger] batch[j].game).wf(),
                self@.pending_updates == e0.pending_updates,
                self@.current_day == Some(day0v),
                self@.tick_number == tnv,
                tnv < usize::MAX,
                ({
                    let cur = spec_process_batch(
                        self@.active_games,
                        self.rng,
                        spec_checks_view(self.check_rolls),
                        batch,
                        i as int,
                    );
                    &&& target.0 == cur.0
                    &&& target.1 == cur.1
                    &&& target.2 == cur.2
                    &&& target.3 == (match cur.3 {
                        Some(rest) => Some(game_contexts.deep_view() + rest),
                        None => None,
                    })
                }),
            decreases updates.deep_view().len(),
        {
            proof {
                lemma_vec_deep_view(&updates);
            }
            let ghost pre_updates = updates.deep_view();
            let ghost uv0 = updates@;
            let p = updates.remove(0);
            proof {
                lemma_vec_deep_view(&updates);
                assert(p.deep_view() == pre_updates[0]);
                assert(pre_updates[0] == batch[i as int]);
                assert forall|j: int| 0 <= j < updates@.len() implies updates.deep_view()[j]
                    == pre_updates[j + 1] by {
                    assert(updates@[j] == uv0[j + 1]);
                }
                assert(updates.deep_view() =~= batch.skip(i + 1 as int));
            }
            let ghost games_pre = self@.active_games;
            let ghost rng_pre = self.rng;
            let ghost checks_pre = spec_checks_view(self.check_rolls);
            proof {
                lemma_process_batch_step(games_pre, rng_pre, checks_pre, batch, i as int);
            }
            let res = batch_step(
                &mut self.active_games,
                &mut self.rng,
                &mut self.check_rolls,
                p,
            );
            match res {
                Ok(ctx) => {
                    let ghost before = game_contexts.deep_view();
                    let ghost gcv0 = game_contexts@;
                    proof {
                        lemma_vec_deep_view(&game_contexts);
                    }
                    let ghost ctxv = ctx@;
                    game_contexts.push(ctx);
                    proof {
                        lemma_vec_deep_view(&game_contexts);
                        assert forall|j: int| 0 <= j < game_contexts@.len() implies
                            game_contexts.deep_view()[j] == before.push(ctxv)[j] by {
                            if j < gcv0.len() {
                                assert(game_contexts@[j] == gcv0[j]);
                            } else {
                                assert(game_contexts@[j].deep_view() == ctxv);
                            }
                        }
                        assert(game_contexts.deep_view() =~= before.push(ctxv));
                        assert(before + (seq![ctxv] + spec_process_batch(
                            self@.active_games,
                            self.rng,
                            spec_checks_view(self.check_rolls),
                            batch,
                            i + 1 as int,
                        ).3.unwrap()) =~= (before.push(ctxv)) + spec_process_batch(
                            self@.active_games,
                            self.rng,
                            spec_checks_view(self.check_rolls),
                            batch,
                            i + 1 as int,
                        ).3.unwrap());
                    }
                    i += 1;
                },
                Err(e) => {
                    proof {
                        let sp = spec_tick(e0, batch);
                        assert(batch[0] == updates_head);
                        assert(sp.1 == Err::<Option<DayContextV>, EngineFatalError>(
                            EngineFatalError::RanOutOfCheckRolls,
                        ));
                        assert(self@.rng == sp.0.rng);
                        assert(self@.check_rolls == sp.0.check_rolls);
                        assert(self@.active_games == sp.0.active_games);
                        assert(self@.pending_updates == sp.0.pending_updates);
                        assert(self@.current_day == sp.0.current_day);
                        assert(self@.tick_number == sp.0.tick_number);
                        assert(self@ == sp.0);
                    }
                    return Err(e);
                },
            }
        }
        proof {
            assert(batch.skip(i as int).len() == 0);
            lemma_process_batch_done(
                self@.active_games,
                self.rng,
                spec_checks_view(self.check_rolls),
                batch,
                i as int,
            );
            assert(game_contexts.deep_view() + Seq::<GameTickContextV>::empty()
                =~= game_contexts.deep_view());
        }
        let tick_ctx = TickContext {
            tick_number: self.tick_number,
            tick_timestamp: u0_ts,
            games: game_contexts,
        };
        let ghost tickv = tick_ctx@;
        match &mut self.current_day {
            Some(day) => {
                let ghost dticks = day.ticks.deep_view();
                let ghost dt0 = day.ticks@;
                proof {
                    lemma_vec_deep_view(&day.ticks);
                }
                day.ticks.push(tick_ctx);
                proof {
                    lemma_vec_deep_view(&day.ticks);
                    assert forall|j: int| 0 <= j < day.ticks@.len() implies
                        day.ticks.deep_view()[j] == (dticks + seq![tickv])[j] by {
                        if j < dt0.len() {
                            assert(day.ticks@[j] == dt0[j]);
                        }
                    }
                    assert(day.ticks.deep_view() =~= dticks + seq![tickv]);
                }
            },
            None => {
                proof {
                    assert(false);
                }
            },
        }
        self.tick_number = self.tick_number + 1;
        proof {
            let sp = spec_tick(e0, batch);
            assert(batch[0] == updates_head);
            assert(sp.1 == Ok::<Option<DayContextV>, EngineFatalError>(finishedv));
            assert(spec_result_view(&Ok(finished)) == Ok::<Option<DayContextV>, EngineFatalError>(
                finishedv,
            ));
            assert(self@.rng == sp.0.rng);
            assert(self@.check_rolls == sp.0.check_rolls);
            assert(self@.active_games == sp.0.active_games);
            assert(self@.pending_updates == sp.0.pending_updates);
            assert(self@.current_day matches Some(d) && sp.0.current_day matches Some(sd)
                && d.season == sd.season && d.day == sd.day && d.ticks =~= sd.ticks);
            assert(self@.current_day == sp.0.current_day);
            assert(self@.tick_number == sp.0.tick_number);
            assert(self@ == sp.0);
        }
        Ok(finished)
    }
}


impl Engine {
    /// Feed one update, with its game's rosters and the tick's threshold
    /// table. Same-timestamped updates are buffered; a later timestamp
    /// closes the buffered tick and may return a finished day; an earlier
    /// timestamp is a fatal ordering error.
    pub fn next_update(
        &mut self,
        update: ChroniclerGameUpdate,
        game: Game,
        thresholds: Thresholds,
    ) -> (r: Result<Option<DayContext>, EngineFatalError>)
        requires
            old(self).inv(),
            game@.wf(),
            old(self).tick_number < usize::MAX,
        ensures
            final(self).inv(),
            ({
                let sp = spec_next_update(
                    old(self)@,
                    PendingUpdateV { update: update@, game: game@, thresholds: thresholds@ },
                );
                &&& final(self)@ == sp.0
                &&& spec_result_view(&r) == sp.1
            }),
    {
        let ghost e0 = self@;
        let ghost pv = PendingUpdateV { update: update@, game: game@, thresholds: thresholds@ };
        let p = PendingUpdate { update, game, thresholds };
        if self.pending_updates.len() == 0 {
            let ghost pend0 = self.pending_updates.deep_view();
            proof {
                lemma_vec_deep_view(&self.pending_updates);
            }
            self.pending_updates.push(p);
            proof {
                lemma_vec_deep_view(&self.pending_updates);
                assert(self@.pending_updates =~= seq![pv]);
                assert(self@ == spec_next_update(e0, pv).0);
            }
            return Ok(None);
        }
        proof {
            lemma_vec_deep_view(&self.pending_updates);
        }
        let t0 = self.pending_updates[0].update.timestamp;
        if p.update.timestamp < t0 {
            return Err(
                EngineFatalError::EventOutOfOrder {
                    stored_event_timestamp: t0,
                    new_event_timestamp: p.update.timestamp,
                },
            );
        }
        if p.update.timestamp == t0 {
            let ghost pend0 = self.pending_updates.deep_view();
            let ghost pv0 = self.pending_updates@;
            self.pending_updates.push(p);
            proof {
                lemma_vec_deep_view(&self.pending_updates);
                assert forall|j: int| 0 <= j < self.pending_updates@.len() implies
                    self@.pending_updates[j] == pend0.push(pv)[j] by {
                    if j < pv0.len() {
                        assert(self.pending_updates@[j] == pv0[j]);
                    } else {
                        assert(self.pending_updates@[j]@ == pv);
                    }
                }
                assert(self@.pending_updates =~= pend0.push(pv));
                assert(self@ == spec_next_update(e0, pv).0);
            }
            return Ok(None);
        }
        let mut batch: Vec<PendingUpdate> = Vec::new();
        core::mem::swap(&mut batch, &mut self.pending_updates);
        self.pending_updates.push(p);
        proof {
            lemma_vec_deep_view(&self.pending_updates);
            assert(self@.pending_updates =~= seq![pv]);
            assert(batch.deep_view() == e0.pending_updates);
            assert(self@ == EngineV { pending_updates: seq![pv], ..e0 });
        }
        self.tick(batch)
    }
}

/// Replay determinism: the engine is a function of its state and its
/// input. Two engines in equal states, fed value-equal updates, move to
/// equal states and report equal results --- in particular the draw values
/// in every produced context, day by day and tick by tick, coincide
/// bit for bit.
pub proof fn lemma_replay_deterministic(
    a: EngineV,
    b: EngineV,
    p: PendingUpdateV,
    q: PendingUpdateV,
)
    requires
        a == b,
        p == q,
    ensures
        spec_next_update(a, p) == spec_next_update(b, q),
{
}


/// Scheduler ordering: an update with a strictly earlier timestamp than
/// the pending tick is refused with the fatal ordering error, naming both
/// timestamps, and the engine does not move.
pub proof fn lemma_scheduler_ordering(e: EngineV, p: PendingUpdateV)
    requires
        e.pending_updates.len() > 0,
        p.update.timestamp < e.pending_updates[0].update.timestamp,
    ensures
        spec_next_update(e, p).0 == e,
        spec_next_update(e, p).1 == Err::<Option<DayContextV>, EngineFatalError>(
            EngineFatalError::EventOutOfOrder {
                stored_event_timestamp: e.pending_updates[0].update.timestamp,
                new_event_timestamp: p.update.timestamp,
            },
        ),
{
}

/// Day boundary: a tick yields a finished day exactly when it opens a
/// strictly later day while one is in progress (and the day handed back is
/// that day); a strictly earlier day is the fatal ordering error; and the
/// day just opened numbers its ticks from zero.
pub proof fn lemma_day_boundary(e: EngineV, batch: Seq<PendingUpdateV>)
    requires
        batch.len() >= 1,
    ensures
        ({
            let u0 = batch[0].update;
            let r = spec_tick(e, batch);
            &&& ((e.current_day matches Some(d) && spec_day_lt(
                (u0.season, u0.day),
                (d.season, d.day),
            )) ==> r.0 == e && (r.1 matches Err(x) && x matches
                EngineFatalError::DaysOutOfOrder { .. }))
            &&& (r.1 is Ok ==> ((r.1->Ok_0) is Some <==> (e.current_day matches Some(d)
                && spec_day_lt((d.season, d.day), (u0.season, u0.day)))))
            &&& (r.1 is Ok && (r.1->Ok_0) is Some ==> r.1->Ok_0 == e.current_day)
            &&& (r.1 is Ok && (r.1->Ok_0) is Some ==> r.0.tick_number == 1
                && (r.0.current_day matches Some(nd) && nd.season == u0.season && nd.day == u0.day
                && nd.ticks.len() == 1 && nd.ticks[0].tick_number == 0))
        }),
{
}

} // verus!
