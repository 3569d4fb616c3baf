//! The per-game model: frozen rosters, the per-tick derived view, and the
//! identity checks run against each snapshot.

use vstd::prelude::*;
use crate::chron::ChroniclerGameUpdate;

verus! {

/// A player, frozen at replay time. Only the identity and the display name
/// enter the replay logic; the numeric attributes stay with the threshold
/// computation outside the engine.
pub struct Player {
    pub id: u128,
    pub name: String,
}

/// The mathematical image of a player.
pub struct PlayerV {
    pub id: u128,
    pub name: Seq<char>,
}

impl View for Player {
    type V = PlayerV;

    open spec fn view(&self) -> PlayerV {
        PlayerV { id: self.id, name: self.name@ }
    }
}

impl DeepView for Player {
    type V = PlayerV;

    open spec fn deep_view(&self) -> PlayerV {
        self.view()
    }
}

/// The fixed numeric attributes a player carries; the threshold formulas
/// read them outside the engine.
#[derive(Clone, Copy, Debug, PartialEq, Eq, Structural)]
pub enum Attribute {
    Buoyancy,
    Divinity,
    Martyrdom,
    Moxie,
    Musclitude,
    Patheticism,
    Thwackability,
    Tragicness,
    Ruthlessness,
    Overpowerment,
    Unthwackability,
    Shakespearianism,
    Suppression,
    Coldness,
    BaseThirst,
    Laserlikeness,
    Continuation,
    GroundFriction,
    Indulgence,
    Anticapitalism,
    Chasiness,
    Omniscience,
    Tenaciousness,
    Watchfulness,
}

/// A team's frozen in-game roster: the ordered lineup and the pitcher.
pub struct GameTeam {
    pub lineup: Vec<Player>,
    pub pitcher: Player,
}

pub struct GameTeamV {
    pub lineup: Seq<PlayerV>,
    pub pitcher: PlayerV,
}

impl View for GameTeam {
    type V = GameTeamV;

    open spec fn view(&self) -> GameTeamV {
        GameTeamV { lineup: self.lineup.deep_view(), pitcher: self.pitcher@ }
    }
}

impl GameTeamV {
    /// A usable roster: a non-empty lineup, small enough to index draws.
    pub open spec fn wf(self) -> bool {
        1 <= self.lineup.len() <= 1024
    }
}

/// A runner on base.
#[derive(Clone, Copy, Debug, PartialEq, Eq, Structural)]
pub struct BaseRunner {
    pub base: i64,
    pub runner_id: u128,
}

/// A game being replayed: the two rosters and the baserunner set at the
/// end of the previously processed tick.
pub struct Game {
    pub away_team: GameTeam,
    pub home_team: GameTeam,
    pub prev_runners: Vec<BaseRunner>,
}

pub struct GameV {
    pub away_team: GameTeamV,
    pub home_team: GameTeamV,
    pub prev_runners: Seq<BaseRunner>,
}

impl View for Game {
    type V = GameV;

    open spec fn view(&self) -> GameV {
        GameV {
            away_team: self.away_team@,
            home_team: self.home_team@,
            prev_runners: self.prev_runners@,
        }
    }
}

impl GameV {
    pub open spec fn wf(self) -> bool {
        self.away_team.wf() && self.home_team.wf()
    }
}

#[derive(Clone, Copy, Debug, PartialEq, Eq, Structural)]
pub enum HalfInning {
    Top,
    Bottom,
}

/// The view of a game at one tick: which half is batting, the batting
/// team's batter counter, and the baserunner sets at the start and end of
/// the tick.
pub struct GameAtTick<'a> {
    pub game: &'a Game,
    pub half: HalfInning,
    pub batter_count: i64,
    pub runners_at_start: Vec<BaseRunner>,
    pub runners_at_end: Vec<BaseRunner>,
    pub outs: i64,
    pub max_outs: i64,
}

pub struct GameAtTickV {
    pub game: GameV,
    pub half: HalfInning,
    pub batter_count: i64,
    pub runners_at_start: Seq<BaseRunner>,
    pub runners_at_end: Seq<BaseRunner>,
    pub outs: i64,
    pub max_outs: i64,
}

impl<'a> View for GameAtTick<'a> {
    type V = GameAtTickV;

    open spec fn view(&self) -> GameAtTickV {
        GameAtTickV {
            game: (*self.game)@,
            half: self.half,
            batter_count: self.batter_count,
            runners_at_start: self.runners_at_start@,
            runners_at_end: self.runners_at_end@,
            outs: self.outs,
            max_outs: self.max_outs,
        }
    }
}

impl GameAtTickV {
    pub open spec fn batting_team(self) -> GameTeamV {
        match self.half {
            HalfInning::Top => self.game.away_team,
            HalfInning::Bottom => self.game.home_team,
        }
    }

    pub open spec fn pitching_team(self) -> GameTeamV {
        match self.half {
            HalfInning::Top => self.game.home_team,
            HalfInning::Bottom => self.game.away_team,
        }
    }

    /// The lineup that fields while the other side bats.
    pub open spec fn fielders(self) -> Seq<PlayerV> {
        self.pitching_team().lineup
    }

    /// The batter the counter designates: the counter modulo the lineup.
    pub open spec fn spec_batter(self) -> PlayerV {
        self.batting_team().lineup[self.batter_count as int % self.batting_team().lineup.len() as int]
    }

    pub open spec fn wf(self) -> bool {
        self.game.wf()
    }
}

/// The runner list a snapshot reports: `base_runners` and `bases_occupied`
/// zipped positionally.
pub open spec fn spec_runners_of_update(u: crate::chron::GameUpdateV) -> Seq<BaseRunner> {
    Seq::new(
        vstd::math::min(u.base_runners.len() as int, u.bases_occupied.len() as int) as nat,
        |i: int| BaseRunner { base: u.bases_occupied[i], runner_id: u.base_runners[i] },
    )
}

/// The per-tick view a snapshot induces on a game.
pub open spec fn spec_at_tick(g: GameV, u: crate::chron::GameUpdateV) -> GameAtTickV {
    GameAtTickV {
        game: g,
        half: if u.top_of_inning {
            HalfInning::Top
        } else {
            HalfInning::Bottom
        },
        batter_count: if u.top_of_inning {
            u.away_team_batter_count
        } else {
            u.home_team_batter_count
        },
        runners_at_start: g.prev_runners,
        runners_at_end: spec_runners_of_update(u),
        outs: u.half_inning_outs,
        max_outs: u.max_outs,
    }
}

/// Copy a runner list.
fn copy_runners(v: &Vec<BaseRunner>) -> (r: Vec<BaseRunner>)
    ensures
        r@ == v@,
{
    let mut out: Vec<BaseRunner> = Vec::new();
    let mut i: usize = 0;
    while i < v.len()
        invariant
            i <= v@.len(),
            out@ == v@.subrange(0, i as int),
        decreases v@.len() - i,
    {
        out.push(v[i]);
        proof {
            assert(out@ =~= v@.subrange(0, i + 1 as int));
        }
        i += 1;
    }
    proof {
        assert(out@ =~= v@);
    }
    out
}

impl Game {
    /// Materialize the per-tick view from a snapshot: the batting half and
    /// its batter counter, the runners carried over from the previous tick,
    /// and the runners the snapshot reports.
    pub fn at_tick<'a>(&'a self, game_update: &ChroniclerGameUpdate) -> (r: GameAtTick<'a>)
        ensures
            r@ == spec_at_tick(self@, game_update@),
    {
        let half = if game_update.data.top_of_inning {
            HalfInning::Top
        } else {
            HalfInning::Bottom
        };
        let batter_count = if game_update.data.top_of_inning {
            game_update.data.away_team_batter_count
        } else {
            game_update.data.home_team_batter_count
        };
        let n = if game_update.data.base_runners.len() <= game_update.data.bases_occupied.len() {
            game_update.data.base_runners.len()
        } else {
            game_update.data.bases_occupied.len()
        };
        let mut runners_at_end: Vec<BaseRunner> = Vec::new();
        let mut i: usize = 0;
        while i < n
            invariant
                n <= game_update.data.base_runners@.len(),
                n <= game_update.data.bases_occupied@.len(),
                i <= n,
                runners_at_end@ == spec_runners_of_update(game_update@).subrange(0, i as int),
                n == vstd::math::min(
                    game_update@.base_runners.len() as int,
                    game_update@.bases_occupied.len() as int,
                ),
            decreases n - i,
        {
            runners_at_end.push(
                BaseRunner {
                    base: game_update.data.bases_occupied[i],
                    runner_id: game_update.data.base_runners[i],
                },
            );
            proof {
                assert(runners_at_end@ =~= spec_runners_of_update(game_update@).subrange(
                    0,
                    i + 1 as int,
                ));
            }
            i += 1;
        }
        proof {
            assert(runners_at_end@ =~= spec_runners_of_update(game_update@));
        }
        GameAtTick {
            game: self,
            half,
            batter_count,
            runners_at_start: copy_runners(&self.prev_runners),
            runners_at_end,
            outs: game_update.data.half_inning_outs,
            max_outs: game_update.data.max_outs,
        }
    }

    /// Record the end-of-tick runners as the next tick's starting runners.
    pub fn set_prev(&mut self, runners: Vec<BaseRunner>)
        ensures
            final(self).prev_runners == runners,
            final(self).away_team == old(self).away_team,
            final(self).home_team == old(self).home_team,
    {
        self.prev_runners = runners;
    }
}

impl<'a> GameAtTick<'a> {
    pub fn pitching_team(&self) -> (r: &'a GameTeam)
        ensures
            r@ == self@.pitching_team(),
    {
        match self.half {
            HalfInning::Top => &self.game.home_team,
            HalfInning::Bottom => &self.game.away_team,
        }
    }

    pub fn batting_team(&self) -> (r: &'a GameTeam)
        ensures
            r@ == self@.batting_team(),
    {
        match self.half {
            HalfInning::Top => &self.game.away_team,
            HalfInning::Bottom => &self.game.home_team,
        }
    }

    pub fn pitcher(&self) -> (r: &'a Player)
        ensures
            r@ == self@.pitching_team().pitcher,
    {
        &self.pitching_team().pitcher
    }

    /// The batter up: the batting team's counter, modulo the lineup length.
    pub fn batter(&self) -> (r: &'a Player)
        requires
            self@.wf(),
            self.batter_count >= 0,
        ensures
            r@ == self@.spec_batter(),
    {
        let batting_lineup = &self.batting_team().lineup;
        let index = ((self.batter_count as u64) % (batting_lineup.len() as u64)) as usize;
        &batting_lineup[index]
    }

    /// How many fielders a chosen-fielder draw selects from.
    pub fn num_fielders(&self) -> (r: usize)
        ensures
            r == self@.fielders().len(),
    {
        self.pitching_team().lineup.len()
    }

    pub fn fielder(&self, idx: usize) -> (r: &'a Player)
        requires
            idx < self@.fielders().len(),
        ensures
            r@ == self@.fielders()[idx as int],
    {
        &self.pitching_team().lineup[idx]
    }
}

/// The snapshot disagrees with the computed batter: the batting counter is
/// meaningful, the snapshot names a batter, and it is not the one the
/// lineup yields.
pub open spec fn spec_batter_mismatch(g: GameAtTickV, u: crate::chron::GameUpdateV) -> bool {
    let tbc = if u.top_of_inning {
        u.away_team_batter_count
    } else {
        u.home_team_batter_count
    };
    let observed = if u.top_of_inning {
        u.away_batter
    } else {
        u.home_batter
    };
    &&& tbc >= 0
    &&& observed is Some
    &&& g.spec_batter().id != observed.unwrap()
}

/// The snapshot disagrees with the computed pitcher.
pub open spec fn spec_pitcher_mismatch(g: GameAtTickV, u: crate::chron::GameUpdateV) -> bool {
    let observed = if u.top_of_inning {
        u.home_pitcher
    } else {
        u.away_pitcher
    };
    &&& observed is Some
    &&& g.pitching_team().pitcher.id != observed.unwrap()
}

impl<'a> GameAtTick<'a> {
    /// Check the snapshot's batter and pitcher identities against the
    /// computed ones. Disagreements are reported as non-fatal errors; the
    /// warning list is reserved and stays empty.
    pub fn validate(&self, game_update: &ChroniclerGameUpdate) -> (r: (Vec<String>, Vec<String>))
        requires
            self@.wf(),
            self.batter_count == (if game_update.data.top_of_inning {
                game_update.data.away_team_batter_count
            } else {
                game_update.data.home_team_batter_count
            }),
        ensures
            r.0.deep_view() == (if spec_batter_mismatch(self@, game_update@) {
                seq!["Batter did not match"@]
            } else {
                Seq::<Seq<char>>::empty()
            }) + (if spec_pitcher_mismatch(self@, game_update@) {
                seq!["Pitcher did not match"@]
            } else {
                Seq::<Seq<char>>::empty()
            }),
            r.1.deep_view() == Seq::<Seq<char>>::empty(),
    {
        let mut errors: Vec<String> = Vec::new();
        let tbc = if game_update.data.top_of_inning {
            game_update.data.away_team_batter_count
        } else {
            game_update.data.home_team_batter_count
        };
        let observed_batter = if game_update.data.top_of_inning {
            game_update.data.away_batter
        } else {
            game_update.data.home_batter
        };
        if tbc >= 0 {
            match observed_batter {
                Some(observed) => {
                    if self.batter().id != observed {
                        errors.push(literal_string("Batter did not match"));
                    }
                },
                None => {},
            }
        }
        let observed_pitcher = if game_update.data.top_of_inning {
            game_update.data.home_pitcher
        } else {
            game_update.data.away_pitcher
        };
        let ghost after_batter = errors.deep_view();
        match observed_pitcher {
            Some(observed) => {
                if self.pitcher().id != observed {
                    errors.push(literal_string("Pitcher did not match"));
                }
            },
            None => {},
        }
        proof {
            if spec_batter_mismatch(self@, game_update@) {
                assert(after_batter =~= seq!["Batter did not match"@]);
            } else {
                assert(after_batter =~= Seq::<Seq<char>>::empty());
            }
            if spec_pitcher_mismatch(self@, game_update@) {
                assert(errors.deep_view() =~= after_batter + seq!["Pitcher did not match"@]);
            } else {
                assert(errors.deep_view() =~= after_batter + Seq::<Seq<char>>::empty());
            }
        }
        let warnings: Vec<String> = Vec::new();
        proof {
            assert(warnings.deep_view() =~= Seq::<Seq<char>>::empty());
        }
        (errors, warnings)
    }
}

/// Copy a literal into an owned string.
pub fn literal_string(s: &str) -> (r: String)
    ensures
        r@ == s@,
{
    s.to_owned()
}

} // verus!
