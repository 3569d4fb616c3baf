//! Plain-value snapshots of an in-progress game, as the update stream
//! delivers them. Identifiers are carried as 128-bit integers and
//! timestamps as integer instants; the surrounding application converts
//! from its wire types.

use vstd::prelude::*;

verus! {

/// The per-snapshot game data the replay consumes.
pub struct ChroniclerGameUpdateData {
    pub season: i64,
    pub day: i64,
    pub play_count: i64,
    pub top_of_inning: bool,
    pub away_team: u128,
    pub home_team: u128,
    pub away_team_batter_count: i64,
    pub home_team_batter_count: i64,
    pub away_batter: Option<u128>,
    pub home_batter: Option<u128>,
    pub away_pitcher: Option<u128>,
    pub home_pitcher: Option<u128>,
    pub last_update: String,
    pub away_team_nickname: String,
    pub home_team_nickname: String,
    /// Outs already recorded in the current half-inning.
    pub half_inning_outs: i64,
    /// Outs that end the half-inning.
    pub max_outs: i64,
    /// Runner identifiers, parallel to `bases_occupied`.
    pub base_runners: Vec<u128>,
    /// Occupied bases at the end of this snapshot, parallel to
    /// `base_runners`.
    pub bases_occupied: Vec<i64>,
}

/// One update: a game, an instant, and the snapshot data.
pub struct ChroniclerGameUpdate {
    pub game_id: u128,
    pub timestamp: i64,
    pub data: ChroniclerGameUpdateData,
}

/// The mathematical image of an update.
pub struct GameUpdateV {
    pub game_id: u128,
    pub timestamp: i64,
    pub season: i64,
    pub day: i64,
    pub play_count: i64,
    pub top_of_inning: bool,
    pub away_team: u128,
    pub home_team: u128,
    pub away_team_batter_count: i64,
    pub home_team_batter_count: i64,
    pub away_batter: Option<u128>,
    pub home_batter: Option<u128>,
    pub away_pitcher: Option<u128>,
    pub home_pitcher: Option<u128>,
    pub last_update: Seq<char>,
    pub away_team_nickname: Seq<char>,
    pub home_team_nickname: Seq<char>,
    pub half_inning_outs: i64,
    pub max_outs: i64,
    pub base_runners: Seq<u128>,
    pub bases_occupied: Seq<i64>,
}

impl View for ChroniclerGameUpdate {
    type V = GameUpdateV;

    open spec fn view(&self) -> GameUpdateV {
        GameUpdateV {
            game_id: self.game_id,
            timestamp: self.timestamp,
            season: self.data.season,
            day: self.data.day,
            play_count: self.data.play_count,
            top_of_inning: self.data.top_of_inning,
            away_team: self.data.away_team,
            home_team: self.data.home_team,
            away_team_batter_count: self.data.away_team_batter_count,
            home_team_batter_count: self.data.home_team_batter_count,
            away_batter: self.data.away_batter,
            home_batter: self.data.home_batter,
            away_pitcher: self.data.away_pitcher,
            home_pitcher: self.data.home_pitcher,
            last_update: self.data.last_update@,
            away_team_nickname: self.data.away_team_nickname@,
            home_team_nickname: self.data.home_team_nickname@,
            half_inning_outs: self.data.half_inning_outs,
            max_outs: self.data.max_outs,
            base_runners: self.data.base_runners@,
            bases_occupied: self.data.bases_occupied@,
        }
    }
}

} // verus!
