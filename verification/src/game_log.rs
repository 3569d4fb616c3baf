//! A bare game-log event: the minimal snapshot record that carries a
//! description line. The surrounding application deserializes the on-disk
//! log into these.

use vstd::prelude::*;

verus! {

pub struct GameEventData {
    pub last_update: String,
}

pub struct GameEvent {
    pub timestamp: i64,
    pub game_id: u128,
    pub data: GameEventData,
}

} // verus!
