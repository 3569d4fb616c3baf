//! The reduced event parser over the early play taxonomy: the handful of
//! events a pitch can produce, without hits or outs in play.

use vstd::prelude::*;
use crate::game_log::GameEvent;
use crate::strutil::occurs_at;
use crate::update_parser::{
    spec_is_ball, spec_is_batter_up, spec_is_foul_ball, spec_is_inning_turnover, spec_strikeout,
    try_ball, try_batter_up, try_foul_ball, try_inning_turnover, try_strikeout,
};

verus! {

#[derive(Clone, Copy, Debug, PartialEq, Eq, Structural)]
pub enum ParsedEventData {
    PlayBall,
    InningTurnover,
    BatterUp,
    Ball,
    FoulBall,
    StrikeoutLooking,
    StrikeoutSwinging,
}

pub struct ParsedEvent {
    pub data: ParsedEventData,
}

/// Why an event's description was rejected: no grammar alternative
/// matched. The unparsed text is carried along.
pub enum EventParseError {
    FailedToParseDescription(String),
}

/// The reduced grammar: the same anchored alternatives as the full parser,
/// restricted to the early taxonomy, first match wins.
pub open spec fn spec_parse_event(s: Seq<char>) -> Option<ParsedEventData> {
    if occurs_at(s, "Play ball!"@, 0) {
        Some(ParsedEventData::PlayBall)
    } else if spec_is_inning_turnover(s) {
        Some(ParsedEventData::InningTurnover)
    } else if spec_is_batter_up(s) {
        Some(ParsedEventData::BatterUp)
    } else if spec_is_ball(s) {
        Some(ParsedEventData::Ball)
    } else if spec_is_foul_ball(s) {
        Some(ParsedEventData::FoulBall)
    } else if spec_strikeout(s) is Some {
        if spec_strikeout(s).unwrap() {
            Some(ParsedEventData::StrikeoutLooking)
        } else {
            Some(ParsedEventData::StrikeoutSwinging)
        }
    } else {
        None
    }
}

/// Parse an event's description into the reduced taxonomy; an unparsable
/// description is returned inside the error.
pub fn parse_event(event: GameEvent) -> (r: Result<ParsedEvent, EventParseError>)
    ensures
        r matches Ok(p) ==> spec_parse_event(event.data.last_update@) == Some(p.data),
        r matches Err(e) ==> spec_parse_event(event.data.last_update@) is None
            && (e matches EventParseError::FailedToParseDescription(d) && d@
            == event.data.last_update@),
{
    proof {
        reveal_strlit("Play ball!");
    }
    let s = event.data.last_update.as_str();
    if crate::strutil::starts_with_at(s, 0, "Play ball!") {
        return Ok(ParsedEvent { data: ParsedEventData::PlayBall });
    }
    if try_inning_turnover(s) {
        return Ok(ParsedEvent { data: ParsedEventData::InningTurnover });
    }
    if try_batter_up(s) {
        return Ok(ParsedEvent { data: ParsedEventData::BatterUp });
    }
    if try_ball(s) {
        return Ok(ParsedEvent { data: ParsedEventData::Ball });
    }
    if try_foul_ball(s) {
        return Ok(ParsedEvent { data: ParsedEventData::FoulBall });
    }
    match try_strikeout(s) {
        Some(true) => {
            return Ok(ParsedEvent { data: ParsedEventData::StrikeoutLooking });
        },
        Some(false) => {
            return Ok(ParsedEvent { data: ParsedEventData::StrikeoutSwinging });
        },
        None => {},
    }
    Err(EventParseError::FailedToParseDescription(event.data.last_update))
}

} // verus!
