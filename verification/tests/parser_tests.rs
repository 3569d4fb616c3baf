use desim::chron::{ChroniclerGameUpdate, ChroniclerGameUpdateData};
use desim::event_parser::{parse_event, ParsedEventData};
use desim::game_log::{GameEvent, GameEventData};
use desim::update_parser::{parse_description, parse_update, ParsedUpdateData};

fn make_update(description: &str) -> ChroniclerGameUpdate {
    ChroniclerGameUpdate {
        game_id: 7,
        timestamp: 1000,
        data: ChroniclerGameUpdateData {
            season: 0,
            day: 0,
            play_count: 0,
            top_of_inning: true,
            away_team: 1,
            home_team: 2,
            away_team_batter_count: 0,
            home_team_batter_count: 0,
            away_batter: None,
            home_batter: None,
            away_pitcher: None,
            home_pitcher: None,
            last_update: description.to_owned(),
            away_team_nickname: "Crabs".to_owned(),
            home_team_nickname: "Sunbeams".to_owned(),
            half_inning_outs: 0,
            max_outs: 3,
            base_runners: Vec::new(),
            bases_occupied: Vec::new(),
        },
    }
}

#[test]
fn parse_empty_is_empty() {
    assert!(matches!(parse_description(""), Some(ParsedUpdateData::Empty)));
}

#[test]
fn parse_ball_and_foul_ball() {
    assert!(matches!(parse_description("Ball. 2-1"), Some(ParsedUpdateData::Ball)));
    assert!(matches!(
        parse_description("Foul Ball. 0-0"),
        Some(ParsedUpdateData::FoulBall)
    ));
}

#[test]
fn parse_hit_with_scores() {
    match parse_description("Alice hits a Double!\nBob scores!\nCarol scores!") {
        Some(ParsedUpdateData::Hit { bases, scored }) => {
            assert_eq!(bases, 2);
            assert_eq!(scored, vec!["Bob".to_owned(), "Carol".to_owned()]);
        }
        other => panic!("wrong parse: {}", other.is_some()),
    }
}

#[test]
fn parse_hit_variants() {
    match parse_description("Alice hits a Single!") {
        Some(ParsedUpdateData::Hit { bases, scored }) => {
            assert_eq!(bases, 1);
            assert!(scored.is_empty());
        }
        _ => panic!("wrong parse"),
    }
    match parse_description("Alice hits a Quadruple!") {
        Some(ParsedUpdateData::Hit { bases, .. }) => assert_eq!(bases, 4),
        _ => panic!("wrong parse"),
    }
}

#[test]
fn parse_play_ball_and_turnover() {
    assert!(matches!(
        parse_description("Play ball!"),
        Some(ParsedUpdateData::PlayBall)
    ));
    assert!(matches!(
        parse_description("Top of 3, Crabs batting."),
        Some(ParsedUpdateData::InningTurnover)
    ));
    assert!(matches!(
        parse_description("Bottom of 12, Sunbeams batting."),
        Some(ParsedUpdateData::InningTurnover)
    ));
}

#[test]
fn parse_batter_up() {
    assert!(matches!(
        parse_description("Alice Arbor batting for the Crabs."),
        Some(ParsedUpdateData::BatterUp)
    ));
}

#[test]
fn parse_strikes_and_strikeouts() {
    assert!(matches!(
        parse_description("Alice strikes out looking."),
        Some(ParsedUpdateData::StrikeoutLooking)
    ));
    assert!(matches!(
        parse_description("Alice strikes out swinging."),
        Some(ParsedUpdateData::StrikeoutSwinging)
    ));
    assert!(matches!(
        parse_description("Strike, swinging. 1-2"),
        Some(ParsedUpdateData::StrikeSwinging)
    ));
    assert!(matches!(
        parse_description("Strike, looking. 0-2"),
        Some(ParsedUpdateData::StrikeLooking)
    ));
}

#[test]
fn parse_outs() {
    assert!(matches!(
        parse_description("Alice hit a ground out to Bob."),
        Some(ParsedUpdateData::GroundOut)
    ));
    assert!(matches!(
        parse_description("Alice hit a flyout to Bob."),
        Some(ParsedUpdateData::Flyout)
    ));
    assert!(matches!(
        parse_description("Inning 3 is now an Outing."),
        Some(ParsedUpdateData::InningEnd)
    ));
    assert!(matches!(
        parse_description("Alice hit into a double play!\nBob scores!"),
        Some(ParsedUpdateData::DoublePlay)
    ));
}

/// A fielder whose name ends in an abbreviating period keeps it.
#[test]
fn parse_ground_out_double_period_rule() {
    assert!(matches!(
        parse_description("Alice hit a ground out to Kaj Statter Jr.."),
        Some(ParsedUpdateData::GroundOut)
    ));
}

#[test]
fn parse_rejects_gibberish() {
    assert!(parse_description("the umpires hold a meeting").is_none());
    // A count too large for an i64 fails the number rule.
    assert!(parse_description("Ball. 99999999999999999999-1").is_none());
}

#[test]
fn parse_update_wraps_description() {
    let update = make_update("Ball. 2-1");
    assert!(matches!(
        parse_update(&update),
        Ok(desim::update_parser::ParsedUpdate { data: ParsedUpdateData::Ball })
    ));
    let bad = make_update("gibberish");
    assert!(parse_update(&bad).is_err());
}

#[test]
fn parse_event_reduced_taxonomy() {
    let ev = |d: &str| GameEvent {
        timestamp: 0,
        game_id: 1,
        data: GameEventData { last_update: d.to_owned() },
    };
    assert!(matches!(
        parse_event(ev("Play ball!")),
        Ok(desim::event_parser::ParsedEvent { data: ParsedEventData::PlayBall })
    ));
    assert!(matches!(
        parse_event(ev("Ball. 0-1")),
        Ok(desim::event_parser::ParsedEvent { data: ParsedEventData::Ball })
    ));
    assert!(matches!(
        parse_event(ev("Alice strikes out swinging.")),
        Ok(desim::event_parser::ParsedEvent { data: ParsedEventData::StrikeoutSwinging })
    ));
    // The reduced grammar has no hits.
    assert!(parse_event(ev("Alice hits a Single!")).is_err());
}
