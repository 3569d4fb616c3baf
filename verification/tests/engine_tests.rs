use desim::chron::{ChroniclerGameUpdate, ChroniclerGameUpdateData};
use desim::engine::{Engine, EngineFatalError};
use desim::fragments::{CheckRoll, RollStream};
use desim::rng::Rng;
use desim::rolls::RollPurpose;
use desim::sim::{Game, GameTeam, Player};
use desim::thresholds::Thresholds;
use desim::xs128p::Xs128pState;

fn player(id: u128, name: &str) -> Player {
    Player { id, name: name.to_owned() }
}

fn team(base: u128) -> GameTeam {
    GameTeam {
        lineup: vec![player(base, "Alice"), player(base + 1, "Bob")],
        pitcher: player(base + 2, "Pitch"),
    }
}

fn game() -> Game {
    Game { away_team: team(100), home_team: team(200), prev_runners: Vec::new() }
}

fn thresholds() -> Thresholds {
    let num_fielders = 2;
    Thresholds {
        party: 0.0f64.to_bits(),
        mild_pitch: 0.0025f64.to_bits(),
        in_strike_zone: 0.55f64.to_bits(),
        fair_ball: 0.25f64.to_bits(),
        fly: 0.18f64.to_bits(),
        hr: 0.12f64.to_bits(),
        out_by_fielder: vec![0.3f64.to_bits(); num_fielders],
        double_by_fielder: vec![0.17f64.to_bits(); num_fielders],
        triple_by_fielder: vec![0.05f64.to_bits(); num_fielders],
        advance: Vec::new(),
    }
}

fn update(game_id: u128, ts: i64, season: i64, day: i64, description: &str) -> ChroniclerGameUpdate {
    ChroniclerGameUpdate {
        game_id,
        timestamp: ts,
        data: ChroniclerGameUpdateData {
            season,
            day,
            play_count: 0,
            top_of_inning: true,
            away_team: 1,
            home_team: 2,
            away_team_batter_count: 0,
            home_team_batter_count: 0,
            away_batter: None,
            home_batter: None,
            away_pitcher: None,
            home_pitcher: None,
            last_update: description.to_owned(),
            away_team_nickname: "Crabs".to_owned(),
            home_team_nickname: "Sunbeams".to_owned(),
            half_inning_outs: 0,
            max_outs: 3,
            base_runners: Vec::new(),
            bases_occupied: Vec::new(),
        },
    }
}

fn fresh_engine() -> Engine {
    let rng = Rng::new(Xs128pState(11489856334623440466, 7665746933450455135), 59);
    Engine::new(rng, None)
}

/// Three updates at `t`, `t`, `t + 1`, same day: the third closes one tick
/// holding the first two games; no day is returned yet.
#[test]
fn scheduler_groups_one_tick() {
    let mut engine = fresh_engine();
    assert!(matches!(
        engine.next_update(update(1, 1000, 0, 0, "Play ball!"), game(), thresholds()),
        Ok(None)
    ));
    assert!(matches!(
        engine.next_update(update(2, 1000, 0, 0, "Play ball!"), game(), thresholds()),
        Ok(None)
    ));
    assert!(matches!(
        engine.next_update(update(1, 1001, 0, 0, "Ball. 0-0"), game(), thresholds()),
        Ok(None)
    ));
    let day = engine.current_day.as_ref().unwrap();
    assert_eq!((day.season, day.day), (0, 0));
    assert_eq!(day.ticks.len(), 1);
    assert_eq!(day.ticks[0].tick_number, 0);
    assert_eq!(day.ticks[0].tick_timestamp, 1000);
    assert_eq!(day.ticks[0].games.len(), 2);
    assert_eq!(engine.tick_number, 1);
}

/// A later day's tick returns the finished day exactly once, and the new
/// day's tick numbering restarts at zero.
#[test]
fn day_boundary_returns_finished_day() {
    let mut engine = fresh_engine();
    assert!(matches!(
        engine.next_update(update(1, 1000, 0, 0, "Play ball!"), game(), thresholds()),
        Ok(None)
    ));
    // Day 0's tick is processed when day 1's first update arrives.
    assert!(matches!(
        engine.next_update(update(1, 2000, 0, 1, "Play ball!"), game(), thresholds()),
        Ok(None)
    ));
    // Day 1's tick is processed now, and day 0 comes back finished.
    let finished = engine
        .next_update(update(1, 3000, 0, 1, "Play ball!"), game(), thresholds())
        .unwrap()
        .unwrap();
    assert_eq!((finished.season, finished.day), (0, 0));
    assert_eq!(finished.ticks.len(), 1);
    let day = engine.current_day.as_ref().unwrap();
    assert_eq!((day.season, day.day), (0, 1));
    assert_eq!(day.ticks[0].tick_number, 0);
}

/// An earlier timestamp after a later one is a fatal ordering error.
#[test]
fn out_of_order_stream_is_fatal() {
    let mut engine = fresh_engine();
    assert!(matches!(
        engine.next_update(update(1, 1001, 0, 0, "Play ball!"), game(), thresholds()),
        Ok(None)
    ));
    match engine.next_update(update(1, 1000, 0, 0, "Play ball!"), game(), thresholds()) {
        Err(EngineFatalError::EventOutOfOrder { stored_event_timestamp, new_event_timestamp }) => {
            assert_eq!(stored_event_timestamp, 1001);
            assert_eq!(new_event_timestamp, 1000);
        }
        _ => panic!("expected an ordering error"),
    }
}

/// An earlier day after a later one is a fatal ordering error.
#[test]
fn days_out_of_order_is_fatal() {
    let mut engine = fresh_engine();
    let _ = engine.next_update(update(1, 1000, 0, 5, "Play ball!"), game(), thresholds());
    let _ = engine.next_update(update(1, 2000, 0, 5, "Play ball!"), game(), thresholds());
    match engine.next_update(update(1, 3000, 0, 4, "Play ball!"), game(), thresholds()) {
        Ok(_) => {
            // The day-4 update is pending; its tick is processed on the next
            // later timestamp and must fail there.
            match engine.next_update(update(1, 4000, 0, 6, "Play ball!"), game(), thresholds()) {
                Err(EngineFatalError::DaysOutOfOrder {
                    stored_season,
                    stored_day,
                    new_season,
                    new_day,
                    ..
                }) => {
                    assert_eq!((stored_season, stored_day), (0, 5));
                    assert_eq!((new_season, new_day), (0, 4));
                }
                _ => panic!("expected a day ordering error"),
            }
        }
        Err(_) => panic!("the error arises when the batch is processed"),
    }
}

/// A pitch consumes the fixed draw sequence: party, the steal-fielder pick
/// (two generator steps), then mild pitch, strike zone and swing.
#[test]
fn ball_consumes_expected_draws() {
    let mut engine = fresh_engine();
    let seed = engine.rng;
    let _ = engine.next_update(update(1, 1000, 0, 0, "Ball. 2-1"), game(), thresholds());
    let _ = engine.next_update(update(1, 1001, 0, 0, "Play ball!"), game(), thresholds());
    let day = engine.current_day.as_ref().unwrap();
    let rolls = &day.ticks[0].games[0].rolls;
    assert_eq!(rolls.len(), 5);
    assert_eq!(rolls[0].purpose, "Did the party roll pass?");
    assert_eq!(rolls[1].purpose, "Choose the steal fielder");
    assert_eq!(rolls[2].purpose, "Mild pitch?");
    assert_eq!(rolls[3].purpose, "Ball in strike zone?");
    assert_eq!(rolls[4].purpose, "Did batter swing?");
    // One step for each threshold draw, two for the pick: six in all.
    let mut expected = seed;
    expected.step(6);
    assert_eq!(engine.rng, expected);
    // Each draw's value lies in [0, 1).
    for roll in rolls {
        let v = f64::from_bits(roll.roll);
        assert!(0.0 <= v && v < 1.0);
    }
}

/// Parse failures surface as per-tick errors, with no draws consumed.
#[test]
fn parse_failure_is_per_tick_error() {
    let mut engine = fresh_engine();
    let seed = engine.rng;
    let _ = engine.next_update(update(1, 1000, 0, 0, "gibberish"), game(), thresholds());
    let _ = engine.next_update(update(1, 1001, 0, 0, "Play ball!"), game(), thresholds());
    let day = engine.current_day.as_ref().unwrap();
    let ctx = &day.ticks[0].games[0];
    assert_eq!(ctx.errors, vec!["Parse error: could not parse description".to_owned()]);
    assert!(ctx.rolls.is_empty());
    assert_eq!(engine.rng, seed);
    assert_eq!(ctx.game_label, "Crabs @ Sunbeams");
}

/// A game first seen past its opening plays is flagged.
#[test]
fn late_game_is_flagged() {
    let mut engine = fresh_engine();
    let mut u = update(1, 1000, 0, 0, "Play ball!");
    u.data.play_count = 7;
    let _ = engine.next_update(u, game(), thresholds());
    let _ = engine.next_update(update(1, 1001, 0, 0, "Play ball!"), game(), thresholds());
    let day = engine.current_day.as_ref().unwrap();
    let ctx = &day.ticks[0].games[0];
    assert_eq!(
        ctx.errors,
        vec!["Game entered the replay after its opening plays".to_owned()]
    );
}

fn check_roll(purpose: RollPurpose, roll: f64) -> CheckRoll {
    CheckRoll {
        purpose,
        roll: roll.to_bits(),
        roll_text: format!("{roll}"),
        passed: None,
        threshold: None,
        threshold_text: None,
    }
}

/// A reference stream shorter than the tick's plan is a fatal error.
#[test]
fn reference_stream_exhaustion_is_fatal() {
    let rng = Rng::new(Xs128pState(11489856334623440466, 7665746933450455135), 59);
    let stream = RollStream::new(vec![check_roll(RollPurpose::Party, 0.5)]);
    let mut engine = Engine::new(rng, Some(stream));
    let _ = engine.next_update(update(1, 1000, 0, 0, "Ball. 2-1"), game(), thresholds());
    assert!(matches!(
        engine.next_update(update(1, 1001, 0, 0, "Play ball!"), game(), thresholds()),
        Err(EngineFatalError::RanOutOfCheckRolls)
    ));
}

/// With enough reference records, each draw is paired in order.
#[test]
fn reference_stream_pairs_in_order() {
    let rng = Rng::new(Xs128pState(11489856334623440466, 7665746933450455135), 59);
    let stream = RollStream::new(vec![
        check_roll(RollPurpose::Party, 0.1),
        check_roll(RollPurpose::StealFielder, 0.2),
        check_roll(RollPurpose::MildPitch, 0.3),
        check_roll(RollPurpose::InStrikeZone, 0.4),
        check_roll(RollPurpose::Swing, 0.5),
    ]);
    let mut engine = Engine::new(rng, Some(stream));
    let _ = engine.next_update(update(1, 1000, 0, 0, "Ball. 2-1"), game(), thresholds());
    let _ = engine.next_update(update(1, 1001, 0, 0, "Play ball!"), game(), thresholds());
    let day = engine.current_day.as_ref().unwrap();
    let rolls = &day.ticks[0].games[0].rolls;
    assert_eq!(rolls.len(), 5);
    let paired = rolls[0].check.as_ref().unwrap();
    assert_eq!(paired.roll, 0.1f64.to_bits());
    let last = rolls[4].check.as_ref().unwrap();
    assert_eq!(last.roll, 0.5f64.to_bits());
    assert_eq!(engine.check_rolls.as_ref().unwrap().len(), 0);
}
