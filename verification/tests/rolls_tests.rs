use desim::rng::Rng;
use desim::rolls::{plan_ok, rolls_for_update, RollPurpose, RollUsage};
use desim::sim::{BaseRunner, Game, GameAtTick, GameTeam, HalfInning, Player};
use desim::thresholds::Thresholds;
use desim::update_parser::{ParsedUpdate, ParsedUpdateData};
use desim::xs128p::Xs128pState;

fn player(id: u128, name: &str) -> Player {
    Player { id, name: name.to_owned() }
}

fn team(base: u128) -> GameTeam {
    GameTeam {
        lineup: vec![player(base, "Nora"), player(base + 1, "Owen")],
        pitcher: player(base + 2, "Pia"),
    }
}

fn game() -> Game {
    Game { away_team: team(100), home_team: team(200), prev_runners: Vec::new() }
}

fn thresholds(num_runners: usize) -> Thresholds {
    let num_fielders = 2;
    Thresholds {
        party: 0.0f64.to_bits(),
        mild_pitch: 0.0025f64.to_bits(),
        in_strike_zone: 0.55f64.to_bits(),
        fair_ball: 0.25f64.to_bits(),
        fly: 0.18f64.to_bits(),
        hr: 0.12f64.to_bits(),
        out_by_fielder: vec![0.3f64.to_bits(); num_fielders],
        double_by_fielder: vec![0.17f64.to_bits(); num_fielders],
        triple_by_fielder: vec![0.05f64.to_bits(); num_fielders],
        advance: vec![vec![0.5f64.to_bits(); num_fielders]; num_runners],
    }
}

fn at_tick<'a>(
    g: &'a Game,
    starts: Vec<BaseRunner>,
    ends: Vec<BaseRunner>,
    outs: i64,
) -> GameAtTick<'a> {
    GameAtTick {
        game: g,
        half: HalfInning::Top,
        batter_count: 0,
        runners_at_start: starts,
        runners_at_end: ends,
        outs,
        max_outs: 3,
    }
}

fn rng() -> Rng {
    Rng::new(Xs128pState(11489856334623440466, 7665746933450455135), 59)
}

fn purposes(rolls: &[desim::rolls::RollData]) -> Vec<String> {
    rolls.iter().map(|r| r.purpose.describe()).collect()
}

/// A hit with one runner: the fixed pitch chain, the hit checks against
/// the picked fielder, and one advance check for the runner.
#[test]
fn hit_plan_order_and_advance() {
    let g = game();
    let starts = vec![BaseRunner { base: 1, runner_id: 500 }];
    let ends = vec![BaseRunner { base: 3, runner_id: 500 }];
    let gat = at_tick(&g, starts, ends, 0);
    let parsed = ParsedUpdate {
        data: ParsedUpdateData::Hit { bases: 2, scored: Vec::new() },
    };
    assert!(plan_ok(&parsed, &gat));
    let mut r = rng();
    let seed = r;
    let rolls = rolls_for_update(&mut r, parsed, &thresholds(1), &gat);
    assert_eq!(rolls.len(), 15);
    let names = purposes(&rolls);
    assert_eq!(names[0], "Did the party roll pass?");
    assert_eq!(names[1], "Choose the steal fielder");
    assert_eq!(names[2], "Did the runner steal base 1?");
    assert_eq!(names[3], "Mild pitch?");
    assert_eq!(names[4], "Ball in strike zone?");
    assert_eq!(names[5], "Did batter swing?");
    assert_eq!(names[6], "Did batter make contact?");
    assert_eq!(names[7], "Was the ball fair?");
    assert_eq!(names[8], "Choose the fielder");
    assert!(names[9].starts_with("Did ") && names[9].ends_with(" catch the out?"));
    assert_eq!(names[10], "Was it a home run?");
    assert_eq!(names[11], "Choose the fielder");
    assert!(names[12].starts_with("Was it a double?"));
    assert!(names[13].starts_with("Was it a triple?"));
    assert_eq!(names[14], "Did the runner advance?");
    // The runner stayed on the automatic advance, so the check records a
    // failed advance.
    match &rolls[14].usage {
        RollUsage::Threshold { threshold, passed } => {
            assert_eq!(*threshold, Some(0.5f64.to_bits()));
            assert_eq!(*passed, Some(false));
        }
        _ => panic!("advance draws are threshold draws"),
    }
    match &rolls[14].purpose {
        RollPurpose::Advance(p) => assert_eq!(*p, (3, false)),
        _ => panic!("wrong purpose"),
    }
    // Three picks cost two steps each; twelve threshold draws cost one.
    let mut expected = seed;
    expected.step(18);
    assert_eq!(r, expected);
    // The double check is classified by the hit's bases.
    match &rolls[12].usage {
        RollUsage::Threshold { passed, .. } => assert_eq!(*passed, Some(true)),
        _ => panic!("wrong usage"),
    }
    // Every recorded state string parses back to the generator that rolled.
    for roll in &rolls {
        assert!(desim::rng::parse_rng_str(&roll.state_string).is_ok());
    }
}

/// A ground out with a runner on and two outs adds the double-play check.
#[test]
fn ground_out_with_double_play_eligibility() {
    let g = game();
    let starts = vec![BaseRunner { base: 1, runner_id: 500 }];
    let gat = at_tick(&g, starts, Vec::new(), 2);
    let parsed = ParsedUpdate { data: ParsedUpdateData::GroundOut };
    let mut r = rng();
    let rolls = rolls_for_update(&mut r, parsed, &thresholds(1), &gat);
    let names = purposes(&rolls);
    assert_eq!(*names.last().unwrap(), "Was there a double play?");
    // Ground outs pick the displayed fielder after the fly check.
    assert_eq!(names[names.len() - 2], "Choose the fielder");
    assert_eq!(names[names.len() - 3], "Was it a flyout?");
}

/// A flyout does not pick a displayed fielder after the fly check.
#[test]
fn flyout_skips_displayed_fielder() {
    let g = game();
    let gat = at_tick(&g, Vec::new(), Vec::new(), 0);
    let parsed = ParsedUpdate { data: ParsedUpdateData::Flyout };
    let mut r = rng();
    let rolls = rolls_for_update(&mut r, parsed, &thresholds(0), &gat);
    let names = purposes(&rolls);
    assert_eq!(*names.last().unwrap(), "Was it a flyout?");
}

/// Contradictory advancement data is rejected by the plan check.
#[test]
fn impossible_advance_fails_plan_check() {
    let g = game();
    let starts = vec![BaseRunner { base: 1, runner_id: 500 }];
    // The runner leapt two extra bases: no draw sequence explains that.
    let ends = vec![BaseRunner { base: 5, runner_id: 500 }];
    let gat = at_tick(&g, starts, ends, 0);
    let parsed = ParsedUpdate {
        data: ParsedUpdateData::Hit { bases: 2, scored: Vec::new() },
    };
    assert!(!plan_ok(&parsed, &gat));
}

/// Rollless events plan no draws.
#[test]
fn rollless_events_consume_nothing() {
    let g = game();
    for data in [
        ParsedUpdateData::Empty,
        ParsedUpdateData::PlayBall,
        ParsedUpdateData::InningTurnover,
        ParsedUpdateData::BatterUp,
        ParsedUpdateData::InningEnd,
    ] {
        let gat = at_tick(&g, Vec::new(), Vec::new(), 0);
        let mut r = rng();
        let seed = r;
        let rolls = rolls_for_update(&mut r, ParsedUpdate { data }, &thresholds(0), &gat);
        assert!(rolls.is_empty());
        assert_eq!(r, seed);
    }
}

/// The foul-ball chain ends with a failed fair check.
#[test]
fn foul_ball_records_failed_fair_check() {
    let g = game();
    let gat = at_tick(&g, Vec::new(), Vec::new(), 0);
    let mut r = rng();
    let rolls = rolls_for_update(
        &mut r,
        ParsedUpdate { data: ParsedUpdateData::FoulBall },
        &thresholds(0),
        &gat,
    );
    let last = rolls.last().unwrap();
    assert_eq!(last.purpose.describe(), "Was the ball fair?");
    match &last.usage {
        RollUsage::Threshold { threshold, passed } => {
            assert_eq!(*threshold, Some(0.25f64.to_bits()));
            assert_eq!(*passed, Some(false));
        }
        _ => panic!("wrong usage"),
    }
}
