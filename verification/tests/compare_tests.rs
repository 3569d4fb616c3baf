use desim::compare::{
    longest_common_char_prefix, FloatDigitsMismatchContext, FloatMatchContext,
    OptionBoolMatchContext, OptionFloatMatchContext, ResimMatchContext, RollPurposeMatchContext,
};
use desim::fragments::{parse_roll_purpose, CheckRoll, RollStream};
use desim::rolls::{RollData, RollPurpose, RollUsage};

fn rendered(v: f64) -> String {
    format!("{v}")
}

#[test]
fn common_prefix_counts_characters() {
    assert_eq!(longest_common_char_prefix("0.123", "0.124"), 4);
    assert_eq!(longest_common_char_prefix("abc", "abc"), 3);
    assert_eq!(longest_common_char_prefix("abc", "abcdef"), 3);
    assert_eq!(longest_common_char_prefix("", "abc"), 0);
    assert_eq!(longest_common_char_prefix("xyz", "abc"), 0);
}

#[test]
fn digits_mismatch_splits_at_prefix() {
    let mine = 0.1235f64;
    let resim = 0.1245f64;
    let m = FloatDigitsMismatchContext::from_values(
        mine.to_bits(),
        resim.to_bits(),
        &rendered(mine),
        &rendered(resim),
    )
    .unwrap();
    assert_eq!(m.matching_digits, "0.12");
    assert_eq!(m.mismatching_digits, "45");
    assert_eq!(m.extra_digits, "");
}

#[test]
fn digits_mismatch_reports_extra_digits() {
    let mine = 0.12345f64;
    let resim = 0.123f64;
    let m = FloatDigitsMismatchContext::from_values(
        mine.to_bits(),
        resim.to_bits(),
        &rendered(mine),
        &rendered(resim),
    )
    .unwrap();
    assert_eq!(m.matching_digits, "0.123");
    assert_eq!(m.mismatching_digits, "");
    assert_eq!(m.extra_digits, "45");
}

#[test]
fn equal_values_match_without_text() {
    let v = 0.36886710997967875f64;
    assert!(FloatDigitsMismatchContext::from_values(v.to_bits(), v.to_bits(), "", "").is_none());
    assert!(matches!(
        FloatMatchContext::from_values(v.to_bits(), v.to_bits(), "", ""),
        FloatMatchContext::Matches
    ));
}

#[test]
fn option_bool_match_cases() {
    assert!(matches!(
        OptionBoolMatchContext::from_values(None, None),
        OptionBoolMatchContext::Matches
    ));
    assert!(matches!(
        OptionBoolMatchContext::from_values(Some(true), Some(true)),
        OptionBoolMatchContext::Matches
    ));
    assert!(matches!(
        OptionBoolMatchContext::from_values(Some(true), None),
        OptionBoolMatchContext::MineExistsResimMissing { mine: true }
    ));
    assert!(matches!(
        OptionBoolMatchContext::from_values(None, Some(false)),
        OptionBoolMatchContext::MineMissingResimExists { resim: false }
    ));
    assert!(matches!(
        OptionBoolMatchContext::from_values(Some(true), Some(false)),
        OptionBoolMatchContext::Mismatch { mine: true, resim: false }
    ));
}

#[test]
fn purpose_match_renders_both_sides() {
    let mine = RollPurpose::Out("Alice".to_owned());
    let resim = RollPurpose::Out("Bob".to_owned());
    match RollPurposeMatchContext::from_values(&mine, &resim) {
        RollPurposeMatchContext::Mismatch { mine, resim } => {
            assert_eq!(mine, "Out(Alice)");
            assert_eq!(resim, "Out(Bob)");
        }
        _ => panic!("expected a mismatch"),
    }
    assert!(matches!(
        RollPurposeMatchContext::from_values(&mine, &RollPurpose::Out("Alice".to_owned())),
        RollPurposeMatchContext::Matches
    ));
}

/// When the reconstructed draw agrees with the reference record in every
/// field, the match record is `Matches` at every level.
#[test]
fn comparator_identity_on_equal_records() {
    let roll = 0.36886710997967875f64;
    let threshold = 0.2f64;
    let rd = RollData {
        state_string: "(1, 2)+3".to_owned(),
        roll: roll.to_bits(),
        purpose: RollPurpose::InStrikeZone,
        usage: RollUsage::Threshold {
            threshold: Some(threshold.to_bits()),
            passed: Some(false),
        },
    };
    let check = CheckRoll {
        purpose: RollPurpose::InStrikeZone,
        roll: roll.to_bits(),
        roll_text: rendered(roll),
        passed: Some(false),
        threshold: Some(threshold.to_bits()),
        threshold_text: Some(rendered(threshold)),
    };
    match ResimMatchContext::for_roll(&rd, &check, &rendered(roll), &rendered(threshold)) {
        ResimMatchContext::Threshold { rolls, purpose, passed, threshold } => {
            assert!(matches!(rolls, FloatMatchContext::Matches));
            assert!(matches!(purpose, RollPurposeMatchContext::Matches));
            assert!(matches!(passed, OptionBoolMatchContext::Matches));
            assert!(matches!(threshold, OptionFloatMatchContext::Matches));
        }
        _ => panic!("expected a threshold record"),
    }
}

#[test]
fn comparator_choice_compares_value_and_purpose() {
    let rd = RollData {
        state_string: "(1, 2)+3".to_owned(),
        roll: 0.5f64.to_bits(),
        purpose: RollPurpose::Fielder,
        usage: RollUsage::Choice {
            num_options: 9,
            selected_option: Some(4),
            selected_option_description: None,
        },
    };
    let check = CheckRoll {
        purpose: RollPurpose::Fielder,
        roll: 0.25f64.to_bits(),
        roll_text: rendered(0.25),
        passed: None,
        threshold: None,
        threshold_text: None,
    };
    match ResimMatchContext::for_roll(&rd, &check, &rendered(0.5), "") {
        ResimMatchContext::Choice { rolls, purpose } => {
            assert!(matches!(rolls, FloatMatchContext::Mismatch(_)));
            assert!(matches!(purpose, RollPurposeMatchContext::Matches));
        }
        _ => panic!("expected a choice record"),
    }
}

#[test]
fn roll_stream_is_fifo() {
    let mut stream = RollStream::new(vec![
        CheckRoll {
            purpose: RollPurpose::Party,
            roll: 0.1f64.to_bits(),
            roll_text: rendered(0.1),
            passed: None,
            threshold: None,
            threshold_text: None,
        },
        CheckRoll {
            purpose: RollPurpose::Swing,
            roll: 0.2f64.to_bits(),
            roll_text: rendered(0.2),
            passed: Some(true),
            threshold: None,
            threshold_text: None,
        },
    ]);
    assert_eq!(stream.len(), 2);
    let first = stream.pop_front().unwrap();
    assert!(matches!(first.purpose, RollPurpose::Party));
    let second = stream.pop_front().unwrap();
    assert!(matches!(second.purpose, RollPurpose::Swing));
    assert_eq!(second.passed, Some(true));
    assert!(stream.pop_front().is_none());
}

#[test]
fn roll_purpose_recognizer() {
    assert!(matches!(parse_roll_purpose("party time"), RollPurpose::Party));
    assert!(matches!(
        parse_roll_purpose("steal fielder"),
        RollPurpose::StealFielder
    ));
    assert!(matches!(parse_roll_purpose("mild"), RollPurpose::MildPitch));
    assert!(matches!(parse_roll_purpose("strike"), RollPurpose::InStrikeZone));
    assert!(matches!(parse_roll_purpose("swing"), RollPurpose::Swing));
    assert!(matches!(parse_roll_purpose("contact"), RollPurpose::Contact));
    assert!(matches!(parse_roll_purpose("foul"), RollPurpose::FairOrFoul));
    assert!(matches!(parse_roll_purpose("fielder"), RollPurpose::Fielder));
    assert!(matches!(parse_roll_purpose("fly"), RollPurpose::Fly));
    assert!(matches!(parse_roll_purpose("home run"), RollPurpose::HomeRun));
    match parse_roll_purpose("out (to Jessica Telephone)") {
        RollPurpose::Out(name) => assert_eq!(name, "Jessica Telephone"),
        _ => panic!("wrong purpose"),
    }
    match parse_roll_purpose("double (to Alice)") {
        RollPurpose::Double(name) => assert_eq!(name, "Alice"),
        _ => panic!("wrong purpose"),
    }
    match parse_roll_purpose("steal (2)") {
        RollPurpose::Steal(base) => assert_eq!(base, 2),
        _ => panic!("wrong purpose"),
    }
    match parse_roll_purpose("adv (2, True)") {
        RollPurpose::Advance((base, advanced)) => {
            assert_eq!(base, 2);
            assert!(advanced);
        }
        _ => panic!("wrong purpose"),
    }
    match parse_roll_purpose("adv (1, False)") {
        RollPurpose::Advance((base, advanced)) => {
            assert_eq!(base, 1);
            assert!(!advanced);
        }
        _ => panic!("wrong purpose"),
    }
    assert!(matches!(parse_roll_purpose("dp?"), RollPurpose::DoublePlayHappens));
    assert!(matches!(parse_roll_purpose("dp where"), RollPurpose::DoublePlayWhere));
    assert!(matches!(
        parse_roll_purpose("target team (not partying)"),
        RollPurpose::PartyTargetTeam
    ));
    match parse_roll_purpose("something else entirely") {
        RollPurpose::Unparsed(text) => assert_eq!(text, "something else entirely"),
        _ => panic!("wrong purpose"),
    }
}

#[test]
fn purpose_descriptions() {
    assert_eq!(RollPurpose::Party.describe(), "Did the party roll pass?");
    assert_eq!(
        RollPurpose::Out("Alice".to_owned()).describe(),
        "Did Alice catch the out?"
    );
    assert_eq!(
        RollPurpose::Steal(2).describe(),
        "Did the runner steal base 2?"
    );
    assert_eq!(
        RollPurpose::Unparsed("huh".to_owned()).describe(),
        "Other: huh"
    );
}
