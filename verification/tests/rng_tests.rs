use desim::rng::{
    calculate_steps, find_checkpoint_bits, is_checkpoint, is_checkpoint_bits, normalize_offset,
    parse_rng_str, rng_from_strs, Rng, RngDeserializeError,
};
use desim::xs128p::{xs128p, xs128p_rev, Xs128pState};

fn step(before: (u64, u64, i32), steps: i32) -> (u64, u64, i32) {
    let mut rng = Rng::new(Xs128pState(before.0, before.1), before.2);
    rng.step(steps);
    rng.state_tuple()
}

#[test]
fn test() {
    let start = (11489856334623440466, 7665746933450455135, 59);

    // Basics
    assert_eq!(
        step(start, 1),
        (3568317142935851365, 11489856334623440466, 58)
    );
    assert_eq!(
        step(start, -1),
        (7665746933450455135, 5757515306888244331, 60)
    );
    assert_eq!(
        step(start, 2),
        (1871981691294829610, 3568317142935851365, 57)
    );
    assert_eq!(
        step(start, -4),
        (11777078382307459003, 9189176605564379358, 63)
    );
    assert_eq!(
        step(start, 32),
        (3267963782523076449, 2615119604951746693, 27)
    );

    // Crossing block boundaries
    assert_eq!(
        step(start, 59),
        (4418950297936233643, 8461946988962992193, 0)
    );
    assert_eq!(
        step(start, 60),
        (9595792334013182699, 8659343871044683043, 63)
    );
    assert_eq!(
        step(start, -5),
        (7350346046143330015, 15192697735018323666, 0)
    );

    // Stepping a full block
    assert_eq!(
        step(start, 64),
        (3433578427688570473, 2440012305804807291, 59)
    );
    assert_eq!(
        step(start, -64),
        (656475616170205904, 5053579426408536524, 59)
    );

    // Stepping over blocks
    assert_eq!(
        step(start, 128),
        (15955351200758865640, 14106346560409878372, 59)
    );
    assert_eq!(
        step(start, -128),
        (14437018569946036092, 16257786924949580527, 59)
    );
    assert_eq!(
        step(start, 127),
        (14106346560409878372, 12559088209872134966, 60)
    );
    assert_eq!(
        step(start, -127),
        (12479537282219661871, 14437018569946036092, 58)
    );

    assert_eq!(
        step(start, 59 + 64),
        (9189176605564379358, 17219780032394536164, 0)
    );
    assert_eq!(
        step(start, 59 + 64 + 1),
        (7974845343091599361, 8534881269550711784, 63)
    );
    assert_eq!(
        step(start, -5 - 64 + 1),
        (8453525309065067247, 4418950297936233643, 63)
    );
    assert_eq!(
        step(start, -5 - 64),
        (9524146849697370050, 12966572773286726302, 0)
    );

    // Stepping really far
    assert_eq!(
        step(start, 3000),
        (7423595971207329334, 16910322575388945665, 3)
    );
    assert_eq!(
        step(start, -3000),
        (5559434767711380194, 12515405342771602967, 51)
    );
}

#[test]
fn basic_fwd() {
    assert_eq!(
        xs128p(Xs128pState(11489856334623440466, 7665746933450455135)),
        Xs128pState(7665746933450455135, 5757515306888244331)
    );

    assert_eq!(
        xs128p(Xs128pState(4278828314640535865, 3539470500018873972)),
        Xs128pState(3539470500018873972, 15939708256490641700)
    );
}

#[test]
fn basic_rev() {
    assert_eq!(
        xs128p_rev(Xs128pState(11489856334623440466, 7665746933450455135)),
        Xs128pState(3568317142935851365, 11489856334623440466)
    );

    assert_eq!(
        xs128p_rev(Xs128pState(4278828314640535865, 3539470500018873972)),
        Xs128pState(4918252522610053827, 4278828314640535865)
    );
}

#[test]
fn prng_known_vector() {
    let start = (11489856334623440466u64, 7665746933450455135u64, 59i32);
    assert_eq!(
        step(start, 1),
        (3568317142935851365, 11489856334623440466, 58)
    );
    assert_eq!(
        step(start, -1),
        (7665746933450455135, 5757515306888244331, 60)
    );
    assert_eq!(
        step(start, 60),
        (9595792334013182699, 8659343871044683043, 63)
    );
}

#[test]
fn step_forward_then_back_is_identity() {
    let mut rng = Rng::new(Xs128pState(11489856334623440466, 7665746933450455135), 59);
    let before = rng.state_tuple();
    for k in [-10000i32, -137, -1, 0, 1, 63, 64, 65, 9999, 10000] {
        rng.step(k);
        rng.step(-k);
        assert_eq!(rng.state_tuple(), before);
    }
}

/// The modern value is the double `(s0 >> 12) * 2^-52`, reconstructed here
/// with float arithmetic and compared bit for bit.
#[test]
fn value_bits_match_ieee_modern() {
    let mut rng = Rng::new(Xs128pState(11489856334623440466, 7665746933450455135), 59);
    for _ in 0..200 {
        rng.step(1);
        let mantissa = rng.state_tuple().0 >> 12;
        let expected = f64::from_bits(mantissa | 0x3FF0000000000000) - 1.0;
        assert_eq!(rng.value_bits(), expected.to_bits());
        assert!(0.0 <= expected && expected < 1.0);
    }
}

/// The v10 value uses the wrapped sum of both words, low 52 bits.
#[test]
fn value_bits_match_ieee_v10() {
    let mut rng = Rng::new(Xs128pState(11489856334623440466, 7665746933450455135), 59);
    rng.v10 = true;
    rng.offset = 13;
    for _ in 0..200 {
        rng.step(1);
        let (s0, s1, _) = rng.state_tuple();
        let mantissa = s0.wrapping_add(s1) & 0xFFFFFFFFFFFFF;
        let expected = f64::from_bits(mantissa | 0x3FF0000000000000) - 1.0;
        assert_eq!(rng.value_bits(), expected.to_bits());
    }
}

/// The pick emulation agrees with the host's double multiply-and-truncate.
#[test]
fn pick_index_matches_float_multiply() {
    let mut rng = Rng::new(Xs128pState(11489856334623440466, 7665746933450455135), 59);
    for n in [1u64, 2, 3, 9, 10, 14, 1000, 1024] {
        let mut r = rng;
        for _ in 0..100 {
            r.step(1);
            let m = r.state_tuple().0 >> 12;
            let value = f64::from_bits(m | 0x3FF0000000000000) - 1.0;
            let expected = (value * n as f64) as u64;
            assert_eq!(desim::dblbits::pick_index(m, n), expected);
        }
        rng.step(7);
    }
    // Values crafted near rounding boundaries.
    for m in [
        0u64,
        1,
        0xFFFFFFFFFFFFF,
        0xFFFFFFFFFFFFE,
        0x8000000000001,
        0xE38E38E38E38E,
        0x5555555555555,
    ] {
        for n in [1u64, 2, 3, 7, 9, 511, 1024] {
            let value = f64::from_bits(m | 0x3FF0000000000000) - 1.0;
            let expected = (value * n as f64) as u64;
            assert_eq!(desim::dblbits::pick_index(m, n), expected, "m={m} n={n}");
        }
    }
}

#[test]
fn next_value_is_step_then_value() {
    let mut a = Rng::new(Xs128pState(11489856334623440466, 7665746933450455135), 59);
    let mut b = a;
    let v = a.next_value_bits();
    b.step(1);
    assert_eq!(a, b);
    assert_eq!(v, b.value_bits());
}

#[test]
fn state_string_roundtrip() {
    let rng = Rng::new(Xs128pState(11489856334623440466, 7665746933450455135), 59);
    let s = rng.state_string();
    assert_eq!(s, "(11489856334623440466, 7665746933450455135)+59");
    let back = parse_rng_str(&s).unwrap();
    assert_eq!(back, rng);
}

#[test]
fn parse_rng_str_accepts_both_comma_forms() {
    let a = parse_rng_str("(1, 2)+3").unwrap();
    let b = parse_rng_str("(1,2)+3").unwrap();
    assert_eq!(a, b);
    assert_eq!(a.state_tuple(), (1, 2, 3));
}

#[test]
fn parse_rng_str_rejects_bad_grammar() {
    assert!(matches!(
        parse_rng_str("1, 2)+3"),
        Err(RngDeserializeError::ParseError)
    ));
    assert!(matches!(
        parse_rng_str("(1, 2)+"),
        Err(RngDeserializeError::ParseError)
    ));
    assert!(matches!(
        parse_rng_str("(1, 2)+3 "),
        Err(RngDeserializeError::ParseError)
    ));
    assert!(matches!(
        parse_rng_str("(99999999999999999999, 2)+3"),
        Err(RngDeserializeError::ParseIntError)
    ));
    assert!(matches!(
        parse_rng_str("(1, 2)+99999999999"),
        Err(RngDeserializeError::ParseIntError)
    ));
}

#[test]
fn rng_from_strs_parses_parts() {
    let rng = rng_from_strs("15344562644745423164", "10882960106955666841", "23").unwrap();
    assert_eq!(rng.state_tuple(), (15344562644745423164, 10882960106955666841, 23));
    assert!(rng_from_strs("x", "2", "3").is_err());
}

#[test]
fn normalize_offset_is_euclidean() {
    assert_eq!(normalize_offset(0), 0);
    assert_eq!(normalize_offset(63), 63);
    assert_eq!(normalize_offset(64), 0);
    assert_eq!(normalize_offset(-1), 63);
    assert_eq!(normalize_offset(-64), 0);
    assert_eq!(normalize_offset(-65), 63);
}

#[test]
fn calculate_steps_block_arithmetic() {
    // Staying inside the block: no recurrence, offset moves down.
    assert_eq!(calculate_steps(59, 1, 64), (-1, 58));
    // Crossing into the next block.
    assert_eq!(calculate_steps(59, 60, 64), (68, 63));
    // A whole block forward: two recurrence applications net.
    assert_eq!(calculate_steps(59, 64, 64), (64, 59));
    // Backwards past the block start.
    assert_eq!(calculate_steps(59, -5, 64), (-123, 0));
}

#[test]
fn checkpoint_search_finds_nearest() {
    let state = Xs128pState(11489856334623440466, 7665746933450455135);
    let (found, distance, _offset) = find_checkpoint_bits(state, 59, 2);
    assert!(is_checkpoint_bits(found, 2));
    // Walk the same path by hand: every earlier position must fail.
    let mut rng = Rng::new(state, 59);
    for _ in 0..distance {
        assert!(!is_checkpoint_bits(rng.state, 2));
        rng.step(-1);
    }
    assert_eq!(rng.state, found);
}

#[test]
fn seek_prev_checkpoint_steps_at_least_once() {
    let state = Xs128pState(0, 7665746933450455135);
    assert!(is_checkpoint(state));
    let mut rng = Rng::new(state, 59);
    let steps = rng.seek_prev_checkpoint(2);
    assert!(steps >= 1);
    assert!(is_checkpoint_bits(rng.state, 2));
}

#[test]
fn seek_next_checkpoint_advances() {
    let state = Xs128pState(11489856334623440466, 7665746933450455135);
    let mut rng = Rng::new(state, 59);
    rng.seek_next_checkpoint(2);
    assert!(is_checkpoint_bits(rng.state, 2));
    assert_ne!(rng.state, state);
}
