use tape_decode::line_ident::LineFit;
use tape_decode::parity::ParitySource;
use tape_decode::parity::SecamParityFlywheel;
use tape_decode::parity::SecamState;

/// A fit of `matching` agreeing lines out of `lines`.
fn fit(dr_on_even: bool, matching: usize, lines: usize) -> Option<LineFit> {
    Some(LineFit { dr_on_even, matching, lines })
}

#[test]
fn parity_flywheel_walks_the_four_field_cycle() {
    // dr_on_even(n) = base ^ (((n + 1) >> 1) & 1) with base = false gives
    // the FTTF/TFFT alternation seen on real method 1 tapes.
    let expected: Vec<bool> = (0..8).map(SecamParityFlywheel::flip).collect();
    assert_eq!(
        expected,
        vec![false, true, true, false, false, true, true, false]
    );
}

#[test]
fn parity_flywheel_carries_unfittable_fields() {
    let mut flywheel = SecamParityFlywheel::new();
    // Four confident fields in a row teach and lock `base`.
    for index in 0..4u64 {
        let expected = SecamParityFlywheel::flip(index as i64);
        let (parity, source) = flywheel.resolve(index, fit(expected, 1, 1));
        assert_eq!(parity, Some(expected));
        assert_eq!(source, ParitySource::Measured);
    }
    // A field that can't be fitted now inherits the predicted parity.
    let (parity, source) = flywheel.resolve(4, None);
    assert_eq!(source, ParitySource::Flywheel);
    assert_eq!(parity, Some(SecamParityFlywheel::flip(4)));
}

#[test]
fn parity_flywheel_stays_unlocked_before_min_lock() {
    let mut flywheel = SecamParityFlywheel::new();
    flywheel.resolve(0, fit(false, 1, 1));
    let (parity, source) = flywheel.resolve(1, None);
    assert_eq!(parity, None);
    assert_eq!(source, ParitySource::Unlocked);
}

#[test]
fn parity_flywheel_ignores_low_confidence_fits() {
    let mut flywheel = SecamParityFlywheel::new();
    let (parity, source) = flywheel.resolve(0, fit(true, 1, 2));
    assert_eq!(parity, None);
    assert_eq!(source, ParitySource::Unlocked);
}

#[test]
fn flip_repeats_every_four_fields() {
    for n in -8i64..64 {
        assert_eq!(SecamParityFlywheel::flip(n), SecamParityFlywheel::flip(n + 4));
        assert_eq!(SecamParityFlywheel::flip(n), n.rem_euclid(4) == 1 || n.rem_euclid(4) == 2);
    }
    assert!(SecamParityFlywheel::flip(-2));
    assert!(!SecamParityFlywheel::flip(-1));
}

#[test]
fn parity_source_names() {
    assert_eq!(ParitySource::Measured.as_str(), "measured");
    assert_eq!(ParitySource::Flywheel.as_str(), "flywheel");
    assert_eq!(ParitySource::Unlocked.as_str(), "unlocked");
}

#[test]
fn confidence_threshold_is_seven_tenths() {
    assert!(LineFit { dr_on_even: true, matching: 7, lines: 10 }.is_confident());
    assert!(!LineFit { dr_on_even: true, matching: 69, lines: 100 }.is_confident());
    assert!(LineFit { dr_on_even: false, matching: 88, lines: 104 }.is_confident());
    assert!(!LineFit { dr_on_even: false, matching: 0, lines: 0 }.is_confident());
}

#[test]
fn repeated_readloc_is_the_same_field() {
    let mut flywheel = SecamParityFlywheel::new();
    // Field 0 resolved twice, then fields 1..3: the counter only advances on a
    // new readloc, so field 3 sits at index 3 of the cycle.
    for (readloc, index) in [(10u64, 0i64), (10, 0), (11, 1), (12, 2), (13, 3)] {
        let expected = SecamParityFlywheel::flip(index);
        let (parity, source) = flywheel.resolve(readloc, fit(expected, 1, 1));
        assert_eq!((parity, source), (Some(expected), ParitySource::Measured));
    }
    // Five agreeing confident resolutions lock; the next field is index 4.
    let (parity, source) = flywheel.resolve(14, None);
    assert_eq!((parity, source), (Some(SecamParityFlywheel::flip(4)), ParitySource::Flywheel));
}

#[test]
fn confident_contradiction_resets_the_lock() {
    let mut flywheel = SecamParityFlywheel::new();
    for index in 0..4u64 {
        flywheel.resolve(index, fit(SecamParityFlywheel::flip(index as i64), 1, 1));
    }
    // Field 4 confidently reads the opposite phase: reported as measured...
    let contradicting = !SecamParityFlywheel::flip(4);
    assert_eq!(
        flywheel.resolve(4, fit(contradicting, 30, 40)),
        (Some(contradicting), ParitySource::Measured)
    );
    // ...and the lock has to be re-learned.
    assert_eq!(flywheel.resolve(5, None), (None, ParitySource::Unlocked));
}

#[test]
fn lock_expires_after_max_age_fields() {
    let mut flywheel = SecamParityFlywheel::new();
    for index in 0..4u64 {
        flywheel.resolve(index, fit(SecamParityFlywheel::flip(index as i64), 1, 1));
    }
    // Fields 4..=35 are within MAX_AGE of the last confirmation at field 3.
    for index in 4..=35u64 {
        let (parity, source) = flywheel.resolve(index, None);
        assert_eq!(source, ParitySource::Flywheel, "field {index}");
        assert_eq!(parity, Some(SecamParityFlywheel::flip(index as i64)));
    }
    assert_eq!(flywheel.resolve(36, fit(true, 1, 2)), (None, ParitySource::Unlocked));
}

#[test]
fn flywheel_carries_the_learned_phase_with_a_true_base() {
    // base = true: every field's parity is the complement of the cycle.
    let mut state = SecamState::new();
    for index in 0..4u64 {
        let dr_on_even = !SecamParityFlywheel::flip(index as i64);
        state.flywheel.resolve(index, fit(dr_on_even, 120, 120));
    }
    for index in 4..12u64 {
        let (parity, source) = state.flywheel.resolve(index, None);
        assert_eq!(source, ParitySource::Flywheel);
        assert_eq!(parity, Some(!SecamParityFlywheel::flip(index as i64)));
    }
}

#[test]
fn a_fresh_flywheel_can_resolve_any_field() {
    let flywheel = SecamParityFlywheel::new();
    assert!(flywheel.can_resolve(0, None));
    assert!(flywheel.can_resolve(u64::MAX, fit(true, 1, 1)));
}

#[test]
fn repeating_an_unfitted_field_changes_nothing() {
    let mut flywheel = SecamParityFlywheel::new();
    for index in 0..4u64 {
        flywheel.resolve(index, fit(SecamParityFlywheel::flip(index as i64), 1, 1));
    }
    let first = flywheel.resolve(9, None);
    let again = flywheel.resolve(9, fit(true, 1, 2));
    assert_eq!(first, again);
    assert_eq!(first, (Some(SecamParityFlywheel::flip(4)), ParitySource::Flywheel));
    // The repeat did not advance the field counter: field 5 comes next.
    assert_eq!(flywheel.resolve(10, None), (Some(SecamParityFlywheel::flip(5)), ParitySource::Flywheel));
}

#[test]
fn lock_survives_a_contradicted_start_and_gaps() {
    // A contradicting early field, then four agreeing fields with unfitted
    // gaps between them: the lock predicts along the cycle afterwards.
    let mut flywheel = SecamParityFlywheel::new();
    let base = true;
    let agreeing = [2i64, 5, 6, 9];
    flywheel.resolve(0, fit(SecamParityFlywheel::flip(0), 40, 40));
    for index in 1..10i64 {
        let fitted = if agreeing.contains(&index) {
            fit(base != SecamParityFlywheel::flip(index), 40, 40)
        } else {
            fit(false, 20, 40)
        };
        flywheel.resolve(index as u64, fitted);
    }
    for index in 10..=41i64 {
        assert_eq!(
            flywheel.resolve(index as u64, None),
            (Some(base != SecamParityFlywheel::flip(index)), ParitySource::Flywheel),
            "field {index}"
        );
    }
    assert_eq!(flywheel.resolve(42, None), (None, ParitySource::Unlocked));
}
