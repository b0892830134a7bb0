use consensus_solver::{Die, DieError};

#[test]
fn covers_is_reflexive_on_samples() {
    let dice: Vec<Die<5>> = vec![
        Die::new("01100"),
        Die::new("-----"),
        Die::new("1-0-1"),
        Die::new("00000"),
    ];
    for die in &dice {
        assert!(die.covers(die));
    }
}

#[test]
fn covers_is_transitive_on_samples() {
    let a: Die<5> = Die::new("--0-1");
    let b: Die<5> = Die::new("1-0-1");
    let c: Die<5> = Die::new("10001");
    assert!(a.covers(&b));
    assert!(b.covers(&c));
    assert!(a.covers(&c));
}

#[test]
fn covers_is_not_symmetric() {
    let general: Die<3> = Die::new("-01");
    let concrete: Die<3> = Die::new("101");
    assert!(general.covers(&concrete));
    assert!(!concrete.covers(&general));
}

#[test]
fn merge_single_difference() {
    let a: Die<5> = Die::new("10000");
    let b: Die<5> = Die::new("00000");
    let merged = a.merge(&b).unwrap();
    assert_eq!(merged.as_binary_string(), "-0000");
}

#[test]
fn merge_ignores_dont_cares() {
    // the doc example: (1 - 1 0) and (0 0 1 -) merge to (- 0 1 0)
    let a: Die<4> = Die::new("1-10");
    let b: Die<4> = Die::new("001-");
    let merged = a.merge(&b).unwrap();
    assert_eq!(merged.as_binary_string(), "-010");
}

#[test]
fn merge_fails_with_two_differences() {
    let a: Die<5> = Die::new("01100");
    let b: Die<5> = Die::new("00000");
    assert!(a.merge(&b).is_none());
}

#[test]
fn merge_fails_with_no_difference() {
    let a: Die<5> = Die::new("01100");
    let b: Die<5> = Die::new("0110-");
    assert!(a.merge(&b).is_none());
}

#[test]
fn merge_is_symmetric() {
    let a: Die<5> = Die::new("01101");
    let b: Die<5> = Die::new("01100");
    let ab = a.merge(&b).unwrap();
    let ba = b.merge(&a).unwrap();
    assert_eq!(ab.as_binary_string(), ba.as_binary_string());
    assert_eq!(ab.as_binary_string(), "0110-");
}

#[test]
fn merge_of_minterms_covers_both() {
    let a: Die<5> = Die::new("01101");
    let b: Die<5> = Die::new("01100");
    let merged = a.merge(&b).unwrap();
    assert!(merged.covers(&a));
    assert!(merged.covers(&b));
}

#[test]
fn try_new_accepts_valid_notation() {
    let die: Result<Die<5>, DieError> = Die::try_new("0-1-0");
    assert_eq!(die.unwrap().as_binary_string(), "0-1-0");
}

#[test]
fn try_new_rejects_wrong_width() {
    let short: Result<Die<5>, DieError> = Die::try_new("011");
    assert_eq!(short.unwrap_err(), DieError::InvalidWidth);
    let long: Result<Die<5>, DieError> = Die::try_new("011000");
    assert_eq!(long.unwrap_err(), DieError::InvalidWidth);
}

#[test]
fn try_new_rejects_bad_symbol() {
    let bad: Result<Die<5>, DieError> = Die::try_new("01x00");
    assert_eq!(bad.unwrap_err(), DieError::InvalidSymbol);
}

#[test]
fn width_is_checked_before_symbols() {
    let bad: Result<Die<5>, DieError> = Die::try_new("01x0");
    assert_eq!(bad.unwrap_err(), DieError::InvalidWidth);
}

#[test]
fn die_to_string_notation() {
    let die: Die<5> = Die::new("01-01");
    assert_eq!(die.to_string(), "(0 1 - 0 1)");
    assert_eq!(die.as_binary_string(), "01-01");
}

#[test]
fn single_coordinate_dice() {
    let zero: Die<1> = Die::new("0");
    let one: Die<1> = Die::new("1");
    let merged = zero.merge(&one).unwrap();
    assert_eq!(merged.as_binary_string(), "-");
    assert_eq!(merged.to_string(), "(-)");
    assert!(merged.covers(&zero));
    assert!(merged.covers(&one));
}

#[test]
fn try_new_rejects_empty_string() {
    let empty: Result<Die<5>, DieError> = Die::try_new("");
    assert_eq!(empty.unwrap_err(), DieError::InvalidWidth);
}
