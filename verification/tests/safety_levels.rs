use screenlock_core::safety::{safety_of, Safety};

#[test]
fn high_exactly_when_both_owned() {
    assert_eq!(safety_of(true, true), Safety::High);
}

#[test]
fn medium_exactly_when_keyboard_only() {
    assert_eq!(safety_of(true, false), Safety::Medium);
}

#[test]
fn low_otherwise() {
    assert_eq!(safety_of(false, true), Safety::Low);
    assert_eq!(safety_of(false, false), Safety::Low);
}
