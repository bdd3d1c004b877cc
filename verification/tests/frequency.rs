use amk::utils::frequency::{Frequency, FREQUENCY_ONE};

#[test]
fn negative_frequency_is_rejected() {
    assert!(Frequency::new(-1).is_none());
    assert!(Frequency::new(i64::MIN).is_none());
}

#[test]
fn zero_and_positive_frequencies_are_accepted() {
    assert_eq!(Frequency::new(0).unwrap().bits(), 0);
    assert_eq!(Frequency::new(1).unwrap().bits(), 1);
    assert_eq!(Frequency::new(i64::MAX).unwrap().bits(), i64::MAX as u64);
}

#[test]
fn one_is_two_to_the_thirty_second() {
    assert_eq!(FREQUENCY_ONE, 4_294_967_296);
    assert_eq!(Frequency::from_parts(1, 0).bits(), FREQUENCY_ONE);
    assert_eq!(Frequency::new(1 << 32), Some(Frequency::from_parts(1, 0)));
}

#[test]
fn parts_make_whole_and_fraction() {
    assert_eq!(Frequency::from_parts(0, 0).bits(), 0);
    assert_eq!(Frequency::from_parts(0, 0x8000_0000).bits(), FREQUENCY_ONE / 2);
    assert_eq!(Frequency::from_parts(2, 0x4000_0000).bits(), 2 * FREQUENCY_ONE + FREQUENCY_ONE / 4);
    assert_eq!(Frequency::from_parts(u32::MAX, u32::MAX).bits(), u64::MAX);
}

#[test]
fn only_zero_is_zero() {
    assert!(Frequency::from_parts(0, 0).is_zero());
    assert!(!Frequency::from_parts(0, 1).is_zero());
    assert!(!Frequency::from_parts(1, 0).is_zero());
}
