use timewarp::duration::{Duration, Unit};
use timewarp::error::Error;
use timewarp::token::{Magnitude, UnitToken};

fn token(negative: bool, digits: u64, scale: usize, unit: Unit) -> UnitToken {
    UnitToken { magnitude: Magnitude { negative, digits, scale }, unit }
}

#[test]
fn a_whole_magnitude_multiplies_the_unit() {
    assert_eq!(token(false, 15, 0, Unit::Day).to_duration(), Ok(Duration::new(1_296_000_000_000_000, 0, 0)));
    assert_eq!(token(true, 2, 0, Unit::Hour).to_duration(), Ok(Duration::new(-7_200_000_000_000, 0, 0)));
    assert_eq!(token(false, 1, 0, Unit::Nanosecond).to_duration(), Ok(Duration::new(1, 0, 0)));
    assert_eq!(token(false, 0, 0, Unit::Week).to_duration(), Ok(Duration::zero()));
}

#[test]
fn the_scale_divides_by_a_power_of_ten() {
    assert_eq!(token(false, 15, 1, Unit::Hour).to_duration(), Ok(Duration::new(5_400_000_000_000, 0, 0)));
    assert_eq!(token(false, 125, 2, Unit::Second).to_duration(), Ok(Duration::new(1_250_000_000, 0, 0)));
    assert_eq!(token(true, 125, 2, Unit::Second).to_duration(), Ok(Duration::new(-1_250_000_000, 0, 0)));
    assert_eq!(token(false, 19, 1, Unit::Nanosecond).to_duration(), Ok(Duration::new(1, 0, 0)));
    assert_eq!(token(true, 19, 1, Unit::Nanosecond).to_duration(), Ok(Duration::new(-1, 0, 0)));
    assert_eq!(token(false, 1, 9, Unit::Second).to_duration(), Ok(Duration::new(1, 0, 0)));
    assert_eq!(token(false, 1, 10, Unit::Second).to_duration(), Ok(Duration::zero()));
}

#[test]
fn a_scale_of_any_size_is_taken() {
    assert_eq!(
        token(false, u64::MAX, 34, Unit::Week).to_duration(),
        Ok(Duration::new(1, 0, 0))
    );
    assert_eq!(token(false, u64::MAX, 35, Unit::Week).to_duration(), Ok(Duration::zero()));
    assert_eq!(token(false, u64::MAX, 1000, Unit::Week).to_duration(), Ok(Duration::zero()));
    assert_eq!(token(true, u64::MAX, usize::MAX, Unit::Week).to_duration(), Ok(Duration::zero()));
}

#[test]
fn the_largest_fixed_length_token_fits() {
    let expected: i128 = 18_446_744_073_709_551_615 * 604_800_000_000_000;
    assert_eq!(token(false, u64::MAX, 0, Unit::Week).to_duration(), Ok(Duration::new(expected, 0, 0)));
    assert_eq!(token(true, u64::MAX, 0, Unit::Week).to_duration(), Ok(Duration::new(-expected, 0, 0)));
}

#[test]
fn calendar_units_go_to_their_counters() {
    assert_eq!(token(false, 7, 0, Unit::Month).to_duration(), Ok(Duration::new(0, 7, 0)));
    assert_eq!(token(true, 7, 0, Unit::Month).to_duration(), Ok(Duration::new(0, -7, 0)));
    assert_eq!(token(false, 3, 0, Unit::Year).to_duration(), Ok(Duration::new(0, 0, 3)));
    assert_eq!(token(true, 3, 0, Unit::Year).to_duration(), Ok(Duration::new(0, 0, -3)));
}

#[test]
fn a_fractional_calendar_token_is_invalid_syntax() {
    assert_eq!(token(false, 15, 1, Unit::Month).to_duration(), Err(Error::InvalidDurationSyntax));
    assert_eq!(token(false, 10, 1, Unit::Year).to_duration(), Err(Error::InvalidDurationSyntax));
    assert_eq!(token(false, u64::MAX, 1, Unit::Year).to_duration(), Err(Error::InvalidDurationSyntax));
}

#[test]
fn a_calendar_count_beyond_64_bits_is_an_overflow() {
    let top: u64 = i64::MAX as u64;
    assert_eq!(token(false, top, 0, Unit::Month).to_duration(), Ok(Duration::new(0, i64::MAX, 0)));
    assert_eq!(token(false, top + 1, 0, Unit::Month).to_duration(), Err(Error::ArithmeticOverflow));
    assert_eq!(token(true, top + 1, 0, Unit::Year).to_duration(), Ok(Duration::new(0, 0, i64::MIN)));
    assert_eq!(token(true, top + 2, 0, Unit::Year).to_duration(), Err(Error::ArithmeticOverflow));
    assert_eq!(token(false, u64::MAX, 0, Unit::Year).to_duration(), Err(Error::ArithmeticOverflow));
}
