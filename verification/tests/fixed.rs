use immi::fixed::Fixed;
use immi::fixed::Wide;
use immi::fixed::ONE_BITS;

fn fx(x: f64) -> Fixed {
    Fixed::from_bits((x * 4294967296.0).round() as i64)
}

#[test]
fn one_is_two_to_the_thirty_two() {
    assert_eq!(ONE_BITS, 1i64 << 32);
    assert_eq!(Fixed::one().bits, 1i64 << 32);
    assert_eq!(Fixed::zero().bits, 0);
    assert_eq!(Fixed::half().bits, 1i64 << 31);
}

#[test]
fn whole_numbers_are_exact() {
    assert_eq!(Fixed::from_int(3).bits, 3i64 << 32);
    assert_eq!(Fixed::from_int(-7).bits, -(7i64 << 32));
    assert_eq!(Fixed::from_int(i32::MAX).bits, (i32::MAX as i64) << 32);
    assert_eq!(Fixed::from_int(i32::MIN).bits, i64::MIN);
    assert_eq!(Fixed::from_bits(12345).bits, 12345);
}

#[test]
fn sums_and_differences() {
    assert_eq!(Fixed::one().plus(Fixed::one()), Fixed::from_int(2));
    assert_eq!(fx(1.5).plus(fx(2.25)), fx(3.75));
    assert_eq!(fx(1.5).minus(fx(2.25)), fx(-0.75));
    assert_eq!(fx(1.5).negated(), fx(-1.5));
}

#[test]
fn sums_saturate() {
    let max = Fixed::from_bits(i64::MAX);
    let min = Fixed::from_bits(i64::MIN);
    assert_eq!(max.plus(Fixed::one()), max);
    assert_eq!(min.minus(Fixed::one()), min);
    assert_eq!(min.plus(Fixed::one().negated()), min);
    assert_eq!(max.minus(Fixed::one().negated()), max);
    assert_eq!(min.negated(), max);
    assert_eq!(max.negated(), Fixed::from_bits(i64::MIN + 1));
}

#[test]
fn products_are_exact_when_they_fit() {
    assert_eq!(fx(1.5).times(fx(2.5)), fx(3.75));
    assert_eq!(fx(-1.5).times(fx(2.5)), fx(-3.75));
    assert_eq!(fx(-1.5).times(fx(-2.5)), fx(3.75));
    assert_eq!(Fixed::from_int(1000).times(Fixed::from_int(1000)), Fixed::from_int(1_000_000));
}

#[test]
fn products_round_towards_zero() {
    assert_eq!(Fixed::from_bits(1).times(Fixed::from_bits(1)).bits, 0);
    assert_eq!(Fixed::from_bits(3).times(Fixed::half()).bits, 1);
    assert_eq!(Fixed::from_bits(-3).times(Fixed::half()).bits, -1);
    assert_eq!(Fixed::from_bits(3).times(Fixed::half().negated()).bits, -1);
    assert_eq!(Fixed::from_bits(-3).times(Fixed::half().negated()).bits, 1);
}

#[test]
fn products_saturate() {
    let big = Fixed::from_int(i32::MAX);
    assert_eq!(big.times(Fixed::from_int(2)).bits, i64::MAX);
    assert_eq!(big.times(Fixed::from_int(-3)).bits, i64::MIN);
    assert_eq!(Fixed::from_bits(i64::MIN).times(Fixed::from_bits(i64::MIN)).bits, i64::MAX);
    assert_eq!(Fixed::from_bits(i64::MIN).times(Fixed::one()).bits, i64::MIN);
}

#[test]
fn division_rounds_towards_zero() {
    let third = Fixed::one().over(Fixed::from_int(3));
    assert_eq!(third.bits, 0x5555_5555);
    let minus_third = Fixed::one().negated().over(Fixed::from_int(3));
    assert_eq!(minus_third.bits, -0x5555_5555);
    assert_eq!(Fixed::one().over(Fixed::from_int(-3)).bits, -0x5555_5555);
    assert_eq!(Fixed::one().negated().over(Fixed::from_int(-3)).bits, 0x5555_5555);
    assert_eq!(fx(3.75).over(fx(2.5)), fx(1.5));
}

#[test]
fn division_by_zero_saturates() {
    assert_eq!(Fixed::one().over(Fixed::zero()).bits, i64::MAX);
    assert_eq!(Fixed::one().negated().over(Fixed::zero()).bits, i64::MIN);
    assert_eq!(Fixed::zero().over(Fixed::zero()).bits, 0);
}

#[test]
fn division_saturates() {
    assert_eq!(Fixed::one().over(Fixed::from_bits(1)).bits, i64::MAX);
    assert_eq!(Fixed::one().over(Fixed::from_bits(-1)).bits, i64::MIN);
    assert_eq!(Fixed::from_bits(i64::MIN).over(Fixed::one().negated()).bits, i64::MAX);
    assert_eq!(Fixed::from_bits(i64::MIN).over(Fixed::one()).bits, i64::MIN);
}

#[test]
fn wide_values_keep_and_narrow() {
    assert_eq!(Wide::one().bits, 1i128 << 32);
    assert_eq!(Wide::zero().bits, 0);
    assert_eq!(Wide::from_int(-5).bits, -(5i128 << 32));
    assert_eq!(Wide::from_int(i64::MAX).bits, (i64::MAX as i128) << 32);
    assert_eq!(Wide::from_fixed(fx(-2.5)).bits, -(5i128 << 31));
    assert_eq!(Wide::from_fixed(fx(-2.5)).to_fixed(), fx(-2.5));
    assert_eq!(Wide::from_int(i64::MAX).to_fixed().bits, i64::MAX);
    assert_eq!(Wide::from_int(i64::MIN).to_fixed().bits, i64::MIN);
}

#[test]
fn wide_sums_saturate() {
    let max = Wide { bits: i128::MAX };
    let min = Wide { bits: i128::MIN };
    assert_eq!(max.plus(Wide::one()), max);
    assert_eq!(min.plus(Wide::from_int(-1)), min);
    assert_eq!(min.minus(Wide::one()), min);
    assert_eq!(max.minus(Wide::from_int(-1)), max);
    assert_eq!(Wide::from_int(3).plus(Wide::from_int(4)), Wide::from_int(7));
    assert_eq!(Wide::from_int(3).minus(Wide::from_int(4)), Wide::from_int(-1));
    assert_eq!(min.abs(), max);
    assert_eq!(Wide::from_int(-3).abs(), Wide::from_int(3));
    assert_eq!(Wide::from_int(3).abs(), Wide::from_int(3));
}

#[test]
fn wide_remainder_has_the_sign_of_the_dividend() {
    let one = Wide::one();
    let quarter = Wide { bits: 1i128 << 30 };
    let five_quarters = Wide { bits: 5i128 << 30 };
    assert_eq!(five_quarters.rem(one), quarter);
    assert_eq!(Wide::zero().minus(five_quarters).rem(one), Wide::zero().minus(quarter));
    assert_eq!(five_quarters.rem(Wide::from_int(-1)), quarter);
    assert_eq!(Wide::from_int(7).rem(Wide::from_int(2)), one);
    assert_eq!(Wide::from_int(7).rem(Wide::zero()), Wide::zero());
    assert_eq!((Wide { bits: i128::MIN }).rem(one), Wide::zero());
    assert_eq!((Wide { bits: i128::MIN }).rem(Wide { bits: i128::MIN }), Wide::zero());
    assert_eq!((Wide { bits: i128::MAX }).rem(Wide { bits: i128::MIN }), Wide { bits: i128::MAX });
}
