use immi::animations::cycles_elapsed;
use immi::animations::decay;
use immi::animations::AlternateRepeated;
use immi::animations::EaseOut;
use immi::animations::Interpolation;
use immi::animations::Linear;
use immi::animations::Repeated;
use immi::animations::Reversed;
use immi::fixed::Fixed;
use immi::fixed::Wide;

fn wd(x: f64) -> Wide {
    Wide { bits: (x * 4294967296.0).round() as i128 }
}

#[test]
fn linear_clamps_to_the_unit_interval() {
    assert_eq!(Linear.from_progress(wd(-0.5)), wd(0.0));
    assert_eq!(Linear.from_progress(wd(0.0)), wd(0.0));
    assert_eq!(Linear.from_progress(wd(0.5)), wd(0.5));
    assert_eq!(Linear.from_progress(wd(1.0)), wd(1.0));
    assert_eq!(Linear.from_progress(wd(1.5)), wd(1.0));
}

#[test]
fn linear_clamps_the_extremes() {
    assert_eq!(Linear.from_progress(Wide { bits: i128::MAX }), wd(1.0));
    assert_eq!(Linear.from_progress(Wide { bits: i128::MIN }), wd(0.0));
    assert_eq!(Linear.from_progress(Wide { bits: 1 }), Wide { bits: 1 });
}

#[test]
fn repeated_linear_wraps() {
    let repeated = Repeated::new(Linear);
    assert_eq!(repeated.from_progress(wd(1.25)), repeated.from_progress(wd(0.25)));
    assert_eq!(repeated.from_progress(wd(1.25)), wd(0.25));
    assert_eq!(repeated.from_progress(wd(-0.25)), repeated.from_progress(wd(0.75)));
    assert_eq!(repeated.from_progress(wd(-0.25)), wd(0.75));
    assert_eq!(repeated.from_progress(wd(0.0)), wd(0.0));
    assert_eq!(repeated.from_progress(wd(1.0)), wd(0.0));
    assert_eq!(repeated.from_progress(wd(7.5)), wd(0.5));
    assert_eq!(repeated.from_progress(wd(-7.5)), wd(0.5));
}

#[test]
fn repeated_linear_is_complete_at_negative_whole_cycles() {
    let repeated = Repeated::new(Linear);
    assert_eq!(repeated.from_progress(wd(-1.0)), wd(1.0));
    assert_eq!(repeated.from_progress(wd(-2.0)), wd(1.0));
}

#[test]
fn alternate_repeated_linear_goes_back_and_forth() {
    let alternate = AlternateRepeated::new(Linear);
    assert_eq!(alternate.from_progress(wd(0.0)), wd(0.0));
    assert_eq!(alternate.from_progress(wd(0.5)), wd(0.5));
    assert_eq!(alternate.from_progress(wd(1.0)), wd(1.0));
    assert_eq!(alternate.from_progress(wd(1.25)), wd(0.75));
    assert_eq!(alternate.from_progress(wd(1.5)), wd(0.5));
    assert_eq!(alternate.from_progress(wd(2.0)), wd(0.0));
    assert_eq!(alternate.from_progress(wd(2.25)), wd(0.25));
    assert_eq!(alternate.from_progress(wd(3.0)), wd(1.0));
    assert_eq!(alternate.from_progress(wd(-0.5)), wd(0.5));
    assert_eq!(alternate.from_progress(wd(-1.25)), wd(0.75));
}

#[test]
fn reversed_linear_runs_backwards() {
    let reversed = Reversed::new(Linear);
    assert_eq!(reversed.from_progress(wd(0.0)), wd(1.0));
    assert_eq!(reversed.from_progress(wd(0.25)), wd(0.75));
    assert_eq!(reversed.from_progress(wd(1.0)), wd(0.0));
    assert_eq!(reversed.from_progress(wd(2.0)), wd(0.0));
    assert_eq!(reversed.from_progress(wd(-1.0)), wd(1.0));
}

#[test]
fn reversed_twice_is_the_interpolation() {
    let twice = Reversed::new(Reversed::new(Repeated::new(Linear)));
    assert_eq!(twice.from_progress(wd(3.25)), wd(0.25));
    assert_eq!(twice.from_progress(wd(0.75)), wd(0.75));
}

#[test]
fn combinators_wrap_the_interpolation() {
    assert_eq!(Linear.reverse().from_progress(wd(0.25)), wd(0.75));
    assert_eq!(Linear.repeat().from_progress(wd(2.25)), wd(0.25));
    assert_eq!(Linear.alternate_repeat().from_progress(wd(1.25)), wd(0.75));
    assert_eq!(Linear.repeat().reverse().from_progress(wd(0.25)), wd(0.75));
    assert_eq!(Linear.reverse().repeat().from_progress(wd(2.25)), wd(0.75));
}

#[test]
fn cycles_are_counted_from_the_start() {
    assert_eq!(cycles_elapsed(1500, 1000, 1000), wd(0.5));
    assert_eq!(cycles_elapsed(1000, 1000, 1000), wd(0.0));
    assert_eq!(cycles_elapsed(500, 1000, 1000), wd(-0.5));
    assert_eq!(cycles_elapsed(4000, 1000, 1000), wd(3.0));
    assert_eq!(cycles_elapsed(1001, 1000, 3).bits, 0x5555_5555);
    assert_eq!(cycles_elapsed(999, 1000, 3).bits, -0x5555_5555);
}

#[test]
fn cycles_of_no_duration() {
    assert_eq!(cycles_elapsed(1001, 1000, 0).bits, i128::MAX);
    assert_eq!(cycles_elapsed(999, 1000, 0).bits, i128::MIN);
    assert_eq!(cycles_elapsed(1000, 1000, 0).bits, 0);
}

#[test]
fn cycles_span_the_whole_range_of_time() {
    assert_eq!(cycles_elapsed(u64::MAX, 0, 1).bits, (u64::MAX as i128) << 32);
    assert_eq!(cycles_elapsed(0, u64::MAX, 1).bits, -((u64::MAX as i128) << 32));
    assert_eq!(cycles_elapsed(u64::MAX, 0, u64::MAX), wd(1.0));
}

#[test]
fn a_distant_origin_keeps_the_fraction() {
    // Nanoseconds: more than fifty years after the origin, a quarter of a second into a cycle
    // of one second.
    let start: u64 = 0;
    let now: u64 = 1_700_000_000_000_000_000 + 250_000_000;
    let second: u64 = 1_000_000_000;
    assert_eq!(Repeated::new(Linear).calculate(now, start, second), wd(0.25));
    assert_eq!(AlternateRepeated::new(Linear).calculate(now, start, second), wd(0.25));
    assert_eq!(
        AlternateRepeated::new(Linear).calculate(now + second, start, second),
        wd(0.75)
    );
    assert_eq!(Linear.calculate(now, start, second), wd(1.0));
}

#[test]
fn calculate_tolerates_times_outside_of_the_animation() {
    assert_eq!(Linear.calculate(10, 20, 5), wd(0.0));
    assert_eq!(Linear.calculate(20, 20, 5), wd(0.0));
    assert_eq!(Linear.calculate(22, 20, 4), wd(0.5));
    assert_eq!(Linear.calculate(25, 20, 5), wd(1.0));
    assert_eq!(Linear.calculate(1000, 20, 5), wd(1.0));
    assert_eq!(Linear.calculate(10, 20, 0), wd(0.0));
    assert_eq!(Linear.calculate(30, 20, 0), wd(1.0));
    assert_eq!(Reversed::new(Linear).calculate(10, 20, 5), wd(1.0));
    assert_eq!(Reversed::new(Linear).calculate(1000, 20, 5), wd(0.0));
}

fn value(x: Wide) -> f64 {
    x.bits as f64 / 4294967296.0
}

#[test]
fn ease_out_starts_at_zero() {
    let ease = EaseOut::new(Fixed::from_int(10));
    assert_eq!(ease.factor, Fixed::from_int(10));
    assert_eq!(ease.from_progress(wd(0.0)), wd(0.0));
    assert_eq!(ease.from_progress(wd(-0.5)), wd(0.0));
    assert_eq!(ease.from_progress(wd(-100.0)), wd(0.0));
    assert_eq!(ease.from_progress(Wide { bits: i128::MIN }), wd(0.0));
}

#[test]
fn ease_out_has_a_default_factor_of_ten() {
    assert_eq!(EaseOut::default().factor, Fixed::from_int(10));
    assert_eq!(
        EaseOut::default().from_progress(wd(0.3)),
        EaseOut::new(Fixed::from_int(10)).from_progress(wd(0.3))
    );
}

#[test]
fn ease_out_follows_the_exponential() {
    let ease = EaseOut::default();
    for r in [0.001, 0.01, 0.05, 0.1, 0.2, 0.3, 0.5, 0.75, 1.0, 1.5, 2.0, 5.0].iter() {
        let expected = 1.0 - f64::exp(-*r * 10.0);
        assert!((value(ease.from_progress(wd(*r))) - expected).abs() < 1e-4);
    }
    let slow = EaseOut::new(Fixed::half());
    for r in [0.1, 1.0, 2.0, 10.0, 30.0].iter() {
        let expected = 1.0 - f64::exp(-*r * 0.5);
        assert!((value(slow.from_progress(wd(*r))) - expected).abs() < 1e-4);
    }
}

#[test]
fn ease_out_rises_to_one() {
    let ease = EaseOut::default();
    let mut last = wd(0.0);
    for step in 0..400 {
        let next = ease.from_progress(wd(step as f64 / 100.0));
        assert!(next >= last);
        assert!(next <= wd(1.0));
        last = next;
    }
    assert!(value(last) > 0.9999);
    assert_eq!(ease.from_progress(wd(10_000.0)), wd(1.0));
    assert_eq!(ease.from_progress(Wide { bits: i128::MAX }), wd(1.0));
}

#[test]
fn ease_out_without_a_positive_factor_does_not_move() {
    assert_eq!(EaseOut::new(Fixed::zero()).from_progress(wd(3.0)), wd(0.0));
    assert_eq!(EaseOut::new(Fixed::from_int(-10)).from_progress(wd(3.0)), wd(0.0));
}

#[test]
fn decay_is_one_at_zero_and_zero_in_the_end() {
    assert_eq!(decay(Fixed::zero()), Fixed::one());
    assert_eq!(decay(Fixed::from_int(65536)), Fixed::zero());
    assert_eq!(decay(Fixed::from_bits(i64::MAX)), Fixed::zero());
    let at_one = decay(Fixed::one()).bits as f64 / 4294967296.0;
    assert!((at_one - f64::exp(-1.0)).abs() < 1e-4);
}

#[test]
fn ease_out_in_an_animation() {
    // A tenth of the way at a factor of ten.
    let progress = EaseOut::default().calculate(1100, 1000, 1000);
    assert!((value(progress) - (1.0 - f64::exp(-1.0))).abs() < 1e-4);
    assert_eq!(EaseOut::default().calculate(900, 1000, 1000), wd(0.0));
    let reversed = EaseOut::default().reverse().calculate(1000, 1000, 1000);
    assert!((value(reversed) - (1.0 - f64::exp(-10.0))).abs() < 1e-4);
}

// An interpolation of the application's own: nothing up to the middle of the animation,
// everything from there on.
struct Step;

impl Interpolation for Step {
    fn from_progress(&self, anim_progress: Wide) -> Wide {
        if anim_progress >= wd(0.5) {
            wd(1.0)
        } else {
            wd(0.0)
        }
    }
}

#[test]
fn an_interpolation_of_the_application() {
    assert_eq!(Step.calculate(1400, 1000, 1000), wd(0.0));
    assert_eq!(Step.calculate(1500, 1000, 1000), wd(1.0));
    assert_eq!(Step.reverse().calculate(1400, 1000, 1000), wd(1.0));
    assert_eq!(Step.repeat().calculate(2600, 1000, 1000), wd(1.0));
    assert_eq!(Step.alternate_repeat().calculate(2600, 1000, 1000), wd(0.0));
}
