use reverb::comb::CombFilter;
use reverb::comb::CombType;
use reverb::delay::delay_samples;
use reverb::fixed::Fixed;
use reverb::fixed::ONE_BITS;
use reverb::mix::mix;
use reverb::rack::Rack;
use reverb::reverb::decay_gain;
use reverb::reverb::Reverb;
use reverb::reverb::ReverbType;
use reverb::sample::Sample;

fn fixed(x: f64) -> Fixed {
    Fixed { bits: (x * ONE_BITS as f64).round() as i64 }
}

fn float(x: Fixed) -> f64 {
    x.bits as f64 / ONE_BITS as f64
}

#[test]
fn fixed_ratio_is_exact_where_it_can_be() {
    assert_eq!(Fixed::ratio(0, 1).bits, 0);
    assert_eq!(Fixed::ratio(1, 1).bits, 4294967296);
    assert_eq!(Fixed::ratio(1, 4).bits, 1073741824);
    assert_eq!(Fixed::ratio(-3, 1).bits, -12884901888);
    assert_eq!(Fixed::ratio(3, -2).bits, -6442450944);
    assert_eq!(Fixed::ratio(-3, -2).bits, 6442450944);
    assert_eq!(Fixed::ratio(1000, 1).bits, 4294967296000);
}

#[test]
fn fixed_ratio_cuts_off_towards_zero() {
    assert_eq!(Fixed::ratio(1, 3).bits, 1431655765);
    assert_eq!(Fixed::ratio(-1, 3).bits, -1431655765);
    assert_eq!(Fixed::ratio(2, 3).bits, 2863311530);
    assert_eq!(Fixed::ratio(707, 1000).bits, 3036541878);
}

#[test]
fn fixed_ratio_over_zero_is_an_end_of_the_range() {
    assert_eq!(Fixed::ratio(5, 0).bits, i64::MAX);
    assert_eq!(Fixed::ratio(-5, 0).bits, i64::MIN);
    assert_eq!(Fixed::ratio(0, 0).bits, 0);
}

#[test]
fn fixed_ratio_stays_in_range() {
    assert_eq!(Fixed::ratio(1 << 31, 1).bits, i64::MAX);
    assert_eq!(Fixed::ratio(-(1 << 31), 1).bits, i64::MIN);
    assert_eq!(Fixed::ratio(-(1 << 31) - 1, 1).bits, i64::MIN);
    assert_eq!(Fixed::ratio(i64::MAX, i64::MAX).bits, 4294967296);
    assert_eq!(Fixed::ratio(i64::MIN, i64::MIN).bits, 4294967296);
    assert_eq!(Fixed::ratio(i64::MIN, 1).bits, i64::MIN);
}

#[test]
fn fixed_sums_stay_in_range() {
    assert_eq!(fixed(1.5).plus(fixed(2.25)), fixed(3.75));
    assert_eq!(fixed(1.5).minus(fixed(2.25)), fixed(-0.75));
    assert_eq!(Fixed { bits: i64::MAX }.plus(Fixed { bits: 1 }).bits, i64::MAX);
    assert_eq!(Fixed { bits: i64::MIN }.plus(Fixed { bits: -1 }).bits, i64::MIN);
    assert_eq!(Fixed { bits: i64::MIN }.minus(Fixed { bits: 1 }).bits, i64::MIN);
    assert_eq!(Fixed { bits: i64::MAX }.minus(Fixed { bits: -1 }).bits, i64::MAX);
    assert_eq!(Fixed { bits: i64::MAX }.minus(Fixed { bits: i64::MAX }).bits, 0);
}

#[test]
fn fixed_products_cut_off_towards_zero() {
    assert_eq!(fixed(0.5).times(fixed(0.5)), fixed(0.25));
    assert_eq!(fixed(-1.5).times(fixed(2.0)), fixed(-3.0));
    assert_eq!(Fixed { bits: 1 }.times(fixed(0.5)).bits, 0);
    assert_eq!(Fixed { bits: -1 }.times(fixed(0.5)).bits, 0);
    assert_eq!(Fixed { bits: 3 }.times(fixed(0.5)).bits, 1);
    assert_eq!(Fixed { bits: -3 }.times(fixed(0.5)).bits, -1);
    assert_eq!(Fixed { bits: i64::MAX }.times(fixed(2.0)).bits, i64::MAX);
    assert_eq!(Fixed { bits: i64::MIN }.times(fixed(2.0)).bits, i64::MIN);
    assert_eq!(Fixed { bits: i64::MIN }.times(Fixed { bits: i64::MIN }).bits, i64::MAX);
}

#[test]
fn fixed_quotients_cut_off_towards_zero() {
    assert_eq!(fixed(1.0).over(fixed(4.0)), fixed(0.25));
    assert_eq!(fixed(-3.0).over(fixed(2.0)), fixed(-1.5));
    assert_eq!(fixed(1.0).over(fixed(3.0)).bits, 1431655765);
    assert_eq!(fixed(-1.0).over(fixed(3.0)).bits, -1431655765);
    assert_eq!(fixed(1.0).over(fixed(0.0)).bits, i64::MAX);
    assert_eq!(fixed(-1.0).over(fixed(0.0)).bits, i64::MIN);
    assert_eq!(fixed(0.0).over(fixed(0.0)).bits, 0);
    assert_eq!(fixed(1000.0).over(Fixed { bits: 1 }).bits, i64::MAX);
}

#[test]
fn fixed_rounds_halves_away_from_zero() {
    assert_eq!(fixed(1.5).round(), fixed(2.0));
    assert_eq!(fixed(-1.5).round(), fixed(-2.0));
    assert_eq!(fixed(1.49).round(), fixed(1.0));
    assert_eq!(fixed(-1.49).round(), fixed(-1.0));
    assert_eq!(fixed(0.0).round(), fixed(0.0));
    assert_eq!(fixed(926.1).round(), fixed(926.0));
    assert_eq!(Fixed { bits: i64::MAX }.round().bits, i64::MAX);
    assert_eq!(Fixed { bits: i64::MIN }.round().bits, i64::MIN);
}

#[test]
fn fixed_truncates_to_a_count() {
    assert_eq!(fixed(3.99).truncate(), 3);
    assert_eq!(fixed(44100.0).truncate(), 44100);
    assert_eq!(fixed(0.5).truncate(), 0);
    assert_eq!(fixed(-0.5).truncate(), 0);
    assert_eq!(fixed(-7.0).truncate(), 0);
    assert_eq!(Fixed { bits: i64::MAX }.truncate(), 2147483647);
}

#[test]
fn fixed_compares_by_value() {
    assert!(fixed(-1.0).lt(fixed(0.0)));
    assert!(fixed(0.25).lt(fixed(0.5)));
    assert!(!fixed(0.5).lt(fixed(0.5)));
    assert!(!fixed(0.5).lt(fixed(0.25)));
}

#[test]
fn fixed_powers_of_ten_are_close() {
    assert_eq!(fixed(0.0).exp10(), fixed(1.0));
    for (p, want) in [
        (1.0, 10.0),
        (2.0, 100.0),
        (-1.0, 0.1),
        (-3.0, 0.001),
        (-0.252, 0.559_757_6),
        (0.5, 3.162_277_66),
        (-0.000_15, 0.999_654_67),
        (9.0, 1e9),
    ] {
        let got = float(fixed(p).exp10());
        assert!((got - want).abs() <= 2e-8 * want + 1e-9, "{}: {} against {}", p, got, want);
    }
}

#[test]
fn fixed_powers_of_ten_stay_in_range() {
    assert_eq!(fixed(10.0).exp10().bits, i64::MAX);
    assert_eq!(fixed(9.4).exp10().bits, i64::MAX);
    assert_eq!(Fixed { bits: i64::MAX }.exp10().bits, i64::MAX);
    assert_eq!(fixed(-11.0).exp10().bits, 0);
    assert_eq!(Fixed { bits: i64::MIN }.exp10().bits, 0);
    assert_eq!(fixed(-9.6).exp10().bits, 1);
}

#[test]
fn fixed_decay_gain_dies_away_by_sixty_decibels_in_the_decay_time() {
    for delay in [1.0f64, 3.0, 10.0, 21.0, 37.5, 50.0, 100.0] {
        for decay in [100.0f64, 250.0, 300.0, 1000.0, 5000.0, 20000.0] {
            let g = float(decay_gain(fixed(delay), fixed(decay)));
            let after = g.powf(decay / delay);
            assert!((after - 1e-3).abs() < 1e-6, "delay {} decay {}: {}", delay, decay, after);
        }
    }
}

#[test]
fn fixed_delay_in_samples_is_rounded_to_the_nearest() {
    assert_eq!(delay_samples(fixed(21.0), fixed(44100.0)), 926);
    assert_eq!(delay_samples(fixed(26.0), fixed(44100.0)), 1147);
    assert_eq!(delay_samples(fixed(31.0), fixed(44100.0)), 1367);
    assert_eq!(delay_samples(fixed(37.0), fixed(44100.0)), 1632);
}

#[test]
fn fixed_comb_echoes_an_impulse_exactly() {
    let g = Fixed::ratio(7, 10);
    let one = Fixed::ratio(1, 1);
    let zero = Fixed::ratio(0, 1);
    let mut comb = CombFilter::new(fixed(8000.0), CombType::Negative, fixed(5.0), g, false);
    assert!(comb.is_ready());
    let delay = 40;
    // the first echo: the impulse fed back, less the delayed impulse
    let mut echo = g.minus(one);
    for n in 0..(delay * 30) {
        let x = if n == 0 { one } else { zero };
        let y = comb.process_left(x);
        if n == 0 {
            assert_eq!(y, one);
        } else if n % delay == 0 {
            assert_eq!(y, echo, "sample {}", n);
            echo = g.times(echo);
        } else {
            assert_eq!(y, zero, "sample {}", n);
        }
    }
}

#[test]
fn fixed_mix_is_the_input_when_all_is_dry() {
    let one = Fixed::ratio(1, 1);
    let zero = Fixed::ratio(0, 1);
    for bits in [0, 1, -1, 12345678901, -987654321, i64::MAX, i64::MIN] {
        for wet_bits in [0, 5, -5, i64::MAX, i64::MIN] {
            let x = Fixed { bits };
            assert_eq!(mix(x, Fixed { bits: wet_bits }, one, zero), x);
        }
    }
}

#[test]
fn fixed_dry_rack_hands_the_input_on() {
    let one = Fixed::ratio(1, 1);
    let zero = Fixed::ratio(0, 1);
    let mut rack = Rack::new(fixed(8000.0), fixed(250.0), fixed(0.2));
    for t in [ReverbType::Comb, ReverbType::Schroeder, ReverbType::LpfComb, ReverbType::Moorer] {
        assert!(rack.is_ready(t));
        for n in 0..2000i64 {
            let x = Fixed { bits: (n * 2654435761) % 8589934592 - 4294967296 };
            assert_eq!(rack.process_left(t, x, one, zero), x);
            assert_eq!(rack.process_right(t, x, one, zero), x);
        }
    }
}

#[test]
fn fixed_comb_topology_answers_an_impulse() {
    let mut reverb = Reverb::with_draws(
        fixed(44100.0),
        fixed(250.0),
        ReverbType::Comb,
        fixed(0.0),
        [4194304; 8],
    );
    assert!(reverb.is_ready());
    let mut out = Vec::new();
    for n in 0..1200 {
        let x = if n == 0 { fixed(1.0) } else { fixed(0.0) };
        out.push(reverb.process_left(x));
    }
    assert_eq!(out[0], fixed(1.0));
    for n in 1..926 {
        assert_eq!(out[n], fixed(0.0), "sample {}", n);
    }
    let first = decay_gain(fixed(21.0), fixed(250.0)).plus(fixed(1.0)).times(fixed(0.25));
    assert_eq!(out[926], first);
    assert!((float(out[926]) - 0.25 * 1.559_757_6).abs() < 1e-7);
    assert_eq!(out[927], fixed(0.0));
    assert_eq!(out[1147], decay_gain(fixed(26.0), fixed(250.0)).plus(fixed(1.0)).times(fixed(0.25)));
}

#[test]
fn fixed_reverb_is_silent_after_a_resize() {
    let mut reverb = Reverb::new(fixed(8000.0), fixed(2000.0), ReverbType::Moorer, fixed(0.5));
    for n in 0..3000i64 {
        let x = Fixed { bits: (n * 40503) % 4294967296 };
        reverb.process_left(x);
        reverb.process_right(x);
    }
    reverb.resize_buffers(fixed(16000.0));
    assert!(reverb.is_ready());
    for _ in 0..3000 {
        assert_eq!(reverb.process_left(fixed(0.0)), fixed(0.0));
        assert_eq!(reverb.process_right(fixed(0.0)), fixed(0.0));
    }
}

#[test]
fn fixed_decay_of_zero_leaves_no_feedback() {
    assert_eq!(decay_gain(fixed(21.0), fixed(0.0)), fixed(0.0));
    assert_eq!(decay_gain(fixed(0.0), fixed(0.0)), fixed(1.0));
    assert_eq!(decay_gain(fixed(0.0), fixed(250.0)), fixed(1.0));
}

#[test]
fn fixed_gain_never_amplifies() {
    for delay in [0.0f64, 0.001, 1.0, 21.0, 171.0, 1000.0, 2000000000.0] {
        for decay in [0.0f64, 0.001, 100.0, 20000.0, 2000000000.0] {
            let g = decay_gain(fixed(delay), fixed(decay));
            assert!(g.bits >= 0 && g.bits <= ONE_BITS, "delay {} decay {}", delay, decay);
        }
    }
}

#[test]
fn fixed_comb_of_two_samples_runs_as_its_recurrence_says() {
    let mut positive = CombFilter::new(fixed(1000.0), CombType::Positive, fixed(2.0), fixed(0.5), false);
    let mut negative = CombFilter::new(fixed(1000.0), CombType::Negative, fixed(2.0), fixed(0.5), false);
    let mut p = Vec::new();
    let mut q = Vec::new();
    for n in 0..5 {
        let x = if n == 0 { fixed(1.0) } else { fixed(0.0) };
        p.push(float(positive.process_left(x)));
        q.push(float(negative.process_left(x)));
    }
    assert_eq!(p, vec![1.0, 0.0, 1.5, 0.0, 0.75]);
    assert_eq!(q, vec![1.0, 0.0, -0.5, 0.0, -0.25]);
}

#[test]
fn fixed_gain_grows_with_the_decay_and_falls_with_the_delay() {
    let decays = [0.0f64, 0.5, 100.0, 250.0, 251.0, 1000.0, 20000.0, 2000000.0];
    let delays = [0.0f64, 0.01, 1.0, 20.5, 21.0, 21.5, 171.0, 5000.0];
    for delay in delays {
        for pair in decays.windows(2) {
            let less = decay_gain(fixed(delay), fixed(pair[0]));
            let more = decay_gain(fixed(delay), fixed(pair[1]));
            assert!(less.bits <= more.bits, "delay {} decays {:?}", delay, pair);
        }
    }
    for decay in decays {
        for pair in delays.windows(2) {
            let near = decay_gain(fixed(pair[0]), fixed(decay));
            let far = decay_gain(fixed(pair[1]), fixed(decay));
            assert!(far.bits <= near.bits, "decay {} delays {:?}", decay, pair);
        }
    }
    assert!(decay_gain(fixed(21.0), fixed(250.0)).bits < decay_gain(fixed(21.0), fixed(251.0)).bits);
    assert!(decay_gain(fixed(21.5), fixed(250.0)).bits < decay_gain(fixed(21.0), fixed(250.0)).bits);
}

#[test]
fn fixed_powers_of_ten_are_in_order() {
    let mut last = 0i64;
    for step in -1200..1000i64 {
        let now = Fixed { bits: step * 42949673 }.exp10().bits;
        assert!(now >= last, "step {}", step);
        last = now;
    }
}

#[test]
fn fixed_draws_count_by_their_remainder() {
    let mut wide = Reverb::with_draws(fixed(8000.0), fixed(250.0), ReverbType::Moorer, fixed(0.1), [u32::MAX; 8]);
    let mut narrow = Reverb::with_draws(
        fixed(8000.0),
        fixed(250.0),
        ReverbType::Moorer,
        fixed(0.1),
        [8388607; 8],
    );
    for n in 0..2000 {
        let x = if n == 0 { fixed(1.0) } else { fixed(0.0) };
        assert_eq!(wide.process_left(x), narrow.process_left(x), "sample {}", n);
    }
}

#[test]
fn fixed_comb_delays_lie_in_ranges_that_do_not_meet() {
    let ranges = [(21, 904, 948), (26, 1125, 1169), (31, 1345, 1389), (37, 1610, 1654)];
    for (base, low, high) in ranges {
        for draw in [0i64, 1, 4194303, 4194304, 4194305, 8388607] {
            let delay = Fixed::ratio(base, 1).plus(Fixed::ratio(draw - 4194304, 8388608));
            let samples = delay_samples(delay, fixed(44100.0));
            assert!(samples >= low && samples <= high, "base {} draw {}", base, draw);
        }
        assert_eq!(delay_samples(Fixed::ratio(base, 1).plus(fixed(-0.5)), fixed(44100.0)), low);
    }
    assert_eq!(delay_samples(fixed(21.0).plus(Fixed::ratio(4194303, 8388608)), fixed(44100.0)), 948);
}
