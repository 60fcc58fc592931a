use reverb::allpass::DelayingAllPass;
use reverb::comb::CombFilter;
use reverb::comb::CombType;
use reverb::delay::delay_samples;
use reverb::delay::Delay;
use reverb::history::History;
use reverb::sample::clamp;
use reverb::sample::Sample;

/// Single-precision samples, with the arithmetic of the machine.
#[derive(Clone, Copy, Debug, PartialEq)]
struct F(f32);

impl Sample for F {
    fn ratio_spec(num: i64, den: i64) -> Self {
        F(num as f32 / den as f32)
    }
    fn plus_spec(self, rhs: Self) -> Self {
        F(self.0 + rhs.0)
    }
    fn minus_spec(self, rhs: Self) -> Self {
        F(self.0 - rhs.0)
    }
    fn times_spec(self, rhs: Self) -> Self {
        F(self.0 * rhs.0)
    }
    fn over_spec(self, rhs: Self) -> Self {
        F(self.0 / rhs.0)
    }
    fn exp10_spec(self) -> Self {
        F(10f32.powf(self.0))
    }
    fn round_spec(self) -> Self {
        F(self.0.round())
    }
    fn truncate_spec(self) -> usize {
        self.0 as usize
    }
    fn lt_spec(self, rhs: Self) -> bool {
        self.0 < rhs.0
    }
    fn ratio(num: i64, den: i64) -> Self {
        Self::ratio_spec(num, den)
    }
    fn plus(self, rhs: Self) -> Self {
        self.plus_spec(rhs)
    }
    fn minus(self, rhs: Self) -> Self {
        self.minus_spec(rhs)
    }
    fn times(self, rhs: Self) -> Self {
        self.times_spec(rhs)
    }
    fn over(self, rhs: Self) -> Self {
        self.over_spec(rhs)
    }
    fn exp10(self) -> Self {
        self.exp10_spec()
    }
    fn round(self) -> Self {
        self.round_spec()
    }
    fn truncate(self) -> usize {
        self.truncate_spec()
    }
    fn lt(self, rhs: Self) -> bool {
        self.lt_spec(rhs)
    }
}

fn impulse(n: usize) -> F {
    if n == 0 {
        F(1.0)
    } else {
        F(0.0)
    }
}

#[test]
fn history_keeps_the_newest_first() {
    let mut h = History::new(3, 0u8);
    assert_eq!(h.len(), 3);
    h.push(1);
    h.push(2);
    assert_eq!((h.at(0), h.at(1), h.at(2)), (2, 1, 0));
    h.push(3);
    h.push(4);
    assert_eq!((h.at(0), h.at(1), h.at(2)), (4, 3, 2));
}

#[test]
fn history_of_no_entries_takes_pushes() {
    let mut h = History::new(0, 7u8);
    h.push(1);
    assert_eq!(h.len(), 0);
}

#[test]
fn history_starts_with_its_fill() {
    let h = History::new(4, 9u8);
    for k in 0..4 {
        assert_eq!(h.at(k), 9);
    }
}

#[test]
fn delay_hands_back_the_sample_of_that_many_samples_ago() {
    let mut d = Delay::new(4, 2, F(0.0));
    let mut out = Vec::new();
    for n in 1..=6 {
        out.push(d.process_sample(F(n as f32), 2).0);
    }
    assert_eq!(out, vec![0.0, 0.0, 1.0, 2.0, 3.0, 4.0]);
}

#[test]
fn delay_of_zero_samples_is_the_input() {
    let mut d = Delay::new(4, 0, F(0.5));
    assert_eq!(d.process_sample(F(3.0), 0), F(3.0));
    assert_eq!(d.process_sample(F(4.0), 0), F(4.0));
}

#[test]
fn delay_reaches_back_as_far_as_its_capacity() {
    let mut d = Delay::new(3, 3, F(0.0));
    let mut out = Vec::new();
    for n in 1..=5 {
        out.push(d.process_sample(F(n as f32), 3).0);
    }
    assert_eq!(out, vec![0.0, 0.0, 0.0, 1.0, 2.0]);
}

#[test]
fn delay_length_may_change_from_sample_to_sample() {
    let mut d = Delay::new(4, 1, F(0.0));
    assert_eq!(d.process_sample(F(1.0), 1).0, 0.0);
    assert_eq!(d.process_sample(F(2.0), 1).0, 1.0);
    assert_eq!(d.process_sample(F(3.0), 2).0, 1.0);
    assert_eq!(d.process_sample(F(4.0), 3).0, 1.0);
    assert_eq!(d.process_sample(F(5.0), 1).0, 4.0);
}

#[test]
fn delay_starts_with_its_fill_value() {
    let mut d = Delay::new(2, 2, F(0.25));
    assert_eq!(d.process_sample(F(1.0), 2).0, 0.25);
    assert_eq!(d.process_sample(F(1.0), 2).0, 0.25);
    assert_eq!(d.process_sample(F(1.0), 2).0, 1.0);
}

#[test]
fn delay_taps_what_was_written() {
    let mut d = Delay::new(3, 1, F(0.0));
    d.process_sample(F(1.0), 1);
    d.process_sample(F(2.0), 1);
    assert_eq!(d.tap(1).0, 2.0);
    assert_eq!(d.tap(2).0, 1.0);
    assert_eq!(d.tap(3).0, 0.0);
}

#[test]
fn delay_is_silent_after_a_resize() {
    let mut d = Delay::new(2, 1, F(0.0));
    d.process_sample(F(1.0), 1);
    d.process_sample(F(2.0), 1);
    d.resize_buffers(5);
    assert_eq!(d.capacity(), 5);
    assert_eq!(d.delay(), 1);
    for k in 1..=5 {
        assert_eq!(d.tap(k).0, 0.0);
    }
}

#[test]
fn delay_keeps_a_nominal_length() {
    let mut d = Delay::new(8, 3, F(0.0));
    assert_eq!(d.delay(), 3);
    d.set_delay(5);
    assert_eq!(d.delay(), 5);
    assert_eq!(d.capacity(), 8);
}

#[test]
fn delay_in_samples_is_rounded_to_the_nearest() {
    assert_eq!(delay_samples(F(21.0), F(44100.0)), 926);
    assert_eq!(delay_samples(F(26.0), F(44100.0)), 1147);
    assert_eq!(delay_samples(F(10.0), F(1000.0)), 10);
    assert_eq!(delay_samples(F(1.5), F(1000.0)), 2);
    assert_eq!(delay_samples(F(-4.0), F(1000.0)), 0);
}

#[test]
fn clamp_holds_a_value_between_its_bounds() {
    assert_eq!(clamp(F(0.5), F(0.0), F(0.9999)), F(0.5));
    assert_eq!(clamp(F(-1.0), F(0.0), F(0.9999)), F(0.0));
    assert_eq!(clamp(F(1.0), F(0.0), F(0.9999)), F(0.9999));
    assert_eq!(clamp(F(0.9999), F(0.0), F(0.9999)), F(0.9999));
}

#[test]
fn comb_type_has_two_places() {
    assert_eq!(CombType::Positive.to_index(), 0);
    assert_eq!(CombType::Negative.to_index(), 1);
    assert_eq!(CombType::from_index(0), CombType::Positive);
    assert_eq!(CombType::from_index(1), CombType::Negative);
    assert_eq!(CombType::variants(), &["Positive", "Negative"]);
    assert_eq!(CombType::ids(), Some(&["Positive", "Negative"][..]));
}

#[test]
fn comb_is_made_quiet_with_one_second_of_memory() {
    let comb = CombFilter::new(F(1000.0), CombType::Positive, F(10.0), F(0.5), false);
    assert!(comb.is_ready());
    assert_eq!(comb.get_delay_ms(), F(10.0));
    let short = CombFilter::new(F(11.0), CombType::Positive, F(1000.0), F(0.5), false);
    assert!(!short.is_ready());
    let just = CombFilter::new(F(12.0), CombType::Positive, F(1000.0), F(0.5), false);
    assert!(!just.is_ready());
    let enough = CombFilter::new(F(12.0), CombType::Positive, F(833.0), F(0.5), false);
    assert!(enough.is_ready());
}

#[test]
fn comb_echoes_an_impulse() {
    let mut comb = CombFilter::new(F(1000.0), CombType::Positive, F(10.0), F(0.5), false);
    assert!(comb.is_ready());
    for n in 0..60 {
        let y = comb.process_left(impulse(n)).0;
        let expected = match n {
            0 => 1.0,
            10 => 1.5,
            20 => 0.75,
            30 => 0.375,
            40 => 0.1875,
            50 => 0.09375,
            _ => 0.0,
        };
        assert_eq!(y, expected, "sample {}", n);
    }
}

#[test]
fn comb_echoes_scale_by_the_gain_each_period() {
    let g = 0.7f32;
    let mut comb = CombFilter::new(F(8000.0), CombType::Positive, F(5.0), F(g), false);
    assert!(comb.is_ready());
    let delay = 40;
    // the first echo holds the impulse fed back and the delayed impulse
    let mut expected = g + 1.0;
    for n in 0..(delay * 12) {
        let y = comb.process_right(impulse(n)).0;
        if n == 0 {
            assert_eq!(y, 1.0);
        } else if n % delay == 0 {
            assert!((y - expected).abs() <= 1e-6, "sample {}: {} against {}", n, y, expected);
            expected *= g;
        } else {
            assert_eq!(y, 0.0, "sample {}", n);
        }
    }
}

#[test]
fn comb_type_turns_only_the_delayed_input() {
    let mut positive = CombFilter::new(F(1000.0), CombType::Positive, F(4.0), F(0.5), false);
    let mut negative = CombFilter::new(F(1000.0), CombType::Negative, F(4.0), F(0.5), false);
    for n in 0..30 {
        // a second impulse while the first still rings
        let x = if n == 0 || n == 7 { F(1.0) } else { F(0.0) };
        let p = positive.process_left(x).0;
        let q = negative.process_left(x).0;
        // feedback 0.5 and the delayed impulse, +1 or -1, make the first echo
        let (expected_p, expected_q) = match n {
            0 | 7 => (1.0, 1.0),
            4 | 11 => (1.5, -0.5),
            8 | 15 => (0.75, -0.25),
            12 | 19 => (0.375, -0.125),
            16 | 23 => (0.1875, -0.0625),
            20 | 27 => (0.09375, -0.03125),
            24 => (0.046875, -0.015625),
            28 => (0.0234375, -0.0078125),
            _ => (0.0, 0.0),
        };
        assert_eq!((p, q), (expected_p, expected_q), "sample {}", n);
    }
}

#[test]
fn comb_sets_its_type_with_its_parameters() {
    let mut comb = CombFilter::new(F(1000.0), CombType::Positive, F(4.0), F(0.5), false);
    comb.set_params(F(0.25), false, F(0.0), CombType::Negative);
    let mut out = Vec::new();
    for n in 0..11 {
        out.push(comb.process_left(impulse(n)).0);
    }
    assert_eq!(out, vec![1.0, 0.0, 0.0, 0.0, -0.75, 0.0, 0.0, 0.0, -0.1875, 0.0, 0.0]);
}

#[test]
fn comb_damping_feeds_back_the_output_before_last() {
    let mut comb = CombFilter::new(F(1000.0), CombType::Positive, F(3.0), F(0.5), true);
    comb.set_damp(F(0.25));
    let mut out = Vec::new();
    for n in 0..8 {
        out.push(comb.process_left(impulse(n)).0);
    }
    // y[n] = x[n] + 0.5 y[n-3] + x[n-3] - 0.25 x[n-4] + 0.25 y[n-1]
    let mut expected = Vec::new();
    for n in 0..8usize {
        let x = |k: isize| if k == 0 { 1.0f32 } else { 0.0 };
        let y = |k: isize, past: &Vec<f32>| if k < 0 { 0.0f32 } else { past[k as usize] };
        let i = n as isize;
        let mut v = x(i) + 0.5 * y(i - 3, &expected);
        v += x(i - 3);
        v -= 0.25 * x(i - 4);
        v += 0.25 * y(i - 1, &expected);
        expected.push(v);
    }
    assert_eq!(out, expected);
    assert_eq!(out[0], 1.0);
    assert_eq!(out[1], 0.25);
    assert_eq!(out[2], 0.0625);
    assert_eq!(out[3], 1.515625);
    assert_eq!(out[4], 0.25390625);
}

#[test]
fn comb_without_damping_leaves_the_input_history_alone() {
    let mut plain = CombFilter::new(F(1000.0), CombType::Positive, F(3.0), F(0.5), false);
    for n in 0..20 {
        plain.process_left(impulse(n));
    }
    // the low-pass is switched on late: no input has been recorded for it
    plain.set_params(F(0.5), true, F(0.25), CombType::Positive);
    let mut fresh = CombFilter::new(F(1000.0), CombType::Positive, F(3.0), F(0.5), true);
    fresh.set_damp(F(0.25));
    let a = plain.process_right(F(1.0));
    let b = fresh.process_right(F(1.0));
    assert_eq!(a, b);
}

#[test]
fn comb_channels_do_not_hear_each_other() {
    let mut comb = CombFilter::new(F(1000.0), CombType::Positive, F(2.0), F(0.5), false);
    comb.process_left(F(1.0));
    comb.process_left(F(0.0));
    assert_eq!(comb.process_right(F(0.0)).0, 0.0);
    assert_eq!(comb.process_right(F(0.0)).0, 0.0);
    assert_eq!(comb.process_right(F(0.0)).0, 0.0);
    assert_eq!(comb.process_left(F(0.0)).0, 1.5);
}

#[test]
fn comb_is_silent_after_a_resize() {
    let mut comb = CombFilter::new(F(1000.0), CombType::Positive, F(5.0), F(0.9), true);
    comb.set_damp(F(0.3));
    for n in 0..50 {
        comb.process_left(F(n as f32));
        comb.process_right(F(-(n as f32)));
    }
    comb.resize_buffers(F(2000.0));
    assert!(comb.is_ready());
    for _ in 0..100 {
        assert_eq!(comb.process_left(F(0.0)).0, 0.0);
        assert_eq!(comb.process_right(F(0.0)).0, 0.0);
    }
}

#[test]
fn comb_keeps_its_delay_in_samples_through_a_resize() {
    let mut comb = CombFilter::new(F(1000.0), CombType::Positive, F(5.0), F(0.5), false);
    comb.resize_buffers(F(2000.0));
    assert_eq!(comb.get_delay_ms(), F(5.0));
    let mut out = Vec::new();
    for n in 0..7 {
        out.push(comb.process_left(impulse(n)).0);
    }
    assert_eq!(out, vec![1.0, 0.0, 0.0, 0.0, 0.0, 1.5, 0.0]);
}

#[test]
fn comb_is_not_ready_when_resized_below_its_delay() {
    let mut comb = CombFilter::new(F(1000.0), CombType::Positive, F(5.0), F(0.5), false);
    comb.resize_buffers(F(6.0));
    assert!(!comb.is_ready());
    comb.resize_buffers(F(7.0));
    assert!(comb.is_ready());
}

#[test]
fn allpass_answers_an_impulse_with_a_decaying_train() {
    let mut ap = DelayingAllPass::new(F(1000.0), F(3.0), F(0.5));
    assert!(ap.is_ready());
    let mut out = Vec::new();
    for n in 0..10 {
        out.push(ap.process_left(impulse(n)).0);
    }
    assert_eq!(out, vec![-0.5, 0.0, 0.0, 0.75, 0.0, 0.0, 0.375, 0.0, 0.0, 0.1875]);
}

#[test]
fn allpass_keeps_the_energy_of_an_impulse() {
    let mut ap = DelayingAllPass::new(F(44100.0), F(3.0), F(0.707));
    let mut energy = 0.0f64;
    for n in 0..20000 {
        let y = ap.process_right(impulse(n)).0 as f64;
        energy += y * y;
    }
    assert!((energy - 1.0).abs() < 1e-4, "energy {}", energy);
}

#[test]
fn allpass_needs_a_delay_of_one_sample_at_least() {
    let ap = DelayingAllPass::new(F(100.0), F(1.0), F(0.707));
    assert!(!ap.is_ready());
    let ap = DelayingAllPass::new(F(1000.0), F(1.0), F(0.707));
    assert!(ap.is_ready());
    let ap = DelayingAllPass::new(F(1000.0), F(1001.0), F(0.707));
    assert!(!ap.is_ready());
}

#[test]
fn allpass_is_silent_after_a_resize() {
    let mut ap = DelayingAllPass::new(F(1000.0), F(3.0), F(0.5));
    for n in 0..20 {
        ap.process_left(F(n as f32));
        ap.process_right(F(1.0));
    }
    ap.resize_buffers(F(500.0));
    assert!(ap.is_ready());
    for _ in 0..20 {
        assert_eq!(ap.process_left(F(0.0)).0, 0.0);
        assert_eq!(ap.process_right(F(0.0)).0, 0.0);
    }
}

#[test]
fn a_cloned_filter_remembers_what_the_first_does() {
    let mut comb = CombFilter::new(F(1000.0), CombType::Negative, F(7.0), F(0.6), true);
    comb.set_damp(F(0.2));
    let mut ap = DelayingAllPass::new(F(1000.0), F(3.0), F(0.707));
    for n in 0..100 {
        comb.process_left(F(n as f32));
        ap.process_right(F(n as f32));
    }
    let mut comb2 = comb.clone();
    let mut ap2 = ap.clone();
    for _ in 0..100 {
        assert_eq!(comb.process_left(F(0.0)), comb2.process_left(F(0.0)));
        assert_eq!(ap.process_right(F(0.0)), ap2.process_right(F(0.0)));
    }
    let mut h = History::new(3, 0u8);
    h.push(4);
    let k = h.clone();
    h.push(5);
    assert_eq!((k.at(0), k.at(1), h.at(0), h.at(1)), (4, 0, 5, 4));
    let mut d = Delay::new(3, 1, F(0.0));
    d.process_sample(F(1.0), 1);
    let e = d.clone();
    assert_eq!(e.tap(1), F(1.0));
    assert_eq!(e.delay(), 1);
}

#[test]
fn comb_of_two_samples_runs_as_its_recurrence_says() {
    let mut positive = CombFilter::new(F(1000.0), CombType::Positive, F(2.0), F(0.5), false);
    let mut negative = CombFilter::new(F(1000.0), CombType::Negative, F(2.0), F(0.5), false);
    let mut p = Vec::new();
    let mut q = Vec::new();
    for n in 0..5 {
        p.push(positive.process_left(impulse(n)).0);
        q.push(negative.process_left(impulse(n)).0);
    }
    assert_eq!(p, vec![1.0, 0.0, 1.5, 0.0, 0.75]);
    assert_eq!(q, vec![1.0, 0.0, -0.5, 0.0, -0.25]);
    // the mean of the two is the feedback alone: the gain to the power of the echo
    for n in 0..5 {
        let mean = (p[n] + q[n]) / 2.0;
        let alone = if n % 2 == 0 { 0.5f32.powi(n as i32 / 2) } else { 0.0 };
        assert_eq!(mean, alone, "sample {}", n);
    }
}

#[test]
fn comb_of_no_delay_feeds_back_the_last_output() {
    let mut comb = CombFilter::new(F(1000.0), CombType::Positive, F(0.0), F(0.5), false);
    assert!(comb.is_ready());
    let mut out = Vec::new();
    for n in 0..4 {
        out.push(comb.process_left(impulse(n)).0);
    }
    // y[n] = x[n] + 0.5 y[n-1] + x[n]
    assert_eq!(out, vec![2.0, 1.0, 0.5, 0.25]);
}
