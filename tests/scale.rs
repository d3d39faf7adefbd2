use splotch::{BoundingDomain, Decimal, Dim, DomainError, Extent, NumericScale, Ratio, Step};

fn scale(min: i32, max: i32, target: u16) -> NumericScale {
    NumericScale::from_domain(Extent { min, max }, target).unwrap()
}

fn labels(s: &NumericScale) -> Vec<String> {
    s.ticks().into_iter().map(|t| t.text).collect()
}

fn units(s: &NumericScale) -> Vec<i64> {
    s.ticks().into_iter().map(|t| t.value.units).collect()
}

#[test]
fn step_snaps_to_twenty_for_hundred_over_five() {
    let s = scale(0, 100, 5);
    assert_eq!(s.step(), Step { mantissa: 2, exponent: 1 });
    assert_eq!(units(&s), vec![0, 20, 40, 60, 80, 100]);
    assert_eq!(labels(&s), vec!["0", "20", "40", "60", "80", "100"]);
    for t in s.ticks() {
        assert_eq!(t.value.decimals, 0);
    }
}

#[test]
fn tick_positions_are_normalized_values() {
    let s = scale(0, 100, 5);
    let pos: Vec<Ratio> = s.ticks().into_iter().map(|t| t.position).collect();
    let want: Vec<Ratio> = [0, 20, 40, 60, 80, 100].iter().map(|&n| Ratio { num: n, den: 100 }).collect();
    assert_eq!(pos, want);
    let inv: Vec<Ratio> = s.inverted().ticks().into_iter().map(|t| t.position).collect();
    let want_inv: Vec<Ratio> = [100, 80, 60, 40, 20, 0].iter().map(|&n| Ratio { num: n, den: 100 }).collect();
    assert_eq!(inv, want_inv);
}

#[test]
fn fractional_step_uses_shared_precision() {
    let s = scale(0, 1, 5);
    assert_eq!(s.step(), Step { mantissa: 2, exponent: -1 });
    assert_eq!(labels(&s), vec!["0.0", "0.2", "0.4", "0.6", "0.8", "1.0"]);
    assert_eq!(s.ticks()[3].value, Decimal { units: 6, decimals: 1 });
}

#[test]
fn negative_fractional_ticks() {
    let s = scale(-1, 0, 4);
    assert_eq!(s.step(), Step { mantissa: 5, exponent: -1 });
    assert_eq!(labels(&s), vec!["-1.0", "-0.5", "0.0"]);
    assert_eq!(units(&s), vec![-10, -5, 0]);
}

#[test]
fn negative_integer_ticks() {
    let s = scale(-7, 3, 5);
    assert_eq!(s.step(), Step { mantissa: 2, exponent: 0 });
    assert_eq!(labels(&s), vec!["-6", "-4", "-2", "0", "2"]);
}

#[test]
fn step_rounds_up_past_five_to_next_decade() {
    let s = scale(0, 60, 1);
    assert_eq!(s.step(), Step { mantissa: 1, exponent: 2 });
    assert_eq!(labels(&s), vec!["0"]);
}

#[test]
fn step_exactly_a_power_of_ten() {
    let s = scale(0, 50, 5);
    assert_eq!(s.step(), Step { mantissa: 1, exponent: 1 });
    assert_eq!(units(&s), vec![0, 10, 20, 30, 40, 50]);
}

#[test]
fn tick_count_may_fall_far_below_target() {
    let s = scale(1, 102, 5);
    assert_eq!(s.step(), Step { mantissa: 5, exponent: 1 });
    assert_eq!(labels(&s), vec!["50", "100"]);
}

#[test]
fn ticks_increase_and_stay_in_domain() {
    for &(lo, hi, t) in &[(13, 190, 10u16), (-1000, 7, 3), (0, 1, 7), (5, 6, 65535), (-2147483648, 2147483647, 10)] {
        let s = scale(lo, hi, t);
        let ticks = s.ticks();
        assert!(ticks.len() <= t as usize + 1);
        assert!(5 * (ticks.len() + 1) > 2 * t as usize);
        for w in ticks.windows(2) {
            assert!(w[0].value.units < w[1].value.units);
        }
        for tk in &ticks {
            let p = 10i128.pow(tk.value.decimals);
            assert!(lo as i128 * p <= tk.value.units as i128);
            assert!(tk.value.units as i128 <= hi as i128 * p);
        }
    }
}

#[test]
fn large_target_needs_five_decimals() {
    let s = scale(0, 1, 40000);
    assert_eq!(s.step(), Step { mantissa: 5, exponent: -5 });
    let ticks = s.ticks();
    assert_eq!(ticks.len(), 20001);
    assert_eq!(ticks[1].text, "0.00005");
    assert_eq!(ticks[20000].text, "1.00000");
}

#[test]
fn zero_span_domain_has_one_tick_and_half_normalization() {
    let s = scale(7, 7, 5);
    assert_eq!(labels(&s), vec!["7"]);
    assert_eq!(s.normalize(7), Ratio { num: 1, den: 2 });
    assert_eq!(s.normalize(-100), Ratio { num: 1, den: 2 });
    assert_eq!(s.inverted().normalize(1000), Ratio { num: 1, den: 2 });
    assert_eq!(s.ticks()[0].position, Ratio { num: 1, den: 2 });
}

#[test]
fn normalize_ends_and_order() {
    let s = scale(-20, 80, 5);
    assert_eq!(s.normalize(-20), Ratio { num: 0, den: 100 });
    assert_eq!(s.normalize(80), Ratio { num: 100, den: 100 });
    assert_eq!(s.normalize(5), Ratio { num: 25, den: 100 });
    let mut last = -1;
    for v in -20..=80 {
        let r = s.normalize(v);
        assert!(r.num >= last && r.num <= r.den);
        last = r.num;
    }
}

#[test]
fn inverted_is_one_minus_normalize() {
    let s = scale(-20, 80, 5);
    let inv = s.inverted();
    assert!(inv.inverted);
    for v in [-20, 0, 33, 80, 200] {
        let a = s.normalize(v);
        let b = inv.normalize(v);
        assert_eq!(b.den, a.den);
        assert_eq!(b.num, a.den - a.num);
    }
    assert_eq!(inv.inverted(), s);
}

#[test]
fn inverted_scale_over_point_domain() {
    let pts = vec![(13, 74), (111, 37), (125, 52), (190, 66)];
    let d = BoundingDomain::from_points(&pts).unwrap();
    assert_eq!(d.x, Extent { min: 13, max: 190 });
    let inv = NumericScale::from_data(&d, Dim::X, 10).inverted();
    assert_eq!(inv.normalize(190), Ratio { num: 0, den: 177 });
    assert_eq!(inv.normalize(13), Ratio { num: 177, den: 177 });
}

#[test]
fn invalid_domain_is_refused() {
    assert_eq!(NumericScale::from_domain(Extent { min: 5, max: 1 }, 5), Err(DomainError::InvalidDomain));
    let s = NumericScale::from_domain(Extent { min: 1, max: 5 }, 5).unwrap();
    assert_eq!(s, NumericScale { lo: 1, hi: 5, target: 5, inverted: false });
}

#[test]
fn union_of_scales_covers_both() {
    let a = scale(0, 10, 5);
    let b = scale(-5, 3, 8).inverted();
    let u = a.union(&b);
    assert_eq!(u, NumericScale { lo: -5, hi: 10, target: 5, inverted: false });
    assert_eq!(labels(&u), vec!["-5", "0", "5", "10"]);
}
