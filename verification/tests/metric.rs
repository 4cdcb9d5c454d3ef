use fuzzyplot::diff::{Cx, SCALE, diff, intensity, min_dist_sq, pair_dist_sq};
use fuzzyplot::frac::Frac;

fn cx(re: i64, im: i64) -> Cx {
    Cx { re, im }
}

fn unit_sharp() -> Frac {
    Frac::new(1, 1)
}

#[test]
fn equal_values_give_maximal_intensity() {
    // lhs == rhs exactly: disagreement 0, intensity 255
    let l = vec![cx(3 * SCALE, SCALE / 2)];
    let r = vec![cx(3 * SCALE, SCALE / 2)];
    assert_eq!(diff(&l, &r, false, &unit_sharp()), 255);
    assert_eq!(diff(&l, &r, true, &unit_sharp()), 255);
}

#[test]
fn large_difference_gives_zero_intensity() {
    // widely separated values with a sum bounded away from zero
    let l = vec![cx(1000 * SCALE, 0)];
    let r = vec![cx(SCALE, 0)];
    assert_eq!(diff(&l, &r, true, &unit_sharp()), 0);
    // proportional mode with a sharp factor: distance 5 -> zero
    let l2 = vec![cx(-3 * SCALE / 2, 0)];
    let r2 = vec![cx(SCALE, 0)];
    assert_eq!(diff(&l2, &r2, false, &Frac::new(100, 1)), 0);
}

#[test]
fn intensity_is_monotone_in_distance() {
    let k = unit_sharp();
    let mut last: u8 = 255;
    for d in 0..20i64 {
        let l = vec![cx(d * SCALE, 0)];
        let r = vec![cx(0, 0)];
        let v = diff(&l, &r, true, &k);
        assert!(v <= last);
        last = v;
    }
}

#[test]
fn plain_unit_distance_halves_intensity() {
    // d^2 = 1 and k^2 = 1: 255 / (1 + 1) truncated is 127
    let l = vec![cx(SCALE, 0)];
    let r = vec![cx(0, 0)];
    assert_eq!(diff(&l, &r, true, &unit_sharp()), 127);
}

#[test]
fn minimum_over_cross_product_is_taken() {
    // any agreeing combination of multi-valued results satisfies the plot
    let l = vec![cx(SCALE, 0), cx(5 * SCALE, 0)];
    let r = vec![cx(5 * SCALE, 0)];
    assert_eq!(diff(&l, &r, true, &unit_sharp()), 255);
}

#[test]
fn cancelling_sum_contributes_nothing() {
    // lhs + rhs = 0 in proportional mode: undefined distance, least intense
    let l = vec![cx(SCALE, 0)];
    let r = vec![cx(-SCALE, 0)];
    assert_eq!(diff(&l, &r, false, &unit_sharp()), 0);
    assert_eq!(pair_dist_sq(&cx(SCALE, 0), &cx(-SCALE, 0), false), None);
}

#[test]
fn empty_results_contribute_nothing() {
    let none: Vec<Cx> = vec![];
    assert_eq!(min_dist_sq(&none, &vec![cx(SCALE, 0)], false), None);
    assert_eq!(diff(&none, &vec![cx(SCALE, 0)], false, &unit_sharp()), 0);
}

#[test]
fn undefined_distance_has_zero_intensity() {
    assert_eq!(intensity(&None, &unit_sharp()), 0);
}

#[test]
fn min_dist_picks_least_pair() {
    let l = vec![cx(2 * SCALE, 0), cx(3 * SCALE, 0)];
    let r = vec![cx(0, 0), cx(5 * SCALE, 0)];
    // plain squared distances over the cross product:
    // (2,0) -> 4; (2,5) -> 9; (3,0) -> 9; (3,5) -> 4; the minimum is 4
    let m = min_dist_sq(&l, &r, true).unwrap();
    assert_eq!(m.num, (2 * SCALE as i128) * (2 * SCALE as i128));
    assert_eq!(m.den, SCALE as i128 * SCALE as i128);
}
