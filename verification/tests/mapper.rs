use fuzzyplot::frac::Frac;
use fuzzyplot::geom::{Point, Rect};

fn frac(num: i64, den: i64) -> Frac {
    Frac::new(num, den)
}

fn rect(x: i64, y: i64, w: i64, h: i64) -> Rect {
    Rect { x: Frac::from_int(x), y: Frac::from_int(y), w: Frac::from_int(w), h: Frac::from_int(h) }
}

#[test]
fn map_point_center_of_default_view() {
    // the 800x800 image mapped onto the graph square from (-2,-2) to (2,2)
    let img = rect(0, 0, 800, 800);
    let graph = rect(-2, -2, 4, 4);
    let p = Point { x: frac(400, 1), y: frac(400, 1) };
    let r = img.map_point(&p, &graph);
    assert!(r.x.eq_value(&frac(0, 1)));
    assert!(r.y.eq_value(&frac(0, 1)));
}

#[test]
fn map_point_exact_fraction() {
    let img = rect(0, 0, 800, 800);
    let graph = rect(-2, -2, 4, 4);
    // one pixel row below the center: 399/800 * 4 - 2 = -1/200
    let p = Point { x: frac(0, 1), y: frac(399, 1) };
    let r = img.map_point(&p, &graph);
    assert!(r.x.eq_value(&frac(-2, 1)));
    assert!(r.y.eq_value(&frac(-1, 200)));
}

#[test]
fn map_point_round_trip_returns_original() {
    // map from the target rectangle back into the source and forward
    // again: the round trip is exact for non-degenerate rectangles
    let a = rect(3, -7, 5, 11);
    let b = rect(-2, 4, 9, 13);
    let p = Point { x: frac(17, 3), y: frac(-5, 7) };
    let back = b.map_point(&p, &a);
    let again = a.map_point(&back, &b);
    assert!(again.x.eq_value(&p.x));
    assert!(again.y.eq_value(&p.y));
}

#[test]
fn map_point_round_trip_fractional_rects() {
    let a = Rect { x: frac(1, 2), y: frac(-1, 3), w: frac(7, 5), h: frac(2, 9) };
    let b = Rect { x: frac(-3, 4), y: frac(5, 6), w: frac(11, 2), h: frac(1, 8) };
    let p = Point { x: frac(23, 16), y: frac(-9, 11) };
    let back = b.map_point(&p, &a);
    let again = a.map_point(&back, &b);
    assert!(again.x.eq_value(&p.x));
    assert!(again.y.eq_value(&p.y));
}

#[test]
fn frac_arithmetic_is_exact() {
    let a = frac(1, 3);
    let b = frac(1, 6);
    assert!(a.add(&b).eq_value(&frac(1, 2)));
    assert!(a.sub(&b).eq_value(&frac(1, 6)));
    assert!(a.mul(&b).eq_value(&frac(1, 18)));
    assert!(a.div(&b).eq_value(&frac(2, 1)));
    assert!(b.le_value(&a));
    assert!(!a.le_value(&b));
}
