use fuzzyplot::frac::Frac;
use fuzzyplot::params::{ParamError, Params};
use fuzzyplot::plots::{PlotError, make_plots, split_equation};

fn radius() -> Frac {
    Frac::new(2, 1)
}

fn unit() -> Frac {
    Frac::new(1, 1)
}

fn new_params(size: Vec<u32>, t_range: Vec<i32>) -> Result<Params, ParamError> {
    Params::from_args(&size, &t_range, radius(), unit(), unit(), false, true)
}

#[test]
fn zero_dimension_is_an_argument_error() {
    // --size 0 800: rejected before any rendering work
    let r = new_params(vec![0, 800], vec![]);
    assert_eq!(r.unwrap_err(), ParamError::SizeOutOfRange);
}

#[test]
fn malformed_size_vector_is_rejected() {
    let r = new_params(vec![800], vec![]);
    assert_eq!(r.unwrap_err(), ParamError::BadSizeVec);
}

#[test]
fn empty_theta_range_is_rejected() {
    let r = new_params(vec![], vec![1, -1]);
    assert_eq!(r.unwrap_err(), ParamError::EmptyRange);
}

#[test]
fn defaults_are_applied() {
    let p = new_params(vec![], vec![]).unwrap();
    assert_eq!(p.size, (800, 800));
    assert_eq!(p.t_range, (0, 1));
    // one pixel radius: 2 / 800 in fixed point, truncated
    assert_eq!(p.pix_r_fx, 2621);
    assert!(p.draw_axes);
}

#[test]
fn degenerate_radius_is_rejected() {
    let r = Params::from_args(&vec![], &vec![], Frac::new(0, 1), unit(), unit(), false, true);
    assert_eq!(r.unwrap_err(), ParamError::BadRadius);
}

#[test]
fn double_equals_is_a_parse_error() {
    // "x==y" holds two '=' signs: not a well-formed equation
    assert!(split_equation("x==y").is_err());
    let r = make_plots(&vec![String::from("x==y")]);
    assert_eq!(r.unwrap_err(), PlotError::NotOneEquals);
}

#[test]
fn missing_equals_is_a_parse_error() {
    assert!(split_equation("x+y").is_err());
}

#[test]
fn split_returns_both_sides() {
    let (lhs, rhs) = split_equation("y=x+1").unwrap();
    assert_eq!(lhs, "y");
    assert_eq!(rhs, "x+1");
}

#[test]
fn too_many_equations_are_rejected() {
    let eqs: Vec<String> =
        ["y=x", "y=-x", "y=2*x", "y=3*x"].iter().map(|s| String::from(*s)).collect();
    assert_eq!(make_plots(&eqs).unwrap_err(), PlotError::TooManyEquations);
}

#[test]
fn no_equations_are_rejected() {
    assert_eq!(make_plots(&vec![]).unwrap_err(), PlotError::NoEquations);
}

#[test]
fn plots_carry_sides_and_masks() {
    let eqs: Vec<String> = ["y=x", "r=t"].iter().map(|s| String::from(*s)).collect();
    let plots = make_plots(&eqs).unwrap();
    assert_eq!(plots.len(), 2);
    assert_eq!(plots[0].lhs_src, "y");
    assert_eq!(plots[0].rhs_src, "x");
    assert_eq!(plots[0].color, 6);
    assert_eq!(plots[1].lhs_src, "r");
    assert_eq!(plots[1].rhs_src, "t");
    assert_eq!(plots[1].color, 5);
}

#[test]
fn malformed_theta_vector_is_rejected() {
    let r = new_params(vec![], vec![3]);
    assert_eq!(r.unwrap_err(), ParamError::BadRangeVec);
}

#[test]
fn negative_grid_size_is_rejected() {
    let r = Params::from_args(&vec![], &vec![], radius(), Frac { num: -1, den: 1 }, unit(), false, true);
    assert_eq!(r.unwrap_err(), ParamError::BadGridSize);
}

#[test]
fn zero_sharpness_is_rejected() {
    let r = Params::from_args(&vec![], &vec![], radius(), unit(), Frac::new(0, 1), false, true);
    assert_eq!(r.unwrap_err(), ParamError::BadSharpness);
}
