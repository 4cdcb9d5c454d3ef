use fuzzyplot::color::Rgb;
use fuzzyplot::diff::Cx;
use fuzzyplot::frac::Frac;
use fuzzyplot::overlay::FxPoint;
use fuzzyplot::params::Params;
use fuzzyplot::render::{
    BranchEval, PlotEval, graph_point_fx, pixel_coords, pixel_index, render_pixel, worker_of,
};

/// The default view: 800x800, zoom -1 (radius 2), grid 1, with a crisp
/// sharpness so lines are thin.
fn default_params(draw_axes: bool, plain_diff: bool) -> Params {
    Params::from_args(
        &vec![],
        &vec![],
        Frac::new(2, 1),
        Frac::new(1, 1),
        Frac::new(100, 1),
        plain_diff,
        draw_axes,
    )
    .unwrap()
}

/// The evaluation of `y = x` at a pixel's graph point: left side `y`,
/// right side `x`, single-valued, one branch.
fn eval_y_eq_x(p: &FxPoint) -> PlotEval {
    PlotEval {
        branches: vec![BranchEval {
            lhs: vec![Cx { re: p.y, im: 0 }],
            rhs: vec![Cx { re: p.x, im: 0 }],
        }],
    }
}

/// The evaluation of `y = -x` at a pixel's graph point.
fn eval_y_eq_neg_x(p: &FxPoint) -> PlotEval {
    PlotEval {
        branches: vec![BranchEval {
            lhs: vec![Cx { re: p.y, im: 0 }],
            rhs: vec![Cx { re: -p.x, im: 0 }],
        }],
    }
}

#[test]
fn diagonal_pixel_is_red() {
    // pixel (500, 299) sits exactly on y = x at graph point (0.5, 0.5);
    // the single-equation mask keeps red and darkens green and blue
    let params = default_params(true, false);
    let p = graph_point_fx(&params, 500, 299);
    assert_eq!((p.x, p.y), (524288, 524288));
    let plots = vec![(1u8, eval_y_eq_x(&p))];
    let c = render_pixel(&params, &plots, 500, 299);
    assert_eq!(c, Rgb { r: 255, g: 0, b: 0 });
}

#[test]
fn background_pixel_is_white() {
    // graph point (1.5, -0.5): far from the line, the axes and the grid
    let params = default_params(true, false);
    let p = graph_point_fx(&params, 700, 499);
    let plots = vec![(1u8, eval_y_eq_x(&p))];
    let c = render_pixel(&params, &plots, 700, 499);
    assert_eq!(c, Rgb { r: 255, g: 255, b: 255 });
}

#[test]
fn vertical_axis_pixel_is_black() {
    // graph point (0, -1.5): on the vertical axis, off the line
    let params = default_params(true, false);
    let p = graph_point_fx(&params, 400, 699);
    let plots = vec![(1u8, eval_y_eq_x(&p))];
    let c = render_pixel(&params, &plots, 400, 699);
    assert_eq!(c, Rgb { r: 0, g: 0, b: 0 });
}

#[test]
fn grid_line_pixel_is_grey() {
    // graph point (1.5, -1): on the horizontal grid line y = -1
    let params = default_params(true, false);
    let p = graph_point_fx(&params, 700, 599);
    let plots = vec![(1u8, eval_y_eq_x(&p))];
    let c = render_pixel(&params, &plots, 700, 599);
    assert_eq!(c, Rgb { r: 153, g: 153, b: 153 });
}

#[test]
fn axisless_grid_pixel_is_white() {
    // the same grid-line pixel with axes disabled gets no overlay
    let params = default_params(false, false);
    let p = graph_point_fx(&params, 700, 599);
    let plots = vec![(1u8, eval_y_eq_x(&p))];
    let c = render_pixel(&params, &plots, 700, 599);
    assert_eq!(c, Rgb { r: 255, g: 255, b: 255 });
}

#[test]
fn two_equations_draw_in_their_own_colors() {
    let params = default_params(true, false);
    // on y = x at (0.5, 0.5): the first mask (6) darkens red -> cyan
    let p1 = graph_point_fx(&params, 500, 299);
    let plots1 = vec![(6u8, eval_y_eq_x(&p1)), (5u8, eval_y_eq_neg_x(&p1))];
    assert_eq!(render_pixel(&params, &plots1, 500, 299), Rgb { r: 0, g: 255, b: 255 });
    // on y = -x at (0.5, -0.5): the second mask (5) darkens green -> magenta
    let p2 = graph_point_fx(&params, 500, 499);
    let plots2 = vec![(6u8, eval_y_eq_x(&p2)), (5u8, eval_y_eq_neg_x(&p2))];
    assert_eq!(render_pixel(&params, &plots2, 500, 499), Rgb { r: 255, g: 0, b: 255 });
}

#[test]
fn overlapping_equations_darken_more_than_either_alone() {
    // near the crossing at the center, in plain mode without axes, both
    // plots contribute; their masks darken different channels, so the
    // overlap is darker than a single plot leaves the pixel
    let params = default_params(false, true);
    let p = graph_point_fx(&params, 400, 400);
    assert_eq!((p.x, p.y), (0, -5243));
    let both = vec![(6u8, eval_y_eq_x(&p)), (5u8, eval_y_eq_neg_x(&p))];
    let combined = render_pixel(&params, &both, 400, 400);
    let single = vec![(6u8, eval_y_eq_x(&p))];
    let alone = render_pixel(&params, &single, 400, 400);
    assert_eq!(alone, Rgb { r: 1, g: 255, b: 255 });
    assert_eq!(combined, Rgb { r: 1, g: 1, b: 255 });
    assert!(combined.g < alone.g);
}

#[test]
fn pixel_indexing_round_trips() {
    let idx = pixel_index(13, 27, 800);
    assert_eq!(idx, 27 * 800 + 13);
    assert_eq!(pixel_coords(idx, 800), (13, 27));
    assert_eq!(pixel_coords(0, 800), (0, 0));
    assert_eq!(pixel_coords(799, 800), (799, 0));
    assert_eq!(pixel_coords(800, 800), (0, 1));
}

#[test]
fn workers_split_the_index_range() {
    assert_eq!(worker_of(0, 50), 0);
    assert_eq!(worker_of(49, 50), 49);
    assert_eq!(worker_of(50, 50), 0);
    assert_eq!(worker_of(123, 50), 23);
}
