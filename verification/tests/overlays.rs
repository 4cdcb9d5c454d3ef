use fuzzyplot::diff::SCALE;
use fuzzyplot::overlay::{AXIS_INTENSITY, FxPoint, GRID_INTENSITY, axis_diff, grid_diff};

const PIX_R: i64 = 2621;  // one pixel radius of the default 800x800 view

#[test]
fn axis_shows_near_the_axes_only() {
    let on_y_axis = FxPoint { x: 0, y: 3 * SCALE / 2 };
    let on_x_axis = FxPoint { x: -SCALE, y: PIX_R - 1 };
    let off = FxPoint { x: SCALE, y: SCALE };
    assert_eq!(axis_diff(&on_y_axis, PIX_R), AXIS_INTENSITY);
    assert_eq!(axis_diff(&on_x_axis, PIX_R), AXIS_INTENSITY);
    assert_eq!(axis_diff(&off, PIX_R), 0);
}

#[test]
fn zero_grid_size_disables_the_grid_everywhere() {
    // with spacing zero the grid contributes nothing at any point,
    // while the axis contribution at the same points is unaffected
    let points = [
        FxPoint { x: 0, y: 0 },
        FxPoint { x: SCALE, y: -SCALE },
        FxPoint { x: 7 * SCALE / 2, y: 123456 },
    ];
    for p in points.iter() {
        assert_eq!(grid_diff(p, PIX_R, 0), 0);
        let with_grid_on = axis_diff(p, PIX_R);
        // axis_diff does not consult the grid spacing at all
        assert_eq!(axis_diff(p, PIX_R), with_grid_on);
    }
    assert_eq!(axis_diff(&points[0], PIX_R), AXIS_INTENSITY);
}

#[test]
fn grid_shows_near_unit_lines() {
    // spacing 1: a point at x = 1 sits on a grid line
    let on_line = FxPoint { x: SCALE, y: SCALE / 2 };
    assert_eq!(grid_diff(&on_line, PIX_R, SCALE), GRID_INTENSITY);
    // halfway between lines there is nothing
    let between = FxPoint { x: SCALE / 2, y: SCALE / 2 };
    assert_eq!(grid_diff(&between, PIX_R, SCALE), 0);
}

#[test]
fn grid_is_fainter_than_axes() {
    assert!(GRID_INTENSITY < AXIS_INTENSITY);
}
