use fuzzyplot::color::{Rgb, apply_intensity, composite_pixel, plot_color};

#[test]
fn saturating_subtraction_never_underflows() {
    // mask 0 darkens all channels; repeated heavy darkening stays at zero
    let c = Rgb { r: 10, g: 200, b: 0 };
    let d = apply_intensity(c, 0, 250);
    assert_eq!(d, Rgb { r: 0, g: 0, b: 0 });
    let e = apply_intensity(d, 0, 255);
    assert_eq!(e, Rgb { r: 0, g: 0, b: 0 });
}

#[test]
fn mask_protects_channels() {
    // mask 6 (bits for green and blue) darkens only the red channel
    let c = Rgb { r: 100, g: 150, b: 200 };
    let d = apply_intensity(c, 6, 80);
    assert_eq!(d, Rgb { r: 20, g: 150, b: 200 });
    // a plot that touches only red never alters green or blue, however strong
    let e = apply_intensity(c, 6, 255);
    assert_eq!(e, Rgb { r: 0, g: 150, b: 200 });
}

#[test]
fn single_equation_mask_draws_red() {
    // one equation: mask 1 protects red, darkens green and blue
    assert_eq!(plot_color(1, 0), 1);
    let c = apply_intensity(Rgb::white(), 1, 255);
    assert_eq!(c, Rgb { r: 255, g: 0, b: 0 });
}

#[test]
fn multiple_equation_masks_complement_their_index() {
    assert_eq!(plot_color(2, 0), 6);
    assert_eq!(plot_color(2, 1), 5);
    assert_eq!(plot_color(3, 0), 6);
    assert_eq!(plot_color(3, 1), 5);
    assert_eq!(plot_color(3, 2), 3);
}

#[test]
fn plots_compose_in_any_order() {
    let a = (6u8, 120u8);
    let b = (5u8, 200u8);
    let one = composite_pixel(30, &vec![a, b]);
    let other = composite_pixel(30, &vec![b, a]);
    assert_eq!(one, other);
}

#[test]
fn composite_applies_axis_to_all_channels() {
    let c = composite_pixel(55, &vec![]);
    assert_eq!(c, Rgb { r: 200, g: 200, b: 200 });
}
