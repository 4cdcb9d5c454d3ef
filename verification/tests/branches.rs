use fuzzyplot::branch::{Branch, make_contexts};
use fuzzyplot::frac::Frac;
use fuzzyplot::params::Params;

#[test]
fn default_range_yields_two_contexts() {
    // normalized default range (0, 1): one turn index, two radius signs
    let contexts = make_contexts(0, 1, true);
    assert_eq!(contexts.len(), 2);
    assert_eq!(contexts[0], Branch { r_positive: true, turns: 0, half_turns: 0 });
    assert_eq!(contexts[1], Branch { r_positive: false, turns: 0, half_turns: -1 });
}

#[test]
fn inclusive_range_yields_two_per_index() {
    // the inclusive command-line range (-1, 1) normalizes to (-1, 2):
    // 2 * (1 - (-1) + 1) = 6 contexts
    let p = Params::from_args(
        &vec![],
        &vec![-1, 1],
        Frac::new(2, 1),
        Frac::new(1, 1),
        Frac::new(1, 1),
        false,
        true,
    )
    .unwrap();
    assert_eq!(p.t_range, (-1, 2));
    let contexts = make_contexts(p.t_range.0, p.t_range.1, true);
    assert_eq!(contexts.len(), 6);
    for (k, n) in [-1i64, 0, 1].iter().enumerate() {
        assert_eq!(contexts[2 * k], Branch { r_positive: true, turns: *n, half_turns: 0 });
        assert_eq!(contexts[2 * k + 1], Branch { r_positive: false, turns: *n, half_turns: -1 });
    }
}

#[test]
fn negative_base_angle_flips_half_turn() {
    // the pinned tie-break: half turn is -tau/2 for a non-negative base
    // angle, +tau/2 otherwise
    let contexts = make_contexts(0, 1, false);
    assert_eq!(contexts[1], Branch { r_positive: false, turns: 0, half_turns: 1 });
}
