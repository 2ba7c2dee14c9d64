use accuracy_benchmark::ratio::{GrandMean, Mean, Ratio, Tier};

#[test]
fn a_value_on_a_boundary_is_in_the_lower_tier() {
    assert_eq!(Ratio::new(0, 100).tier(), Some(Tier::Lowest));
    assert_eq!(Ratio::new(59, 100).tier(), Some(Tier::Lowest));
    assert_eq!(Ratio::new(60, 100).tier(), Some(Tier::Lowest));
    assert_eq!(Ratio::new(61, 100).tier(), Some(Tier::Low));
    assert_eq!(Ratio::new(80, 100).tier(), Some(Tier::Low));
    assert_eq!(Ratio::new(81, 100).tier(), Some(Tier::Middle));
    assert_eq!(Ratio::new(95, 100).tier(), Some(Tier::Middle));
    assert_eq!(Ratio::new(96, 100).tier(), Some(Tier::High));
    assert_eq!(Ratio::new(99, 100).tier(), Some(Tier::High));
    assert_eq!(Ratio::new(100, 100).tier(), Some(Tier::Highest));
}

#[test]
fn tiers_do_not_depend_on_the_denominator() {
    assert_eq!(Ratio::new(3, 5).tier(), Some(Tier::Lowest));
    assert_eq!(Ratio::new(4, 5).tier(), Some(Tier::Low));
    assert_eq!(Ratio::new(19, 20).tier(), Some(Tier::Middle));
    assert_eq!(Ratio::new(198, 200).tier(), Some(Tier::High));
    assert_eq!(Ratio::new(199, 200).tier(), Some(Tier::Highest));
    assert_eq!(Ratio::new(7, 7).tier(), Some(Tier::Highest));
    // Just above a boundary, with a denominator near the largest.
    assert_eq!(Ratio::new(2_400_000_001, 4_000_000_000).tier(), Some(Tier::Low));
    assert_eq!(Ratio::new(2_400_000_000, 4_000_000_000).tier(), Some(Tier::Lowest));
    assert_eq!(Ratio::new(u32::MAX, u32::MAX).tier(), Some(Tier::Highest));
    assert_eq!(Ratio::new(u32::MAX - 1, u32::MAX).tier(), Some(Tier::Highest));
}

#[test]
fn a_ratio_over_nothing_has_no_tier() {
    assert_eq!(Ratio::new(0, 0).tier(), None);
    assert!(!Ratio::new(0, 0).is_defined());
    assert!(Ratio::new(0, 1).is_defined());
}

#[test]
fn upper_bounds_of_the_tiers() {
    assert_eq!(Tier::Lowest.upper_bound(), Ratio::new(60, 100));
    assert_eq!(Tier::Low.upper_bound(), Ratio::new(80, 100));
    assert_eq!(Tier::Middle.upper_bound(), Ratio::new(95, 100));
    assert_eq!(Tier::High.upper_bound(), Ratio::new(99, 100));
    assert_eq!(Tier::Highest.upper_bound(), Ratio::new(100, 100));
}

#[test]
fn ratios_are_compared_by_value() {
    let half = Ratio::new(1, 2);
    let two_quarters = Ratio::new(2, 4);
    let third = Ratio::new(1, 3);
    assert!(half.at_most(&two_quarters));
    assert!(two_quarters.at_most(&half));
    assert!(!half.less_than(&two_quarters));
    assert!(third.less_than(&half));
    assert!(third.at_most(&half));
    assert!(!half.at_most(&third));
    assert!(!half.less_than(&third));
    // Products that do not fit in 32 bits.
    let big = Ratio::new(u32::MAX - 1, u32::MAX);
    let bigger = Ratio::new(u32::MAX, u32::MAX);
    assert!(big.less_than(&bigger));
    assert!(!bigger.at_most(&big));
    let close = Ratio::new(4_294_967_293, 4_294_967_294);
    assert!(close.less_than(&big));
}

#[test]
fn a_mean_has_a_value_where_every_term_has_one() {
    assert!(!Mean { terms: vec![] }.is_defined());
    assert!(Mean { terms: vec![Ratio::new(1, 2)] }.is_defined());
    assert!(Mean { terms: vec![Ratio::new(1, 2), Ratio::new(0, 3)] }.is_defined());
    assert!(!Mean { terms: vec![Ratio::new(1, 2), Ratio::new(0, 0)] }.is_defined());
    assert!(!Mean { terms: vec![Ratio::new(0, 0), Ratio::new(1, 2)] }.is_defined());
}

#[test]
fn a_mean_of_means_has_a_value_where_every_mean_has_one() {
    let good = || Mean { terms: vec![Ratio::new(1, 2), Ratio::new(2, 3)] };
    let bad = || Mean { terms: vec![Ratio::new(1, 2), Ratio::new(0, 0)] };
    assert!(!GrandMean { means: vec![] }.is_defined());
    assert!(GrandMean { means: vec![good()] }.is_defined());
    assert!(GrandMean { means: vec![good(), good()] }.is_defined());
    assert!(!GrandMean { means: vec![good(), bad()] }.is_defined());
    assert!(!GrandMean { means: vec![good(), Mean { terms: vec![] }] }.is_defined());
}
