use swc_coverage_instrument::coverage_summary::{CoveragePercentage, CoverageSummary, Totals};
use swc_coverage_instrument::percent::percent;

/// The percentage as it is reported: hundredths divided by 100.
fn reported(hundredths: u64) -> f32 {
    hundredths as f32 / 100 as f32
}

fn pct(value: f32) -> CoveragePercentage {
    CoveragePercentage::Value((value * 100.0) as u64)
}

#[test]
fn should_able_to_create_empty() {
    let summary = CoverageSummary::default();

    assert!(summary.is_empty());
}

#[test]
fn should_able_to_merge() {
    let basic = Totals::new(5, 4, 0, pct(80.0));
    let empty = Totals::default();

    let mut first = CoverageSummary::new(basic, basic, basic, empty, Some(empty));
    let mut second = first.clone();

    second.statements.covered = 5;
    first.merge(&second);

    assert_eq!(first.statements, Totals::new(10, 9, 0, pct(90.0)));

    assert_eq!(first.branches.pct, pct(100.0));
    let branches_true = first.branches_true.expect("Should exist");
    assert_eq!(branches_true.pct, pct(100.0));
}

#[test]
fn calculate_percentage_covered_and_total() {
    let p = reported(percent(1, 1));
    assert_eq!(p as i32, 100);
}

#[test]
fn calculate_percentage_with_precision() {
    let p = reported(percent(999998, 999999));
    assert_eq!(p < 100 as f32, true);
}

#[test]
fn percent_exact_values() {
    assert_eq!(percent(0, 0), 10000);
    assert_eq!(percent(0, 7), 0);
    assert_eq!(percent(1, 3), 3333);
    assert_eq!(percent(2, 3), 6666);
    assert_eq!(percent(999998, 999999), 9999);
    assert_eq!(reported(percent(2, 3)), 66.66);
}

#[test]
fn merge_adds_totals_and_recomputes_percentages() {
    let a = Totals::new(4, 1, 1, CoveragePercentage::Unknown);
    let b = Totals::new(4, 3, 0, CoveragePercentage::Unknown);
    let mut first = CoverageSummary::new(a, a, a, a, None);
    let second = CoverageSummary::new(b, b, b, b, Some(b));
    first.merge(&second);
    assert_eq!(first.lines, Totals::new(8, 4, 1, CoveragePercentage::Value(5000)));
    // truthy-path totals start from zero when the first summary has none
    assert_eq!(first.branches_true, Some(Totals::new(4, 3, 0, CoveragePercentage::Value(7500))));

    // merging in either order gives the same counts
    let mut x = CoverageSummary::new(a, a, a, a, None);
    x.merge(&CoverageSummary::new(b, b, b, b, None));
    let mut y = CoverageSummary::new(b, b, b, b, None);
    y.merge(&CoverageSummary::new(a, a, a, a, None));
    assert_eq!(x.statements, y.statements);
    assert_eq!(x.branches_true, None);

    let copy = CoverageSummary::from(&x);
    assert_eq!(copy.functions, x.functions);
    assert!(!copy.is_empty());
}
