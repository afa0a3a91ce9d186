use swc_coverage_instrument::file_coverage::{Coverage, FileCoverage};
use swc_coverage_instrument::range::Range;
use swc_coverage_instrument::source_coverage::SourceCoverage;
use swc_coverage_instrument::types::BranchType;

fn sample() -> FileCoverage {
    let mut cov = SourceCoverage::new("lines.js".to_string(), true);
    cov.new_statement(&Range::new(1, 0, 1, 10));
    cov.new_statement(&Range::new(2, 0, 2, 10));
    cov.new_statement(&Range::new(1, 12, 1, 20));
    cov.new_statement(&Range::new(3, 0, 3, 4));
    cov.new_function(&None, &Range::new(1, 0, 1, 3), &Range::new(1, 0, 3, 4));
    let b = cov.new_branch(&BranchType::BinaryExpr, &Range::new(2, 0, 2, 10), true);
    cov.add_branch_path(b, &Range::new(2, 0, 2, 4));
    cov.add_branch_path(b, &Range::new(2, 6, 2, 10));
    let b2 = cov.new_branch(&BranchType::If, &Range::new(3, 0, 3, 4), false);
    cov.add_branch_path(b2, &Range::new(3, 0, 3, 2));
    let mut c = FileCoverage::from_file_coverage(cov.as_ref());
    c.s.insert(0, 0);
    c.s.insert(1, 4);
    c.s.insert(2, 3);
    c.f.insert(0, 1);
    c.b.insert(b, vec![2, 0]);
    c.b.insert(b2, vec![5]);
    c.b_t.as_mut().unwrap().insert(b, vec![1, 0]);
    c
}

#[test]
fn empty_coverage() {
    let c = FileCoverage::empty("e.js".to_string(), false);
    assert_eq!(c.path(), "e.js");
    assert!(c.b_t.is_none());
    assert!(c.get_line_coverage().is_empty());
    assert!(FileCoverage::from_file_path("e.js".to_string(), true).b_t.is_some());
}

#[test]
fn line_coverage_takes_the_largest_hits_per_line() {
    let c = sample();
    let lc = c.get_line_coverage();
    assert_eq!(lc.iter().map(|(k, v)| (*k, *v)).collect::<Vec<_>>(), vec![(1, 3), (2, 4), (3, 0)]);
    assert_eq!(c.get_uncovered_lines(), vec![3]);
}

#[test]
fn simple_totals() {
    let c = sample();
    let t = FileCoverage::compute_simple_totals(&c.s);
    assert_eq!((t.total, t.covered, t.skipped), (4, 2, 0));
    assert_eq!(t.pct, swc_coverage_instrument::coverage_summary::CoveragePercentage::Value(5000));
}

#[test]
fn branch_coverage_by_line() {
    let c = sample();
    let by_line = c.get_branch_coverage_by_line();
    assert_eq!(by_line.len(), 2);
    assert_eq!(by_line[&2], Coverage::new(1, 2));
    assert_eq!(by_line[&3], Coverage::new(1, 1));
}

#[test]
fn reset_hits_zeroes_every_counter() {
    let mut c = sample();
    c.reset_hits();
    assert!(c.s.values().all(|v| *v == 0));
    assert_eq!(c.s.len(), 4);
    assert!(c.f.values().all(|v| *v == 0));
    assert_eq!(c.b.values().map(|v| v.len()).collect::<Vec<_>>(), vec![2, 1]);
    assert!(c.b.values().all(|v| v.iter().all(|x| *x == 0)));
    assert_eq!(c.b_t.as_ref().unwrap().values().next().unwrap(), &vec![0, 0]);
    c.reset_hits();
    assert_eq!(c.s.len(), 4);
}

#[test]
fn after_a_reset_every_statement_line_is_uncovered() {
    let mut c = sample();
    c.reset_hits();
    let mut uncovered = c.get_uncovered_lines();
    uncovered.sort();
    assert_eq!(uncovered, vec![1, 2, 3]);
    let mut lines: Vec<u32> = c.get_line_coverage().keys().copied().collect();
    lines.sort();
    assert_eq!(lines, vec![1, 2, 3]);
}
