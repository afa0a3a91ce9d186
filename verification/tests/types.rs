use swc_coverage_instrument::range::Range;
use swc_coverage_instrument::types::{Branch, BranchType};

#[test]
fn branch_type_should_return_kebab_string() {
    assert_eq!(&BranchType::BinaryExpr.to_string(), "binary-expr");
    assert_eq!(&BranchType::DefaultArg.to_string(), "default-arg");
    assert_eq!(&BranchType::If.to_string(), "if");
    assert_eq!(&BranchType::Switch.to_string(), "switch");
    assert_eq!(&BranchType::CondExpr.to_string(), "cond-expr");
}

#[test]
fn branch_from_line_and_from_loc() {
    let loc = Range::new(1, 2, 3, 4);
    let by_line = Branch::from_line(BranchType::If, 7, vec![loc]);
    assert_eq!(by_line.line, Some(7));
    assert!(by_line.loc.is_none());
    assert_eq!(by_line.locations, vec![loc]);

    let by_loc = Branch::from_loc(BranchType::Switch, loc, vec![]);
    assert_eq!(by_loc.loc, Some(loc));
    assert!(by_loc.line.is_none());
    assert!(!by_loc.has_locations());
}

#[test]
fn range_key_from_loc() {
    let r = Range::new(2, 3, 15, 120);
    assert_eq!(Range::key_from_loc(&r), "2|3|15|120");
    let d = Range::default();
    assert_eq!(Range::key_from_loc(&d), "0|0|0|0");
    let big = Range::new(4294967295, 0, 10, 9);
    assert_eq!(Range::key_from_loc(&big), "4294967295|0|10|9");
}

#[test]
fn range_keys_read_back_into_their_numbers() {
    use_range_key_read_back(swc_coverage_instrument::range::Range::new(12, 0, 345, 6789));
    use_range_key_read_back(swc_coverage_instrument::range::Range::default());
}

fn use_range_key_read_back(r: swc_coverage_instrument::range::Range) {
    let key = swc_coverage_instrument::range::Range::key_from_loc(&r);
    let parts: Vec<u32> = key.split('|').map(|p| p.parse::<u32>().unwrap()).collect();
    assert_eq!(parts, vec![r.start.line, r.start.column, r.end.line, r.end.column]);
}
