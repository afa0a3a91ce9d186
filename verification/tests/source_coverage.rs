use swc_coverage_instrument::range::Range;
use swc_coverage_instrument::source_coverage::SourceCoverage;
use swc_coverage_instrument::types::BranchType;

fn keys<V>(m: &indexmap::IndexMap<u32, V>) -> Vec<u32> {
    m.keys().copied().collect()
}

#[test]
fn statements_get_sequential_ids() {
    let mut cov = SourceCoverage::new("/test/src/statement.js".to_string(), false);
    let first = Range::new(2, 3, 5, 2);
    let second = Range::new(4, 9, 3, 6);
    assert_eq!(cov.new_statement(&first), 0);
    assert_eq!(cov.new_statement(&second), 1);
    let c = cov.as_ref();
    assert_eq!(c.path, "/test/src/statement.js");
    assert_eq!(keys(&c.statement_map), vec![0, 1]);
    assert_eq!(c.statement_map[&1], second);
    assert_eq!(c.s.values().copied().collect::<Vec<u32>>(), vec![0, 0]);
    assert!(c.b_t.is_none());
}

#[test]
fn functions_without_name_are_anonymous() {
    let mut cov = SourceCoverage::new("/test/src/fn.js".to_string(), false);
    let loc = Range::new(2, 3, 5, 2);
    let decl = Range::new(2, 3, 2, 10);
    assert_eq!(cov.new_function(&Some("named_function".to_string()), &decl, &loc), 0);
    let loc2 = Range::new(4, 9, 3, 6);
    let decl2 = Range::new(4, 9, 4, 25);
    assert_eq!(cov.new_function(&None, &decl2, &loc2), 1);
    let c = cov.as_ref();
    assert_eq!(c.fn_map[&0].name, "named_function");
    assert_eq!(c.fn_map[&0].line, 2);
    assert_eq!(c.fn_map[&1].name, "(anonymous_1)");
    assert_eq!(c.fn_map[&1].decl, decl2);
    assert_eq!(c.fn_map[&1].loc, loc2);
    assert_eq!(c.fn_map[&1].line, 4);
    assert_eq!(c.f.values().copied().collect::<Vec<u32>>(), vec![0, 0]);
}

#[test]
fn anonymous_names_use_the_function_id() {
    let mut cov = SourceCoverage::new("a.js".to_string(), false);
    let r = Range::default();
    for _ in 0..12 {
        cov.new_function(&None, &r, &r);
    }
    assert_eq!(cov.as_ref().fn_map[&11].name, "(anonymous_11)");
}

#[test]
fn branches_and_truthy_counters() {
    let mut cov = SourceCoverage::new("/test/src/branch.js".to_string(), false);
    let loc = Range::new(2, 3, 5, 2);
    assert_eq!(cov.new_branch(&BranchType::Switch, &loc, false), 0);
    let loc2 = Range::new(6, 4, 2, 8);
    assert_eq!(cov.new_branch(&BranchType::BinaryExpr, &loc2, true), 1);
    let c = cov.as_ref();
    assert_eq!(c.branch_map[&0].branch_type, BranchType::Switch);
    assert_eq!(c.branch_map[&0].line, Some(2));
    assert_eq!(c.branch_map[&1].loc, Some(loc2));
    assert_eq!(c.branch_map[&1].line, Some(6));
    assert_eq!(keys(&c.b), vec![0, 1]);
    // the truthy counters exist only for the binary expression under logic reporting
    assert_eq!(keys(c.b_t.as_ref().unwrap()), vec![1]);
}

#[test]
fn branch_paths_are_indexed() {
    let mut cov = SourceCoverage::new("/test/src/branch_path.js".to_string(), false);
    let loc = Range::new(2, 3, 5, 2);
    let path = Range::new(3, 4, 5, 4);
    let name = cov.new_branch(&BranchType::Switch, &loc, false);
    assert_eq!(cov.add_branch_path(name, &path), 0);
    assert_eq!(cov.add_branch_path(name, &path), 1);

    let loc2 = Range::new(6, 4, 2, 8);
    let name2 = cov.new_branch(&BranchType::BinaryExpr, &loc2, true);
    assert_eq!(cov.add_branch_path(name2, &path), 0);

    let c = cov.as_ref();
    assert_eq!(c.branch_map[&name].locations, vec![path, path]);
    assert_eq!(c.b[&name], vec![0, 0]);
    assert_eq!(c.b[&name2], vec![0]);
    assert_eq!(c.b_t.as_ref().unwrap()[&name2], vec![0]);
}

#[test]
fn maybe_new_branch_true_needs_logic_reporting_and_binary_expr() {
    let mut cov = SourceCoverage::new("x.js".to_string(), false);
    cov.maybe_new_branch_true(&BranchType::BinaryExpr, 3, false);
    assert!(cov.as_ref().b_t.is_none());
    cov.maybe_new_branch_true(&BranchType::If, 3, true);
    assert!(cov.as_ref().b_t.is_none());
    cov.maybe_new_branch_true(&BranchType::BinaryExpr, 3, true);
    assert_eq!(keys(cov.as_ref().b_t.as_ref().unwrap()), vec![3]);
    cov.maybe_add_branch_true(3);
    cov.maybe_add_branch_true(4);
    assert_eq!(cov.as_ref().b_t.as_ref().unwrap()[&3], vec![0]);
}

#[test]
fn freeze_prunes_branches_without_paths() {
    let mut cov = SourceCoverage::new("f.js".to_string(), true);
    let r = Range::new(1, 0, 1, 5);
    let b0 = cov.new_branch(&BranchType::BinaryExpr, &r, true);
    let b1 = cov.new_branch(&BranchType::If, &r, true);
    let b2 = cov.new_branch(&BranchType::BinaryExpr, &r, true);
    let b3 = cov.new_branch(&BranchType::Switch, &r, true);
    cov.add_branch_path(b1, &r);
    cov.add_branch_path(b2, &r);
    cov.freeze();
    let c = cov.as_ref();
    assert_eq!(keys(&c.branch_map), vec![b1, b2]);
    // hit counts are removed by moving the last entry into the freed place
    assert_eq!(keys(&c.b), vec![b2, b1]);
    assert_eq!(keys(c.b_t.as_ref().unwrap()), vec![b2]);
    assert!(!keys(&c.b).contains(&b0) && !keys(&c.b).contains(&b3));
    // new ids continue after the pruned ones
    assert_eq!(cov.new_branch(&BranchType::If, &r, false), 4);
}

#[test]
fn ids_run_from_zero_and_counts_follow_paths() {
    let mut cov = SourceCoverage::new("m.js".to_string(), true);
    let r = Range::new(1, 0, 1, 5);
    cov.new_statement(&r);
    let b = cov.new_branch(&BranchType::BinaryExpr, &r, true);
    cov.new_function(&None, &r, &r);
    cov.new_statement(&r);
    cov.add_branch_path(b, &r);
    cov.add_branch_path(b, &r);
    let e = cov.new_branch(&BranchType::If, &r, true);
    cov.new_statement(&r);
    cov.freeze();
    let c = cov.as_ref();
    assert_eq!(keys(&c.statement_map), vec![0, 1, 2]);
    assert_eq!(keys(&c.s), vec![0, 1, 2]);
    assert!(c.s.values().all(|v| *v == 0));
    assert_eq!(keys(&c.fn_map), vec![0]);
    assert_eq!(keys(&c.f), vec![0]);
    for (k, branch) in c.branch_map.iter() {
        assert_eq!(c.b[k].len(), branch.locations.len());
        assert!(c.b[k].iter().all(|v| *v == 0));
    }
    assert!(!c.b.contains_key(&e));
    let t = c.b_t.as_ref().unwrap();
    assert_eq!(t[&b], c.b[&b]);
}
