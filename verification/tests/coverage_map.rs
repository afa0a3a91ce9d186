use swc_coverage_instrument::coverage_map::CoverageMap;
use swc_coverage_instrument::file_coverage::FileCoverage;

#[test]
fn should_able_to_return_file_coverage() {
    let base = CoverageMap::from_iter(vec![
        &FileCoverage::from_file_path("foo.js".to_string(), false),
        &FileCoverage::from_file_path("bar.js".to_string(), false),
    ]);

    assert!(base.get_coverage_for_file("foo.js").is_some());
    assert!(base.get_coverage_for_file("bar.js").is_some());

    assert!(base.get_coverage_for_file("baz.js").is_none());
}

#[test]
fn should_able_to_filter_coverage() {
    let mut base = CoverageMap::from_iter(vec![
        &FileCoverage::from_file_path("foo.js".to_string(), false),
        &FileCoverage::from_file_path("bar.js".to_string(), false),
    ]);

    assert_eq!(base.get_files(), vec![&"foo.js".to_string(), &"bar.js".to_string()]);

    base.filter(|x| x.path == "foo.js");
    assert_eq!(base.get_files(), vec![&"foo.js".to_string()]);
}

#[test]
fn should_able_to_merge_another_coverage_map() {
    let mut base = CoverageMap::from_iter(vec![
        &FileCoverage::from_file_path("foo.js".to_string(), false),
        &FileCoverage::from_file_path("bar.js".to_string(), false),
    ]);

    let second = CoverageMap::from_iter(vec![
        &FileCoverage::from_file_path("foo.js".to_string(), false),
        &FileCoverage::from_file_path("baz.js".to_string(), false),
    ]);
    base.merge(&second);
    assert_eq!(
        base.get_files(),
        vec![&"foo.js".to_string(), &"bar.js".to_string(), &"baz.js".to_string()]
    );
}

#[test]
fn a_second_coverage_of_a_file_keeps_the_first() {
    let mut first = FileCoverage::from_file_path("foo.js".to_string(), false);
    first.all = true;
    let second = FileCoverage::from_file_path("foo.js".to_string(), true);
    let mut map = CoverageMap::from_iter(vec![&first, &second]);
    assert_eq!(map.get_files(), vec![&"foo.js".to_string()]);
    assert!(map.get_coverage_for_file("foo.js").unwrap().all);
    map.add_coverage_for_file(&second);
    assert_eq!(map.get_files().len(), 1);
    assert!(map.get_coverage_for_file("foo.js").unwrap().b_t.is_none());
}

#[test]
fn merging_maps_of_different_files_appends_in_order() {
    let mut base = CoverageMap::from_iter(vec![
        &FileCoverage::from_file_path("foo.js".to_string(), false),
        &FileCoverage::from_file_path("bar.js".to_string(), false),
    ]);
    let second = CoverageMap::from_iter(vec![
        &FileCoverage::from_file_path("baz.js".to_string(), true),
        &FileCoverage::from_file_path("qux.js".to_string(), false),
    ]);
    base.merge(&second);
    assert_eq!(
        base.get_files(),
        vec![&"foo.js".to_string(), &"bar.js".to_string(), &"baz.js".to_string(), &"qux.js".to_string()]
    );
    assert!(base.get_coverage_for_file("baz.js").unwrap().b_t.is_some());
    assert!(base.get_coverage_for_file("qux.js").unwrap().b_t.is_none());
}

#[test]
fn added_coverage_is_found_under_its_path() {
    let mut map = CoverageMap::new();
    assert!(map.get_files().is_empty());
    let mut c = FileCoverage::empty("a.js".to_string(), false);
    c.all = true;
    map.add_coverage_for_file(&c);
    let found = map.get_coverage_for_file("a.js").unwrap();
    assert_eq!(found.path, "a.js");
    assert!(found.all);
    assert!(CoverageMap::default().get_coverage_for_file("a.js").is_none());
}

#[test]
fn filter_keeping_nothing_or_everything() {
    let mut map = CoverageMap::from_iter(vec![
        &FileCoverage::from_file_path("x.js".to_string(), false),
        &FileCoverage::from_file_path("y.js".to_string(), false),
    ]);
    map.filter(|_| true);
    assert_eq!(map.get_files().len(), 2);
    map.filter(|_| false);
    assert!(map.get_files().is_empty());
}
