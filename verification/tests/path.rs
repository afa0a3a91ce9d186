use swc_coverage_instrument::path::{
    exclusion_from_match, exclusion_inputs, file_name_or_unknown, normalize_path, should_exclude,
};

#[test]
fn test_normalize_path_for_glob_matching() {
    // Test Windows paths are normalized to Unix-style
    let result = normalize_path(r"C:\Users\project\test\index.test.ts");
    println!("Windows path result: {}", result);
    // The typed-path crate converts Windows paths to Unix format, but may strip the drive letter
    // The important thing is that backslashes are converted to forward slashes
    assert!(result.contains("/Users/project/test/index.test.ts"));

    // Test mixed separators are normalized
    let result = normalize_path(r"C:\Users/project\test/file.js");
    println!("Mixed separators result: {}", result);
    assert!(result.contains("/Users/project/test/file.js"));

    // Test Unix paths remain unchanged
    assert_eq!(
        normalize_path("/home/user/project/src/utils/helper.js"),
        "/home/user/project/src/utils/helper.js"
    );

    // Test relative Unix paths remain unchanged
    assert_eq!(
        normalize_path("src/components/Button.tsx"),
        "src/components/Button.tsx"
    );

    // Test that backslashes are converted to forward slashes
    let windows_path = r"project\src\test\file.ts";
    let result = normalize_path(windows_path);
    println!("Relative Windows path result: {}", result);
    assert!(result.contains("project/src/test/file.ts"));
}

#[test]
fn relative_backslash_path_is_rewritten_exactly() {
    assert_eq!(normalize_path(r"a\b\c.js"), "a/b/c.js");
    assert_eq!(normalize_path(""), "");
}

#[test]
fn exclusion_by_glob_patterns() {
    assert_eq!(should_exclude(&None, "src/a.js"), Ok(false));
    let patterns = Some(vec!["**/*.test.ts".to_string()]);
    assert_eq!(should_exclude(&patterns, "src/index.test.ts"), Ok(true));
    assert_eq!(should_exclude(&patterns, r"src\index.test.ts"), Ok(true));
    assert_eq!(should_exclude(&patterns, "src/index.ts"), Ok(false));
    let broken = Some(vec!["a/**b".to_string()]);
    assert_eq!(should_exclude(&broken, "a/b"), Err(()));
}

#[test]
fn missing_file_name_is_unknown() {
    assert_eq!(file_name_or_unknown(None), "unknown.js");
    assert_eq!(file_name_or_unknown(Some("src/a.ts")), "src/a.ts");
}

#[test]
fn exclusion_inputs_are_normalised() {
    assert_eq!(exclusion_inputs(&None, r"a\b.js"), None);
    let patterns = Some(vec![r"src\**\*.js".to_string(), "lib/*.ts".to_string()]);
    let (p, name) = exclusion_inputs(&patterns, r"src\x\y.js").unwrap();
    assert_eq!(p, vec!["src/**/*.js".to_string(), "lib/*.ts".to_string()]);
    assert_eq!(name, "src/x/y.js");
}

#[test]
fn exclusion_decision_follows_the_match() {
    assert_eq!(exclusion_from_match(Some(true)), Ok(true));
    assert_eq!(exclusion_from_match(Some(false)), Ok(false));
    assert_eq!(exclusion_from_match(None), Err(()));
}
