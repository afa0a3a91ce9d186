use swc_coverage_instrument::lookup_range::get_range_from_span;
use swc_coverage_instrument::node::{print_node, Node};
use swc_coverage_instrument::range::Range;
use swc_coverage_instrument::hint_comments::{
    enter_ignore_scope, lookup_hint_comments, should_ignore, should_ignore_file, IgnoreScope,
};
use swc_coverage_instrument::options::{log_level, InstrumentLogOptions, InstrumentOptions, LogLevel};

fn comments(texts: &[&str]) -> Option<Vec<String>> {
    Some(texts.iter().map(|t| t.to_string()).collect())
}

#[test]
fn hint_comments_end_first_then_start() {
    let hi = comments(&[" plain", " istanbul ignore next "]);
    let lo = comments(&[" istanbul ignore if"]);
    assert_eq!(lookup_hint_comments(&hi, &lo), Some("next".to_string()));
    assert_eq!(lookup_hint_comments(&None, &lo), Some("if".to_string()));
    assert_eq!(lookup_hint_comments(&comments(&["nothing"]), &None), None);
    assert_eq!(should_ignore(&None, &comments(&["istanbul ignore else"])), Some(IgnoreScope::Else));
    assert_eq!(should_ignore(&comments(&["istanbul ignore nextline"]), &None), None);
}

#[test]
fn file_hint() {
    assert!(should_ignore_file(&vec![None, comments(&["x", "  istanbul ignore file"])]));
    assert!(!should_ignore_file(&vec![comments(&["istanbul ignore next"]), None]));
    assert!(!should_ignore_file(&vec![]));
}

#[test]
fn ignore_scope_on_enter() {
    let next = Some(IgnoreScope::Next);
    assert_eq!(enter_ignore_scope(next, Some(IgnoreScope::If)), (next, next));
    assert_eq!(enter_ignore_scope(None, Some(IgnoreScope::If)), (None, Some(IgnoreScope::If)));
    assert_eq!(enter_ignore_scope(Some(IgnoreScope::Else), None), (Some(IgnoreScope::Else), None));
}

#[test]
fn options_defaults_and_log_level() {
    let o = InstrumentOptions::default();
    assert_eq!(o.coverage_variable, "__coverage__");
    assert_eq!(o.coverage_global_scope, "this");
    assert!(o.coverage_global_scope_func);
    assert!(!o.report_logic);
    let mut l = InstrumentLogOptions::default();
    assert_eq!(log_level(&l), None);
    l.level = Some("warn".to_string());
    assert_eq!(log_level(&l), Some(LogLevel::Warn));
    l.level = Some("verbose".to_string());
    assert_eq!(log_level(&l), None);
}

#[test]
fn node_stack_is_printed_with_colons() {
    assert_eq!(print_node(&vec![]), "");
    assert_eq!(print_node(&vec![Node::Root]), "Root");
    assert_eq!(print_node(&vec![Node::Root, Node::IfStmt, Node::BlockStmt]), "Root:IfStmt:BlockStmt");
    assert_eq!(Node::ExportDefaultDecl.to_string(), "ExportDefaultDecl");
}

#[test]
fn ranges_of_spans() {
    assert_eq!(get_range_from_span(Some((3, 4)), Some((5, 1))), Range::new(3, 4, 5, 1));
    assert_eq!(get_range_from_span(None, Some((5, 1))), Range::default());
    assert_eq!(get_range_from_span(Some((3, 4)), None), Range::default());
}
