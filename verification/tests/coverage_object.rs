use swc_coverage_instrument::coverage_object::{
    create_branch_prop, create_branch_vec_prop, create_coverage_data_object, create_fn_prop,
    create_ident_key_value_prop, create_num_lit_expr, create_range_object_lit,
    create_source_map_object, create_str_key_value_prop, create_str_lit_expr, JsLiteral, JsProp,
    PropKey,
};
use swc_coverage_instrument::file_coverage::FileCoverage;
use swc_coverage_instrument::range::Range;
use swc_coverage_instrument::source_coverage::SourceCoverage;
use swc_coverage_instrument::source_map::SourceMap;
use swc_coverage_instrument::types::{Branch, BranchType, Function};

const SCHEMA: &str = "11020577277169172593";

/// Prints a literal in object-literal notation; string literals written as is
/// are marked `r"..."`, those left to the printer `"..."`.
fn render(v: &JsLiteral) -> String {
    match v {
        JsLiteral::Null => "null".to_string(),
        JsLiteral::Bool(b) => b.to_string(),
        JsLiteral::Num(n) => n.to_string(),
        JsLiteral::Str(s) => format!("\"{}\"", s),
        JsLiteral::RawStr(s) => format!("r\"{}\"", s),
        JsLiteral::Array(items) => {
            let parts: Vec<String> = items.iter().map(render).collect();
            format!("[{}]", parts.join(", "))
        }
        JsLiteral::Object(props) => {
            let parts: Vec<String> = props.iter().map(render_prop).collect();
            format!("{{{}}}", parts.join(", "))
        }
    }
}

fn render_prop(p: &JsProp) -> String {
    let key = match &p.key {
        PropKey::Ident(k) => k.clone(),
        PropKey::Str(k) => format!("r\"{}\"", k),
    };
    format!("{}: {}", key, render(&p.value))
}

fn object(c: &FileCoverage, hash: u64) -> String {
    let (h, v) = create_coverage_data_object(c, SCHEMA, hash);
    assert_eq!(h, hash.to_string());
    render(&v)
}

#[test]
fn create_coverage_data_object_should_create_empty() {
    let coverage_data = FileCoverage::empty("anon".to_string(), false);
    assert_eq!(
        object(&coverage_data, 2749072808032864045),
        "{all: false, path: \"anon\", statementMap: {}, fnMap: {}, branchMap: {}, s: {}, f: {}, b: {}, \
         _coverageSchema: r\"11020577277169172593\", hash: r\"2749072808032864045\"}"
    );
}

#[test]
fn should_create_empty_all() {
    let mut coverage_data = FileCoverage::empty("anon".to_string(), false);
    coverage_data.all = true;
    assert_eq!(
        object(&coverage_data, 9996448737459597674),
        "{all: true, path: \"anon\", statementMap: {}, fnMap: {}, branchMap: {}, s: {}, f: {}, b: {}, \
         _coverageSchema: r\"11020577277169172593\", hash: r\"9996448737459597674\"}"
    );
}

#[test]
fn create_coverage_data_object_should_create_empty_report_logic() {
    let coverage_data = FileCoverage::empty("/test/src/file.js".to_string(), true);
    assert_eq!(
        object(&coverage_data, 5324777076056671972),
        "{all: false, path: \"/test/src/file.js\", statementMap: {}, fnMap: {}, branchMap: {}, s: {}, f: {}, \
         b: {}, bT: {}, _coverageSchema: r\"11020577277169172593\", hash: r\"5324777076056671972\"}"
    );
}

#[test]
fn should_create_statement_map() {
    let mut coverage_data = SourceCoverage::new("/test/src/statement.js".to_string(), false);
    coverage_data.new_statement(&Range::new(2, 3, 5, 2));
    assert_eq!(
        object(coverage_data.as_ref(), 14358638674647738158),
        "{all: false, path: \"/test/src/statement.js\", statementMap: {r\"0\": {start: {line: 2, column: 3}, \
         end: {line: 5, column: 2}}}, fnMap: {}, branchMap: {}, s: {r\"0\": 0}, f: {}, b: {}, \
         _coverageSchema: r\"11020577277169172593\", hash: r\"14358638674647738158\"}"
    );
    coverage_data.new_statement(&Range::new(4, 9, 3, 6));
    assert_eq!(
        object(coverage_data.as_ref(), 8495704048820686839),
        "{all: false, path: \"/test/src/statement.js\", statementMap: {r\"0\": {start: {line: 2, column: 3}, \
         end: {line: 5, column: 2}}, r\"1\": {start: {line: 4, column: 9}, end: {line: 3, column: 6}}}, \
         fnMap: {}, branchMap: {}, s: {r\"0\": 0, r\"1\": 0}, f: {}, b: {}, \
         _coverageSchema: r\"11020577277169172593\", hash: r\"8495704048820686839\"}"
    );
}

#[test]
fn should_create_fn_map() {
    let mut coverage_data = SourceCoverage::new("/test/src/fn.js".to_string(), false);
    coverage_data.new_function(
        &Some("named_function".to_string()),
        &Range::new(2, 3, 2, 10),
        &Range::new(2, 3, 5, 2),
    );
    let first = "r\"0\": {name: r\"named_function\", decl: {start: {line: 2, column: 3}, end: {line: 2, column: 10}}, \
                 loc: {start: {line: 2, column: 3}, end: {line: 5, column: 2}}, line: 2}";
    assert_eq!(
        object(coverage_data.as_ref(), 12684468276621003816),
        format!(
            "{{all: false, path: \"/test/src/fn.js\", statementMap: {{}}, fnMap: {{{}}}, branchMap: {{}}, s: {{}}, \
             f: {{r\"0\": 0}}, b: {{}}, _coverageSchema: r\"11020577277169172593\", hash: r\"12684468276621003816\"}}",
            first
        )
    );
    coverage_data.new_function(&None, &Range::new(4, 9, 4, 25), &Range::new(4, 9, 3, 6));
    let second = "r\"1\": {name: r\"(anonymous_1)\", decl: {start: {line: 4, column: 9}, end: {line: 4, column: 25}}, \
                  loc: {start: {line: 4, column: 9}, end: {line: 3, column: 6}}, line: 4}";
    assert_eq!(
        object(coverage_data.as_ref(), 8413193639409683826),
        format!(
            "{{all: false, path: \"/test/src/fn.js\", statementMap: {{}}, fnMap: {{{}, {}}}, branchMap: {{}}, s: {{}}, \
             f: {{r\"0\": 0, r\"1\": 0}}, b: {{}}, _coverageSchema: r\"11020577277169172593\", hash: r\"8413193639409683826\"}}",
            first, second
        )
    );
}

#[test]
fn should_create_new_branch() {
    let mut coverage_data = SourceCoverage::new("/test/src/branch.js".to_string(), false);
    coverage_data.new_branch(&BranchType::Switch, &Range::new(2, 3, 5, 2), false);
    let first = "r\"0\": {loc: {start: {line: 2, column: 3}, end: {line: 5, column: 2}}, type: r\"switch\", line: 2}";
    assert_eq!(
        object(coverage_data.as_ref(), 16290170317654300968),
        format!(
            "{{all: false, path: \"/test/src/branch.js\", statementMap: {{}}, fnMap: {{}}, branchMap: {{{}}}, s: {{}}, \
             f: {{}}, b: {{r\"0\": []}}, _coverageSchema: r\"11020577277169172593\", hash: r\"16290170317654300968\"}}",
            first
        )
    );
    coverage_data.new_branch(&BranchType::BinaryExpr, &Range::new(6, 4, 2, 8), true);
    let second = "r\"1\": {loc: {start: {line: 6, column: 4}, end: {line: 2, column: 8}}, type: r\"binary-expr\", line: 6}";
    assert_eq!(
        object(coverage_data.as_ref(), 394046461779423801),
        format!(
            "{{all: false, path: \"/test/src/branch.js\", statementMap: {{}}, fnMap: {{}}, branchMap: {{{}, {}}}, \
             s: {{}}, f: {{}}, b: {{r\"0\": [], r\"1\": []}}, bT: {{r\"1\": []}}, \
             _coverageSchema: r\"11020577277169172593\", hash: r\"394046461779423801\"}}",
            first, second
        )
    );
}

#[test]
fn should_add_branch_path() {
    let mut coverage_data = SourceCoverage::new("/test/src/branch_path.js".to_string(), false);
    let location_range = Range::new(3, 4, 5, 4);
    let name = coverage_data.new_branch(&BranchType::Switch, &Range::new(2, 3, 5, 2), false);
    coverage_data.add_branch_path(name, &location_range);
    let first = "r\"0\": {loc: {start: {line: 2, column: 3}, end: {line: 5, column: 2}}, type: r\"switch\", \
                 locations: [{start: {line: 3, column: 4}, end: {line: 5, column: 4}}], line: 2}";
    assert_eq!(
        object(coverage_data.as_ref(), 1206056395566328244),
        format!(
            "{{all: false, path: \"/test/src/branch_path.js\", statementMap: {{}}, fnMap: {{}}, branchMap: {{{}}}, \
             s: {{}}, f: {{}}, b: {{r\"0\": [0]}}, _coverageSchema: r\"11020577277169172593\", \
             hash: r\"1206056395566328244\"}}",
            first
        )
    );
    let name = coverage_data.new_branch(&BranchType::BinaryExpr, &Range::new(6, 4, 2, 8), true);
    coverage_data.add_branch_path(name, &location_range);
    let second = "r\"1\": {loc: {start: {line: 6, column: 4}, end: {line: 2, column: 8}}, type: r\"binary-expr\", \
                  locations: [{start: {line: 3, column: 4}, end: {line: 5, column: 4}}], line: 6}";
    assert_eq!(
        object(coverage_data.as_ref(), 5849348874565150566),
        format!(
            "{{all: false, path: \"/test/src/branch_path.js\", statementMap: {{}}, fnMap: {{}}, \
             branchMap: {{{}, {}}}, s: {{}}, f: {{}}, b: {{r\"0\": [0], r\"1\": [0]}}, bT: {{r\"1\": [0]}}, \
             _coverageSchema: r\"11020577277169172593\", hash: r\"5849348874565150566\"}}",
            first, second
        )
    );
}

#[test]
fn small_literals() {
    assert_eq!(render(&create_str_lit_expr("x\"y")), "r\"x\"y\"");
    assert_eq!(render(&create_num_lit_expr(42)), "42");
    assert_eq!(render_prop(&create_ident_key_value_prop("line", create_num_lit_expr(3))), "line: 3");
    assert_eq!(render_prop(&create_str_key_value_prop("7", create_num_lit_expr(0))), "r\"7\": 0");
    assert_eq!(
        render(&create_range_object_lit(&Range::new(1, 2, 3, 4))),
        "{start: {line: 1, column: 2}, end: {line: 3, column: 4}}"
    );
    assert_eq!(render(&create_branch_vec_prop(&vec![3, 0, 12])), "[3, 0, 12]");
    assert_eq!(render(&create_branch_vec_prop(&vec![])), "[]");
}

#[test]
fn function_and_branch_props() {
    let f = Function {
        name: "go".to_string(),
        decl: Range::new(1, 0, 1, 2),
        loc: Range::new(1, 0, 4, 1),
        line: 1,
    };
    assert_eq!(
        render_prop(&create_fn_prop("3", &f)),
        "r\"3\": {name: r\"go\", decl: {start: {line: 1, column: 0}, end: {line: 1, column: 2}}, \
         loc: {start: {line: 1, column: 0}, end: {line: 4, column: 1}}, line: 1}"
    );
    // A branch given by its line only, without path locations: only `type` and `line`.
    let b = Branch::from_line(BranchType::CondExpr, 9, vec![]);
    assert_eq!(render_prop(&create_branch_prop("0", &b)), "r\"0\": {type: r\"cond-expr\", line: 9}");
    // A branch given by its location: no `line`.
    let b = Branch::from_loc(BranchType::If, Range::new(2, 0, 2, 5), vec![Range::new(2, 1, 2, 2)]);
    assert_eq!(
        render_prop(&create_branch_prop("1", &b)),
        "r\"1\": {loc: {start: {line: 2, column: 0}, end: {line: 2, column: 5}}, type: r\"if\", \
         locations: [{start: {line: 2, column: 1}, end: {line: 2, column: 2}}]}"
    );
}

#[test]
fn input_source_map_is_embedded() {
    let mut map = SourceMap::default();
    map.file = Some("out.js".to_string());
    map.sources = vec!["a.ts".to_string()];
    map.sources_content = Some(vec![Some("let a;".to_string()), None]);
    map.names = vec!["a".to_string()];
    map.mappings = "AAAA".to_string();
    assert_eq!(
        render(&create_source_map_object(&map)),
        "{version: 3, file: \"out.js\", sources: [\"a.ts\"], sourcesContent: [\"let a;\", null], \
         names: [\"a\"], mappings: \"AAAA\"}"
    );
    let mut c = FileCoverage::empty("x.js".to_string(), false);
    c.input_source_map = Some(SourceMap::default());
    assert_eq!(
        object(&c, 1),
        "{all: false, path: \"x.js\", statementMap: {}, fnMap: {}, branchMap: {}, s: {}, f: {}, b: {}, \
         inputSourceMap: {version: 3, sources: [], names: [], mappings: \"\"}, \
         _coverageSchema: r\"11020577277169172593\", hash: r\"1\"}"
    );
}
