use swc_coverage_instrument::coverage_fn::{
    create_assignment_stmt, create_coverage_fn_decl, create_coverage_fn_ident, create_global_stmt_template,
    get_coverage_templates,
};
use swc_coverage_instrument::coverage_object::{JsLiteral, JsProp, PropKey};
use swc_coverage_instrument::file_coverage::FileCoverage;
use swc_coverage_instrument::increase_expr::{
    build_increase_expression_expr, create_increase_counter_expr, create_increase_true_expr,
};
use swc_coverage_instrument::js_ast::{BinaryOp, JsExpr, JsStmt};

fn lit(v: &JsLiteral) -> String {
    match v {
        JsLiteral::Null => "null".to_string(),
        JsLiteral::Bool(b) => b.to_string(),
        JsLiteral::Num(n) => n.to_string(),
        JsLiteral::Str(s) | JsLiteral::RawStr(s) => format!("\"{}\"", s),
        JsLiteral::Array(items) => format!("[{}]", items.iter().map(lit).collect::<Vec<_>>().join(", ")),
        JsLiteral::Object(props) => format!("{{{}}}", props.iter().map(prop).collect::<Vec<_>>().join(", ")),
    }
}

fn prop(p: &JsProp) -> String {
    match &p.key {
        PropKey::Ident(k) => format!("{}: {}", k, lit(&p.value)),
        PropKey::Str(k) => format!("\"{}\": {}", k, lit(&p.value)),
    }
}

/// Prints an expression as JavaScript source, adding no parentheses of its own.
fn expr(e: &JsExpr) -> String {
    match e {
        JsExpr::Hole => "<expr>".to_string(),
        JsExpr::Literal(l) => lit(l),
        JsExpr::Ident(s) => s.clone(),
        JsExpr::Call(c, args) => format!("{}({})", expr(c), args.iter().map(expr).collect::<Vec<_>>().join(", ")),
        JsExpr::New(c, args) => format!("new {}({})", expr(c), args.iter().map(expr).collect::<Vec<_>>().join(", ")),
        JsExpr::Member(o, p) => format!("{}.{}", expr(o), p),
        JsExpr::Index(o, i) => format!("{}[{}]", expr(o), expr(i)),
        JsExpr::PostIncrement(t) => format!("{}++", expr(t)),
        JsExpr::Assign(t, v) => format!("{} = {}", expr(t), expr(v)),
        JsExpr::Cond(t, a, b) => format!("{} ? {} : {}", expr(t), expr(a), expr(b)),
        JsExpr::Sequence(items) => items.iter().map(expr).collect::<Vec<_>>().join(", "),
        JsExpr::Paren(x) => format!("({})", expr(x)),
        JsExpr::Not(x) => format!("!{}", expr(x)),
        JsExpr::Binary(op, l, r) => {
            let o = match op {
                BinaryOp::LogicalAnd => "&&",
                BinaryOp::LogicalOr => "||",
                BinaryOp::NotEqEq => "!==",
            };
            format!("{} {} {}", expr(l), o, expr(r))
        }
        JsExpr::Function(body) => format!("function () {{ {} }}", stmts(body)),
    }
}

fn stmts(body: &[JsStmt]) -> String {
    body.iter().map(stmt).collect::<Vec<_>>().join(" ")
}

fn stmt(s: &JsStmt) -> String {
    match s {
        JsStmt::Expr(e) => format!("{};", expr(e)),
        JsStmt::Var(n, e) | JsStmt::VarAssignPat(n, e) => format!("var {} = {};", n, expr(e)),
        JsStmt::If(t, body) => format!("if ({}) {{ {} }}", expr(t), stmts(body)),
        JsStmt::Block(body) => format!("{{ {} }}", stmts(body)),
        JsStmt::Return(e) => format!("return {};", expr(e)),
        JsStmt::FnDecl(n, body) => format!("function {}() {{ {} }}", n, stmts(body)),
    }
}

#[test]
fn counter_increments() {
    let var = "cov_17709493053001988098";
    assert_eq!(expr(&create_increase_counter_expr("s", 0, var, None)), "cov_17709493053001988098().s[0]++");
    assert_eq!(expr(&create_increase_counter_expr("b", 3, var, Some(1))), "cov_17709493053001988098().b[3][1]++");
    assert_eq!(expr(&build_increase_expression_expr("f", 7, "cov_1", None)), "cov_1().f[7]++");
}

#[test]
fn truthy_counter_wraps_the_expression() {
    let e = create_increase_true_expr(2, 1, "cov_1", "cov_1_temp", JsExpr::Hole);
    assert_eq!(
        expr(&e),
        "cov_1().cov_1_temp = <expr>, (cov_1().cov_1_temp && (!Array.isArray(cov_1().cov_1_temp) || \
         cov_1().cov_1_temp.length) && (Object.getPrototypeOf(cov_1().cov_1_temp) !== Object.prototype || \
         Object.values(cov_1().cov_1_temp).length) ? cov_1().bT[2][1]++ : null), cov_1().cov_1_temp"
    );
}

#[test]
fn coverage_fn_names() {
    let (name, temp) = create_coverage_fn_ident(17709493053001988098);
    assert_eq!(name, "cov_17709493053001988098");
    assert_eq!(temp, "cov_17709493053001988098_temp");
    let (name, temp) = create_coverage_fn_ident(0);
    assert_eq!(name, "cov_0");
    assert_eq!(temp, "cov_0_temp");
}

#[test]
fn global_scope_lookup() {
    assert_eq!(
        stmt(&create_global_stmt_template("this")),
        "var global = (new ((function(){}).constructor)(\"return this\"))();"
    );
    assert_eq!(stmt(&create_assignment_stmt("x", JsExpr::Literal(JsLiteral::Num(1)))), "var x = 1;");
}

#[test]
fn coverage_function_declaration() {
    let data = FileCoverage::empty("a.js".to_string(), false);
    let (decl, comment) = create_coverage_fn_decl(
        "__coverage__",
        create_global_stmt_template("this"),
        "cov_5",
        "a.js",
        &data,
        "11",
        42,
        None,
    );
    assert!(comment.is_none());
    assert_eq!(
        stmt(&decl),
        "function cov_5() { var path = \"a.js\"; var hash = \"42\"; \
         var global = (new ((function(){}).constructor)(\"return this\"))(); var gcv = \"__coverage__\"; \
         var coverageData = {all: false, path: \"a.js\", statementMap: {}, fnMap: {}, branchMap: {}, s: {}, f: {}, \
         b: {}, _coverageSchema: \"11\", hash: \"42\"}; var coverage = global[gcv] || (global[gcv] = {}); \
         if (!coverage[path] || coverage[path].hash !== hash) { coverage[path] = coverageData; } \
         var actualCoverage = coverage[path]; { cov_5 = function () { return actualCoverage; }; } \
         return actualCoverage; }"
    );
    let (_, comment) = create_coverage_fn_decl(
        "__coverage__",
        create_global_stmt_template("this"),
        "cov_5",
        "a.js",
        &data,
        "11",
        42,
        Some("{\"path\":\"a.js\"}"),
    );
    assert_eq!(comment.unwrap(), "__coverage_data_json_comment__::{\"path\":\"a.js\"}");
}

#[test]
fn coverage_templates_with_either_global_lookup() {
    let data = FileCoverage::empty("b.js".to_string(), false);
    let (decl, call, comment) =
        get_coverage_templates(&data, "__coverage__", "this", true, "cov_9", "b.js", "s", 7, None);
    assert!(comment.is_none());
    assert_eq!(stmt(&call), "cov_9();");
    assert!(stmt(&decl).contains("var global = (new ((function(){}).constructor)(\"return this\"))();"));
    let (decl, _, comment) =
        get_coverage_templates(&data, "__coverage__", "globalThis", false, "cov_9", "b.js", "s", 7, Some("{}"));
    assert_eq!(comment.unwrap(), "__coverage_data_json_comment__::{}");
    assert!(stmt(&decl).contains("var hash = \"7\"; var global = globalThis; var gcv = \"__coverage__\";"));
}
