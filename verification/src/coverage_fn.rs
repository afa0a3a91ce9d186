//! The function that instrumented code calls to reach its file's coverage
//! object, and the statements around it.
use vstd::prelude::*;
use crate::coverage_object::{
    coverage_object, create_coverage_data_object, JsLiteral, LitView, IDENT_HASH, IDENT_PATH,
};
use crate::file_coverage::FileCoverage;
use crate::js_ast::{
    assign_expr, binary_expr, call_expr, ident_expr, index_expr, member_expr, not_expr, paren_expr,
    push_stmt, single_stmt, stmts_view, BinaryOp, ExprView, JsExpr, JsStmt, StmtView, exprs_view,
    push_expr,
};
use crate::text::{decimal, decimal_string};

verus! {

pub const IDENT_GCV: &'static str = "gcv";
pub const IDENT_COVERAGE_DATA: &'static str = "coverageData";
pub const IDENT_GLOBAL: &'static str = "global";
pub const IDENT_COVERAGE: &'static str = "coverage";
pub const IDENT_ACTUAL_COVERAGE: &'static str = "actualCoverage";

/// An identifier whose text reaches the `Function` constructor without naming it.
pub const FUNCTION_CONSTRUCTOR: &'static str = "((function(){}).constructor)";

/// What starts the comment that carries the coverage data as JSON.
pub const COVERAGE_DATA_COMMENT_PREFIX: &'static str = "__coverage_data_json_comment__::";

/// `var name = value;`, written as a declaration whose pattern carries the value.
pub open spec fn assignment_stmt(name: Seq<char>, value: ExprView) -> StmtView {
    StmtView::VarAssignPat(name, value)
}

/// `var global = (new ((function(){}).constructor)("return <scope>"))();`
pub open spec fn global_stmt_template(scope: Seq<char>) -> StmtView {
    let construct = ExprView::New(
        Box::new(ExprView::Ident(FUNCTION_CONSTRUCTOR@)),
        seq![ExprView::Literal(LitView::Str("return "@ + scope))],
    );
    assignment_stmt(
        IDENT_GLOBAL@,
        ExprView::Call(Box::new(ExprView::Paren(Box::new(construct))), Seq::empty()),
    )
}

/// `coverage[path]`
pub open spec fn coverage_of_path() -> ExprView {
    ExprView::Index(Box::new(ExprView::Ident(IDENT_COVERAGE@)), Box::new(ExprView::Ident(IDENT_PATH@)))
}

/// `global[gcv]`
pub open spec fn global_coverage() -> ExprView {
    ExprView::Index(Box::new(ExprView::Ident(IDENT_GLOBAL@)), Box::new(ExprView::Ident(IDENT_GCV@)))
}

/// The body of the coverage function:
/// ```js
/// var path = "<file_path>";
/// var hash = "<hash>";
/// <template>
/// var gcv = "<coverage_variable>";
/// var coverageData = <data_object>;
/// var coverage = global[gcv] || (global[gcv] = {});
/// if (!coverage[path] || coverage[path].hash !== hash) { coverage[path] = coverageData; }
/// var actualCoverage = coverage[path];
/// { <cov_fn> = function () { return actualCoverage; } }
/// return actualCoverage;
/// ```
pub open spec fn coverage_fn_body(
    coverage_variable: Seq<char>,
    template: StmtView,
    cov_fn: Seq<char>,
    file_path: Seq<char>,
    data_object: LitView,
    hash: Seq<char>,
) -> Seq<StmtView> {
    let actual = ExprView::Ident(IDENT_ACTUAL_COVERAGE@);
    seq![
        assignment_stmt(IDENT_PATH@, ExprView::Literal(LitView::Str(file_path))),
        assignment_stmt(IDENT_HASH@, ExprView::Literal(LitView::Str(hash))),
        template,
        assignment_stmt(IDENT_GCV@, ExprView::Literal(LitView::Str(coverage_variable))),
        assignment_stmt(IDENT_COVERAGE_DATA@, ExprView::Literal(data_object)),
        StmtView::Var(
            IDENT_COVERAGE@,
            ExprView::Binary(
                BinaryOp::LogicalOr,
                Box::new(global_coverage()),
                Box::new(
                    ExprView::Paren(
                        Box::new(
                            ExprView::Assign(
                                Box::new(global_coverage()),
                                Box::new(ExprView::Literal(LitView::Object(Seq::empty()))),
                            ),
                        ),
                    ),
                ),
            ),
        ),
        StmtView::If(
            ExprView::Binary(
                BinaryOp::LogicalOr,
                Box::new(ExprView::Not(Box::new(coverage_of_path()))),
                Box::new(
                    ExprView::Binary(
                        BinaryOp::NotEqEq,
                        Box::new(ExprView::Member(Box::new(coverage_of_path()), IDENT_HASH@)),
                        Box::new(ExprView::Ident(IDENT_HASH@)),
                    ),
                ),
            ),
            seq![
                StmtView::Expr(
                    ExprView::Assign(
                        Box::new(coverage_of_path()),
                        Box::new(ExprView::Ident(IDENT_COVERAGE_DATA@)),
                    ),
                ),
            ],
        ),
        StmtView::Var(IDENT_ACTUAL_COVERAGE@, coverage_of_path()),
        StmtView::Block(
            seq![
                StmtView::Expr(
                    ExprView::Assign(
                        Box::new(ExprView::Ident(cov_fn)),
                        Box::new(ExprView::Function(seq![StmtView::Return(actual)])),
                    ),
                ),
            ],
        ),
        StmtView::Return(actual),
    ]
}

/// Creates `var <name> = <value>;`.
pub fn create_assignment_stmt(var_decl_ident: &str, value: JsExpr) -> (r: JsStmt)
    ensures
        r@ == assignment_stmt(var_decl_ident@, value@),
{
    JsStmt::VarAssignPat(var_decl_ident.to_string(), value)
}

/// Creates the statement that looks up the global scope:
/// `var global = (new ((function(){}).constructor)("return <scope>"))();`.
pub fn create_global_stmt_template(coverage_global_scope: &str) -> (r: JsStmt)
    ensures
        r@ == global_stmt_template(coverage_global_scope@),
{
    let mut body = String::from_str("return ");
    body.append(coverage_global_scope);
    let ghost text = body@;
    let mut args: Vec<JsExpr> = Vec::new();
    assert(exprs_view(args@) =~= Seq::<ExprView>::empty());
    push_expr(&mut args, JsExpr::Literal(JsLiteral::Str(body)));
    assert(exprs_view(args@) =~= seq![ExprView::Literal(LitView::Str(text))]);
    let construct = JsExpr::New(Box::new(ident_expr(FUNCTION_CONSTRUCTOR)), args);
    create_assignment_stmt(IDENT_GLOBAL, call_expr(paren_expr(construct), None))
}

/// The names of a file's coverage function and of its temporary for truthy
/// counters: `cov_<hash>` and `cov_<hash>_temp`, where `path_hash` is the hash of
/// the file path.
pub fn create_coverage_fn_ident(path_hash: u64) -> (r: (String, String))
    ensures
        r.0@ == "cov_"@ + decimal(path_hash as nat),
        r.1@ == "cov_"@ + decimal(path_hash as nat) + "_temp"@,
{
    let mut name = String::from_str("cov_");
    let digits = decimal_string(path_hash);
    name.append(digits.as_str());
    let mut temp = name.clone();
    temp.append("_temp");
    (name, temp)
}

fn coverage_of_path_expr() -> (r: JsExpr)
    ensures
        r@ == coverage_of_path(),
{
    index_expr(ident_expr(IDENT_COVERAGE), ident_expr(IDENT_PATH))
}

fn global_coverage_expr() -> (r: JsExpr)
    ensures
        r@ == global_coverage(),
{
    index_expr(ident_expr(IDENT_GLOBAL), ident_expr(IDENT_GCV))
}

fn str_expr(value: &str) -> (r: JsExpr)
    ensures
        r@ == ExprView::Literal(LitView::Str(value@)),
{
    JsExpr::Literal(JsLiteral::Str(value.to_string()))
}

/// Creates the declaration of the function through which instrumented code reaches
/// the coverage object of its file, registering the object in the global coverage
/// variable on first use.
///
/// `coverage_schema` and `coverage_hash` go into the data object (see
/// [`create_coverage_data_object`]). When `coverage_data_json` is given, the text of
/// a comment carrying it is returned too, for the caller to attach to the output.
pub fn create_coverage_fn_decl(
    coverage_variable: &str,
    coverage_template: JsStmt,
    cov_fn_ident: &str,
    file_path: &str,
    coverage_data: &FileCoverage,
    coverage_schema: &str,
    coverage_hash: u64,
    coverage_data_json: Option<&str>,
) -> (r: (JsStmt, Option<String>))
    ensures
        r.0@ == StmtView::FnDecl(
            cov_fn_ident@,
            coverage_fn_body(
                coverage_variable@,
                coverage_template@,
                cov_fn_ident@,
                file_path@,
                coverage_object(coverage_data@, coverage_schema@, decimal(coverage_hash as nat)),
                decimal(coverage_hash as nat),
            ),
        ),
        match coverage_data_json {
            Some(j) => r.1 matches Some(c) && c@ == COVERAGE_DATA_COMMENT_PREFIX@ + j@,
            None => r.1 is None,
        },
{
    let ghost template = coverage_template@;
    let mut stmts: Vec<JsStmt> = Vec::new();
    assert(stmts_view(stmts@) =~= Seq::<StmtView>::empty());
    push_stmt(&mut stmts, create_assignment_stmt(IDENT_PATH, str_expr(file_path)));
    let (hash, coverage_data_object) = create_coverage_data_object(coverage_data, coverage_schema, coverage_hash);
    let ghost data = coverage_data_object@;
    push_stmt(&mut stmts, create_assignment_stmt(IDENT_HASH, str_expr(hash.as_str())));
    push_stmt(&mut stmts, coverage_template);
    push_stmt(&mut stmts, create_assignment_stmt(IDENT_GCV, str_expr(coverage_variable)));
    push_stmt(
        &mut stmts,
        create_assignment_stmt(IDENT_COVERAGE_DATA, JsExpr::Literal(coverage_data_object)),
    );
    let empty_object = JsExpr::Literal(JsLiteral::Object(Vec::new()));
    assert(empty_object@ == ExprView::Literal(LitView::Object(Seq::empty())));
    let coverage_init = binary_expr(
        BinaryOp::LogicalOr,
        global_coverage_expr(),
        paren_expr(assign_expr(global_coverage_expr(), empty_object)),
    );
    push_stmt(&mut stmts, JsStmt::Var(IDENT_COVERAGE.to_string(), coverage_init));
    let stale = binary_expr(
        BinaryOp::LogicalOr,
        not_expr(coverage_of_path_expr()),
        binary_expr(
            BinaryOp::NotEqEq,
            member_expr(coverage_of_path_expr(), IDENT_HASH),
            ident_expr(IDENT_HASH),
        ),
    );
    let register = JsStmt::Expr(assign_expr(coverage_of_path_expr(), ident_expr(IDENT_COVERAGE_DATA)));
    push_stmt(&mut stmts, JsStmt::If(stale, single_stmt(register)));
    push_stmt(&mut stmts, JsStmt::Var(IDENT_ACTUAL_COVERAGE.to_string(), coverage_of_path_expr()));
    let getter = JsExpr::Function(single_stmt(JsStmt::Return(ident_expr(IDENT_ACTUAL_COVERAGE))));
    let define = JsStmt::Expr(assign_expr(ident_expr(cov_fn_ident), getter));
    push_stmt(&mut stmts, JsStmt::Block(single_stmt(define)));
    push_stmt(&mut stmts, JsStmt::Return(ident_expr(IDENT_ACTUAL_COVERAGE)));
    assert(stmts_view(stmts@) =~= coverage_fn_body(
        coverage_variable@,
        template,
        cov_fn_ident@,
        file_path@,
        data,
        decimal(coverage_hash as nat),
    ));
    let comment = match coverage_data_json {
        Some(json) => {
            let mut text = String::from_str(COVERAGE_DATA_COMMENT_PREFIX);
            text.append(json);
            Some(text)
        },
        None => None,
    };
    (JsStmt::FnDecl(cov_fn_ident.to_string(), stmts), comment)
}

/// The statement that finds the global scope: through the `Function` constructor
/// (see [`global_stmt_template`]) when `through_function`, otherwise
/// `var global = <scope>;` with the scope expression written as is.
pub open spec fn global_scope_stmt(scope: Seq<char>, through_function: bool) -> StmtView {
    if through_function {
        global_stmt_template(scope)
    } else {
        assignment_stmt(IDENT_GLOBAL@, ExprView::Ident(scope))
    }
}

/// The statements that instrumentation puts at the top of a file: the
/// declaration of the coverage function, whose global lookup is chosen by
/// `coverage_global_scope_func` (see [`global_scope_stmt`]), and a call of it, so
/// that the coverage object is registered even when nothing else in the file runs;
/// with the debug comment text when `coverage_data_json` is given (see
/// [`create_coverage_fn_decl`]).
pub fn get_coverage_templates(
    coverage_data: &FileCoverage,
    coverage_variable: &str,
    coverage_global_scope: &str,
    coverage_global_scope_func: bool,
    cov_fn_ident: &str,
    file_path: &str,
    coverage_schema: &str,
    coverage_hash: u64,
    coverage_data_json: Option<&str>,
) -> (r: (JsStmt, JsStmt, Option<String>))
    ensures
        r.0@ == StmtView::FnDecl(
            cov_fn_ident@,
            coverage_fn_body(
                coverage_variable@,
                global_scope_stmt(coverage_global_scope@, coverage_global_scope_func),
                cov_fn_ident@,
                file_path@,
                coverage_object(coverage_data@, coverage_schema@, decimal(coverage_hash as nat)),
                decimal(coverage_hash as nat),
            ),
        ),
        r.1@ == StmtView::Expr(ExprView::Call(Box::new(ExprView::Ident(cov_fn_ident@)), Seq::empty())),
        match coverage_data_json {
            Some(j) => r.2 matches Some(c) && c@ == COVERAGE_DATA_COMMENT_PREFIX@ + j@,
            None => r.2 is None,
        },
{
    let gv_template = if coverage_global_scope_func {
        create_global_stmt_template(coverage_global_scope)
    } else {
        create_assignment_stmt(IDENT_GLOBAL, ident_expr(coverage_global_scope))
    };
    let (coverage_template, comment) = create_coverage_fn_decl(
        coverage_variable,
        gv_template,
        cov_fn_ident,
        file_path,
        coverage_data,
        coverage_schema,
        coverage_hash,
        coverage_data_json,
    );
    let call = JsStmt::Expr(call_expr(ident_expr(cov_fn_ident), None));
    (coverage_template, call, comment)
}

} // verus!
