//! The expressions that instrumented code evaluates to bump a coverage counter.
use vstd::prelude::*;
use crate::coverage_object::{LitView, IDENT_BT};
use crate::js_ast::{
    assign_expr, binary_expr, call_expr, cond_expr, exprs_view, ident_expr, index_expr, member_expr,
    not_expr, null_expr, num_expr, paren_expr, post_increment_expr, push_expr, BinaryOp, ExprView,
    JsExpr,
};
use crate::source_coverage::UnknownReserved;

verus! {

/// `var_name()`: the call that yields the file's coverage object.
pub open spec fn coverage_call(var_name: Seq<char>) -> ExprView {
    ExprView::Call(Box::new(ExprView::Ident(var_name)), Seq::empty())
}

/// `var_name().type_ident[id]++`, or `var_name().type_ident[id][idx]++` for the
/// counter of path `idx` of branch `id`.
pub open spec fn counter_increment(type_ident: Seq<char>, id: u32, var_name: Seq<char>, idx: Option<u32>) -> ExprView {
    let counter = ExprView::Index(
        Box::new(ExprView::Member(Box::new(coverage_call(var_name)), type_ident)),
        Box::new(ExprView::Literal(LitView::Num(id))),
    );
    let target = match idx {
        Some(i) => ExprView::Index(Box::new(counter), Box::new(ExprView::Literal(LitView::Num(i)))),
        None => counter,
    };
    ExprView::PostIncrement(Box::new(target))
}

/// `var_name().temp_var_name`: the slot that holds the value of a logical operand.
pub open spec fn temp_member(var_name: Seq<char>, temp_var_name: Seq<char>) -> ExprView {
    ExprView::Member(Box::new(coverage_call(var_name)), temp_var_name)
}

/// `object.property` where `object` is a global name.
pub open spec fn global_member(object: Seq<char>, property: Seq<char>) -> ExprView {
    ExprView::Member(Box::new(ExprView::Ident(object)), property)
}

/// The test that the value held in the temporary is truthy and not trivially
/// empty:
/// `t && ((!Array.isArray(t) || t.length) && (Object.getPrototypeOf(t) !== Object.prototype || Object.values(t).length))`
/// where `t` is `var_name().temp_var_name`.
pub open spec fn true_non_trivial(var_name: Seq<char>, temp_var_name: Seq<char>) -> ExprView {
    let t = temp_member(var_name, temp_var_name);
    let not_empty_array = ExprView::Paren(
        Box::new(
            ExprView::Binary(
                BinaryOp::LogicalOr,
                Box::new(
                    ExprView::Not(
                        Box::new(ExprView::Call(Box::new(global_member("Array"@, "isArray"@)), seq![t])),
                    ),
                ),
                Box::new(ExprView::Member(Box::new(t), "length"@)),
            ),
        ),
    );
    let not_empty_object = ExprView::Paren(
        Box::new(
            ExprView::Binary(
                BinaryOp::LogicalOr,
                Box::new(
                    ExprView::Binary(
                        BinaryOp::NotEqEq,
                        Box::new(
                            ExprView::Call(Box::new(global_member("Object"@, "getPrototypeOf"@)), seq![t]),
                        ),
                        Box::new(global_member("Object"@, "prototype"@)),
                    ),
                ),
                Box::new(
                    ExprView::Member(
                        Box::new(ExprView::Call(Box::new(global_member("Object"@, "values"@)), seq![t])),
                        "length"@,
                    ),
                ),
            ),
        ),
    );
    ExprView::Binary(
        BinaryOp::LogicalAnd,
        Box::new(t),
        Box::new(ExprView::Binary(BinaryOp::LogicalAnd, Box::new(not_empty_array), Box::new(not_empty_object))),
    )
}

/// `(t = expr, (non_trivial(t) ? var_name().bT[id][idx]++ : null), t)` where `t` is
/// `var_name().temp_var_name`: evaluates `expr` once, counts it as truthy when it
/// is, and yields its value.
pub open spec fn true_increment(
    id: u32,
    idx: u32,
    var_name: Seq<char>,
    temp_var_name: Seq<char>,
    expr: ExprView,
) -> ExprView {
    let t = temp_member(var_name, temp_var_name);
    ExprView::Sequence(
        seq![
            ExprView::Assign(Box::new(t), Box::new(expr)),
            ExprView::Paren(
                Box::new(
                    ExprView::Cond(
                        Box::new(true_non_trivial(var_name, temp_var_name)),
                        Box::new(counter_increment(IDENT_BT@, id, var_name, Some(idx))),
                        Box::new(ExprView::Literal(LitView::Null)),
                    ),
                ),
            ),
            t,
        ],
    )
}

fn coverage_call_expr(var_name: &str) -> (r: JsExpr)
    ensures
        r@ == coverage_call(var_name@),
{
    call_expr(ident_expr(var_name), None)
}

fn temp_member_expr(var_name: &str, temp_var_name: &str) -> (r: JsExpr)
    ensures
        r@ == temp_member(var_name@, temp_var_name@),
{
    member_expr(coverage_call_expr(var_name), temp_var_name)
}

fn global_member_expr(object: &str, property: &str) -> (r: JsExpr)
    ensures
        r@ == global_member(object@, property@),
{
    member_expr(ident_expr(object), property)
}

/// Creates an expression like `cov_17709493053001988098().s[0]++`; with `idx`, one
/// like `cov_17709493053001988098().b[0][idx]++` for a counter of a branch path.
pub fn create_increase_counter_expr(type_ident: &str, id: u32, var_name: &str, idx: Option<u32>) -> (r: JsExpr)
    ensures
        r@ == counter_increment(type_ident@, id, var_name@, idx),
{
    let counter = index_expr(member_expr(coverage_call_expr(var_name), type_ident), num_expr(id));
    let target = match idx {
        Some(i) => index_expr(counter, num_expr(i)),
        None => counter,
    };
    post_increment_expr(target)
}

/// Creates an expression like `cov_17709493053001988098().s[0]++`. A path index
/// is not supported here yet: `i` must be absent.
pub fn build_increase_expression_expr(
    type_ident: &str,
    id: u32,
    var_name: &str,
    i: Option<UnknownReserved>,
) -> (r: JsExpr)
    requires
        i is None,
    ensures
        r@ == counter_increment(type_ident@, id, var_name@, None),
{
    create_increase_counter_expr(type_ident, id, var_name, None)
}

/// The test that the temporary holds a truthy, non-trivially empty value.
fn validate_true_non_trivial(var_name: &str, temp_var_name: &str) -> (r: JsExpr)
    ensures
        r@ == true_non_trivial(var_name@, temp_var_name@),
{
    let is_array = call_expr(
        global_member_expr("Array", "isArray"),
        Some(temp_member_expr(var_name, temp_var_name)),
    );
    let length = member_expr(temp_member_expr(var_name, temp_var_name), "length");
    let not_empty_array = paren_expr(binary_expr(BinaryOp::LogicalOr, not_expr(is_array), length));
    let prototype = call_expr(
        global_member_expr("Object", "getPrototypeOf"),
        Some(temp_member_expr(var_name, temp_var_name)),
    );
    let not_plain = binary_expr(BinaryOp::NotEqEq, prototype, global_member_expr("Object", "prototype"));
    let values = call_expr(
        global_member_expr("Object", "values"),
        Some(temp_member_expr(var_name, temp_var_name)),
    );
    let values_length = member_expr(values, "length");
    let not_empty_object = paren_expr(binary_expr(BinaryOp::LogicalOr, not_plain, values_length));
    binary_expr(
        BinaryOp::LogicalAnd,
        temp_member_expr(var_name, temp_var_name),
        binary_expr(BinaryOp::LogicalAnd, not_empty_array, not_empty_object),
    )
}

/// Wraps `expr` so that it is evaluated once into the temporary, the truthy
/// counter of path `idx` of branch `id` is bumped when its value is truthy and not
/// trivially empty, and the value is yielded.
pub fn create_increase_true_expr(id: u32, idx: u32, var_name: &str, temp_var_name: &str, expr: JsExpr) -> (r:
    JsExpr)
    ensures
        r@ == true_increment(id, idx, var_name@, temp_var_name@, expr@),
{
    let ghost e = expr@;
    let assignment = assign_expr(temp_member_expr(var_name, temp_var_name), expr);
    let paren = paren_expr(
        cond_expr(
            validate_true_non_trivial(var_name, temp_var_name),
            create_increase_counter_expr(IDENT_BT, id, var_name, Some(idx)),
            null_expr(),
        ),
    );
    let mut items: Vec<JsExpr> = Vec::new();
    let ghost a = assignment@;
    let ghost p = paren@;
    push_expr(&mut items, assignment);
    push_expr(&mut items, paren);
    push_expr(&mut items, temp_member_expr(var_name, temp_var_name));
    assert(exprs_view(items@) =~= seq![a, p, temp_member(var_name@, temp_var_name@)]);
    JsExpr::Sequence(items)
}

} // verus!
