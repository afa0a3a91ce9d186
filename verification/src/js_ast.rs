//! A small JavaScript syntax tree: the expressions and statements that
//! instrumentation inserts into a program.
use vstd::prelude::*;
use crate::coverage_object::{lit_view, JsLiteral, LitView};

verus! {

/// A binary operator of [`JsExpr::Binary`].
#[derive(Copy, Clone, Debug, PartialEq, Eq, Structural)]
pub enum BinaryOp {
    /// `&&`
    LogicalAnd,
    /// `||`
    LogicalOr,
    /// `!==`
    NotEqEq,
}

/// A JavaScript expression. `Hole` stands for an expression of the program being
/// instrumented.
#[derive(Debug)]
pub enum JsExpr {
    Hole,
    Literal(JsLiteral),
    Ident(String),
    /// `callee(args...)`
    Call(Box<JsExpr>, Vec<JsExpr>),
    /// `new callee(args...)`
    New(Box<JsExpr>, Vec<JsExpr>),
    /// `object.property`
    Member(Box<JsExpr>, String),
    /// `object[index]`
    Index(Box<JsExpr>, Box<JsExpr>),
    /// `target++`
    PostIncrement(Box<JsExpr>),
    /// `target = value`
    Assign(Box<JsExpr>, Box<JsExpr>),
    /// `test ? then : otherwise`
    Cond(Box<JsExpr>, Box<JsExpr>, Box<JsExpr>),
    /// `a, b, ...`
    Sequence(Vec<JsExpr>),
    /// `(inner)`
    Paren(Box<JsExpr>),
    /// `!operand`
    Not(Box<JsExpr>),
    Binary(BinaryOp, Box<JsExpr>, Box<JsExpr>),
    /// `function () { body }`
    Function(Vec<JsStmt>),
}

/// A JavaScript statement.
#[derive(Debug)]
pub enum JsStmt {
    /// `expr;`
    Expr(JsExpr),
    /// `var name = init;`
    Var(String, JsExpr),
    /// `var name = value;` written as a declaration whose pattern carries the value.
    VarAssignPat(String, JsExpr),
    /// `if (test) { then... }`
    If(JsExpr, Vec<JsStmt>),
    /// `{ body... }`
    Block(Vec<JsStmt>),
    /// `return value;`
    Return(JsExpr),
    /// `function name() { body... }`
    FnDecl(String, Vec<JsStmt>),
}

/// The mathematical value of a [`JsExpr`].
pub enum ExprView {
    Hole,
    Literal(LitView),
    Ident(Seq<char>),
    Call(Box<ExprView>, Seq<ExprView>),
    New(Box<ExprView>, Seq<ExprView>),
    Member(Box<ExprView>, Seq<char>),
    Index(Box<ExprView>, Box<ExprView>),
    PostIncrement(Box<ExprView>),
    Assign(Box<ExprView>, Box<ExprView>),
    Cond(Box<ExprView>, Box<ExprView>, Box<ExprView>),
    Sequence(Seq<ExprView>),
    Paren(Box<ExprView>),
    Not(Box<ExprView>),
    Binary(BinaryOp, Box<ExprView>, Box<ExprView>),
    Function(Seq<StmtView>),
}

/// The mathematical value of a [`JsStmt`].
pub enum StmtView {
    Expr(ExprView),
    Var(Seq<char>, ExprView),
    VarAssignPat(Seq<char>, ExprView),
    If(ExprView, Seq<StmtView>),
    Block(Seq<StmtView>),
    Return(ExprView),
    FnDecl(Seq<char>, Seq<StmtView>),
}

/// The mathematical value of an expression.
pub open spec fn expr_view(e: JsExpr) -> ExprView
    decreases e,
{
    proof {
        broadcast use vstd::std_specs::vec::axiom_vec_decreases_to_view;
    }
    match e {
        JsExpr::Hole => ExprView::Hole,
        JsExpr::Literal(l) => ExprView::Literal(lit_view(l)),
        JsExpr::Ident(s) => ExprView::Ident(s@),
        JsExpr::Call(callee, args) => {
            proof {
                assert(decreases_to!(args => args@));
            }
            ExprView::Call(Box::new(expr_view(*callee)), exprs_view(args@))
        },
        JsExpr::New(callee, args) => {
            proof {
                assert(decreases_to!(args => args@));
            }
            ExprView::New(Box::new(expr_view(*callee)), exprs_view(args@))
        },
        JsExpr::Member(o, p) => ExprView::Member(Box::new(expr_view(*o)), p@),
        JsExpr::Index(o, i) => ExprView::Index(Box::new(expr_view(*o)), Box::new(expr_view(*i))),
        JsExpr::PostIncrement(t) => ExprView::PostIncrement(Box::new(expr_view(*t))),
        JsExpr::Assign(t, v) => ExprView::Assign(Box::new(expr_view(*t)), Box::new(expr_view(*v))),
        JsExpr::Cond(t, a, b) => ExprView::Cond(
            Box::new(expr_view(*t)),
            Box::new(expr_view(*a)),
            Box::new(expr_view(*b)),
        ),
        JsExpr::Sequence(items) => {
            proof {
                assert(decreases_to!(items => items@));
            }
            ExprView::Sequence(exprs_view(items@))
        },
        JsExpr::Paren(x) => ExprView::Paren(Box::new(expr_view(*x))),
        JsExpr::Not(x) => ExprView::Not(Box::new(expr_view(*x))),
        JsExpr::Binary(op, l, r) => ExprView::Binary(op, Box::new(expr_view(*l)), Box::new(expr_view(*r))),
        JsExpr::Function(body) => {
            proof {
                assert(decreases_to!(body => body@));
            }
            ExprView::Function(stmts_view(body@))
        },
    }
}

/// The mathematical values of a list of expressions.
pub open spec fn exprs_view(s: Seq<JsExpr>) -> Seq<ExprView>
    decreases s,
{
    if s.len() == 0 {
        Seq::empty()
    } else {
        proof {
            broadcast use vstd::seq::axiom_seq_index_decreases;
            broadcast use vstd::seq::axiom_seq_subrange_decreases;
            assert(decreases_to!(s => s[s.len() - 1]));
            assert(decreases_to!(s => s.subrange(0, s.len() - 1)));
        }
        exprs_view(s.drop_last()).push(expr_view(s.last()))
    }
}

/// The mathematical value of a statement.
pub open spec fn stmt_view(st: JsStmt) -> StmtView
    decreases st,
{
    proof {
        broadcast use vstd::std_specs::vec::axiom_vec_decreases_to_view;
    }
    match st {
        JsStmt::Expr(e) => StmtView::Expr(expr_view(e)),
        JsStmt::Var(n, e) => StmtView::Var(n@, expr_view(e)),
        JsStmt::VarAssignPat(n, e) => StmtView::VarAssignPat(n@, expr_view(e)),
        JsStmt::If(t, body) => {
            proof {
                assert(decreases_to!(body => body@));
            }
            StmtView::If(expr_view(t), stmts_view(body@))
        },
        JsStmt::Block(body) => {
            proof {
                assert(decreases_to!(body => body@));
            }
            StmtView::Block(stmts_view(body@))
        },
        JsStmt::Return(e) => StmtView::Return(expr_view(e)),
        JsStmt::FnDecl(n, body) => {
            proof {
                assert(decreases_to!(body => body@));
            }
            StmtView::FnDecl(n@, stmts_view(body@))
        },
    }
}

/// The mathematical values of a list of statements.
pub open spec fn stmts_view(s: Seq<JsStmt>) -> Seq<StmtView>
    decreases s,
{
    if s.len() == 0 {
        Seq::empty()
    } else {
        proof {
            broadcast use vstd::seq::axiom_seq_index_decreases;
            broadcast use vstd::seq::axiom_seq_subrange_decreases;
            assert(decreases_to!(s => s[s.len() - 1]));
            assert(decreases_to!(s => s.subrange(0, s.len() - 1)));
        }
        stmts_view(s.drop_last()).push(stmt_view(s.last()))
    }
}

impl View for JsExpr {
    type V = ExprView;

    open spec fn view(&self) -> ExprView {
        expr_view(*self)
    }
}

impl View for JsStmt {
    type V = StmtView;

    open spec fn view(&self) -> StmtView {
        stmt_view(*self)
    }
}

pub(crate) fn ident_expr(name: &str) -> (r: JsExpr)
    ensures
        r@ == ExprView::Ident(name@),
{
    JsExpr::Ident(name.to_string())
}

pub(crate) fn num_expr(n: u32) -> (r: JsExpr)
    ensures
        r@ == ExprView::Literal(LitView::Num(n)),
{
    JsExpr::Literal(JsLiteral::Num(n))
}

pub(crate) fn null_expr() -> (r: JsExpr)
    ensures
        r@ == ExprView::Literal(LitView::Null),
{
    JsExpr::Literal(JsLiteral::Null)
}

/// Adds an expression at the end of a list.
pub(crate) fn push_expr(items: &mut Vec<JsExpr>, e: JsExpr)
    ensures
        exprs_view(final(items)@) == exprs_view(old(items)@).push(e@),
{
    let ghost before = items@;
    items.push(e);
    assert(items@.drop_last() =~= before);
}

pub(crate) fn call_expr(callee: JsExpr, arg: Option<JsExpr>) -> (r: JsExpr)
    ensures
        r@ == ExprView::Call(
            Box::new(callee@),
            match arg {
                Some(a) => seq![a@],
                None => Seq::empty(),
            },
        ),
{
    let mut args: Vec<JsExpr> = Vec::new();
    assert(exprs_view(args@) =~= Seq::<ExprView>::empty());
    if let Some(a) = arg {
        push_expr(&mut args, a);
        assert(exprs_view(args@) =~= seq![a@]);
    }
    JsExpr::Call(Box::new(callee), args)
}

pub(crate) fn member_expr(object: JsExpr, property: &str) -> (r: JsExpr)
    ensures
        r@ == ExprView::Member(Box::new(object@), property@),
{
    JsExpr::Member(Box::new(object), property.to_string())
}

pub(crate) fn index_expr(object: JsExpr, index: JsExpr) -> (r: JsExpr)
    ensures
        r@ == ExprView::Index(Box::new(object@), Box::new(index@)),
{
    JsExpr::Index(Box::new(object), Box::new(index))
}

pub(crate) fn post_increment_expr(target: JsExpr) -> (r: JsExpr)
    ensures
        r@ == ExprView::PostIncrement(Box::new(target@)),
{
    JsExpr::PostIncrement(Box::new(target))
}

pub(crate) fn assign_expr(target: JsExpr, value: JsExpr) -> (r: JsExpr)
    ensures
        r@ == ExprView::Assign(Box::new(target@), Box::new(value@)),
{
    JsExpr::Assign(Box::new(target), Box::new(value))
}

pub(crate) fn cond_expr(test: JsExpr, then: JsExpr, otherwise: JsExpr) -> (r: JsExpr)
    ensures
        r@ == ExprView::Cond(Box::new(test@), Box::new(then@), Box::new(otherwise@)),
{
    JsExpr::Cond(Box::new(test), Box::new(then), Box::new(otherwise))
}

pub(crate) fn paren_expr(inner: JsExpr) -> (r: JsExpr)
    ensures
        r@ == ExprView::Paren(Box::new(inner@)),
{
    JsExpr::Paren(Box::new(inner))
}

pub(crate) fn not_expr(operand: JsExpr) -> (r: JsExpr)
    ensures
        r@ == ExprView::Not(Box::new(operand@)),
{
    JsExpr::Not(Box::new(operand))
}

pub(crate) fn binary_expr(op: BinaryOp, left: JsExpr, right: JsExpr) -> (r: JsExpr)
    ensures
        r@ == ExprView::Binary(op, Box::new(left@), Box::new(right@)),
{
    JsExpr::Binary(op, Box::new(left), Box::new(right))
}

/// Adds a statement at the end of a list.
pub(crate) fn push_stmt(items: &mut Vec<JsStmt>, st: JsStmt)
    ensures
        stmts_view(final(items)@) == stmts_view(old(items)@).push(st@),
{
    let ghost before = items@;
    items.push(st);
    assert(items@.drop_last() =~= before);
}

/// A list holding one statement.
pub(crate) fn single_stmt(st: JsStmt) -> (r: Vec<JsStmt>)
    ensures
        stmts_view(r@) == seq![st@],
{
    let mut items: Vec<JsStmt> = Vec::new();
    assert(stmts_view(items@) =~= Seq::<StmtView>::empty());
    push_stmt(&mut items, st);
    assert(stmts_view(items@) =~= seq![st@]);
    items
}

} // verus!
