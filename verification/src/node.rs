use vstd::prelude::*;

verus! {

/// The kinds of syntax node the instrumentation visitor keeps on its stack.
#[derive(Copy, Debug, Clone, PartialEq, Eq, Structural)]
pub enum Node {
    Root,
    VarDeclarator,
    ExprStmt,
    ModuleItems,
    ArrowExpr,
    SetterProp,
    GetterProp,
    MethodProp,
    BinExpr,
    CondExpr,
    LabeledStmt,
    FnExpr,
    FnDecl,
    WithStmt,
    SwitchCase,
    SwitchStmt,
    DoWhileStmt,
    WhileStmt,
    ForOfStmt,
    ForInStmt,
    ForStmt,
    IfStmt,
    VarDecl,
    TryStmt,
    ThrowStmt,
    ReturnStmt,
    DebuggerStmt,
    ContinueStmt,
    BreakStmt,
    PrivateProp,
    ClassProp,
    ClassDecl,
    ClassMethod,
    ExportDecl,
    ExportDefaultDecl,
    BlockStmt,
    AssignPat,
}

/// The name of a node kind, as it is printed.
pub open spec fn node_name(n: Node) -> Seq<char> {
    match n {
        Node::Root => "Root"@,
        Node::VarDeclarator => "VarDeclarator"@,
        Node::ExprStmt => "ExprStmt"@,
        Node::ModuleItems => "ModuleItems"@,
        Node::ArrowExpr => "ArrowExpr"@,
        Node::SetterProp => "SetterProp"@,
        Node::GetterProp => "GetterProp"@,
        Node::MethodProp => "MethodProp"@,
        Node::BinExpr => "BinExpr"@,
        Node::CondExpr => "CondExpr"@,
        Node::LabeledStmt => "LabeledStmt"@,
        Node::FnExpr => "FnExpr"@,
        Node::FnDecl => "FnDecl"@,
        Node::WithStmt => "WithStmt"@,
        Node::SwitchCase => "SwitchCase"@,
        Node::SwitchStmt => "SwitchStmt"@,
        Node::DoWhileStmt => "DoWhileStmt"@,
        Node::WhileStmt => "WhileStmt"@,
        Node::ForOfStmt => "ForOfStmt"@,
        Node::ForInStmt => "ForInStmt"@,
        Node::ForStmt => "ForStmt"@,
        Node::IfStmt => "IfStmt"@,
        Node::VarDecl => "VarDecl"@,
        Node::TryStmt => "TryStmt"@,
        Node::ThrowStmt => "ThrowStmt"@,
        Node::ReturnStmt => "ReturnStmt"@,
        Node::DebuggerStmt => "DebuggerStmt"@,
        Node::ContinueStmt => "ContinueStmt"@,
        Node::BreakStmt => "BreakStmt"@,
        Node::PrivateProp => "PrivateProp"@,
        Node::ClassProp => "ClassProp"@,
        Node::ClassDecl => "ClassDecl"@,
        Node::ClassMethod => "ClassMethod"@,
        Node::ExportDecl => "ExportDecl"@,
        Node::ExportDefaultDecl => "ExportDefaultDecl"@,
        Node::BlockStmt => "BlockStmt"@,
        Node::AssignPat => "AssignPat"@,
    }
}

impl Node {
    /// The name of the node kind, e.g. `"IfStmt"`.
    pub fn to_string(&self) -> (r: String)
        ensures
            r@ == node_name(*self),
    {
        let name: &str = match self {
            Node::Root => "Root",
            Node::VarDeclarator => "VarDeclarator",
            Node::ExprStmt => "ExprStmt",
            Node::ModuleItems => "ModuleItems",
            Node::ArrowExpr => "ArrowExpr",
            Node::SetterProp => "SetterProp",
            Node::GetterProp => "GetterProp",
            Node::MethodProp => "MethodProp",
            Node::BinExpr => "BinExpr",
            Node::CondExpr => "CondExpr",
            Node::LabeledStmt => "LabeledStmt",
            Node::FnExpr => "FnExpr",
            Node::FnDecl => "FnDecl",
            Node::WithStmt => "WithStmt",
            Node::SwitchCase => "SwitchCase",
            Node::SwitchStmt => "SwitchStmt",
            Node::DoWhileStmt => "DoWhileStmt",
            Node::WhileStmt => "WhileStmt",
            Node::ForOfStmt => "ForOfStmt",
            Node::ForInStmt => "ForInStmt",
            Node::ForStmt => "ForStmt",
            Node::IfStmt => "IfStmt",
            Node::VarDecl => "VarDecl",
            Node::TryStmt => "TryStmt",
            Node::ThrowStmt => "ThrowStmt",
            Node::ReturnStmt => "ReturnStmt",
            Node::DebuggerStmt => "DebuggerStmt",
            Node::ContinueStmt => "ContinueStmt",
            Node::BreakStmt => "BreakStmt",
            Node::PrivateProp => "PrivateProp",
            Node::ClassProp => "ClassProp",
            Node::ClassDecl => "ClassDecl",
            Node::ClassMethod => "ClassMethod",
            Node::ExportDecl => "ExportDecl",
            Node::ExportDefaultDecl => "ExportDefaultDecl",
            Node::BlockStmt => "BlockStmt",
            Node::AssignPat => "AssignPat",
        };
        name.to_string()
    }
}

/// The names of a node stack, from the bottom, joined with `:`.
pub open spec fn node_path(nodes: Seq<Node>) -> Seq<char>
    decreases nodes.len(),
{
    if nodes.len() == 0 {
        Seq::empty()
    } else if nodes.len() == 1 {
        node_name(nodes[0])
    } else {
        node_path(nodes.drop_last()) + ":"@ + node_name(nodes.last())
    }
}

/// Prints the stack of nodes being visited, e.g. `"Root:IfStmt:BlockStmt"`.
pub fn print_node(nodes: &Vec<Node>) -> (r: String)
    ensures
        r@ == node_path(nodes@),
{
    let mut r = String::new();
    let mut i: usize = 0;
    while i < nodes.len()
        invariant
            i <= nodes.len(),
            r@ == node_path(nodes@.take(i as int)),
        decreases nodes.len() - i,
    {
        if i > 0 {
            r.append(":");
        }
        let name = nodes[i].to_string();
        r.append(name.as_str());
        i = i + 1;
        assert(nodes@.take(i as int).drop_last() =~= nodes@.take((i - 1) as int));
    }
    assert(nodes@.take(i as int) =~= nodes@);
    r
}

} // verus!
