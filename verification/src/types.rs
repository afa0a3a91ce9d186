use vstd::prelude::*;
use crate::range::Range;

verus! {

/// Metadata of an instrumented function.
#[derive(Clone, Debug)]
pub struct Function {
    pub name: String,
    pub decl: Range,
    pub loc: Range,
    pub line: u32,
}

/// The mathematical value of a [`Function`].
pub struct FunctionView {
    pub name: Seq<char>,
    pub decl: Range,
    pub loc: Range,
    pub line: u32,
}

impl View for Function {
    type V = FunctionView;

    open spec fn view(&self) -> FunctionView {
        FunctionView { name: self.name@, decl: self.decl, loc: self.loc, line: self.line }
    }
}

/// The kind of code construct a branch counter belongs to.
#[derive(Copy, Clone, Debug, PartialEq, Eq, Structural)]
pub enum BranchType {
    BinaryExpr,
    DefaultArg,
    If,
    Switch,
    CondExpr,
}

/// The kebab-case name istanbul uses for a branch type.
pub open spec fn branch_type_name(t: BranchType) -> Seq<char> {
    match t {
        BranchType::BinaryExpr => "binary-expr"@,
        BranchType::DefaultArg => "default-arg"@,
        BranchType::If => "if"@,
        BranchType::Switch => "switch"@,
        BranchType::CondExpr => "cond-expr"@,
    }
}

impl BranchType {
    /// The kebab-case name of the branch type, e.g. `"binary-expr"`.
    pub fn to_string(&self) -> (r: String)
        ensures
            r@ == branch_type_name(*self),
    {
        match self {
            BranchType::BinaryExpr => String::from_str("binary-expr"),
            BranchType::DefaultArg => String::from_str("default-arg"),
            BranchType::If => String::from_str("if"),
            BranchType::Switch => String::from_str("switch"),
            BranchType::CondExpr => String::from_str("cond-expr"),
        }
    }
}

/// Metadata of a branch: its location, kind, and the locations of its paths.
#[derive(Clone, Debug)]
pub struct Branch {
    pub loc: Option<Range>,
    pub branch_type: BranchType,
    pub locations: Vec<Range>,
    pub line: Option<u32>,
}

/// The mathematical value of a [`Branch`].
pub struct BranchView {
    pub loc: Option<Range>,
    pub branch_type: BranchType,
    pub locations: Seq<Range>,
    pub line: Option<u32>,
}

impl View for Branch {
    type V = BranchView;

    open spec fn view(&self) -> BranchView {
        BranchView {
            loc: self.loc,
            branch_type: self.branch_type,
            locations: self.locations@,
            line: self.line,
        }
    }
}

impl Branch {
    pub fn from_line(branch_type: BranchType, line: u32, locations: Vec<Range>) -> (r: Branch)
        ensures
            r@ == (BranchView {
                loc: None,
                branch_type,
                locations: locations@,
                line: Some(line),
            }),
    {
        Branch { loc: None, branch_type, locations, line: Some(line) }
    }

    pub fn from_loc(branch_type: BranchType, loc: Range, locations: Vec<Range>) -> (r: Branch)
        ensures
            r@ == (BranchView {
                loc: Some(loc),
                branch_type,
                locations: locations@,
                line: None,
            }),
    {
        Branch { loc: Some(loc), branch_type, locations, line: None }
    }

    /// Whether at least one path location was recorded for this branch.
    pub fn has_locations(&self) -> (r: bool)
        ensures
            r == (self@.locations.len() > 0),
    {
        self.locations.len() != 0
    }
}

/// Different branch types have different names.
pub proof fn lemma_branch_type_name_injective(a: BranchType, b: BranchType)
    requires
        branch_type_name(a) == branch_type_name(b),
    ensures
        a == b,
{
    reveal_strlit("binary-expr");
    reveal_strlit("default-arg");
    reveal_strlit("if");
    reveal_strlit("switch");
    reveal_strlit("cond-expr");
    assert(branch_type_name(a)[0] == first_char_of_name(a));
    assert(branch_type_name(b)[0] == first_char_of_name(b));
}

/// The first character of each branch type's name; they are pairwise distinct.
spec fn first_char_of_name(t: BranchType) -> char {
    match t {
        BranchType::BinaryExpr => 'b',
        BranchType::DefaultArg => 'd',
        BranchType::If => 'i',
        BranchType::Switch => 's',
        BranchType::CondExpr => 'c',
    }
}

} // verus!
