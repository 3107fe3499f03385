use vstd::prelude::*;

verus! {

/// One expression of the template syntax tree, reduced to what variable
/// discovery reads.  Every expression form that carries no identifier
/// (a literal, a test, a containment check) is collapsed into `Opaque`.
pub enum AstExpr {
    /// A reference to a variable path, kept exactly as written in the
    /// template source (`name`, `product.name`, `product[0]`).
    Ident(String),
    /// A string concatenation of sub-expressions, in source order.
    Concat(Vec<AstExpr>),
    /// An array literal, elements in source order.
    Array(Vec<AstExpr>),
    /// A macro call; only the argument value expressions matter here.
    MacroCall(Vec<AstExpr>),
    /// A function call; only the argument value expressions matter here.
    FunctionCall(Vec<AstExpr>),
    /// A logical binary expression: left and right operand.
    Logic(Box<AstExpr>, Box<AstExpr>),
    /// An arithmetic binary expression: left and right operand.
    Math(Box<AstExpr>, Box<AstExpr>),
    /// Any other expression form: contributes no identifiers.
    Opaque,
}

/// One statement or block node of the template syntax tree, reduced to what
/// variable discovery and scoping read.  AstNode forms irrelevant to discovery
/// (raw text, comments, macro definitions, ...) are collapsed into `Opaque`.
pub enum AstNode {
    /// A named block; only its body matters here.
    Block(Vec<AstNode>),
    /// A variable output (`{{ ... }}`) wrapping one expression.
    Output(AstExpr),
    /// An if/elif/else chain: the (condition, body) pairs in source order,
    /// and the optional else body.
    If(Vec<(AstExpr, Vec<AstNode>)>, Option<Vec<AstNode>>),
    /// A filter section: the filter's argument expressions, then the body.
    Filter(Vec<AstExpr>, Vec<AstNode>),
    /// A for loop: the loop variable name, the container expression, and
    /// the loop body.
    For(String, AstExpr, Vec<AstNode>),
    /// A set statement binding a name to a value expression.
    SetVar(String, AstExpr),
    /// Any other node form: contributes nothing.
    Opaque,
}

} // verus!
