use vstd::prelude::*;

use std::collections::HashMap;

use crate::ast::{AstExpr, AstNode};
use tera::ast::{ExprVal, Node};

verus! {

#[verifier::external_type_specification]
#[verifier::external_body]
pub struct ExTera(tera::Tera);

#[verifier::external_type_specification]
#[verifier::external_body]
pub struct ExTeraContext(tera::Context);

#[verifier::external_type_specification]
#[verifier::external_body]
pub struct ExAstNode(tera::ast::Node);

#[verifier::external_type_specification]
#[verifier::external_body]
pub struct ExAstExpr(tera::ast::Expr);

#[verifier::external_type_specification]
#[verifier::external_body]
pub struct ExAstExprVal(tera::ast::ExprVal);

#[verifier::external_type_specification]
#[verifier::external_body]
pub struct ExAstIf(tera::ast::If);

#[verifier::external_type_specification]
#[verifier::external_body]
pub struct ExJsonValue(serde_json::Value);

/// Whether the engine parses this template source successfully.  The
/// outcome is a function of the source text alone: the grammar and the
/// built-ins are fixed, and the fresh engine the parse runs on holds no
/// other template that its inheritance pass could read.
pub uninterp spec fn parse_ok(source: Seq<char>) -> bool;

/// Whether this text parses as a JSON object with string keys.  The
/// outcome is a function of the text alone.
pub uninterp spec fn json_object_ok(text: Seq<char>) -> bool;

/// Relies on tera::Tera::default and tera::Tera::add_raw_template: builds
/// a fresh engine and parses the source text into it as the template
/// named "tpl".  The two calls stand in one item because the parse
/// outcome is a function of the source text only on a fresh engine: on
/// one already holding templates, the inheritance pass reads those too.
/// On a parse failure only the error's text is kept.
#[verifier::external_body]
pub(crate) fn parse_engine(source: &str) -> (r: Result<tera::Tera, String>)
    ensures
        r matches Ok(_) <==> parse_ok(source@),
{
    let mut engine = tera::Tera::default();
    match engine.add_raw_template("tpl", source) {
        Ok(()) => Ok(engine),
        Err(e) => Err(format!("{}", e)),
    }
}

/// Relies on tera::Tera::get_template and the stored template's public
/// `ast` field: reads the syntax tree of the template named "tpl" and
/// converts it to the crate's model; an engine holding no such template
/// yields no nodes.
#[verifier::external_body]
pub(crate) fn engine_ast(engine: &tera::Tera) -> Vec<AstNode> {
    match engine.get_template("tpl") {
        Ok(t) => nodes_of_ast(&t.ast),
        Err(_) => Vec::new(),
    }
}

/// Relies on tera::Tera::render: renders the stored template "tpl"
/// against the context; on failure only the error's text is kept.
#[verifier::external_body]
pub(crate) fn render_template(engine: &tera::Tera, ctx: &tera::Context) -> Result<String, String> {
    match engine.render("tpl", ctx) {
        Ok(s) => Ok(s),
        Err(e) => Err(format!("{}", e)),
    }
}

/// Relies on serde_json::from_str: parses the text as a JSON object with
/// string keys, an outcome that depends on the text alone; on failure
/// only the error's text is kept.
#[verifier::external_body]
pub(crate) fn json_object_of(val: &str) -> (r: Result<
    HashMap<String, serde_json::Value>,
    String,
>)
    ensures
        r matches Ok(_) <==> json_object_ok(val@),
{
    match serde_json::from_str(val) {
        Ok(m) => Ok(m),
        Err(e) => Err(format!("{}", e)),
    }
}

/// Relies on tera::Context::from_serialize: builds a rendering context
/// from the map.  This call always succeeds: serializing a map whose keys
/// are strings and whose values are already JSON values cannot fail, and
/// it yields a JSON object, the one shape a context is built from.  The
/// error arm is kept only for the result type's sake.
#[verifier::external_body]
pub(crate) fn context_of_map(
    map: HashMap<String, serde_json::Value>,
) -> (r: Result<tera::Context, String>)
    ensures
        r matches Ok(_),
{
    match tera::Context::from_serialize(map) {
        Ok(c) => Ok(c),
        Err(e) => Err(format!("{}", e)),
    }
}

/// Relies on tera::ast::Node's variants: tells them apart and moves their
/// fields into the crate's model, one arm each; node kinds that discovery
/// ignores all become `AstNode::Opaque`.
#[verifier::external_body]
pub(crate) fn node_of(n: &tera::ast::Node) -> AstNode {
    match n {
        Node::Block(_, b, _) => AstNode::Block(nodes_of_ast(&b.body)),
        Node::VariableBlock(_, e) => AstNode::Output(expr_of(&e.val)),
        Node::If(i, _) => { let (bs, o) = if_parts(i); AstNode::If(bs, o) },
        Node::FilterSection(_, f, _) => AstNode::Filter(args_of(&f.filter.args), nodes_of_ast(&f.body)),
        Node::Forloop(_, f, _) => AstNode::For(f.value.clone(), expr_of(&f.container.val), nodes_of_ast(&f.body)),
        Node::Set(_, s) => AstNode::SetVar(s.key.clone(), expr_of(&s.value.val)),
        _ => AstNode::Opaque,
    }
}

/// Relies on tera::ast::ExprVal's variants: tells them apart and moves
/// their fields into the crate's model, one arm each; expression kinds
/// that discovery does not read all become `AstExpr::Opaque`.
#[verifier::external_body]
pub(crate) fn expr_of(v: &tera::ast::ExprVal) -> AstExpr {
    match v {
        ExprVal::Ident(s) => AstExpr::Ident(s.clone()),
        ExprVal::StringConcat(c) => AstExpr::Concat(concat_vals_of(&c.values)),
        ExprVal::Array(a) => AstExpr::Array(array_exprs_of(a)),
        ExprVal::MacroCall(m) => AstExpr::MacroCall(args_of(&m.args)),
        ExprVal::FunctionCall(f) => AstExpr::FunctionCall(args_of(&f.args)),
        ExprVal::Logic(l) => AstExpr::Logic(Box::new(expr_of(&l.lhs.val)), Box::new(expr_of(&l.rhs.val))),
        ExprVal::Math(m) => AstExpr::Math(Box::new(expr_of(&m.lhs.val)), Box::new(expr_of(&m.rhs.val))),
        _ => AstExpr::Opaque,
    }
}

/// Relies on tera::ast::If's fields: moves each (condition, body) pair and
/// the optional else body into the crate's model, in source order.
#[verifier::external_body]
pub(crate) fn if_parts(i: &tera::ast::If) -> (Vec<(AstExpr, Vec<AstNode>)>, Option<Vec<AstNode>>) {
    let mut branches: Vec<(AstExpr, Vec<AstNode>)> = Vec::new();
    for (_, cond, body) in &i.conditions {
        branches.push((expr_of(&cond.val), nodes_of_ast(body)));
    }
    let otherwise = match &i.otherwise {
        Some((_, body)) => Some(nodes_of_ast(body)),
        None => None,
    };
    (branches, otherwise)
}

/// Relies on the argument maps of tera::ast's calls: moves each argument's
/// value expression into the crate's model; the map fixes no order.
#[verifier::external_body]
pub(crate) fn args_of(args: &HashMap<String, tera::ast::Expr>) -> Vec<AstExpr> {
    let mut out: Vec<AstExpr> = Vec::new();
    for arg in args.values() {
        out.push(expr_of(&arg.val));
    }
    out
}

/// Relies on tera::ast::Expr's `val` field: picks the wrapped expression
/// value.  The expression's `not` flag and its inline filter calls, whose
/// arguments can hold identifiers of their own, are deliberately not
/// read: discovery ignores them.
#[verifier::external_body]
pub(crate) fn val_of(e: &tera::ast::Expr) -> &tera::ast::ExprVal {
    &e.val
}

/// Converts a list of engine nodes, element for element, in order.
pub(crate) fn nodes_of_ast(ns: &Vec<tera::ast::Node>) -> (r: Vec<AstNode>)
    ensures
        r@.len() == ns@.len(),
{
    let mut r: Vec<AstNode> = Vec::new();
    let mut i: usize = 0;
    while i < ns.len()
        invariant
            i <= ns.len(),
            r@.len() == i,
        decreases ns.len() - i,
    {
        r.push(node_of(&ns[i]));
        i = i + 1;
    }
    r
}

/// Converts a list of engine expression values, element for element.
pub(crate) fn concat_vals_of(vs: &Vec<tera::ast::ExprVal>) -> (r: Vec<AstExpr>)
    ensures
        r@.len() == vs@.len(),
{
    let mut r: Vec<AstExpr> = Vec::new();
    let mut i: usize = 0;
    while i < vs.len()
        invariant
            i <= vs.len(),
            r@.len() == i,
        decreases vs.len() - i,
    {
        r.push(expr_of(&vs[i]));
        i = i + 1;
    }
    r
}

/// Converts a list of engine expressions, element for element.
pub(crate) fn array_exprs_of(es: &Vec<tera::ast::Expr>) -> (r: Vec<AstExpr>)
    ensures
        r@.len() == es@.len(),
{
    let mut r: Vec<AstExpr> = Vec::new();
    let mut i: usize = 0;
    while i < es.len()
        invariant
            i <= es.len(),
            r@.len() == i,
        decreases es.len() - i,
    {
        r.push(expr_of(val_of(&es[i])));
        i = i + 1;
    }
    r
}

} // verus!
