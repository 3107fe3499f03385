use vstd::prelude::*;

use crate::ast::{AstExpr, AstNode};
use crate::scope::{excluded, is_loop_meta, loop_meta, ScopeTracker};

verus! {

/// What extracting one identifier does to the accumulated result: a reserved
/// loop-metadata name, an excluded name, or a name already found is ignored;
/// anything else is appended.  This is the only place the walk ever grows
/// the result, so first-occurrence order is kept and nothing repeats.
pub open spec fn extract_ident(id: Seq<char>, deny: Seq<Seq<char>>, res: Seq<Seq<char>>) -> Seq<
    Seq<char>,
> {
    if loop_meta(id) || excluded(deny, id) || res.contains(id) {
        res
    } else {
        res.push(id)
    }
}

/// The free identifiers one expression adds to `res`, reading the deny-list
/// `deny`, in a left-to-right depth-first order.
pub open spec fn extract_expr(e: AstExpr, deny: Seq<Seq<char>>, res: Seq<Seq<char>>) -> Seq<Seq<char>>
    decreases e,
{
    match e {
        AstExpr::Ident(id) => extract_ident(id@, deny, res),
        AstExpr::Concat(es) => extract_exprs(es@, deny, res),
        AstExpr::Array(es) => extract_exprs(es@, deny, res),
        AstExpr::MacroCall(es) => extract_exprs(es@, deny, res),
        AstExpr::FunctionCall(es) => extract_exprs(es@, deny, res),
        AstExpr::Logic(l, r) => extract_expr(*r, deny, extract_expr(*l, deny, res)),
        AstExpr::Math(l, r) => extract_expr(*r, deny, extract_expr(*l, deny, res)),
        AstExpr::Opaque => res,
    }
}

/// Extraction folded over a list of expressions, left to right.
pub open spec fn extract_exprs(es: Seq<AstExpr>, deny: Seq<Seq<char>>, res: Seq<Seq<char>>) -> Seq<
    Seq<char>,
>
    decreases es,
{
    if es.len() == 0 {
        res
    } else {
        extract_expr(es.last(), deny, extract_exprs(es.drop_last(), deny, res))
    }
}

/// The walk over a list of sibling nodes, left to right.  It returns the
/// deny-list and the result as they stand after the last sibling: `set`
/// bindings made anywhere in the list stay visible to the nodes after it.
pub open spec fn walk_nodes(ns: Seq<AstNode>, deny: Seq<Seq<char>>, res: Seq<Seq<char>>) -> (Seq<
    Seq<char>,
>, Seq<Seq<char>>)
    decreases ns,
{
    if ns.len() == 0 {
        (deny, res)
    } else {
        let prev = walk_nodes(ns.drop_last(), deny, res);
        walk_node(ns.last(), prev.0, prev.1)
    }
}

/// The walk over one node.  A `for` node extracts its container and body
/// under a copy of the deny-list extended with the loop variable and hands
/// the original deny-list back unchanged; a `set` node extends the ambient
/// deny-list for good, and only then extracts its value expression.
pub open spec fn walk_node(n: AstNode, deny: Seq<Seq<char>>, res: Seq<Seq<char>>) -> (Seq<Seq<char>>,
Seq<Seq<char>>)
    decreases n,
{
    match n {
        AstNode::Block(body) => walk_nodes(body@, deny, res),
        AstNode::Output(e) => (deny, extract_expr(e, deny, res)),
        AstNode::If(branches, otherwise) => {
            let prev = walk_branches(branches@, deny, res);
            match otherwise {
                Some(body) => walk_nodes(body@, prev.0, prev.1),
                None => prev,
            }
        },
        AstNode::Filter(args, body) => walk_nodes(body@, deny, extract_exprs(args@, deny, res)),
        AstNode::For(var, container, body) => {
            let inner = deny.push(var@);
            let walked = walk_nodes(body@, inner, extract_expr(container, inner, res));
            (deny, walked.1)
        },
        AstNode::SetVar(key, value) => {
            let bound = deny.push(key@);
            (bound, extract_expr(value, bound, res))
        },
        AstNode::Opaque => (deny, res),
    }
}

/// The walk over the (condition, body) pairs of an `if` chain, left to
/// right: each condition is extracted, then its body walked, under the
/// deny-list as the previous pairs left it.
pub open spec fn walk_branches(
    bs: Seq<(AstExpr, Vec<AstNode>)>,
    deny: Seq<Seq<char>>,
    res: Seq<Seq<char>>,
) -> (Seq<Seq<char>>, Seq<Seq<char>>)
    decreases bs,
{
    if bs.len() == 0 {
        (deny, res)
    } else {
        let prev = walk_branches(bs.drop_last(), deny, res);
        let cond = extract_expr(bs.last().0, prev.0, prev.1);
        walk_nodes(bs.last().1@, prev.0, cond)
    }
}

/// The free variables of a whole template: the walk over its top-level
/// nodes, started with an empty deny-list and an empty result.
pub open spec fn template_variables(ns: Seq<AstNode>) -> Seq<Seq<char>> {
    walk_nodes(ns, Seq::empty(), Seq::empty()).1
}

/// Whether the result list already holds this identifier.
fn names_contain(v: &Vec<String>, id: &String) -> (r: bool)
    ensures
        r == v.deep_view().contains(id@),
{
    let mut i: usize = 0;
    while i < v.len()
        invariant
            i <= v.len(),
            forall|j: int| 0 <= j < i ==> v.deep_view()[j] != id@,
        decreases v.len() - i,
    {
        if crate::scope::str_eq(v[i].as_str(), id.as_str()) {
            proof {
                assert(v.deep_view()[i as int] == id@);
            }
            return true;
        }
        i = i + 1;
    }
    false
}

/// Extracts the free identifiers of one expression into `results`, reading
/// the tracker's exclusions; identifiers land in first-occurrence order and
/// never twice.
pub(crate) fn eval_expr(e: &AstExpr, results: &mut Vec<String>, tracker: &ScopeTracker)
    ensures
        final(results).deep_view() == extract_expr(
            *e,
            tracker.names_view(),
            old(results).deep_view(),
        ),
    decreases *e,
{
    let ghost r0 = results.deep_view();
    match e {
        AstExpr::Ident(id) => {
            if is_loop_meta(id) {
            } else if tracker.is_excluded(id) {
            } else if names_contain(results, id) {
            } else {
                results.push(id.clone());
                proof {
                    assert(results.deep_view() =~= r0.push(id@));
                }
            }
        },
        AstExpr::Concat(es) => {
            eval_exprs(es, results, tracker);
        },
        AstExpr::Array(es) => {
            eval_exprs(es, results, tracker);
        },
        AstExpr::MacroCall(es) => {
            eval_exprs(es, results, tracker);
        },
        AstExpr::FunctionCall(es) => {
            eval_exprs(es, results, tracker);
        },
        AstExpr::Logic(l, r) => {
            eval_expr(l, results, tracker);
            eval_expr(r, results, tracker);
        },
        AstExpr::Math(l, r) => {
            eval_expr(l, results, tracker);
            eval_expr(r, results, tracker);
        },
        AstExpr::Opaque => {},
    }
}

/// Extracts a whole list of expressions, left to right.
pub(crate) fn eval_exprs(es: &Vec<AstExpr>, results: &mut Vec<String>, tracker: &ScopeTracker)
    ensures
        final(results).deep_view() == extract_exprs(
            es@,
            tracker.names_view(),
            old(results).deep_view(),
        ),
    decreases es@,
{
    let ghost r0 = results.deep_view();
    let mut i: usize = 0;
    while i < es.len()
        invariant
            i <= es.len(),
            results.deep_view() == extract_exprs(
                es@.subrange(0, i as int),
                tracker.names_view(),
                r0,
            ),
        decreases es.len() - i,
    {
        eval_expr(&es[i], results, tracker);
        proof {
            let pre = es@.subrange(0, i as int);
            let post = es@.subrange(0, i + 1 as int);
            assert(post.drop_last() =~= pre);
            assert(post.last() == es@[i as int]);
        }
        i = i + 1;
    }
    proof {
        assert(es@.subrange(0, es@.len() as int) =~= es@);
    }
}

/// Walks a list of sibling nodes, left to right, growing `results` and
/// letting `set` bindings accumulate in the shared tracker.
pub(crate) fn iter_nodes(ns: &Vec<AstNode>, results: &mut Vec<String>, tracker: &mut ScopeTracker)
    ensures
        final(tracker).names_view() == walk_nodes(
            ns@,
            old(tracker).names_view(),
            old(results).deep_view(),
        ).0,
        final(results).deep_view() == walk_nodes(
            ns@,
            old(tracker).names_view(),
            old(results).deep_view(),
        ).1,
    decreases ns@,
{
    let ghost d0 = tracker.names_view();
    let ghost r0 = results.deep_view();
    let mut i: usize = 0;
    while i < ns.len()
        invariant
            i <= ns.len(),
            tracker.names_view() == walk_nodes(ns@.subrange(0, i as int), d0, r0).0,
            results.deep_view() == walk_nodes(ns@.subrange(0, i as int), d0, r0).1,
        decreases ns.len() - i,
    {
        walk_one(&ns[i], results, tracker);
        proof {
            let pre = ns@.subrange(0, i as int);
            let post = ns@.subrange(0, i + 1 as int);
            assert(post.drop_last() =~= pre);
            assert(post.last() == ns@[i as int]);
        }
        i = i + 1;
    }
    proof {
        assert(ns@.subrange(0, ns@.len() as int) =~= ns@);
    }
}

/// Walks one node, dispatching on its kind exactly as `walk_node` states.
pub(crate) fn walk_one(n: &AstNode, results: &mut Vec<String>, tracker: &mut ScopeTracker)
    ensures
        final(tracker).names_view() == walk_node(
            *n,
            old(tracker).names_view(),
            old(results).deep_view(),
        ).0,
        final(results).deep_view() == walk_node(
            *n,
            old(tracker).names_view(),
            old(results).deep_view(),
        ).1,
    decreases *n,
{
    let ghost d0 = tracker.names_view();
    let ghost r0 = results.deep_view();
    match n {
        AstNode::Block(body) => {
            iter_nodes(body, results, tracker);
        },
        AstNode::Output(e) => {
            eval_expr(e, results, tracker);
        },
        AstNode::If(branches, otherwise) => {
            let mut i: usize = 0;
            while i < branches.len()
                invariant
                    i <= branches.len(),
                    *n == AstNode::If(*branches, *otherwise),
                    tracker.names_view() == walk_branches(
                        branches@.subrange(0, i as int),
                        d0,
                        r0,
                    ).0,
                    results.deep_view() == walk_branches(
                        branches@.subrange(0, i as int),
                        d0,
                        r0,
                    ).1,
                decreases branches.len() - i,
            {
                proof {
                    let b = branches@[i as int];
                    assert(decreases_to!(*n => n->If_0));
                    assert(decreases_to!(*branches => branches@));
                    assert(decreases_to!(branches@ => b));
                    assert(decreases_to!(b => b.1));
                    assert(decreases_to!(b.1 => b.1@));
                    assert(decreases_to!(*n => b.1@));
                }
                let branch = &branches[i];
                eval_expr(&branch.0, results, tracker);
                iter_nodes(&branch.1, results, tracker);
                proof {
                    let pre = branches@.subrange(0, i as int);
                    let post = branches@.subrange(0, i + 1 as int);
                    assert(post.drop_last() =~= pre);
                    assert(post.last() == branches@[i as int]);
                }
                i = i + 1;
            }
            proof {
                assert(branches@.subrange(0, branches@.len() as int) =~= branches@);
            }
            match otherwise {
                Some(els) => {
                    iter_nodes(els, results, tracker);
                },
                None => {},
            }
        },
        AstNode::Filter(args, body) => {
            eval_exprs(args, results, tracker);
            iter_nodes(body, results, tracker);
        },
        AstNode::For(var, container, body) => {
            let mut inner = tracker.enter_loop_scope(var.clone());
            eval_expr(container, results, &inner);
            iter_nodes(body, results, &mut inner);
        },
        AstNode::SetVar(key, value) => {
            tracker.bind_forever(key.clone());
            eval_expr(value, results, tracker);
        },
        AstNode::Opaque => {},
    }
}

/// Discovers the free variable names of a parsed template: every identifier
/// referenced by the tree that the template itself does not bind, in
/// first-occurrence order of a left-to-right depth-first walk, each exactly
/// once.
pub fn discover_variables(nodes: &Vec<AstNode>) -> (r: Vec<String>)
    ensures
        r.deep_view() == template_variables(nodes@),
{
    let mut results: Vec<String> = Vec::new();
    let mut tracker = ScopeTracker::new();
    proof {
        assert(results.deep_view() =~= Seq::<Seq<char>>::empty());
    }
    iter_nodes(nodes, &mut results, &mut tracker);
    results
}

} // verus!
