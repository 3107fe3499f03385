use vstd::prelude::*;

use crate::ast::{AstExpr, AstNode};
use crate::discover::{
    extract_expr,
    extract_exprs,
    extract_ident,
    template_variables,
    walk_branches,
    walk_node,
    walk_nodes,
};
use crate::scope::{deny_matches, excluded, loop_meta};

verus! {

broadcast use vstd::seq_lib::lemma_seq_contains_after_push;

/// How every step of the walk relates what it returns (`out`) to what it was
/// handed (`res`), under the deny-list `deny` it started from: the old
/// result is kept unchanged as a prefix, everything newly appended is
/// neither a reserved loop-metadata name nor excluded by `deny`, and no
/// duplicate is ever introduced.
pub open spec fn grows_cleanly(deny: Seq<Seq<char>>, res: Seq<Seq<char>>, out: Seq<Seq<char>>) -> bool {
    &&& res.is_prefix_of(out)
    &&& (forall|id: Seq<char>|
        #![trigger out.contains(id)]
        out.contains(id) && !res.contains(id) ==> !loop_meta(id) && !excluded(deny, id))
    &&& (res.no_duplicates() ==> out.no_duplicates())
}

proof fn lemma_prefix_refl<A>(s: Seq<A>)
    ensures
        s.is_prefix_of(s),
{
    assert(s.subrange(0, s.len() as int) =~= s);
}

proof fn lemma_prefix_push<A>(s: Seq<A>, x: A)
    ensures
        s.is_prefix_of(s.push(x)),
{
    assert(s.push(x).subrange(0, s.len() as int) =~= s);
}

proof fn lemma_prefix_transitive<A>(a: Seq<A>, b: Seq<A>, c: Seq<A>)
    requires
        a.is_prefix_of(b),
        b.is_prefix_of(c),
    ensures
        a.is_prefix_of(c),
{
    assert forall|i: int| 0 <= i < a.len() implies a[i] == c.subrange(0, a.len() as int)[i] by {
        assert(a[i] == b.subrange(0, a.len() as int)[i]);
        assert(b[i] == c.subrange(0, b.len() as int)[i]);
    }
    assert(a =~= c.subrange(0, a.len() as int));
}

proof fn lemma_prefix_contains<A>(a: Seq<A>, b: Seq<A>, x: A)
    requires
        a.is_prefix_of(b),
        a.contains(x),
    ensures
        b.contains(x),
{
    let i = choose|i: int| 0 <= i < a.len() && a[i] == x;
    assert(a[i] == b.subrange(0, a.len() as int)[i]);
    assert(b[i] == x);
}

proof fn lemma_push_no_duplicates<A>(s: Seq<A>, x: A)
    requires
        !s.contains(x),
        s.no_duplicates(),
    ensures
        s.push(x).no_duplicates(),
{
    let t = s.push(x);
    assert forall|i: int, j: int|
        0 <= i < t.len() && 0 <= j < t.len() && i != j implies t[i] != t[j] by {
        if i < s.len() && j < s.len() {
            assert(s[i] != s[j]);
        } else if j == s.len() && i < s.len() {
            if t[i] == x {
                assert(s[i] == x);
                assert(s.contains(x));
            }
        } else if i == s.len() && j < s.len() {
            if t[j] == x {
                assert(s[j] == x);
                assert(s.contains(x));
            }
        }
    }
}

/// A longer deny-list excludes everything a prefix of it excludes.
proof fn lemma_excluded_monotone(d1: Seq<Seq<char>>, d2: Seq<Seq<char>>, id: Seq<char>)
    requires
        d1.is_prefix_of(d2),
        excluded(d1, id),
    ensures
        excluded(d2, id),
{
    let i = choose|i: int| 0 <= i < d1.len() && deny_matches(d1[i], id);
    assert(d1[i] == d2.subrange(0, d1.len() as int)[i]);
    assert(deny_matches(d2[i], id));
}

/// Two clean steps in a row make a clean step, provided the second ran
/// under the first's deny-list or an extension of it.
proof fn lemma_grows_cleanly_compose(
    d1: Seq<Seq<char>>,
    d2: Seq<Seq<char>>,
    res: Seq<Seq<char>>,
    mid: Seq<Seq<char>>,
    out: Seq<Seq<char>>,
)
    requires
        grows_cleanly(d1, res, mid),
        grows_cleanly(d2, mid, out),
        d1.is_prefix_of(d2),
    ensures
        grows_cleanly(d1, res, out),
{
    lemma_prefix_transitive(res, mid, out);
    assert forall|id: Seq<char>|
        out.contains(id) && !res.contains(id) implies !loop_meta(id) && !excluded(d1, id) by {
        if mid.contains(id) {
            assert(!loop_meta(id) && !excluded(d1, id));
        } else {
            assert(!loop_meta(id) && !excluded(d2, id));
            if excluded(d1, id) {
                lemma_excluded_monotone(d1, d2, id);
            }
        }
    }
}

/// A clean step under a longer deny-list is a clean step under any prefix
/// of that deny-list.
proof fn lemma_grows_cleanly_weaken(
    d1: Seq<Seq<char>>,
    d2: Seq<Seq<char>>,
    res: Seq<Seq<char>>,
    out: Seq<Seq<char>>,
)
    requires
        d1.is_prefix_of(d2),
        grows_cleanly(d2, res, out),
    ensures
        grows_cleanly(d1, res, out),
{
    assert forall|id: Seq<char>|
        out.contains(id) && !res.contains(id) implies !loop_meta(id) && !excluded(d1, id) by {
        assert(!loop_meta(id) && !excluded(d2, id));
        if excluded(d1, id) {
            lemma_excluded_monotone(d1, d2, id);
        }
    }
}

proof fn lemma_extract_ident_props(id: Seq<char>, deny: Seq<Seq<char>>, res: Seq<Seq<char>>)
    ensures
        grows_cleanly(deny, res, extract_ident(id, deny, res)),
{
    if loop_meta(id) || excluded(deny, id) || res.contains(id) {
        lemma_prefix_refl(res);
    } else {
        lemma_prefix_push(res, id);
        if res.no_duplicates() {
            lemma_push_no_duplicates(res, id);
        }
    }
}

proof fn lemma_extract_expr_props(e: AstExpr, deny: Seq<Seq<char>>, res: Seq<Seq<char>>)
    ensures
        grows_cleanly(deny, res, extract_expr(e, deny, res)),
    decreases e,
{
    lemma_prefix_refl(deny);
    match e {
        AstExpr::Ident(id) => {
            lemma_extract_ident_props(id@, deny, res);
        },
        AstExpr::Concat(es) => {
            lemma_extract_exprs_props(es@, deny, res);
        },
        AstExpr::Array(es) => {
            lemma_extract_exprs_props(es@, deny, res);
        },
        AstExpr::MacroCall(es) => {
            lemma_extract_exprs_props(es@, deny, res);
        },
        AstExpr::FunctionCall(es) => {
            lemma_extract_exprs_props(es@, deny, res);
        },
        AstExpr::Logic(l, r) => {
            let mid = extract_expr(*l, deny, res);
            lemma_extract_expr_props(*l, deny, res);
            lemma_extract_expr_props(*r, deny, mid);
            lemma_grows_cleanly_compose(deny, deny, res, mid, extract_expr(*r, deny, mid));
        },
        AstExpr::Math(l, r) => {
            let mid = extract_expr(*l, deny, res);
            lemma_extract_expr_props(*l, deny, res);
            lemma_extract_expr_props(*r, deny, mid);
            lemma_grows_cleanly_compose(deny, deny, res, mid, extract_expr(*r, deny, mid));
        },
        AstExpr::Opaque => {
            lemma_prefix_refl(res);
        },
    }
}

proof fn lemma_extract_exprs_props(es: Seq<AstExpr>, deny: Seq<Seq<char>>, res: Seq<Seq<char>>)
    ensures
        grows_cleanly(deny, res, extract_exprs(es, deny, res)),
    decreases es,
{
    lemma_prefix_refl(deny);
    if es.len() == 0 {
        lemma_prefix_refl(res);
    } else {
        let mid = extract_exprs(es.drop_last(), deny, res);
        lemma_extract_exprs_props(es.drop_last(), deny, res);
        lemma_extract_expr_props(es.last(), deny, mid);
        lemma_grows_cleanly_compose(deny, deny, res, mid, extract_expr(es.last(), deny, mid));
    }
}

proof fn lemma_walk_nodes_props(ns: Seq<AstNode>, deny: Seq<Seq<char>>, res: Seq<Seq<char>>)
    ensures
        deny.is_prefix_of(walk_nodes(ns, deny, res).0),
        grows_cleanly(deny, res, walk_nodes(ns, deny, res).1),
    decreases ns,
{
    if ns.len() == 0 {
        lemma_prefix_refl(deny);
        lemma_prefix_refl(res);
    } else {
        let prev = walk_nodes(ns.drop_last(), deny, res);
        let out = walk_node(ns.last(), prev.0, prev.1);
        lemma_walk_nodes_props(ns.drop_last(), deny, res);
        lemma_walk_node_props(ns.last(), prev.0, prev.1);
        lemma_prefix_transitive(deny, prev.0, out.0);
        lemma_grows_cleanly_compose(deny, prev.0, res, prev.1, out.1);
    }
}

proof fn lemma_walk_node_props(n: AstNode, deny: Seq<Seq<char>>, res: Seq<Seq<char>>)
    ensures
        deny.is_prefix_of(walk_node(n, deny, res).0),
        grows_cleanly(deny, res, walk_node(n, deny, res).1),
    decreases n,
{
    match n {
        AstNode::Block(body) => {
            lemma_walk_nodes_props(body@, deny, res);
        },
        AstNode::Output(e) => {
            lemma_prefix_refl(deny);
            lemma_extract_expr_props(e, deny, res);
        },
        AstNode::If(branches, otherwise) => {
            let prev = walk_branches(branches@, deny, res);
            lemma_walk_branches_props(branches@, deny, res);
            match otherwise {
                Some(body) => {
                    let out = walk_nodes(body@, prev.0, prev.1);
                    lemma_walk_nodes_props(body@, prev.0, prev.1);
                    lemma_prefix_transitive(deny, prev.0, out.0);
                    lemma_grows_cleanly_compose(deny, prev.0, res, prev.1, out.1);
                },
                None => {},
            }
        },
        AstNode::Filter(args, body) => {
            let mid = extract_exprs(args@, deny, res);
            let out = walk_nodes(body@, deny, mid);
            lemma_extract_exprs_props(args@, deny, res);
            lemma_walk_nodes_props(body@, deny, mid);
            lemma_grows_cleanly_compose(deny, deny, res, mid, out.1);
        },
        AstNode::For(var, container, body) => {
            let inner = deny.push(var@);
            let mid = extract_expr(container, inner, res);
            let walked = walk_nodes(body@, inner, mid);
            lemma_prefix_refl(deny);
            lemma_prefix_push(deny, var@);
            lemma_extract_expr_props(container, inner, res);
            lemma_walk_nodes_props(body@, inner, mid);
            lemma_grows_cleanly_compose(inner, inner, res, mid, walked.1);
            lemma_grows_cleanly_weaken(deny, inner, res, walked.1);
        },
        AstNode::SetVar(key, value) => {
            let bound = deny.push(key@);
            lemma_prefix_push(deny, key@);
            lemma_extract_expr_props(value, bound, res);
            lemma_grows_cleanly_weaken(deny, bound, res, extract_expr(value, bound, res));
        },
        AstNode::Opaque => {
            lemma_prefix_refl(deny);
            lemma_prefix_refl(res);
        },
    }
}

proof fn lemma_walk_branches_props(
    bs: Seq<(AstExpr, Vec<AstNode>)>,
    deny: Seq<Seq<char>>,
    res: Seq<Seq<char>>,
)
    ensures
        deny.is_prefix_of(walk_branches(bs, deny, res).0),
        grows_cleanly(deny, res, walk_branches(bs, deny, res).1),
    decreases bs,
{
    if bs.len() == 0 {
        lemma_prefix_refl(deny);
        lemma_prefix_refl(res);
    } else {
        let prev = walk_branches(bs.drop_last(), deny, res);
        let cond = extract_expr(bs.last().0, prev.0, prev.1);
        let out = walk_nodes(bs.last().1@, prev.0, cond);
        lemma_walk_branches_props(bs.drop_last(), deny, res);
        lemma_extract_expr_props(bs.last().0, prev.0, prev.1);
        lemma_walk_nodes_props(bs.last().1@, prev.0, cond);
        lemma_prefix_transitive(deny, prev.0, out.0);
        lemma_prefix_refl(prev.0);
        lemma_grows_cleanly_compose(prev.0, prev.0, prev.1, cond, out.1);
        lemma_grows_cleanly_compose(deny, prev.0, res, prev.1, out.1);
    }
}

/// The identifier occurrences one expression offers the result, in
/// depth-first left-to-right order, with the loop-metadata and deny-list
/// tests applied but without any de-duplication.
pub open spec fn stream_expr(e: AstExpr, deny: Seq<Seq<char>>) -> Seq<Seq<char>>
    decreases e,
{
    match e {
        AstExpr::Ident(id) => if loop_meta(id@) || excluded(deny, id@) {
            Seq::empty()
        } else {
            seq![id@]
        },
        AstExpr::Concat(es) => stream_exprs(es@, deny),
        AstExpr::Array(es) => stream_exprs(es@, deny),
        AstExpr::MacroCall(es) => stream_exprs(es@, deny),
        AstExpr::FunctionCall(es) => stream_exprs(es@, deny),
        AstExpr::Logic(l, r) => stream_expr(*l, deny) + stream_expr(*r, deny),
        AstExpr::Math(l, r) => stream_expr(*l, deny) + stream_expr(*r, deny),
        AstExpr::Opaque => Seq::empty(),
    }
}

/// The occurrence stream of a list of expressions, left to right.
pub open spec fn stream_exprs(es: Seq<AstExpr>, deny: Seq<Seq<char>>) -> Seq<Seq<char>>
    decreases es,
{
    if es.len() == 0 {
        Seq::empty()
    } else {
        stream_exprs(es.drop_last(), deny) + stream_expr(es.last(), deny)
    }
}

/// The occurrence stream of a list of sibling nodes, with the deny-list
/// threaded exactly as the walk threads it.
pub open spec fn stream_nodes(ns: Seq<AstNode>, deny: Seq<Seq<char>>) -> (Seq<Seq<char>>, Seq<
    Seq<char>,
>)
    decreases ns,
{
    if ns.len() == 0 {
        (deny, Seq::empty())
    } else {
        let prev = stream_nodes(ns.drop_last(), deny);
        let last = stream_node(ns.last(), prev.0);
        (last.0, prev.1 + last.1)
    }
}

/// The occurrence stream of one node.
pub open spec fn stream_node(n: AstNode, deny: Seq<Seq<char>>) -> (Seq<Seq<char>>, Seq<Seq<char>>)
    decreases n,
{
    match n {
        AstNode::Block(body) => stream_nodes(body@, deny),
        AstNode::Output(e) => (deny, stream_expr(e, deny)),
        AstNode::If(branches, otherwise) => {
            let prev = stream_branches(branches@, deny);
            match otherwise {
                Some(body) => {
                    let els = stream_nodes(body@, prev.0);
                    (els.0, prev.1 + els.1)
                },
                None => prev,
            }
        },
        AstNode::Filter(args, body) => {
            let walked = stream_nodes(body@, deny);
            (walked.0, stream_exprs(args@, deny) + walked.1)
        },
        AstNode::For(var, container, body) => {
            let inner = deny.push(var@);
            let walked = stream_nodes(body@, inner);
            (deny, stream_expr(container, inner) + walked.1)
        },
        AstNode::SetVar(key, value) => {
            let bound = deny.push(key@);
            (bound, stream_expr(value, bound))
        },
        AstNode::Opaque => (deny, Seq::empty()),
    }
}

/// The occurrence stream of the (condition, body) pairs of an `if` chain.
pub open spec fn stream_branches(
    bs: Seq<(AstExpr, Vec<AstNode>)>,
    deny: Seq<Seq<char>>,
) -> (Seq<Seq<char>>, Seq<Seq<char>>)
    decreases bs,
{
    if bs.len() == 0 {
        (deny, Seq::empty())
    } else {
        let prev = stream_branches(bs.drop_last(), deny);
        let walked = stream_nodes(bs.last().1@, prev.0);
        (walked.0, prev.1 + (stream_expr(bs.last().0, prev.0) + walked.1))
    }
}

/// Folds a stream of occurrences into an accumulated result: each
/// occurrence already present is dropped, each new one is appended — the
/// first occurrence decides the place, later ones change nothing.
pub open spec fn first_occurrences_into(res: Seq<Seq<char>>, s: Seq<Seq<char>>) -> Seq<Seq<char>>
    decreases s,
{
    if s.len() == 0 {
        res
    } else {
        let prev = first_occurrences_into(res, s.drop_last());
        if prev.contains(s.last()) {
            prev
        } else {
            prev.push(s.last())
        }
    }
}

proof fn lemma_first_occurrences_concat(res: Seq<Seq<char>>, a: Seq<Seq<char>>, b: Seq<Seq<char>>)
    ensures
        first_occurrences_into(res, a + b) == first_occurrences_into(
            first_occurrences_into(res, a),
            b,
        ),
    decreases b,
{
    if b.len() == 0 {
        assert(a + b =~= a);
    } else {
        assert((a + b).drop_last() =~= a + b.drop_last());
        assert((a + b).last() == b.last());
        lemma_first_occurrences_concat(res, a, b.drop_last());
    }
}

proof fn lemma_extract_expr_stream(e: AstExpr, deny: Seq<Seq<char>>, res: Seq<Seq<char>>)
    ensures
        extract_expr(e, deny, res) == first_occurrences_into(res, stream_expr(e, deny)),
    decreases e,
{
    match e {
        AstExpr::Ident(id) => {
            assert(first_occurrences_into(res, Seq::<Seq<char>>::empty()) == res);
            if loop_meta(id@) || excluded(deny, id@) {
            } else {
                let s = seq![id@];
                assert(s.drop_last() =~= Seq::<Seq<char>>::empty());
                assert(s.last() == id@);
                assert(first_occurrences_into(res, s.drop_last()) == res);
            }
        },
        AstExpr::Concat(es) => {
            lemma_extract_exprs_stream(es@, deny, res);
        },
        AstExpr::Array(es) => {
            lemma_extract_exprs_stream(es@, deny, res);
        },
        AstExpr::MacroCall(es) => {
            lemma_extract_exprs_stream(es@, deny, res);
        },
        AstExpr::FunctionCall(es) => {
            lemma_extract_exprs_stream(es@, deny, res);
        },
        AstExpr::Logic(l, r) => {
            let mid = extract_expr(*l, deny, res);
            lemma_extract_expr_stream(*l, deny, res);
            lemma_extract_expr_stream(*r, deny, mid);
            lemma_first_occurrences_concat(res, stream_expr(*l, deny), stream_expr(*r, deny));
        },
        AstExpr::Math(l, r) => {
            let mid = extract_expr(*l, deny, res);
            lemma_extract_expr_stream(*l, deny, res);
            lemma_extract_expr_stream(*r, deny, mid);
            lemma_first_occurrences_concat(res, stream_expr(*l, deny), stream_expr(*r, deny));
        },
        AstExpr::Opaque => {},
    }
}

proof fn lemma_extract_exprs_stream(es: Seq<AstExpr>, deny: Seq<Seq<char>>, res: Seq<Seq<char>>)
    ensures
        extract_exprs(es, deny, res) == first_occurrences_into(res, stream_exprs(es, deny)),
    decreases es,
{
    if es.len() == 0 {
    } else {
        let mid = extract_exprs(es.drop_last(), deny, res);
        lemma_extract_exprs_stream(es.drop_last(), deny, res);
        lemma_extract_expr_stream(es.last(), deny, mid);
        lemma_first_occurrences_concat(
            res,
            stream_exprs(es.drop_last(), deny),
            stream_expr(es.last(), deny),
        );
    }
}

proof fn lemma_walk_nodes_stream(ns: Seq<AstNode>, deny: Seq<Seq<char>>, res: Seq<Seq<char>>)
    ensures
        walk_nodes(ns, deny, res).0 == stream_nodes(ns, deny).0,
        walk_nodes(ns, deny, res).1 == first_occurrences_into(res, stream_nodes(ns, deny).1),
    decreases ns,
{
    if ns.len() == 0 {
    } else {
        let prev = walk_nodes(ns.drop_last(), deny, res);
        lemma_walk_nodes_stream(ns.drop_last(), deny, res);
        lemma_walk_node_stream(ns.last(), prev.0, prev.1);
        lemma_first_occurrences_concat(
            res,
            stream_nodes(ns.drop_last(), deny).1,
            stream_node(ns.last(), prev.0).1,
        );
    }
}

proof fn lemma_walk_node_stream(n: AstNode, deny: Seq<Seq<char>>, res: Seq<Seq<char>>)
    ensures
        walk_node(n, deny, res).0 == stream_node(n, deny).0,
        walk_node(n, deny, res).1 == first_occurrences_into(res, stream_node(n, deny).1),
    decreases n,
{
    match n {
        AstNode::Block(body) => {
            lemma_walk_nodes_stream(body@, deny, res);
        },
        AstNode::Output(e) => {
            lemma_extract_expr_stream(e, deny, res);
        },
        AstNode::If(branches, otherwise) => {
            let prev = walk_branches(branches@, deny, res);
            lemma_walk_branches_stream(branches@, deny, res);
            match otherwise {
                Some(body) => {
                    lemma_walk_nodes_stream(body@, prev.0, prev.1);
                    lemma_first_occurrences_concat(
                        res,
                        stream_branches(branches@, deny).1,
                        stream_nodes(body@, prev.0).1,
                    );
                },
                None => {},
            }
        },
        AstNode::Filter(args, body) => {
            let mid = extract_exprs(args@, deny, res);
            lemma_extract_exprs_stream(args@, deny, res);
            lemma_walk_nodes_stream(body@, deny, mid);
            lemma_first_occurrences_concat(
                res,
                stream_exprs(args@, deny),
                stream_nodes(body@, deny).1,
            );
        },
        AstNode::For(var, container, body) => {
            let inner = deny.push(var@);
            let mid = extract_expr(container, inner, res);
            lemma_extract_expr_stream(container, inner, res);
            lemma_walk_nodes_stream(body@, inner, mid);
            lemma_first_occurrences_concat(
                res,
                stream_expr(container, inner),
                stream_nodes(body@, inner).1,
            );
        },
        AstNode::SetVar(key, value) => {
            let bound = deny.push(key@);
            lemma_extract_expr_stream(value, bound, res);
        },
        AstNode::Opaque => {},
    }
}

proof fn lemma_walk_branches_stream(
    bs: Seq<(AstExpr, Vec<AstNode>)>,
    deny: Seq<Seq<char>>,
    res: Seq<Seq<char>>,
)
    ensures
        walk_branches(bs, deny, res).0 == stream_branches(bs, deny).0,
        walk_branches(bs, deny, res).1 == first_occurrences_into(res, stream_branches(bs, deny).1),
    decreases bs,
{
    if bs.len() == 0 {
    } else {
        let prev = walk_branches(bs.drop_last(), deny, res);
        let cond = extract_expr(bs.last().0, prev.0, prev.1);
        lemma_walk_branches_stream(bs.drop_last(), deny, res);
        lemma_extract_expr_stream(bs.last().0, prev.0, prev.1);
        lemma_walk_nodes_stream(bs.last().1@, prev.0, cond);
        lemma_first_occurrences_concat(
            prev.1,
            stream_expr(bs.last().0, prev.0),
            stream_nodes(bs.last().1@, prev.0).1,
        );
        lemma_first_occurrences_concat(
            res,
            stream_branches(bs.drop_last(), deny).1,
            stream_expr(bs.last().0, prev.0) + stream_nodes(bs.last().1@, prev.0).1,
        );
    }
}

/// Result order is first-occurrence order: the discovery result is exactly
/// the identifier-occurrence stream of the depth-first left-to-right walk,
/// folded so that the first occurrence of a name decides its place and
/// every later occurrence is dropped.
pub proof fn lemma_first_occurrence_order(ns: Seq<AstNode>)
    ensures
        template_variables(ns) == first_occurrences_into(
            Seq::empty(),
            stream_nodes(ns, Seq::empty()).1,
        ),
{
    lemma_walk_nodes_stream(ns, Seq::empty(), Seq::empty());
}

/// A template whose only node outputs a single identifier that is not a
/// reserved loop-metadata name is discovered as exactly that identifier.
pub proof fn lemma_single_output(id: String)
    requires
        !loop_meta(id@),
    ensures
        template_variables(seq![AstNode::Output(AstExpr::Ident(id))]) == seq![id@],
{
    reveal_with_fuel(walk_nodes, 3);
    let ns = seq![AstNode::Output(AstExpr::Ident(id))];
    let empty = Seq::<Seq<char>>::empty();
    assert(ns.drop_last() =~= Seq::<AstNode>::empty());
    assert(ns.last() == AstNode::Output(AstExpr::Ident(id)));
    assert(!excluded(empty, id@));
    assert(!empty.contains(id@));
    assert(template_variables(ns) =~= seq![id@]);
}

/// The four reserved loop-metadata names never appear in a discovery
/// result, whatever the template.
pub proof fn lemma_loop_meta_never_reported(ns: Seq<AstNode>, id: Seq<char>)
    requires
        loop_meta(id),
    ensures
        !template_variables(ns).contains(id),
{
    let empty = Seq::<Seq<char>>::empty();
    lemma_walk_nodes_props(ns, empty, empty);
    if template_variables(ns).contains(id) {
        assert(!empty.contains(id));
    }
}

/// A discovery result never repeats a name.
pub proof fn lemma_variables_no_duplicates(ns: Seq<AstNode>)
    ensures
        template_variables(ns).no_duplicates(),
{
    let empty = Seq::<Seq<char>>::empty();
    lemma_walk_nodes_props(ns, empty, empty);
}

/// The walk only appends: every name already found stays in the result, in
/// its place — so a reference that was discovered before a later `set` of
/// the same name remains reported.
pub proof fn lemma_walk_preserves_found(
    ns: Seq<AstNode>,
    deny: Seq<Seq<char>>,
    res: Seq<Seq<char>>,
    id: Seq<char>,
)
    requires
        res.contains(id),
    ensures
        res.is_prefix_of(walk_nodes(ns, deny, res).1),
        walk_nodes(ns, deny, res).1.contains(id),
{
    lemma_walk_nodes_props(ns, deny, res);
    lemma_prefix_contains(res, walk_nodes(ns, deny, res).1, id);
}

/// Walking any nodes under a deny-list that excludes `id` never adds `id`
/// to the result.
pub proof fn lemma_excluded_never_added(
    ns: Seq<AstNode>,
    deny: Seq<Seq<char>>,
    res: Seq<Seq<char>>,
    id: Seq<char>,
)
    requires
        excluded(deny, id),
        !res.contains(id),
    ensures
        !walk_nodes(ns, deny, res).1.contains(id),
{
    lemma_walk_nodes_props(ns, deny, res);
    let out = walk_nodes(ns, deny, res).1;
    if out.contains(id) {
        assert(!excluded(deny, id));
    }
}

/// A `for` construct suppresses, throughout its container expression and
/// body, the loop variable and every dotted or bracket-indexed access under
/// it — and hands the surrounding deny-list back unchanged, so the binding
/// does not leak to later siblings.
pub proof fn lemma_for_scope(
    var: String,
    container: AstExpr,
    body: Vec<AstNode>,
    deny: Seq<Seq<char>>,
    res: Seq<Seq<char>>,
    id: Seq<char>,
)
    requires
        deny_matches(var@, id),
        !res.contains(id),
    ensures
        !walk_node(AstNode::For(var, container, body), deny, res).1.contains(id),
        walk_node(AstNode::For(var, container, body), deny, res).0 == deny,
{
    let inner = deny.push(var@);
    let mid = extract_expr(container, inner, res);
    let walked = walk_nodes(body@, inner, mid);
    assert(inner[deny.len() as int] == var@);
    assert(excluded(inner, id));
    lemma_extract_expr_props(container, inner, res);
    lemma_walk_nodes_props(body@, inner, mid);
    lemma_prefix_refl(inner);
    lemma_grows_cleanly_compose(inner, inner, res, mid, walked.1);
    if walked.1.contains(id) {
        assert(!excluded(inner, id));
    }
}

/// A reference to the loop variable standing after the `for` construct, as
/// a sibling, is discovered: the loop's binding is gone once the loop ends.
pub proof fn lemma_for_then_sibling_reported(
    var: String,
    container: AstExpr,
    body: Vec<AstNode>,
    deny: Seq<Seq<char>>,
    res: Seq<Seq<char>>,
)
    requires
        !loop_meta(var@),
        !excluded(deny, var@),
    ensures
        walk_nodes(
            seq![AstNode::For(var, container, body), AstNode::Output(AstExpr::Ident(var))],
            deny,
            res,
        ).1.contains(var@),
{
    reveal_with_fuel(walk_nodes, 4);
    let ns = seq![AstNode::For(var, container, body), AstNode::Output(AstExpr::Ident(var))];
    assert(ns.drop_last() =~= seq![AstNode::For(var, container, body)]);
    assert(ns.drop_last().drop_last() =~= Seq::<AstNode>::empty());
    assert(ns.last() == AstNode::Output(AstExpr::Ident(var)));
    assert(ns.drop_last().last() == AstNode::For(var, container, body));
    let after_for = walk_node(AstNode::For(var, container, body), deny, res);
    assert(after_for.0 == deny);
    let out = extract_ident(var@, deny, after_for.1);
    if after_for.1.contains(var@) {
        assert(out == after_for.1);
    } else {
        assert(out == after_for.1.push(var@));
    }
}

/// A `set` construct excludes its bound name from the point of binding
/// onward: the deny-list it returns excludes the name for good, its own
/// value expression cannot re-add the name, and no later sibling can
/// either.  (A reference discovered strictly before the `set` stays in the
/// result: see `lemma_walk_preserves_found`.)
pub proof fn lemma_set_scope(
    key: String,
    value: AstExpr,
    rest: Seq<AstNode>,
    deny: Seq<Seq<char>>,
    res: Seq<Seq<char>>,
)
    requires
        !res.contains(key@),
    ensures
        excluded(walk_node(AstNode::SetVar(key, value), deny, res).0, key@),
        !walk_node(AstNode::SetVar(key, value), deny, res).1.contains(key@),
        !walk_nodes(
            rest,
            walk_node(AstNode::SetVar(key, value), deny, res).0,
            walk_node(AstNode::SetVar(key, value), deny, res).1,
        ).1.contains(key@),
{
    let bound = deny.push(key@);
    assert(bound[deny.len() as int] == key@);
    assert(excluded(bound, key@));
    lemma_extract_expr_props(value, bound, res);
    let mid = extract_expr(value, bound, res);
    if mid.contains(key@) {
        assert(!excluded(bound, key@));
    }
    lemma_walk_nodes_props(rest, bound, mid);
    let out = walk_nodes(rest, bound, mid).1;
    if out.contains(key@) {
        assert(!excluded(bound, key@));
    }
}

} // verus!

