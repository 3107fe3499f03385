use rs_templating::{discover_variables, AstExpr, AstNode};

fn ident(name: &str) -> AstExpr {
    AstExpr::Ident(name.to_string())
}

fn output(name: &str) -> AstNode {
    AstNode::Output(ident(name))
}

fn names(list: &[&str]) -> Vec<String> {
    list.iter().map(|s| s.to_string()).collect()
}

#[test]
fn single_output_reports_the_identifier() {
    let nodes = vec![output("first_name")];
    assert_eq!(discover_variables(&nodes), names(&["first_name"]));
}

#[test]
fn empty_template_reports_nothing() {
    let nodes: Vec<AstNode> = vec![];
    assert_eq!(discover_variables(&nodes), names(&[]));
}

#[test]
fn loop_metadata_names_are_never_reported() {
    let nodes = vec![
        output("loop.index"),
        output("loop.index0"),
        output("loop.first"),
        output("loop.last"),
        AstNode::For(
            "item".to_string(),
            ident("items"),
            vec![output("loop.index"), output("loop.last")],
        ),
    ];
    assert_eq!(discover_variables(&nodes), names(&["items"]));
}

#[test]
fn for_binding_is_scoped_to_the_loop_body() {
    let nodes = vec![
        AstNode::For(
            "product".to_string(),
            ident("products"),
            vec![output("product.name"), output("product[0]"), output("order_number")],
        ),
        output("product"),
    ];
    assert_eq!(
        discover_variables(&nodes),
        names(&["products", "order_number", "product"])
    );
}

#[test]
fn prefix_exclusion_needs_a_separator() {
    let nodes = vec![AstNode::For(
        "x".to_string(),
        ident("c"),
        vec![output("xy"), output("x.field"), output("x[2]"), output("x")],
    )];
    assert_eq!(discover_variables(&nodes), names(&["c", "xy"]));
}

#[test]
fn set_binding_holds_from_its_point_onward() {
    let nodes = vec![
        output("name"),
        AstNode::SetVar("uname".to_string(), ident("name")),
        output("uname"),
    ];
    assert_eq!(discover_variables(&nodes), names(&["name"]));
}

#[test]
fn set_of_its_own_name_suppresses_the_value_reference() {
    let nodes = vec![AstNode::SetVar("x".to_string(), ident("x"))];
    assert_eq!(discover_variables(&nodes), names(&[]));
}

#[test]
fn set_inside_a_branch_reaches_later_siblings() {
    let nodes = vec![
        AstNode::If(
            vec![(
                ident("cond"),
                vec![AstNode::SetVar("u".to_string(), ident("n"))],
            )],
            None,
        ),
        output("u"),
    ];
    assert_eq!(discover_variables(&nodes), names(&["cond", "n"]));
}

#[test]
fn duplicates_are_reported_once_in_first_occurrence_order() {
    let nodes = vec![output("b"), output("a"), output("b"), output("a"), output("c")];
    assert_eq!(discover_variables(&nodes), names(&["b", "a", "c"]));
}

#[test]
fn if_chain_reads_conditions_then_bodies_in_order() {
    let nodes = vec![AstNode::If(
        vec![
            (ident("first_name"), vec![output("last_name")]),
            (ident("other"), vec![output("more")]),
        ],
        Some(vec![output("email")]),
    )];
    assert_eq!(
        discover_variables(&nodes),
        names(&["first_name", "last_name", "other", "more", "email"])
    );
}

#[test]
fn filter_section_reads_arguments_then_body() {
    let nodes = vec![AstNode::Filter(
        vec![ident("width")],
        vec![output("content")],
    )];
    assert_eq!(discover_variables(&nodes), names(&["width", "content"]));
}

#[test]
fn blocks_are_transparent_to_discovery() {
    let nodes = vec![AstNode::Block(vec![
        output("outer"),
        AstNode::Block(vec![output("inner")]),
    ])];
    assert_eq!(discover_variables(&nodes), names(&["outer", "inner"]));
}

#[test]
fn compound_expressions_are_walked_left_to_right() {
    let nodes = vec![
        AstNode::Output(AstExpr::Concat(vec![ident("a"), ident("b")])),
        AstNode::Output(AstExpr::Array(vec![ident("c"), AstExpr::Opaque])),
        AstNode::Output(AstExpr::Logic(
            Box::new(ident("d")),
            Box::new(AstExpr::Math(Box::new(ident("e")), Box::new(ident("f")))),
        )),
        AstNode::Output(AstExpr::MacroCall(vec![ident("g")])),
        AstNode::Output(AstExpr::FunctionCall(vec![ident("h")])),
    ];
    assert_eq!(
        discover_variables(&nodes),
        names(&["a", "b", "c", "d", "e", "f", "g", "h"])
    );
}

#[test]
fn opaque_nodes_contribute_nothing() {
    let nodes = vec![AstNode::Opaque, output("only"), AstNode::Opaque];
    assert_eq!(discover_variables(&nodes), names(&["only"]));
}
