use rs_templating::{
    compile_and_execute, discover_variables, generate_context, AstExpr, AstNode, ScopeTracker,
    Template,
};

#[test]
fn generate_context_rejects_text_that_is_not_json() {
    assert!(generate_context("not json at all".to_string()).is_err());
}

#[test]
fn generate_context_rejects_a_non_object_document() {
    assert!(generate_context("[1, 2, 3]".to_string()).is_err());
}

#[test]
fn generate_context_accepts_an_object() {
    assert!(generate_context("{\"key\": \"value\"}".to_string()).is_ok());
}

#[test]
fn compile_and_execute_renders_in_one_step() {
    let res = compile_and_execute(
        "Hi {{ name }}".to_string(),
        "{\"name\": \"mr bean\"}".to_string(),
    );
    assert_eq!(res.unwrap(), "Hi mr bean");
}

#[test]
fn compile_and_execute_reports_a_parse_error() {
    assert!(compile_and_execute("{{ foo".to_string(), "{}".to_string()).is_err());
}

#[test]
fn compile_and_execute_reports_a_context_error() {
    assert!(compile_and_execute("{{ foo }}".to_string(), "###".to_string()).is_err());
}

#[test]
fn compile_and_execute_reports_a_render_error() {
    // The engine refuses to render a variable missing from the context.
    assert!(compile_and_execute("{{ missing }}".to_string(), "{}".to_string()).is_err());
}

#[test]
fn execute_method_renders_against_a_json_context() {
    let tpl = Template::init("{{ greeting }}!".to_string()).unwrap();
    let res = tpl.execute("{\"greeting\": \"hello\"}".to_string());
    assert_eq!(res.unwrap(), "hello!");
}

#[test]
fn template_compile_and_execute_method_renders() {
    let res = Template::compile_and_execute(
        "{{ a }}{{ b }}".to_string(),
        "{\"a\": \"x\", \"b\": \"y\"}".to_string(),
    );
    assert_eq!(res.unwrap(), "xy");
}

#[test]
fn source_returns_the_source_text() {
    let tpl = Template::init("Hi {{ name }}".to_string()).unwrap();
    assert_eq!(tpl.source(), "Hi {{ name }}");
}

#[test]
fn variables_getter_matches_get_variables() {
    let tpl = Template::init("{{ a }} {{ b }}".to_string()).unwrap();
    assert_eq!(tpl.variables(), tpl.get_variables());
}

#[test]
fn parsed_tree_discovery_matches_model_discovery() {
    let tpl = Template::init(
        "{% for product in products %}{{ product.name }} {{ order_number }}{% endfor %}"
            .to_string(),
    )
    .unwrap();
    let model = vec![AstNode::For(
        "product".to_string(),
        AstExpr::Ident("products".to_string()),
        vec![
            AstNode::Output(AstExpr::Ident("product.name".to_string())),
            AstNode::Opaque,
            AstNode::Output(AstExpr::Ident("order_number".to_string())),
        ],
    )];
    assert_eq!(tpl.get_variables(), discover_variables(&model));
}

#[test]
fn tracker_excludes_by_separator_prefix_only() {
    let mut tracker = ScopeTracker::new();
    tracker.bind_forever("product".to_string());
    assert!(tracker.is_excluded(&"product".to_string()));
    assert!(tracker.is_excluded(&"product.name".to_string()));
    assert!(tracker.is_excluded(&"product[0]".to_string()));
    assert!(!tracker.is_excluded(&"productx".to_string()));
    assert!(!tracker.is_excluded(&"prod".to_string()));
}

#[test]
fn tracker_loop_scope_is_a_copy() {
    let tracker = ScopeTracker::new();
    let inner = tracker.enter_loop_scope("item".to_string());
    assert!(inner.is_excluded(&"item".to_string()));
    assert!(!tracker.is_excluded(&"item".to_string()));
}
