use rs_templating::{generate_context, Template};

#[test]
fn it_errors_with_invalid_templates() {
    let res = Template::init("{{ foo".to_string());
    assert!(res.is_err())
}

#[test]
fn it_instantiates_with_valid_templates() {
    let res = Template::init("{{ foo }}".to_string());
    assert!(res.is_ok())
}

#[test]
fn it_returns_variables_with_basic_template() {
    let res = Template::init("Hi {{ first_name }}".to_string()).unwrap();
    let vars = res.get_variables();
    assert_eq!(vars, vec![String::from("first_name")]);
}

#[test]
fn it_returns_variables_with_if() {
    let res = Template::init(
        "Hi {% if first_name %} hi {{ last_name }} {% else %} hi {{ email }} {% endif %}"
            .to_string(),
    )
    .unwrap();
    let vars = res.get_variables();
    assert_eq!(
        vars,
        vec![
            String::from("first_name"),
            String::from("last_name"),
            String::from("email")
        ]
    );
}

#[test]
fn it_returns_variables_with_fors_and_dot_prefix() {
    let res = Template::init("{% for product in products %}{{loop.index}}. {{product.name}} {{ order_number }} {% endfor %}".to_string()).unwrap();
    let vars = res.get_variables();
    assert_eq!(
        vars,
        vec![String::from("products"), String::from("order_number")]
    );
}

#[test]
fn it_returns_variables_with_fors_and_bracket_prefix() {
    let res = Template::init("{% for product in products %}{{loop.index}}. {{product['name']}} {{ order_number }} {% endfor %}".to_string()).unwrap();
    let vars = res.get_variables();
    assert_eq!(
        vars,
        vec![String::from("products"), String::from("order_number")]
    );
}

#[test]
fn it_returns_variables_with_fors_with_blacklist_test() {
    // add {{ product }} after the loop - should be found.
    let res = Template::init("{% for product in products %}{{loop.index}}. {{product.name}} {{ order_number }} {% endfor %} {{ product }}".to_string()).unwrap();
    let vars = res.get_variables();
    assert_eq!(
        vars,
        vec![
            String::from("products"),
            String::from("order_number"),
            String::from("product")
        ]
    );
}

#[test]
fn it_ignores_set_vars() {
    let res = Template::init("{{ name }} {% set uname = name %} {{ uname }}".to_string()).unwrap();
    let vars = res.get_variables();
    assert_eq!(vars, vec![String::from("name")]);
}

#[test]
fn it_captures_vars_with_no_blocks() {
    let res = Template::init("{% set uname = name %}".to_string()).unwrap();
    let vars = res.get_variables();
    assert_eq!(vars, vec![String::from("name")]);
}

#[test]
fn it_captures_vars_with_filters() {
    let res = Template::init("{% set uname = name | upper %}".to_string()).unwrap();
    let vars = res.get_variables();
    assert_eq!(vars, vec![String::from("name")]);
}

#[test]
fn it_captures_filters() {
    let res = Template::init("{{  name | upper }}".to_string()).unwrap();
    let vars = res.get_variables();
    assert_eq!(vars, vec![String::from("name")]);
}

#[test]
fn executing_templates() {
    let tpl = Template::init("{{ name }}".to_string()).unwrap();
    let ctx = generate_context("{\"name\": \"mr bean\", \"products\": [{ \"sku\": 123}] }".into());
    assert!(ctx.is_ok(), "context generated");
    let res = tpl.execute_with_context(&ctx.unwrap());
    assert!(res.is_ok());
    assert_eq!(res.unwrap(), "mr bean");
}
