use cargo_generate::render::render_content;
use cargo_generate::values::{Value, ValueMap};

#[test]
fn plain_text_renders_byte_identical() {
    let values = ValueMap::new();
    let text = "name = \"fixed\"\n[dependencies]\nleft { brace alone\n";
    let r = render_content(text, &values).unwrap();
    assert_eq!(r.as_str(), text);
}

#[test]
fn object_syntax_substitutes_the_resolved_value() {
    let mut values = ValueMap::new();
    values.insert(
        "project-name".to_string(),
        Value::Str("foobar".to_string()),
    );
    let r = render_content("name = \"{{project-name}}\"", &values).unwrap();
    assert_eq!(r.as_str(), "name = \"foobar\"");
}

#[test]
fn boolean_values_render_through_tags() {
    let mut values = ValueMap::new();
    values.insert("on".to_string(), Value::Bool(true));
    let r = render_content("{% if on %}yes{% else %}no{% endif %}", &values).unwrap();
    assert_eq!(r.as_str(), "yes");
}

#[test]
fn unrenderable_text_reports_failure() {
    let values = ValueMap::new();
    assert!(render_content("{% endif %}", &values).is_none());
}

#[test]
fn malformed_liquid_after_multibyte_text_is_refused_not_crashed() {
    // the engine's parse-error formatter cannot cope with this line;
    // the library refuses it instead of calling in
    let values = ValueMap::new();
    assert!(render_content("caf\u{e9} {{", &values).is_none());
}

#[test]
fn non_ascii_literal_text_renders_byte_identical() {
    let values = ValueMap::new();
    let text = "caf\u{e9} na\u{ef}ve \u{2014} no syntax";
    assert_eq!(render_content(text, &values).unwrap().as_str(), text);
}
