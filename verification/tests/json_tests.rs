use taotie_parsers::json::{collect_json_scalar_values, flatten_json, JsonNode};

fn text(s: &str) -> JsonNode {
    JsonNode::Text(s.to_string())
}

fn sample() -> JsonNode {
    JsonNode::Object(vec![
        ("Event ID".to_string(), JsonNode::Literal("4624".to_string())),
        ("Computer".to_string(), text("HOST1")),
        ("Note".to_string(), JsonNode::Null),
        (
            "Data".to_string(),
            JsonNode::Object(vec![
                ("TargetUserName".to_string(), text("alice")),
                ("computer".to_string(), text("HOST2")),
            ]),
        ),
        (
            "Items".to_string(),
            JsonNode::Array(vec![text("loose"), JsonNode::Object(vec![("Ok".to_string(), JsonNode::Literal("true".to_string()))])]),
        ),
    ])
}

fn pairs(v: &[(String, String)]) -> Vec<(&str, &str)> {
    v.iter().map(|(a, b)| (a.as_str(), b.as_str())).collect()
}

#[test]
fn flatten_keeps_first_value_of_each_name() {
    let mut out = Vec::new();
    flatten_json(&sample(), &mut out);
    assert_eq!(
        pairs(&out),
        vec![("eventid", "4624"), ("computer", "HOST1"), ("targetusername", "alice"), ("ok", "true")]
    );
}

#[test]
fn flatten_leaves_existing_names() {
    let mut out = vec![("computer".to_string(), "FIRST".to_string())];
    flatten_json(&sample(), &mut out);
    assert_eq!(out[0].1, "FIRST");
    assert_eq!(out.iter().filter(|(n, _)| n == "computer").count(), 1);
}

#[test]
fn flatten_of_scalar_adds_nothing() {
    let mut out = Vec::new();
    flatten_json(&text("alone"), &mut out);
    assert!(out.is_empty());
}

#[test]
fn scalar_values_carry_dotted_paths() {
    let mut out = Vec::new();
    collect_json_scalar_values(&sample(), "", &mut out);
    assert_eq!(
        pairs(&out),
        vec![
            ("Event ID", "4624"),
            ("Computer", "HOST1"),
            ("Data.TargetUserName", "alice"),
            ("Data.computer", "HOST2"),
            ("Items", "loose"),
            ("Items.Ok", "true"),
        ]
    );
}

#[test]
fn scalar_values_below_prefix() {
    let mut out = vec![("x".to_string(), "y".to_string())];
    collect_json_scalar_values(&JsonNode::Object(vec![("a".to_string(), text("b"))]), "root", &mut out);
    assert_eq!(pairs(&out), vec![("x", "y"), ("root.a", "b")]);
}
