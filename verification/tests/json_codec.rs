use greentic_deployer::iac::{dry_run_commands, IaCTool};
use greentic_deployer::json::{json_to_string, parse_json, JsonValue};

#[test]
fn rendering_escapes_string_contents() {
    let v = JsonValue::Str(String::from("a\"b\\c\nd"));
    assert_eq!(json_to_string(&v), "\"a\\\"b\\\\c\\nd\"");
    let parsed: serde_json::Value =
        serde_json::from_str(&json_to_string(&v)).expect("escaped text parses back");
    assert_eq!(parsed.as_str(), Some("a\"b\\c\nd"));
}

#[test]
fn parse_and_render_agree_with_the_reference_parser() {
    let text = "{\"a\":[1,true,null,\"x\"],\"b\":{\"c\":\"d\"}}";
    let doc = parse_json(text.as_bytes()).expect("parses");
    assert_eq!(json_to_string(&doc), text);
    assert!(parse_json(b"{not json").is_none());
}

#[test]
fn object_lookup_takes_the_first_binding() {
    let doc = JsonValue::Obj(vec![
        (String::from("k"), JsonValue::Num(String::from("1"))),
        (String::from("k"), JsonValue::Num(String::from("2"))),
    ]);
    let first = doc.get("k").expect("present");
    assert_eq!(json_to_string(first), "1");
    assert!(doc.get("missing").is_none());
}

#[test]
fn iac_tool_names_and_env_choices() {
    assert_eq!(IaCTool::Terraform.binary_name(), "terraform");
    assert_eq!(IaCTool::OpenTofu.binary_name(), "tofu");
    assert_eq!(IaCTool::from_env(" Terraform "), Some(IaCTool::Terraform));
    assert_eq!(IaCTool::from_env("tf"), Some(IaCTool::Terraform));
    assert_eq!(IaCTool::from_env("TOFU"), Some(IaCTool::OpenTofu));
    assert_eq!(IaCTool::from_env("opentofu"), Some(IaCTool::OpenTofu));
    assert_eq!(IaCTool::from_env("pulumi"), None);
}

#[test]
fn dry_run_command_sequences_are_fixed() {
    let apply = dry_run_commands(false);
    assert_eq!(apply, vec![
        vec!["init", "-input=false"],
        vec!["plan", "-input=false", "-out=plan.tfplan"],
        vec!["apply", "-input=false", "-auto-approve", "plan.tfplan"],
    ]);
    let destroy = dry_run_commands(true);
    assert_eq!(destroy, vec![
        vec!["init", "-input=false"],
        vec!["destroy", "-input=false", "-auto-approve"],
    ]);
}
