use greentic_deployer::errors::BootstrapError;
use greentic_deployer::flow::{
    run_bootstrap_flow, terminal_answer, DenyPromptAdapter, JsonPromptAdapter, Question,
};
use greentic_deployer::json::{json_to_string, JsonValue};

fn obj(fields: Vec<(&str, JsonValue)>) -> JsonValue {
    JsonValue::Obj(
        fields
            .into_iter()
            .map(|(k, v)| (String::from(k), v))
            .collect(),
    )
}

#[test]
fn flow_runner_parses_bootstrap_output() {
    let bytes = br#"{
        "steps": [
            {
                "kind": "installer_call",
                "result": {
                    "output_version": "v1",
                    "config_patch": {"a": 1},
                    "secrets_writes": [],
                    "warnings": [],
                    "ready": true
                }
            }
        ]
    }"#;
    let mut adapter = DenyPromptAdapter;
    let result = run_bootstrap_flow(bytes, &mut adapter).expect("run flow");
    assert!(result.output.ready);
    let a = result.output.config_patch.get("a").expect("field a");
    assert_eq!(json_to_string(a), "1");
    assert_eq!(result.status_history, vec!["waiting_for_answers", "deploying", "completed"]);
}

#[test]
fn json_adapter_supplies_answers() {
    let bytes = br#"{
        "steps": [
            {
                "kind": "prompt",
                "questions": [
                    { "id": "region", "prompt": "Region?", "default": "us-east-1" }
                ]
            },
            {
                "kind": "installer_call",
                "result": {
                    "output_version": "v1",
                    "config_patch": {"region": "{{region}}"},
                    "secrets_writes": [],
                    "warnings": [],
                    "ready": true
                }
            }
        ]
    }"#;
    let answers = obj(vec![("region", JsonValue::Str(String::from("eu-west-1")))]);
    let mut adapter = JsonPromptAdapter::new(answers).expect("valid answers");
    let result = run_bootstrap_flow(bytes, &mut adapter).expect("flow runs");
    assert!(result.output.ready);
    // Placeholder values survive into the final output: prompt answers are
    // not fed back into later steps.
    let region = result.output.config_patch.get("region").expect("field");
    assert_eq!(json_to_string(region), "\"{{region}}\"");
    assert_eq!(
        result.status_history,
        vec!["waiting_for_answers", "validating", "applying_config", "deploying", "completed"]
    );
}

#[test]
fn unsupported_step_kind_fails_before_any_output() {
    let bytes = br#"{
        "steps": [
            { "kind": "shell_exec", "result": {"output_version": "v1", "ready": true} }
        ]
    }"#;
    let mut adapter = DenyPromptAdapter;
    let err = run_bootstrap_flow(bytes, &mut adapter).expect_err("denied step kind");
    match err {
        BootstrapError::UnsupportedStep(kind) => assert_eq!(kind, "shell_exec"),
        other => panic!("expected UnsupportedStep, got {:?}", other),
    }
    assert!(BootstrapError::UnsupportedStep(String::from("shell_exec"))
        .message()
        .contains("not allowed in bootstrap mode"));
}

#[test]
fn flow_without_installer_call_reports_no_output() {
    let bytes = br#"{"steps": [{"kind": "prompt", "questions": []}]}"#;
    let mut adapter = DenyPromptAdapter;
    // The deny adapter refuses even an empty question list.
    let err = run_bootstrap_flow(bytes, &mut adapter).expect_err("deny adapter refuses");
    assert!(matches!(err, BootstrapError::Config(_)));

    let bytes_no_steps = br#"{"steps": []}"#;
    let err = run_bootstrap_flow(bytes_no_steps, &mut adapter).expect_err("no installer_call");
    assert!(matches!(err, BootstrapError::NoOutput));
}

#[test]
fn missing_answer_without_default_fails() {
    let bytes = br#"{
        "steps": [
            {
                "kind": "prompt",
                "questions": [ { "id": "token", "prompt": "Token?" } ]
            },
            {
                "kind": "installer_call",
                "result": {"output_version": "v1", "ready": true}
            }
        ]
    }"#;
    let answers = obj(vec![]);
    let mut adapter = JsonPromptAdapter::new(answers).expect("object answers");
    let err = run_bootstrap_flow(bytes, &mut adapter).expect_err("unanswered question");
    match err {
        BootstrapError::MissingAnswer(id) => assert_eq!(id, "token"),
        other => panic!("expected MissingAnswer, got {:?}", other),
    }
}

#[test]
fn last_installer_call_wins() {
    let bytes = br#"{
        "steps": [
            { "kind": "installer_call",
              "result": {"output_version": "v1", "ready": false} },
            { "kind": "installer_call",
              "result": {"output_version": "v1", "ready": true} }
        ]
    }"#;
    let mut adapter = DenyPromptAdapter;
    let result = run_bootstrap_flow(bytes, &mut adapter).expect("runs");
    assert!(result.output.ready);
    assert_eq!(
        result.status_history,
        vec!["waiting_for_answers", "deploying", "deploying", "completed"]
    );
}

#[test]
fn not_ready_output_ends_history_with_failed() {
    let bytes = br#"{
        "steps": [
            { "kind": "installer_call",
              "result": {"output_version": "v1", "ready": false} }
        ]
    }"#;
    let mut adapter = DenyPromptAdapter;
    let result = run_bootstrap_flow(bytes, &mut adapter).expect("runs");
    assert!(!result.output.ready);
    assert_eq!(result.status_history, vec!["waiting_for_answers", "deploying", "failed"]);
}

#[test]
fn invalid_flow_bytes_are_rejected() {
    let mut adapter = DenyPromptAdapter;
    let err = run_bootstrap_flow(b"not ygtc json", &mut adapter).expect_err("bad bytes");
    assert!(matches!(err, BootstrapError::InvalidFlow(_)));
    let err = run_bootstrap_flow(b"{\"nosteps\": []}", &mut adapter).expect_err("no steps field");
    assert!(matches!(err, BootstrapError::InvalidFlow(_)));
}

#[test]
fn terminal_lines_fall_back_to_defaults() {
    let q = Question {
        id: String::from("region"),
        prompt: String::from("Region?"),
        default: Some(String::from("us-east-1")),
    };
    let typed = terminal_answer(&q, " eu-west-1 \n").expect("typed answer");
    assert_eq!(json_to_string(&typed), "\"eu-west-1\"");
    let defaulted = terminal_answer(&q, "\n").expect("default answer");
    assert_eq!(json_to_string(&defaulted), "\"us-east-1\"");
    let required = Question { id: String::from("token"), prompt: String::from("Token?"), default: None };
    let err = terminal_answer(&required, "  \n").expect_err("no input, no default");
    assert!(matches!(err, BootstrapError::NoInput(_)));
}
