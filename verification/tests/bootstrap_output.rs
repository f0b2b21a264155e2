use greentic_deployer::json::{json_to_string, parse_json, JsonValue};
use greentic_deployer::output::{output_from_json, output_to_json, BootstrapOutput, SecretWrite};

fn obj(fields: Vec<(&str, JsonValue)>) -> JsonValue {
    JsonValue::Obj(
        fields
            .into_iter()
            .map(|(k, v)| (String::from(k), v))
            .collect(),
    )
}

#[test]
fn output_round_trip_and_redaction() {
    let patch = obj(vec![(
        "telemetry",
        obj(vec![("endpoint", JsonValue::Str(String::from("https://otel")))]),
    )]);
    let output = BootstrapOutput::new(
        patch,
        vec![SecretWrite {
            key: "api_key".into(),
            value: Some("supersecret".into()),
            scope: Some("dev".into()),
            metadata: None,
        }],
        vec!["warning one".into()],
        true,
    );

    let redacted = output.redacted();
    assert_eq!(redacted.secrets_writes[0].value, None);
    assert_eq!(redacted.secrets_writes[0].key, "api_key");
    assert_eq!(redacted.secrets_writes[0].scope.as_deref(), Some("dev"));

    let encoded = json_to_string(&output_to_json(&output));
    let decoded_doc = parse_json(encoded.as_bytes()).expect("deserialize");
    let decoded = output_from_json(&decoded_doc).expect("decode");
    assert_eq!(decoded.output_version, "v1");
    assert!(decoded.ready);
    assert_eq!(decoded.secrets_writes[0].key, "api_key");
    assert_eq!(decoded.secrets_writes[0].value.as_deref(), Some("supersecret"));
    assert_eq!(decoded.warnings, vec![String::from("warning one")]);
}

#[test]
fn redaction_never_appears_in_rendered_output() {
    let output = BootstrapOutput::new(
        JsonValue::Null,
        vec![SecretWrite {
            key: "token".into(),
            value: Some("hunter2".into()),
            scope: None,
            metadata: None,
        }],
        Vec::new(),
        true,
    );
    let rendered = json_to_string(&output_to_json(&output.redacted()));
    assert!(!rendered.contains("hunter2"));
    assert!(rendered.contains("token"));
}
