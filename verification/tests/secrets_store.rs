use base64::Engine;
use greentic_deployer::json::{json_to_string, JsonValue};
use greentic_deployer::output::SecretWrite;
use greentic_deployer::secrets::{
    execute_writes, parse_backend, restore_backend, snapshot_backend, K8sSecretDirs,
    RestoreAction, SecretsBackend, SecretsWritePlan,
};

#[test]
fn writes_secrets_to_file_backend() {
    let backend = parse_backend("file:/tmp/secrets.db").expect("parse file backend succeeds");
    let metadata = JsonValue::Obj(vec![(
        String::from("source"),
        JsonValue::Str(String::from("installer")),
    )]);
    let writes = vec![SecretWrite {
        key: "api_key".into(),
        value: Some("supersecret".into()),
        scope: Some("dev".into()),
        metadata: Some(metadata),
    }];

    let plan = execute_writes(&backend, None, &writes).expect("write secrets");
    let content = match plan {
        SecretsWritePlan::WriteFile { path, content } => {
            assert_eq!(path, "/tmp/secrets.db");
            content
        }
        other => panic!("expected a file write, got {:?}", other),
    };
    let parsed: serde_json::Value = serde_json::from_str(&content).expect("json");
    let entry = parsed
        .get("dev/api_key")
        .expect("dev/api_key stored in file backend");
    assert_eq!(entry["value"].as_str(), Some("supersecret"));
    assert_eq!(entry["scope"].as_str(), Some("dev"));
    assert_eq!(entry["metadata"]["source"].as_str(), Some("installer"));
}

#[test]
fn merges_into_existing_store_without_overwriting_others() {
    let backend = parse_backend("file:/tmp/secrets.db").expect("backend");
    let existing: Vec<u8> = b"{\"other/key\":{\"value\":\"keepme\"}}".to_vec();
    let writes = vec![SecretWrite {
        key: "api_key".into(),
        value: Some("fresh".into()),
        scope: None,
        metadata: None,
    }];
    let plan = execute_writes(&backend, Some(&existing), &writes).expect("merge");
    let content = match plan {
        SecretsWritePlan::WriteFile { content, .. } => content,
        other => panic!("expected a file write, got {:?}", other),
    };
    let parsed: serde_json::Value = serde_json::from_str(&content).expect("json");
    assert_eq!(parsed["other/key"]["value"].as_str(), Some("keepme"));
    assert_eq!(parsed["api_key"]["value"].as_str(), Some("fresh"));
}

#[test]
fn errors_on_unknown_backend() {
    let err = parse_backend("k8s:foo").expect_err("unknown backend should error");
    assert!(err.message().contains("k8s backend expects"));
    let err = parse_backend("vault:foo").expect_err("unsupported scheme");
    assert!(err.message().contains("unsupported secrets backend"));
    let err = parse_backend("file:").expect_err("empty path");
    assert!(err.message().contains("requires a path"));
}

#[test]
fn parses_k8s_backend_forms() {
    match parse_backend("k8s:dev/greentic-bootstrap").expect("slash form") {
        SecretsBackend::K8s { namespace, name } => {
            assert_eq!(namespace, "dev");
            assert_eq!(name, "greentic-bootstrap");
        }
        other => panic!("expected k8s backend, got {:?}", other),
    }
    match parse_backend("k8s:namespace=prod,name=boot").expect("pair form") {
        SecretsBackend::K8s { namespace, name } => {
            assert_eq!(namespace, "prod");
            assert_eq!(name, "boot");
        }
        other => panic!("expected k8s backend, got {:?}", other),
    }
    assert!(parse_backend("k8s:namespace=prod").is_err());
}

#[test]
fn writes_secrets_to_k8s_backend_stub() {
    let dirs = {
        let mut d = K8sSecretDirs::new();
        d.set_k8s_secret_dir_override(Some(String::from("/tmp/test-k8s-secrets")));
        d
    };
    assert_eq!(dirs.base_dir(None), "/tmp/test-k8s-secrets");

    let backend = parse_backend("k8s:dev/greentic-bootstrap").expect("parse k8s backend succeeds");
    let writes = vec![SecretWrite {
        key: "api_key".into(),
        value: Some("supersecret".into()),
        scope: Some("dev".into()),
        metadata: None,
    }];
    let plan = execute_writes(&backend, None, &writes).expect("write secrets");
    let manifest = match plan {
        SecretsWritePlan::WriteK8sManifest { namespace, name, manifest } => {
            assert_eq!(namespace, "dev");
            assert_eq!(name, "greentic-bootstrap");
            manifest
        }
        other => panic!("expected a manifest write, got {:?}", other),
    };
    let rendered = json_to_string(&manifest);
    let parsed: serde_json::Value = serde_json::from_str(&rendered).expect("manifest json");
    assert_eq!(parsed["apiVersion"].as_str(), Some("v1"));
    assert_eq!(parsed["kind"].as_str(), Some("Secret"));
    assert_eq!(parsed["metadata"]["namespace"].as_str(), Some("dev"));
    assert_eq!(parsed["metadata"]["name"].as_str(), Some("greentic-bootstrap"));
    let expected = base64::engine::general_purpose::STANDARD.encode(b"supersecret");
    assert_eq!(parsed["data"]["dev/api_key"].as_str(), Some(expected.as_str()));
    // The manifest renders as YAML for the stub directory, too.
    let yaml = serde_yaml_bw::to_string(&parsed).expect("yaml renders");
    assert!(yaml.contains("kind: Secret"));
}

#[test]
fn blank_store_file_counts_as_empty() {
    let backend = parse_backend("file:/tmp/secrets.db").expect("backend");
    let existing: Vec<u8> = b"  \t\r\n ".to_vec();
    let writes = vec![SecretWrite {
        key: "api_key".into(),
        value: Some("fresh".into()),
        scope: None,
        metadata: None,
    }];
    let plan = execute_writes(&backend, Some(&existing), &writes).expect("blank store is empty");
    let content = match plan {
        SecretsWritePlan::WriteFile { content, .. } => content,
        other => panic!("expected a file write, got {:?}", other),
    };
    let parsed: serde_json::Value = serde_json::from_str(&content).expect("json");
    assert_eq!(parsed["api_key"]["value"].as_str(), Some("fresh"));

    let garbage: Vec<u8> = b"not json".to_vec();
    let err = execute_writes(&backend, Some(&garbage), &writes).expect_err("unreadable store");
    assert!(err.message().contains("not valid JSON"));
}

#[test]
fn write_without_value_fails_with_missing_value() {
    let backend = parse_backend("file:/tmp/secrets.db").expect("backend");
    let writes = vec![SecretWrite {
        key: "api_key".into(),
        value: None,
        scope: None,
        metadata: None,
    }];
    let err = execute_writes(&backend, None, &writes).expect_err("no value declared");
    assert!(err.message().contains("missing value"));
}

#[test]
fn empty_writes_touch_nothing() {
    let backend = parse_backend("file:/tmp/secrets.db").expect("backend");
    let plan = execute_writes(&backend, None, &Vec::new()).expect("empty set");
    assert!(matches!(plan, SecretsWritePlan::Nothing));
}

#[test]
fn snapshot_and_restore_cover_both_prior_states() {
    let backend = parse_backend("file:/tmp/secrets.db").expect("backend");
    let with_prior = snapshot_backend(&backend, Some(String::from("{\"k\":1}")))
        .expect("file backend snapshots");
    match restore_backend(&with_prior).expect("restorable") {
        RestoreAction::WriteFile { path, content } => {
            assert_eq!(path, "/tmp/secrets.db");
            assert_eq!(content, "{\"k\":1}");
        }
        other => panic!("expected rewrite, got {:?}", other),
    }
    let absent = snapshot_backend(&backend, None).expect("file backend snapshots");
    match restore_backend(&absent).expect("restorable") {
        RestoreAction::RemoveFileIfExists { path } => assert_eq!(path, "/tmp/secrets.db"),
        other => panic!("expected removal, got {:?}", other),
    }
    let k8s = parse_backend("k8s:dev/boot").expect("backend");
    assert!(snapshot_backend(&k8s, None).is_none());
}
