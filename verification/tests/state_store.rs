use greentic_deployer::config::BootstrapStateBackend;
use greentic_deployer::errors::BootstrapError;
use greentic_deployer::state::{
    ensure_upgrade_allowed, load_state, load_state_backend, save_state, save_state_backend,
    BootstrapState,
};

#[test]
fn missing_state_returns_none() {
    let loaded = load_state(None).expect("no file is fine");
    assert!(loaded.is_none());
}

#[test]
fn roundtrip_state() {
    let state = BootstrapState {
        version: Some("0.1.0".into()),
        digest: Some("sha256:abc".into()),
        installed_at: Some(123),
        environment_kind: Some("local".into()),
        last_upgrade_at: Some(456),
        rollback_ref: Some("ref1".into()),
    };
    let content = save_state(&state);
    let loaded = load_state(Some(content.as_bytes()))
        .expect("load state")
        .expect("state present");
    assert_eq!(loaded, state);
}

#[test]
fn file_backend_reads_and_writes() {
    let state = BootstrapState::installed_now(Some("1.2.3".into()), Some("sha256:abc".into()));
    let content = save_state_backend(BootstrapStateBackend::File, &state, "ns", "name")
        .expect("save state");
    let loaded = load_state_backend(
        BootstrapStateBackend::File,
        Some(content.as_bytes()),
        "ns",
        "name",
    )
    .expect("load state");
    assert_eq!(loaded.as_ref().unwrap().version.as_deref(), Some("1.2.3"));
}

#[test]
fn k8s_backend_not_available_errors() {
    let err = load_state_backend(BootstrapStateBackend::K8s, None, "ns", "name")
        .expect_err("k8s backend should error");
    assert!(err.message().contains("not available"));
}

#[test]
fn upgrade_preflight_blocks_missing_state_and_downgrade() {
    let err = ensure_upgrade_allowed(None, "1.1.0").expect_err("no state");
    assert!(matches!(err, BootstrapError::NotInstalled));

    let installed = BootstrapState {
        version: Some("1.2.0".into()),
        ..BootstrapState::default()
    };
    let err = ensure_upgrade_allowed(Some(installed.clone()), "1.1.0").expect_err("downgrade");
    match err {
        BootstrapError::NotNewer { current, target } => {
            assert_eq!(current, "1.2.0");
            assert_eq!(target, "1.1.0");
        }
        other => panic!("expected NotNewer, got {:?}", other),
    }

    let err = ensure_upgrade_allowed(Some(installed.clone()), "1.2.0").expect_err("equal version");
    assert!(matches!(err, BootstrapError::NotNewer { .. }));

    let ok = ensure_upgrade_allowed(Some(installed), "1.3.0").expect("newer version passes");
    assert_eq!(ok.version.as_deref(), Some("1.2.0"));

    let missing = BootstrapState::default();
    let err = ensure_upgrade_allowed(Some(missing), "1.3.0").expect_err("missing version");
    assert!(matches!(err, BootstrapError::MissingVersion(_)));
}

#[test]
fn upgrade_state_sets_last_upgrade_timestamp() {
    let existing = BootstrapState {
        version: Some("1.0.0".into()),
        digest: Some("sha256:old".into()),
        installed_at: Some(1000),
        environment_kind: Some("dev".into()),
        last_upgrade_at: None,
        rollback_ref: None,
    };
    let upgraded = BootstrapState::upgraded_from(
        &existing,
        Some("1.1.0".into()),
        Some("sha256:new".into()),
        Some("version=1.0.0,digest=sha256:old".into()),
    );
    assert_eq!(upgraded.version.as_deref(), Some("1.1.0"));
    assert_eq!(upgraded.installed_at, Some(1000));
    assert_eq!(upgraded.environment_kind.as_deref(), Some("dev"));
    assert!(upgraded.last_upgrade_at.is_some());
    assert_eq!(
        upgraded.rollback_ref.as_deref(),
        Some("version=1.0.0,digest=sha256:old")
    );
}

#[test]
fn state_file_is_the_documented_json() {
    let state = BootstrapState {
        version: Some("0.1.0".into()),
        digest: None,
        installed_at: Some(7),
        environment_kind: None,
        last_upgrade_at: None,
        rollback_ref: None,
    };
    let content = save_state(&state);
    assert_eq!(
        content,
        "{\"version\":\"0.1.0\",\"digest\":null,\"installed_at\":7,\"environment_kind\":null,\"last_upgrade_at\":null,\"rollback_ref\":null}"
    );
    // serde reads it back as the same document.
    let parsed: serde_json::Value = serde_json::from_str(&content).expect("valid JSON");
    assert_eq!(parsed.get("version").and_then(|v| v.as_str()), Some("0.1.0"));
    assert_eq!(parsed.get("installed_at").and_then(|v| v.as_u64()), Some(7));
}

#[test]
fn unparsable_state_bytes_are_an_error() {
    assert!(load_state(Some(b"not json")).is_err());
    assert!(load_state(Some(b"{\"version\":42}")).is_err());
}
