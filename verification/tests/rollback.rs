use greentic_deployer::config_patch::{
    default_config_patch_path, render_config_patch, restore_config, snapshot_config,
    ConfigSnapshot,
};
use greentic_deployer::json::JsonValue;
use greentic_deployer::orchestrate::{rollback_ref_string, CommitMachine};
use greentic_deployer::secrets::{parse_backend, snapshot_backend, RestoreAction};
use greentic_deployer::state::BootstrapState;

#[test]
fn config_patch_path_defaults_to_state_sibling() {
    assert_eq!(
        default_config_patch_path("/var/lib/greentic/state.json"),
        "/var/lib/greentic/config_patch.json"
    );
    assert_eq!(default_config_patch_path("state.json"), "config_patch.json");
}

#[test]
fn config_patch_is_written_verbatim() {
    let patch = JsonValue::Obj(vec![(
        String::from("platform"),
        JsonValue::Obj(vec![(String::from("enabled"), JsonValue::Bool(true))]),
    )]);
    assert_eq!(render_config_patch(&patch), "{\"platform\":{\"enabled\":true}}");
}

#[test]
fn failure_after_config_write_restores_prior_config() {
    // The config patch existed before the run; secrets and the patch were
    // both written; the deploy hook then fails.  The rollback plan puts the
    // pre-run patch back.
    let config_snapshot = snapshot_config(Some(String::from("{\"old\":true}")));
    let secrets_backend = parse_backend("file:/tmp/secrets.db").expect("backend");
    let secrets_snapshot = snapshot_backend(&secrets_backend, None);
    let mut machine = CommitMachine::new(
        String::from("/tmp/config_patch.json"),
        config_snapshot,
        secrets_snapshot,
    );
    assert!(machine.advance(true).is_none()); // secrets written
    assert!(machine.advance(true).is_none()); // config patch written
    let plan = machine.advance(false).expect("hook failure rolls back");
    match plan.restore_config.expect("config is restored") {
        RestoreAction::WriteFile { path, content } => {
            assert_eq!(path, "/tmp/config_patch.json");
            assert_eq!(content, "{\"old\":true}");
        }
        other => panic!("expected the prior content back, got {:?}", other),
    }
    match plan.restore_secrets.expect("secrets are restored first") {
        RestoreAction::RemoveFileIfExists { path } => assert_eq!(path, "/tmp/secrets.db"),
        other => panic!("expected removal of the fresh store, got {:?}", other),
    }
}

#[test]
fn failure_after_config_write_removes_previously_absent_config() {
    // The patch did not exist before the run: rolling back removes it.
    let config_snapshot = snapshot_config(None);
    let mut machine = CommitMachine::new(
        String::from("/tmp/config_patch.json"),
        config_snapshot,
        None,
    );
    assert!(machine.advance(true).is_none()); // secrets written
    assert!(machine.advance(true).is_none()); // config patch written
    let plan = machine.advance(false).expect("state save failure rolls back");
    match plan.restore_config.expect("config is restored") {
        RestoreAction::RemoveFileIfExists { path } => {
            assert_eq!(path, "/tmp/config_patch.json");
        }
        other => panic!("expected removal, got {:?}", other),
    }
    assert!(plan.restore_secrets.is_none());
}

#[test]
fn secrets_failure_before_config_write_leaves_config_alone() {
    let config_snapshot = snapshot_config(None);
    let mut machine = CommitMachine::new(
        String::from("/tmp/config_patch.json"),
        config_snapshot,
        None,
    );
    let plan = machine.advance(false).expect("secrets failure rolls back");
    assert!(plan.restore_config.is_none());
}

#[test]
fn restore_config_covers_both_prior_states() {
    let path = String::from("/tmp/config_patch.json");
    let existed = ConfigSnapshot { existed: true, content: Some(String::from("{}")) };
    match restore_config(&path, &existed) {
        RestoreAction::WriteFile { content, .. } => assert_eq!(content, "{}"),
        other => panic!("expected rewrite, got {:?}", other),
    }
    let absent = ConfigSnapshot { existed: false, content: None };
    assert!(matches!(restore_config(&path, &absent), RestoreAction::RemoveFileIfExists { .. }));
}

#[test]
fn rollback_reference_names_prior_version_and_digest() {
    let existing = BootstrapState {
        version: Some("1.0.0".into()),
        digest: Some("sha256:old".into()),
        ..BootstrapState::default()
    };
    assert_eq!(rollback_ref_string(&existing), "version=1.0.0,digest=sha256:old");
    let empty = BootstrapState::default();
    assert_eq!(rollback_ref_string(&empty), "version=unknown,digest=unknown");
}
