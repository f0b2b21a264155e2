use greentic_deployer::deploy::{resolve_dispatch_with_env, DeploymentTarget};

#[test]
fn resolves_default_entry() {
    let target = DeploymentTarget {
        provider: "generic".into(),
        strategy: "iac-only".into(),
    };
    let dispatch = resolve_dispatch_with_env(&target, |_key| None).expect("default mapping");
    assert_eq!(dispatch.pack_id, "greentic.demo.deploy.generic");
    assert_eq!(dispatch.flow_id, "deploy_generic_iac");
}

#[test]
fn honors_env_override() {
    let target = DeploymentTarget {
        provider: "aws".into(),
        strategy: "serverless".into(),
    };
    let dispatch = resolve_dispatch_with_env(&target, |key| match key {
        "DEPLOY_TARGET_AWS_SERVERLESS_PACK_ID" => Some("custom.pack".into()),
        "DEPLOY_TARGET_AWS_SERVERLESS_FLOW_ID" => Some("flow_one".into()),
        _ => None,
    })
    .expect("env mapping");
    assert_eq!(dispatch.pack_id, "custom.pack");
    assert_eq!(dispatch.flow_id, "flow_one");
}

#[test]
fn errors_when_override_incomplete() {
    let target = DeploymentTarget {
        provider: "aws".into(),
        strategy: "serverless".into(),
    };
    let err = resolve_dispatch_with_env(&target, |key| {
        if key == "DEPLOY_TARGET_AWS_SERVERLESS_PACK_ID" {
            Some("only-pack".into())
        } else {
            None
        }
    })
    .expect_err("missing flow");
    assert!(err.message().contains("Incomplete deployment mapping overrides"));
}

#[test]
fn unmapped_target_is_a_configuration_error() {
    let target = DeploymentTarget {
        provider: "mainframe".into(),
        strategy: "iac-only".into(),
    };
    let err = resolve_dispatch_with_env(&target, |_key| None).expect_err("no mapping");
    assert!(err.message().contains("No deployment pack mapping"));
}
