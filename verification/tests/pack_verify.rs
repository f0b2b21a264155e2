use greentic_deployer::pack::{
    bootstrap_flow_id, flow_entry_path, resolve_bootstrap, verify_platform_pack, BootstrapSpec,
    PackManifest, PackSignature, PlatformPackInfo, VerificationPolicy,
};

fn manifest_with(signatures: Vec<PackSignature>, bootstrap: Option<BootstrapSpec>) -> PackManifest {
    PackManifest {
        pack_id: String::from("dev.greentic.platform"),
        version: String::from("0.1.0"),
        flows: vec![
            String::from("platform_install"),
            String::from("platform_upgrade"),
        ],
        signatures,
        bootstrap,
    }
}

fn info_with(signatures: Vec<PackSignature>) -> PlatformPackInfo {
    PlatformPackInfo {
        manifest: manifest_with(signatures, None),
        digest: Some(String::from("sha256:abc")),
    }
}

#[test]
fn missing_signatures_warns_when_non_strict() {
    let info = info_with(Vec::new());
    let outcome = verify_platform_pack(&info, VerificationPolicy { verify: true, strict: false })
        .expect("permissive policy degrades to a warning");
    assert_eq!(outcome.warnings.len(), 1);
    assert!(outcome.warnings[0].contains("missing signatures"));
}

#[test]
fn missing_signatures_fails_when_strict() {
    let info = info_with(Vec::new());
    let err = verify_platform_pack(&info, VerificationPolicy { verify: true, strict: true })
        .expect_err("strict policy fails hard");
    assert!(err.message().contains("missing signatures"));
}

#[test]
fn invalid_signature_fails() {
    let info = info_with(vec![PackSignature {
        key_id: String::from("key-1"),
        signature: Vec::new(),
    }]);
    let err = verify_platform_pack(&info, VerificationPolicy { verify: true, strict: false })
        .expect_err("empty signature payload fails under either policy");
    assert!(err.message().contains("invalid signature for key_id=key-1"));
}

#[test]
fn present_signatures_verify_cleanly() {
    let info = info_with(vec![PackSignature {
        key_id: String::from("key-1"),
        signature: vec![1, 2, 3],
    }]);
    let outcome = verify_platform_pack(&info, VerificationPolicy { verify: true, strict: true })
        .expect("non-empty signatures pass");
    assert!(outcome.warnings.is_empty());
}

#[test]
fn verification_off_notes_the_skip() {
    let info = info_with(Vec::new());
    let outcome = verify_platform_pack(&info, VerificationPolicy { verify: false, strict: true })
        .expect("skipped");
    assert_eq!(outcome.warnings.len(), 1);
    assert!(outcome.warnings[0].contains("verification skipped"));
}

#[test]
fn resolves_explicit_bootstrap_fields() {
    let manifest = manifest_with(
        Vec::new(),
        Some(BootstrapSpec {
            install_flow: Some(String::from("platform_install")),
            upgrade_flow: None,
            installer_component: Some(String::from("custom_installer")),
        }),
    );
    let res = resolve_bootstrap(&manifest).expect("resolves");
    assert_eq!(res.install_flow, "platform_install");
    assert_eq!(res.upgrade_flow, "platform_upgrade");
    assert_eq!(res.installer_component, "custom_installer");
}

#[test]
fn falls_back_to_defaults_when_missing_bootstrap_block() {
    let manifest = manifest_with(Vec::new(), None);
    let res = resolve_bootstrap(&manifest).expect("resolves");
    assert_eq!(res.install_flow, "platform_install");
    assert_eq!(res.upgrade_flow, "platform_upgrade");
    assert_eq!(res.installer_component, "installer");
    assert_eq!(bootstrap_flow_id(&res, true), "platform_install");
    assert_eq!(bootstrap_flow_id(&res, false), "platform_upgrade");
    assert_eq!(flow_entry_path(&res.install_flow), "flows/platform_install.ygtc");
}

#[test]
fn errors_when_flow_missing() {
    let mut manifest = manifest_with(Vec::new(), None);
    manifest.flows = vec![String::from("platform_install")];
    let err = resolve_bootstrap(&manifest).expect_err("upgrade flow absent");
    assert!(err.message().contains("bootstrap flow 'platform_upgrade' not found"));
}
