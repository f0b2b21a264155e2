use greentic_deployer::network::{normalize_host, NetAllowList, NetworkPolicy};

#[test]
fn parses_and_matches_hosts_and_cidrs() {
    let allowlist = NetAllowList::parse(Some("example.com, 10.0.0.0/8, https://api.test:443/path"))
        .expect("parse allowlist");
    assert!(allowlist.is_allowed("example.com"));
    assert!(allowlist.is_allowed("http://example.com:8080/service"));
    assert!(allowlist.is_allowed("10.1.2.3"));
    assert!(allowlist.is_allowed("https://api.test/resource"));
    assert!(!allowlist.is_allowed("other.com"));
    assert!(!allowlist.is_allowed("192.168.1.10"));
}

#[test]
fn network_policy_enforces_ordering() {
    let allowlist = NetAllowList::parse(Some("broker.local")).expect("parse");
    let policy = NetworkPolicy::new(true, false, allowlist);
    assert!(policy.enforce("mqtt://broker.local:1883").is_ok());

    let other = NetAllowList::parse(Some("elsewhere.example")).expect("parse");
    let blocked = NetworkPolicy::new(true, false, other);
    assert!(blocked.enforce("broker.local").is_err());

    let offline = NetworkPolicy::new(true, true, NetAllowList::default());
    assert!(offline.enforce("broker.local").is_err());

    let disabled = NetworkPolicy::new(false, false, NetAllowList::default());
    assert!(disabled.enforce("broker.local").is_err());
}

#[test]
fn empty_allowlist_restricts_nothing() {
    // With the network on and no allowlist configured, every target passes;
    // the allowlist only narrows once it has entries.
    let open = NetworkPolicy::new(true, false, NetAllowList::default());
    assert!(open.enforce("broker.local").is_ok());
    assert!(open.enforce("10.1.2.3").is_ok());
}

#[test]
fn offline_only_denies_every_target() {
    let allowlist = NetAllowList::parse(Some("allowed.example, 0.0.0.0/0")).expect("parse");
    let policy = NetworkPolicy::new(true, true, allowlist);
    let err = policy.enforce("allowed.example").expect_err("offline denies");
    assert!(err.message().contains("offline-only"));
    let err = policy.enforce("10.0.0.1").expect_err("offline denies addresses too");
    assert!(err.message().contains("offline-only"));
}

#[test]
fn host_normalization_strips_decorations() {
    assert_eq!(normalize_host("https://user@api.test:443/path?q=1"), "api.test");
    assert_eq!(normalize_host("mqtt://broker.local:1883"), "broker.local");
    assert_eq!(normalize_host("plain.host"), "plain.host");
    assert_eq!(normalize_host("10.1.2.3:8080"), "10.1.2.3");
}

#[test]
fn allowlist_matching_ignores_ascii_case() {
    let allowlist = NetAllowList::parse(Some("Example.COM")).expect("parse");
    assert!(allowlist.is_allowed("EXAMPLE.com"));
    assert!(allowlist.is_allowed("example.com"));
}
