use greentic_deployer::digest::{sha256_digest_string, verify_digest};
use greentic_deployer::errors::BootstrapError;
use greentic_deployer::json::{json_to_string, parse_json};
use greentic_deployer::network::{NetAllowList, NetworkPolicy};
use greentic_deployer::oci::{
    accept_blob, blob_file_name, cache_key, cached_blob_file, check_manifest_digest, load_index,
    parse_oci_reference, registry_base, save_index, CacheIndex, OciLayer, OciManifest,
};

#[test]
fn parse_rejects_invalid_refs() {
    assert!(parse_oci_reference("gtpack").is_err());
    assert!(parse_oci_reference("oci://").is_err());
    assert!(parse_oci_reference("oci://registry").is_err());
}

#[test]
fn parse_accepts_valid_refs() {
    let r = parse_oci_reference("oci://r.local/repo:1.0").unwrap();
    assert_eq!(r.host, "r.local");
    assert_eq!(r.repository, "repo");
    assert_eq!(r.tag, "1.0");
}

#[test]
fn parse_defaults_tag_to_latest() {
    let r = parse_oci_reference("oci://r.local/team/repo").unwrap();
    assert_eq!(r.host, "r.local");
    assert_eq!(r.repository, "team/repo");
    assert_eq!(r.tag, "latest");
}

#[test]
fn resolve_requires_policy_and_allowlist() {
    let offline = NetworkPolicy::new(false, true, NetAllowList::default());
    let err = offline.enforce("r.local").unwrap_err();
    assert!(err.message().contains("offline-only"));

    let disallowed = NetworkPolicy::new(false, false, NetAllowList::default());
    let err = disallowed.enforce("r.local").unwrap_err();
    assert!(err.message().contains("network access disabled"));

    let foreign = NetAllowList::parse(Some("registry.example")).expect("parse");
    let excluded = NetworkPolicy::new(true, false, foreign);
    let err = excluded.enforce("r.local").unwrap_err();
    assert!(err.message().contains("allowlist"));

    // An unconfigured allowlist does not restrict: network on, no entries.
    let unrestricted = NetworkPolicy::new(true, false, NetAllowList::default());
    assert!(unrestricted.enforce("r.local").is_ok());
}

#[test]
fn digest_of_known_bytes_is_exact() {
    // The SHA-256 of "abc" is a published test vector.
    let digest = sha256_digest_string(b"abc");
    assert_eq!(
        digest,
        "sha256:ba7816bf8f01cfea414140de5dae2223b00361a396177a9cb410ff61f20015ad"
    );
    assert!(verify_digest(&digest, b"abc", "pack blob").is_ok());
    let err = verify_digest(&digest, b"abd", "pack blob").unwrap_err();
    assert!(err.message().contains("pack blob digest mismatch"));
}

#[test]
fn resolves_and_caches_with_mock_server() {
    let bytes: Vec<u8> = b"stub pack bytes".to_vec();
    let pack_digest = sha256_digest_string(&bytes);
    let reference = parse_oci_reference("oci://registry.local/repo:latest").unwrap();
    let key = cache_key(&reference);
    assert_eq!(key, "registry.local/repo:latest");

    let mut index = load_index(None).expect("empty index");
    assert!(cached_blob_file(&index, &key).is_none());

    let manifest = OciManifest {
        layers: vec![OciLayer {
            media_type: String::from("application/vnd.greentic.pack.v1+gtpack"),
            digest: pack_digest.clone(),
            size: Some(bytes.len() as u64),
        }],
    };
    check_manifest_digest(&None, b"{}").expect("no header means no check");
    let layer = manifest.select_pack_layer().expect("layer present");
    let layer_digest = manifest.layers[layer].digest.clone();
    let file = accept_blob(&mut index, &key, &layer_digest, &bytes).expect("digest matches");
    assert_eq!(file, blob_file_name(&pack_digest));

    // The second resolution of the same reference is a cache hit: the index
    // answers with the same file, no fetch needed.
    let cached = cached_blob_file(&index, &key).expect("cache hit");
    assert_eq!(cached, file);

    // The index survives its JSON round trip.
    let persisted = save_index(&index);
    let reloaded = load_index(Some(persisted.as_bytes())).expect("index parses");
    assert_eq!(cached_blob_file(&reloaded, &key).expect("still cached"), file);
}

#[test]
fn fails_when_blob_digest_mismatches() {
    let bytes: Vec<u8> = b"stub pack bytes".to_vec();
    let bad_digest = "sha256:0000000000000000000000000000000000000000000000000000000000000000";
    let mut index = CacheIndex::new();
    let err = accept_blob(&mut index, "registry.local/repo:latest", bad_digest, &bytes)
        .expect_err("mismatch fails");
    assert!(err.message().contains("digest mismatch"));
    match err {
        BootstrapError::DigestMismatch { .. } => {}
        other => panic!("expected DigestMismatch, got {:?}", other),
    }
    // Nothing was cached.
    assert!(cached_blob_file(&index, "registry.local/repo:latest").is_none());
}

#[test]
fn manifest_digest_header_is_checked_before_blobs() {
    let manifest_bytes = b"{\"layers\":[]}";
    let good = sha256_digest_string(manifest_bytes);
    assert!(check_manifest_digest(&Some(good), manifest_bytes).is_ok());
    let bad = String::from("sha256:1111111111111111111111111111111111111111111111111111111111111111");
    let err = check_manifest_digest(&Some(bad), manifest_bytes).unwrap_err();
    assert!(err.message().contains("manifest digest mismatch"));
}

#[test]
fn selects_pack_layer_with_octet_stream_fallback() {
    let manifest = OciManifest {
        layers: vec![
            OciLayer {
                media_type: String::from("application/vnd.oci.image.config.v1+json"),
                digest: String::from("sha256:aa"),
                size: None,
            },
            OciLayer {
                media_type: String::from("application/octet-stream"),
                digest: String::from("sha256:bb"),
                size: None,
            },
        ],
    };
    assert_eq!(manifest.select_pack_layer(), Some(1));

    let unknown_only = OciManifest {
        layers: vec![OciLayer {
            media_type: String::from("application/x-unknown"),
            digest: String::from("sha256:cc"),
            size: None,
        }],
    };
    assert_eq!(unknown_only.select_pack_layer(), Some(0));

    let empty = OciManifest { layers: Vec::new() };
    assert_eq!(empty.select_pack_layer(), None);
}

#[test]
fn registry_base_uses_plaintext_only_for_loopback_hosts() {
    let localhost = parse_oci_reference("oci://localhost:5000/repo:1.0").unwrap();
    assert_eq!(registry_base(&localhost), "http://localhost:5000");
    let bare = parse_oci_reference("oci://localhost/repo").unwrap();
    assert_eq!(registry_base(&bare), "http://localhost");
    let v4 = parse_oci_reference("oci://127.0.0.1:5000/repo").unwrap();
    assert_eq!(registry_base(&v4), "http://127.0.0.1:5000");
    let lookalike = parse_oci_reference("oci://notlocalhost.evil.example/repo").unwrap();
    assert_eq!(registry_base(&lookalike), "https://notlocalhost.evil.example");
    let remote = parse_oci_reference("oci://registry.example/repo").unwrap();
    assert_eq!(registry_base(&remote), "https://registry.example");
}

#[test]
fn blob_file_names_replace_digest_colons() {
    assert_eq!(blob_file_name("sha256:abcd"), "sha256-abcd.gtpack");
}

#[test]
fn index_file_format_is_the_documented_json() {
    let mut index = CacheIndex::new();
    index.insert("h/repo:tag", "sha256:abcd");
    let text = save_index(&index);
    assert_eq!(text, "{\"entries\":{\"h/repo:tag\":\"sha256:abcd\"}}");
    let doc = parse_json(text.as_bytes()).expect("parses");
    assert_eq!(json_to_string(&doc), text);
}

#[test]
fn error_messages_name_their_causes() {
    assert_eq!(
        BootstrapError::NoLayers.message(),
        "oci manifest does not contain any layers"
    );
    assert_eq!(
        BootstrapError::NotFound(String::from("/missing.gtpack")).message(),
        "pack /missing.gtpack does not exist"
    );
    assert_eq!(
        BootstrapError::NotAFile(String::from("/dev")).message(),
        "pack /dev is not a file"
    );
    assert_eq!(
        BootstrapError::NotInstalled.message(),
        "platform not installed; run platform install first"
    );
}
