//! The publish/subscribe interaction transport: an in-process mock broker
//! (a mutex-guarded topic fan-out, pluggable for a real client) and the
//! adapter that publishes the question schema, waits for answers with a
//! timeout, and reports status.

use vstd::prelude::*;
use crate::errors::BootstrapError;
use crate::flow::{collect_answers, PromptAdapter, Question};
use crate::json::{json_to_string, JsonValue};
use crate::network::NetworkPolicy;
use crate::strutil::concat5;
use vstd::string::StringExecFns;

verus! {

#[verifier::external_type_specification]
#[verifier::external_body]
#[verifier::reject_recursive_types(T)]
pub struct ExReceiver<T>(std::sync::mpsc::Receiver<T>);

/// The in-process topic fan-out used for tests and scaffolding: a shared
/// map from topic to subscriber channels.  Opaque here: what arrives on a
/// subscription depends on other threads, so nothing is promised of it.
#[verifier::external_body]
pub struct MockBroker {
    inner: std::sync::Arc<
        std::sync::Mutex<
            std::collections::HashMap<String, Vec<std::sync::mpsc::Sender<Vec<u8>>>>,
        >,
    >,
}

impl Clone for MockBroker {
    /// Relies on `Arc::clone`: both handles share the same topic table.
    #[verifier::external_body]
    fn clone(&self) -> Self {
        MockBroker { inner: std::sync::Arc::clone(&self.inner) }
    }
}

impl MockBroker {
    /// A broker with no topics.
    #[verifier::external_body]
    pub fn new() -> (r: Self) {
        MockBroker { inner: std::sync::Arc::new(std::sync::Mutex::new(std::collections::HashMap::new())) }
    }

    /// Relies on `std::sync::mpsc::channel` and the guarded map: registers
    /// a fresh channel under the topic and hands back its receiving end.
    /// What later arrives on it depends on other threads.
    #[verifier::external_body]
    pub fn subscribe(&self, topic: &str) -> std::sync::mpsc::Receiver<Vec<u8>> {
        let (tx, rx) = std::sync::mpsc::channel();
        let mut guard = self.inner.lock().unwrap();
        guard.entry(topic.to_string()).or_default().push(tx);
        rx
    }

    /// Relies on `std::sync::mpsc::Sender::send` under the guarded map:
    /// hands the payload to every subscriber of the topic, ignoring ones
    /// that went away.
    #[verifier::external_body]
    pub fn publish(&self, topic: &str, payload: &[u8]) {
        let guard = self.inner.lock().unwrap();
        if let Some(subs) = guard.get(topic) {
            for sub in subs {
                let _ = sub.send(payload.to_vec());
            }
        }
    }
}

/// Relies on `std::sync::mpsc::Receiver::recv_timeout`: either a message
/// another thread sent, or nothing within the timeout.  Which of the two,
/// and what the bytes are, depends on the other threads.
#[verifier::external_body]
fn recv_with_timeout(rx: &std::sync::mpsc::Receiver<Vec<u8>>, timeout_ms: u64) -> Option<Vec<u8>> {
    rx.recv_timeout(std::time::Duration::from_millis(timeout_ms)).ok()
}

/// The publish/subscribe prompt adapter over a broker.
pub struct MqttPromptAdapter {
    broker: MockBroker,
    device_id: String,
    topic_prefix: String,
    timeout_ms: u64,
    network_policy: Option<(NetworkPolicy, String)>,
}

impl MqttPromptAdapter {
    /// The policy this adapter re-checks before each exchange, if any.
    pub closed spec fn spec_policy(&self) -> Option<(NetworkPolicy, Seq<char>)> {
        match self.network_policy {
            Option::Some((policy, host)) => Option::Some((policy, host@)),
            Option::None => Option::None,
        }
    }

    #[verifier::type_invariant]
    pub closed spec fn wf(&self) -> bool {
        match self.network_policy {
            Option::Some((policy, host)) => policy.wf(),
            Option::None => true,
        }
    }

    /// An adapter over the in-process mock broker, with a default timeout
    /// and no network policy attached.
    pub fn new_mock(broker: MockBroker, device_id: String, topic_prefix: String) -> (r: Result<
        Self,
        BootstrapError,
    >)
        ensures
            r matches Result::Ok(adapter) && adapter.spec_policy() is None && adapter.wf(),
    {
        Result::Ok(
            MqttPromptAdapter {
                broker,
                device_id,
                topic_prefix,
                timeout_ms: 5000,
                network_policy: Option::None,
            },
        )
    }

    /// The same adapter with another timeout.
    pub fn with_timeout(self, timeout_ms: u64) -> (r: Self)
        ensures
            r.spec_policy() == self.spec_policy(),
            r.wf() == self.wf(),
    {
        proof {
            use_type_invariant(&self);
        }
        MqttPromptAdapter { timeout_ms, ..self }
    }

    /// Attaches a network policy, enforcing it against the broker host
    /// immediately: a denied host never yields an adapter.
    pub fn with_network_policy(self, policy: NetworkPolicy, broker_host: String) -> (r: Result<
        Self,
        BootstrapError,
    >)
        requires
            policy.wf(),
        ensures
            match r {
                Result::Ok(adapter) => NetworkPolicy::spec_allows(
                    policy.view_policy(),
                    broker_host@,
                ) && adapter.spec_policy() == Option::Some((policy, broker_host@))
                    && adapter.wf(),
                Result::Err(e) => !NetworkPolicy::spec_allows(policy.view_policy(), broker_host@)
                    && e is NetworkDenied,
            },
    {
        match policy.enforce(broker_host.as_str()) {
            Result::Ok(()) => {},
            Result::Err(e) => {
                return Result::Err(e);
            },
        }
        Result::Ok(
            MqttPromptAdapter {
                network_policy: Option::Some((policy, broker_host)),
                ..self
            },
        )
    }

    fn schema_topic(&self) -> (r: String)
        ensures
            r@ == self.topic_prefix@ + "/"@ + self.device_id@ + "/schema"@,
    {
        let r = concat5(self.topic_prefix.as_str(), "/", self.device_id.as_str(), "/schema", "");
        proof {
            reveal_strlit("");
            assert(r@ =~= self.topic_prefix@ + "/"@ + self.device_id@ + "/schema"@);
        }
        r
    }

    fn answers_topic(&self) -> (r: String)
        ensures
            r@ == self.topic_prefix@ + "/"@ + self.device_id@ + "/answers"@,
    {
        let r = concat5(self.topic_prefix.as_str(), "/", self.device_id.as_str(), "/answers", "");
        proof {
            reveal_strlit("");
            assert(r@ =~= self.topic_prefix@ + "/"@ + self.device_id@ + "/answers"@);
        }
        r
    }

    fn status_topic(&self) -> (r: String)
        ensures
            r@ == self.topic_prefix@ + "/"@ + self.device_id@ + "/status"@,
    {
        let r = concat5(self.topic_prefix.as_str(), "/", self.device_id.as_str(), "/status", "");
        proof {
            reveal_strlit("");
            assert(r@ =~= self.topic_prefix@ + "/"@ + self.device_id@ + "/status"@);
        }
        r
    }
}

impl PromptAdapter for MqttPromptAdapter {
    /// Publishes the question schema, blocks on the answers topic up to
    /// the timeout, completes the answers with defaults, and publishes a
    /// status event.  Re-enforces the attached network policy first; a
    /// denied broker host answers nothing.
    fn ask(&mut self, questions: &Vec<Question>) -> (r: Result<JsonValue, BootstrapError>)
        ensures
            r matches Result::Ok(provided) ==> exists|payload: Seq<u8>|
                {
                    &&& #[trigger] crate::json::json_of(payload) matches Option::Some(answers)
                    &&& crate::flow::spec_collect_answers(
                        crate::flow::questions_view(questions@),
                        answers,
                    ) == Result::<Seq<(Seq<char>, crate::json::JsonSpec)>, Seq<char>>::Ok(
                        crate::json::json_view(provided)->Obj_0,
                    )
                },
            (match old(self).spec_policy() {
                Option::Some((policy, host)) => !NetworkPolicy::spec_allows(
                    policy.view_policy(),
                    host,
                ),
                Option::None => false,
            }) <==> (r matches Result::Err(e) && e is NetworkDenied),
            r matches Result::Err(e) ==> (e is NetworkDenied || e is Timeout || e is Pack
                || e is MissingAnswer),
    {
        proof {
            use_type_invariant(&*self);
        }
        match &self.network_policy {
            Option::Some((policy, host)) => {
                match policy.enforce(host.as_str()) {
                    Result::Ok(()) => {},
                    Result::Err(e) => {
                        return Result::Err(e);
                    },
                }
            },
            Option::None => {},
        }
        let schema = crate::http::schema_json(questions);
        let payload = json_to_string(&schema);
        let topic = self.schema_topic();
        self.broker.publish(topic.as_str(), payload.as_str().as_bytes());
        let answers_topic = self.answers_topic();
        let rx = self.broker.subscribe(answers_topic.as_str());
        let answer_bytes = match recv_with_timeout(&rx, self.timeout_ms) {
            Option::Some(bytes) => bytes,
            Option::None => {
                return Result::Err(
                    BootstrapError::Timeout(
                        String::from_str("timeout waiting for MQTT answers"),
                    ),
                );
            },
        };
        let answers = match crate::json::parse_json(answer_bytes.as_slice()) {
            Option::Some(doc) => doc,
            Option::None => {
                return Result::Err(
                    BootstrapError::Pack(String::from_str("invalid MQTT answers payload")),
                );
            },
        };
        let provided = match collect_answers(questions, &answers) {
            Result::Ok(provided) => provided,
            Result::Err(e) => {
                return Result::Err(e);
            },
        };
        proof {
            assert(crate::json::json_of(answer_bytes@) matches Option::Some(doc)
                && crate::flow::spec_collect_answers(
                crate::flow::questions_view(questions@),
                doc,
            ) == Result::<Seq<(Seq<char>, crate::json::JsonSpec)>, Seq<char>>::Ok(
                crate::json::json_view(provided)->Obj_0,
            ));
        }
        let status = status_event_json();
        let status_payload = json_to_string(&status);
        let status_topic = self.status_topic();
        self.broker.publish(status_topic.as_str(), status_payload.as_str().as_bytes());
        Result::Ok(provided)
    }
}

/// The status event published for observers once answers arrived.
fn status_event_json() -> (r: JsonValue)
    ensures
        crate::json::json_view(r) == crate::json::JsonSpec::Obj(
            seq![("status"@, crate::json::JsonSpec::Str("answers_received"@))],
        ),
{
    broadcast use crate::json::lemma_json_view_fields;

    proof {
        reveal_strlit("status");
        reveal_strlit("answers_received");
    }
    let mut fields: Vec<(String, JsonValue)> = Vec::new();
    fields.push(
        (String::from_str("status"), JsonValue::Str(String::from_str("answers_received"))),
    );
    let r = JsonValue::Obj(fields);
    proof {
        let gf = crate::json::json_view_fields(fields@);
        assert(gf.len() == 1);
        assert(gf[0] == (fields@[0].0@, crate::json::json_view(fields@[0].1)));
        assert(crate::json::json_view(r) =~~= crate::json::JsonSpec::Obj(
            seq![("status"@, crate::json::JsonSpec::Str("answers_received"@))],
        ));
    }
    r
}

} // verus!
