//! Plain planning kinds: the role a component plays, the abstract profile
//! it deploys as, and the target it maps onto.  Inference over packs is an
//! outside collaborator's job; here they are data.

use vstd::prelude::*;

verus! {

/// Generic component role derived from pack metadata.
#[derive(Debug, Clone, Copy, PartialEq, Eq, Structural)]
pub enum ComponentRole {
    EventProvider,
    EventBridge,
    MessagingAdapter,
    Worker,
    Other,
}

impl ComponentRole {
    pub fn as_str(&self) -> (r: &'static str)
        ensures
            (*self is EventProvider ==> r@ == "event_provider"@) && (*self is EventBridge ==> r@
                == "event_bridge"@) && (*self is MessagingAdapter ==> r@ == "messaging_adapter"@)
                && (*self is Worker ==> r@ == "worker"@) && (*self is Other ==> r@ == "other"@),
    {
        match self {
            ComponentRole::EventProvider => "event_provider",
            ComponentRole::EventBridge => "event_bridge",
            ComponentRole::MessagingAdapter => "messaging_adapter",
            ComponentRole::Worker => "worker",
            ComponentRole::Other => "other",
        }
    }
}

/// Abstract deployment profile used to map onto target infrastructure.
#[derive(Debug, Clone, Copy, PartialEq, Eq, Structural)]
pub enum DeploymentProfile {
    LongLivedService,
    HttpEndpoint,
    QueueConsumer,
    ScheduledSource,
    OneShotJob,
}

impl DeploymentProfile {
    pub fn as_str(&self) -> (r: &'static str)
        ensures
            (*self is LongLivedService ==> r@ == "long_lived_service"@) && (*self is HttpEndpoint
                ==> r@ == "http_endpoint"@) && (*self is QueueConsumer ==> r@
                == "queue_consumer"@) && (*self is ScheduledSource ==> r@ == "scheduled_source"@)
                && (*self is OneShotJob ==> r@ == "one_shot_job"@),
    {
        match self {
            DeploymentProfile::LongLivedService => "long_lived_service",
            DeploymentProfile::HttpEndpoint => "http_endpoint",
            DeploymentProfile::QueueConsumer => "queue_consumer",
            DeploymentProfile::ScheduledSource => "scheduled_source",
            DeploymentProfile::OneShotJob => "one_shot_job",
        }
    }
}

/// Supported deployment targets.
#[derive(Debug, Clone, Copy, PartialEq, Eq, Structural)]
pub enum Target {
    Local,
    Aws,
    Azure,
    Gcp,
    K8s,
}

impl Target {
    pub fn as_str(&self) -> (r: &'static str)
        ensures
            (*self is Local ==> r@ == "local"@) && (*self is Aws ==> r@ == "aws"@) && (*self
                is Azure ==> r@ == "azure"@) && (*self is Gcp ==> r@ == "gcp"@) && (*self is K8s
                ==> r@ == "k8s"@),
    {
        match self {
            Target::Local => "local",
            Target::Aws => "aws",
            Target::Azure => "azure",
            Target::Gcp => "gcp",
            Target::K8s => "k8s",
        }
    }

    /// The target a provider choice maps onto, one for one.
    pub fn of_provider(value: crate::config::Provider) -> (r: Target)
        ensures
            (value is Local <==> r is Local) && (value is Aws <==> r is Aws) && (value is Azure
                <==> r is Azure) && (value is Gcp <==> r is Gcp) && (value is K8s <==> r is K8s),
    {
        match value {
            crate::config::Provider::Local => Target::Local,
            crate::config::Provider::Aws => Target::Aws,
            crate::config::Provider::Azure => Target::Azure,
            crate::config::Provider::Gcp => Target::Gcp,
            crate::config::Provider::K8s => Target::K8s,
        }
    }
}

} // verus!
