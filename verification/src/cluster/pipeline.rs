//! Pipeline resource settings and their defaults.
use vstd::prelude::*;

use crate::config::composition::Composition;
use crate::runtime::request::{new_uuid, now_nanos};
use crate::strmap::StrMap;
use crate::text::{push_str, str_eq, string_of, to_string};

verus! {

/// The namespace a pipeline goes to unless its metadata says otherwise.
pub fn default_namespace() -> (s: String)
    ensures
        s@ == "default"@,
{
    String::from_str("default")
}

/// One replica unless the spec says otherwise.
pub fn default_replicas() -> (n: u32)
    ensures
        n == 1,
{
    1
}

/// The port a pipeline serves on unless the spec says otherwise.
pub fn default_port() -> (p: u16)
    ensures
        p == 8080,
{
    8080
}

/// Health check configuration
#[derive(Debug, Clone)]
pub struct HealthConfig {
    /// Liveness check path (default: /health)
    pub liveness_path: String,
    /// Readiness check path (default: /health)
    pub readiness_path: String,
    /// Initial delay before starting health checks (seconds)
    pub initial_delay_seconds: u32,
    /// Interval between health checks (seconds)
    pub period_seconds: u32,
    /// Timeout for each health check (seconds)
    pub timeout_seconds: u32,
    /// Number of failures before marking unhealthy
    pub failure_threshold: u32,
}

impl Default for HealthConfig {
    fn default() -> (h: Self)
        ensures
            h.liveness_path@ == "/health"@,
            h.readiness_path@ == "/health"@,
            h.initial_delay_seconds == 5,
            h.period_seconds == 10,
            h.timeout_seconds == 5,
            h.failure_threshold == 3,
    {
        HealthConfig {
            liveness_path: default_health_path(),
            readiness_path: default_health_path(),
            initial_delay_seconds: default_initial_delay(),
            period_seconds: default_period(),
            timeout_seconds: default_timeout(),
            failure_threshold: default_failure_threshold(),
        }
    }
}

/// The health check path unless configured otherwise.
pub fn default_health_path() -> (s: String)
    ensures
        s@ == "/health"@,
{
    String::from_str("/health")
}

/// Seconds before the first health check.
pub fn default_initial_delay() -> (n: u32)
    ensures
        n == 5,
{
    5
}

/// Seconds between health checks.
pub fn default_period() -> (n: u32)
    ensures
        n == 10,
{
    10
}

/// Seconds a health check may take.
pub fn default_timeout() -> (n: u32)
    ensures
        n == 5,
{
    5
}

/// Failed checks before a replica counts as unhealthy.
pub fn default_failure_threshold() -> (n: u32)
    ensures
        n == 3,
{
    3
}

/// Rollout strategy for pipeline updates
#[derive(Debug, Clone)]
pub struct RolloutStrategy {
    /// Type of rollout: "RollingUpdate" or "Recreate"
    pub strategy_type: String,
    /// Rolling update parameters (if type is RollingUpdate)
    pub rolling_update: Option<RollingUpdateParams>,
}

impl Default for RolloutStrategy {
    fn default() -> (s: Self)
        ensures
            s.strategy_type@ == "RollingUpdate"@,
            s.rolling_update matches Some(p) && p.max_unavailable == 1 && p.max_surge == 1,
    {
        RolloutStrategy {
            strategy_type: default_strategy_type(),
            rolling_update: Some(RollingUpdateParams::default()),
        }
    }
}

/// The rollout strategy unless configured otherwise.
pub fn default_strategy_type() -> (s: String)
    ensures
        s@ == "RollingUpdate"@,
{
    String::from_str("RollingUpdate")
}

/// Parameters for rolling update
#[derive(Debug, Clone)]
pub struct RollingUpdateParams {
    /// Maximum number of replicas that can be unavailable during update
    pub max_unavailable: u32,
    /// Maximum number of replicas that can be created above desired
    pub max_surge: u32,
}

impl Default for RollingUpdateParams {
    fn default() -> (p: Self)
        ensures
            p.max_unavailable == 1,
            p.max_surge == 1,
    {
        RollingUpdateParams { max_unavailable: default_max_unavailable(), max_surge: default_max_surge() }
    }
}

/// Replicas that may be down during an update.
pub fn default_max_unavailable() -> (n: u32)
    ensures
        n == 1,
{
    1
}

/// Replicas that may be added above the desired count during an update.
pub fn default_max_surge() -> (n: u32)
    ensures
        n == 1,
{
    1
}

/// Resource requirements for the pipeline
#[derive(Debug, Clone)]
pub struct ResourceRequirements {
    /// GPU memory requirement (e.g., "16Gi")
    pub gpu_memory: Option<String>,
    /// CPU requirement (e.g., "4")
    pub cpu: Option<String>,
    /// Memory requirement (e.g., "32Gi")
    pub memory: Option<String>,
}

impl Default for ResourceRequirements {
    fn default() -> (r: Self)
        ensures
            r.gpu_memory is None,
            r.cpu is None,
            r.memory is None,
    {
        ResourceRequirements { gpu_memory: None, cpu: None, memory: None }
    }
}

/// A Pipeline is the deployable unit in LLMNet
#[derive(Debug, Clone)]
pub struct Pipeline {
    /// API version (e.g., "llmnet/v1")
    pub api_version: String,
    /// Kind is always "Pipeline"
    pub kind: String,
    /// Metadata about the pipeline
    pub metadata: PipelineMetadata,
    /// Desired state specification
    pub spec: PipelineSpec,
    /// Current observed status (populated by controller)
    pub status: Option<PipelineStatus>,
}

/// Metadata for a Pipeline
#[derive(Debug, Clone)]
pub struct PipelineMetadata {
    /// Unique name within a namespace
    pub name: String,
    /// Namespace (defaults to "default")
    pub namespace: String,
    /// Unique identifier: the UUID's 128 bits
    pub uid: u128,
    /// Labels for organization and selection
    pub labels: StrMap<String>,
    /// Annotations for metadata storage
    pub annotations: StrMap<String>,
    /// Creation time, nanoseconds since the Unix epoch
    pub creation_timestamp: Option<i64>,
}

/// Specification of desired Pipeline state
#[derive(Debug, Clone)]
pub struct PipelineSpec {
    /// Number of desired replicas (default: 1)
    pub replicas: u32,
    /// The LLM routing composition
    pub composition: Composition,
    /// Port to expose the OpenAI-compatible API
    pub port: u16,
    /// Health check configuration
    pub health: HealthConfig,
    /// Rollout strategy for updates
    pub strategy: RolloutStrategy,
    /// Node selector for placement (label-based)
    pub node_selector: StrMap<String>,
    /// Resource requirements
    pub resources: ResourceRequirements,
}

/// Current status of a Pipeline (observed state)
#[derive(Debug, Clone)]
pub struct PipelineStatus {
    /// Total replicas currently managed
    pub replicas: u32,
    /// Number of ready replicas
    pub ready_replicas: u32,
    /// Number of available replicas (passed health checks)
    pub available_replicas: u32,
    /// Number of unavailable replicas
    pub unavailable_replicas: u32,
    /// Generation observed by controller
    pub observed_generation: u64,
    /// Current conditions
    pub conditions: Vec<PipelineCondition>,
    /// Endpoints where pipeline is accessible
    pub endpoints: Vec<String>,
}

/// A condition of a Pipeline. Times are nanoseconds since the Unix epoch.
#[derive(Debug, Clone)]
pub struct PipelineCondition {
    /// Type of condition (Available, Progressing, ReplicaFailure)
    pub condition_type: String,
    /// Status: True, False, Unknown
    pub status: String,
    /// Last time the condition was updated
    pub last_update_time: i64,
    /// Last time the condition transitioned
    pub last_transition_time: i64,
    /// Machine-readable reason for the condition
    pub reason: String,
    /// Human-readable message
    pub message: String,
}

/// `namespace/name`.
pub open spec fn qualified(namespace: Seq<char>, name: Seq<char>) -> Seq<char> {
    namespace + "/"@ + name
}

/// The pipeline is ready: it has a status with at least as many available replicas as wanted.
pub open spec fn pipeline_ready(p: Pipeline) -> bool {
    p.status matches Some(s) && s.available_replicas >= p.spec.replicas
}

/// A fresh pipeline named `name`: version and kind set, namespace "default", one
/// replica, default port, health, strategy and resources, no labels, selector or status.
pub open spec fn fresh_pipeline(p: Pipeline, name: Seq<char>) -> bool {
    &&& p.api_version@ == "llmnet/v1"@
    &&& p.kind@ == "Pipeline"@
    &&& p.metadata.name@ == name
    &&& p.metadata.namespace@ == "default"@
    &&& p.metadata.labels@.len() == 0
    &&& p.metadata.annotations@.len() == 0
    &&& p.spec.replicas == 1
    &&& p.spec.port == 8080
    &&& p.spec.health.liveness_path@ == "/health"@
    &&& p.spec.strategy.strategy_type@ == "RollingUpdate"@
    &&& p.spec.node_selector@.len() == 0
    &&& p.spec.resources.gpu_memory is None
    &&& p.spec.resources.cpu is None
    &&& p.spec.resources.memory is None
    &&& p.status is None
}

impl Pipeline {
    /// A new pipeline with the given identifier and creation time.
    pub fn with_id(name: &str, composition: Composition, uid: u128, created: Option<i64>) -> (p: Self)
        ensures
            fresh_pipeline(p, name@),
            p.metadata.uid == uid,
            p.metadata.creation_timestamp == created,
            p.spec.composition == composition,
    {
        Pipeline {
            api_version: to_string("llmnet/v1"),
            kind: to_string("Pipeline"),
            metadata: PipelineMetadata {
                name: to_string(name),
                namespace: default_namespace(),
                uid,
                labels: StrMap::new(),
                annotations: StrMap::new(),
                creation_timestamp: created,
            },
            spec: PipelineSpec {
                replicas: 1,
                composition,
                port: default_port(),
                health: HealthConfig::default(),
                strategy: RolloutStrategy::default(),
                node_selector: StrMap::new(),
                resources: ResourceRequirements::default(),
            },
            status: None,
        }
    }

    /// Create a new Pipeline with a random identifier, created now
    pub fn new(name: &str, composition: Composition) -> (p: Self)
        ensures
            fresh_pipeline(p, name@),
            p.spec.composition == composition,
    {
        let uid = new_uuid();
        let created = now_nanos();
        Pipeline::with_id(name, composition, uid, created)
    }

    /// Set the number of replicas
    pub fn with_replicas(self, replicas: u32) -> (p: Self)
        ensures
            p == (Pipeline { spec: PipelineSpec { replicas, ..self.spec }, ..self }),
    {
        let mut p = self;
        p.spec.replicas = replicas;
        p
    }

    /// Set the namespace
    pub fn with_namespace(self, namespace: &str) -> (p: Self)
        ensures
            p.metadata.namespace@ == namespace@,
            p.metadata.name == self.metadata.name,
            p.spec == self.spec,
            p.status == self.status,
    {
        let mut p = self;
        p.metadata.namespace = to_string(namespace);
        p
    }

    /// Add a label
    pub fn with_label(self, key: &str, value: &str) -> (p: Self)
        ensures
            p.metadata.labels@ == self.metadata.labels@.insert(key@, p.metadata.labels@[key@]),
            p.metadata.labels@[key@]@ == value@,
            p.metadata.name == self.metadata.name,
            p.metadata.namespace == self.metadata.namespace,
            p.spec == self.spec,
            p.status == self.status,
    {
        let mut p = self;
        let _ = p.metadata.labels.insert(to_string(key), to_string(value));
        p
    }

    /// Get the full qualified name (namespace/name)
    pub fn qualified_name(&self) -> (s: String)
        ensures
            s@ == qualified(self.metadata.namespace@, self.metadata.name@),
    {
        let mut v: Vec<char> = Vec::new();
        push_str(&mut v, self.metadata.namespace.as_str());
        push_str(&mut v, "/");
        push_str(&mut v, self.metadata.name.as_str());
        string_of(&v)
    }

    /// Check if pipeline is ready (all replicas available)
    pub fn is_ready(&self) -> (b: bool)
        ensures
            b == pipeline_ready(*self),
    {
        match &self.status {
            Some(s) => s.available_replicas >= self.spec.replicas,
            None => false,
        }
    }
}

impl PipelineStatus {
    /// Create initial status for a newly created pipeline
    pub fn initial() -> (s: Self)
        ensures
            s.replicas == 0,
            s.ready_replicas == 0,
            s.available_replicas == 0,
            s.unavailable_replicas == 0,
            s.observed_generation == 0,
            s.conditions@.len() == 0,
            s.endpoints@.len() == 0,
    {
        PipelineStatus {
            replicas: 0,
            ready_replicas: 0,
            available_replicas: 0,
            unavailable_replicas: 0,
            observed_generation: 0,
            conditions: Vec::new(),
            endpoints: Vec::new(),
        }
    }

    /// Add a condition, replacing any of the same type
    pub fn add_condition(&mut self, condition: PipelineCondition)
        ensures
            final(self).conditions@ == old(self).conditions@.filter(
                |c: PipelineCondition| c.condition_type@ != condition.condition_type@,
            ).push(condition),
            final(self).replicas == old(self).replicas,
            final(self).ready_replicas == old(self).ready_replicas,
            final(self).available_replicas == old(self).available_replicas,
            final(self).unavailable_replicas == old(self).unavailable_replicas,
            final(self).observed_generation == old(self).observed_generation,
            final(self).endpoints == old(self).endpoints,
    {
        let ghost f = |c: PipelineCondition| c.condition_type@ != condition.condition_type@;
        let ghost start = self.conditions@;
        let mut kept: Vec<PipelineCondition> = Vec::new();
        let mut rest: Vec<PipelineCondition> = Vec::new();
        core::mem::swap(&mut rest, &mut self.conditions);
        let n = rest.len();
        let mut i: usize = 0;
        while i < n
            invariant
                f == (|c: PipelineCondition| c.condition_type@ != condition.condition_type@),
                start.len() == n,
                i <= n,
                rest@ == start.skip(i as int),
                kept@ == start.take(i as int).filter(f),
            decreases n - i,
        {
            let c = rest.remove(0);
            proof {
                let t = start.take(i + 1);
                assert(t.drop_last() =~= start.take(i as int));
                assert(t.last() == c);
                assert(rest@ =~= start.skip(i + 1));
                reveal(Seq::filter);
            }
            if !str_eq(c.condition_type.as_str(), condition.condition_type.as_str()) {
                kept.push(c);
            }
            assert(kept@ =~= start.take(i + 1).filter(f));
            i = i + 1;
        }
        assert(start.take(n as int) =~= start);
        kept.push(condition);
        self.conditions = kept;
    }
}

impl PipelineCondition {
    /// Create a new condition at time `now`
    pub fn new(condition_type: &str, status: &str, reason: &str, message: &str, now: i64) -> (c: Self)
        ensures
            c.condition_type@ == condition_type@,
            c.status@ == status@,
            c.last_update_time == now,
            c.last_transition_time == now,
            c.reason@ == reason@,
            c.message@ == message@,
    {
        PipelineCondition {
            condition_type: to_string(condition_type),
            status: to_string(status),
            last_update_time: now,
            last_transition_time: now,
            reason: to_string(reason),
            message: to_string(message),
        }
    }
}

} // verus!
