//! Node resource types: a machine in the cluster and what it reports.
use vstd::prelude::*;

use super::WORKER_PORT;
use crate::strmap::StrMap;
use crate::text::{decimal, push_decimal, push_str, string_of, to_string};

verus! {

/// Bytes in a gibibyte.
pub const GIB: u64 = 1073741824;

/// Metadata for a Node
#[derive(Debug, Clone)]
pub struct NodeMetadata {
    /// Unique name for this node
    pub name: String,
    /// Labels for node selection
    pub labels: StrMap<String>,
    /// Annotations for metadata
    pub annotations: StrMap<String>,
}

/// Node specification
#[derive(Debug, Clone)]
pub struct NodeSpec {
    /// Address where this node can be reached (e.g., "192.168.1.100")
    pub address: String,
    /// Port where the node's control plane listens
    pub port: u16,
    /// Whether this node can accept new pipelines
    pub schedulable: bool,
}

/// The port a node listens on unless its spec says otherwise.
pub fn default_node_port() -> (p: u16)
    ensures
        p == super::WORKER_PORT,
{
    super::WORKER_PORT
}

/// Nodes are schedulable unless their spec says otherwise.
pub fn default_true() -> (b: bool)
    ensures
        b,
{
    true
}

/// Phase of a node
#[derive(Debug, Clone, Copy, PartialEq, Eq, Structural)]
pub enum NodePhase {
    /// Node is ready to accept pipelines
    Ready,
    /// Node is not ready (failed health checks)
    NotReady,
    /// Node status is unknown (missed heartbeats)
    Unknown,
    /// Node is being terminated
    Terminating,
}

impl Default for NodePhase {
    fn default() -> (p: Self)
        ensures
            p == NodePhase::Unknown,
    {
        NodePhase::Unknown
    }
}

/// Types of node conditions
#[derive(Debug, Clone, Copy, PartialEq, Eq, Structural)]
pub enum NodeConditionType {
    /// Node is ready to accept pipelines
    Ready,
    /// Node has enough memory
    MemoryPressure,
    /// Node has enough disk space
    DiskPressure,
    /// Node has enough PIDs
    PIDPressure,
    /// Network is available
    NetworkUnavailable,
    /// GPU is available
    GPUAvailable,
}

/// Resource capacity of a node
#[derive(Debug, Clone, Copy)]
pub struct NodeCapacity {
    /// Number of CPU cores
    pub cpu: u32,
    /// Memory in bytes
    pub memory: u64,
    /// Number of GPUs
    pub gpu: u32,
    /// GPU memory in bytes
    pub gpu_memory: u64,
    /// Maximum pipelines this node can run
    pub max_pipelines: u32,
}

/// How many pipelines a node runs unless its capacity says otherwise.
pub fn default_max_pipelines() -> (n: u32)
    ensures
        n == 10,
{
    10
}

impl Default for NodeCapacity {
    fn default() -> (c: Self)
        ensures
            c.cpu == 0,
            c.memory == 0,
            c.gpu == 0,
            c.gpu_memory == 0,
            c.max_pipelines == 10,
    {
        NodeCapacity { cpu: 0, memory: 0, gpu: 0, gpu_memory: 0, max_pipelines: default_max_pipelines() }
    }
}

impl NodeCapacity {
    /// Create capacity with GPU
    pub fn with_gpu(gpu: u32, gpu_memory_gb: u32) -> (c: Self)
        ensures
            c.cpu == 0,
            c.memory == 0,
            c.gpu == gpu,
            c.gpu_memory == gpu_memory_gb * GIB,
            c.max_pipelines == 10,
    {
        assert(gpu_memory_gb * GIB <= u64::MAX) by (nonlinear_arith)
            requires gpu_memory_gb <= u32::MAX;
        NodeCapacity {
            cpu: 0,
            memory: 0,
            gpu,
            gpu_memory: (gpu_memory_gb as u64) * GIB,
            max_pipelines: default_max_pipelines(),
        }
    }

    /// Set CPU cores
    pub fn with_cpu(self, cores: u32) -> (c: Self)
        ensures
            c.cpu == cores,
            c.memory == self.memory,
            c.gpu == self.gpu,
            c.gpu_memory == self.gpu_memory,
            c.max_pipelines == self.max_pipelines,
    {
        NodeCapacity { cpu: cores, ..self }
    }

    /// Set memory in GB
    pub fn with_memory_gb(self, gb: u64) -> (c: Self)
        requires
            gb * GIB <= u64::MAX,
        ensures
            c.cpu == self.cpu,
            c.memory == gb * GIB,
            c.gpu == self.gpu,
            c.gpu_memory == self.gpu_memory,
            c.max_pipelines == self.max_pipelines,
    {
        NodeCapacity { memory: gb * GIB, ..self }
    }
}

/// Information about a pipeline running on this node
#[derive(Debug, Clone)]
pub struct NodePipelineInfo {
    /// Pipeline name
    pub name: String,
    /// Namespace
    pub namespace: String,
    /// Port where this replica is running
    pub port: u16,
    /// Status of this replica
    pub status: ReplicaStatus,
}

/// Status of a pipeline replica on a node
#[derive(Debug, Clone, Copy, PartialEq, Eq, Structural)]
pub enum ReplicaStatus {
    /// Replica is starting up
    Starting,
    /// Replica is running and healthy
    Running,
    /// Replica failed health check
    Unhealthy,
    /// Replica is terminating
    Terminating,
    /// Replica crashed or failed
    Failed,
}

/// System information about a node
#[derive(Debug, Clone)]
pub struct NodeInfo {
    /// Operating system
    pub os: String,
    /// Architecture (x86_64, aarch64)
    pub architecture: String,
    /// LLMNet version
    pub llmnet_version: String,
    /// Kernel version
    pub kernel_version: Option<String>,
    /// CUDA version (if available)
    pub cuda_version: Option<String>,
    /// GPU model names
    pub gpu_models: Vec<String>,
}

/// A Node in the LLMNet cluster
#[derive(Debug, Clone)]
pub struct Node {
    /// API version
    pub api_version: String,
    /// Kind is always "Node"
    pub kind: String,
    /// Metadata about the node
    pub metadata: NodeMetadata,
    /// Node specification (capabilities, labels)
    pub spec: NodeSpec,
    /// Current node status
    pub status: Option<NodeStatus>,
}

/// Current status of a Node. Times are nanoseconds since the Unix epoch.
#[derive(Debug, Clone)]
pub struct NodeStatus {
    /// Overall phase: Ready, NotReady, Unknown
    pub phase: NodePhase,
    /// Detailed conditions
    pub conditions: Vec<NodeCondition>,
    /// Capacity of this node
    pub capacity: NodeCapacity,
    /// Currently allocated resources
    pub allocatable: NodeCapacity,
    /// Pipelines running on this node
    pub pipelines: Vec<NodePipelineInfo>,
    /// Last heartbeat received from this node
    pub last_heartbeat: i64,
    /// Node information (OS, version, etc.)
    pub node_info: NodeInfo,
}

/// A condition of a node. Times are nanoseconds since the Unix epoch.
#[derive(Debug, Clone)]
pub struct NodeCondition {
    /// Type of condition
    pub condition_type: NodeConditionType,
    /// Status: True, False, Unknown
    pub status: String,
    /// Last heartbeat time
    pub last_heartbeat_time: i64,
    /// Last transition time
    pub last_transition_time: i64,
    /// Reason for the condition
    pub reason: String,
    /// Human-readable message
    pub message: String,
}

/// The node is ready: it has a status, in phase Ready.
pub open spec fn node_ready(n: Node) -> bool {
    n.status matches Some(s) && s.phase == NodePhase::Ready
}

/// The node can take more pipelines: it has a status with fewer pipelines than its capacity.
pub open spec fn node_has_room(n: Node) -> bool {
    n.status matches Some(s) && s.pipelines@.len() < s.capacity.max_pipelines
}

/// Nanoseconds in a second.
pub const NANOS_PER_SEC: i128 = 1000000000;

/// Whole seconds from `from` to `to` (nanoseconds), truncated toward zero.
pub open spec fn whole_seconds(from: i64, to: i64) -> int {
    let d = to as int - from as int;
    if d >= 0 {
        d / NANOS_PER_SEC as int
    } else {
        -((-d) / NANOS_PER_SEC as int)
    }
}

impl Node {
    /// Create a new Node with minimal configuration
    pub fn new(name: &str, address: &str) -> (n: Self)
        ensures
            n.api_version@ == "llmnet/v1"@,
            n.kind@ == "Node"@,
            n.metadata.name@ == name@,
            n.metadata.labels@.len() == 0,
            n.metadata.annotations@.len() == 0,
            n.spec.address@ == address@,
            n.spec.port == WORKER_PORT,
            n.spec.schedulable,
            n.status is None,
    {
        Node {
            api_version: to_string("llmnet/v1"),
            kind: to_string("Node"),
            metadata: NodeMetadata { name: to_string(name), labels: StrMap::new(), annotations: StrMap::new() },
            spec: NodeSpec { address: to_string(address), port: default_node_port(), schedulable: true },
            status: None,
        }
    }

    /// Set the port
    pub fn with_port(self, port: u16) -> (n: Self)
        ensures
            n == (Node { spec: NodeSpec { port, ..self.spec }, ..self }),
    {
        let mut n = self;
        n.spec.port = port;
        n
    }

    /// Add a label
    pub fn with_label(self, key: &str, value: &str) -> (n: Self)
        ensures
            n.metadata.labels@ == self.metadata.labels@.insert(key@, n.metadata.labels@[key@]),
            n.metadata.labels@[key@]@ == value@,
            n.metadata.name == self.metadata.name,
            n.spec == self.spec,
            n.status == self.status,
    {
        let mut n = self;
        let _ = n.metadata.labels.insert(to_string(key), to_string(value));
        n
    }

    /// Mark as unschedulable (cordon)
    pub fn cordon(self) -> (n: Self)
        ensures
            n == (Node { spec: NodeSpec { schedulable: false, ..self.spec }, ..self }),
    {
        let mut n = self;
        n.spec.schedulable = false;
        n
    }

    /// Get the full address (address:port)
    pub fn full_address(&self) -> (s: String)
        ensures
            s@ == self.spec.address@ + ":"@ + decimal(self.spec.port as nat),
    {
        let mut v: Vec<char> = Vec::new();
        push_str(&mut v, self.spec.address.as_str());
        push_str(&mut v, ":");
        push_decimal(&mut v, self.spec.port as u64);
        string_of(&v)
    }

    /// Check if node is ready
    pub fn is_ready(&self) -> (b: bool)
        ensures
            b == node_ready(*self),
    {
        match &self.status {
            Some(s) => s.phase == NodePhase::Ready,
            None => false,
        }
    }

    /// Check if node can accept new pipelines
    pub fn can_schedule(&self) -> (b: bool)
        ensures
            b == (self.spec.schedulable && node_ready(*self)),
    {
        self.spec.schedulable && self.is_ready()
    }

    /// Get the number of pipelines running
    pub fn pipeline_count(&self) -> (n: usize)
        ensures
            n == match self.status {
                Some(s) => s.pipelines@.len(),
                None => 0,
            },
    {
        match &self.status {
            Some(s) => s.pipelines.len(),
            None => 0,
        }
    }

    /// Check if node has capacity for more pipelines
    pub fn has_capacity(&self) -> (b: bool)
        ensures
            b == node_has_room(*self),
    {
        match &self.status {
            Some(s) => s.pipelines.len() < s.capacity.max_pipelines as usize,
            None => false,
        }
    }
}

impl NodeStatus {
    /// Initial status of a node at time `now`: ready, with this capacity available,
    /// no conditions and no pipelines.
    pub fn new(capacity: NodeCapacity, node_info: NodeInfo, now: i64) -> (s: Self)
        ensures
            s.phase == NodePhase::Ready,
            s.conditions@.len() == 0,
            s.capacity == capacity,
            s.allocatable == capacity,
            s.pipelines@.len() == 0,
            s.last_heartbeat == now,
            s.node_info == node_info,
    {
        NodeStatus {
            phase: NodePhase::Ready,
            conditions: Vec::new(),
            capacity,
            allocatable: capacity,
            pipelines: Vec::new(),
            last_heartbeat: now,
            node_info,
        }
    }

    /// Record a heartbeat at time `now`.
    pub fn heartbeat(&mut self, now: i64)
        ensures
            *final(self) == (NodeStatus { last_heartbeat: now, ..*old(self) }),
    {
        self.last_heartbeat = now;
    }

    /// Whether more than `threshold_secs` whole seconds passed from the last heartbeat to `now`.
    pub fn is_stale(&self, threshold_secs: i64, now: i64) -> (b: bool)
        ensures
            b == (whole_seconds(self.last_heartbeat, now) > threshold_secs),
    {
        let d: i128 = now as i128 - self.last_heartbeat as i128;
        let secs: i128 = if d >= 0 {
            d / NANOS_PER_SEC
        } else {
            -((-d) / NANOS_PER_SEC)
        };
        secs > threshold_secs as i128
    }
}

impl NodeCondition {
    /// A Ready condition at time `now`: "True" or "False" with the reason and message.
    pub fn ready(status: bool, reason: &str, message: &str, now: i64) -> (c: Self)
        ensures
            c.condition_type == NodeConditionType::Ready,
            c.status@ == if status {
                "True"@
            } else {
                "False"@
            },
            c.last_heartbeat_time == now,
            c.last_transition_time == now,
            c.reason@ == reason@,
            c.message@ == message@,
    {
        NodeCondition {
            condition_type: NodeConditionType::Ready,
            status: to_string(if status {
                "True"
            } else {
                "False"
            }),
            last_heartbeat_time: now,
            last_transition_time: now,
            reason: to_string(reason),
            message: to_string(message),
        }
    }
}

} // verus!
