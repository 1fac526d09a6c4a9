//! Cluster resources and the decisions of the control plane and its workers.
use vstd::prelude::*;

pub mod api;
pub mod autoscaler;
pub mod controller;
pub mod health_checker;
pub mod heartbeat;
pub mod node;
pub mod orchestrator;
pub mod pipeline;
pub mod resources;

verus! {

/// Default control plane API port
pub const CONTROL_PLANE_PORT: u16 = 8181;

/// Default worker node API port
pub const WORKER_PORT: u16 = 8080;

/// Default heartbeat interval in seconds
pub const HEARTBEAT_INTERVAL_SECS: u64 = 30;

} // verus!
