//! Heartbeat settings of a worker node and the bookkeeping of its heartbeat loop.
use vstd::prelude::*;

use super::node::NodeCapacity;
use super::HEARTBEAT_INTERVAL_SECS;
use crate::text::{push_str, string_of};

verus! {

/// Configuration for the heartbeat client
#[derive(Debug, Clone)]
pub struct HeartbeatConfig {
    /// Control plane URL (e.g., "http://localhost:8181")
    pub control_plane_url: String,
    /// Name of this worker node
    pub node_name: String,
    /// Heartbeat interval in seconds (default: 30)
    pub interval_secs: u64,
    /// Node capacity for reporting
    pub capacity: NodeCapacity,
    /// Retry count before considering control plane unreachable
    pub max_retries: u32,
}

impl HeartbeatConfig {
    /// Create a new heartbeat config
    pub fn new(control_plane_url: &str, node_name: &str) -> (c: Self)
        ensures
            c.control_plane_url@ == control_plane_url@,
            c.node_name@ == node_name@,
            c.interval_secs == HEARTBEAT_INTERVAL_SECS,
            c.capacity.cpu == 0 && c.capacity.memory == 0 && c.capacity.gpu == 0
                && c.capacity.gpu_memory == 0 && c.capacity.max_pipelines == 10,
            c.max_retries == 3,
    {
        HeartbeatConfig {
            control_plane_url: String::from_str(control_plane_url),
            node_name: String::from_str(node_name),
            interval_secs: HEARTBEAT_INTERVAL_SECS,
            capacity: NodeCapacity::default(),
            max_retries: 3,
        }
    }

    /// Set the heartbeat interval
    pub fn with_interval(self, secs: u64) -> (c: Self)
        ensures
            c.control_plane_url == self.control_plane_url,
            c.node_name == self.node_name,
            c.interval_secs == secs,
            c.capacity == self.capacity,
            c.max_retries == self.max_retries,
    {
        HeartbeatConfig { interval_secs: secs, ..self }
    }

    /// Set the node capacity
    pub fn with_capacity(self, capacity: NodeCapacity) -> (c: Self)
        ensures
            c.control_plane_url == self.control_plane_url,
            c.node_name == self.node_name,
            c.interval_secs == self.interval_secs,
            c.capacity == capacity,
            c.max_retries == self.max_retries,
    {
        HeartbeatConfig { capacity, ..self }
    }

    /// Where heartbeats are posted: `{control_plane_url}/v1/nodes/{node_name}/heartbeat`.
    pub fn heartbeat_url(&self) -> (u: String)
        ensures
            u@ == self.control_plane_url@ + "/v1/nodes/"@ + self.node_name@ + "/heartbeat"@,
    {
        let mut v: Vec<char> = Vec::new();
        push_str(&mut v, self.control_plane_url.as_str());
        push_str(&mut v, "/v1/nodes/");
        push_str(&mut v, self.node_name.as_str());
        push_str(&mut v, "/heartbeat");
        string_of(&v)
    }
}

/// What the heartbeat loop reports after an attempt.
#[derive(Debug, Clone, Copy, PartialEq, Eq, Structural)]
pub enum HeartbeatNotice {
    /// Sent, and the previous one was sent too.
    Sent,
    /// Sent after this many consecutive failures.
    Recovered(u32),
    /// Failed; this many failures in a row, still under the retry limit.
    Failed(u32),
    /// Failed; this many failures in a row, at or over the retry limit.
    Unreachable(u32),
}

/// One turn of the heartbeat loop: from the failures counted so far and whether
/// this heartbeat went through, the new count and what to report.
pub fn heartbeat_step(failures: u32, sent: bool, max_retries: u32) -> (r: (u32, HeartbeatNotice))
    requires
        sent || failures < u32::MAX,
    ensures
        sent ==> r.0 == 0,
        sent && failures == 0 ==> r.1 == HeartbeatNotice::Sent,
        sent && failures > 0 ==> r.1 == HeartbeatNotice::Recovered(failures),
        !sent ==> r.0 == failures + 1,
        !sent && failures + 1 >= max_retries ==> r.1 == HeartbeatNotice::Unreachable(r.0),
        !sent && failures + 1 < max_retries ==> r.1 == HeartbeatNotice::Failed(r.0),
{
    if sent {
        if failures > 0 {
            (0, HeartbeatNotice::Recovered(failures))
        } else {
            (0, HeartbeatNotice::Sent)
        }
    } else {
        let n = failures + 1;
        if n >= max_retries {
            (n, HeartbeatNotice::Unreachable(n))
        } else {
            (n, HeartbeatNotice::Failed(n))
        }
    }
}

} // verus!
