//! Replica health tracking: probe bookkeeping, the cluster summary and its report.
//!
//! Times are nanoseconds since the Unix epoch; the caller reads the clock.
use vstd::prelude::*;
use vstd::utf8::encode_utf8;

use super::controller::{in_order, ClusterController};
use super::node::{Node, ReplicaStatus};
use crate::runtime::hooks::first_keys;
use crate::strmap::StrMap;
use crate::cli::display::{pad_to, push_cell, spaces};
use crate::text::{
    decimal, lemma_encode_concat, push_all, push_decimal, push_str, str_eq, str_views, string_of, string_push,
    chars_of,
};

verus! {

broadcast use vstd::string::group_string_axioms;

/// Nanoseconds in a second.
pub const NANOS_PER_SEC: u64 = 1000000000;

/// Health checker configuration
#[derive(Debug, Clone)]
pub struct HealthCheckerConfig {
    /// Timeout for health check requests
    pub timeout_secs: u64,
    /// Number of consecutive failures before marking unhealthy
    pub failure_threshold: u32,
    /// Number of consecutive successes before marking healthy
    pub success_threshold: u32,
    /// Health endpoint path
    pub health_path: String,
}

impl Default for HealthCheckerConfig {
    fn default() -> (c: Self)
        ensures
            c.timeout_secs == 5,
            c.failure_threshold == 3,
            c.success_threshold == 1,
            c.health_path@ == "/health"@,
    {
        HealthCheckerConfig {
            timeout_secs: 5,
            failure_threshold: 3,
            success_threshold: 1,
            health_path: String::from_str("/health"),
        }
    }
}

/// A duration of `secs` seconds in its two largest units: `30s`, `1m30s`, `1h1m`, `1d1h`.
pub open spec fn duration_text(secs: nat) -> Seq<char> {
    if secs < 60 {
        decimal(secs) + seq!['s']
    } else if secs < 3600 {
        decimal(secs / 60) + seq!['m'] + decimal(secs % 60) + seq!['s']
    } else if secs < 86400 {
        decimal(secs / 3600) + seq!['h'] + decimal((secs % 3600) / 60) + seq!['m']
    } else {
        decimal(secs / 86400) + seq!['d'] + decimal((secs % 86400) / 3600) + seq!['h']
    }
}

/// Format a number of seconds as human-readable string
pub fn format_secs(secs: u64) -> (r: String)
    ensures
        r@ == duration_text(secs as nat),
{
    let mut v: Vec<char> = Vec::new();
    if secs < 60 {
        push_decimal(&mut v, secs);
        v.push('s');
    } else if secs < 3600 {
        push_decimal(&mut v, secs / 60);
        v.push('m');
        push_decimal(&mut v, secs % 60);
        v.push('s');
    } else if secs < 86400 {
        push_decimal(&mut v, secs / 3600);
        v.push('h');
        push_decimal(&mut v, (secs % 3600) / 60);
        v.push('m');
    } else {
        push_decimal(&mut v, secs / 86400);
        v.push('d');
        push_decimal(&mut v, (secs % 86400) / 3600);
        v.push('h');
    }
    string_of(&v)
}

/// The number of whole seconds a duration spans (`Duration::as_secs`).
pub uninterp spec fn duration_whole_secs(d: std::time::Duration) -> u64;

/// `Duration::as_secs`: the whole seconds of the duration, a function of the
/// duration alone.
#[verifier::external_body]
fn duration_secs(d: &std::time::Duration) -> (s: u64)
    ensures
        s == duration_whole_secs(*d),
{
    d.as_secs()
}

/// Format a duration as human-readable string
pub fn format_duration(d: std::time::Duration) -> (r: String)
    ensures
        r@ == duration_text(duration_whole_secs(d) as nat),
{
    let secs = duration_secs(&d);
    format_secs(secs)
}

/// The bytes `truncate` keeps: all of them if they fit in `max_len`, else the first
/// `max_len - 1` and an ellipsis.
pub open spec fn truncated_bytes(s: Seq<char>, max_len: int) -> Seq<u8> {
    if encode_utf8(s).len() <= max_len {
        encode_utf8(s)
    } else {
        encode_utf8(s).take(max_len - 1) + encode_utf8(seq!['…'])
    }
}

/// The characters `truncate` keeps.
pub open spec fn truncated_text(s: Seq<char>, max_len: int) -> Seq<char> {
    vstd::utf8::decode_utf8(truncated_bytes(s, max_len))
}

/// `truncate` can cut `s`: it fits, or the cut falls on a character boundary.
pub open spec fn can_truncate(s: Seq<char>, max_len: int) -> bool {
    encode_utf8(s).len() <= max_len || (max_len >= 1 && vstd::utf8::is_char_boundary(
        encode_utf8(s),
        max_len - 1,
    ))
}

/// Truncate a string to a maximum length
pub fn truncate(s: &str, max_len: usize) -> (r: String)
    requires
        encode_utf8(s@).len() <= usize::MAX,
        can_truncate(s@, max_len as int),
    ensures
        encode_utf8(r@) == truncated_bytes(s@, max_len as int),
        r@ == truncated_text(s@, max_len as int),
{
    let r = truncate_bytes(s, max_len);
    proof {
        vstd::utf8::encode_utf8_decode_utf8(r@);
    }
    r
}

fn truncate_bytes(s: &str, max_len: usize) -> (r: String)
    requires
        encode_utf8(s@).len() <= usize::MAX,
        can_truncate(s@, max_len as int),
    ensures
        encode_utf8(r@) == truncated_bytes(s@, max_len as int),
{
    if s.len() <= max_len {
        String::from_str(s)
    } else {
        let (head, _) = s.split_at(max_len - 1);
        let mut r = head.to_owned();
        proof {
            vstd::utf8::encode_utf8_decode_utf8(head@);
            vstd::utf8::encode_utf8_decode_utf8(s@);
        }
        string_push(&mut r, '…');
        proof {
            lemma_encode_concat(head@, seq!['…']);
            assert(head@.push('…') =~= head@ + seq!['…']);
            assert(encode_utf8(s@).subrange(0, max_len - 1) =~= encode_utf8(s@).take(max_len - 1));
        }
        r
    }
}

/// Result of a single health probe
#[derive(Debug, Clone)]
pub struct HealthProbeResult {
    /// Whether the probe succeeded
    pub success: bool,
    /// HTTP status code (if request completed)
    pub status_code: Option<u16>,
    /// Response time in milliseconds
    pub latency_ms: u64,
    /// When the probe ran (nanoseconds since the Unix epoch)
    pub timestamp: i64,
    /// Error message if probe failed
    pub error: Option<String>,
}

/// Health state for a replica, stored in the controller
#[derive(Debug, Clone)]
pub struct ReplicaHealthState {
    /// Unique key: "node_name:namespace:pipeline_name:port"
    pub key: String,
    /// Node this replica runs on
    pub node_name: String,
    /// Pipeline namespace
    pub namespace: String,
    /// Pipeline name
    pub pipeline_name: String,
    /// Port the replica serves on
    pub port: u16,
    /// Full endpoint URL
    pub endpoint: String,
    /// Current health status
    pub status: ReplicaStatus,
    /// Consecutive failures
    pub consecutive_failures: u32,
    /// Consecutive successes
    pub consecutive_successes: u32,
    /// Last probe result
    pub last_probe: Option<HealthProbeResult>,
    /// When the replica was first seen (nanoseconds since the Unix epoch)
    pub first_seen: i64,
    /// When the replica became ready, if it is (nanoseconds since the Unix epoch)
    pub ready_since: Option<i64>,
}

/// `node:namespace:pipeline:port`, the key of a replica's health state.
pub open spec fn replica_key_text(node: Seq<char>, namespace: Seq<char>, pipeline: Seq<char>, port: u16) -> Seq<char> {
    node + seq![':'] + namespace + seq![':'] + pipeline + seq![':'] + decimal(port as nat)
}

/// `http://address:port`, where a replica serves.
pub open spec fn replica_endpoint_text(address: Seq<char>, port: u16) -> Seq<char> {
    "http://"@ + address + seq![':'] + decimal(port as nat)
}

/// The key of a replica's health state.
pub fn replica_key(node_name: &str, namespace: &str, pipeline_name: &str, port: u16) -> (k: String)
    ensures
        k@ == replica_key_text(node_name@, namespace@, pipeline_name@, port),
{
    let mut v: Vec<char> = Vec::new();
    push_str(&mut v, node_name);
    v.push(':');
    push_str(&mut v, namespace);
    v.push(':');
    push_str(&mut v, pipeline_name);
    v.push(':');
    push_decimal(&mut v, port as u64);
    string_of(&v)
}

/// Where a replica on `node_address` serving on `port` answers.
pub fn replica_endpoint(node_address: &str, port: u16) -> (e: String)
    ensures
        e@ == replica_endpoint_text(node_address@, port),
{
    let mut v: Vec<char> = Vec::new();
    push_str(&mut v, "http://");
    push_str(&mut v, node_address);
    v.push(':');
    push_decimal(&mut v, port as u64);
    string_of(&v)
}

/// Whole seconds from `t` to `now`, none when `now` is earlier.
pub open spec fn elapsed_secs(t: i64, now: i64) -> nat {
    if now >= t {
        ((now - t) / (NANOS_PER_SEC as int)) as nat
    } else {
        0
    }
}

/// What a probe does to a replica's state `h`, giving `s`: identity kept, the probe
/// recorded, the counters stepped, and the status moved at the thresholds.
pub open spec fn probe_step(
    h: ReplicaHealthState,
    s: ReplicaHealthState,
    probe: HealthProbeResult,
    config: HealthCheckerConfig,
    now: i64,
) -> bool {
    &&& s.key == h.key && s.node_name == h.node_name && s.namespace == h.namespace
        && s.pipeline_name == h.pipeline_name && s.port == h.port && s.endpoint == h.endpoint
        && s.first_seen == h.first_seen
    &&& s.last_probe == Some(probe)
    &&& probe.success ==> s.consecutive_successes == h.consecutive_successes + 1
        && s.consecutive_failures == 0
    &&& !probe.success ==> s.consecutive_failures == h.consecutive_failures + 1
        && s.consecutive_successes == 0
    &&& if probe.success && s.consecutive_successes >= config.success_threshold && h.status
        != ReplicaStatus::Running {
        s.status == ReplicaStatus::Running && s.ready_since == Some(now)
    } else if !probe.success && s.consecutive_failures >= config.failure_threshold && h.status
        == ReplicaStatus::Running {
        s.status == ReplicaStatus::Unhealthy && s.ready_since is None
    } else {
        s.status == h.status && s.ready_since == h.ready_since
    }
}

/// `s` is the state of a replica first seen at `now`.
pub open spec fn fresh_state(s: ReplicaHealthState, t: ReplicaTarget, now: i64) -> bool {
    &&& s.key@ == target_key(t)
    &&& s.endpoint@ == replica_endpoint_text(t.node_address@, t.port)
    &&& s.node_name@ == t.node_name@
    &&& s.namespace@ == t.namespace@
    &&& s.pipeline_name@ == t.pipeline_name@
    &&& s.port == t.port
    &&& s.status == ReplicaStatus::Starting
    &&& s.consecutive_failures == 0
    &&& s.consecutive_successes == 0
    &&& s.last_probe is None
    &&& s.first_seen == now
    &&& s.ready_since is None
}

/// A replica that a node lists: the node, its address, and the pipeline and port.
#[derive(Debug, Clone)]
pub struct ReplicaTarget {
    pub node_name: String,
    pub node_address: String,
    pub namespace: String,
    pub pipeline_name: String,
    pub port: u16,
}

/// The key of a listed replica's health state.
pub open spec fn target_key(t: ReplicaTarget) -> Seq<char> {
    replica_key_text(t.node_name@, t.namespace@, t.pipeline_name@, t.port)
}

/// The view of a listed replica.
pub open spec fn target_view(t: ReplicaTarget) -> (Seq<char>, Seq<char>, Seq<char>, Seq<char>, u16) {
    (t.node_name@, t.node_address@, t.namespace@, t.pipeline_name@, t.port)
}

/// The replicas node `n` lists, in its status's order.
pub open spec fn node_targets(n: Node) -> Seq<(Seq<char>, Seq<char>, Seq<char>, Seq<char>, u16)> {
    match n.status {
        Some(st) => Seq::new(
            st.pipelines@.len(),
            |i: int|
                (
                    n.metadata.name@,
                    n.spec.address@,
                    st.pipelines@[i].namespace@,
                    st.pipelines@[i].name@,
                    st.pipelines@[i].port,
                ),
        ),
        None => seq![],
    }
}

/// The replicas the first `k` nodes list, node by node.
pub open spec fn listed_targets(nodes: Seq<Node>, k: nat) -> Seq<(Seq<char>, Seq<char>, Seq<char>, Seq<char>, u16)>
    decreases k,
{
    if k == 0 || k > nodes.len() {
        seq![]
    } else {
        listed_targets(nodes, (k - 1) as nat) + node_targets(nodes[k - 1])
    }
}

impl ReplicaHealthState {
    /// Create a new health state for a replica first seen at `now`
    pub fn new(
        node_name: &str,
        node_address: &str,
        namespace: &str,
        pipeline_name: &str,
        port: u16,
        now: i64,
    ) -> (s: Self)
        ensures
            s.key@ == replica_key_text(node_name@, namespace@, pipeline_name@, port),
            s.endpoint@ == replica_endpoint_text(node_address@, port),
            s.node_name@ == node_name@,
            s.namespace@ == namespace@,
            s.pipeline_name@ == pipeline_name@,
            s.port == port,
            s.status == ReplicaStatus::Starting,
            s.consecutive_failures == 0,
            s.consecutive_successes == 0,
            s.last_probe is None,
            s.first_seen == now,
            s.ready_since is None,
    {
        let endpoint = replica_endpoint(node_address, port);
        let key = replica_key(node_name, namespace, pipeline_name, port);
        ReplicaHealthState {
            key,
            node_name: String::from_str(node_name),
            namespace: String::from_str(namespace),
            pipeline_name: String::from_str(pipeline_name),
            port,
            endpoint,
            status: ReplicaStatus::Starting,
            consecutive_failures: 0,
            consecutive_successes: 0,
            last_probe: None,
            first_seen: now,
            ready_since: None,
        }
    }

    /// Whole seconds the replica has been ready at `now`, if it is
    pub fn uptime(&self, now: i64) -> (u: Option<u64>)
        ensures
            match self.ready_since {
                Some(t) => u == Some(elapsed_secs(t, now) as u64),
                None => u is None,
            },
    {
        match self.ready_since {
            Some(t) => {
                if now >= t {
                    let d: i128 = now as i128 - t as i128;
                    let secs: i128 = d / (NANOS_PER_SEC as i128);
                    Some(secs as u64)
                } else {
                    Some(0)
                }
            },
            None => None,
        }
    }

    /// Format uptime as human-readable string
    pub fn uptime_str(&self, now: i64) -> (r: String)
        ensures
            r@ == match self.ready_since {
                Some(t) => duration_text(elapsed_secs(t, now)),
                None => "-"@,
            },
    {
        match self.uptime(now) {
            Some(s) => format_secs(s),
            None => String::from_str("-"),
        }
    }

    /// Counts a probe: successes make a replica Running once they reach the success
    /// threshold, failures make a Running replica Unhealthy once they reach the
    /// failure threshold.
    pub fn record_probe(self, probe: HealthProbeResult, config: &HealthCheckerConfig, now: i64) -> (s: Self)
        requires
            probe.success ==> self.consecutive_successes < u32::MAX,
            !probe.success ==> self.consecutive_failures < u32::MAX,
        ensures
            probe_step(self, s, probe, *config, now),
            s.key == self.key && s.node_name == self.node_name && s.namespace == self.namespace
                && s.pipeline_name == self.pipeline_name && s.port == self.port && s.endpoint
                == self.endpoint && s.first_seen == self.first_seen,
            s.last_probe == Some(probe),
            probe.success ==> s.consecutive_successes == self.consecutive_successes + 1
                && s.consecutive_failures == 0,
            !probe.success ==> s.consecutive_failures == self.consecutive_failures + 1
                && s.consecutive_successes == 0,
            probe.success && s.consecutive_successes >= config.success_threshold && self.status
                != ReplicaStatus::Running ==> s.status == ReplicaStatus::Running && s.ready_since
                == Some(now),
            !probe.success && s.consecutive_failures >= config.failure_threshold && self.status
                == ReplicaStatus::Running ==> s.status == ReplicaStatus::Unhealthy && s.ready_since
                is None,
            !(probe.success && s.consecutive_successes >= config.success_threshold && self.status
                != ReplicaStatus::Running) && !(!probe.success && s.consecutive_failures
                >= config.failure_threshold && self.status == ReplicaStatus::Running) ==> s.status
                == self.status && s.ready_since == self.ready_since,
    {
        let mut s = self;
        if probe.success {
            s.consecutive_successes = s.consecutive_successes + 1;
            s.consecutive_failures = 0;
            if s.consecutive_successes >= config.success_threshold {
                if s.status != ReplicaStatus::Running {
                    s.status = ReplicaStatus::Running;
                    s.ready_since = Some(now);
                }
            }
        } else {
            s.consecutive_failures = s.consecutive_failures + 1;
            s.consecutive_successes = 0;
            if s.consecutive_failures >= config.failure_threshold {
                if s.status == ReplicaStatus::Running {
                    s.status = ReplicaStatus::Unhealthy;
                    s.ready_since = None;
                }
            }
        }
        s.last_probe = Some(probe);
        s
    }
}

/// Replica counts by health: (total, healthy, unhealthy, starting).
/// Failed replicas count as unhealthy; terminating ones only in the total.
pub open spec fn tally(s: Seq<ReplicaStatus>) -> (nat, nat, nat, nat)
    decreases s.len(),
{
    if s.len() == 0 {
        (0, 0, 0, 0)
    } else {
        let (t, h, u, st) = tally(s.drop_last());
        match s.last() {
            ReplicaStatus::Running => (t + 1, h + 1, u, st),
            ReplicaStatus::Unhealthy => (t + 1, h, u + 1, st),
            ReplicaStatus::Failed => (t + 1, h, u + 1, st),
            ReplicaStatus::Starting => (t + 1, h, u, st + 1),
            ReplicaStatus::Terminating => (t + 1, h, u, st),
        }
    }
}

proof fn lemma_tally_bounds(s: Seq<ReplicaStatus>)
    ensures
        tally(s).0 == s.len(),
        tally(s).1 + tally(s).2 + tally(s).3 <= tally(s).0,
    decreases s.len(),
{
    if s.len() > 0 {
        lemma_tally_bounds(s.drop_last());
    }
}

/// Summary of cluster health
#[derive(Debug, Clone)]
pub struct ClusterHealthSummary {
    pub total_replicas: u32,
    pub healthy_replicas: u32,
    pub unhealthy_replicas: u32,
    pub starting_replicas: u32,
    pub unknown_replicas: u32,
    pub replicas: Vec<ReplicaHealthState>,
}

/// The statuses of a list of replica health states.
pub open spec fn state_statuses(s: Seq<ReplicaHealthState>) -> Seq<ReplicaStatus> {
    Seq::new(s.len(), |i: int| s[i].status)
}

/// Counts a list of statuses.
fn count_statuses(s: &Vec<ReplicaStatus>) -> (r: (u32, u32, u32, u32))
    requires
        s@.len() <= u32::MAX,
    ensures
        r.0 == tally(s@).0 && r.1 == tally(s@).1 && r.2 == tally(s@).2 && r.3 == tally(s@).3,
{
    let n = s.len();
    let mut t: u32 = 0;
    let mut h: u32 = 0;
    let mut u: u32 = 0;
    let mut st: u32 = 0;
    assert(s@.take(0) =~= Seq::<ReplicaStatus>::empty());
    for i in 0..n
        invariant
            n == s@.len(),
            n <= u32::MAX,
            (t as nat, h as nat, u as nat, st as nat) == tally(s@.take(i as int)),
    {
        proof {
            lemma_tally_bounds(s@.take(i as int));
            assert(s@.take(i + 1).drop_last() =~= s@.take(i as int));
        }
        t = t + 1;
        match s[i] {
            ReplicaStatus::Running => { h = h + 1; },
            ReplicaStatus::Unhealthy => { u = u + 1; },
            ReplicaStatus::Failed => { u = u + 1; },
            ReplicaStatus::Starting => { st = st + 1; },
            ReplicaStatus::Terminating => {},
        }
    }
    assert(s@.take(n as int) =~= s@);
    (t, h, u, st)
}

/// The counts a summary reports: those of the health states, or, before any
/// state exists, those of the replicas the nodes list; all of them count as
/// unknown when none is healthy, unhealthy or starting.
pub open spec fn summary_counts(states: Seq<ReplicaStatus>, listed: Seq<ReplicaStatus>) -> (nat, nat, nat, nat, nat) {
    let c = if tally(states).0 == 0 { tally(listed) } else { tally(states) };
    let unknown = if c.0 > 0 && c.1 + c.2 + c.3 == 0 { c.0 } else { 0 };
    (c.0, c.1, c.2, c.3, unknown)
}

/// Get a summary of cluster health from the replica health states and, for
/// replicas not probed yet, the statuses the nodes report.
pub fn summarize_health(states: Vec<ReplicaHealthState>, node_replicas: &Vec<ReplicaStatus>) -> (r: ClusterHealthSummary)
    requires
        states@.len() <= u32::MAX,
        node_replicas@.len() <= u32::MAX,
    ensures
        ({
            let c = summary_counts(state_statuses(states@), node_replicas@);
            &&& r.total_replicas == c.0
            &&& r.healthy_replicas == c.1
            &&& r.unhealthy_replicas == c.2
            &&& r.starting_replicas == c.3
            &&& r.unknown_replicas == c.4
        }),
        r.replicas@ == states@,
{
    let mut sts: Vec<ReplicaStatus> = Vec::new();
    let n = states.len();
    for i in 0..n
        invariant
            n == states@.len(),
            sts@ == state_statuses(states@).take(i as int),
    {
        sts.push(states[i].status);
        assert(state_statuses(states@).take(i + 1) =~= state_statuses(states@).take(i as int).push(states@[i as int].status));
    }
    assert(state_statuses(states@).take(n as int) =~= state_statuses(states@));
    let (mut t, mut h, mut u, mut st) = count_statuses(&sts);
    if t == 0 {
        let c = count_statuses(node_replicas);
        t = c.0;
        h = c.1;
        u = c.2;
        st = c.3;
    }
    proof {
        lemma_tally_bounds(sts@);
        lemma_tally_bounds(node_replicas@);
    }
    let unknown = if t > 0 && h + u + st == 0 {
        t
    } else {
        0
    };
    ClusterHealthSummary {
        total_replicas: t,
        healthy_replicas: h,
        unhealthy_replicas: u,
        starting_replicas: st,
        unknown_replicas: unknown,
        replicas: states,
    }
}

/// The overall status word of a summary.
pub open spec fn status_text(total: nat, healthy: nat, unhealthy: nat, starting: nat, unknown: nat) -> Seq<char> {
    if total == 0 {
        "Empty"@
    } else if unhealthy > 0 {
        "Degraded"@
    } else if starting > 0 {
        "Starting"@
    } else if unknown > 0 {
        "Unknown"@
    } else if healthy == total {
        "Healthy"@
    } else {
        "Degraded"@
    }
}

impl ClusterHealthSummary {
    /// Overall cluster health status
    pub fn status(&self) -> (r: &'static str)
        ensures
            r@ == status_text(
                self.total_replicas as nat,
                self.healthy_replicas as nat,
                self.unhealthy_replicas as nat,
                self.starting_replicas as nat,
                self.unknown_replicas as nat,
            ),
    {
        if self.total_replicas == 0 {
            "Empty"
        } else if self.unhealthy_replicas > 0 {
            "Degraded"
        } else if self.starting_replicas > 0 {
            "Starting"
        } else if self.unknown_replicas > 0 {
            "Unknown"
        } else if self.healthy_replicas == self.total_replicas {
            "Healthy"
        } else {
            "Degraded"
        }
    }
}

/// `s` right-aligned in a field of `w` characters, as `{:>w$}` prints it.
pub open spec fn align_right(s: Seq<char>, w: int) -> Seq<char> {
    if s.len() >= w {
        s
    } else {
        spaces((w - s.len()) as nat) + s
    }
}

/// Appends `s` right-aligned in a field of `w` characters.
fn push_right(out: &mut Vec<char>, s: &Vec<char>, w: usize)
    ensures
        final(out)@ == old(out)@ + align_right(s@, w as int),
{
    let n = s.len();
    if n < w {
        let ghost base = out@;
        let mut k: usize = n;
        while k < w
            invariant
                n <= k <= w,
                out@ == base + spaces((k - n) as nat),
            decreases w - k,
        {
            out.push(' ');
            assert(spaces((k + 1 - n) as nat) =~= spaces((k - n) as nat).push(' '));
            k = k + 1;
        }
    }
    push_all(out, s);
}

/// Whole seconds in `d` nanoseconds, rounded toward zero.
pub open spec fn secs_toward_zero(d: int) -> int {
    if d >= 0 {
        d / (NANOS_PER_SEC as int)
    } else {
        -((-d) / (NANOS_PER_SEC as int))
    }
}

/// Decimal rendering of an integer with its sign.
pub open spec fn signed_decimal(i: int) -> Seq<char> {
    if i < 0 {
        seq!['-'] + decimal((-i) as nat)
    } else {
        decimal(i as nat)
    }
}

/// How a replica's status is shown.
pub open spec fn status_label(s: ReplicaStatus) -> Seq<char> {
    match s {
        ReplicaStatus::Running => "✓ Running"@,
        ReplicaStatus::Unhealthy => "✗ Unhealthy"@,
        ReplicaStatus::Starting => "◐ Starting"@,
        ReplicaStatus::Failed => "✗ Failed"@,
        ReplicaStatus::Terminating => "◑ Stopping"@,
    }
}

/// The pipeline column: the name, qualified by its namespace unless that is "default".
pub open spec fn pipeline_display(r: ReplicaHealthState) -> Seq<char> {
    if r.namespace@ == "default"@ {
        r.pipeline_name@
    } else {
        r.namespace@ + seq!['/'] + r.pipeline_name@
    }
}

/// How long ago the last probe ran, or "-".
pub open spec fn last_check_text(r: ReplicaHealthState, now: i64) -> Seq<char> {
    match r.last_probe {
        Some(p) => signed_decimal(secs_toward_zero(now - p.timestamp)) + "s ago"@,
        None => "-"@,
    }
}

/// The last probe's latency, or "-".
pub open spec fn latency_text(r: ReplicaHealthState) -> Seq<char> {
    match r.last_probe {
        Some(p) => decimal(p.latency_ms as nat) + "ms"@,
        None => "-"@,
    }
}

/// The uptime column, or "-" for a replica that is not ready.
pub open spec fn uptime_text(r: ReplicaHealthState, now: i64) -> Seq<char> {
    match r.ready_since {
        Some(t) => duration_text(elapsed_secs(t, now)),
        None => "-"@,
    }
}

/// One row of the health table.
pub open spec fn replica_row(r: ReplicaHealthState, now: i64) -> Seq<char> {
    "║  "@ + pad_to(truncated_text(r.node_name@, 12), 12) + " │ "@ + pad_to(
        truncated_text(pipeline_display(r), 20),
        20,
    ) + " │ "@ + pad_to(status_label(r.status), 10) + " │ "@ + pad_to(uptime_text(r, now), 8)
        + " │ "@ + pad_to(last_check_text(r, now), 10) + " │ "@ + pad_to(latency_text(r), 8)
        + " │ "@ + align_right(decimal(r.consecutive_failures as nat), 6) + " ║\n"@
}

/// The rows of the health table.
pub open spec fn replica_rows(rs: Seq<ReplicaHealthState>, now: i64) -> Seq<char>
    decreases rs.len(),
{
    if rs.len() == 0 {
        seq![]
    } else {
        replica_rows(rs.drop_last(), now) + replica_row(rs.last(), now)
    }
}

/// The column headings of the health table.
pub open spec fn heading_row() -> Seq<char> {
    "║  "@ + pad_to("NODE"@, 12) + " │ "@ + pad_to("PIPELINE"@, 20) + " │ "@ + pad_to("STATUS"@, 10)
        + " │ "@ + pad_to("UPTIME"@, 8) + " │ "@ + pad_to("LAST CHECK"@, 10) + " │ "@ + pad_to(
        "LATENCY"@,
        8,
    ) + " │ "@ + pad_to("ERRORS"@, 6) + " ║\n"@
}

/// The health table of a summary at time `now`.
pub open spec fn health_table(s: ClusterHealthSummary, now: i64) -> Seq<char> {
    "\n╔══════════════════════════════════════════════════════════════════════════════════════════╗\n"@ + "║                              CLUSTER HEALTH STATUS                                       ║\n"@ + "╠══════════════════════════════════════════════════════════════════════════════════════════╣\n"@ + "║  Status: "@ + pad_to(
        status_text(
            s.total_replicas as nat,
            s.healthy_replicas as nat,
            s.unhealthy_replicas as nat,
            s.starting_replicas as nat,
            s.unknown_replicas as nat,
        ),
        10,
    ) + "  │  Total: "@ + align_right(decimal(s.total_replicas as nat), 3) + "  │  Healthy: "@
        + align_right(decimal(s.healthy_replicas as nat), 3) + "  │  Unhealthy: "@ + align_right(
        decimal(s.unhealthy_replicas as nat),
        3,
    ) + "  │  Starting: "@ + align_right(decimal(s.starting_replicas as nat), 3) + "  ║\n"@
        + "╠══════════════════════════════════════════════════════════════════════════════════════════╣\n"@ + (if s.replicas@.len() == 0 {
        "║  No replicas deployed                                                                    ║\n"@
    } else {
        heading_row() + "╟──────────────┼──────────────────────┼────────────┼──────────┼────────────┼──────────┼────────╢\n"@ + replica_rows(s.replicas@, now)
    }) + "╚══════════════════════════════════════════════════════════════════════════════════════════╝\n"@
}

/// The names in a row can be cut to their columns without splitting a character.
pub open spec fn row_cuttable(r: ReplicaHealthState) -> bool {
    &&& encode_utf8(r.node_name@).len() <= usize::MAX
    &&& can_truncate(r.node_name@, 12)
    &&& encode_utf8(pipeline_display(r)).len() <= usize::MAX
    &&& can_truncate(pipeline_display(r), 20)
}

/// Appends a number with its sign.
fn push_signed(out: &mut Vec<char>, i: i128)
    requires
        -0x1_0000_0000_0000_0000 < i < 0x1_0000_0000_0000_0000,
    ensures
        final(out)@ == old(out)@ + signed_decimal(i as int),
{
    if i < 0 {
        out.push('-');
        let m: i128 = -i;
        push_decimal(out, m as u64);
    } else {
        push_decimal(out, i as u64);
    }
}

/// One row of the health table.
fn replica_row_chars(r: &ReplicaHealthState, now: i64) -> (v: Vec<char>)
    requires
        row_cuttable(*r),
    ensures
        v@ == replica_row(*r, now),
{
    let mut v = chars_of("║  ");
    let node = truncate(r.node_name.as_str(), 12);
    push_cell(&mut v, node.as_str(), Some(12));
    push_str(&mut v, " │ ");
    let display: String = if str_eq(r.namespace.as_str(), "default") {
        r.pipeline_name.clone()
    } else {
        let mut d: Vec<char> = Vec::new();
        push_str(&mut d, r.namespace.as_str());
        d.push('/');
        push_str(&mut d, r.pipeline_name.as_str());
        assert(d@ =~= r.namespace@ + seq!['/'] + r.pipeline_name@);
        string_of(&d)
    };
    assert(display@ == pipeline_display(*r));
    let pipe = truncate(display.as_str(), 20);
    push_cell(&mut v, pipe.as_str(), Some(20));
    push_str(&mut v, " │ ");
    let label: &str = match r.status {
        ReplicaStatus::Running => "✓ Running",
        ReplicaStatus::Unhealthy => "✗ Unhealthy",
        ReplicaStatus::Starting => "◐ Starting",
        ReplicaStatus::Failed => "✗ Failed",
        ReplicaStatus::Terminating => "◑ Stopping",
    };
    push_cell(&mut v, label, Some(10));
    push_str(&mut v, " │ ");
    let up = r.uptime_str(now);
    push_cell(&mut v, up.as_str(), Some(8));
    push_str(&mut v, " │ ");
    let check: Vec<char> = match &r.last_probe {
        Some(p) => {
            let d: i128 = now as i128 - p.timestamp as i128;
            let q: i128 = if d >= 0 {
                d / (NANOS_PER_SEC as i128)
            } else {
                let m: i128 = -d;
                -(m / (NANOS_PER_SEC as i128))
            };
            let mut c: Vec<char> = Vec::new();
            push_signed(&mut c, q);
            push_str(&mut c, "s ago");
            assert(c@ =~= signed_decimal(secs_toward_zero(now - p.timestamp)) + "s ago"@);
            c
        },
        None => chars_of("-"),
    };
    let check_s = string_of(&check);
    push_cell(&mut v, check_s.as_str(), Some(10));
    push_str(&mut v, " │ ");
    let lat: Vec<char> = match &r.last_probe {
        Some(p) => {
            let mut c: Vec<char> = Vec::new();
            push_decimal(&mut c, p.latency_ms);
            push_str(&mut c, "ms");
            assert(c@ =~= decimal(p.latency_ms as nat) + "ms"@);
            c
        },
        None => chars_of("-"),
    };
    let lat_s = string_of(&lat);
    push_cell(&mut v, lat_s.as_str(), Some(8));
    push_str(&mut v, " │ ");
    let errs = crate::text::decimal_chars(r.consecutive_failures as u64);
    push_right(&mut v, &errs, 6);
    push_str(&mut v, " ║\n");
    v
}

/// A count right-aligned in three columns.
fn count3(n: u32) -> (v: Vec<char>)
    ensures
        v@ == align_right(decimal(n as nat), 3),
{
    let d = crate::text::decimal_chars(n as u64);
    let mut v: Vec<char> = Vec::new();
    push_right(&mut v, &d, 3);
    assert(v@ =~= align_right(decimal(n as nat), 3));
    v
}

impl ClusterHealthSummary {
    /// Format as a table, with ages and uptimes measured at `now`
    pub fn format_table(&self, now: i64) -> (r: String)
        requires
            forall|i: int| 0 <= i < self.replicas@.len() ==> row_cuttable(#[trigger] self.replicas@[i]),
        ensures
            r@ == health_table(*self, now),
    {
        let mut out = chars_of("\n╔══════════════════════════════════════════════════════════════════════════════════════════╗\n");
        push_str(&mut out, "║                              CLUSTER HEALTH STATUS                                       ║\n");
        push_str(&mut out, "╠══════════════════════════════════════════════════════════════════════════════════════════╣\n");
        push_str(&mut out, "║  Status: ");
        push_cell(&mut out, self.status(), Some(10));
        push_str(&mut out, "  │  Total: ");
        push_all(&mut out, &count3(self.total_replicas));
        push_str(&mut out, "  │  Healthy: ");
        push_all(&mut out, &count3(self.healthy_replicas));
        push_str(&mut out, "  │  Unhealthy: ");
        push_all(&mut out, &count3(self.unhealthy_replicas));
        push_str(&mut out, "  │  Starting: ");
        push_all(&mut out, &count3(self.starting_replicas));
        push_str(&mut out, "  ║\n");
        push_str(&mut out, "╠══════════════════════════════════════════════════════════════════════════════════════════╣\n");
        let n = self.replicas.len();
        let mid: Vec<char> = if n == 0 {
            chars_of("║  No replicas deployed                                                                    ║\n")
        } else {
            let mut m = chars_of("║  ");
            push_cell(&mut m, "NODE", Some(12));
            push_str(&mut m, " │ ");
            push_cell(&mut m, "PIPELINE", Some(20));
            push_str(&mut m, " │ ");
            push_cell(&mut m, "STATUS", Some(10));
            push_str(&mut m, " │ ");
            push_cell(&mut m, "UPTIME", Some(8));
            push_str(&mut m, " │ ");
            push_cell(&mut m, "LAST CHECK", Some(10));
            push_str(&mut m, " │ ");
            push_cell(&mut m, "LATENCY", Some(8));
            push_str(&mut m, " │ ");
            push_cell(&mut m, "ERRORS", Some(6));
            push_str(&mut m, " ║\n");
            assert(m@ == heading_row());
            push_str(&mut m, "╟──────────────┼──────────────────────┼────────────┼──────────┼────────────┼──────────┼────────╢\n");
            let ghost prefix = m@;
            assert(self.replicas@.take(0) =~= Seq::<ReplicaHealthState>::empty());
            assert(m@ =~= prefix + replica_rows(self.replicas@.take(0), now));
            for i in 0..n
                invariant
                    n == self.replicas@.len(),
                    forall|j: int| 0 <= j < self.replicas@.len() ==> row_cuttable(#[trigger] self.replicas@[j]),
                    m@ == prefix + replica_rows(self.replicas@.take(i as int), now),
            {
                let row = replica_row_chars(&self.replicas[i], now);
                let ghost before = replica_rows(self.replicas@.take(i as int), now);
                push_all(&mut m, &row);
                proof {
                    let t = self.replicas@.take(i + 1);
                    assert(t.drop_last() =~= self.replicas@.take(i as int));
                    vstd::seq_lib::lemma_concat_associative(prefix, before, row@);
                }
            }
            assert(self.replicas@.take(n as int) =~= self.replicas@);
            m
        };
        push_all(&mut out, &mid);
        push_str(&mut out, "╚══════════════════════════════════════════════════════════════════════════════════════════╝\n");
        string_of(&out)
    }
}

/// The replicas the registered nodes list, node by node in registration order.
pub fn replica_targets(controller: &ClusterController) -> (r: Vec<ReplicaTarget>)
    ensures
        r@.map_values(|t: ReplicaTarget| target_view(t)) == listed_targets(
            in_order(controller.node_order(), controller.node_map()),
            controller.node_order().len(),
        ),
{
    let nodes = controller.list_nodes();
    let ghost ns = in_order(controller.node_order(), controller.node_map());
    let mut out: Vec<ReplicaTarget> = Vec::new();
    let k = nodes.len();
    assert(out@.map_values(|t: ReplicaTarget| target_view(t)) =~= listed_targets(ns, 0));
    for i in 0..k
        invariant
            k == nodes@.len(),
            k == ns.len(),
            forall|j: int| 0 <= j < k ==> *#[trigger] nodes@[j] == ns[j],
            out@.map_values(|t: ReplicaTarget| target_view(t)) == listed_targets(ns, i as nat),
    {
        let n = nodes[i];
        assert(*n == ns[i as int]);
        let ghost before = out@.map_values(|t: ReplicaTarget| target_view(t));
        match &n.status {
            Some(st) => {
                let m = st.pipelines.len();
                for j in 0..m
                    invariant
                        m == st.pipelines@.len(),
                        n.status == Some(*st),
                        out@.map_values(|t: ReplicaTarget| target_view(t)) == before + node_targets(*n).take(
                            j as int,
                        ),
                {
                    let p = &st.pipelines[j];
                    let ghost prev = out@;
                    assert(*p == st.pipelines@[j as int]);
                    assert(node_targets(*n)[j as int] == (
                        n.metadata.name@,
                        n.spec.address@,
                        p.namespace@,
                        p.name@,
                        p.port,
                    ));
                    out.push(
                        ReplicaTarget {
                            node_name: n.metadata.name.clone(),
                            node_address: n.spec.address.clone(),
                            namespace: p.namespace.clone(),
                            pipeline_name: p.name.clone(),
                            port: p.port,
                        },
                    );
                    assert(out@.map_values(|t: ReplicaTarget| target_view(t)) =~= prev.map_values(
                        |t: ReplicaTarget| target_view(t),
                    ).push(node_targets(*n)[j as int]));
                    assert(node_targets(*n).take(j + 1) =~= node_targets(*n).take(j as int).push(
                        node_targets(*n)[j as int],
                    ));
                    assert(out@.map_values(|t: ReplicaTarget| target_view(t)) =~= before + node_targets(
                        *n,
                    ).take(j + 1));
                }
                assert(node_targets(*n).take(m as int) =~= node_targets(*n));
            },
            None => {
                assert(node_targets(*n) =~= Seq::<(Seq<char>, Seq<char>, Seq<char>, Seq<char>, u16)>::empty());
            },
        }
        assert(out@.map_values(|t: ReplicaTarget| target_view(t)) =~= listed_targets(ns, (i + 1) as nat));
    }
    out
}

/// The health-state keys of listed replicas.
pub fn target_keys(targets: &Vec<ReplicaTarget>) -> (r: Vec<String>)
    ensures
        r@.len() == targets@.len(),
        forall|i: int| 0 <= i < targets@.len() ==> #[trigger] r@[i]@ == target_key(targets@[i]),
{
    let mut out: Vec<String> = Vec::new();
    let n = targets.len();
    for i in 0..n
        invariant
            n == targets@.len(),
            out@.len() == i,
            forall|j: int| 0 <= j < i ==> #[trigger] out@[j]@ == target_key(targets@[j]),
    {
        let t = &targets[i];
        out.push(replica_key(t.node_name.as_str(), t.namespace.as_str(), t.pipeline_name.as_str(), t.port));
    }
    out
}

/// Records a probe of a listed replica in the health states: its state so far, or a
/// fresh one first seen at `now`, stepped by the probe.
pub fn apply_probe(
    states: &mut StrMap<ReplicaHealthState>,
    target: &ReplicaTarget,
    probe: HealthProbeResult,
    config: &HealthCheckerConfig,
    now: i64,
)
    requires
        old(states)@.contains_key(target_key(*target)) ==> (if probe.success {
            old(states)@[target_key(*target)].consecutive_successes < u32::MAX
        } else {
            old(states)@[target_key(*target)].consecutive_failures < u32::MAX
        }),
    ensures
        final(states)@.dom() == old(states)@.dom().insert(target_key(*target)),
        forall|k: Seq<char>|
            k != target_key(*target) && #[trigger] old(states)@.contains_key(k) ==> final(states)@[k]
                == old(states)@[k],
        old(states)@.contains_key(target_key(*target)) ==> probe_step(
            old(states)@[target_key(*target)],
            final(states)@[target_key(*target)],
            probe,
            *config,
            now,
        ),
        !old(states)@.contains_key(target_key(*target)) ==> exists|h: ReplicaHealthState|
            fresh_state(h, *target, now) && probe_step(
                h,
                final(states)@[target_key(*target)],
                probe,
                *config,
                now,
            ),
{
    let key = replica_key(target.node_name.as_str(), target.namespace.as_str(), target.pipeline_name.as_str(), target.port);
    let prior = match states.remove(key.as_str()) {
        Some(h) => h,
        None => ReplicaHealthState::new(
            target.node_name.as_str(),
            target.node_address.as_str(),
            target.namespace.as_str(),
            target.pipeline_name.as_str(),
            target.port,
            now,
        ),
    };
    let ghost h = prior;
    let next = prior.record_probe(probe, config, now);
    let _ = states.insert(key, next);
    proof {
        assert(states@.dom() =~= old(states)@.dom().insert(target_key(*target)));
        if !old(states)@.contains_key(target_key(*target)) {
            assert(fresh_state(h, *target, now));
        }
    }
}

/// Keeps the health states of the listed replicas only: the states of replicas no
/// longer listed are removed, the others stay as they are.
pub fn retain_listed(states: &mut StrMap<ReplicaHealthState>, active: &Vec<String>)
    ensures
        final(states)@ == old(states)@.restrict(str_views(active@).to_set()),
{
    let n = states.len();
    let ghost ks = old(states).key_seq();
    let ghost act = str_views(active@).to_set();
    let mut stale: Vec<String> = Vec::new();
    for i in 0..n
        invariant
            n == ks.len(),
            ks == states.key_seq(),
            act == str_views(active@).to_set(),
            forall|x: Seq<char>| #[trigger] str_views(stale@).contains(x) <==> exists|j: int|
                0 <= j < i && ks[j] == x && !act.contains(x),
    {
        let k = states.key_at(i);
        let mut listed = false;
        let m = active.len();
        for j in 0..m
            invariant
                m == active@.len(),
                listed <==> exists|l: int| 0 <= l < j && active@[l]@ == k@,
        {
            if str_eq(active[j].as_str(), k.as_str()) {
                listed = true;
            }
        }
        proof {
            if act.contains(k@) {
                let l = choose|l: int| 0 <= l < str_views(active@).len() && str_views(active@)[l] == k@;
                assert(active@[l]@ == k@);
            }
            if listed {
                let l = choose|l: int| 0 <= l < m && active@[l]@ == k@;
                assert(str_views(active@)[l] == k@);
            }
        }
        let ghost before = stale@;
        if !listed {
            stale.push(k.clone());
        }
        proof {
            assert forall|x: Seq<char>| #[trigger] str_views(stale@).contains(x) <==> exists|j: int|
                0 <= j < i + 1 && ks[j] == x && !act.contains(x) by {
                if str_views(stale@).contains(x) {
                    let q = choose|q: int| 0 <= q < str_views(stale@).len() && str_views(stale@)[q] == x;
                    if q < before.len() {
                        assert(str_views(before)[q] == x);
                        assert(str_views(before).contains(x));
                    }
                }
                if exists|j: int| 0 <= j < i + 1 && ks[j] == x && !act.contains(x) {
                    let j = choose|j: int| 0 <= j < i + 1 && ks[j] == x && !act.contains(x);
                    if j < i {
                        assert(str_views(before).contains(x));
                        let q = choose|q: int| 0 <= q < str_views(before).len() && str_views(before)[q] == x;
                        assert(str_views(stale@)[q] == x);
                    } else {
                        assert(str_views(stale@)[before.len() as int] == x);
                    }
                }
            }
        }
    }
    let ghost start = states@;
    let m = stale.len();
    for j in 0..m
        invariant
            m == stale@.len(),
            states@ == start.remove_keys(first_keys(str_views(stale@), j as int)),
    {
        let _ = states.remove(stale[j].as_str());
        assert(first_keys(str_views(stale@), j + 1) =~= first_keys(str_views(stale@), j as int).insert(
            str_views(stale@)[j as int],
        ));
        assert(states@ =~= start.remove_keys(first_keys(str_views(stale@), j + 1)));
    }
    proof {
        assert forall|x: Seq<char>| first_keys(str_views(stale@), m as int).contains(x) <==> #[trigger] str_views(
            stale@,
        ).contains(x) by {
            if str_views(stale@).contains(x) {
                let q = choose|q: int| 0 <= q < str_views(stale@).len() && str_views(stale@)[q] == x;
            }
        }
        assert forall|x: Seq<char>| #[trigger] start.contains_key(x) implies (str_views(stale@).contains(x)
            <==> !act.contains(x)) by {
            assert(start.dom() == ks.to_set());
            assert(ks.contains(x));
            let j = choose|j: int| 0 <= j < ks.len() && ks[j] == x;
        }
        assert(states@ =~= old(states)@.restrict(act)) by {
            assert forall|x: Seq<char>| #[trigger] states@.contains_key(x) <==> old(states)@.restrict(act).contains_key(x) by {
                if start.contains_key(x) {
                    assert(first_keys(str_views(stale@), m as int).contains(x) <==> str_views(stale@).contains(x));
                }
            }
        }
    }
}

} // verus!
