//! Cluster controller settings, errors and statistics.
use vstd::prelude::*;

use super::node::{
    node_has_room, node_ready, whole_seconds, Node, NodeCapacity, NodeInfo, NodePhase,
    NodePipelineInfo, NodeSpec, NodeStatus, ReplicaStatus,
};
use super::pipeline::{pipeline_ready, qualified, Pipeline, PipelineSpec, PipelineStatus};
use super::resources::{labels_match, selects, LabelSelector, Namespace};
use super::HEARTBEAT_INTERVAL_SECS;
use crate::strmap::StrMap;
use crate::text::{chars_of, push_str, starts_with, starts_with_exec, str_eq, str_views, string_of, to_string};

verus! {

/// Errors that can occur in the cluster controller
#[derive(Debug)]
pub enum ControllerError {
    PipelineNotFound(String, String),
    PipelineExists(String, String),
    NodeNotFound(String),
    NodeExists(String),
    NamespaceNotFound(String),
    NoAvailableNodes,
    InsufficientCapacity(String),
    ValidationError(String),
    InternalError(String),
}

/// The text a controller error reads as.
pub open spec fn controller_error_text(e: ControllerError) -> Seq<char> {
    match e {
        ControllerError::PipelineNotFound(a, b) => "Pipeline '"@ + a@ + "' not found in namespace '"@ + b@ + "'"@,
        ControllerError::PipelineExists(a, b) => "Pipeline '"@ + a@ + "' already exists in namespace '"@ + b@
            + "'"@,
        ControllerError::NodeNotFound(a) => "Node '"@ + a@ + "' not found"@,
        ControllerError::NodeExists(a) => "Node '"@ + a@ + "' already registered"@,
        ControllerError::NamespaceNotFound(a) => "Namespace '"@ + a@ + "' not found"@,
        ControllerError::NoAvailableNodes => "No available nodes for scheduling"@,
        ControllerError::InsufficientCapacity(a) => "Insufficient capacity: "@ + a@,
        ControllerError::ValidationError(a) => "Validation error: "@ + a@,
        ControllerError::InternalError(a) => "Internal error: "@ + a@,
    }
}

impl ControllerError {
    /// The text this error reads as.
    pub fn message(&self) -> (s: String)
        ensures
            s@ == controller_error_text(*self),
    {
        let mut v: Vec<char> = Vec::new();
        match self {
            ControllerError::PipelineNotFound(a, b) => {
                push_str(&mut v, "Pipeline '");
                push_str(&mut v, a.as_str());
                push_str(&mut v, "' not found in namespace '");
                push_str(&mut v, b.as_str());
                push_str(&mut v, "'");
            },
            ControllerError::PipelineExists(a, b) => {
                push_str(&mut v, "Pipeline '");
                push_str(&mut v, a.as_str());
                push_str(&mut v, "' already exists in namespace '");
                push_str(&mut v, b.as_str());
                push_str(&mut v, "'");
            },
            ControllerError::NodeNotFound(a) => {
                push_str(&mut v, "Node '");
                push_str(&mut v, a.as_str());
                push_str(&mut v, "' not found");
            },
            ControllerError::NodeExists(a) => {
                push_str(&mut v, "Node '");
                push_str(&mut v, a.as_str());
                push_str(&mut v, "' already registered");
            },
            ControllerError::NamespaceNotFound(a) => {
                push_str(&mut v, "Namespace '");
                push_str(&mut v, a.as_str());
                push_str(&mut v, "' not found");
            },
            ControllerError::NoAvailableNodes => {
                push_str(&mut v, "No available nodes for scheduling");
            },
            ControllerError::InsufficientCapacity(a) => {
                push_str(&mut v, "Insufficient capacity: ");
                push_str(&mut v, a.as_str());
            },
            ControllerError::ValidationError(a) => {
                push_str(&mut v, "Validation error: ");
                push_str(&mut v, a.as_str());
            },
            ControllerError::InternalError(a) => {
                push_str(&mut v, "Internal error: ");
                push_str(&mut v, a.as_str());
            },
        }
        assert(v@ =~= controller_error_text(*self));
        string_of(&v)
    }
}

/// Controller configuration
#[derive(Debug, Clone)]
pub struct ControllerConfig {
    /// How often to check node health (seconds)
    pub health_check_interval: u64,
    /// Threshold for marking node as unknown (seconds)
    pub node_heartbeat_timeout: i64,
    /// Maximum pipelines per node (can be overridden per-node)
    pub default_max_pipelines_per_node: u32,
}

impl Default for ControllerConfig {
    /// Nodes count as lost after three missed heartbeats.
    fn default() -> (c: Self)
        ensures
            c.health_check_interval == 10,
            c.node_heartbeat_timeout == HEARTBEAT_INTERVAL_SECS * 3,
            c.default_max_pipelines_per_node == 10,
    {
        ControllerConfig {
            health_check_interval: 10,
            node_heartbeat_timeout: (HEARTBEAT_INTERVAL_SECS * 3) as i64,
            default_max_pipelines_per_node: 10,
        }
    }
}

/// Cluster statistics
#[derive(Debug, Clone)]
pub struct ClusterStats {
    pub total_nodes: usize,
    pub ready_nodes: usize,
    pub total_pipelines: usize,
    pub ready_pipelines: usize,
    pub namespaces: usize,
}

/// The values of a map in the order of its keys.
pub open spec fn in_order<V>(order: Seq<Seq<char>>, m: Map<Seq<char>, V>) -> Seq<V> {
    Seq::new(order.len(), |i: int| m[order[i]])
}

/// The nodes a list of references points to.
pub open spec fn deref_seq<V>(s: Seq<&V>) -> Seq<V> {
    Seq::new(s.len(), |i: int| *s[i])
}

/// A node a pipeline with this selector can be placed on: it carries the selected
/// labels, is schedulable and ready, and has room for another pipeline.
pub open spec fn placeable(selector: Map<Seq<char>, String>) -> spec_fn(Node) -> bool {
    |n: Node| selects(selector, n.metadata.labels@) && n.spec.schedulable && node_ready(n) && node_has_room(n)
}

/// The nodes whose labels carry the selected ones.
pub open spec fn labelled(selector: Map<Seq<char>, String>) -> spec_fn(Node) -> bool {
    |n: Node| selects(selector, n.metadata.labels@)
}

/// The nodes that can take a pipeline: schedulable, ready, with room.
pub open spec fn schedulable() -> spec_fn(Node) -> bool {
    |n: Node| n.spec.schedulable && node_ready(n) && node_has_room(n)
}

/// The nodes the selector matches and, when `placeable_only`, that can take a pipeline.
pub open spec fn node_filter(selector: Map<Seq<char>, String>, placeable_only: bool) -> spec_fn(Node) -> bool {
    |n: Node| selects(selector, n.metadata.labels@) && (!placeable_only || (n.spec.schedulable && node_ready(n)
        && node_has_room(n)))
}

/// The node with its phase set to Unknown when its last heartbeat is more than
/// `threshold` whole seconds before `now`.
pub open spec fn health_checked(n: Node, threshold: i64, now: i64) -> Node {
    match n.status {
        Some(s) => if whole_seconds(s.last_heartbeat, now) > threshold {
            Node { status: Some(NodeStatus { phase: NodePhase::Unknown, ..s }), ..n }
        } else {
            n
        },
        None => n,
    }
}

/// The pipelines a node runs; none without a status.
pub open spec fn prior_pipelines(n: Node) -> Seq<NodePipelineInfo> {
    match n.status {
        Some(s) => s.pipelines@,
        None => Seq::empty(),
    }
}

/// Pipeline `namespace/name` is among `ps`.
pub open spec fn runs_pipeline(ps: Seq<NodePipelineInfo>, namespace: Seq<char>, name: Seq<char>) -> bool {
    exists|j: int| 0 <= j < ps.len() && #[trigger] ps[j].namespace@ == namespace && ps[j].name@ == name
}

/// `s1` keeps what `n`'s status holds besides its pipelines; a node without status gets
/// the status of a fresh node at `now`: ready, default capacity, `system` information.
pub open spec fn status_kept(n: Node, s1: NodeStatus, system: NodeInfo, now: i64) -> bool {
    match n.status {
        Some(s) => s1 == NodeStatus { pipelines: s1.pipelines, ..s },
        None => {
            &&& s1.phase == NodePhase::Ready
            &&& s1.conditions@.len() == 0
            &&& s1.capacity == NodeCapacity { cpu: 0, memory: 0, gpu: 0, gpu_memory: 0, max_pipelines: 10 }
            &&& s1.allocatable == s1.capacity
            &&& s1.last_heartbeat == now
            &&& s1.node_info == system
        },
    }
}

/// `b` is `n` with the pipeline `namespace/name` recorded as running on port `port`,
/// unless it is recorded already (see `status_kept` for a node without status).
pub open spec fn tracks_pipeline(n: Node, b: Node, namespace: Seq<char>, name: Seq<char>, port: u16, system: NodeInfo, now: i64) -> bool {
    let ps = prior_pipelines(n);
    &&& b.api_version == n.api_version
    &&& b.kind == n.kind
    &&& b.metadata == n.metadata
    &&& b.spec == n.spec
    &&& b.status matches Some(s1)
    &&& status_kept(n, s1, system, now)
    &&& if runs_pipeline(ps, namespace, name) {
        s1.pipelines@ == ps
    } else {
        &&& s1.pipelines@.len() == ps.len() + 1
        &&& s1.pipelines@.drop_last() == ps
        &&& s1.pipelines@.last().name@ == name
        &&& s1.pipelines@.last().namespace@ == namespace
        &&& s1.pipelines@.last().port == port
        &&& s1.pipelines@.last().status == ReplicaStatus::Running
    }
}

/// How many of the first `r` turns fall on position `j` of `len`, taking turns in order.
pub open spec fn turns(len: nat, j: int, r: nat) -> nat
    decreases r,
{
    if r == 0 || len == 0 {
        0
    } else {
        turns(len, j, (r - 1) as nat) + if (r - 1) % (len as int) == j {
            1nat
        } else {
            0nat
        }
    }
}

/// `m` gives `r` replicas to `names` in turn: each name that got a turn maps to the
/// number of turns it got, and no other name appears.
pub open spec fn round_robin(names: Seq<Seq<char>>, r: nat, m: Map<Seq<char>, u32>) -> bool {
    &&& forall|k: Seq<char>| #[trigger] m.contains_key(k) ==> exists|j: int| 0 <= j < names.len() && names[j] == k && turns(names.len(), j, r) > 0
    &&& forall|j: int| 0 <= j < names.len() && #[trigger] turns(names.len(), j, r) > 0 ==> m.contains_key(names[j]) && m[names[j]] == turns(names.len(), j, r)
}

/// The sum of the turns of positions `0..k`.
pub open spec fn turns_upto(len: nat, k: int, r: nat) -> nat
    decreases k,
{
    if k <= 0 {
        0
    } else {
        turns_upto(len, k - 1, r) + turns(len, k - 1, r)
    }
}

proof fn lemma_turns_step(len: nat, k: int, r: nat)
    requires
        len > 0,
        0 <= k <= len,
    ensures
        turns_upto(len, k, r + 1) == turns_upto(len, k, r) + if (r as int) % (len as int) < k {
            1nat
        } else {
            0nat
        },
    decreases k,
{
    if k > 0 {
        lemma_turns_step(len, k - 1, r);
    }
}

/// Taking turns places every replica: over all positions, the turns add up to `r`.
pub proof fn lemma_round_robin_total(len: nat, r: nat)
    requires
        len > 0,
    ensures
        turns_upto(len, len as int, r) == r,
    decreases r,
{
    if r > 0 {
        lemma_round_robin_total(len, (r - 1) as nat);
        lemma_turns_step(len, len as int, (r - 1) as nat);
    } else {
        lemma_turns_zero(len, len as int);
    }
}

/// The turns of position `j`: `r / len`, and one more for the first `r % len` positions.
proof fn lemma_turns_closed(len: nat, j: int, r: nat)
    requires
        len > 0,
        0 <= j < len,
    ensures
        turns(len, j, r) == (r as int) / (len as int) + if j < (r as int) % (len as int) {
            1int
        } else {
            0int
        },
    decreases r,
{
    let d = len as int;
    if r == 0 {
        vstd::arithmetic::div_mod::lemma_fundamental_div_mod_converse(0, d, 0, 0);
    } else {
        let p = (r - 1) as nat;
        lemma_turns_closed(len, j, p);
        let q = (p as int) / d;
        let s = (p as int) % d;
        vstd::arithmetic::div_mod::lemma_fundamental_div_mod(p as int, d);
        vstd::arithmetic::div_mod::lemma_mod_pos_bound(p as int, d);
        assert(p as int == q * d + s) by (nonlinear_arith)
            requires
                p as int == d * q + s,
        ;
        if s + 1 < d {
            vstd::arithmetic::div_mod::lemma_fundamental_div_mod_converse(r as int, d, q, s + 1);
        } else {
            assert(r as int == (q + 1) * d + 0) by (nonlinear_arith)
                requires
                    p as int == q * d + s,
                    s + 1 == d,
                    r == p + 1,
            ;
            vstd::arithmetic::div_mod::lemma_fundamental_div_mod_converse(r as int, d, q + 1, 0);
        }
    }
}

/// What the placed replicas of the first `k` names add up to.
pub open spec fn placed_upto(names: Seq<Seq<char>>, m: Map<Seq<char>, u32>, k: int) -> nat
    decreases k,
{
    if k <= 0 {
        0
    } else {
        placed_upto(names, m, k - 1) + if m.contains_key(names[k - 1]) {
            m[names[k - 1]] as nat
        } else {
            0nat
        }
    }
}

/// A round-robin placement over distinct names is balanced: every placed name gets
/// at least one replica, two names' shares differ by at most one, and the shares add
/// up to the number of replicas.
pub proof fn lemma_round_robin_balanced(names: Seq<Seq<char>>, r: nat, m: Map<Seq<char>, u32>)
    requires
        names.len() > 0,
        names.no_duplicates(),
        round_robin(names, r, m),
    ensures
        forall|k: Seq<char>| #[trigger] m.contains_key(k) ==> m[k] >= 1,
        forall|k1: Seq<char>, k2: Seq<char>|
            #[trigger] m.contains_key(k1) && #[trigger] m.contains_key(k2) ==> m[k1] <= m[k2] + 1,
        placed_upto(names, m, names.len() as int) == r,
{
    let len = names.len();
    assert forall|k1: Seq<char>, k2: Seq<char>|
        #[trigger] m.contains_key(k1) && #[trigger] m.contains_key(k2) implies m[k1] <= m[k2] + 1 by {
        let j1 = choose|j: int| 0 <= j < names.len() && names[j] == k1 && turns(len, j, r) > 0;
        let j2 = choose|j: int| 0 <= j < names.len() && names[j] == k2 && turns(len, j, r) > 0;
        lemma_turns_closed(len, j1, r);
        lemma_turns_closed(len, j2, r);
    }
    assert forall|k: Seq<char>| #[trigger] m.contains_key(k) implies m[k] >= 1 by {
        let j = choose|j: int| 0 <= j < names.len() && names[j] == k && turns(len, j, r) > 0;
    }
    lemma_placed_is_turns(names, r, m, len as int);
    lemma_round_robin_total(len, r);
}

proof fn lemma_placed_is_turns(names: Seq<Seq<char>>, r: nat, m: Map<Seq<char>, u32>, k: int)
    requires
        names.len() > 0,
        names.no_duplicates(),
        round_robin(names, r, m),
        0 <= k <= names.len(),
    ensures
        placed_upto(names, m, k) == turns_upto(names.len(), k, r),
    decreases k,
{
    if k > 0 {
        lemma_placed_is_turns(names, r, m, k - 1);
        let j = k - 1;
        let len = names.len();
        if turns(len, j, r) == 0 && m.contains_key(names[j]) {
            let j2 = choose|i: int| 0 <= i < names.len() && names[i] == names[j] && turns(len, i, r) > 0;
            assert(j2 != j);
        }
    }
}

/// A node that already runs as many pipelines as its capacity allows is never a
/// placement candidate, whatever the selector; one with a free slot is, when it is
/// schedulable, ready and selected.
pub proof fn lemma_full_node_never_placed(n: Node, selector: Map<Seq<char>, String>)
    ensures
        (n.status matches Some(st) && st.pipelines@.len() >= st.capacity.max_pipelines) ==> !placeable(
            selector,
        )(n),
        (n.status matches Some(st) && st.pipelines@.len() < st.capacity.max_pipelines
            && st.phase == NodePhase::Ready && n.spec.schedulable && selects(
            selector,
            n.metadata.labels@,
        )) ==> placeable(selector)(n),
{
}

proof fn lemma_turns_zero(len: nat, k: int)
    ensures
        turns_upto(len, k, 0) == 0,
    decreases k,
{
    if k > 0 {
        lemma_turns_zero(len, k - 1);
    }
}

proof fn lemma_turns_bound(len: nat, j: int, r: nat)
    ensures
        turns(len, j, r) <= r,
    decreases r,
{
    if r > 0 {
        lemma_turns_bound(len, j, (r - 1) as nat);
    }
}

/// Give `replicas` replicas to distinct `names` in turn (see `round_robin`).
pub fn round_robin_schedule(names: &Vec<String>, replicas: u32) -> (m: StrMap<u32>)
    requires
        names@.len() > 0,
        str_views(names@).no_duplicates(),
    ensures
        round_robin(str_views(names@), replicas as nat, m@),
{
    let ghost ns = str_views(names@);
    let len = names.len();
    let mut m: StrMap<u32> = StrMap::new();
    let mut i: u32 = 0;
    while i < replicas
        invariant
            len == names@.len(),
            len > 0,
            ns == str_views(names@),
            ns.no_duplicates(),
            i <= replicas,
            round_robin(ns, i as nat, m@),
        decreases replicas - i,
    {
        let j: usize = (i as usize) % len;
        let name = &names[j];
        proof {
            lemma_turns_bound(len as nat, j as int, i as nat);
        }
        let count: u32 = match m.get(name.as_str()) {
            Some(c) => *c,
            None => 0,
        };
        proof {
            if m@.contains_key(ns[j as int]) {
                let w = choose|w: int| 0 <= w < ns.len() && ns[w] == ns[j as int] && turns(ns.len(), w, i as nat) > 0;
                assert(w == j);
            } else {
                assert(turns(len as nat, j as int, i as nat) == 0);
            }
            assert(count == turns(len as nat, j as int, i as nat));
        }
        let _ = m.insert(name.clone(), count + 1);
        proof {
            let ni = (i + 1) as nat;
            assert forall|jj: int| 0 <= jj < ns.len() implies #[trigger] turns(ns.len(), jj, ni) == turns(ns.len(), jj, i as nat) + if jj == j { 1nat } else { 0nat } by {
                assert((i as int) % (len as int) == j as int);
            }
            assert forall|k: Seq<char>| #[trigger] m@.contains_key(k) implies exists|w: int| 0 <= w < ns.len() && ns[w] == k && turns(ns.len(), w, ni) > 0 by {
                if k == ns[j as int] {
                    assert(turns(ns.len(), j as int, ni) > 0);
                } else {
                    let w = choose|w: int| 0 <= w < ns.len() && ns[w] == k && turns(ns.len(), w, i as nat) > 0;
                    assert(turns(ns.len(), w, ni) > 0);
                }
            }
            assert forall|jj: int| 0 <= jj < ns.len() && #[trigger] turns(ns.len(), jj, ni) > 0 implies m@.contains_key(ns[jj]) && m@[ns[jj]] == turns(ns.len(), jj, ni) by {
                if jj != j {
                    assert(ns[jj] != ns[j as int]);
                }
            }
        }
        i = i + 1;
    }
    m
}

/// The names of a list of nodes.
pub open spec fn node_names(ns: Seq<Node>) -> Seq<Seq<char>> {
    Seq::new(ns.len(), |i: int| ns[i].metadata.name@)
}

proof fn lemma_filter_names_distinct(all: Seq<Node>, f: spec_fn(Node) -> bool)
    requires
        node_names(all).no_duplicates(),
    ensures
        node_names(all.filter(f)).no_duplicates(),
    decreases all.len(),
{
    reveal(Seq::filter);
    if all.len() > 0 {
        let init = all.drop_last();
        assert(node_names(init) =~= node_names(all).drop_last());
        lemma_filter_names_distinct(init, f);
        if f(all.last()) {
            let c = init.filter(f);
            assert(all.filter(f) == c.push(all.last()));
            assert forall|a: int, b: int| 0 <= a < b < c.len() + 1 implies node_names(c.push(all.last()))[a] != node_names(c.push(all.last()))[b] by {
                if b == c.len() {
                    assert(init.filter(f).contains(c[a]));
                    init.lemma_filter_contains_rev(f, c[a]);
                    let w = choose|w: int| 0 <= w < init.len() && init[w] == c[a];
                    assert(node_names(all)[w] != node_names(all)[all.len() - 1]);
                } else {
                    assert(node_names(c)[a] != node_names(c)[b]);
                }
            }
        } else {
            assert(all.filter(f) == init.filter(f));
        }
    }
}

proof fn lemma_filter_keeps_all<A>(s: Seq<A>, f: spec_fn(A) -> bool)
    requires
        forall|i: int| 0 <= i < s.len() ==> f(#[trigger] s[i]),
    ensures
        s.filter(f) == s,
    decreases s.len(),
{
    reveal(Seq::filter);
    if s.len() > 0 {
        lemma_filter_keeps_all(s.drop_last(), f);
        assert(s.drop_last().push(s.last()) =~= s);
    }
}

/// The node with its schedulable flag set.
pub open spec fn with_schedulable(n: Node, schedulable: bool) -> Node {
    Node { spec: NodeSpec { schedulable, ..n.spec }, ..n }
}

/// The pipeline with this number of replicas.
pub open spec fn with_replicas(p: Pipeline, replicas: u32) -> Pipeline {
    Pipeline { spec: PipelineSpec { replicas, ..p.spec }, ..p }
}

/// The pipeline with this status.
pub open spec fn with_pipeline_status(p: Pipeline, status: PipelineStatus) -> Pipeline {
    Pipeline { status: Some(status), ..p }
}

/// `b` is pipeline `a` with an initial status: no replicas, conditions or endpoints yet.
pub open spec fn initialized(a: Pipeline, b: Pipeline) -> bool {
    &&& b.api_version == a.api_version
    &&& b.kind == a.kind
    &&& b.metadata == a.metadata
    &&& b.spec == a.spec
    &&& b.status matches Some(s)
    &&& s.replicas == 0
    &&& s.ready_replicas == 0
    &&& s.available_replicas == 0
    &&& s.unavailable_replicas == 0
    &&& s.observed_generation == 0
    &&& s.conditions@.len() == 0
    &&& s.endpoints@.len() == 0
}

/// The pipelines filed under `namespace/`.
pub open spec fn in_namespace(namespace: Seq<char>) -> spec_fn(Pipeline) -> bool {
    |p: Pipeline| starts_with(qualified(p.metadata.namespace@, p.metadata.name@), namespace + "/"@)
}

/// `b` is `a` without the recorded pipeline `namespace/name` (a node without status is left as it is).
pub open spec fn untracks_pipeline(a: Node, b: Node, namespace: Seq<char>, name: Seq<char>) -> bool {
    match a.status {
        None => b == a,
        Some(s) => {
            &&& b.api_version == a.api_version
            &&& b.kind == a.kind
            &&& b.metadata == a.metadata
            &&& b.spec == a.spec
            &&& b.status matches Some(s1)
            &&& s1 == NodeStatus { pipelines: s1.pipelines, ..s }
            &&& s1.pipelines@ == s.pipelines@.filter(
                |p: NodePipelineInfo| !(p.namespace@ == namespace && p.name@ == name),
            )
        },
    }
}

/// Whether a pipeline is among those recorded.
fn has_pipeline(ps: &Vec<NodePipelineInfo>, namespace: &String, name: &String) -> (b: bool)
    ensures
        b == runs_pipeline(ps@, namespace@, name@),
{
    let n = ps.len();
    for i in 0..n
        invariant
            n == ps@.len(),
            forall|j: int| 0 <= j < i ==> !(#[trigger] ps@[j].namespace@ == namespace@ && ps@[j].name@ == name@),
    {
        if str_eq(ps[i].namespace.as_str(), namespace.as_str()) && str_eq(ps[i].name.as_str(), name.as_str()) {
            return true;
        }
    }
    false
}

/// The node with pipeline `namespace/name` recorded (see `tracks_pipeline`).
fn track_pipeline(node: Node, namespace: String, name: String, port: u16, system: NodeInfo, now: i64) -> (m: Node)
    ensures
        tracks_pipeline(node, m, namespace@, name@, port, system, now),
{
    let mut m = node;
    let mut status = match m.status {
        Some(s) => s,
        None => NodeStatus::new(NodeCapacity::default(), system, now),
    };
    m.status = None;
    if !has_pipeline(&status.pipelines, &namespace, &name) {
        let ghost before = status.pipelines@;
        status.pipelines.push(NodePipelineInfo { name, namespace, port, status: ReplicaStatus::Running });
        assert(status.pipelines@.drop_last() =~= before);
        proof {
            if node.status is None {
                assert(before =~= Seq::<NodePipelineInfo>::empty());
            }
        }
    }
    m.status = Some(status);
    m
}

/// The node without the recorded pipeline `namespace/name`.
fn untrack_pipeline(node: Node, namespace: String, name: String) -> (m: Node)
    ensures
        untracks_pipeline(node, m, namespace@, name@),
{
    let mut m = node;
    match m.status {
        None => m,
        Some(s) => {
            let mut s = s;
            let ghost f = |p: NodePipelineInfo| !(p.namespace@ == namespace@ && p.name@ == name@);
            let ghost start = s.pipelines@;
            let mut kept: Vec<NodePipelineInfo> = Vec::new();
            let mut rest: Vec<NodePipelineInfo> = Vec::new();
            core::mem::swap(&mut rest, &mut s.pipelines);
            let n = rest.len();
            let mut i: usize = 0;
            while i < n
                invariant
                    f == (|p: NodePipelineInfo| !(p.namespace@ == namespace@ && p.name@ == name@)),
                    start.len() == n,
                    i <= n,
                    rest@ == start.skip(i as int),
                    kept@ == start.take(i as int).filter(f),
                decreases n - i,
            {
                let p = rest.remove(0);
                proof {
                    let t = start.take(i + 1);
                    assert(t.drop_last() =~= start.take(i as int));
                    assert(t.last() == p);
                    assert(rest@ =~= start.skip(i + 1));
                    reveal(Seq::filter);
                }
                if !(str_eq(p.namespace.as_str(), namespace.as_str()) && str_eq(p.name.as_str(), name.as_str())) {
                    kept.push(p);
                }
                assert(kept@ =~= start.take(i + 1).filter(f));
                i = i + 1;
            }
            assert(start.take(n as int) =~= start);
            s.pipelines = kept;
            m.status = Some(s);
            m
        },
    }
}

/// The node with this status.
pub open spec fn with_status(n: Node, status: NodeStatus) -> Node {
    Node { status: Some(status), ..n }
}

/// The cluster controller: the registered nodes, the deployed pipelines, the namespaces
/// and the controller's settings.
pub struct ClusterController {
    nodes: StrMap<Node>,
    pipelines: StrMap<Pipeline>,
    namespaces: StrMap<Namespace>,
    config: ControllerConfig,
}

impl ClusterController {
    /// Registered nodes by name.
    pub closed spec fn node_map(&self) -> Map<Seq<char>, Node> {
        self.nodes@
    }

    /// Node names in registration order.
    pub closed spec fn node_order(&self) -> Seq<Seq<char>> {
        self.nodes.key_seq()
    }

    /// Deployed pipelines by qualified name.
    pub closed spec fn pipeline_map(&self) -> Map<Seq<char>, Pipeline> {
        self.pipelines@
    }

    /// Qualified pipeline names in deployment order.
    pub closed spec fn pipeline_order(&self) -> Seq<Seq<char>> {
        self.pipelines.key_seq()
    }

    /// Namespaces by name.
    pub closed spec fn namespace_map(&self) -> Map<Seq<char>, Namespace> {
        self.namespaces@
    }

    /// Namespace names in creation order.
    pub closed spec fn namespace_order(&self) -> Seq<Seq<char>> {
        self.namespaces.key_seq()
    }

    /// The controller's settings.
    pub closed spec fn settings(&self) -> ControllerConfig {
        self.config
    }

    /// Every entry is filed under its own name (a pipeline under `namespace/name`).
    #[verifier::type_invariant]
    closed spec fn keyed_by_name(&self) -> bool {
        &&& forall|k: Seq<char>| #[trigger] self.nodes@.contains_key(k) ==> self.nodes@[k].metadata.name@ == k
        &&& forall|k: Seq<char>|
            #[trigger] self.pipelines@.contains_key(k) ==> k == qualified(
                self.pipelines@[k].metadata.namespace@,
                self.pipelines@[k].metadata.name@,
            )
        &&& forall|k: Seq<char>|
            #[trigger] self.namespaces@.contains_key(k) ==> self.namespaces@[k].metadata.name@ == k
    }

    /// Moves the nodes out, leaving none.
    fn take_nodes(&mut self) -> (m: StrMap<Node>)
        ensures
            m == old(self).nodes,
            final(self).nodes@.len() == 0,
            final(self).pipelines == old(self).pipelines,
            final(self).namespaces == old(self).namespaces,
            final(self).config == old(self).config,
    {
        proof {
            use_type_invariant(&*self);
        }
        let mut m: StrMap<Node> = StrMap::new();
        core::mem::swap(&mut m, &mut self.nodes);
        let _ = self.nodes.len();
        m
    }

    /// Moves the pipelines out, leaving none.
    fn take_pipelines(&mut self) -> (m: StrMap<Pipeline>)
        ensures
            m == old(self).pipelines,
            final(self).pipelines@.len() == 0,
            final(self).nodes == old(self).nodes,
            final(self).namespaces == old(self).namespaces,
            final(self).config == old(self).config,
    {
        proof {
            use_type_invariant(&*self);
        }
        let mut m: StrMap<Pipeline> = StrMap::new();
        core::mem::swap(&mut m, &mut self.pipelines);
        let _ = self.pipelines.len();
        m
    }

    /// Moves the namespaces out, leaving none.
    fn take_namespaces(&mut self) -> (m: StrMap<Namespace>)
        ensures
            m == old(self).namespaces,
            final(self).namespaces@.len() == 0,
            final(self).nodes == old(self).nodes,
            final(self).pipelines == old(self).pipelines,
            final(self).config == old(self).config,
    {
        proof {
            use_type_invariant(&*self);
        }
        let mut m: StrMap<Namespace> = StrMap::new();
        core::mem::swap(&mut m, &mut self.namespaces);
        let _ = self.namespaces.len();
        m
    }

    /// A controller with no nodes or pipelines, the "default" namespace, and these settings.
    pub fn with_config(config: ControllerConfig) -> (c: Self)
        ensures
            c.node_map().len() == 0,
            c.node_order().len() == 0,
            c.pipeline_map().len() == 0,
            c.pipeline_order().len() == 0,
            c.namespace_order() == seq!["default"@],
            c.namespace_map().dom() == set!["default"@],
            c.namespace_map()["default"@].metadata.name@ == "default"@,
            c.settings() == config,
    {
        let mut namespaces: StrMap<Namespace> = StrMap::new();
        let _ = namespaces.insert(to_string("default"), Namespace::default());
        let nodes: StrMap<Node> = StrMap::new();
        let pipelines: StrMap<Pipeline> = StrMap::new();
        let _ = nodes.len();
        let _ = pipelines.len();
        proof {
            assert(namespaces@.dom() =~= set!["default"@]);
            assert(namespaces.key_seq() =~= seq!["default"@]);
        }
        ClusterController { nodes, pipelines, namespaces, config }
    }

    /// A controller with no nodes or pipelines, the "default" namespace, and default settings.
    pub fn new() -> (c: Self)
        ensures
            c.node_map().len() == 0,
            c.pipeline_map().len() == 0,
            c.namespace_map().dom() == set!["default"@],
            c.settings().health_check_interval == 10,
            c.settings().node_heartbeat_timeout == 90,
            c.settings().default_max_pipelines_per_node == 10,
    {
        ClusterController::with_config(ControllerConfig::default())
    }

    // ------------------------------------------------------------------ nodes

    /// Register a new node; a name already registered is refused.
    pub fn register_node(&mut self, node: Node) -> (r: Result<(), ControllerError>)
        ensures
            old(self).node_map().contains_key(node.metadata.name@) ==> (r matches Err(
                ControllerError::NodeExists(s),
            ) && s@ == node.metadata.name@ && final(self).node_map() == old(self).node_map()),
            !old(self).node_map().contains_key(node.metadata.name@) ==> (r is Ok && final(self).node_map()
                == old(self).node_map().insert(node.metadata.name@, node)),
            final(self).pipeline_map() == old(self).pipeline_map(),
            final(self).namespace_map() == old(self).namespace_map(),
            final(self).settings() == old(self).settings(),
    {
        proof {
            use_type_invariant(&*self);
        }
        if self.nodes.contains_key(node.metadata.name.as_str()) {
            return Err(ControllerError::NodeExists(node.metadata.name.clone()));
        }
        let name = node.metadata.name.clone();
        let mut nodes = self.take_nodes();
        let _ = nodes.insert(name, node);
        self.nodes = nodes;
        Ok(())
    }

    /// The position of a node, or the error for a missing one.
    fn node_position(&self, name: &str) -> (r: Result<usize, ControllerError>)
        ensures
            match r {
                Ok(i) => i < self.nodes.key_seq().len() && self.nodes.key_seq()[i as int] == name@
                    && self.nodes@.contains_key(name@) && self.nodes.val_seq()[i as int] == self.nodes@[name@],
                Err(e) => !self.nodes@.contains_key(name@) && (e matches ControllerError::NodeNotFound(s) && s@
                    == name@),
            },
    {
        let _ = self.nodes.len();
        match self.nodes.find(name) {
            Some(i) => Ok(i),
            None => Err(ControllerError::NodeNotFound(to_string(name))),
        }
    }

    /// Store a node's new status.
    pub fn update_node_status(&mut self, name: &str, status: NodeStatus) -> (r: Result<(), ControllerError>)
        ensures
            !old(self).node_map().contains_key(name@) ==> (r matches Err(ControllerError::NodeNotFound(s))
                && s@ == name@ && final(self).node_map() == old(self).node_map()),
            old(self).node_map().contains_key(name@) ==> (r is Ok && final(self).node_map() == old(self).node_map().insert(name@, with_status(old(self).node_map()[name@], status))),
            final(self).pipeline_map() == old(self).pipeline_map(),
            final(self).namespace_map() == old(self).namespace_map(),
            final(self).settings() == old(self).settings(),
    {
        proof {
            use_type_invariant(&*self);
        }
        let i = match self.node_position(name) {
            Ok(i) => i,
            Err(e) => return Err(e),
        };
        let mut nodes = self.take_nodes();
        nodes.update_at(
            i,
            (move |n: Node| -> (m: Node)
                ensures
                    m == with_status(n, status),
                {
                    let mut m = n;
                    m.status = Some(status);
                    m
                }),
        );
        self.nodes = nodes;
        Ok(())
    }

    /// Unregister a node and return it.
    pub fn unregister_node(&mut self, name: &str) -> (r: Result<Node, ControllerError>)
        ensures
            match r {
                Ok(n) => old(self).node_map().contains_key(name@) && n == old(self).node_map()[name@]
                    && final(self).node_map() == old(self).node_map().remove(name@),
                Err(e) => !old(self).node_map().contains_key(name@) && (e matches ControllerError::NodeNotFound(
                    s,
                ) && s@ == name@) && final(self).node_map() == old(self).node_map(),
            },
            final(self).pipeline_map() == old(self).pipeline_map(),
            final(self).namespace_map() == old(self).namespace_map(),
            final(self).settings() == old(self).settings(),
    {
        proof {
            use_type_invariant(&*self);
        }
        let mut nodes = self.take_nodes();
        let r = nodes.remove(name);
        self.nodes = nodes;
        match r {
            Some(n) => Ok(n),
            None => Err(ControllerError::NodeNotFound(to_string(name))),
        }
    }

    /// Get a node by name
    pub fn get_node(&self, name: &str) -> (r: Option<&Node>)
        ensures
            match r {
                Some(n) => self.node_map().contains_key(name@) && *n == self.node_map()[name@]
                    && n.metadata.name@ == name@,
                None => !self.node_map().contains_key(name@),
            },
    {
        proof {
            use_type_invariant(self);
        }
        self.nodes.get(name)
    }

    /// The registered nodes that pass `keep`, in registration order.
    fn nodes_where(&self, selector: &StrMap<String>, placeable_only: bool) -> (r: Vec<&Node>)
        ensures
            deref_seq(r@) == in_order(self.node_order(), self.node_map()).filter(node_filter(selector@, placeable_only)),
    {
        let ghost f = node_filter(selector@, placeable_only);
        let ghost all = in_order(self.node_order(), self.node_map());
        let n = self.nodes.len();
        let mut out: Vec<&Node> = Vec::new();
        for i in 0..n
            invariant
                n == self.nodes.key_seq().len(),
                all == in_order(self.node_order(), self.node_map()),
                f == node_filter(selector@, placeable_only),
                deref_seq(out@) == all.take(i as int).filter(f),
        {
            let node = self.nodes.val_at(i);
            proof {
                let t = all.take(i + 1);
                assert(t.drop_last() =~= all.take(i as int));
                assert(t.last() == *node);
                reveal(Seq::filter);
            }
            let wanted = labels_match(selector, &node.metadata.labels) && (!placeable_only || (node.can_schedule()
                && node.has_capacity()));
            if wanted {
                out.push(node);
            }
            assert(deref_seq(out@) =~= all.take(i + 1).filter(f));
        }
        assert(all.take(n as int) =~= all);
        out
    }

    /// List all nodes, in registration order.
    pub fn list_nodes(&self) -> (r: Vec<&Node>)
        ensures
            deref_seq(r@) == in_order(self.node_order(), self.node_map()),
    {
        let sel: StrMap<String> = StrMap::new();
        let r = self.nodes_where(&sel, false);
        proof {
            let all = in_order(self.node_order(), self.node_map());
            let f = node_filter(sel@, false);
            assert forall|i: int| 0 <= i < all.len() implies f(#[trigger] all[i]) by {
                assert(sel@ == Map::<Seq<char>, String>::empty());
            }
            lemma_filter_keeps_all(all, f);
        }
        r
    }

    /// List nodes whose labels match a selector, in registration order.
    pub fn list_nodes_by_selector(&self, selector: &LabelSelector) -> (r: Vec<&Node>)
        ensures
            deref_seq(r@) == in_order(self.node_order(), self.node_map()).filter(labelled(selector.match_labels@)),
    {
        let r = self.nodes_where(&selector.match_labels, false);
        proof {
            assert(node_filter(selector.match_labels@, false) =~= labelled(selector.match_labels@));
        }
        r
    }

    /// Nodes that can accept new pipelines: schedulable, ready, with room.
    pub fn get_schedulable_nodes(&self) -> (r: Vec<&Node>)
        ensures
            deref_seq(r@) == in_order(self.node_order(), self.node_map()).filter(schedulable()),
    {
        let sel: StrMap<String> = StrMap::new();
        let r = self.nodes_where(&sel, true);
        proof {
            assert(sel@ == Map::<Seq<char>, String>::empty());
            assert(node_filter(sel@, true) =~= schedulable());
        }
        r
    }

    /// The nodes a pipeline's replicas can go to: those its node selector matches
    /// (all, when it selects nothing) that are schedulable, ready and have room.
    pub fn placement_candidates(&self, pipeline: &Pipeline) -> (r: Vec<&Node>)
        ensures
            deref_seq(r@) == in_order(self.node_order(), self.node_map()).filter(
                placeable(pipeline.spec.node_selector@),
            ),
    {
        let r = self.nodes_where(&pipeline.spec.node_selector, true);
        proof {
            assert(node_filter(pipeline.spec.node_selector@, true) =~= placeable(pipeline.spec.node_selector@));
        }
        r
    }

    /// Set whether a node accepts new pipelines.
    fn set_schedulable(&mut self, name: &str, schedulable: bool) -> (r: Result<(), ControllerError>)
        ensures
            !old(self).node_map().contains_key(name@) ==> (r matches Err(ControllerError::NodeNotFound(s))
                && s@ == name@ && final(self).node_map() == old(self).node_map()),
            old(self).node_map().contains_key(name@) ==> (r is Ok && final(self).node_map() == old(self).node_map().insert(name@, with_schedulable(old(self).node_map()[name@], schedulable))),
            final(self).node_order() == old(self).node_order(),
            final(self).pipeline_map() == old(self).pipeline_map(),
            final(self).namespace_map() == old(self).namespace_map(),
            final(self).settings() == old(self).settings(),
    {
        proof {
            use_type_invariant(&*self);
        }
        let i = match self.node_position(name) {
            Ok(i) => i,
            Err(e) => return Err(e),
        };
        let mut nodes = self.take_nodes();
        nodes.update_at(
            i,
            (move |n: Node| -> (m: Node)
                ensures
                    m == with_schedulable(n, schedulable),
                {
                    let mut m = n;
                    m.spec.schedulable = schedulable;
                    m
                }),
        );
        self.nodes = nodes;
        Ok(())
    }

    /// Cordon a node (mark unschedulable)
    pub fn cordon_node(&mut self, name: &str) -> (r: Result<(), ControllerError>)
        ensures
            !old(self).node_map().contains_key(name@) ==> (r matches Err(ControllerError::NodeNotFound(s))
                && s@ == name@ && final(self).node_map() == old(self).node_map()),
            old(self).node_map().contains_key(name@) ==> (r is Ok && final(self).node_map() == old(self).node_map().insert(name@, with_schedulable(old(self).node_map()[name@], false))),
            final(self).pipeline_map() == old(self).pipeline_map(),
            final(self).namespace_map() == old(self).namespace_map(),
            final(self).settings() == old(self).settings(),
    {
        self.set_schedulable(name, false)
    }

    /// Uncordon a node (mark schedulable)
    pub fn uncordon_node(&mut self, name: &str) -> (r: Result<(), ControllerError>)
        ensures
            !old(self).node_map().contains_key(name@) ==> (r matches Err(ControllerError::NodeNotFound(s))
                && s@ == name@ && final(self).node_map() == old(self).node_map()),
            old(self).node_map().contains_key(name@) ==> (r is Ok && final(self).node_map() == old(self).node_map().insert(name@, with_schedulable(old(self).node_map()[name@], true))),
            final(self).pipeline_map() == old(self).pipeline_map(),
            final(self).namespace_map() == old(self).namespace_map(),
            final(self).settings() == old(self).settings(),
    {
        self.set_schedulable(name, true)
    }

    /// Mark every node whose last heartbeat is older than the heartbeat timeout (at time
    /// `now`) as Unknown.
    pub fn check_node_health(&mut self, now: i64)
        ensures
            final(self).node_map() == old(self).node_map().map_values(
                |n: Node| health_checked(n, old(self).settings().node_heartbeat_timeout, now),
            ),
            final(self).node_order() == old(self).node_order(),
            final(self).pipeline_map() == old(self).pipeline_map(),
            final(self).namespace_map() == old(self).namespace_map(),
            final(self).settings() == old(self).settings(),
    {
        proof {
            use_type_invariant(&*self);
        }
        let threshold = self.config.node_heartbeat_timeout;
        let mut nodes = self.take_nodes();
        let n = nodes.len();
        let ghost start = nodes;
        for i in 0..n
            invariant
                n == start.key_seq().len(),
                nodes.key_seq() == start.key_seq(),
                nodes.val_seq().len() == n,
                start.val_seq().len() == n,
                forall|j: int| 0 <= j < i ==> #[trigger] nodes.val_seq()[j] == health_checked(start.val_seq()[j], threshold, now),
                forall|j: int| i <= j < n ==> #[trigger] nodes.val_seq()[j] == start.val_seq()[j],
                forall|k: Seq<char>| #[trigger] nodes@.contains_key(k) == start@.contains_key(k),
        {
            let _ = nodes.len();
            nodes.update_at(
                i,
                (move |node: Node| -> (m: Node)
                    ensures
                        m == health_checked(node, threshold, now),
                    {
                        let mut m = node;
                        let stale = match &m.status {
                            Some(st) => st.is_stale(threshold, now),
                            None => false,
                        };
                        if stale {
                            match m.status {
                                Some(st) => {
                                    m.status = Some(NodeStatus { phase: NodePhase::Unknown, ..st });
                                },
                                None => {},
                            }
                        }
                        m
                    }),
            );
        }
        let _ = nodes.len();
        proof {
            let want = start@.map_values(|nd: Node| health_checked(nd, threshold, now));
            assert forall|k: Seq<char>| #[trigger] nodes@.contains_key(k) implies nodes@[k] == want[k] by {
                let ks = start.key_seq();
                assert(ks.to_set().contains(k));
                let j = choose|j: int| 0 <= j < ks.len() && ks[j] == k;
                assert(nodes@[ks[j]] == nodes.val_seq()[j]);
                assert(start@[ks[j]] == start.val_seq()[j]);
            }
            assert(nodes@ =~= want);
        }
        self.nodes = nodes;
    }

    /// Track pipeline `namespace/name` on a node, at `port`; a node without a status first
    /// gets the status of a fresh node at `now` (default capacity, `system` information).
    pub fn add_pipeline_to_node(
        &mut self,
        node_name: &str,
        namespace: &str,
        name: &str,
        port: u16,
        system: NodeInfo,
        now: i64,
    ) -> (r: Result<(), ControllerError>)
        ensures
            !old(self).node_map().contains_key(node_name@) ==> (r matches Err(ControllerError::NodeNotFound(s))
                && s@ == node_name@ && final(self).node_map() == old(self).node_map()),
            old(self).node_map().contains_key(node_name@) ==> {
                &&& r is Ok
                &&& final(self).node_map().dom() == old(self).node_map().dom()
                &&& forall|k: Seq<char>| #[trigger] final(self).node_map().contains_key(k) && k != node_name@
                    ==> final(self).node_map()[k] == old(self).node_map()[k]
                &&& tracks_pipeline(
                    old(self).node_map()[node_name@],
                    final(self).node_map()[node_name@],
                    namespace@,
                    name@,
                    port,
                    system,
                    now,
                )
            },
            final(self).pipeline_map() == old(self).pipeline_map(),
            final(self).namespace_map() == old(self).namespace_map(),
            final(self).settings() == old(self).settings(),
    {
        proof {
            use_type_invariant(&*self);
        }
        let i = match self.node_position(node_name) {
            Ok(i) => i,
            Err(e) => return Err(e),
        };
        let ns = to_string(namespace);
        let nm = to_string(name);
        let mut nodes = self.take_nodes();
        nodes.update_at(
            i,
            (move |node: Node| -> (m: Node)
                ensures
                    tracks_pipeline(node, m, ns@, nm@, port, system, now),
                {
                    track_pipeline(node, ns, nm, port, system, now)
                }),
        );
        let _ = nodes.len();
        proof {
            assert(nodes@.dom() =~= old(self).nodes@.dom());
        }
        self.nodes = nodes;
        Ok(())
    }

    /// Stop tracking pipeline `namespace/name` on a node.
    pub fn remove_pipeline_from_node(&mut self, node_name: &str, namespace: &str, name: &str) -> (r: Result<
        (),
        ControllerError,
    >)
        ensures
            !old(self).node_map().contains_key(node_name@) ==> (r matches Err(ControllerError::NodeNotFound(s))
                && s@ == node_name@ && final(self).node_map() == old(self).node_map()),
            old(self).node_map().contains_key(node_name@) ==> (r is Ok && final(self).node_map() == old(self).node_map().insert(node_name@, final(self).node_map()[node_name@]) && untracks_pipeline(
                old(self).node_map()[node_name@],
                final(self).node_map()[node_name@],
                namespace@,
                name@,
            )),
            final(self).pipeline_map() == old(self).pipeline_map(),
            final(self).namespace_map() == old(self).namespace_map(),
            final(self).settings() == old(self).settings(),
    {
        proof {
            use_type_invariant(&*self);
        }
        let i = match self.node_position(node_name) {
            Ok(i) => i,
            Err(e) => return Err(e),
        };
        let ns = to_string(namespace);
        let nm = to_string(name);
        let mut nodes = self.take_nodes();
        nodes.update_at(
            i,
            (move |node: Node| -> (m: Node)
                ensures
                    untracks_pipeline(node, m, ns@, nm@),
                {
                    untrack_pipeline(node, ns, nm)
                }),
        );
        self.nodes = nodes;
        Ok(())
    }

    // ------------------------------------------------------------- namespaces

    /// Create a namespace; one that exists already is left as it is.
    pub fn create_namespace(&mut self, ns: Namespace) -> (r: Result<(), ControllerError>)
        ensures
            r is Ok,
            old(self).namespace_map().contains_key(ns.metadata.name@) ==> final(self).namespace_map() == old(self).namespace_map(),
            !old(self).namespace_map().contains_key(ns.metadata.name@) ==> final(self).namespace_map() == old(self).namespace_map().insert(ns.metadata.name@, ns),
            final(self).node_map() == old(self).node_map(),
            final(self).pipeline_map() == old(self).pipeline_map(),
            final(self).settings() == old(self).settings(),
    {
        proof {
            use_type_invariant(&*self);
        }
        if self.namespaces.contains_key(ns.metadata.name.as_str()) {
            return Ok(());
        }
        let key = ns.metadata.name.clone();
        let mut namespaces = self.take_namespaces();
        let _ = namespaces.insert(key, ns);
        self.namespaces = namespaces;
        Ok(())
    }

    /// List all namespaces, in creation order.
    pub fn list_namespaces(&self) -> (r: Vec<&Namespace>)
        ensures
            deref_seq(r@) == in_order(self.namespace_order(), self.namespace_map()),
    {
        let n = self.namespaces.len();
        let ghost all = in_order(self.namespace_order(), self.namespace_map());
        let mut out: Vec<&Namespace> = Vec::new();
        for i in 0..n
            invariant
                n == self.namespaces.key_seq().len(),
                all == in_order(self.namespace_order(), self.namespace_map()),
                deref_seq(out@) == all.take(i as int),
                out@.len() == i,
        {
            out.push(self.namespaces.val_at(i));
            assert(deref_seq(out@) =~= all.take(i + 1));
        }
        assert(all.take(n as int) =~= all);
        out
    }

    // -------------------------------------------------------------- pipelines

    /// Deploy a pipeline: its namespace is created if missing; a pipeline of the same
    /// name in the namespace is refused; otherwise it is stored with an initial status,
    /// and a copy of what was stored is returned.
    pub fn deploy_pipeline(&mut self, pipeline: Pipeline) -> (r: Result<Pipeline, ControllerError>)
        ensures
            ({
                let ns = pipeline.metadata.namespace@;
                let qn = qualified(ns, pipeline.metadata.name@);
                &&& final(self).namespace_map().contains_key(ns)
                &&& (old(self).namespace_map().contains_key(ns) ==> final(self).namespace_map() == old(self).namespace_map())
                &&& (!old(self).namespace_map().contains_key(ns) ==> final(self).namespace_map().dom()
                    == old(self).namespace_map().dom().insert(ns))
                &&& if old(self).pipeline_map().contains_key(qn) {
                    &&& r matches Err(ControllerError::PipelineExists(a, b))
                    &&& a@ == pipeline.metadata.name@
                    &&& b@ == ns
                    &&& final(self).pipeline_map() == old(self).pipeline_map()
                } else {
                    &&& final(self).pipeline_map().dom() == old(self).pipeline_map().dom().insert(qn)
                    &&& forall|k: Seq<char>| #[trigger] old(self).pipeline_map().contains_key(k) ==> final(self).pipeline_map()[k] == old(self).pipeline_map()[k]
                    &&& initialized(pipeline, final(self).pipeline_map()[qn])
                    &&& r matches Ok(p) && cloned::<Pipeline>(final(self).pipeline_map()[qn], p)
                }
            }),
            final(self).node_map() == old(self).node_map(),
            final(self).settings() == old(self).settings(),
    {
        proof {
            use_type_invariant(&*self);
        }
        let qn = pipeline.qualified_name();
        if !self.namespaces.contains_key(pipeline.metadata.namespace.as_str()) {
            let _ = self.create_namespace(Namespace::new(pipeline.metadata.namespace.as_str()));
        }
        if self.pipelines.contains_key(qn.as_str()) {
            return Err(
                ControllerError::PipelineExists(
                    pipeline.metadata.name.clone(),
                    pipeline.metadata.namespace.clone(),
                ),
            );
        }
        let mut p = pipeline;
        p.status = Some(PipelineStatus::initial());
        let mut pipelines = self.take_pipelines();
        let _ = pipelines.insert(qn.clone(), p);
        self.pipelines = pipelines;
        let stored = self.pipelines.get(qn.as_str());
        match stored {
            Some(sp) => Ok(sp.clone()),
            None => Err(ControllerError::InternalError(qn)),
        }
    }

    /// Replace a deployed pipeline; one not deployed is refused.
    pub fn update_pipeline(&mut self, pipeline: Pipeline) -> (r: Result<Pipeline, ControllerError>)
        ensures
            ({
                let qn = qualified(pipeline.metadata.namespace@, pipeline.metadata.name@);
                if !old(self).pipeline_map().contains_key(qn) {
                    &&& r matches Err(ControllerError::PipelineNotFound(a, b))
                    &&& a@ == pipeline.metadata.name@
                    &&& b@ == pipeline.metadata.namespace@
                    &&& final(self).pipeline_map() == old(self).pipeline_map()
                } else {
                    &&& final(self).pipeline_map() == old(self).pipeline_map().insert(qn, pipeline)
                    &&& r matches Ok(p) && cloned::<Pipeline>(pipeline, p)
                }
            }),
            final(self).node_map() == old(self).node_map(),
            final(self).namespace_map() == old(self).namespace_map(),
            final(self).settings() == old(self).settings(),
    {
        proof {
            use_type_invariant(&*self);
        }
        let qn = pipeline.qualified_name();
        if !self.pipelines.contains_key(qn.as_str()) {
            return Err(
                ControllerError::PipelineNotFound(
                    pipeline.metadata.name.clone(),
                    pipeline.metadata.namespace.clone(),
                ),
            );
        }
        let copy = pipeline.clone();
        let mut pipelines = self.take_pipelines();
        let _ = pipelines.insert(qn, pipeline);
        self.pipelines = pipelines;
        Ok(copy)
    }

    /// `namespace/name` as a `String`.
    fn qualified_key(namespace: &str, name: &str) -> (s: String)
        ensures
            s@ == qualified(namespace@, name@),
    {
        let mut v: Vec<char> = Vec::new();
        push_str(&mut v, namespace);
        push_str(&mut v, "/");
        push_str(&mut v, name);
        string_of(&v)
    }

    /// Delete a pipeline and return it.
    pub fn delete_pipeline(&mut self, namespace: &str, name: &str) -> (r: Result<Pipeline, ControllerError>)
        ensures
            ({
                let qn = qualified(namespace@, name@);
                match r {
                    Ok(p) => old(self).pipeline_map().contains_key(qn) && p == old(self).pipeline_map()[qn]
                        && final(self).pipeline_map() == old(self).pipeline_map().remove(qn),
                    Err(e) => !old(self).pipeline_map().contains_key(qn) && (e matches ControllerError::PipelineNotFound(
                        a,
                        b,
                    ) && a@ == name@ && b@ == namespace@) && final(self).pipeline_map() == old(self).pipeline_map(),
                }
            }),
            final(self).node_map() == old(self).node_map(),
            final(self).namespace_map() == old(self).namespace_map(),
            final(self).settings() == old(self).settings(),
    {
        proof {
            use_type_invariant(&*self);
        }
        let qn = ClusterController::qualified_key(namespace, name);
        let mut pipelines = self.take_pipelines();
        let r = pipelines.remove(qn.as_str());
        self.pipelines = pipelines;
        match r {
            Some(p) => Ok(p),
            None => Err(ControllerError::PipelineNotFound(to_string(name), to_string(namespace))),
        }
    }

    /// Get a pipeline by namespace and name.
    pub fn get_pipeline(&self, namespace: &str, name: &str) -> (r: Option<&Pipeline>)
        ensures
            match r {
                Some(p) => self.pipeline_map().contains_key(qualified(namespace@, name@)) && *p
                    == self.pipeline_map()[qualified(namespace@, name@)] && qualified(
                    p.metadata.namespace@,
                    p.metadata.name@,
                ) == qualified(namespace@, name@),
                None => !self.pipeline_map().contains_key(qualified(namespace@, name@)),
            },
    {
        proof {
            use_type_invariant(self);
        }
        let qn = ClusterController::qualified_key(namespace, name);
        self.pipelines.get(qn.as_str())
    }

    /// List the pipelines of a namespace (those filed under `namespace/`), in deployment order.
    pub fn list_pipelines(&self, namespace: &str) -> (r: Vec<&Pipeline>)
        ensures
            deref_seq(r@) == in_order(self.pipeline_order(), self.pipeline_map()).filter(
                in_namespace(namespace@),
            ),
    {
        proof {
            use_type_invariant(self);
        }
        let mut pv: Vec<char> = chars_of(namespace);
        push_str(&mut pv, "/");
        let ghost prefix = pv@;
        let ghost f = in_namespace(namespace@);
        let ghost all = in_order(self.pipeline_order(), self.pipeline_map());
        let n = self.pipelines.len();
        let mut out: Vec<&Pipeline> = Vec::new();
        for i in 0..n
            invariant
                n == self.pipelines.key_seq().len(),
                prefix == namespace@ + "/"@,
                pv@ == prefix,
                f == in_namespace(namespace@),
                all == in_order(self.pipeline_order(), self.pipeline_map()),
                forall|k: Seq<char>| #[trigger] self.pipelines@.contains_key(k) ==> k == qualified(
                    self.pipelines@[k].metadata.namespace@,
                    self.pipelines@[k].metadata.name@,
                ),
                forall|j: int| 0 <= j < n ==> self.pipelines@.contains_key(#[trigger] self.pipelines.key_seq()[j]),
                deref_seq(out@) == all.take(i as int).filter(f),
        {
            let k = self.pipelines.key_at(i);
            let p = self.pipelines.val_at(i);
            proof {
                let t = all.take(i + 1);
                assert(t.drop_last() =~= all.take(i as int));
                assert(t.last() == *p);
                assert(self.pipelines@.contains_key(self.pipelines.key_seq()[i as int]));
                reveal(Seq::filter);
            }
            if starts_with_exec(&chars_of(k.as_str()), &pv) {
                out.push(p);
            }
            assert(deref_seq(out@) =~= all.take(i + 1).filter(f));
        }
        assert(all.take(n as int) =~= all);
        out
    }

    /// List all pipelines across all namespaces, in deployment order.
    pub fn list_all_pipelines(&self) -> (r: Vec<&Pipeline>)
        ensures
            deref_seq(r@) == in_order(self.pipeline_order(), self.pipeline_map()),
    {
        let n = self.pipelines.len();
        let ghost all = in_order(self.pipeline_order(), self.pipeline_map());
        let mut out: Vec<&Pipeline> = Vec::new();
        for i in 0..n
            invariant
                n == self.pipelines.key_seq().len(),
                all == in_order(self.pipeline_order(), self.pipeline_map()),
                deref_seq(out@) == all.take(i as int),
                out@.len() == i,
        {
            out.push(self.pipelines.val_at(i));
            assert(deref_seq(out@) =~= all.take(i + 1));
        }
        assert(all.take(n as int) =~= all);
        out
    }

    /// Change a pipeline's number of replicas; returns a copy of the result.
    pub fn scale_pipeline(&mut self, namespace: &str, name: &str, replicas: u32) -> (r: Result<
        Pipeline,
        ControllerError,
    >)
        ensures
            ({
                let qn = qualified(namespace@, name@);
                if !old(self).pipeline_map().contains_key(qn) {
                    &&& r matches Err(ControllerError::PipelineNotFound(a, b))
                    &&& a@ == name@
                    &&& b@ == namespace@
                    &&& final(self).pipeline_map() == old(self).pipeline_map()
                } else {
                    &&& final(self).pipeline_map() == old(self).pipeline_map().insert(
                        qn,
                        with_replicas(old(self).pipeline_map()[qn], replicas),
                    )
                    &&& r matches Ok(p) && cloned::<Pipeline>(final(self).pipeline_map()[qn], p)
                }
            }),
            final(self).node_map() == old(self).node_map(),
            final(self).namespace_map() == old(self).namespace_map(),
            final(self).settings() == old(self).settings(),
    {
        proof {
            use_type_invariant(&*self);
        }
        let qn = ClusterController::qualified_key(namespace, name);
        let _ = self.pipelines.len();
        let i = match self.pipelines.find(qn.as_str()) {
            Some(i) => i,
            None => return Err(ControllerError::PipelineNotFound(to_string(name), to_string(namespace))),
        };
        let mut pipelines = self.take_pipelines();
        pipelines.update_at(
            i,
            (move |p: Pipeline| -> (m: Pipeline)
                ensures
                    m == with_replicas(p, replicas),
                {
                    let mut m = p;
                    m.spec.replicas = replicas;
                    m
                }),
        );
        self.pipelines = pipelines;
        match self.pipelines.get(qn.as_str()) {
            Some(p) => Ok(p.clone()),
            None => Err(ControllerError::InternalError(qn)),
        }
    }

    /// Store a pipeline's observed status.
    pub fn update_pipeline_status(&mut self, namespace: &str, name: &str, status: PipelineStatus) -> (r: Result<
        (),
        ControllerError,
    >)
        ensures
            ({
                let qn = qualified(namespace@, name@);
                if !old(self).pipeline_map().contains_key(qn) {
                    &&& r matches Err(ControllerError::PipelineNotFound(a, b))
                    &&& a@ == name@
                    &&& b@ == namespace@
                    &&& final(self).pipeline_map() == old(self).pipeline_map()
                } else {
                    &&& r is Ok
                    &&& final(self).pipeline_map() == old(self).pipeline_map().insert(
                        qn,
                        with_pipeline_status(old(self).pipeline_map()[qn], status),
                    )
                }
            }),
            final(self).node_map() == old(self).node_map(),
            final(self).namespace_map() == old(self).namespace_map(),
            final(self).settings() == old(self).settings(),
    {
        proof {
            use_type_invariant(&*self);
        }
        let qn = ClusterController::qualified_key(namespace, name);
        let _ = self.pipelines.len();
        let i = match self.pipelines.find(qn.as_str()) {
            Some(i) => i,
            None => return Err(ControllerError::PipelineNotFound(to_string(name), to_string(namespace))),
        };
        let mut pipelines = self.take_pipelines();
        pipelines.update_at(
            i,
            (move |p: Pipeline| -> (m: Pipeline)
                ensures
                    m == with_pipeline_status(p, status),
                {
                    let mut m = p;
                    m.status = Some(status);
                    m
                }),
        );
        self.pipelines = pipelines;
        Ok(())
    }

    // ------------------------------------------------------------------ stats

    /// Cluster statistics: nodes, ready nodes, pipelines, ready pipelines, namespaces.
    pub fn cluster_stats(&self) -> (st: ClusterStats)
        ensures
            st.total_nodes == self.node_map().len(),
            st.ready_nodes == in_order(self.node_order(), self.node_map()).filter(|n: Node| node_ready(n)).len(),
            st.total_pipelines == self.pipeline_map().len(),
            st.ready_pipelines == in_order(self.pipeline_order(), self.pipeline_map()).filter(
                |p: Pipeline| pipeline_ready(p),
            ).len(),
            st.namespaces == self.namespace_map().len(),
    {
        let total_nodes = self.nodes.len();
        let ghost nodes_all = in_order(self.node_order(), self.node_map());
        let ghost fr = |n: Node| node_ready(n);
        let mut ready_nodes: usize = 0;
        for i in 0..total_nodes
            invariant
                total_nodes == self.nodes.key_seq().len(),
                nodes_all == in_order(self.node_order(), self.node_map()),
                fr == (|n: Node| node_ready(n)),
                ready_nodes == nodes_all.take(i as int).filter(fr).len(),
                ready_nodes <= i,
        {
            let node = self.nodes.val_at(i);
            proof {
                let t = nodes_all.take(i + 1);
                assert(t.drop_last() =~= nodes_all.take(i as int));
                assert(t.last() == *node);
                reveal(Seq::filter);
            }
            if node.is_ready() {
                ready_nodes = ready_nodes + 1;
            }
        }
        assert(nodes_all.take(total_nodes as int) =~= nodes_all);
        let total_pipelines = self.pipelines.len();
        let ghost pipes_all = in_order(self.pipeline_order(), self.pipeline_map());
        let ghost fp = |p: Pipeline| pipeline_ready(p);
        let mut ready_pipelines: usize = 0;
        for i in 0..total_pipelines
            invariant
                total_pipelines == self.pipelines.key_seq().len(),
                pipes_all == in_order(self.pipeline_order(), self.pipeline_map()),
                fp == (|p: Pipeline| pipeline_ready(p)),
                ready_pipelines == pipes_all.take(i as int).filter(fp).len(),
                ready_pipelines <= i,
        {
            let p = self.pipelines.val_at(i);
            proof {
                let t = pipes_all.take(i + 1);
                assert(t.drop_last() =~= pipes_all.take(i as int));
                assert(t.last() == *p);
                reveal(Seq::filter);
            }
            if p.is_ready() {
                ready_pipelines = ready_pipelines + 1;
            }
        }
        assert(pipes_all.take(total_pipelines as int) =~= pipes_all);
        let namespaces = self.namespaces.len();
        ClusterStats { total_nodes, ready_nodes, total_pipelines, ready_pipelines, namespaces }
    }

    /// Schedule a pipeline's replicas when no candidate node reports a score: the
    /// candidates (see `placement_candidates`) take the replicas in turn, and the result
    /// maps each node that got any to its number of replicas. No candidate is an error.
    pub fn schedule_replicas(&self, pipeline: &Pipeline) -> (r: Result<StrMap<u32>, ControllerError>)
        ensures
            ({
                let cands = in_order(self.node_order(), self.node_map()).filter(placeable(pipeline.spec.node_selector@));
                if cands.len() == 0 {
                    r matches Err(ControllerError::NoAvailableNodes)
                } else {
                    let names = Seq::new(cands.len(), |i: int| cands[i].metadata.name@);
                    &&& names.no_duplicates()
                    &&& r matches Ok(m)
                    &&& round_robin(names, pipeline.spec.replicas as nat, m@)
                    &&& forall|k: Seq<char>| #[trigger] m@.contains_key(k) ==> m@[k] >= 1
                    &&& forall|k1: Seq<char>, k2: Seq<char>|
                        #[trigger] m@.contains_key(k1) && #[trigger] m@.contains_key(k2) ==> m@[k1] <= m@[k2] + 1
                    &&& placed_upto(names, m@, names.len() as int) == pipeline.spec.replicas
                }
            }),
    {
        proof {
            use_type_invariant(self);
        }
        let _ = self.nodes.len();
        let cands = self.placement_candidates(pipeline);
        if cands.len() == 0 {
            return Err(ControllerError::NoAvailableNodes);
        }
        let mut names: Vec<String> = Vec::new();
        let ghost cs = deref_seq(cands@);
        for i in 0..cands.len()
            invariant
                cs == deref_seq(cands@),
                names@.len() == i,
                forall|j: int| 0 <= j < i ==> (#[trigger] names@[j])@ == cs[j].metadata.name@,
        {
            names.push(cands[i].metadata.name.clone());
        }
        proof {
            let ns = Seq::new(cs.len(), |i: int| cs[i].metadata.name@);
            assert(str_views(names@) =~= ns);
            // Candidates are distinct registered nodes, each filed under its own name.
            let all = in_order(self.node_order(), self.node_map());
            assert(node_names(all) =~= self.nodes.key_seq()) by {
                assert forall|i: int| 0 <= i < all.len() implies #[trigger] node_names(all)[i] == self.nodes.key_seq()[i] by {
                    assert(self.nodes@.contains_key(self.nodes.key_seq()[i]));
                }
            }
            lemma_filter_names_distinct(all, placeable(pipeline.spec.node_selector@));
            assert(node_names(cs) =~= ns);
        }
        let m = round_robin_schedule(&names, pipeline.spec.replicas);
        proof {
            let ns = Seq::new(cs.len(), |i: int| cs[i].metadata.name@);
            lemma_round_robin_balanced(ns, pipeline.spec.replicas as nat, m@);
        }
        Ok(m)
    }

} // impl

} // verus!
