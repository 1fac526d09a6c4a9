//! The pipeline orchestrator's decisions: which pipelines wait for workers, where
//! their replicas go, and what the workers' answers make of a pipeline's status.
//!
//! The caller sends each assignment to its worker and hands back what came of it.
use vstd::prelude::*;

use super::controller::{
    controller_error_text, in_order, round_robin, ClusterController, ControllerError,
};
use super::pipeline::{qualified, Pipeline, PipelineCondition, PipelineStatus};
use crate::config::composition::Composition;
use crate::strmap::StrMap;
use crate::text::{decimal, push_decimal, push_str, string_of};

verus! {

/// Orchestrator configuration
#[derive(Debug, Clone)]
pub struct OrchestratorConfig {
    /// How often to check for pending pipelines (seconds)
    pub reconcile_interval_secs: u64,
    /// Timeout for worker HTTP requests (seconds)
    pub worker_request_timeout_secs: u64,
}

impl Default for OrchestratorConfig {
    fn default() -> (c: Self)
        ensures
            c.reconcile_interval_secs == 5,
            c.worker_request_timeout_secs == 30,
    {
        OrchestratorConfig { reconcile_interval_secs: 5, worker_request_timeout_secs: 30 }
    }
}

/// Assignment sent to a worker node
#[derive(Debug, Clone)]
pub struct PipelineAssignment {
    /// Pipeline namespace
    pub namespace: String,
    /// Pipeline name
    pub name: String,
    /// The composition to run
    pub composition: Composition,
    /// Port to serve the pipeline on
    pub port: u16,
    /// Number of replicas this worker should run
    pub replicas: u32,
}

/// Response from worker after assignment
#[derive(Debug, Clone)]
pub struct AssignmentResponse {
    pub success: bool,
    pub endpoint: Option<String>,
    pub error: Option<String>,
}

/// Why a pipeline could not be scheduled.
#[derive(Debug)]
pub enum ScheduleError {
    /// The controller could not place the replicas.
    Controller(ControllerError),
    /// The placement named no node.
    NoNodes,
    /// A node of the placement is not registered.
    NodeNotFound(String),
    /// No worker accepted its assignment.
    NoWorkerAccepted,
}

/// The text a scheduling error reads as.
pub open spec fn schedule_error_text(e: ScheduleError) -> Seq<char> {
    match e {
        ScheduleError::Controller(c) => controller_error_text(c),
        ScheduleError::NoNodes => "No nodes available for scheduling"@,
        ScheduleError::NodeNotFound(n) => "Node "@ + n@ + " not found"@,
        ScheduleError::NoWorkerAccepted => "No workers successfully accepted the assignment"@,
    }
}

impl ScheduleError {
    /// The text this error reads as.
    pub fn message(&self) -> (s: String)
        ensures
            s@ == schedule_error_text(*self),
    {
        match self {
            ScheduleError::Controller(c) => c.message(),
            ScheduleError::NoNodes => String::from_str("No nodes available for scheduling"),
            ScheduleError::NodeNotFound(n) => {
                let mut v: Vec<char> = Vec::new();
                push_str(&mut v, "Node ");
                push_str(&mut v, n.as_str());
                push_str(&mut v, " not found");
                string_of(&v)
            },
            ScheduleError::NoWorkerAccepted => String::from_str(
                "No workers successfully accepted the assignment",
            ),
        }
    }
}

/// A pipeline waits for scheduling while no replica runs: it has no status yet,
/// or a status with no replicas and none ready.
pub open spec fn needs_scheduling(p: Pipeline) -> bool {
    match p.status {
        Some(s) => s.replicas == 0 && s.ready_replicas == 0,
        None => true,
    }
}

/// Whether a pipeline waits for scheduling.
pub fn pipeline_needs_scheduling(p: &Pipeline) -> (b: bool)
    ensures
        b == needs_scheduling(*p),
{
    match &p.status {
        Some(s) => s.replicas == 0 && s.ready_replicas == 0,
        None => true,
    }
}

/// The namespaces and names of the pipelines that wait for scheduling, in order.
pub open spec fn pending_names(ps: Seq<Pipeline>) -> Seq<(Seq<char>, Seq<char>)>
    decreases ps.len(),
{
    if ps.len() == 0 {
        seq![]
    } else {
        pending_names(ps.drop_last()) + if needs_scheduling(ps.last()) {
            seq![(ps.last().metadata.namespace@, ps.last().metadata.name@)]
        } else {
            seq![]
        }
    }
}

/// The views of a list of name pairs.
pub open spec fn name_pairs(s: Seq<(String, String)>) -> Seq<(Seq<char>, Seq<char>)> {
    Seq::new(s.len(), |i: int| (s[i].0@, s[i].1@))
}

/// The pipelines that wait for scheduling, in deployment order, by namespace and name.
pub fn pending_pipelines(controller: &ClusterController) -> (r: Vec<(String, String)>)
    ensures
        name_pairs(r@) == pending_names(in_order(controller.pipeline_order(), controller.pipeline_map())),
{
    let all = controller.list_all_pipelines();
    let ghost ps = in_order(controller.pipeline_order(), controller.pipeline_map());
    let mut out: Vec<(String, String)> = Vec::new();
    let n = all.len();
    for i in 0..n
        invariant
            n == all@.len(),
            n == ps.len(),
            forall|j: int| 0 <= j < n ==> *#[trigger] all@[j] == ps[j],
            name_pairs(out@) == pending_names(ps.take(i as int)),
    {
        let p = all[i];
        proof {
            let t = ps.take(i + 1);
            assert(t.drop_last() =~= ps.take(i as int));
            assert(t.last() == *p);
        }
        if pipeline_needs_scheduling(p) {
            let ghost before = out@;
            out.push((p.metadata.namespace.clone(), p.metadata.name.clone()));
            assert(name_pairs(out@) =~= name_pairs(before).push((p.metadata.namespace@, p.metadata.name@)));
        }
        assert(name_pairs(out@) =~= pending_names(ps.take(i + 1)));
    }
    proof {
        assert(ps.take(n as int) =~= ps);
        assert(forall|j: int| 0 <= j < n ==> *#[trigger] all@[j] == ps[j]);
    }
    out
}

/// Where a worker takes assignments.
pub open spec fn assignment_url(address: Seq<char>, port: u16) -> Seq<char> {
    "http://"@ + address + ":"@ + decimal(port as nat) + "/v1/assignments"@
}

/// One worker's share of a pipeline: the node, where to send the assignment, and
/// how many replicas it runs.
#[derive(Debug, Clone)]
pub struct WorkerDispatch {
    pub node_name: String,
    pub url: String,
    pub replicas: u32,
}

/// The view of a dispatch.
pub open spec fn dispatch_view(d: WorkerDispatch) -> (Seq<char>, Seq<char>, u32) {
    (d.node_name@, d.url@, d.replicas)
}

/// The dispatches for the first `n` entries of a placement: each node's assignment
/// URL, or the first node that is not registered.
pub open spec fn plan_from(
    keys: Seq<Seq<char>>,
    counts: Seq<u32>,
    nodes: Map<Seq<char>, super::node::Node>,
    n: nat,
) -> Result<Seq<(Seq<char>, Seq<char>, u32)>, Seq<char>>
    decreases n,
{
    if n == 0 || n > keys.len() || n > counts.len() {
        Ok(seq![])
    } else {
        match plan_from(keys, counts, nodes, (n - 1) as nat) {
            Err(e) => Err(e),
            Ok(ds) => {
                let k = keys[n - 1];
                if nodes.contains_key(k) {
                    Ok(
                        ds.push(
                            (k, assignment_url(nodes[k].spec.address@, nodes[k].spec.port), counts[n - 1]),
                        ),
                    )
                } else {
                    Err(k)
                }
            },
        }
    }
}

/// The dispatches of a placement, in its order: one per node, with the node's
/// assignment URL and replica count.
pub fn plan_dispatches(controller: &ClusterController, placement: &StrMap<u32>) -> (r: Result<
    Vec<WorkerDispatch>,
    ScheduleError,
>)
    ensures
        match plan_from(
            placement.key_seq(),
            placement.val_seq(),
            controller.node_map(),
            placement.key_seq().len(),
        ) {
            Ok(ds) => r matches Ok(v) && v@.map_values(|d: WorkerDispatch| dispatch_view(d)) == ds,
            Err(k) => r matches Err(ScheduleError::NodeNotFound(m)) && m@ == k,
        },
{
    let n = placement.len();
    let mut out: Vec<WorkerDispatch> = Vec::new();
    let ghost ks = placement.key_seq();
    let ghost cs = placement.val_seq();
    assert(out@.map_values(|d: WorkerDispatch| dispatch_view(d)) =~= Seq::<(Seq<char>, Seq<char>, u32)>::empty());
    for i in 0..n
        invariant
            n == ks.len(),
            n == cs.len(),
            ks == placement.key_seq(),
            cs == placement.val_seq(),
            plan_from(ks, cs, controller.node_map(), i as nat) == Ok::<
                Seq<(Seq<char>, Seq<char>, u32)>,
                Seq<char>,
            >(out@.map_values(|d: WorkerDispatch| dispatch_view(d))),
    {
        let k = placement.key_at(i);
        let c = *placement.val_at(i);
        match controller.get_node(k.as_str()) {
            Some(node) => {
                let mut u: Vec<char> = Vec::new();
                push_str(&mut u, "http://");
                push_str(&mut u, node.spec.address.as_str());
                push_str(&mut u, ":");
                push_decimal(&mut u, node.spec.port as u64);
                push_str(&mut u, "/v1/assignments");
                let ghost before = out@;
                out.push(WorkerDispatch { node_name: k.clone(), url: string_of(&u), replicas: c });
                assert(out@.map_values(|d: WorkerDispatch| dispatch_view(d)) =~= before.map_values(
                    |d: WorkerDispatch| dispatch_view(d),
                ).push((ks[i as int], assignment_url(node.spec.address@, node.spec.port), cs[i as int])));
            },
            None => {
                proof {
                    lemma_plan_error_stays(ks, cs, controller.node_map(), (i + 1) as nat, n as nat);
                }
                return Err(ScheduleError::NodeNotFound(k.clone()));
            },
        }
    }
    Ok(out)
}

/// Once planning stops at a missing node, later entries change nothing.
proof fn lemma_plan_error_stays(
    keys: Seq<Seq<char>>,
    counts: Seq<u32>,
    nodes: Map<Seq<char>, super::node::Node>,
    i: nat,
    n: nat,
)
    requires
        0 < i <= n <= keys.len(),
        n <= counts.len(),
        plan_from(keys, counts, nodes, i) is Err,
    ensures
        plan_from(keys, counts, nodes, n) == plan_from(keys, counts, nodes, i),
    decreases n - i,
{
    if i < n {
        lemma_plan_error_stays(keys, counts, nodes, i, (n - 1) as nat);
    }
}

/// The assignment of `replicas` replicas of a pipeline: its namespace, name and
/// port, with a copy of its composition.
pub fn assignment_for(pipeline: &Pipeline, replicas: u32) -> (a: PipelineAssignment)
    ensures
        a.namespace@ == pipeline.metadata.namespace@,
        a.name@ == pipeline.metadata.name@,
        cloned(pipeline.spec.composition, a.composition),
        a.port == pipeline.spec.port,
        a.replicas == replicas,
{
    PipelineAssignment {
        namespace: pipeline.metadata.namespace.clone(),
        name: pipeline.metadata.name.clone(),
        composition: pipeline.spec.composition.clone(),
        port: pipeline.spec.port,
        replicas,
    }
}

/// Where the replicas of a pipeline go: the controller's placement, one dispatch
/// per node, in an order the placement chooses.
pub fn schedule_pipeline(controller: &ClusterController, pipeline: &Pipeline) -> (r: Result<
    Vec<WorkerDispatch>,
    ScheduleError,
>)
    ensures
        ({
            let cands = in_order(controller.node_order(), controller.node_map()).filter(
                super::controller::placeable(pipeline.spec.node_selector@),
            );
            let names = Seq::new(cands.len(), |i: int| cands[i].metadata.name@);
            if cands.len() == 0 {
                r matches Err(ScheduleError::Controller(ControllerError::NoAvailableNodes))
            } else {
                exists|m: StrMap<u32>|
                    round_robin(names, pipeline.spec.replicas as nat, m@) && if m.key_seq().len() == 0 {
                        r matches Err(ScheduleError::NoNodes)
                    } else {
                        match plan_from(m.key_seq(), m.val_seq(), controller.node_map(), m.key_seq().len()) {
                            Ok(ds) => r matches Ok(v) && v@.map_values(|d: WorkerDispatch| dispatch_view(d))
                                == ds,
                            Err(k) => r matches Err(ScheduleError::NodeNotFound(x)) && x@ == k,
                        }
                    }
            }
        }),
{
    match controller.schedule_replicas(pipeline) {
        Err(e) => Err(ScheduleError::Controller(e)),
        Ok(m) => {
            if m.len() == 0 {
                return Err(ScheduleError::NoNodes);
            }
            plan_dispatches(controller, &m)
        },
    }
}

/// The endpoint a worker's answer gives: the one it reports when it accepted.
pub fn accepted_endpoint(response: &AssignmentResponse) -> (e: Option<String>)
    ensures
        e == (if response.success { response.endpoint } else { None }),
{
    if response.success {
        match &response.endpoint {
            Some(x) => Some(x.clone()),
            None => None,
        }
    } else {
        None
    }
}

/// The outcome of sending the assignments: the endpoints the workers reported, or
/// a failure when there is none.
pub fn scheduling_outcome(endpoints: Vec<String>) -> (r: Result<Vec<String>, ScheduleError>)
    ensures
        endpoints@.len() == 0 ==> r matches Err(ScheduleError::NoWorkerAccepted),
        endpoints@.len() > 0 ==> r == Ok::<Vec<String>, ScheduleError>(endpoints),
{
    if endpoints.len() == 0 {
        Err(ScheduleError::NoWorkerAccepted)
    } else {
        Ok(endpoints)
    }
}

/// A copy of a pipeline status.
pub fn copy_status(s: &PipelineStatus) -> (r: PipelineStatus)
    ensures
        r.replicas == s.replicas,
        r.ready_replicas == s.ready_replicas,
        r.available_replicas == s.available_replicas,
        r.unavailable_replicas == s.unavailable_replicas,
        r.observed_generation == s.observed_generation,
        r.conditions@ == s.conditions@,
        r.endpoints@ == s.endpoints@,
{
    let mut conditions: Vec<PipelineCondition> = Vec::new();
    let n = s.conditions.len();
    for i in 0..n
        invariant
            n == s.conditions@.len(),
            conditions@ == s.conditions@.take(i as int),
    {
        let c = &s.conditions[i];
        conditions.push(
            PipelineCondition {
                condition_type: c.condition_type.clone(),
                status: c.status.clone(),
                last_update_time: c.last_update_time,
                last_transition_time: c.last_transition_time,
                reason: c.reason.clone(),
                message: c.message.clone(),
            },
        );
        assert(conditions@ =~= s.conditions@.take(i + 1));
    }
    let mut endpoints: Vec<String> = Vec::new();
    let m = s.endpoints.len();
    for i in 0..m
        invariant
            m == s.endpoints@.len(),
            endpoints@ == s.endpoints@.take(i as int),
    {
        endpoints.push(s.endpoints[i].clone());
        assert(endpoints@ =~= s.endpoints@.take(i + 1));
    }
    assert(conditions@ =~= s.conditions@);
    assert(endpoints@ =~= s.endpoints@);
    PipelineStatus {
        replicas: s.replicas,
        ready_replicas: s.ready_replicas,
        available_replicas: s.available_replicas,
        unavailable_replicas: s.unavailable_replicas,
        observed_generation: s.observed_generation,
        conditions,
        endpoints,
    }
}

/// The new status's `Scheduled` condition: `True` with the replica count on
/// success, `False` with the error's text on failure.
pub open spec fn scheduled_condition(c: PipelineCondition, replicas: u32, outcome_error: Option<Seq<char>>, now: i64) -> bool {
    &&& c.condition_type@ == "Scheduled"@
    &&& c.last_update_time == now
    &&& c.last_transition_time == now
    &&& match outcome_error {
        None => c.status@ == "True"@ && c.reason@ == "ReplicasScheduled"@ && c.message@ == decimal(
            replicas as nat,
        ) + " replica(s) scheduled to workers"@,
        Some(m) => c.status@ == "False"@ && c.reason@ == "SchedulingFailed"@ && c.message@ == m,
    }
}

/// What the status of `pipeline` becomes after a scheduling outcome.
pub open spec fn status_after(
    pipeline: Pipeline,
    s: PipelineStatus,
    outcome_error: Option<Seq<char>>,
    endpoints: Seq<String>,
    now: i64,
) -> bool {
    let before = match pipeline.status {
        Some(b) => b,
        None => PipelineStatus {
            replicas: 0,
            ready_replicas: 0,
            available_replicas: 0,
            unavailable_replicas: 0,
            observed_generation: 0,
            conditions: s.conditions,
            endpoints: s.endpoints,
        },
    };
    let before_conditions = match pipeline.status {
        Some(b) => b.conditions@,
        None => Seq::<PipelineCondition>::empty(),
    };
    let before_endpoints = match pipeline.status {
        Some(b) => b.endpoints@,
        None => Seq::<String>::empty(),
    };
    &&& s.ready_replicas == before.ready_replicas
    &&& s.available_replicas == before.available_replicas
    &&& s.unavailable_replicas == before.unavailable_replicas
    &&& s.observed_generation == before.observed_generation
    &&& s.conditions@.len() == before_conditions.len() + 1
    &&& s.conditions@.take(before_conditions.len() as int) == before_conditions
    &&& scheduled_condition(s.conditions@.last(), pipeline.spec.replicas, outcome_error, now)
    &&& match outcome_error {
        None => s.replicas == pipeline.spec.replicas && s.endpoints@ == endpoints,
        Some(_) => s.replicas == before.replicas && s.endpoints@ == before_endpoints,
    }
}

/// The status a pipeline gets from a scheduling outcome.
pub fn status_for_outcome(pipeline: &Pipeline, outcome: &Result<Vec<String>, ScheduleError>, now: i64) -> (s: PipelineStatus)
    ensures
        status_after(
            *pipeline,
            s,
            match outcome {
                Ok(_) => None,
                Err(e) => Some(schedule_error_text(*e)),
            },
            match outcome {
                Ok(eps) => eps@,
                Err(_) => Seq::empty(),
            },
            now,
        ),
{
    let mut s = match &pipeline.status {
        Some(b) => copy_status(b),
        None => PipelineStatus::initial(),
    };
    let ghost base = s;
    proof {
        if pipeline.status is None {
            assert(base.endpoints@ =~= Seq::<String>::empty());
            assert(base.conditions@ =~= Seq::<PipelineCondition>::empty());
        }
    }
    match outcome {
        Ok(eps) => {
            s.replicas = pipeline.spec.replicas;
            let mut copy: Vec<String> = Vec::new();
            let n = eps.len();
            for i in 0..n
                invariant
                    n == eps@.len(),
                    copy@ == eps@.take(i as int),
            {
                copy.push(eps[i].clone());
                assert(copy@ =~= eps@.take(i + 1));
            }
            assert(copy@ =~= eps@);
            s.endpoints = copy;
            let mut m: Vec<char> = Vec::new();
            push_decimal(&mut m, pipeline.spec.replicas as u64);
            push_str(&mut m, " replica(s) scheduled to workers");
            let msg = string_of(&m);
            s.conditions.push(PipelineCondition::new("Scheduled", "True", "ReplicasScheduled", msg.as_str(), now));
        },
        Err(e) => {
            let msg = e.message();
            s.conditions.push(PipelineCondition::new("Scheduled", "False", "SchedulingFailed", msg.as_str(), now));
        },
    }
    assert(s.conditions@.take(base.conditions@.len() as int) =~= base.conditions@);
    s
}

/// Records a scheduling outcome in the status of the pipeline `namespace/name`.
pub fn record_outcome(
    controller: &mut ClusterController,
    pipeline: &Pipeline,
    outcome: &Result<Vec<String>, ScheduleError>,
    now: i64,
) -> (r: Result<(), ControllerError>)
    ensures
        ({
            let qn = qualified(pipeline.metadata.namespace@, pipeline.metadata.name@);
            if !old(controller).pipeline_map().contains_key(qn) {
                &&& r is Err
                &&& final(controller).pipeline_map() == old(controller).pipeline_map()
            } else {
                &&& r is Ok
                &&& final(controller).pipeline_map().dom() == old(controller).pipeline_map().dom()
                &&& final(controller).pipeline_map()[qn].status matches Some(s) && status_after(
                    *pipeline,
                    s,
                    match outcome {
                        Ok(_) => None,
                        Err(e) => Some(schedule_error_text(*e)),
                    },
                    match outcome {
                        Ok(eps) => eps@,
                        Err(_) => Seq::empty(),
                    },
                    now,
                )
                &&& forall|k: Seq<char>| k != qn && #[trigger] old(controller).pipeline_map().contains_key(k)
                    ==> final(controller).pipeline_map()[k] == old(controller).pipeline_map()[k]
            }
        }),
        final(controller).node_map() == old(controller).node_map(),
{
    let s = status_for_outcome(pipeline, outcome, now);
    controller.update_pipeline_status(pipeline.metadata.namespace.as_str(), pipeline.metadata.name.as_str(), s)
}

} // verus!
