//! The control-plane API's decisions: query defaults and where a pipeline's logs
//! come from.
//!
//! The caller answers the HTTP requests and asks the workers; the functions here
//! decide from the controller's state and the workers' answers.
use vstd::prelude::*;

use super::controller::{in_order, ClusterController};
use super::node::Node;
use super::pipeline::qualified;
use crate::config::composition::Composition;
use crate::config::models::ModelDefinition;
use crate::cli::display::{json_field, member};
use crate::json::{JsonValue, JsonView};
use crate::text::{decimal, push_decimal, push_str, string_of};

verus! {

/// Query parameters for logs endpoint
#[derive(Debug)]
pub struct LogsQuery {
    /// Follow log output (like tail -f)
    pub follow: bool,
    /// Number of lines to show from the end
    pub tail: usize,
    /// Container name (optional, defaults to first docker container in composition)
    pub container: Option<String>,
}

/// Lines of log shown unless the query asks for another number.
pub fn default_tail() -> (n: usize)
    ensures
        n == 100,
{
    100
}

/// The container name a model's Docker settings give, if any.
pub open spec fn model_container(d: ModelDefinition) -> Option<Seq<char>> {
    match d {
        ModelDefinition::Unified(c) => match c.docker {
            Some(k) => match k.name {
                Some(n) => Some(n@),
                None => None,
            },
            None => None,
        },
        _ => None,
    }
}

/// The first container name among the first `n` models.
pub open spec fn first_container(defs: Seq<ModelDefinition>, n: nat) -> Option<Seq<char>>
    decreases n,
{
    if n == 0 || n > defs.len() {
        None
    } else {
        match first_container(defs, (n - 1) as nat) {
            Some(c) => Some(c),
            None => model_container(defs[n - 1]),
        }
    }
}

/// The base URL of a node.
pub open spec fn worker_base(n: Node) -> Seq<char> {
    "http://"@ + n.spec.address@ + ":"@ + decimal(n.spec.port as nat)
}

/// The node reports running a replica of pipeline `namespace/name`.
pub open spec fn runs_pipeline(n: Node, namespace: Seq<char>, name: Seq<char>) -> bool {
    n.status matches Some(s) && exists|i: int|
        0 <= i < s.pipelines@.len() && (#[trigger] s.pipelines@[i]).namespace@ == namespace
            && s.pipelines@[i].name@ == name
}

/// The first of the first `k` nodes that runs the pipeline.
pub open spec fn first_runner(nodes: Seq<Node>, namespace: Seq<char>, name: Seq<char>, k: nat) -> Option<Node>
    decreases k,
{
    if k == 0 || k > nodes.len() {
        None
    } else {
        match first_runner(nodes, namespace, name, (k - 1) as nat) {
            Some(x) => Some(x),
            None => if runs_pipeline(nodes[k - 1], namespace, name) {
                Some(nodes[k - 1])
            } else {
                None
            },
        }
    }
}

/// Where a worker streams a container's logs.
pub open spec fn logs_url(base: Seq<char>, container: Seq<char>, follow: bool, tail: usize) -> Seq<char> {
    base + "/v1/containers/"@ + container + "/logs?follow="@ + (if follow { "true"@ } else { "false"@ })
        + "&tail="@ + decimal(tail as nat)
}

/// What to do about a request for a pipeline's logs.
#[derive(Debug)]
pub enum LogsStep {
    /// Answer at once with this HTTP status and body.
    Reply { status: u16, body: String },
    /// Stream the logs from this URL.
    Stream { url: String },
    /// Ask each worker (base URL, container-list URL) in turn whether it runs the
    /// container, then decide with `logs_after_probe`.
    Probe { container: String, workers: Vec<(String, String)> },
}

fn node_base(n: &Node) -> (s: String)
    ensures
        s@ == worker_base(*n),
{
    let mut v: Vec<char> = Vec::new();
    push_str(&mut v, "http://");
    push_str(&mut v, n.spec.address.as_str());
    push_str(&mut v, ":");
    push_decimal(&mut v, n.spec.port as u64);
    string_of(&v)
}

fn make_logs_url(base: &str, container: &str, follow: bool, tail: usize) -> (s: String)
    ensures
        s@ == logs_url(base@, container@, follow, tail),
{
    let mut v: Vec<char> = Vec::new();
    push_str(&mut v, base);
    push_str(&mut v, "/v1/containers/");
    push_str(&mut v, container);
    push_str(&mut v, "/logs?follow=");
    if follow {
        push_str(&mut v, "true");
    } else {
        push_str(&mut v, "false");
    }
    push_str(&mut v, "&tail=");
    push_decimal(&mut v, tail as u64);
    string_of(&v)
}

fn container_of(d: &ModelDefinition) -> (r: Option<String>)
    ensures
        opt_view(r) == model_container(*d),
{
    match d {
        ModelDefinition::Unified(c) => match &c.docker {
            Some(k) => match &k.name {
                Some(n) => Some(n.clone()),
                None => None,
            },
            None => None,
        },
        _ => None,
    }
}

/// The view of an optional string.
pub open spec fn opt_view(o: Option<String>) -> Option<Seq<char>> {
    match o {
        Some(s) => Some(s@),
        None => None,
    }
}

/// The container a composition's logs come from by default: the first model with
/// a Docker container name.
pub fn default_container(composition: &Composition) -> (r: Option<String>)
    ensures
        opt_view(r) == first_container(composition.models.val_seq(), composition.models.key_seq().len()),
{
    let n = composition.models.len();
    let ghost defs = composition.models.val_seq();
    for i in 0..n
        invariant
            n == composition.models.key_seq().len(),
            n == defs.len(),
            defs == composition.models.val_seq(),
            first_container(defs, i as nat) is None,
    {
        let d = composition.models.val_at(i);
        match container_of(d) {
            Some(c) => {
                proof {
                    lemma_first_stays(defs, (i + 1) as nat, n as nat);
                }
                return Some(c);
            },
            None => {},
        }
    }
    None
}

proof fn lemma_first_stays(defs: Seq<ModelDefinition>, i: nat, n: nat)
    requires
        0 < i <= n <= defs.len(),
        first_container(defs, i) is Some,
    ensures
        first_container(defs, n) == first_container(defs, i),
    decreases n - i,
{
    if i < n {
        lemma_first_stays(defs, i, (n - 1) as nat);
    }
}

proof fn lemma_runner_stays(nodes: Seq<Node>, namespace: Seq<char>, name: Seq<char>, i: nat, n: nat)
    requires
        0 < i <= n <= nodes.len(),
        first_runner(nodes, namespace, name, i) is Some,
    ensures
        first_runner(nodes, namespace, name, n) == first_runner(nodes, namespace, name, i),
    decreases n - i,
{
    if i < n {
        lemma_runner_stays(nodes, namespace, name, i, (n - 1) as nat);
    }
}

#[verifier::loop_isolation(false)]
fn node_runs(n: &Node, namespace: &str, name: &str) -> (b: bool)
    ensures
        b == runs_pipeline(*n, namespace@, name@),
{
    match &n.status {
        Some(s) => {
            let k = s.pipelines.len();
            for i in 0..k
                invariant
                    k == s.pipelines@.len(),
                    forall|j: int|
                        0 <= j < i ==> !((#[trigger] s.pipelines@[j]).namespace@ == namespace@
                            && s.pipelines@[j].name@ == name@),
            {
                let p = &s.pipelines[i];
                if crate::text::str_eq(p.namespace.as_str(), namespace) && crate::text::str_eq(
                    p.name.as_str(),
                    name,
                ) {
                    assert(s.pipelines@[i as int] == *p);
                    return true;
                }
            }
            false
        },
        None => false,
    }
}

/// The step of a logs request for pipeline `namespace/name`: not found (404); no
/// container named and none in the composition (400); streaming from the first
/// node that reports running the pipeline; else asking every node, in order.
#[verifier::loop_isolation(false)]
pub fn logs_step(controller: &ClusterController, namespace: &str, name: &str, query: &LogsQuery) -> (r: LogsStep)
    ensures
        ({
            let qn = qualified(namespace@, name@);
            if !controller.pipeline_map().contains_key(qn) {
                r matches LogsStep::Reply { status, body } && status == 404 && body@ == "Pipeline '"@
                    + namespace@ + "/"@ + name@ + "' not found"@
            } else {
                let p = controller.pipeline_map()[qn];
                let container = match query.container {
                    Some(c) => Some(c@),
                    None => first_container(p.spec.composition.models.val_seq(), p.spec.composition.models.key_seq().len()),
                };
                let nodes = in_order(controller.node_order(), controller.node_map());
                match container {
                    None => r matches LogsStep::Reply { status, body } && status == 400 && body@
                        == "No docker container name found in composition. Specify ?container=NAME"@,
                    Some(c) => match first_runner(nodes, namespace@, name@, nodes.len()) {
                        Some(n) => r matches LogsStep::Stream { url } && url@ == logs_url(
                            worker_base(n),
                            c,
                            query.follow,
                            query.tail,
                        ),
                        None => r matches LogsStep::Probe { container: cn, workers } && cn@ == c
                            && workers@.len() == nodes.len() && forall|i: int|
                            0 <= i < nodes.len() ==> (#[trigger] workers@[i]).0@ == worker_base(nodes[i])
                                && workers@[i].1@ == worker_base(nodes[i]) + "/v1/containers"@,
                    },
                }
            }
        }),
{
    let pipeline = match controller.get_pipeline(namespace, name) {
        Some(p) => p,
        None => {
            let mut v: Vec<char> = Vec::new();
            push_str(&mut v, "Pipeline '");
            push_str(&mut v, namespace);
            push_str(&mut v, "/");
            push_str(&mut v, name);
            push_str(&mut v, "' not found");
            return LogsStep::Reply { status: 404, body: string_of(&v) };
        },
    };
    let container = match &query.container {
        Some(c) => c.clone(),
        None => match default_container(&pipeline.spec.composition) {
            Some(c) => c,
            None => {
                return LogsStep::Reply {
                    status: 400,
                    body: String::from_str(
                        "No docker container name found in composition. Specify ?container=NAME",
                    ),
                };
            },
        },
    };
    let nodes = controller.list_nodes();
    let ghost ns = in_order(controller.node_order(), controller.node_map());
    let k = nodes.len();
    for i in 0..k
        invariant
            k == nodes@.len(),
            k == ns.len(),
            forall|j: int| 0 <= j < k ==> *#[trigger] nodes@[j] == ns[j],
            first_runner(ns, namespace@, name@, i as nat) is None,
    {
        let n = nodes[i];
        assert(*n == ns[i as int]);
        if node_runs(n, namespace, name) {
            proof {
                lemma_runner_stays(ns, namespace@, name@, (i + 1) as nat, k as nat);
            }
            let base = node_base(n);
            return LogsStep::Stream {
                url: make_logs_url(base.as_str(), container.as_str(), query.follow, query.tail),
            };
        }
    }
    let mut workers: Vec<(String, String)> = Vec::new();
    for i in 0..k
        invariant
            k == nodes@.len(),
            k == ns.len(),
            forall|j: int| 0 <= j < k ==> *#[trigger] nodes@[j] == ns[j],
            workers@.len() == i,
            forall|j: int|
                0 <= j < i ==> (#[trigger] workers@[j]).0@ == worker_base(ns[j]) && workers@[j].1@
                    == worker_base(ns[j]) + "/v1/containers"@,
    {
        let base = node_base(nodes[i]);
        let mut u: Vec<char> = Vec::new();
        push_str(&mut u, base.as_str());
        push_str(&mut u, "/v1/containers");
        workers.push((base, string_of(&u)));
    }
    LogsStep::Probe { container, workers }
}

/// Whether a worker's container list (`{"containers": [...]}`) names the container.
#[verifier::loop_isolation(false)]
pub fn lists_container(body: &JsonValue, container: &str) -> (b: bool)
    ensures
        b == (member(body@, "containers"@) matches Some(JsonView::Array(items)) && exists|i: int|
            0 <= i < items.len() && items[i] == JsonView::String(container@)),
{
    match json_field(body, "containers") {
        Some(x) => match x {
            JsonValue::Array(items) => {
                let ghost ivs = x@->Array_0;
                assert(forall|j: int| 0 <= j < items@.len() ==> ivs[j] == #[trigger] items@[j]@);
                let k = items.len();
                for i in 0..k
                    invariant
                        k == items@.len(),
                        ivs.len() == k,
                        forall|j: int| 0 <= j < k ==> ivs[j] == #[trigger] items@[j]@,
                        forall|j: int| 0 <= j < i ==> ivs[j] != JsonView::String(container@),
                {
                    let it = &items[i];
                    assert(ivs[i as int] == it@);
                    match it {
                        JsonValue::String(t) => {
                            if crate::text::str_eq(t.as_str(), container) {
                                return true;
                            }
                        },
                        _ => {},
                    }
                }
                false
            },
            _ => false,
        },
        None => false,
    }
}

/// The step after asking the workers: stream from the first that runs the
/// container, or answer 503 when none does.
pub fn logs_after_probe(container: &str, found: Option<&str>, query: &LogsQuery) -> (r: LogsStep)
    ensures
        match found {
            Some(base) => r matches LogsStep::Stream { url } && url@ == logs_url(
                base@,
                container@,
                query.follow,
                query.tail,
            ),
            None => r matches LogsStep::Reply { status, body } && status == 503 && body@
                == "Pipeline not scheduled to any worker or container not found"@,
        },
{
    match found {
        Some(base) => LogsStep::Stream { url: make_logs_url(base, container, query.follow, query.tail) },
        None => LogsStep::Reply {
            status: 503,
            body: String::from_str("Pipeline not scheduled to any worker or container not found"),
        },
    }
}

} // verus!
