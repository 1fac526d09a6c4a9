//! Routing a request through the pipeline, one decision at a time.
//!
//! The orchestrator decides; whoever drives it does the outside work each decision
//! asks for (asking the router model, evaluating node conditions) and hands back
//! the outcome. Each step records at most one hop on the request.
use vstd::prelude::*;

use crate::config::architecture::ArchitectureNode;
use crate::config::composition::{first_from, first_where, lemma_first_from, Composition};
use crate::config::models::ModelDefinition;
use crate::runtime::node::{runtime_from, target_view, AdapterType, RuntimeNode, TargetView};
use crate::runtime::request::{hopped, PipelineRequest};
use crate::runtime::router::{metadata_views, NodeMetadata, RouterError};
use crate::strmap::StrMap;
use crate::text::{opt_text, str_views};

verus! {

#[derive(Debug)]
pub enum OrchestratorError {
    Router(RouterError),
    EmptyLayer(u32),
    NodeNotFound(String),
    NoOutput,
    MaxHopsExceeded(usize),
}

// ---------------------------------------------------------------------------
// Building the runtime nodes
// ---------------------------------------------------------------------------

/// Index of the last of the first `n` nodes named `k`; -1 when there is none.
pub open spec fn last_named(arch: Seq<ArchitectureNode>, k: Seq<char>, n: int) -> int
    decreases n,
{
    if n <= 0 {
        -1
    } else if arch[n - 1].name@ == k {
        n - 1
    } else {
        last_named(arch, k, n - 1)
    }
}

/// The names of the first `n` nodes, each once, in the order they first appear.
pub open spec fn first_names(arch: Seq<ArchitectureNode>, n: int) -> Seq<Seq<char>>
    decreases n,
{
    if n <= 0 {
        Seq::empty()
    } else {
        let p = first_names(arch, n - 1);
        if p.contains(arch[n - 1].name@) {
            p
        } else {
            p.push(arch[n - 1].name@)
        }
    }
}

/// `m` is the model definition a node's model name refers to: a clone of it when the
/// composition defines it, nothing otherwise.
pub open spec fn model_given(c: Composition, node: ArchitectureNode, m: Option<ModelDefinition>) -> bool {
    match node.model {
        Some(name) => if c.models@.contains_key(name@) {
            m matches Some(d) && cloned::<ModelDefinition>(c.models@[name@], d)
        } else {
            m is None
        },
        None => m is None,
    }
}

/// `nodes` holds the runtime form of the first `n` architecture nodes, by name: the node
/// at index `i` gets port offset `i`, and a later node with a name replaces an earlier one.
pub open spec fn nodes_built(c: Composition, nodes: StrMap<RuntimeNode>, n: int) -> bool {
    let arch = c.architecture@;
    &&& nodes.key_seq() == first_names(arch, n)
    &&& forall|k: Seq<char>| #[trigger] nodes@.contains_key(k) <==> last_named(arch, k, n) >= 0
    &&& forall|k: Seq<char>|
        #[trigger] nodes@.contains_key(k) ==> {
            let i = last_named(arch, k, n);
            &&& 0 <= i < n
            &&& runtime_from(nodes@[k], arch[i], i as u16)
            &&& model_given(c, arch[i], nodes@[k].model_config)
        }
}

proof fn lemma_first_names(arch: Seq<ArchitectureNode>, n: int, k: Seq<char>)
    requires
        0 <= n <= arch.len(),
    ensures
        first_names(arch, n).contains(k) <==> last_named(arch, k, n) >= 0,
        last_named(arch, k, n) < n,
        last_named(arch, k, n) >= 0 ==> arch[last_named(arch, k, n)].name@ == k,
    decreases n,
{
    if n > 0 {
        lemma_first_names(arch, n - 1, k);
        let p = first_names(arch, n - 1);
        if !p.contains(arch[n - 1].name@) {
            let q = p.push(arch[n - 1].name@);
            assert(q.contains(k) <==> (p.contains(k) || k == arch[n - 1].name@)) by {
                if k == arch[n - 1].name@ {
                    assert(q[p.len() as int] == k);
                }
                if q.contains(k) && !p.contains(k) {
                    let j = choose|j: int| 0 <= j < q.len() && #[trigger] q[j] == k;
                    if j < p.len() {
                        assert(p[j] == k);
                    }
                }
                if p.contains(k) {
                    let j = choose|j: int| 0 <= j < p.len() && #[trigger] p[j] == k;
                    assert(q[j] == k);
                }
            }
        } else if k == arch[n - 1].name@ {
        }
    }
}

/// Build runtime nodes from a composition, keyed by node name; the node at index `i`
/// gets port offset `i`.
pub fn build_runtime_nodes(composition: &Composition) -> (nodes: StrMap<RuntimeNode>)
    requires
        composition.architecture@.len() <= 57456,
    ensures
        nodes_built(*composition, nodes, composition.architecture@.len() as int),
{
    let ghost arch = composition.architecture@;
    let mut nodes: StrMap<RuntimeNode> = StrMap::new();
    let n = composition.architecture.len();
    proof {
        assert(nodes.key_seq() =~= first_names(arch, 0));
    }
    for i in 0..n
        invariant
            n == arch.len(),
            arch == composition.architecture@,
            n <= 57456,
            nodes_built(*composition, nodes, i as int),
    {
        let arch_node = &composition.architecture[i];
        let model_config: Option<ModelDefinition> = match &arch_node.model {
            Some(m) => match composition.models.get(m.as_str()) {
                Some(d) => Some(d.clone()),
                None => None,
            },
            None => None,
        };
        let runtime = RuntimeNode::from_architecture(arch_node, model_config, i as u16);
        let name = runtime.name.clone();
        let _ = nodes.len();
        let ghost before = nodes;
        let _ = nodes.insert(name, runtime);
        let _ = nodes.len();
        proof {
            let k0 = arch[i as int].name@;
            lemma_first_names(arch, i as int, k0);
            assert forall|k: Seq<char>| #[trigger] nodes@.contains_key(k) <==> last_named(arch, k, i + 1) >= 0 by {
                lemma_first_names(arch, i as int, k);
            }
            assert forall|k: Seq<char>| #[trigger] nodes@.contains_key(k) implies ({
                let j = last_named(arch, k, i + 1);
                &&& 0 <= j < i + 1
                &&& runtime_from(nodes@[k], arch[j], j as u16)
                &&& model_given(*composition, arch[j], nodes@[k].model_config)
            }) by {
                lemma_first_names(arch, i as int, k);
                if k != k0 {
                    assert(before@.contains_key(k));
                }
            }
            assert(nodes.key_seq() == first_names(arch, i + 1));
        }
    }
    nodes
}

// ---------------------------------------------------------------------------
// The orchestrator and the progress of one request
// ---------------------------------------------------------------------------

/// The orchestrator: the pipeline's runtime nodes and the hop limit.
pub struct Orchestrator {
    pub composition: Composition,
    pub nodes: StrMap<RuntimeNode>,
    pub max_hops: usize,
}

/// Where a request stands.
#[derive(Debug)]
pub enum Stage {
    /// About to choose a node in the current layer.
    AtLayer,
    /// Waiting for the router model's pick; `router` is the router node.
    Routing { router: String },
    /// Waiting for the conditions of these nodes of the current layer.
    LayerConditions { keys: Vec<String> },
    /// Waiting for the conditions of these named targets.
    TargetConditions { names: Vec<String> },
    /// The node with this name was chosen and is about to be passed.
    Chosen { key: String },
    /// Done; nothing more to decide.
    Finished,
}

/// The progress of one request through the pipeline.
pub struct Progress {
    pub request: PipelineRequest,
    pub current_layer: u32,
    pub hop_count: usize,
    pub max_hops: usize,
    pub stage: Stage,
}

/// What the orchestrator asks for next.
#[derive(Debug)]
pub enum Action {
    /// Ask the router model to pick one of `candidates` for `content`, then call `on_routed`.
    Route { content: String, candidates: Vec<NodeMetadata> },
    /// Evaluate each condition against the request's variables (`None` passes), then
    /// call `on_evaluated` with the outcomes in the same order.
    Evaluate { conditions: Vec<Option<String>> },
    /// Nothing to do outside: call `advance` again.
    Continue,
    /// The request is done, with the pipeline's answer or why it failed.
    Done(Result<String, OrchestratorError>),
}

impl Progress {
    /// The hop counter stays within the limit; a stage that may still count a hop
    /// leaves room for it.
    pub open spec fn wf(&self) -> bool {
        &&& self.hop_count <= self.max_hops
        &&& (self.stage is Routing || self.stage is LayerConditions) ==> self.hop_count < self.max_hops
        &&& self.stage is Routing ==> self.current_layer == 0
        &&& self.stage is Chosen ==> (self.hop_count < self.max_hops || self.current_layer == 0)
    }
}

/// The nodes' keys that pass `f`, in key order, as a predicate.
pub open spec fn in_layer(nodes: StrMap<RuntimeNode>, l: u32) -> spec_fn(Seq<char>) -> bool {
    |k: Seq<char>| nodes@[k].layer == l && !(nodes@[k].adapter is Output)
}

/// The nodes of layer `l` that are not output nodes, by key, in key order.
pub open spec fn layer_keys(nodes: StrMap<RuntimeNode>, l: u32) -> Seq<Seq<char>> {
    nodes.key_seq().filter(in_layer(nodes, l))
}

/// The layer a router node sends to: the first of its target layers.
pub open spec fn router_target(n: RuntimeNode) -> Option<u32> {
    match target_view(n.output_targets) {
        Some(TargetView::Layers(ls)) => if ls.len() > 0 {
            Some(ls[0])
        } else {
            None
        },
        _ => None,
    }
}

/// Name and use-case of each keyed node.
pub open spec fn keyed_metadata(nodes: StrMap<RuntimeNode>, ks: Seq<Seq<char>>) -> Seq<(Seq<char>, Option<Seq<char>>)> {
    Seq::new(ks.len(), |i: int| (nodes@[ks[i]].name@, opt_text(nodes@[ks[i]].use_case)))
}

/// The texts of a list of optional conditions.
pub open spec fn cond_texts(cs: Seq<Option<String>>) -> Seq<Option<Seq<char>>> {
    Seq::new(cs.len(), |i: int| opt_text(cs[i]))
}

/// The condition of each keyed node; none for a missing node and, when `skip_outputs`,
/// for an output node.
pub open spec fn keyed_conditions(nodes: StrMap<RuntimeNode>, ks: Seq<Seq<char>>, skip_outputs: bool) -> Seq<
    Option<Seq<char>>,
> {
    Seq::new(
        ks.len(),
        |i: int|
            if nodes@.contains_key(ks[i]) && !(skip_outputs && nodes@[ks[i]].adapter is Output) {
                opt_text(nodes@[ks[i]].condition)
            } else {
                None
            },
    )
}

/// Keyed node `i` can be taken: it exists and (when `outputs_pass`) is an output node,
/// or has no condition, or its condition held.
pub open spec fn passes(
    nodes: StrMap<RuntimeNode>,
    ks: Seq<Seq<char>>,
    outcomes: Seq<bool>,
    outputs_pass: bool,
) -> spec_fn(int) -> bool {
    |i: int|
        nodes@.contains_key(ks[i]) && ((outputs_pass && nodes@[ks[i]].adapter is Output)
            || nodes@[ks[i]].condition is None || (i < outcomes.len() && outcomes[i]))
}

/// The first keyed node that can be taken.
pub open spec fn choice(nodes: StrMap<RuntimeNode>, ks: Seq<Seq<char>>, outcomes: Seq<bool>, outputs_pass: bool) -> Option<
    int,
> {
    first_where(ks.len() as int, passes(nodes, ks, outcomes, outputs_pass))
}

/// A layer node whose condition held can be taken: some node at or before it is chosen.
pub proof fn lemma_held_condition_taken(
    nodes: StrMap<RuntimeNode>,
    ks: Seq<Seq<char>>,
    outcomes: Seq<bool>,
    outputs_pass: bool,
    i: int,
)
    requires
        0 <= i < ks.len(),
        i < outcomes.len(),
        outcomes[i],
        nodes@.contains_key(ks[i]),
    ensures
        choice(nodes, ks, outcomes, outputs_pass) matches Some(j) && 0 <= j <= i,
{
    crate::config::composition::lemma_first_from_found(
        0,
        ks.len() as int,
        passes(nodes, ks, outcomes, outputs_pass),
        i,
    );
}

/// When every node of the layer has a condition that failed (and none passes as
/// an output node), no node is chosen.
pub proof fn lemma_all_conditions_failed(
    nodes: StrMap<RuntimeNode>,
    ks: Seq<Seq<char>>,
    outcomes: Seq<bool>,
    outputs_pass: bool,
)
    requires
        outcomes.len() == ks.len(),
        forall|i: int|
            0 <= i < ks.len() ==> !#[trigger] outcomes[i] && (nodes@.contains_key(ks[i])
                ==> nodes@[ks[i]].condition is Some && !(outputs_pass && nodes@[ks[i]].adapter is Output)),
    ensures
        choice(nodes, ks, outcomes, outputs_pass) is None,
{
    let p = passes(nodes, ks, outcomes, outputs_pass);
    assert forall|j: int| 0 <= j < ks.len() implies !#[trigger] p(j) by {
        assert(!outcomes[j]);
    }
    crate::config::composition::lemma_first_from(
        0,
        ks.len() as int,
        passes(nodes, ks, outcomes, outputs_pass),
        ks.len() as int,
    );
}

/// The step from `AtLayer`: check the hop limit, find the layer's nodes, then ask the
/// router (a lone router node with a target layer), pass a lone router node without
/// one, or ask for the layer's conditions.
pub open spec fn at_layer_step(nodes: StrMap<RuntimeNode>, p0: Progress, p1: Progress, a: Action) -> bool {
    let l = p0.current_layer;
    let ks = layer_keys(nodes, l);
    &&& p1.request == p0.request
    &&& p1.current_layer == l
    &&& p1.hop_count == p0.hop_count
    &&& p1.max_hops == p0.max_hops
    &&& if p0.hop_count >= p0.max_hops {
        a == Action::Done(Err(OrchestratorError::MaxHopsExceeded(p0.max_hops))) && p1.stage is Finished
    } else if ks.len() == 0 {
        a == Action::Done(Err(OrchestratorError::EmptyLayer(l))) && p1.stage is Finished
    } else if l == 0 && ks.len() == 1 {
        match router_target(nodes@[ks[0]]) {
            Some(t) => {
                &&& a matches Action::Route { content, candidates }
                &&& content@ == p0.request.current_content@
                &&& metadata_views(candidates@) == keyed_metadata(nodes, layer_keys(nodes, t))
                &&& p1.stage matches Stage::Routing { router }
                &&& router@ == nodes@[ks[0]].name@
            },
            None => a is Continue && (p1.stage matches Stage::Chosen { key } && key@ == ks[0]),
        }
    } else {
        &&& a matches Action::Evaluate { conditions }
        &&& cond_texts(conditions@) == keyed_conditions(nodes, ks, false)
        &&& p1.stage matches Stage::LayerConditions { keys }
        &&& str_views(keys@) == ks
    }
}

/// The step from `Chosen`: an output node ends the request with its content; another
/// node counts a hop outside layer 0, then leads to its first target layer, or asks for
/// its named targets' conditions.
pub open spec fn chosen_step(nodes: StrMap<RuntimeNode>, k: Seq<char>, p0: Progress, p1: Progress, a: Action) -> bool {
    &&& p1.max_hops == p0.max_hops
    &&& if !nodes@.contains_key(k) {
        &&& a matches Action::Done(Err(OrchestratorError::NodeNotFound(s)))
        &&& s@ == k
        &&& p1.stage is Finished
        &&& p1.request == p0.request
        &&& p1.current_layer == p0.current_layer
        &&& p1.hop_count == p0.hop_count
    } else {
        let n = nodes@[k];
        if n.adapter is Output {
            &&& hopped(p0.request, p1.request, n.name@, n.layer, None)
            &&& a matches Action::Done(Ok(s))
            &&& s@ == p0.request.current_content@
            &&& p1.stage is Finished
            &&& p1.current_layer == p0.current_layer
            &&& p1.hop_count == p0.hop_count
        } else {
            &&& if p0.current_layer != 0 {
                hopped(p0.request, p1.request, n.name@, p0.current_layer, None) && p1.hop_count
                    == p0.hop_count + 1
            } else {
                p1.request == p0.request && p1.hop_count == p0.hop_count
            }
            &&& match target_view(n.output_targets) {
                Some(TargetView::Layers(ls)) => if ls.len() > 0 {
                    a is Continue && p1.stage is AtLayer && p1.current_layer == ls[0]
                } else {
                    a == Action::Done(Err(OrchestratorError::NoOutput)) && p1.stage is Finished
                        && p1.current_layer == p0.current_layer
                },
                Some(TargetView::Nodes(ns)) => {
                    &&& a matches Action::Evaluate { conditions }
                    &&& cond_texts(conditions@) == keyed_conditions(nodes, ns, true)
                    &&& p1.stage matches Stage::TargetConditions { names }
                    &&& str_views(names@) == ns
                    &&& p1.current_layer == p0.current_layer
                },
                None => a == Action::Done(Err(OrchestratorError::NoOutput)) && p1.stage is Finished
                    && p1.current_layer == p0.current_layer,
            }
        }
    }
}

fn copy_opt(o: &Option<String>) -> (r: Option<String>)
    ensures
        r == *o,
{
    match o {
        Some(s) => Some(s.clone()),
        None => None,
    }
}

/// The keys of the nodes of layer `l` that are not output nodes.
pub(crate) fn layer_keys_in(nodes: &StrMap<RuntimeNode>, l: u32) -> (r: Vec<String>)
    ensures
        str_views(r@) == layer_keys(*nodes, l),
        forall|i: int| 0 <= i < r@.len() ==> nodes@.contains_key(#[trigger] str_views(r@)[i]),
{
    let ghost ks = nodes.key_seq();
    let ghost f = in_layer(*nodes, l);
    let n = nodes.len();
    let mut out: Vec<String> = Vec::new();
    for i in 0..n
        invariant
            n == ks.len(),
            ks == nodes.key_seq(),
            f == in_layer(*nodes, l),
            forall|j: int| 0 <= j < n ==> nodes@.contains_key(#[trigger] ks[j]),
            str_views(out@) == ks.take(i as int).filter(f),
            forall|j: int| 0 <= j < out@.len() ==> nodes@.contains_key(#[trigger] str_views(out@)[j]),
    {
        let k = nodes.key_at(i);
        let node = nodes.val_at(i);
        proof {
            let t = ks.take(i + 1);
            assert(t.drop_last() =~= ks.take(i as int));
            assert(t.last() == ks[i as int]);
            reveal(Seq::filter);
        }
        let is_out = match node.adapter {
            AdapterType::Output => true,
            _ => false,
        };
        if node.layer == l && !is_out {
            out.push(k.clone());
        }
        assert(str_views(out@) =~= ks.take(i + 1).filter(f));
    }
    assert(ks.take(n as int) =~= ks);
    out
}

/// Name and use-case of each keyed node.
pub(crate) fn keyed_metadata_of(nodes: &StrMap<RuntimeNode>, keys: &Vec<String>) -> (r: Vec<NodeMetadata>)
    requires
        forall|i: int| 0 <= i < keys@.len() ==> nodes@.contains_key(#[trigger] str_views(keys@)[i]),
    ensures
        metadata_views(r@) == keyed_metadata(*nodes, str_views(keys@)),
{
    let ghost ks = str_views(keys@);
    let mut out: Vec<NodeMetadata> = Vec::new();
    let n = keys.len();
    for i in 0..n
        invariant
            n == keys@.len(),
            ks == str_views(keys@),
            forall|j: int| 0 <= j < n ==> nodes@.contains_key(#[trigger] ks[j]),
            metadata_views(out@) == keyed_metadata(*nodes, ks).take(i as int),
            out@.len() == i,
    {
        assert(nodes@.contains_key(ks[i as int]));
        let ghost before = out@;
        match nodes.get(keys[i].as_str()) {
            Some(node) => {
                let m = NodeMetadata { name: node.name.clone(), use_case: copy_opt(&node.use_case) };
                assert(m.name@ == nodes@[ks[i as int]].name@);
                out.push(m);
            },
            None => {},
        }
        assert(metadata_views(out@) =~= keyed_metadata(*nodes, ks).take(i + 1));
    }
    assert(keyed_metadata(*nodes, ks).take(n as int) =~= keyed_metadata(*nodes, ks));
    out
}

/// Takes the stage out, leaving `Finished`.
fn take_stage(p: &mut Progress) -> (s: Stage)
    ensures
        s == old(p).stage,
        final(p).stage is Finished,
        final(p).request == old(p).request,
        final(p).current_layer == old(p).current_layer,
        final(p).hop_count == old(p).hop_count,
        final(p).max_hops == old(p).max_hops,
{
    let mut s = Stage::Finished;
    core::mem::swap(&mut p.stage, &mut s);
    s
}

impl Orchestrator {
    /// An orchestrator for a composition, with a limit of 50 hops.
    pub fn new(composition: Composition) -> (o: Self)
        requires
            composition.architecture@.len() <= 57456,
        ensures
            nodes_built(composition, o.nodes, composition.architecture@.len() as int),
            o.max_hops == 50,
    {
        let nodes = build_runtime_nodes(&composition);
        Orchestrator { composition, nodes, max_hops: 50 }
    }

    /// The progress of a request that is about to enter layer 0.
    pub fn start(&self, request: PipelineRequest) -> (p: Progress)
        ensures
            p.request == request,
            p.current_layer == 0,
            p.hop_count == 0,
            p.max_hops == self.max_hops,
            p.stage is AtLayer,
            p.wf(),
    {
        Progress { request, current_layer: 0, hop_count: 0, max_hops: self.max_hops, stage: Stage::AtLayer }
    }

    /// The condition of each keyed node (none for a missing node and, when
    /// `skip_outputs`, for an output node).
    fn conditions_of(&self, keys: &Vec<String>, skip_outputs: bool) -> (r: Vec<Option<String>>)
        ensures
            cond_texts(r@) == keyed_conditions(self.nodes, str_views(keys@), skip_outputs),
    {
        let ghost ks = str_views(keys@);
        let mut out: Vec<Option<String>> = Vec::new();
        let n = keys.len();
        for i in 0..n
            invariant
                n == keys@.len(),
                ks == str_views(keys@),
                cond_texts(out@) == keyed_conditions(self.nodes, ks, skip_outputs).take(i as int),
                out@.len() == i,
        {
            match self.nodes.get(keys[i].as_str()) {
                Some(node) => {
                    let is_out = match node.adapter {
                        AdapterType::Output => true,
                        _ => false,
                    };
                    if skip_outputs && is_out {
                        out.push(None);
                    } else {
                        out.push(copy_opt(&node.condition));
                    }
                },
                None => {
                    out.push(None);
                },
            }
            assert(cond_texts(out@) =~= keyed_conditions(self.nodes, ks, skip_outputs).take(i + 1));
        }
        assert(keyed_conditions(self.nodes, ks, skip_outputs).take(n as int) =~= keyed_conditions(
            self.nodes,
            ks,
            skip_outputs,
        ));
        out
    }

    /// The first keyed node that can be taken.
    fn choose_node(&self, keys: &Vec<String>, outcomes: &Vec<bool>, outputs_pass: bool) -> (r: Option<usize>)
        ensures
            match choice(self.nodes, str_views(keys@), outcomes@, outputs_pass) {
                Some(i) => 0 <= i < keys@.len() && r == Some(i as usize) && passes(
                    self.nodes,
                    str_views(keys@),
                    outcomes@,
                    outputs_pass,
                )(i),
                None => r is None,
            },
    {
        let ghost ks = str_views(keys@);
        let ghost p = passes(self.nodes, ks, outcomes@, outputs_pass);
        let n = keys.len();
        for i in 0..n
            invariant
                n == keys@.len(),
                ks == str_views(keys@),
                p == passes(self.nodes, ks, outcomes@, outputs_pass),
                forall|j: int| 0 <= j < i ==> !#[trigger] p(j),
        {
            match self.nodes.get(keys[i].as_str()) {
                Some(node) => {
                    let is_out = match node.adapter {
                        AdapterType::Output => true,
                        _ => false,
                    };
                    let held = i < outcomes.len() && outcomes[i];
                    if (outputs_pass && is_out) || node.condition.is_none() || held {
                        proof {
                            assert(p(i as int));
                            lemma_first_from(0, n as int, p, i as int);
                        }
                        return Some(i);
                    }
                },
                None => {},
            }
            assert(!p(i as int));
        }
        proof {
            lemma_first_from(0, n as int, p, n as int);
        }
        None
    }

    /// The next decision from `AtLayer` or `Chosen` (see `at_layer_step` and `chosen_step`).
    pub fn advance(&self, p: &mut Progress) -> (a: Action)
        requires
            old(p).wf(),
            old(p).stage is AtLayer || old(p).stage is Chosen,
        ensures
            final(p).wf(),
            old(p).stage is AtLayer ==> at_layer_step(self.nodes, *old(p), *final(p), a),
            old(p).stage matches Stage::Chosen { key } ==> chosen_step(self.nodes, key@, *old(p), *final(p), a),
    {
        let stage = take_stage(p);
        match stage {
            Stage::Chosen { key } => self.pass_node(p, key),
            _ => self.enter_layer(p),
        }
    }

    fn enter_layer(&self, p: &mut Progress) -> (a: Action)
        requires
            old(p).wf() || old(p).stage is Finished,
            old(p).hop_count <= old(p).max_hops,
        ensures
            final(p).wf(),
            at_layer_step(self.nodes, *old(p), *final(p), a),
    {
        if p.hop_count >= p.max_hops {
            p.stage = Stage::Finished;
            return Action::Done(Err(OrchestratorError::MaxHopsExceeded(p.max_hops)));
        }
        let l = p.current_layer;
        let keys = layer_keys_in(&self.nodes, l);
        if keys.len() == 0 {
            p.stage = Stage::Finished;
            return Action::Done(Err(OrchestratorError::EmptyLayer(l)));
        }
        if l == 0 && keys.len() == 1 {
            let ghost k0 = str_views(keys@)[0];
            assert(self.nodes@.contains_key(k0));
            let router = self.nodes.get(keys[0].as_str());
            match router {
                Some(node) => {
                    let target = match &node.output_targets {
                        Some(crate::config::architecture::OutputTarget::Layers(ls)) => {
                            if ls.len() > 0 {
                                Some(ls[0])
                            } else {
                                None
                            }
                        },
                        _ => None,
                    };
                    match target {
                        Some(t) => {
                            let next = layer_keys_in(&self.nodes, t);
                            let candidates = keyed_metadata_of(&self.nodes, &next);
                            let content = p.request.current_content.clone();
                            p.stage = Stage::Routing { router: node.name.clone() };
                            return Action::Route { content, candidates };
                        },
                        None => {
                            p.stage = Stage::Chosen { key: keys[0].clone() };
                            return Action::Continue;
                        },
                    }
                },
                None => {
                    p.stage = Stage::Finished;
                    return Action::Done(Err(OrchestratorError::EmptyLayer(l)));
                },
            }
        }
        let conditions = self.conditions_of(&keys, false);
        p.stage = Stage::LayerConditions { keys };
        Action::Evaluate { conditions }
    }

    fn pass_node(&self, p: &mut Progress, key: String) -> (a: Action)
        requires
            old(p).stage is Finished,
            old(p).hop_count <= old(p).max_hops,
            old(p).hop_count < old(p).max_hops || old(p).current_layer == 0,
        ensures
            final(p).wf(),
            chosen_step(self.nodes, key@, *old(p), *final(p), a),
    {
        match self.nodes.get(key.as_str()) {
            None => {
                return Action::Done(Err(OrchestratorError::NodeNotFound(key)));
            },
            Some(node) => {
                let is_out = match node.adapter {
                    AdapterType::Output => true,
                    _ => false,
                };
                if is_out {
                    p.request.add_hop(node.name.clone(), node.layer, None);
                    return Action::Done(Ok(p.request.current_content.clone()));
                }
                if p.current_layer != 0 {
                    p.request.add_hop(node.name.clone(), p.current_layer, None);
                    p.hop_count = p.hop_count + 1;
                }
                match &node.output_targets {
                    Some(crate::config::architecture::OutputTarget::Layers(ls)) => {
                        if ls.len() > 0 {
                            p.current_layer = ls[0];
                            p.stage = Stage::AtLayer;
                            Action::Continue
                        } else {
                            Action::Done(Err(OrchestratorError::NoOutput))
                        }
                    },
                    Some(crate::config::architecture::OutputTarget::Nodes(ns)) => {
                        let names = ns.clone();
                        let conditions = self.conditions_of(&names, true);
                        p.stage = Stage::TargetConditions { names };
                        Action::Evaluate { conditions }
                    },
                    None => Action::Done(Err(OrchestratorError::NoOutput)),
                }
            },
        }
    }

    /// The router's answer: an error ends the request; a pick counts the router's hop
    /// (with the pick as its decision) and makes the picked node the chosen one.
    pub fn on_routed(&self, p: &mut Progress, result: Result<String, RouterError>) -> (a: Action)
        requires
            old(p).wf(),
            old(p).stage is Routing,
        ensures
            final(p).wf(),
            final(p).max_hops == old(p).max_hops,
            final(p).current_layer == old(p).current_layer,
            match result {
                Err(e) => a == Action::Done(Err(OrchestratorError::Router(e))) && final(p).stage is Finished
                    && final(p).request == old(p).request && final(p).hop_count == old(p).hop_count,
                Ok(sel) => {
                    &&& hopped(old(p).request, final(p).request, old(p).stage->router@, old(p).current_layer, Some(sel@))
                    &&& final(p).hop_count == old(p).hop_count + 1
                    &&& a is Continue
                    &&& final(p).stage matches Stage::Chosen { key }
                    &&& key@ == sel@
                },
            },
    {
        let stage = take_stage(p);
        let router = match stage {
            Stage::Routing { router } => router,
            _ => String::new(),
        };
        match result {
            Err(e) => Action::Done(Err(OrchestratorError::Router(e))),
            Ok(selected) => {
                let layer = p.current_layer;
                p.request.add_hop(router, layer, Some(selected.clone()));
                p.hop_count = p.hop_count + 1;
                p.stage = Stage::Chosen { key: selected };
                Action::Continue
            },
        }
    }

    /// The outcomes of the conditions asked for. For the layer's nodes: the first that
    /// can be taken is chosen; none leaves the layer empty. For named targets: the first
    /// that can be taken (an output node always can) is an output node that ends the
    /// request, or leads to its layer; none means no output.
    pub fn on_evaluated(&self, p: &mut Progress, outcomes: &Vec<bool>) -> (a: Action)
        requires
            old(p).wf(),
            old(p).stage is LayerConditions || old(p).stage is TargetConditions,
        ensures
            final(p).wf(),
            final(p).max_hops == old(p).max_hops,
            final(p).hop_count == old(p).hop_count,
            old(p).stage matches Stage::LayerConditions { keys } ==> {
                &&& final(p).request == old(p).request
                &&& final(p).current_layer == old(p).current_layer
                &&& match choice(self.nodes, str_views(keys@), outcomes@, false) {
                    Some(i) => a is Continue && (final(p).stage matches Stage::Chosen { key } && key@
                        == str_views(keys@)[i]),
                    None => a == Action::Done(Err(OrchestratorError::EmptyLayer(old(p).current_layer)))
                        && final(p).stage is Finished,
                }
            },
            old(p).stage matches Stage::TargetConditions { names } ==> match choice(
                self.nodes,
                str_views(names@),
                outcomes@,
                true,
            ) {
                Some(i) => {
                    let t = self.nodes@[str_views(names@)[i]];
                    if t.adapter is Output {
                        &&& hopped(old(p).request, final(p).request, t.name@, t.layer, None)
                        &&& a matches Action::Done(Ok(s))
                        &&& s@ == old(p).request.current_content@
                        &&& final(p).stage is Finished
                        &&& final(p).current_layer == old(p).current_layer
                    } else {
                        &&& a is Continue
                        &&& final(p).stage is AtLayer
                        &&& final(p).current_layer == t.layer
                        &&& final(p).request == old(p).request
                    }
                },
                None => {
                    &&& a == Action::Done(Err(OrchestratorError::NoOutput))
                    &&& final(p).stage is Finished
                    &&& final(p).request == old(p).request
                    &&& final(p).current_layer == old(p).current_layer
                },
            },
    {
        let stage = take_stage(p);
        match stage {
            Stage::LayerConditions { keys } => {
                assert(old(p).stage matches Stage::LayerConditions { keys: k2 } && k2 == keys);
                match self.choose_node(&keys, outcomes, false) {
                    Some(i) => {
                        let key = keys[i].clone();
                        assert(key@ == str_views(keys@)[i as int]);
                        p.stage = Stage::Chosen { key };
                        Action::Continue
                    },
                    None => Action::Done(Err(OrchestratorError::EmptyLayer(p.current_layer))),
                }
            },
            Stage::TargetConditions { names } => {
                match self.choose_node(&names, outcomes, true) {
                    Some(i) => {
                        match self.nodes.get(names[i].as_str()) {
                            Some(t) => {
                                let is_out = match t.adapter {
                                    AdapterType::Output => true,
                                    _ => false,
                                };
                                if is_out {
                                    p.request.add_hop(t.name.clone(), t.layer, None);
                                    Action::Done(Ok(p.request.current_content.clone()))
                                } else {
                                    p.current_layer = t.layer;
                                    p.stage = Stage::AtLayer;
                                    Action::Continue
                                }
                            },
                            None => Action::Done(Err(OrchestratorError::NoOutput)),
                        }
                    },
                    None => Action::Done(Err(OrchestratorError::NoOutput)),
                }
            },
            _ => Action::Done(Err(OrchestratorError::NoOutput)),
        }
    }
}

} // verus!
