//! Processing a user message through a router and one handler.
//!
//! The processor decides which model to call, with what, and what to make of the
//! answers; the calls themselves are made by whoever drives it.
use vstd::prelude::*;

use crate::client::openai::{first_content, ChatCompletionResponse};
use crate::config::architecture::ArchitectureNode;
use crate::config::composition::Composition;
use crate::config::models::{ExternalModel, ModelDefinition};
use crate::runtime::node::{option_override, override_of, RuntimeNode};
use crate::runtime::orchestrator::{
    build_runtime_nodes, keyed_metadata, keyed_metadata_of, layer_keys, layer_keys_in, nodes_built,
    router_target,
};
use crate::runtime::router::{
    build_routing_prompt, extract_node_selection, metadata_views, pretty_nodes_json,
    router_error_text, routing_prompt, selected, NodeMetadata, RouterError,
};
use crate::strmap::StrMap;
use crate::text::{opt_text, to_string, trim};

verus! {

#[derive(Debug)]
pub enum ProcessorError {
    NoRouter,
    RouterModelNotConfigured,
    NoHandlers(u32),
    HandlerNotFound(String),
    HandlerNoModel(String),
    ApiError(String),
    InvalidModelType(String),
}

/// What an OpenAI-compatible client is made from: its base URL, API key and model name.
#[derive(Debug)]
pub struct ClientConfig {
    pub base_url: String,
    pub api_key: Option<String>,
    pub model: String,
}

/// The content of a client configuration.
pub open spec fn client_view(c: ClientConfig) -> (Seq<char>, Option<Seq<char>>, Seq<char>) {
    (c.base_url@, opt_text(c.api_key), c.model@)
}

fn copy_opt(o: &Option<String>) -> (r: Option<String>)
    ensures
        r == *o,
{
    match o {
        Some(s) => Some(s.clone()),
        None => None,
    }
}

fn copy_client(c: &ClientConfig) -> (r: ClientConfig)
    ensures
        client_view(r) == client_view(*c),
{
    ClientConfig { base_url: c.base_url.clone(), api_key: copy_opt(&c.api_key), model: c.model.clone() }
}

/// The external model a node refers to, if the composition defines it as one.
pub open spec fn external_model(c: Composition, node: ArchitectureNode) -> Option<ExternalModel> {
    match node.model {
        Some(m) => if c.models@.contains_key(m@) {
            match c.models@[m@] {
                ModelDefinition::External(e) => Some(e),
                _ => None,
            }
        } else {
            None
        },
        None => None,
    }
}

/// The client of a node with an external model: the model's URL and key, and the
/// node's model override or else its model name.
pub open spec fn client_for(node: ArchitectureNode, e: ExternalModel) -> (Seq<char>, Option<Seq<char>>, Seq<char>) {
    (
        e.url@,
        opt_text(e.api_key),
        match override_of(node.extra_options) {
            Some(o) => o,
            None => match node.model {
                Some(m) => m@,
                None => "default"@,
            },
        },
    )
}

/// Index of the last of the first `n` nodes named `k` that has an external model; -1 if none.
pub open spec fn last_with_client(c: Composition, k: Seq<char>, n: int) -> int
    decreases n,
{
    if n <= 0 {
        -1
    } else if c.architecture@[n - 1].name@ == k && external_model(c, c.architecture@[n - 1]) is Some {
        n - 1
    } else {
        last_with_client(c, k, n - 1)
    }
}

/// `clients` holds, for each name, the client of the last of the first `n` nodes with
/// that name and an external model.
pub open spec fn clients_built(c: Composition, clients: StrMap<ClientConfig>, n: int) -> bool {
    &&& forall|k: Seq<char>| #[trigger] clients@.contains_key(k) <==> last_with_client(c, k, n) >= 0
    &&& forall|k: Seq<char>|
        #[trigger] clients@.contains_key(k) ==> {
            let i = last_with_client(c, k, n);
            &&& 0 <= i < n
            &&& client_view(clients@[k]) == client_for(
                c.architecture@[i],
                external_model(c, c.architecture@[i])->0,
            )
        }
}

/// A router node: in layer 0, with somewhere to send its output.
pub open spec fn is_router(node: ArchitectureNode) -> bool {
    node.layer == Some(0u32) && node.output_to is Some
}

/// Index of the last router among the first `n` nodes; -1 if none.
pub open spec fn last_router(arch: Seq<ArchitectureNode>, n: int) -> int
    decreases n,
{
    if n <= 0 {
        -1
    } else if is_router(arch[n - 1]) {
        n - 1
    } else {
        last_router(arch, n - 1)
    }
}

/// The router's model: its model override, or else its model name.
pub open spec fn router_model(node: ArchitectureNode) -> Option<Seq<char>> {
    match override_of(node.extra_options) {
        Some(o) => Some(o),
        None => opt_text(node.model),
    }
}

proof fn lemma_last_below(c: Composition, k: Seq<char>, n: int)
    requires
        n >= 0,
    ensures
        last_with_client(c, k, n) < n,
        last_with_client(c, k, n) >= 0 ==> c.architecture@[last_with_client(c, k, n)].name@ == k
            && external_model(c, c.architecture@[last_with_client(c, k, n)]) is Some,
        last_router(c.architecture@, n) < n,
        last_router(c.architecture@, n) >= 0 ==> is_router(c.architecture@[last_router(c.architecture@, n)]),
    decreases n,
{
    if n > 0 {
        lemma_last_below(c, k, n - 1);
    }
}

/// Processes requests through the pipeline: a router picks a handler, which answers.
pub struct PipelineProcessor {
    pub nodes: StrMap<RuntimeNode>,
    pub clients: StrMap<ClientConfig>,
    pub router_node_name: String,
    pub router_model_name: String,
}

/// What the router model is asked: through which client, under which model name, with
/// which prompt (sent as the one message of the request, in `role`), choosing among
/// which nodes, with at most how many tokens in the answer.
#[derive(Debug)]
pub struct RoutingCall {
    pub client: ClientConfig,
    pub model: String,
    pub role: String,
    pub prompt: String,
    pub max_tokens: u32,
    pub candidates: Vec<NodeMetadata>,
}

/// What the chosen handler is asked: through which client, under which model name,
/// with which content (the one message of the request, in `role`), with at most how
/// many tokens in the answer.
#[derive(Debug)]
pub struct HandlerCall {
    pub client: ClientConfig,
    pub model: String,
    pub role: String,
    pub content: String,
    pub max_tokens: u32,
}

/// The external model a node refers to, if the composition defines it as one.
fn external_of<'a>(c: &'a Composition, node: &ArchitectureNode) -> (r: Option<&'a ExternalModel>)
    ensures
        match r {
            Some(e) => external_model(*c, *node) == Some(*e),
            None => external_model(*c, *node) is None,
        },
{
    match &node.model {
        Some(m) => match c.models.get(m.as_str()) {
            Some(ModelDefinition::External(e)) => Some(e),
            _ => None,
        },
        None => None,
    }
}

impl PipelineProcessor {
    /// Create a processor from a composition: runtime nodes by name, a client for each
    /// node with an external model, and the (last) router with its model.
    pub fn new(composition: &Composition) -> (r: Result<Self, ProcessorError>)
        requires
            composition.architecture@.len() <= 57456,
        ensures
            ({
                let arch = composition.architecture@;
                let n = arch.len() as int;
                let lr = last_router(arch, n);
                match r {
                    Ok(pp) => {
                        &&& nodes_built(*composition, pp.nodes, n)
                        &&& clients_built(*composition, pp.clients, n)
                        &&& lr >= 0
                        &&& pp.router_node_name@ == arch[lr].name@
                        &&& router_model(arch[lr]) == Some(pp.router_model_name@)
                    },
                    Err(e) => if lr < 0 {
                        e is NoRouter
                    } else {
                        e is RouterModelNotConfigured && router_model(arch[lr]) is None
                    },
                }
            }),
    {
        let ghost arch = composition.architecture@;
        let nodes = build_runtime_nodes(composition);
        let mut clients: StrMap<ClientConfig> = StrMap::new();
        let mut router_node_name: Option<String> = None;
        let mut router_model_name: Option<String> = None;
        let n = composition.architecture.len();
        for i in 0..n
            invariant
                n == arch.len(),
                arch == composition.architecture@,
                clients_built(*composition, clients, i as int),
                match router_node_name {
                    Some(s) => {
                        let lr = last_router(arch, i as int);
                        lr >= 0 && s@ == arch[lr].name@ && opt_text(router_model_name) == router_model(arch[lr])
                    },
                    None => last_router(arch, i as int) < 0 && router_model_name is None,
                },
        {
            let node = &composition.architecture[i];
            let _ = clients.len();
            let ghost before = clients;
            proof {
                lemma_last_below(*composition, node.name@, i as int);
            }
            match external_of(composition, node) {
                Some(ext) => {
                    let model_name = match option_override(&node.extra_options) {
                        Some(o) => o,
                        None => match &node.model {
                            Some(m) => m.clone(),
                            None => to_string("default"),
                        },
                    };
                    let cfg = ClientConfig {
                        base_url: ext.url.clone(),
                        api_key: copy_opt(&ext.api_key),
                        model: model_name,
                    };
                    let _ = clients.insert(node.name.clone(), cfg);
                },
                None => {},
            }
            proof {
                assert forall|k: Seq<char>| #[trigger] clients@.contains_key(k) <==> last_with_client(
                    *composition,
                    k,
                    i + 1,
                ) >= 0 by {
                    lemma_last_below(*composition, k, i as int);
                }
                assert forall|k: Seq<char>| #[trigger] clients@.contains_key(k) implies ({
                    let j = last_with_client(*composition, k, i + 1);
                    &&& 0 <= j < i + 1
                    &&& client_view(clients@[k]) == client_for(arch[j], external_model(*composition, arch[j])->0)
                }) by {
                    lemma_last_below(*composition, k, i as int);
                    if k != node.name@ || external_model(*composition, *node) is None {
                        assert(before@.contains_key(k));
                    }
                }
            }
            if node.layer == Some(0) && node.output_to.is_some() {
                router_node_name = Some(node.name.clone());
                router_model_name = match option_override(&node.extra_options) {
                    Some(o) => Some(o),
                    None => copy_opt(&node.model),
                };
            }
        }
        match router_node_name {
            None => Err(ProcessorError::NoRouter),
            Some(router_node_name) => match router_model_name {
                None => Err(ProcessorError::RouterModelNotConfigured),
                Some(router_model_name) => Ok(PipelineProcessor { nodes, clients, router_node_name, router_model_name }),
            },
        }
    }

    /// Number of nodes
    pub fn node_count(&self) -> (n: usize)
        ensures
            n == self.nodes@.len(),
    {
        self.nodes.len()
    }

    /// The call to the router model: the handlers are the nodes of the router's first
    /// target layer (layer 1 when it names none) that are not output nodes.
    pub fn routing_call(&self, user_message: &str) -> (r: Result<RoutingCall, ProcessorError>)
        ensures
            ({
                let rk = self.router_node_name@;
                if !self.nodes@.contains_key(rk) {
                    r matches Err(ProcessorError::NoRouter)
                } else {
                    let t = match router_target(self.nodes@[rk]) {
                        Some(t) => t,
                        None => 1u32,
                    };
                    let ks = layer_keys(self.nodes, t);
                    if ks.len() == 0 {
                        r matches Err(ProcessorError::NoHandlers(x)) && x == t
                    } else if !self.clients@.contains_key(rk) {
                        r matches Err(ProcessorError::RouterModelNotConfigured)
                    } else {
                        &&& r matches Ok(call)
                        &&& client_view(call.client) == client_view(self.clients@[rk])
                        &&& call.model@ == self.router_model_name@
                        &&& call.role@ == "user"@
                        &&& call.max_tokens == 100
                        &&& metadata_views(call.candidates@) == keyed_metadata(self.nodes, ks)
                        &&& call.prompt@ == routing_prompt(
                            user_message@,
                            pretty_nodes_json(keyed_metadata(self.nodes, ks)),
                        )
                    }
                }
            }),
    {
        let router = match self.nodes.get(self.router_node_name.as_str()) {
            Some(n) => n,
            None => return Err(ProcessorError::NoRouter),
        };
        let target = match &router.output_targets {
            Some(crate::config::architecture::OutputTarget::Layers(ls)) => {
                if ls.len() > 0 {
                    ls[0]
                } else {
                    1
                }
            },
            _ => 1,
        };
        let keys = layer_keys_in(&self.nodes, target);
        if keys.len() == 0 {
            return Err(ProcessorError::NoHandlers(target));
        }
        let candidates = keyed_metadata_of(&self.nodes, &keys);
        let client = match self.clients.get(self.router_node_name.as_str()) {
            Some(c) => copy_client(c),
            None => return Err(ProcessorError::RouterModelNotConfigured),
        };
        let prompt = build_routing_prompt(user_message, candidates.as_slice());
        Ok(
            RoutingCall {
                client,
                model: self.router_model_name.clone(),
                role: to_string("user"),
                prompt,
                max_tokens: 100,
                candidates,
            },
        )
    }

    /// The call to the handler the router's answer selects; the handler is asked under
    /// its model override, or else its name.
    pub fn handler_call(&self, user_message: &str, router_output: &str, candidates: &[NodeMetadata]) -> (r:
        Result<HandlerCall, ProcessorError>)
        ensures
            ({
                let ro = trim(router_output@);
                if ro.len() == 0 {
                    r matches Err(ProcessorError::ApiError(m)) && m@ == "Empty response from router model"@
                } else {
                    match selected(candidates@, ro) {
                        None => r matches Err(ProcessorError::ApiError(m)) && m@
                            == "No valid node selected from response: '"@ + ro + "'"@,
                        Some(i) => {
                            let name = candidates@[i].name@;
                            if !self.nodes@.contains_key(name) {
                                r matches Err(ProcessorError::HandlerNotFound(s)) && s@ == name
                            } else if !self.clients@.contains_key(name) {
                                r matches Err(ProcessorError::HandlerNoModel(s)) && s@ == name
                            } else {
                                &&& r matches Ok(call)
                                &&& client_view(call.client) == client_view(self.clients@[name])
                                &&& call.model@ == match override_of(self.nodes@[name].extra_options) {
                                    Some(o) => o,
                                    None => name,
                                }
                                &&& call.role@ == "user"@
                                &&& call.content@ == user_message@
                                &&& call.max_tokens == 1024
                            }
                        },
                    }
                }
            }),
    {
        let selected_handler = match extract_node_selection(router_output, candidates) {
            Ok(s) => s,
            Err(e) => {
                let m = e.message();
                return Err(ProcessorError::ApiError(m));
            },
        };
        let handler = match self.nodes.get(selected_handler.as_str()) {
            Some(h) => h,
            None => return Err(ProcessorError::HandlerNotFound(selected_handler)),
        };
        let client = match self.clients.get(selected_handler.as_str()) {
            Some(c) => copy_client(c),
            None => return Err(ProcessorError::HandlerNoModel(selected_handler)),
        };
        let model = match handler.model_override() {
            Some(o) => o,
            None => selected_handler.clone(),
        };
        Ok(
            HandlerCall {
                client,
                model,
                role: to_string("user"),
                content: to_string(user_message),
                max_tokens: 1024,
            },
        )
    }
}

/// The handler's answer: the first choice's content, or "No response generated".
pub fn handler_reply(resp: &ChatCompletionResponse) -> (s: String)
    ensures
        s@ == if resp.choices@.len() > 0 {
            first_content(*resp)
        } else {
            "No response generated"@
        },
{
    if resp.choices.len() > 0 {
        resp.choices[0].message.content.clone()
    } else {
        to_string("No response generated")
    }
}

} // verus!
