//! Hook and output-target configuration of architecture nodes.
use vstd::prelude::*;

use crate::json::JsonValue;
use crate::strmap::StrMap;
use crate::text::str_eq;

verus! {

/// Hook execution mode
#[derive(Debug, Clone, Copy, PartialEq, Eq, Structural)]
pub enum HookMode {
    /// Fire-and-forget - doesn't affect pipeline data
    Observe,
    /// Result can modify pipeline input/output
    Transform,
}

impl Default for HookMode {
    fn default() -> (m: Self)
        ensures
            m == HookMode::Observe,
    {
        HookMode::Observe
    }
}

/// Action to take when a hook fails
#[derive(Debug, Clone, Copy, PartialEq, Eq, Structural)]
pub enum FailureAction {
    /// Log error and continue execution
    Continue,
    /// Stop pipeline execution
    Abort,
}

impl Default for FailureAction {
    fn default() -> (a: Self)
        ensures
            a == FailureAction::Continue,
    {
        FailureAction::Continue
    }
}

/// Configuration for a single hook
#[derive(Debug, Clone)]
pub struct HookConfig {
    /// Name of the function to call
    pub function: String,
    /// Execution mode
    pub mode: HookMode,
    /// What to do on failure
    pub on_failure: FailureAction,
    /// Optional condition for hook execution (uses same syntax as node conditions)
    pub condition: Option<String>,
}

/// Pre and post hooks for an architecture node
#[derive(Debug, Clone)]
pub struct NodeHooks {
    /// Hooks executed before node processing
    pub pre: Vec<HookConfig>,
    /// Hooks executed after node processing
    pub post: Vec<HookConfig>,
}

impl Default for NodeHooks {
    fn default() -> (h: Self)
        ensures
            h.pre@.len() == 0,
            h.post@.len() == 0,
    {
        NodeHooks { pre: Vec::new(), post: Vec::new() }
    }
}

/// Output target specification - can be layers or specific nodes
#[derive(Debug, Clone)]
pub enum OutputTarget {
    /// Output to specific layer numbers
    Layers(Vec<u32>),
    /// Output to specific node names
    Nodes(Vec<String>),
}

/// Architecture node definition from the composition file
#[derive(Debug, Clone)]
pub struct ArchitectureNode {
    pub name: String,
    pub layer: Option<u32>,
    /// Reference to a model in the models map
    pub model: Option<String>,
    /// Adapter type: "openai-api", "output", "ws"
    pub adapter: String,
    pub bind_addr: Option<String>,
    pub bind_port: Option<String>,
    pub output_to: Option<OutputTarget>,
    /// Use-case description for routing decisions
    pub use_case: Option<String>,
    /// Conditional execution expression
    pub condition: Option<String>,
    /// WebSocket URL for "ws" adapter
    pub url: Option<String>,
    /// Deployment context override (default: localhost)
    pub context: Option<String>,
    pub extra_options: StrMap<JsonValue>,
    /// Pre and post execution hooks
    pub hooks: NodeHooks,
}

/// The first layer an output target names, if it names layers.
pub open spec fn target_layer(t: Option<OutputTarget>) -> Option<u32> {
    match t {
        Some(OutputTarget::Layers(ls)) => if ls@.len() > 0 {
            Some(ls@[0])
        } else {
            None
        },
        _ => None,
    }
}

impl ArchitectureNode {
    /// Check if this is a router node (layer 0 with output-to)
    pub fn is_router(&self) -> (b: bool)
        ensures
            b == (self.layer == Some(0u32) && self.output_to is Some),
    {
        self.layer == Some(0u32) && self.output_to.is_some()
    }

    /// Check if this is an output node
    pub fn is_output(&self) -> (b: bool)
        ensures
            b == (self.adapter@ == "output"@),
    {
        str_eq(self.adapter.as_str(), "output")
    }

    /// Get the bind address with default
    pub fn effective_bind_addr(&self) -> (a: &str)
        ensures
            a@ == match self.bind_addr {
                Some(b) => b@,
                None => "0.0.0.0"@,
            },
    {
        match &self.bind_addr {
            Some(b) => b.as_str(),
            None => "0.0.0.0",
        }
    }

    /// Get nodes in the next layer based on output-to
    pub fn get_target_layer(&self) -> (l: Option<u32>)
        ensures
            l == target_layer(self.output_to),
    {
        match &self.output_to {
            Some(OutputTarget::Layers(layers)) => {
                if layers.len() > 0 {
                    Some(layers[0])
                } else {
                    None
                }
            },
            _ => None,
        }
    }
}

} // verus!
