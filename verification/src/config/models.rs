//! Model runner types and the legacy model definitions.
use vstd::prelude::*;

use crate::json::JsonValue;
use crate::runtime::docker::DockerConfig;
use crate::runtime::ollama::v1_endpoint;
use crate::strmap::StrMap;
use crate::text::{push_decimal, push_str, str_eq, string_of};

verus! {

/// Runner type for model execution
#[derive(Debug, Clone, Copy, PartialEq, Eq, Structural)]
pub enum RunnerType {
    /// External API endpoint (e.g., OpenAI, Anthropic, self-hosted)
    External,
    /// Ollama local runner
    Ollama,
    /// vLLM local runner
    Vllm,
    /// llama.cpp local runner
    LlamaCpp,
    /// Docker-based runner
    Docker,
}

impl Default for RunnerType {
    fn default() -> (r: Self)
        ensures
            r == RunnerType::External,
    {
        RunnerType::External
    }
}

/// The port a runner type listens on by default, if it has one.
pub open spec fn runner_default_port(r: RunnerType) -> Option<u16> {
    match r {
        RunnerType::External => None,
        RunnerType::Ollama => Some(11434u16),
        RunnerType::Vllm => Some(8000u16),
        RunnerType::LlamaCpp => Some(8080u16),
        RunnerType::Docker => None,
    }
}

impl RunnerType {
    /// Get the default port for this runner type
    pub fn default_port(&self) -> (p: Option<u16>)
        ensures
            p == runner_default_port(*self),
    {
        match self {
            RunnerType::External => None,
            RunnerType::Ollama => Some(11434),
            RunnerType::Vllm => Some(8000),
            RunnerType::LlamaCpp => Some(8080),
            RunnerType::Docker => None,
        }
    }

    /// Check if this runner needs to be spawned as a subprocess
    pub fn is_local_runner(&self) -> (b: bool)
        ensures
            b == (*self == RunnerType::Ollama || *self == RunnerType::Vllm || *self
                == RunnerType::LlamaCpp),
    {
        match self {
            RunnerType::Ollama | RunnerType::Vllm | RunnerType::LlamaCpp => true,
            _ => false,
        }
    }
}

/// Every runner that is spawned locally has a default port.
pub proof fn lemma_local_runners_have_ports(r: RunnerType)
    requires
        r == RunnerType::Ollama || r == RunnerType::Vllm || r == RunnerType::LlamaCpp,
    ensures
        runner_default_port(r) is Some,
{
}

/// External OpenAI-compatible API endpoint (legacy)
#[derive(Debug, Clone, PartialEq)]
pub struct ExternalModel {
    pub interface: String,
    pub url: String,
    pub api_key: Option<String>,
}

/// Docker-based model runner (legacy)
#[derive(Debug, Clone, PartialEq)]
pub struct DockerModel {
    pub image: String,
    pub pat: Option<String>,
    pub registry_url: Option<String>,
    pub params: Option<String>,
}

/// HuggingFace model with runner specification (legacy)
#[derive(Debug, Clone, PartialEq)]
pub struct HuggingfaceModel {
    pub url: String,
    pub hf_pat: Option<String>,
    pub runner: String,
}

/// Unified model configuration: the runner, the API interface, where the model
/// comes from, the endpoint, an API key, runner parameters and Docker settings.
#[derive(Debug)]
pub struct ModelConfig {
    /// Runner type: external, ollama, vllm, llama-cpp, docker
    pub runner: RunnerType,
    /// API interface: openai-api (default)
    pub interface: String,
    /// Model source: URL, local path, HF repo, or model name
    pub source: Option<String>,
    /// Endpoint URL (required for external, auto-generated for local runners)
    pub endpoint: Option<String>,
    /// API key for authentication
    pub api_key: Option<String>,
    /// Runner-specific parameters
    pub parameters: StrMap<JsonValue>,
    /// Docker configuration (for runner: "docker")
    pub docker: Option<DockerConfig>,
}

/// The view of an optional string.
pub open spec fn opt_chars(o: Option<String>) -> Option<Seq<char>> {
    match o {
        Some(s) => Some(s@),
        None => None,
    }
}

/// Two model configurations agree on everything but the Docker settings, which
/// both have or both lack.
pub open spec fn same_config(a: ModelConfig, b: ModelConfig) -> bool {
    &&& a.runner == b.runner
    &&& a.interface@ == b.interface@
    &&& opt_chars(a.source) == opt_chars(b.source)
    &&& opt_chars(a.endpoint) == opt_chars(b.endpoint)
    &&& opt_chars(a.api_key) == opt_chars(b.api_key)
    &&& a.parameters.key_seq() == b.parameters.key_seq()
    &&& a.parameters.val_seq().len() == b.parameters.val_seq().len()
    &&& forall|i: int| 0 <= i < a.parameters.val_seq().len() ==> (#[trigger] a.parameters.val_seq()[i])@ == b.parameters.val_seq()[i]@
    &&& (a.docker is Some <==> b.docker is Some)
}

fn clone_opt(o: &Option<String>) -> (r: Option<String>)
    ensures
        opt_chars(r) == opt_chars(*o),
{
    match o {
        Some(s) => Some(s.clone()),
        None => None,
    }
}

impl Clone for ModelConfig {
    fn clone(&self) -> (r: Self)
        ensures
            same_config(r, *self),
    {
        let parameters = self.parameters.clone();
        proof {
            assert forall|i: int| 0 <= i < parameters.val_seq().len() implies (#[trigger] parameters.val_seq()[i])@
                == self.parameters.val_seq()[i]@ by {
                assert(cloned::<JsonValue>(self.parameters.val_seq()[i], parameters.val_seq()[i]));
            }
        }
        ModelConfig {
            runner: self.runner,
            interface: self.interface.clone(),
            source: clone_opt(&self.source),
            endpoint: clone_opt(&self.endpoint),
            api_key: clone_opt(&self.api_key),
            parameters,
            docker: self.docker.clone(),
        }
    }
}

/// The API interface unless configured otherwise.
pub fn default_interface() -> (s: String)
    ensures
        s@ == "openai-api"@,
{
    String::from_str("openai-api")
}

/// A configuration with the given runner and source and everything else default.
pub open spec fn config_with(c: ModelConfig, runner: RunnerType, source: Option<Seq<char>>, endpoint: Option<Seq<char>>) -> bool {
    &&& c.runner == runner
    &&& c.interface@ == "openai-api"@
    &&& opt_chars(c.source) == source
    &&& opt_chars(c.endpoint) == endpoint
    &&& c.api_key is None
    &&& c.parameters@ == Map::<Seq<char>, JsonValue>::empty()
    &&& c.docker is None
}

impl Default for ModelConfig {
    fn default() -> (c: Self)
        ensures
            config_with(c, RunnerType::External, None, None),
    {
        ModelConfig {
            runner: RunnerType::External,
            interface: default_interface(),
            source: None,
            endpoint: None,
            api_key: None,
            parameters: StrMap::new(),
            docker: None,
        }
    }
}

/// `http://{host}:{port}/v1` for local runners, nothing for the others.
pub open spec fn local_endpoint(r: RunnerType, host: Seq<char>, port: u16) -> Option<Seq<char>> {
    match r {
        RunnerType::Ollama | RunnerType::Vllm | RunnerType::LlamaCpp => Some(v1_endpoint(host, port as nat)),
        _ => None,
    }
}

/// The endpoint a configuration resolves to: the configured one, or a local
/// runner's on `host` at the given port or the runner's default port.
pub open spec fn effective_endpoint_spec(c: ModelConfig, host: Seq<char>, port: Option<u16>) -> Option<Seq<char>> {
    match c.endpoint {
        Some(e) => Some(e@),
        None => match (if port is Some { port } else { runner_default_port(c.runner) }) {
            Some(p) => local_endpoint(c.runner, host, p),
            None => None,
        },
    }
}

/// The name of a runner as configuration files spell it.
pub open spec fn runner_name(r: RunnerType) -> Seq<char> {
    match r {
        RunnerType::External => "external"@,
        RunnerType::Ollama => "ollama"@,
        RunnerType::Vllm => "vllm"@,
        RunnerType::LlamaCpp => "llama-cpp"@,
        RunnerType::Docker => "docker"@,
    }
}

impl ModelConfig {
    /// Create a new external model configuration
    pub fn external(endpoint: &str) -> (c: Self)
        ensures
            config_with(c, RunnerType::External, None, Some(endpoint@)),
    {
        ModelConfig { endpoint: Some(String::from_str(endpoint)), ..ModelConfig::default() }
    }

    /// Create a new Ollama model configuration
    pub fn ollama(source: &str) -> (c: Self)
        ensures
            config_with(c, RunnerType::Ollama, Some(source@), None),
    {
        ModelConfig { runner: RunnerType::Ollama, source: Some(String::from_str(source)), ..ModelConfig::default() }
    }

    /// Create a new vLLM model configuration
    pub fn vllm(source: &str) -> (c: Self)
        ensures
            config_with(c, RunnerType::Vllm, Some(source@), None),
    {
        ModelConfig { runner: RunnerType::Vllm, source: Some(String::from_str(source)), ..ModelConfig::default() }
    }

    /// Create a new llama.cpp model configuration
    pub fn llamacpp(source: &str) -> (c: Self)
        ensures
            config_with(c, RunnerType::LlamaCpp, Some(source@), None),
    {
        ModelConfig { runner: RunnerType::LlamaCpp, source: Some(String::from_str(source)), ..ModelConfig::default() }
    }

    /// Create a new Docker-based model configuration
    pub fn docker(source: &str, docker_config: DockerConfig) -> (c: Self)
        ensures
            c.runner == RunnerType::Docker,
            c.interface@ == "openai-api"@,
            opt_chars(c.source) == Some(source@),
            c.endpoint is None,
            c.api_key is None,
            c.parameters@ == Map::<Seq<char>, JsonValue>::empty(),
            c.docker == Some(docker_config),
    {
        ModelConfig {
            runner: RunnerType::Docker,
            source: Some(String::from_str(source)),
            docker: Some(docker_config),
            ..ModelConfig::default()
        }
    }

    /// Add Docker configuration
    pub fn with_docker(self, docker_config: DockerConfig) -> (c: Self)
        ensures
            c == (ModelConfig { docker: Some(docker_config), ..self }),
    {
        ModelConfig { docker: Some(docker_config), ..self }
    }

    /// Add an API key
    pub fn with_api_key(self, key: &str) -> (c: Self)
        ensures
            opt_chars(c.api_key) == Some(key@),
            c.runner == self.runner && c.interface == self.interface && c.source == self.source
                && c.endpoint == self.endpoint && c.parameters == self.parameters && c.docker
                == self.docker,
    {
        ModelConfig { api_key: Some(String::from_str(key)), ..self }
    }

    /// Add parameters
    pub fn with_parameters(self, params: StrMap<JsonValue>) -> (c: Self)
        ensures
            c == (ModelConfig { parameters: params, ..self }),
    {
        ModelConfig { parameters: params, ..self }
    }

    /// Add a single parameter
    pub fn with_parameter(self, key: &str, value: JsonValue) -> (c: Self)
        ensures
            c.parameters@ == self.parameters@.insert(key@, value),
            c.runner == self.runner && c.interface == self.interface && c.source == self.source
                && c.endpoint == self.endpoint && c.api_key == self.api_key && c.docker
                == self.docker,
    {
        let mut c = self;
        let _ = c.parameters.insert(String::from_str(key), value);
        c
    }

    /// Get the effective endpoint URL
    ///
    /// For external runners, returns the configured endpoint.
    /// For local runners, generates based on runner defaults.
    pub fn effective_endpoint(&self, host: &str, port: Option<u16>) -> (r: Option<String>)
        ensures
            opt_chars(r) == effective_endpoint_spec(*self, host@, port),
    {
        match &self.endpoint {
            Some(e) => {
                return Some(e.clone());
            },
            None => {},
        }
        let p = match port {
            Some(p) => p,
            None => match self.runner.default_port() {
                Some(p) => p,
                None => {
                    return None;
                },
            },
        };
        match self.runner {
            RunnerType::Ollama | RunnerType::Vllm | RunnerType::LlamaCpp => {
                let mut v: Vec<char> = Vec::new();
                push_str(&mut v, "http://");
                push_str(&mut v, host);
                push_str(&mut v, ":");
                push_decimal(&mut v, p as u64);
                push_str(&mut v, "/v1");
                Some(string_of(&v))
            },
            _ => None,
        }
    }

    /// Get the runner type name as a string
    pub fn type_label(&self) -> (n: &'static str)
        ensures
            n@ == runner_name(self.runner),
    {
        match self.runner {
            RunnerType::External => "external",
            RunnerType::Ollama => "ollama",
            RunnerType::Vllm => "vllm",
            RunnerType::LlamaCpp => "llama-cpp",
            RunnerType::Docker => "docker",
        }
    }
}

/// Model definition types (legacy format for backward compatibility)
#[derive(Debug, Clone)]
pub enum ModelDefinition {
    External(ExternalModel),
    Docker(DockerModel),
    Huggingface(HuggingfaceModel),
    /// New unified format
    Unified(ModelConfig),
}

/// The runner a legacy HuggingFace model names.
pub open spec fn hf_runner(name: Seq<char>) -> RunnerType {
    if name == "ollama"@ {
        RunnerType::Ollama
    } else if name == "vllm"@ {
        RunnerType::Vllm
    } else if name == "llama-cpp"@ || name == "llamacpp"@ {
        RunnerType::LlamaCpp
    } else {
        RunnerType::External
    }
}

/// The display name of a model definition's type.
pub open spec fn definition_type_name(d: ModelDefinition) -> Seq<char> {
    match d {
        ModelDefinition::External(_) => "external"@,
        ModelDefinition::Docker(_) => "docker"@,
        ModelDefinition::Huggingface(_) => "huggingface"@,
        ModelDefinition::Unified(c) => runner_name(c.runner),
    }
}

impl ModelDefinition {
    /// Get the model type as a string for display
    pub fn type_label(&self) -> (n: &'static str)
        ensures
            n@ == definition_type_name(*self),
    {
        match self {
            ModelDefinition::External(_) => "external",
            ModelDefinition::Docker(_) => "docker",
            ModelDefinition::Huggingface(_) => "huggingface",
            ModelDefinition::Unified(config) => config.type_label(),
        }
    }

    /// Convert to unified ModelConfig
    pub fn to_config(&self) -> (c: ModelConfig)
        ensures
            match *self {
                ModelDefinition::External(ext) => c.runner == RunnerType::External && c.interface@
                    == ext.interface@ && opt_chars(c.endpoint) == Some(ext.url@) && opt_chars(
                    c.api_key,
                ) == opt_chars(ext.api_key) && c.source is None && c.parameters@ == Map::<
                    Seq<char>,
                    JsonValue,
                >::empty() && c.docker is None,
                ModelDefinition::Docker(d) => config_with(c, RunnerType::Docker, Some(d.image@), None),
                ModelDefinition::Huggingface(hf) => config_with(c, hf_runner(hf.runner@), Some(hf.url@), None),
                ModelDefinition::Unified(u) => same_config(c, u),
            },
    {
        match self {
            ModelDefinition::External(ext) => ModelConfig {
                runner: RunnerType::External,
                interface: ext.interface.clone(),
                endpoint: Some(ext.url.clone()),
                api_key: clone_opt(&ext.api_key),
                source: None,
                parameters: StrMap::new(),
                docker: None,
            },
            ModelDefinition::Docker(d) => ModelConfig {
                runner: RunnerType::Docker,
                interface: default_interface(),
                source: Some(d.image.clone()),
                endpoint: None,
                api_key: None,
                parameters: StrMap::new(),
                docker: None,
            },
            ModelDefinition::Huggingface(hf) => {
                let r = hf.runner.as_str();
                let runner = if str_eq(r, "ollama") {
                    RunnerType::Ollama
                } else if str_eq(r, "vllm") {
                    RunnerType::Vllm
                } else if str_eq(r, "llama-cpp") || str_eq(r, "llamacpp") {
                    RunnerType::LlamaCpp
                } else {
                    RunnerType::External
                };
                ModelConfig {
                    runner,
                    interface: default_interface(),
                    source: Some(hf.url.clone()),
                    endpoint: None,
                    api_key: None,
                    parameters: StrMap::new(),
                    docker: None,
                }
            },
            ModelDefinition::Unified(config) => config.clone(),
        }
    }
}

} // verus!
