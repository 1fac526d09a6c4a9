//! Cluster contexts: named control-plane endpoints and the current selection.
use vstd::prelude::*;

use crate::strmap::StrMap;
use crate::text::{chars_of, chars_eq, decimal, push_decimal, push_str, str_eq, string_of};

verus! {

/// Default control plane port for LLMNet clusters
pub const DEFAULT_CONTROL_PLANE_PORT: u16 = 8181;

/// Default worker node port
pub const DEFAULT_WORKER_PORT: u16 = 8080;

/// Declaration of `std::path::PathBuf` for use in signatures.
#[verifier::external_type_specification]
#[verifier::external_body]
pub struct ExPathBuf(std::path::PathBuf);

/// Declaration of `std::io::Error` for use in signatures.
#[verifier::external_type_specification]
#[verifier::external_body]
pub struct ExIoError(std::io::Error);

/// Errors that can occur during context operations
#[derive(Debug)]
pub enum ContextError {
    ConfigNotFound(std::path::PathBuf),
    ContextNotFound(String),
    NoCurrentContext,
    ParseError(String),
    WriteError(String),
    IoError(std::io::Error),
    ConnectionFailed(String, String),
}

/// A single context representing a remote LLMNet cluster
#[derive(Debug, Clone)]
pub struct Context {
    /// Display name for this context
    pub name: String,
    /// URL of the control plane (e.g., "http://192.168.1.100:8181")
    pub url: String,
    /// Optional API key for authentication
    pub api_key: Option<String>,
    /// Optional description
    pub description: Option<String>,
}

/// Local cluster configuration
#[derive(Debug, Clone)]
pub struct LocalConfig {
    /// Default port for the local control plane
    pub port: u16,
    /// Default bind address
    pub bind_addr: String,
}

/// The complete configuration file structure
#[derive(Debug)]
pub struct Config {
    /// Currently active context name
    pub current_context: Option<String>,
    /// Map of context name to context definition
    pub contexts: StrMap<Context>,
    /// Local cluster configuration
    pub local: LocalConfig,
}

/// The view of an optional string.
pub open spec fn opt_view(o: Option<String>) -> Option<Seq<char>> {
    match o {
        Some(s) => Some(s@),
        None => None,
    }
}

/// The two contexts that exist without being configured.
pub open spec fn is_builtin(name: Seq<char>) -> bool {
    name == "local"@ || name == "worker"@
}

/// `http://{host}:{port}`.
pub open spec fn http_url(host: Seq<char>, port: nat) -> Seq<char> {
    "http://"@ + host + ":"@ + decimal(port)
}

impl LocalConfig {
    /// The defaults: port 8181 on 0.0.0.0.
    pub fn new() -> (c: Self)
        ensures
            c.port == DEFAULT_CONTROL_PLANE_PORT,
            c.bind_addr@ == "0.0.0.0"@,
    {
        LocalConfig { port: DEFAULT_CONTROL_PLANE_PORT, bind_addr: default_bind_address() }
    }
}

impl Default for LocalConfig {
    fn default() -> (c: Self)
        ensures
            c.port == DEFAULT_CONTROL_PLANE_PORT,
            c.bind_addr@ == "0.0.0.0"@,
    {
        LocalConfig::new()
    }
}

/// The port the local control plane listens on unless configured otherwise.
pub fn default_control_plane_port() -> (p: u16)
    ensures
        p == DEFAULT_CONTROL_PLANE_PORT,
{
    DEFAULT_CONTROL_PLANE_PORT
}

/// The address the local control plane binds to unless configured otherwise.
pub fn default_bind_address() -> (s: String)
    ensures
        s@ == "0.0.0.0"@,
{
    String::from_str("0.0.0.0")
}

impl Config {
    /// An empty configuration: no current context, no contexts, local defaults.
    pub fn new() -> (c: Self)
        ensures
            c.current_context is None,
            c.contexts@ == Map::<Seq<char>, Context>::empty(),
            c.local.port == DEFAULT_CONTROL_PLANE_PORT,
            c.local.bind_addr@ == "0.0.0.0"@,
    {
        Config { current_context: None, contexts: StrMap::new(), local: LocalConfig::new() }
    }

    /// Name of the context in use: the current one, or "local" when none is set.
    pub open spec fn current_name(self) -> Seq<char> {
        match self.current_context {
            Some(s) => s@,
            None => "local"@,
        }
    }

    /// The URL of the context in use: built-in for "local" and "worker",
    /// configured otherwise (`None` when the name is not configured).
    pub open spec fn current_url_spec(self) -> Option<Seq<char>> {
        let name = self.current_name();
        if name == "local"@ {
            Some(http_url(self.local.bind_addr@, self.local.port as nat))
        } else if name == "worker"@ {
            Some(http_url("localhost"@, DEFAULT_WORKER_PORT as nat))
        } else if self.contexts@.contains_key(name) {
            Some(self.contexts@[name].url@)
        } else {
            None
        }
    }

    /// Get the URL for the current context
    ///
    /// Built-in contexts:
    /// - "local" (default): Control plane at bind_addr:8181
    /// - "worker": Local worker node at localhost:8080
    pub fn current_url(&self) -> (r: Result<String, ContextError>)
        ensures
            match r {
                Ok(u) => self.current_url_spec() == Some(u@),
                Err(e) => self.current_url_spec() is None && (e matches ContextError::ContextNotFound(n)
                    && n@ == self.current_name()),
            },
    {
        proof {
            reveal_strlit("local");
            reveal_strlit("worker");
        }
        let name: Vec<char> = match &self.current_context {
            Some(s) => chars_of(s.as_str()),
            None => chars_of("local"),
        };
        let local = chars_of("local");
        let worker = chars_of("worker");
        if chars_eq(&name, &local) {
            let mut v: Vec<char> = Vec::new();
            push_str(&mut v, "http://");
            push_str(&mut v, self.local.bind_addr.as_str());
            push_str(&mut v, ":");
            push_decimal(&mut v, self.local.port as u64);
            assert("local"@.len() == 5);
            assert("worker"@.len() == 6);
            assert("local"@ != "worker"@);
            Ok(string_of(&v))
        } else if chars_eq(&name, &worker) {
            let mut v: Vec<char> = Vec::new();
            push_str(&mut v, "http://");
            push_str(&mut v, "localhost");
            push_str(&mut v, ":");
            push_decimal(&mut v, DEFAULT_WORKER_PORT as u64);
            assert(v@ == http_url("localhost"@, DEFAULT_WORKER_PORT as nat));
            Ok(string_of(&v))
        } else {
            let ns = string_of(&name);
            match self.contexts.get(ns.as_str()) {
                Some(c) => Ok(c.url.clone()),
                None => Err(ContextError::ContextNotFound(ns)),
            }
        }
    }

    /// Check if currently using local context (control plane)
    pub fn is_local(&self) -> (b: bool)
        ensures
            b == (self.current_name() == "local"@),
    {
        match &self.current_context {
            Some(s) => str_eq(s.as_str(), "local"),
            None => true,
        }
    }

    /// Check if currently using worker context
    pub fn is_worker(&self) -> (b: bool)
        ensures
            b == (opt_view(self.current_context) == Some("worker"@)),
    {
        match &self.current_context {
            Some(s) => str_eq(s.as_str(), "worker"),
            None => false,
        }
    }
}

impl Default for Config {
    fn default() -> (c: Self)
        ensures
            c.current_context is None,
            c.contexts@ == Map::<Seq<char>, Context>::empty(),
            c.local.port == DEFAULT_CONTROL_PLANE_PORT,
            c.local.bind_addr@ == "0.0.0.0"@,
    {
        Config::new()
    }
}

impl Context {
    /// Create a new context
    pub fn new(name: &str, url: &str) -> (c: Self)
        ensures
            c.name@ == name@,
            c.url@ == url@,
            c.api_key is None,
            c.description is None,
    {
        Context {
            name: String::from_str(name),
            url: String::from_str(url),
            api_key: None,
            description: None,
        }
    }

    /// Add an API key
    pub fn with_api_key(self, key: &str) -> (c: Self)
        ensures
            c.name == self.name,
            c.url == self.url,
            opt_view(c.api_key) == Some(key@),
            c.description == self.description,
    {
        Context { api_key: Some(String::from_str(key)), ..self }
    }

    /// Add a description
    pub fn with_description(self, desc: &str) -> (c: Self)
        ensures
            c.name == self.name,
            c.url == self.url,
            c.api_key == self.api_key,
            opt_view(c.description) == Some(desc@),
    {
        Context { description: Some(String::from_str(desc)), ..self }
    }
}

/// Add or update a context in the config
pub fn add_context(config: &mut Config, context: Context)
    ensures
        final(config).contexts@ == old(config).contexts@.insert(context.name@, context),
        final(config).current_context == old(config).current_context,
        final(config).local == old(config).local,
{
    let key = context.name.clone();
    let _ = config.contexts.insert(key, context);
}

/// Remove a context from the config
pub fn remove_context(config: &mut Config, name: &str) -> (removed: Option<Context>)
    ensures
        final(config).contexts@ == old(config).contexts@.remove(name@),
        match removed {
            Some(c) => old(config).contexts@.contains_key(name@) && c == old(config).contexts@[name@],
            None => !old(config).contexts@.contains_key(name@),
        },
        opt_view(old(config).current_context) == Some(name@) ==> final(config).current_context is None,
        opt_view(old(config).current_context) != Some(name@) ==> final(config).current_context
            == old(config).current_context,
        final(config).local == old(config).local,
{
    let removed = config.contexts.remove(name);
    let clear = match &config.current_context {
        Some(c) => str_eq(c.as_str(), name),
        None => false,
    };
    if clear {
        config.current_context = None;
    }
    removed
}

/// Set the current context
pub fn set_current_context(config: &mut Config, name: &str) -> (r: Result<(), ContextError>)
    ensures
        r is Ok <==> (old(config).contexts@.contains_key(name@) || is_builtin(name@)),
        r is Ok ==> opt_view(final(config).current_context) == Some(name@),
        r matches Err(e) ==> (e matches ContextError::ContextNotFound(n) && n@ == name@),
        r is Err ==> final(config).current_context == old(config).current_context,
        final(config).contexts == old(config).contexts,
        final(config).local == old(config).local,
{
    let is_builtin = str_eq(name, "local") || str_eq(name, "worker");
    if !config.contexts.contains_key(name) && !is_builtin {
        return Err(ContextError::ContextNotFound(String::from_str(name)));
    }
    config.current_context = Some(String::from_str(name));
    Ok(())
}

/// Get the current context
pub fn get_current_context(config: &Config) -> (r: Result<&str, ContextError>)
    ensures
        match config.current_context {
            Some(s) => r matches Ok(n) && n@ == s@,
            None => r matches Err(ContextError::NoCurrentContext),
        },
{
    match &config.current_context {
        Some(s) => Ok(s.as_str()),
        None => Err(ContextError::NoCurrentContext),
    }
}

/// Get a context by name
pub fn get_context<'a>(config: &'a Config, name: &str) -> (r: Result<&'a Context, ContextError>)
    ensures
        match r {
            Ok(c) => config.contexts@.contains_key(name@) && *c == config.contexts@[name@],
            Err(e) => !config.contexts@.contains_key(name@) && (e matches ContextError::ContextNotFound(n) && n@ == name@),
        },
{
    match config.contexts.get(name) {
        Some(c) => Ok(c),
        None => Err(ContextError::ContextNotFound(String::from_str(name))),
    }
}

/// List all context names
pub fn list_contexts(config: &Config) -> (r: Vec<&str>)
    ensures
        r@.len() == config.contexts@.len(),
        forall|i: int| 0 <= i < r@.len() ==> config.contexts@.contains_key(#[trigger] r@[i]@),
        forall|k: Seq<char>|
            config.contexts@.contains_key(k) ==> exists|i: int| 0 <= i < r@.len() && #[trigger] r@[i]@ == k,
        forall|i: int, j: int| 0 <= i < j < r@.len() ==> r@[i]@ != r@[j]@,
{
    let n = config.contexts.len();
    let mut out: Vec<&str> = Vec::new();
    for i in 0..n
        invariant
            n == config.contexts.key_seq().len(),
            out@.len() == i,
            forall|j: int| 0 <= j < i ==> #[trigger] out@[j]@ == config.contexts.key_seq()[j],
    {
        out.push(config.contexts.key_at(i).as_str());
    }
    proof {
        let ks = config.contexts.key_seq();
        assert forall|k: Seq<char>| config.contexts@.contains_key(k) implies exists|i: int|
            0 <= i < out@.len() && #[trigger] out@[i]@ == k by {
            assert(ks.to_set().contains(k));
            let i = choose|i: int| 0 <= i < ks.len() && ks[i] == k;
            assert(out@[i]@ == k);
        }
        assert forall|i: int| 0 <= i < out@.len() implies config.contexts@.contains_key(
            #[trigger] out@[i]@,
        ) by {
            assert(out@[i]@ == ks[i]);
        }
        assert forall|i: int, j: int| 0 <= i < j < out@.len() implies out@[i]@ != out@[j]@ by {
            assert(out@[i]@ == ks[i]);
            assert(out@[j]@ == ks[j]);
        }
    }
    out
}

} // verus!
