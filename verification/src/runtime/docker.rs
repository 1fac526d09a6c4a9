//! Docker container management for model runners
//!
//! Configuration and command-line argument generation for running model
//! runners (vLLM, etc.) inside Docker containers.
use vstd::prelude::*;

use crate::json::{JsonValue, JsonView};
use crate::strmap::StrMap;
use crate::text::{
    chars_of, find_char, find_char_exec, find_from, lemma_find_char_bounds, lowercase,
    lowercase_chars, occurs_at, push_all, push_decimal, push_str, replace_char, replace_char_exec,
    slice_chars, str_eq, str_views, string_of, to_string, uppercase, uppercase_chars,
};
use crate::text::decimal;

verus! {

/// Errors that can occur during Docker operations
#[derive(Debug)]
pub enum DockerError {
    NotAvailable(String),
    ConfigError(String),
    AuthError(String),
    PullError(String),
    StartError(String),
    FetchError(String),
    BuildError(String),
}

/// Docker registry configuration
#[derive(Debug, Clone)]
pub struct RegistryConfig {
    /// Registry URL (e.g., "registry.example.com", "ghcr.io"); Docker Hub when absent
    pub url: Option<String>,
    /// Authentication token or password (may hold `${VAR}` references)
    pub token: Option<String>,
    /// Username for registry authentication
    pub username: Option<String>,
}

impl Default for RegistryConfig {
    fn default() -> (r: Self)
        ensures
            r.url is None,
            r.token is None,
            r.username is None,
    {
        RegistryConfig { url: None, token: None, username: None }
    }
}

/// Docker container configuration
#[derive(Debug, Clone)]
pub struct DockerConfig {
    /// Pre-built image name; mutually exclusive with `dockerfile`
    pub image: Option<String>,
    /// Path to a Dockerfile (local or remote URL); mutually exclusive with `image`
    pub dockerfile: Option<String>,
    /// Build context directory (required if using dockerfile)
    pub context: Option<String>,
    /// Custom registry configuration
    pub registry: Option<RegistryConfig>,
    /// Container name prefix
    pub name: Option<String>,
    /// Network mode: "host", "bridge", or a custom network name
    pub network: String,
    /// GPU configuration: "all", specific IDs "0,1", or count "2"
    pub gpus: Option<String>,
    /// IPC mode: "host", "private", "shareable"
    pub ipc: Option<String>,
    /// Shared memory size (e.g., "16g")
    pub shm_size: Option<String>,
    /// Volume mounts: ["host:container", ...]
    pub volumes: Vec<String>,
    /// Additional environment variables
    pub env: StrMap<String>,
    /// Extra arguments to pass to the container command
    pub extra_args: Option<String>,
    /// Run container in detached mode
    pub detached: bool,
    /// Automatically remove container when stopped
    pub auto_remove: bool,
    /// Container restart policy: "no", "always", "unless-stopped", "on-failure"
    pub restart: Option<String>,
}

impl Default for DockerConfig {
    /// Every option absent, empty collections, empty network name, flags off.
    fn default() -> (c: Self)
        ensures
            c.image is None,
            c.dockerfile is None,
            c.context is None,
            c.registry is None,
            c.name is None,
            c.network@ == Seq::<char>::empty(),
            c.gpus is None,
            c.ipc is None,
            c.shm_size is None,
            c.volumes@.len() == 0,
            c.env@ == Map::<Seq<char>, String>::empty(),
            c.extra_args is None,
            !c.detached,
            !c.auto_remove,
            c.restart is None,
    {
        DockerConfig {
            image: None,
            dockerfile: None,
            context: None,
            registry: None,
            name: None,
            network: String::new(),
            gpus: None,
            ipc: None,
            shm_size: None,
            volumes: Vec::new(),
            env: StrMap::new(),
            extra_args: None,
            detached: false,
            auto_remove: false,
            restart: None,
        }
    }
}

/// Network mode used when a configuration names none.
pub fn default_network() -> (s: String)
    ensures
        s@ == "host"@,
{
    to_string("host")
}

/// Containers run detached unless a configuration says otherwise.
pub fn default_detached() -> (b: bool)
    ensures
        b,
{
    true
}

/// The image name used for a Dockerfile build of `model_name`.
pub open spec fn built_image_name(model_name: Seq<char>) -> Seq<char> {
    "llmnet-"@ + lowercase(replace_char(model_name, '/', '-'))
}

impl DockerConfig {
    /// Validate the configuration: exactly one of `image` and `dockerfile` must be given.
    pub fn validate(&self) -> (r: Result<(), DockerError>)
        ensures
            r is Ok <==> (self.image is Some != self.dockerfile is Some),
            (self.image is None && self.dockerfile is None) ==> (r matches Err(
                DockerError::ConfigError(m),
            ) && m@ == "Either 'image' or 'dockerfile' must be specified"@),
            (self.image is Some && self.dockerfile is Some) ==> (r matches Err(
                DockerError::ConfigError(m),
            ) && m@ == "'image' and 'dockerfile' are mutually exclusive"@),
    {
        match (&self.image, &self.dockerfile) {
            (None, None) => {
                return Err(
                    DockerError::ConfigError(
                        to_string("Either 'image' or 'dockerfile' must be specified"),
                    ),
                );
            },
            (Some(_), Some(_)) => {
                return Err(
                    DockerError::ConfigError(
                        to_string("'image' and 'dockerfile' are mutually exclusive"),
                    ),
                );
            },
            _ => {},
        }
        Ok(())
    }

    /// Check if this config uses a Dockerfile (needs build)
    pub fn needs_build(&self) -> (b: bool)
        ensures
            b == self.dockerfile is Some,
    {
        self.dockerfile.is_some()
    }

    /// Get the effective image name
    pub fn effective_image(&self, model_name: &str) -> (s: String)
        ensures
            match self.image {
                Some(i) => s@ == i@,
                None => s@ == built_image_name(model_name@),
            },
    {
        match &self.image {
            Some(image) => image.clone(),
            None => {
                let m = chars_of(model_name);
                let replaced = replace_char_exec(&m, '/', '-');
                let low = lowercase_chars(&replaced);
                let mut v: Vec<char> = Vec::new();
                push_str(&mut v, "llmnet-");
                push_all(&mut v, &low);
                string_of(&v)
            },
        }
    }
}

/// Convert a parameter key to environment variable format
/// e.g., "tensor_parallel_size" -> "TENSOR_PARALLEL_SIZE"
pub fn param_to_env_var(key: &str) -> (s: String)
    ensures
        s@ == uppercase(key@),
{
    let k = chars_of(key);
    let u = uppercase_chars(&k);
    string_of(&u)
}

/// Map common parameter names to their Docker env var equivalents
pub fn map_param_name(key: &str) -> (r: &str)
    ensures
        key@ == "gpu_memory_utilization"@ ==> r@ == "GPU_MEMORY_UTIL"@,
        key@ != "gpu_memory_utilization"@ ==> r@ == key@,
{
    if str_eq(key, "gpu_memory_utilization") {
        "GPU_MEMORY_UTIL"
    } else {
        key
    }
}

/// `p` occurs at `i` in `s` and nowhere before.
pub open spec fn first_at(s: Seq<char>, p: Seq<char>, i: int) -> bool {
    occurs_at(s, p, i) && forall|j: int| 0 <= j < i ==> !occurs_at(s, p, j)
}

/// The first `${NAME}` reference of `s`, as the text before it, `NAME` and the
/// text after it: the first `${`, closed by the first `}` after it. `None` when
/// there is no `${`, or no `}` after the first one.
pub open spec fn env_reference(s: Seq<char>) -> Option<(Seq<char>, Seq<char>, Seq<char>)> {
    if exists|i: int| first_at(s, "${"@, i) {
        let start = choose|i: int| first_at(s, "${"@, i);
        let end = start + find_char(s.skip(start), '}');
        if end < s.len() {
            Some((s.take(start), s.subrange(start + 2, end), s.skip(end + 1)))
        } else {
            None
        }
    } else {
        None
    }
}

/// One step of `${VAR}` expansion.
#[derive(Debug)]
pub enum EnvStep {
    /// No reference is left: the text is final.
    Done,
    /// Look `name` up in the environment (empty when unset) and continue with
    /// `before`, its value and `after`.
    Lookup { before: String, name: String, after: String },
}

/// The next step of expanding the `${VAR}` references of `input`: expansion
/// replaces the first reference by the variable's value and starts over, until no
/// reference is left.
pub fn expand_env_step(input: &str) -> (r: EnvStep)
    ensures
        match env_reference(input@) {
            Some((b, n, a)) => r matches EnvStep::Lookup { before, name, after } && before@ == b
                && name@ == n && after@ == a,
            None => r is Done,
        },
{
    let c = chars_of(input);
    let pat = chars_of("${");
    proof {
        reveal_strlit("${");
    }
    match find_from(&c, &pat, 0) {
        None => {
            assert(!exists|i: int| first_at(input@, "${"@, i));
            EnvStep::Done
        },
        Some(start) => {
            assert(first_at(input@, "${"@, start as int));
            let ghost chosen = choose|i: int| first_at(input@, "${"@, i);
            assert(chosen == start) by {
                if chosen < start {
                    assert(!occurs_at(input@, "${"@, chosen));
                } else if chosen > start {
                    assert(!occurs_at(input@, "${"@, start as int));
                }
            }
            let rest = slice_chars(&c, start, c.len());
            assert(rest@ =~= input@.skip(start as int));
            let e = find_char_exec(&rest, '}');
            if e >= rest.len() {
                return EnvStep::Done;
            }
            proof {
                lemma_find_char_bounds(rest@, '}');
                assert(rest@[0] == '$' && rest@[1] == '{') by {
                    assert(input@.subrange(start as int, start + 2) == "${"@);
                    assert(input@.subrange(start as int, start + 2)[0] == input@[start as int]);
                    assert(input@.subrange(start as int, start + 2)[1] == input@[start + 1]);
                }
                assert(e >= 2);
            }
            let end = start + e;
            let before = slice_chars(&c, 0, start);
            let name = slice_chars(&c, start + 2, end);
            let after = slice_chars(&c, end + 1, c.len());
            assert(before@ =~= input@.take(start as int));
            assert(after@ =~= input@.skip(end + 1));
            EnvStep::Lookup { before: string_of(&before), name: string_of(&name), after: string_of(&after) }
        },
    }
}

/// `flag value` when the option is set, nothing otherwise.
pub open spec fn opt_flag(flag: Seq<char>, o: Option<String>) -> Seq<Seq<char>> {
    match o {
        Some(v) => seq![flag, v@],
        None => seq![],
    }
}

/// The text a parameter value gives an environment variable: booleans, numbers
/// and strings; other values give none.
pub open spec fn param_value_text(v: JsonView) -> Option<Seq<char>> {
    match v {
        JsonView::Bool(b) => Some(if b { "true"@ } else { "false"@ }),
        JsonView::Number(n) => Some(n),
        JsonView::String(t) => Some(t),
        _ => None,
    }
}

/// The environment variable a parameter sets.
pub open spec fn param_env_name(key: Seq<char>) -> Seq<char> {
    uppercase(if key == "gpu_memory_utilization"@ { "GPU_MEMORY_UTIL"@ } else { key })
}

/// `-e NAME=value` for each of the first `n` parameters that has a value text.
pub open spec fn param_env_args(keys: Seq<Seq<char>>, vals: Seq<JsonValue>, n: nat) -> Seq<Seq<char>>
    decreases n,
{
    if n == 0 || n > keys.len() || n > vals.len() {
        seq![]
    } else {
        param_env_args(keys, vals, (n - 1) as nat) + match param_value_text(vals[n - 1]@) {
            Some(t) => seq!["-e"@, param_env_name(keys[n - 1]) + "="@ + t],
            None => seq![],
        }
    }
}

/// `-e KEY=value` for the first `n` environment entries.
pub open spec fn env_args(keys: Seq<Seq<char>>, vals: Seq<Seq<char>>, n: nat) -> Seq<Seq<char>>
    decreases n,
{
    if n == 0 || n > keys.len() || n > vals.len() {
        seq![]
    } else {
        env_args(keys, vals, (n - 1) as nat) + seq!["-e"@, keys[n - 1] + "="@ + vals[n - 1]]
    }
}

/// `-v mount` for the first `n` mounts.
pub open spec fn volume_args(vols: Seq<Seq<char>>, n: nat) -> Seq<Seq<char>>
    decreases n,
{
    if n == 0 || n > vols.len() {
        seq![]
    } else {
        volume_args(vols, (n - 1) as nat) + seq!["-v"@, vols[n - 1]]
    }
}

/// The options of `docker run` that come from the configuration alone.
pub open spec fn run_options(config: DockerConfig, container_name: Seq<char>) -> Seq<Seq<char>> {
    seq!["run"@] + (if config.detached { seq!["-d"@] } else { seq![] }) + seq![
        "--name"@,
        container_name,
        "--network"@,
        config.network@,
    ] + opt_flag("--gpus"@, config.gpus) + opt_flag("--ipc"@, config.ipc) + opt_flag(
        "--shm-size"@,
        config.shm_size,
    ) + (if config.auto_remove { seq!["--rm"@] } else { seq![] }) + opt_flag("--restart"@, config.restart)
}

/// The arguments of `docker run` for a model runner: the options, MODEL and PORT,
/// the parameters, extra runner arguments, the configured environment (values
/// given expanded), the volume mounts (given expanded), the image and `serve`.
pub open spec fn run_args(
    config: DockerConfig,
    model_source: Seq<char>,
    port: u16,
    parameters: StrMap<JsonValue>,
    container_name: Seq<char>,
    env_values: Seq<Seq<char>>,
    volumes: Seq<Seq<char>>,
) -> Seq<Seq<char>> {
    run_options(config, container_name) + seq![
        "-e"@,
        "MODEL="@ + model_source,
        "-e"@,
        "PORT="@ + decimal(port as nat),
    ] + param_env_args(parameters.key_seq(), parameters.val_seq(), parameters.key_seq().len())
        + match config.extra_args {
        Some(x) => seq!["-e"@, "VLLM_EXTRA_ARGS="@ + x@],
        None => seq![],
    } + env_args(config.env.key_seq(), env_values, config.env.key_seq().len()) + volume_args(
        volumes,
        volumes.len(),
    ) + seq![
        match config.image {
            Some(i) => i@,
            None => built_image_name(container_name),
        },
        "serve"@,
    ]
}

fn push_arg(args: &mut Vec<String>, s: String)
    ensures
        str_views(final(args)@) == str_views(old(args)@).push(s@),
{
    args.push(s);
    assert(str_views(args@) =~= str_views(old(args)@).push(s@));
}

fn push_opt_flag(args: &mut Vec<String>, flag: &str, o: &Option<String>)
    ensures
        str_views(final(args)@) == str_views(old(args)@) + opt_flag(flag@, *o),
{
    match o {
        Some(v) => {
            push_arg(args, to_string(flag));
            push_arg(args, v.clone());
        },
        None => {},
    }
    assert(str_views(args@) =~= str_views(old(args)@) + opt_flag(flag@, *o));
}

fn push_run_options(args: &mut Vec<String>, config: &DockerConfig, container_name: &str)
    ensures
        str_views(final(args)@) == str_views(old(args)@) + run_options(*config, container_name@),
{
    push_arg(args, to_string("run"));
    if config.detached {
        push_arg(args, to_string("-d"));
    }
    push_arg(args, to_string("--name"));
    push_arg(args, to_string(container_name));
    push_arg(args, to_string("--network"));
    push_arg(args, config.network.clone());
    push_opt_flag(args, "--gpus", &config.gpus);
    push_opt_flag(args, "--ipc", &config.ipc);
    push_opt_flag(args, "--shm-size", &config.shm_size);
    if config.auto_remove {
        push_arg(args, to_string("--rm"));
    }
    push_opt_flag(args, "--restart", &config.restart);
    assert(str_views(args@) =~= str_views(old(args)@) + run_options(*config, container_name@));
}

fn push_param_envs(args: &mut Vec<String>, parameters: &StrMap<JsonValue>)
    ensures
        str_views(final(args)@) == str_views(old(args)@) + param_env_args(
            parameters.key_seq(),
            parameters.val_seq(),
            parameters.key_seq().len(),
        ),
{
    let n = parameters.len();
    let ghost h = str_views(args@);
    for i in 0..n
        invariant
            n == parameters.key_seq().len(),
            n == parameters.val_seq().len(),
            str_views(args@) == h + param_env_args(parameters.key_seq(), parameters.val_seq(), i as nat),
    {
        let k = parameters.key_at(i);
        let v = parameters.val_at(i);
        let text: Option<String> = match v {
            JsonValue::Bool(b) => Some(if *b { to_string("true") } else { to_string("false") }),
            JsonValue::Number(t) => Some(t.clone()),
            JsonValue::String(t) => Some(t.clone()),
            _ => None,
        };
        match text {
            Some(t) => {
                let mapped = map_param_name(k.as_str());
                let name = param_to_env_var(mapped);
                let mut e: Vec<char> = Vec::new();
                push_str(&mut e, name.as_str());
                push_str(&mut e, "=");
                push_str(&mut e, t.as_str());
                push_arg(args, to_string("-e"));
                push_arg(args, string_of(&e));
            },
            None => {},
        }
        assert(str_views(args@) =~= h + param_env_args(
            parameters.key_seq(),
            parameters.val_seq(),
            (i + 1) as nat,
        ));
    }
}

fn push_env_args(args: &mut Vec<String>, env: &StrMap<String>, values: &Vec<String>)
    requires
        values@.len() == env.key_seq().len(),
    ensures
        str_views(final(args)@) == str_views(old(args)@) + env_args(
            env.key_seq(),
            str_views(values@),
            env.key_seq().len(),
        ),
{
    let n = env.len();
    let ghost h = str_views(args@);
    for i in 0..n
        invariant
            n == env.key_seq().len(),
            n == values@.len(),
            str_views(args@) == h + env_args(env.key_seq(), str_views(values@), i as nat),
    {
        let k = env.key_at(i);
        let mut e: Vec<char> = Vec::new();
        push_str(&mut e, k.as_str());
        push_str(&mut e, "=");
        push_str(&mut e, values[i].as_str());
        push_arg(args, to_string("-e"));
        push_arg(args, string_of(&e));
        assert(str_views(args@) =~= h + env_args(env.key_seq(), str_views(values@), (i + 1) as nat));
    }
}

fn push_volume_args(args: &mut Vec<String>, volumes: &Vec<String>)
    ensures
        str_views(final(args)@) == str_views(old(args)@) + volume_args(
            str_views(volumes@),
            volumes@.len(),
        ),
{
    let n = volumes.len();
    let ghost h = str_views(args@);
    for i in 0..n
        invariant
            n == volumes@.len(),
            str_views(args@) == h + volume_args(str_views(volumes@), i as nat),
    {
        push_arg(args, to_string("-v"));
        push_arg(args, volumes[i].clone());
        assert(str_views(args@) =~= h + volume_args(str_views(volumes@), (i + 1) as nat));
    }
}

/// Generate Docker run arguments for a model runner. `env_values` holds the
/// configured environment values and `volumes` the configured mounts, each with
/// its `${VAR}` references expanded (see `expand_env_step`), in the configuration's order.
pub fn generate_run_args(
    config: &DockerConfig,
    model_source: &str,
    port: u16,
    parameters: &StrMap<JsonValue>,
    container_name: &str,
    env_values: &Vec<String>,
    volumes: &Vec<String>,
) -> (r: Vec<String>)
    requires
        env_values@.len() == config.env.key_seq().len(),
        volumes@.len() == config.volumes@.len(),
    ensures
        str_views(r@) == run_args(
            *config,
            model_source@,
            port,
            *parameters,
            container_name@,
            str_views(env_values@),
            str_views(volumes@),
        ),
{
    let mut args: Vec<String> = Vec::new();
    assert(str_views(args@) =~= Seq::<Seq<char>>::empty());
    push_run_options(&mut args, config, container_name);
    push_arg(&mut args, to_string("-e"));
    let mut m: Vec<char> = Vec::new();
    push_str(&mut m, "MODEL=");
    push_str(&mut m, model_source);
    push_arg(&mut args, string_of(&m));
    push_arg(&mut args, to_string("-e"));
    let mut p: Vec<char> = Vec::new();
    push_str(&mut p, "PORT=");
    push_decimal(&mut p, port as u64);
    push_arg(&mut args, string_of(&p));
    let ghost h1 = str_views(args@);
    push_param_envs(&mut args, parameters);
    let ghost h2 = str_views(args@);
    match &config.extra_args {
        Some(x) => {
            push_arg(&mut args, to_string("-e"));
            let mut e: Vec<char> = Vec::new();
            push_str(&mut e, "VLLM_EXTRA_ARGS=");
            push_str(&mut e, x.as_str());
            push_arg(&mut args, string_of(&e));
        },
        None => {},
    }
    let ghost h3 = str_views(args@);
    push_env_args(&mut args, &config.env, env_values);
    push_volume_args(&mut args, volumes);
    let image = config.effective_image(container_name);
    push_arg(&mut args, image);
    push_arg(&mut args, to_string("serve"));
    assert(str_views(args@) =~= run_args(
        *config,
        model_source@,
        port,
        *parameters,
        container_name@,
        str_views(env_values@),
        str_views(volumes@),
    ));
    args
}

/// Generate Docker build arguments
pub fn generate_build_args(dockerfile_path: &str, context_path: &str, image_name: &str) -> (r: Vec<
    String,
>)
    ensures
        str_views(r@) == seq!["build"@, "-f"@, dockerfile_path@, "-t"@, image_name@, context_path@],
{
    let mut r: Vec<String> = Vec::new();
    r.push(to_string("build"));
    r.push(to_string("-f"));
    r.push(to_string(dockerfile_path));
    r.push(to_string("-t"));
    r.push(to_string(image_name));
    r.push(to_string(context_path));
    assert(str_views(r@) =~= seq![
        "build"@,
        "-f"@,
        dockerfile_path@,
        "-t"@,
        image_name@,
        context_path@,
    ]);
    r
}

/// The arguments of `docker login` for a registry that has a token:
/// `login [-u USER] --password-stdin [URL]`; none when there is no token.
pub open spec fn login_arg_views(registry: RegistryConfig) -> Seq<Seq<char>> {
    let user = match registry.username {
        Some(u) => seq!["-u"@, u@],
        None => Seq::empty(),
    };
    let url = match registry.url {
        Some(u) => seq![u@],
        None => Seq::empty(),
    };
    seq!["login"@] + user + seq!["--password-stdin"@] + url
}

/// Generate the `docker login` arguments for a registry, with the token that goes to
/// stdin as the password; `None` when it has no token. The token is handed back as
/// written: its `${VAR}` references are expanded by the caller (see `expand_env_step`),
/// since their values come from the environment.
pub fn generate_login_args(registry: &RegistryConfig) -> (r: Option<(Vec<String>, String)>)
    ensures
        registry.token is None ==> r is None,
        registry.token matches Some(t) ==> (r matches Some((a, p)) && str_views(a@) == login_arg_views(
            *registry,
        ) && p@ == t@),
{
    if registry.token.is_none() {
        return None;
    }
    let mut args: Vec<String> = Vec::new();
    args.push(to_string("login"));
    let ghost mut expect: Seq<Seq<char>> = seq!["login"@];
    proof {
        assert(str_views(args@) =~= expect);
    }
    match &registry.username {
        Some(u) => {
            args.push(to_string("-u"));
            args.push(u.clone());
            proof {
                expect = expect + seq!["-u"@, u@];
                assert(str_views(args@) =~= expect);
            }
        },
        None => {
            proof {
                expect = expect + Seq::<Seq<char>>::empty();
                assert(str_views(args@) =~= expect);
            }
        },
    }
    args.push(to_string("--password-stdin"));
    proof {
        expect = expect + seq!["--password-stdin"@];
        assert(str_views(args@) =~= expect);
    }
    match &registry.url {
        Some(u) => {
            args.push(u.clone());
            proof {
                expect = expect + seq![u@];
                assert(str_views(args@) =~= expect);
            }
        },
        None => {
            proof {
                expect = expect + Seq::<Seq<char>>::empty();
                assert(str_views(args@) =~= expect);
            }
        },
    }
    proof {
        assert(expect =~= login_arg_views(*registry));
    }
    match &registry.token {
        Some(t) => Some((args, t.clone())),
        None => None,
    }
}

/// Generate Docker pull arguments
pub fn generate_pull_args(image: &str, registry: &Option<RegistryConfig>) -> (r: Vec<String>)
    ensures
        str_views(r@) == seq![
            "pull"@,
            match registry {
                Some(reg) => match reg.url {
                    Some(u) => u@ + "/"@ + image@,
                    None => image@,
                },
                None => image@,
            },
        ],
{
    let full_image = match registry {
        Some(reg) => match &reg.url {
            Some(url) => {
                let mut v: Vec<char> = Vec::new();
                push_str(&mut v, url.as_str());
                push_str(&mut v, "/");
                push_str(&mut v, image);
                string_of(&v)
            },
            None => to_string(image),
        },
        None => to_string(image),
    };
    let mut r: Vec<String> = Vec::new();
    r.push(to_string("pull"));
    r.push(full_image);
    proof {
        assert(str_views(r@) =~= seq!["pull"@, r@[1]@]);
    }
    r
}

/// Generate Docker stop arguments
pub fn generate_stop_args(container_name: &str) -> (r: Vec<String>)
    ensures
        str_views(r@) == seq!["stop"@, container_name@],
{
    let mut r: Vec<String> = Vec::new();
    r.push(to_string("stop"));
    r.push(to_string(container_name));
    assert(str_views(r@) =~= seq!["stop"@, container_name@]);
    r
}

/// Generate Docker rm arguments
pub fn generate_rm_args(container_name: &str) -> (r: Vec<String>)
    ensures
        str_views(r@) == seq!["rm"@, "-f"@, container_name@],
{
    let mut r: Vec<String> = Vec::new();
    r.push(to_string("rm"));
    r.push(to_string("-f"));
    r.push(to_string(container_name));
    assert(str_views(r@) =~= seq!["rm"@, "-f"@, container_name@]);
    r
}

/// `{prefix}-{model}` with `/` and `:` in the model name turned into `-`, lower-cased.
pub open spec fn container_name(prefix: Seq<char>, model_name: Seq<char>) -> Seq<char> {
    prefix + "-"@ + lowercase(replace_char(replace_char(model_name, '/', '-'), ':', '-'))
}

/// Generate a unique container name
pub fn generate_container_name(prefix: &str, model_name: &str) -> (s: String)
    ensures
        s@ == container_name(prefix@, model_name@),
{
    let m = chars_of(model_name);
    let a = replace_char_exec(&m, '/', '-');
    let b = replace_char_exec(&a, ':', '-');
    let low = lowercase_chars(&b);
    let mut v: Vec<char> = Vec::new();
    push_str(&mut v, prefix);
    push_str(&mut v, "-");
    push_all(&mut v, &low);
    string_of(&v)
}

} // verus!
