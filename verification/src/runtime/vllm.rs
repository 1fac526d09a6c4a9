//! vLLM server configuration and command-line arguments.
use vstd::prelude::*;

use crate::json::{JsonValue, JsonView};
use crate::runtime::server_args::{
    join, join_strings, push_server_args, server_args, text_map, v1_endpoint, v1_endpoint_url,
    FlagStyle,
};
use crate::strmap::StrMap;
use crate::text::{chars_of, push_str, starts_with, starts_with_exec, str_views, string_of, to_string};

verus! {

/// The arguments of `python -m vllm.entrypoints.openai.api_server`.
pub open spec fn vllm_args(model: Seq<char>, host: Seq<char>, port: u16, params: StrMap<JsonValue>) -> Seq<
    Seq<char>,
> {
    seq!["-m"@, "vllm.entrypoints.openai.api_server"@] + server_args(
        model,
        host,
        port,
        FlagStyle::Plain,
        params,
    )
}

/// Generate CLI arguments for the vLLM server: the module, `--model`, `--host`, `--port`,
/// then for each parameter `--key-with-dashes` (alone for `true`, followed by the value for a
/// number or a string; `false` and other values add nothing).
pub fn generate_args(model: &str, host: &str, port: u16, params: &StrMap<JsonValue>) -> (r: Vec<String>)
    ensures
        str_views(r@) == vllm_args(model@, host@, port, *params),
{
    let mut args: Vec<String> = Vec::new();
    args.push(to_string("-m"));
    args.push(to_string("vllm.entrypoints.openai.api_server"));
    assert(str_views(args@) =~= seq!["-m"@, "vllm.entrypoints.openai.api_server"@]);
    push_server_args(&mut args, model, host, port, FlagStyle::Plain, params);
    args
}

/// Generate the command line for the vLLM server: `python` and the arguments, space-separated.
pub fn generate_command(model: &str, host: &str, port: u16, params: &StrMap<JsonValue>) -> (s: String)
    ensures
        s@ == "python "@ + join(vllm_args(model@, host@, port, *params), " "@),
{
    let args = generate_args(model, host, port, params);
    let joined = join_strings(&args, " ");
    let mut v = chars_of("python ");
    push_str(&mut v, joined.as_str());
    string_of(&v)
}

/// The default port of the vLLM server.
pub fn default_port() -> (p: u16)
    ensures
        p == 8000,
{
    8000
}

/// The endpoint URL of a vLLM instance.
pub fn endpoint_url(host: &str, port: u16) -> (s: String)
    ensures
        s@ == v1_endpoint(host@, port),
{
    v1_endpoint_url(host, port)
}

/// Common vLLM parameters with their default values.
pub fn default_params() -> (m: StrMap<JsonValue>)
    ensures
        m.key_seq() == seq!["gpu_memory_utilization"@, "dtype"@],
        m@["gpu_memory_utilization"@]@ == JsonView::Number("0.9"@),
        m@["dtype"@]@ == JsonView::String("auto"@),
{
    proof {
        reveal_strlit("gpu_memory_utilization");
        reveal_strlit("dtype");
        assert("dtype"@.len() != "gpu_memory_utilization"@.len());
    }
    let mut m: StrMap<JsonValue> = StrMap::new();
    m.insert(to_string("gpu_memory_utilization"), JsonValue::Number(to_string("0.9")));
    assert(!m@.contains_key("dtype"@));
    m.insert(to_string("dtype"), JsonValue::String(to_string("auto")));
    assert(m.key_seq() =~= seq!["gpu_memory_utilization"@, "dtype"@]);
    m
}

/// Model-name prefixes of gated models, which need a HuggingFace token.
pub open spec fn gated_prefix(model: Seq<char>) -> bool {
    ||| starts_with(model, "meta-llama/"@)
    ||| starts_with(model, "mistralai/Mistral"@)
    ||| starts_with(model, "google/gemma"@)
    ||| starts_with(model, "Qwen/"@)
}

/// Whether a model is gated (needs authentication to download).
pub fn model_requires_auth(model: &str) -> (b: bool)
    ensures
        b == gated_prefix(model@),
{
    let m = chars_of(model);
    starts_with_exec(&m, &chars_of("meta-llama/")) || starts_with_exec(
        &m,
        &chars_of("mistralai/Mistral"),
    ) || starts_with_exec(&m, &chars_of("google/gemma")) || starts_with_exec(
        &m,
        &chars_of("Qwen/"),
    )
}

/// The environment of a vLLM process: the token under both of HuggingFace's names when
/// there is one, and tokenizer parallelism switched off.
pub open spec fn vllm_env(hf_token: Option<Seq<char>>) -> Map<Seq<char>, Seq<char>> {
    match hf_token {
        Some(t) => map![
            "HF_TOKEN"@ => t,
            "HUGGING_FACE_HUB_TOKEN"@ => t,
            "TOKENIZERS_PARALLELISM"@ => "false"@,
        ],
        None => map!["TOKENIZERS_PARALLELISM"@ => "false"@],
    }
}

/// Inserts the token under both of HuggingFace's names.
pub(crate) fn insert_hf_token(env: &mut StrMap<String>, token: &str)
    ensures
        final(env)@ == old(env)@.insert("HF_TOKEN"@, final(env)@["HF_TOKEN"@]).insert(
            "HUGGING_FACE_HUB_TOKEN"@,
            final(env)@["HUGGING_FACE_HUB_TOKEN"@],
        ),
        final(env)@["HF_TOKEN"@]@ == token@,
        final(env)@["HUGGING_FACE_HUB_TOKEN"@]@ == token@,
{
    env.insert(to_string("HF_TOKEN"), to_string(token));
    env.insert(to_string("HUGGING_FACE_HUB_TOKEN"), to_string(token));
    proof {
        reveal_strlit("HF_TOKEN");
        reveal_strlit("HUGGING_FACE_HUB_TOKEN");
    }
}

/// Generate the environment variables of a vLLM process.
pub fn generate_env_vars(hf_token: Option<&str>) -> (env: StrMap<String>)
    ensures
        text_map(env@) == vllm_env(
            match hf_token {
                Some(t) => Some(t@),
                None => None,
            },
        ),
{
    let mut env: StrMap<String> = StrMap::new();
    match hf_token {
        Some(t) => insert_hf_token(&mut env, t),
        None => {},
    }
    env.insert(to_string("TOKENIZERS_PARALLELISM"), to_string("false"));
    proof {
        reveal_strlit("HF_TOKEN");
        reveal_strlit("HUGGING_FACE_HUB_TOKEN");
        reveal_strlit("TOKENIZERS_PARALLELISM");
        let want = vllm_env(
            match hf_token {
                Some(t) => Some(t@),
                None => None,
            },
        );
        assert(text_map(env@) =~= want);
    }
    env
}

/// The HuggingFace token to use, from the values of `HF_TOKEN` and then
/// `HUGGING_FACE_HUB_TOKEN` (each `None` when unset): the first that is set and not
/// empty.
pub fn choose_hf_token(hf_token: Option<&str>, hub_token: Option<&str>) -> (r: Option<String>)
    ensures
        match hf_token {
            Some(t) if t@.len() > 0 => r matches Some(x) && x@ == t@,
            _ => match hub_token {
                Some(t) if t@.len() > 0 => r matches Some(x) && x@ == t@,
                _ => r is None,
            },
        },
{
    match hf_token {
        Some(t) => {
            if !t.is_empty() {
                return Some(to_string(t));
            }
        },
        None => {},
    }
    match hub_token {
        Some(t) => {
            if !t.is_empty() {
                return Some(to_string(t));
            }
        },
        None => {},
    }
    None
}

} // verus!
