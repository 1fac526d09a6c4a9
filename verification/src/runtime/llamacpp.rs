//! llama.cpp server (`llama-server`) configuration and command-line arguments.
use vstd::prelude::*;

use crate::json::{JsonValue, JsonView};
use crate::runtime::server_args::{
    join, join_strings, push_server_args, server_args, v1_endpoint, v1_endpoint_url, FlagStyle,
};
use crate::strmap::StrMap;
use crate::text::{chars_of, push_str, str_views, string_of, to_string};

verus! {

/// The arguments of `llama-server`.
pub open spec fn llama_args(model: Seq<char>, host: Seq<char>, port: u16, params: StrMap<JsonValue>) -> Seq<
    Seq<char>,
> {
    server_args(model, host, port, FlagStyle::LlamaServer, params)
}

/// Generate CLI arguments for `llama-server`: `--model`, `--host`, `--port`, then the
/// parameters; `n_ctx`/`ctx_size`, `n_gpu_layers`/`ngl`, `n_threads`/`threads`, `n_batch`
/// and `flash_attn`/`fa` take llama-server's names, other keys become `--key-with-dashes`.
pub fn generate_args(model: &str, host: &str, port: u16, params: &StrMap<JsonValue>) -> (r: Vec<String>)
    ensures
        str_views(r@) == llama_args(model@, host@, port, *params),
{
    let mut args: Vec<String> = Vec::new();
    assert(str_views(args@) =~= Seq::<Seq<char>>::empty());
    push_server_args(&mut args, model, host, port, FlagStyle::LlamaServer, params);
    assert(str_views(args@) =~= llama_args(model@, host@, port, *params));
    args
}

/// Generate the command line for `llama-server`.
pub fn generate_command(model: &str, host: &str, port: u16, params: &StrMap<JsonValue>) -> (s: String)
    ensures
        s@ == "llama-server "@ + join(llama_args(model@, host@, port, *params), " "@),
{
    let args = generate_args(model, host, port, params);
    let joined = join_strings(&args, " ");
    let mut v = chars_of("llama-server ");
    push_str(&mut v, joined.as_str());
    string_of(&v)
}

/// The default port of `llama-server`.
pub fn default_port() -> (p: u16)
    ensures
        p == 8080,
{
    8080
}

/// The endpoint URL of a `llama-server` instance.
pub fn endpoint_url(host: &str, port: u16) -> (s: String)
    ensures
        s@ == v1_endpoint(host@, port),
{
    v1_endpoint_url(host, port)
}

/// Common `llama-server` parameters with reasonable defaults (all layers on the GPU).
pub fn default_params() -> (m: StrMap<JsonValue>)
    ensures
        m.key_seq() == seq!["n_ctx"@, "n_gpu_layers"@, "cont_batching"@],
        m@["n_ctx"@]@ == JsonView::Number("2048"@),
        m@["n_gpu_layers"@]@ == JsonView::Number("-1"@),
        m@["cont_batching"@]@ == JsonView::Bool(true),
{
    proof {
        reveal_strlit("n_ctx");
        reveal_strlit("n_gpu_layers");
        reveal_strlit("cont_batching");
        assert("n_ctx"@.len() != "n_gpu_layers"@.len());
        assert("n_ctx"@.len() != "cont_batching"@.len());
        assert("n_gpu_layers"@ != "cont_batching"@ ) by {
            assert("n_gpu_layers"@[0] != "cont_batching"@[0]);
        }
    }
    let mut m: StrMap<JsonValue> = StrMap::new();
    m.insert(to_string("n_ctx"), JsonValue::Number(to_string("2048")));
    assert(!m@.contains_key("n_gpu_layers"@));
    m.insert(to_string("n_gpu_layers"), JsonValue::Number(to_string("-1")));
    assert(!m@.contains_key("cont_batching"@));
    m.insert(to_string("cont_batching"), JsonValue::Bool(true));
    assert(m.key_seq() =~= seq!["n_ctx"@, "n_gpu_layers"@, "cont_batching"@]);
    m
}

} // verus!
