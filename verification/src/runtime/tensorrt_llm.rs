//! TensorRT-LLM server configuration and command-line arguments, for NVIDIA Jetson
//! devices and other GPUs.
use vstd::prelude::*;

use crate::json::{JsonValue, JsonView};
use crate::runtime::server_args::{
    join, join_strings, push_server_args, server_args, text_map, v1_endpoint, v1_endpoint_url,
    FlagStyle,
};
use crate::runtime::vllm::insert_hf_token;
use crate::strmap::StrMap;
use crate::text::{chars_of, push_str, str_views, string_of, to_string};

verus! {

/// The arguments of `python -m tensorrt_llm.serve`.
pub open spec fn trt_args(model: Seq<char>, host: Seq<char>, port: u16, params: StrMap<JsonValue>) -> Seq<
    Seq<char>,
> {
    seq!["-m"@, "tensorrt_llm.serve"@] + server_args(model, host, port, FlagStyle::Plain, params)
}

/// Generate CLI arguments for the TensorRT-LLM server: the module, `--model`, `--host`,
/// `--port`, then each parameter as `--key-with-dashes` (alone for `true`, followed by the
/// value for a number or a string).
pub fn generate_args(model: &str, host: &str, port: u16, params: &StrMap<JsonValue>) -> (r: Vec<String>)
    ensures
        str_views(r@) == trt_args(model@, host@, port, *params),
{
    let mut args: Vec<String> = Vec::new();
    args.push(to_string("-m"));
    args.push(to_string("tensorrt_llm.serve"));
    assert(str_views(args@) =~= seq!["-m"@, "tensorrt_llm.serve"@]);
    push_server_args(&mut args, model, host, port, FlagStyle::Plain, params);
    args
}

/// Generate the command line for the TensorRT-LLM server.
pub fn generate_command(model: &str, host: &str, port: u16, params: &StrMap<JsonValue>) -> (s: String)
    ensures
        s@ == "python "@ + join(trt_args(model@, host@, port, *params), " "@),
{
    let args = generate_args(model, host, port, params);
    let joined = join_strings(&args, " ");
    let mut v = chars_of("python ");
    push_str(&mut v, joined.as_str());
    string_of(&v)
}

/// The container image: the L4T TensorRT image on Jetson, the Triton TensorRT-LLM image elsewhere.
pub open spec fn trt_image(is_jetson: bool) -> Seq<char> {
    if is_jetson {
        "nvcr.io/nvidia/l4t-tensorrt:r36.4.0-runtime"@
    } else {
        "nvcr.io/nvidia/tritonserver:24.12-trtllm-python-py3"@
    }
}

/// The `docker run` arguments before the server's own: GPUs, host network and IPC,
/// shared memory, the HuggingFace cache of `home`, and the image.
pub open spec fn docker_head(home: Seq<char>, is_jetson: bool) -> Seq<Seq<char>> {
    seq![
        "run"@,
        "-d"@,
        "--gpus"@,
        "all"@,
        "--network"@,
        "host"@,
        "--ipc"@,
        "host"@,
        "--shm-size"@,
        "4g"@,
        "-v"@,
        home + "/.cache/huggingface:/root/.cache/huggingface"@,
        trt_image(is_jetson),
    ]
}

/// Generate the `docker run` arguments of a TensorRT-LLM container; `home` is the
/// directory whose HuggingFace cache is mounted.
pub fn generate_docker_args(
    model: &str,
    host: &str,
    port: u16,
    params: &StrMap<JsonValue>,
    is_jetson: bool,
    home: &str,
) -> (r: Vec<String>)
    ensures
        str_views(r@) == docker_head(home@, is_jetson) + trt_args(model@, host@, port, *params),
{
    let mut args: Vec<String> = Vec::new();
    args.push(to_string("run"));
    args.push(to_string("-d"));
    args.push(to_string("--gpus"));
    args.push(to_string("all"));
    args.push(to_string("--network"));
    args.push(to_string("host"));
    args.push(to_string("--ipc"));
    args.push(to_string("host"));
    args.push(to_string("--shm-size"));
    args.push(to_string("4g"));
    args.push(to_string("-v"));
    let mut mount = chars_of(home);
    push_str(&mut mount, "/.cache/huggingface:/root/.cache/huggingface");
    args.push(string_of(&mount));
    let image = if is_jetson {
        "nvcr.io/nvidia/l4t-tensorrt:r36.4.0-runtime"
    } else {
        "nvcr.io/nvidia/tritonserver:24.12-trtllm-python-py3"
    };
    args.push(to_string(image));
    assert(str_views(args@) =~= docker_head(home@, is_jetson));
    let serve = generate_args(model, host, port, params);
    let ghost head = args@;
    let n = serve.len();
    for i in 0..n
        invariant
            n == serve@.len(),
            args@ == head + serve@.take(i as int),
    {
        args.push(serve[i].clone());
        assert(serve@.take(i + 1) =~= serve@.take(i as int).push(serve@[i as int]));
    }
    assert(serve@.take(n as int) =~= serve@);
    assert(str_views(head + serve@) =~= str_views(head) + str_views(serve@));
    args
}

/// The default port of the TensorRT-LLM server.
pub fn default_port() -> (p: u16)
    ensures
        p == 8000,
{
    8000
}

/// The endpoint URL of a TensorRT-LLM instance.
pub fn endpoint_url(host: &str, port: u16) -> (s: String)
    ensures
        s@ == v1_endpoint(host@, port),
{
    v1_endpoint_url(host, port)
}

/// Four size limits, as numbers, under the names TensorRT-LLM gives them.
pub open spec fn size_params(m: StrMap<JsonValue>, batch: Seq<char>, input: Seq<char>, output: Seq<char>) -> bool {
    &&& m@["max_batch_size"@]@ == JsonView::Number(batch)
    &&& m@["max_input_len"@]@ == JsonView::Number(input)
    &&& m@["max_output_len"@]@ == JsonView::Number(output)
    &&& m@["max_beam_width"@]@ == JsonView::Number("1"@)
}

/// A map holding the four size limits, in the order batch, input, output, beam width.
fn size_limits(batch: &str, input: &str, output: &str) -> (m: StrMap<JsonValue>)
    ensures
        m.key_seq() == seq!["max_batch_size"@, "max_input_len"@, "max_output_len"@, "max_beam_width"@],
        size_params(m, batch@, input@, output@),
{
    proof {
        reveal_strlit("max_batch_size");
        reveal_strlit("max_input_len");
        reveal_strlit("max_output_len");
        reveal_strlit("max_beam_width");
        assert("max_batch_size"@ != "max_input_len"@) by {
            assert("max_batch_size"@[4] != "max_input_len"@[4]);
        }
        assert("max_batch_size"@ != "max_output_len"@) by {
            assert("max_batch_size"@[4] != "max_output_len"@[4]);
        }
        assert("max_batch_size"@ != "max_beam_width"@) by {
            assert("max_batch_size"@[5] != "max_beam_width"@[5]);
        }
        assert("max_input_len"@ != "max_output_len"@) by {
            assert("max_input_len"@[4] != "max_output_len"@[4]);
        }
        assert("max_input_len"@ != "max_beam_width"@) by {
            assert("max_input_len"@[4] != "max_beam_width"@[4]);
        }
        assert("max_output_len"@ != "max_beam_width"@) by {
            assert("max_output_len"@[4] != "max_beam_width"@[4]);
        }
    }
    let mut m: StrMap<JsonValue> = StrMap::new();
    m.insert(to_string("max_batch_size"), JsonValue::Number(to_string(batch)));
    assert(!m@.contains_key("max_input_len"@));
    m.insert(to_string("max_input_len"), JsonValue::Number(to_string(input)));
    assert(!m@.contains_key("max_output_len"@));
    m.insert(to_string("max_output_len"), JsonValue::Number(to_string(output)));
    assert(!m@.contains_key("max_beam_width"@));
    m.insert(to_string("max_beam_width"), JsonValue::Number(to_string("1")));
    assert(m.key_seq() =~= seq![
        "max_batch_size"@,
        "max_input_len"@,
        "max_output_len"@,
        "max_beam_width"@,
    ]);
    m
}

/// Common TensorRT-LLM parameters with their default values.
pub fn default_params() -> (m: StrMap<JsonValue>)
    ensures
        m.key_seq() == seq!["max_batch_size"@, "max_input_len"@, "max_output_len"@, "max_beam_width"@],
        size_params(m, "8"@, "2048"@, "512"@),
{
    size_limits("8", "2048", "512")
}

/// The size limits followed by a quantization and a share of GPU memory for the KV cache.
pub open spec fn jetson_params(
    m: StrMap<JsonValue>,
    batch: Seq<char>,
    input: Seq<char>,
    output: Seq<char>,
    quantization: Seq<char>,
    kv_fraction: Seq<char>,
) -> bool {
    &&& m.key_seq() == seq![
        "max_batch_size"@,
        "max_input_len"@,
        "max_output_len"@,
        "max_beam_width"@,
        "quantization"@,
        "kv_cache_free_gpu_mem_fraction"@,
    ]
    &&& size_params(m, batch, input, output)
    &&& m@["quantization"@]@ == JsonView::String(quantization)
    &&& m@["kv_cache_free_gpu_mem_fraction"@]@ == JsonView::Number(kv_fraction)
}

/// The size limits with a quantization and a KV-cache memory share added.
fn jetson_limits(batch: &str, input: &str, output: &str, quantization: &str, kv_fraction: &str) -> (m:
    StrMap<JsonValue>)
    ensures
        jetson_params(m, batch@, input@, output@, quantization@, kv_fraction@),
{
    let mut m = size_limits(batch, input, output);
    proof {
        reveal_strlit("max_batch_size");
        reveal_strlit("max_input_len");
        reveal_strlit("max_output_len");
        reveal_strlit("max_beam_width");
        reveal_strlit("quantization");
        reveal_strlit("kv_cache_free_gpu_mem_fraction");
        assert("quantization"@.len() != "max_batch_size"@.len());
        assert("quantization"@.len() != "max_input_len"@.len());
        assert("quantization"@.len() != "max_output_len"@.len());
        assert("quantization"@.len() != "max_beam_width"@.len());
        assert("kv_cache_free_gpu_mem_fraction"@.len() != "max_batch_size"@.len());
        assert("kv_cache_free_gpu_mem_fraction"@.len() != "max_input_len"@.len());
        assert("kv_cache_free_gpu_mem_fraction"@.len() != "max_output_len"@.len());
        assert("kv_cache_free_gpu_mem_fraction"@.len() != "max_beam_width"@.len());
        assert("kv_cache_free_gpu_mem_fraction"@.len() != "quantization"@.len());
    }
    let count: usize = m.len();
    assert(count == 4);
    assert(!m@.contains_key("quantization"@));
    m.insert(to_string("quantization"), JsonValue::String(to_string(quantization)));
    assert(!m@.contains_key("kv_cache_free_gpu_mem_fraction"@));
    m.insert(to_string("kv_cache_free_gpu_mem_fraction"), JsonValue::Number(to_string(kv_fraction)));
    assert(m.key_seq() =~= seq![
        "max_batch_size"@,
        "max_input_len"@,
        "max_output_len"@,
        "max_beam_width"@,
        "quantization"@,
        "kv_cache_free_gpu_mem_fraction"@,
    ]);
    m
}

/// Parameters for the Jetson Orin Nano (8GB): smaller batches and context, INT4 weights,
/// most of the memory for the KV cache.
pub fn jetson_nano_params() -> (m: StrMap<JsonValue>)
    ensures
        jetson_params(m, "4"@, "1024"@, "256"@, "int4_awq"@, "0.85"@),
{
    jetson_limits("4", "1024", "256", "int4_awq", "0.85")
}

/// Parameters for the Jetson Orin NX (16GB): INT8 weights.
pub fn jetson_nx_params() -> (m: StrMap<JsonValue>)
    ensures
        jetson_params(m, "8"@, "2048"@, "512"@, "int8"@, "0.8"@),
{
    jetson_limits("8", "2048", "512", "int8", "0.8")
}

/// The environment of a TensorRT-LLM process: the token under both of HuggingFace's
/// names when there is one, the log level, and tokenizer parallelism switched off.
pub open spec fn trt_env(hf_token: Option<Seq<char>>) -> Map<Seq<char>, Seq<char>> {
    let base = map!["TRT_LLM_LOG_LEVEL"@ => "WARNING"@, "TOKENIZERS_PARALLELISM"@ => "false"@];
    match hf_token {
        Some(t) => base.insert("HF_TOKEN"@, t).insert("HUGGING_FACE_HUB_TOKEN"@, t),
        None => base,
    }
}

/// Generate the environment variables of a TensorRT-LLM process.
pub fn generate_env_vars(hf_token: Option<&str>) -> (env: StrMap<String>)
    ensures
        text_map(env@) == trt_env(
            match hf_token {
                Some(t) => Some(t@),
                None => None,
            },
        ),
{
    let mut env: StrMap<String> = StrMap::new();
    match hf_token {
        Some(t) => insert_hf_token(&mut env, t),
        None => {},
    }
    env.insert(to_string("TRT_LLM_LOG_LEVEL"), to_string("WARNING"));
    env.insert(to_string("TOKENIZERS_PARALLELISM"), to_string("false"));
    proof {
        reveal_strlit("HF_TOKEN");
        reveal_strlit("HUGGING_FACE_HUB_TOKEN");
        reveal_strlit("TOKENIZERS_PARALLELISM");
        reveal_strlit("TRT_LLM_LOG_LEVEL");
        assert("TRT_LLM_LOG_LEVEL"@.len() != "HF_TOKEN"@.len());
        assert("TRT_LLM_LOG_LEVEL"@.len() != "HUGGING_FACE_HUB_TOKEN"@.len());
        assert("TRT_LLM_LOG_LEVEL"@.len() != "TOKENIZERS_PARALLELISM"@.len());
        assert("HF_TOKEN"@.len() != "TOKENIZERS_PARALLELISM"@.len());
        assert("HUGGING_FACE_HUB_TOKEN"@ != "TOKENIZERS_PARALLELISM"@) by {
            assert("HUGGING_FACE_HUB_TOKEN"@[0] != "TOKENIZERS_PARALLELISM"@[0]);
        }
        let want = trt_env(
            match hf_token {
                Some(t) => Some(t@),
                None => None,
            },
        );
        assert(text_map(env@) =~= want);
    }
    env
}

} // verus!
