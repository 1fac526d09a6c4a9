use llmnet::json::JsonValue;
use llmnet::runtime::{llamacpp, tensorrt_llm, vllm};
use llmnet::strmap::StrMap;

fn has(args: &[String], s: &str) -> bool {
    args.iter().any(|a| a == s)
}

fn num(s: &str) -> JsonValue {
    JsonValue::Number(s.to_string())
}

// ---------------------------------------------------------------- vLLM

#[test]
fn vllm_test_generate_args_basic() {
    let params = StrMap::new();
    let args = vllm::generate_args("meta-llama/Llama-2-7b-hf", "0.0.0.0", 8000, &params);
    for s in [
        "-m",
        "vllm.entrypoints.openai.api_server",
        "--model",
        "meta-llama/Llama-2-7b-hf",
        "--host",
        "0.0.0.0",
        "--port",
        "8000",
    ] {
        assert!(has(&args, s));
    }
    assert_eq!(args.len(), 8);
}

#[test]
fn vllm_test_generate_args_with_params() {
    let mut params = StrMap::new();
    params.insert("tensor_parallel_size".to_string(), num("2"));
    params.insert("max_model_len".to_string(), num("4096"));
    params.insert("trust_remote_code".to_string(), JsonValue::Bool(true));
    params.insert("dtype".to_string(), JsonValue::String("float16".to_string()));
    let args = vllm::generate_args("model", "localhost", 8000, &params);
    for s in [
        "--tensor-parallel-size",
        "2",
        "--max-model-len",
        "4096",
        "--trust-remote-code",
        "--dtype",
        "float16",
    ] {
        assert!(has(&args, s));
    }
    assert_eq!(
        args[8..].to_vec(),
        vec![
            "--tensor-parallel-size",
            "2",
            "--max-model-len",
            "4096",
            "--trust-remote-code",
            "--dtype",
            "float16"
        ]
    );
}

#[test]
fn vllm_false_flag_and_null_add_nothing() {
    let mut params = StrMap::new();
    params.insert("enforce_eager".to_string(), JsonValue::Bool(false));
    params.insert("other".to_string(), JsonValue::Null);
    let args = vllm::generate_args("m", "h", 1, &params);
    assert_eq!(args.len(), 8);
}

#[test]
fn vllm_test_generate_command() {
    let params = StrMap::new();
    let cmd = vllm::generate_command("llama2", "0.0.0.0", 8000, &params);
    assert!(cmd.starts_with("python -m vllm.entrypoints.openai.api_server"));
    assert!(cmd.contains("--model llama2"));
    assert_eq!(
        cmd,
        "python -m vllm.entrypoints.openai.api_server --model llama2 --host 0.0.0.0 --port 8000"
    );
}

#[test]
fn vllm_test_endpoint_url() {
    assert_eq!(vllm::endpoint_url("localhost", 8000), "http://localhost:8000/v1");
    assert_eq!(
        vllm::endpoint_url("192.168.1.100", 8080),
        "http://192.168.1.100:8080/v1"
    );
}

#[test]
fn vllm_test_default_port() {
    assert_eq!(vllm::default_port(), 8000);
}

#[test]
fn vllm_test_default_params() {
    let params = vllm::default_params();
    assert!(params.contains_key("gpu_memory_utilization"));
    assert!(params.contains_key("dtype"));
    assert!(matches!(params.get("dtype"), Some(JsonValue::String(s)) if s == "auto"));
}

#[test]
fn test_model_requires_auth() {
    assert!(vllm::model_requires_auth("meta-llama/Llama-2-7b-hf"));
    assert!(vllm::model_requires_auth("mistralai/Mistral-7B-v0.1"));
    assert!(vllm::model_requires_auth("google/gemma-7b"));
    assert!(vllm::model_requires_auth("Qwen/Qwen-7B"));
    assert!(!vllm::model_requires_auth("facebook/opt-125m"));
    assert!(!vllm::model_requires_auth("gpt2"));
}

#[test]
fn test_generate_env_vars_with_token() {
    let env = vllm::generate_env_vars(Some("hf_test_token"));
    assert_eq!(env.get("HF_TOKEN"), Some(&"hf_test_token".to_string()));
    assert_eq!(
        env.get("HUGGING_FACE_HUB_TOKEN"),
        Some(&"hf_test_token".to_string())
    );
    assert_eq!(
        env.get("TOKENIZERS_PARALLELISM"),
        Some(&"false".to_string())
    );
}

#[test]
fn test_generate_env_vars_without_token() {
    let env = vllm::generate_env_vars(None);
    assert!(env.get("HF_TOKEN").is_none());
    assert_eq!(
        env.get("TOKENIZERS_PARALLELISM"),
        Some(&"false".to_string())
    );
}

// ---------------------------------------------------------------- llama.cpp

#[test]
fn llamacpp_test_generate_args_basic() {
    let params = StrMap::new();
    let args = llamacpp::generate_args("/path/to/model.gguf", "0.0.0.0", 8080, &params);
    for s in ["--model", "/path/to/model.gguf", "--host", "0.0.0.0", "--port", "8080"] {
        assert!(has(&args, s));
    }
}

#[test]
fn llamacpp_test_generate_args_with_params() {
    let mut params = StrMap::new();
    params.insert("n_ctx".to_string(), num("4096"));
    params.insert("n_gpu_layers".to_string(), num("35"));
    params.insert("flash_attn".to_string(), JsonValue::Bool(true));
    params.insert("n_threads".to_string(), num("8"));
    let args = llamacpp::generate_args("/model.gguf", "localhost", 8080, &params);
    for s in [
        "--ctx-size",
        "4096",
        "--n-gpu-layers",
        "35",
        "--flash-attn",
        "--threads",
        "8",
    ] {
        assert!(has(&args, s));
    }
}

#[test]
fn test_parameter_aliases() {
    let mut params = StrMap::new();
    params.insert("ctx_size".to_string(), num("2048"));
    params.insert("ngl".to_string(), num("20"));
    params.insert("threads".to_string(), num("4"));
    params.insert("fa".to_string(), JsonValue::Bool(true));
    params.insert("n_batch".to_string(), num("512"));
    params.insert("rope_freq_base".to_string(), num("10000"));
    let args = llamacpp::generate_args("model.gguf", "localhost", 8080, &params);
    for s in [
        "--ctx-size",
        "--n-gpu-layers",
        "--threads",
        "--flash-attn",
        "--batch-size",
        "--rope-freq-base",
    ] {
        assert!(has(&args, s));
    }
}

#[test]
fn llamacpp_test_generate_command() {
    let params = StrMap::new();
    let cmd = llamacpp::generate_command("/model.gguf", "0.0.0.0", 8080, &params);
    assert!(cmd.starts_with("llama-server"));
    assert!(cmd.contains("--model /model.gguf"));
}

#[test]
fn llamacpp_test_endpoint_url() {
    assert_eq!(
        llamacpp::endpoint_url("localhost", 8080),
        "http://localhost:8080/v1"
    );
    assert_eq!(
        llamacpp::endpoint_url("192.168.1.100", 9000),
        "http://192.168.1.100:9000/v1"
    );
}

#[test]
fn llamacpp_test_default_port() {
    assert_eq!(llamacpp::default_port(), 8080);
}

#[test]
fn llamacpp_test_default_params() {
    let params = llamacpp::default_params();
    assert!(params.contains_key("n_ctx"));
    assert!(params.contains_key("n_gpu_layers"));
    assert!(params.contains_key("cont_batching"));
    assert!(matches!(params.get("n_gpu_layers"), Some(JsonValue::Number(n)) if n == "-1"));
}

// ---------------------------------------------------------------- TensorRT-LLM

#[test]
fn tensorrt_llm_test_generate_args_basic() {
    let params = StrMap::new();
    let args = tensorrt_llm::generate_args("meta-llama/Llama-3.2-3B", "0.0.0.0", 8000, &params);
    for s in ["-m", "tensorrt_llm.serve", "--model", "meta-llama/Llama-3.2-3B"] {
        assert!(has(&args, s));
    }
}

#[test]
fn tensorrt_llm_test_generate_args_with_params() {
    let mut params = StrMap::new();
    params.insert("max_batch_size".to_string(), num("4"));
    params.insert("max_input_len".to_string(), num("1024"));
    params.insert(
        "quantization".to_string(),
        JsonValue::String("int4_awq".to_string()),
    );
    let args = tensorrt_llm::generate_args("model", "localhost", 8000, &params);
    for s in [
        "--max-batch-size",
        "4",
        "--max-input-len",
        "--quantization",
        "int4_awq",
    ] {
        assert!(has(&args, s));
    }
}

#[test]
fn tensorrt_llm_test_generate_command() {
    let params = StrMap::new();
    let cmd = tensorrt_llm::generate_command("llama3", "0.0.0.0", 8000, &params);
    assert!(cmd.starts_with("python -m tensorrt_llm.serve"));
    assert!(cmd.contains("--model llama3"));
}

#[test]
fn tensorrt_llm_docker_args() {
    let params = StrMap::new();
    let args = tensorrt_llm::generate_docker_args("m", "0.0.0.0", 8000, &params, true, "/home/u");
    assert_eq!(args[0], "run");
    assert_eq!(args[11], "/home/u/.cache/huggingface:/root/.cache/huggingface");
    assert_eq!(args[12], "nvcr.io/nvidia/l4t-tensorrt:r36.4.0-runtime");
    assert_eq!(args[13], "-m");
    let args = tensorrt_llm::generate_docker_args("m", "0.0.0.0", 8000, &params, false, "/root");
    assert_eq!(args[12], "nvcr.io/nvidia/tritonserver:24.12-trtllm-python-py3");
    assert_eq!(args.len(), 13 + 8);
}

#[test]
fn tensorrt_llm_test_endpoint_url() {
    assert_eq!(
        tensorrt_llm::endpoint_url("localhost", 8000),
        "http://localhost:8000/v1"
    );
}

#[test]
fn tensorrt_llm_test_default_port() {
    assert_eq!(tensorrt_llm::default_port(), 8000);
}

#[test]
fn tensorrt_llm_test_default_params() {
    let params = tensorrt_llm::default_params();
    assert!(params.contains_key("max_batch_size"));
    assert!(params.contains_key("max_input_len"));
    assert!(params.contains_key("max_output_len"));
}

#[test]
fn test_jetson_nano_params() {
    let params = tensorrt_llm::jetson_nano_params();
    assert!(matches!(params.get("quantization"), Some(JsonValue::String(s)) if s == "int4_awq"));
    assert!(matches!(params.get("max_batch_size"), Some(JsonValue::Number(n)) if n == "4"));
    let nx = tensorrt_llm::jetson_nx_params();
    assert!(matches!(nx.get("quantization"), Some(JsonValue::String(s)) if s == "int8"));
}

#[test]
fn test_generate_env_vars() {
    let env = tensorrt_llm::generate_env_vars(Some("hf_test"));
    assert_eq!(env.get("HF_TOKEN"), Some(&"hf_test".to_string()));
    assert_eq!(env.get("TRT_LLM_LOG_LEVEL"), Some(&"WARNING".to_string()));
    let env = tensorrt_llm::generate_env_vars(None);
    assert!(env.get("HF_TOKEN").is_none());
    assert_eq!(env.len(), 2);
}
