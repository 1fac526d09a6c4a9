pub mod docker;
pub mod fetch;
pub mod hooks;
pub mod ollama;
pub mod request;
pub mod modelfile_roundtrip;
pub mod node;
pub mod orchestrator;
pub mod processor;
pub mod router;
pub mod server_args;
pub mod vllm;
pub mod llamacpp;
pub mod tensorrt_llm;
pub mod ports;
