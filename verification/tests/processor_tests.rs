use llmnet::client::openai::{ChatCompletionResponse, Choice, Message};
use llmnet::config::architecture::{ArchitectureNode, NodeHooks, OutputTarget};
use llmnet::config::composition::Composition;
use llmnet::config::models::{ExternalModel, ModelDefinition};
use llmnet::json::JsonValue;
use llmnet::runtime::processor::{handler_reply, PipelineProcessor, ProcessorError};
use llmnet::strmap::StrMap;

fn node(name: &str, layer: Option<u32>, adapter: &str) -> ArchitectureNode {
    ArchitectureNode {
        name: name.to_string(),
        layer,
        model: None,
        adapter: adapter.to_string(),
        bind_addr: None,
        bind_port: None,
        output_to: None,
        use_case: None,
        condition: None,
        url: None,
        context: None,
        extra_options: StrMap::new(),
        hooks: NodeHooks::default(),
    }
}

fn external(url: &str) -> ModelDefinition {
    ModelDefinition::External(ExternalModel {
        interface: "openai-api".to_string(),
        url: url.to_string(),
        api_key: None,
    })
}

fn composition(with_models: bool) -> Composition {
    let mut router = node("router", Some(0), "openai-api");
    router.output_to = Some(OutputTarget::Layers(vec![1]));
    let mut handler = node("handler", Some(1), "openai-api");
    handler.use_case = Some("General handler".to_string());
    handler.output_to = Some(OutputTarget::Nodes(vec!["output".to_string()]));
    let mut models = StrMap::new();
    if with_models {
        router.model = Some("router-model".to_string());
        handler.model = Some("handler-model".to_string());
        models.insert("router-model".to_string(), external("http://localhost:8080"));
        models.insert("handler-model".to_string(), external("http://localhost:8081"));
    }
    Composition {
        models,
        architecture: vec![router, handler, node("output", None, "output")],
        secrets: StrMap::new(),
        functions: StrMap::new(),
    }
}

#[test]
fn test_processor_creation() {
    let comp = composition(true);
    let processor = PipelineProcessor::new(&comp).unwrap();

    assert_eq!(processor.node_count(), 3);
    assert_eq!(processor.router_node_name, "router");
    assert_eq!(processor.router_model_name, "router-model");
}

#[test]
fn test_processor_no_router_model() {
    let comp = composition(false);
    let result = PipelineProcessor::new(&comp);
    assert!(matches!(result, Err(ProcessorError::RouterModelNotConfigured)));
}

#[test]
fn processor_no_router() {
    let mut comp = composition(true);
    comp.architecture[0].output_to = None;
    assert!(matches!(
        PipelineProcessor::new(&comp),
        Err(ProcessorError::NoRouter)
    ));
}

#[test]
fn processor_routing_and_handler_calls() {
    let mut comp = composition(true);
    comp.architecture[1].extra_options.insert(
        "model_override".to_string(),
        JsonValue::String("big-model".to_string()),
    );
    let processor = PipelineProcessor::new(&comp).unwrap();
    let call = processor.routing_call("hi there").unwrap();
    assert_eq!(call.client.base_url, "http://localhost:8080");
    assert_eq!(call.model, "router-model");
    assert_eq!(call.candidates.len(), 1);
    assert!(call.prompt.starts_with("Here is the user prompt: hi there\n\n"));
    assert!(call.prompt.contains("\"name\": \"handler\""));
    assert!(call.prompt.contains("\"use-case\": \"General handler\""));
    assert_eq!(call.role, "user");
    assert_eq!(call.max_tokens, 100);

    let h = processor
        .handler_call("hi there", "  handler \n", &call.candidates)
        .unwrap();
    assert_eq!(h.client.base_url, "http://localhost:8081");
    assert_eq!(h.client.model, "big-model");
    assert_eq!(h.model, "big-model");
    assert_eq!(h.content, "hi there");
    assert_eq!(h.role, "user");
    assert_eq!(h.max_tokens, 1024);

    match processor.handler_call("hi", "   ", &call.candidates) {
        Err(ProcessorError::ApiError(m)) => assert_eq!(m, "Empty response from router model"),
        other => panic!("unexpected {:?}", other),
    }
    match processor.handler_call("hi", "nobody", &call.candidates) {
        Err(ProcessorError::ApiError(m)) => {
            assert_eq!(m, "No valid node selected from response: 'nobody'")
        }
        other => panic!("unexpected {:?}", other),
    }
}

#[test]
fn processor_no_handlers() {
    let mut comp = composition(true);
    comp.architecture[0].output_to = Some(OutputTarget::Layers(vec![5]));
    let processor = PipelineProcessor::new(&comp).unwrap();
    assert!(matches!(
        processor.routing_call("x"),
        Err(ProcessorError::NoHandlers(5))
    ));
}

#[test]
fn processor_handler_reply() {
    let empty = ChatCompletionResponse {
        id: "x".to_string(),
        choices: vec![],
        usage: None,
    };
    assert_eq!(handler_reply(&empty), "No response generated");
    let one = ChatCompletionResponse {
        id: "x".to_string(),
        choices: vec![Choice {
            index: 0,
            message: Message {
                role: "assistant".to_string(),
                content: "answer".to_string(),
            },
            finish_reason: None,
        }],
        usage: None,
    };
    assert_eq!(handler_reply(&one), "answer");
}
