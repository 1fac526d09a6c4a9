use llmnet::cli::{format_dry_run, Args};
use llmnet::config::architecture::{
    ArchitectureNode, FailureAction, HookConfig, HookMode, NodeHooks, OutputTarget,
};
use llmnet::config::composition::{validate_composition, Composition, CompositionError};
use llmnet::config::functions::FunctionType;
use llmnet::config::models::{ExternalModel, ModelDefinition};
use llmnet::strmap::StrMap;

fn node(name: &str, layer: Option<u32>, adapter: &str) -> ArchitectureNode {
    ArchitectureNode {
        name: name.to_string(),
        layer,
        model: None,
        adapter: adapter.to_string(),
        bind_addr: None,
        bind_port: None,
        output_to: None,
        use_case: None,
        condition: None,
        url: None,
        context: None,
        extra_options: StrMap::new(),
        hooks: NodeHooks::default(),
    }
}

fn external(url: &str) -> ModelDefinition {
    ModelDefinition::External(ExternalModel {
        interface: "openai-api".to_string(),
        url: url.to_string(),
        api_key: None,
    })
}

fn composition(architecture: Vec<ArchitectureNode>) -> Composition {
    Composition {
        models: StrMap::new(),
        architecture,
        secrets: StrMap::new(),
        functions: StrMap::new(),
    }
}

fn hook(function: &str) -> HookConfig {
    HookConfig {
        function: function.to_string(),
        mode: HookMode::Observe,
        on_failure: FailureAction::Continue,
        condition: None,
    }
}

#[test]
fn test_validate_undefined_model() {
    let mut router = node("router", Some(0), "openai-api");
    router.model = Some("nonexistent".to_string());
    let comp = composition(vec![router, node("final-output", None, "output")]);
    let result = validate_composition(&comp);
    assert!(matches!(result, Err(CompositionError::UndefinedModel(_, _))));
}

#[test]
fn test_validate_undefined_node() {
    let mut router = node("router", Some(0), "openai-api");
    router.output_to = Some(OutputTarget::Nodes(vec!["nonexistent-node".to_string()]));
    let comp = composition(vec![router, node("final-output", None, "output")]);
    let result = validate_composition(&comp);
    assert!(matches!(result, Err(CompositionError::UndefinedNode(_))));
}

#[test]
fn test_validate_no_router() {
    let comp = composition(vec![node("final-output", None, "output")]);
    assert!(matches!(
        validate_composition(&comp),
        Err(CompositionError::NoRouterNode)
    ));
}

#[test]
fn test_validate_no_output() {
    let comp = composition(vec![node("router", Some(0), "openai-api")]);
    assert!(matches!(
        validate_composition(&comp),
        Err(CompositionError::NoOutputNode)
    ));
}

#[test]
fn validate_duplicate_name() {
    let comp = composition(vec![
        node("router", Some(0), "openai-api"),
        node("router", Some(1), "openai-api"),
        node("final-output", None, "output"),
    ]);
    assert!(matches!(
        validate_composition(&comp),
        Err(CompositionError::DuplicateNodeName(n)) if n == "router"
    ));
}

#[test]
fn test_nodes_in_layer() {
    let comp = composition(vec![
        node("router", Some(0), "openai-api"),
        node("node1", Some(1), "openai-api"),
        node("node2", Some(1), "openai-api"),
        node("final-output", None, "output"),
    ]);
    let layer1 = comp.nodes_in_layer(1);
    assert_eq!(layer1.len(), 2);
    assert_eq!(comp.output_nodes().len(), 1);
    assert!(validate_composition(&comp).is_ok());
}

#[test]
fn test_router_node() {
    let comp = composition(vec![
        node("my-router", Some(0), "openai-api"),
        node("final-output", None, "output"),
    ]);
    let router = comp.router_node().unwrap();
    assert_eq!(router.name, "my-router");
}

#[test]
fn test_node_by_name() {
    let comp = composition(vec![
        node("router", Some(0), "openai-api"),
        node("final-output", None, "output"),
    ]);
    assert!(comp.node_by_name("router").is_some());
    assert!(comp.node_by_name("nonexistent").is_none());
}

#[test]
fn test_validate_undefined_function() {
    let mut router = node("router", Some(0), "openai-api");
    router.hooks.pre.push(hook("nonexistent"));
    let comp = composition(vec![router, node("final-output", None, "output")]);
    assert!(matches!(
        validate_composition(&comp),
        Err(CompositionError::UndefinedFunction(name, _)) if name == "nonexistent"
    ));
}

#[test]
fn test_valid_hook_function_reference() {
    let mut router = node("router", Some(0), "openai-api");
    router.hooks.post.push(hook("my-hook"));
    let mut comp = composition(vec![router, node("final-output", None, "output")]);
    comp.functions.insert(
        "my-hook".to_string(),
        FunctionType::Shell {
            command: "echo".to_string(),
            args: vec!["hello".to_string()],
            env: StrMap::new(),
            cwd: None,
            timeout: 30,
        },
    );
    assert!(validate_composition(&comp).is_ok());
}

fn dry_run_args(file: &str) -> Args {
    Args {
        composition_file: file.to_string(),
        verbose: 0,
        dry_run: true,
        bind_addr: None,
        port: None,
        env_file: None,
        timeout: 30,
        max_concurrent: 100,
    }
}

#[test]
fn test_format_dry_run_basic() {
    let mut router = node("router", Some(0), "openai-api");
    router.model = Some("test-model".to_string());
    router.output_to = Some(OutputTarget::Layers(vec![1]));
    let mut node1 = node("node1", Some(1), "openai-api");
    node1.use_case = Some("Handle queries".to_string());
    let mut comp = composition(vec![router, node1, node("output", None, "output")]);
    comp.models
        .insert("test-model".to_string(), external("http://localhost:8080"));

    let output = format_dry_run(&comp, &dry_run_args("test.json"));

    assert!(output.contains("Models (1):"));
    assert!(output.contains("test-model"));
    assert!(output.contains("Layer 0 (Input/Router):"));
    assert!(output.contains("[router]"));
    assert!(output.contains("Validation: PASSED"));
}

#[test]
fn dry_run_exact_text() {
    let mut router = node("router", Some(0), "openai-api");
    router.model = Some("m".to_string());
    router.bind_port = Some("8080".to_string());
    router.output_to = Some(OutputTarget::Layers(vec![1, 2]));
    let mut h = node("h", Some(2), "openai-api");
    h.use_case = Some("x".repeat(61));
    let mut ws = node("ws-out", None, "ws");
    ws.url = Some("ws://x".to_string());
    ws.condition = Some("$A".to_string());
    let mut comp = composition(vec![router, h, ws]);
    comp.models.insert("m".to_string(), external("http://e"));
    let out = format_dry_run(&comp, &dry_run_args("c.json"));
    let want = format!(
        "llmnet v0.1.0 - Dry Run Mode\n\nComposition: c.json\n\nModels (1):\n  - m [external]\n\n\
         Pipeline Architecture:\n  Layer 0 (Input/Router):\n    [router] 0.0.0.0:8080 -> Layer [1, 2]\n      Model: m\n\
         \n  Layer 2 (Hidden):\n    [h] 0.0.0.0:auto\n      Use-case: {}...\n\
         \n  Output Layer:\n    [ws-out] adapter: ws -> ws://x\n      Condition: $A\n\
         \nValidation: PASSED\nReady to start pipeline. Remove --dry-run to execute.\n",
        "x".repeat(57)
    );
    assert_eq!(out, want);
}
