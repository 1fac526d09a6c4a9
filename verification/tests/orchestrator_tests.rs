use llmnet::config::architecture::{ArchitectureNode, NodeHooks, OutputTarget};
use llmnet::config::composition::Composition;
use llmnet::config::models::{ExternalModel, ModelDefinition};
use llmnet::runtime::orchestrator::{
    build_runtime_nodes, Action, Orchestrator, OrchestratorError, Stage,
};
use llmnet::runtime::request::PipelineRequest;
use llmnet::runtime::router::extract_node_selection;
use llmnet::strmap::StrMap;

fn node(name: &str, layer: Option<u32>, adapter: &str) -> ArchitectureNode {
    ArchitectureNode {
        name: name.to_string(),
        layer,
        model: None,
        adapter: adapter.to_string(),
        bind_addr: None,
        bind_port: None,
        output_to: None,
        use_case: None,
        condition: None,
        url: None,
        context: None,
        extra_options: StrMap::new(),
        hooks: NodeHooks::default(),
    }
}

fn create_test_composition() -> Composition {
    let mut router = node("router", Some(0), "openai-api");
    router.model = Some("router-model".to_string());
    router.output_to = Some(OutputTarget::Layers(vec![1]));
    let mut a = node("handler-a", Some(1), "openai-api");
    a.use_case = Some("Handle type A requests".to_string());
    a.output_to = Some(OutputTarget::Nodes(vec!["final-output".to_string()]));
    let mut b = node("handler-b", Some(1), "openai-api");
    b.use_case = Some("Handle type B requests".to_string());
    b.output_to = Some(OutputTarget::Nodes(vec!["final-output".to_string()]));
    let mut models = StrMap::new();
    models.insert(
        "router-model".to_string(),
        ModelDefinition::External(ExternalModel {
            interface: "openai-api".to_string(),
            url: "http://localhost:8080".to_string(),
            api_key: None,
        }),
    );
    Composition {
        models,
        architecture: vec![router, a, b, node("final-output", None, "output")],
        secrets: StrMap::new(),
        functions: StrMap::new(),
    }
}

/// Drives a request through the orchestrator; the router model always answers
/// `router_answer`, and every condition holds.
fn process(
    orchestrator: &Orchestrator,
    request: PipelineRequest,
    router_answer: &str,
) -> (Result<String, OrchestratorError>, PipelineRequest) {
    let mut p = orchestrator.start(request);
    let mut action = orchestrator.advance(&mut p);
    loop {
        action = match action {
            Action::Route { candidates, .. } => {
                let picked = extract_node_selection(router_answer, &candidates);
                orchestrator.on_routed(&mut p, picked)
            }
            Action::Evaluate { conditions } => {
                let outcomes = vec![true; conditions.len()];
                orchestrator.on_evaluated(&mut p, &outcomes)
            }
            Action::Continue => orchestrator.advance(&mut p),
            Action::Done(r) => return (r, p.request),
        };
    }
}

#[test]
fn test_build_runtime_nodes() {
    let composition = create_test_composition();
    let nodes = build_runtime_nodes(&composition);

    assert_eq!(nodes.len(), 4);
    assert!(nodes.contains_key("router"));
    assert!(nodes.contains_key("handler-a"));
    assert!(nodes.contains_key("final-output"));
    assert_eq!(nodes.get("handler-b").unwrap().bind_port, 8082);
    assert!(nodes.get("router").unwrap().model_config.is_some());
}

#[test]
fn test_orchestrator_routes_to_selected_node() {
    let orchestrator = Orchestrator::new(create_test_composition());
    let request = PipelineRequest::new("Process this request".to_string());
    let (result, req) = process(&orchestrator, request, "handler-a");
    assert_eq!(result.unwrap(), "Process this request");
    let hops: Vec<&str> = req.trace.iter().map(|h| h.node_name.as_str()).collect();
    // The handler picked at layer 0 is passed without a hop of its own.
    assert_eq!(hops, vec!["router", "final-output"]);
    assert_eq!(req.trace[0].decision, Some("handler-a".to_string()));
}

#[test]
fn test_orchestrator_with_invalid_selection() {
    let orchestrator = Orchestrator::new(create_test_composition());
    let request = PipelineRequest::new("Test".to_string());
    let (result, _) = process(&orchestrator, request, "nonexistent-node");
    assert!(result.is_err());
    assert!(matches!(result, Err(OrchestratorError::Router(_))));
}

#[test]
fn orchestrator_unconditioned_node_passes() {
    let mut comp = create_test_composition();
    let orchestrator = Orchestrator::new(comp);
    let mut p = orchestrator.start(PipelineRequest::new("x".to_string()));
    p.current_layer = 1;
    match orchestrator.advance(&mut p) {
        Action::Evaluate { conditions } => assert_eq!(conditions.len(), 2),
        other => panic!("unexpected {:?}", other),
    }
    assert!(matches!(p.stage, Stage::LayerConditions { .. }));
    // No condition is set, so a failed outcome does not stop the first handler.
    let a = orchestrator.on_evaluated(&mut p, &vec![false, false]);
    assert!(matches!(a, Action::Continue));
    assert!(matches!(&p.stage, Stage::Chosen { key } if key == "handler-a"));
}

#[test]
fn orchestrator_hop_limit() {
    let orchestrator = Orchestrator::new(create_test_composition());
    let mut p = orchestrator.start(PipelineRequest::new("x".to_string()));
    p.hop_count = orchestrator.max_hops;
    assert!(matches!(
        orchestrator.advance(&mut p),
        Action::Done(Err(OrchestratorError::MaxHopsExceeded(50)))
    ));
}

#[test]
fn orchestrator_empty_layer() {
    let orchestrator = Orchestrator::new(create_test_composition());
    let mut p = orchestrator.start(PipelineRequest::new("x".to_string()));
    p.current_layer = 7;
    assert!(matches!(
        orchestrator.advance(&mut p),
        Action::Done(Err(OrchestratorError::EmptyLayer(7)))
    ));
}
